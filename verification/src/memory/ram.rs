//! Main RAM and scratch pad

use vstd::prelude::*;

use super::{Addressable, AccessWidth, access_bytes, access_mask};

verus! {

/// Main PlayStation RAM: 2Megabytes
pub const RAM_SIZE: usize = 2097152;

/// ScratchPad (data cache used as fast RAM): 1Kilobyte
pub const SCRATCH_PAD_SIZE: usize = 1024;

/// Little endian value of the `n` bytes of `s` starting at `start`
pub open spec fn le_value(s: Seq<u8>, start: int, n: nat) -> u32
    decreases n,
{
    if n == 0 {
        0
    } else {
        le_value(s, start, (n - 1) as nat) | ((s[start + n - 1] as u32) << ((8 * (n - 1)) as u32))
    }
}

/// `s` with the `n` low bytes of `val` stored little endian at `start`
pub open spec fn le_store(s: Seq<u8>, start: int, n: nat, val: u32) -> Seq<u8> {
    Seq::new(
        s.len(),
        |j: int|
            if start <= j < start + n {
                (val >> ((8 * (j - start)) as u32)) as u8
            } else {
                s[j]
            },
    )
}

/// Reading back the bytes just stored returns the stored value,
/// truncated to the width of the access
pub proof fn lemma_store_then_load(s: Seq<u8>, start: int, w: AccessWidth, val: u32)
    requires
        0 <= start,
        start + access_bytes(w) <= s.len(),
    ensures
        le_value(le_store(s, start, access_bytes(w) as nat, val), start, access_bytes(w) as nat)
            == val & access_mask(w),
{
    let n = access_bytes(w) as nat;
    let t = le_store(s, start, n, val);
    reveal_with_fuel(le_value, 5);
    let b0 = val as u8;
    let b1 = (val >> 8u32) as u8;
    let b2 = (val >> 16u32) as u8;
    let b3 = (val >> 24u32) as u8;
    assert(t[start] == (val >> 0u32) as u8);
    lemma_le_bits(val);
    assert(t[start] == b0);
    if n >= 2 {
        assert(t[start + 1] == (val >> 8u32) as u8);
    }
    if n >= 4 {
        assert(t[start + 2] == (val >> 16u32) as u8);
        assert(t[start + 3] == (val >> 24u32) as u8);
    }
    let v1 = 0u32 | ((b0 as u32) << 0u32);
    let v2 = v1 | ((b1 as u32) << 8u32);
    let v3 = v2 | ((b2 as u32) << 16u32);
    let v4 = v3 | ((b3 as u32) << 24u32);
    assert(le_value(t, start, 1) == v1);
    match w {
        AccessWidth::Byte => {
        },
        AccessWidth::HalfWord => {
            assert(le_value(t, start, 2) == v2);
        },
        AccessWidth::Word => {
            assert(le_value(t, start, 2) == v2);
            assert(le_value(t, start, 3) == v3);
            assert(le_value(t, start, 4) == v4);
        },
    }
}

/// Splitting a word into little endian bytes and joining them back
proof fn lemma_le_bits(val: u32)
    by (bit_vector)
    ensures
        val >> 0u32 == val,
        0u32 | (((val as u8) as u32) << 0u32) == val & 0xff,
        0u32 | (((val as u8) as u32) << 0u32) | ((((val >> 8u32) as u8) as u32) << 8u32) == val
            & 0xffff,
        0u32 | (((val as u8) as u32) << 0u32) | ((((val >> 8u32) as u8) as u32) << 8u32) | ((((val
            >> 16u32) as u8) as u32) << 16u32) | ((((val >> 24u32) as u8) as u32) << 24u32) == val
            & 0xffff_ffff,
{
}

/// A load only depends on the bytes it reads
pub proof fn lemma_load_frame(s: Seq<u8>, t: Seq<u8>, start: int, n: nat)
    requires
        0 <= start,
        start + n <= s.len(),
        start + n <= t.len(),
        forall|j: int| start <= j < start + n ==> s[j] == t[j],
    ensures
        le_value(s, start, n) == le_value(t, start, n),
    decreases n,
{
    if n > 0 {
        lemma_load_frame(s, t, start, (n - 1) as nat);
    }
}

/// Read the `n` byte little endian value at `start` of `data`
pub(crate) fn read_le(data: &Vec<u8>, start: usize, n: u8) -> (v: u32)
    requires
        n <= 4,
        start + n <= data@.len(),
        start + n <= usize::MAX,
    ensures
        v == le_value(data@, start as int, n as nat),
{
    let mut v: u32 = 0;
    let mut i: usize = 0;
    while i < n as usize
        invariant
            i <= n,
            n <= 4,
            start + n <= data@.len(),
            start + n <= usize::MAX,
            v == le_value(data@, start as int, i as nat),
        decreases n - i,
    {
        v = v | ((data[start + i] as u32) << ((i * 8) as u32));
        i += 1;
    }
    v
}

/// Store the `n` low bytes of `val` little endian at `start` of `data`
fn write_le(data: &mut Vec<u8>, start: usize, n: u8, val: u32)
    requires
        n <= 4,
        start + n <= old(data)@.len(),
        start + n <= usize::MAX,
    ensures
        final(data)@ == le_store(old(data)@, start as int, n as nat, val),
{
    let mut i: usize = 0;
    while i < n as usize
        invariant
            i <= n,
            n <= 4,
            start + n <= data@.len(),
            start + n <= usize::MAX,
            data@.len() == old(data)@.len(),
            forall|j: int|
                0 <= j < data@.len() ==> #[trigger] data@[j] == if start <= j < start + i {
                    (val >> ((8 * (j - start)) as u32)) as u8
                } else {
                    old(data)@[j]
                },
        decreases n - i,
    {
        data.set(start + i, (val >> ((i * 8) as u32)) as u8);
        i += 1;
    }
    assert(data@ =~= le_store(old(data)@, start as int, n as nat, val));
}

/// RAM
pub struct Ram {
    /// RAM buffer
    data: Vec<u8>,
}

/// Offset of `offset` within the RAM once the mirroring is applied
pub open spec fn ram_offset(offset: u32) -> int {
    (offset & 0x1fffff) as int
}

impl Ram {
    /// RAM contents
    pub closed spec fn bytes(&self) -> Seq<u8> {
        self.data@
    }

    /// The RAM is always 2MB long
    pub open spec fn wf(&self) -> bool {
        self.bytes().len() == RAM_SIZE
    }

    /// Instantiate main RAM with garbage values
    pub fn new() -> (r: Ram)
        ensures
            r.wf(),
            forall|i: int| 0 <= i < RAM_SIZE ==> r.bytes()[i] == 0xca,
    {
        Ram { data: vec![0xca; RAM_SIZE] }
    }

    /// Fetch the little endian value at `offset`. The two MSB are
    /// ignored, the 2MB RAM is mirrored four times over the first 8MB
    /// of address space
    pub fn load<T: Addressable>(&self, offset: u32) -> (v: u32)
        requires
            self.wf(),
            ram_offset(offset) + access_bytes(T::spec_width()) <= RAM_SIZE,
        ensures
            v == le_value(self.bytes(), ram_offset(offset), access_bytes(T::spec_width()) as nat),
    {
        let offset = (offset & 0x1fffff) as usize;
        read_le(&self.data, offset, T::size())
    }

    /// Store the little endian value `val` into `offset`
    pub fn store<T: Addressable>(&mut self, offset: u32, val: u32)
        requires
            old(self).wf(),
            ram_offset(offset) + access_bytes(T::spec_width()) <= RAM_SIZE,
        ensures
            final(self).wf(),
            final(self).bytes() == le_store(
                old(self).bytes(),
                ram_offset(offset),
                access_bytes(T::spec_width()) as nat,
                val,
            ),
    {
        let offset = (offset & 0x1fffff) as usize;
        write_le(&mut self.data, offset, T::size(), val);
    }
}

/// ScratchPad memory
pub struct ScratchPad {
    data: Vec<u8>,
}

/// A load from the ScratchPad after a store at the same offset and of
/// the same width reads back the value stored, truncated to the width
/// of the access; the bytes written are the little endian bytes of
/// the value and every other byte is unchanged
pub proof fn lemma_scratch_store_then_load(o: ScratchPad, n: ScratchPad, offset: u32, w: AccessWidth, val: u32)
    requires
        o.wf(),
        offset + access_bytes(w) <= SCRATCH_PAD_SIZE,
        n.bytes() == le_store(o.bytes(), offset as int, access_bytes(w) as nat, val),
    ensures
        n.wf(),
        le_value(n.bytes(), offset as int, access_bytes(w) as nat) == val & access_mask(w),
        forall|i: int|
            0 <= i < access_bytes(w) ==> #[trigger] n.bytes()[offset + i] == (val >> ((8 * i) as u32)) as u8,
        forall|j: int|
            0 <= j < SCRATCH_PAD_SIZE && !(offset <= j < offset + access_bytes(w)) ==> #[trigger] n.bytes()[j]
                == o.bytes()[j],
{
    lemma_store_then_load(o.bytes(), offset as int, w, val);
}

impl ScratchPad {
    /// ScratchPad contents
    pub closed spec fn bytes(&self) -> Seq<u8> {
        self.data@
    }

    /// The ScratchPad is always 1kB long
    pub open spec fn wf(&self) -> bool {
        self.bytes().len() == SCRATCH_PAD_SIZE
    }

    /// Instantiate scratchpad with garbage values
    pub fn new() -> (r: ScratchPad)
        ensures
            r.wf(),
            forall|i: int| 0 <= i < SCRATCH_PAD_SIZE ==> r.bytes()[i] == 0xdb,
    {
        ScratchPad { data: vec![0xdb; SCRATCH_PAD_SIZE] }
    }

    /// Fetch the little endian value at `offset`
    pub fn load<T: Addressable>(&self, offset: u32) -> (v: u32)
        requires
            self.wf(),
            offset + access_bytes(T::spec_width()) <= SCRATCH_PAD_SIZE,
        ensures
            v == le_value(self.bytes(), offset as int, access_bytes(T::spec_width()) as nat),
    {
        read_le(&self.data, offset as usize, T::size())
    }

    /// Store the little endian value `val` into `offset`
    pub fn store<T: Addressable>(&mut self, offset: u32, val: u32)
        requires
            old(self).wf(),
            offset + access_bytes(T::spec_width()) <= SCRATCH_PAD_SIZE,
        ensures
            final(self).wf(),
            final(self).bytes() == le_store(
                old(self).bytes(),
                offset as int,
                access_bytes(T::spec_width()) as nat,
                val,
            ),
    {
        write_le(&mut self.data, offset as usize, T::size(), val);
    }
}

} // verus!
