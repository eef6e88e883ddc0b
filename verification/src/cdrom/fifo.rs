//! 16 byte FIFO used by the CD-ROM controller for command parameters
//! and responses

use vstd::prelude::*;

verus! {

/// Abstract state of a FIFO: its 16 cells and its two 5 bit pointers
/// (4 bits of index plus a carry)
pub struct FifoView {
    pub buffer: Seq<u8>,
    pub write_idx: u8,
    pub read_idx: u8,
}

/// 16 cells and pointers on 5 bits
pub open spec fn fifo_wf(f: FifoView) -> bool {
    f.buffer.len() == 16 && f.write_idx < 32 && f.read_idx < 32
}

/// Both pointers designate the same cell with the same carry
pub closed spec fn fifo_empty(f: FifoView) -> bool {
    f.write_idx == f.read_idx
}

/// Both pointers designate the same cell with a different carry
pub closed spec fn fifo_full(f: FifoView) -> bool {
    f.write_idx == f.read_idx ^ 0x10
}

/// Number of elements, in [0; 31]: bogus after an overflow, as on the
/// real hardware
pub closed spec fn fifo_len(f: FifoView) -> u8 {
    f.write_idx.wrapping_sub(f.read_idx) & 0x1f
}

/// An empty FIFO with all its cells cleared
pub closed spec fn fifo_cleared() -> FifoView {
    FifoView { buffer: Seq::new(16, |i: int| 0u8), write_idx: 0, read_idx: 0 }
}

/// `val` stored in the cell designated by the write pointer, which
/// moves forward
pub closed spec fn fifo_pushed(f: FifoView, val: u8) -> FifoView {
    FifoView {
        buffer: f.buffer.update((f.write_idx & 0xf) as int, val),
        write_idx: f.write_idx.wrapping_add(1) & 0x1f,
        ..f
    }
}

/// The FIFO after pushing every byte of `s` in order
pub closed spec fn fifo_pushed_all(f: FifoView, s: Seq<u8>) -> FifoView
    decreases s.len(),
{
    if s.len() == 0 {
        f
    } else {
        fifo_pushed_all(fifo_pushed(f, s[0]), s.drop_first())
    }
}

/// The FIFO after a pop: the read pointer moves forward
pub closed spec fn fifo_popped(f: FifoView) -> FifoView {
    FifoView { read_idx: f.read_idx.wrapping_add(1) & 0x1f, ..f }
}

/// Value returned by a pop: the cell designated by the read pointer
pub closed spec fn fifo_front(f: FifoView) -> u8 {
    f.buffer[(f.read_idx & 0xf) as int]
}

/// The elements between the read and the write pointer, oldest first
pub closed spec fn fifo_contents(f: FifoView) -> Seq<u8> {
    Seq::new(fifo_len(f) as nat, |i: int| f.buffer[(f.read_idx + i) % 16])
}

/// Pushes, pops and clears keep a FIFO well formed; a cleared FIFO is
/// empty
pub proof fn lemma_fifo_wf(f: FifoView, val: u8)
    ensures
        fifo_wf(fifo_cleared()),
        fifo_empty(fifo_cleared()),
        fifo_wf(f) ==> fifo_wf(fifo_pushed(f, val)),
        fifo_wf(f) ==> fifo_wf(fifo_popped(f)),
{
    if fifo_wf(f) {
        lemma_fifo_bits(f.write_idx, f.read_idx);
        lemma_fifo_bits(f.read_idx, f.write_idx);
    }
}

/// 16 byte FIFO used to store command arguments and responses
pub struct Fifo {
    /// Data buffer
    buffer: Vec<u8>,
    /// Write pointer (4bits + carry)
    write_idx: u8,
    /// Read pointer (4bits + carry)
    read_idx: u8,
}

impl View for Fifo {
    type V = FifoView;

    closed spec fn view(&self) -> FifoView {
        FifoView { buffer: self.buffer@, write_idx: self.write_idx, read_idx: self.read_idx }
    }
}

/// Masks of a byte seen as remainders
proof fn lemma_mask_bits(v: u8)
    by (bit_vector)
    ensures
        v & 0xf == v % 16,
        v & 0x1f == v % 32,
        v < 32 ==> v ^ 0x10 == ((v + 16) % 32) as u8,
{
}

/// Pointer arithmetic on 5 bits, seen as arithmetic modulo 32
#[verifier::rlimit(50)]
proof fn lemma_fifo_bits(w: u8, r: u8)
    requires
        w < 32,
        r < 32,
    ensures
        w & 0xf == w % 16,
        w & 0xf < 16,
        w.wrapping_add(1) & 0x1f == (w + 1) % 32,
        w.wrapping_sub(r) & 0x1f == (w + 32 - r) % 32,
        r ^ 0x10 == (r + 16) % 32,
{
    lemma_mask_bits(w);
    lemma_mask_bits(r);
    lemma_mask_bits(w.wrapping_add(1));
    lemma_mask_bits(w.wrapping_sub(r));
}

impl Fifo {
    pub fn new() -> (f: Fifo)
        ensures
            f@ == fifo_cleared(),
            fifo_wf(f@),
    {
        let f = Fifo { buffer: vec![0u8; 16], write_idx: 0, read_idx: 0 };
        assert(f@.buffer =~= fifo_cleared().buffer);
        f
    }

    /// If both pointers point at the same cell and have the same
    /// carry the FIFO is empty.
    pub fn is_empty(&self) -> (r: bool)
        ensures
            r == fifo_empty(self@),
    {
        self.write_idx == self.read_idx
    }

    /// The FIFO is full if both indexes point to the same cell while
    /// having a different carry.
    pub fn is_full(&self) -> (r: bool)
        ensures
            r == fifo_full(self@),
    {
        self.write_idx == self.read_idx ^ 0x10
    }

    pub fn clear(&mut self)
        ensures
            final(self)@ == fifo_cleared(),
            fifo_wf(final(self)@),
    {
        self.write_idx = 0;
        self.read_idx = 0;
        self.buffer = vec![0u8; 16];
        assert(self@.buffer =~= fifo_cleared().buffer);
    }

    /// Retrieve the number of elements in the FIFO. This number is in
    /// the range [0; 31] so it's potentially bogus if an overflow
    /// occured. This does seem to match the behaviour of the actual
    /// hardware though.
    pub fn len(&self) -> (r: u8)
        ensures
            r == fifo_len(self@),
    {
        (self.write_idx.wrapping_sub(self.read_idx)) & 0x1f
    }

    pub fn push(&mut self, val: u8)
        requires
            fifo_wf(old(self)@),
        ensures
            fifo_wf(final(self)@),
            final(self)@ == fifo_pushed(old(self)@, val),
    {
        proof {
            lemma_fifo_bits(self.write_idx, self.read_idx);
        }
        let idx = (self.write_idx & 0xf) as usize;
        self.buffer.set(idx, val);
        self.write_idx = self.write_idx.wrapping_add(1) & 0x1f;
    }

    pub fn push_slice(&mut self, s: &[u8])
        requires
            fifo_wf(old(self)@),
        ensures
            fifo_wf(final(self)@),
            final(self)@ == fifo_pushed_all(old(self)@, s@),
    {
        let mut i: usize = 0;
        assert(s@.subrange(0, s@.len() as int) =~= s@);
        while i < s.len()
            invariant
                i <= s@.len(),
                fifo_wf(self@),
                fifo_pushed_all(self@, s@.subrange(i as int, s@.len() as int)) == fifo_pushed_all(
                    old(self)@,
                    s@,
                ),
            decreases s@.len() - i,
        {
            assert(s@.subrange(i as int, s@.len() as int).drop_first() =~= s@.subrange(
                i + 1,
                s@.len() as int,
            ));
            self.push(s[i]);
            i += 1;
        }
        assert(s@.subrange(i as int, s@.len() as int) =~= Seq::<u8>::empty());
    }

    pub fn pop(&mut self) -> (r: u8)
        requires
            fifo_wf(old(self)@),
        ensures
            fifo_wf(final(self)@),
            final(self)@ == fifo_popped(old(self)@),
            r == fifo_front(old(self)@),
    {
        proof {
            lemma_fifo_bits(self.read_idx, self.write_idx);
        }
        let idx = (self.read_idx & 0xf) as usize;
        self.read_idx = self.read_idx.wrapping_add(1) & 0x1f;
        self.buffer[idx]
    }
}

/// The length of a FIFO in terms of its pointers
proof fn lemma_len(f: FifoView)
    requires
        fifo_wf(f),
    ensures
        f.write_idx >= f.read_idx ==> fifo_len(f) == f.write_idx - f.read_idx,
        f.write_idx < f.read_idx ==> fifo_len(f) == f.write_idx + 32 - f.read_idx,
        f.write_idx % 16 == (f.read_idx + fifo_len(f)) % 16,
{
    lemma_fifo_bits(f.write_idx, f.read_idx);
}

/// Pushing into a FIFO that holds fewer than 16 elements appends the
/// value to its contents
pub proof fn lemma_push_appends(f: FifoView, val: u8)
    requires
        fifo_wf(f),
        fifo_len(f) < 16,
    ensures
        fifo_contents(fifo_pushed(f, val)) == fifo_contents(f).push(val),
        fifo_len(fifo_pushed(f, val)) == fifo_len(f) + 1,
{
    lemma_fifo_bits(f.write_idx, f.read_idx);
    lemma_len(f);
    let g = fifo_pushed(f, val);
    lemma_fifo_bits(g.write_idx, g.read_idx);
    lemma_len(g);
    let n = fifo_len(f) as int;
    let r = f.read_idx as int;
    assert(fifo_len(g) == n + 1);
    assert forall|i: int| 0 <= i < n implies #[trigger] fifo_contents(g)[i] == fifo_contents(f)[i] by {
        assert((r + i) % 16 != (r + n) % 16);
    }
    assert(fifo_contents(g) =~= fifo_contents(f).push(val));
}

/// Popping a non-empty FIFO returns its oldest element and removes it
/// from its contents
pub proof fn lemma_pop_front(f: FifoView)
    requires
        fifo_wf(f),
        !fifo_empty(f),
    ensures
        fifo_front(f) == fifo_contents(f)[0],
        fifo_contents(fifo_popped(f)) == fifo_contents(f).drop_first(),
{
    lemma_fifo_bits(f.write_idx, f.read_idx);
    lemma_fifo_bits(f.read_idx, f.write_idx);
    lemma_len(f);
    let g = fifo_popped(f);
    lemma_fifo_bits(g.write_idx, g.read_idx);
    lemma_len(g);
    let r = f.read_idx as int;
    assert(fifo_len(g) == fifo_len(f) - 1);
    assert forall|i: int| 0 <= i < fifo_len(g) implies #[trigger] fifo_contents(g)[i] == fifo_contents(f)[i + 1] by {
        assert(g.read_idx == (r + 1) % 32);
        assert((g.read_idx + i) % 16 == (r + (i + 1)) % 16);
    }
    assert(fifo_contents(g) =~= fifo_contents(f).drop_first());
}

} // verus!
