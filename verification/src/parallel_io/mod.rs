//! Emulation of the parallel interface (the Parallel I/O connector on
//! the back of older PlayStation models)

use vstd::prelude::*;

use crate::memory::{Addressable, access_bytes, access_mask};
use crate::shared::SharedState;

verus! {

/// Since there can be all sorts of hardware connected to the Parallel
/// I/O port it is abstracted behind a trait interface
pub trait ParallelIoModule {
    /// Parallel I/O load 8bits at offset `offset` (within the
    /// expansion 1 memory region)
    fn load(&mut self, shared: &mut SharedState, offset: u32) -> (r: u8)
        ensures
            r == old(self).load_response(offset),
    ;

    /// Parallel I/O byte store at offset `offset` (within the expansion 1
    /// memory region)
    fn store(&mut self, shared: &mut SharedState, offset: u32, val: u8);

    /// What a load at `offset` reads, in the module's current state
    spec fn load_response(&self, offset: u32) -> u8;
}

/// A dummy implementation of ParallelIo when nothing is connected
pub struct Disconnected;

impl ParallelIoModule for Disconnected {
    fn load(&mut self, _shared: &mut SharedState, _offset: u32) -> (r: u8) {
        0xff
    }

    fn store(&mut self, _shared: &mut SharedState, _offset: u32, _val: u8) {
        // NOP
    }

    /// When no expansion is present the CPU reads full ones
    open spec fn load_response(&self, offset: u32) -> u8 {
        0xff
    }
}

/// Little endian value of the first `n` bytes of `bytes`
pub open spec fn le_bytes(bytes: Seq<u8>, n: nat) -> u32
    decreases n,
{
    if n == 0 || n > bytes.len() {
        0
    } else {
        le_bytes(bytes, (n - 1) as nat) | ((bytes[n - 1] as u32) << (8 * (n - 1)) as u32)
    }
}

pub struct ParallelIo {
    /// True once a module is plugged in the port
    connected: bool,
    /// The module plugged in the port, `Disconnected` until one is
    module: Box<dyn ParallelIoModule>,
    /// Loads made from the module: offset and byte read, in order
    loads: Ghost<Seq<(u32, u8)>>,
}

impl ParallelIo {
    /// Nothing is plugged in the port
    pub closed spec fn is_disconnected(&self) -> bool {
        !self.connected
    }

    /// What a load at `offset` reads from the port in its current
    /// state: the plugged module's answer, full ones when nothing is
    /// plugged
    pub closed spec fn module_response(&self, offset: u32) -> u8 {
        if self.connected {
            (*self.module).load_response(offset)
        } else {
            0xff
        }
    }

    /// Loads made from the plugged module so far: offset and byte
    /// read, in order
    pub closed spec fn module_loads(&self) -> Seq<(u32, u8)> {
        self.loads@
    }

    pub fn disconnected() -> (p: ParallelIo)
        ensures
            p.is_disconnected(),
            forall|o: u32| #[trigger] p.module_response(o) == 0xff,
            p.module_loads() == Seq::<(u32, u8)>::empty(),
    {
        ParallelIo { connected: false, module: Box::new(Disconnected), loads: Ghost(Seq::empty()) }
    }

    pub fn set_module(&mut self, module: Box<dyn ParallelIoModule>)
        ensures
            !final(self).is_disconnected(),
            forall|o: u32| #[trigger] final(self).module_response(o) == (*module).load_response(o),
            final(self).module_loads() == old(self).module_loads(),
    {
        let mut module = module;
        std::mem::swap(&mut self.module, &mut module);
        self.connected = true;
    }

    /// Load a value made of the bytes the module returns at
    /// `offset`, `offset + 1`... (little endian)
    pub fn load<T: Addressable>(&mut self, shared: &mut SharedState, offset: u32) -> (r: u32)
        requires
            // The last byte's offset fits in 32 bits
            offset + access_bytes(T::spec_width()) - 1 <= u32::MAX,
        ensures
            ({
                let n = access_bytes(T::spec_width()) as int;
                let old_loads = old(self).module_loads();
                let loads = final(self).module_loads();
                let new = loads.subrange(old_loads.len() as int, loads.len() as int);
                // One load per byte, at increasing offsets
                &&& loads.len() == old_loads.len() + n
                &&& loads.subrange(0, old_loads.len() as int) == old_loads
                &&& forall|i: int| 0 <= i < n ==> #[trigger] new[i].0 == offset + i
                // The first byte is what the port answered in its
                // state before the load
                &&& new[0].1 == old(self).module_response(offset)
                // The bytes read, combined little endian
                &&& r == le_bytes(new.map_values(|e: (u32, u8)| e.1), n as nat)
            }),
            final(self).is_disconnected() == old(self).is_disconnected(),
            // With nothing plugged in the port reads full ones
            old(self).is_disconnected() ==> r == access_mask(T::spec_width()),
            access_bytes(T::spec_width()) == 1 ==> r <= 0xff,
            access_bytes(T::spec_width()) == 2 ==> r <= 0xffff,
    {
        let size = T::size();
        let mut bytes: Vec<u8> = Vec::new();
        let ghost start = self.loads@;
        let mut i: u8 = 0;
        while i < size
            invariant
                size == access_bytes(T::spec_width()),
                i <= size,
                bytes@.len() == i,
                offset + size - 1 <= u32::MAX,
                self.loads@.len() == start.len() + i,
                self.loads@.subrange(0, start.len() as int) == start,
                forall|k: int| 0 <= k < i ==> #[trigger] self.loads@[start.len() + k] == (
                    (offset + k) as u32,
                    bytes@[k],
                ),
                i == 0 ==> *self == *old(self),
                i > 0 ==> bytes@[0] == old(self).module_response(offset),
                self.connected == old(self).connected,
                !self.connected ==> forall|k: int| 0 <= k < i ==> #[trigger] bytes@[k] == 0xff,
            decreases size - i,
        {
            let o = offset + i as u32;
            let b = if self.connected {
                self.module.load(shared, o)
            } else {
                // When no expansion is present the CPU reads full ones
                let mut d = Disconnected;
                d.load(shared, o)
            };
            proof {
                self.loads@ = self.loads@.push((o, b));
            }
            bytes.push(b);
            i += 1;
        }
        let r = combine_le(&bytes);
        proof {
            let loads = self.loads@;
            let new = loads.subrange(start.len() as int, loads.len() as int);
            assert(i == size);
            assert forall|k: int| 0 <= k < size implies #[trigger] new[k] == ((offset + k) as u32, bytes@[k]) by {
                assert(new[k] == loads[start.len() + k]);
            }
            assert(new.map_values(|e: (u32, u8)| e.1) =~= bytes@);
            assert(new[0] == loads[start.len() as int]);
            if !old(self).connected {
                lemma_le_bytes_ones(bytes@, size as nat);
            }
        }
        r
    }
}

/// Bytes that are all ones combine into full ones
proof fn lemma_le_bytes_ones(bytes: Seq<u8>, n: nat)
    requires
        n == 1 || n == 2 || n == 4,
        bytes.len() == n,
        forall|k: int| 0 <= k < n ==> #[trigger] bytes[k] == 0xff,
    ensures
        le_bytes(bytes, n) == if n == 1 {
            0xffu32
        } else if n == 2 {
            0xffffu32
        } else {
            0xffff_ffffu32
        },
{
    reveal_with_fuel(le_bytes, 5);
    assert(bytes[0] == 0xff);
    lemma_ones_bits();
    if n >= 2 {
        assert(bytes[1] == 0xff);
    }
    if n == 4 {
        assert(bytes[2] == 0xff);
        assert(bytes[3] == 0xff);
    }
}

/// Or-ing bytes of ones into place
proof fn lemma_ones_bits()
    by (bit_vector)
    ensures
        0u32 | (0xffu32 << 0u32) == 0xffu32,
        0xffu32 | (0xffu32 << 8u32) == 0xffffu32,
        0xffffu32 | (0xffu32 << 16u32) == 0xff_ffffu32,
        0xff_ffffu32 | (0xffu32 << 24u32) == 0xffff_ffffu32,
{
}

/// Combine bytes into a little endian value
pub fn combine_le(bytes: &Vec<u8>) -> (r: u32)
    requires
        bytes.len() <= 4,
    ensures
        r == le_bytes(bytes@, bytes@.len()),
        bytes.len() == 1 ==> r <= 0xff,
        bytes.len() == 2 ==> r <= 0xffff,
{
    let mut r: u32 = 0;
    let mut i: usize = 0;
    while i < bytes.len()
        invariant
            bytes.len() <= 4,
            i <= bytes.len(),
            r == le_bytes(bytes@, i as nat),
            i <= 1 ==> r <= 0xff,
            i <= 2 ==> r <= 0xffff,
        decreases bytes.len() - i,
    {
        let b = bytes[i];
        proof {
            assert(i == 0 ==> r == 0);
            let s = (8 * i) as u32;
            assert(i == 0 ==> r | ((b as u32) << s) <= 0xff) by (bit_vector)
                requires
                    i == 0 ==> r == 0,
                    s == 8 * i,
            ;
            assert(i == 1 ==> r | ((b as u32) << s) <= 0xffff) by (bit_vector)
                requires
                    i == 1 ==> r <= 0xff,
                    s == 8 * i,
            ;
        }
        r = r | ((b as u32) << ((8 * i) as u32));
        i += 1;
    }
    r
}

} // verus!
