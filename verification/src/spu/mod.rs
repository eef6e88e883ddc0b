//! Sound Processing Unit registers and RAM

use vstd::prelude::*;

use crate::memory::{AccessWidth, Addressable};

verus! {

/// Number of 16bit shadow registers
pub const SHADOW_REGISTERS: usize = 0x100;

/// SPU RAM size in 16bit samples
pub const SPU_RAM_SIZE: usize = 256 * 1024;

/// Halfword indices of the registers the SPU accepts writes to: the
/// per-voice registers, the common volume and voice control
/// registers, the transfer and control registers and the reverb
/// configuration
pub open spec fn spu_store_register(index: int) -> bool {
    ||| index < 0xd0
    ||| index == 0xd1
    ||| 0xd3 <= index <= 0xd6
    ||| 0xd8 <= index <= 0xdb
    ||| 0xe0 <= index <= 0xff
}

/// Halfword indices of the registers the SPU can read back
pub open spec fn spu_load_register(index: int) -> bool {
    ||| index < 0xc0
    ||| 0xc4 <= index <= 0xc7
    ||| 0xcc <= index <= 0xcf
    ||| index == 0xd3
    ||| 0xd5 <= index <= 0xd7
    ||| index == 0xdc
    ||| index == 0xdd
}

/// Values the emulator supports for a write to register `index`: only
/// the sequential RAM transfer mode and no unsupported control bits
pub open spec fn spu_store_supported(index: int, val: u16) -> bool {
    &&& spu_store_register(index)
    &&& index == 0xd5 ==> val & 0x3f4a == 0
    &&& index == 0xd6 ==> val == 4
}

/// Shadow registers after a write of `val` to register `index`: the
/// key on/off registers update the voice status, then the value is
/// stored in the shadow register
pub open spec fn spu_shadow_after_store(shadow: Seq<u16>, index: int, val: u16) -> Seq<u16> {
    let s = if index == 0xc4 {
        shadow.update(0xce, shadow[0xce] | val)
    } else if index == 0xc5 {
        shadow.update(0xcf, shadow[0xcf] | val)
    } else if index == 0xc6 {
        shadow.update(0xce, shadow[0xce] & !val)
    } else if index == 0xc7 {
        shadow.update(0xcf, shadow[0xcf] & !val)
    } else {
        shadow
    };
    s.update(index, val)
}

/// Sound Processing Unit
pub struct Spu {
    /// Most of the SPU registers are not updated by the hardware,
    /// their value is just moved to the internal registers when
    /// needed. Therefore we can emulate those registers like a RAM of
    /// sorts.
    shadow_registers: Vec<u16>,
    /// SPU RAM: 256k 16bit samples
    ram: Vec<u16>,
    /// Write pointer in the SPU RAM
    ram_index: u32,
}

impl Spu {
    /// Shadow registers, by halfword index
    pub closed spec fn shadow(&self) -> Seq<u16> {
        self.shadow_registers@
    }

    /// Contents of the SPU RAM
    pub closed spec fn ram_view(&self) -> Seq<u16> {
        self.ram@
    }

    /// Write pointer in the SPU RAM
    pub closed spec fn ram_pointer(&self) -> u32 {
        self.ram_index
    }

    pub open spec fn wf(&self) -> bool {
        &&& self.shadow().len() == SHADOW_REGISTERS
        &&& self.ram_view().len() == SPU_RAM_SIZE
        &&& self.ram_pointer() < SPU_RAM_SIZE
    }

    pub fn new() -> (s: Spu)
        ensures
            s.wf(),
            forall|i: int| 0 <= i < SHADOW_REGISTERS ==> #[trigger] s.shadow()[i] == 0,
            forall|i: int| 0 <= i < SPU_RAM_SIZE ==> #[trigger] s.ram_view()[i] == 0xbad,
            s.ram_pointer() == 0,
    {
        let mut shadow_registers: Vec<u16> = Vec::new();
        let mut i: usize = 0;
        while i < SHADOW_REGISTERS
            invariant
                i <= SHADOW_REGISTERS,
                shadow_registers@.len() == i,
                forall|j: int| 0 <= j < i ==> #[trigger] shadow_registers@[j] == 0,
            decreases SHADOW_REGISTERS - i,
        {
            shadow_registers.push(0);
            i += 1;
        }
        let mut ram: Vec<u16> = Vec::new();
        let mut i: usize = 0;
        while i < SPU_RAM_SIZE
            invariant
                i <= SPU_RAM_SIZE,
                ram@.len() == i,
                forall|j: int| 0 <= j < i ==> #[trigger] ram@[j] == 0xbad,
            decreases SPU_RAM_SIZE - i,
        {
            ram.push(0xbad);
            i += 1;
        }
        Spu { shadow_registers, ram, ram_index: 0 }
    }

    /// Write to the SPU register at `offset` (halfword accesses only)
    pub fn store<T: Addressable>(&mut self, offset: u32, val: u32)
        requires
            old(self).wf(),
            T::spec_width() == AccessWidth::HalfWord,
            spu_store_supported((offset >> 1u32) as int, val as u16),
        ensures
            final(self).wf(),
            final(self).shadow() == spu_shadow_after_store(
                old(self).shadow(),
                (offset >> 1u32) as int,
                val as u16,
            ),
            final(self).ram_view() == if (offset >> 1u32) == 0xd4 {
                old(self).ram_view().update(old(self).ram_pointer() as int, val as u16)
            } else {
                old(self).ram_view()
            },
            final(self).ram_pointer() == if (offset >> 1u32) == 0xd4 {
                ((old(self).ram_pointer() + 1) % 0x40000) as u32
            } else if (offset >> 1u32) == 0xd3 {
                ((val as u16) as u32) << 2u32
            } else {
                old(self).ram_pointer()
            },
    {
        let val = val as u16;
        // Convert into a halfword index
        let index = (offset >> 1) as usize;
        if index == 0xc4 {
            // Voice on low
            let v = self.shadow_registers[0xce] | val;
            self.shadow_registers.set(0xce, v);
        } else if index == 0xc5 {
            // Voice on high
            let v = self.shadow_registers[0xcf] | val;
            self.shadow_registers.set(0xcf, v);
        } else if index == 0xc6 {
            // Voice off low
            let v = self.shadow_registers[0xce] & !val;
            self.shadow_registers.set(0xce, v);
        } else if index == 0xc7 {
            // Voice off high
            let v = self.shadow_registers[0xcf] & !val;
            self.shadow_registers.set(0xcf, v);
        } else if index == 0xd3 {
            // Transfer start index
            assert((val as u32) << 2u32 <= 0x3fffc) by (bit_vector);
            self.ram_index = (val as u32) << 2;
        } else if index == 0xd4 {
            // Transfer FIFO
            self.fifo_write(val);
        }
        // Control (0xd5) and transfer control (0xd6) only accept the
        // configurations checked by the precondition; all the other
        // registers are simply shadowed.
        self.shadow_registers.set(index, val);
    }

    /// Read the SPU register at `offset` (halfword accesses only)
    pub fn load<T: Addressable>(&self, offset: u32) -> (r: u32)
        requires
            self.wf(),
            T::spec_width() == AccessWidth::HalfWord,
            spu_load_register((offset >> 1u32) as int),
        ensures
            r == if (offset >> 1u32) == 0xd7 {
                (self.shadow()[0xd5] & 0x3f) as u32
            } else {
                self.shadow()[(offset >> 1u32) as int] as u32
            },
    {
        let index = (offset >> 1) as usize;
        let r = if index == 0xd7 {
            self.status()
        } else {
            self.shadow_registers[index]
        };
        r as u32
    }

    fn control(&self) -> (r: u16)
        requires
            self.wf(),
        ensures
            r == self.shadow()[0xd5],
    {
        self.shadow_registers[0xd5]
    }

    fn status(&self) -> (r: u16)
        requires
            self.wf(),
        ensures
            r == self.shadow()[0xd5] & 0x3f,
    {
        self.control() & 0x3f
    }

    fn fifo_write(&mut self, val: u16)
        requires
            old(self).wf(),
        ensures
            final(self).wf(),
            final(self).ram_view() == old(self).ram_view().update(
                old(self).ram_pointer() as int,
                val,
            ),
            final(self).ram_pointer() == ((old(self).ram_pointer() + 1) % 0x40000) as u32,
            final(self).shadow() == old(self).shadow(),
    {
        let index = self.ram_index;
        self.ram.set(index as usize, val);
        assert(((index + 1) as u32) & 0x3ffff < 0x40000 && ((index + 1) as u32) & 0x3ffff == (index
            + 1) % 0x40000) by (bit_vector)
            requires
                index < 0x40000,
        ;
        self.ram_index = (index + 1) & 0x3ffff;
    }
}

} // verus!
