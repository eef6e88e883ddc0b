//! Which bus accesses the emulator handles, decided at run time so
//! that a frontend can stop before an access the console model does
//! not cover.

use vstd::prelude::*;

use super::AccessWidth;
use super::dma::{control_active, CHANNEL_CONTROL_MASK, Port};
use super::interconnect::{Interconnect, dma_load_ok, dma_store_supported, dma_transfer_supported,
    channel_regs_written, port_of};
use super::interrupts::SUPPORTED_IRQ_MASK;
use super::map::{mask_region, ram, scratch_pad, bios, irq_control, dma, gpu, timers, cdrom, mdec,
    spu, pad_memcard, expansion_1, expansion_2, ram_size, cache_control, mem_control};
use super::ram::{ram_offset, RAM_SIZE, SCRATCH_PAD_SIZE};
use super::bios::BIOS_SIZE;
use super::timers::MAX_DATE;
use crate::shared::SharedState;
use crate::spu::{spu_load_register, spu_store_register, spu_store_supported};
use crate::timekeeper::Peripheral;

verus! {

/// Mask selecting the bits an access of width `w` transfers
fn mask_of(w: AccessWidth) -> (m: u32)
    ensures
        m == super::access_mask(w),
{
    match w {
        AccessWidth::Byte => 0xff,
        AccessWidth::HalfWord => 0xffff,
        AccessWidth::Word => 0xffff_ffff,
    }
}

/// The DMA register at `offset` can be read
fn dma_loadable(offset: u32) -> (r: bool)
    ensures
        r == dma_load_ok(offset),
{
    let major = (offset & 0x70) >> 4;
    let minor = offset & 0xf;
    (major <= 6 && (minor == 0 || minor == 4 || minor == 8)) || (major == 7 && (minor == 0 || minor
        == 4))
}

/// The SPU register at halfword index `index` can be read back
fn spu_loadable(index: u32) -> (r: bool)
    ensures
        r == spu_load_register(index as int),
{
    index < 0xc0 || (0xc4 <= index && index <= 0xc7) || (0xcc <= index && index <= 0xcf) || index
        == 0xd3 || (0xd5 <= index && index <= 0xd7) || index == 0xdc || index == 0xdd
}

/// The SPU accepts `val` in the register at halfword index `index`
fn spu_storable(index: u32, val: u16) -> (r: bool)
    ensures
        r == spu_store_supported(index as int, val),
{
    let register = index < 0xd0 || index == 0xd1 || (0xd3 <= index && index <= 0xd6) || (0xd8
        <= index && index <= 0xdb) || (0xe0 <= index && index <= 0xff);
    assert(register == spu_store_register(index as int));
    register && (index != 0xd5 || val & 0x3f4a == 0) && (index != 0xd6 || val == 4)
}

/// The transfer programmed by `ctrl` on the port of channel `major`
/// is one the emulator performs
fn transfer_supported(ctrl: u32, major: u32) -> (r: bool)
    requires
        major <= 6,
    ensures
        r == dma_transfer_supported(ctrl, port_of(major)),
{
    let sync = (ctrl >> 9) & 3;
    let from_ram = ctrl & 1 != 0;
    if sync != 0 && sync != 1 {
        from_ram && major == 2
    } else if from_ram {
        major == 2 || major == 0
    } else {
        major == 6 || major == 2 || major == 3
    }
}

/// A RAM offset (mirrors folded) is below 2MB
proof fn lemma_ram_offset_bound(offset: u32)
    ensures
        offset & 0x1fffff <= 0x1fffff,
{
    assert(offset & 0x1fffff <= 0x1fffff) by (bit_vector);
}

impl Interconnect {
    /// The emulator handles a load of width `w` at `addr`
    pub fn supports_load(&self, w: AccessWidth, addr: u32) -> (r: bool)
        requires
            self.wf(),
        ensures
            r == self.load_supported(w, addr),
    {
        let abs_addr = mask_region(addr);
        let n = w.bytes() as u32;
        if let Some(offset) = ram().contains(abs_addr) {
            proof {
                lemma_ram_offset_bound(offset);
            }
            return (offset & 0x1fffff) + n <= RAM_SIZE as u32;
        }
        if let Some(offset) = scratch_pad().contains(abs_addr) {
            // No ScratchPad access through uncached memory
            return addr <= 0xa0000000 && offset + n <= SCRATCH_PAD_SIZE as u32;
        }
        if let Some(offset) = bios().contains(abs_addr) {
            return offset + n <= BIOS_SIZE as u32;
        }
        if let Some(offset) = irq_control().contains(abs_addr) {
            return offset == 0 || offset == 4;
        }
        if let Some(offset) = dma().contains(abs_addr) {
            return w == AccessWidth::Word && dma_loadable(offset);
        }
        if let Some(_) = gpu().contains(abs_addr) {
            return false;
        }
        if let Some(offset) = timers().contains(abs_addr) {
            let reg = offset & 0xf;
            return w != AccessWidth::Byte && offset >> 4 < 3 && (reg == 0 || reg == 4 || reg == 8);
        }
        if let Some(_) = cdrom().contains(abs_addr) {
            // What the controller does not handle is an error
            return true;
        }
        if let Some(_) = mdec().contains(abs_addr) {
            return true;
        }
        if let Some(offset) = spu().contains(abs_addr) {
            return w == AccessWidth::HalfWord && spu_loadable(offset >> 1);
        }
        if let Some(offset) = pad_memcard().contains(abs_addr) {
            // RX: byte accesses only
            return (offset == 0 || offset == 4 || offset == 10 || offset == 14) && (offset != 0 || n == 1);
        }
        expansion_1().contains(abs_addr).is_some() || ram_size().contains(abs_addr).is_some()
    }

    /// The emulator handles a store of width `w` of `val` at `addr`
    pub fn supports_store(&self, w: AccessWidth, addr: u32, val: u32) -> (r: bool)
        requires
            self.wf(),
        ensures
            r == self.store_supported(w, addr, val),
    {
        let abs_addr = mask_region(addr);
        let n = w.bytes() as u32;
        let v = val & mask_of(w);
        if let Some(offset) = ram().contains(abs_addr) {
            proof {
                lemma_ram_offset_bound(offset);
            }
            return (offset & 0x1fffff) + n <= RAM_SIZE as u32;
        }
        if let Some(offset) = scratch_pad().contains(abs_addr) {
            // No ScratchPad access through uncached memory
            return addr <= 0xa0000000 && offset + n <= SCRATCH_PAD_SIZE as u32;
        }
        if let Some(offset) = irq_control().contains(abs_addr) {
            // Only the interrupts the emulator supports may be unmasked
            return offset == 0 || (offset == 4 && (v as u16) & !SUPPORTED_IRQ_MASK == 0);
        }
        if let Some(offset) = dma().contains(abs_addr) {
            return w == AccessWidth::Word && self.dma_write_supported(offset, v);
        }
        if let Some(_) = gpu().contains(abs_addr) {
            return true;
        }
        if let Some(offset) = timers().contains(abs_addr) {
            let reg = offset & 0xf;
            let val16 = v as u16;
            if w == AccessWidth::Byte || offset >> 4 >= 3 || !(reg == 0 || reg == 4 || reg == 8) {
                return false;
            }
            // Only free running timers without interrupt requests
            if reg == 4 {
                return val16 & 1 == 0 && (val16 >> 10) & 1 == 0;
            }
            return self.timers().free_running_at((offset >> 4) as usize);
        }
        if let Some(_) = cdrom().contains(abs_addr) {
            // What the controller does not handle is an error
            return true;
        }
        if let Some(_) = mdec().contains(abs_addr) {
            return true;
        }
        if let Some(offset) = spu().contains(abs_addr) {
            return w == AccessWidth::HalfWord && spu_storable(offset >> 1, v as u16);
        }
        if let Some(offset) = pad_memcard().contains(abs_addr) {
            // TX: byte accesses only. Control: byte accesses are not
            // handled
            return (offset == 0 || offset == 8 || offset == 10 || offset == 14) && (offset != 0 || n
                == 1) && (offset != 10 || n != 1);
        }
        if let Some(_) = cache_control().contains(abs_addr) {
            return w == AccessWidth::Word;
        }
        if let Some(offset) = mem_control().contains(abs_addr) {
            // Expansion 1 and 2 base addresses are fixed
            return (offset != 0 || v == 0x1f000000) && (offset != 4 || v == 0x1f802000);
        }
        if let Some(_) = ram_size().contains(abs_addr) {
            return w == AccessWidth::Word;
        }
        expansion_2().contains(abs_addr).is_some()
    }

    /// The emulator handles a load of width `w` at `addr` in the shared
    /// state `shared`
    pub fn handles_load(&self, shared: &SharedState, w: AccessWidth, addr: u32) -> (r: bool)
        requires
            self.wf(),
            shared.time().wf(),
        ensures
            r == self.load_ok_at(*shared, w, addr),
    {
        if !self.supports_load(w, addr) {
            return false;
        }
        if pad_memcard().contains(mask_region(addr)).is_some() {
            let tk = shared.time_keeper();
            let date = tk.now();
            if date > MAX_DATE - 5 {
                return false;
            }
            proof {
                shared.time().lemma_ticked(5);
            }
            let delta = date + 5 - tk.last_sync(Peripheral::PadMemCard);
            return self.pad_memcard().sync_ok_after(delta);
        }
        true
    }

    /// The emulator handles a store of width `w` of `val` at `addr` in
    /// the shared state `shared`
    pub fn handles_store(&self, shared: &SharedState, w: AccessWidth, addr: u32, val: u32) -> (r: bool)
        requires
            self.wf(),
            shared.time().wf(),
        ensures
            r == self.store_ok_at(*shared, w, addr, val),
    {
        if !self.supports_store(w, addr, val) {
            return false;
        }
        if let Some(offset) = pad_memcard().contains(mask_region(addr)) {
            let tk = shared.time_keeper();
            let date = tk.now();
            if date > MAX_DATE {
                return false;
            }
            let delta = date - tk.last_sync(Peripheral::PadMemCard);
            return self.pad_memcard().store_ok(delta, offset, w.bytes(), val & mask_of(w));
        }
        true
    }

    /// The write of `val` to the DMA register at `offset` is one the
    /// emulator handles
    fn dma_write_supported(&self, offset: u32, val: u32) -> (r: bool)
        requires
            self.wf(),
        ensures
            r == dma_store_supported(self.dma_state(), offset, val),
    {
        let major = (offset & 0x70) >> 4;
        let minor = offset & 0xf;
        if major > 6 {
            return minor == 0 || minor == 4;
        }
        if !(minor == 0 || minor == 4 || minor == 8) {
            return false;
        }
        // Sync mode 3 does not exist
        if minor == 8 && (val >> 9) & 3 == 3 {
            return false;
        }
        let port = Port::from_index(major);
        let channel = self.dma().channel(port);
        proof {
            assert(port == port_of(major));
        }
        let ctrl = if minor == 8 {
            val & CHANNEL_CONTROL_MASK
        } else {
            channel.control()
        };
        assert(ctrl == channel_regs_written(self.dma_state().channels_view()[major as int], minor, val).2);
        let enable = (ctrl >> 24) & 1 != 0;
        let trigger = (ctrl >> 28) & 1 != 0;
        let active = enable && ((ctrl >> 9) & 3 != 0 || trigger);
        assert(active == control_active(ctrl));
        !active || transfer_supported(ctrl, major)
    }
}

} // verus!
