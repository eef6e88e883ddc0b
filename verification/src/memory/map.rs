//! Address ranges of the memory-mapped devices

use vstd::prelude::*;

verus! {

/// Address range: start address and length in bytes
#[derive(Clone, Copy)]
pub struct Range(pub u32, pub u32);

/// A range is well formed when it does not wrap around the 32bit
/// address space
pub open spec fn range_wf(r: Range) -> bool {
    r.0 + r.1 <= u32::MAX
}

/// Offset of `addr` in `r`, if `r` contains it
pub open spec fn spec_contains(r: Range, addr: u32) -> Option<u32> {
    if r.0 <= addr && addr < r.0 + r.1 {
        Some((addr - r.0) as u32)
    } else {
        None
    }
}

impl Range {
    /// Return `Some(offset)` if addr is contained in `self`
    pub fn contains(self, addr: u32) -> (r: Option<u32>)
        requires
            range_wf(self),
        ensures
            r == spec_contains(self, addr),
    {
        let Range(start, length) = self;
        if addr >= start && addr < start + length {
            Some(addr - start)
        } else {
            None
        }
    }
}

/// Mask used to strip the region bits of the address. The mask is
/// selected using the 3 MSBs of the address so each entry effectively
/// matches 512MB of the address space. KSEG2 is not touched since it
/// doesn't share anything with the other regions.
pub open spec fn region_mask(index: u32) -> u32 {
    if index < 4 {
        // KUSEG: 2048MB
        0xffffffff
    } else if index == 4 {
        // KSEG0: 512MB
        0x7fffffff
    } else if index == 5 {
        // KSEG1: 512MB
        0x1fffffff
    } else {
        // KSEG2: 1024MB
        0xffffffff
    }
}

/// Address with the region bits removed
pub open spec fn spec_mask_region(addr: u32) -> u32 {
    addr & region_mask(addr >> 29u32)
}

/// Mask a CPU address to remove the region bits.
pub fn mask_region(addr: u32) -> (r: u32)
    ensures
        r == spec_mask_region(addr),
{
    // Index address space in 512MB chunks
    let index = addr >> 29;
    let mask: u32 = if index < 4 {
        0xffffffff
    } else if index == 4 {
        0x7fffffff
    } else if index == 5 {
        0x1fffffff
    } else {
        0xffffffff
    };
    addr & mask
}

/// Main RAM: 2MB mirrored four times over the first 8MB
pub open spec fn spec_ram() -> Range {
    Range(0x00000000, 0x800000)
}

/// Main RAM: 2MB mirrored four times over the first 8MB
pub fn ram() -> (r: Range)
    ensures
        r == spec_ram(),
        range_wf(r),
{
    Range(0x00000000, 0x800000)
}

/// Expansion region 1
pub open spec fn spec_expansion_1() -> Range {
    Range(0x1f000000, 0x80000)
}

/// Expansion region 1
pub fn expansion_1() -> (r: Range)
    ensures
        r == spec_expansion_1(),
        range_wf(r),
{
    Range(0x1f000000, 0x80000)
}

/// BIOS ROM
pub open spec fn spec_bios() -> Range {
    Range(0x1fc00000, 0x80000)
}

/// BIOS ROM
pub fn bios() -> (r: Range)
    ensures
        r == spec_bios(),
        range_wf(r),
{
    Range(0x1fc00000, 0x80000)
}

/// ScratchPad: data cache used as a fast 1kB RAM
pub open spec fn spec_scratch_pad() -> Range {
    Range(0x1f800000, 1024)
}

/// ScratchPad: data cache used as a fast 1kB RAM
pub fn scratch_pad() -> (r: Range)
    ensures
        r == spec_scratch_pad(),
        range_wf(r),
{
    Range(0x1f800000, 1024)
}

/// Memory latency and expansion mapping
pub open spec fn spec_mem_control() -> Range {
    Range(0x1f801000, 36)
}

/// Memory latency and expansion mapping
pub fn mem_control() -> (r: Range)
    ensures
        r == spec_mem_control(),
        range_wf(r),
{
    Range(0x1f801000, 36)
}

/// Gamepad and memory card controller
pub open spec fn spec_pad_memcard() -> Range {
    Range(0x1f801040, 32)
}

/// Gamepad and memory card controller
pub fn pad_memcard() -> (r: Range)
    ensures
        r == spec_pad_memcard(),
        range_wf(r),
{
    Range(0x1f801040, 32)
}

/// Register that has something to do with RAM configuration, configured by the BIOS
pub open spec fn spec_ram_size() -> Range {
    Range(0x1f801060, 4)
}

/// Register that has something to do with RAM configuration, configured by the BIOS
pub fn ram_size() -> (r: Range)
    ensures
        r == spec_ram_size(),
        range_wf(r),
{
    Range(0x1f801060, 4)
}

/// Interrupt Control registers (status and mask)
pub open spec fn spec_irq_control() -> Range {
    Range(0x1f801070, 8)
}

/// Interrupt Control registers (status and mask)
pub fn irq_control() -> (r: Range)
    ensures
        r == spec_irq_control(),
        range_wf(r),
{
    Range(0x1f801070, 8)
}

/// Direct Memory Access registers
pub open spec fn spec_dma() -> Range {
    Range(0x1f801080, 0x80)
}

/// Direct Memory Access registers
pub fn dma() -> (r: Range)
    ensures
        r == spec_dma(),
        range_wf(r),
{
    Range(0x1f801080, 0x80)
}

/// Timer registers
pub open spec fn spec_timers() -> Range {
    Range(0x1f801100, 0x30)
}

/// Timer registers
pub fn timers() -> (r: Range)
    ensures
        r == spec_timers(),
        range_wf(r),
{
    Range(0x1f801100, 0x30)
}

/// CDROM controller
pub open spec fn spec_cdrom() -> Range {
    Range(0x1f801800, 0x4)
}

/// CDROM controller
pub fn cdrom() -> (r: Range)
    ensures
        r == spec_cdrom(),
        range_wf(r),
{
    Range(0x1f801800, 0x4)
}

/// GPU registers
pub open spec fn spec_gpu() -> Range {
    Range(0x1f801810, 8)
}

/// GPU registers
pub fn gpu() -> (r: Range)
    ensures
        r == spec_gpu(),
        range_wf(r),
{
    Range(0x1f801810, 8)
}

/// Motion decoder registers
pub open spec fn spec_mdec() -> Range {
    Range(0x1f801820, 8)
}

/// Motion decoder registers
pub fn mdec() -> (r: Range)
    ensures
        r == spec_mdec(),
        range_wf(r),
{
    Range(0x1f801820, 8)
}

/// SPU registers
pub open spec fn spec_spu() -> Range {
    Range(0x1f801c00, 640)
}

/// SPU registers
pub fn spu() -> (r: Range)
    ensures
        r == spec_spu(),
        range_wf(r),
{
    Range(0x1f801c00, 640)
}

/// Expansion region 2
pub open spec fn spec_expansion_2() -> Range {
    Range(0x1f802000, 66)
}

/// Expansion region 2
pub fn expansion_2() -> (r: Range)
    ensures
        r == spec_expansion_2(),
        range_wf(r),
{
    Range(0x1f802000, 66)
}

/// Cache control register. Full address since it's in KSEG2
pub open spec fn spec_cache_control() -> Range {
    Range(0xfffe0130, 4)
}

/// Cache control register. Full address since it's in KSEG2
pub fn cache_control() -> (r: Range)
    ensures
        r == spec_cache_control(),
        range_wf(r),
{
    Range(0xfffe0130, 4)
}

} // verus!
