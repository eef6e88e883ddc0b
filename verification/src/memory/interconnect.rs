//! Global interconnect: routes the CPU memory accesses to the RAM,
//! BIOS and peripherals and runs the DMA transfers.

use vstd::prelude::*;

use super::{AccessWidth, Addressable, CacheControl, access_bytes, access_mask};
use super::bios::{Bios, BIOS_SIZE};
use super::dma::{Dma, Channel, Direction, Port, Step, Sync, port_index, control_active,
    control_direction, control_step, control_sync, CHANNEL_CONTROL_MASK, NUM_CHANNELS};
use super::interrupts::{Interrupt, InterruptState, SUPPORTED_IRQ_MASK};
use super::map::{Range, spec_contains, spec_mask_region};
use super::ram::{Ram, ScratchPad, RAM_SIZE, SCRATCH_PAD_SIZE, le_value, le_store, ram_offset,
    lemma_store_then_load};
use super::timers::{Timers, GpuClocks, gpu_clocks_wf, timer_delta, timers_after_load,
    timers_after_store, timers_load_value, timer_synced_sheets, timer_peripheral, MAX_DATE};
use crate::cdrom::CdRom;
use crate::cdrom::controller::world;
use crate::cdrom::disc::Disc;
use crate::cdrom::model::{CdError, CdRomView, CdWorld, cd_wf};
use crate::padmemcard::{PadMemCard, PadRegs, sync_ok, synced_regs, sync_raises, control_ok,
    control_written, stat_value, control_value, sync_next, BusState, pad_stored, tx_reply,
    lemma_tx_answer_read_back};
use crate::shared::SharedState;
use crate::spu::{Spu, spu_load_register, spu_store_supported, spu_shadow_after_store};
use crate::timekeeper::{Peripheral, TimeKeeper, TimeSheet, TkView, peripheral_index};

verus! {

/// `addr` (region bits stripped) falls in `r`
pub open spec fn in_region(r: Range, addr: u32) -> bool {
    spec_contains(r, spec_mask_region(addr)) is Some
}

/// Offset of `addr` (region bits stripped) in `r`
pub open spec fn region_offset(r: Range, addr: u32) -> u32 {
    (spec_mask_region(addr) - r.0) as u32
}

/// DMA registers that can be read: the three registers of each
/// channel and the control and interrupt registers
pub open spec fn dma_load_ok(offset: u32) -> bool {
    let major = (offset & 0x70) >> 4u32;
    let minor = offset & 0xf;
    ||| major <= 6 && (minor == 0 || minor == 4 || minor == 8)
    ||| major == 7 && (minor == 0 || minor == 4)
}

/// Value read from the DMA register at `offset`
pub open spec fn dma_reg_value(d: Dma, offset: u32) -> u32 {
    let major = (offset & 0x70) >> 4u32;
    let minor = offset & 0xf;
    if major <= 6 {
        let c = d.channels_view()[major as int];
        if minor == 0 {
            c.base_reg()
        } else if minor == 4 {
            c.block_ctrl()
        } else {
            c.ctrl()
        }
    } else if minor == 0 {
        d.control_reg()
    } else {
        d.interrupt_reg()
    }
}

/// Words written to the RAM or sent to the GPU by a block DMA
/// transfer of `remsz` words starting at `addr`: the resulting RAM
/// contents and GPU writes
pub open spec fn dma_block(
    ram: Seq<u8>,
    gpu: Seq<(u32, u32)>,
    port: Port,
    dir: Direction,
    step: Step,
    addr: u32,
    remsz: u32,
) -> (Seq<u8>, Seq<(u32, u32)>)
    decreases remsz,
{
    if remsz == 0 {
        (ram, gpu)
    } else {
        // The RAM address wraps and the two LSB are ignored
        let cur = addr & 0x1ffffc;
        let next = if step == Step::Increment {
            addr.wrapping_add(4)
        } else {
            addr.wrapping_add(0xffff_fffc)
        };
        if dir == Direction::FromRam {
            let gpu2 = if port == Port::Gpu {
                gpu.push((0u32, le_value(ram, cur as int, 4)))
            } else {
                gpu
            };
            dma_block(ram, gpu2, port, dir, step, next, (remsz - 1) as u32)
        } else {
            let word: u32 = if port == Port::Otc {
                // Clear ordering table: the last entry contains the
                // end of table marker, the others point to the
                // previous entry
                if remsz == 1 {
                    0xffffff
                } else {
                    addr.wrapping_sub(4) & 0x1fffff
                }
            } else {
                // GPU reads are not implemented
                0
            };
            dma_block(le_store(ram, cur as int, 4, word), gpu, port, dir, step, next, (remsz - 1) as u32)
        }
    }
}

/// GPU writes after sending the `remsz` words that follow the header
/// at `addr` of a linked list packet
pub open spec fn dma_packet(ram: Seq<u8>, gpu: Seq<(u32, u32)>, addr: u32, remsz: u32) -> Seq<(u32, u32)>
    decreases remsz,
{
    if remsz == 0 {
        gpu
    } else {
        let a = ((addr + 4) as u32) & 0x1ffffc;
        dma_packet(ram, gpu.push((0u32, le_value(ram, a as int, 4))), a, (remsz - 1) as u32)
    }
}

/// Largest number of packets walked by a linked list transfer: there
/// are no more distinct packet addresses in the RAM, a longer list
/// loops forever
pub const DMA_LIST_MAX_PACKETS: u32 = 0x80000;

/// GPU writes of a linked list DMA transfer starting with the packet
/// at `addr`, walking at most `fuel` packets. Each packet starts with
/// a header word whose high byte is the number of words that follow;
/// bit 23 marks the end of the list, the other bits point to the next
/// packet.
pub open spec fn dma_list(ram: Seq<u8>, gpu: Seq<(u32, u32)>, addr: u32, fuel: u32) -> Seq<(u32, u32)>
    decreases fuel,
{
    if fuel == 0 {
        gpu
    } else {
        let header = le_value(ram, addr as int, 4);
        let gpu2 = dma_packet(ram, gpu, addr, header >> 24u32);
        if header & 0x800000 != 0 {
            gpu2
        } else {
            dma_list(ram, gpu2, header & 0x1ffffc, (fuel - 1) as u32)
        }
    }
}

/// Channel registers after a write of `val` to the channel register
/// `minor` (0: base, 4: block control, 8: control): base, block
/// control and control values
pub open spec fn channel_regs_written(c: Channel, minor: u32, val: u32) -> (u32, u32, u32) {
    (
        if minor == 0 {
            val & 0xffffff
        } else {
            c.base_reg()
        },
        if minor == 4 {
            val
        } else {
            c.block_ctrl()
        },
        if minor == 8 {
            val & CHANNEL_CONTROL_MASK
        } else {
            c.ctrl()
        },
    )
}

/// Number of words of a block transfer
pub open spec fn block_transfer_size(ctrl: u32, block: u32) -> u32 {
    if control_sync(ctrl) == Sync::Manual {
        block & 0xffff
    } else {
        ((block >> 16u32) * (block & 0xffff)) as u32
    }
}

/// Transfers the emulator supports: GPU command lists, RAM to GPU or
/// MDEC block transfers, ordering table clears and (unimplemented,
/// zero filled) GPU reads
pub open spec fn dma_transfer_supported(ctrl: u32, port: Port) -> bool {
    if control_sync(ctrl) == Sync::LinkedList {
        control_direction(ctrl) == Direction::FromRam && port == Port::Gpu
    } else if control_direction(ctrl) == Direction::FromRam {
        port == Port::Gpu || port == Port::MDecIn
    } else {
        port == Port::Otc || port == Port::Gpu || port == Port::CdRom
    }
}

/// DMA register writes the emulator supports
pub open spec fn dma_store_supported(d: Dma, offset: u32, val: u32) -> bool {
    let major = (offset & 0x70) >> 4u32;
    let minor = offset & 0xf;
    if major <= 6 {
        let (base, block, ctrl) = channel_regs_written(d.channels_view()[major as int], minor, val);
        &&& minor == 0 || minor == 4 || minor == 8
        // Sync mode 3 does not exist
        &&& minor == 8 ==> (val >> 9u32) & 3 != 3
        &&& control_active(ctrl) ==> dma_transfer_supported(ctrl, port_of(major))
    } else {
        minor == 0 || minor == 4
    }
}

/// Port of channel number `i`
pub open spec fn port_of(i: u32) -> Port {
    if i == 0 {
        Port::MDecIn
    } else if i == 1 {
        Port::MDecOut
    } else if i == 2 {
        Port::Gpu
    } else if i == 3 {
        Port::CdRom
    } else if i == 4 {
        Port::Spu
    } else if i == 5 {
        Port::Pio
    } else {
        Port::Otc
    }
}

/// RAM contents and GPU writes after the transfer programmed by the
/// channel registers `base`, `block` and `ctrl` on `port`
pub open spec fn dma_transfer(
    ram: Seq<u8>,
    gpu: Seq<(u32, u32)>,
    port: Port,
    base: u32,
    block: u32,
    ctrl: u32,
) -> (Seq<u8>, Seq<(u32, u32)>) {
    if control_sync(ctrl) == Sync::LinkedList {
        (ram, dma_list(ram, gpu, base & 0x1ffffc, DMA_LIST_MAX_PACKETS))
    } else {
        dma_block(
            ram,
            gpu,
            port,
            control_direction(ctrl),
            control_step(ctrl),
            base,
            block_transfer_size(ctrl, block),
        )
    }
}

/// RAM contents and CDROM controller after a block DMA transfer of
/// `remsz` words read from the CDROM controller to the RAM at `addr`,
/// or the error of the first word the controller cannot hand out
pub open spec fn cd_dma_block(ram: Seq<u8>, cd: CdRomView, step: Step, addr: u32, remsz: u32) -> Result<
    (Seq<u8>, CdRomView),
    CdError,
>
    decreases remsz,
{
    if remsz == 0 {
        Ok((ram, cd))
    } else {
        match crate::cdrom::model::dma_read(cd) {
            Err(e) => Err(e),
            Ok((cd2, word)) => {
                // The RAM address wraps and the two LSB are ignored
                let cur = addr & 0x1ffffc;
                let next = if step == Step::Increment {
                    addr.wrapping_add(4)
                } else {
                    addr.wrapping_add(0xffff_fffc)
                };
                cd_dma_block(le_store(ram, cur as int, 4, word), cd2, step, next, (remsz - 1) as u32)
            },
        }
    }
}

/// RAM contents, GPU writes and CDROM controller after the transfer
/// programmed by the channel registers `base`, `block` and `ctrl` on
/// `port`, or the error the CDROM controller answers
pub open spec fn dma_transfer_cd(
    ram: Seq<u8>,
    gpu: Seq<(u32, u32)>,
    cd: CdRomView,
    port: Port,
    base: u32,
    block: u32,
    ctrl: u32,
) -> Result<(Seq<u8>, Seq<(u32, u32)>, CdRomView), CdError> {
    if port == Port::CdRom {
        match cd_dma_block(ram, cd, control_step(ctrl), base, block_transfer_size(ctrl, block)) {
            Ok((r, c)) => Ok((r, gpu, c)),
            Err(e) => Err(e),
        }
    } else {
        let (r, g) = dma_transfer(ram, gpu, port, base, block, ctrl);
        Ok((r, g, cd))
    }
}

/// The write of `val` to the DMA register at `offset` starts a
/// transfer from the CDROM controller, which answers with the error
/// `e`
pub open spec fn dma_store_failed(o: Interconnect, offset: u32, val: u32, e: CdError) -> bool {
    let major = (offset & 0x70) >> 4u32;
    let minor = offset & 0xf;
    let (base, block, ctrl) = channel_regs_written(o.dma_state().channels_view()[major as int], minor, val);
    &&& major <= 6
    &&& control_active(ctrl)
    &&& dma_transfer_cd(o.ram_state().bytes(), o.gpu_writes_view(), o.cdrom_view(), port_of(major), base, block, ctrl)
        == Err::<(Seq<u8>, Seq<(u32, u32)>, CdRomView), CdError>(e)
}

/// A load of width `w` at `addr` reaches the CDROM controller, which
/// answers with the error `e`
pub open spec fn load_failed(o: Interconnect, os: SharedState, w: AccessWidth, addr: u32, e: CdError) -> bool {
    &&& in_region(crate::memory::map::spec_cdrom(), addr)
    &&& cd_load_outcome(o, os, w, addr) == Err::<(CdWorld, u8), CdError>(e)
}

/// A store of `val`, of width `w`, at `addr` reaches the CDROM
/// controller, directly or through a DMA transfer it starts, which
/// answers with the error `e`
pub open spec fn store_failed(o: Interconnect, os: SharedState, w: AccessWidth, addr: u32, val: u32, e: CdError) -> bool {
    if in_region(crate::memory::map::spec_cdrom(), addr) {
        cd_store_outcome(o, os, w, addr, val) == Err::<CdWorld, CdError>(e)
    } else {
        &&& in_region(crate::memory::map::spec_dma(), addr)
        &&& dma_store_failed(o, region_offset(crate::memory::map::spec_dma(), addr), val & access_mask(w), e)
    }
}

/// Relation between the state before (`o`, `os`) and after (`n`,
/// `ns`) a write of `val` to the DMA register at `offset`
pub open spec fn dma_stored(
    o: Interconnect,
    os: SharedState,
    n: Interconnect,
    ns: SharedState,
    offset: u32,
    val: u32,
) -> bool {
    let major = (offset & 0x70) >> 4u32;
    let minor = offset & 0xf;
    let od = o.dma_state();
    let nd = n.dma_state();
    &&& n.bios_state() == o.bios_state()
    &&& n.scratch_state() == o.scratch_state()
    &&& n.spu_state() == o.spu_state()
    &&& n.timers_state() == o.timers_state()
    &&& n.cache_control_reg() == o.cache_control_reg()
    &&& n.ram_size_reg() == o.ram_size_reg()
    &&& n.gpu_clocks_state() == o.gpu_clocks_state()
    &&& n.pad_state() == o.pad_state()
    &&& ns.time() == os.time()
    &&& ns.counter_values() == os.counter_values()
    &&& nd.control_reg() == if major == 7 && minor == 0 {
        val
    } else {
        od.control_reg()
    }
    &&& if major <= 6 {
        let (base, block, ctrl) = channel_regs_written(od.channels_view()[major as int], minor, val);
        let c = nd.channels_view()[major as int];
        &&& nd.channels_view().len() == NUM_CHANNELS
        &&& forall|j: int|
            0 <= j < NUM_CHANNELS && j != major ==> #[trigger] nd.channels_view()[j]
                == od.channels_view()[j]
        &&& c.base_reg() == base
        &&& c.block_ctrl() == block
        &&& nd.irq_enable() == od.irq_enable()
        &&& nd.channel_irq_enable() == od.channel_irq_enable()
        &&& nd.forced_irq() == od.forced_irq()
        &&& nd.dummy_irq_bits() == od.dummy_irq_bits()
        &&& if control_active(ctrl) {
            // Transfer complete: enable and trigger bits cleared and
            // interrupt flag set if enabled for the channel
            &&& c.ctrl() == ctrl & !0x1100_0000u32
            &&& dma_transfer_cd(
                o.ram_state().bytes(),
                o.gpu_writes_view(),
                o.cdrom_view(),
                port_of(major),
                base,
                block,
                ctrl,
            ) == Ok::<(Seq<u8>, Seq<(u32, u32)>, CdRomView), CdError>(
                (n.ram_state().bytes(), n.gpu_writes_view(), n.cdrom_view()),
            )
            &&& nd.channel_irq_flag_bits() == od.channel_irq_flag_bits() | (
            od.channel_irq_enable() & (1u8 << major))
            &&& ns.irq() == if !od.irq_line() && nd.irq_line() {
                os.irq().raised(Interrupt::Dma)
            } else {
                os.irq()
            }
        } else {
            &&& c.ctrl() == ctrl
            &&& n.ram_state() == o.ram_state()
            &&& n.gpu_writes_view() == o.gpu_writes_view()
            &&& n.cdrom_view() == o.cdrom_view()
            &&& nd.channel_irq_flag_bits() == od.channel_irq_flag_bits()
            &&& ns.irq() == os.irq()
        }
    } else if minor == 0 {
        &&& nd.channels_view() == od.channels_view()
        &&& nd.interrupt_reg() == od.interrupt_reg()
        &&& n.ram_state() == o.ram_state()
        &&& n.gpu_writes_view() == o.gpu_writes_view()
        &&& n.cdrom_view() == o.cdrom_view()
        &&& ns.irq() == os.irq()
    } else {
        &&& nd.channels_view() == od.channels_view()
        &&& n.ram_state() == o.ram_state()
        &&& n.gpu_writes_view() == o.gpu_writes_view()
        &&& n.cdrom_view() == o.cdrom_view()
        &&& nd.dummy_irq_bits() == (val & 0x3f) as u8
        &&& nd.forced_irq() == ((val >> 15u32) & 1 != 0)
        &&& nd.channel_irq_enable() == ((val >> 16u32) & 0x7f) as u8
        &&& nd.irq_enable() == ((val >> 23u32) & 1 != 0)
        // Writing 1 to a flag acknowledges it
        &&& nd.channel_irq_flag_bits() == od.channel_irq_flag_bits() & !(((val >> 24u32) & 0x3f) as u8)
        &&& ns.irq() == if !od.irq_line() && nd.irq_line() {
            os.irq().raised(Interrupt::Dma)
        } else {
            os.irq()
        }
    }
}

/// Global interconnect
pub struct Interconnect {
    /// Basic Input/Output memory
    bios: Bios,
    /// Main RAM
    ram: Ram,
    /// ScratchPad
    scratch_pad: ScratchPad,
    /// DMA registers
    dma: Dma,
    /// Sound Processing Unit
    spu: Spu,
    /// System timers
    timers: Timers,
    /// Cache Control register
    cache_control: CacheControl,
    /// Contents of the RAM_SIZE register which is probably a
    /// configuration register for the memory controller.
    ram_size: u32,
    /// Current video clock timings of the GPU
    gpu_clocks: GpuClocks,
    /// Writes to the GPU registers, in order: register offset (0 for
    /// GP0, 4 for GP1) and value. DMA transfers to the GPU port are
    /// GP0 writes.
    gpu_writes: Vec<(u32, u32)>,
    /// CDROM controller
    cdrom: CdRom,
    /// Gamepad and memory card controller
    pad_memcard: PadMemCard,
}

impl Interconnect {
    pub closed spec fn bios_state(&self) -> Bios {
        self.bios
    }

    /// State of the CDROM controller
    pub closed spec fn cdrom_view(&self) -> CdRomView {
        self.cdrom@
    }

    /// Gamepad and memory card controller
    pub closed spec fn pad_state(&self) -> PadMemCard {
        self.pad_memcard
    }

    pub closed spec fn ram_state(&self) -> Ram {
        self.ram
    }

    pub closed spec fn scratch_state(&self) -> ScratchPad {
        self.scratch_pad
    }

    pub closed spec fn dma_state(&self) -> Dma {
        self.dma
    }

    pub closed spec fn spu_state(&self) -> Spu {
        self.spu
    }

    pub closed spec fn timers_state(&self) -> Timers {
        self.timers
    }

    pub closed spec fn cache_control_reg(&self) -> u32 {
        self.cache_control.0
    }

    pub closed spec fn ram_size_reg(&self) -> u32 {
        self.ram_size
    }

    pub closed spec fn gpu_clocks_state(&self) -> GpuClocks {
        self.gpu_clocks
    }

    /// Writes to the GPU registers so far
    pub closed spec fn gpu_writes_view(&self) -> Seq<(u32, u32)> {
        self.gpu_writes@
    }

    pub open spec fn wf(&self) -> bool {
        &&& self.bios_state().wf()
        &&& self.ram_state().wf()
        &&& self.scratch_state().wf()
        &&& self.dma_state().wf()
        &&& self.spu_state().wf()
        &&& self.timers_state().wf()
        &&& gpu_clocks_wf(self.gpu_clocks_state())
        &&& cd_wf(self.cdrom_view())
        &&& self.pad_state().wf()
    }

    /// Loads the emulator supports: in bounds accesses of the
    /// supported widths to the memories and registers implemented
    /// here
    pub open spec fn load_supported(&self, w: AccessWidth, addr: u32) -> bool {
        let n = access_bytes(w);
        if in_region(crate::memory::map::spec_ram(), addr) {
            ram_offset(region_offset(crate::memory::map::spec_ram(), addr)) + n <= RAM_SIZE
        } else if in_region(crate::memory::map::spec_scratch_pad(), addr) {
            // No ScratchPad access through uncached memory
            addr <= 0xa0000000 && region_offset(crate::memory::map::spec_scratch_pad(), addr) + n
                <= SCRATCH_PAD_SIZE
        } else if in_region(crate::memory::map::spec_bios(), addr) {
            region_offset(crate::memory::map::spec_bios(), addr) + n <= BIOS_SIZE
        } else if in_region(crate::memory::map::spec_irq_control(), addr) {
            let off = region_offset(crate::memory::map::spec_irq_control(), addr);
            off == 0 || off == 4
        } else if in_region(crate::memory::map::spec_dma(), addr) {
            w == AccessWidth::Word && dma_load_ok(region_offset(crate::memory::map::spec_dma(), addr))
        } else if in_region(crate::memory::map::spec_gpu(), addr) {
            false
        } else if in_region(crate::memory::map::spec_timers(), addr) {
            let off = region_offset(crate::memory::map::spec_timers(), addr);
            w != AccessWidth::Byte && off >> 4u32 < 3 && (off & 0xf == 0 || off & 0xf == 4 || off
                & 0xf == 8)
        } else if in_region(crate::memory::map::spec_cdrom(), addr) {
            // What the controller does not handle is an error
            true
        } else if in_region(crate::memory::map::spec_mdec(), addr) {
            true
        } else if in_region(crate::memory::map::spec_spu(), addr) {
            w == AccessWidth::HalfWord && spu_load_register(
                (region_offset(crate::memory::map::spec_spu(), addr) >> 1u32) as int,
            )
        } else if in_region(crate::memory::map::spec_pad_memcard(), addr) {
            let off = region_offset(crate::memory::map::spec_pad_memcard(), addr);
            // RX: byte accesses only
            &&& off == 0 || off == 4 || off == 10 || off == 14
            &&& off == 0 ==> n == 1
        } else {
            in_region(crate::memory::map::spec_expansion_1(), addr) || in_region(crate::memory::map::spec_ram_size(), addr)
        }
    }

    /// Stores the emulator supports: in bounds accesses of the
    /// supported widths and values to the memories and registers
    /// implemented here. `tk` is the time keeper.
    pub open spec fn store_supported(&self, w: AccessWidth, addr: u32, val: u32) -> bool {
        let n = access_bytes(w);
        let v = val & access_mask(w);
        if in_region(crate::memory::map::spec_ram(), addr) {
            ram_offset(region_offset(crate::memory::map::spec_ram(), addr)) + n <= RAM_SIZE
        } else if in_region(crate::memory::map::spec_scratch_pad(), addr) {
            // No ScratchPad access through uncached memory
            addr <= 0xa0000000 && region_offset(crate::memory::map::spec_scratch_pad(), addr) + n
                <= SCRATCH_PAD_SIZE
        } else if in_region(crate::memory::map::spec_irq_control(), addr) {
            let off = region_offset(crate::memory::map::spec_irq_control(), addr);
            // Only the interrupts the emulator supports may be unmasked
            off == 0 || (off == 4 && (v as u16) & !SUPPORTED_IRQ_MASK == 0)
        } else if in_region(crate::memory::map::spec_dma(), addr) {
            w == AccessWidth::Word && dma_store_supported(
                self.dma_state(),
                region_offset(crate::memory::map::spec_dma(), addr),
                v,
            )
        } else if in_region(crate::memory::map::spec_gpu(), addr) {
            true
        } else if in_region(crate::memory::map::spec_timers(), addr) {
            let off = region_offset(crate::memory::map::spec_timers(), addr);
            let val16 = v as u16;
            &&& w != AccessWidth::Byte
            &&& off >> 4u32 < 3
            &&& off & 0xf == 0 || off & 0xf == 4 || off & 0xf == 8
            // Only free running timers without interrupt requests
            &&& off & 0xf == 4 ==> val16 & 1 == 0 && (val16 >> 10u16) & 1 == 0
            &&& off & 0xf != 4 ==> self.timers_state().timers_view()[(off >> 4u32) as int].free_running()
        } else if in_region(crate::memory::map::spec_cdrom(), addr) {
            // What the controller does not handle is an error
            true
        } else if in_region(crate::memory::map::spec_mdec(), addr) {
            true
        } else if in_region(crate::memory::map::spec_spu(), addr) {
            w == AccessWidth::HalfWord && spu_store_supported(
                (region_offset(crate::memory::map::spec_spu(), addr) >> 1u32) as int,
                v as u16,
            )
        } else if in_region(crate::memory::map::spec_pad_memcard(), addr) {
            let off = region_offset(crate::memory::map::spec_pad_memcard(), addr);
            // TX: byte accesses only. Control: byte accesses are not
            // handled
            &&& off == 0 || off == 8 || off == 10 || off == 14
            &&& off == 0 ==> n == 1
            &&& off == 10 ==> n != 1
        } else if in_region(crate::memory::map::spec_cache_control(), addr) {
            w == AccessWidth::Word
        } else if in_region(crate::memory::map::spec_mem_control(), addr) {
            let off = region_offset(crate::memory::map::spec_mem_control(), addr);
            // Expansion 1 and 2 base addresses are fixed
            &&& off == 0 ==> v == 0x1f000000
            &&& off == 4 ==> v == 0x1f802000
        } else if in_region(crate::memory::map::spec_ram_size(), addr) {
            w == AccessWidth::Word
        } else {
            in_region(crate::memory::map::spec_expansion_2(), addr)
        }
    }

    /// The peripherals can be synchronized in the shared state `s`:
    /// the serial bus of the gamepad controller, if it is due, can
    /// advance without overflowing its RX FIFO
    pub open spec fn sync_ok_at(&self, s: SharedState) -> bool {
        pad_sync_needed(s) ==> sync_ok(self.pad_state().regs(), pad_delta(s.time()))
    }

    /// Loads the emulator handles in the shared state `s`: the
    /// supported ones, the gamepad controller also needing its serial
    /// bus to advance without overflowing its RX FIFO
    pub open spec fn load_ok_at(&self, s: SharedState, w: AccessWidth, addr: u32) -> bool {
        &&& self.load_supported(w, addr)
        &&& in_region(crate::memory::map::spec_pad_memcard(), addr) ==> {
            &&& s.time().date() + 5 <= MAX_DATE
            &&& sync_ok(self.pad_state().regs(), pad_delta(s.time().ticked(5)))
        }
    }

    /// Stores the emulator handles in the shared state `s`: the
    /// supported ones, the gamepad controller also needing its serial
    /// bus to advance without overflowing its RX FIFO, the pads to
    /// take the byte it sends and the control value to be one it
    /// handles
    pub open spec fn store_ok_at(&self, s: SharedState, w: AccessWidth, addr: u32, val: u32) -> bool {
        let v = val & access_mask(w);
        let off = region_offset(crate::memory::map::spec_pad_memcard(), addr);
        let delta = pad_delta(s.time());
        let r1 = synced_regs(self.pad_state().regs(), delta);
        &&& self.store_supported(w, addr, val)
        &&& in_region(crate::memory::map::spec_pad_memcard(), addr) ==> {
            &&& s.time().date() <= MAX_DATE
            &&& self.pad_state().pads_ok()
            &&& sync_ok(self.pad_state().regs(), delta)
            &&& off == 0 ==> r1.tx_en
            &&& off == 10 ==> control_ok(r1, v as u16)
        }
    }

    /// Value returned by a load of width `w` at `addr`, `irq` being
    /// the interrupt controller and `tk` the time keeper
    pub open spec fn load_value(&self, irq: InterruptState, tk: TimeKeeper, w: AccessWidth, addr: u32) -> u32 {
        if in_region(crate::memory::map::spec_ram(), addr) || in_region(
            crate::memory::map::spec_scratch_pad(),
            addr,
        ) || in_region(crate::memory::map::spec_bios(), addr) {
            self.memory_value(w, addr)
        } else {
            self.register_value(irq, tk, addr) & access_mask(w)
        }
    }

    /// Value read by a load of width `w` at `addr` in the RAM, the
    /// ScratchPad or the BIOS
    pub open spec fn memory_value(&self, w: AccessWidth, addr: u32) -> u32 {
        let n = access_bytes(w) as nat;
        if in_region(crate::memory::map::spec_ram(), addr) {
            le_value(
                self.ram_state().bytes(),
                ram_offset(region_offset(crate::memory::map::spec_ram(), addr)),
                n,
            )
        } else if in_region(crate::memory::map::spec_scratch_pad(), addr) {
            le_value(
                self.scratch_state().bytes(),
                region_offset(crate::memory::map::spec_scratch_pad(), addr) as int,
                n,
            )
        } else {
            le_value(
                self.bios_state().bytes(),
                region_offset(crate::memory::map::spec_bios(), addr) as int,
                n,
            )
        }
    }

    /// Value of the register at `addr`, before truncation to the
    /// access width
    pub open spec fn register_value(&self, irq: InterruptState, tk: TimeKeeper, addr: u32) -> u32 {
        if in_region(crate::memory::map::spec_irq_control(), addr) {
            if region_offset(crate::memory::map::spec_irq_control(), addr) == 0 {
                irq.status_bits() as u32
            } else {
                irq.mask_bits() as u32
            }
        } else if in_region(crate::memory::map::spec_dma(), addr) {
            dma_reg_value(self.dma_state(), region_offset(crate::memory::map::spec_dma(), addr))
        } else if in_region(crate::memory::map::spec_timers(), addr) {
            let off = region_offset(crate::memory::map::spec_timers(), addr);
            timers_load_value(
                self.timers_state().timers_view(),
                timer_delta(tk, (off >> 4u32) as int),
                off,
            )
        } else if in_region(crate::memory::map::spec_mdec(), addr) {
            0
        } else if in_region(crate::memory::map::spec_spu(), addr) {
            let index = region_offset(crate::memory::map::spec_spu(), addr) >> 1u32;
            if index == 0xd7 {
                (self.spu_state().shadow()[0xd5] & 0x3f) as u32
            } else {
                self.spu_state().shadow()[index as int] as u32
            }
        } else if in_region(crate::memory::map::spec_expansion_1(), addr) {
            // No expansion implemented. Returns full ones when no
            // expansion is present
            0xffff_ffff
        } else {
            self.ram_size_reg()
        }
    }
}

/// Components of the interconnect not touched by an access, `true`
/// marking the ones that may change
pub open spec fn unchanged_except(
    o: Interconnect,
    n: Interconnect,
    ram: bool,
    scratch: bool,
    dma: bool,
    spu: bool,
    timers: bool,
    regs: bool,
    gpu: bool,
) -> bool {
    &&& n.bios_state() == o.bios_state()
    &&& n.gpu_clocks_state() == o.gpu_clocks_state()
    &&& n.cdrom_view() == o.cdrom_view()
    &&& n.pad_state() == o.pad_state()
    &&& !ram ==> n.ram_state() == o.ram_state()
    &&& !scratch ==> n.scratch_state() == o.scratch_state()
    &&& !dma ==> n.dma_state() == o.dma_state()
    &&& !spu ==> n.spu_state() == o.spu_state()
    &&& !timers ==> n.timers_state() == o.timers_state()
    &&& !regs ==> n.cache_control_reg() == o.cache_control_reg() && n.ram_size_reg()
        == o.ram_size_reg()
    &&& !gpu ==> n.gpu_writes_view() == o.gpu_writes_view()
}

/// Outcome, for the CDROM controller, of a load of width `w` at
/// `addr`, once the access delay was accounted for
pub open spec fn cd_load_outcome(o: Interconnect, os: SharedState, w: AccessWidth, addr: u32) -> Result<
    (CdWorld, u8),
    CdError,
> {
    crate::cdrom::model::loaded(
        CdWorld { cd: o.cdrom_view(), tk: os.time().ticked(5).tk_view(), irq: os.irq() },
        access_bytes(w),
        region_offset(crate::memory::map::spec_cdrom(), addr),
    )
}

/// Outcome, for the CDROM controller, of a store of the value `val`,
/// of width `w`, at `addr`
pub open spec fn cd_store_outcome(o: Interconnect, os: SharedState, w: AccessWidth, addr: u32, val: u32) -> Result<
    CdWorld,
    CdError,
> {
    crate::cdrom::model::stored(
        world(o.cdrom_view(), os),
        access_bytes(w),
        region_offset(crate::memory::map::spec_cdrom(), addr),
        val,
    )
}

/// Cycles since the last synchronization of the gamepad controller
pub open spec fn pad_delta(tk: TimeKeeper) -> u64 {
    (tk.date() - tk.sheet(Peripheral::PadMemCard).last_sync) as u64
}

/// Shared state after an access to the gamepad controller at `date`,
/// as far as it is known: the interrupt raised at a DSR pulse, the
/// date unchanged and the controller synchronized at that date
pub open spec fn pad_shared_after(os: SharedState, date: u64, ns: SharedState, regs: PadRegs, delta: u64) -> bool {
    &&& ns.irq() == if sync_raises(regs, delta) {
        os.irq().raised(Interrupt::PadMemCard)
    } else {
        os.irq()
    }
    &&& ns.time().wf()
    &&& ns.time().date() == date
    &&& ns.time().sheet(Peripheral::PadMemCard).last_sync == date
    &&& ns.counter_values() == os.counter_values()
}

/// The gamepad controller needs a synchronization
pub open spec fn pad_sync_needed(s: SharedState) -> bool {
    s.time().sheet(Peripheral::PadMemCard).next_sync <= s.time().date()
}

/// Time keeper after a synchronization of the gamepad controller
/// `delta` cycles after the last one: the controller is synchronized
/// now and the next synchronization is due at the end of the
/// transfer in progress, if it raises an interrupt
pub open spec fn pad_synced_tk(tk: TkView, regs: PadRegs, delta: u64) -> TkView {
    let next = sync_next(regs, delta);
    TkView {
        date: tk.date,
        next_sync: match next {
            Some(d) => if tk.date + d < tk.next_sync {
                (tk.date + d) as u64
            } else {
                tk.next_sync
            },
            None => tk.next_sync,
        },
        sheets: tk.sheets.update(
            peripheral_index(Peripheral::PadMemCard),
            TimeSheet {
                last_sync: tk.date,
                next_sync: match next {
                    Some(d) => (tk.date + d) as u64,
                    None => u64::MAX,
                },
            },
        ),
    }
}

/// What the CDROM controller sees of the interconnect `o` and the
/// shared state `os` once the gamepad controller was synchronized, if
/// it needed it
pub open spec fn pad_synced_world(o: Interconnect, os: SharedState) -> CdWorld {
    if pad_sync_needed(os) {
        let regs = o.pad_state().regs();
        let delta = pad_delta(os.time());
        CdWorld {
            cd: o.cdrom_view(),
            tk: pad_synced_tk(os.time().tk_view(), regs, delta),
            irq: if sync_raises(regs, delta) {
                os.irq().raised(Interrupt::PadMemCard)
            } else {
                os.irq()
            },
        }
    } else {
        world(o.cdrom_view(), os)
    }
}

/// Only the gamepad and CDROM controllers may have changed
pub open spec fn only_peripherals_changed(o: Interconnect, n: Interconnect) -> bool {
    &&& n.bios_state() == o.bios_state()
    &&& n.gpu_clocks_state() == o.gpu_clocks_state()
    &&& n.ram_state() == o.ram_state()
    &&& n.scratch_state() == o.scratch_state()
    &&& n.dma_state() == o.dma_state()
    &&& n.spu_state() == o.spu_state()
    &&& n.timers_state() == o.timers_state()
    &&& n.cache_control_reg() == o.cache_control_reg()
    &&& n.ram_size_reg() == o.ram_size_reg()
    &&& n.gpu_writes_view() == o.gpu_writes_view()
}

/// Only the gamepad controller may have changed
pub open spec fn only_pad_changed(o: Interconnect, n: Interconnect) -> bool {
    &&& n.bios_state() == o.bios_state()
    &&& n.gpu_clocks_state() == o.gpu_clocks_state()
    &&& n.ram_state() == o.ram_state()
    &&& n.scratch_state() == o.scratch_state()
    &&& n.dma_state() == o.dma_state()
    &&& n.spu_state() == o.spu_state()
    &&& n.timers_state() == o.timers_state()
    &&& n.cache_control_reg() == o.cache_control_reg()
    &&& n.ram_size_reg() == o.ram_size_reg()
    &&& n.gpu_writes_view() == o.gpu_writes_view()
    &&& n.cdrom_view() == o.cdrom_view()
}

/// Only the CDROM controller may have changed
pub open spec fn only_cdrom_changed(o: Interconnect, n: Interconnect) -> bool {
    &&& n.pad_state() == o.pad_state()
    &&& n.bios_state() == o.bios_state()
    &&& n.gpu_clocks_state() == o.gpu_clocks_state()
    &&& n.ram_state() == o.ram_state()
    &&& n.scratch_state() == o.scratch_state()
    &&& n.dma_state() == o.dma_state()
    &&& n.spu_state() == o.spu_state()
    &&& n.timers_state() == o.timers_state()
    &&& n.cache_control_reg() == o.cache_control_reg()
    &&& n.ram_size_reg() == o.ram_size_reg()
    &&& n.gpu_writes_view() == o.gpu_writes_view()
}

/// Relation between the state before (`o`, `os`) and after (`n`,
/// `ns`) a store of the value `val`, of width `w`, at `addr`
pub open spec fn stored(
    o: Interconnect,
    os: SharedState,
    n: Interconnect,
    ns: SharedState,
    w: AccessWidth,
    addr: u32,
    val: u32,
) -> bool {
    let v = val & access_mask(w);
    &&& ns.counter_values() == os.counter_values()
    &&& if in_region(crate::memory::map::spec_ram(), addr) {
        &&& n.ram_state().bytes() == le_store(
            o.ram_state().bytes(),
            ram_offset(region_offset(crate::memory::map::spec_ram(), addr)),
            access_bytes(w) as nat,
            val,
        )
        &&& unchanged_except(o, n, true, false, false, false, false, false, false)
        &&& ns.time() == os.time() && ns.irq() == os.irq()
    } else if in_region(crate::memory::map::spec_scratch_pad(), addr) {
        &&& n.scratch_state().bytes() == le_store(
            o.scratch_state().bytes(),
            region_offset(crate::memory::map::spec_scratch_pad(), addr) as int,
            access_bytes(w) as nat,
            val,
        )
        &&& unchanged_except(o, n, false, true, false, false, false, false, false)
        &&& ns.time() == os.time() && ns.irq() == os.irq()
    } else if in_region(crate::memory::map::spec_irq_control(), addr) {
        &&& if region_offset(crate::memory::map::spec_irq_control(), addr) == 0 {
            // Acknowledge
            &&& ns.irq().status_bits() == os.irq().status_bits() & (v as u16)
            &&& ns.irq().mask_bits() == os.irq().mask_bits()
        } else {
            &&& ns.irq().mask_bits() == v as u16
            &&& ns.irq().status_bits() == os.irq().status_bits()
        }
        &&& unchanged_except(o, n, false, false, false, false, false, false, false)
        &&& ns.time() == os.time()
    } else if in_region(crate::memory::map::spec_dma(), addr) {
        dma_stored(o, os, n, ns, region_offset(crate::memory::map::spec_dma(), addr), v)
    } else if in_region(crate::memory::map::spec_gpu(), addr) {
        &&& n.gpu_writes_view() == o.gpu_writes_view().push(
            (region_offset(crate::memory::map::spec_gpu(), addr), v),
        )
        &&& unchanged_except(o, n, false, false, false, false, false, false, true)
        &&& ns.time() == os.time() && ns.irq() == os.irq()
    } else if in_region(crate::memory::map::spec_timers(), addr) {
        let off = region_offset(crate::memory::map::spec_timers(), addr);
        &&& n.timers_state().timers_view() == timers_after_store(
            o.timers_state().timers_view(),
            timer_delta(os.time(), (off >> 4u32) as int),
            o.gpu_clocks_state(),
            off,
            v as u16,
        )
        &&& unchanged_except(o, n, false, false, false, false, true, false, false)
        &&& ns.irq() == os.irq()
        &&& ns.time().wf()
        &&& ns.time().date() == os.time().date()
        &&& ns.time().next_sync_date() == os.time().next_sync_date()
        &&& ns.time().sheets() == timer_synced_sheets(os.time(), (off >> 4u32) as int)
    } else if in_region(crate::memory::map::spec_cdrom(), addr) {
        &&& cd_store_outcome(o, os, w, addr, val) == Ok::<CdWorld, CdError>(world(n.cdrom_view(), ns))
        &&& only_cdrom_changed(o, n)
        &&& ns.time().wf()
        &&& ns.time().date() <= MAX_DATE
    } else if in_region(crate::memory::map::spec_pad_memcard(), addr) {
        let off = region_offset(crate::memory::map::spec_pad_memcard(), addr);
        let delta = pad_delta(os.time());
        let r1 = synced_regs(o.pad_state().regs(), delta);
        &&& pad_stored(r1, o.pad_state(), n.pad_state(), off, v)
        &&& pad_shared_after(os, os.time().date(), ns, o.pad_state().regs(), delta)
        &&& only_pad_changed(o, n)
    } else if in_region(crate::memory::map::spec_spu(), addr) {
        let index = region_offset(crate::memory::map::spec_spu(), addr) >> 1u32;
        let os_spu = o.spu_state();
        let ns_spu = n.spu_state();
        &&& ns_spu.shadow() == spu_shadow_after_store(os_spu.shadow(), index as int, v as u16)
        &&& ns_spu.ram_view() == if index == 0xd4 {
            os_spu.ram_view().update(os_spu.ram_pointer() as int, v as u16)
        } else {
            os_spu.ram_view()
        }
        &&& ns_spu.ram_pointer() == if index == 0xd4 {
            ((os_spu.ram_pointer() + 1) % 0x40000) as u32
        } else if index == 0xd3 {
            ((v as u16) as u32) << 2u32
        } else {
            os_spu.ram_pointer()
        }
        &&& unchanged_except(o, n, false, false, false, true, false, false, false)
        &&& ns.time() == os.time() && ns.irq() == os.irq()
    } else if in_region(crate::memory::map::spec_cache_control(), addr) {
        &&& n.cache_control_reg() == v
        &&& n.ram_size_reg() == o.ram_size_reg()
        &&& unchanged_except(o, n, false, false, false, false, false, true, false)
        &&& ns.time() == os.time() && ns.irq() == os.irq()
    } else if in_region(crate::memory::map::spec_ram_size(), addr) {
        &&& n.ram_size_reg() == v
        &&& n.cache_control_reg() == o.cache_control_reg()
        &&& unchanged_except(o, n, false, false, false, false, false, true, false)
        &&& ns.time() == os.time() && ns.irq() == os.irq()
    } else {
        // MDEC, memory control and expansion 2 writes are ignored
        &&& unchanged_except(o, n, false, false, false, false, false, false, false)
        &&& ns.time() == os.time() && ns.irq() == os.irq()
    }
}

/// Relation between the state before (`o`, `os`) and after (`n`,
/// `ns`) a load of width `w` at `addr` returning `r`. The time
/// keeper `tk` is the one after the access delay was accounted for.
pub open spec fn loaded(
    o: Interconnect,
    os: SharedState,
    n: Interconnect,
    ns: SharedState,
    w: AccessWidth,
    addr: u32,
    r: u32,
) -> bool {
    if in_region(crate::memory::map::spec_cdrom(), addr) {
        &&& r < 256
        &&& cd_load_outcome(o, os, w, addr) == Ok::<(CdWorld, u8), CdError>(
            (world(n.cdrom_view(), ns), r as u8),
        )
        &&& only_cdrom_changed(o, n)
        &&& ns.counter_values() == os.counter_values()
        &&& ns.time().wf()
        &&& ns.time().date() <= MAX_DATE
    } else if in_region(crate::memory::map::spec_pad_memcard(), addr) {
        let off = region_offset(crate::memory::map::spec_pad_memcard(), addr);
        let delta = pad_delta(os.time().ticked(5));
        let r1 = synced_regs(o.pad_state().regs(), delta);
        &&& r == (if off == 0 {
            r1.response as u32
        } else if off == 4 {
            stat_value(r1)
        } else if off == 10 {
            control_value(r1) as u32
        } else {
            r1.baud_div as u32
        }) & access_mask(w)
        &&& n.pad_state().regs() == if off == 0 {
            PadRegs { rx_not_empty: false, response: 0xff, ..r1 }
        } else {
            r1
        }
        &&& n.pad_state().pad1() == o.pad_state().pad1()
        &&& n.pad_state().pad2() == o.pad_state().pad2()
        &&& pad_shared_after(os, (os.time().date() + 5) as u64, ns, o.pad_state().regs(), delta)
        &&& only_pad_changed(o, n)
    } else {
        let date = (os.time().date() + 5) as u64;
        let ticked = os.time().ticked(5);
        &&& r == o.load_value(os.irq(), ticked, w, addr)
        &&& ns.irq() == os.irq()
        &&& ns.counter_values() == os.counter_values()
        &&& ns.time().wf()
        &&& ns.time().date() == date
        &&& ns.time().next_sync_date() == os.time().next_sync_date()
        &&& n.bios_state() == o.bios_state()
        &&& n.ram_state() == o.ram_state()
        &&& n.scratch_state() == o.scratch_state()
        &&& n.dma_state() == o.dma_state()
        &&& n.spu_state() == o.spu_state()
        &&& n.cache_control_reg() == o.cache_control_reg()
        &&& n.ram_size_reg() == o.ram_size_reg()
        &&& n.gpu_clocks_state() == o.gpu_clocks_state()
        &&& n.gpu_writes_view() == o.gpu_writes_view()
        &&& if in_region(crate::memory::map::spec_timers(), addr) {
            let off = region_offset(crate::memory::map::spec_timers(), addr);
            &&& n.timers_state().timers_view() == timers_after_load(
                o.timers_state().timers_view(),
                timer_delta(ticked, (off >> 4u32) as int),
                off,
            )
            &&& ns.time().sheets() == timer_synced_sheets(ticked, (off >> 4u32) as int)
        } else {
            &&& n.timers_state() == o.timers_state()
            &&& ns.time().sheets() == os.time().sheets()
        }
        &&& n.cdrom_view() == o.cdrom_view()
        &&& n.pad_state() == o.pad_state()
    }
}

/// What a store to the RAM or the ScratchPad writes, a load of the
/// same width at the same address reads back, truncated to the width
/// of the access
pub proof fn lemma_bus_store_then_load(
    o: Interconnect,
    os: SharedState,
    n: Interconnect,
    ns: SharedState,
    w: AccessWidth,
    addr: u32,
    val: u32,
)
    requires
        o.wf(),
        in_region(crate::memory::map::spec_ram(), addr) || in_region(
            crate::memory::map::spec_scratch_pad(),
            addr,
        ),
        o.store_supported(w, addr, val),
        stored(o, os, n, ns, w, addr, val),
    ensures
        n.memory_value(w, addr) == val & access_mask(w),
{
    if in_region(crate::memory::map::spec_ram(), addr) {
        lemma_store_then_load(
            o.ram_state().bytes(),
            ram_offset(region_offset(crate::memory::map::spec_ram(), addr)),
            w,
            val,
        );
    } else {
        lemma_store_then_load(
            o.scratch_state().bytes(),
            region_offset(crate::memory::map::spec_scratch_pad(), addr) as int,
            w,
            val,
        );
    }
}

/// A store to the RAM reads back, truncated to the width of the
/// access, through every address that mirrors the same RAM location,
/// in any region; the other bytes of the RAM are left as they were
pub proof fn lemma_ram_store_reads_back_through_mirrors(
    o: Interconnect,
    os: SharedState,
    n: Interconnect,
    ns: SharedState,
    w: AccessWidth,
    addr: u32,
    val: u32,
    mirror: u32,
)
    requires
        o.wf(),
        in_region(crate::memory::map::spec_ram(), addr),
        o.store_supported(w, addr, val),
        stored(o, os, n, ns, w, addr, val),
        in_region(crate::memory::map::spec_ram(), mirror),
        ram_offset(region_offset(crate::memory::map::spec_ram(), mirror)) == ram_offset(
            region_offset(crate::memory::map::spec_ram(), addr),
        ),
    ensures
        n.memory_value(w, mirror) == val & access_mask(w),
        forall|j: int|
            0 <= j < RAM_SIZE && !(ram_offset(region_offset(crate::memory::map::spec_ram(), addr)) <= j
                < ram_offset(region_offset(crate::memory::map::spec_ram(), addr)) + access_bytes(w))
                ==> #[trigger] n.ram_state().bytes()[j] == o.ram_state().bytes()[j],
{
    lemma_bus_store_then_load(o, os, n, ns, w, addr, val);
}

/// The 2MB of RAM are mirrored four times over the first 8MB of each
/// region: an address and the one 2MB further read the same value
pub proof fn lemma_ram_mirror(i: Interconnect, w: AccessWidth, addr: u32)
    requires
        addr <= 0xffdf_ffff,
        in_region(crate::memory::map::spec_ram(), addr),
        in_region(crate::memory::map::spec_ram(), (addr + 0x200000) as u32),
    ensures
        i.memory_value(w, addr) == i.memory_value(w, (addr + 0x200000) as u32),
{
    lemma_mirror_bits(addr);
}

/// A store to the RAM is seen at all four mirrors of the 2MB RAM in
/// the first 8MB, through the KUSEG, KSEG0 and KSEG1 addresses alike:
/// every address `q` below 8MB that lands on the stored location, and
/// `q` with the KSEG0 or KSEG1 region bits set, read back the stored
/// value truncated to the access width. The other RAM bytes are left
/// as they were.
pub proof fn lemma_ram_store_seen_at_all_mirrors(
    o: Interconnect,
    os: SharedState,
    n: Interconnect,
    ns: SharedState,
    w: AccessWidth,
    addr: u32,
    val: u32,
)
    requires
        o.wf(),
        in_region(crate::memory::map::spec_ram(), addr),
        o.store_supported(w, addr, val),
        stored(o, os, n, ns, w, addr, val),
    ensures
        forall|q: u32|
            #![trigger n.memory_value(w, q)]
            q < 0x800000 && q & 0x1fffff == spec_mask_region(addr) & 0x1fffff ==> {
                &&& n.memory_value(w, q) == val & access_mask(w)
                &&& n.memory_value(w, q | 0x8000_0000) == val & access_mask(w)
                &&& n.memory_value(w, q | 0xa000_0000) == val & access_mask(w)
            },
        forall|j: int|
            0 <= j < RAM_SIZE && !(ram_offset(spec_mask_region(addr)) <= j < ram_offset(
                spec_mask_region(addr),
            ) + access_bytes(w)) ==> #[trigger] n.ram_state().bytes()[j]
                == o.ram_state().bytes()[j],
{
    assert forall|q: u32|
        #![trigger n.memory_value(w, q)]
        q < 0x800000 && q & 0x1fffff == spec_mask_region(addr) & 0x1fffff implies {
            &&& n.memory_value(w, q) == val & access_mask(w)
            &&& n.memory_value(w, q | 0x8000_0000) == val & access_mask(w)
            &&& n.memory_value(w, q | 0xa000_0000) == val & access_mask(w)
        } by {
        lemma_ram_alias_bits(q);
        lemma_ram_store_reads_back_through_mirrors(o, os, n, ns, w, addr, val, q);
        lemma_ram_store_reads_back_through_mirrors(o, os, n, ns, w, addr, val, q | 0x8000_0000);
        lemma_ram_store_reads_back_through_mirrors(o, os, n, ns, w, addr, val, q | 0xa000_0000);
    }
    lemma_bus_store_then_load(o, os, n, ns, w, addr, val);
}

/// What a byte store to the gamepad controller's TX register sends to
/// the pads, a byte load of its RX register reads back once the
/// transfer is over: the answer of the selected pad (`0xff` when no pad
/// is selected or the pad is done with the transaction). `ms` is the
/// shared state after the store and `ls` the one the load starts from.
pub proof fn lemma_pad_tx_then_rx(
    o: Interconnect,
    os: SharedState,
    m: Interconnect,
    ms: SharedState,
    ls: SharedState,
    n: Interconnect,
    ns: SharedState,
    tx: u32,
    val: u32,
    rx: u32,
    r: u32,
)
    requires
        in_region(crate::memory::map::spec_pad_memcard(), tx),
        region_offset(crate::memory::map::spec_pad_memcard(), tx) == 0,
        stored(o, os, m, ms, AccessWidth::Byte, tx, val),
        ls.time().sheet(Peripheral::PadMemCard).last_sync == ms.time().sheet(
            Peripheral::PadMemCard,
        ).last_sync,
        pad_delta(ls.time().ticked(5)) >= 8 * synced_regs(o.pad_state().regs(), pad_delta(os.time())).baud_div,
        in_region(crate::memory::map::spec_pad_memcard(), rx),
        region_offset(crate::memory::map::spec_pad_memcard(), rx) == 0,
        loaded(m, ls, n, ns, AccessWidth::Byte, rx, r),
    ensures
        r == tx_reply(
            synced_regs(o.pad_state().regs(), pad_delta(os.time())),
            o.pad_state().pad1(),
            o.pad_state().pad2(),
            val as u8,
        ).0,
{
    let r1 = synced_regs(o.pad_state().regs(), pad_delta(os.time()));
    let b = tx_reply(r1, o.pad_state().pad1(), o.pad_state().pad2(), (val & 0xff) as u8).0;
    assert((val & 0xff) as u8 == val as u8 && (b as u32) & 0xff == b as u32) by (bit_vector);
    lemma_tx_answer_read_back(r1, o.pad_state(), m.pad_state(), val & 0xff, pad_delta(ls.time().ticked(5)));
}

/// Bit-level fact behind the RAM aliases: below 8MB, the KSEG0 and
/// KSEG1 region bits are stripped back to the KUSEG address
proof fn lemma_ram_alias_bits(q: u32)
    by (bit_vector)
    requires
        q < 0x800000,
    ensures
        spec_mask_region(q) == q,
        spec_mask_region(q | 0x8000_0000) == q,
        spec_mask_region(q | 0xa000_0000) == q,
{
}

/// Bit-level fact behind the RAM mirrors
proof fn lemma_mirror_bits(addr: u32)
    by (bit_vector)
    requires
        addr <= 0xffdf_ffff,
        spec_mask_region(addr) < 0x800000,
        spec_mask_region((addr + 0x200000) as u32) < 0x800000,
    ensures
        spec_mask_region((addr + 0x200000) as u32) & 0x1fffff == spec_mask_region(addr) & 0x1fffff,
{
}

/// Mask selecting the bits transferred by an access of width `T`
pub fn width_mask<T: Addressable>() -> (m: u32)
    ensures
        m == access_mask(T::spec_width()),
{
    match T::width() {
        AccessWidth::Byte => 0xff,
        AccessWidth::HalfWord => 0xffff,
        AccessWidth::Word => 0xffff_ffff,
    }
}

impl Interconnect {
    pub fn new(bios: Bios, gpu_clocks: GpuClocks, disc: Option<Disc>) -> (i: Interconnect)
        requires
            bios.wf(),
            gpu_clocks_wf(gpu_clocks),
        ensures
            i.wf(),
            i.cdrom_view().disc == disc,
            i.cdrom_view().command is None,
            i.cdrom_view().irq_flags == 0,
            i.bios_state() == bios,
            forall|j: int| 0 <= j < RAM_SIZE ==> i.ram_state().bytes()[j] == 0xca,
            forall|j: int| 0 <= j < SCRATCH_PAD_SIZE ==> i.scratch_state().bytes()[j] == 0xdb,
            i.cache_control_reg() == 0,
            i.ram_size_reg() == 0,
            i.gpu_clocks_state() == gpu_clocks,
            i.gpu_writes_view() == Seq::<(u32, u32)>::empty(),
    {
        Interconnect {
            bios: bios,
            ram: Ram::new(),
            scratch_pad: ScratchPad::new(),
            dma: Dma::new(),
            spu: Spu::new(),
            timers: Timers::new(),
            cache_control: CacheControl(0),
            ram_size: 0,
            gpu_clocks: gpu_clocks,
            gpu_writes: Vec::new(),
            cdrom: CdRom::new(disc),
            pad_memcard: PadMemCard::new(),
        }
    }

    /// The gamepad profiles being used, for the frontend to update
    /// the button states
    pub fn pad_profiles(&mut self) -> (p: [&mut Box<dyn crate::padmemcard::gamepad::Profile>; 2])
        ensures
            final(self).pad_state().regs() == old(self).pad_state().regs(),
            final(self).pad_state().pad1().position() == old(self).pad_state().pad1().position(),
            final(self).pad_state().pad1().is_active() == old(self).pad_state().pad1().is_active(),
            final(self).pad_state().pad2().position() == old(self).pad_state().pad2().position(),
            final(self).pad_state().pad2().is_active() == old(self).pad_state().pad2().is_active(),
            only_pad_changed(*old(self), *final(self)),
    {
        self.pad_memcard.pad_profiles()
    }

    /// The gamepad and memory card controller
    pub fn pad_memcard(&self) -> (p: &PadMemCard)
        ensures
            *p == self.pad_state(),
    {
        &self.pad_memcard
    }

    /// The CDROM controller, for the frontend to supply the sectors
    /// the drive reads
    pub fn cdrom_mut(&mut self) -> (c: &mut CdRom)
        ensures
            c@ == old(self).cdrom_view(),
            final(self).cdrom_view() == final(c)@,
            only_cdrom_changed(*old(self), *final(self)),
    {
        &mut self.cdrom
    }

    /// Synchronize the peripherals that need it: the gamepad
    /// controller, then the CDROM controller, each once its
    /// synchronization date has passed
    pub fn sync(&mut self, shared: &mut SharedState) -> (r: Result<(), CdError>)
        requires
            old(self).wf(),
            old(shared).time().wf(),
            old(shared).time().date() <= MAX_DATE,
            old(self).sync_ok_at(*old(shared)),
        ensures
            final(self).pad_state().regs() == if pad_sync_needed(*old(shared)) {
                synced_regs(old(self).pad_state().regs(), pad_delta(old(shared).time()))
            } else {
                old(self).pad_state().regs()
            },
            final(self).pad_state().pad1() == old(self).pad_state().pad1(),
            final(self).pad_state().pad2() == old(self).pad_state().pad2(),
            only_peripherals_changed(*old(self), *final(self)),
            if old(shared).time().sheet(Peripheral::CdRom).next_sync <= old(shared).time().date() {
                crate::cdrom::controller::world_handled(
                    crate::cdrom::model::synced(pad_synced_world(*old(self), *old(shared))),
                    r,
                    final(self).cdrom_view(),
                    *final(shared),
                    *old(shared),
                )
            } else {
                &&& r is Ok
                &&& final(self).cdrom_view() == old(self).cdrom_view()
                &&& world(final(self).cdrom_view(), *final(shared)) == pad_synced_world(*old(self), *old(shared))
                &&& final(shared).time().wf()
                &&& final(shared).counter_values() == old(shared).counter_values()
            },
            r is Ok ==> final(self).wf() && final(shared).time().wf(),
    {
        let ghost os = *shared;
        if shared.time_keeper().needs_sync(Peripheral::PadMemCard) {
            self.pad_memcard.sync(shared);
            proof {
                assert(shared.time().tk_view() == pad_synced_tk(
                    os.time().tk_view(),
                    old(self).pad_state().regs(),
                    pad_delta(os.time()),
                ));
            }
        }
        proof {
            assert(world(self.cdrom@, *shared) == pad_synced_world(*old(self), os));
            assert(shared.time().sheet(Peripheral::CdRom) == os.time().sheet(Peripheral::CdRom));
        }
        if shared.time_keeper().needs_sync(Peripheral::CdRom) {
            self.cdrom.sync(shared)
        } else {
            Ok(())
        }
    }

    /// The peripherals can be synchronized in the shared state `s`:
    /// see `sync_ok_at`
    pub fn can_sync(&self, shared: &SharedState) -> (r: bool)
        requires
            self.wf(),
            shared.time().wf(),
        ensures
            r == self.sync_ok_at(*shared),
    {
        let tk = shared.time_keeper();
        if tk.needs_sync(Peripheral::PadMemCard) {
            let delta = tk.now() - tk.last_sync(Peripheral::PadMemCard);
            self.pad_memcard.sync_ok_after(delta)
        } else {
            true
        }
    }

    /// The DMA controller
    pub fn dma(&self) -> (d: &Dma)
        ensures
            *d == self.dma_state(),
    {
        &self.dma
    }

    /// The three timers
    pub fn timers(&self) -> (t: &Timers)
        ensures
            *t == self.timers_state(),
    {
        &self.timers
    }

    pub fn cache_control(&self) -> (c: CacheControl)
        ensures
            c.0 == self.cache_control_reg(),
    {
        self.cache_control
    }

    /// Hand out (and forget) the writes made to the GPU registers
    pub fn take_gpu_writes(&mut self) -> (w: Vec<(u32, u32)>)
        requires
            old(self).wf(),
        ensures
            final(self).wf(),
            w@ == old(self).gpu_writes_view(),
            final(self).gpu_writes_view() == Seq::<(u32, u32)>::empty(),
            final(self).bios_state() == old(self).bios_state(),
            final(self).ram_state() == old(self).ram_state(),
            final(self).scratch_state() == old(self).scratch_state(),
            final(self).dma_state() == old(self).dma_state(),
            final(self).spu_state() == old(self).spu_state(),
            final(self).timers_state() == old(self).timers_state(),
            final(self).cache_control_reg() == old(self).cache_control_reg(),
            final(self).ram_size_reg() == old(self).ram_size_reg(),
            final(self).gpu_clocks_state() == old(self).gpu_clocks_state(),
            final(self).cdrom_view() == old(self).cdrom_view(),
            final(self).pad_state() == old(self).pad_state(),
    {
        let mut w: Vec<(u32, u32)> = Vec::new();
        std::mem::swap(&mut w, &mut self.gpu_writes);
        w
    }

    /// Load instruction at `PC`. Only the RAM and BIOS are supported,
    /// would it make sense to fetch instructions from anything else?
    pub fn load_instruction<T: Addressable>(&self, pc: u32) -> (r: u32)
        requires
            self.wf(),
            in_region(crate::memory::map::spec_ram(), pc) || in_region(crate::memory::map::spec_bios(), pc),
            self.load_supported(T::spec_width(), pc),
        ensures
            r == self.memory_value(T::spec_width(), pc),
    {
        let abs_addr = crate::memory::map::mask_region(pc);
        if let Some(offset) = crate::memory::map::ram().contains(abs_addr) {
            return self.ram.load::<T>(offset);
        }
        let offset = crate::memory::map::bios().contains(abs_addr).unwrap();
        self.bios.load::<T>(offset)
    }

    /// Load value at `addr`
    pub fn load<T: Addressable>(&mut self, shared: &mut SharedState, addr: u32) -> (r: Result<u32, CdError>)
        requires
            old(self).wf(),
            old(shared).time().wf(),
            old(shared).time().date() + 5 <= MAX_DATE,
            old(self).load_ok_at(*old(shared), T::spec_width(), addr),
        ensures
            match r {
                Ok(v) => final(self).wf() && loaded(
                    *old(self),
                    *old(shared),
                    *final(self),
                    *final(shared),
                    T::spec_width(),
                    addr,
                    v,
                ),
                Err(e) => load_failed(*old(self), *old(shared), T::spec_width(), addr, e),
            },
    {
        proof {
            old(shared).time().lemma_ticked(5);
        }
        // XXX Average RAM load delay, needs to do per-device tests
        shared.tk().tick(5);
        let abs_addr = crate::memory::map::mask_region(addr);
        let mask = width_mask::<T>();
        if let Some(offset) = crate::memory::map::ram().contains(abs_addr) {
            return Ok(self.ram.load::<T>(offset));
        }
        if let Some(offset) = crate::memory::map::scratch_pad().contains(abs_addr) {
            return Ok(self.scratch_pad.load::<T>(offset));
        }
        if let Some(offset) = crate::memory::map::bios().contains(abs_addr) {
            return Ok(self.bios.load::<T>(offset));
        }
        if let Some(offset) = crate::memory::map::irq_control().contains(abs_addr) {
            let v = if offset == 0 {
                shared.irq_state().status() as u32
            } else {
                shared.irq_state().mask() as u32
            };
            return Ok(v & mask);
        }
        if let Some(offset) = crate::memory::map::dma().contains(abs_addr) {
            return Ok(self.dma_reg(offset) & mask);
        }
        if let Some(offset) = crate::memory::map::timers().contains(abs_addr) {
            return Ok(self.timers.load::<T>(shared.tk(), offset) & mask);
        }
        if let Some(offset) = crate::memory::map::cdrom().contains(abs_addr) {
            return self.cdrom.load::<T>(shared, offset);
        }
        if let Some(_) = crate::memory::map::mdec().contains(abs_addr) {
            // MDEC registers are not handled
            assert(0u32 & mask == 0) by {
                lemma_addr_bits(0, mask);
            }
            return Ok(0);
        }
        if let Some(offset) = crate::memory::map::spu().contains(abs_addr) {
            return Ok(self.spu.load::<T>(offset) & mask);
        }
        if let Some(offset) = crate::memory::map::pad_memcard().contains(abs_addr) {
            return Ok(self.pad_memcard.load::<T>(shared, offset) & mask);
        }
        if let Some(_) = crate::memory::map::expansion_1().contains(abs_addr) {
            // No expansion implemented. Returns full ones when no
            // expansion is present
            return Ok(0xffff_ffff & mask);
        }
        // RAM_SIZE register
        Ok(self.ram_size & mask)
    }

    /// DMA register read
    fn dma_reg(&self, offset: u32) -> (r: u32)
        requires
            self.wf(),
            dma_load_ok(offset),
        ensures
            r == dma_reg_value(self.dma_state(), offset),
    {
        let major = (offset & 0x70) >> 4;
        let minor = offset & 0xf;
        if major <= 6 {
            // Per-channel registers
            let channel = self.dma.channel(Port::from_index(major));
            if minor == 0 {
                channel.base()
            } else if minor == 4 {
                channel.block_control()
            } else {
                channel.control()
            }
        } else if minor == 0 {
            // Common DMA registers
            self.dma.control()
        } else {
            self.dma.interrupt()
        }
    }

    /// DMA register write
    fn set_dma_reg(&mut self, shared: &mut SharedState, offset: u32, val: u32) -> (r: Result<(), CdError>)
        requires
            old(self).wf(),
            dma_store_supported(old(self).dma_state(), offset, val),
        ensures
            match r {
                Ok(_) => final(self).wf() && dma_stored(*old(self), *old(shared), *final(self), *final(shared), offset, val),
                Err(e) => dma_store_failed(*old(self), offset, val, e),
            },
    {
        let major = (offset & 0x70) >> 4;
        let minor = offset & 0xf;
        assert(major <= 7) by {
            lemma_addr_bits(offset, 0);
        }
        if major <= 6 {
            // Per-channel registers
            let port = Port::from_index(major);
            proof {
                assert(port == port_of(major));
                assert(self.dma.channels_view()[major as int].wf());
            }
            let channel = self.dma.channel_mut(port);
            if minor == 0 {
                channel.set_base(val);
            } else if minor == 4 {
                channel.set_block_control(val);
            } else {
                channel.set_control(val);
            }
            let active = channel.active();
            let ghost written = self.dma.channels_view()[major as int];
            proof {
                assert forall|j: int| 0 <= j < NUM_CHANNELS implies #[trigger] self.dma.channels_view()[j].wf() by {
                    if j != major {
                        assert(self.dma.channels_view()[j] == old(self).dma.channels_view()[j]);
                    }
                }
            }
            if active {
                if let Err(e) = self.do_dma(shared, port) {
                    proof {
                        let (base, block, ctrl) = channel_regs_written(
                            old(self).dma_state().channels_view()[major as int],
                            minor,
                            val,
                        );
                        assert(written.base_reg() == base);
                        assert(written.block_ctrl() == block);
                        assert(written.ctrl() == ctrl);
                    }
                    return Err(e);
                }
                proof {
                    written.lemma_completed();
                }
            }
            proof {
                let od = old(self).dma_state();
                let nd = self.dma_state();
                let (base, block, ctrl) = channel_regs_written(od.channels_view()[major as int], minor, val);
                assert(written.base_reg() == base);
                assert(written.block_ctrl() == block);
                assert(written.ctrl() == ctrl);
                assert(nd.control_reg() == od.control_reg());
                assert(self.bios_state() == old(self).bios_state());
                assert(shared.time() == old(shared).time());
                assert(nd.channels_view().len() == NUM_CHANNELS);
                assert(nd.irq_enable() == od.irq_enable());
                assert(nd.channels_view()[major as int].base_reg() == base);
                assert(nd.channels_view()[major as int].block_ctrl() == block);
                assert(forall|j: int|
                    0 <= j < NUM_CHANNELS && j != major ==> #[trigger] nd.channels_view()[j]
                        == od.channels_view()[j]);
                if control_active(ctrl) {
                    assert(shared.irq() == if !od.irq_line() && nd.irq_line() {
                        old(shared).irq().raised(Interrupt::Dma)
                    } else {
                        old(shared).irq()
                    });
                    assert(nd.channels_view()[major as int].ctrl() == ctrl & !0x1100_0000u32);
                    assert(nd.channel_irq_flag_bits() == od.channel_irq_flag_bits() | (
                    od.channel_irq_enable() & (1u8 << major)));
                } else {
                    assert(nd.channels_view()[major as int].ctrl() == ctrl);
                    assert(self.ram_state() == old(self).ram_state());
                    assert(shared.irq() == old(shared).irq());
                    assert(nd.channel_irq_flag_bits() == od.channel_irq_flag_bits());
                }
            }
        } else if minor == 0 {
            // Common DMA registers
            self.dma.set_control(val);
            assert(self.dma_state().interrupt_reg() == old(self).dma_state().interrupt_reg());
            assert(self.dma_state().control_reg() == val);
        } else {
            self.dma.set_interrupt(shared, val);
            assert(self.dma_state().control_reg() == old(self).dma_state().control_reg());
        }
        Ok(())
    }

    /// Execute DMA transfer for a port
    fn do_dma(&mut self, shared: &mut SharedState, port: Port) -> (r: Result<(), CdError>)
        requires
            old(self).wf(),
            dma_transfer_supported(old(self).dma_state().channels_view()[port_index(port) as int].ctrl(), port),
        ensures
            ({
                let c = old(self).dma_state().channels_view()[port_index(port) as int];
                let out = dma_transfer_cd(
                    old(self).ram_state().bytes(),
                    old(self).gpu_writes_view(),
                    old(self).cdrom_view(),
                    port,
                    c.base_reg(),
                    c.block_ctrl(),
                    c.ctrl(),
                );
                match r {
                    Ok(_) => out == Ok::<(Seq<u8>, Seq<(u32, u32)>, CdRomView), CdError>(
                        (final(self).ram_state().bytes(), final(self).gpu_writes_view(), final(self).cdrom_view()),
                    ),
                    Err(e) => out == Err::<(Seq<u8>, Seq<(u32, u32)>, CdRomView), CdError>(e),
                }
            }),
            r is Ok ==> {
                &&& final(self).wf()
                &&& final(self).dma_state().channels_view() == old(self).dma_state().channels_view().update(
                    port_index(port) as int,
                    old(self).dma_state().channels_view()[port_index(port) as int].completed(),
                )
                &&& final(self).dma_state().channel_irq_flag_bits() == old(self).dma_state().channel_irq_flag_bits() | (
                old(self).dma_state().channel_irq_enable() & (1u8 << port_index(port)))
                &&& final(self).dma_state().channel_irq_enable() == old(self).dma_state().channel_irq_enable()
                &&& final(self).dma_state().irq_enable() == old(self).dma_state().irq_enable()
                &&& final(self).dma_state().forced_irq() == old(self).dma_state().forced_irq()
                &&& final(self).dma_state().dummy_irq_bits() == old(self).dma_state().dummy_irq_bits()
                &&& final(self).dma_state().control_reg() == old(self).dma_state().control_reg()
                &&& final(shared).time() == old(shared).time()
                &&& final(shared).counter_values() == old(shared).counter_values()
                &&& final(shared).irq() == if !old(self).dma_state().irq_line() && final(self).dma_state().irq_line() {
                    old(shared).irq().raised(Interrupt::Dma)
                } else {
                    old(shared).irq()
                }
            },
            final(self).bios_state() == old(self).bios_state(),
            final(self).scratch_state() == old(self).scratch_state(),
            final(self).spu_state() == old(self).spu_state(),
            final(self).timers_state() == old(self).timers_state(),
            final(self).cache_control_reg() == old(self).cache_control_reg(),
            final(self).ram_size_reg() == old(self).ram_size_reg(),
            final(self).gpu_clocks_state() == old(self).gpu_clocks_state(),
            final(self).pad_state() == old(self).pad_state(),
    {
        // DMA transfer has been started, for now let's process
        // everything in one pass (i.e. no chopping or priority
        // handling)
        let channel = *self.dma.channel(port);
        proof {
            assert(channel.wf());
        }
        match port {
            Port::CdRom => {
                if let Err(e) = self.do_dma_cdrom(channel) {
                    return Err(e);
                }
            },
            _ => {
                match channel.sync() {
                    Sync::LinkedList => self.do_dma_linked_list(port, channel),
                    _ => self.do_dma_block(port, channel),
                }
            },
        }
        self.dma.done(shared, port);
        Ok(())
    }

    /// Emulate a DMA transfer from the CDROM controller to the RAM, in
    /// Manual or Request synchronization mode
    fn do_dma_cdrom(&mut self, channel: Channel) -> (r: Result<(), CdError>)
        requires
            old(self).wf(),
            channel.wf(),
            control_sync(channel.ctrl()) != Sync::LinkedList,
        ensures
            ({
                let out = cd_dma_block(
                    old(self).ram_state().bytes(),
                    old(self).cdrom_view(),
                    control_step(channel.ctrl()),
                    channel.base_reg(),
                    block_transfer_size(channel.ctrl(), channel.block_ctrl()),
                );
                match r {
                    Ok(_) => final(self).wf() && out == Ok::<(Seq<u8>, CdRomView), CdError>(
                        (final(self).ram_state().bytes(), final(self).cdrom_view()),
                    ),
                    Err(e) => out == Err::<(Seq<u8>, CdRomView), CdError>(e),
                }
            }),
            final(self).gpu_writes_view() == old(self).gpu_writes_view(),
            final(self).dma_state() == old(self).dma_state(),
            final(self).bios_state() == old(self).bios_state(),
            final(self).scratch_state() == old(self).scratch_state(),
            final(self).spu_state() == old(self).spu_state(),
            final(self).timers_state() == old(self).timers_state(),
            final(self).cache_control_reg() == old(self).cache_control_reg(),
            final(self).ram_size_reg() == old(self).ram_size_reg(),
            final(self).gpu_clocks_state() == old(self).gpu_clocks_state(),
            final(self).pad_state() == old(self).pad_state(),
    {
        let step = channel.step();
        let increment: u32 = match step {
            Step::Increment => 4,
            Step::Decrement => 0xffff_fffc,
        };
        let mut addr = channel.base();
        // Transfer size in words
        let mut remsz: u32 = match channel.transfer_size() {
            Some(bytes) => {
                proof {
                    lemma_transfer_words(channel.ctrl(), channel.block_ctrl(), bytes);
                }
                (bytes / 4) as u32
            },
            None => 0,
        };
        let ghost target = cd_dma_block(self.ram.bytes(), self.cdrom@, step, addr, remsz);
        while remsz > 0
            invariant
                self.wf(),
                cd_dma_block(self.ram.bytes(), self.cdrom@, step, addr, remsz) == target,
                target == cd_dma_block(
                    old(self).ram_state().bytes(),
                    old(self).cdrom_view(),
                    control_step(channel.ctrl()),
                    channel.base_reg(),
                    block_transfer_size(channel.ctrl(), channel.block_ctrl()),
                ),
                increment == if step == Step::Increment { 4u32 } else { 0xffff_fffcu32 },
                self.gpu_writes@ == old(self).gpu_writes@,
                self.dma == old(self).dma,
                self.bios == old(self).bios,
                self.scratch_pad == old(self).scratch_pad,
                self.spu == old(self).spu,
                self.timers == old(self).timers,
                self.cache_control == old(self).cache_control,
                self.ram_size == old(self).ram_size,
                self.gpu_clocks == old(self).gpu_clocks,
                self.pad_memcard == old(self).pad_memcard,
            decreases remsz,
        {
            // The RAM address wraps and the two LSB are ignored
            let cur_addr = addr & 0x1ffffc;
            assert(cur_addr & 0x1fffff == cur_addr && cur_addr <= 0x1ffffc) by {
                lemma_addr_bits(addr, 0);
            }
            let word = match self.cdrom.dma_read_word() {
                Ok(w) => w,
                Err(e) => return Err(e),
            };
            self.ram.store::<super::Word>(cur_addr, word);
            addr = addr.wrapping_add(increment);
            remsz -= 1;
        }
        Ok(())
    }

    /// Emulate DMA transfer for linked list synchronization mode.
    fn do_dma_linked_list(&mut self, port: Port, channel: Channel)
        requires
            old(self).wf(),
            channel.wf(),
            control_sync(channel.ctrl()) == Sync::LinkedList,
            dma_transfer_supported(channel.ctrl(), port),
        ensures
            final(self).wf(),
            final(self).ram_state() == old(self).ram_state(),
            final(self).gpu_writes_view() == dma_list(
                old(self).ram_state().bytes(),
                old(self).gpu_writes_view(),
                channel.base_reg() & 0x1ffffc,
                DMA_LIST_MAX_PACKETS,
            ),
            final(self).dma_state() == old(self).dma_state(),
            final(self).bios_state() == old(self).bios_state(),
            final(self).scratch_state() == old(self).scratch_state(),
            final(self).spu_state() == old(self).spu_state(),
            final(self).timers_state() == old(self).timers_state(),
            final(self).cache_control_reg() == old(self).cache_control_reg(),
            final(self).ram_size_reg() == old(self).ram_size_reg(),
            final(self).gpu_clocks_state() == old(self).gpu_clocks_state(),
            final(self).cdrom_view() == old(self).cdrom_view(),
            final(self).pad_state() == old(self).pad_state(),
    {
        let ghost ram = self.ram.bytes();
        let ghost target = dma_list(ram, self.gpu_writes@, channel.base_reg() & 0x1ffffc, DMA_LIST_MAX_PACKETS);
        let base = channel.base();
        let mut addr = base & 0x1ffffc;
        assert(addr & 0x1ffffc == addr) by {
            lemma_addr_bits(base, 0);
        }
        let mut fuel: u32 = DMA_LIST_MAX_PACKETS;
        let mut done = false;
        while !done && fuel > 0
            invariant
                self.wf(),
                self.ram.bytes() == ram,
                addr & 0x1ffffc == addr,
                done ==> self.gpu_writes@ == target,
                !done ==> dma_list(ram, self.gpu_writes@, addr, fuel) == target,
                !done && fuel == 0 ==> self.gpu_writes@ == target,
                self.ram == old(self).ram,
                self.dma == old(self).dma,
                self.bios == old(self).bios,
                self.scratch_pad == old(self).scratch_pad,
                self.spu == old(self).spu,
                self.timers == old(self).timers,
                self.cache_control == old(self).cache_control,
                self.ram_size == old(self).ram_size,
                self.gpu_clocks == old(self).gpu_clocks,
                self.cdrom@ == old(self).cdrom@,
                self.pad_memcard == old(self).pad_memcard,
            decreases 2 * fuel + if done { 0int } else { 1int },
        {
            // In linked list mode, each entry starts with a "header"
            // word. The high byte contains the number of words in the
            // "packet" (not counting the header word)
            assert(addr & 0x1fffff == addr && addr <= 0x1ffffc) by {
                lemma_addr_bits(addr, 0);
            }
            let header = self.ram.load::<super::Word>(addr);
            let ghost gpu_start = self.gpu_writes@;
            let ghost addr_start = addr;
            let mut remsz = header >> 24;
            while remsz > 0
                invariant
                    self.wf(),
                    self.ram.bytes() == ram,
                    addr & 0x1ffffc == addr,
                    dma_packet(ram, self.gpu_writes@, addr, remsz) == dma_packet(
                        ram,
                        gpu_start,
                        addr_start,
                        header >> 24u32,
                    ),
                    self.ram == old(self).ram,
                    self.dma == old(self).dma,
                    self.bios == old(self).bios,
                    self.scratch_pad == old(self).scratch_pad,
                    self.spu == old(self).spu,
                    self.timers == old(self).timers,
                    self.cache_control == old(self).cache_control,
                    self.ram_size == old(self).ram_size,
                    self.gpu_clocks == old(self).gpu_clocks,
                self.cdrom@ == old(self).cdrom@,
                self.pad_memcard == old(self).pad_memcard,
                decreases remsz,
            {
                assert(addr <= 0x1ffffc) by {
                    lemma_addr_bits(addr, 0);
                }
                let a4 = addr + 4;
                addr = a4 & 0x1ffffc;
                assert(addr & 0x1ffffc == addr && addr & 0x1fffff == addr && addr <= 0x1ffffc) by {
                    lemma_addr_bits(a4, 0);
                }
                let command = self.ram.load::<super::Word>(addr);
                // Send command to the GPU
                self.gpu_writes.push((0, command));
                remsz -= 1;
            }
            // The end-of-table marker is usually 0xffffff but mednafen
            // only checks for the MSB so maybe that's what the
            // hardware does? Since this bit is not part of any valid
            // address it makes some sense.
            if header & 0x800000 != 0 {
                done = true;
            } else {
                addr = header & 0x1ffffc;
                assert(addr & 0x1ffffc == addr && addr <= 0x1ffffc) by {
                    lemma_addr_bits(header, 0);
                }
                fuel -= 1;
            }
        }
    }

    /// Emulate DMA transfer for Manual and Request synchronization
    /// modes.
    fn do_dma_block(&mut self, port: Port, channel: Channel)
        requires
            old(self).wf(),
            channel.wf(),
            control_sync(channel.ctrl()) != Sync::LinkedList,
            dma_transfer_supported(channel.ctrl(), port),
        ensures
            final(self).wf(),
            ({
                let (ram, gpu) = dma_block(
                    old(self).ram_state().bytes(),
                    old(self).gpu_writes_view(),
                    port,
                    control_direction(channel.ctrl()),
                    control_step(channel.ctrl()),
                    channel.base_reg(),
                    block_transfer_size(channel.ctrl(), channel.block_ctrl()),
                );
                &&& final(self).ram_state().bytes() == ram
                &&& final(self).gpu_writes_view() == gpu
            }),
            final(self).dma_state() == old(self).dma_state(),
            final(self).bios_state() == old(self).bios_state(),
            final(self).scratch_state() == old(self).scratch_state(),
            final(self).spu_state() == old(self).spu_state(),
            final(self).timers_state() == old(self).timers_state(),
            final(self).cache_control_reg() == old(self).cache_control_reg(),
            final(self).ram_size_reg() == old(self).ram_size_reg(),
            final(self).gpu_clocks_state() == old(self).gpu_clocks_state(),
            final(self).cdrom_view() == old(self).cdrom_view(),
            final(self).pad_state() == old(self).pad_state(),
    {
        let step = channel.step();
        let dir = channel.direction();
        let increment: u32 = match step {
            Step::Increment => 4,
            Step::Decrement => 0xffff_fffc,
        };
        let mut addr = channel.base();
        // Transfer size in words
        let mut remsz: u32 = match channel.transfer_size() {
            Some(bytes) => {
                proof {
                    lemma_transfer_words(channel.ctrl(), channel.block_ctrl(), bytes);
                }
                (bytes / 4) as u32
            },
            None => 0,
        };
        let ghost target = dma_block(
            self.ram.bytes(),
            self.gpu_writes@,
            port,
            dir,
            step,
            addr,
            remsz,
        );
        while remsz > 0
            invariant
                self.wf(),
                dma_block(self.ram.bytes(), self.gpu_writes@, port, dir, step, addr, remsz) == target,
                increment == if step == Step::Increment { 4u32 } else { 0xffff_fffcu32 },
                dma_transfer_supported(channel.ctrl(), port),
                dir == control_direction(channel.ctrl()),
                control_sync(channel.ctrl()) != Sync::LinkedList,
                self.dma == old(self).dma,
                self.bios == old(self).bios,
                self.scratch_pad == old(self).scratch_pad,
                self.spu == old(self).spu,
                self.timers == old(self).timers,
                self.cache_control == old(self).cache_control,
                self.ram_size == old(self).ram_size,
                self.gpu_clocks == old(self).gpu_clocks,
                self.cdrom@ == old(self).cdrom@,
                self.pad_memcard == old(self).pad_memcard,
            decreases remsz,
        {
            // Not sure what happens if address is bogus... Mednafen
            // just masks addr this way, maybe that's how the hardware
            // behaves (i.e. the RAM address wraps and the two LSB are
            // ignored, seems reasonable enough
            let cur_addr = addr & 0x1ffffc;
            assert(cur_addr & 0x1fffff == cur_addr && cur_addr <= 0x1ffffc) by {
                lemma_addr_bits(addr, 0);
            }
            match dir {
                Direction::FromRam => {
                    let src_word = self.ram.load::<super::Word>(cur_addr);
                    match port {
                        Port::Gpu => self.gpu_writes.push((0, src_word)),
                        // MDEC input is not emulated
                        _ => (),
                    }
                },
                Direction::ToRam => {
                    let src_word: u32 = match port {
                        // Clear ordering table
                        Port::Otc => if remsz == 1 {
                            // Last entry contains the end of table
                            // marker
                            0xffffff
                        } else {
                            // Pointer to the previous entry
                            addr.wrapping_sub(4) & 0x1fffff
                        },
                        // GPU reads are not implemented
                        _ => 0,
                    };
                    self.ram.store::<super::Word>(cur_addr, src_word);
                },
            }
            addr = addr.wrapping_add(increment);
            remsz -= 1;
        }
    }

    /// Store `val` into `addr`
    pub fn store<T: Addressable>(&mut self, shared: &mut SharedState, addr: u32, val: u32) -> (r: Result<(), CdError>)
        requires
            old(self).wf(),
            old(shared).time().wf(),
            old(shared).time().date() <= MAX_DATE,
            old(self).store_ok_at(*old(shared), T::spec_width(), addr, val),
        ensures
            match r {
                Ok(_) => final(self).wf() && stored(
                    *old(self),
                    *old(shared),
                    *final(self),
                    *final(shared),
                    T::spec_width(),
                    addr,
                    val,
                ),
                Err(e) => store_failed(*old(self), *old(shared), T::spec_width(), addr, val, e),
            },
    {
        let abs_addr = crate::memory::map::mask_region(addr);
        let v = val & width_mask::<T>();
        if let Some(offset) = crate::memory::map::ram().contains(abs_addr) {
            self.ram.store::<T>(offset, val);
            return Ok(());
        }
        if let Some(offset) = crate::memory::map::scratch_pad().contains(abs_addr) {
            self.scratch_pad.store::<T>(offset, val);
            return Ok(());
        }
        if let Some(offset) = crate::memory::map::irq_control().contains(abs_addr) {
            if offset == 0 {
                shared.irq_state_mut().ack(v as u16);
            } else {
                shared.irq_state_mut().set_mask(v as u16);
            }
            return Ok(());
        }
        if let Some(offset) = crate::memory::map::dma().contains(abs_addr) {
            return self.set_dma_reg(shared, offset, v);
        }
        if let Some(offset) = crate::memory::map::gpu().contains(abs_addr) {
            self.gpu_writes.push((offset, v));
            return Ok(());
        }
        if let Some(offset) = crate::memory::map::timers().contains(abs_addr) {
            // `gpu_clocks` holds the up to date GPU video timings
            self.timers.store::<T>(shared.tk(), &self.gpu_clocks, offset, v);
            return Ok(());
        }
        if let Some(offset) = crate::memory::map::cdrom().contains(abs_addr) {
            return self.cdrom.store::<T>(shared, offset, val);
        }
        if let Some(_) = crate::memory::map::mdec().contains(abs_addr) {
            // MDEC registers are not handled
            return Ok(());
        }
        if let Some(offset) = crate::memory::map::spu().contains(abs_addr) {
            self.spu.store::<T>(offset, v);
            return Ok(());
        }
        if let Some(offset) = crate::memory::map::pad_memcard().contains(abs_addr) {
            self.pad_memcard.store::<T>(shared, offset, v);
            return Ok(());
        }
        if let Some(_) = crate::memory::map::cache_control().contains(abs_addr) {
            self.cache_control = CacheControl(v);
            return Ok(());
        }
        if let Some(_) = crate::memory::map::mem_control().contains(abs_addr) {
            // The expansion base addresses are checked by the
            // precondition, the latency registers are ignored
            return Ok(());
        }
        if let Some(_) = crate::memory::map::ram_size().contains(abs_addr) {
            self.ram_size = v;
            return Ok(());
        }
        // Expansion 2 writes are ignored
        Ok(())
    }
}

/// A transfer size in bytes is four times the number of words the
/// block registers program
proof fn lemma_transfer_words(ctrl: u32, block: u32, bytes: u64)
    requires
        control_sync(ctrl) != Sync::LinkedList,
        bytes == if control_sync(ctrl) == Sync::Manual {
            (4 * (block & 0xffff)) as u64
        } else {
            (4 * ((block >> 16u32) * (block & 0xffff))) as u64
        },
    ensures
        (bytes / 4) as u32 == block_transfer_size(ctrl, block),
{
    let hi = block >> 16u32;
    let lo = block & 0xffff;
    assert(hi <= 0xffff && lo <= 0xffff) by (bit_vector)
        requires
            hi == block >> 16u32,
            lo == block & 0xffff,
    ;
    assert(hi * lo <= 0xffff * 0xffff) by (nonlinear_arith)
        requires
            hi <= 0xffff,
            lo <= 0xffff,
    ;
}

/// Bit-level facts about register offsets and word-aligned RAM
/// addresses
proof fn lemma_addr_bits(x: u32, mask: u32)
    by (bit_vector)
    ensures
        0u32 & mask == 0,
        (x & 0x70) >> 4u32 <= 7,
        (x & 0x1ffffc) & 0x1ffffc == x & 0x1ffffc,
        (x & 0x1ffffc) & 0x1fffff == x & 0x1ffffc,
        x & 0x1ffffc <= 0x1ffffc,
        x & 0x1ffffc == x ==> (x & 0x1fffff == x && x <= 0x1ffffc),
{
}

} // verus!
