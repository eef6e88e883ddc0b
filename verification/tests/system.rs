use rustation::assembler::syntax::Instruction::{Lui, Lw, Nop, Ori, Sw};
use rustation::assembler::syntax::{T0, R0};
use rustation::assembler::Assembler;
use rustation::cpu::cop0::{Cop0, Exception};
use rustation::cdrom::disc::Region;
use rustation::cdrom::model::CdError;
use rustation::cpu::Cpu;
use rustation::hardware::{video_standard, HardwareType};
use rustation::mdec::MDec;
use rustation::memory::bios::{Bios, BiosError, BIOS_SIZE};
use rustation::memory::interrupts::{Interrupt, InterruptState};
use rustation::memory::timers::{GpuClocks, Timers};
use rustation::memory::{AccessWidth, Byte, HalfWord, Interconnect, Word};
use rustation::shared::SharedState;
use rustation::timekeeper::FracCycles;

fn gpu_clocks() -> GpuClocks {
    GpuClocks {
        dotclock_period: FracCycles::from_cycles(1),
        dotclock_phase: FracCycles::from_cycles(0),
        hsync_period: FracCycles::from_cycles(2000),
        hsync_phase: FracCycles::from_cycles(0),
    }
}

fn bios_with(code: &[u8]) -> Bios {
    let mut image = vec![0u8; BIOS_SIZE];
    image[..code.len()].copy_from_slice(code);
    Bios::new(image).ok().unwrap()
}

#[test]
fn bios_image_size() {
    assert!(matches!(Bios::new(vec![0; 16]), Err(BiosError::TooSmall)));
    assert!(matches!(Bios::new(vec![0; BIOS_SIZE + 1]), Err(BiosError::TooBig)));
    let bios = Bios::new(vec![0x42; BIOS_SIZE]).ok().unwrap();
    assert_eq!(bios.load::<Word>(0), 0x42424242);
}

#[test]
fn ram_mirrors() {
    let mut shared = SharedState::new();
    let mut inter = Interconnect::new(bios_with(&[]), gpu_clocks(), None);
    inter.store::<Word>(&mut shared, 0x0000_0100, 0xdeadbeef).unwrap();
    // Same RAM through KSEG0 and KSEG1
    assert_eq!(inter.load::<Word>(&mut shared, 0x8000_0100).unwrap(), 0xdeadbeef);
    assert_eq!(inter.load::<HalfWord>(&mut shared, 0xa000_0102).unwrap(), 0xdead);
    assert_eq!(inter.load::<Byte>(&mut shared, 0x0000_0100).unwrap(), 0xef);
    inter.store::<Byte>(&mut shared, 0x8000_0101, 0x00).unwrap();
    assert_eq!(inter.load::<Word>(&mut shared, 0x0000_0100).unwrap(), 0xdead00ef);
    // The 2MB are mirrored four times over the first 8MB
    inter.store::<Word>(&mut shared, 0xa000_0200, 0x1234_5678).unwrap();
    assert_eq!(inter.load::<Word>(&mut shared, 0x8020_0200).unwrap(), 0x1234_5678);
    assert_eq!(inter.load::<Word>(&mut shared, 0x0060_0200).unwrap(), 0x1234_5678);
    assert_eq!(inter.load::<Word>(&mut shared, 0xa040_0200).unwrap(), 0x1234_5678);
}

#[test]
fn cpu_runs_bios_code() {
    let mut assembler = Assembler::from_base(0xbfc00000);
    assembler
        .assemble(&[Lui(T0, 0x1234), Ori(T0, T0, 0x5678), Sw(T0, R0, 0x100), Nop])
        .unwrap();
    let (code, base) = assembler.machine_code();
    assert_eq!(base, 0xbfc00000);
    let inter = Interconnect::new(bios_with(&code), gpu_clocks(), None);
    let mut cpu = Cpu::new(inter);
    let mut shared = SharedState::new();
    for _ in 0..4 {
        cpu.run_next_instruction(&mut shared).unwrap();
    }
    assert_eq!(cpu.interconnect().load_instruction::<Word>(0x100), 0x12345678);
}

#[test]
fn exception_return_restores_mode() {
    let mut cop0 = Cop0::new();
    cop0.set_sr(0x0040_0005);
    // Boot exception vectors (BEV set)
    let handler = cop0.enter_exception(Exception::SysCall, 0x8001_0000, false);
    assert_eq!(handler, 0xbfc00180);
    assert_eq!(cop0.sr(), 0x0040_0014);
    assert_eq!(cop0.epc(), 0x8001_0000);
    // Exception code 8 in bits [6:2]
    assert_eq!(cop0.cause(InterruptState::new()) & 0x7c, 8 << 2);
    cop0.return_from_exception();
    assert_eq!(cop0.sr() & 0xf, 0x5);
    assert_eq!(cop0.sr(), 0x0040_0015);
    // In a delay slot the EPC points at the branch
    cop0.set_sr(0);
    let handler = cop0.enter_exception(Exception::Break, 0x8001_0004, true);
    assert_eq!(handler, 0x80000080);
    assert_eq!(cop0.epc(), 0x8001_0000);
    assert_eq!(cop0.cause(InterruptState::new()) >> 31, 1);
}

#[test]
fn timer_counts_cpu_cycles() {
    let mut shared = SharedState::new();
    let gpu = gpu_clocks();
    let mut timers = Timers::new();
    // Timer 0: writing the mode register resets the counter
    timers.store::<Word>(shared.tk(), &gpu, 0x04, 0);
    shared.tk().tick(100);
    assert_eq!(timers.load::<Word>(shared.tk(), 0x00), 100);
    // Timer 2 in "system clock / 8" mode
    timers.store::<Word>(shared.tk(), &gpu, 0x24, 0x200);
    shared.tk().tick(800);
    assert_eq!(timers.load::<Word>(shared.tk(), 0x20), 100);
}

#[test]
fn mdec_status_after_reset() {
    let mut shared = SharedState::new();
    let mut mdec = MDec::new();
    // No parameter expected: bits [15:0] read 0xffff
    assert_eq!(mdec.status(), 0x8000_ffff);
    // "Set quant table" command with color matrices: 32 words follow
    mdec.store::<Word>(&mut shared, 0, 0x4000_0001);
    assert_eq!(mdec.status() & 0xffff, 31);
    assert!(mdec.status() & (1 << 29) != 0);
    // Control register reset
    mdec.store::<Word>(&mut shared, 4, 0x8000_0000);
    assert_eq!(mdec.load::<Word>(&mut shared, 4), 0x8000_ffff);
}

#[test]
fn video_standard_of_regions() {
    assert_eq!(video_standard(Region::Europe), HardwareType::Pal);
    assert_eq!(video_standard(Region::Japan), HardwareType::Ntsc);
    assert_eq!(video_standard(Region::NorthAmerica), HardwareType::Ntsc);
}

#[test]
fn supported_bus_accesses() {
    let inter = Interconnect::new(bios_with(&[]), gpu_clocks(), None);
    // RAM, through its mirrors, up to its last word
    assert!(inter.supports_load(AccessWidth::Word, 0x801f_fffc));
    assert!(!inter.supports_load(AccessWidth::Word, 0x807f_fffe));
    // BIOS is read only
    assert!(inter.supports_load(AccessWidth::Byte, 0xbfc0_0000));
    assert!(!inter.supports_store(AccessWidth::Byte, 0xbfc0_0000, 0));
    // The CDROM controller answers every access, with an error for
    // the ones it does not handle
    assert!(inter.supports_load(AccessWidth::Word, 0x1f80_1800));
    // GPU writes are recorded, reads are not modelled
    assert!(inter.supports_store(AccessWidth::Word, 0x1f80_1810, 0));
    assert!(!inter.supports_load(AccessWidth::Word, 0x1f80_1810));
    // Only supported interrupts may be unmasked
    assert!(inter.supports_store(AccessWidth::Word, 0x1f80_1074, 0x0001));
    assert!(!inter.supports_store(AccessWidth::Word, 0x1f80_1074, 0x0002));
    // The ScratchPad is not reachable through KSEG1
    assert!(inter.supports_load(AccessWidth::Word, 0x1f80_0000));
    assert!(!inter.supports_load(AccessWidth::Word, 0xbf80_0000));
}

#[test]
fn cpu_checks_next_instruction() {
    let mut assembler = Assembler::from_base(0xbfc00000);
    // A load from the GPU registers is not modelled
    assembler
        .assemble(&[Lui(T0, 0x1f80), Nop, Lw(T0, T0, 0x1810), Nop])
        .unwrap();
    let (code, _) = assembler.machine_code();
    let inter = Interconnect::new(bios_with(&code), gpu_clocks(), None);
    let mut cpu = Cpu::new(inter);
    let mut shared = SharedState::new();
    for _ in 0..3 {
        assert!(cpu.can_run_next_instruction(&shared));
        cpu.run_next_instruction(&mut shared).unwrap();
    }
    assert!(!cpu.can_run_next_instruction(&shared));
}

#[test]
fn cdrom_registers_on_the_bus() {
    let mut shared = SharedState::new();
    let mut inter = Interconnect::new(bios_with(&[]), gpu_clocks(), None);
    // Status: parameter FIFO empty and ready for writes
    assert_eq!(inter.load::<Byte>(&mut shared, 0x1f80_1800).unwrap(), 0x18);
    // Select register bank 1
    inter.store::<Byte>(&mut shared, 0x1f80_1800, 1).unwrap();
    assert_eq!(inter.load::<Byte>(&mut shared, 0xbf80_1800).unwrap(), 0x19);
    // The controller registers are 8 bits wide
    assert_eq!(inter.load::<Word>(&mut shared, 0x1f80_1800), Err(CdError::UnhandledWidth));
}

#[test]
fn pad_registers_on_the_bus() {
    let mut shared = SharedState::new();
    let mut inter = Interconnect::new(bios_with(&[]), gpu_clocks(), None);
    // Status: TX ready, nothing received
    assert!(inter.handles_load(&shared, AccessWidth::HalfWord, 0x1f80_1044));
    assert_eq!(inter.load::<HalfWord>(&mut shared, 0x1f80_1044).unwrap(), 5);
    // Baud rate divider
    assert!(inter.handles_store(&shared, AccessWidth::HalfWord, 0x1f80_104e, 0x88));
    inter.store::<HalfWord>(&mut shared, 0x1f80_104e, 0x88).unwrap();
    assert_eq!(inter.load::<HalfWord>(&mut shared, 0x1f80_104e).unwrap(), 0x88);
    // RX is read one byte at a time, TX needs the transmission enabled
    assert!(inter.handles_load(&shared, AccessWidth::Byte, 0x1f80_1040));
    assert!(!inter.handles_load(&shared, AccessWidth::HalfWord, 0x1f80_1040));
    assert!(!inter.handles_store(&shared, AccessWidth::Byte, 0x1f80_1040, 0x01));
    assert!(inter.can_sync(&shared));
}

#[test]
fn cdrom_dma_needs_a_read() {
    let mut shared = SharedState::new();
    let mut inter = Interconnect::new(bios_with(&[]), gpu_clocks(), None);
    // Channel 3 (CDROM): one word to 0x1000, manual mode, to the RAM
    inter.store::<Word>(&mut shared, 0x1f80_10b0, 0x1000).unwrap();
    inter.store::<Word>(&mut shared, 0x1f80_10b4, 1).unwrap();
    assert!(inter.handles_store(&shared, AccessWidth::Word, 0x1f80_10b8, 0x1100_0000));
    // Nothing was read from the disc: the controller has no data
    assert_eq!(
        inter.store::<Word>(&mut shared, 0x1f80_10b8, 0x1100_0000),
        Err(CdError::ReadInactive)
    );
}

#[test]
fn cop0_interrupt_pending_needs_sr_unmasking() {
    let mut cop0 = Cop0::new();
    let mut irq = InterruptState::new();
    irq.set_mask(0x8);
    irq.raise(Interrupt::Dma);
    assert_eq!(cop0.cause(irq) & 0x700, 0x400);
    assert!(!cop0.irq_active(irq));
    cop0.set_sr(0x401);
    assert!(cop0.irq_active(irq));
    cop0.set_sr(0x301);
    assert!(!cop0.irq_active(irq));
    // Exceptions latch no pending interrupt bit
    cop0.enter_exception(Exception::Overflow, 0x8000_0000, true);
    assert_eq!(cop0.cause(InterruptState::new()) & 0x700, 0);
}
