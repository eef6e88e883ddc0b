use rustation::padmemcard::gamepad::{Button, ButtonState, DigitalProfile, GamePad};
use rustation::padmemcard::PadMemCard;
use rustation::assembler::syntax::Instruction::{B, Nop};
use rustation::assembler::syntax::Label;
use rustation::assembler::Assembler;
use rustation::cpu::disasm::decode;
use rustation::cpu::Instruction;
use rustation::debug_uart::DebugUart;
use rustation::memory::interrupts::{Interrupt, InterruptState};
use rustation::memory::{Byte, HalfWord, Word};
use rustation::parallel_io::{combine_le, ParallelIo, ParallelIoModule};
use rustation::shared::SharedState;
use rustation::spu::Spu;

#[test]
fn uart_lines() {
    let mut shared = SharedState::new();
    let mut uart = DebugUart::new();
    assert!(uart.store::<Byte>(&mut shared, 0x23, b'h' as u32).is_none());
    assert!(uart.store::<Byte>(&mut shared, 0x23, b'i' as u32).is_none());
    assert_eq!(uart.store::<Byte>(&mut shared, 0x23, b'\n' as u32), Some("hi".to_string()));
    // Other registers have no effect
    assert!(uart.store::<Byte>(&mut shared, 0x20, 0x12).is_none());
}

#[test]
fn spu_registers_read_back() {
    let mut spu = Spu::new();
    // Voice 0 volume left
    spu.store::<HalfWord>(0x0, 0x3fff);
    assert_eq!(spu.load::<HalfWord>(0x0), 0x3fff);
}

#[test]
fn parallel_port_without_module() {
    let mut shared = SharedState::new();
    let mut pio = ParallelIo::disconnected();
    assert_eq!(pio.load::<Byte>(&mut shared, 0), 0xff);
    // No expansion: full ones at every width
    assert_eq!(pio.load::<HalfWord>(&mut shared, 0x10), 0xffff);
    assert_eq!(pio.load::<Word>(&mut shared, 0x20), 0xffff_ffff);
    assert_eq!(combine_le(&vec![0x78, 0x56, 0x34, 0x12]), 0x12345678);
    assert_eq!(combine_le(&vec![0xcd, 0xab]), 0xabcd);
    assert_eq!(combine_le(&vec![]), 0);
}

#[test]
fn disassembly() {
    assert_eq!(decode(Instruction(0x3c0ddead)), "lui R13, 0xdead");
    assert_eq!(decode(Instruction(0x00000000)), "sll R00, R00 << 0");
}

#[test]
fn interrupt_controller() {
    let mut irq = InterruptState::new();
    assert!(!irq.active());
    irq.raise(Interrupt::CdRom);
    assert_eq!(irq.status(), 1 << 2);
    assert!(!irq.active());
    irq.set_mask(0x00fd);
    assert!(irq.active());
    // Acknowledge by writing 0 to the bit
    irq.ack(!(1 << 2));
    assert_eq!(irq.status(), 0);
    assert!(!irq.active());
}

#[test]
fn assembler_labels() {
    let mut assembler = Assembler::from_base(0x80010000);
    let r = assembler.assemble(&[B(Label::Global("nowhere")), Nop]);
    assert!(r.is_err());
    let mut assembler = Assembler::from_base(0x80010000);
    let r = assembler.assemble(&[B(Label::Absolute(0x80010000)), Nop]);
    assert_eq!(r, Ok(8));
    let (code, _) = assembler.machine_code();
    // Branch to itself: offset -1
    assert_eq!(code[..4], [0xff, 0xff, 0x00, 0x10]);
}

#[test]
fn frontend_reaches_pad_profiles() {
    let mut pads = PadMemCard::new();
    let [pad1, _pad2] = pads.pad_profiles();
    pad1.set_button_state(Button::Start, ButtonState::Pressed);
    // Digital pad: ID bytes, then the first button byte with Start
    // (bit 3) cleared
    assert_eq!(pad1.handle_command(1, 0x42), (0x41, true));
    assert_eq!(pad1.handle_command(2, 0x00), (0x5a, true));
    assert_eq!(pad1.handle_command(3, 0x00), (0xf7, true));
}

/// Expansion answering the low byte of each offset it is read at
struct OffsetEcho;

impl ParallelIoModule for OffsetEcho {
    fn load(&mut self, _shared: &mut SharedState, offset: u32) -> u8 {
        offset as u8
    }

    fn store(&mut self, _shared: &mut SharedState, _offset: u32, _val: u8) {}

    fn load_response(&self, offset: u32) -> u8 {
        offset as u8
    }
}

#[test]
fn parallel_port_module_reads_offsets_in_order() {
    let mut shared = SharedState::new();
    let mut pio = ParallelIo::disconnected();
    pio.set_module(Box::new(OffsetEcho));
    assert_eq!(pio.load::<Word>(&mut shared, 0x40), 0x4342_4140);
    assert_eq!(pio.load::<HalfWord>(&mut shared, 0x7), 0x0807);
    // Narrow loads reach the top of the offset range
    assert_eq!(pio.load::<Byte>(&mut shared, 0xffff_ffff), 0xff);
    assert_eq!(pio.load::<HalfWord>(&mut shared, 0xffff_fffe), 0xfffe);
}

#[test]
fn gamepad_answers_with_its_profile() {
    let mut pad = GamePad::new(Box::new(DigitalProfile::new()));
    pad.select();
    assert_eq!(pad.send_command(0x01), (0xff, true));
    assert_eq!(pad.send_command(0x42), (0x41, true));
    assert_eq!(pad.send_command(0x00), (0x5a, true));
    assert_eq!(pad.send_command(0x00), (0xff, true));
    assert_eq!(pad.send_command(0x00), (0xff, false));
    // The transaction is over until the next select
    assert_eq!(pad.send_command(0x01), (0xff, false));
    let mut empty = GamePad::disconnected();
    empty.select();
    assert_eq!(empty.send_command(0x01), (0xff, false));
}

#[test]
fn gamepad_answers_with_the_profile_set_later() {
    let mut pad = GamePad::disconnected();
    pad.select();
    assert_eq!(pad.send_command(0x01), (0xff, false));
    pad.set_profile(Box::new(DigitalProfile::new()));
    pad.select();
    assert_eq!(pad.send_command(0x01), (0xff, true));
    assert_eq!(pad.send_command(0x42), (0x41, true));
    assert_eq!(pad.send_command(0x00), (0x5a, true));
}

#[test]
fn gamepad_reports_pressed_buttons() {
    let mut pad = GamePad::new(Box::new(DigitalProfile::new()));
    pad.set_button_state(Button::Start, ButtonState::Pressed);
    pad.set_button_state(Button::Cross, ButtonState::Pressed);
    pad.select();
    assert_eq!(pad.send_command(0x01), (0xff, true));
    assert_eq!(pad.send_command(0x42), (0x41, true));
    assert_eq!(pad.send_command(0x00), (0x5a, true));
    assert_eq!(pad.send_command(0x00), (0xf7, true));
    assert_eq!(pad.send_command(0x00), (0xbf, false));
    pad.set_button_state(Button::Start, ButtonState::Released);
    pad.select();
    pad.send_command(0x01);
    pad.send_command(0x42);
    pad.send_command(0x00);
    assert_eq!(pad.send_command(0x00), (0xff, true));
    assert_eq!(pad.send_command(0x00), (0xbf, false));
}

#[test]
fn pad_answer_read_back_from_rx() {
    let mut shared = SharedState::new();
    let mut pads = PadMemCard::new();
    pads.store::<HalfWord>(&mut shared, 14, 0x88);
    // TX enabled, select asserted, first port
    pads.store::<HalfWord>(&mut shared, 10, 0x0003);
    pads.store::<Byte>(&mut shared, 0, 0x01);
    shared.tk().tick(8 * 0x88);
    assert_eq!(pads.load::<Byte>(&mut shared, 0), 0xff);
    pads.store::<Byte>(&mut shared, 0, 0x42);
    shared.tk().tick(8 * 0x88);
    assert_eq!(pads.load::<Byte>(&mut shared, 0), 0x41);
    pads.store::<Byte>(&mut shared, 0, 0x00);
    shared.tk().tick(8 * 0x88);
    assert_eq!(pads.load::<Byte>(&mut shared, 0), 0x5a);
}
