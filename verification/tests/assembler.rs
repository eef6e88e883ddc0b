use rustation::assembler::syntax::Instruction::{Align, Break, Global, Jal, Li, Lui, Nop, Ori, Sll};
use rustation::assembler::syntax::{Instruction, Label, R0, T5};
use rustation::assembler::Assembler;

fn test_instruction(instruction: Instruction, expected: &[u8]) {
    let mut assembler = Assembler::from_base(0);

    assembler.assemble(&[instruction]).unwrap();

    let (mc, _) = assembler.machine_code();

    println!("{:?}", mc);

    assert!(mc == expected);
}

#[test]
fn opcodes() {
    let tests = [
        (Nop, [0, 0, 0, 0]),
        (Sll(R0, R0, 0), [0, 0, 0, 0]),
        (Lui(T5, 0xdead), [0xad, 0xde, 0x0d, 0x3c]),
        (Ori(T5, T5, 0xbeef), [0xef, 0xbe, 0xad, 0x35]),
        (Break(0x1234), [0x0d, 0x8d, 0x04, 0x00]),
        (Jal(Label::Absolute(0xabc)), [0xaf, 0x02, 0x00, 0x0c]),
    ];

    for &(instruction, ref expected) in &tests {
        test_instruction(instruction, expected);
    }
}

#[test]
fn redefined_global_emits_nothing() {
    let mut assembler = Assembler::from_base(0x1000);
    assert_eq!(assembler.assemble(&[Global("start"), Nop]), Ok(4));
    // Defined by an earlier call
    assert!(assembler.assemble(&[Nop, Global("start"), Nop]).is_err());
    // Defined twice in the same call
    assert!(assembler.assemble(&[Global("loop"), Nop, Global("loop")]).is_err());
    let (mc, base) = assembler.machine_code();
    assert_eq!(base, 0x1000);
    assert_eq!(mc, vec![0, 0, 0, 0]);
}

#[test]
fn assembled_size_is_the_sum_of_instruction_sizes() {
    let mut assembler = Assembler::from_base(0);
    // Li of a full word takes two instructions, Align pads to the
    // next 8 byte boundary, labels take no room
    let instrs = [Nop, Li(T5, 0x1234_5678), Global("here"), Align(3), Nop];
    let mut expected = 0;
    let mut here = 0;
    for i in &instrs {
        let n = i.bytes(here);
        expected += n;
        here += n;
    }
    assert_eq!(expected, 20);
    assert_eq!(assembler.assemble(&instrs), Ok(expected));
    assert_eq!(assembler.machine_code().0.len(), 20);
}
