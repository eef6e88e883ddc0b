//! Assembly syntax: registers, labels and (pseudo-)instructions.

pub use self::Instruction::{
    Sll, Srl, Sra, Sllv, Srlv, Srav, Jr, Jalr, Syscall, Break, Mfhi, Mthi, Mflo, Mtlo, Mult,
    Multu, Div, Divu, Add, Addu, Sub, Subu, And, Or, Xor, Nor, Slt, Sltu, Bgez, Bltz, Bgezal,
    Bltzal, J, Jal, Beq, Bne, Blez, Bgtz, Addi, Addiu, Slti, Sltiu, Andi, Ori, Xori, Lui, Lb, Lh,
    Lwl, Lw, Lbu, Lhu, Lwr, Sb, Sh, Swl, Sw, Swr, Mfc0, Mtc0, Global, Local, Align, Nop, Move, Li,
    La, B, Beqz, Bnez,
};

use vstd::prelude::*;

verus! {

/// A general purpose register, identified by its index
pub type Register = u8;

/// A reference to a code location
#[derive(Clone, Copy)]
pub enum Label {
    /// Local label: name and search direction (`'b'` for the closest
    /// definition at or before the reference, `'f'` for the closest
    /// one after it)
    Local(&'static str, char),
    /// Global label, defined exactly once
    Global(&'static str),
    /// Absolute address
    Absolute(u32),
}

#[derive(Clone, Copy)]
pub enum Instruction {
    Sll(Register, Register, u8),
    Srl(Register, Register, u8),
    Sra(Register, Register, u8),
    Sllv(Register, Register, Register),
    Srlv(Register, Register, Register),
    Srav(Register, Register, Register),
    Jr(Register),
    Jalr(Register, Register),
    Syscall(u32),
    Break(u32),
    Mfhi(Register),
    Mthi(Register),
    Mflo(Register),
    Mtlo(Register),
    Mult(Register, Register),
    Multu(Register, Register),
    Div(Register, Register),
    Divu(Register, Register),
    Add(Register, Register, Register),
    Addu(Register, Register, Register),
    Sub(Register, Register, Register),
    Subu(Register, Register, Register),
    And(Register, Register, Register),
    Or(Register, Register, Register),
    Xor(Register, Register, Register),
    Nor(Register, Register, Register),
    Slt(Register, Register, Register),
    Sltu(Register, Register, Register),
    Bgez(Register, Label),
    Bltz(Register, Label),
    Bgezal(Register, Label),
    Bltzal(Register, Label),
    J(Label),
    Jal(Label),
    Beq(Register, Register, Label),
    Bne(Register, Register, Label),
    Blez(Register, Label),
    Bgtz(Register, Label),
    Addi(Register, Register, i16),
    Addiu(Register, Register, i16),
    Slti(Register, Register, i16),
    Sltiu(Register, Register, i16),
    Andi(Register, Register, u16),
    Ori(Register, Register, u16),
    Xori(Register, Register, u16),
    Lui(Register, u16),
    Lb(Register, Register, i16),
    Lh(Register, Register, i16),
    Lwl(Register, Register, i16),
    Lw(Register, Register, i16),
    Lbu(Register, Register, i16),
    Lhu(Register, Register, i16),
    Lwr(Register, Register, i16),
    Sb(Register, Register, i16),
    Sh(Register, Register, i16),
    Swl(Register, Register, i16),
    Sw(Register, Register, i16),
    Swr(Register, Register, i16),
    // Coprocessor opcodes
    Mfc0(Register, u8),
    Mtc0(Register, u8),
    /// Global labels: can't be redefined
    Global(&'static str),
    /// Local labels: can be redefined
    Local(&'static str),
    /// Add padding (if necessary) to reach the desired byte
    /// alignment expressed as a power of two. E.g. Align(2)
    /// aligns on 4 bytes.
    Align(u8),
    // Pseudo-instructions
    Nop,
    Move(Register, Register),
    /// Load immediate, can take two instructions if the immediate
    /// has low and high halfword both non-zero.
    Li(Register, u32),
    /// Load address: always takes two instructions
    La(Register, Label),
    B(Label),
    Beqz(Register, Label),
    Bnez(Register, Label),
}

/// Number of padding bytes needed after `loc` to reach an address
/// aligned on `1 << order`
pub open spec fn spec_pad_to_order(loc: u32, order: u8) -> u32 {
    (!loc).wrapping_add(1) & (((1u32 << order) - 1) as u32)
}

/// Size in bytes of the machine code generated for `i` at address `here`
pub open spec fn spec_instruction_bytes(i: Instruction, here: u32) -> u32 {
    match i {
        Instruction::Local(_) | Instruction::Global(_) => 0,
        Instruction::Li(_, v) => {
            let high: u32 = if v & 0xffff0000 != 0 {
                4
            } else {
                0
            };
            let low: u32 = if v & 0xffff != 0 || v == 0 {
                4
            } else {
                0
            };
            (high + low) as u32
        },
        Instruction::La(..) => 8,
        Instruction::Align(o) => spec_pad_to_order(here, o),
        _ => 4,
    }
}

/// An instruction is well-formed when its alignment order fits a
/// 32-bit address
pub open spec fn instruction_well_formed(i: Instruction) -> bool {
    match i {
        Instruction::Align(o) => o < 32,
        _ => true,
    }
}

impl Instruction {
    /// Length of the instruction in bytes
    pub fn bytes(&self, here: u32) -> (b: u32)
        requires
            instruction_well_formed(*self),
        ensures
            b == spec_instruction_bytes(*self, here),
    {
        match *self {
            Instruction::Local(_) | Instruction::Global(_) => 0,
            Instruction::Li(_, v) => {
                let mut b: u32 = 0;
                if v & 0xffff0000 != 0 {
                    b += 4;
                }
                if v & 0xffff != 0 || v == 0 {
                    b += 4;
                }
                b
            },
            Instruction::La(..) => 8,
            Instruction::Align(o) => pad_to_order(here, o),
            _ => 4,
        }
    }
}

/// Return the number of bytes necessary to add after `loc` in order
/// to reach an address aligned on `1 << order`
pub fn pad_to_order(loc: u32, order: u8) -> (p: u32)
    requires
        order < 32,
    ensures
        p == spec_pad_to_order(loc, order),
        p < (1u32 << order),
{
    assert(1u32 << order > 0) by (bit_vector)
        requires
            order < 32,
    ;
    let mask = (1u32 << order) - 1;
    proof {
        assert((!loc).wrapping_add(1) & mask < (1u32 << order)) by (bit_vector)
            requires
                order < 32,
                mask == (1u32 << order) - 1,
        ;
    }
    ((!loc).wrapping_add(1)) & mask
}

pub const R0: Register = 0;
pub const R1: Register = 1;
pub const R2: Register = 2;
pub const R3: Register = 3;
pub const R4: Register = 4;
pub const R5: Register = 5;
pub const R6: Register = 6;
pub const R7: Register = 7;
pub const R8: Register = 8;
pub const R9: Register = 9;
pub const R10: Register = 10;
pub const R11: Register = 11;
pub const R12: Register = 12;
pub const R13: Register = 13;
pub const R14: Register = 14;
pub const R15: Register = 15;
pub const R16: Register = 16;
pub const R17: Register = 17;
pub const R18: Register = 18;
pub const R19: Register = 19;
pub const R20: Register = 20;
pub const R21: Register = 21;
pub const R22: Register = 22;
pub const R23: Register = 23;
pub const R24: Register = 24;
pub const R25: Register = 25;
pub const R26: Register = 26;
pub const R27: Register = 27;
pub const R28: Register = 28;
pub const R29: Register = 29;
pub const R30: Register = 30;
pub const R31: Register = 31;

pub const AT: Register = R1;
pub const V0: Register = R2;
pub const V1: Register = R3;
pub const A0: Register = R4;
pub const A1: Register = R5;
pub const A2: Register = R6;
pub const A3: Register = R7;
pub const T0: Register = R8;
pub const T1: Register = R9;
pub const T2: Register = R10;
pub const T3: Register = R11;
pub const T4: Register = R12;
pub const T5: Register = R13;
pub const T6: Register = R14;
pub const T7: Register = R15;
pub const S0: Register = R16;
pub const S1: Register = R17;
pub const S2: Register = R18;
pub const S3: Register = R19;
pub const S4: Register = R20;
pub const S5: Register = R21;
pub const S6: Register = R22;
pub const S7: Register = R23;
pub const T8: Register = R24;
pub const T9: Register = R25;
pub const K0: Register = R26;
pub const K1: Register = R27;
pub const GP: Register = R28;
pub const SP: Register = R29;
pub const FP: Register = R30;
pub const RA: Register = R31;

} // verus!
