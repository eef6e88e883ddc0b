//! Basic MIPS assembler to generate PlayStation machine code

pub mod syntax;

use vstd::prelude::*;

use crate::text::{str_eq, string_push};
use crate::cpu::{ins_function, ins_subfunction, ins_s, ins_t, ins_d, ins_shift};
use crate::cpu::disasm::{disassembly, reg_name};
use self::syntax::{
    Instruction, Label, Register, instruction_well_formed, pad_to_order, spec_instruction_bytes,
    spec_pad_to_order,
};

verus! {

/// Little endian encoding of a 32bit machine word
pub open spec fn word_le_bytes(w: u32) -> Seq<u8> {
    seq![w as u8, (w >> 8u32) as u8, (w >> 16u32) as u8, (w >> 24u32) as u8]
}

/// Main opcode in bits [31:26]
pub open spec fn mc_op(op: u8) -> u32 {
    (op as u32) << 26u32
}

/// Secondary opcode in bits [5:0]
pub open spec fn mc_sub(op: u8) -> u32 {
    op as u32
}

pub open spec fn mc_cop_opcode(w: u32, op: u32) -> u32 {
    w | (op << 21u32)
}

/// Register `s` in bits [25:21]
pub open spec fn mc_s(w: u32, r: Register) -> u32 {
    w | ((r as u32) << 21u32)
}

/// Register `t` in bits [20:16]
pub open spec fn mc_t(w: u32, r: Register) -> u32 {
    w | ((r as u32) << 16u32)
}

/// Register `d` in bits [15:11]
pub open spec fn mc_d(w: u32, r: Register) -> u32 {
    w | ((r as u32) << 11u32)
}

/// Coprocessor register in bits [15:11]
pub open spec fn mc_cop_r(w: u32, cop_r: u8) -> u32 {
    w | ((cop_r as u32) << 11u32)
}

/// Shift amount in bits [10:6]
pub open spec fn mc_shift(w: u32, s: u8) -> u32 {
    w | ((s as u32) << 6u32)
}

/// SYSCALL/BREAK code in bits [25:6]
pub open spec fn mc_sys_brk(w: u32, v: u32) -> u32 {
    w | ((v & 0xfffff) << 6u32)
}

pub open spec fn bool_bit(b: bool) -> u32 {
    if b {
        1
    } else {
        0
    }
}

/// Link flag of the BGEZ/BLTZ family in bit 20
pub open spec fn mc_is_link(w: u32, is_link: bool) -> u32 {
    w | (bool_bit(is_link) << 20u32)
}

/// "Greater or equal" flag of the BGEZ/BLTZ family in bit 16
pub open spec fn mc_is_bgez(w: u32, is_bgez: bool) -> u32 {
    w | (bool_bit(is_bgez) << 16u32)
}

/// Unsigned immediate in bits [15:0]
pub open spec fn mc_imm(w: u32, v: u16) -> u32 {
    w | (v as u32)
}

/// Signed immediate in bits [15:0]
pub open spec fn mc_imm_se(w: u32, v: i16) -> u32 {
    w | (v as u16 as u32)
}

/// Jump target in bits [25:0]
pub open spec fn mc_imm_jump(w: u32, v: u32) -> u32 {
    w | (v & 0x3ffffff)
}

/// Position of the first global label called `name`, or the number of
/// globals if there is none
pub open spec fn global_index(gs: Seq<(Seq<char>, u32)>, name: Seq<char>) -> nat
    decreases gs.len(),
{
    if gs.len() == 0 {
        0
    } else if gs[0].0 == name {
        0
    } else {
        1 + global_index(gs.drop_first(), name)
    }
}

/// Address of the global label `name`, if it is defined
pub open spec fn find_global(gs: Seq<(Seq<char>, u32)>, name: Seq<char>) -> Option<u32> {
    let i = global_index(gs, name);
    if i < gs.len() {
        Some(gs[i as int].1)
    } else {
        None
    }
}

/// Define (or redefine) global label `name` at `loc`
pub open spec fn insert_global(gs: Seq<(Seq<char>, u32)>, name: Seq<char>, loc: u32) -> Seq<
    (Seq<char>, u32),
> {
    let i = global_index(gs, name);
    if i < gs.len() {
        gs.update(i as int, (name, loc))
    } else {
        gs.push((name, loc))
    }
}

/// No global label is defined twice
pub open spec fn globals_unique(gs: Seq<(Seq<char>, u32)>) -> bool {
    forall|i: int, j: int| 0 <= i < j < gs.len() ==> gs[i].0 != gs[j].0
}

/// Closest local label `name` defined at or before `here`
pub open spec fn find_local_before(ls: Seq<(u32, Seq<char>)>, name: Seq<char>, here: u32) -> Option<
    u32,
>
    decreases ls.len(),
{
    if ls.len() == 0 {
        None
    } else if ls.last().0 <= here && ls.last().1 == name {
        Some(ls.last().0)
    } else {
        find_local_before(ls.drop_last(), name, here)
    }
}

/// Closest local label `name` defined after `here`
pub open spec fn find_local_after(ls: Seq<(u32, Seq<char>)>, name: Seq<char>, here: u32) -> Option<
    u32,
>
    decreases ls.len(),
{
    if ls.len() == 0 {
        None
    } else if ls[0].0 > here && ls[0].1 == name {
        Some(ls[0].0)
    } else {
        find_local_after(ls.drop_first(), name, here)
    }
}

pub open spec fn msg_redefined(name: Seq<char>) -> Seq<char> {
    "Global label '"@ + name + "' is redefined"@
}

pub open spec fn msg_unknown_global(name: Seq<char>) -> Seq<char> {
    "Unknown global label '"@ + name + "'"@
}

pub open spec fn msg_unknown_local(name: Seq<char>) -> Seq<char> {
    "Unknown local label '"@ + name + "'"@
}

pub open spec fn msg_bad_direction(d: char) -> Seq<char> {
    "Unknown local label direction '"@ + seq![d] + "'"@
}

/// Address designated by `label` when referenced from `here`
pub open spec fn spec_label_address(
    gs: Seq<(Seq<char>, u32)>,
    ls: Seq<(u32, Seq<char>)>,
    here: u32,
    label: Label,
) -> Result<u32, Seq<char>> {
    match label {
        Label::Global(l) => match find_global(gs, l@) {
            Some(v) => Ok(v),
            None => Err(msg_unknown_global(l@)),
        },
        Label::Local(l, d) => if d == 'b' {
            match find_local_before(ls, l@, here) {
                Some(v) => Ok(v),
                None => Err(msg_unknown_local(l@)),
            }
        } else if d == 'f' {
            match find_local_after(ls, l@, here) {
                Some(v) => Ok(v),
                None => Err(msg_unknown_local(l@)),
            }
        } else {
            Err(msg_bad_direction(d))
        },
        Label::Absolute(a) => Ok(a),
    }
}

/// Branch offset (in words, relative to the instruction following
/// the branch) from `here` to `label`
pub open spec fn spec_branch_target(
    gs: Seq<(Seq<char>, u32)>,
    ls: Seq<(u32, Seq<char>)>,
    here: u32,
    label: Label,
) -> Result<i16, Seq<char>> {
    match spec_label_address(gs, ls, here, label) {
        Ok(there) => Ok(
            (((there as i32) as int - (((here + 4) as u32) as i32) as int) as i16) >> 2i16,
        ),
        Err(e) => Err(e),
    }
}

/// Jump target (word address) of `label`
pub open spec fn spec_jump_target(
    gs: Seq<(Seq<char>, u32)>,
    ls: Seq<(u32, Seq<char>)>,
    here: u32,
    label: Label,
) -> Result<u32, Seq<char>> {
    match spec_label_address(gs, ls, here, label) {
        Ok(there) => Ok(there >> 2u32),
        Err(e) => Err(e),
    }
}

pub open spec fn lui_bytes(r0: Register, u: u16) -> Seq<u8> {
    word_le_bytes(mc_imm(mc_t(mc_op(0b001111), r0), u))
}

pub open spec fn ori_bytes(r0: Register, r1: Register, u: u16) -> Seq<u8> {
    word_le_bytes(mc_imm(mc_s(mc_t(mc_op(0b001101), r0), r1), u))
}

/// Machine code generated for `i` at address `here`, or the assembler
/// error message
#[verifier::opaque]
pub open spec fn spec_encode(
    i: Instruction,
    gs: Seq<(Seq<char>, u32)>,
    ls: Seq<(u32, Seq<char>)>,
    here: u32,
) -> Result<Seq<u8>, Seq<char>> {
    match i {
        Instruction::Sll(r0, r1, shift) => Ok(word_le_bytes(mc_shift(mc_t(mc_d(mc_sub(0b000000), r0), r1), shift))),
        Instruction::Srl(r0, r1, shift) => Ok(word_le_bytes(mc_shift(mc_t(mc_d(mc_sub(0b000010), r0), r1), shift))),
        Instruction::Sra(r0, r1, shift) => Ok(word_le_bytes(mc_shift(mc_t(mc_d(mc_sub(0b000011), r0), r1), shift))),
        Instruction::Sllv(r0, r1, r2) => Ok(word_le_bytes(mc_s(mc_t(mc_d(mc_sub(0b000100), r0), r1), r2))),
        Instruction::Srlv(r0, r1, r2) => Ok(word_le_bytes(mc_s(mc_t(mc_d(mc_sub(0b000110), r0), r1), r2))),
        Instruction::Srav(r0, r1, r2) => Ok(word_le_bytes(mc_s(mc_t(mc_d(mc_sub(0b000111), r0), r1), r2))),
        Instruction::Jr(r0) => Ok(word_le_bytes(mc_s(mc_sub(0b001000), r0))),
        Instruction::Jalr(r0, r1) => Ok(word_le_bytes(mc_s(mc_d(mc_sub(0b001001), r0), r1))),
        Instruction::Syscall(v) => Ok(word_le_bytes(mc_sys_brk(mc_sub(0b001100), v))),
        Instruction::Break(v) => Ok(word_le_bytes(mc_sys_brk(mc_sub(0b001101), v))),
        Instruction::Mfhi(r0) => Ok(word_le_bytes(mc_d(mc_sub(0b010000), r0))),
        Instruction::Mthi(r0) => Ok(word_le_bytes(mc_s(mc_sub(0b010001), r0))),
        Instruction::Mflo(r0) => Ok(word_le_bytes(mc_d(mc_sub(0b010010), r0))),
        Instruction::Mtlo(r0) => Ok(word_le_bytes(mc_s(mc_sub(0b010011), r0))),
        Instruction::Mult(r0, r1) => Ok(word_le_bytes(mc_t(mc_s(mc_sub(0b011000), r0), r1))),
        Instruction::Multu(r0, r1) => Ok(word_le_bytes(mc_t(mc_s(mc_sub(0b011001), r0), r1))),
        Instruction::Div(r0, r1) => Ok(word_le_bytes(mc_t(mc_s(mc_sub(0b011010), r0), r1))),
        Instruction::Divu(r0, r1) => Ok(word_le_bytes(mc_t(mc_s(mc_sub(0b011011), r0), r1))),
        Instruction::Add(r0, r1, r2) => Ok(word_le_bytes(mc_t(mc_s(mc_d(mc_sub(0b100000), r0), r1), r2))),
        Instruction::Addu(r0, r1, r2) => Ok(word_le_bytes(mc_t(mc_s(mc_d(mc_sub(0b100001), r0), r1), r2))),
        Instruction::Sub(r0, r1, r2) => Ok(word_le_bytes(mc_t(mc_s(mc_d(mc_sub(0b100010), r0), r1), r2))),
        Instruction::Subu(r0, r1, r2) => Ok(word_le_bytes(mc_t(mc_s(mc_d(mc_sub(0b100011), r0), r1), r2))),
        Instruction::And(r0, r1, r2) => Ok(word_le_bytes(mc_t(mc_s(mc_d(mc_sub(0b100100), r0), r1), r2))),
        Instruction::Or(r0, r1, r2) => Ok(word_le_bytes(mc_t(mc_s(mc_d(mc_sub(0b100101), r0), r1), r2))),
        Instruction::Xor(r0, r1, r2) => Ok(word_le_bytes(mc_t(mc_s(mc_d(mc_sub(0b100110), r0), r1), r2))),
        Instruction::Nor(r0, r1, r2) => Ok(word_le_bytes(mc_t(mc_s(mc_d(mc_sub(0b100111), r0), r1), r2))),
        Instruction::Slt(r0, r1, r2) => Ok(word_le_bytes(mc_t(mc_s(mc_d(mc_sub(0b101010), r0), r1), r2))),
        Instruction::Sltu(r0, r1, r2) => Ok(word_le_bytes(mc_t(mc_s(mc_d(mc_sub(0b101011), r0), r1), r2))),
        Instruction::Addi(r0, r1, i) => Ok(word_le_bytes(mc_imm_se(mc_s(mc_t(mc_op(0b001000), r0), r1), i))),
        Instruction::Addiu(r0, r1, i) => Ok(word_le_bytes(mc_imm_se(mc_s(mc_t(mc_op(0b001001), r0), r1), i))),
        Instruction::Slti(r0, r1, i) => Ok(word_le_bytes(mc_imm_se(mc_s(mc_t(mc_op(0b001010), r0), r1), i))),
        Instruction::Sltiu(r0, r1, i) => Ok(word_le_bytes(mc_imm_se(mc_s(mc_t(mc_op(0b001011), r0), r1), i))),
        Instruction::Andi(r0, r1, i) => Ok(word_le_bytes(mc_imm(mc_s(mc_t(mc_op(0b001100), r0), r1), i))),
        Instruction::Ori(r0, r1, i) => Ok(word_le_bytes(mc_imm(mc_s(mc_t(mc_op(0b001101), r0), r1), i))),
        Instruction::Xori(r0, r1, i) => Ok(word_le_bytes(mc_imm(mc_s(mc_t(mc_op(0b001110), r0), r1), i))),
        Instruction::Lb(r0, r1, i) => Ok(word_le_bytes(mc_imm_se(mc_s(mc_t(mc_op(0b100000), r0), r1), i))),
        Instruction::Lh(r0, r1, i) => Ok(word_le_bytes(mc_imm_se(mc_s(mc_t(mc_op(0b100001), r0), r1), i))),
        Instruction::Lwl(r0, r1, i) => Ok(word_le_bytes(mc_imm_se(mc_s(mc_t(mc_op(0b100010), r0), r1), i))),
        Instruction::Lw(r0, r1, i) => Ok(word_le_bytes(mc_imm_se(mc_s(mc_t(mc_op(0b100011), r0), r1), i))),
        Instruction::Lbu(r0, r1, i) => Ok(word_le_bytes(mc_imm_se(mc_s(mc_t(mc_op(0b100100), r0), r1), i))),
        Instruction::Lhu(r0, r1, i) => Ok(word_le_bytes(mc_imm_se(mc_s(mc_t(mc_op(0b100101), r0), r1), i))),
        Instruction::Lwr(r0, r1, i) => Ok(word_le_bytes(mc_imm_se(mc_s(mc_t(mc_op(0b100110), r0), r1), i))),
        Instruction::Sb(r0, r1, i) => Ok(word_le_bytes(mc_imm_se(mc_s(mc_t(mc_op(0b101000), r0), r1), i))),
        Instruction::Sh(r0, r1, i) => Ok(word_le_bytes(mc_imm_se(mc_s(mc_t(mc_op(0b101001), r0), r1), i))),
        Instruction::Swl(r0, r1, i) => Ok(word_le_bytes(mc_imm_se(mc_s(mc_t(mc_op(0b101010), r0), r1), i))),
        Instruction::Sw(r0, r1, i) => Ok(word_le_bytes(mc_imm_se(mc_s(mc_t(mc_op(0b101011), r0), r1), i))),
        Instruction::Swr(r0, r1, i) => Ok(word_le_bytes(mc_imm_se(mc_s(mc_t(mc_op(0b101110), r0), r1), i))),
        Instruction::Lui(r0, u) => Ok(word_le_bytes(mc_imm(mc_t(mc_op(0b001111), r0), u))),
        Instruction::Mfc0(r0, cop_r) => Ok(word_le_bytes(mc_cop_r(mc_t(mc_cop_opcode(mc_op(0b010000), 0b00000), r0), cop_r))),
        Instruction::Mtc0(r0, cop_r) => Ok(word_le_bytes(mc_cop_r(mc_t(mc_cop_opcode(mc_op(0b010000), 0b00100), r0), cop_r))),
        Instruction::Bgez(r0, l) => match spec_branch_target(gs, ls, here, l) {
            Ok(i) => Ok(word_le_bytes(mc_imm_se(mc_s(mc_is_bgez(mc_is_link(mc_op(0b000001), false), true), r0), i))),
            Err(e) => Err(e),
        },
        Instruction::Bltz(r0, l) => match spec_branch_target(gs, ls, here, l) {
            Ok(i) => Ok(word_le_bytes(mc_imm_se(mc_s(mc_is_bgez(mc_is_link(mc_op(0b000001), false), false), r0), i))),
            Err(e) => Err(e),
        },
        Instruction::Bgezal(r0, l) => match spec_branch_target(gs, ls, here, l) {
            Ok(i) => Ok(word_le_bytes(mc_imm_se(mc_s(mc_is_bgez(mc_is_link(mc_op(0b000001), true), true), r0), i))),
            Err(e) => Err(e),
        },
        Instruction::Bltzal(r0, l) => match spec_branch_target(gs, ls, here, l) {
            Ok(i) => Ok(word_le_bytes(mc_imm_se(mc_s(mc_is_bgez(mc_is_link(mc_op(0b000001), true), false), r0), i))),
            Err(e) => Err(e),
        },
        Instruction::J(l) => match spec_jump_target(gs, ls, here, l) {
            Ok(i) => Ok(word_le_bytes(mc_imm_jump(mc_op(0b000010), i))),
            Err(e) => Err(e),
        },
        Instruction::Jal(l) => match spec_jump_target(gs, ls, here, l) {
            Ok(i) => Ok(word_le_bytes(mc_imm_jump(mc_op(0b000011), i))),
            Err(e) => Err(e),
        },
        Instruction::Beq(r0, r1, l) => match spec_branch_target(gs, ls, here, l) {
            Ok(i) => Ok(word_le_bytes(mc_imm_se(mc_t(mc_s(mc_op(0b000100), r0), r1), i))),
            Err(e) => Err(e),
        },
        Instruction::Bne(r0, r1, l) => match spec_branch_target(gs, ls, here, l) {
            Ok(i) => Ok(word_le_bytes(mc_imm_se(mc_t(mc_s(mc_op(0b000101), r0), r1), i))),
            Err(e) => Err(e),
        },
        Instruction::Blez(r0, l) => match spec_branch_target(gs, ls, here, l) {
            Ok(i) => Ok(word_le_bytes(mc_imm_se(mc_s(mc_op(0b000110), r0), i))),
            Err(e) => Err(e),
        },
        Instruction::Bgtz(r0, l) => match spec_branch_target(gs, ls, here, l) {
            Ok(i) => Ok(word_le_bytes(mc_imm_se(mc_s(mc_op(0b000111), r0), i))),
            Err(e) => Err(e),
        },
        Instruction::Align(o) => Ok(Seq::new(spec_pad_to_order(here, o) as nat, |k: int| 0u8)),
        Instruction::Nop => Ok(word_le_bytes(mc_shift(mc_t(mc_d(mc_sub(0b000000), 0), 0), 0))),
        Instruction::Move(r0, r1) => Ok(
            word_le_bytes(mc_t(mc_s(mc_d(mc_sub(0b100001), r0), r1), 0)),
        ),
        Instruction::Li(r0, v) => {
            let hi = (v >> 16u32) as u16;
            let lo = v as u16;
            if hi != 0 {
                if lo != 0 {
                    Ok(lui_bytes(r0, hi) + ori_bytes(r0, r0, lo))
                } else {
                    Ok(lui_bytes(r0, hi))
                }
            } else {
                Ok(ori_bytes(r0, 0, lo))
            }
        },
        Instruction::La(r0, l) => match spec_label_address(gs, ls, here, l) {
            Ok(loc) => Ok(lui_bytes(r0, (loc >> 16u32) as u16) + ori_bytes(r0, r0, loc as u16)),
            Err(e) => Err(e),
        },
        Instruction::B(l) => match spec_branch_target(gs, ls, here, l) {
            Ok(i) => Ok(word_le_bytes(mc_imm_se(mc_t(mc_s(mc_op(0b000100), 0), 0), i))),
            Err(e) => Err(e),
        },
        Instruction::Beqz(r0, l) => match spec_branch_target(gs, ls, here, l) {
            Ok(i) => Ok(word_le_bytes(mc_imm_se(mc_t(mc_s(mc_op(0b000100), r0), 0), i))),
            Err(e) => Err(e),
        },
        Instruction::Bnez(r0, l) => match spec_branch_target(gs, ls, here, l) {
            Ok(i) => Ok(word_le_bytes(mc_imm_se(mc_t(mc_s(mc_op(0b000101), r0), 0), i))),
            Err(e) => Err(e),
        },
        Instruction::Local(..) | Instruction::Global(..) => Ok(Seq::empty()),
    }
}


/// Location reached after the first `k` instructions of `instrs`
/// when starting at `start`
pub open spec fn loc_after(instrs: Seq<Instruction>, k: int, start: int) -> int
    decreases k,
{
    if k <= 0 {
        start
    } else {
        let l = loc_after(instrs, k - 1, start);
        l + spec_instruction_bytes(instrs[k - 1], l as u32)
    }
}

/// State of the label scanning pass
pub ghost struct LabelScan {
    /// Address of the next instruction
    pub loc: u32,
    /// Global labels and their address
    pub globals: Seq<(Seq<char>, u32)>,
    /// Local labels: address and name, in definition order
    pub locals: Seq<(u32, Seq<char>)>,
    /// First error encountered, if any
    pub error: Option<Seq<char>>,
}

/// One step of the label scanning pass
pub open spec fn scan_step(s: LabelScan, i: Instruction) -> LabelScan {
    match i {
        Instruction::Global(name) => LabelScan {
            globals: insert_global(s.globals, name@, s.loc),
            error: if find_global(s.globals, name@) is Some {
                Some(msg_redefined(name@))
            } else {
                None
            },
            ..s
        },
        Instruction::Local(id) => LabelScan { locals: s.locals.push((s.loc, id@)), ..s },
        _ => LabelScan { loc: (s.loc + spec_instruction_bytes(i, s.loc)) as u32, ..s },
    }
}

/// Label scanning state after the first `k` instructions (the scan
/// stops at the first error)
pub open spec fn scan_prefix(instrs: Seq<Instruction>, k: int, init: LabelScan) -> LabelScan
    decreases k,
{
    if k <= 0 {
        init
    } else {
        let s = scan_prefix(instrs, k - 1, init);
        if s.error is Some {
            s
        } else {
            scan_step(s, instrs[k - 1])
        }
    }
}

/// State of the code generation pass
pub ghost struct Emission {
    /// Machine code generated so far
    pub code: Seq<u8>,
    /// First error encountered, if any
    pub error: Option<Seq<char>>,
}

/// Code generation state after the first `k` instructions (generation
/// stops at the first error)
pub open spec fn emit_prefix(
    instrs: Seq<Instruction>,
    k: int,
    base: u32,
    code: Seq<u8>,
    gs: Seq<(Seq<char>, u32)>,
    ls: Seq<(u32, Seq<char>)>,
) -> Emission
    decreases k,
{
    if k <= 0 {
        Emission { code, error: None }
    } else {
        let s = emit_prefix(instrs, k - 1, base, code, gs, ls);
        if s.error is Some {
            s
        } else {
            match spec_encode(instrs[k - 1], gs, ls, (base + s.code.len()) as u32) {
                Ok(b) => Emission { code: s.code + b, error: None },
                Err(e) => Emission { code: s.code, error: Some(e) },
            }
        }
    }
}

pub open spec fn globals_model(v: Seq<(&'static str, u32)>) -> Seq<(Seq<char>, u32)> {
    v.map_values(|p: (&'static str, u32)| (p.0@, p.1))
}

pub open spec fn locals_model(v: Seq<(u32, &'static str)>) -> Seq<(u32, Seq<char>)> {
    v.map_values(|p: (u32, &'static str)| (p.0, p.1@))
}

proof fn lemma_global_index(gs: Seq<(Seq<char>, u32)>, name: Seq<char>, i: int)
    requires
        0 <= i <= gs.len(),
        forall|j: int| 0 <= j < i ==> gs[j].0 != name,
        i == gs.len() || gs[i].0 == name,
    ensures
        global_index(gs, name) == i,
    decreases i,
{
    if i > 0 {
        let t = gs.drop_first();
        assert forall|j: int| 0 <= j < i - 1 implies t[j].0 != name by {
            assert(t[j] == gs[j + 1]);
        }
        if i < gs.len() {
            assert(t[i - 1] == gs[i]);
        }
        lemma_global_index(t, name, i - 1);
    }
}

proof fn lemma_loc_after_monotone(instrs: Seq<Instruction>, k1: int, k2: int, start: int)
    requires
        0 <= k1 <= k2,
    ensures
        loc_after(instrs, k1, start) <= loc_after(instrs, k2, start),
    decreases k2,
{
    if k1 < k2 {
        lemma_loc_after_monotone(instrs, k1, k2 - 1, start);
    }
}

proof fn lemma_scan_stops(instrs: Seq<Instruction>, k1: int, k2: int, init: LabelScan)
    requires
        0 <= k1 <= k2,
        scan_prefix(instrs, k1, init).error is Some,
    ensures
        scan_prefix(instrs, k2, init) == scan_prefix(instrs, k1, init),
    decreases k2,
{
    if k1 < k2 {
        lemma_scan_stops(instrs, k1, k2 - 1, init);
    }
}

proof fn lemma_emit_stops(
    instrs: Seq<Instruction>,
    k1: int,
    k2: int,
    base: u32,
    code: Seq<u8>,
    gs: Seq<(Seq<char>, u32)>,
    ls: Seq<(u32, Seq<char>)>,
)
    requires
        0 <= k1 <= k2,
        emit_prefix(instrs, k1, base, code, gs, ls).error is Some,
    ensures
        emit_prefix(instrs, k2, base, code, gs, ls) == emit_prefix(instrs, k1, base, code, gs, ls),
    decreases k2,
{
    if k1 < k2 {
        lemma_emit_stops(instrs, k1, k2 - 1, base, code, gs, ls);
    }
}

/// Outcome of assembling `instrs` with the global labels `globals`
/// after the code `code` placed at `base`: the size of the code added
/// or the error message, and the code afterwards
pub open spec fn assembled(
    globals: Seq<(Seq<char>, u32)>,
    base: u32,
    code: Seq<u8>,
    instrs: Seq<Instruction>,
) -> (Result<int, Seq<char>>, Seq<u8>) {
    let init = LabelScan {
        loc: (base + code.len()) as u32,
        globals: globals,
        locals: Seq::empty(),
        error: None,
    };
    let scan = scan_prefix(instrs, instrs.len() as int, init);
    let em = emit_prefix(instrs, instrs.len() as int, base, code, scan.globals, scan.locals);
    match scan.error {
        Some(e) => (Err(e), code),
        None => match em.error {
            Some(e) => (Err(e), em.code),
            None => (Ok(em.code.len() - code.len()), em.code),
        },
    }
}

/// The global label `name` is defined in `gs`
pub open spec fn global_defined(gs: Seq<(Seq<char>, u32)>, name: Seq<char>) -> bool {
    exists|j: int| 0 <= j < gs.len() && gs[j].0 == name
}

/// The lookup of a defined global label finds it
proof fn lemma_global_found(gs: Seq<(Seq<char>, u32)>, name: Seq<char>, j: int)
    requires
        0 <= j < gs.len(),
        gs[j].0 == name,
    ensures
        global_index(gs, name) <= j,
    decreases gs.len(),
{
    if gs[0].0 != name {
        let t = gs.drop_first();
        assert(t[j - 1] == gs[j]);
        lemma_global_found(t, name, j - 1);
    }
}

/// A global label lookup that succeeds points at that label
proof fn lemma_global_index_name(gs: Seq<(Seq<char>, u32)>, name: Seq<char>)
    requires
        global_index(gs, name) < gs.len(),
    ensures
        gs[global_index(gs, name) as int].0 == name,
    decreases gs.len(),
{
    if gs[0].0 != name {
        let t = gs.drop_first();
        lemma_global_index_name(t, name);
        assert(t[global_index(t, name) as int] == gs[global_index(gs, name) as int]);
    }
}

/// Defining a global label keeps the ones already defined and
/// defines the new one
proof fn lemma_insert_keeps(gs: Seq<(Seq<char>, u32)>, n: Seq<char>, l: u32, name: Seq<char>)
    requires
        global_defined(gs, name) || n == name,
    ensures
        global_defined(insert_global(gs, n, l), name),
{
    let i = global_index(gs, n);
    let ng = insert_global(gs, n, l);
    if i < gs.len() {
        lemma_global_index_name(gs, n);
        if n == name {
            assert(ng[i as int].0 == name);
        } else {
            let j = choose|j: int| 0 <= j < gs.len() && gs[j].0 == name;
            assert(j != i);
            assert(ng[j].0 == name);
        }
    } else {
        if n == name {
            assert(ng[gs.len() as int].0 == name);
        } else {
            let j = choose|j: int| 0 <= j < gs.len() && gs[j].0 == name;
            assert(ng[j].0 == name);
        }
    }
}

/// While the label scan has not failed, every global label defined
/// before it or by the scanned instructions stays defined
proof fn lemma_scan_keeps_globals(instrs: Seq<Instruction>, init: LabelScan, k: int, name: Seq<char>)
    requires
        0 <= k <= instrs.len(),
        scan_prefix(instrs, k, init).error is None,
        global_defined(init.globals, name) || exists|j: int|
            0 <= j < k && (#[trigger] instrs[j] matches Instruction::Global(m) && m@ == name),
    ensures
        global_defined(scan_prefix(instrs, k, init).globals, name),
    decreases k,
{
    if k > 0 {
        let s = scan_prefix(instrs, k - 1, init);
        assert(s.error is None);
        let defined_before = global_defined(init.globals, name) || exists|j: int|
            0 <= j < k - 1 && (#[trigger] instrs[j] matches Instruction::Global(m) && m@ == name);
        if defined_before {
            lemma_scan_keeps_globals(instrs, init, k - 1, name);
            match instrs[k - 1] {
                Instruction::Global(m) => lemma_insert_keeps(s.globals, m@, s.loc, name),
                _ => {},
            }
        } else {
            match instrs[k - 1] {
                Instruction::Global(m) => lemma_insert_keeps(s.globals, m@, s.loc, name),
                _ => {},
            }
        }
    }
}

/// A label scan error is always the redefinition of a global label
/// met by the scan
proof fn lemma_scan_error_names_global(instrs: Seq<Instruction>, k: int, init: LabelScan)
    requires
        0 <= k <= instrs.len(),
        init.error is None,
    ensures
        scan_prefix(instrs, k, init).error matches Some(e) ==> exists|j: int|
            0 <= j < k && (#[trigger] instrs[j] matches Instruction::Global(m) && e == msg_redefined(
                m@,
            )),
    decreases k,
{
    if k > 0 {
        lemma_scan_error_names_global(instrs, k - 1, init);
        let s = scan_prefix(instrs, k - 1, init);
        if s.error is None {
            match instrs[k - 1] {
                Instruction::Global(m) => {
                    if scan_prefix(instrs, k, init).error is Some {
                        assert(instrs[k - 1] matches Instruction::Global(m2) && scan_prefix(
                            instrs,
                            k,
                            init,
                        ).error == Some(msg_redefined(m2@)));
                    }
                },
                _ => {},
            }
        }
    }
}

/// Defining again a global label, already known to the scan or
/// defined earlier in the same instructions, makes the label scan
/// fail
proof fn lemma_redefined_global_scan_fails(
    globals: Seq<(Seq<char>, u32)>,
    loc: u32,
    instrs: Seq<Instruction>,
    k: int,
    name: Seq<char>,
)
    requires
        0 <= k < instrs.len(),
        instrs[k] matches Instruction::Global(n) && n@ == name,
        global_defined(globals, name) || exists|j: int|
            0 <= j < k && (#[trigger] instrs[j] matches Instruction::Global(m) && m@ == name),
    ensures
        scan_prefix(
            instrs,
            instrs.len() as int,
            LabelScan { loc, globals, locals: Seq::empty(), error: None },
        ).error matches Some(e) && exists|j: int|
            0 <= j <= k && (#[trigger] instrs[j] matches Instruction::Global(m) && e == msg_redefined(
                m@,
            )),
{
    let init = LabelScan { loc, globals, locals: Seq::empty(), error: None };
    let s = scan_prefix(instrs, k, init);
    lemma_scan_error_names_global(instrs, k + 1, init);
    if s.error is Some {
        lemma_scan_stops(instrs, k, instrs.len() as int, init);
        lemma_scan_error_names_global(instrs, k, init);
    } else {
        lemma_scan_keeps_globals(instrs, init, k, name);
        let j = choose|j: int| 0 <= j < s.globals.len() && s.globals[j].0 == name;
        lemma_global_found(s.globals, name, j);
        assert(scan_prefix(instrs, k + 1, init).error is Some);
        lemma_scan_stops(instrs, k + 1, instrs.len() as int, init);
    }
}

/// Assembling instructions that define again a global label, already
/// known to the assembler (globals persist from one `assemble` to the
/// next, see `lemma_globals_persist`) or defined earlier in the same
/// instructions, fails and emits nothing. The error message names a
/// redefined global label, met at the latest at the one given.
pub proof fn lemma_redefined_global_fails(
    globals: Seq<(Seq<char>, u32)>,
    base: u32,
    code: Seq<u8>,
    instrs: Seq<Instruction>,
    k: int,
    name: Seq<char>,
)
    requires
        0 <= k < instrs.len(),
        instrs[k] matches Instruction::Global(n) && n@ == name,
        global_defined(globals, name) || exists|j: int|
            0 <= j < k && (#[trigger] instrs[j] matches Instruction::Global(m) && m@ == name),
    ensures
        assembled(globals, base, code, instrs).0 matches Err(e) && exists|j: int|
            0 <= j <= k && (#[trigger] instrs[j] matches Instruction::Global(m) && e == msg_redefined(
                m@,
            )),
        assembled(globals, base, code, instrs).1 == code,
{
    lemma_redefined_global_scan_fails(globals, (base + code.len()) as u32, instrs, k, name);
}

/// The code generation pass appends to the code, each instruction
/// taking the size that the label pass gives it: after `k`
/// instructions the code grew by the sum of their sizes
proof fn lemma_emitted_size(
    instrs: Seq<Instruction>,
    k: int,
    base: u32,
    code: Seq<u8>,
    gs: Seq<(Seq<char>, u32)>,
    ls: Seq<(u32, Seq<char>)>,
)
    requires
        0 <= k <= instrs.len(),
        forall|j: int| 0 <= j < instrs.len() ==> instruction_well_formed(#[trigger] instrs[j]),
        loc_after(instrs, instrs.len() as int, base + code.len()) <= u32::MAX,
        emit_prefix(instrs, k, base, code, gs, ls).error is None,
    ensures
        emit_prefix(instrs, k, base, code, gs, ls).code.len() - code.len() == loc_after(
            instrs,
            k,
            base + code.len(),
        ) - (base + code.len()),
        emit_prefix(instrs, k, base, code, gs, ls).code.subrange(0, code.len() as int) == code,
    decreases k,
{
    if k > 0 {
        let s = emit_prefix(instrs, k - 1, base, code, gs, ls);
        assert(s.error is None);
        lemma_emitted_size(instrs, k - 1, base, code, gs, ls);
        lemma_loc_after_monotone(instrs, k, instrs.len() as int, base + code.len());
        lemma_loc_after_monotone(instrs, k - 1, k, base + code.len());
        let here = (base + s.code.len()) as u32;
        lemma_encode_len(instrs[k - 1], gs, ls, here);
        lemma_loc_after_monotone(instrs, 0, k - 1, base + code.len());
        let n = emit_prefix(instrs, k, base, code, gs, ls);
        let b = spec_encode(instrs[k - 1], gs, ls, here)->Ok_0;
        assert(n.code == s.code + b);
        assert(n.code.subrange(0, code.len() as int) =~= s.code.subrange(0, code.len() as int));
    }
}

/// Defining a global label keeps every label defined before and
/// defines the new one
proof fn lemma_insert_global_defines(gs: Seq<(Seq<char>, u32)>, name: Seq<char>, loc: u32)
    ensures
        global_defined(insert_global(gs, name, loc), name),
        forall|m: Seq<char>|
            global_defined(gs, m) ==> #[trigger] global_defined(insert_global(gs, name, loc), m),
{
    let n = insert_global(gs, name, loc);
    let i = global_index(gs, name);
    if i < gs.len() {
        lemma_global_index_name(gs, name);
        assert(n[i as int].0 == name);
        assert forall|m: Seq<char>| global_defined(gs, m) implies #[trigger] global_defined(n, m) by {
            let j = choose|j: int| 0 <= j < gs.len() && gs[j].0 == m;
            assert(n[j].0 == m);
        }
    } else {
        assert(n[gs.len() as int].0 == name);
        assert forall|m: Seq<char>| global_defined(gs, m) implies #[trigger] global_defined(n, m) by {
            let j = choose|j: int| 0 <= j < gs.len() && gs[j].0 == m;
            assert(n[j].0 == m);
        }
    }
}

/// Global labels persist across assembling: the labels known before
/// stay defined, and when the label pass meets no error every global
/// label that the instructions define is known afterwards
pub proof fn lemma_globals_persist(init: LabelScan, instrs: Seq<Instruction>, k: int)
    requires
        0 <= k <= instrs.len(),
    ensures
        forall|m: Seq<char>|
            global_defined(init.globals, m) ==> #[trigger] global_defined(
                scan_prefix(instrs, k, init).globals,
                m,
            ),
        scan_prefix(instrs, k, init).error is None ==> forall|j: int|
            0 <= j < k && (#[trigger] instrs[j] matches Instruction::Global(n)) ==> global_defined(
                scan_prefix(instrs, k, init).globals,
                instrs[j]->Global_0@,
            ),
    decreases k,
{
    if k > 0 {
        lemma_globals_persist(init, instrs, k - 1);
        let s = scan_prefix(instrs, k - 1, init);
        if s.error is None {
            match instrs[k - 1] {
                Instruction::Global(name) => {
                    lemma_insert_global_defines(s.globals, name@, s.loc);
                },
                _ => {},
            }
        }
    }
}

/// When assembling succeeds it returns the sum of the sizes of the
/// instructions (what `Instruction::bytes` gives, that is
/// `spec_instruction_bytes`), each taken at its own address: the
/// first at the assembler's location, each next one right after the
/// bytes of the one before (`loc_after`). The code generated before is
/// kept and the code grows by exactly that sum.
pub proof fn lemma_assembled_size(
    globals: Seq<(Seq<char>, u32)>,
    base: u32,
    code: Seq<u8>,
    instrs: Seq<Instruction>,
)
    requires
        forall|j: int| 0 <= j < instrs.len() ==> instruction_well_formed(#[trigger] instrs[j]),
        loc_after(instrs, instrs.len() as int, base + code.len()) <= u32::MAX,
    ensures
        assembled(globals, base, code, instrs).0 matches Ok(n) ==> {
            &&& n == loc_after(instrs, instrs.len() as int, base + code.len()) - (base + code.len())
            &&& assembled(globals, base, code, instrs).1.len() == code.len() + n
            &&& assembled(globals, base, code, instrs).1.subrange(0, code.len() as int) == code
        },
{
    let init = LabelScan {
        loc: (base + code.len()) as u32,
        globals: globals,
        locals: Seq::empty(),
        error: None,
    };
    let scan = scan_prefix(instrs, instrs.len() as int, init);
    let em = emit_prefix(instrs, instrs.len() as int, base, code, scan.globals, scan.locals);
    if scan.error is None && em.error is None {
        lemma_emitted_size(instrs, instrs.len() as int, base, code, scan.globals, scan.locals);
    }
}

/// How the halves of a word relate to the word
proof fn lemma_halves(v: u32)
    by (bit_vector)
    ensures
        ((v >> 16u32) as u16 != 0) == (v & 0xffff0000 != 0),
        (v as u16 != 0) == (v & 0xffff != 0),
        ((v >> 16u32) as u16 == 0 && v as u16 == 0) ==> v == 0,
        ((v >> 16u32) as u16 != 0) ==> v != 0,
{
}

/// The size of the generated machine code is the one announced by
/// `Instruction::bytes`
#[verifier::spinoff_prover]
#[verifier::rlimit(40)]
pub proof fn lemma_encode_len(
    i: Instruction,
    gs: Seq<(Seq<char>, u32)>,
    ls: Seq<(u32, Seq<char>)>,
    here: u32,
)
    requires
        instruction_well_formed(i),
    ensures
        spec_encode(i, gs, ls, here) is Ok ==> spec_encode(i, gs, ls, here)->Ok_0.len()
            == spec_instruction_bytes(i, here),
{
    reveal(spec_encode);
    match i {
        Instruction::Li(r0, v) => {
            lemma_halves(v);
            let hi = (v >> 16u32) as u16;
            let lo = v as u16;
            assert(lui_bytes(r0, hi).len() == 4);
            assert(ori_bytes(r0, r0, lo).len() == 4);
            assert(ori_bytes(r0, 0, lo).len() == 4);
            if hi != 0 {
                if lo != 0 {
                    assert(spec_instruction_bytes(i, here) == 8);
                    assert(spec_encode(i, gs, ls, here)->Ok_0.len() == 8);
                } else {
                    assert(spec_instruction_bytes(i, here) == 4);
                    assert(spec_encode(i, gs, ls, here)->Ok_0.len() == 4);
                }
            } else {
                assert(spec_instruction_bytes(i, here) == 4);
                assert(spec_encode(i, gs, ls, here)->Ok_0.len() == 4);
            }
            assert(spec_encode(i, gs, ls, here) is Ok ==> spec_encode(i, gs, ls, here)->Ok_0.len()
                == spec_instruction_bytes(i, here));
        },
        Instruction::La(r0, l) => {
            if let Ok(loc) = spec_label_address(gs, ls, here, l) {
                assert(lui_bytes(r0, (loc >> 16u32) as u16).len() == 4);
                assert(ori_bytes(r0, r0, loc as u16).len() == 4);
            }
        },
        Instruction::Align(o) => {
            assert(spec_encode(i, gs, ls, here) is Ok ==> spec_encode(i, gs, ls, here)->Ok_0.len()
            == spec_instruction_bytes(i, here));
        },
        Instruction::Nop => {
            assert(spec_encode(i, gs, ls, here) is Ok ==> spec_encode(i, gs, ls, here)->Ok_0.len()
            == spec_instruction_bytes(i, here));
        },
        Instruction::Sll(a, b, c) => {
            assert(spec_encode(i, gs, ls, here) is Ok ==> spec_encode(i, gs, ls, here)->Ok_0.len()
            == spec_instruction_bytes(i, here));
        },
        Instruction::Beq(a, b, c) => {
            assert(spec_encode(i, gs, ls, here) is Ok ==> spec_encode(i, gs, ls, here)->Ok_0.len()
            == spec_instruction_bytes(i, here));
        },
        _ => {},
    }
}

/// A machine word under construction
#[derive(Clone, Copy)]
struct MachineCode(u32);

impl MachineCode {
    fn op(op: u8) -> (r: MachineCode)
        ensures
            r.0 == mc_op(op),
    {
        MachineCode((op as u32) << 26)
    }

    fn sub(op: u8) -> (r: MachineCode)
        ensures
            r.0 == mc_sub(op),
    {
        MachineCode(op as u32)
    }

    fn cop_opcode(self, op: u32) -> (r: MachineCode)
        ensures
            r.0 == mc_cop_opcode(self.0, op),
    {
        MachineCode(self.0 | (op << 21))
    }

    fn s(self, r: Register) -> (m: MachineCode)
        ensures
            m.0 == mc_s(self.0, r),
    {
        MachineCode(self.0 | ((r as u32) << 21))
    }

    fn t(self, r: Register) -> (m: MachineCode)
        ensures
            m.0 == mc_t(self.0, r),
    {
        MachineCode(self.0 | ((r as u32) << 16))
    }

    fn d(self, r: Register) -> (m: MachineCode)
        ensures
            m.0 == mc_d(self.0, r),
    {
        MachineCode(self.0 | ((r as u32) << 11))
    }

    fn cop_r(self, cop_r: u8) -> (m: MachineCode)
        ensures
            m.0 == mc_cop_r(self.0, cop_r),
    {
        MachineCode(self.0 | ((cop_r as u32) << 11))
    }

    fn shift(self, s: u8) -> (m: MachineCode)
        ensures
            m.0 == mc_shift(self.0, s),
    {
        MachineCode(self.0 | ((s as u32) << 6))
    }

    fn sys_brk(self, v: u32) -> (m: MachineCode)
        ensures
            m.0 == mc_sys_brk(self.0, v),
    {
        MachineCode(self.0 | ((v & 0xfffff) << 6))
    }

    fn is_link(self, is_link: bool) -> (m: MachineCode)
        ensures
            m.0 == mc_is_link(self.0, is_link),
    {
        let b: u32 = if is_link {
            1
        } else {
            0
        };
        MachineCode(self.0 | (b << 20))
    }

    fn is_bgez(self, is_bgez: bool) -> (m: MachineCode)
        ensures
            m.0 == mc_is_bgez(self.0, is_bgez),
    {
        let b: u32 = if is_bgez {
            1
        } else {
            0
        };
        MachineCode(self.0 | (b << 16))
    }

    fn imm(self, v: u16) -> (m: MachineCode)
        ensures
            m.0 == mc_imm(self.0, v),
    {
        MachineCode(self.0 | (v as u32))
    }

    fn imm_se(self, v: i16) -> (m: MachineCode)
        ensures
            m.0 == mc_imm_se(self.0, v),
    {
        MachineCode(self.0 | (v as u16 as u32))
    }

    fn imm_jump(self, v: u32) -> (m: MachineCode)
        ensures
            m.0 == mc_imm_jump(self.0, v),
    {
        MachineCode(self.0 | (v & 0x3ffffff))
    }
}

fn err_unknown_global(l: &str) -> (s: String)
    ensures
        s@ == msg_unknown_global(l@),
{
    let mut s = String::from_str("Unknown global label '");
    s.append(l);
    s.append("'");
    s
}

fn err_unknown_local(l: &str) -> (s: String)
    ensures
        s@ == msg_unknown_local(l@),
{
    let mut s = String::from_str("Unknown local label '");
    s.append(l);
    s.append("'");
    s
}

fn err_bad_direction(d: char) -> (s: String)
    ensures
        s@ == msg_bad_direction(d),
{
    let mut s = String::from_str("Unknown local label direction '");
    string_push(&mut s, d);
    s.append("'");
    assert(s@ =~= msg_bad_direction(d));
    s
}

fn err_redefined(name: &str) -> (s: String)
    ensures
        s@ == msg_redefined(name@),
{
    let mut s = String::from_str("Global label '");
    s.append(name);
    s.append("' is redefined");
    s
}

/// Assembler state
pub struct Assembler {
    /// Currently generated machine code
    machine_code: Vec<u8>,
    /// Address of the first instruction
    base: u32,
    /// Absolute address of all known global labels. Global labels are
    /// unique and can't be redefined.
    globals: Vec<(&'static str, u32)>,
    /// List of all the local labels with their absolute
    /// address. Local labels can be redefined.
    locals: Vec<(u32, &'static str)>,
}

impl Assembler {
    /// Machine code generated so far
    pub closed spec fn code(&self) -> Seq<u8> {
        self.machine_code@
    }

    /// Address of the first instruction
    pub closed spec fn base_address(&self) -> u32 {
        self.base
    }

    /// Known global labels with their address
    pub closed spec fn globals_view(&self) -> Seq<(Seq<char>, u32)> {
        globals_model(self.globals@)
    }

    /// Local labels (address, name) of the current `assemble` call
    pub closed spec fn locals_view(&self) -> Seq<(u32, Seq<char>)> {
        locals_model(self.locals@)
    }

    /// Address of the next instruction
    pub open spec fn spec_location(&self) -> int {
        self.base_address() + self.code().len()
    }

    /// The location fits an address and no global is defined twice
    pub open spec fn wf(&self) -> bool {
        &&& self.spec_location() <= u32::MAX
        &&& globals_unique(self.globals_view())
    }

    /// Create a new assembler instance which will generate code meant
    /// to be loaded at the `base` address
    pub fn from_base(base: u32) -> (a: Assembler)
        ensures
            a.wf(),
            a.code() == Seq::<u8>::empty(),
            a.base_address() == base,
            a.globals_view() == Seq::<(Seq<char>, u32)>::empty(),
            a.locals_view() == Seq::<(u32, Seq<char>)>::empty(),
    {
        let a = Assembler {
            machine_code: Vec::new(),
            base: base,
            globals: Vec::new(),
            locals: Vec::new(),
        };
        assert(a.globals_view() =~= Seq::<(Seq<char>, u32)>::empty());
        assert(a.locals_view() =~= Seq::<(u32, Seq<char>)>::empty());
        a
    }

    /// Consume the Assembler and return the generated machine code
    /// alongside the base address
    pub fn machine_code(self) -> (r: (Vec<u8>, u32))
        ensures
            r.0@ == self.code(),
            r.1 == self.base_address(),
    {
        (self.machine_code, self.base)
    }

    fn location(&self) -> (l: u32)
        requires
            self.wf(),
        ensures
            l == self.spec_location(),
    {
        self.base + self.machine_code.len() as u32
    }

    fn emit_byte(&mut self, b: u8)
        requires
            old(self).spec_location() < u32::MAX,
        ensures
            final(self).code() == old(self).code().push(b),
            final(self).base_address() == old(self).base_address(),
            final(self).globals_view() == old(self).globals_view(),
            final(self).locals_view() == old(self).locals_view(),
    {
        self.machine_code.push(b);
    }

    fn emit_code(&mut self, code: MachineCode)
        requires
            old(self).spec_location() + 4 <= u32::MAX,
        ensures
            final(self).code() == old(self).code() + word_le_bytes(code.0),
            final(self).base_address() == old(self).base_address(),
            final(self).globals_view() == old(self).globals_view(),
            final(self).locals_view() == old(self).locals_view(),
    {
        let word = code.0;
        self.emit_byte(word as u8);
        self.emit_byte((word >> 8) as u8);
        self.emit_byte((word >> 16) as u8);
        self.emit_byte((word >> 24) as u8);
        assert(self.code() =~= old(self).code() + word_le_bytes(code.0));
    }

    /// Position of the global label `name` in `globals`, or the
    /// number of globals if it is not defined
    fn global_position(&self, name: &str) -> (i: usize)
        ensures
            i == global_index(self.globals_view(), name@),
            i <= self.globals_view().len(),
            i < self.globals_view().len() ==> self.globals_view()[i as int].0 == name@,
            i == self.globals_view().len() ==> forall|j: int|
                0 <= j < self.globals_view().len() ==> self.globals_view()[j].0 != name@,
    {
        let ghost gs = self.globals_view();
        let mut i: usize = 0;
        while i < self.globals.len()
            invariant
                gs == self.globals_view(),
                gs.len() == self.globals.len(),
                i <= gs.len(),
                forall|j: int| 0 <= j < i ==> gs[j].0 != name@,
            decreases self.globals.len() - i,
        {
            let (g, _) = self.globals[i];
            if str_eq(g, name) {
                proof {
                    lemma_global_index(gs, name@, i as int);
                }
                return i;
            }
            i += 1;
        }
        proof {
            lemma_global_index(gs, name@, i as int);
        }
        i
    }

    fn label_address(&self, label: Label) -> (r: Result<u32, String>)
        requires
            self.wf(),
        ensures
            match r {
                Ok(v) => spec_label_address(
                    self.globals_view(),
                    self.locals_view(),
                    self.spec_location() as u32,
                    label,
                ) == Ok::<u32, Seq<char>>(v),
                Err(e) => spec_label_address(
                    self.globals_view(),
                    self.locals_view(),
                    self.spec_location() as u32,
                    label,
                ) == Err::<u32, Seq<char>>(e@),
            },
    {
        match label {
            Label::Global(l) => {
                let i = self.global_position(l);
                if i < self.globals.len() {
                    Ok(self.globals[i].1)
                } else {
                    Err(err_unknown_global(l))
                }
            },
            Label::Local(l, d) => {
                let here = self.location();
                let ghost ls = self.locals_view();
                if d == 'b' {
                    // Search for the closest label *before* (and
                    // including) `here`, starting from the end.
                    let mut i = self.locals.len();
                    assert(ls.take(i as int) =~= ls);
                    while i > 0
                        invariant
                            ls == self.locals_view(),
                            ls.len() == self.locals.len(),
                            i <= ls.len(),
                            self.wf(),
                            here == self.spec_location() as u32,
                            label == Label::Local(l, d),
                            d == 'b',
                            find_local_before(ls, l@, here) == find_local_before(
                                ls.take(i as int),
                                l@,
                                here,
                            ),
                        decreases i,
                    {
                        let (addr, name) = self.locals[i - 1];
                        assert(ls.take(i as int).last() == ls[i - 1]);
                        assert(ls.take(i as int).drop_last() =~= ls.take(i - 1));
                        assert(ls[i - 1] == (addr, name@));
                        if addr <= here && str_eq(l, name) {
                            assert(find_local_before(ls.take(i as int), l@, here) == Some(addr));
                            assert(find_local_before(ls, l@, here) == Some(addr));
                            assert(here == self.spec_location() as u32);
                            assert(ls == self.locals_view());
                            assert(spec_label_address(self.globals_view(), ls, here, label) == Ok::<
                                u32,
                                Seq<char>,
                            >(addr));
                            return Ok(addr);
                        }
                        i -= 1;
                    }
                    Err(err_unknown_local(l))
                } else if d == 'f' {
                    // Search for the closest label *after* `here`
                    let mut i: usize = 0;
                    assert(ls.skip(0) =~= ls);
                    while i < self.locals.len()
                        invariant
                            ls == self.locals_view(),
                            ls.len() == self.locals.len(),
                            i <= ls.len(),
                            self.wf(),
                            here == self.spec_location() as u32,
                            label == Label::Local(l, d),
                            d == 'f',
                            find_local_after(ls, l@, here) == find_local_after(
                                ls.skip(i as int),
                                l@,
                                here,
                            ),
                        decreases ls.len() - i,
                    {
                        let (addr, name) = self.locals[i];
                        assert(ls.skip(i as int)[0] == ls[i as int]);
                        assert(ls.skip(i as int).drop_first() =~= ls.skip(i + 1));
                        assert(ls[i as int] == (addr, name@));
                        if addr > here && str_eq(l, name) {
                            assert(find_local_after(ls.skip(i as int), l@, here) == Some(addr));
                            assert(find_local_after(ls, l@, here) == Some(addr));
                            assert(here == self.spec_location() as u32);
                            assert(ls == self.locals_view());
                            assert(spec_label_address(self.globals_view(), ls, here, label) == Ok::<
                                u32,
                                Seq<char>,
                            >(addr));
                            return Ok(addr);
                        }
                        i += 1;
                    }
                    Err(err_unknown_local(l))
                } else {
                    Err(err_bad_direction(d))
                }
            },
            Label::Absolute(a) => Ok(a),
        }
    }

    fn branch_target(&self, label: Label) -> (r: Result<i16, String>)
        requires
            self.wf(),
            self.spec_location() + 4 <= u32::MAX,
        ensures
            match r {
                Ok(v) => spec_branch_target(
                    self.globals_view(),
                    self.locals_view(),
                    self.spec_location() as u32,
                    label,
                ) == Ok::<i16, Seq<char>>(v),
                Err(e) => spec_branch_target(
                    self.globals_view(),
                    self.locals_view(),
                    self.spec_location() as u32,
                    label,
                ) == Err::<i16, Seq<char>>(e@),
            },
    {
        // The offset is relative to the *next* instruction
        let here = (self.location() + 4) as i32;
        let there = self.label_address(label)? as i32;
        let delta = (there as i64 - here as i64) as i16;
        // The 2 LSBs are dropped since PC addresses are always word
        // aligned
        Ok(delta >> 2)
    }

    fn jump_target(&self, label: Label) -> (r: Result<u32, String>)
        requires
            self.wf(),
        ensures
            match r {
                Ok(v) => spec_jump_target(
                    self.globals_view(),
                    self.locals_view(),
                    self.spec_location() as u32,
                    label,
                ) == Ok::<u32, Seq<char>>(v),
                Err(e) => spec_jump_target(
                    self.globals_view(),
                    self.locals_view(),
                    self.spec_location() as u32,
                    label,
                ) == Err::<u32, Seq<char>>(e@),
            },
    {
        let there = self.label_address(label)?;
        // The 2 LSBs are dropped since PC addresses are always word
        // aligned
        Ok(there >> 2)
    }

    fn assemble_instruction(&mut self, instruction: Instruction) -> (r: Result<(), String>)
        requires
            old(self).wf(),
            instruction_well_formed(instruction),
            old(self).spec_location() + spec_instruction_bytes(
                instruction,
                old(self).spec_location() as u32,
            ) <= u32::MAX,
        ensures
            final(self).wf(),
            final(self).base_address() == old(self).base_address(),
            final(self).globals_view() == old(self).globals_view(),
            final(self).locals_view() == old(self).locals_view(),
            match spec_encode(
                instruction,
                old(self).globals_view(),
                old(self).locals_view(),
                old(self).spec_location() as u32,
            ) {
                Ok(b) => r is Ok && final(self).code() == old(self).code() + b,
                Err(e) => r matches Err(m) && m@ == e && final(self).code() == old(self).code(),
            },
    {
        proof {
            lemma_encode_len(
                instruction,
                self.globals_view(),
                self.locals_view(),
                self.spec_location() as u32,
            );
        }
        reveal(spec_encode);
        match instruction {
            Instruction::Sll(r0, r1, shift) => {
                self.emit_code(MachineCode::sub(0b000000).d(r0).t(r1).shift(shift));
            },
            Instruction::Srl(r0, r1, shift) => {
                self.emit_code(MachineCode::sub(0b000010).d(r0).t(r1).shift(shift));
            },
            Instruction::Sra(r0, r1, shift) => {
                self.emit_code(MachineCode::sub(0b000011).d(r0).t(r1).shift(shift));
            },
            Instruction::Sllv(r0, r1, r2) => {
                self.emit_code(MachineCode::sub(0b000100).d(r0).t(r1).s(r2));
            },
            Instruction::Srlv(r0, r1, r2) => {
                self.emit_code(MachineCode::sub(0b000110).d(r0).t(r1).s(r2));
            },
            Instruction::Srav(r0, r1, r2) => {
                self.emit_code(MachineCode::sub(0b000111).d(r0).t(r1).s(r2));
            },
            Instruction::Jr(r0) => {
                self.emit_code(MachineCode::sub(0b001000).s(r0));
            },
            Instruction::Jalr(r0, r1) => {
                self.emit_code(MachineCode::sub(0b001001).d(r0).s(r1));
            },
            Instruction::Syscall(v) => {
                self.emit_code(MachineCode::sub(0b001100).sys_brk(v));
            },
            Instruction::Break(v) => {
                self.emit_code(MachineCode::sub(0b001101).sys_brk(v));
            },
            Instruction::Mfhi(r0) => {
                self.emit_code(MachineCode::sub(0b010000).d(r0));
            },
            Instruction::Mthi(r0) => {
                self.emit_code(MachineCode::sub(0b010001).s(r0));
            },
            Instruction::Mflo(r0) => {
                self.emit_code(MachineCode::sub(0b010010).d(r0));
            },
            Instruction::Mtlo(r0) => {
                self.emit_code(MachineCode::sub(0b010011).s(r0));
            },
            Instruction::Mult(r0, r1) => {
                self.emit_code(MachineCode::sub(0b011000).s(r0).t(r1));
            },
            Instruction::Multu(r0, r1) => {
                self.emit_code(MachineCode::sub(0b011001).s(r0).t(r1));
            },
            Instruction::Div(r0, r1) => {
                self.emit_code(MachineCode::sub(0b011010).s(r0).t(r1));
            },
            Instruction::Divu(r0, r1) => {
                self.emit_code(MachineCode::sub(0b011011).s(r0).t(r1));
            },
            Instruction::Add(r0, r1, r2) => {
                self.emit_code(MachineCode::sub(0b100000).d(r0).s(r1).t(r2));
            },
            Instruction::Addu(r0, r1, r2) => {
                self.emit_code(MachineCode::sub(0b100001).d(r0).s(r1).t(r2));
            },
            Instruction::Sub(r0, r1, r2) => {
                self.emit_code(MachineCode::sub(0b100010).d(r0).s(r1).t(r2));
            },
            Instruction::Subu(r0, r1, r2) => {
                self.emit_code(MachineCode::sub(0b100011).d(r0).s(r1).t(r2));
            },
            Instruction::And(r0, r1, r2) => {
                self.emit_code(MachineCode::sub(0b100100).d(r0).s(r1).t(r2));
            },
            Instruction::Or(r0, r1, r2) => {
                self.emit_code(MachineCode::sub(0b100101).d(r0).s(r1).t(r2));
            },
            Instruction::Xor(r0, r1, r2) => {
                self.emit_code(MachineCode::sub(0b100110).d(r0).s(r1).t(r2));
            },
            Instruction::Nor(r0, r1, r2) => {
                self.emit_code(MachineCode::sub(0b100111).d(r0).s(r1).t(r2));
            },
            Instruction::Slt(r0, r1, r2) => {
                self.emit_code(MachineCode::sub(0b101010).d(r0).s(r1).t(r2));
            },
            Instruction::Sltu(r0, r1, r2) => {
                self.emit_code(MachineCode::sub(0b101011).d(r0).s(r1).t(r2));
            },
            Instruction::Addi(r0, r1, i) => {
                self.emit_code(MachineCode::op(0b001000).t(r0).s(r1).imm_se(i));
            },
            Instruction::Addiu(r0, r1, i) => {
                self.emit_code(MachineCode::op(0b001001).t(r0).s(r1).imm_se(i));
            },
            Instruction::Slti(r0, r1, i) => {
                self.emit_code(MachineCode::op(0b001010).t(r0).s(r1).imm_se(i));
            },
            Instruction::Sltiu(r0, r1, i) => {
                self.emit_code(MachineCode::op(0b001011).t(r0).s(r1).imm_se(i));
            },
            Instruction::Andi(r0, r1, i) => {
                self.emit_code(MachineCode::op(0b001100).t(r0).s(r1).imm(i));
            },
            Instruction::Ori(r0, r1, i) => {
                self.emit_code(MachineCode::op(0b001101).t(r0).s(r1).imm(i));
            },
            Instruction::Xori(r0, r1, i) => {
                self.emit_code(MachineCode::op(0b001110).t(r0).s(r1).imm(i));
            },
            Instruction::Lb(r0, r1, i) => {
                self.emit_code(MachineCode::op(0b100000).t(r0).s(r1).imm_se(i));
            },
            Instruction::Lh(r0, r1, i) => {
                self.emit_code(MachineCode::op(0b100001).t(r0).s(r1).imm_se(i));
            },
            Instruction::Lwl(r0, r1, i) => {
                self.emit_code(MachineCode::op(0b100010).t(r0).s(r1).imm_se(i));
            },
            Instruction::Lw(r0, r1, i) => {
                self.emit_code(MachineCode::op(0b100011).t(r0).s(r1).imm_se(i));
            },
            Instruction::Lbu(r0, r1, i) => {
                self.emit_code(MachineCode::op(0b100100).t(r0).s(r1).imm_se(i));
            },
            Instruction::Lhu(r0, r1, i) => {
                self.emit_code(MachineCode::op(0b100101).t(r0).s(r1).imm_se(i));
            },
            Instruction::Lwr(r0, r1, i) => {
                self.emit_code(MachineCode::op(0b100110).t(r0).s(r1).imm_se(i));
            },
            Instruction::Sb(r0, r1, i) => {
                self.emit_code(MachineCode::op(0b101000).t(r0).s(r1).imm_se(i));
            },
            Instruction::Sh(r0, r1, i) => {
                self.emit_code(MachineCode::op(0b101001).t(r0).s(r1).imm_se(i));
            },
            Instruction::Swl(r0, r1, i) => {
                self.emit_code(MachineCode::op(0b101010).t(r0).s(r1).imm_se(i));
            },
            Instruction::Sw(r0, r1, i) => {
                self.emit_code(MachineCode::op(0b101011).t(r0).s(r1).imm_se(i));
            },
            Instruction::Swr(r0, r1, i) => {
                self.emit_code(MachineCode::op(0b101110).t(r0).s(r1).imm_se(i));
            },
            Instruction::Lui(r0, u) => {
                self.emit_code(MachineCode::op(0b001111).t(r0).imm(u));
            },
            Instruction::Mfc0(r0, cop_r) => {
                self.emit_code(MachineCode::op(0b010000).cop_opcode(0b00000).t(r0).cop_r(cop_r));
            },
            Instruction::Mtc0(r0, cop_r) => {
                self.emit_code(MachineCode::op(0b010000).cop_opcode(0b00100).t(r0).cop_r(cop_r));
            },
            Instruction::Bgez(r0, l) => {
                let i = self.branch_target(l)?;
                self.emit_code(MachineCode::op(0b000001).is_link(false).is_bgez(true).s(r0).imm_se(i));
            },
            Instruction::Bltz(r0, l) => {
                let i = self.branch_target(l)?;
                self.emit_code(MachineCode::op(0b000001).is_link(false).is_bgez(false).s(r0).imm_se(i));
            },
            Instruction::Bgezal(r0, l) => {
                let i = self.branch_target(l)?;
                self.emit_code(MachineCode::op(0b000001).is_link(true).is_bgez(true).s(r0).imm_se(i));
            },
            Instruction::Bltzal(r0, l) => {
                let i = self.branch_target(l)?;
                self.emit_code(MachineCode::op(0b000001).is_link(true).is_bgez(false).s(r0).imm_se(i));
            },
            Instruction::J(l) => {
                let i = self.jump_target(l)?;
                self.emit_code(MachineCode::op(0b000010).imm_jump(i));
            },
            Instruction::Jal(l) => {
                let i = self.jump_target(l)?;
                self.emit_code(MachineCode::op(0b000011).imm_jump(i));
            },
            Instruction::Beq(r0, r1, l) => {
                let i = self.branch_target(l)?;
                self.emit_code(MachineCode::op(0b000100).s(r0).t(r1).imm_se(i));
            },
            Instruction::Bne(r0, r1, l) => {
                let i = self.branch_target(l)?;
                self.emit_code(MachineCode::op(0b000101).s(r0).t(r1).imm_se(i));
            },
            Instruction::Blez(r0, l) => {
                let i = self.branch_target(l)?;
                self.emit_code(MachineCode::op(0b000110).s(r0).imm_se(i));
            },
            Instruction::Bgtz(r0, l) => {
                let i = self.branch_target(l)?;
                self.emit_code(MachineCode::op(0b000111).s(r0).imm_se(i));
            },
            // Alignment padding
            Instruction::Align(o) => {
                let pad = pad_to_order(self.location(), o);
                let ghost code0 = self.code();
                let mut k: u32 = 0;
                while k < pad
                    invariant
                        k <= pad,
                        self.code() =~= code0 + Seq::new(k as nat, |j: int| 0u8),
                        self.base_address() == old(self).base_address(),
                        self.globals_view() == old(self).globals_view(),
                        self.locals_view() == old(self).locals_view(),
                        old(self).spec_location() + pad <= u32::MAX,
                        code0 == old(self).code(),
                    decreases pad - k,
                {
                    self.emit_byte(0);
                    k += 1;
                }
            },
            // Pseudo instructions
            Instruction::Nop => {
                self.emit_code(MachineCode::sub(0b000000).d(0).t(0).shift(0));
            },
            Instruction::Move(r0, r1) => {
                self.emit_code(MachineCode::sub(0b100001).d(r0).s(r1).t(0));
            },
            Instruction::Li(r0, v) => {
                let hi = (v >> 16) as u16;
                let lo = v as u16;
                if hi != 0 {
                    self.emit_code(MachineCode::op(0b001111).t(r0).imm(hi));
                    if lo != 0 {
                        let ghost c1 = self.code();
                        self.emit_code(MachineCode::op(0b001101).t(r0).s(r0).imm(lo));
                        assert(self.code() =~= old(self).code() + (lui_bytes(r0, hi) + ori_bytes(
                            r0,
                            r0,
                            lo,
                        )));
                    }
                } else {
                    self.emit_code(MachineCode::op(0b001101).t(r0).s(0).imm(lo));
                }
            },
            Instruction::La(r0, l) => {
                let loc = self.label_address(l)?;
                let hi = (loc >> 16) as u16;
                let lo = loc as u16;
                self.emit_code(MachineCode::op(0b001111).t(r0).imm(hi));
                self.emit_code(MachineCode::op(0b001101).t(r0).s(r0).imm(lo));
                assert(self.code() =~= old(self).code() + (lui_bytes(r0, hi) + ori_bytes(
                    r0,
                    r0,
                    lo,
                )));
            },
            Instruction::B(l) => {
                let i = self.branch_target(l)?;
                self.emit_code(MachineCode::op(0b000100).s(0).t(0).imm_se(i));
            },
            Instruction::Beqz(r0, l) => {
                let i = self.branch_target(l)?;
                self.emit_code(MachineCode::op(0b000100).s(r0).t(0).imm_se(i));
            },
            Instruction::Bnez(r0, l) => {
                let i = self.branch_target(l)?;
                self.emit_code(MachineCode::op(0b000101).s(r0).t(0).imm_se(i));
            },
            // Labels are handled by `parse_labels`
            Instruction::Local(..) | Instruction::Global(..) => {
                assert(self.code() =~= old(self).code() + Seq::<u8>::empty());
            },
        }
        Ok(())
    }

    /// Look for global and local labels in `instructions` and collect
    /// them
    fn parse_labels(&mut self, instructions: &[Instruction]) -> (r: Result<(), String>)
        requires
            old(self).wf(),
            forall|k: int| 0 <= k < instructions@.len() ==> instruction_well_formed(instructions@[k]),
            loc_after(instructions@, instructions@.len() as int, old(self).spec_location())
                <= u32::MAX,
        ensures
            final(self).wf(),
            final(self).code() == old(self).code(),
            final(self).base_address() == old(self).base_address(),
            ({
                let init = LabelScan {
                    loc: old(self).spec_location() as u32,
                    globals: old(self).globals_view(),
                    locals: old(self).locals_view(),
                    error: None,
                };
                let scan = scan_prefix(instructions@, instructions@.len() as int, init);
                &&& final(self).globals_view() == scan.globals
                &&& final(self).locals_view() == scan.locals
                &&& match scan.error {
                    Some(e) => r matches Err(m) && m@ == e,
                    None => r is Ok && scan.loc == loc_after(
                        instructions@,
                        instructions@.len() as int,
                        old(self).spec_location(),
                    ),
                }
            }),
    {
        let ghost init = LabelScan {
            loc: old(self).spec_location() as u32,
            globals: old(self).globals_view(),
            locals: old(self).locals_view(),
            error: None,
        };
        let ghost start = old(self).spec_location();
        let ghost instrs = instructions@;
        let mut loc = self.location();
        let mut k: usize = 0;
        while k < instructions.len()
            invariant
                instrs == instructions@,
                k <= instrs.len(),
                forall|j: int| 0 <= j < instrs.len() ==> instruction_well_formed(instrs[j]),
                loc_after(instrs, instrs.len() as int, start) <= u32::MAX,
                loc == loc_after(instrs, k as int, start),
                scan_prefix(instrs, k as int, init) == (LabelScan {
                    loc: loc,
                    globals: self.globals_view(),
                    locals: self.locals_view(),
                    error: None,
                }),
                self.wf(),
                self.code() == old(self).code(),
                self.base_address() == old(self).base_address(),
                start == old(self).spec_location(),
                init == (LabelScan {
                    loc: old(self).spec_location() as u32,
                    globals: old(self).globals_view(),
                    locals: old(self).locals_view(),
                    error: None,
                }),
            decreases instrs.len() - k,
        {
            let i = instructions[k];
            proof {
                lemma_loc_after_monotone(instrs, k + 1, instrs.len() as int, start);
            }
            match i {
                Instruction::Global(name) => {
                    let idx = self.global_position(name);
                    let ghost gs = self.globals_view();
                    let ghost st = LabelScan {
                        loc: loc,
                        globals: gs,
                        locals: self.locals_view(),
                        error: None,
                    };
                    assert(scan_prefix(instrs, k + 1, init) == scan_step(st, i));
                    if idx < self.globals.len() {
                        // Globals can't be redefined
                        self.globals.set(idx, (name, loc));
                        assert(self.globals_view() =~= insert_global(gs, name@, loc));
                        proof {
                            lemma_scan_stops(instrs, k + 1, instrs.len() as int, init);
                        }
                        assert(find_global(gs, name@) is Some);
                        assert(scan_step(st, i).globals == self.globals_view());
                        assert(scan_prefix(instrs, k + 1, init).globals == self.globals_view());
                        assert(scan_prefix(instrs, instrs.len() as int, init).globals
                            == self.globals_view());
                        return Err(err_redefined(name));
                    } else {
                        self.globals.push((name, loc));
                        assert(self.globals_view() =~= insert_global(gs, name@, loc));
                    }
                },
                // Locals can be redefined any number of times
                Instruction::Local(id) => {
                    let ghost ls = self.locals_view();
                    self.locals.push((loc, id));
                    assert(self.locals_view() =~= ls.push((loc, id@)));
                },
                _ => {
                    loc = loc + i.bytes(loc);
                },
            }
            k += 1;
        }
        Ok(())
    }

    /// Attempt to assemble the provided instructions. Returns the
    /// size of the generated machine code in bytes on success, a
    /// String describing the assembler error on failure.
    pub fn assemble(&mut self, instructions: &[Instruction]) -> (r: Result<u32, String>)
        requires
            old(self).wf(),
            forall|k: int| 0 <= k < instructions@.len() ==> instruction_well_formed(instructions@[k]),
            loc_after(instructions@, instructions@.len() as int, old(self).spec_location())
                <= u32::MAX,
        ensures
            final(self).wf(),
            final(self).base_address() == old(self).base_address(),
            ({
                let init = LabelScan {
                    loc: old(self).spec_location() as u32,
                    globals: old(self).globals_view(),
                    locals: Seq::empty(),
                    error: None,
                };
                let scan = scan_prefix(instructions@, instructions@.len() as int, init);
                let em = emit_prefix(
                    instructions@,
                    instructions@.len() as int,
                    old(self).base_address(),
                    old(self).code(),
                    scan.globals,
                    scan.locals,
                );
                &&& final(self).globals_view() == scan.globals
                &&& final(self).locals_view() == scan.locals
                &&& assembled(old(self).globals_view(), old(self).base_address(), old(self).code(), instructions@)
                    == (match r {
                    Ok(n) => Ok::<int, Seq<char>>(n as int),
                    Err(m) => Err::<int, Seq<char>>(m@),
                }, final(self).code())
                &&& match scan.error {
                    Some(e) => r matches Err(m) && m@ == e && final(self).code() == old(self).code(),
                    None => {
                        &&& final(self).code() == em.code
                        &&& match em.error {
                            Some(e) => r matches Err(m) && m@ == e,
                            None => r == Ok::<u32, String>(
                                (em.code.len() - old(self).code().len()) as u32,
                            ),
                        }
                    },
                }
            }),
    {
        let start_loc = self.location();
        // Clear local labels from previous calls
        self.locals.clear();
        assert(self.locals_view() =~= Seq::<(u32, Seq<char>)>::empty());
        // First we map the labels
        self.parse_labels(instructions)?;
        let ghost instrs = instructions@;
        let ghost gs = self.globals_view();
        let ghost ls = self.locals_view();
        let ghost code0 = old(self).code();
        let ghost base = old(self).base_address();
        let ghost init = LabelScan {
            loc: old(self).spec_location() as u32,
            globals: old(self).globals_view(),
            locals: Seq::empty(),
            error: None,
        };
        let ghost scan = scan_prefix(instructions@, instructions@.len() as int, init);
        assert(scan.error is None && scan.globals == gs && scan.locals == ls);
        let mut k: usize = 0;
        while k < instructions.len()
            invariant
                instrs == instructions@,
                k <= instrs.len(),
                forall|j: int| 0 <= j < instrs.len() ==> instruction_well_formed(instrs[j]),
                loc_after(instrs, instrs.len() as int, start_loc as int) <= u32::MAX,
                self.spec_location() == loc_after(instrs, k as int, start_loc as int),
                emit_prefix(instrs, k as int, base, code0, gs, ls) == (Emission {
                    code: self.code(),
                    error: None,
                }),
                self.wf(),
                self.globals_view() == gs,
                self.locals_view() == ls,
                self.base_address() == base,
                start_loc == base + code0.len(),
                base == old(self).base_address(),
                code0 == old(self).code(),
                scan == scan_prefix(instrs, instrs.len() as int, init),
                scan.error is None && scan.globals == gs && scan.locals == ls,
                init == (LabelScan {
                    loc: old(self).spec_location() as u32,
                    globals: old(self).globals_view(),
                    locals: Seq::empty(),
                    error: None,
                }),
            decreases instrs.len() - k,
        {
            proof {
                lemma_loc_after_monotone(instrs, k + 1, instrs.len() as int, start_loc as int);
                lemma_encode_len(instrs[k as int], gs, ls, self.spec_location() as u32);
            }
            let ghost prev = emit_prefix(instrs, k as int, base, code0, gs, ls);
            let ghost c = self.code();
            let r = self.assemble_instruction(instructions[k]);
            assert(emit_prefix(instrs, k + 1, base, code0, gs, ls) == match spec_encode(
                instrs[k as int],
                gs,
                ls,
                (base + c.len()) as u32,
            ) {
                Ok(b) => Emission { code: c + b, error: None },
                Err(e) => Emission { code: c, error: Some(e) },
            });
            if r.is_err() {
                proof {
                    lemma_emit_stops(instrs, k + 1, instrs.len() as int, base, code0, gs, ls);
                }
                return Err(r.unwrap_err());
            }
            k += 1;
        }
        proof {
            lemma_loc_after_monotone(instrs, 0, instrs.len() as int, start_loc as int);
        }
        Ok(self.location() - start_loc)
    }
}

/// Register-register ALU instructions: secondary opcode (bits 5:0),
/// destination, first and second source register, in the order the
/// assembler syntax gives them
pub open spec fn alu_operands(i: Instruction) -> Option<(u32, Register, Register, Register)> {
    match i {
        Instruction::Add(d, a, b) => Some((0x20u32, d, a, b)),
        Instruction::Addu(d, a, b) => Some((0x21u32, d, a, b)),
        Instruction::Sub(d, a, b) => Some((0x22u32, d, a, b)),
        Instruction::Subu(d, a, b) => Some((0x23u32, d, a, b)),
        Instruction::And(d, a, b) => Some((0x24u32, d, a, b)),
        Instruction::Or(d, a, b) => Some((0x25u32, d, a, b)),
        Instruction::Xor(d, a, b) => Some((0x26u32, d, a, b)),
        Instruction::Nor(d, a, b) => Some((0x27u32, d, a, b)),
        Instruction::Slt(d, a, b) => Some((0x2au32, d, a, b)),
        Instruction::Sltu(d, a, b) => Some((0x2bu32, d, a, b)),
        _ => None,
    }
}

/// The machine word emitted for a register-register ALU instruction
/// `Op(d, a, b)` decodes back to the same operation with rd = d,
/// rs = a and rt = b (so `Subu(d, a, b)` computes a - b), no shift
/// amount and the primary opcode 0
pub proof fn lemma_alu_encoding_fields(
    i: Instruction,
    gs: Seq<(Seq<char>, u32)>,
    ls: Seq<(u32, Seq<char>)>,
    here: u32,
)
    requires
        alu_operands(i) matches Some((f, d, a, b)) && d < 32 && a < 32 && b < 32,
    ensures
        exists|w: u32|
            #![trigger word_le_bytes(w)]
            {
                let (f, d, a, b) = alu_operands(i).unwrap();
                &&& spec_encode(i, gs, ls, here) == Ok::<Seq<u8>, Seq<char>>(word_le_bytes(w))
                &&& ins_function(w) == 0
                &&& ins_subfunction(w) == f
                &&& ins_d(w) == d
                &&& ins_s(w) == a
                &&& ins_t(w) == b
                &&& ins_shift(w) == 0
            },
{
    reveal(spec_encode);
    let (f, d, a, b) = alu_operands(i).unwrap();
    let w = mc_t(mc_s(mc_d(mc_sub(f as u8), d), a), b);
    lemma_r_type_fields(f, d as u32, a as u32, b as u32);
    assert(word_le_bytes(w) == word_le_bytes(w));
}

/// Assembling `Subu(d, a, b)` and disassembling the word gives back
/// `subu` with the same operands in the same order
pub proof fn lemma_subu_round_trip(
    d: Register,
    a: Register,
    b: Register,
    gs: Seq<(Seq<char>, u32)>,
    ls: Seq<(u32, Seq<char>)>,
    here: u32,
)
    requires
        d < 32,
        a < 32,
        b < 32,
    ensures
        exists|w: u32|
            #![trigger word_le_bytes(w)]
            spec_encode(Instruction::Subu(d, a, b), gs, ls, here) == Ok::<Seq<u8>, Seq<char>>(
                word_le_bytes(w),
            ) && disassembly(w) == "subu "@ + reg_name(d as u32) + ", "@ + reg_name(a as u32) + ", "@
                + reg_name(b as u32),
{
    reveal(spec_encode);
    let w = mc_t(mc_s(mc_d(mc_sub(0x23u8), d), a), b);
    lemma_r_type_fields(0x23, d as u32, a as u32, b as u32);
    crate::cpu::disasm::lemma_alu_operand_order(w);
    assert(spec_encode(Instruction::Subu(d, a, b), gs, ls, here) == Ok::<Seq<u8>, Seq<char>>(
        word_le_bytes(w),
    ));
    let c = ", "@;
    assert("subu "@ + (reg_name(d as u32) + c + reg_name(a as u32) + c + reg_name(b as u32))
        =~= "subu "@ + reg_name(d as u32) + c + reg_name(a as u32) + c + reg_name(b as u32));
}

/// Immediate instructions: primary opcode (bits 31:26), target
/// register, source (or base) register and the 16 bit immediate, in
/// the order the assembler syntax gives them
pub open spec fn imm_operands(i: Instruction) -> Option<(u32, Register, Register, u16)> {
    match i {
        Instruction::Addi(t, s, v) => Some((0x08u32, t, s, v as u16)),
        Instruction::Addiu(t, s, v) => Some((0x09u32, t, s, v as u16)),
        Instruction::Slti(t, s, v) => Some((0x0au32, t, s, v as u16)),
        Instruction::Sltiu(t, s, v) => Some((0x0bu32, t, s, v as u16)),
        Instruction::Andi(t, s, v) => Some((0x0cu32, t, s, v)),
        Instruction::Ori(t, s, v) => Some((0x0du32, t, s, v)),
        Instruction::Xori(t, s, v) => Some((0x0eu32, t, s, v)),
        Instruction::Lb(t, s, v) => Some((0x20u32, t, s, v as u16)),
        Instruction::Lh(t, s, v) => Some((0x21u32, t, s, v as u16)),
        Instruction::Lwl(t, s, v) => Some((0x22u32, t, s, v as u16)),
        Instruction::Lw(t, s, v) => Some((0x23u32, t, s, v as u16)),
        Instruction::Lbu(t, s, v) => Some((0x24u32, t, s, v as u16)),
        Instruction::Lhu(t, s, v) => Some((0x25u32, t, s, v as u16)),
        Instruction::Lwr(t, s, v) => Some((0x26u32, t, s, v as u16)),
        Instruction::Sb(t, s, v) => Some((0x28u32, t, s, v as u16)),
        Instruction::Sh(t, s, v) => Some((0x29u32, t, s, v as u16)),
        Instruction::Swl(t, s, v) => Some((0x2au32, t, s, v as u16)),
        Instruction::Sw(t, s, v) => Some((0x2bu32, t, s, v as u16)),
        Instruction::Swr(t, s, v) => Some((0x2eu32, t, s, v as u16)),
        _ => None,
    }
}

/// The machine word emitted for an immediate instruction `Op(t, s, v)`
/// decodes back with the opcode of the operation, rt = t, rs = s (the
/// base register of a load or store) and the immediate v in bits 15:0
pub proof fn lemma_imm_encoding_fields(
    i: Instruction,
    gs: Seq<(Seq<char>, u32)>,
    ls: Seq<(u32, Seq<char>)>,
    here: u32,
)
    requires
        imm_operands(i) matches Some((f, t, s, v)) && t < 32 && s < 32,
    ensures
        exists|w: u32|
            #![trigger word_le_bytes(w)]
            {
                let (f, t, s, v) = imm_operands(i).unwrap();
                &&& spec_encode(i, gs, ls, here) == Ok::<Seq<u8>, Seq<char>>(word_le_bytes(w))
                &&& ins_function(w) == f
                &&& ins_t(w) == t
                &&& ins_s(w) == s
                &&& w & 0xffff == v
            },
{
    reveal(spec_encode);
    let (f, t, s, v) = imm_operands(i).unwrap();
    let w = (((f << 26u32) | ((t as u32) << 16u32)) | ((s as u32) << 21u32)) | (v as u32);
    lemma_i_type_fields(f, t as u32, s as u32, v as u32);
    assert(spec_encode(i, gs, ls, here) == Ok::<Seq<u8>, Seq<char>>(word_le_bytes(w)));
}

/// Bit-level facts about the fields of an immediate machine word
proof fn lemma_i_type_fields(f: u32, t: u32, s: u32, v: u32)
    by (bit_vector)
    requires
        f < 64,
        t < 32,
        s < 32,
        v < 0x10000,
    ensures
        ((((f << 26u32) | (t << 16u32)) | (s << 21u32)) | v) >> 26u32 == f,
        (((((f << 26u32) | (t << 16u32)) | (s << 21u32)) | v) >> 21u32) & 0x1f == s,
        (((((f << 26u32) | (t << 16u32)) | (s << 21u32)) | v) >> 16u32) & 0x1f == t,
        ((((f << 26u32) | (t << 16u32)) | (s << 21u32)) | v) & 0xffff == v,
{
}

/// Shift instructions: secondary opcode, destination, shifted register
/// and either the constant shift amount or the register holding it, in
/// the order the assembler syntax gives them
pub open spec fn shift_operands(i: Instruction) -> Option<(u32, Register, Register, u8, bool)> {
    match i {
        Instruction::Sll(d, t, sh) => Some((0x00u32, d, t, sh, false)),
        Instruction::Srl(d, t, sh) => Some((0x02u32, d, t, sh, false)),
        Instruction::Sra(d, t, sh) => Some((0x03u32, d, t, sh, false)),
        Instruction::Sllv(d, t, s) => Some((0x04u32, d, t, s, true)),
        Instruction::Srlv(d, t, s) => Some((0x06u32, d, t, s, true)),
        Instruction::Srav(d, t, s) => Some((0x07u32, d, t, s, true)),
        _ => None,
    }
}

/// The machine word emitted for a shift `Op(d, t, x)` decodes back with
/// rd = d and rt = t (the shifted register); a constant shift amount x
/// lands in bits 10:6 (rs is 0), a shift register x in rs (the shift
/// amount field is 0)
pub proof fn lemma_shift_encoding_fields(
    i: Instruction,
    gs: Seq<(Seq<char>, u32)>,
    ls: Seq<(u32, Seq<char>)>,
    here: u32,
)
    requires
        shift_operands(i) matches Some((f, d, t, x, v)) && d < 32 && t < 32 && x < 32,
    ensures
        exists|w: u32|
            #![trigger word_le_bytes(w)]
            {
                let (f, d, t, x, v) = shift_operands(i).unwrap();
                &&& spec_encode(i, gs, ls, here) == Ok::<Seq<u8>, Seq<char>>(word_le_bytes(w))
                &&& ins_function(w) == 0
                &&& ins_subfunction(w) == f
                &&& ins_d(w) == d
                &&& ins_t(w) == t
                &&& v ==> ins_s(w) == x && ins_shift(w) == 0
                &&& !v ==> ins_shift(w) == x && ins_s(w) == 0
            },
{
    reveal(spec_encode);
    let (f, d, t, x, v) = shift_operands(i).unwrap();
    lemma_shift_fields(f, d as u32, t as u32, x as u32);
    if v {
        let w = mc_s(mc_t(mc_d(mc_sub(f as u8), d), t), x);
        assert(spec_encode(i, gs, ls, here) == Ok::<Seq<u8>, Seq<char>>(word_le_bytes(w)));
    } else {
        let w = mc_shift(mc_t(mc_d(mc_sub(f as u8), d), t), x);
        assert(spec_encode(i, gs, ls, here) == Ok::<Seq<u8>, Seq<char>>(word_le_bytes(w)));
    }
}

/// Bit-level facts about the fields of shift machine words: with the
/// shift amount in bits 10:6, or with the shift register in rs
proof fn lemma_shift_fields(f: u32, d: u32, t: u32, x: u32)
    by (bit_vector)
    requires
        f < 64,
        d < 32,
        t < 32,
        x < 32,
    ensures
        ((((f | (d << 11u32)) | (t << 16u32)) | (x << 6u32)) >> 26u32) == 0,
        (((f | (d << 11u32)) | (t << 16u32)) | (x << 6u32)) & 0x3f == f,
        ((((f | (d << 11u32)) | (t << 16u32)) | (x << 6u32)) >> 11u32) & 0x1f == d,
        ((((f | (d << 11u32)) | (t << 16u32)) | (x << 6u32)) >> 16u32) & 0x1f == t,
        ((((f | (d << 11u32)) | (t << 16u32)) | (x << 6u32)) >> 21u32) & 0x1f == 0,
        ((((f | (d << 11u32)) | (t << 16u32)) | (x << 6u32)) >> 6u32) & 0x1f == x,
        ((((f | (d << 11u32)) | (t << 16u32)) | (x << 21u32)) >> 26u32) == 0,
        (((f | (d << 11u32)) | (t << 16u32)) | (x << 21u32)) & 0x3f == f,
        ((((f | (d << 11u32)) | (t << 16u32)) | (x << 21u32)) >> 11u32) & 0x1f == d,
        ((((f | (d << 11u32)) | (t << 16u32)) | (x << 21u32)) >> 16u32) & 0x1f == t,
        ((((f | (d << 11u32)) | (t << 16u32)) | (x << 21u32)) >> 21u32) & 0x1f == x,
        ((((f | (d << 11u32)) | (t << 16u32)) | (x << 21u32)) >> 6u32) & 0x1f == 0,
{
}

/// Bit-level facts about the fields of a register-type machine word/// Bit-level facts about the fields of a register-type machine word/// Bit-level facts about the fields of a register-type machine word
proof fn lemma_r_type_fields(f: u32, d: u32, a: u32, b: u32)
    by (bit_vector)
    requires
        f < 64,
        d < 32,
        a < 32,
        b < 32,
    ensures
        ((((f | (d << 11u32)) | (a << 21u32)) | (b << 16u32)) >> 26u32) == 0,
        (((f | (d << 11u32)) | (a << 21u32)) | (b << 16u32)) & 0x3f == f,
        ((((f | (d << 11u32)) | (a << 21u32)) | (b << 16u32)) >> 21u32) & 0x1f == a,
        ((((f | (d << 11u32)) | (a << 21u32)) | (b << 16u32)) >> 16u32) & 0x1f == b,
        ((((f | (d << 11u32)) | (a << 21u32)) | (b << 16u32)) >> 11u32) & 0x1f == d,
        ((((f | (d << 11u32)) | (a << 21u32)) | (b << 16u32)) >> 6u32) & 0x1f == 0,
{
}

} // verus!
