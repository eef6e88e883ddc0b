//! MIPS disassembler used for debugging

use vstd::prelude::*;

use super::{Instruction, RegisterIndex, ins_function, ins_subfunction, ins_cop_opcode, ins_s,
    ins_t, ins_d, ins_imm, ins_imm_se, ins_shift, ins_imm_jump};
use crate::text::{hex_digit, hex_digits, dec_digits, dec_signed, hex_min, push_str, push_dec,
    push_dec_signed, push_hex_min, push_hex, string_push, hex_char};

verus! {

/// Mnemonic of general purpose register `r`: "R00" to "R31"
pub open spec fn reg_name(r: u32) -> Seq<char> {
    seq!['R', hex_digit(r / 10), hex_digit(r % 10)]
}

/// Append the mnemonic of register `idx`
fn push_reg(s: &mut String, idx: RegisterIndex)
    requires
        idx.0 < 32,
    ensures
        final(s)@ == old(s)@ + reg_name(idx.0),
{
    string_push(s, 'R');
    string_push(s, hex_char(idx.0 / 10));
    string_push(s, hex_char(idx.0 % 10));
    assert(final(s)@ =~= old(s)@ + reg_name(idx.0));
}

/// Disassembly of Shift Left Logical
pub open spec fn dis_sll(op: u32) -> Seq<char> {
    "sll "@ + reg_name(ins_d(op)) + ", "@ + reg_name(ins_t(op)) + " << "@ + dec_digits(ins_shift(op) as nat)
}

fn op_sll(instruction: Instruction) -> (r: String)
    ensures
        r@ == dis_sll(instruction.0),
{
    let mut r = String::new();
    push_str(&mut r, "sll ");
    push_reg(&mut r, instruction.d());
    push_str(&mut r, ", ");
    push_reg(&mut r, instruction.t());
    push_str(&mut r, " << ");
    push_dec(&mut r, instruction.shift());
    assert(r@ =~= dis_sll(instruction.0));
    r
}

/// Disassembly of Shift Right Logical
pub open spec fn dis_srl(op: u32) -> Seq<char> {
    "srl "@ + reg_name(ins_d(op)) + ", "@ + reg_name(ins_t(op)) + " >> "@ + dec_digits(ins_shift(op) as nat)
}

fn op_srl(instruction: Instruction) -> (r: String)
    ensures
        r@ == dis_srl(instruction.0),
{
    let mut r = String::new();
    push_str(&mut r, "srl ");
    push_reg(&mut r, instruction.d());
    push_str(&mut r, ", ");
    push_reg(&mut r, instruction.t());
    push_str(&mut r, " >> ");
    push_dec(&mut r, instruction.shift());
    assert(r@ =~= dis_srl(instruction.0));
    r
}

/// Disassembly of Shift Right Arithmetic
pub open spec fn dis_sra(op: u32) -> Seq<char> {
    "sra "@ + reg_name(ins_d(op)) + ", "@ + reg_name(ins_t(op)) + " >> "@ + dec_digits(ins_shift(op) as nat)
}

fn op_sra(instruction: Instruction) -> (r: String)
    ensures
        r@ == dis_sra(instruction.0),
{
    let mut r = String::new();
    push_str(&mut r, "sra ");
    push_reg(&mut r, instruction.d());
    push_str(&mut r, ", ");
    push_reg(&mut r, instruction.t());
    push_str(&mut r, " >> ");
    push_dec(&mut r, instruction.shift());
    assert(r@ =~= dis_sra(instruction.0));
    r
}

/// Disassembly of Jump Register
pub open spec fn dis_jr(op: u32) -> Seq<char> {
    "jr "@ + reg_name(ins_s(op))
}

fn op_jr(instruction: Instruction) -> (r: String)
    ensures
        r@ == dis_jr(instruction.0),
{
    let mut r = String::new();
    push_str(&mut r, "jr ");
    push_reg(&mut r, instruction.s());
    assert(r@ =~= dis_jr(instruction.0));
    r
}

/// Disassembly of Jump And Link Register
pub open spec fn dis_jalr(op: u32) -> Seq<char> {
    "jalr "@ + reg_name(ins_d(op)) + ", "@ + reg_name(ins_s(op))
}

fn op_jalr(instruction: Instruction) -> (r: String)
    ensures
        r@ == dis_jalr(instruction.0),
{
    let mut r = String::new();
    push_str(&mut r, "jalr ");
    push_reg(&mut r, instruction.d());
    push_str(&mut r, ", ");
    push_reg(&mut r, instruction.s());
    assert(r@ =~= dis_jalr(instruction.0));
    r
}

/// Disassembly of Move From LO
pub open spec fn dis_mflo(op: u32) -> Seq<char> {
    "mflo "@ + reg_name(ins_d(op))
}

fn op_mflo(instruction: Instruction) -> (r: String)
    ensures
        r@ == dis_mflo(instruction.0),
{
    let mut r = String::new();
    push_str(&mut r, "mflo ");
    push_reg(&mut r, instruction.d());
    assert(r@ =~= dis_mflo(instruction.0));
    r
}

/// Disassembly of Divide
pub open spec fn dis_div(op: u32) -> Seq<char> {
    "div "@ + reg_name(ins_s(op)) + ", "@ + reg_name(ins_t(op))
}

fn op_div(instruction: Instruction) -> (r: String)
    ensures
        r@ == dis_div(instruction.0),
{
    let mut r = String::new();
    push_str(&mut r, "div ");
    push_reg(&mut r, instruction.s());
    push_str(&mut r, ", ");
    push_reg(&mut r, instruction.t());
    assert(r@ =~= dis_div(instruction.0));
    r
}

/// Disassembly of Divide Unsigned
pub open spec fn dis_divu(op: u32) -> Seq<char> {
    "divu "@ + reg_name(ins_s(op)) + ", "@ + reg_name(ins_t(op))
}

fn op_divu(instruction: Instruction) -> (r: String)
    ensures
        r@ == dis_divu(instruction.0),
{
    let mut r = String::new();
    push_str(&mut r, "divu ");
    push_reg(&mut r, instruction.s());
    push_str(&mut r, ", ");
    push_reg(&mut r, instruction.t());
    assert(r@ =~= dis_divu(instruction.0));
    r
}

/// Disassembly of Add
pub open spec fn dis_add(op: u32) -> Seq<char> {
    "add "@ + reg_name(ins_d(op)) + ", "@ + reg_name(ins_s(op)) + ", "@ + reg_name(ins_t(op))
}

fn op_add(instruction: Instruction) -> (r: String)
    ensures
        r@ == dis_add(instruction.0),
{
    let mut r = String::new();
    push_str(&mut r, "add ");
    push_reg(&mut r, instruction.d());
    push_str(&mut r, ", ");
    push_reg(&mut r, instruction.s());
    push_str(&mut r, ", ");
    push_reg(&mut r, instruction.t());
    assert(r@ =~= dis_add(instruction.0));
    r
}

/// Disassembly of Add Unsigned
pub open spec fn dis_addu(op: u32) -> Seq<char> {
    "addu "@ + reg_name(ins_d(op)) + ", "@ + reg_name(ins_s(op)) + ", "@ + reg_name(ins_t(op))
}

fn op_addu(instruction: Instruction) -> (r: String)
    ensures
        r@ == dis_addu(instruction.0),
{
    let mut r = String::new();
    push_str(&mut r, "addu ");
    push_reg(&mut r, instruction.d());
    push_str(&mut r, ", ");
    push_reg(&mut r, instruction.s());
    push_str(&mut r, ", ");
    push_reg(&mut r, instruction.t());
    assert(r@ =~= dis_addu(instruction.0));
    r
}

/// Disassembly of Substract Unsigned
pub open spec fn dis_subu(op: u32) -> Seq<char> {
    "subu "@ + reg_name(ins_d(op)) + ", "@ + reg_name(ins_s(op)) + ", "@ + reg_name(ins_t(op))
}

fn op_subu(instruction: Instruction) -> (r: String)
    ensures
        r@ == dis_subu(instruction.0),
{
    let mut r = String::new();
    push_str(&mut r, "subu ");
    push_reg(&mut r, instruction.d());
    push_str(&mut r, ", ");
    push_reg(&mut r, instruction.s());
    push_str(&mut r, ", ");
    push_reg(&mut r, instruction.t());
    assert(r@ =~= dis_subu(instruction.0));
    r
}

/// Disassembly of Bitwise And
pub open spec fn dis_and(op: u32) -> Seq<char> {
    "and "@ + reg_name(ins_d(op)) + ", "@ + reg_name(ins_s(op)) + ", "@ + reg_name(ins_t(op))
}

fn op_and(instruction: Instruction) -> (r: String)
    ensures
        r@ == dis_and(instruction.0),
{
    let mut r = String::new();
    push_str(&mut r, "and ");
    push_reg(&mut r, instruction.d());
    push_str(&mut r, ", ");
    push_reg(&mut r, instruction.s());
    push_str(&mut r, ", ");
    push_reg(&mut r, instruction.t());
    assert(r@ =~= dis_and(instruction.0));
    r
}

/// Disassembly of Bitwise Or
pub open spec fn dis_or(op: u32) -> Seq<char> {
    "or "@ + reg_name(ins_d(op)) + ", "@ + reg_name(ins_s(op)) + ", "@ + reg_name(ins_t(op))
}

fn op_or(instruction: Instruction) -> (r: String)
    ensures
        r@ == dis_or(instruction.0),
{
    let mut r = String::new();
    push_str(&mut r, "or ");
    push_reg(&mut r, instruction.d());
    push_str(&mut r, ", ");
    push_reg(&mut r, instruction.s());
    push_str(&mut r, ", ");
    push_reg(&mut r, instruction.t());
    assert(r@ =~= dis_or(instruction.0));
    r
}

/// Disassembly of Set on Less Than Unsigned
pub open spec fn dis_sltu(op: u32) -> Seq<char> {
    "sltu "@ + reg_name(ins_d(op)) + ", "@ + reg_name(ins_s(op)) + ", "@ + reg_name(ins_t(op))
}

fn op_sltu(instruction: Instruction) -> (r: String)
    ensures
        r@ == dis_sltu(instruction.0),
{
    let mut r = String::new();
    push_str(&mut r, "sltu ");
    push_reg(&mut r, instruction.d());
    push_str(&mut r, ", ");
    push_reg(&mut r, instruction.s());
    push_str(&mut r, ", ");
    push_reg(&mut r, instruction.t());
    assert(r@ =~= dis_sltu(instruction.0));
    r
}

/// Disassembly of Jump
pub open spec fn dis_j(op: u32) -> Seq<char> {
    "j (PC & 0xf0000000) | "@ + hex_min((ins_imm_jump(op) << 2u32) as nat)
}

fn op_j(instruction: Instruction) -> (r: String)
    ensures
        r@ == dis_j(instruction.0),
{
    let mut r = String::new();
    push_str(&mut r, "j (PC & 0xf0000000) | ");
    push_hex_min(&mut r, (instruction.imm_jump() << 2));
    assert(r@ =~= dis_j(instruction.0));
    r
}

/// Disassembly of Jump And Link
pub open spec fn dis_jal(op: u32) -> Seq<char> {
    "jal (PC & 0xf0000000) | "@ + hex_min((ins_imm_jump(op) << 2u32) as nat)
}

fn op_jal(instruction: Instruction) -> (r: String)
    ensures
        r@ == dis_jal(instruction.0),
{
    let mut r = String::new();
    push_str(&mut r, "jal (PC & 0xf0000000) | ");
    push_hex_min(&mut r, (instruction.imm_jump() << 2));
    assert(r@ =~= dis_jal(instruction.0));
    r
}

/// Disassembly of Branch if Equal
pub open spec fn dis_beq(op: u32) -> Seq<char> {
    "beq "@ + reg_name(ins_s(op)) + ", "@ + reg_name(ins_t(op)) + ", "@ + dec_signed(((ins_imm_se(op) << 2u32) as i32) as int)
}

fn op_beq(instruction: Instruction) -> (r: String)
    ensures
        r@ == dis_beq(instruction.0),
{
    let mut r = String::new();
    push_str(&mut r, "beq ");
    push_reg(&mut r, instruction.s());
    push_str(&mut r, ", ");
    push_reg(&mut r, instruction.t());
    push_str(&mut r, ", ");
    push_dec_signed(&mut r, ((instruction.imm_se() << 2) as i32));
    assert(r@ =~= dis_beq(instruction.0));
    r
}

/// Disassembly of Branch if Not Equal
pub open spec fn dis_bne(op: u32) -> Seq<char> {
    "bne "@ + reg_name(ins_s(op)) + ", "@ + reg_name(ins_t(op)) + ", "@ + dec_signed(((ins_imm_se(op) << 2u32) as i32) as int)
}

fn op_bne(instruction: Instruction) -> (r: String)
    ensures
        r@ == dis_bne(instruction.0),
{
    let mut r = String::new();
    push_str(&mut r, "bne ");
    push_reg(&mut r, instruction.s());
    push_str(&mut r, ", ");
    push_reg(&mut r, instruction.t());
    push_str(&mut r, ", ");
    push_dec_signed(&mut r, ((instruction.imm_se() << 2) as i32));
    assert(r@ =~= dis_bne(instruction.0));
    r
}

/// Disassembly of Branch if Less than or Equal to Zero
pub open spec fn dis_blez(op: u32) -> Seq<char> {
    "blez "@ + reg_name(ins_s(op)) + ", "@ + dec_signed(((ins_imm_se(op) << 2u32) as i32) as int)
}

fn op_blez(instruction: Instruction) -> (r: String)
    ensures
        r@ == dis_blez(instruction.0),
{
    let mut r = String::new();
    push_str(&mut r, "blez ");
    push_reg(&mut r, instruction.s());
    push_str(&mut r, ", ");
    push_dec_signed(&mut r, ((instruction.imm_se() << 2) as i32));
    assert(r@ =~= dis_blez(instruction.0));
    r
}

/// Disassembly of Branch if Greater Than Zero
pub open spec fn dis_bgtz(op: u32) -> Seq<char> {
    "bgtz "@ + reg_name(ins_s(op)) + ", "@ + dec_signed(((ins_imm_se(op) << 2u32) as i32) as int)
}

fn op_bgtz(instruction: Instruction) -> (r: String)
    ensures
        r@ == dis_bgtz(instruction.0),
{
    let mut r = String::new();
    push_str(&mut r, "bgtz ");
    push_reg(&mut r, instruction.s());
    push_str(&mut r, ", ");
    push_dec_signed(&mut r, ((instruction.imm_se() << 2) as i32));
    assert(r@ =~= dis_bgtz(instruction.0));
    r
}

/// Disassembly of Add Immediate
pub open spec fn dis_addi(op: u32) -> Seq<char> {
    "addi "@ + reg_name(ins_t(op)) + ", "@ + reg_name(ins_s(op)) + ", 0x"@ + hex_min(ins_imm_se(op) as nat)
}

fn op_addi(instruction: Instruction) -> (r: String)
    ensures
        r@ == dis_addi(instruction.0),
{
    let mut r = String::new();
    push_str(&mut r, "addi ");
    push_reg(&mut r, instruction.t());
    push_str(&mut r, ", ");
    push_reg(&mut r, instruction.s());
    push_str(&mut r, ", 0x");
    push_hex_min(&mut r, instruction.imm_se());
    assert(r@ =~= dis_addi(instruction.0));
    r
}

/// Disassembly of Add Immediate Unsigned
pub open spec fn dis_addiu(op: u32) -> Seq<char> {
    "addiu "@ + reg_name(ins_t(op)) + ", "@ + reg_name(ins_s(op)) + ", 0x"@ + hex_min(ins_imm_se(op) as nat)
}

fn op_addiu(instruction: Instruction) -> (r: String)
    ensures
        r@ == dis_addiu(instruction.0),
{
    let mut r = String::new();
    push_str(&mut r, "addiu ");
    push_reg(&mut r, instruction.t());
    push_str(&mut r, ", ");
    push_reg(&mut r, instruction.s());
    push_str(&mut r, ", 0x");
    push_hex_min(&mut r, instruction.imm_se());
    assert(r@ =~= dis_addiu(instruction.0));
    r
}

/// Disassembly of Set if Less Than Immediate
pub open spec fn dis_slti(op: u32) -> Seq<char> {
    "slti "@ + reg_name(ins_t(op)) + ", "@ + reg_name(ins_s(op)) + ", "@ + dec_signed((ins_imm_se(op) as i32) as int)
}

fn op_slti(instruction: Instruction) -> (r: String)
    ensures
        r@ == dis_slti(instruction.0),
{
    let mut r = String::new();
    push_str(&mut r, "slti ");
    push_reg(&mut r, instruction.t());
    push_str(&mut r, ", ");
    push_reg(&mut r, instruction.s());
    push_str(&mut r, ", ");
    push_dec_signed(&mut r, (instruction.imm_se() as i32));
    assert(r@ =~= dis_slti(instruction.0));
    r
}

/// Disassembly of Set if Less Than Immediate Unsigned
pub open spec fn dis_sltiu(op: u32) -> Seq<char> {
    "sltiu "@ + reg_name(ins_t(op)) + ", "@ + reg_name(ins_s(op)) + ", 0x"@ + hex_min(ins_imm_se(op) as nat)
}

fn op_sltiu(instruction: Instruction) -> (r: String)
    ensures
        r@ == dis_sltiu(instruction.0),
{
    let mut r = String::new();
    push_str(&mut r, "sltiu ");
    push_reg(&mut r, instruction.t());
    push_str(&mut r, ", ");
    push_reg(&mut r, instruction.s());
    push_str(&mut r, ", 0x");
    push_hex_min(&mut r, instruction.imm_se());
    assert(r@ =~= dis_sltiu(instruction.0));
    r
}

/// Disassembly of Bitwise And Immediate
pub open spec fn dis_andi(op: u32) -> Seq<char> {
    "andi "@ + reg_name(ins_t(op)) + ", "@ + reg_name(ins_s(op)) + ", 0x"@ + hex_min(ins_imm(op) as nat)
}

fn op_andi(instruction: Instruction) -> (r: String)
    ensures
        r@ == dis_andi(instruction.0),
{
    let mut r = String::new();
    push_str(&mut r, "andi ");
    push_reg(&mut r, instruction.t());
    push_str(&mut r, ", ");
    push_reg(&mut r, instruction.s());
    push_str(&mut r, ", 0x");
    push_hex_min(&mut r, instruction.imm());
    assert(r@ =~= dis_andi(instruction.0));
    r
}

/// Disassembly of Bitwise Or Immediate
pub open spec fn dis_ori(op: u32) -> Seq<char> {
    "ori "@ + reg_name(ins_t(op)) + ", "@ + reg_name(ins_s(op)) + ", 0x"@ + hex_min(ins_imm(op) as nat)
}

fn op_ori(instruction: Instruction) -> (r: String)
    ensures
        r@ == dis_ori(instruction.0),
{
    let mut r = String::new();
    push_str(&mut r, "ori ");
    push_reg(&mut r, instruction.t());
    push_str(&mut r, ", ");
    push_reg(&mut r, instruction.s());
    push_str(&mut r, ", 0x");
    push_hex_min(&mut r, instruction.imm());
    assert(r@ =~= dis_ori(instruction.0));
    r
}

/// Disassembly of Load Upper Immediate
pub open spec fn dis_lui(op: u32) -> Seq<char> {
    "lui "@ + reg_name(ins_t(op)) + ", 0x"@ + hex_min(ins_imm(op) as nat)
}

fn op_lui(instruction: Instruction) -> (r: String)
    ensures
        r@ == dis_lui(instruction.0),
{
    let mut r = String::new();
    push_str(&mut r, "lui ");
    push_reg(&mut r, instruction.t());
    push_str(&mut r, ", 0x");
    push_hex_min(&mut r, instruction.imm());
    assert(r@ =~= dis_lui(instruction.0));
    r
}

/// Disassembly of Move From Coprocessor 0
pub open spec fn dis_mfc0(op: u32) -> Seq<char> {
    "mfc0 "@ + reg_name(ins_t(op)) + ", cop0r"@ + dec_digits(ins_d(op) as nat)
}

fn op_mfc0(instruction: Instruction) -> (r: String)
    ensures
        r@ == dis_mfc0(instruction.0),
{
    let mut r = String::new();
    push_str(&mut r, "mfc0 ");
    push_reg(&mut r, instruction.t());
    push_str(&mut r, ", cop0r");
    push_dec(&mut r, instruction.d().0);
    assert(r@ =~= dis_mfc0(instruction.0));
    r
}

/// Disassembly of Move To Coprocessor 0
pub open spec fn dis_mtc0(op: u32) -> Seq<char> {
    "mtc0 "@ + reg_name(ins_t(op)) + ", cop0r"@ + dec_digits(ins_d(op) as nat)
}

fn op_mtc0(instruction: Instruction) -> (r: String)
    ensures
        r@ == dis_mtc0(instruction.0),
{
    let mut r = String::new();
    push_str(&mut r, "mtc0 ");
    push_reg(&mut r, instruction.t());
    push_str(&mut r, ", cop0r");
    push_dec(&mut r, instruction.d().0);
    assert(r@ =~= dis_mtc0(instruction.0));
    r
}

/// Disassembly of Load Byte
pub open spec fn dis_lb(op: u32) -> Seq<char> {
    "lb "@ + reg_name(ins_t(op)) + ", ["@ + reg_name(ins_s(op)) + " + 0x"@ + hex_min(ins_imm_se(op) as nat) + "]"@
}

fn op_lb(instruction: Instruction) -> (r: String)
    ensures
        r@ == dis_lb(instruction.0),
{
    let mut r = String::new();
    push_str(&mut r, "lb ");
    push_reg(&mut r, instruction.t());
    push_str(&mut r, ", [");
    push_reg(&mut r, instruction.s());
    push_str(&mut r, " + 0x");
    push_hex_min(&mut r, instruction.imm_se());
    push_str(&mut r, "]");
    assert(r@ =~= dis_lb(instruction.0));
    r
}

/// Disassembly of Load Word
pub open spec fn dis_lw(op: u32) -> Seq<char> {
    "lw "@ + reg_name(ins_t(op)) + ", ["@ + reg_name(ins_s(op)) + " + 0x"@ + hex_min(ins_imm_se(op) as nat) + "]"@
}

fn op_lw(instruction: Instruction) -> (r: String)
    ensures
        r@ == dis_lw(instruction.0),
{
    let mut r = String::new();
    push_str(&mut r, "lw ");
    push_reg(&mut r, instruction.t());
    push_str(&mut r, ", [");
    push_reg(&mut r, instruction.s());
    push_str(&mut r, " + 0x");
    push_hex_min(&mut r, instruction.imm_se());
    push_str(&mut r, "]");
    assert(r@ =~= dis_lw(instruction.0));
    r
}

/// Disassembly of Load Byte Unsigned
pub open spec fn dis_lbu(op: u32) -> Seq<char> {
    "lbu "@ + reg_name(ins_t(op)) + ", ["@ + reg_name(ins_s(op)) + " + 0x"@ + hex_min(ins_imm_se(op) as nat) + "]"@
}

fn op_lbu(instruction: Instruction) -> (r: String)
    ensures
        r@ == dis_lbu(instruction.0),
{
    let mut r = String::new();
    push_str(&mut r, "lbu ");
    push_reg(&mut r, instruction.t());
    push_str(&mut r, ", [");
    push_reg(&mut r, instruction.s());
    push_str(&mut r, " + 0x");
    push_hex_min(&mut r, instruction.imm_se());
    push_str(&mut r, "]");
    assert(r@ =~= dis_lbu(instruction.0));
    r
}

/// Disassembly of Store Byte
pub open spec fn dis_sb(op: u32) -> Seq<char> {
    "sb "@ + reg_name(ins_t(op)) + ", ["@ + reg_name(ins_s(op)) + " + 0x"@ + hex_min(ins_imm_se(op) as nat) + "]"@
}

fn op_sb(instruction: Instruction) -> (r: String)
    ensures
        r@ == dis_sb(instruction.0),
{
    let mut r = String::new();
    push_str(&mut r, "sb ");
    push_reg(&mut r, instruction.t());
    push_str(&mut r, ", [");
    push_reg(&mut r, instruction.s());
    push_str(&mut r, " + 0x");
    push_hex_min(&mut r, instruction.imm_se());
    push_str(&mut r, "]");
    assert(r@ =~= dis_sb(instruction.0));
    r
}

/// Disassembly of Store Halfword
pub open spec fn dis_sh(op: u32) -> Seq<char> {
    "sh "@ + reg_name(ins_t(op)) + ", ["@ + reg_name(ins_s(op)) + " + 0x"@ + hex_min(ins_imm_se(op) as nat) + "]"@
}

fn op_sh(instruction: Instruction) -> (r: String)
    ensures
        r@ == dis_sh(instruction.0),
{
    let mut r = String::new();
    push_str(&mut r, "sh ");
    push_reg(&mut r, instruction.t());
    push_str(&mut r, ", [");
    push_reg(&mut r, instruction.s());
    push_str(&mut r, " + 0x");
    push_hex_min(&mut r, instruction.imm_se());
    push_str(&mut r, "]");
    assert(r@ =~= dis_sh(instruction.0));
    r
}

/// Disassembly of Store Word
pub open spec fn dis_sw(op: u32) -> Seq<char> {
    "sw "@ + reg_name(ins_t(op)) + ", ["@ + reg_name(ins_s(op)) + " + 0x"@ + hex_min(ins_imm_se(op) as nat) + "]"@
}

fn op_sw(instruction: Instruction) -> (r: String)
    ensures
        r@ == dis_sw(instruction.0),
{
    let mut r = String::new();
    push_str(&mut r, "sw ");
    push_reg(&mut r, instruction.t());
    push_str(&mut r, ", [");
    push_reg(&mut r, instruction.s());
    push_str(&mut r, " + 0x");
    push_hex_min(&mut r, instruction.imm_se());
    push_str(&mut r, "]");
    assert(r@ =~= dis_sw(instruction.0));
    r
}

/// Disassembly of BGEZ, BLTZ, BGEZAL and BLTZAL
pub open spec fn dis_bxx(op: u32) -> Seq<char> {
    (if op & 0x10000 != 0 {
        "bgez"@
    } else {
        "bltz"@
    }) + (if op & 0x100000 != 0 {
        "al"@
    } else {
        ""@
    }) + " "@ + reg_name(ins_s(op)) + ", "@ + dec_signed(((ins_imm_se(op) << 2u32) as i32) as int)
}

fn op_bxx(instruction: Instruction) -> (r: String)
    ensures
        r@ == dis_bxx(instruction.0),
{
    let i = instruction.imm_se();
    let s = instruction.s();
    let mut r = String::new();
    if instruction.0 & (1 << 16) != 0 {
        push_str(&mut r, "bgez");
    } else {
        push_str(&mut r, "bltz");
    }
    if instruction.0 & (1 << 20) != 0 {
        push_str(&mut r, "al");
    } else {
        push_str(&mut r, "");
    }
    push_str(&mut r, " ");
    push_reg(&mut r, s);
    push_str(&mut r, ", ");
    push_dec_signed(&mut r, (i << 2) as i32);
    assert(1u32 << 16u32 == 0x10000 && 1u32 << 20u32 == 0x100000) by (bit_vector);
    assert(r@ =~= dis_bxx(instruction.0));
    r
}

/// Disassembly of a coprocessor 0 instruction
pub open spec fn dis_cop0(op: u32) -> Seq<char> {
    if ins_cop_opcode(op) == 0 {
        dis_mfc0(op)
    } else if ins_cop_opcode(op) == 4 {
        dis_mtc0(op)
    } else {
        "!UNKNOWN cop0 instruction "@ + hex_digits(op, 8) + "!"@
    }
}

fn op_cop0(instruction: Instruction) -> (r: String)
    ensures
        r@ == dis_cop0(instruction.0),
{
    let opcode = instruction.cop_opcode();
    if opcode == 0 {
        op_mfc0(instruction)
    } else if opcode == 4 {
        op_mtc0(instruction)
    } else {
        let mut r = String::new();
        push_str(&mut r, "!UNKNOWN cop0 instruction ");
        push_hex(&mut r, instruction.0, 8);
        push_str(&mut r, "!");
        assert(r@ =~= dis_cop0(instruction.0));
        r
    }
}

/// Disassembly of the instruction `op`
pub open spec fn disassembly(op: u32) -> Seq<char> {
    let f = ins_function(op);
    if f == 0 {
        let sub = ins_subfunction(op);
        if sub == 0x00 {
            dis_sll(op)
        } else if sub == 0x02 {
            dis_srl(op)
        } else if sub == 0x03 {
            dis_sra(op)
        } else if sub == 0x08 {
            dis_jr(op)
        } else if sub == 0x09 {
            dis_jalr(op)
        } else if sub == 0x12 {
            dis_mflo(op)
        } else if sub == 0x1a {
            dis_div(op)
        } else if sub == 0x1b {
            dis_divu(op)
        } else if sub == 0x20 {
            dis_add(op)
        } else if sub == 0x21 {
            dis_addu(op)
        } else if sub == 0x23 {
            dis_subu(op)
        } else if sub == 0x24 {
            dis_and(op)
        } else if sub == 0x25 {
            dis_or(op)
        } else if sub == 0x2b {
            dis_sltu(op)
        } else {
            "!UNKNOWN!"@
        }
    } else if f == 0x01 {
        dis_bxx(op)
    } else if f == 0x02 {
        dis_j(op)
    } else if f == 0x03 {
        dis_jal(op)
    } else if f == 0x04 {
        dis_beq(op)
    } else if f == 0x05 {
        dis_bne(op)
    } else if f == 0x06 {
        dis_blez(op)
    } else if f == 0x07 {
        dis_bgtz(op)
    } else if f == 0x08 {
        dis_addi(op)
    } else if f == 0x09 {
        dis_addiu(op)
    } else if f == 0x0a {
        dis_slti(op)
    } else if f == 0x0b {
        dis_sltiu(op)
    } else if f == 0x0c {
        dis_andi(op)
    } else if f == 0x0d {
        dis_ori(op)
    } else if f == 0x0f {
        dis_lui(op)
    } else if f == 0x10 {
        dis_cop0(op)
    } else if f == 0x20 {
        dis_lb(op)
    } else if f == 0x23 {
        dis_lw(op)
    } else if f == 0x24 {
        dis_lbu(op)
    } else if f == 0x28 {
        dis_sb(op)
    } else if f == 0x29 {
        dis_sh(op)
    } else if f == 0x2b {
        dis_sw(op)
    } else {
        "!UNKNOWN!"@
    }
}

fn unknown() -> (r: String)
    ensures
        r@ == "!UNKNOWN!"@,
{
    let mut r = String::new();
    push_str(&mut r, "!UNKNOWN!");
    assert(r@ =~= "!UNKNOWN!"@);
    r
}

/// Human readable disassembly of `instruction`
pub fn decode(instruction: Instruction) -> (r: String)
    ensures
        r@ == disassembly(instruction.0),
{
    let f = instruction.function();
    if f == 0 {
        let sub = instruction.subfunction();
        if sub == 0x00 {
            op_sll(instruction)
        } else if sub == 0x02 {
            op_srl(instruction)
        } else if sub == 0x03 {
            op_sra(instruction)
        } else if sub == 0x08 {
            op_jr(instruction)
        } else if sub == 0x09 {
            op_jalr(instruction)
        } else if sub == 0x12 {
            op_mflo(instruction)
        } else if sub == 0x1a {
            op_div(instruction)
        } else if sub == 0x1b {
            op_divu(instruction)
        } else if sub == 0x20 {
            op_add(instruction)
        } else if sub == 0x21 {
            op_addu(instruction)
        } else if sub == 0x23 {
            op_subu(instruction)
        } else if sub == 0x24 {
            op_and(instruction)
        } else if sub == 0x25 {
            op_or(instruction)
        } else if sub == 0x2b {
            op_sltu(instruction)
        } else {
            unknown()
        }
    } else if f == 0x01 {
        op_bxx(instruction)
    } else if f == 0x02 {
        op_j(instruction)
    } else if f == 0x03 {
        op_jal(instruction)
    } else if f == 0x04 {
        op_beq(instruction)
    } else if f == 0x05 {
        op_bne(instruction)
    } else if f == 0x06 {
        op_blez(instruction)
    } else if f == 0x07 {
        op_bgtz(instruction)
    } else if f == 0x08 {
        op_addi(instruction)
    } else if f == 0x09 {
        op_addiu(instruction)
    } else if f == 0x0a {
        op_slti(instruction)
    } else if f == 0x0b {
        op_sltiu(instruction)
    } else if f == 0x0c {
        op_andi(instruction)
    } else if f == 0x0d {
        op_ori(instruction)
    } else if f == 0x0f {
        op_lui(instruction)
    } else if f == 0x10 {
        op_cop0(instruction)
    } else if f == 0x20 {
        op_lb(instruction)
    } else if f == 0x23 {
        op_lw(instruction)
    } else if f == 0x24 {
        op_lbu(instruction)
    } else if f == 0x28 {
        op_sb(instruction)
    } else if f == 0x29 {
        op_sh(instruction)
    } else if f == 0x2b {
        op_sw(instruction)
    } else {
        unknown()
    }
}

/// Registers `d`, `s` and `t` listed in that order, comma separated
pub open spec fn listed_registers(d: u32, s: u32, t: u32) -> Seq<char> {
    reg_name(d) + ", "@ + reg_name(s) + ", "@ + reg_name(t)
}

/// The disassembly of a register-register ALU instruction (ADD, ADDU,
/// SUBU, AND, OR, SLTU) is its mnemonic followed by the destination
/// rd (bits 15:11), then rs (bits 25:21), then rt (bits 20:16)
pub proof fn lemma_alu_operand_order(op: u32)
    requires
        ins_function(op) == 0,
    ensures
        ({
            let sub = ins_subfunction(op);
            let regs = listed_registers(ins_d(op), ins_s(op), ins_t(op));
            &&& sub == 0x20 ==> disassembly(op) == "add "@ + regs
            &&& sub == 0x21 ==> disassembly(op) == "addu "@ + regs
            &&& sub == 0x23 ==> disassembly(op) == "subu "@ + regs
            &&& sub == 0x24 ==> disassembly(op) == "and "@ + regs
            &&& sub == 0x25 ==> disassembly(op) == "or "@ + regs
            &&& sub == 0x2b ==> disassembly(op) == "sltu "@ + regs
        }),
{
    let d = reg_name(ins_d(op));
    let s = reg_name(ins_s(op));
    let t = reg_name(ins_t(op));
    let c = ", "@;
    assert(d + c + s + c + t =~= d + (c + s + c + t));
    assert(d + c + s + c + t =~= listed_registers(ins_d(op), ins_s(op), ins_t(op)));
    assert forall|m: Seq<char>| #![auto] m + d + c + s + c + t =~= m + listed_registers(
        ins_d(op),
        ins_s(op),
        ins_t(op),
    ) by {}
}

/// A sequence starts with `p` when followed by anything
proof fn lemma_prefix_of_concat(p: Seq<char>, q: Seq<char>)
    ensures
        p.is_prefix_of(p + q),
{
    assert((p + q).subrange(0, p.len() as int) =~= p);
}

/// The disassembly of an immediate ALU instruction (ADDI, ADDIU, SLTI,
/// SLTIU, ANDI, ORI) starts with its mnemonic, the target register rt
/// (bits 20:16), then the source register rs (bits 25:21); that of BEQ
/// and BNE lists rs, then rt
pub proof fn lemma_imm_operand_order(op: u32)
    ensures
        ({
            let f = ins_function(op);
            let ts = reg_name(ins_t(op)) + ", "@ + reg_name(ins_s(op));
            let st = reg_name(ins_s(op)) + ", "@ + reg_name(ins_t(op));
            &&& f == 0x08 ==> ("addi "@ + ts).is_prefix_of(disassembly(op))
            &&& f == 0x09 ==> ("addiu "@ + ts).is_prefix_of(disassembly(op))
            &&& f == 0x0a ==> ("slti "@ + ts).is_prefix_of(disassembly(op))
            &&& f == 0x0b ==> ("sltiu "@ + ts).is_prefix_of(disassembly(op))
            &&& f == 0x0c ==> ("andi "@ + ts).is_prefix_of(disassembly(op))
            &&& f == 0x0d ==> ("ori "@ + ts).is_prefix_of(disassembly(op))
            &&& f == 0x04 ==> ("beq "@ + st).is_prefix_of(disassembly(op))
            &&& f == 0x05 ==> ("bne "@ + st).is_prefix_of(disassembly(op))
        }),
{
    let f = ins_function(op);
    let t = reg_name(ins_t(op));
    let s = reg_name(ins_s(op));
    let c = ", "@;
    if f == 0x08 {
        lemma_prefix_shape("addi "@, t, c, s, ", 0x"@ + hex_min(ins_imm_se(op) as nat));
    } else if f == 0x09 {
        lemma_prefix_shape("addiu "@, t, c, s, ", 0x"@ + hex_min(ins_imm_se(op) as nat));
    } else if f == 0x0a {
        lemma_prefix_shape("slti "@, t, c, s, c + dec_signed((ins_imm_se(op) as i32) as int));
        assert("slti "@ + t + c + s + c + dec_signed((ins_imm_se(op) as i32) as int) =~= "slti "@ + t
            + c + s + (c + dec_signed((ins_imm_se(op) as i32) as int)));
    } else if f == 0x0b {
        lemma_prefix_shape("sltiu "@, t, c, s, ", 0x"@ + hex_min(ins_imm_se(op) as nat));
    } else if f == 0x0c {
        lemma_prefix_shape("andi "@, t, c, s, ", 0x"@ + hex_min(ins_imm(op) as nat));
    } else if f == 0x0d {
        lemma_prefix_shape("ori "@, t, c, s, ", 0x"@ + hex_min(ins_imm(op) as nat));
    } else if f == 0x04 || f == 0x05 {
        let m: Seq<char> = if f == 0x04 {
            "beq "@
        } else {
            "bne "@
        };
        let tail = c + dec_signed(((ins_imm_se(op) << 2u32) as i32) as int);
        lemma_prefix_shape(m, s, c, t, tail);
        assert(m + s + c + t + c + dec_signed(((ins_imm_se(op) << 2u32) as i32) as int) =~= m + s + c
            + t + tail);
    }
}

/// `m + a + c + b` starts `m + a + c + b + x`, and `m + (a + c + b)` is
/// the same sequence
proof fn lemma_prefix_shape(m: Seq<char>, a: Seq<char>, c: Seq<char>, b: Seq<char>, x: Seq<char>)
    ensures
        (m + (a + c + b)).is_prefix_of(m + a + c + b + x),
{
    assert(m + (a + c + b) =~= m + a + c + b);
    lemma_prefix_of_concat(m + a + c + b, x);
}

/// The disassembly of the shifts by a constant (SLL, SRL, SRA) starts
/// with the mnemonic, rd, then the shifted register rt; JALR lists rd
/// then rs; DIV and DIVU list rs then rt; JR names rs
pub proof fn lemma_other_operand_order(op: u32)
    requires
        ins_function(op) == 0,
    ensures
        ({
            let sub = ins_subfunction(op);
            let dt = reg_name(ins_d(op)) + ", "@ + reg_name(ins_t(op));
            &&& sub == 0x00 ==> ("sll "@ + dt).is_prefix_of(disassembly(op))
            &&& sub == 0x02 ==> ("srl "@ + dt).is_prefix_of(disassembly(op))
            &&& sub == 0x03 ==> ("sra "@ + dt).is_prefix_of(disassembly(op))
            &&& sub == 0x08 ==> disassembly(op) == "jr "@ + reg_name(ins_s(op))
            &&& sub == 0x09 ==> disassembly(op) == "jalr "@ + (reg_name(ins_d(op)) + ", "@ + reg_name(
                ins_s(op),
            ))
            &&& sub == 0x1a ==> disassembly(op) == "div "@ + (reg_name(ins_s(op)) + ", "@ + reg_name(
                ins_t(op),
            ))
            &&& sub == 0x1b ==> disassembly(op) == "divu "@ + (reg_name(ins_s(op)) + ", "@ + reg_name(
                ins_t(op),
            ))
        }),
{
    let sub = ins_subfunction(op);
    let d = reg_name(ins_d(op));
    let t = reg_name(ins_t(op));
    let s = reg_name(ins_s(op));
    let c = ", "@;
    if sub == 0x00 {
        lemma_prefix_shape("sll "@, d, c, t, " << "@ + dec_digits(ins_shift(op) as nat));
    } else if sub == 0x02 {
        lemma_prefix_shape("srl "@, d, c, t, " >> "@ + dec_digits(ins_shift(op) as nat));
    } else if sub == 0x03 {
        lemma_prefix_shape("sra "@, d, c, t, " >> "@ + dec_digits(ins_shift(op) as nat));
    } else if sub == 0x09 {
        assert("jalr "@ + d + c + s =~= "jalr "@ + (d + c + s));
    } else if sub == 0x1a {
        assert("div "@ + s + c + t =~= "div "@ + (s + c + t));
    } else if sub == 0x1b {
        assert("divu "@ + s + c + t =~= "divu "@ + (s + c + t));
    }
}

} // verus!
