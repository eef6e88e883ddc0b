//! MIPS R3000A CPU

pub mod disasm;
pub mod cop0;
pub mod gte;

use vstd::prelude::*;

use crate::memory::{AccessWidth, Byte, HalfWord, Word};
use crate::cdrom::model::CdError;
use crate::memory::interconnect::{Interconnect, in_region, loaded, stored, load_failed, store_failed};
use crate::memory::timers::MAX_DATE;
use crate::shared::SharedState;

verus! {

/// Bits [31:26] of an instruction
pub open spec fn ins_function(op: u32) -> u32 {
    op >> 26u32
}

/// Bits [5:0] of an instruction
pub open spec fn ins_subfunction(op: u32) -> u32 {
    op & 0x3f
}

/// Coprocessor opcode in bits [25:21]
pub open spec fn ins_cop_opcode(op: u32) -> u32 {
    (op >> 21u32) & 0x1f
}

/// Register index in bits [25:21]
pub open spec fn ins_s(op: u32) -> u32 {
    (op >> 21u32) & 0x1f
}

/// Register index in bits [20:16]
pub open spec fn ins_t(op: u32) -> u32 {
    (op >> 16u32) & 0x1f
}

/// Register index in bits [15:11]
pub open spec fn ins_d(op: u32) -> u32 {
    (op >> 11u32) & 0x1f
}

/// Immediate value in bits [15:0]
pub open spec fn ins_imm(op: u32) -> u32 {
    op & 0xffff
}

/// Immediate value in bits [15:0], sign-extended to 32 bits
pub open spec fn ins_imm_se(op: u32) -> u32 {
    ((op & 0xffff) as i16) as u32
}

/// Shift amount in bits [10:6]
pub open spec fn ins_shift(op: u32) -> u32 {
    (op >> 6u32) & 0x1f
}

/// Jump target in bits [25:0]
pub open spec fn ins_imm_jump(op: u32) -> u32 {
    op & 0x3ffffff
}

/// A machine instruction
#[derive(Clone, Copy)]
pub struct Instruction(pub u32);

/// Index of a general purpose register
#[derive(Clone, Copy)]
pub struct RegisterIndex(pub u32);

impl Instruction {
    /// Return bits [31:26] of the instruction
    pub fn function(self) -> (r: u32)
        ensures
            r == ins_function(self.0),
    {
        self.0 >> 26
    }

    /// Return bits [5:0] of the instruction
    pub fn subfunction(self) -> (r: u32)
        ensures
            r == ins_subfunction(self.0),
    {
        self.0 & 0x3f
    }

    /// Return coprocessor opcode in bits [25:21]
    pub fn cop_opcode(self) -> (r: u32)
        ensures
            r == ins_cop_opcode(self.0),
    {
        (self.0 >> 21) & 0x1f
    }

    /// Return register index in bits [25:21]
    pub fn s(self) -> (r: RegisterIndex)
        ensures
            r.0 == ins_s(self.0),
            r.0 < 32,
    {
        let op = self.0;
        let v = (op >> 21) & 0x1f;
        assert(v < 32) by {
            lemma_field_bits(op, 0);
        }
        RegisterIndex(v)
    }

    /// Return register index in bits [20:16]
    pub fn t(self) -> (r: RegisterIndex)
        ensures
            r.0 == ins_t(self.0),
            r.0 < 32,
    {
        let op = self.0;
        let v = (op >> 16) & 0x1f;
        assert(v < 32) by {
            lemma_field_bits(op, 0);
        }
        RegisterIndex(v)
    }

    /// Return register index in bits [15:11]
    pub fn d(self) -> (r: RegisterIndex)
        ensures
            r.0 == ins_d(self.0),
            r.0 < 32,
    {
        let op = self.0;
        let v = (op >> 11) & 0x1f;
        assert(v < 32) by {
            lemma_field_bits(op, 0);
        }
        RegisterIndex(v)
    }

    /// Return immediate value in bits [16:0]
    pub fn imm(self) -> (r: u32)
        ensures
            r == ins_imm(self.0),
    {
        self.0 & 0xffff
    }

    /// Return immediate value in bits [16:0] as a sign-extended 32bit
    /// value
    pub fn imm_se(self) -> (r: u32)
        ensures
            r == ins_imm_se(self.0),
    {
        let v = (self.0 & 0xffff) as i16;
        v as u32
    }

    /// Shift Immediate values are stored in bits [10:6]
    pub fn shift(self) -> (r: u32)
        ensures
            r == ins_shift(self.0),
            r < 32,
    {
        let op = self.0;
        let v = (op >> 6) & 0x1f;
        assert(v < 32) by {
            lemma_field_bits(op, 0);
        }
        v
    }

    /// Jump target stored in bits [25:0]
    pub fn imm_jump(self) -> (r: u32)
        ensures
            r == ins_imm_jump(self.0),
    {
        self.0 & 0x3ffffff
    }
}

/// Register file after writing `val` to register `index`: register 0
/// always stays 0
pub open spec fn set_out(out: Seq<u32>, index: u32, val: u32) -> Seq<u32> {
    out.update(index as int, val).update(0, 0)
}

/// Branch to immediate value `offset` (in words) relative to the
/// address of the delay slot `pc`
pub open spec fn branch_target(pc: u32, offset: u32) -> u32 {
    pc.wrapping_add(offset << 2u32).wrapping_sub(4)
}

/// `op` is a load from memory: LB, LW or LBU
pub open spec fn is_mem_load(op: u32) -> bool {
    let f = ins_function(op);
    f == 0x20 || f == 0x23 || f == 0x24
}

/// `op` is a store to memory: SB, SH or SW
pub open spec fn is_mem_store(op: u32) -> bool {
    let f = ins_function(op);
    f == 0x28 || f == 0x29 || f == 0x2b
}

/// Width of the memory access made by `op`
pub open spec fn mem_width(op: u32) -> AccessWidth {
    let f = ins_function(op);
    if f == 0x20 || f == 0x24 || f == 0x28 {
        AccessWidth::Byte
    } else if f == 0x29 {
        AccessWidth::HalfWord
    } else {
        AccessWidth::Word
    }
}

/// Address of the memory access made by `op`
pub open spec fn mem_addr(op: u32, regs: Seq<u32>) -> u32 {
    regs[ins_s(op) as int].wrapping_add(ins_imm_se(op))
}

/// The cache is isolated: stores do not reach the memory
pub open spec fn cache_isolated(sr: u32) -> bool {
    sr & 0x10000 != 0
}

/// Value of a load delay slot entry for a byte load of `b`: sign
/// extended for LB
pub open spec fn sext8(b: u32) -> u32 {
    ((b & 0xff) as u8 as i8) as u32
}

/// Instructions the emulator implements, with the register values
/// and coprocessor registers for which they do not fault
pub open spec fn instruction_supported(op: u32, regs: Seq<u32>) -> bool {
    let f = ins_function(op);
    let s = regs[ins_s(op) as int];
    let t = regs[ins_t(op) as int];
    if f == 0 {
        let sub = ins_subfunction(op);
        ||| sub == 0x00 || sub == 0x08 || sub == 0x09 || sub == 0x21 || sub == 0x24
            || sub == 0x25 || sub == 0x2b
        // ADD traps on overflow
        ||| sub == 0x20 && i32::MIN <= (s as i32) + (t as i32) <= i32::MAX
    } else if f == 0x08 {
        // ADDI traps on overflow
        i32::MIN <= (s as i32) + (ins_imm_se(op) as i32) <= i32::MAX
    } else if f == 0x10 {
        let cop_r = ins_d(op);
        if ins_cop_opcode(op) == 0 {
            // MFC0: only the status register can be read
            cop_r == 12
        } else if ins_cop_opcode(op) == 4 {
            // MTC0: breakpoint and cause registers can only be cleared
            ||| cop_r == 12
            ||| (cop_r == 3 || cop_r == 5 || cop_r == 6 || cop_r == 7 || cop_r == 9 || cop_r
                == 11 || cop_r == 13) && t == 0
        } else {
            false
        }
    } else {
        ||| 0x01 <= f <= 0x07
        ||| f == 0x09 || f == 0x0a || f == 0x0c || f == 0x0d || f == 0x0f
        ||| is_mem_load(op)
        ||| is_mem_store(op)
    }
}

/// Program counter after executing `op`, `pc` being the address of
/// its delay slot
pub open spec fn step_pc(op: u32, pc: u32, regs: Seq<u32>) -> u32 {
    let f = ins_function(op);
    let s = regs[ins_s(op) as int];
    let t = regs[ins_t(op) as int];
    let imm = ins_imm_se(op);
    if f == 0 {
        let sub = ins_subfunction(op);
        if sub == 0x08 || sub == 0x09 {
            // JR, JALR
            s
        } else {
            pc
        }
    } else if f == 0x01 {
        // BGEZ, BLTZ, BGEZAL, BLTZAL
        let is_bgez = (op >> 16u32) & 1;
        let test: u32 = if (s as i32) < 0 {
            1
        } else {
            0
        };
        if test ^ is_bgez != 0 {
            branch_target(pc, imm)
        } else {
            pc
        }
    } else if f == 0x02 || f == 0x03 {
        // J, JAL
        (pc & 0xf0000000) | (ins_imm_jump(op) << 2u32)
    } else if f == 0x04 {
        if s == t {
            branch_target(pc, imm)
        } else {
            pc
        }
    } else if f == 0x05 {
        if s != t {
            branch_target(pc, imm)
        } else {
            pc
        }
    } else if f == 0x06 {
        if (s as i32) <= 0 {
            branch_target(pc, imm)
        } else {
            pc
        }
    } else if f == 0x07 {
        if (s as i32) > 0 {
            branch_target(pc, imm)
        } else {
            pc
        }
    } else {
        pc
    }
}

/// Output registers after executing `op`, `out` being their value
/// before
pub open spec fn step_out(op: u32, pc: u32, regs: Seq<u32>, out: Seq<u32>) -> Seq<u32> {
    let f = ins_function(op);
    let s = regs[ins_s(op) as int];
    let t = regs[ins_t(op) as int];
    let ti = ins_t(op);
    let d = ins_d(op);
    if f == 0 {
        let sub = ins_subfunction(op);
        if sub == 0x00 {
            set_out(out, d, t << ins_shift(op))
        } else if sub == 0x09 {
            set_out(out, d, pc)
        } else if sub == 0x20 {
            set_out(out, d, ((s as i32) + (t as i32)) as u32)
        } else if sub == 0x21 {
            set_out(out, d, s.wrapping_add(t))
        } else if sub == 0x24 {
            set_out(out, d, s & t)
        } else if sub == 0x25 {
            set_out(out, d, s | t)
        } else if sub == 0x2b {
            set_out(out, d, if s < t { 1u32 } else { 0u32 })
        } else {
            out
        }
    } else if f == 0x01 {
        let is_bgez = (op >> 16u32) & 1;
        let is_link = (op >> 20u32) & 1 != 0;
        let test: u32 = if (s as i32) < 0 {
            1
        } else {
            0
        };
        if test ^ is_bgez != 0 && is_link {
            set_out(out, 31, pc)
        } else {
            out
        }
    } else if f == 0x03 {
        set_out(out, 31, pc)
    } else if f == 0x08 {
        set_out(out, ti, ((s as i32) + (ins_imm_se(op) as i32)) as u32)
    } else if f == 0x09 {
        set_out(out, ti, s.wrapping_add(ins_imm_se(op)))
    } else if f == 0x0a {
        set_out(out, ti, if (s as i32) < (ins_imm_se(op) as i32) { 1u32 } else { 0u32 })
    } else if f == 0x0c {
        set_out(out, ti, s & ins_imm(op))
    } else if f == 0x0d {
        set_out(out, ti, s | ins_imm(op))
    } else if f == 0x0f {
        set_out(out, ti, ins_imm(op) << 16u32)
    } else {
        out
    }
}

/// Status register after executing `op`
pub open spec fn step_sr(op: u32, regs: Seq<u32>, sr: u32) -> u32 {
    if ins_function(op) == 0x10 && ins_cop_opcode(op) == 4 && ins_d(op) == 12 {
        regs[ins_t(op) as int]
    } else {
        sr
    }
}

/// Effect of a register-only instruction `op` taking CPU `o` to `n`
pub open spec fn reg_op_post(o: Cpu, n: Cpu, op: u32) -> bool {
    &&& n.pc_reg() == step_pc(op, o.pc_reg(), o.regs_view())
    &&& n.out_view() == step_out(op, o.pc_reg(), o.regs_view(), o.out_view())
    &&& n.sr_reg() == step_sr(op, o.regs_view(), o.sr_reg())
    &&& n.pending_load() == if ins_function(op) == 0x10 && ins_cop_opcode(op) == 0 {
        // MFC0: the value lands after the load delay slot
        (ins_t(op), o.sr_reg())
    } else {
        o.pending_load()
    }
    &&& n.regs_view() == o.regs_view()
    &&& n.next_op() == o.next_op()
    &&& n.inter_state() == o.inter_state()
}

/// The load or store instruction `op` run by CPU `o` with the shared
/// state `os` reaches the CDROM controller, directly or through the
/// DMA transfer it starts, which answers with the error `e`
pub open spec fn mem_op_failed(o: Cpu, os: SharedState, op: u32, e: CdError) -> bool {
    let addr = mem_addr(op, o.regs_view());
    if is_mem_load(op) {
        load_failed(o.inter_state(), os, mem_width(op), addr, e)
    } else {
        &&& is_mem_store(op)
        &&& !cache_isolated(o.sr_reg())
        &&& store_failed(o.inter_state(), os, mem_width(op), addr, o.regs_view()[ins_t(op) as int], e)
    }
}

/// Effect of a load or store instruction `op` taking CPU `o` to `n`
/// and the shared state `os` to `ns`
pub open spec fn mem_op_post(o: Cpu, n: Cpu, os: SharedState, ns: SharedState, op: u32) -> bool {
    let addr = mem_addr(op, o.regs_view());
    &&& n.pc_reg() == o.pc_reg()
    &&& n.out_view() == o.out_view()
    &&& n.sr_reg() == o.sr_reg()
    &&& n.regs_view() == o.regs_view()
    &&& n.next_op() == o.next_op()
    &&& if is_mem_load(op) {
        let v = n.pending_load().1;
        &&& n.pending_load().0 == ins_t(op)
        &&& if ins_function(op) == 0x20 {
            // LB: sign extended byte
            exists|b: u32|
                #![trigger sext8(b)]
                loaded(o.inter_state(), os, n.inter_state(), ns, AccessWidth::Byte, addr, b) && v
                    == sext8(b)
        } else {
            loaded(o.inter_state(), os, n.inter_state(), ns, mem_width(op), addr, v)
        }
    } else {
        &&& n.pending_load() == o.pending_load()
        &&& if cache_isolated(o.sr_reg()) {
            // Cache is isolated, the write is ignored
            &&& n.inter_state() == o.inter_state()
            &&& ns == os
        } else {
            stored(
                o.inter_state(),
                os,
                n.inter_state(),
                ns,
                mem_width(op),
                addr,
                o.regs_view()[ins_t(op) as int],
            )
        }
    }
}

/// The memory access made by `op` is one the interconnect supports
pub open spec fn mem_access_supported(op: u32, regs: Seq<u32>, sr: u32, inter: Interconnect, shared: SharedState) -> bool {
    let addr = mem_addr(op, regs);
    &&& shared.time().wf()
    &&& is_mem_load(op) ==> shared.time().date() + 5 <= MAX_DATE && inter.load_ok_at(
        shared,
        mem_width(op),
        addr,
    )
    &&& is_mem_store(op) && !cache_isolated(sr) ==> shared.time().date() <= MAX_DATE
        && inter.store_ok_at(shared, mem_width(op), addr, regs[ins_t(op) as int])
}

/// CPU state
pub struct Cpu {
    /// The program counter register
    pc: u32,
    /// Next instruction to be executed, used to simulate the branch
    /// delay slot
    next_instruction: Instruction,
    /// General Purpose Registers. The first entry must always contain 0
    regs: Vec<u32>,
    /// 2nd set of registers used to emulate the load delay slot
    /// accurately. They contain the output of the current
    /// instruction.
    out_regs: Vec<u32>,
    /// Memory interface
    inter: Interconnect,
    /// Cop0 register 12: Status Register
    sr: u32,
    /// Load initiated by the current instruction (will take effect
    /// after the load delay slot)
    load: (RegisterIndex, u32),
}

impl Cpu {
    pub closed spec fn pc_reg(&self) -> u32 {
        self.pc
    }

    /// Instruction in the pipeline, executed by the next step
    pub closed spec fn next_op(&self) -> u32 {
        self.next_instruction.0
    }

    pub closed spec fn regs_view(&self) -> Seq<u32> {
        self.regs@
    }

    pub closed spec fn out_view(&self) -> Seq<u32> {
        self.out_regs@
    }

    pub closed spec fn inter_state(&self) -> Interconnect {
        self.inter
    }

    pub closed spec fn sr_reg(&self) -> u32 {
        self.sr
    }

    /// Pending load: target register and value
    pub closed spec fn pending_load(&self) -> (u32, u32) {
        (self.load.0.0, self.load.1)
    }

    /// 32 registers, R0 hardwired to 0, no instruction output pending
    pub open spec fn wf(&self) -> bool {
        &&& self.regs_view().len() == 32
        &&& self.out_view() == self.regs_view()
        &&& self.regs_view()[0] == 0
        &&& self.pending_load().0 < 32
        &&& self.inter_state().wf()
    }

    /// State in which an instruction can execute: 32 registers and
    /// output registers with R0 reading 0
    pub open spec fn exec_ready(&self) -> bool {
        &&& self.regs_view().len() == 32
        &&& self.out_view().len() == 32
        &&& self.regs_view()[0] == 0
        &&& self.pending_load().0 < 32
        &&& self.inter_state().wf()
    }

    /// Register file seen by the next instruction once the pending
    /// load has landed
    pub open spec fn landed(&self) -> Seq<u32> {
        set_out(self.out_view(), self.pending_load().0, self.pending_load().1)
    }

    pub fn new(inter: Interconnect) -> (c: Cpu)
        requires
            inter.wf(),
        ensures
            c.wf(),
            // PC reset value at the beginning of the BIOS
            c.pc_reg() == 0xbfc00000,
            // Start execution with a NOP while the real first
            // instruction is fetched.
            c.next_op() == 0,
            c.sr_reg() == 0,
            c.pending_load() == (0u32, 0u32),
            c.inter_state() == inter,
            // Not sure what the reset values are... but R0 is
            // hardwired to 0
            c.regs_view()[0] == 0,
            forall|i: int| 1 <= i < 32 ==> #[trigger] c.regs_view()[i] == 0xdeadbeef,
    {
        let mut regs: Vec<u32> = Vec::new();
        regs.push(0);
        let mut i: usize = 1;
        while i < 32
            invariant
                1 <= i <= 32,
                regs@.len() == i,
                regs@[0] == 0,
                forall|j: int| 1 <= j < i ==> #[trigger] regs@[j] == 0xdeadbeef,
            decreases 32 - i,
        {
            regs.push(0xdeadbeef);
            i += 1;
        }
        let out_regs = regs.clone();
        assert(out_regs@ == regs@);
        Cpu {
            pc: 0xbfc00000,
            next_instruction: Instruction(0x0),
            regs: regs,
            out_regs: out_regs,
            inter: inter,
            sr: 0,
            load: (RegisterIndex(0), 0),
        }
    }

    /// The interconnect
    pub fn interconnect(&self) -> (i: &Interconnect)
        ensures
            *i == self.inter_state(),
    {
        &self.inter
    }

    /// The interconnect, for the frontend to reach the peripherals
    pub fn interconnect_mut(&mut self) -> (i: &mut Interconnect)
        ensures
            *i == old(self).inter_state(),
            final(self).inter_state() == *final(i),
            final(self).pc_reg() == old(self).pc_reg(),
            final(self).next_op() == old(self).next_op(),
            final(self).regs_view() == old(self).regs_view(),
            final(self).out_view() == old(self).out_view(),
            final(self).sr_reg() == old(self).sr_reg(),
            final(self).pending_load() == old(self).pending_load(),
    {
        &mut self.inter
    }

    fn reg(&self, index: RegisterIndex) -> (r: u32)
        requires
            self.regs_view().len() == 32,
            index.0 < 32,
        ensures
            r == self.regs_view()[index.0 as int],
    {
        self.regs[index.0 as usize]
    }

    fn set_reg(&mut self, index: RegisterIndex, val: u32)
        requires
            old(self).out_view().len() == 32,
            index.0 < 32,
        ensures
            final(self).out_view() == set_out(old(self).out_view(), index.0, val),
            final(self).regs_view() == old(self).regs_view(),
            final(self).pc_reg() == old(self).pc_reg(),
            final(self).next_op() == old(self).next_op(),
            final(self).sr_reg() == old(self).sr_reg(),
            final(self).pending_load() == old(self).pending_load(),
            final(self).inter_state() == old(self).inter_state(),
    {
        self.out_regs.set(index.0 as usize, val);
        // Make sure R0 is always 0
        self.out_regs.set(0, 0);
    }

    /// Shift Left Logical
    fn op_sll(&mut self, instruction: Instruction)
        requires
            old(self).regs_view().len() == 32,
            old(self).out_view().len() == 32,
            ins_function(instruction.0) == 0 && ins_subfunction(instruction.0) == 0,
            instruction_supported(instruction.0, old(self).regs_view()),
        ensures
            reg_op_post(*old(self), *final(self), instruction.0),
    {
        let i = instruction.shift();
        let t = instruction.t();
        let d = instruction.d();
        let v = self.reg(t) << i;
        self.set_reg(d, v);
    }

    /// Various branch instructions: BGEZ, BLTZ, BGEZAL, BLTZAL. Bits
    /// 16 and 20 are used to figure out which one to use
    fn op_bxx(&mut self, instruction: Instruction)
        requires
            old(self).regs_view().len() == 32,
            old(self).out_view().len() == 32,
            ins_function(instruction.0) == 1,
            instruction_supported(instruction.0, old(self).regs_view()),
        ensures
            reg_op_post(*old(self), *final(self), instruction.0),
    {
        let i = instruction.imm_se();
        let s = instruction.s();
        let op = instruction.0;
        let is_bgez = (op >> 16) & 1;
        let is_link = (op >> 20) & 1 != 0;
        let v = self.reg(s) as i32;
        // Test "less than zero"
        let test: u32 = if v < 0 { 1 } else { 0 };
        // If the test is "greater than or equal to zero" we need to
        // negate the comparison above ("a >= 0" <=> "!(a < 0)"). The
        // xor takes care of that.
        let test = test ^ is_bgez;
        if test != 0 {
            if is_link {
                let ra = self.pc;
                // Store return address in R31
                self.set_reg(RegisterIndex(31), ra);
            }
            self.branch(i);
        }
    }

    /// Jump Register
    fn op_jr(&mut self, instruction: Instruction)
        requires
            old(self).regs_view().len() == 32,
            old(self).out_view().len() == 32,
            ins_function(instruction.0) == 0 && ins_subfunction(instruction.0) == 0x08,
            instruction_supported(instruction.0, old(self).regs_view()),
        ensures
            reg_op_post(*old(self), *final(self), instruction.0),
    {
        let s = instruction.s();
        self.pc = self.reg(s);
    }

    /// Jump And Link Register
    fn op_jalr(&mut self, instruction: Instruction)
        requires
            old(self).regs_view().len() == 32,
            old(self).out_view().len() == 32,
            ins_function(instruction.0) == 0 && ins_subfunction(instruction.0) == 0x09,
            instruction_supported(instruction.0, old(self).regs_view()),
        ensures
            reg_op_post(*old(self), *final(self), instruction.0),
    {
        let d = instruction.d();
        let s = instruction.s();
        let ra = self.pc;
        // Store return address in `d`
        self.set_reg(d, ra);
        self.pc = self.reg(s);
    }

    /// Add and generate an exception on overflow
    fn op_add(&mut self, instruction: Instruction)
        requires
            old(self).regs_view().len() == 32,
            old(self).out_view().len() == 32,
            ins_function(instruction.0) == 0 && ins_subfunction(instruction.0) == 0x20,
            instruction_supported(instruction.0, old(self).regs_view()),
        ensures
            reg_op_post(*old(self), *final(self), instruction.0),
    {
        let s = instruction.s();
        let t = instruction.t();
        let d = instruction.d();
        let s = self.reg(s) as i32;
        let t = self.reg(t) as i32;
        // The precondition rules out the overflow exception
        let v = (s + t) as u32;
        self.set_reg(d, v);
    }

    /// Add Unsigned
    fn op_addu(&mut self, instruction: Instruction)
        requires
            old(self).regs_view().len() == 32,
            old(self).out_view().len() == 32,
            ins_function(instruction.0) == 0 && ins_subfunction(instruction.0) == 0x21,
            instruction_supported(instruction.0, old(self).regs_view()),
        ensures
            reg_op_post(*old(self), *final(self), instruction.0),
    {
        let s = instruction.s();
        let t = instruction.t();
        let d = instruction.d();
        let v = self.reg(s).wrapping_add(self.reg(t));
        self.set_reg(d, v);
    }

    /// Bitwise And
    fn op_and(&mut self, instruction: Instruction)
        requires
            old(self).regs_view().len() == 32,
            old(self).out_view().len() == 32,
            ins_function(instruction.0) == 0 && ins_subfunction(instruction.0) == 0x24,
            instruction_supported(instruction.0, old(self).regs_view()),
        ensures
            reg_op_post(*old(self), *final(self), instruction.0),
    {
        let d = instruction.d();
        let s = instruction.s();
        let t = instruction.t();
        let v = self.reg(s) & self.reg(t);
        self.set_reg(d, v);
    }

    /// Bitwise Or
    fn op_or(&mut self, instruction: Instruction)
        requires
            old(self).regs_view().len() == 32,
            old(self).out_view().len() == 32,
            ins_function(instruction.0) == 0 && ins_subfunction(instruction.0) == 0x25,
            instruction_supported(instruction.0, old(self).regs_view()),
        ensures
            reg_op_post(*old(self), *final(self), instruction.0),
    {
        let d = instruction.d();
        let s = instruction.s();
        let t = instruction.t();
        let v = self.reg(s) | self.reg(t);
        self.set_reg(d, v);
    }

    /// Set on Less Than Unsigned
    fn op_sltu(&mut self, instruction: Instruction)
        requires
            old(self).regs_view().len() == 32,
            old(self).out_view().len() == 32,
            ins_function(instruction.0) == 0 && ins_subfunction(instruction.0) == 0x2b,
            instruction_supported(instruction.0, old(self).regs_view()),
        ensures
            reg_op_post(*old(self), *final(self), instruction.0),
    {
        let d = instruction.d();
        let s = instruction.s();
        let t = instruction.t();
        let v: u32 = if self.reg(s) < self.reg(t) { 1 } else { 0 };
        self.set_reg(d, v);
    }

    /// Jump And Link
    fn op_jal(&mut self, instruction: Instruction)
        requires
            old(self).regs_view().len() == 32,
            old(self).out_view().len() == 32,
            ins_function(instruction.0) == 3,
            instruction_supported(instruction.0, old(self).regs_view()),
        ensures
            reg_op_post(*old(self), *final(self), instruction.0),
    {
        let ra = self.pc;
        // Store return address in R31
        self.set_reg(RegisterIndex(31), ra);
        self.op_j(instruction);
    }

    /// Branch if Equal
    fn op_beq(&mut self, instruction: Instruction)
        requires
            old(self).regs_view().len() == 32,
            old(self).out_view().len() == 32,
            ins_function(instruction.0) == 4,
            instruction_supported(instruction.0, old(self).regs_view()),
        ensures
            reg_op_post(*old(self), *final(self), instruction.0),
    {
        let i = instruction.imm_se();
        let s = instruction.s();
        let t = instruction.t();
        if self.reg(s) == self.reg(t) {
            self.branch(i);
        }
    }

    /// Branch if Not Equal
    fn op_bne(&mut self, instruction: Instruction)
        requires
            old(self).regs_view().len() == 32,
            old(self).out_view().len() == 32,
            ins_function(instruction.0) == 5,
            instruction_supported(instruction.0, old(self).regs_view()),
        ensures
            reg_op_post(*old(self), *final(self), instruction.0),
    {
        let i = instruction.imm_se();
        let s = instruction.s();
        let t = instruction.t();
        if self.reg(s) != self.reg(t) {
            self.branch(i);
        }
    }

    /// Branch if Less than or Equal to Zero
    fn op_blez(&mut self, instruction: Instruction)
        requires
            old(self).regs_view().len() == 32,
            old(self).out_view().len() == 32,
            ins_function(instruction.0) == 6,
            instruction_supported(instruction.0, old(self).regs_view()),
        ensures
            reg_op_post(*old(self), *final(self), instruction.0),
    {
        let i = instruction.imm_se();
        let s = instruction.s();
        let v = self.reg(s) as i32;
        if v <= 0 {
            self.branch(i);
        }
    }

    /// Branch if Greater Than Zero
    fn op_bgtz(&mut self, instruction: Instruction)
        requires
            old(self).regs_view().len() == 32,
            old(self).out_view().len() == 32,
            ins_function(instruction.0) == 7,
            instruction_supported(instruction.0, old(self).regs_view()),
        ensures
            reg_op_post(*old(self), *final(self), instruction.0),
    {
        let i = instruction.imm_se();
        let s = instruction.s();
        let v = self.reg(s) as i32;
        if v > 0 {
            self.branch(i);
        }
    }

    /// Add Immediate and check for overflow
    fn op_addi(&mut self, instruction: Instruction)
        requires
            old(self).regs_view().len() == 32,
            old(self).out_view().len() == 32,
            ins_function(instruction.0) == 8,
            instruction_supported(instruction.0, old(self).regs_view()),
        ensures
            reg_op_post(*old(self), *final(self), instruction.0),
    {
        let i = instruction.imm_se() as i32;
        let t = instruction.t();
        let s = instruction.s();
        let s = self.reg(s) as i32;
        // The precondition rules out the overflow exception
        let v = (s + i) as u32;
        self.set_reg(t, v);
    }

    /// Add Immediate Unsigned
    fn op_addiu(&mut self, instruction: Instruction)
        requires
            old(self).regs_view().len() == 32,
            old(self).out_view().len() == 32,
            ins_function(instruction.0) == 9,
            instruction_supported(instruction.0, old(self).regs_view()),
        ensures
            reg_op_post(*old(self), *final(self), instruction.0),
    {
        let i = instruction.imm_se();
        let t = instruction.t();
        let s = instruction.s();
        let v = self.reg(s).wrapping_add(i);
        self.set_reg(t, v);
    }

    /// Set if Less Than Immediate (signed)
    fn op_slti(&mut self, instruction: Instruction)
        requires
            old(self).regs_view().len() == 32,
            old(self).out_view().len() == 32,
            ins_function(instruction.0) == 0x0a,
            instruction_supported(instruction.0, old(self).regs_view()),
        ensures
            reg_op_post(*old(self), *final(self), instruction.0),
    {
        let i = instruction.imm_se() as i32;
        let s = instruction.s();
        let t = instruction.t();
        let v: u32 = if (self.reg(s) as i32) < i { 1 } else { 0 };
        self.set_reg(t, v);
    }

    /// Bitwise And Immediate
    fn op_andi(&mut self, instruction: Instruction)
        requires
            old(self).regs_view().len() == 32,
            old(self).out_view().len() == 32,
            ins_function(instruction.0) == 0x0c,
            instruction_supported(instruction.0, old(self).regs_view()),
        ensures
            reg_op_post(*old(self), *final(self), instruction.0),
    {
        let i = instruction.imm();
        let t = instruction.t();
        let s = instruction.s();
        let v = self.reg(s) & i;
        self.set_reg(t, v);
    }

    /// Bitwise Or Immediate
    fn op_ori(&mut self, instruction: Instruction)
        requires
            old(self).regs_view().len() == 32,
            old(self).out_view().len() == 32,
            ins_function(instruction.0) == 0x0d,
            instruction_supported(instruction.0, old(self).regs_view()),
        ensures
            reg_op_post(*old(self), *final(self), instruction.0),
    {
        let i = instruction.imm();
        let t = instruction.t();
        let s = instruction.s();
        let v = self.reg(s) | i;
        self.set_reg(t, v);
    }

    /// Load Upper Immediate
    fn op_lui(&mut self, instruction: Instruction)
        requires
            old(self).regs_view().len() == 32,
            old(self).out_view().len() == 32,
            ins_function(instruction.0) == 0x0f,
            instruction_supported(instruction.0, old(self).regs_view()),
        ensures
            reg_op_post(*old(self), *final(self), instruction.0),
    {
        let i = instruction.imm();
        let t = instruction.t();
        // Low 16bits are set to 0
        let v = i << 16;
        self.set_reg(t, v);
    }

    /// Coprocessor 0 opcode
    fn op_cop0(&mut self, instruction: Instruction)
        requires
            old(self).regs_view().len() == 32,
            old(self).out_view().len() == 32,
            ins_function(instruction.0) == 0x10,
            instruction_supported(instruction.0, old(self).regs_view()),
        ensures
            reg_op_post(*old(self), *final(self), instruction.0),
    {
        if instruction.cop_opcode() == 0 {
            self.op_mfc0(instruction);
        } else {
            self.op_mtc0(instruction);
        }
    }

    /// Move From Coprocessor 0
    fn op_mfc0(&mut self, instruction: Instruction)
        requires
            old(self).regs_view().len() == 32,
            old(self).out_view().len() == 32,
            ins_function(instruction.0) == 0x10 && ins_cop_opcode(instruction.0) == 0,
            instruction_supported(instruction.0, old(self).regs_view()),
        ensures
            reg_op_post(*old(self), *final(self), instruction.0),
    {
        let cpu_r = instruction.t();
        // Only the status register is readable
        let v = self.sr;
        self.load = (cpu_r, v);
    }

    /// Move To Coprocessor 0
    fn op_mtc0(&mut self, instruction: Instruction)
        requires
            old(self).regs_view().len() == 32,
            old(self).out_view().len() == 32,
            ins_function(instruction.0) == 0x10 && ins_cop_opcode(instruction.0) == 4,
            instruction_supported(instruction.0, old(self).regs_view()),
        ensures
            reg_op_post(*old(self), *final(self), instruction.0),
    {
        let cpu_r = instruction.t();
        let cop_r = instruction.d().0;
        let v = self.reg(cpu_r);
        // Writes to the breakpoint and cause registers can only clear
        // them and are ignored
        if cop_r == 12 {
            self.sr = v;
        }
    }

    /// Jump
    fn op_j(&mut self, instruction: Instruction)
        requires
            ins_function(instruction.0) == 2 || ins_function(instruction.0) == 3,
        ensures
            final(self).pc_reg() == (old(self).pc_reg() & 0xf0000000) | (ins_imm_jump(instruction.0)
                << 2u32),
            final(self).out_view() == old(self).out_view(),
            final(self).regs_view() == old(self).regs_view(),
            final(self).sr_reg() == old(self).sr_reg(),
            final(self).pending_load() == old(self).pending_load(),
            final(self).next_op() == old(self).next_op(),
            final(self).inter_state() == old(self).inter_state(),
    {
        let i = instruction.imm_jump();
        self.pc = (self.pc & 0xf0000000) | (i << 2);
    }

    /// Branch to immediate value `offset`.
    fn branch(&mut self, offset: u32)
        ensures
            final(self).pc_reg() == branch_target(old(self).pc_reg(), offset),
            final(self).out_view() == old(self).out_view(),
            final(self).regs_view() == old(self).regs_view(),
            final(self).sr_reg() == old(self).sr_reg(),
            final(self).pending_load() == old(self).pending_load(),
            final(self).next_op() == old(self).next_op(),
            final(self).inter_state() == old(self).inter_state(),
    {
        // Offset immediates are always shifted two places to the
        // right since `PC` addresses have to be aligned on 32bits at
        // all times.
        let offset = offset << 2;
        let mut pc = self.pc;
        pc = pc.wrapping_add(offset);
        // We need to compensate for the hardcoded
        // `pc.wrapping_add(4)` in `run_next_instruction`
        pc = pc.wrapping_sub(4);
        self.pc = pc;
    }

    /// Load Byte (signed)
    fn op_lb(&mut self, shared: &mut SharedState, instruction: Instruction) -> (r: Result<(), CdError>)
        requires
            old(self).exec_ready(),
            ins_function(instruction.0) == 0x20,
            mem_access_supported(
                instruction.0,
                old(self).regs_view(),
                old(self).sr_reg(),
                old(self).inter_state(),
                *old(shared),
            ),
        ensures
            match r {
                Ok(_) => final(self).inter_state().wf() && final(self).pending_load().0 < 32
                    && mem_op_post(*old(self), *final(self), *old(shared), *final(shared), instruction.0),
                Err(e) => mem_op_failed(*old(self), *old(shared), instruction.0, e),
            },
    {
        let i = instruction.imm_se();
        let t = instruction.t();
        let s = instruction.s();
        let addr = self.reg(s).wrapping_add(i);
        let b = match self.inter.load::<Byte>(shared, addr) {
            Ok(b) => b,
            Err(e) => return Err(e),
        };
        // Cast as i8 to force sign extension
        let v = (b as u8) as i8;
        // Put the load in the delay slot
        self.load = (t, v as u32);
        proof {
            let w = v as u32;
            assert(w == ((b & 0xff) as u8 as i8) as u32) by {
                lemma_field_bits(0, b);
            }
            assert(w == sext8(b));
        }
        Ok(())
    }

    /// Load Word
    fn op_lw(&mut self, shared: &mut SharedState, instruction: Instruction) -> (r: Result<(), CdError>)
        requires
            old(self).exec_ready(),
            ins_function(instruction.0) == 0x23,
            mem_access_supported(
                instruction.0,
                old(self).regs_view(),
                old(self).sr_reg(),
                old(self).inter_state(),
                *old(shared),
            ),
        ensures
            match r {
                Ok(_) => final(self).inter_state().wf() && final(self).pending_load().0 < 32
                    && mem_op_post(*old(self), *final(self), *old(shared), *final(shared), instruction.0),
                Err(e) => mem_op_failed(*old(self), *old(shared), instruction.0, e),
            },
    {
        let i = instruction.imm_se();
        let t = instruction.t();
        let s = instruction.s();
        let addr = self.reg(s).wrapping_add(i);
        let v = match self.inter.load::<Word>(shared, addr) {
            Ok(v) => v,
            Err(e) => return Err(e),
        };
        // Put the load in the delay slot
        self.load = (t, v);
        Ok(())
    }

    /// Load Byte Unsigned
    fn op_lbu(&mut self, shared: &mut SharedState, instruction: Instruction) -> (r: Result<(), CdError>)
        requires
            old(self).exec_ready(),
            ins_function(instruction.0) == 0x24,
            mem_access_supported(
                instruction.0,
                old(self).regs_view(),
                old(self).sr_reg(),
                old(self).inter_state(),
                *old(shared),
            ),
        ensures
            match r {
                Ok(_) => final(self).inter_state().wf() && final(self).pending_load().0 < 32
                    && mem_op_post(*old(self), *final(self), *old(shared), *final(shared), instruction.0),
                Err(e) => mem_op_failed(*old(self), *old(shared), instruction.0, e),
            },
    {
        let i = instruction.imm_se();
        let t = instruction.t();
        let s = instruction.s();
        let addr = self.reg(s).wrapping_add(i);
        let v = match self.inter.load::<Byte>(shared, addr) {
            Ok(v) => v,
            Err(e) => return Err(e),
        };
        // Put the load in the delay slot
        self.load = (t, v);
        Ok(())
    }

    /// Store Byte
    fn op_sb(&mut self, shared: &mut SharedState, instruction: Instruction) -> (r: Result<(), CdError>)
        requires
            old(self).exec_ready(),
            ins_function(instruction.0) == 0x28,
            mem_access_supported(
                instruction.0,
                old(self).regs_view(),
                old(self).sr_reg(),
                old(self).inter_state(),
                *old(shared),
            ),
        ensures
            match r {
                Ok(_) => final(self).inter_state().wf() && final(self).pending_load().0 < 32
                    && mem_op_post(*old(self), *final(self), *old(shared), *final(shared), instruction.0),
                Err(e) => mem_op_failed(*old(self), *old(shared), instruction.0, e),
            },
    {
        if self.sr & 0x10000 != 0 {
            // Cache is isolated, ignore write
            return Ok(());
        }
        let i = instruction.imm_se();
        let t = instruction.t();
        let s = instruction.s();
        let addr = self.reg(s).wrapping_add(i);
        let v = self.reg(t);
        self.inter.store::<Byte>(shared, addr, v)
    }

    /// Store Halfword
    fn op_sh(&mut self, shared: &mut SharedState, instruction: Instruction) -> (r: Result<(), CdError>)
        requires
            old(self).exec_ready(),
            ins_function(instruction.0) == 0x29,
            mem_access_supported(
                instruction.0,
                old(self).regs_view(),
                old(self).sr_reg(),
                old(self).inter_state(),
                *old(shared),
            ),
        ensures
            match r {
                Ok(_) => final(self).inter_state().wf() && final(self).pending_load().0 < 32
                    && mem_op_post(*old(self), *final(self), *old(shared), *final(shared), instruction.0),
                Err(e) => mem_op_failed(*old(self), *old(shared), instruction.0, e),
            },
    {
        if self.sr & 0x10000 != 0 {
            // Cache is isolated, ignore write
            return Ok(());
        }
        let i = instruction.imm_se();
        let t = instruction.t();
        let s = instruction.s();
        let addr = self.reg(s).wrapping_add(i);
        let v = self.reg(t);
        self.inter.store::<HalfWord>(shared, addr, v)
    }

    /// Store Word
    fn op_sw(&mut self, shared: &mut SharedState, instruction: Instruction) -> (r: Result<(), CdError>)
        requires
            old(self).exec_ready(),
            ins_function(instruction.0) == 0x2b,
            mem_access_supported(
                instruction.0,
                old(self).regs_view(),
                old(self).sr_reg(),
                old(self).inter_state(),
                *old(shared),
            ),
        ensures
            match r {
                Ok(_) => final(self).inter_state().wf() && final(self).pending_load().0 < 32
                    && mem_op_post(*old(self), *final(self), *old(shared), *final(shared), instruction.0),
                Err(e) => mem_op_failed(*old(self), *old(shared), instruction.0, e),
            },
    {
        if self.sr & 0x10000 != 0 {
            // Cache is isolated, ignore write
            return Ok(());
        }
        let i = instruction.imm_se();
        let t = instruction.t();
        let s = instruction.s();
        let addr = self.reg(s).wrapping_add(i);
        let v = self.reg(t);
        self.inter.store::<Word>(shared, addr, v)
    }

    /// Decode `instruction`'s opcode and run the function
    fn decode_and_execute(&mut self, shared: &mut SharedState, instruction: Instruction) -> (r: Result<(), CdError>)
        requires
            old(self).regs_view().len() == 32,
            old(self).out_view().len() == 32,
            old(self).regs_view()[0] == 0,
            old(self).pending_load().0 < 32,
            old(self).inter_state().wf(),
            instruction_supported(instruction.0, old(self).regs_view()),
            mem_access_supported(
                instruction.0,
                old(self).regs_view(),
                old(self).sr_reg(),
                old(self).inter_state(),
                *old(shared),
            ),
        ensures
            match r {
                Ok(_) => {
                    &&& final(self).inter_state().wf()
                    &&& final(self).pending_load().0 < 32
                    &&& is_mem_load(instruction.0) || is_mem_store(instruction.0) ==> mem_op_post(
                        *old(self),
                        *final(self),
                        *old(shared),
                        *final(shared),
                        instruction.0,
                    )
                    &&& !(is_mem_load(instruction.0) || is_mem_store(instruction.0)) ==> reg_op_post(
                        *old(self),
                        *final(self),
                        instruction.0,
                    ) && *final(shared) == *old(shared)
                },
                Err(e) => mem_op_failed(*old(self), *old(shared), instruction.0, e),
            },
    {
        let op = instruction.0;
        assert((op >> 16u32) & 0x1f < 32) by {
            lemma_field_bits(op, 0);
        }
        let f = instruction.function();
        if f == 0x20 {
            return self.op_lb(shared, instruction);
        } else if f == 0x23 {
            return self.op_lw(shared, instruction);
        } else if f == 0x24 {
            return self.op_lbu(shared, instruction);
        } else if f == 0x28 {
            return self.op_sb(shared, instruction);
        } else if f == 0x29 {
            return self.op_sh(shared, instruction);
        } else if f == 0x2b {
            return self.op_sw(shared, instruction);
        }
        if f == 0 {
            let sub = instruction.subfunction();
            if sub == 0x00 {
                self.op_sll(instruction)
            } else if sub == 0x08 {
                self.op_jr(instruction)
            } else if sub == 0x09 {
                self.op_jalr(instruction)
            } else if sub == 0x20 {
                self.op_add(instruction)
            } else if sub == 0x21 {
                self.op_addu(instruction)
            } else if sub == 0x24 {
                self.op_and(instruction)
            } else if sub == 0x25 {
                self.op_or(instruction)
            } else {
                self.op_sltu(instruction)
            }
        } else if f == 0x01 {
            self.op_bxx(instruction)
        } else if f == 0x02 {
            self.op_j(instruction)
        } else if f == 0x03 {
            self.op_jal(instruction)
        } else if f == 0x04 {
            self.op_beq(instruction)
        } else if f == 0x05 {
            self.op_bne(instruction)
        } else if f == 0x06 {
            self.op_blez(instruction)
        } else if f == 0x07 {
            self.op_bgtz(instruction)
        } else if f == 0x08 {
            self.op_addi(instruction)
        } else if f == 0x09 {
            self.op_addiu(instruction)
        } else if f == 0x0a {
            self.op_slti(instruction)
        } else if f == 0x0c {
            self.op_andi(instruction)
        } else if f == 0x0d {
            self.op_ori(instruction)
        } else if f == 0x0f {
            self.op_lui(instruction)
        } else {
            self.op_cop0(instruction)
        }
        Ok(())
    }
}


/// Relation between the CPU and shared state before (`o`, `os`) and
/// after (`n`, `ns`) one step: the pending load lands, the next
/// instruction is fetched and the current one (in the delay slot of
/// the previous one) executes
pub open spec fn stepped(o: Cpu, n: Cpu, os: SharedState, ns: SharedState) -> bool {
    let op = o.next_op();
    let pc = o.pc_reg().wrapping_add(4);
    let regs = o.regs_view();
    let addr = mem_addr(op, regs);
    &&& n.next_op() == o.inter_state().memory_value(AccessWidth::Word, o.pc_reg())
    &&& if is_mem_load(op) || is_mem_store(op) {
        &&& n.pc_reg() == pc
        &&& n.regs_view() == o.landed()
        &&& n.sr_reg() == o.sr_reg()
        &&& if is_mem_load(op) {
            let v = n.pending_load().1;
            &&& n.pending_load().0 == ins_t(op)
            &&& if ins_function(op) == 0x20 {
                exists|b: u32|
                    #![trigger sext8(b)]
                    loaded(o.inter_state(), os, n.inter_state(), ns, AccessWidth::Byte, addr, b)
                        && v == sext8(b)
            } else {
                loaded(o.inter_state(), os, n.inter_state(), ns, mem_width(op), addr, v)
            }
        } else {
            &&& n.pending_load() == (0u32, 0u32)
            &&& if cache_isolated(o.sr_reg()) {
                &&& n.inter_state() == o.inter_state()
                &&& ns == os
            } else {
                stored(o.inter_state(), os, n.inter_state(), ns, mem_width(op), addr, regs[ins_t(op) as int])
            }
        }
    } else {
        &&& n.pc_reg() == step_pc(op, pc, regs)
        &&& n.regs_view() == step_out(op, pc, regs, o.landed())
        &&& n.sr_reg() == step_sr(op, regs, o.sr_reg())
        &&& n.pending_load() == if ins_function(op) == 0x10 && ins_cop_opcode(op) == 0 {
            (ins_t(op), o.sr_reg())
        } else {
            (0u32, 0u32)
        }
        &&& n.inter_state() == o.inter_state()
        &&& ns == os
    }
}

/// Register 0 stays hardwired to 0 and the register file keeps its
/// size across an instruction
pub proof fn lemma_step_out_r0(op: u32, pc: u32, regs: Seq<u32>, out: Seq<u32>)
    requires
        out.len() == 32,
        out[0] == 0,
    ensures
        step_out(op, pc, regs, out).len() == 32,
        step_out(op, pc, regs, out)[0] == 0,
{
    lemma_field_bits(op, 0);
}

impl Cpu {
    /// Run one instruction. Instructions are fetched from the RAM or
    /// the BIOS.
    pub fn run_next_instruction(&mut self, shared: &mut SharedState) -> (r: Result<(), CdError>)
        requires
            old(self).wf(),
            in_region(crate::memory::map::spec_ram(), old(self).pc_reg()) || in_region(
                crate::memory::map::spec_bios(),
                old(self).pc_reg(),
            ),
            old(self).inter_state().load_supported(AccessWidth::Word, old(self).pc_reg()),
            instruction_supported(old(self).next_op(), old(self).regs_view()),
            mem_access_supported(
                old(self).next_op(),
                old(self).regs_view(),
                old(self).sr_reg(),
                old(self).inter_state(),
                *old(shared),
            ),
        ensures
            match r {
                Ok(_) => final(self).wf() && stepped(*old(self), *final(self), *old(shared), *final(shared)),
                // The instruction reached the CDROM controller, which
                // does not handle the access
                Err(e) => mem_op_failed(*old(self), *old(shared), old(self).next_op(), e),
            },
    {
        let pc = self.pc;
        // Use previously loaded instruction
        let instruction = self.next_instruction;
        // Fetch instruction at PC
        self.next_instruction = Instruction(self.inter.load_instruction::<Word>(pc));
        // Increment PC to point to the next instruction. All
        // instructions are 32bit long.
        self.pc = pc.wrapping_add(4);
        // Execute the pending load (if any, otherwise it will load
        // `R0` which is a NOP). `set_reg` works only on `out_regs` so
        // this operation won't be visible by the next instruction.
        let (reg, val) = self.load;
        self.set_reg(reg, val);
        // We reset the load to target register 0 for the next
        // instruction
        self.load = (RegisterIndex(0), 0);
        proof {
            lemma_step_out_r0(instruction.0, self.pc, self.regs@, self.out_regs@);
        }
        if let Err(e) = self.decode_and_execute(shared, instruction) {
            return Err(e);
        }
        // Copy the output registers as input for the next instruction
        self.regs = self.out_regs.clone();
        assert(self.regs@ == self.out_regs@);
        Ok(())
    }
}

impl Cpu {
    /// The next step is one the emulator handles: the instruction is
    /// fetched from the RAM or the BIOS, the emulator implements the
    /// instruction in the pipeline and supports its memory access
    pub fn can_run_next_instruction(&self, shared: &SharedState) -> (r: bool)
        requires
            self.wf(),
            shared.time().wf(),
        ensures
            r == ((in_region(crate::memory::map::spec_ram(), self.pc_reg()) || in_region(
                crate::memory::map::spec_bios(),
                self.pc_reg(),
            )) && self.inter_state().load_supported(AccessWidth::Word, self.pc_reg())
                && instruction_supported(self.next_op(), self.regs_view()) && mem_access_supported(
                self.next_op(),
                self.regs_view(),
                self.sr_reg(),
                self.inter_state(),
                *shared,
            )),
    {
        let pc = self.pc;
        let abs_pc = crate::memory::map::mask_region(pc);
        let fetch = (crate::memory::map::ram().contains(abs_pc).is_some()
            || crate::memory::map::bios().contains(abs_pc).is_some()) && self.inter.supports_load(
            AccessWidth::Word,
            pc,
        );
        fetch && self.instruction_implemented() && self.memory_access_handled(shared)
    }

    /// The emulator implements the instruction in the pipeline, and
    /// it does not fault with the current register values
    fn instruction_implemented(&self) -> (r: bool)
        requires
            self.wf(),
        ensures
            r == instruction_supported(self.next_op(), self.regs_view()),
    {
        let op = self.next_instruction;
        let f = op.function();
        let s = self.reg(op.s());
        let t = self.reg(op.t());
        if f == 0 {
            let sub = op.subfunction();
            // ADD traps on overflow
            sub == 0x00 || sub == 0x08 || sub == 0x09 || sub == 0x21 || sub == 0x24 || sub == 0x25
                || sub == 0x2b || (sub == 0x20 && (s as i32).checked_add(t as i32).is_some())
        } else if f == 0x08 {
            // ADDI traps on overflow
            (s as i32).checked_add(op.imm_se() as i32).is_some()
        } else if f == 0x10 {
            let cop_r = op.d().0;
            let cop_op = op.cop_opcode();
            if cop_op == 0 {
                // MFC0: only the status register can be read
                cop_r == 12
            } else if cop_op == 4 {
                // MTC0: breakpoint and cause registers can only be cleared
                cop_r == 12 || ((cop_r == 3 || cop_r == 5 || cop_r == 6 || cop_r == 7 || cop_r == 9
                    || cop_r == 11 || cop_r == 13) && t == 0)
            } else {
                false
            }
        } else {
            (0x01 <= f && f <= 0x07) || f == 0x09 || f == 0x0a || f == 0x0c || f == 0x0d || f
                == 0x0f || f == 0x20 || f == 0x23 || f == 0x24 || f == 0x28 || f == 0x29 || f
                == 0x2b
        }
    }

    /// The memory access of the instruction in the pipeline, if it
    /// makes one, is one the emulator supports
    fn memory_access_handled(&self, shared: &SharedState) -> (r: bool)
        requires
            self.wf(),
            shared.time().wf(),
        ensures
            r == mem_access_supported(
                self.next_op(),
                self.regs_view(),
                self.sr_reg(),
                self.inter_state(),
                *shared,
            ),
    {
        let op = self.next_instruction;
        let f = op.function();
        let addr = self.reg(op.s()).wrapping_add(op.imm_se());
        let width = if f == 0x20 || f == 0x24 || f == 0x28 {
            AccessWidth::Byte
        } else if f == 0x29 {
            AccessWidth::HalfWord
        } else {
            AccessWidth::Word
        };
        let date = shared.time_keeper().now();
        let load = f == 0x20 || f == 0x23 || f == 0x24;
        let store = f == 0x28 || f == 0x29 || f == 0x2b;
        let isolated = self.sr & 0x10000 != 0;
        if load && !(date <= MAX_DATE - 5 && self.inter.handles_load(shared, width, addr)) {
            return false;
        }
        if store && !isolated && !(date <= MAX_DATE && self.inter.handles_store(
            shared,
            width,
            addr,
            self.reg(op.t()),
        )) {
            return false;
        }
        true
    }
}

/// SLTU (Set on Less Than Unsigned): the destination register rd gets
/// 1 exactly when rs is strictly below rt as unsigned 32-bit numbers
/// and 0 otherwise, so equal registers give 0. No other register is
/// written.
pub proof fn lemma_sltu_sets_below(o: Cpu, n: Cpu, op: u32)
    requires
        o.out_view().len() == 32,
        o.out_view()[0] == 0,
        ins_function(op) == 0,
        ins_subfunction(op) == 0x2b,
        reg_op_post(o, n, op),
    ensures
        ({
            let a = o.regs_view()[ins_s(op) as int];
            let b = o.regs_view()[ins_t(op) as int];
            let d = ins_d(op) as int;
            &&& d != 0 ==> (n.out_view()[d] == 1 <==> a < b)
            &&& d != 0 ==> (n.out_view()[d] == 0 <==> b <= a)
            &&& forall|j: int| 0 <= j < 32 && j != d ==> #[trigger] n.out_view()[j] == o.out_view()[j]
        }),
{
    lemma_field_bits(op, 0);
}

/// ADDU (Add Unsigned): the destination register rd gets the sum of
/// rs and rt modulo 2^32. No other register is written.
pub proof fn lemma_addu_sums(o: Cpu, n: Cpu, op: u32)
    requires
        o.out_view().len() == 32,
        o.out_view()[0] == 0,
        ins_function(op) == 0,
        ins_subfunction(op) == 0x21,
        reg_op_post(o, n, op),
    ensures
        ({
            let a = o.regs_view()[ins_s(op) as int];
            let b = o.regs_view()[ins_t(op) as int];
            let d = ins_d(op) as int;
            &&& d != 0 ==> n.out_view()[d] as int == (a + b) % 0x1_0000_0000
            &&& forall|j: int| 0 <= j < 32 && j != d ==> #[trigger] n.out_view()[j] == o.out_view()[j]
        }),
{
    lemma_field_bits(op, 0);
}

/// Immediate of `op` (bits 15:0) sign extended to 32 bits: bit 15
/// copied into bits 31:16
pub open spec fn sign_extended_imm(op: u32) -> u32 {
    if op & 0x8000 != 0 {
        (op & 0xffff) | 0xffff_0000
    } else {
        op & 0xffff
    }
}

/// ADDIU (Add Immediate Unsigned): rt gets rs plus the sign extended
/// immediate, modulo 2^32. No other register is written.
pub proof fn lemma_addiu_sums(o: Cpu, n: Cpu, op: u32)
    requires
        o.out_view().len() == 32,
        o.out_view()[0] == 0,
        ins_function(op) == 0x09,
        reg_op_post(o, n, op),
    ensures
        ({
            let a = o.regs_view()[ins_s(op) as int];
            let t = ins_t(op) as int;
            &&& t != 0 ==> n.out_view()[t] as int == (a + sign_extended_imm(op)) % 0x1_0000_0000
            &&& forall|j: int| 0 <= j < 32 && j != t ==> #[trigger] n.out_view()[j] == o.out_view()[j]
        }),
{
    lemma_field_bits(op, 0);
    lemma_imm_bits(op);
}

/// LUI (Load Upper Immediate): rt gets the immediate times 0x10000, its
/// low half cleared. No other register is written.
pub proof fn lemma_lui_loads_upper(o: Cpu, n: Cpu, op: u32)
    requires
        o.out_view().len() == 32,
        o.out_view()[0] == 0,
        ins_function(op) == 0x0f,
        reg_op_post(o, n, op),
    ensures
        ({
            let t = ins_t(op) as int;
            &&& t != 0 ==> n.out_view()[t] as int == (op & 0xffff) * 0x10000
            &&& forall|j: int| 0 <= j < 32 && j != t ==> #[trigger] n.out_view()[j] == o.out_view()[j]
        }),
{
    lemma_field_bits(op, 0);
    lemma_imm_bits(op);
}

/// AND and OR: bit `i` of rd is set exactly when it is set in both rs
/// and rt (AND), in either of them (OR). No other register is written.
pub proof fn lemma_and_or_bits(o: Cpu, n: Cpu, op: u32, i: u32)
    requires
        o.out_view().len() == 32,
        o.out_view()[0] == 0,
        ins_function(op) == 0,
        ins_subfunction(op) == 0x24 || ins_subfunction(op) == 0x25,
        reg_op_post(o, n, op),
        i < 32,
    ensures
        ({
            let a = o.regs_view()[ins_s(op) as int];
            let b = o.regs_view()[ins_t(op) as int];
            let d = ins_d(op) as int;
            let r = n.out_view()[d];
            &&& d != 0 && ins_subfunction(op) == 0x24 ==> (((r >> i) & 1 == 1) <==> ((a >> i) & 1 == 1
                && (b >> i) & 1 == 1))
            &&& d != 0 && ins_subfunction(op) == 0x25 ==> (((r >> i) & 1 == 1) <==> ((a >> i) & 1 == 1
                || (b >> i) & 1 == 1))
            &&& forall|j: int| 0 <= j < 32 && j != d ==> #[trigger] n.out_view()[j] == o.out_view()[j]
        }),
{
    lemma_field_bits(op, 0);
    lemma_and_or_bit(o.regs_view()[ins_s(op) as int], o.regs_view()[ins_t(op) as int], i);
}

/// BEQ branches exactly when rs and rt are equal, BNE exactly when they
/// differ; neither writes a register
pub proof fn lemma_beq_bne_branch(o: Cpu, n: Cpu, op: u32)
    requires
        ins_function(op) == 0x04 || ins_function(op) == 0x05,
        reg_op_post(o, n, op),
    ensures
        ({
            let a = o.regs_view()[ins_s(op) as int];
            let b = o.regs_view()[ins_t(op) as int];
            let target = branch_target(o.pc_reg(), ins_imm_se(op));
            &&& ins_function(op) == 0x04 ==> n.pc_reg() == if a == b {
                target
            } else {
                o.pc_reg()
            }
            &&& ins_function(op) == 0x05 ==> n.pc_reg() == if a != b {
                target
            } else {
                o.pc_reg()
            }
            &&& n.out_view() == o.out_view()
        }),
{
}

/// JAL stores the return address (the address after the delay slot) in
/// R31 and jumps within the current 256MB region; no other register is
/// written
pub proof fn lemma_jal_links(o: Cpu, n: Cpu, op: u32)
    requires
        o.out_view().len() == 32,
        ins_function(op) == 0x03,
        reg_op_post(o, n, op),
    ensures
        n.out_view()[31] == o.pc_reg(),
        n.pc_reg() == (o.pc_reg() & 0xf000_0000) | ((op & 0x3ff_ffff) << 2u32),
        forall|j: int| 1 <= j < 31 ==> #[trigger] n.out_view()[j] == o.out_view()[j],
{
}

/// Bit-level facts behind AND and OR
proof fn lemma_and_or_bit(a: u32, b: u32, i: u32)
    by (bit_vector)
    requires
        i < 32,
    ensures
        (((a & b) >> i) & 1 == 1) == ((a >> i) & 1 == 1 && (b >> i) & 1 == 1),
        (((a | b) >> i) & 1 == 1) == ((a >> i) & 1 == 1 || (b >> i) & 1 == 1),
{
}

/// Bit-level facts about the immediate field/// Bit-level facts about the immediate field
proof fn lemma_imm_bits(op: u32)
    by (bit_vector)
    ensures
        ((op & 0xffff) as i16) as u32 == (if op & 0x8000 != 0 {
            (op & 0xffff) | 0xffff_0000
        } else {
            op & 0xffff
        }),
        (op & 0xffff) << 16u32 == (op & 0xffff) * 0x10000,
{
}

/// Bit-level facts about instruction fields and byte sign extension/// Bit-level facts about instruction fields and byte sign extension/// Bit-level facts about instruction fields and byte sign extension
proof fn lemma_field_bits(op: u32, b: u32)
    by (bit_vector)
    ensures
        (op >> 21u32) & 0x1f < 32,
        (op >> 16u32) & 0x1f < 32,
        (op >> 11u32) & 0x1f < 32,
        (op >> 6u32) & 0x1f < 32,
        ((b as u8) as i8) as u32 == ((b & 0xff) as u8 as i8) as u32,
{
}

} // verus!
