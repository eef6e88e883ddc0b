//! Coprocessor 0: System control

use vstd::prelude::*;

use crate::memory::interrupts::InterruptState;

verus! {

/// Exception types (as stored in the `CAUSE` register)
#[derive(Clone, Copy, PartialEq, Eq, Structural, Debug)]
pub enum Exception {
    /// Interrupt Request
    Interrupt,
    /// Address error on load
    LoadAddressError,
    /// Address error on store
    StoreAddressError,
    /// System call (caused by the SYSCALL opcode)
    SysCall,
    /// Breakpoint (caused by the BREAK opcode)
    Break,
    /// CPU encountered an unknown instruction
    IllegalInstruction,
    /// Unsupported coprocessor operation
    CoprocessorError,
    /// Arithmetic overflow
    Overflow,
}

/// Exception code stored in CAUSE bits [6:2]
pub open spec fn exception_code(e: Exception) -> u32 {
    match e {
        Exception::Interrupt => 0x0,
        Exception::LoadAddressError => 0x4,
        Exception::StoreAddressError => 0x5,
        Exception::SysCall => 0x8,
        Exception::Break => 0x9,
        Exception::IllegalInstruction => 0xa,
        Exception::CoprocessorError => 0xb,
        Exception::Overflow => 0xc,
    }
}

impl Exception {
    /// Exception code stored in CAUSE bits [6:2]
    pub fn code(self) -> (c: u32)
        ensures
            c == exception_code(self),
    {
        match self {
            Exception::Interrupt => 0x0,
            Exception::LoadAddressError => 0x4,
            Exception::StoreAddressError => 0x5,
            Exception::SysCall => 0x8,
            Exception::Break => 0x9,
            Exception::IllegalInstruction => 0xa,
            Exception::CoprocessorError => 0xb,
            Exception::Overflow => 0xc,
        }
    }
}

/// SR after entering an exception: the interrupt enable/user mode
/// stack in bits [5:0] is pushed two places to the left
pub open spec fn sr_enter(sr: u32) -> u32 {
    (sr & !0x3fu32) | (((sr & 0x3f) << 2u32) & 0x3f)
}

/// SR after returning from an exception: the mode stack is popped,
/// bits [5:4] are left untouched
pub open spec fn sr_return(sr: u32) -> u32 {
    (sr & !0xfu32) | ((sr & 0x3f) >> 2u32)
}

/// CAUSE after entering exception `e`, bit 31 flags a delay slot
pub open spec fn cause_enter(cause: u32, e: Exception, in_delay_slot: bool) -> u32 {
    let c = (cause & !0x7cu32) | (exception_code(e) << 2u32);
    if in_delay_slot {
        c | 0x8000_0000
    } else {
        c & !0x8000_0000u32
    }
}

/// Bits of CAUSE that `enter_exception` latches: the exception code
/// (bits [6:2]) and the delay slot flag (bit 31)
pub const CAUSE_LATCHED_MASK: u32 = 0x8000_007c;

/// Coprocessor 0: System control
pub struct Cop0 {
    /// Cop0 register 12: Status register
    sr: u32,
    /// Cop0 register 13: Cause register
    cause: u32,
    /// Cop0 register 14: Exception PC
    epc: u32,
}

impl Cop0 {
    /// The latched part of CAUSE only ever holds the exception code
    /// (bits [6:2]) and the delay slot flag (bit 31): the interrupt
    /// pending bits [10:8] are never latched
    #[verifier::type_invariant]
    spec fn cause_latched_bits(&self) -> bool {
        self.cause & !CAUSE_LATCHED_MASK == 0
    }

    /// Status register
    pub closed spec fn sr_reg(&self) -> u32 {
        self.sr
    }

    /// Latched part of the cause register
    pub closed spec fn cause_reg(&self) -> u32 {
        self.cause
    }

    /// Exception PC
    pub closed spec fn epc_reg(&self) -> u32 {
        self.epc
    }

    pub fn new() -> (c: Cop0)
        ensures
            c.sr_reg() == 0,
            c.cause_reg() == 0,
            c.epc_reg() == 0,
    {
        assert(0u32 & !CAUSE_LATCHED_MASK == 0) by (bit_vector);
        Cop0 { sr: 0, cause: 0, epc: 0 }
    }

    pub fn sr(&self) -> (r: u32)
        ensures
            r == self.sr_reg(),
    {
        self.sr
    }

    pub fn set_sr(&mut self, sr: u32)
        ensures
            final(self).sr_reg() == sr,
            final(self).cause_reg() == old(self).cause_reg(),
            final(self).epc_reg() == old(self).epc_reg(),
    {
        proof {
            use_type_invariant(&*self);
        }
        self.sr = sr;
    }

    /// Retreive the value of the CAUSE register. We need the
    /// InterruptState because bit 10 is wired to the current external
    /// interrupt (no latch, ack'ing the interrupt in the external
    /// controller resets the value in this register) .
    pub fn cause(&self, irq_state: InterruptState) -> (r: u32)
        ensures
            r == self.cause_reg() | (if irq_state.status_bits() & irq_state.mask_bits() != 0 {
                0x400u32
            } else {
                0u32
            }),
            // Bit 10 is the external interrupt, bits 8 and 9 are clear
            r & 0x700 == if irq_state.status_bits() & irq_state.mask_bits() != 0 {
                0x400u32
            } else {
                0u32
            },
    {
        proof {
            use_type_invariant(self);
            lemma_cause_pending_bits(self.cause);
        }
        let active: u32 = if irq_state.active() { 1 } else { 0 };
        assert(1u32 << 10u32 == 0x400 && 0u32 << 10u32 == 0) by {
            lemma_sr_bits(0);
        }
        self.cause | (active << 10)
    }

    pub fn epc(&self) -> (r: u32)
        ensures
            r == self.epc_reg(),
    {
        self.epc
    }

    pub fn cache_isolated(&self) -> (r: bool)
        ensures
            r == (self.sr_reg() & 0x10000 != 0),
    {
        self.sr & 0x10000 != 0
    }

    /// Update SR, CAUSE and EPC when an exception is
    /// triggered. Returns the address of the exception handler.
    pub fn enter_exception(&mut self, cause: Exception, pc: u32, in_delay_slot: bool) -> (handler:
        u32)
        ensures
            final(self).sr_reg() == sr_enter(old(self).sr_reg()),
            final(self).cause_reg() == cause_enter(old(self).cause_reg(), cause, in_delay_slot),
            // When an exception occurs in a delay slot `EPC` points
            // to the branch instruction
            final(self).epc_reg() == if in_delay_slot {
                pc.wrapping_sub(4)
            } else {
                pc
            },
            // The address of the exception handler address depends on
            // the value of the BEV bit in SR
            handler == if old(self).sr_reg() & (1u32 << 22u32) != 0 {
                0xbfc00180u32
            } else {
                0x80000080u32
            },
    {
        // Shift bits [5:0] of `SR` two places to the left. Those bits
        // are three pairs of Interrupt Enable/User Mode bits behaving
        // like a stack 3 entries deep. Entering an exception pushes a
        // pair of zeroes by left shifting the stack which disables
        // interrupts and puts the CPU in kernel mode. The previous
        // third entry is discarded (it's up to the kernel to handle
        // more than two recursive exception levels).
        proof {
            use_type_invariant(&*self);
        }
        let mode = self.sr & 0x3f;
        self.sr = self.sr & !0x3f;
        self.sr = self.sr | ((mode << 2) & 0x3f);
        proof {
            let s = old(self).sr;
            let m = s & 0x3f;
            lemma_sr_bits(s);
        }
        // Update `CAUSE` register with the exception code (bits
        // [6:2])
        proof {
            use_type_invariant(&*self);
        }
        let code = cause.code();
        let c = self.cause;
        proof {
            lemma_cause_enter_latched(c, code);
        }
        let c = (c & !0x7c) | (code << 2);
        if in_delay_slot {
            // When an exception occurs in a delay slot `EPC` points
            // to the branch instruction and bit 31 of `CAUSE` is set.
            self.epc = pc.wrapping_sub(4);
            self.cause = c | (1 << 31);
        } else {
            self.epc = pc;
            self.cause = c & !(1 << 31);
        }
        assert(1u32 << 31u32 == 0x8000_0000) by {
            lemma_sr_bits(0);
        }
        if self.sr & (1 << 22) != 0 {
            0xbfc00180
        } else {
            0x80000080
        }
    }

    /// The counterpart to "enter_exception": shift SR's mode back
    /// into place. Doesn't touch CAUSE or EPC however.
    pub fn return_from_exception(&mut self)
        ensures
            final(self).sr_reg() == sr_return(old(self).sr_reg()),
            final(self).cause_reg() == old(self).cause_reg(),
            final(self).epc_reg() == old(self).epc_reg(),
    {
        proof {
            use_type_invariant(&*self);
        }
        let mode = self.sr & 0x3f;
        // Bits [5:4] (the third and last mode in the stack) remains
        // untouched and is therefore duplicated in the 2nd entry.
        self.sr = self.sr & !0xf;
        self.sr = self.sr | (mode >> 2);
    }

    /// Return true if the interrupts are enabled on the CPU (SR
    /// "Current Interrupt Enable" bit is set)
    fn irq_enabled(&self) -> (r: bool)
        ensures
            r == (self.sr_reg() & 1 != 0),
    {
        self.sr & 1 != 0
    }

    /// Return true if an interrupt (either software or hardware) is
    /// pending
    pub fn irq_active(&self, irq_state: InterruptState) -> (r: bool)
        ensures
            r == (self.sr_reg() & 1 != 0 && (self.cause_reg() | (if irq_state.status_bits()
                & irq_state.mask_bits() != 0 {
                0x400u32
            } else {
                0u32
            })) & self.sr_reg() & 0x700 != 0),
            // With no software interrupt ever latched, an interrupt is
            // active when the CPU takes interrupts, the external
            // interrupt controller has one pending and SR unmasks it
            r == (self.sr_reg() & 1 != 0 && irq_state.status_bits() & irq_state.mask_bits() != 0
                && self.sr_reg() & 0x400 != 0),
    {
        proof {
            use_type_invariant(self);
            lemma_cause_pending_bits(self.cause);
        }
        let cause = self.cause(irq_state);
        proof {
            lemma_pending_sr(cause, self.sr);
        }
        // Bits [8:9] of CAUSE contain the two software interrupts
        // (that the software can use by writing to the CAUSE
        // register) while bit 10 is wired to the external interrupt's
        // state. They can be individually masked using SR's bits
        // [8:10]
        let pending = (cause & self.sr) & 0x700;
        // Finally bit 0 of SR can be used to mask interrupts globally
        // on the CPU so we must check that.
        self.irq_enabled() && pending != 0
    }
}

/// Returning from an exception undoes what entering it did to the
/// interrupt enable/user mode bits [3:0] of SR and to all the bits
/// above bit 5; bits [5:4] then hold the previous bits [3:2]
pub proof fn lemma_return_undoes_enter(sr: u32)
    by (bit_vector)
    ensures
        sr_return(sr_enter(sr)) & 0xf == sr & 0xf,
        sr_return(sr_enter(sr)) & !0x3fu32 == sr & !0x3fu32,
        (sr_return(sr_enter(sr)) >> 4u32) & 3 == (sr >> 2u32) & 3,
{
}

/// Bit-level facts about the latched CAUSE bits: none of the
/// interrupt pending bits [10:8] is set
proof fn lemma_cause_pending_bits(c: u32)
    by (bit_vector)
    requires
        c & !CAUSE_LATCHED_MASK == 0,
    ensures
        (c | 0x400u32) & 0x700 == 0x400,
        (c | 0u32) & 0x700 == 0,
        c | 0u32 == c,
{
}

/// Bit-level fact behind the pending interrupt test: with bits [9:8]
/// clear, masking with SR leaves bit 10 alone
proof fn lemma_pending_sr(x: u32, sr: u32)
    by (bit_vector)
    ensures
        x & 0x700 == 0x400 ==> ((x & sr & 0x700 != 0) == (sr & 0x400 != 0)),
        x & 0x700 == 0 ==> x & sr & 0x700 == 0,
{
}

/// Entering an exception keeps the latched CAUSE bits within the
/// exception code and the delay slot flag
proof fn lemma_cause_enter_latched(c: u32, code: u32)
    by (bit_vector)
    requires
        c & !CAUSE_LATCHED_MASK == 0,
        code < 32,
    ensures
        (((c & !0x7cu32) | (code << 2u32)) | 0x8000_0000u32) & !CAUSE_LATCHED_MASK == 0,
        (((c & !0x7cu32) | (code << 2u32)) & !0x8000_0000u32) & !CAUSE_LATCHED_MASK == 0,
{
}

/// Bit-level facts about entering an exception and the constants of
/// the `CAUSE` register
proof fn lemma_sr_bits(s: u32)
    by (bit_vector)
    ensures
        1u32 << 10u32 == 0x400,
        0u32 << 10u32 == 0,
        1u32 << 31u32 == 0x8000_0000,
        ((s & !0x3fu32) | (((s & 0x3f) << 2u32) & 0x3f)) == sr_enter(s),
        sr_enter(s) & (1u32 << 22u32) == s & (1u32 << 22u32),
{
}

} // verus!
