//! Interrupt controller: a status and a mask register.

use vstd::prelude::*;

verus! {

/// The interrupt sources handled by the emulator. The PlayStation
/// supports 10 interrupts, each identified by a bit in the status
/// and mask registers.
#[derive(Clone, Copy, Debug, PartialEq, Eq, Structural)]
pub enum Interrupt {
    /// Display in vertical blanking (bit 0)
    VBlank,
    /// CDROM controller (bit 2)
    CdRom,
    /// DMA transfer done (bit 3)
    Dma,
    /// Timer0 interrupt (bit 4)
    Timer0,
    /// Timer1 interrupt (bit 5)
    Timer1,
    /// Timer2 interrupt (bit 6)
    Timer2,
    /// Gamepad and Memory Card controller interrupt (bit 7)
    PadMemCard,
}

/// Bit position of an interrupt in the status and mask registers.
pub open spec fn interrupt_bit(which: Interrupt) -> u16 {
    match which {
        Interrupt::VBlank => 0,
        Interrupt::CdRom => 2,
        Interrupt::Dma => 3,
        Interrupt::Timer0 => 4,
        Interrupt::Timer1 => 5,
        Interrupt::Timer2 => 6,
        Interrupt::PadMemCard => 7,
    }
}

/// Mask of all the interrupts the emulator knows how to raise.
pub const SUPPORTED_IRQ_MASK: u16 = 0x00fd;

impl Interrupt {
    /// Bit position of the interrupt in the status/mask registers
    pub fn bit(self) -> (b: u16)
        ensures
            b == interrupt_bit(self),
            b < 8,
    {
        match self {
            Interrupt::VBlank => 0,
            Interrupt::CdRom => 2,
            Interrupt::Dma => 3,
            Interrupt::Timer0 => 4,
            Interrupt::Timer1 => 5,
            Interrupt::Timer2 => 6,
            Interrupt::PadMemCard => 7,
        }
    }
}

#[derive(Clone, Copy)]
pub struct InterruptState {
    /// Interrupt status
    status: u16,
    /// Interrupt mask
    mask: u16,
}

impl InterruptState {
    /// Content of the status register
    pub closed spec fn status_bits(self) -> u16 {
        self.status
    }

    /// Content of the mask register
    pub closed spec fn mask_bits(self) -> u16 {
        self.mask
    }

    /// State after interrupt `which` has been raised
    pub closed spec fn raised(self, which: Interrupt) -> InterruptState {
        InterruptState { status: self.status | (1u16 << interrupt_bit(which)), ..self }
    }

    /// Raising an interrupt sets its status bit and nothing else
    pub proof fn lemma_raised(self, which: Interrupt)
        ensures
            self.raised(which).status_bits() == self.status_bits() | (1u16 << interrupt_bit(which)),
            self.raised(which).mask_bits() == self.mask_bits(),
    {
    }

    pub fn new() -> (s: InterruptState)
        ensures
            s.status_bits() == 0,
            s.mask_bits() == 0,
    {
        InterruptState { status: 0, mask: 0 }
    }

    /// Return true if at least one interrupt is asserted and not
    /// masked
    pub fn active(self) -> (r: bool)
        ensures
            r == (self.status_bits() & self.mask_bits() != 0),
    {
        (self.status & self.mask) != 0
    }

    pub fn status(self) -> (r: u16)
        ensures
            r == self.status_bits(),
    {
        self.status
    }

    /// Acknowledge interrupts by writing 0 to the corresponding bit
    pub fn ack(&mut self, ack: u16)
        ensures
            final(self).status_bits() == old(self).status_bits() & ack,
            final(self).mask_bits() == old(self).mask_bits(),
    {
        self.status = self.status & ack;
    }

    pub fn mask(self) -> (r: u16)
        ensures
            r == self.mask_bits(),
    {
        self.mask
    }

    /// Set the interrupt mask. Only the interrupts the emulator
    /// supports may be unmasked.
    pub fn set_mask(&mut self, mask: u16)
        requires
            mask & !SUPPORTED_IRQ_MASK == 0,
        ensures
            final(self).mask_bits() == mask,
            final(self).status_bits() == old(self).status_bits(),
    {
        self.mask = mask;
    }

    /// Trigger the interrupt `which`, must be called on the rising
    /// edge of the interrupt signal.
    pub fn raise(&mut self, which: Interrupt)
        ensures
            *final(self) == old(self).raised(which),
            final(self).status_bits() == old(self).status_bits() | (1u16 << interrupt_bit(which)),
            final(self).mask_bits() == old(self).mask_bits(),
    {
        let b = which.bit();
        self.status = self.status | (1u16 << b);
    }
}

} // verus!
