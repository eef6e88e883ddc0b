//! Memory map and the peripherals that live directly on the bus.

pub mod interrupts;
pub mod map;
pub mod ram;
pub mod bios;
pub mod dma;
pub mod timers;
pub mod interconnect;
pub mod support;

pub use self::interconnect::Interconnect;

use vstd::prelude::*;

verus! {

/// Types of access supported by the PlayStation architecture
#[derive(Clone, Copy, PartialEq, Eq, Debug, Structural)]
pub enum AccessWidth {
    Byte,
    HalfWord,
    Word,
}

/// Number of bytes transferred by an access of width `w`
pub open spec fn access_bytes(w: AccessWidth) -> u8 {
    match w {
        AccessWidth::Byte => 1,
        AccessWidth::HalfWord => 2,
        AccessWidth::Word => 4,
    }
}

/// Mask selecting the bits of a value that an access of width `w`
/// transfers
pub open spec fn access_mask(w: AccessWidth) -> u32 {
    match w {
        AccessWidth::Byte => 0xff,
        AccessWidth::HalfWord => 0xffff,
        AccessWidth::Word => 0xffff_ffff,
    }
}

impl AccessWidth {
    /// Number of bytes transferred by the access
    pub fn bytes(self) -> (n: u8)
        ensures
            n == access_bytes(self),
    {
        match self {
            AccessWidth::Byte => 1,
            AccessWidth::HalfWord => 2,
            AccessWidth::Word => 4,
        }
    }
}

/// Trait representing the attributes of a primitive addressable
/// memory location.
pub trait Addressable {
    /// Width of the access, as a specification value
    spec fn spec_width() -> AccessWidth;

    /// Retrieve the width of the access
    fn width() -> (w: AccessWidth)
        ensures
            w == Self::spec_width(),
    ;

    /// Retrieve the size of the access in bytes
    fn size() -> (s: u8)
        ensures
            s == access_bytes(Self::spec_width()),
    ;
}

/// 8bit access
pub struct Byte;

/// 16bit access
pub struct HalfWord;

/// 32bit access
pub struct Word;

impl Addressable for Byte {
    open spec fn spec_width() -> AccessWidth {
        AccessWidth::Byte
    }

    fn width() -> (w: AccessWidth) {
        AccessWidth::Byte
    }

    fn size() -> (s: u8) {
        1
    }
}

impl Addressable for HalfWord {
    open spec fn spec_width() -> AccessWidth {
        AccessWidth::HalfWord
    }

    fn width() -> (w: AccessWidth) {
        AccessWidth::HalfWord
    }

    fn size() -> (s: u8) {
        2
    }
}

impl Addressable for Word {
    open spec fn spec_width() -> AccessWidth {
        AccessWidth::Word
    }

    fn width() -> (w: AccessWidth) {
        AccessWidth::Word
    }

    fn size() -> (s: u8) {
        4
    }
}

/// Cache control register
#[derive(Clone, Copy)]
pub struct CacheControl(pub u32);

impl CacheControl {
    /// Return true if the instruction cache is enabled
    pub fn icache_enabled(self) -> (r: bool)
        ensures
            r == (self.0 & 0x800 != 0),
    {
        self.0 & 0x800 != 0
    }

    /// Return true if the cache is in "tag test" mode
    pub fn tag_test_mode(self) -> (r: bool)
        ensures
            r == (self.0 & 4 != 0),
    {
        self.0 & 4 != 0
    }
}

} // verus!
