//! BIOS ROM

use vstd::prelude::*;

use super::{Addressable, access_bytes};
use super::ram::{le_value, read_le};

verus! {

/// BIOS images are always 512KB in length
pub const BIOS_SIZE: usize = 524288;

/// Reasons a binary image is refused as a BIOS
#[derive(Clone, Copy, Debug, PartialEq, Eq, Structural)]
pub enum BiosError {
    /// The image is shorter than 512KB
    TooSmall,
    /// The image is longer than 512KB, it's probably not a good dump
    TooBig,
}

/// BIOS image
pub struct Bios {
    /// BIOS memory
    data: Vec<u8>,
}

impl Bios {
    /// BIOS contents
    pub closed spec fn bytes(&self) -> Seq<u8> {
        self.data@
    }

    /// A BIOS image is always exactly 512KB long
    pub open spec fn wf(&self) -> bool {
        self.bytes().len() == BIOS_SIZE
    }

    /// Create a BIOS from the contents of a BIOS image file
    pub fn new(binary: Vec<u8>) -> (r: Result<Bios, BiosError>)
        ensures
            binary@.len() < BIOS_SIZE <==> r == Err::<Bios, BiosError>(BiosError::TooSmall),
            binary@.len() > BIOS_SIZE <==> r == Err::<Bios, BiosError>(BiosError::TooBig),
            binary@.len() == BIOS_SIZE <==> r is Ok,
            r matches Ok(b) ==> b.wf() && b.bytes() == binary@,
    {
        if binary.len() < BIOS_SIZE {
            Err(BiosError::TooSmall)
        } else if binary.len() > BIOS_SIZE {
            Err(BiosError::TooBig)
        } else {
            Ok(Bios { data: binary })
        }
    }

    /// Fetch the little endian value at `offset`
    pub fn load<T: Addressable>(&self, offset: u32) -> (v: u32)
        requires
            self.wf(),
            offset + access_bytes(T::spec_width()) <= BIOS_SIZE,
        ensures
            v == le_value(self.bytes(), offset as int, access_bytes(T::spec_width()) as nat),
    {
        read_le(&self.data, offset as usize, T::size())
    }
}

} // verus!
