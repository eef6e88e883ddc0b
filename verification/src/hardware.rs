//! Console hardware variants

use vstd::prelude::*;

use crate::cdrom::disc::Region;

verus! {

/// Video standard of the console
#[derive(Clone, Copy, Debug, PartialEq, Eq, Structural)]
pub enum HardwareType {
    /// 60Hz console (North America and Japan)
    Ntsc,
    /// 50Hz console (Europe)
    Pal,
}

/// Video standard of the consoles sold in the disc's region
pub fn video_standard(region: Region) -> (h: HardwareType)
    ensures
        h == (match region {
            Region::Europe => HardwareType::Pal,
            Region::NorthAmerica => HardwareType::Ntsc,
            Region::Japan => HardwareType::Ntsc,
        }),
{
    match region {
        Region::Europe => HardwareType::Pal,
        Region::NorthAmerica => HardwareType::Ntsc,
        Region::Japan => HardwareType::Ntsc,
    }
}

} // verus!
