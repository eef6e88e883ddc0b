//! Disc images: region detection and CD-ROM XA sector validation

pub mod msf;

use vstd::prelude::*;

use self::msf::{Msf, msf_valid};

verus! {

/// Size of a CD sector in bytes
pub const SECTOR_SIZE: usize = 2352;

/// Disc region coding
#[derive(Clone, Copy, Debug, PartialEq, Eq, Structural)]
pub enum Region {
    /// Japan (NTSC): SCEI
    Japan,
    /// North America (NTSC): SCEA
    NorthAmerica,
    /// Europe (PAL): SCEE
    Europe,
}

/// PlayStation disc, as the CD-ROM controller sees it: the image
/// itself is read by the frontend, one sector at a time.
#[derive(Clone, Copy)]
pub struct Disc {
    /// Disc region
    region: Region,
}

impl Disc {
    /// Region of the disc
    pub closed spec fn spec_region(self) -> Region {
        self.region
    }

    /// A disc whose license string identified `region`
    pub fn new(region: Region) -> (d: Disc)
        ensures
            d.spec_region() == region,
    {
        Disc { region }
    }

    pub fn region(&self) -> (r: Region)
        ensures
            r == self.spec_region(),
    {
        self.region
    }
}

/// The bytes of the license string kept when identifying the disc:
/// the ASCII range 'A'..='z', everything else (mostly spaces) is
/// dropped
pub open spec fn license_filter(s: Seq<u8>) -> Seq<u8>
    decreases s.len(),
{
    if s.len() == 0 {
        s
    } else {
        let rest = license_filter(s.drop_last());
        if 0x41 <= s.last() <= 0x7a {
            rest.push(s.last())
        } else {
            rest
        }
    }
}

/// ASCII bytes of a string literal
pub open spec fn ascii(s: Seq<char>) -> Seq<u8> {
    Seq::new(s.len(), |i: int| s[i] as u8)
}

/// Region designated by a cleaned up license string
pub open spec fn license_region(license: Seq<u8>) -> Option<Region> {
    if license == ascii("LicensedbySonyComputerEntertainmentInc"@) {
        Some(Region::Japan)
    } else if license == ascii("LicensedbySonyComputerEntertainmentAmerica"@) {
        Some(Region::NorthAmerica)
    } else if license == ascii("LicensedbySonyComputerEntertainmentofAmerica"@) {
        Some(Region::NorthAmerica)
    } else if license == ascii("LicensedbySonyComputerEntertainmentEurope"@) {
        Some(Region::Europe)
    } else {
        None
    }
}

/// Reasons for rejecting a CD-ROM XA sector
#[derive(Clone, Copy, Debug, PartialEq, Eq, Structural)]
pub enum SectorError {
    /// The sync pattern is missing
    BadSync,
    /// The header holds another MSF than the expected one
    MsfMismatch,
    /// Mode 1 sectors are not handled
    UnhandledMode1,
    /// The mode byte is neither 1 nor 2
    UnhandledMode(u8),
    /// The two copies of the mode 2 submode differ
    SubmodeMismatch,
    /// The Mode 2 Form 1 error detection code does not match the data
    CrcMismatch,
}

/// CD-ROM sector sync pattern: 10 0xff surrounded by two 0x00. Not
/// used in CD-DA audio tracks.
pub open spec fn sync_pattern() -> Seq<u8> {
    seq![0x00u8, 0xff, 0xff, 0xff, 0xff, 0xff, 0xff, 0xff, 0xff, 0xff, 0xff, 0x00]
}

/// One bit of the CD-ROM error detection code (EDC): reflected
/// polynomial 0xd8018001
pub open spec fn edc_shift(c: u32) -> u32 {
    if c & 1 != 0 {
        (c >> 1u32) ^ 0xd801_8001
    } else {
        c >> 1u32
    }
}

/// `n` steps of the EDC shift register
pub open spec fn edc_shifts(c: u32, n: nat) -> u32
    decreases n,
{
    if n == 0 {
        c
    } else {
        edc_shifts(edc_shift(c), (n - 1) as nat)
    }
}

/// CD-ROM EDC of `data`
pub open spec fn spec_crc32(data: Seq<u8>) -> u32
    decreases data.len(),
{
    if data.len() == 0 {
        0
    } else {
        edc_shifts(spec_crc32(data.drop_last()) ^ (data.last() as u32), 8)
    }
}

/// CD-ROM EDC (a CRC-32) of `data`
pub fn crc32(data: &[u8]) -> (r: u32)
    ensures
        r == spec_crc32(data@),
{
    let mut crc: u32 = 0;
    let mut i: usize = 0;
    while i < data.len()
        invariant
            i <= data@.len(),
            crc == spec_crc32(data@.subrange(0, i as int)),
        decreases data@.len() - i,
    {
        let mut c = crc ^ (data[i] as u32);
        let mut k: u32 = 0;
        while k < 8
            invariant
                k <= 8,
                edc_shifts(c, (8 - k) as nat) == edc_shifts(crc ^ (data@[i as int] as u32), 8),
            decreases 8 - k,
        {
            c = if c & 1 != 0 {
                (c >> 1) ^ 0xd801_8001
            } else {
                c >> 1
            };
            k += 1;
        }
        assert(data@.subrange(0, i + 1).drop_last() =~= data@.subrange(0, i as int));
        crc = c;
        i += 1;
    }
    assert(data@.subrange(0, data@.len() as int) =~= data@);
    crc
}

/// Little endian word stored at `i`
pub open spec fn le_word(s: Seq<u8>, i: int) -> u32 {
    (s[i] as u32) | ((s[i + 1] as u32) << 8u32) | ((s[i + 2] as u32) << 16u32) | ((s[i + 3] as u32)
        << 24u32)
}

/// Validation of a sector read at `msf`: the sync pattern, the MSF in
/// the header, the mode and, for Mode 2, the submode copies and the
/// Form 1 EDC
pub open spec fn spec_validate(raw: Seq<u8>, m: u8, s: u8, f: u8) -> Result<(), SectorError> {
    if raw.subrange(0, 12) != sync_pattern() {
        Err(SectorError::BadSync)
    } else if raw[12] != m || raw[13] != s || raw[14] != f {
        Err(SectorError::MsfMismatch)
    } else if raw[15] == 1 {
        Err(SectorError::UnhandledMode1)
    } else if raw[15] != 2 {
        Err(SectorError::UnhandledMode(raw[15]))
    } else if raw[18] != raw[22] {
        Err(SectorError::SubmodeMismatch)
    } else if raw[18] & 0x20 == 0 && spec_crc32(raw.subrange(16, 2072)) != le_word(raw, 2072) {
        Err(SectorError::CrcMismatch)
    } else {
        Ok(())
    }
}

/// Structure representing a single CD-ROM XA sector
pub struct XaSector {
    /// The raw array of 2352 bytes contained in the sector
    raw: Vec<u8>,
}

impl View for XaSector {
    type V = Seq<u8>;

    closed spec fn view(&self) -> Seq<u8> {
        self.raw@
    }
}

impl XaSector {
    pub fn new() -> (r: XaSector)
        ensures
            r@ == Seq::new(SECTOR_SIZE as nat, |i: int| 0u8),
    {
        let r = XaSector { raw: vec![0u8; SECTOR_SIZE] };
        assert(r@ =~= Seq::new(SECTOR_SIZE as nat, |i: int| 0u8));
        r
    }

    /// Sector holding the 2352 bytes `raw`
    pub fn from_raw(raw: Vec<u8>) -> (r: XaSector)
        requires
            raw@.len() == SECTOR_SIZE,
        ensures
            r@ == raw@,
    {
        XaSector { raw }
    }

    /// Return payload data byte at `index`
    pub fn data_byte(&self, index: u16) -> (r: u8)
        requires
            self@.len() == SECTOR_SIZE,
            index < SECTOR_SIZE,
        ensures
            r == self@[index as int],
    {
        let index = index as usize;
        self.raw[index]
    }

    /// Return the sector data as a byte slice
    pub fn data_bytes(&self) -> (r: &[u8])
        ensures
            r@ == self@,
    {
        self.raw.as_slice()
    }

    /// Validate CD-ROM XA Mode 1 or 2 sector read at `msf`
    pub fn validate_mode_1_2(self, msf: Msf) -> (r: Result<XaSector, SectorError>)
        requires
            self@.len() == SECTOR_SIZE,
        ensures
            match r {
                Ok(sector) => sector@ == self@ && spec_validate(
                    self@,
                    msf.fields().0,
                    msf.fields().1,
                    msf.fields().2,
                ) is Ok,
                Err(e) => spec_validate(self@, msf.fields().0, msf.fields().1, msf.fields().2)
                    == Err::<(), SectorError>(e),
            },
    {
        // Check sync pattern
        let mut i: usize = 0;
        while i < 12
            invariant
                i <= 12,
                self@.len() == SECTOR_SIZE,
                forall|j: int| 0 <= j < i ==> self@[j] == #[trigger] sync_pattern()[j],
            decreases 12 - i,
        {
            let expected: u8 = if i == 0 || i == 11 {
                0x00
            } else {
                0xff
            };
            if self.raw[i] != expected {
                assert(self@.subrange(0, 12)[i as int] != sync_pattern()[i as int]);
                return Err(SectorError::BadSync);
            }
            i += 1;
        }
        assert(self@.subrange(0, 12) =~= sync_pattern());
        // Check that the expected MSF maches the one we have in the
        // header
        let (m, s, f) = msf.into_bcd();
        if self.raw[12] != m || self.raw[13] != s || self.raw[14] != f {
            return Err(SectorError::MsfMismatch);
        }
        let mode = self.raw[15];
        if mode == 1 {
            Err(SectorError::UnhandledMode1)
        } else if mode == 2 {
            self.validate_mode2()
        } else {
            Err(SectorError::UnhandledMode(mode))
        }
    }

    /// Parse and validate CD-ROM XA mode 2 sector.
    ///
    /// Regular CD-ROM defines mode2 as just containing 0x920 bytes of
    /// "raw" data after the 16byte sector header. However the CD-ROM
    /// XA spec defines two possible "forms" for this mode 2 data,
    /// there's an 8 byte sub-header at the beginning of the data that
    /// will tell us how to interpret it.
    fn validate_mode2(self) -> (r: Result<XaSector, SectorError>)
        requires
            self@.len() == SECTOR_SIZE,
        ensures
            match r {
                Ok(sector) => sector@ == self@ && self@[18] == self@[22] && (self@[18] & 0x20 == 0
                    ==> spec_crc32(self@.subrange(16, 2072)) == le_word(self@, 2072)),
                Err(e) => (self@[18] != self@[22] && e == SectorError::SubmodeMismatch) || (self@[18]
                    == self@[22] && self@[18] & 0x20 == 0 && spec_crc32(self@.subrange(16, 2072))
                    != le_word(self@, 2072) && e == SectorError::CrcMismatch),
            },
    {
        // Make sure the two copies of the subcode are the same,
        // otherwise the sector is probably corrupted or in the wrong
        // format.
        let submode = self.raw[18];
        let submode_copy = self.raw[22];
        if submode != submode_copy {
            return Err(SectorError::SubmodeMismatch);
        }
        // Look for form in submode bit 5
        if submode & 0x20 != 0 {
            self.validate_mode2_form2()
        } else {
            self.validate_mode2_form1()
        }
    }

    /// CD-ROM XA Mode 2 Form 1: 0x800 bytes of data protected by a
    /// 32bit CRC for error detection and 276 bytes of error
    /// correction codes.
    fn validate_mode2_form1(self) -> (r: Result<XaSector, SectorError>)
        requires
            self@.len() == SECTOR_SIZE,
        ensures
            match r {
                Ok(sector) => sector@ == self@ && spec_crc32(self@.subrange(16, 2072)) == le_word(
                    self@,
                    2072,
                ),
                Err(e) => e == SectorError::CrcMismatch && spec_crc32(self@.subrange(16, 2072))
                    != le_word(self@, 2072),
            },
    {
        // Validate CRC
        let crc = crc32(&self.raw.as_slice()[16..2072]);
        let sector_crc = self.raw[2072] as u32 | ((self.raw[2073] as u32) << 8) | ((self.raw[2074] as u32) << 16)
            | ((self.raw[2075] as u32) << 24);
        if crc != sector_crc {
            // Sector appears corrupted. Should we attempt to correct
            // it with the ECC data? For now I assume it means it's a
            // bad dump, tell the user to fix it...
            return Err(SectorError::CrcMismatch);
        }
        Ok(self)
    }

    /// CD-ROM XA Mode 2 Form 2: 0x914 bytes of data without ECC or
    /// EDC.
    fn validate_mode2_form2(self) -> (r: Result<XaSector, SectorError>)
        ensures
            r == Ok::<XaSector, SectorError>(self),
    {
        Ok(self)
    }

    /// Return the MSF in the sector's header
    pub fn msf(&self) -> (r: Msf)
        requires
            self@.len() == SECTOR_SIZE,
            msf_valid(self@[12], self@[13], self@[14]),
        ensures
            r.fields() == (self@[12], self@[13], self@[14]),
    {
        // The MSF is recorded just after the sync pattern
        Msf::from_bcd(self.raw[12], self.raw[13], self.raw[14])
    }
}

/// Identify the region of a disc from its license sector (00:02:04):
/// the ASCII license string lies in the 76 data bytes after the
/// header. There are spaces everywhere in the string (including in
/// the middle of some words), only the letters are compared.
pub fn region_from_license(sector: &XaSector) -> (r: Option<Region>)
    requires
        sector@.len() == SECTOR_SIZE,
    ensures
        r == license_region(license_filter(sector@.subrange(24, 100))),
{
    let data = sector.data_bytes();
    let mut license: Vec<u8> = Vec::new();
    let mut i: usize = 24;
    while i < 100
        invariant
            24 <= i <= 100,
            data@ == sector@,
            data@.len() == SECTOR_SIZE,
            license@ == license_filter(data@.subrange(24, i as int)),
        decreases 100 - i,
    {
        let b = data[i];
        assert(data@.subrange(24, i + 1).drop_last() =~= data@.subrange(24, i as int));
        if 0x41 <= b && b <= 0x7a {
            license.push(b);
        }
        i += 1;
    }
    proof {
        reveal_strlit("LicensedbySonyComputerEntertainmentInc");
        reveal_strlit("LicensedbySonyComputerEntertainmentAmerica");
        reveal_strlit("LicensedbySonyComputerEntertainmentofAmerica");
        reveal_strlit("LicensedbySonyComputerEntertainmentEurope");
    }
    if bytes_eq_str(&license, "LicensedbySonyComputerEntertainmentInc") {
        Some(Region::Japan)
    } else if bytes_eq_str(&license, "LicensedbySonyComputerEntertainmentAmerica") {
        Some(Region::NorthAmerica)
    } else if bytes_eq_str(&license, "LicensedbySonyComputerEntertainmentofAmerica") {
        Some(Region::NorthAmerica)
    } else if bytes_eq_str(&license, "LicensedbySonyComputerEntertainmentEurope") {
        Some(Region::Europe)
    } else {
        None
    }
}

/// The bytes `b` are the ASCII encoding of `s`
fn bytes_eq_str(b: &Vec<u8>, s: &str) -> (r: bool)
    requires
        s.is_ascii(),
    ensures
        r == (b@ == ascii(s@)),
{
    let n = s.unicode_len();
    if b.len() != n {
        assert(b@.len() != ascii(s@).len());
        return false;
    }
    let mut i: usize = 0;
    while i < n
        invariant
            i <= n,
            n == s@.len(),
            b@.len() == n,
            s.is_ascii(),
            forall|j: int| 0 <= j < i ==> b@[j] == #[trigger] ascii(s@)[j],
        decreases n - i,
    {
        let c = s.get_char(i);
        if b[i] as char != c {
            assert(b@[i as int] != ascii(s@)[i as int]);
            return false;
        }
        i += 1;
    }
    assert(b@ =~= ascii(s@));
    true
}

} // verus!
