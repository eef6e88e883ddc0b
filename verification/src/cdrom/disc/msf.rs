//! CD "minute:second:frame" timestamps

use vstd::prelude::*;

use crate::text::{push_hex, string_push, hex_digits};

verus! {

/// `b` holds two BCD digits
pub open spec fn bcd_valid(b: u8) -> bool {
    b <= 0x99 && b & 0xf <= 9
}

/// Numerical value of a BCD byte
pub open spec fn bcd_value(b: u8) -> int {
    (b >> 4u8) * 10 + (b & 0xf)
}

/// Increment a BCD byte
pub open spec fn bcd_inc(b: u8) -> u8 {
    if b & 0xf < 9 {
        (b + 1) as u8
    } else {
        ((b & 0xf0) + 0x10) as u8
    }
}

/// Valid MSF coordinates: BCD bytes, less than 60 seconds and 75
/// frames
pub open spec fn msf_valid(m: u8, s: u8, f: u8) -> bool {
    bcd_valid(m) && bcd_valid(s) && bcd_valid(f) && s < 0x60 && f < 0x75
}

/// Sector index of the timestamp with BCD minutes, seconds and frames
/// `t`: 60 seconds in a minute, 75 sectors (frames) in a second
pub open spec fn msf_index(t: (u8, u8, u8)) -> int {
    4500 * bcd_value(t.0) + 75 * bcd_value(t.1) + bcd_value(t.2)
}

/// Timestamp of the sector following `t`
pub open spec fn msf_next(t: (u8, u8, u8)) -> (u8, u8, u8) {
    let (m, s, f) = t;
    if f < 0x74 {
        (m, s, bcd_inc(f))
    } else if s < 0x59 {
        (m, bcd_inc(s), 0)
    } else {
        (bcd_inc(m), 0, 0)
    }
}

/// CD "minute:second:frame" timestamp, given as 3 pairs of *BCD*
/// encoded bytes (4bits per digit). In this context "frame" is
/// synonymous with "sector".
#[derive(Clone, Copy, PartialEq, Eq, Structural, PartialOrd, Ord, Debug)]
pub struct Msf(u8, u8, u8);

impl Msf {
    /// Minutes, seconds and frames (BCD)
    pub closed spec fn fields(self) -> (u8, u8, u8) {
        (self.0, self.1, self.2)
    }

    /// Two timestamps are equal exactly when their fields are
    pub proof fn lemma_fields_eq(self, other: Msf)
        ensures
            (self.fields() == other.fields()) <==> self == other,
    {
    }

    /// The timestamp holds valid BCD coordinates
    pub open spec fn wf(self) -> bool {
        msf_valid(self.fields().0, self.fields().1, self.fields().2)
    }

    /// Sector index of the timestamp
    pub open spec fn spec_sector_index(self) -> int {
        msf_index(self.fields())
    }

    /// Timestamp of the last sector that has a successor
    pub open spec fn is_last(self) -> bool {
        self.fields().0 == 0x99 && self.fields().1 == 0x59 && self.fields().2 == 0x74
    }

    /// Timestamp of the next sector
    pub open spec fn spec_next(self) -> (u8, u8, u8) {
        msf_next(self.fields())
    }

    /// Create a 00:00:00 MSF timestamp
    pub fn zero() -> (r: Msf)
        ensures
            r.wf(),
            r.fields() == (0u8, 0u8, 0u8),
    {
        proof {
            lemma_bcd_bits(0);
        }
        Msf(0, 0, 0)
    }

    /// Build a timestamp from BCD minutes, seconds and frames
    pub fn from_bcd(m: u8, s: u8, f: u8) -> (r: Msf)
        requires
            msf_valid(m, s, f),
        ensures
            r.wf(),
            r.fields() == (m, s, f),
    {
        Msf(m, s, f)
    }

    /// Convert an MSF "coordinate" into a sector index. In this
    /// convention sector 0 is 00:00:00 (i.e. before track 01's
    /// pregap).
    pub fn sector_index(self) -> (r: u32)
        requires
            self.wf(),
        ensures
            r == self.spec_sector_index(),
    {
        let m = from_bcd(self.0) as u32;
        let s = from_bcd(self.1) as u32;
        let f = from_bcd(self.2) as u32;
        assert(4500 * m <= 445500 && 75 * s <= 7425) by (nonlinear_arith)
            requires
                m <= 99,
                s <= 99,
        ;
        // 60 seconds in a minute, 75 sectors(frames) in a second
        (60 * 75 * m) + (75 * s) + f
    }

    /// Timestamp of the sector at `index`, when it can be written
    /// with two BCD minute digits (before 100:00:00)
    pub fn from_sector_index(index: u32) -> (r: Option<Msf>)
        ensures
            r is Some <==> index < 450000,
            r matches Some(m) ==> m.wf() && m.spec_sector_index() == index,
    {
        if index >= 450000 {
            return None;
        }
        let m = (index / 4500) as u8;
        let rem = index % 4500;
        let s = (rem / 75) as u8;
        let f = (rem % 75) as u8;
        let bm = to_bcd(m);
        let bs = to_bcd(s);
        let bf = to_bcd(f);
        assert(index == 4500 * m + 75 * s + f);
        Some(Msf(bm, bs, bf))
    }

    /// Return the MSF timestamp of the next sector
    pub fn next(self) -> (r: Msf)
        requires
            self.wf(),
            !self.is_last(),
        ensures
            r.wf(),
            r.fields() == self.spec_next(),
            r.spec_sector_index() == self.spec_sector_index() + 1,
    {
        let Msf(m, s, f) = self;
        proof {
            lemma_bcd_bits(0);
            lemma_bcd_bits(f);
            lemma_bcd_bits(s);
            lemma_bcd_bits(m);
            if f < 0x74 {
                lemma_bcd_inc(f);
            } else if s < 0x59 {
                lemma_bcd_inc(s);
            } else {
                lemma_bcd_inc(m);
            }
        }
        if f < 0x74 {
            return Msf(m, s, bcd_inc_exec(f));
        }
        if s < 0x59 {
            return Msf(m, bcd_inc_exec(s), 0);
        }
        Msf(bcd_inc_exec(m), 0, 0)
    }

    /// Minutes, seconds and frames (BCD)
    pub fn into_bcd(self) -> (r: (u8, u8, u8))
        ensures
            r == self.fields(),
    {
        (self.0, self.1, self.2)
    }

    /// "mm:ss:ff" representation of the timestamp
    pub fn to_string(self) -> (r: String)
        ensures
            r@ == hex_digits(self.fields().0 as u32, 2) + seq![':'] + hex_digits(
                self.fields().1 as u32,
                2,
            ) + seq![':'] + hex_digits(self.fields().2 as u32, 2),
    {
        let mut r = String::new();
        push_hex(&mut r, self.0 as u32, 2);
        string_push(&mut r, ':');
        push_hex(&mut r, self.1 as u32, 2);
        string_push(&mut r, ':');
        push_hex(&mut r, self.2 as u32, 2);
        r
    }
}

/// Encode `v` (below 100) as two BCD digits
fn to_bcd(v: u8) -> (r: u8)
    requires
        v < 100,
    ensures
        bcd_valid(r),
        bcd_value(r) == v,
        v < 60 ==> r < 0x60,
        v < 75 ==> r < 0x75,
{
    proof {
        lemma_bcd_of(v);
    }
    (v / 10) * 16 + v % 10
}

/// Bit-level facts about the BCD encoding of a value below 100
proof fn lemma_bcd_of(v: u8)
    by (bit_vector)
    requires
        v < 100,
    ensures
        (v / 10) * 16 + v % 10 <= 0x99,
        (((v / 10) * 16 + v % 10) as u8) >> 4u8 == v / 10,
        (((v / 10) * 16 + v % 10) as u8) & 0xf == v % 10,
        v < 60 ==> (v / 10) * 16 + v % 10 < 0x60,
        v < 75 ==> (v / 10) * 16 + v % 10 < 0x75,
{
}

/// Decode a BCD byte
fn from_bcd(b: u8) -> (r: u8)
    requires
        bcd_valid(b),
    ensures
        r == bcd_value(b),
        r <= 99,
{
    proof {
        lemma_bcd_bits(b);
    }
    (b >> 4) * 10u8 + (b & 0xf)
}

fn bcd_inc_exec(b: u8) -> (r: u8)
    requires
        bcd_valid(b),
        b < 0x99,
    ensures
        r == bcd_inc(b),
{
    if b & 0xf < 9 {
        b + 1
    } else {
        proof {
            lemma_bcd_bits(b);
        }
        (b & 0xf0) + 0x10
    }
}

/// Bit-level facts about a byte of two BCD digits
proof fn lemma_bcd_bits(b: u8)
    by (bit_vector)
    ensures
        0u8 & 0xf == 0,
        0u8 >> 4u8 == 0,
        b == 0x74 ==> (b & 0xf == 4 && b >> 4u8 == 7),
        b == 0x59 ==> (b & 0xf == 9 && b >> 4u8 == 5),
        b <= 0x99 ==> (b >> 4u8) <= 9,
        (b < 0x99 && b & 0xf == 9) ==> (b & 0xf0) <= 0x80,
        (b < 0x75 && b >= 0x74) ==> b == 0x74,
        (b < 0x60 && b >= 0x59 && b & 0xf <= 9) ==> b == 0x59,
        (b & 0xf <= 9 && b < 0x74) ==> bcd_inc(b) <= 0x74,
        (b & 0xf <= 9 && b < 0x59) ==> bcd_inc(b) <= 0x59,
        (b & 0xf < 9 && b < 0x99) ==> (((b + 1) as u8) >> 4u8 == b >> 4u8 && ((b + 1) as u8) & 0xf
            == (b & 0xf) + 1 && ((b + 1) as u8) <= 0x99 && ((b + 1) as u8) > b),
        (b & 0xf == 9 && b < 0x99) ==> ((((b & 0xf0) + 0x10) as u8) >> 4u8 == (b >> 4u8) + 1 && (((
        b & 0xf0) + 0x10) as u8) & 0xf == 0 && (((b & 0xf0) + 0x10) as u8) <= 0x99 && (((b & 0xf0)
            + 0x10) as u8) > b),
{
}

/// Incrementing a BCD byte adds one to its value and keeps it BCD
pub proof fn lemma_bcd_inc(b: u8)
    requires
        bcd_valid(b),
        b < 0x99,
    ensures
        bcd_valid(bcd_inc(b)),
        bcd_value(bcd_inc(b)) == bcd_value(b) + 1,
        bcd_inc(b) > b,
        b < 0x74 ==> bcd_inc(b) <= 0x74,
        b < 0x59 ==> bcd_inc(b) <= 0x59,
{
    lemma_bcd_bits(b);
}

} // verus!
