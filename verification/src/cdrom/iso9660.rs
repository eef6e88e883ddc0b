//! ISO9660 filesystem of a data disc: the volume descriptors and the
//! root directory. The sectors themselves are read by the frontend;
//! these functions decide what each sector read means and what to
//! read next.

use vstd::prelude::*;

use super::disc::SECTOR_SIZE;
use super::disc::msf::Msf;

verus! {

/// Offset of the Mode 2 XA payload in a raw sector (after the sync
/// pattern, the header and the subheader)
pub const PAYLOAD_OFFSET: usize = 24;

/// Bytes of an extent held by each of its sectors
pub const EXTENT_BYTES_PER_SECTOR: u32 = 2048;

/// Smallest directory record: the fixed part before the identifier
pub const MIN_RECORD_LEN: u8 = 34;

/// Errors met while opening the filesystem
#[derive(Debug)]
pub enum Error {
    /// Couldn't find the ISO9660 magic "CD001"
    BadMagic,
    /// Couldn't find the Primary Volume Descriptor
    MissingPrimaryVolumeDescriptor,
    /// Unexpected Volume Descriptor version
    BadVolumDescriptorVersion,
    /// Encountered an invalid extent location
    BadExtent(u32),
    /// Miscellaneous ISO9660 format error containing a description of
    /// the problem
    BadFormat(String),
}

/// Byte `i` of the payload of the raw sector `s`
pub open spec fn payload_byte(s: Seq<u8>, i: int) -> u8 {
    s[PAYLOAD_OFFSET + i]
}

/// The volume descriptor's "standard identifier" (payload bytes 1 to
/// 5) is "CD001"
pub open spec fn has_magic(s: Seq<u8>) -> bool {
    &&& payload_byte(s, 1) == 0x43
    &&& payload_byte(s, 2) == 0x44
    &&& payload_byte(s, 3) == 0x30
    &&& payload_byte(s, 4) == 0x30
    &&& payload_byte(s, 5) == 0x31
}

/// Little endian 32bit number at payload offset `i`: the first half
/// of an ISO9660 "both byte order" number
pub open spec fn payload_u32(s: Seq<u8>, i: int) -> u32 {
    (payload_byte(s, i) + 0x100 * payload_byte(s, i + 1) + 0x10000 * payload_byte(s, i + 2)
        + 0x1000000 * payload_byte(s, i + 3)) as u32
}

/// Sector of the volume descriptor set: tells whether it holds the
/// Primary Volume Descriptor (descriptor type 1). A Volume Descriptor
/// Set Terminator (type 0xff) ends the search, other descriptor types
/// are skipped.
pub fn is_primary_volume_descriptor(sector: &[u8]) -> (r: Result<bool, Error>)
    requires
        sector@.len() == SECTOR_SIZE,
    ensures
        !has_magic(sector@) ==> r matches Err(Error::BadMagic),
        has_magic(sector@) && payload_byte(sector@, 0) == 0x01 ==> r matches Ok(true),
        has_magic(sector@) && payload_byte(sector@, 0) == 0xff ==> r matches Err(
            Error::MissingPrimaryVolumeDescriptor,
        ),
        has_magic(sector@) && payload_byte(sector@, 0) != 0x01 && payload_byte(sector@, 0) != 0xff
            ==> r matches Ok(false),
{
    let p = PAYLOAD_OFFSET;
    // Check volume descriptor "standard identifier"
    if !(sector[p + 1] == 0x43 && sector[p + 2] == 0x44 && sector[p + 3] == 0x30 && sector[p + 4]
        == 0x30 && sector[p + 5] == 0x31) {
        return Err(Error::BadMagic);
    }
    // Byte 0 contains the "volume descriptor type".
    let kind = sector[p];
    if kind == 0x01 {
        Ok(true)
    } else if kind == 0xff {
        Err(Error::MissingPrimaryVolumeDescriptor)
    } else {
        Ok(false)
    }
}

/// Little endian 32bit number at payload offset `i`
fn read_u32(sector: &[u8], i: usize) -> (r: u32)
    requires
        sector@.len() == SECTOR_SIZE,
        i + 4 <= 2048,
    ensures
        r == payload_u32(sector@, i as int),
{
    let p = PAYLOAD_OFFSET + i;
    let b0 = sector[p] as u32;
    let b1 = sector[p + 1] as u32;
    let b2 = sector[p + 2] as u32;
    let b3 = sector[p + 3] as u32;
    b0 + 0x100 * b1 + 0x10000 * b2 + 0x1000000 * b3
}

/// The root directory record of the Primary Volume Descriptor held
/// by `sector`: location (sector index within the track) and length
/// in bytes of the root directory's extent. The root directory record
/// lies at payload bytes 156 to 189: its flags at 181, its location at
/// 158 and its length at 166.
pub fn root_directory_extent(sector: &[u8]) -> (r: Result<(u32, u32), Error>)
    requires
        sector@.len() == SECTOR_SIZE,
    ensures
        payload_byte(sector@, 6) != 0x01 ==> r matches Err(Error::BadVolumDescriptorVersion),
        payload_byte(sector@, 6) == 0x01 && payload_byte(sector@, 181) & 0x2 == 0 ==> (r matches Err(
            Error::BadFormat(m),
        ) && m@ == "Root directory is not a directory"@),
        payload_byte(sector@, 6) == 0x01 && payload_byte(sector@, 181) & 0x2 != 0 ==> r == Ok::<
            (u32, u32),
            Error,
        >((payload_u32(sector@, 158), payload_u32(sector@, 166))),
{
    let p = PAYLOAD_OFFSET;
    // Volume Descriptor Version
    if sector[p + 6] != 0x01 {
        return Err(Error::BadVolumDescriptorVersion);
    }
    // We can now open the root directory descriptor
    let flags = sector[p + 156 + 25];
    let is_dir = (flags & 0x2) != 0;
    if !is_dir {
        return Err(Error::BadFormat("Root directory is not a directory".to_owned()));
    }
    let extent_location = read_u32(sector, 156 + 2);
    let extent_len = read_u32(sector, 156 + 10);
    Ok((extent_location, extent_len))
}

/// Timestamp, within the track, of the first sector of the extent at
/// `extent_location`
pub fn extent_start(extent_location: u32) -> (r: Result<Msf, Error>)
    ensures
        extent_location < 450000 ==> (r matches Ok(m) && m.wf() && m.spec_sector_index()
            == extent_location),
        extent_location >= 450000 ==> (r matches Err(Error::BadExtent(l)) && l == extent_location),
{
    match Msf::from_sector_index(extent_location) {
        Some(m) => Ok(m),
        None => Err(Error::BadExtent(extent_location)),
    }
}

/// Bytes of the extent that the next sector holds when `remaining`
/// bytes are still to be read
pub open spec fn extent_chunk(remaining: u32) -> u32 {
    if remaining > EXTENT_BYTES_PER_SECTOR {
        EXTENT_BYTES_PER_SECTOR
    } else {
        remaining
    }
}

/// Append to `extent` the extent bytes that `sector` holds, `remaining`
/// bytes being still to be read; returns the number of bytes left to
/// read after this sector
pub fn read_extent_sector(extent: &mut Vec<u8>, sector: &[u8], remaining: u32) -> (left: u32)
    requires
        sector@.len() == SECTOR_SIZE,
    ensures
        final(extent)@ == old(extent)@ + sector@.subrange(
            PAYLOAD_OFFSET as int,
            PAYLOAD_OFFSET + extent_chunk(remaining),
        ),
        left == remaining - extent_chunk(remaining),
{
    let len = if remaining > EXTENT_BYTES_PER_SECTOR {
        EXTENT_BYTES_PER_SECTOR
    } else {
        remaining
    };
    let ghost start = extent@;
    let mut i: u32 = 0;
    while i < len
        invariant
            len == extent_chunk(remaining),
            len <= EXTENT_BYTES_PER_SECTOR,
            sector@.len() == SECTOR_SIZE,
            i <= len,
            extent@ == start + sector@.subrange(PAYLOAD_OFFSET as int, PAYLOAD_OFFSET + i),
        decreases len - i,
    {
        extent.push(sector[PAYLOAD_OFFSET + i as usize]);
        i += 1;
        assert(extent@ =~= start + sector@.subrange(PAYLOAD_OFFSET as int, PAYLOAD_OFFSET + i));
    }
    remaining - len
}

/// Identifiers of the records of the directory extent `e`, in order,
/// or `None` when the records are malformed: each record starts with
/// its length (at least 34 bytes, within the extent), holds the length
/// of its identifier at byte 32 and the identifier from byte 33
pub open spec fn directory_names(e: Seq<u8>) -> Option<Seq<Seq<u8>>>
    decreases e.len(),
{
    if e.len() == 0 {
        Some(Seq::empty())
    } else if (e[0] as int) < MIN_RECORD_LEN || (e[0] as int) > e.len() || 33 + (e[32] as int)
        > e.len() {
        None
    } else {
        match directory_names(e.subrange(e[0] as int, e.len() as int)) {
            Some(rest) => Some(seq![e.subrange(33, 33 + e[32] as int)] + rest),
            None => None,
        }
    }
}

/// Views of the byte vectors `v`
pub open spec fn names_view(v: Seq<Vec<u8>>) -> Seq<Seq<u8>> {
    v.map_values(|n: Vec<u8>| n@)
}

/// The names `acc` followed by those of `rest`, if any
pub open spec fn glue(acc: Seq<Seq<u8>>, rest: Option<Seq<Seq<u8>>>) -> Option<Seq<Seq<u8>>> {
    match rest {
        Some(r) => Some(acc + r),
        None => None,
    }
}

/// Copy of `e[start..end]`
fn copy_bytes(e: &Vec<u8>, start: usize, end: usize) -> (r: Vec<u8>)
    requires
        start <= end <= e@.len(),
    ensures
        r@ == e@.subrange(start as int, end as int),
{
    let mut r: Vec<u8> = Vec::new();
    let mut i = start;
    while i < end
        invariant
            start <= i <= end <= e@.len(),
            r@ == e@.subrange(start as int, i as int),
        decreases end - i,
    {
        r.push(e[i]);
        i += 1;
        assert(r@ =~= e@.subrange(start as int, i as int));
    }
    r
}

/// Identifiers of the records of the directory extent `e`, or `None`
/// when they are malformed
fn list_records(e: &Vec<u8>) -> (r: Option<Vec<Vec<u8>>>)
    ensures
        r is Some <==> directory_names(e@) is Some,
        r matches Some(v) ==> names_view(v@) == directory_names(e@).unwrap(),
{
    let mut names: Vec<Vec<u8>> = Vec::new();
    let mut pos: usize = 0;
    let len = e.len();
    proof {
        assert(e@.subrange(0, len as int) =~= e@);
        assert(names_view(names@) =~= Seq::<Seq<u8>>::empty());
        match directory_names(e@) {
            Some(r) => assert(Seq::<Seq<u8>>::empty() + r =~= r),
            None => {},
        }
    }
    while pos < len
        invariant
            pos <= len == e@.len(),
            directory_names(e@) == glue(
                names_view(names@),
                directory_names(e@.subrange(pos as int, len as int)),
            ),
        decreases len - pos,
    {
        let ghost e2 = e@.subrange(pos as int, len as int);
        let dir_len = e[pos] as usize;
        assert(e2[0] == e[pos as int]);
        if dir_len < 34 || dir_len > len - pos {
            return None;
        }
        let name_len = e[pos + 32] as usize;
        assert(e2[32] == e[pos + 32]);
        if 33 + name_len > len - pos {
            return None;
        }
        let name = copy_bytes(e, pos + 33, pos + 33 + name_len);
        proof {
            assert(e2.subrange(dir_len as int, e2.len() as int) =~= e@.subrange(
                pos + dir_len,
                len as int,
            ));
            assert(e2.subrange(33, 33 + name_len) =~= name@);
            let acc = names_view(names@);
            assert(names_view(names@.push(name)) =~= acc.push(name@));
            match directory_names(e@.subrange(pos + dir_len, len as int)) {
                Some(rest) => {
                    assert(acc.push(name@) + rest =~= acc + (seq![name@] + rest));
                },
                None => {},
            }
        }
        names.push(name);
        pos += dir_len;
    }
    proof {
        assert(e@.subrange(pos as int, len as int) =~= Seq::<u8>::empty());
        assert(names_view(names@) + Seq::<Seq<u8>>::empty() =~= names_view(names@));
    }
    Some(names)
}

/// Structure representing an ISO9660 directory
pub struct Directory {
    /// Contents of the directory
    extent: Vec<u8>,
}

impl Directory {
    /// Bytes of the directory's extent
    pub closed spec fn extent_bytes(&self) -> Seq<u8> {
        self.extent@
    }

    /// The directory whose extent holds `extent`
    pub fn new(extent: Vec<u8>) -> (d: Directory)
        ensures
            d.extent_bytes() == extent@,
    {
        Directory { extent }
    }

    /// The records of the directory are well formed, so that they can
    /// be listed
    pub fn is_listable(&self) -> (r: bool)
        ensures
            r == directory_names(self.extent_bytes()) is Some,
    {
        list_records(&self.extent).is_some()
    }

    /// Identifiers of the directory's entries, in order
    pub fn ls(&self) -> (names: Vec<Vec<u8>>)
        requires
            directory_names(self.extent_bytes()) is Some,
        ensures
            names_view(names@) == directory_names(self.extent_bytes()).unwrap(),
    {
        match list_records(&self.extent) {
            Some(v) => v,
            None => Vec::new(),
        }
    }
}

} // verus!
