use rustation::cdrom::disc::msf::Msf;
use rustation::cdrom::disc::SECTOR_SIZE;
use rustation::cdrom::iso9660::{
    extent_start, is_primary_volume_descriptor, read_extent_sector, root_directory_extent, Directory, Error,
};

fn descriptor(kind: u8) -> Vec<u8> {
    let mut s = vec![0u8; SECTOR_SIZE];
    s[24] = kind;
    s[25..30].copy_from_slice(b"CD001");
    s[24 + 6] = 1;
    s
}

#[test]
fn volume_descriptor_types() {
    assert!(matches!(is_primary_volume_descriptor(&descriptor(0x01)), Ok(true)));
    assert!(matches!(is_primary_volume_descriptor(&descriptor(0x02)), Ok(false)));
    assert!(matches!(
        is_primary_volume_descriptor(&descriptor(0xff)),
        Err(Error::MissingPrimaryVolumeDescriptor)
    ));
    let mut bad = descriptor(0x01);
    bad[27] = b'X';
    assert!(matches!(is_primary_volume_descriptor(&bad), Err(Error::BadMagic)));
}

#[test]
fn root_directory_record() {
    let mut s = descriptor(0x01);
    s[24 + 181] = 0x02;
    s[24 + 158..24 + 162].copy_from_slice(&[0x16, 0x00, 0x00, 0x00]);
    s[24 + 166..24 + 170].copy_from_slice(&[0x00, 0x08, 0x00, 0x00]);
    assert!(matches!(root_directory_extent(&s), Ok((0x16, 0x800))));
    s[24 + 158..24 + 162].copy_from_slice(&[0x78, 0x56, 0x34, 0x12]);
    assert!(matches!(root_directory_extent(&s), Ok((0x1234_5678, 0x800))));
    s[24 + 181] = 0x00;
    match root_directory_extent(&s) {
        Err(Error::BadFormat(m)) => assert_eq!(m, "Root directory is not a directory"),
        _ => panic!("a plain file as root directory is refused"),
    }
    s[24 + 6] = 2;
    assert!(matches!(root_directory_extent(&s), Err(Error::BadVolumDescriptorVersion)));
}

#[test]
fn extent_location() {
    let m = extent_start(22).ok().unwrap();
    assert_eq!(m.to_string(), "00:00:22");
    assert_eq!(m.sector_index(), 22);
    assert_eq!(extent_start(4500 * 2 + 75 * 3 + 4).ok().unwrap().to_string(), "02:03:04");
    assert!(matches!(extent_start(450000), Err(Error::BadExtent(450000))));
    assert_eq!(Msf::from_sector_index(449999).unwrap().to_string(), "99:59:74");
    assert!(Msf::from_sector_index(450000).is_none());
}

#[test]
fn extent_read_sector_by_sector() {
    let mut s = vec![0u8; SECTOR_SIZE];
    for (i, b) in s.iter_mut().enumerate() {
        *b = i as u8;
    }
    let mut extent = Vec::new();
    assert_eq!(read_extent_sector(&mut extent, &s, 3000), 952);
    assert_eq!(extent.len(), 2048);
    assert_eq!(extent[0], 24);
    assert_eq!(extent[2047], (2047 + 24) as u8);
    assert_eq!(read_extent_sector(&mut extent, &s, 952), 0);
    assert_eq!(extent.len(), 3000);
    assert_eq!(extent[2048], 24);
}

fn record(name: &[u8], len: u8) -> Vec<u8> {
    let mut r = vec![0u8; len as usize];
    r[0] = len;
    r[32] = name.len() as u8;
    r[33..33 + name.len()].copy_from_slice(name);
    r
}

#[test]
fn directory_listing() {
    let mut extent = record(&[0], 34);
    extent.extend(record(b"SYSTEM.CNF;1", 46));
    let dir = Directory::new(extent.clone());
    assert!(dir.is_listable());
    assert_eq!(dir.ls(), vec![vec![0u8], b"SYSTEM.CNF;1".to_vec()]);
    // A record shorter than the fixed part is malformed
    extent.extend(vec![10u8; 10]);
    assert!(!Directory::new(extent).is_listable());
    assert!(Directory::new(Vec::new()).is_listable());
    assert_eq!(Directory::new(Vec::new()).ls(), Vec::<Vec<u8>>::new());
}
