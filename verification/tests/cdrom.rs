use rustation::cdrom::disc::msf::Msf;
use rustation::cdrom::disc::{crc32, region_from_license, Disc, Region, SectorError, XaSector};
use rustation::cdrom::fifo::Fifo;
use rustation::cdrom::model::CdError;
use rustation::cdrom::simple_rand::SimpleRand;
use rustation::cdrom::{CdRom, Sector};
use rustation::memory::{Byte, Word};
use rustation::shared::SharedState;

#[test]
fn msf_next_moves_one_sector() {
    let m = Msf::from_bcd(0x00, 0x01, 0x74);
    let n = m.next();
    assert_eq!(n, Msf::from_bcd(0x00, 0x02, 0x00));
    assert_eq!(n.sector_index(), m.sector_index() + 1);
    assert_eq!(n.sector_index(), 150);
    let m = Msf::from_bcd(0x09, 0x59, 0x74);
    assert_eq!(m.next().into_bcd(), (0x10, 0x00, 0x00));
    let m = Msf::from_bcd(0x00, 0x00, 0x09);
    assert_eq!(m.next().into_bcd(), (0x00, 0x00, 0x10));
}

#[test]
fn msf_sector_index_and_string() {
    assert_eq!(Msf::zero().sector_index(), 0);
    assert_eq!(Msf::from_bcd(0x01, 0x02, 0x03).sector_index(), 4500 + 150 + 3);
    assert_eq!(Msf::from_bcd(0x99, 0x59, 0x74).sector_index(), 99 * 4500 + 59 * 75 + 74);
    assert_eq!(Msf::from_bcd(0x12, 0x34, 0x56).to_string(), "12:34:56");
}

#[test]
fn simple_rand_never_zero() {
    let mut r = SimpleRand::new();
    // One XorShift round from the seed 1
    assert_eq!(r.next(), 198753);
    for _ in 0..10_000 {
        assert!(r.next() != 0);
    }
}

#[test]
fn fifo_is_first_in_first_out() {
    let mut f = Fifo::new();
    assert!(f.is_empty());
    assert!(!f.is_full());
    f.push(1);
    f.push(2);
    f.push_slice(&[3, 4]);
    assert_eq!(f.len(), 4);
    assert_eq!(f.pop(), 1);
    assert_eq!(f.pop(), 2);
    assert_eq!(f.pop(), 3);
    assert_eq!(f.pop(), 4);
    assert!(f.is_empty());
    for i in 0..16 {
        f.push(i);
    }
    assert!(f.is_full());
    assert_eq!(f.len(), 16);
    f.clear();
    assert!(f.is_empty());
    assert_eq!(f.len(), 0);
}

#[test]
fn crc32_values() {
    assert_eq!(crc32(&[]), 0);
    // A single bit through the shift register
    assert_eq!(crc32(&[1]), 0x90910101);
    assert!(crc32(&[1, 2, 3]) != crc32(&[3, 2, 1]));
}

fn license_sector(text: &[u8]) -> XaSector {
    let mut raw = vec![0u8; 2352];
    for (i, &b) in text.iter().enumerate() {
        raw[24 + i] = b;
    }
    XaSector::from_raw(raw)
}

#[test]
fn region_from_license_strings() {
    let s = license_sector(b"          Licensed  by          Sony Computer Entertainment Euro pe   ");
    assert_eq!(region_from_license(&s), Some(Region::Europe));
    let s = license_sector(b"Licensed by Sony Computer Entertainment Inc.");
    assert_eq!(region_from_license(&s), Some(Region::Japan));
    let s = license_sector(b"Licensed by Sony Computer Entertainment America");
    assert_eq!(region_from_license(&s), Some(Region::NorthAmerica));
    let s = license_sector(b"Licensed by Sony Computer Entertainment of America");
    assert_eq!(region_from_license(&s), Some(Region::NorthAmerica));
    let s = license_sector(b"Not a PlayStation disc");
    assert_eq!(region_from_license(&s), None);
}

fn mode2_sector(msf: (u8, u8, u8), submode: u8) -> Vec<u8> {
    let mut raw = vec![0u8; 2352];
    for i in 1..11 {
        raw[i] = 0xff;
    }
    raw[12] = msf.0;
    raw[13] = msf.1;
    raw[14] = msf.2;
    raw[15] = 2;
    raw[18] = submode;
    raw[22] = submode;
    raw
}

#[test]
fn sector_validation() {
    let msf = Msf::from_bcd(0x00, 0x02, 0x04);
    // Form 2: no EDC
    let s = XaSector::from_raw(mode2_sector((0x00, 0x02, 0x04), 0x20));
    assert!(s.validate_mode_1_2(msf).is_ok());
    // Form 1 with the right EDC
    let mut raw = mode2_sector((0x00, 0x02, 0x04), 0x08);
    let edc = crc32(&raw[16..2072]);
    raw[2072..2076].copy_from_slice(&edc.to_le_bytes());
    let s = XaSector::from_raw(raw.clone());
    let s = s.validate_mode_1_2(msf).ok().unwrap();
    assert_eq!(s.data_byte(18), 0x08);
    assert_eq!(s.msf(), msf);
    // Bad EDC
    raw[100] ^= 1;
    let r = XaSector::from_raw(raw).validate_mode_1_2(msf);
    assert!(matches!(r, Err(SectorError::CrcMismatch)));
    // Bad sync
    let mut raw = mode2_sector((0x00, 0x02, 0x04), 0x20);
    raw[0] = 1;
    assert!(matches!(XaSector::from_raw(raw).validate_mode_1_2(msf), Err(SectorError::BadSync)));
    // Wrong MSF
    let raw = mode2_sector((0x00, 0x02, 0x05), 0x20);
    assert!(matches!(XaSector::from_raw(raw).validate_mode_1_2(msf), Err(SectorError::MsfMismatch)));
    // Mode 1 and unknown modes
    let mut raw = mode2_sector((0x00, 0x02, 0x04), 0x20);
    raw[15] = 1;
    assert!(matches!(XaSector::from_raw(raw.clone()).validate_mode_1_2(msf), Err(SectorError::UnhandledMode1)));
    raw[15] = 3;
    assert!(matches!(XaSector::from_raw(raw).validate_mode_1_2(msf), Err(SectorError::UnhandledMode(3))));
    // Submode copies differ
    let mut raw = mode2_sector((0x00, 0x02, 0x04), 0x20);
    raw[22] = 0;
    assert!(matches!(XaSector::from_raw(raw).validate_mode_1_2(msf), Err(SectorError::SubmodeMismatch)));
}

/// Run `cycles` cycles then synchronize the controller
fn run(cd: &mut CdRom, shared: &mut SharedState, cycles: u64) {
    shared.tk().tick(cycles);
    cd.sync(shared).unwrap();
}

fn write(cd: &mut CdRom, shared: &mut SharedState, index: u8, offset: u32, val: u8) {
    cd.store::<Byte>(shared, 0, index as u32).unwrap();
    cd.store::<Byte>(shared, offset, val as u32).unwrap();
}

fn read(cd: &mut CdRom, shared: &mut SharedState, index: u8, offset: u32) -> u8 {
    cd.store::<Byte>(shared, 0, index as u32).unwrap();
    cd.load::<Byte>(shared, offset).unwrap() as u8
}

#[test]
fn get_stat_without_disc() {
    let mut shared = SharedState::new();
    let mut cd = CdRom::new(None);
    // Unmask all the controller interrupts
    write(&mut cd, &mut shared, 1, 2, 0x1f);
    // Parameter FIFO empty and writable, nothing to read, not busy
    assert_eq!(read(&mut cd, &mut shared, 0, 0), 0x18);
    write(&mut cd, &mut shared, 0, 1, 0x01);
    // Busy while the command runs
    assert_eq!(read(&mut cd, &mut shared, 0, 0) & 0x80, 0x80);
    run(&mut cd, &mut shared, 100_000);
    // IRQ code 3: first response
    assert_eq!(read(&mut cd, &mut shared, 1, 3), 0xe3);
    assert!(shared.irq_state().status() & (1 << 2) != 0);
    // Shell open without a disc
    assert_eq!(read(&mut cd, &mut shared, 0, 1), 0x10);
    // Response FIFO now empty
    assert_eq!(cd.load::<Byte>(&mut shared, 1), Err(CdError::ResponseUnderflow));
}

#[test]
fn get_id_without_disc_is_an_error() {
    let mut shared = SharedState::new();
    let mut cd = CdRom::new(None);
    write(&mut cd, &mut shared, 0, 1, 0x1a);
    run(&mut cd, &mut shared, 100_000);
    // IRQ code 5: error
    assert_eq!(read(&mut cd, &mut shared, 1, 3), 0xe5);
    assert_eq!(read(&mut cd, &mut shared, 0, 1), 0x11);
    assert_eq!(read(&mut cd, &mut shared, 0, 1), 0x80);
}

#[test]
fn test_version_command() {
    let mut shared = SharedState::new();
    let mut cd = CdRom::new(None);
    write(&mut cd, &mut shared, 0, 2, 0x20);
    write(&mut cd, &mut shared, 0, 1, 0x19);
    run(&mut cd, &mut shared, 100_000);
    assert_eq!(read(&mut cd, &mut shared, 0, 1), 0x98);
    assert_eq!(read(&mut cd, &mut shared, 0, 1), 0x06);
    assert_eq!(read(&mut cd, &mut shared, 0, 1), 0x10);
    assert_eq!(read(&mut cd, &mut shared, 0, 1), 0xc3);
}

#[test]
fn controller_errors() {
    let mut shared = SharedState::new();
    let mut cd = CdRom::new(None);
    // Unknown command
    write(&mut cd, &mut shared, 0, 1, 0xff);
    shared.tk().tick(100_000);
    assert_eq!(cd.sync(&mut shared), Err(CdError::UnhandledCommand(0xff)));

    let mut shared = SharedState::new();
    let mut cd = CdRom::new(None);
    // Wrong parameter count
    write(&mut cd, &mut shared, 0, 2, 0x00);
    write(&mut cd, &mut shared, 0, 1, 0x01);
    shared.tk().tick(100_000);
    assert_eq!(cd.sync(&mut shared), Err(CdError::WrongParamCount(0x01, 1)));

    let mut shared = SharedState::new();
    let mut cd = CdRom::new(None);
    // Invalid BCD in SetLoc
    write(&mut cd, &mut shared, 0, 2, 0x00);
    write(&mut cd, &mut shared, 0, 2, 0x0a);
    write(&mut cd, &mut shared, 0, 2, 0x00);
    write(&mut cd, &mut shared, 0, 1, 0x02);
    shared.tk().tick(100_000);
    assert_eq!(cd.sync(&mut shared), Err(CdError::InvalidMsf(0x00, 0x0a, 0x00)));

    let mut shared = SharedState::new();
    let mut cd = CdRom::new(None);
    // Nested command, parameter during a command
    write(&mut cd, &mut shared, 0, 1, 0x01);
    assert_eq!(cd.store::<Byte>(&mut shared, 1, 0x01), Err(CdError::NestedCommand(0x01, 0x01)));
    assert_eq!(cd.store::<Byte>(&mut shared, 2, 0x00), Err(CdError::ParamDuringCommand(0x01)));
    // 32 bit accesses and unknown registers
    assert_eq!(cd.load::<Word>(&mut shared, 0), Err(CdError::UnhandledWidth));
    assert_eq!(cd.load::<Byte>(&mut shared, 2), Err(CdError::UnhandledLoad(2, 0)));
    assert_eq!(cd.store::<Byte>(&mut shared, 4, 0), Err(CdError::UnhandledStore(4, 0, 0)));
    // RX data without an active transfer
    assert_eq!(cd.dma_read_word(), Err(CdError::ReadInactive));
}

#[test]
fn parameter_fifo_overflow() {
    let mut shared = SharedState::new();
    let mut cd = CdRom::new(None);
    for _ in 0..16 {
        write(&mut cd, &mut shared, 0, 2, 0x00);
    }
    // Parameter FIFO full: not write ready
    assert_eq!(read(&mut cd, &mut shared, 0, 0) & 0x10, 0);
    assert_eq!(cd.store::<Byte>(&mut shared, 2, 0), Err(CdError::ParamOverflow));
    // HCLRCTL bit 6 clears the parameter FIFO
    write(&mut cd, &mut shared, 1, 3, 0x40);
    assert_eq!(read(&mut cd, &mut shared, 0, 0), 0x18);
}

#[test]
fn read_a_sector() {
    let mut shared = SharedState::new();
    let mut cd = CdRom::new(Some(Disc::new(Region::Europe)));
    // SetLoc 00:02:00
    write(&mut cd, &mut shared, 0, 2, 0x00);
    write(&mut cd, &mut shared, 0, 2, 0x02);
    write(&mut cd, &mut shared, 0, 2, 0x00);
    write(&mut cd, &mut shared, 0, 1, 0x02);
    run(&mut cd, &mut shared, 50_000);
    assert_eq!(read(&mut cd, &mut shared, 1, 3), 0xe3);
    // Motor on
    assert_eq!(read(&mut cd, &mut shared, 0, 1), 0x02);
    // Acknowledge
    write(&mut cd, &mut shared, 1, 3, 0x07);
    assert!(cd.wanted_sector().is_none());
    // ReadN
    write(&mut cd, &mut shared, 0, 1, 0x06);
    run(&mut cd, &mut shared, 50_000);
    // Motor on, reading
    assert_eq!(read(&mut cd, &mut shared, 0, 1), 0x22);
    write(&mut cd, &mut shared, 1, 3, 0x07);
    let msf = cd.wanted_sector().unwrap();
    assert_eq!(msf, Msf::from_bcd(0x00, 0x02, 0x00));
    let mut raw = vec![0u8; 2352];
    for (i, b) in raw.iter_mut().enumerate() {
        *b = i as u8;
    }
    cd.supply_sector(msf, Sector::new(raw, None, [1, 1, 0, 0, 0, 0, 2, 0]));
    assert!(cd.wanted_sector().is_none());
    run(&mut cd, &mut shared, 500_000);
    run(&mut cd, &mut shared, 20_000);
    // IRQ code 1: sector ready
    assert_eq!(read(&mut cd, &mut shared, 1, 3), 0xe1);
    assert_eq!(read(&mut cd, &mut shared, 0, 1), 0x22);
    // The next sector is wanted
    assert_eq!(cd.wanted_sector(), Some(Msf::from_bcd(0x00, 0x02, 0x01)));
    // Data request: the whole sector but the sync pattern
    write(&mut cd, &mut shared, 0, 3, 0x80);
    assert_eq!(read(&mut cd, &mut shared, 0, 0) & 0x40, 0x40);
    assert_eq!(cd.dma_read_word(), Ok(u32::from_le_bytes([12, 13, 14, 15])));
    assert_eq!(cd.dma_read_word(), Ok(u32::from_le_bytes([16, 17, 18, 19])));
    // Not supplied in time: the read fails
    write(&mut cd, &mut shared, 1, 3, 0x07);
    shared.tk().tick(500_000);
    assert_eq!(cd.sync(&mut shared), Err(CdError::SectorUnavailable));
}

#[test]
fn disc_swap() {
    let mut cd = CdRom::new(None);
    assert!(cd.set_disc(Some(Disc::new(Region::Japan))).is_none());
    let d = cd.remove_disc().unwrap();
    assert_eq!(d.region(), Region::Japan);
    assert!(cd.remove_disc().is_none());
}

#[test]
fn sector_from_disc_bytes() {
    let msf = Msf::from_bcd(0x00, 0x02, 0x16);
    // Mode 2 Form 2: 0x914 bytes of payload
    let mut raw = vec![0u8; 2352];
    raw[15] = 2;
    raw[18] = 0x20;
    raw[24] = 0xaa;
    let s = Sector::from_disc(raw.clone(), msf);
    assert_eq!(s.raw(), &raw);
    assert_eq!(s.payload().as_ref().map(|p| p.len()), Some(0x914));
    assert_eq!(s.payload().as_ref().map(|p| p[0]), Some(0xaa));
    assert_eq!(s.q(), [0x01, 0x01, 0x00, 0x02, 0x16, 0x00, 0x02, 0x16]);
    // Form 1: 0x800 bytes
    raw[18] = 0;
    let s = Sector::from_disc(raw.clone(), msf);
    assert_eq!(s.payload().as_ref().map(|p| p.len()), Some(0x800));
    // Mode 1: no payload
    raw[15] = 1;
    let s = Sector::from_disc(raw, msf);
    assert!(s.payload().is_none());
}
