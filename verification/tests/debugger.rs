use rustation::debugger::gdb::request::{decode_request, BreakKind, Request};
use rustation::debugger::gdb::reply::{hex_ascii, Reply};
use rustation::debugger::gdb::{
    ascii_hex, empty_packet, error_packet, next_packet, ok_packet, parse_addr_len, parse_breakpoint,
    memory_reply, parse_hex, read_memory_plan, status_packet, string_packet, PacketParser, PacketResult,
};
use rustation::memory::AccessWidth;

#[test]
fn packet_round_trip() {
    let p = string_packet(b"qSupported");
    assert_eq!(p[0], b'$');
    match next_packet(&p) {
        PacketResult::Valid(payload) => assert_eq!(payload, b"qSupported".to_vec()),
        _ => panic!("packet not recognized"),
    }
    // Junk before the packet is skipped
    let mut stream = b"+++".to_vec();
    stream.extend_from_slice(&ok_packet());
    match next_packet(&stream) {
        PacketResult::Valid(payload) => assert_eq!(payload, b"OK".to_vec()),
        _ => panic!("packet not recognized"),
    }
}

#[test]
fn canned_packets() {
    assert_eq!(empty_packet(), b"$#00".to_vec());
    assert_eq!(ok_packet(), b"$OK#9a".to_vec());
    assert_eq!(error_packet(), b"$E00#a5".to_vec());
    assert_eq!(status_packet(), b"$S00#b3".to_vec());
}

#[test]
fn bad_checksum_and_end_of_stream() {
    match next_packet(b"$OK#00") {
        PacketResult::BadChecksum(payload) => assert_eq!(payload, b"OK".to_vec()),
        _ => panic!("bad checksum not detected"),
    }
    assert!(matches!(next_packet(b"$OK#9"), PacketResult::EndOfStream));
    assert!(matches!(next_packet(b""), PacketResult::EndOfStream));
    let mut parser = PacketParser::new();
    let mut last = None;
    for &b in b"$g#67" {
        last = parser.push(b);
    }
    assert!(matches!(last, Some(PacketResult::Valid(ref p)) if p == b"g"));
}

#[test]
fn reply_encoding() {
    let mut r = Reply::new();
    r.push_u32(0x12345678);
    r.push_u16(0xabcd);
    r.push_u8(0x0f);
    assert_eq!(r.into_packet(), b"$78563412cdab0f#c4".to_vec());
    assert_eq!(hex_ascii(0), b'0');
    assert_eq!(hex_ascii(10), b'a');
}

#[test]
fn hex_parsing() {
    assert_eq!(ascii_hex(b'7'), Some(7));
    assert_eq!(ascii_hex(b'f'), Some(15));
    // Only lower case digits
    assert_eq!(ascii_hex(b'F'), None);
    assert_eq!(ascii_hex(b'g'), None);
    assert_eq!(parse_hex(b"bfc00000"), Ok(0xbfc00000));
    assert_eq!(parse_hex(b""), Ok(0));
    // Digits beyond the eighth shift the first ones out
    assert_eq!(parse_hex(b"123456789"), Ok(0x23456789));
    assert_eq!(parse_hex(b"12x"), Err(()));
    assert_eq!(parse_addr_len(b"80010000,40"), Ok((0x80010000, 0x40)));
    assert_eq!(parse_addr_len(b"80010000"), Err(()));
    assert_eq!(parse_breakpoint(b"0,bfc00000,4"), Ok((b'0', 0xbfc00000, b'4')));
    assert_eq!(parse_breakpoint(b"0,bfc00000"), Err(()));
}

#[test]
fn memory_read_plans() {
    let plan = read_memory_plan(b"1000,4").unwrap();
    assert_eq!(plan, vec![(AccessWidth::Word, 0x1000)]);
    let plan = read_memory_plan(b"1001,3").unwrap();
    assert_eq!(
        plan,
        vec![
            (AccessWidth::Byte, 0x1001),
            (AccessWidth::Byte, 0x1002),
            (AccessWidth::Byte, 0x1003),
        ]
    );
    let plan = read_memory_plan(b"1001,a").unwrap();
    assert_eq!(
        plan,
        vec![
            (AccessWidth::Byte, 0x1001),
            (AccessWidth::Byte, 0x1002),
            (AccessWidth::Byte, 0x1003),
            (AccessWidth::Word, 0x1004),
            (AccessWidth::Byte, 0x1008),
            (AccessWidth::Byte, 0x1009),
            (AccessWidth::Byte, 0x100a),
        ]
    );
    // A single byte on an odd halfword
    let plan = read_memory_plan(b"1002,1").unwrap();
    assert_eq!(plan, vec![(AccessWidth::Byte, 0x1002)]);
    // Exactly LEN bytes are read
    let plan = read_memory_plan(b"1,2").unwrap();
    assert_eq!(plan, vec![(AccessWidth::Byte, 0x1), (AccessWidth::Byte, 0x2)]);
    let plan = read_memory_plan(b"2,6").unwrap();
    assert_eq!(plan, vec![(AccessWidth::HalfWord, 0x2), (AccessWidth::Word, 0x4)]);
    assert_eq!(read_memory_plan(b"1000,0"), Ok(vec![]));
    // Addresses wrap around the address space
    let plan = read_memory_plan(b"fffffffc,8").unwrap();
    assert_eq!(plan, vec![(AccessWidth::Word, 0xffff_fffc), (AccessWidth::Word, 0x0)]);
    assert_eq!(read_memory_plan(b"zz"), Err(()));
}

#[test]
fn gdb_requests_decoded() {
    assert_eq!(decode_request(b"?"), Request::Status);
    assert_eq!(decode_request(b"g"), Request::ReadRegisters);
    assert_eq!(decode_request(b"m80010000,4"), Request::ReadMemory(0x8001_0000, 4));
    assert_eq!(decode_request(b"m8001000"), Request::Malformed);
    assert_eq!(decode_request(b"c"), Request::Resume(None));
    assert_eq!(decode_request(b"cbfc00000"), Request::Resume(Some(0xbfc0_0000)));
    assert_eq!(decode_request(b"s"), Request::Step(None));
    assert_eq!(decode_request(b"cxyz"), Request::Malformed);
    assert_eq!(decode_request(b"Z0,80010000,4"), Request::AddBreakpoint(BreakKind::Execute, 0x8001_0000));
    assert_eq!(decode_request(b"Z2,1f801810,4"), Request::AddBreakpoint(BreakKind::Write, 0x1f80_1810));
    assert_eq!(decode_request(b"z3,100,4"), Request::DelBreakpoint(BreakKind::Read, 0x100));
    // Only 32bit MIPS breakpoints, no command lists, no hardware
    // breakpoints
    assert_eq!(decode_request(b"Z0,100,2"), Request::ErrorReply);
    assert_eq!(decode_request(b"Z0,100,4;X1,0"), Request::ErrorReply);
    assert_eq!(decode_request(b"Z1,100,4"), Request::EmptyReply);
    assert_eq!(decode_request(b"z0,1g0,4"), Request::Malformed);
    // Unsupported packets get an empty reply
    assert_eq!(decode_request(b"qSupported"), Request::EmptyReply);
}

#[test]
fn memory_read_replies() {
    // "1,2": two bytes, sent in hexadecimal
    let plan = read_memory_plan(b"1,2").unwrap();
    assert_eq!(memory_reply(&plan, &vec![0x12, 0x34]), b"$1234#ca".to_vec());
    // Halfwords and words go least significant byte first
    let plan = read_memory_plan(b"2,6").unwrap();
    assert_eq!(
        memory_reply(&plan, &vec![0xbeef, 0x1234_5678]),
        string_packet(b"efbe78563412")
    );
    // A null length is answered with E00
    let plan = read_memory_plan(b"1000,0").unwrap();
    assert_eq!(memory_reply(&plan, &vec![]), b"$E00#a5".to_vec());
}
