//! GDB remote protocol

pub mod reply;
pub mod request;

use vstd::prelude::*;

use crate::memory::AccessWidth;
use self::reply::{Reply, ascii_hex_digit, checksum, hex_byte, hex_le, packet_bytes};

verus! {

/// Value of a lowercase hexadecimal ASCII digit
pub open spec fn spec_ascii_hex(b: u8) -> Option<u8> {
    if 0x30 <= b <= 0x39 {
        Some((b - 0x30) as u8)
    } else if 0x61 <= b <= 0x66 {
        Some((10 + b - 0x61) as u8)
    } else {
        None
    }
}

/// Get the value of an integer encoded in single lowercase
/// hexadecimal ASCII digit. Return None if the character is not valid
/// hexadecimal
pub fn ascii_hex(b: u8) -> (r: Option<u8>)
    ensures
        r == spec_ascii_hex(b),
{
    if b >= 0x30 && b <= 0x39 {
        Some(b - 0x30)
    } else if b >= 0x61 && b <= 0x66 {
        Some(10 + (b - 0x61))
    } else {
        // Invalid
        None
    }
}

/// Value of a string of lowercase hexadecimal digits (only the low 32
/// bits are kept), None if a character is not a digit
pub open spec fn hex_value(s: Seq<u8>) -> Option<u32>
    decreases s.len(),
{
    if s.len() == 0 {
        Some(0)
    } else {
        match hex_value(s.drop_last()) {
            Some(v) => match spec_ascii_hex(s.last()) {
                Some(h) => Some((v << 4u32) | (h as u32)),
                None => None,
            },
            None => None,
        }
    }
}

/// Parse the hexadecimal digits `hex[start..end]`
fn parse_hex_range(hex: &[u8], start: usize, end: usize) -> (r: Result<u32, ()>)
    requires
        start <= end <= hex@.len(),
    ensures
        r == match hex_value(hex@.subrange(start as int, end as int)) {
            Some(v) => Ok::<u32, ()>(v),
            None => Err(()),
        },
{
    let mut v = 0u32;
    let mut i = start;
    while i < end
        invariant
            start <= i <= end <= hex@.len(),
            hex_value(hex@.subrange(start as int, i as int)) == Some(v),
        decreases end - i,
    {
        let b = hex[i];
        proof {
            assert(hex@.subrange(start as int, i + 1).drop_last() =~= hex@.subrange(start as int, i as int));
        }
        match ascii_hex(b) {
            Some(h) => {
                v = (v << 4) | h as u32;
            },
            None => {
                // Bad hex: the whole string is invalid
                proof {
                    lemma_hex_value_invalid(hex@, start as int, i as int, end as int);
                }
                return Err(());
            },
        }
        i += 1;
    }
    Ok(v)
}

/// A bad digit at `bad` makes any longer string invalid
proof fn lemma_hex_value_invalid(s: Seq<u8>, start: int, bad: int, end: int)
    requires
        0 <= start <= bad < end <= s.len(),
        hex_value(s.subrange(start, bad)) is Some,
        spec_ascii_hex(s[bad]) is None,
    ensures
        hex_value(s.subrange(start, end)) is None,
    decreases end - bad,
{
    if end == bad + 1 {
        assert(s.subrange(start, end).drop_last() =~= s.subrange(start, bad));
    } else {
        lemma_hex_value_invalid(s, start, bad, end - 1);
        assert(s.subrange(start, end).drop_last() =~= s.subrange(start, end - 1));
    }
}

/// Parse an hexadecimal string and return the value as an
/// integer. Return `Err` if the string is invalid.
pub fn parse_hex(hex: &[u8]) -> (r: Result<u32, ()>)
    ensures
        r == match hex_value(hex@) {
            Some(v) => Ok::<u32, ()>(v),
            None => Err(()),
        },
{
    let r = parse_hex_range(hex, 0, hex.len());
    assert(hex@.subrange(0, hex@.len() as int) =~= hex@);
    r
}

/// Position of the first comma of `s` at or after `from` (the length
/// of `s` if there is none)
pub open spec fn next_comma(s: Seq<u8>, from: int) -> int
    decreases s.len() - from,
{
    if from >= s.len() {
        s.len() as int
    } else if s[from] == 0x2c {
        from
    } else {
        next_comma(s, from + 1)
    }
}

/// `s` holds a comma at or after `from`
pub open spec fn comma_from(s: Seq<u8>, from: int) -> bool {
    exists|k: int| from <= k < s.len() && s[k] == 0x2c
}

/// Position of the first comma of `s`, its length if there is none
fn first_comma(s: &[u8]) -> (r: usize)
    ensures
        r == next_comma(s@, 0),
        r <= s@.len(),
        r < s@.len() ==> s@[r as int] == 0x2c,
{
    let mut i: usize = 0;
    while i < s.len()
        invariant
            i <= s@.len(),
            next_comma(s@, 0) == next_comma(s@, i as int),
        decreases s@.len() - i,
    {
        if s[i] == 0x2c {
            return i;
        }
        i += 1;
    }
    i
}

/// True if `s` holds a comma at or after `from`
fn has_comma_from(s: &[u8], from: usize) -> (r: bool)
    ensures
        r == comma_from(s@, from as int),
{
    let mut i: usize = from;
    while i < s.len()
        invariant
            from <= i,
            forall|k: int| from <= k < i && k < s@.len() ==> s@[k] != 0x2c,
        decreases s@.len() - i,
    {
        if s[i] == 0x2c {
            return true;
        }
        i += 1;
    }
    false
}

/// Result of `addr,len` parsing: two non-empty hexadecimal fields
/// separated by the only comma
pub open spec fn spec_parse_addr_len(s: Seq<u8>) -> Result<(u32, u32), ()> {
    let p = next_comma(s, 0);
    if p >= s.len() || comma_from(s, p + 1) || p == 0 || p == s.len() - 1 {
        Err(())
    } else {
        match (hex_value(s.subrange(0, p)), hex_value(s.subrange(p + 1, s.len() as int))) {
            (Some(a), Some(l)) => Ok((a, l)),
            _ => Err(()),
        }
    }
}

/// Parse a string in the format `addr,len` (both as hexadecimal
/// strings) and return the values as a tuple. Returns `Err` if
/// the format is bogus.
pub fn parse_addr_len(args: &[u8]) -> (r: Result<(u32, u32), ()>)
    ensures
        r == spec_parse_addr_len(args@),
{
    // split around the comma
    let p = first_comma(args);
    if p >= args.len() || has_comma_from(args, p + 1) {
        // Invalid number of arguments
        return Err(());
    }
    if p == 0 || p == args.len() - 1 {
        // Missing parameter
        return Err(());
    }
    // Parse address
    let addr = match parse_hex_range(args, 0, p) {
        Ok(a) => a,
        Err(()) => return Err(()),
    };
    let len = match parse_hex_range(args, p + 1, args.len()) {
        Ok(l) => l,
        Err(()) => return Err(()),
    };
    Ok((addr, len))
}

/// Result of `type,addr,kind` parsing: a one character type, a
/// hexadecimal address and a one character kind separated by the
/// only two commas
pub open spec fn spec_parse_breakpoint(s: Seq<u8>) -> Result<(u8, u32, u8), ()> {
    if s.len() >= 4 && s[0] != 0x2c && s[1] == 0x2c && s[s.len() - 2] == 0x2c && s[s.len() - 1]
        != 0x2c && !(exists|k: int| 2 <= k < s.len() - 2 && s[k] == 0x2c) {
        match hex_value(s.subrange(2, s.len() - 2)) {
            Some(addr) => Ok((s[0], addr, s[s.len() - 1])),
            None => Err(()),
        }
    } else {
        Err(())
    }
}

/// Parse breakpoint arguments: the format is `type,addr,kind`.
/// Returns the three parameters in a tuple or an error if a format
/// error has been encountered.
pub fn parse_breakpoint(args: &[u8]) -> (r: Result<(u8, u32, u8), ()>)
    ensures
        r == spec_parse_breakpoint(args@),
{
    let n = args.len();
    if n < 4 || args[0] == 0x2c || args[1] != 0x2c || args[n - 2] != 0x2c || args[n - 1] == 0x2c {
        // Type and kind should only be one character each
        return Err(());
    }
    // No other comma in the address
    let mut i: usize = 2;
    while i < n - 2
        invariant
            n == args@.len(),
            n >= 4,
            2 <= i <= n - 2,
            forall|k: int| 2 <= k < i ==> args@[k] != 0x2c,
        decreases n - 2 - i,
    {
        if args[i] == 0x2c {
            return Err(());
        }
        i += 1;
    }
    let btype = args[0];
    let kind = args[n - 1];
    let addr = match parse_hex_range(args, 2, n - 2) {
        Ok(a) => a,
        Err(()) => return Err(()),
    };
    Ok((btype, addr, kind))
}

/// Packet parser state machine
#[derive(Clone, Copy, PartialEq, Eq, Structural, Debug)]
pub enum ParserState {
    WaitForStart,
    InPacket,
    WaitForCheckSum,
    WaitForCheckSum2(u8),
}

/// Outcome of the parsing of a packet
pub enum PacketResult {
    /// Well formed packet: its payload
    Valid(Vec<u8>),
    /// Checksum mismatch or malformed checksum: the payload received
    BadChecksum(Vec<u8>),
    /// No complete packet in the stream
    EndOfStream,
}

/// Outcome of the parsing of a packet, as specification values
pub enum PacketOutcome {
    Valid(Seq<u8>),
    BadChecksum(Seq<u8>),
}

/// Parser state: state machine, payload so far and its checksum
pub struct ParserView {
    pub state: ParserState,
    pub packet: Seq<u8>,
    pub csum: u8,
}

/// Parser waiting for the start of a packet
pub open spec fn parser_start() -> ParserView {
    ParserView { state: ParserState::WaitForStart, packet: seq![], csum: 0 }
}

/// Parser state and outcome after the byte `b`; the parser restarts
/// after an outcome
pub open spec fn parser_step(p: ParserView, b: u8) -> (ParserView, Option<PacketOutcome>) {
    match p.state {
        ParserState::WaitForStart => if b == 0x24 {
            // Start of packet
            (ParserView { state: ParserState::InPacket, ..p }, None)
        } else {
            (p, None)
        },
        ParserState::InPacket => if b == 0x23 {
            // End of packet
            (ParserView { state: ParserState::WaitForCheckSum, ..p }, None)
        } else {
            (
                ParserView {
                    packet: p.packet.push(b),
                    csum: ((p.csum + b) % 256) as u8,
                    ..p
                },
                None,
            )
        },
        ParserState::WaitForCheckSum => match spec_ascii_hex(b) {
            Some(h) => (ParserView { state: ParserState::WaitForCheckSum2(h), ..p }, None),
            None => (parser_start(), Some(PacketOutcome::BadChecksum(p.packet))),
        },
        ParserState::WaitForCheckSum2(c1) => match spec_ascii_hex(b) {
            Some(c2) => if (c1 << 4u8) | c2 != p.csum {
                (parser_start(), Some(PacketOutcome::BadChecksum(p.packet)))
            } else {
                // Checksum is good, we're done!
                (parser_start(), Some(PacketOutcome::Valid(p.packet)))
            },
            None => (parser_start(), Some(PacketOutcome::BadChecksum(p.packet))),
        },
    }
}

/// First outcome of parsing `bytes` from parser state `p`
pub open spec fn parser_run(p: ParserView, bytes: Seq<u8>) -> Option<PacketOutcome>
    decreases bytes.len(),
{
    if bytes.len() == 0 {
        None
    } else {
        let (p2, o) = parser_step(p, bytes[0]);
        if o is Some {
            o
        } else {
            parser_run(p2, bytes.drop_first())
        }
    }
}

/// GDB remote packet parser, fed one byte at a time
pub struct PacketParser {
    state: ParserState,
    packet: Vec<u8>,
    csum: u8,
}

impl View for PacketParser {
    type V = ParserView;

    closed spec fn view(&self) -> ParserView {
        ParserView { state: self.state, packet: self.packet@, csum: self.csum }
    }
}

/// Specification value of a parser outcome
pub open spec fn outcome_of(r: Option<PacketResult>) -> Option<PacketOutcome> {
    match r {
        Some(PacketResult::Valid(p)) => Some(PacketOutcome::Valid(p@)),
        Some(PacketResult::BadChecksum(p)) => Some(PacketOutcome::BadChecksum(p@)),
        _ => None,
    }
}

impl PacketParser {
    pub fn new() -> (p: PacketParser)
        ensures
            p@ == parser_start(),
    {
        PacketParser { state: ParserState::WaitForStart, packet: Vec::new(), csum: 0 }
    }

    /// Feed the byte `byte` to the parser, return the packet it
    /// completes if any
    pub fn push(&mut self, byte: u8) -> (r: Option<PacketResult>)
        ensures
            (final(self)@, outcome_of(r)) == parser_step(old(self)@, byte),
            !(r matches Some(PacketResult::EndOfStream)),
    {
        match self.state {
            ParserState::WaitForStart => {
                if byte == 0x24 {
                    // Start of packet
                    self.state = ParserState::InPacket;
                }
                None
            },
            ParserState::InPacket => {
                if byte == 0x23 {
                    // End of packet
                    self.state = ParserState::WaitForCheckSum;
                } else {
                    // Append byte to the packet
                    self.packet.push(byte);
                    // Update checksum
                    self.csum = self.csum.wrapping_add(byte);
                }
                None
            },
            ParserState::WaitForCheckSum => {
                match ascii_hex(byte) {
                    Some(b) => {
                        self.state = ParserState::WaitForCheckSum2(b);
                        None
                    },
                    None => Some(PacketResult::BadChecksum(self.finish())),
                }
            },
            ParserState::WaitForCheckSum2(c1) => {
                match ascii_hex(byte) {
                    Some(c2) => {
                        let expected = (c1 << 4) | c2;
                        let csum = self.csum;
                        let packet = self.finish();
                        if expected != csum {
                            Some(PacketResult::BadChecksum(packet))
                        } else {
                            // Checksum is good, we're done!
                            Some(PacketResult::Valid(packet))
                        }
                    },
                    None => Some(PacketResult::BadChecksum(self.finish())),
                }
            },
        }
    }

    /// Hand out the payload and restart
    fn finish(&mut self) -> (p: Vec<u8>)
        ensures
            p@ == old(self)@.packet,
            final(self)@ == parser_start(),
    {
        let mut packet: Vec<u8> = Vec::new();
        std::mem::swap(&mut packet, &mut self.packet);
        self.state = ParserState::WaitForStart;
        self.csum = 0;
        assert(self.packet@ =~= Seq::<u8>::empty());
        packet
    }
}

/// Specification value of a parse result
pub open spec fn result_outcome(r: PacketResult) -> Option<PacketOutcome> {
    match r {
        PacketResult::Valid(p) => Some(PacketOutcome::Valid(p@)),
        PacketResult::BadChecksum(p) => Some(PacketOutcome::BadChecksum(p@)),
        PacketResult::EndOfStream => None,
    }
}

/// Attempt to return a single GDB packet from the bytes of `stream`.
/// The end of the stream before a packet is complete gives
/// `EndOfStream`.
pub fn next_packet(stream: &[u8]) -> (r: PacketResult)
    ensures
        result_outcome(r) == parser_run(parser_start(), stream@),
{
    let mut parser = PacketParser::new();
    let mut i: usize = 0;
    assert(stream@.subrange(0, stream@.len() as int) =~= stream@);
    while i < stream.len()
        invariant
            i <= stream@.len(),
            parser_run(parser@, stream@.subrange(i as int, stream@.len() as int)) == parser_run(
                parser_start(),
                stream@,
            ),
        decreases stream@.len() - i,
    {
        proof {
            let rest = stream@.subrange(i as int, stream@.len() as int);
            assert(rest.drop_first() =~= stream@.subrange(i + 1, stream@.len() as int));
            assert(rest[0] == stream@[i as int]);
        }
        match parser.push(stream[i]) {
            Some(r) => {
                return r;
            },
            None => {},
        }
        i += 1;
    }
    proof {
        assert(stream@.subrange(0, stream@.len() as int) =~= stream@);
    }
    PacketResult::EndOfStream
}

/// The payload bytes are passed through, in the packet state, up to
/// the end marker
proof fn lemma_run_payload(pkt: Seq<u8>, d: Seq<u8>, tail: Seq<u8>)
    requires
        forall|i: int| 0 <= i < d.len() ==> d[i] != 0x23,
    ensures
        parser_run(
            ParserView { state: ParserState::InPacket, packet: pkt, csum: checksum(pkt) },
            d + tail,
        ) == parser_run(
            ParserView { state: ParserState::InPacket, packet: pkt + d, csum: checksum(pkt + d) },
            tail,
        ),
    decreases d.len(),
{
    if d.len() == 0 {
        assert(d + tail =~= tail);
        assert(pkt + d =~= pkt);
    } else {
        let b = d[0];
        assert((d + tail)[0] == b);
        assert((d + tail).drop_first() =~= d.drop_first() + tail);
        assert(pkt.push(b).drop_last() =~= pkt);
        lemma_run_payload(pkt.push(b), d.drop_first(), tail);
        assert(pkt.push(b) + d.drop_first() =~= pkt + d);
    }
}

/// What a reply encodes, the packet parser decodes: the packet built
/// from a payload free of end markers parses back to that payload
pub proof fn lemma_packet_roundtrip(data: Seq<u8>)
    requires
        forall|i: int| 0 <= i < data.len() ==> data[i] != 0x23,
    ensures
        parser_run(parser_start(), packet_bytes(data)) == Some(PacketOutcome::Valid(data)),
{
    let c = checksum(data);
    let hi = c >> 4u8;
    let lo = c & 0xf;
    let tail = seq![0x23u8] + hex_byte(c);
    let bytes = packet_bytes(data);
    assert(bytes[0] == 0x24);
    assert(bytes.drop_first() =~= data + tail);
    let in_packet = ParserView { state: ParserState::InPacket, packet: seq![], csum: 0 };
    assert(checksum(seq![]) == 0);
    lemma_run_payload(seq![], data, tail);
    assert(seq![] + data =~= data);
    assert(hi < 16 && lo < 16 && ((hi << 4u8) | lo) == c) by (bit_vector)
        requires
            hi == c >> 4u8,
            lo == c & 0xf,
    ;
    assert(spec_ascii_hex(ascii_hex_digit(hi)) == Some(hi));
    assert(spec_ascii_hex(ascii_hex_digit(lo)) == Some(lo));
    let p1 = ParserView { state: ParserState::InPacket, packet: data, csum: c };
    assert(tail[0] == 0x23);
    assert(tail.drop_first() =~= hex_byte(c));
    let p2 = ParserView { state: ParserState::WaitForCheckSum, ..p1 };
    assert(hex_byte(c)[0] == ascii_hex_digit(hi));
    assert(hex_byte(c).drop_first() =~= seq![ascii_hex_digit(lo)]);
    let p3 = ParserView { state: ParserState::WaitForCheckSum2(hi), ..p1 };
    assert(parser_step(p3, ascii_hex_digit(lo)).1 == Some(PacketOutcome::Valid(data)));
    assert(parser_run(p3, seq![ascii_hex_digit(lo)]) == Some(PacketOutcome::Valid(data)));
    assert(parser_run(p2, hex_byte(c)) == Some(PacketOutcome::Valid(data)));
    assert(parser_run(p1, tail) == Some(PacketOutcome::Valid(data)));
}

/// Packet replying `string`
pub fn string_packet(string: &[u8]) -> (p: Vec<u8>)
    requires
        forall|i: int| 0 <= i < string@.len() ==> string@[i] != 0x24,
    ensures
        p@ == packet_bytes(string@),
{
    let mut reply = Reply::new();
    reply.push(string);
    assert(Seq::<u8>::empty() + string@ =~= string@);
    reply.into_packet()
}

/// Empty reply, sent for unsupported packets
pub fn empty_packet() -> (p: Vec<u8>)
    ensures
        p@ == packet_bytes(seq![]),
{
    Reply::new().into_packet()
}

/// Error reply. GDB remote doesn't specify what the error codes
/// should be.
pub fn error_packet() -> (p: Vec<u8>)
    ensures
        p@ == packet_bytes(seq![0x45u8, 0x30u8, 0x30u8]),
{
    let e = [0x45u8, 0x30u8, 0x30u8];
    assert(e@ =~= seq![0x45u8, 0x30u8, 0x30u8]);
    string_packet(&e)
}

/// Status reply: "S00"
pub fn status_packet() -> (p: Vec<u8>)
    ensures
        p@ == packet_bytes(seq![0x53u8, 0x30u8, 0x30u8]),
{
    let s = [0x53u8, 0x30u8, 0x30u8];
    assert(s@ =~= seq![0x53u8, 0x30u8, 0x30u8]);
    string_packet(&s)
}

/// Acknowledgment reply: "OK"
pub fn ok_packet() -> (p: Vec<u8>)
    ensures
        p@ == packet_bytes(seq![0x4fu8, 0x4bu8]),
{
    let s = [0x4fu8, 0x4bu8];
    assert(s@ =~= seq![0x4fu8, 0x4bu8]);
    string_packet(&s)
}

/// Number of bytes the unaligned head of a memory read covers
pub open spec fn read_head_sent(addr: u32, len: u32) -> u32 {
    let align = addr % 4;
    if align == 1 || align == 3 {
        if len < 4 - align {
            len
        } else {
            (4 - align) as u32
        }
    } else if align == 2 {
        if len == 1 {
            1
        } else {
            2
        }
    } else {
        0
    }
}

/// Accesses made for the unaligned head of a memory read
pub open spec fn read_head(addr: u32, len: u32) -> Seq<(AccessWidth, u32)> {
    let align = addr % 4;
    if align == 1 || align == 3 {
        Seq::new(
            read_head_sent(addr, len) as nat,
            |i: int| (AccessWidth::Byte, addr.wrapping_add(i as u32)),
        )
    } else if align == 2 {
        if len == 1 {
            seq![(AccessWidth::Byte, addr)]
        } else {
            seq![(AccessWidth::HalfWord, addr)]
        }
    } else {
        seq![]
    }
}

/// Accesses made to read exactly `len` bytes at `addr` for the
/// debugger: byte or halfword accesses up to the next word boundary,
/// word accesses, then the remaining bytes. Addresses wrap around the
/// 32bit address space.
pub open spec fn memory_reads(addr: u32, len: u32) -> Seq<(AccessWidth, u32)> {
    let sent = read_head_sent(addr, len);
    let addr2 = addr.wrapping_add(sent);
    let len2 = (len - sent) as u32;
    let nwords = len2 / 4;
    let addr3 = addr2.wrapping_add((nwords * 4) as u32);
    let rem = (len2 - nwords * 4) as u32;
    let tail: Seq<(AccessWidth, u32)> = if rem == 1 || rem == 3 {
        Seq::new(rem as nat, |i: int| (AccessWidth::Byte, addr3.wrapping_add(i as u32)))
    } else if rem == 2 {
        seq![(AccessWidth::HalfWord, addr3)]
    } else {
        seq![]
    };
    read_head(addr, len) + Seq::new(
        nwords as nat,
        |i: int| (AccessWidth::Word, addr2.wrapping_add((i * 4) as u32)),
    ) + tail
}

/// Plan the accesses of a memory read request `ADDR,LEN` (both in
/// hexadecimal): `Err` for a malformed request, no access for a null
/// length
pub fn read_memory_plan(args: &[u8]) -> (r: Result<Vec<(AccessWidth, u32)>, ()>)
    ensures
        match spec_parse_addr_len(args@) {
            Ok((addr, len)) => if len == 0 {
                r matches Ok(v) && v@.len() == 0
            } else {
                r matches Ok(v) && v@ == memory_reads(addr, len)
            },
            Err(()) => r is Err,
        },
{
    let (addr, len) = match parse_addr_len(args) {
        Ok(v) => v,
        Err(()) => return Err(()),
    };
    if len == 0 {
        // Nothing to read: the reply is an error
        return Ok(Vec::new());
    }
    let ghost addr0 = addr;
    let ghost len0 = len;
    let mut reads: Vec<(AccessWidth, u32)> = Vec::new();
    // First we handle the case where addr is not aligned using an
    // ad-hoc heuristic.
    let align = addr % 4;
    let sent: u32 = if align == 1 || align == 3 {
        // If we fall on the first or third byte of a word we use byte
        // accesses until we reach the next word or the end of the
        // requested length
        let count = if len < 4 - align { len } else { 4 - align };
        let mut i: u32 = 0;
        while i < count
            invariant
                i <= count,
                count == read_head_sent(addr, len),
                align == addr % 4,
                align == 1 || align == 3,
                reads@ == Seq::new(i as nat, |k: int| (AccessWidth::Byte, addr.wrapping_add(k as u32))),
            decreases count - i,
        {
            reads.push((AccessWidth::Byte, addr.wrapping_add(i)));
            i += 1;
            assert(reads@ =~= Seq::new(i as nat, |k: int| (AccessWidth::Byte, addr.wrapping_add(k as u32))));
        }
        count
    } else if align == 2 {
        if len == 1 {
            // Only one byte to read
            reads.push((AccessWidth::Byte, addr));
            1
        } else {
            reads.push((AccessWidth::HalfWord, addr));
            2
        }
    } else {
        0
    };
    assert(reads@ =~= read_head(addr, len));
    assert(sent == read_head_sent(addr, len));
    let ghost head = reads@;
    // Only the bytes that the head did not read are left
    let addr = addr.wrapping_add(sent);
    let len = len - sent;
    // The word-aligned portion of the transfer (if any)
    let nwords = len / 4;
    let mut i: u32 = 0;
    while i < nwords
        invariant
            i <= nwords,
            nwords == len / 4,
            reads@ == head + Seq::new(
                i as nat,
                |k: int| (AccessWidth::Word, addr.wrapping_add((k * 4) as u32)),
            ),
        decreases nwords - i,
    {
        reads.push((AccessWidth::Word, addr.wrapping_add(i * 4)));
        i += 1;
        assert(reads@ =~= head + Seq::new(
            i as nat,
            |k: int| (AccessWidth::Word, addr.wrapping_add((k * 4) as u32)),
        ));
    }
    let ghost words = reads@;
    // See if we have anything remaining
    let addr3 = addr.wrapping_add(nwords * 4);
    let rem = len - nwords * 4;
    if rem == 1 || rem == 3 {
        let mut i: u32 = 0;
        while i < rem
            invariant
                i <= rem,
                rem <= 3,
                reads@ == words + Seq::new(i as nat, |k: int| (AccessWidth::Byte, addr3.wrapping_add(k as u32))),
            decreases rem - i,
        {
            reads.push((AccessWidth::Byte, addr3.wrapping_add(i)));
            i += 1;
            assert(reads@ =~= words + Seq::new(i as nat, |k: int| (AccessWidth::Byte, addr3.wrapping_add(k as u32))));
        }
    } else if rem == 2 {
        reads.push((AccessWidth::HalfWord, addr3));
    }
    assert(reads@ =~= memory_reads(addr0, len0));
    Ok(reads)
}

/// Hexadecimal digits of the value `v` read with an access of width
/// `w`, least significant byte first
pub open spec fn read_hex(w: AccessWidth, v: u32) -> Seq<u8> {
    match w {
        AccessWidth::Byte => hex_byte(v as u8),
        AccessWidth::HalfWord => hex_le((v as u16) as u32, 2),
        AccessWidth::Word => hex_le(v, 4),
    }
}

/// Payload of a memory read reply: the values read, in order, in
/// hexadecimal
pub open spec fn memory_reply_payload(reads: Seq<(AccessWidth, u32)>, values: Seq<u32>) -> Seq<u8>
    decreases values.len(),
{
    if values.len() == 0 || reads.len() < values.len() {
        seq![]
    } else {
        memory_reply_payload(reads, values.drop_last()) + read_hex(
            reads[values.len() - 1].0,
            values.last(),
        )
    }
}

/// Reply to a memory read: `values` are the values the planned
/// accesses `reads` returned. A read of nothing is answered with the
/// error reply `E00`.
pub fn memory_reply(reads: &Vec<(AccessWidth, u32)>, values: &Vec<u32>) -> (p: Vec<u8>)
    requires
        values@.len() == reads@.len(),
    ensures
        reads@.len() == 0 ==> p@ == packet_bytes(seq![0x45u8, 0x30u8, 0x30u8]),
        reads@.len() > 0 ==> p@ == packet_bytes(memory_reply_payload(reads@, values@)),
{
    if reads.len() == 0 {
        return error_packet();
    }
    let mut reply = Reply::new();
    let mut i: usize = 0;
    while i < values.len()
        invariant
            i <= values@.len(),
            values@.len() == reads@.len(),
            reply.wf(),
            reply.payload() == memory_reply_payload(reads@, values@.subrange(0, i as int)),
        decreases values@.len() - i,
    {
        let v = values[i];
        let ghost before = values@.subrange(0, i as int);
        match reads[i].0 {
            AccessWidth::Byte => reply.push_u8(v as u8),
            AccessWidth::HalfWord => reply.push_u16(v as u16),
            AccessWidth::Word => reply.push_u32(v),
        }
        proof {
            let after = values@.subrange(0, i + 1);
            assert(after.drop_last() =~= before);
            assert(after.last() == v);
        }
        i += 1;
    }
    assert(values@.subrange(0, values@.len() as int) =~= values@);
    reply.into_packet()
}

} // verus!
