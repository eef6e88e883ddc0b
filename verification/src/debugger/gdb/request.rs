//! Decoding of the GDB remote requests: what the debugger does for
//! each packet and what it answers

use vstd::prelude::*;

use super::{hex_value, parse_addr_len, parse_breakpoint, parse_hex, spec_parse_addr_len,
    spec_parse_breakpoint};

verus! {

/// Breakpoint and watchpoint types
#[derive(Clone, Copy, PartialEq, Eq, Structural, Debug)]
pub enum BreakKind {
    /// Stop before the instruction at the address executes
    Execute,
    /// Stop when the address is written
    Write,
    /// Stop when the address is read
    Read,
}

/// What the debugger does for a request packet
#[derive(Clone, Copy, PartialEq, Eq, Structural, Debug)]
pub enum Request {
    /// `?`: reply with the stop status
    Status,
    /// `m addr,len`: reply with `len` bytes of memory at `addr`
    ReadMemory(u32, u32),
    /// `g`: reply with the registers
    ReadRegisters,
    /// `c [addr]`: resume execution, at `addr` if one is given
    Resume(Option<u32>),
    /// `s [addr]`: execute a single instruction, at `addr` if one is
    /// given
    Step(Option<u32>),
    /// `Z type,addr,kind`: add a breakpoint or watchpoint, then reply
    /// OK
    AddBreakpoint(BreakKind, u32),
    /// `z type,addr,kind`: remove a breakpoint or watchpoint, then
    /// reply OK
    DelBreakpoint(BreakKind, u32),
    /// Reply with an error packet
    ErrorReply,
    /// Reply with an empty packet: the request is not supported
    EmptyReply,
    /// The arguments are malformed: the request fails without a reply
    Malformed,
}

/// The optional hexadecimal address of a resume request
pub open spec fn resume_address(args: Seq<u8>) -> Result<Option<u32>, ()> {
    if args.len() == 0 {
        Ok(None)
    } else {
        match hex_value(args) {
            Some(a) => Ok(Some(a)),
            None => Err(()),
        }
    }
}

/// Breakpoint type of a `type` character: `0` for a software
/// breakpoint, `2` and `3` for write and read watchpoints
pub open spec fn break_kind(t: u8) -> Option<BreakKind> {
    if t == 0x30 {
        Some(BreakKind::Execute)
    } else if t == 0x32 {
        Some(BreakKind::Write)
    } else if t == 0x33 {
        Some(BreakKind::Read)
    } else {
        None
    }
}

/// Request of a breakpoint packet with arguments `args`, `add`
/// telling an insertion from a removal. Only kind `4` (32bit MIPS
/// breakpoints) is handled; an insertion with a command list (a `;`
/// in its arguments) is answered with an error.
pub open spec fn breakpoint_request(args: Seq<u8>, add: bool) -> Request {
    if add && (exists|k: int| 0 <= k < args.len() && args[k] == 0x3b) {
        Request::ErrorReply
    } else {
        match spec_parse_breakpoint(args) {
            Err(_) => Request::Malformed,
            Ok((t, addr, kind)) => if kind != 0x34 {
                Request::ErrorReply
            } else {
                match break_kind(t) {
                    Some(b) => if add {
                        Request::AddBreakpoint(b, addr)
                    } else {
                        Request::DelBreakpoint(b, addr)
                    },
                    None => Request::EmptyReply,
                }
            },
        }
    }
}

/// Request of the packet `p`: its first byte names the command, the
/// rest are its arguments
pub open spec fn spec_request(p: Seq<u8>) -> Request {
    let command = p[0];
    let args = p.subrange(1, p.len() as int);
    if command == 0x3f {
        Request::Status
    } else if command == 0x6d {
        match spec_parse_addr_len(args) {
            Ok((addr, len)) => Request::ReadMemory(addr, len),
            Err(_) => Request::Malformed,
        }
    } else if command == 0x67 {
        Request::ReadRegisters
    } else if command == 0x63 {
        match resume_address(args) {
            Ok(a) => Request::Resume(a),
            Err(_) => Request::Malformed,
        }
    } else if command == 0x73 {
        match resume_address(args) {
            Ok(a) => Request::Step(a),
            Err(_) => Request::Malformed,
        }
    } else if command == 0x5a {
        breakpoint_request(args, true)
    } else if command == 0x7a {
        breakpoint_request(args, false)
    } else {
        // Unsupported packets get an empty response
        Request::EmptyReply
    }
}

/// Address of a resume or step request
fn parse_resume_address(args: &[u8]) -> (r: Result<Option<u32>, ()>)
    ensures
        r == resume_address(args@),
{
    if args.len() == 0 {
        return Ok(None);
    }
    match parse_hex(args) {
        Ok(a) => Ok(Some(a)),
        Err(()) => Err(()),
    }
}

/// Breakpoint type of a `type` character
fn parse_break_kind(t: u8) -> (r: Option<BreakKind>)
    ensures
        r == break_kind(t),
{
    if t == 0x30 {
        Some(BreakKind::Execute)
    } else if t == 0x32 {
        Some(BreakKind::Write)
    } else if t == 0x33 {
        Some(BreakKind::Read)
    } else {
        None
    }
}

/// Decode a breakpoint insertion (`add`) or removal
fn decode_breakpoint(args: &[u8], add: bool) -> (r: Request)
    ensures
        r == breakpoint_request(args@, add),
{
    if add {
        // Command lists are not supported
        let mut i: usize = 0;
        while i < args.len()
            invariant
                add,
                i <= args@.len(),
                forall|k: int| 0 <= k < i ==> args@[k] != 0x3b,
            decreases args@.len() - i,
        {
            if args[i] == 0x3b {
                assert(args@[i as int] == 0x3b);
                return Request::ErrorReply;
            }
            i += 1;
        }
        assert(!(exists|k: int| 0 <= k < args@.len() && args@[k] == 0x3b));
    }
    match parse_breakpoint(args) {
        Err(()) => Request::Malformed,
        Ok((t, addr, kind)) => {
            // Only kind "4" makes sense: 32bits standard MIPS mode
            // breakpoint
            if kind != 0x34 {
                return Request::ErrorReply;
            }
            match parse_break_kind(t) {
                Some(b) => if add {
                    Request::AddBreakpoint(b, addr)
                } else {
                    Request::DelBreakpoint(b, addr)
                },
                None => Request::EmptyReply,
            }
        },
    }
}

/// Decode the request packet `packet`
pub fn decode_request(packet: &[u8]) -> (r: Request)
    requires
        packet@.len() > 0,
    ensures
        r == spec_request(packet@),
{
    let command = packet[0];
    let args = &packet[1..packet.len()];
    if command == 0x3f {
        Request::Status
    } else if command == 0x6d {
        match parse_addr_len(args) {
            Ok((addr, len)) => Request::ReadMemory(addr, len),
            Err(()) => Request::Malformed,
        }
    } else if command == 0x67 {
        Request::ReadRegisters
    } else if command == 0x63 {
        match parse_resume_address(args) {
            Ok(a) => Request::Resume(a),
            Err(()) => Request::Malformed,
        }
    } else if command == 0x73 {
        match parse_resume_address(args) {
            Ok(a) => Request::Step(a),
            Err(()) => Request::Malformed,
        }
    } else if command == 0x5a {
        decode_breakpoint(args, true)
    } else if command == 0x7a {
        decode_breakpoint(args, false)
    } else {
        // Unsupported packets get an empty response
        Request::EmptyReply
    }
}

} // verus!
