//! Emulation of the dual debugging UART on expansion 2, used to get
//! debugging messages from various games and programs
//!
//! Only the bare minimum is implemented to catch debug messages sent
//! by some applications: the completed lines are handed back to the
//! caller.

use vstd::prelude::*;

use crate::memory::{Addressable, access_bytes};
use crate::shared::SharedState;
use crate::text::string_push;

verus! {

/// Maximum length of the Tx buffer before displaying the message even
/// if no newline is encountered
pub const TX_BUFFER_LEN: usize = 1024;

/// Registers accepting byte writes: mode, clock select, command, Tx,
/// control, interrupt mask and output port registers of the UART and
/// the BIOS boot status register
pub open spec fn uart_store_register(offset: u32) -> bool {
    ||| 0x20 <= offset <= 0x25
    ||| offset == 0x2a
    ||| offset == 0x2d
    ||| offset == 0x2e
    ||| offset == 0x41
}

/// Line buffer after the character `c` was sent: a newline or a full
/// buffer flushes it (the character is then dropped), otherwise the
/// character is appended
pub open spec fn tx_after(buffer: Seq<char>, c: char) -> Seq<char> {
    if c == '\n' || buffer.len() == TX_BUFFER_LEN {
        seq![]
    } else {
        buffer.push(c)
    }
}

/// Line handed out when the character `c` is sent
pub open spec fn tx_flushed(buffer: Seq<char>, c: char) -> Option<Seq<char>> {
    if c == '\n' || buffer.len() == TX_BUFFER_LEN {
        Some(buffer)
    } else {
        None
    }
}

pub struct DebugUart {
    /// We don't want to display the TX data one character at a time
    /// so we attempt to line buffer it.
    tx_buffers: Vec<Vec<char>>,
}

impl DebugUart {
    /// Pending (not yet displayed) characters of port `port`
    pub closed spec fn pending(&self, port: int) -> Seq<char> {
        self.tx_buffers@[port]@
    }

    pub open spec fn wf(&self) -> bool {
        &&& self.buffer_count() == 2
        &&& self.pending(0).len() <= TX_BUFFER_LEN
        &&& self.pending(1).len() <= TX_BUFFER_LEN
    }

    pub closed spec fn buffer_count(&self) -> nat {
        self.tx_buffers@.len()
    }

    pub fn new() -> (u: DebugUart)
        ensures
            u.wf(),
            u.pending(0) == Seq::<char>::empty(),
            u.pending(1) == Seq::<char>::empty(),
    {
        let mut tx_buffers: Vec<Vec<char>> = Vec::new();
        tx_buffers.push(Vec::new());
        tx_buffers.push(Vec::new());
        DebugUart { tx_buffers }
    }

    /// Byte load: only the status register A is supported, it always
    /// reports "Tx ready"
    pub fn load<A: Addressable>(&mut self, _shared: &mut SharedState, offset: u32) -> (r: u32)
        requires
            access_bytes(A::spec_width()) == 1,
            offset == 0x21,
        ensures
            r == 4,
            *final(self) == *old(self),
            *final(_shared) == *old(_shared),
    {
        // UART status register A. Return "Tx ready" bit set.
        assert(1u32 << 2u32 == 4) by (bit_vector);
        1 << 2
    }

    /// Byte store. A write to the Tx register of port A that completes
    /// a line returns that line.
    pub fn store<A: Addressable>(&mut self, _shared: &mut SharedState, offset: u32, val: u32) -> (line:
        Option<String>)
        requires
            old(self).wf(),
            access_bytes(A::spec_width()) == 1,
            uart_store_register(offset),
            offset == 0x25 ==> val as u8 == 0,
        ensures
            final(self).wf(),
            *final(_shared) == *old(_shared),
            offset == 0x23 ==> {
                &&& final(self).pending(0) == tx_after(old(self).pending(0), (val as u8) as char)
                &&& final(self).pending(1) == old(self).pending(1)
                &&& match line {
                    Some(l) => tx_flushed(old(self).pending(0), (val as u8) as char) == Some(l@),
                    None => tx_flushed(old(self).pending(0), (val as u8) as char) is None,
                }
            },
            offset != 0x23 ==> *final(self) == *old(self) && line is None,
    {
        let val = val as u8;
        if offset == 0x23 {
            // UART Tx register A
            self.push_char(0, val as char)
        } else {
            // The mode, clock select, command, control, output port
            // and boot status registers are ignored and interrupts
            // are not implemented
            None
        }
    }

    fn push_char(&mut self, port: usize, c: char) -> (line: Option<String>)
        requires
            old(self).wf(),
            port < 2,
        ensures
            final(self).wf(),
            final(self).pending(port as int) == tx_after(old(self).pending(port as int), c),
            final(self).pending(1 - port) == old(self).pending(1 - port),
            match line {
                Some(l) => tx_flushed(old(self).pending(port as int), c) == Some(l@),
                None => tx_flushed(old(self).pending(port as int), c) is None,
            },
    {
        let mut buffer = self.tx_buffers[port].clone();
        assert(buffer@ == self.pending(port as int));
        let r = if c == '\n' || buffer.len() == TX_BUFFER_LEN {
            let line = chars_to_string(&buffer);
            buffer = Vec::new();
            Some(line)
        } else {
            buffer.push(c);
            None
        };
        self.tx_buffers.set(port, buffer);
        r
    }
}

/// Build a string out of a sequence of characters
fn chars_to_string(chars: &Vec<char>) -> (s: String)
    ensures
        s@ == chars@,
{
    let mut s = String::new();
    let mut i: usize = 0;
    while i < chars.len()
        invariant
            i <= chars.len(),
            s@ == chars@.subrange(0, i as int),
        decreases chars.len() - i,
    {
        string_push(&mut s, chars[i]);
        i += 1;
        assert(s@ == chars@.subrange(0, i as int));
    }
    s
}

} // verus!
