//! GDB remote reply packets

use vstd::prelude::*;

verus! {

/// Sum of the bytes of `s` modulo 256
pub open spec fn checksum(s: Seq<u8>) -> u8
    decreases s.len(),
{
    if s.len() == 0 {
        0
    } else {
        ((checksum(s.drop_last()) + s.last()) % 256) as u8
    }
}

/// Lower case ASCII hexadecimal digit of `n` (`n < 16`)
pub open spec fn ascii_hex_digit(n: u8) -> u8 {
    if n < 10 {
        (0x30 + n) as u8
    } else {
        (0x61 + n - 10) as u8
    }
}

/// Two lower case ASCII hexadecimal digits of a byte
pub open spec fn hex_byte(b: u8) -> Seq<u8> {
    seq![ascii_hex_digit(b >> 4u8), ascii_hex_digit(b & 0xf)]
}

/// Hexadecimal digits of the `n` low bytes of `v`, least significant
/// byte first
pub open spec fn hex_le(v: u32, n: nat) -> Seq<u8>
    decreases n,
{
    if n == 0 {
        seq![]
    } else {
        hex_byte(v as u8) + hex_le(v >> 8u32, (n - 1) as nat)
    }
}

/// Complete packet carrying `data`: `$`, the data, `#` and the
/// checksum of the data in hexadecimal
pub open spec fn packet_bytes(data: Seq<u8>) -> Seq<u8> {
    seq![0x24u8] + data + seq![0x23u8] + hex_byte(checksum(data))
}

/// GDB remote reply
pub struct Reply {
    /// Packet data
    data: Vec<u8>,
    /// Checksum
    csum: u8,
}

impl Reply {
    /// Payload pushed so far
    pub closed spec fn payload(&self) -> Seq<u8> {
        self.data@.drop_first()
    }

    /// The data starts with the packet marker and the checksum
    /// matches the payload
    pub closed spec fn wf(&self) -> bool {
        &&& self.data@.len() >= 1
        &&& self.data@[0] == 0x24
        &&& self.csum == checksum(self.payload())
    }

    pub fn new() -> (r: Reply)
        ensures
            r.wf(),
            r.payload() == Seq::<u8>::empty(),
    {
        // 32bytes is probably sufficient for the majority of replies
        let mut data: Vec<u8> = Vec::new();
        // Each reply begins with a dollar sign
        data.push(0x24);
        assert(data@.drop_first() =~= Seq::<u8>::empty());
        Reply { data: data, csum: 0 }
    }

    /// Append `data` to the payload. The packet marker cannot appear
    /// in the payload.
    pub fn push(&mut self, data: &[u8])
        requires
            old(self).wf(),
            forall|i: int| 0 <= i < data@.len() ==> data@[i] != 0x24,
        ensures
            final(self).wf(),
            final(self).payload() == old(self).payload() + data@,
    {
        let mut i: usize = 0;
        while i < data.len()
            invariant
                i <= data@.len(),
                self.data@.len() >= 1,
                self.data@[0] == 0x24,
                self.payload() == old(self).payload() + data@.subrange(0, i as int),
                self.csum == checksum(self.payload()),
            decreases data@.len() - i,
        {
            let b = data[i];
            let ghost p = self.payload();
            // Update checksum
            self.csum = self.csum.wrapping_add(b);
            self.data.push(b);
            proof {
                assert(self.data@.drop_first() =~= p.push(b));
                assert(p.push(b).drop_last() =~= p);
                assert(data@.subrange(0, i + 1) =~= data@.subrange(0, i as int).push(b));
            }
            i += 1;
        }
        assert(data@.subrange(0, data@.len() as int) =~= data@);
    }

    /// Append a byte as two hexadecimal digits
    pub fn push_u8(&mut self, byte: u8)
        requires
            old(self).wf(),
        ensures
            final(self).wf(),
            final(self).payload() == old(self).payload() + hex_byte(byte),
    {
        assert(byte >> 4u8 < 16 && byte & 0xf < 16) by {
            lemma_reply_bits(byte, 0, 0);
        }
        let hi = hex_ascii(byte >> 4);
        let lo = hex_ascii(byte & 0xf);
        let digits = [hi, lo];
        assert(digits@ =~= hex_byte(byte));
        self.push(&digits);
    }

    /// Push an u16 as 2 little endian bytes
    pub fn push_u16(&mut self, v: u16)
        requires
            old(self).wf(),
        ensures
            final(self).wf(),
            final(self).payload() == old(self).payload() + hex_le(v as u32, 2),
    {
        self.push_u8(v as u8);
        self.push_u8((v >> 8) as u8);
        proof {
            lemma_reply_bits(0, v, 0);
            reveal_with_fuel(hex_le, 3);
            assert(final(self).payload() =~= old(self).payload() + hex_le(v as u32, 2));
        }
    }

    /// Push an u32 as 4 little endian bytes
    pub fn push_u32(&mut self, v: u32)
        requires
            old(self).wf(),
        ensures
            final(self).wf(),
            final(self).payload() == old(self).payload() + hex_le(v, 4),
    {
        self.push_u8(v as u8);
        self.push_u8((v >> 8) as u8);
        self.push_u8((v >> 16) as u8);
        self.push_u8((v >> 24) as u8);
        proof {
            lemma_reply_bits(0, 0, v);
            reveal_with_fuel(hex_le, 5);
            assert(final(self).payload() =~= old(self).payload() + hex_le(v, 4));
        }
    }

    /// Finalize the reply: append the checksum and return the
    /// complete packet
    pub fn into_packet(self) -> (p: Vec<u8>)
        requires
            self.wf(),
        ensures
            p@ == packet_bytes(self.payload()),
    {
        let mut data = self.data;
        // End of packet
        data.push(0x23);
        // Append checksum.
        let csum = self.csum;
        assert(csum >> 4u8 < 16 && csum & 0xf < 16) by {
            lemma_reply_bits(csum, 0, 0);
        }
        data.push(hex_ascii(csum >> 4));
        data.push(hex_ascii(csum & 0xf));
        proof {
            assert(self.data@ =~= seq![0x24u8] + self.payload());
        }
        assert(data@ =~= packet_bytes(self.payload()));
        data
    }
}

/// Lower case ASCII hexadecimal digit of `n`
pub fn hex_ascii(n: u8) -> (c: u8)
    requires
        n < 16,
    ensures
        c == ascii_hex_digit(n),
{
    if n < 10 {
        0x30 + n
    } else {
        0x61 + n - 10
    }
}

/// Bit-level facts about splitting values into hex digits and bytes
proof fn lemma_reply_bits(byte: u8, v: u16, w: u32)
    by (bit_vector)
    ensures
        ((w >> 8u32) >> 8u32) == w >> 16u32,
        ((w >> 16u32) >> 8u32) == w >> 24u32,
        byte >> 4u8 < 16,
        byte & 0xf < 16,
        (v as u32) as u8 == v as u8,
        ((v as u32) >> 8u32) as u8 == (v >> 8u16) as u8,
{
}

} // verus!
