//! Memory card serial protocol

use vstd::prelude::*;

verus! {

/// Size of a memory card sector in bytes
pub const SECTOR_SIZE: usize = 128;

/// Serial protocol state of a memory card
#[derive(Clone, Copy, PartialEq, Eq, Structural, Debug)]
pub struct MemCardState {
    /// Counter keeping track of the current position in the reply
    /// sequence
    pub seq: u8,
    /// False if the card is done processing the current command
    pub active: bool,
    /// Sector being accessed
    pub addr: u16,
    /// Checksum of the transfer
    pub csum: u8,
    /// Flag reported until the first write
    pub new: bool,
    /// True for a read command, false for a write
    pub read: bool,
    /// Previous command byte
    pub pre: u8,
}

/// Byte `seq` of a sector read is in the image
pub open spec fn memcard_byte_ok(s: MemCardState, image_len: int, seq: u8) -> bool {
    10 <= seq <= 137 && s.read ==> (s.addr as int) * 128 + (seq - 10) < image_len
}

/// State and response `(response, dsr)` after the command byte `cmd`
/// at position `seq`
pub open spec fn memcard_step(s: MemCardState, image: Seq<u8>, seq: u8, cmd: u8) -> (MemCardState, u8, bool) {
    let (s1, res, d): (MemCardState, u8, bool) = if seq == 0 {
        // First byte should be 0x81 if the command targets the
        // memcard
        (s, 0xff, cmd == 0x81)
    } else if seq == 1 {
        (
            MemCardState { read: cmd == 0x52, ..s },
            if s.new {
                0x08
            } else {
                0x00
            },
            cmd == 0x52 || cmd == 0x57,
        )
    } else if seq == 2 {
        (s, 0x5a, true)
    } else if seq == 3 {
        (s, 0x5d, true)
    } else if seq == 4 {
        (MemCardState { addr: (cmd as u16) << 8u16, csum: cmd, ..s }, 0x00, true)
    } else if seq == 5 {
        let addr = s.addr | (cmd as u16);
        (
            MemCardState {
                addr: addr,
                csum: s.csum ^ cmd,
                seq: if !s.read {
                    9
                } else {
                    s.seq
                },
                ..s
            },
            (addr >> 8u16) as u8,
            true,
        )
    } else if seq == 6 {
        (s, 0x5c, true)
    } else if seq == 7 {
        (
            MemCardState {
                seq: if !s.read {
                    138
                } else {
                    s.seq
                },
                ..s
            },
            0x5d,
            true,
        )
    } else if seq == 8 {
        (s, (s.addr >> 8u16) as u8, true)
    } else if seq == 9 {
        (s, s.addr as u8, true)
    } else if seq <= 137 {
        if s.read {
            let b = image[(s.addr as int) * 128 + (seq - 10)];
            (MemCardState { csum: s.csum ^ b, ..s }, b, true)
        } else {
            (s, s.pre, true)
        }
    } else if seq == 138 {
        if s.read {
            (s, s.csum, true)
        } else {
            (MemCardState { seq: 5, ..s }, s.pre, true)
        }
    } else if seq == 139 {
        (
            MemCardState {
                new: if !s.read {
                    false
                } else {
                    s.new
                },
                ..s
            },
            0x47,
            true,
        )
    } else {
        (s, 0xff, false)
    };
    (MemCardState { pre: cmd, ..s1 }, res, d)
}

/// XOR of all the bytes of `s`
pub open spec fn xor_all(s: Seq<u8>) -> u8
    decreases s.len(),
{
    if s.len() == 0 {
        0
    } else {
        s[0] ^ xor_all(s.drop_first())
    }
}

/// State after the command bytes `cmds` sent at positions `pos`,
/// `pos + 1`... starting from `s`
pub open spec fn memcard_steps(s: MemCardState, image: Seq<u8>, pos: int, cmds: Seq<u8>) -> MemCardState
    decreases cmds.len(),
{
    if cmds.len() == 0 {
        s
    } else {
        memcard_steps(memcard_step(s, image, pos as u8, cmds[0]).0, image, pos + 1, cmds.drop_first())
    }
}

/// During a sector read the address bytes seed the checksum (MSB at
/// position 4, XORed with the LSB at position 5); positions 6 to 9
/// leave it alone; each data byte, at positions 10 to 137, is the next
/// byte of the addressed sector and is XORed into the checksum; the
/// byte sent at position 138 is the checksum
pub proof fn lemma_read_byte_steps(s: MemCardState, image: Seq<u8>, seq: u8, cmd: u8)
    requires
        s.read,
    ensures
        ({
            let (n, res, d) = memcard_step(s, image, seq, cmd);
            &&& seq != 1 ==> n.read
            &&& seq == 4 ==> n.csum == cmd && n.addr == (cmd as u16) << 8u16
            &&& seq == 5 ==> n.csum == s.csum ^ cmd && n.addr == s.addr | (cmd as u16)
            &&& 6 <= seq <= 9 ==> n.csum == s.csum && n.addr == s.addr
            &&& 10 <= seq <= 137 ==> res == image[(s.addr as int) * 128 + (seq - 10)] && n.csum
                == s.csum ^ res && n.addr == s.addr && d
            &&& seq == 138 ==> res == s.csum && d
        }),
{
}

/// The fixed bytes of the memory card protocol: the card answers
/// 0xff and asserts DSR only for the 0x81 address byte; then the "new
/// card" flag (0x08) and DSR for the read (0x52) and write (0x57)
/// commands; the two card ID bytes 0x5a 0x5d; the address MSB echoed
/// back after the LSB; the acknowledge bytes 0x5c 0x5d; the address
/// (MSB, LSB) again before the data; the end byte 0x47. Past the end
/// of the transfer it answers 0xff with no DSR. The byte received is
/// remembered as the previous command byte.
pub proof fn lemma_protocol_bytes(s: MemCardState, image: Seq<u8>, seq: u8, cmd: u8)
    ensures
        ({
            let (n, res, d) = memcard_step(s, image, seq, cmd);
            &&& n.pre == cmd
            &&& seq == 0 ==> res == 0xff && (d <==> cmd == 0x81)
            &&& seq == 1 ==> res == (if s.new {
                0x08u8
            } else {
                0x00u8
            }) && (d <==> (cmd == 0x52 || cmd == 0x57)) && (n.read <==> cmd == 0x52)
            &&& seq == 2 ==> res == 0x5a && d
            &&& seq == 3 ==> res == 0x5d && d
            &&& seq == 5 ==> res == (n.addr >> 8u16) as u8 && d
            &&& seq == 6 ==> res == 0x5c && d
            &&& seq == 7 ==> res == 0x5d && d
            &&& seq == 8 ==> res == (s.addr >> 8u16) as u8 && d
            &&& seq == 9 ==> res == s.addr as u8 && d
            &&& seq == 139 ==> res == 0x47 && d
            &&& seq >= 140 ==> res == 0xff && !d
        }),
{
}

/// Bit-level facts about XOR/// Bit-level facts about XOR
proof fn lemma_xor_facts(x: u8, y: u8, z: u8)
    by (bit_vector)
    ensures
        (x ^ y) ^ z == x ^ (y ^ z),
        x ^ 0 == x,
{
}

/// Command bytes sent one after the other: the bytes of `a`, then those
/// of `b`
proof fn lemma_steps_split(s: MemCardState, image: Seq<u8>, pos: int, a: Seq<u8>, b: Seq<u8>)
    ensures
        memcard_steps(s, image, pos, a + b) == memcard_steps(
            memcard_steps(s, image, pos, a),
            image,
            pos + a.len(),
            b,
        ),
    decreases a.len(),
{
    if a.len() > 0 {
        assert((a + b).drop_first() =~= a.drop_first() + b);
        assert((a + b)[0] == a[0]);
        lemma_steps_split(memcard_step(s, image, pos as u8, a[0]).0, image, pos + 1, a.drop_first(), b);
    } else {
        assert(a + b =~= b);
    }
}

/// Positions 6 to 9 of a read keep the checksum and the address
proof fn lemma_read_header_steps(s: MemCardState, image: Seq<u8>, pos: int, cmds: Seq<u8>)
    requires
        s.read,
        6 <= pos,
        pos + cmds.len() <= 10,
    ensures
        memcard_steps(s, image, pos, cmds).read,
        memcard_steps(s, image, pos, cmds).csum == s.csum,
        memcard_steps(s, image, pos, cmds).addr == s.addr,
    decreases cmds.len(),
{
    if cmds.len() > 0 {
        lemma_read_byte_steps(s, image, pos as u8, cmds[0]);
        lemma_read_header_steps(memcard_step(s, image, pos as u8, cmds[0]).0, image, pos + 1, cmds.drop_first());
    }
}

/// Data positions of a read XOR the sector bytes into the checksum
proof fn lemma_read_data_steps(s: MemCardState, image: Seq<u8>, pos: int, cmds: Seq<u8>)
    requires
        s.read,
        10 <= pos,
        pos + cmds.len() <= 138,
        (s.addr as int) * 128 + (pos - 10) + cmds.len() <= image.len(),
    ensures
        ({
            let n = memcard_steps(s, image, pos, cmds);
            let start = (s.addr as int) * 128 + (pos - 10);
            &&& n.read
            &&& n.addr == s.addr
            &&& n.csum == s.csum ^ xor_all(image.subrange(start, start + cmds.len()))
        }),
    decreases cmds.len(),
{
    let start = (s.addr as int) * 128 + (pos - 10);
    if cmds.len() == 0 {
        lemma_xor_facts(s.csum, 0, 0);
        assert(image.subrange(start, start) =~= Seq::<u8>::empty());
    } else {
        lemma_read_byte_steps(s, image, pos as u8, cmds[0]);
        let s1 = memcard_step(s, image, pos as u8, cmds[0]).0;
        lemma_read_data_steps(s1, image, pos + 1, cmds.drop_first());
        let sub = image.subrange(start, start + cmds.len());
        assert(sub.drop_first() =~= image.subrange(start + 1, start + 1 + cmds.drop_first().len()));
        assert(sub[0] == image[start]);
        lemma_xor_facts(s.csum, image[start], xor_all(sub.drop_first()));
    }
}

/// The checksum byte sent at the end of a sector read (position 138)
/// is the XOR of the address MSB, the address LSB and the 128 data
/// bytes of the addressed sector. `cmds` are the bytes sent at
/// positions 4 (MSB) and 5 (LSB) to 137.
pub proof fn lemma_sector_read_checksum(s: MemCardState, image: Seq<u8>, cmds: Seq<u8>, last: u8)
    requires
        s.read,
        cmds.len() == 134,
        ((((cmds[0] as u16) << 8u16) | (cmds[1] as u16)) as int) * 128 + 128 <= image.len(),
    ensures
        ({
            let sector = ((((cmds[0] as u16) << 8u16) | (cmds[1] as u16)) as int) * 128;
            memcard_step(memcard_steps(s, image, 4, cmds), image, 138, last).1 == cmds[0] ^ cmds[1]
                ^ xor_all(image.subrange(sector, sector + 128))
        }),
{
    let a = cmds.subrange(0, 2);
    let h = cmds.subrange(2, 6);
    let dt = cmds.subrange(6, 134);
    assert(cmds =~= a + (h + dt));
    lemma_steps_split(s, image, 4, a, h + dt);
    let s2 = memcard_steps(s, image, 4, a);
    lemma_read_byte_steps(s, image, 4, cmds[0]);
    let s1 = memcard_step(s, image, 4, cmds[0]).0;
    lemma_read_byte_steps(s1, image, 5, cmds[1]);
    assert(a.drop_first().drop_first() =~= Seq::<u8>::empty());
    assert(a[0] == cmds[0] && a.drop_first()[0] == cmds[1]);
    let s2b = memcard_step(s1, image, 5, cmds[1]).0;
    assert(memcard_steps(s2b, image, 6, a.drop_first().drop_first()) == s2b);
    assert(memcard_steps(s1, image, 5, a.drop_first()) == s2b);
    assert(s2 == s2b);
    lemma_steps_split(s2, image, 6, h, dt);
    lemma_read_header_steps(s2, image, 6, h);
    let s3 = memcard_steps(s2, image, 6, h);
    lemma_read_data_steps(s3, image, 10, dt);
    let s4 = memcard_steps(s3, image, 10, dt);
    lemma_read_byte_steps(s4, image, 138, last);
    lemma_xor_facts(cmds[0], cmds[1], 0);
}

pub struct MemCard {
    /// Serial protocol state
    state: MemCardState,
    /// Card contents
    image: Vec<u8>,
}

impl MemCard {
    pub closed spec fn state(&self) -> MemCardState {
        self.state
    }

    pub closed spec fn image(&self) -> Seq<u8> {
        self.image@
    }

    /// Create a memory card holding `image`
    pub fn new(image: Vec<u8>) -> (m: MemCard)
        ensures
            m.image() == image@,
            m.state() == (MemCardState {
                seq: 0,
                active: true,
                addr: 0,
                csum: 0,
                new: true,
                read: true,
                pre: 0,
            }),
    {
        MemCard {
            state: MemCardState {
                seq: 0,
                active: true,
                addr: 0,
                csum: 0,
                new: true,
                read: true,
                pre: 0,
            },
            image: image,
        }
    }

    /// Called when the "select" line goes down.
    pub fn select(&mut self)
        ensures
            final(self).state() == (MemCardState { active: true, seq: 0, ..old(self).state() }),
            final(self).image() == old(self).image(),
    {
        // Prepare for incomming command
        self.state.active = true;
        self.state.seq = 0;
    }

    /// The first return value is the response byte. The 2nd return
    /// value is true if the card issues a DSR pulse after the byte is
    /// read to notify the controller that more data can be read.
    pub fn send_command(&mut self, cmd: u8) -> (r: (u8, bool))
        requires
            old(self).state().active ==> memcard_byte_ok(
                old(self).state(),
                old(self).image().len() as int,
                old(self).state().seq,
            ),
            old(self).state().active ==> old(self).state().seq <= 140,
        ensures
            final(self).image() == old(self).image(),
            final(self).state().active ==> final(self).state().seq <= 140,
            !old(self).state().active ==> r == (0xffu8, false) && final(self).state() == old(
                self,
            ).state(),
            old(self).state().active ==> {
                let (s, res, d) = memcard_step(
                    old(self).state(),
                    old(self).image(),
                    old(self).state().seq,
                    cmd,
                );
                &&& r == (res, d)
                &&& final(self).state() == (MemCardState {
                    active: d,
                    seq: (s.seq + 1) as u8,
                    ..s
                })
            },
    {
        if !self.state.active {
            return (0xff, false);
        }
        let seq = self.state.seq;
        let (resp, dsr) = self.handle_command(seq, cmd);
        // If we're not asserting DSR it either means that we've
        // encountered an error or that we have nothing else to
        // reply. In either case we won't be handling any more command
        // bytes in this transaction.
        self.state.active = dsr;
        self.state.seq = self.state.seq + 1;
        (resp, dsr)
    }

    /// Handle the command byte `cmd` at position `seq` of the transfer
    pub fn handle_command(&mut self, seq: u8, cmd: u8) -> (r: (u8, bool))
        requires
            memcard_byte_ok(old(self).state(), old(self).image().len() as int, seq),
            old(self).state().seq <= 140,
        ensures
            final(self).image() == old(self).image(),
            ({
                let (s, res, d) = memcard_step(old(self).state(), old(self).image(), seq, cmd);
                r == (res, d) && final(self).state() == s
            }),
            final(self).state().seq <= 140,
            final(self).state().active == old(self).state().active,
    {
        let (res, d): (u8, bool) = if seq == 0 {
            (0xff, cmd == 0x81)
        } else if seq == 1 {
            let r: u8 = if self.state.new { 0x08 } else { 0x00 };
            self.state.read = cmd == 0x52;
            (r, cmd == 0x52 || cmd == 0x57)
        } else if seq == 2 {
            (0x5a, true)
        } else if seq == 3 {
            (0x5d, true)
        } else if seq == 4 {
            self.state.addr = (cmd as u16) << 8;
            self.state.csum = cmd;
            (0x00, true)
        } else if seq == 5 {
            self.state.addr = self.state.addr | cmd as u16;
            self.state.csum = self.state.csum ^ cmd;
            if !self.state.read {
                self.state.seq = 9;
            }
            ((self.state.addr >> 8) as u8, true)
        } else if seq == 6 {
            (0x5c, true)
        } else if seq == 7 {
            if !self.state.read {
                self.state.seq = 138;
            }
            (0x5d, true)
        } else if seq == 8 {
            ((self.state.addr >> 8) as u8, true)
        } else if seq == 9 {
            (self.state.addr as u8, true)
        } else if seq <= 137 {
            if self.state.read {
                let addr = (self.state.addr as usize) * 128 + (seq - 10) as usize;
                let b = self.image[addr];
                self.state.csum = self.state.csum ^ b;
                (b, true)
            } else {
                (self.state.pre, true)
            }
        } else if seq == 138 {
            if self.state.read {
                (self.state.csum, true)
            } else {
                self.state.seq = 5;
                (self.state.pre, true)
            }
        } else if seq == 139 {
            if !self.state.read {
                self.state.new = false;
            }
            (0x47, true)
        } else {
            (0xff, false)
        };
        self.state.pre = cmd;
        (res, d)
    }
}

} // verus!
