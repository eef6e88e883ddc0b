//! Host side of the controller: sector reads into the RX buffer, RX
//! data transfers, register accesses and the synchronization loop

use vstd::prelude::*;

use super::{CdRom, handled, kept, shared_ok, world, world_handled};
use crate::cdrom::model::{
    CdError, CdRomView, CdWorld, RX_BUFFER_SIZE, chip_control_written, copied, cd_wf, dma_read,
    irq_acked, lemma_wf_facts, lemma_wf_intro, maybe_notify_read, maybe_process_async,
    maybe_start_command, read_byte, read_sector, rx_aligned,
};
use crate::shared::SharedState;

verus! {

/// Copy `data` at the start of `buf`
fn copy_into(buf: &mut Vec<u8>, data: &[u8])
    requires
        data@.len() <= old(buf)@.len(),
    ensures
        final(buf)@ == copied(old(buf)@, data@),
{
    let mut i: usize = 0;
    while i < data.len()
        invariant
            i <= data@.len(),
            data@.len() <= buf@.len(),
            buf@.len() == old(buf)@.len(),
            forall|j: int| 0 <= j < i ==> buf@[j] == data@[j],
            forall|j: int| i <= j < buf@.len() ==> buf@[j] == old(buf)@[j],
        decreases data@.len() - i,
    {
        buf.set(i, data[i]);
        i += 1;
    }
    assert(buf@ =~= copied(old(buf)@, data@));
}

/// Bit-level facts about the interrupt flags and the RX index
proof fn lemma_host_bits(v: u8, i: u16)
    by (bit_vector)
    ensures
        0u8 & v == 0,
        i <= 2352 ==> ((i & !7u16) + ((i & 4u16) << 1u16)) as u16 <= 2352,
        i <= 2352 ==> (i & !7u16) + ((i & 4u16) << 1u16) <= 2352,
{
}

impl CdRom {
    /// Called when a new sector must be read: the sector supplied for
    /// the current position goes to the RX buffer and the drive moves
    /// on to the next one
    #[verifier::spinoff_prover]
    #[verifier::rlimit(60)]
    pub(super) fn read_sector(&mut self) -> (r: Result<(), CdError>)
        requires
            cd_wf(old(self)@),
        ensures
            handled(read_sector(old(self)@), r, final(self)@),
            r is Ok ==> final(self)@.sub_cpu == old(self)@.sub_cpu && final(self)@.irq_flags == old(
                self,
            )@.irq_flags && final(self)@.command == old(self)@.command && final(self)@.read_state
                == old(self)@.read_state && final(self)@.double_speed == old(self)@.double_speed
                && final(self)@.disc == old(self)@.disc,
    {
        proof {
            reveal(read_sector);
            lemma_wf_facts(old(self)@);
        }
        if self.read_pending {
            return Err(CdError::ReadWhilePending);
        }
        if self.disc.is_none() {
            return Err(CdError::NoDisc);
        }
        let taken = self.next_sector.take();
        let (m, sector) = match taken {
            Some(t) => t,
            None => {
                return Err(CdError::SectorUnavailable);
            },
        };
        proof {
            m.lemma_fields_eq(self.position);
        }
        if m != self.position {
            return Err(CdError::SectorUnavailable);
        }
        let len: u16 = if self.read_whole_sector {
            // Read the entire sector except for the 12bits sync
            // pattern
            copy_into(&mut self.rx_buffer, &sector.raw.as_slice()[12..RX_BUFFER_SIZE]);
            2340
        } else {
            // Read 2048 bytes after the Mode2 XA sub-header
            match &sector.payload {
                Some(p) => {
                    copy_into(&mut self.rx_buffer, &p.as_slice()[0..2048]);
                    2048
                },
                None => {
                    return Err(CdError::NotXaSector);
                },
            }
        };
        // Move on to the next segment.
        let (pm, ps, pf) = self.position.into_bcd();
        if pm == 0x99 && ps == 0x59 && pf == 0x74 {
            return Err(CdError::MsfOverflow);
        }
        self.rx_len = len;
        self.last_q = sector.q;
        self.position = self.position.next();
        self.read_pending = true;
        proof {
            lemma_wf_intro(self@);
        }
        Ok(())
    }

    /// Retreive a single byte from the RX buffer
    #[verifier::spinoff_prover]
    fn read_byte(&mut self) -> (r: Result<u8, CdError>)
        requires
            cd_wf(old(self)@),
        ensures
            match r {
                Ok(b) => read_byte(old(self)@) == Ok::<(CdRomView, u8), CdError>((final(self)@, b))
                    && cd_wf(final(self)@),
                Err(e) => read_byte(old(self)@) == Err::<(CdRomView, u8), CdError>(e),
            },
    {
        proof {
            reveal(read_byte);
            lemma_wf_facts(old(self)@);
        }
        if self.rx_index as usize >= RX_BUFFER_SIZE {
            return Err(CdError::RxOverflow);
        }
        let b = self.rx_buffer[self.rx_index as usize];
        if !self.rx_active {
            return Err(CdError::ReadInactive);
        }
        self.rx_index = self.rx_index + 1;
        if self.rx_index == self.rx_len {
            // rx_active clears automatically at the end of the
            // transfer
            self.rx_active = false;
        }
        proof {
            lemma_wf_intro(self@);
        }
        Ok(b)
    }

    /// The DMA can read the RX buffer one word at a time
    #[verifier::spinoff_prover]
    pub fn dma_read_word(&mut self) -> (r: Result<u32, CdError>)
        requires
            cd_wf(old(self)@),
        ensures
            match r {
                Ok(w) => dma_read(old(self)@) == Ok::<(CdRomView, u32), CdError>((final(self)@, w))
                    && cd_wf(final(self)@),
                Err(e) => dma_read(old(self)@) == Err::<(CdRomView, u32), CdError>(e),
            },
    {
        proof {
            reveal(dma_read);
        }
        let b0 = match self.read_byte() {
            Ok(b) => b as u32,
            Err(e) => {
                return Err(e);
            },
        };
        let b1 = match self.read_byte() {
            Ok(b) => b as u32,
            Err(e) => {
                return Err(e);
            },
        };
        let b2 = match self.read_byte() {
            Ok(b) => b as u32,
            Err(e) => {
                return Err(e);
            },
        };
        let b3 = match self.read_byte() {
            Ok(b) => b as u32,
            Err(e) => {
                return Err(e);
            },
        };
        // Pack in a little endian word
        Ok(b0 | (b1 << 8) | (b2 << 16) | (b3 << 24))
    }

    /// HCHPCTL register write
    #[verifier::spinoff_prover]
    pub(super) fn set_host_chip_control(&mut self, ctrl: u8) -> (r: Result<(), CdError>)
        requires
            cd_wf(old(self)@),
        ensures
            handled(chip_control_written(old(self)@, ctrl), r, final(self)@),
            kept(r, old(self)@, final(self)@),
    {
        proof {
            reveal(chip_control_written);
            lemma_wf_facts(old(self)@);
            lemma_host_bits(0, self.rx_index);
        }
        let prev_active = self.rx_active;
        let active = ctrl & 0x80 != 0;
        let i = self.rx_index;
        let index = if active {
            if !prev_active {
                // Reset the index to the beginning of the RX buffer
                0
            } else {
                i
            }
        } else {
            // It seems that on the real hardware when one attempts to
            // read the RX data register while the rx_active bit is
            // low it returns always the same bytes which seems to be
            // located at the *closest* multiple of 8 bytes. I think
            // there's an 8byte buffer behind this register somewhere.
            let adjust = (i & 4) << 1;
            (i & !7) + adjust
        };
        if ctrl & 0x7f != 0 {
            return Err(CdError::UnhandledChipControl(ctrl));
        }
        assert(index == if active {
            if !old(self)@.rx_active {
                0
            } else {
                old(self)@.rx_index
            }
        } else {
            rx_aligned(old(self)@.rx_index)
        });
        self.rx_index = index;
        self.rx_active = active;
        proof {
            lemma_wf_intro(self@);
        }
        assert(self@ == CdRomView { rx_active: active, rx_index: index, ..old(self)@ });
        Ok(())
    }

    /// Acknowledge the interrupt flags `v` and start whatever waited
    /// for it
    #[verifier::spinoff_prover]
    #[verifier::rlimit(100)]
    pub(super) fn irq_ack(&mut self, shared: &mut SharedState, v: u8) -> (r: Result<(), CdError>)
        requires
            cd_wf(old(self)@),
            shared_ok(*old(shared)),
        ensures
            world_handled(irq_acked(world(old(self)@, *old(shared)), v), r, final(self)@, *final(shared), *old(shared)),
    {
        proof {
            reveal(irq_acked);
            lemma_wf_facts(old(self)@);
            lemma_host_bits(!v, 0);
        }
        self.irq_flags = self.irq_flags & !v;
        proof {
            lemma_wf_intro(self@);
        }
        assert(world(self@, *shared) == CdWorld {
            cd: CdRomView { irq_flags: old(self)@.irq_flags & !v, ..old(self)@ },
            ..world(old(self)@, *old(shared))
        });
        // Check if a command/async/read event was waiting for the IRQ
        // ack to process.
        //
        // XXX I'm not sure which one would have the priority here,
        // assuming that they're all pending at the same time.
        let r = self.maybe_start_command(shared);
        if r.is_err() {
            return r;
        }
        let r = self.maybe_process_async_response(shared);
        if r.is_err() {
            return r;
        }
        self.maybe_notify_read(shared);
        Ok(())
    }
}

} // verus!
