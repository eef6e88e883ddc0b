//! Register interface of the controller and its synchronization with
//! the rest of the console

use vstd::prelude::*;

use super::{CdRom, shared_ok, world, world_handled};
use crate::cdrom::fifo::{fifo_cleared, lemma_fifo_wf};
use crate::cdrom::model::{
    CdError, CdRomView, CdWorld, Mixer, ReadState, cd_wf, in_command, lemma_wf_facts,
    lemma_wf_intro, loaded, predict, register_read, register_written, round_async, round_read, round_step,
    stored, sync_loop, sync_round, synced,
};
use crate::memory::Addressable;
use crate::memory::access_bytes;
use crate::shared::SharedState;
use crate::timekeeper::{Peripheral, peripheral_index, tk_synced};

verus! {

impl CdRom {
    /// Register write of `val` at `offset`
    #[verifier::spinoff_prover]
    fn write_register(&mut self, shared: &mut SharedState, offset: u32, val: u8) -> (r: Result<(), CdError>)
        requires
            cd_wf(old(self)@),
            shared_ok(*old(shared)),
        ensures
            world_handled(
                register_written(world(old(self)@, *old(shared)), offset, val),
                r,
                final(self)@,
                *final(shared),
                *old(shared),
            ),
    {
        proof {
            reveal(register_written);
            lemma_wf_facts(old(self)@);
        }
        if offset == 0 {
            // ADDRESS register
            self.index = val & 3;
            proof {
                assert(val & 3 < 4) by (bit_vector);
                lemma_wf_intro(self@);
            }
            Ok(())
        } else if offset == 1 {
            self.write_register_1(shared, val)
        } else if offset == 2 {
            self.write_register_2(shared, val)
        } else if offset == 3 {
            self.write_register_3(shared, val)
        } else {
            Err(CdError::UnhandledStore(offset, self.index, val))
        }
    }

    /// COMMAND and ATV2 registers
    #[verifier::spinoff_prover]
    #[verifier::rlimit(60)]
    fn write_register_1(&mut self, shared: &mut SharedState, val: u8) -> (r: Result<(), CdError>)
        requires
            cd_wf(old(self)@),
            shared_ok(*old(shared)),
        ensures
            world_handled(
                register_written(world(old(self)@, *old(shared)), 1, val),
                r,
                final(self)@,
                *final(shared),
                *old(shared),
            ),
    {
        proof {
            reveal(register_written);
            lemma_wf_facts(old(self)@);
        }
        let index = self.index;
        if index == 0 {
            // COMMAND register
            if let Some(c) = self.command {
                return Err(CdError::NestedCommand(c, val));
            }
            self.command = Some(val);
            proof {
                lemma_wf_intro(self@);
            }
            self.maybe_start_command(shared)
        } else if index == 3 {
            // ATV2 register
            self.mixer = Mixer { cd_right_to_spu_right: val, ..self.mixer };
            proof {
                lemma_wf_intro(self@);
            }
            Ok(())
        } else {
            Err(CdError::UnhandledStore(1, index, val))
        }
    }

    /// PARAMETER, HINTMSK, ATV0 and ATV3 registers
    #[verifier::spinoff_prover]
    #[verifier::rlimit(60)]
    fn write_register_2(&mut self, shared: &mut SharedState, val: u8) -> (r: Result<(), CdError>)
        requires
            cd_wf(old(self)@),
            shared_ok(*old(shared)),
        ensures
            world_handled(
                register_written(world(old(self)@, *old(shared)), 2, val),
                r,
                final(self)@,
                *final(shared),
                *old(shared),
            ),
    {
        proof {
            reveal(register_written);
            lemma_wf_facts(old(self)@);
        }
        let index = self.index;
        if index == 0 {
            // PARAMETER register
            if let Some(c) = self.command {
                return Err(CdError::ParamDuringCommand(c));
            }
            if self.host_params.is_full() {
                // Wraps around on real hardware
                return Err(CdError::ParamOverflow);
            }
            self.host_params.push(val);
        } else if index == 1 {
            // HINTMSK register: only the 3 bit sub-CPU interrupt code
            // is handled
            self.irq_mask = val & 0x1f;
        } else if index == 2 {
            // ATV0 register
            self.mixer = Mixer { cd_left_to_spu_left: val, ..self.mixer };
        } else {
            // ATV3 register
            self.mixer = Mixer { cd_right_to_spu_left: val, ..self.mixer };
        }
        proof {
            lemma_wf_intro(self@);
        }
        Ok(())
    }

    /// HCHPCTL, HCLRCTL, ATV1 and ADPCTL registers
    #[verifier::spinoff_prover]
    #[verifier::rlimit(60)]
    fn write_register_3(&mut self, shared: &mut SharedState, val: u8) -> (r: Result<(), CdError>)
        requires
            cd_wf(old(self)@),
            shared_ok(*old(shared)),
        ensures
            world_handled(
                register_written(world(old(self)@, *old(shared)), 3, val),
                r,
                final(self)@,
                *final(shared),
                *old(shared),
            ),
    {
        proof {
            reveal(register_written);
            lemma_wf_facts(old(self)@);
        }
        let index = self.index;
        if index == 0 {
            // HCHPCTL register
            self.set_host_chip_control(val)
        } else if index == 1 {
            // HCLRCTL (host clear control) register
            self.clear_control(shared, val)
        } else if index == 2 {
            // ATV1 register
            self.mixer = Mixer { cd_left_to_spu_right: val, ..self.mixer };
            proof {
                lemma_wf_intro(self@);
            }
            Ok(())
        } else {
            // ADPCTL register: the mixer settings are not applied
            Ok(())
        }
    }

    /// HCLRCTL register write: interrupt acknowledge and parameter
    /// FIFO clear
    #[verifier::spinoff_prover]
    #[verifier::rlimit(100)]
    fn clear_control(&mut self, shared: &mut SharedState, val: u8) -> (r: Result<(), CdError>)
        requires
            cd_wf(old(self)@),
            shared_ok(*old(shared)),
            old(self)@.index == 1,
        ensures
            world_handled(
                register_written(world(old(self)@, *old(shared)), 3, val),
                r,
                final(self)@,
                *final(shared),
                *old(shared),
            ),
    {
        proof {
            reveal(register_written);
        }
        let r = self.irq_ack(shared, val & 0x1f);
        if r.is_err() {
            return r;
        }
        if val & 0x40 != 0 {
            let ghost c1 = self@;
            self.host_params.clear();
            proof {
                lemma_wf_facts(c1);
                lemma_wf_intro(self@);
            }
            assert(self@ == CdRomView { host_params: fifo_cleared(), ..c1 });
        }
        if val & 0xa0 != 0 {
            return Err(CdError::UnhandledClearControl(val));
        }
        Ok(())
    }

    /// Register read at `offset`
    #[verifier::spinoff_prover]
    #[verifier::rlimit(60)]
    fn read_register(&mut self, shared: &SharedState, offset: u32) -> (r: Result<u8, CdError>)
        requires
            cd_wf(old(self)@),
        ensures
            match r {
                Ok(v) => register_read(world(old(self)@, *shared), offset) == Ok::<(CdWorld, u8), CdError>(
                    (world(final(self)@, *shared), v),
                ) && cd_wf(final(self)@),
                Err(e) => register_read(world(old(self)@, *shared), offset) == Err::<(CdWorld, u8), CdError>(e),
            },
    {
        proof {
            reveal(register_read);
            lemma_wf_facts(old(self)@);
        }
        if offset == 0 {
            Ok(self.host_status())
        } else if offset == 1 {
            // RESULT register. The CXD1199AQ datasheet says that the
            // response FIFO is 8-byte long, however the PSX seems to
            // be 16bytes (at least it seems to wrap around at the
            // 16th read).
            if self.host_response.is_empty() {
                return Err(CdError::ResponseUnderflow);
            }
            let v = self.host_response.pop();
            proof {
                lemma_wf_intro(self@);
            }
            Ok(v)
        } else if offset == 3 && self.index == 0 {
            // IRQ mask/flags have the 3 MSB set when read.
            Ok(self.irq_mask | 0xe0)
        } else if offset == 3 && self.index == 1 {
            Ok(self.irq_flags | 0xe0)
        } else {
            Err(CdError::UnhandledLoad(offset, self.index))
        }
    }

    /// The sub-CPU part of a synchronization round
    #[verifier::spinoff_prover]
    #[verifier::rlimit(60)]
    fn round_step(&mut self, shared: &mut SharedState, remaining: u32) -> (r: Result<u32, CdError>)
        requires
            cd_wf(old(self)@),
            shared_ok(*old(shared)),
            remaining > 0,
        ensures
            match r {
                Ok(elapsed) => round_step(world(old(self)@, *old(shared)), remaining) == Ok::<
                    (CdWorld, u32),
                    CdError,
                >((world(final(self)@, *final(shared)), elapsed)) && cd_wf(final(self)@) && shared_ok(
                    *final(shared),
                ) && final(shared).counter_values() == old(shared).counter_values() && 1 <= elapsed
                    <= remaining,
                Err(e) => round_step(world(old(self)@, *old(shared)), remaining) == Err::<
                    (CdWorld, u32),
                    CdError,
                >(e),
            },
    {
        proof {
            lemma_wf_facts(old(self)@);
        }
        if self.sub_cpu.in_command() {
            if self.sub_cpu.timer > remaining {
                self.sub_cpu.timer = self.sub_cpu.timer - remaining;
                proof {
                    lemma_wf_intro(self@);
                }
                Ok(remaining)
            } else {
                let step_remaining = self.sub_cpu.timer;
                // Time to advance to the next step in the sequence.
                let r = self.next_sub_cpu_step(shared);
                if let Err(e) = r {
                    return Err(e);
                }
                Ok(step_remaining)
            }
        } else {
            // No command pending, we can go through the entire delta
            // at once
            Ok(remaining)
        }
    }

    /// The async response part of a synchronization round
    #[verifier::spinoff_prover]
    #[verifier::rlimit(60)]
    fn round_async(&mut self, shared: &mut SharedState, elapsed: u32) -> (r: Result<(), CdError>)
        requires
            cd_wf(old(self)@),
            shared_ok(*old(shared)),
        ensures
            world_handled(round_async(world(old(self)@, *old(shared)), elapsed), r, final(self)@, *final(shared), *old(shared)),
    {
        proof {
            lemma_wf_facts(old(self)@);
        }
        // We have to step the async events alongside the command
        // sequence since commands can spawn async responses.
        if let Some((delay, handler)) = self.sub_cpu.async_response {
            if delay > elapsed {
                self.sub_cpu.async_response = Some((delay - elapsed, handler));
                proof {
                    lemma_wf_intro(self@);
                }
            } else {
                // The async event is ready to be processed
                self.sub_cpu.async_response = Some((0, handler));
                proof {
                    lemma_wf_intro(self@);
                }
                return self.maybe_process_async_response(shared);
            }
        }
        Ok(())
    }

    /// The sector read part of a synchronization round
    #[verifier::spinoff_prover]
    #[verifier::rlimit(100)]
    fn round_read(&mut self, shared: &mut SharedState, elapsed: u32) -> (r: Result<(), CdError>)
        requires
            cd_wf(old(self)@),
            shared_ok(*old(shared)),
        ensures
            world_handled(round_read(world(old(self)@, *old(shared)), elapsed), r, final(self)@, *final(shared), *old(shared)),
    {
        proof {
            lemma_wf_facts(old(self)@);
        }
        if let ReadState::Reading(delay) = self.read_state {
            if delay > elapsed {
                self.read_state = ReadState::Reading(delay - elapsed);
                proof {
                    lemma_wf_intro(self@);
                }
            } else {
                let leftover = elapsed - delay;
                // Read the current sector
                let r = self.read_sector();
                if let Err(e) = r {
                    return Err(e);
                }
                self.maybe_notify_read(shared);
                // Schedule the next sector read
                let cps = self.cycles_per_sector();
                if leftover > cps {
                    return Err(CdError::ReadOverrun);
                }
                let ghost c4 = self@;
                self.read_state = ReadState::Reading(cps - leftover);
                proof {
                    lemma_wf_facts(c4);
                    lemma_wf_intro(self@);
                }
                assert(self@ == CdRomView { read_state: ReadState::Reading((cps - leftover) as u32), ..c4 });
            }
        }
        Ok(())
    }

    /// One round of the synchronization loop
    #[verifier::spinoff_prover]
    fn sync_round(&mut self, shared: &mut SharedState, remaining: u32) -> (r: Result<u32, CdError>)
        requires
            cd_wf(old(self)@),
            shared_ok(*old(shared)),
            remaining > 0,
        ensures
            match r {
                Ok(elapsed) => sync_round(world(old(self)@, *old(shared)), remaining) == Ok::<
                    (CdWorld, u32),
                    CdError,
                >((world(final(self)@, *final(shared)), elapsed)) && cd_wf(final(self)@) && shared_ok(
                    *final(shared),
                ) && final(shared).counter_values() == old(shared).counter_values() && 1 <= elapsed
                    <= remaining,
                Err(e) => sync_round(world(old(self)@, *old(shared)), remaining) == Err::<
                    (CdWorld, u32),
                    CdError,
                >(e),
            },
    {
        proof {
            reveal(sync_round);
        }
        let elapsed = match self.round_step(shared, remaining) {
            Ok(e) => e,
            Err(e) => {
                return Err(e);
            },
        };
        let r = self.round_async(shared, elapsed);
        if let Err(e) = r {
            return Err(e);
        }
        let r = self.round_read(shared, elapsed);
        if let Err(e) = r {
            return Err(e);
        }
        Ok(elapsed)
    }

    /// Emulate the time elapsed since the last synchronization and
    /// schedule the next one
    #[verifier::spinoff_prover]
    #[verifier::rlimit(60)]
    pub fn sync(&mut self, shared: &mut SharedState) -> (r: Result<(), CdError>)
        requires
            cd_wf(old(self)@),
            shared_ok(*old(shared)),
        ensures
            world_handled(synced(world(old(self)@, *old(shared))), r, final(self)@, *final(shared), *old(shared)),
    {
        proof {
            reveal(synced);
        }
        let ghost w0 = world(old(self)@, *old(shared));
        let delta = shared.tk().sync(Peripheral::CdRom);
        let mut remaining = delta as u32;
        assert(world(self@, *shared) == CdWorld { tk: tk_synced(w0.tk, Peripheral::CdRom), ..w0 });
        let ghost target = sync_loop(world(self@, *shared), remaining);
        assert(synced(w0) == match target {
            Ok(w2) => Ok(predict(w2)),
            Err(e) => Err::<CdWorld, CdError>(e),
        });
        while remaining > 0
            invariant
                w0 == world(old(self)@, *old(shared)),
                synced(w0) == match target {
                    Ok(w2) => Ok(predict(w2)),
                    Err(e) => Err::<CdWorld, CdError>(e),
                },
                cd_wf(self@),
                shared_ok(*shared),
                shared.counter_values() == old(shared).counter_values(),
                sync_loop(world(self@, *shared), remaining) == target,
            decreases remaining,
        {
            let ghost wl = world(self@, *shared);
            let elapsed = match self.sync_round(shared, remaining) {
                Ok(e) => e,
                Err(e) => {
                    assert(sync_loop(wl, remaining) == Err::<CdWorld, CdError>(e));
                    return Err(e);
                },
            };
            assert(sync_loop(wl, remaining) == sync_loop(world(self@, *shared), (remaining - elapsed) as u32));
            remaining = remaining - elapsed;
        }
        self.predict_next_sync(shared);
        Ok(())
    }

    /// Register load, after a synchronization. Only 8 bit accesses are
    /// handled.
    #[verifier::spinoff_prover]
    pub fn load<T: Addressable>(&mut self, shared: &mut SharedState, offset: u32) -> (r: Result<u32, CdError>)
        requires
            cd_wf(old(self)@),
            shared_ok(*old(shared)),
        ensures
            match r {
                Ok(v) => v < 256 && loaded(
                    world(old(self)@, *old(shared)),
                    access_bytes(T::spec_width()),
                    offset,
                ) == Ok::<(CdWorld, u8), CdError>((world(final(self)@, *final(shared)), v as u8))
                    && cd_wf(final(self)@) && shared_ok(*final(shared))
                    && final(shared).counter_values() == old(shared).counter_values(),
                Err(e) => loaded(world(old(self)@, *old(shared)), access_bytes(T::spec_width()), offset)
                    == Err::<(CdWorld, u8), CdError>(e),
            },
    {
        proof {
            reveal(loaded);
        }
        let r = self.sync(shared);
        if let Err(e) = r {
            return Err(e);
        }
        if T::size() != 1 {
            return Err(CdError::UnhandledWidth);
        }
        match self.read_register(shared, offset) {
            Ok(v) => Ok(v as u32),
            Err(e) => Err(e),
        }
    }

    /// Register store, after a synchronization. Only 8 bit accesses
    /// are handled.
    #[verifier::spinoff_prover]
    pub fn store<T: Addressable>(&mut self, shared: &mut SharedState, offset: u32, val: u32) -> (r: Result<(), CdError>)
        requires
            cd_wf(old(self)@),
            shared_ok(*old(shared)),
        ensures
            world_handled(
                stored(world(old(self)@, *old(shared)), access_bytes(T::spec_width()), offset, val),
                r,
                final(self)@,
                *final(shared),
                *old(shared),
            ),
    {
        proof {
            reveal(stored);
        }
        let r = self.sync(shared);
        if r.is_err() {
            return r;
        }
        if T::size() != 1 {
            return Err(CdError::UnhandledWidth);
        }
        // All writeable registers are 8bit wide
        self.write_register(shared, offset, val as u8)
    }
}

} // verus!
