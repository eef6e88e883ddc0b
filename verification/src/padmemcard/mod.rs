//! Gamepad and memory card controller emulation

pub mod gamepad;
pub mod memcard;

use vstd::prelude::*;

use crate::memory::{Addressable, access_bytes};
use crate::memory::interrupts::Interrupt;
use crate::memory::timers::MAX_DATE;
use crate::shared::SharedState;
use crate::timekeeper::{Cycles, Peripheral, TimeSheet, peripheral_index};
use self::gamepad::{GamePad, DigitalProfile};

verus! {

/// Identifies the target of the serial communication, either the
/// gamepad/memory card port 0 or 1.
#[derive(Clone, Copy, PartialEq, Eq, Structural, Debug)]
pub enum Target {
    PadMemCard1,
    PadMemCard2,
}

/// Controller transaction state machine
#[derive(Clone, Copy, PartialEq, Eq, Structural, Debug)]
pub enum BusState {
    /// Bus is idle
    Idle,
    /// Transaction in progress, we store the response byte, the DSR
    /// response and the number of Cycles remaining until we reach the
    /// DSR pulse (if any)
    Transfer(u8, bool, Cycles),
    /// DSR is asserted, count the number of cycles remaining.
    Dsr(Cycles),
}

impl BusState {
    pub fn is_busy(&self) -> (r: bool)
        ensures
            r == !(*self is Idle),
    {
        match *self {
            BusState::Idle => false,
            _ => true,
        }
    }
}

/// Duration of the DSR pulse in CPU cycles (the real pulse lasts
/// about 100 cycles but the emulator timings are not accurate enough
/// for the BIOS to ack the interrupt while DSR is still active)
pub const DSR_DURATION: Cycles = 10;

/// Registers of the controller
#[derive(Clone, Copy, PartialEq, Eq, Structural, Debug)]
pub struct PadRegs {
    /// Serial clock divider.
    pub baud_div: u16,
    /// Serial config, not implemented for now...
    pub mode: u8,
    /// Transmission enabled if true
    pub tx_en: bool,
    /// If true the targeted peripheral select signal is asserted
    pub select: bool,
    /// Which of the two pad/memorycard port pair is selected
    pub target: Target,
    /// Control register bits 3 and 5 are read/write but their use is
    /// unknown.
    pub unknown: u8,
    pub rx_en: bool,
    /// Data Set Ready signal, active low (driven by the gamepad)
    pub dsr: bool,
    /// If true an interrupt is generated when a DSR pulse is received
    /// from the pad/memory card
    pub dsr_it: bool,
    /// Current interrupt level
    pub interrupt: bool,
    /// Current response byte.
    pub response: u8,
    /// True when we the RX FIFO is not empty.
    pub rx_not_empty: bool,
    /// Bus state machine
    pub bus: BusState,
}

pub open spec fn b32(b: bool) -> u32 {
    if b {
        1
    } else {
        0
    }
}

/// Value of the status register
pub open spec fn stat_value(r: PadRegs) -> u32 {
    // TX Ready bits 1 and 2 (Not sure when they go low)
    5u32 | (b32(r.rx_not_empty) << 1u32) | (b32(r.dsr) << 7u32) | (b32(r.interrupt) << 9u32)
}

/// Value of the control register
pub open spec fn control_value(r: PadRegs) -> u16 {
    ((r.unknown as u32) | b32(r.tx_en) | (b32(r.select) << 1u32) | (b32(r.rx_en) << 2u32) | (b32(
        r.dsr_it,
    ) << 12u32) | ((if r.target == Target::PadMemCard2 { 1u32 } else { 0u32 }) << 13u32)) as u16
}

/// Registers after the bus advanced by `delta` cycles
pub open spec fn synced_regs(r: PadRegs, delta: u64) -> PadRegs {
    match r.bus {
        BusState::Idle => r,
        BusState::Transfer(resp, dsr, delay) => if delta < delay {
            PadRegs { bus: BusState::Transfer(resp, dsr, (delay - delta) as u64), ..r }
        } else {
            // We reached the end of the transfer
            let r1 = PadRegs { response: resp, rx_not_empty: true, dsr: dsr, ..r };
            if dsr {
                PadRegs {
                    interrupt: r.dsr_it || r.interrupt,
                    bus: BusState::Dsr(DSR_DURATION),
                    ..r1
                }
            } else {
                // We're done with this transaction
                PadRegs { bus: BusState::Idle, ..r1 }
            }
        },
        BusState::Dsr(delay) => if delta < delay {
            PadRegs { bus: BusState::Dsr((delay - delta) as u64), ..r }
        } else {
            // DSR pulse is over, bus is idle
            PadRegs { dsr: false, bus: BusState::Idle, ..r }
        },
    }
}

/// A synchronization after `delta` cycles raises the interrupt: rising
/// edge at the DSR pulse
pub open spec fn sync_raises(r: PadRegs, delta: u64) -> bool {
    match r.bus {
        BusState::Transfer(_, dsr, delay) => delta >= delay && dsr && r.dsr_it && !r.interrupt,
        _ => false,
    }
}

/// Date of the next forced synchronization after `delta` cycles, if
/// any: the end of a transfer when the DSR interrupt is enabled
pub open spec fn sync_next(r: PadRegs, delta: u64) -> Option<u64> {
    match r.bus {
        BusState::Transfer(_, _, delay) => if delta < delay && r.dsr_it {
            Some((delay - delta) as u64)
        } else {
            None
        },
        _ => None,
    }
}

/// The end of a transfer does not overflow the (single entry) RX
/// FIFO
pub open spec fn sync_ok(r: PadRegs, delta: u64) -> bool {
    match r.bus {
        BusState::Transfer(_, _, delay) => delta >= delay ==> !r.rx_not_empty,
        _ => true,
    }
}

/// Registers after a write of `ctrl` to the control register
pub open spec fn control_written(r: PadRegs, ctrl: u16) -> PadRegs {
    if ctrl & 0x40 != 0 {
        // Soft reset
        PadRegs {
            baud_div: 0,
            mode: 0,
            select: false,
            target: Target::PadMemCard1,
            unknown: 0,
            interrupt: false,
            rx_not_empty: false,
            bus: BusState::Idle,
            dsr: false,
            ..r
        }
    } else {
        PadRegs {
            // Interrupt acknowledge
            interrupt: if ctrl & 0x10 != 0 {
                false
            } else {
                r.interrupt
            },
            unknown: (ctrl as u8) & 0x28,
            tx_en: ctrl & 1 != 0,
            select: (ctrl >> 1u16) & 1 != 0,
            rx_en: (ctrl >> 2u16) & 1 != 0,
            dsr_it: (ctrl >> 12u16) & 1 != 0,
            target: if ctrl & 0x2000 != 0 {
                Target::PadMemCard2
            } else {
                Target::PadMemCard1
            },
            ..r
        }
    }
}

/// Control register writes the emulator supports: no RX enable, no
/// DSR interrupt enabled while DSR is active, no other interrupt and
/// no acknowledge while the interrupt condition holds
pub open spec fn control_ok(r: PadRegs, ctrl: u16) -> bool {
    ctrl & 0x40 == 0 ==> {
        let n = control_written(r, ctrl);
        &&& !(ctrl & 0x10 != 0 && r.dsr && r.dsr_it)
        &&& !n.rx_en
        &&& !(n.dsr_it && !n.interrupt && n.dsr)
        &&& ctrl & 0xf00 == 0
    }
}

/// Pending delays are bounded: a byte transfer at the slowest baud
/// rate or a DSR pulse
pub open spec fn bus_ok(r: PadRegs) -> bool {
    match r.bus {
        BusState::Idle => true,
        BusState::Transfer(_, _, d) => d <= 0x80000,
        BusState::Dsr(d) => d <= DSR_DURATION,
    }
}

/// Response byte and DSR flag the pads give to the byte `cmd` sent
/// through the TX register: nothing (`0xff`, no DSR) when the select
/// line is not asserted, else the reply of the targeted pad
pub open spec fn tx_reply(r: PadRegs, p1: GamePad, p2: GamePad, cmd: u8) -> (u8, bool) {
    if !r.select {
        (0xffu8, false)
    } else if r.target == Target::PadMemCard1 {
        p1.reply(cmd)
    } else {
        p2.reply(cmd)
    }
}

/// `n1` and `n2` are the pads `o1` and `o2` after the byte `cmd` went
/// through the TX register: the targeted pad, if selected, received
/// the byte, the other one is left as it was
pub open spec fn tx_pads(r: PadRegs, o1: GamePad, o2: GamePad, n1: GamePad, n2: GamePad, cmd: u8) -> bool {
    &&& if r.select && r.target == Target::PadMemCard1 {
        o1.commanded(n1, cmd)
    } else {
        n1 == o1
    }
    &&& if r.select && r.target == Target::PadMemCard2 {
        o2.commanded(n2, cmd)
    } else {
        n2 == o2
    }
}

/// A control register write of `ctrl` raises the select line (the
/// first pad is then selected)
pub open spec fn selects_pad(r: PadRegs, ctrl: u16) -> bool {
    !r.select && control_written(r, ctrl).select
}

/// `n` is the controller `o` after a store of `val` at `offset`, `r1`
/// being the registers of `o` once brought to the date of the store.
/// A TX write starts the transfer of the byte with the pads' answer,
/// which the CPU reads from RX once the transfer is over.
pub open spec fn pad_stored(r1: PadRegs, o: PadMemCard, n: PadMemCard, offset: u32, val: u32) -> bool {
    let nr = n.regs();
    if offset == 0 {
        let t = tx_reply(r1, o.pad1(), o.pad2(), val as u8);
        &&& nr == (PadRegs { bus: BusState::Transfer(t.0, t.1, (8 * r1.baud_div) as u64), ..r1 })
        &&& tx_pads(r1, o.pad1(), o.pad2(), n.pad1(), n.pad2(), val as u8)
    } else {
        &&& nr == if offset == 8 {
            PadRegs { mode: val as u8, ..r1 }
        } else if offset == 10 {
            control_written(r1, val as u16)
        } else {
            PadRegs { baud_div: val as u16, ..r1 }
        }
        &&& n.pad2() == o.pad2()
        &&& if offset == 10 && selects_pad(r1, val as u16) {
            o.pad1().selected(n.pad1())
        } else {
            n.pad1() == o.pad1()
        }
    }
}

/// What a TX write sends, an RX read gets back: once the transfer is
/// over, the response register holds the pads' answer to the byte
/// written and DSR is what they signalled
pub proof fn lemma_tx_answer_read_back(r1: PadRegs, o: PadMemCard, n: PadMemCard, val: u32, delta: u64)
    requires
        pad_stored(r1, o, n, 0, val),
        delta >= 8 * r1.baud_div,
    ensures
        synced_regs(n.regs(), delta).response == tx_reply(r1, o.pad1(), o.pad2(), val as u8).0,
        synced_regs(n.regs(), delta).dsr == tx_reply(r1, o.pad1(), o.pad2(), val as u8).1,
        synced_regs(n.regs(), delta).rx_not_empty,
{
}

pub struct PadMemCard {
    /// Controller registers
    regs: PadRegs,
    /// Gamepad in slot 1
    pad1: GamePad,
    /// Gamepad in slot 2
    pad2: GamePad,
}

impl PadMemCard {
    pub closed spec fn regs(&self) -> PadRegs {
        self.regs
    }

    pub closed spec fn pad1(&self) -> GamePad {
        self.pad1
    }

    pub closed spec fn pad2(&self) -> GamePad {
        self.pad2
    }

    /// Bounded bus delays
    pub open spec fn wf(&self) -> bool {
        bus_ok(self.regs())
    }

    /// The pads can take one more command byte
    pub open spec fn pads_ok(&self) -> bool {
        self.pad1().can_send() && self.pad2().can_send()
    }

    pub fn new() -> (p: PadMemCard)
        ensures
            p.wf(),
            p.regs() == (PadRegs {
                baud_div: 0,
                mode: 0,
                tx_en: false,
                select: false,
                target: Target::PadMemCard1,
                interrupt: false,
                unknown: 0,
                rx_en: false,
                dsr: false,
                dsr_it: false,
                response: 0xff,
                rx_not_empty: false,
                bus: BusState::Idle,
            }),
    {
        PadMemCard {
            regs: PadRegs {
                baud_div: 0,
                mode: 0,
                tx_en: false,
                select: false,
                target: Target::PadMemCard1,
                interrupt: false,
                unknown: 0,
                rx_en: false,
                dsr: false,
                dsr_it: false,
                response: 0xff,
                rx_not_empty: false,
                bus: BusState::Idle,
            },
            pad1: GamePad::new(Box::new(DigitalProfile::new())),
            pad2: GamePad::disconnected(),
        }
    }

    /// Advance the serial bus to the current date
    pub fn sync(&mut self, shared: &mut SharedState)
        requires
            old(self).wf(),
            old(shared).time().wf(),
            old(shared).time().date() <= MAX_DATE,
            sync_ok(
                old(self).regs(),
                (old(shared).time().date() - old(shared).time().sheet(Peripheral::PadMemCard).last_sync) as u64,
            ),
        ensures
            ({
                let tk = old(shared).time();
                let delta = (tk.date() - tk.sheet(Peripheral::PadMemCard).last_sync) as u64;
                let next = sync_next(old(self).regs(), delta);
                &&& final(self).regs() == synced_regs(old(self).regs(), delta)
                &&& final(shared).irq() == if sync_raises(old(self).regs(), delta) {
                    old(shared).irq().raised(Interrupt::PadMemCard)
                } else {
                    old(shared).irq()
                }
                &&& final(shared).time().wf()
                &&& final(shared).time().date() == tk.date()
                &&& final(shared).time().sheets() == tk.sheets().update(
                    peripheral_index(Peripheral::PadMemCard),
                    TimeSheet {
                        last_sync: tk.date(),
                        next_sync: match next {
                            Some(d) => (tk.date() + d) as u64,
                            None => u64::MAX,
                        },
                    },
                )
                &&& final(shared).time().next_sync_date() == match next {
                    Some(d) => if tk.date() + d < tk.next_sync_date() {
                        (tk.date() + d) as u64
                    } else {
                        tk.next_sync_date()
                    },
                    None => tk.next_sync_date(),
                }
            }),
            final(self).wf(),
            final(shared).counter_values() == old(shared).counter_values(),
            final(self).pad1() == old(self).pad1(),
            final(self).pad2() == old(self).pad2(),
    {
        let delta = shared.tk().sync(Peripheral::PadMemCard);
        match self.regs.bus {
            BusState::Idle => shared.tk().no_sync_needed(Peripheral::PadMemCard),
            BusState::Transfer(r, dsr, delay) => {
                if delta < delay {
                    let delay = delay - delta;
                    self.regs.bus = BusState::Transfer(r, dsr, delay);
                    if self.regs.dsr_it {
                        shared.tk().set_next_sync_delta(Peripheral::PadMemCard, delay);
                    } else {
                        shared.tk().no_sync_needed(Peripheral::PadMemCard);
                    }
                } else {
                    // We reached the end of the transfer
                    self.regs.response = r;
                    self.regs.rx_not_empty = true;
                    self.regs.dsr = dsr;
                    if self.regs.dsr {
                        if self.regs.dsr_it {
                            if !self.regs.interrupt {
                                // Rising edge of the interrupt
                                shared.irq_state_mut().raise(Interrupt::PadMemCard);
                            }
                            self.regs.interrupt = true;
                        }
                        // The DSR pulse is generated purely by the
                        // controller without any input from the
                        // console.
                        self.regs.bus = BusState::Dsr(DSR_DURATION);
                    } else {
                        // We're done with this transaction
                        self.regs.bus = BusState::Idle;
                    }
                    shared.tk().no_sync_needed(Peripheral::PadMemCard);
                }
            },
            BusState::Dsr(delay) => {
                if delta < delay {
                    let delay = delay - delta;
                    self.regs.bus = BusState::Dsr(delay);
                } else {
                    // DSR pulse is over, bus is idle
                    self.regs.dsr = false;
                    self.regs.bus = BusState::Idle;
                }
                shared.tk().no_sync_needed(Peripheral::PadMemCard);
            },
        }
    }

    /// The gamepad profiles being used, for the frontend to update
    /// the button states
    pub fn pad_profiles(&mut self) -> (p: [&mut Box<dyn gamepad::Profile>; 2])
        ensures
            final(self).regs() == old(self).regs(),
            final(self).pad1().position() == old(self).pad1().position(),
            final(self).pad1().is_active() == old(self).pad1().is_active(),
            final(self).pad2().position() == old(self).pad2().position(),
            final(self).pad2().is_active() == old(self).pad2().is_active(),
    {
        [self.pad1.profile_mut(), self.pad2.profile_mut()]
    }

    /// Registers once the bus advanced by `delta` cycles
    fn synced_preview(&self, delta: u64) -> (r: PadRegs)
        ensures
            r == synced_regs(self.regs(), delta),
    {
        let r = self.regs;
        match r.bus {
            BusState::Idle => r,
            BusState::Transfer(resp, dsr, delay) => {
                if delta < delay {
                    PadRegs { bus: BusState::Transfer(resp, dsr, delay - delta), ..r }
                } else if dsr {
                    PadRegs {
                        response: resp,
                        rx_not_empty: true,
                        dsr: dsr,
                        interrupt: r.dsr_it || r.interrupt,
                        bus: BusState::Dsr(DSR_DURATION),
                        ..r
                    }
                } else {
                    PadRegs { response: resp, rx_not_empty: true, dsr: dsr, bus: BusState::Idle, ..r }
                }
            },
            BusState::Dsr(delay) => {
                if delta < delay {
                    PadRegs { bus: BusState::Dsr(delay - delta), ..r }
                } else {
                    PadRegs { dsr: false, bus: BusState::Idle, ..r }
                }
            },
        }
    }

    /// The bus can advance by `delta` cycles: the end of a transfer
    /// does not overflow the RX FIFO
    pub fn sync_ok_after(&self, delta: u64) -> (r: bool)
        ensures
            r == sync_ok(self.regs(), delta),
    {
        match self.regs.bus {
            BusState::Transfer(_, _, delay) => delta < delay || !self.regs.rx_not_empty,
            _ => true,
        }
    }

    /// A store of `val` (`bytes` bytes wide) at `offset`, `delta`
    /// cycles after the last synchronization, is one the controller
    /// handles
    pub fn store_ok(&self, delta: u64, offset: u32, bytes: u8, val: u32) -> (r: bool)
        ensures
            r == ({
                let r1 = synced_regs(self.regs(), delta);
                &&& self.pads_ok()
                &&& sync_ok(self.regs(), delta)
                &&& offset == 0 || offset == 8 || offset == 10 || offset == 14
                &&& offset == 0 ==> bytes == 1 && r1.tx_en
                &&& offset == 10 ==> bytes != 1 && control_ok(r1, val as u16)
            }),
    {
        if !(self.pad1.ready() && self.pad2.ready() && self.sync_ok_after(delta)) {
            return false;
        }
        let r1 = self.synced_preview(delta);
        if offset == 0 {
            bytes == 1 && r1.tx_en
        } else if offset == 10 {
            let ctrl = val as u16;
            let ghost n = control_written(r1, ctrl);
            let ack = ctrl & 0x10 != 0;
            let rx_en = (ctrl >> 2) & 1 != 0;
            let dsr_it = (ctrl >> 12) & 1 != 0;
            let interrupt = if ack {
                false
            } else {
                r1.interrupt
            };
            assert(ctrl & 0x40 == 0 ==> n.rx_en == rx_en && n.dsr_it == dsr_it && n.interrupt
                == interrupt && n.dsr == r1.dsr);
            bytes != 1 && (ctrl & 0x40 != 0 || (!(ack && r1.dsr && r1.dsr_it) && !rx_en && !(dsr_it
                && !interrupt && r1.dsr) && ctrl & 0xf00 == 0))
        } else {
            offset == 8 || offset == 14
        }
    }

    /// Value of the status register
    fn stat(&self) -> (r: u32)
        ensures
            r == stat_value(self.regs()),
    {
        let mut stat = 0u32;
        // TX Ready bits 1 and 2 (Not sure when they go low)
        stat = stat | 5;
        stat = stat | ((if self.regs.rx_not_empty { 1u32 } else { 0u32 }) << 1);
        stat = stat | ((if self.regs.dsr { 1u32 } else { 0u32 }) << 7);
        stat = stat | ((if self.regs.interrupt { 1u32 } else { 0u32 }) << 9);
        assert(0u32 | 5u32 == 5u32) by (bit_vector);
        stat
    }

    /// Value of the control register
    fn control(&self) -> (r: u16)
        ensures
            r == control_value(self.regs()),
    {
        let mut ctrl = 0u32;
        ctrl = ctrl | self.regs.unknown as u32;
        ctrl = ctrl | (if self.regs.tx_en { 1u32 } else { 0u32 });
        ctrl = ctrl | ((if self.regs.select { 1u32 } else { 0u32 }) << 1);
        // XXX I assume this flag self-resets? When?
        ctrl = ctrl | ((if self.regs.rx_en { 1u32 } else { 0u32 }) << 2);
        // XXX Add other interrupts when they're implemented
        ctrl = ctrl | ((if self.regs.dsr_it { 1u32 } else { 0u32 }) << 12);
        ctrl = ctrl | ((match self.regs.target {
            Target::PadMemCard1 => 0u32,
            Target::PadMemCard2 => 1u32,
        }) << 13);
        proof {
            let u = self.regs.unknown as u32;
            assert(0u32 | u == u) by (bit_vector);
        }
        ctrl as u16
    }

    fn set_control(&mut self, ctrl: u16)
        requires
            control_ok(old(self).regs(), ctrl),
            old(self).wf(),
        ensures
            final(self).wf(),
            final(self).regs() == control_written(old(self).regs(), ctrl),
            final(self).pad2() == old(self).pad2(),
            // The first pad is selected on the rising edge of the
            // select signal
            selects_pad(old(self).regs(), ctrl) ==> old(self).pad1().selected(final(self).pad1()),
            !selects_pad(old(self).regs(), ctrl) ==> final(self).pad1() == old(self).pad1(),
    {
        if ctrl & 0x40 != 0 {
            // Soft reset
            self.regs.baud_div = 0;
            self.regs.mode = 0;
            self.regs.select = false;
            self.regs.target = Target::PadMemCard1;
            self.regs.unknown = 0;
            self.regs.interrupt = false;
            self.regs.rx_not_empty = false;
            self.regs.bus = BusState::Idle;
            // XXX since the gamepad/memory card asserts this signal
            // it actually probably shouldn't release here but it'll
            // make our state machine simpler for the time being.
            self.regs.dsr = false;
            // It doesn't seem to reset the contents of the RX FIFO.
        } else {
            if ctrl & 0x10 != 0 {
                // Interrupt acknowledge
                self.regs.interrupt = false;
            }
            let prev_select = self.regs.select;
            // No idea what bits 3 and 5 do but they're read/write.
            self.regs.unknown = (ctrl as u8) & 0x28;
            self.regs.tx_en = ctrl & 1 != 0;
            self.regs.select = (ctrl >> 1) & 1 != 0;
            self.regs.rx_en = (ctrl >> 2) & 1 != 0;
            self.regs.dsr_it = (ctrl >> 12) & 1 != 0;
            self.regs.target = if ctrl & 0x2000 != 0 {
                Target::PadMemCard2
            } else {
                Target::PadMemCard1
            };
            if !prev_select && self.regs.select {
                // XXX Should probably also check self.target, not
                // sure how it influences the select line. I assume
                // only the targeted slot is selected?
                self.pad1.select();
            }
        }
    }

    /// Send the command byte `cmd` to the selected pad
    fn send_command(&mut self, shared: &mut SharedState, cmd: u8)
        requires
            old(self).wf(),
            old(self).pads_ok(),
            old(self).regs().tx_en,
            old(shared).time().wf(),
            old(shared).time().date() <= MAX_DATE,
        ensures
            final(self).wf(),
            ({
                let tk = old(shared).time();
                let dur = (8 * old(self).regs().baud_div) as u64;
                let t = tx_reply(old(self).regs(), old(self).pad1(), old(self).pad2(), cmd);
                &&& final(self).regs() == (PadRegs { bus: BusState::Transfer(t.0, t.1, dur), ..old(self).regs() })
                &&& final(shared).time().wf()
                &&& final(shared).time().date() == tk.date()
                &&& final(shared).time().sheets() == tk.sheets().update(
                    peripheral_index(Peripheral::PadMemCard),
                    TimeSheet { next_sync: (tk.date() + dur) as u64, ..tk.sheet(Peripheral::PadMemCard) },
                )
                &&& final(shared).time().next_sync_date() == if tk.date() + dur < tk.next_sync_date() {
                    (tk.date() + dur) as u64
                } else {
                    tk.next_sync_date()
                }
            }),
            final(shared).irq() == old(shared).irq(),
            final(shared).counter_values() == old(shared).counter_values(),
            tx_pads(old(self).regs(), old(self).pad1(), old(self).pad2(), final(self).pad1(), final(self).pad2(), cmd),
    {
        // XXX A command sent while the bus is busy should probably be
        // queued in the TX FIFO
        let (response, dsr) = if self.regs.select {
            match self.regs.target {
                Target::PadMemCard1 => self.pad1.send_command(cmd),
                Target::PadMemCard2 => self.pad2.send_command(cmd),
            }
        } else {
            // No response
            (0xff, false)
        };
        // XXX Handle `mode` as well, especially the "baudrate reload
        // factor". For now I assume we're sending 8 bits, one every
        // `baud_div` CPU cycles.
        let tx_duration = 8 * self.regs.baud_div as Cycles;
        self.regs.bus = BusState::Transfer(response, dsr, tx_duration);
        // XXX For now pretend that the DSR pulse follows immediately
        // after the last byte, probably not accurate.
        shared.tk().set_next_sync_delta(Peripheral::PadMemCard, tx_duration);
    }

    /// Register store
    pub fn store<T: Addressable>(&mut self, shared: &mut SharedState, offset: u32, val: u32)
        requires
            old(self).wf(),
            old(self).pads_ok(),
            old(shared).time().wf(),
            old(shared).time().date() <= MAX_DATE,
            ({
                let tk = old(shared).time();
                let delta = (tk.date() - tk.sheet(Peripheral::PadMemCard).last_sync) as u64;
                let r1 = synced_regs(old(self).regs(), delta);
                &&& sync_ok(old(self).regs(), delta)
                &&& offset == 0 || offset == 8 || offset == 10 || offset == 14
                // TX: byte accesses only, with the transmission enabled
                &&& offset == 0 ==> access_bytes(T::spec_width()) == 1 && r1.tx_en
                // Control: byte accesses are not handled
                &&& offset == 10 ==> access_bytes(T::spec_width()) != 1 && control_ok(r1, val as u16)
            }),
        ensures
            final(self).wf(),
            ({
                let tk = old(shared).time();
                let delta = (tk.date() - tk.sheet(Peripheral::PadMemCard).last_sync) as u64;
                let r1 = synced_regs(old(self).regs(), delta);
                &&& pad_stored(r1, *old(self), *final(self), offset, val)
                &&& final(shared).irq() == if sync_raises(old(self).regs(), delta) {
                    old(shared).irq().raised(Interrupt::PadMemCard)
                } else {
                    old(shared).irq()
                }
                &&& final(shared).time().wf()
                &&& final(shared).time().date() == tk.date()
                &&& final(shared).time().sheet(Peripheral::PadMemCard).last_sync == tk.date()
            }),
            final(shared).counter_values() == old(shared).counter_values(),
    {
        self.sync(shared);
        if offset == 0 {
            self.send_command(shared, val as u8);
        } else if offset == 8 {
            self.regs.mode = val as u8;
        } else if offset == 10 {
            self.set_control(val as u16);
        } else {
            self.regs.baud_div = val as u16;
        }
    }

    /// Register load
    pub fn load<T: Addressable>(&mut self, shared: &mut SharedState, offset: u32) -> (r: u32)
        requires
            old(self).wf(),
            old(shared).time().wf(),
            old(shared).time().date() <= MAX_DATE,
            sync_ok(
                old(self).regs(),
                (old(shared).time().date() - old(shared).time().sheet(Peripheral::PadMemCard).last_sync) as u64,
            ),
            offset == 0 || offset == 4 || offset == 10 || offset == 14,
            // RX: byte accesses only
            offset == 0 ==> access_bytes(T::spec_width()) == 1,
        ensures
            final(self).wf(),
            ({
                let tk = old(shared).time();
                let delta = (tk.date() - tk.sheet(Peripheral::PadMemCard).last_sync) as u64;
                let r1 = synced_regs(old(self).regs(), delta);
                &&& r == if offset == 0 {
                    r1.response as u32
                } else if offset == 4 {
                    stat_value(r1)
                } else if offset == 10 {
                    control_value(r1) as u32
                } else {
                    r1.baud_div as u32
                }
                &&& final(self).regs() == if offset == 0 {
                    PadRegs { rx_not_empty: false, response: 0xff, ..r1 }
                } else {
                    r1
                }
                &&& final(shared).irq() == if sync_raises(old(self).regs(), delta) {
                    old(shared).irq().raised(Interrupt::PadMemCard)
                } else {
                    old(shared).irq()
                }
                &&& final(shared).time().wf()
                &&& final(shared).time().date() == tk.date()
                &&& final(shared).time().sheet(Peripheral::PadMemCard).last_sync == tk.date()
            }),
            final(shared).counter_values() == old(shared).counter_values(),
            final(self).pad1() == old(self).pad1(),
            final(self).pad2() == old(self).pad2(),
    {
        self.sync(shared);
        if offset == 0 {
            let res = self.regs.response as u32;
            self.regs.rx_not_empty = false;
            self.regs.response = 0xff;
            res
        } else if offset == 4 {
            self.stat()
        } else if offset == 10 {
            self.control() as u32
        } else {
            self.regs.baud_div as u32
        }
    }
}

} // verus!
