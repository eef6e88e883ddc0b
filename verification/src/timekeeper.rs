//! Keeps track of the emulated time of each peripheral.

use vstd::prelude::*;

verus! {

/// 64bit timestamps will wrap in roughly 17271 years with a CPU clock
/// at 33.8685MHz so it should be plenty enough.
pub type Cycles = u64;

/// List of all peripherals requiring a TimeSheet
#[derive(Clone, Copy, Debug, PartialEq, Eq, Structural)]
pub enum Peripheral {
    /// Graphics Processing Unit
    Gpu,
    /// Timers
    Timer0,
    Timer1,
    Timer2,
    /// Gamepad/Memory Card controller
    PadMemCard,
    /// CD-ROM controller
    CdRom,
}

/// Number of peripherals with a time sheet
pub const NUM_PERIPHERALS: usize = 6;

/// Position of a peripheral's time sheet in the time sheet table
pub open spec fn peripheral_index(p: Peripheral) -> int {
    match p {
        Peripheral::Gpu => 0,
        Peripheral::Timer0 => 1,
        Peripheral::Timer1 => 2,
        Peripheral::Timer2 => 3,
        Peripheral::PadMemCard => 4,
        Peripheral::CdRom => 5,
    }
}

impl Peripheral {
    /// Position of the peripheral's time sheet in the time sheet table
    pub fn index(self) -> (i: usize)
        ensures
            i == peripheral_index(self),
            i < NUM_PERIPHERALS,
    {
        match self {
            Peripheral::Gpu => 0,
            Peripheral::Timer0 => 1,
            Peripheral::Timer1 => 2,
            Peripheral::Timer2 => 3,
            Peripheral::PadMemCard => 4,
            Peripheral::CdRom => 5,
        }
    }
}

/// Struct used to keep track of individual peripherals
#[derive(Clone, Copy, Debug)]
pub struct TimeSheet {
    /// Date of the last synchronization
    pub last_sync: Cycles,
    /// Date of the next "forced" sync
    pub next_sync: Cycles,
}

/// Abstract state of the time keeper: the current date, the date of
/// the next pending synchronization and the time sheets
pub struct TkView {
    pub date: Cycles,
    pub next_sync: Cycles,
    pub sheets: Seq<TimeSheet>,
}

/// `who` synchronized at the current date
pub open spec fn tk_synced(t: TkView, who: Peripheral) -> TkView {
    TkView {
        sheets: t.sheets.update(
            peripheral_index(who),
            TimeSheet { last_sync: t.date, ..t.sheets[peripheral_index(who)] },
        ),
        ..t
    }
}

/// `who` needs no forced synchronization
pub open spec fn tk_no_sync(t: TkView, who: Peripheral) -> TkView {
    TkView {
        sheets: t.sheets.update(
            peripheral_index(who),
            TimeSheet { next_sync: Cycles::MAX, ..t.sheets[peripheral_index(who)] },
        ),
        ..t
    }
}

/// Next synchronization of `who` scheduled in `delta` cycles
pub open spec fn tk_next_sync(t: TkView, who: Peripheral, delta: Cycles) -> TkView {
    let date = (t.date + delta) as Cycles;
    TkView {
        sheets: t.sheets.update(
            peripheral_index(who),
            TimeSheet { next_sync: date, ..t.sheets[peripheral_index(who)] },
        ),
        next_sync: if date < t.next_sync {
            date
        } else {
            t.next_sync
        },
        ..t
    }
}

/// Next synchronization of `who` moved to `delta` cycles from now if
/// that is sooner than the one scheduled
pub open spec fn tk_next_sync_if_sooner(t: TkView, who: Peripheral, delta: Cycles) -> TkView {
    if t.sheets[peripheral_index(who)].next_sync > t.date + delta {
        TkView {
            sheets: t.sheets.update(
                peripheral_index(who),
                TimeSheet {
                    next_sync: (t.date + delta) as Cycles,
                    ..t.sheets[peripheral_index(who)]
                },
            ),
            ..t
        }
    } else {
        t
    }
}

/// Struct keeping track of the various peripheral's emulation advancement.
pub struct TimeKeeper {
    /// Counter keeping track of the current date. Unit is a period of
    /// the CPU clock at 33.8685MHz (~29.5ns)
    now: Cycles,
    /// Next time a peripheral needs an update
    next_sync: Cycles,
    /// Time sheets for keeping track of the various peripherals
    timesheets: Vec<TimeSheet>,
}

impl TimeKeeper {
    /// Current date
    pub closed spec fn date(&self) -> Cycles {
        self.now
    }

    /// Date of the next pending synchronization
    pub closed spec fn next_sync_date(&self) -> Cycles {
        self.next_sync
    }

    /// Time sheets of all the peripherals
    pub closed spec fn sheets(&self) -> Seq<TimeSheet> {
        self.timesheets@
    }

    /// Abstract state of the time keeper
    pub open spec fn tk_view(&self) -> TkView {
        TkView { date: self.date(), next_sync: self.next_sync_date(), sheets: self.sheets() }
    }

    /// Time sheet of peripheral `p`
    pub open spec fn sheet(&self, p: Peripheral) -> TimeSheet {
        self.sheets()[peripheral_index(p)]
    }

    /// There is one time sheet per peripheral and no peripheral has
    /// been synchronized in the future
    pub open spec fn wf(&self) -> bool {
        &&& self.sheets().len() == NUM_PERIPHERALS
        &&& forall|i: int| 0 <= i < NUM_PERIPHERALS ==> #[trigger] self.sheets()[i].last_sync <= self.date()
    }

    pub fn new() -> (tk: TimeKeeper)
        ensures
            tk.wf(),
            tk.date() == 0,
            // Force a sync at the start to initialize everything
            tk.next_sync_date() == 0,
            forall|i: int| 0 <= i < NUM_PERIPHERALS ==> #[trigger] tk.sheets()[i] == (TimeSheet {
                last_sync: 0,
                next_sync: 0,
            }),
    {
        let sheet = TimeSheet { last_sync: 0, next_sync: 0 };
        let mut timesheets = Vec::new();
        let mut i: usize = 0;
        while i < NUM_PERIPHERALS
            invariant
                i <= NUM_PERIPHERALS,
                timesheets@.len() == i,
                forall|j: int| 0 <= j < i ==> #[trigger] timesheets@[j] == sheet,
            decreases NUM_PERIPHERALS - i,
        {
            timesheets.push(sheet);
            i += 1;
        }
        TimeKeeper { now: 0, next_sync: 0, timesheets }
    }

    /// Current date
    pub fn now(&self) -> (n: Cycles)
        ensures
            n == self.date(),
    {
        self.now
    }

    /// The time keeper once `cycles` more cycles have elapsed
    pub closed spec fn ticked(self, cycles: Cycles) -> TimeKeeper {
        TimeKeeper { now: (self.now + cycles) as Cycles, ..self }
    }

    /// Ticking only moves the current date forward
    pub proof fn lemma_ticked(self, cycles: Cycles)
        requires
            self.date() + cycles <= Cycles::MAX,
        ensures
            self.ticked(cycles).date() == self.date() + cycles,
            self.ticked(cycles).next_sync_date() == self.next_sync_date(),
            self.ticked(cycles).sheets() == self.sheets(),
    {
    }

    /// Advance the current date by `cycles`
    pub fn tick(&mut self, cycles: Cycles)
        requires
            old(self).wf(),
            old(self).date() + cycles <= Cycles::MAX,
        ensures
            final(self).wf(),
            *final(self) == old(self).ticked(cycles),
            final(self).date() == old(self).date() + cycles,
            final(self).next_sync_date() == old(self).next_sync_date(),
            final(self).sheets() == old(self).sheets(),
    {
        self.now = self.now + cycles;
    }

    /// Synchronize the timesheet for the given peripheral and return
    /// the elapsed time since the last sync.
    pub fn sync(&mut self, who: Peripheral) -> (delta: Cycles)
        requires
            old(self).wf(),
        ensures
            final(self).wf(),
            delta == old(self).date() - old(self).sheet(who).last_sync,
            final(self).sheets() == old(self).sheets().update(
                peripheral_index(who),
                TimeSheet { last_sync: old(self).date(), ..old(self).sheet(who) },
            ),
            final(self).date() == old(self).date(),
            final(self).next_sync_date() == old(self).next_sync_date(),
    {
        let i = who.index();
        let mut sheet = self.timesheets[i];
        let delta = self.now - sheet.last_sync;
        sheet.last_sync = self.now;
        self.timesheets.set(i, sheet);
        delta
    }

    /// Schedule the next sync of `who` in `delta` cycles
    pub fn set_next_sync_delta(&mut self, who: Peripheral, delta: Cycles)
        requires
            old(self).wf(),
            old(self).date() + delta <= Cycles::MAX,
        ensures
            final(self).wf(),
            final(self).sheets() == old(self).sheets().update(
                peripheral_index(who),
                TimeSheet { next_sync: (old(self).date() + delta) as Cycles, ..old(self).sheet(who) },
            ),
            final(self).date() == old(self).date(),
            final(self).next_sync_date() == if old(self).date() + delta < old(self).next_sync_date() {
                (old(self).date() + delta) as Cycles
            } else {
                old(self).next_sync_date()
            },
    {
        let date = self.now + delta;
        let i = who.index();
        let mut sheet = self.timesheets[i];
        sheet.next_sync = date;
        self.timesheets.set(i, sheet);
        if date < self.next_sync {
            self.next_sync = date;
        }
    }

    /// Set next sync *only* if it's closer than what's already
    /// configured.
    pub fn set_next_sync_delta_if_sooner(&mut self, who: Peripheral, delta: Cycles)
        requires
            old(self).wf(),
            old(self).date() + delta <= Cycles::MAX,
        ensures
            final(self).wf(),
            final(self).sheets() == if old(self).sheet(who).next_sync > old(self).date() + delta {
                old(self).sheets().update(
                    peripheral_index(who),
                    TimeSheet {
                        next_sync: (old(self).date() + delta) as Cycles,
                        ..old(self).sheet(who)
                    },
                )
            } else {
                old(self).sheets()
            },
            final(self).date() == old(self).date(),
            final(self).next_sync_date() == old(self).next_sync_date(),
    {
        let date = self.now + delta;
        let i = who.index();
        let mut sheet = self.timesheets[i];
        if sheet.next_sync > date {
            sheet.next_sync = date;
            self.timesheets.set(i, sheet);
        }
    }

    /// Called by a peripheral when there's no asynchronous event
    /// scheduled.
    pub fn no_sync_needed(&mut self, who: Peripheral)
        requires
            old(self).wf(),
        ensures
            final(self).wf(),
            final(self).sheets() == old(self).sheets().update(
                peripheral_index(who),
                TimeSheet { next_sync: Cycles::MAX, ..old(self).sheet(who) },
            ),
            final(self).date() == old(self).date(),
            final(self).next_sync_date() == old(self).next_sync_date(),
    {
        // Instead of disabling the sync completely we can just use a
        // distant date. Peripheral's syncs should be idempotent
        // anyway.
        let i = who.index();
        let mut sheet = self.timesheets[i];
        sheet.next_sync = Cycles::MAX;
        self.timesheets.set(i, sheet);
    }

    /// True when at least one peripheral needs to be synchronized
    pub fn sync_pending(&self) -> (r: bool)
        ensures
            r == (self.next_sync_date() <= self.date()),
    {
        self.next_sync <= self.now
    }

    /// True when peripheral `who` needs to be synchronized
    /// Date of the last synchronization of `who`
    pub fn last_sync(&self, who: Peripheral) -> (r: Cycles)
        requires
            self.wf(),
        ensures
            r == self.sheet(who).last_sync,
    {
        self.timesheets[who.index()].last_sync
    }

    pub fn needs_sync(&self, who: Peripheral) -> (r: bool)
        requires
            self.wf(),
        ensures
            r == (self.sheet(who).next_sync <= self.date()),
    {
        self.timesheets[who.index()].next_sync <= self.now
    }

    /// Recompute the date of the next pending synchronization
    pub fn update_sync_pending(&mut self)
        requires
            old(self).wf(),
        ensures
            final(self).wf(),
            final(self).sheets() == old(self).sheets(),
            final(self).date() == old(self).date(),
            forall|i: int|
                0 <= i < NUM_PERIPHERALS ==> final(self).next_sync_date()
                    <= #[trigger] old(self).sheets()[i].next_sync,
            exists|i: int|
                0 <= i < NUM_PERIPHERALS && final(self).next_sync_date()
                    == #[trigger] old(self).sheets()[i].next_sync,
    {
        let mut min = self.timesheets[0].next_sync;
        let mut i: usize = 1;
        while i < NUM_PERIPHERALS
            invariant
                1 <= i <= NUM_PERIPHERALS,
                self.sheets().len() == NUM_PERIPHERALS,
                forall|j: int| 0 <= j < i ==> min <= #[trigger] self.sheets()[j].next_sync,
                exists|j: int| 0 <= j < i && min == #[trigger] self.sheets()[j].next_sync,
            decreases NUM_PERIPHERALS - i,
        {
            if self.timesheets[i].next_sync < min {
                min = self.timesheets[i].next_sync;
            }
            i += 1;
        }
        self.next_sync = min;
    }
}

/// Fixed point representation of a cycle counter used to store
/// non-integer cycle counts. Required because the CPU and GPU clocks
/// have a non-integer ratio.
#[derive(Clone, Copy, Debug)]
pub struct FracCycles(pub Cycles);

/// Number of fractional bits in the fixed point representation
pub const FRAC_BITS: Cycles = 16;

impl FracCycles {
    pub fn from_fp(val: Cycles) -> (f: FracCycles)
        ensures
            f.0 == val,
    {
        FracCycles(val)
    }

    /// Integer cycle count as a fixed point value (the 16 most
    /// significant bits of `val` do not fit and are dropped)
    pub fn from_cycles(val: Cycles) -> (f: FracCycles)
        ensures
            f.0 == val << FRAC_BITS,
    {
        FracCycles(val << FracCycles::frac_bits())
    }

    /// Return the raw fixed point value
    pub fn get_fp(self) -> (v: Cycles)
        ensures
            v == self.0,
    {
        self.0
    }

    /// Return the number of fractional bits in the fixed point
    /// representation
    pub fn frac_bits() -> (b: Cycles)
        ensures
            b == FRAC_BITS,
    {
        16
    }

    pub fn add(self, val: FracCycles) -> (r: FracCycles)
        requires
            self.0 + val.0 <= Cycles::MAX,
        ensures
            r.0 == self.0 + val.0,
    {
        FracCycles(self.get_fp() + val.get_fp())
    }

    pub fn multiply(self, mul: FracCycles) -> (r: FracCycles)
        requires
            self.0 * mul.0 <= Cycles::MAX,
        ensures
            r.0 == ((self.0 * mul.0) as Cycles) >> FRAC_BITS,
    {
        let v = self.get_fp() * mul.get_fp();
        // The shift amount is doubled during the multiplication so we
        // have to shift it back to its normal position.
        FracCycles(v >> FracCycles::frac_bits())
    }

    pub fn divide(self, denominator: FracCycles) -> (r: FracCycles)
        requires
            denominator.0 != 0,
        ensures
            r.0 == (self.0 << FRAC_BITS) / denominator.0,
    {
        // In order not to lose precision we must shift the numerator
        // once more *before* the division. Otherwise the division of
        // the two shifted value would only give us the integer part
        // of the result.
        let numerator = self.get_fp() << FracCycles::frac_bits();
        FracCycles(numerator / denominator.get_fp())
    }

    /// Smallest integer cycle count not below the value
    pub fn ceil(self) -> (c: Cycles)
        requires
            self.0 + 0xffff <= Cycles::MAX,
        ensures
            c == ((self.0 + 0xffff) as Cycles) >> FRAC_BITS,
    {
        let shift = FracCycles::frac_bits();
        assert(1u64 << shift == 0x10000) by (bit_vector)
            requires
                shift == 16,
        ;
        let align: Cycles = (1 << shift) - 1;
        (self.0 + align) >> shift
    }
}

} // verus!
