//! The three system timers

use vstd::prelude::*;

use crate::timekeeper::{Cycles, FracCycles, Peripheral, TimeKeeper, FRAC_BITS, NUM_PERIPHERALS, peripheral_index};
use crate::shared::SharedState;
use super::{Addressable, AccessWidth};

verus! {

/// Dates are kept below this bound so that the fixed point timer
/// arithmetic cannot overflow (about 48 days of emulated time)
pub const MAX_DATE: u64 = 0x7fff_ffff_ffff;

/// Largest supported clock period, in fixed point cycles
pub const MAX_PERIOD: u64 = 0xffff_ffff;

/// Video clock timings provided by the GPU, used by the timers that
/// count GPU dots or horizontal syncs
#[derive(Clone, Copy)]
pub struct GpuClocks {
    /// Period of the GPU dot clock
    pub dotclock_period: FracCycles,
    /// Current phase of the GPU dot clock
    pub dotclock_phase: FracCycles,
    /// Period of the horizontal sync signal
    pub hsync_period: FracCycles,
    /// Current phase of the horizontal sync signal
    pub hsync_phase: FracCycles,
}

/// Clock values are usable: a non-null period no longer than
/// `MAX_PERIOD` and a phase within the period
pub open spec fn gpu_clocks_wf(c: GpuClocks) -> bool {
    &&& 0 < c.dotclock_period.0 <= MAX_PERIOD
    &&& c.dotclock_phase.0 < c.dotclock_period.0
    &&& 0 < c.hsync_period.0 <= MAX_PERIOD
    &&& c.hsync_phase.0 < c.hsync_period.0
}

/// Various synchronization modes when the timer is not in free-run.
#[derive(Clone, Copy, PartialEq, Eq, Structural)]
pub enum Sync {
    /// For timer 1/2: Pause during H/VBlank. For timer 3: Stop counter
    Pause,
    /// For timer 1/2: Reset counter at H/VBlank. For timer 3: Free run
    Reset,
    /// For timer 1/2: Reset counter at H/VBlank and pause outside of
    /// it. For timer 3: Free run
    ResetAndPause,
    /// For timer 1/2: Wait for H/VBlank and then free-run. For timer
    /// 3: Stop counter
    WaitForSync,
}

pub open spec fn sync_field(s: Sync) -> u16 {
    match s {
        Sync::Pause => 0,
        Sync::Reset => 1,
        Sync::ResetAndPause => 2,
        Sync::WaitForSync => 3,
    }
}

/// Synchronization mode encoded by a 2 bit field
pub open spec fn sync_of(field: u16) -> Sync {
    match field {
        0 => Sync::Pause,
        1 => Sync::Reset,
        2 => Sync::ResetAndPause,
        _ => Sync::WaitForSync,
    }
}

impl Sync {
    fn from_field(field: u16) -> (s: Sync)
        requires
            field < 4,
        ensures
            sync_field(s) == field,
            s == sync_of(field),
    {
        match field {
            0 => Sync::Pause,
            1 => Sync::Reset,
            2 => Sync::ResetAndPause,
            _ => Sync::WaitForSync,
        }
    }

    fn field(self) -> (f: u16)
        ensures
            f == sync_field(self),
    {
        match self {
            Sync::Pause => 0,
            Sync::Reset => 1,
            Sync::ResetAndPause => 2,
            Sync::WaitForSync => 3,
        }
    }
}

/// The four possible clock sources for the timers
#[derive(Clone, Copy, PartialEq, Eq, Structural)]
pub enum Clock {
    /// The CPU clock at ~33.87MHz
    SysClock,
    /// The CPU clock divided by 8 (~4.23MHz)
    SysClockDiv8,
    /// The GPU's dotclock (depends on hardware, around 53Mhz)
    GpuDotClock,
    /// The GPU's HSync signal (depends on hardware and video timings)
    GpuHSync,
}

/// Clock selected by the 2 bit clock source field of a timer. Timers 0
/// and 1 use values 0 or 2 for the sysclock (1 and 3 for the
/// alternative source) while timer 2 uses 0 and *1* for the sysclock
/// (2 and 3 for the alternative source).
pub open spec fn spec_clock(source: u8, instance: Peripheral) -> Clock {
    match instance {
        Peripheral::Timer0 => if source & 1 == 0 {
            Clock::SysClock
        } else {
            Clock::GpuDotClock
        },
        Peripheral::Timer1 => if source & 1 == 0 {
            Clock::SysClock
        } else {
            Clock::GpuHSync
        },
        _ => if source < 2 {
            Clock::SysClock
        } else {
            Clock::SysClockDiv8
        },
    }
}

/// Returns true if the clock comes from the GPU
pub open spec fn clock_needs_gpu(c: Clock) -> bool {
    c == Clock::GpuDotClock || c == Clock::GpuHSync
}

impl Clock {
    /// Returns true if the clock comes from the GPU
    pub fn needs_gpu(self) -> (r: bool)
        ensures
            r == clock_needs_gpu(self),
    {
        match self {
            Clock::GpuDotClock | Clock::GpuHSync => true,
            _ => false,
        }
    }
}

/// Clock source is stored on two bits. The meaning of those bits
/// depends on the timer instance.
#[derive(Clone, Copy)]
pub struct ClockSource(pub u8);

impl ClockSource {
    fn from_field(field: u16) -> (c: ClockSource)
        requires
            field < 4,
        ensures
            c.0 == field,
    {
        ClockSource(field as u8)
    }

    fn clock(self, instance: Peripheral) -> (c: Clock)
        requires
            self.0 < 4,
        ensures
            c == spec_clock(self.0, instance),
    {
        let source = self.0;
        match instance {
            Peripheral::Timer0 => if source & 1 == 0 {
                Clock::SysClock
            } else {
                Clock::GpuDotClock
            },
            Peripheral::Timer1 => if source & 1 == 0 {
                Clock::SysClock
            } else {
                Clock::GpuHSync
            },
            _ => if source < 2 {
                Clock::SysClock
            } else {
                Clock::SysClockDiv8
            },
        }
    }
}

/// Result of advancing a timer: counter, phase, target reached and
/// overflow flags
pub open spec fn spec_advance(
    counter: u16,
    target: u16,
    target_wrap: bool,
    phase: u64,
    period: u64,
    delta: u64,
) -> (u16, u64, bool, bool) {
    let ticks = ((delta << FRAC_BITS) as u64 + phase) as u64;
    let count = ticks / period + counter;
    let phase = ticks % period;
    // We wrap *after* the target is reached, so we need to add 1 to
    // it for the modulo to work correctly.
    let top: int = if target_wrap {
        target + 1
    } else {
        0x10000
    };
    if count >= top {
        ((count % top) as u16, phase as u64, true, top == 0x10000)
    } else {
        (count as u16, phase as u64, false, false)
    }
}

#[derive(Clone, Copy)]
pub struct Timer {
    /// Timer instance (Timer0, 1 or 2)
    instance: Peripheral,
    /// Counter value
    counter: u16,
    /// Counter target
    target: u16,
    /// If true do not synchronize the timer with an external signal
    free_run: bool,
    /// The synchronization mode when `free_run` is false.
    sync: Sync,
    /// If true the counter is reset when it reaches the `target`
    /// value. Otherwise let it count all the way to `0xffff` and wrap
    /// around.
    target_wrap: bool,
    /// Raise interrupt when the counter reaches the `target`
    target_irq: bool,
    /// Raise interrupt when the counter passes 0xffff and wraps
    /// around
    wrap_irq: bool,
    /// If true the interrupt is automatically cleared and will
    /// re-trigger when one of the interrupt conditions occurs again
    repeat_irq: bool,
    /// XXX Not sure what this bit does.
    pulse_irq: bool,
    /// Clock source (2bits).
    clock_source: ClockSource,
    /// XXX Not sure what this does exactly
    request_interrupt: bool,
    /// True if the target has been reached since the last read
    target_reached: bool,
    /// True if the counter reached 0xffff and overflowed since the
    /// last read
    overflow_reached: bool,
    /// Period of a counter tick.
    period: FracCycles,
    /// Current position within a period of a counter tick.
    phase: FracCycles,
}

pub open spec fn b16(b: bool) -> u16 {
    if b {
        1
    } else {
        0
    }
}

impl Timer {
    pub closed spec fn instance_id(&self) -> Peripheral {
        self.instance
    }

    pub closed spec fn counter_value(&self) -> u16 {
        self.counter
    }

    pub closed spec fn target_value(&self) -> u16 {
        self.target
    }

    pub closed spec fn free_running(&self) -> bool {
        self.free_run
    }

    /// Mode register read back value
    pub closed spec fn mode_reg(&self) -> u16 {
        b16(self.free_run) | (sync_field(self.sync) << 1u16) | (b16(self.target_wrap) << 3u16) | (
        b16(self.wrap_irq) << 5u16) | (b16(self.repeat_irq) << 6u16) | (b16(self.pulse_irq)
            << 7u16) | ((self.clock_source.0 as u16) << 8u16) | (b16(self.request_interrupt)
            << 10u16) | (b16(self.target_reached) << 11u16) | (b16(self.overflow_reached) << 12u16)
    }

    /// Counter increments when the target is reached or the counter
    /// wraps
    pub closed spec fn flags(&self) -> (bool, bool) {
        (self.target_reached, self.overflow_reached)
    }

    /// Clock feeding the counter
    pub closed spec fn clock(&self) -> Clock {
        spec_clock(self.clock_source.0, self.instance)
    }

    /// Period and phase of the counter clock (fixed point cycles)
    pub closed spec fn timing(&self) -> (u64, u64) {
        (self.period.0, self.phase.0)
    }

    pub closed spec fn wrap_at_target(&self) -> bool {
        self.target_wrap
    }

    /// State after `delta` cycles of counting
    pub closed spec fn synced(self, delta: u64) -> Timer {
        let (c, p, reached, over) = spec_advance(
            self.counter,
            self.target,
            self.target_wrap,
            self.phase.0,
            self.period.0,
            delta,
        );
        Timer {
            counter: c,
            phase: FracCycles(p),
            target_reached: self.target_reached || reached,
            overflow_reached: self.overflow_reached || over,
            ..self
        }
    }

    /// State after a write of `val` to the mode register
    pub closed spec fn mode_written(self, val: u16) -> Timer {
        Timer {
            free_run: val & 1 == 0,
            sync: sync_of((val >> 1u16) & 3),
            target_wrap: (val >> 3u16) & 1 != 0,
            target_irq: (val >> 4u16) & 1 != 0,
            wrap_irq: (val >> 5u16) & 1 != 0,
            repeat_irq: (val >> 6u16) & 1 != 0,
            pulse_irq: (val >> 7u16) & 1 != 0,
            clock_source: ClockSource(((val >> 8u16) & 3) as u8),
            request_interrupt: (val >> 10u16) & 1 != 0,
            counter: 0,
            ..self
        }
    }

    /// State after a read of the mode register
    pub closed spec fn mode_read(self) -> Timer {
        Timer { target_reached: false, overflow_reached: false, ..self }
    }

    /// State after a write of `val` to register `reg` (0: counter,
    /// 4: mode, 8: target)
    pub closed spec fn written(self, reg: u32, val: u16) -> Timer {
        if reg == 0 {
            Timer { counter: val, ..self }
        } else if reg == 4 {
            self.mode_written(val)
        } else {
            Timer { target: val, ..self }
        }
    }

    /// State once the counter clock has been recomputed for the
    /// current configuration
    pub closed spec fn reconfigured(self, gpu: GpuClocks) -> Timer {
        match spec_clock(self.clock_source.0, self.instance) {
            Clock::SysClock => Timer { period: FracCycles(0x10000), phase: FracCycles(0), ..self },
            Clock::SysClockDiv8 => Timer {
                period: FracCycles(0x80000),
                phase: FracCycles(0),
                ..self
            },
            Clock::GpuDotClock => Timer {
                period: gpu.dotclock_period,
                phase: gpu.dotclock_phase,
                ..self
            },
            Clock::GpuHSync => Timer { period: gpu.hsync_period, phase: gpu.hsync_phase, ..self },
        }
    }

    pub closed spec fn wf(&self) -> bool {
        &&& self.clock_source.0 < 4
        &&& 0 < self.period.0 <= MAX_PERIOD
        &&& self.phase.0 < self.period.0
        &&& self.instance == Peripheral::Timer0 || self.instance == Peripheral::Timer1
            || self.instance == Peripheral::Timer2
    }

    fn new(instance: Peripheral) -> (t: Timer)
        requires
            instance == Peripheral::Timer0 || instance == Peripheral::Timer1 || instance
                == Peripheral::Timer2,
        ensures
            t.wf(),
            t.instance_id() == instance,
            t.counter_value() == 0,
            t.target_value() == 0,
            t.mode_reg() == 0,
            t.timing() == (0x10000u64, 0u64),
    {
        let t = Timer {
            instance: instance,
            counter: 0,
            target: 0,
            free_run: false,
            sync: Sync::from_field(0),
            target_wrap: false,
            target_irq: false,
            wrap_irq: false,
            repeat_irq: false,
            pulse_irq: false,
            clock_source: ClockSource::from_field(0),
            request_interrupt: false,
            target_reached: false,
            overflow_reached: false,
            period: FracCycles::from_cycles(1),
            phase: FracCycles::from_cycles(0),
        };
        proof {
            lemma_timer_bits(0, 0, 0, 0, 0);
        }
        t
    }

    /// Recomputes the timer's clock period and phase. Must be called
    /// when the timer's config changes *or* when the timer relies on
    /// the GPU's video timings and those timings change.
    fn reconfigure(&mut self, gpu: &GpuClocks)
        requires
            old(self).wf(),
            gpu_clocks_wf(*gpu),
        ensures
            final(self).wf(),
            *final(self) == old(self).reconfigured(*gpu),
            final(self).timing() == match old(self).clock() {
                Clock::SysClock => (0x10000u64, 0u64),
                Clock::SysClockDiv8 => (0x80000u64, 0u64),
                Clock::GpuDotClock => (gpu.dotclock_period.0, gpu.dotclock_phase.0),
                Clock::GpuHSync => (gpu.hsync_period.0, gpu.hsync_phase.0),
            },
    {
        assert(1u64 << 16u64 == 0x10000 && 0u64 << 16u64 == 0 && 8u64 << 16u64 == 0x80000) by {
            lemma_timer_bits(0, 0, 0, 0, 0);
        }
        match self.clock_source.clock(self.instance) {
            Clock::SysClock => {
                self.period = FracCycles::from_cycles(1);
                self.phase = FracCycles::from_cycles(0);
            },
            Clock::SysClockDiv8 => {
                self.period = FracCycles::from_cycles(8);
                // XXX When does the divider get reset exactly?
                // Maybe it's running continuously?
                self.phase = FracCycles::from_cycles(0);
            },
            Clock::GpuDotClock => {
                self.period = gpu.dotclock_period;
                self.phase = gpu.dotclock_phase;
            },
            Clock::GpuHSync => {
                self.period = gpu.hsync_period;
                self.phase = gpu.hsync_phase;
            },
        }
    }

    /// Synchronize this timer with the current date.
    fn sync(&mut self, tk: &mut TimeKeeper)
        requires
            old(self).wf(),
            old(tk).wf(),
            old(tk).date() <= MAX_DATE,
        ensures
            final(self).wf(),
            final(tk).wf(),
            final(tk).date() == old(tk).date(),
            final(tk).next_sync_date() == old(tk).next_sync_date(),
            *final(self) == old(self).synced(
                (old(tk).date() - old(tk).sheet(old(self).instance_id()).last_sync) as u64,
            ),
            final(tk).sheets() == old(tk).sheets().update(
                peripheral_index(old(self).instance_id()),
                crate::timekeeper::TimeSheet {
                    last_sync: old(tk).date(),
                    ..old(tk).sheet(old(self).instance_id())
                },
            ),
            ({
                let (c, p, reached, over) = spec_advance(
                    old(self).counter_value(),
                    old(self).target_value(),
                    old(self).wrap_at_target(),
                    old(self).timing().1,
                    old(self).timing().0,
                    (old(tk).date() - old(tk).sheet(old(self).instance_id()).last_sync) as u64,
                );
                &&& final(self).counter_value() == c
                &&& final(self).timing() == (old(self).timing().0, p)
                &&& final(self).flags() == (
                    old(self).flags().0 || reached,
                    old(self).flags().1 || over,
                )
            }),
            final(self).target_value() == old(self).target_value(),
            final(self).instance_id() == old(self).instance_id(),
            final(self).free_running() == old(self).free_running(),
            final(self).clock() == old(self).clock(),
            final(self).wrap_at_target() == old(self).wrap_at_target(),
    {
        let delta = tk.sync(self.instance);
        let delta_frac = FracCycles::from_cycles(delta);
        proof {
            assert(delta <= MAX_DATE);
            lemma_timer_bits(0, 0, 0, 0, delta);
        }
        let ticks = delta_frac.add(self.phase);
        let mut count = ticks.get_fp() / self.period.get_fp();
        let phase = ticks.get_fp() % self.period.get_fp();
        // Store the new phase
        self.phase = FracCycles::from_fp(phase);
        let target: Cycles = if self.target_wrap {
            // We wrap *after* the target is reached, so we need to
            // add 1 to it for our modulo to work correctly later.
            (self.target as Cycles) + 1
        } else {
            0x10000
        };
        proof {
            assert(count <= ticks.0);
            vstd::arithmetic::div_mod::lemma_div_is_ordered_by_denominator(
                ticks.0 as int,
                1,
                self.period.0 as int,
            );
        }
        count += self.counter as Cycles;
        if count >= target {
            count %= target;
            // XXX I'm not sure if those flags are set when the
            // target/0xffff are reached or at the beginning of the
            // next tick.
            self.target_reached = true;
            if target == 0x10000 {
                self.overflow_reached = true;
            }
        }
        self.counter = count as u16;
    }

    /// Return true if the timer relies on the GPU for the clock
    /// source or synchronization. Only the free running mode is
    /// supported.
    pub fn needs_gpu(&self) -> (r: bool)
        requires
            self.wf(),
            self.free_running(),
        ensures
            r == clock_needs_gpu(self.clock()),
    {
        self.clock_source.clock(self.instance).needs_gpu()
    }

    /// Read the mode register. Reading the mode resets the target
    /// reached and overflow flags.
    fn mode(&mut self) -> (r: u16)
        requires
            old(self).wf(),
        ensures
            final(self).wf(),
            r == old(self).mode_reg(),
            *final(self) == old(self).mode_read(),
            final(self).flags() == (false, false),
            final(self).counter_value() == old(self).counter_value(),
            final(self).target_value() == old(self).target_value(),
            final(self).timing() == old(self).timing(),
            final(self).instance_id() == old(self).instance_id(),
            final(self).free_running() == old(self).free_running(),
            final(self).clock() == old(self).clock(),
            final(self).wrap_at_target() == old(self).wrap_at_target(),
    {
        let mut r = 0u16;
        r = r | (if self.free_run { 1u16 } else { 0u16 });
        r = r | (self.sync.field() << 1);
        r = r | ((if self.target_wrap { 1u16 } else { 0u16 }) << 3);
        r = r | ((if self.wrap_irq { 1u16 } else { 0u16 }) << 5);
        r = r | ((if self.repeat_irq { 1u16 } else { 0u16 }) << 6);
        r = r | ((if self.pulse_irq { 1u16 } else { 0u16 }) << 7);
        r = r | ((self.clock_source.0 as u16) << 8);
        r = r | ((if self.request_interrupt { 1u16 } else { 0u16 }) << 10);
        r = r | ((if self.target_reached { 1u16 } else { 0u16 }) << 11);
        r = r | ((if self.overflow_reached { 1u16 } else { 0u16 }) << 12);
        proof {
            let f = b16(self.free_run);
            lemma_timer_bits(0, 0, 0, f, 0);
        }
        // Reading mode resets those flags
        self.target_reached = false;
        self.overflow_reached = false;
        r
    }

    /// Set the value of the mode register. Only free running timers
    /// without an interrupt request are supported.
    fn set_mode(&mut self, val: u16)
        requires
            old(self).wf(),
            val & 1 == 0,
            (val >> 10u16) & 1 == 0,
        ensures
            final(self).wf(),
            *final(self) == old(self).mode_written(val),
            final(self).mode_reg() == (val & 0x3ee) | (b16(old(self).flags().0) << 11u16) | (b16(
                old(self).flags().1,
            ) << 12u16) | 1,
            final(self).free_running(),
            final(self).wrap_at_target() == ((val >> 3u16) & 1 != 0),
            final(self).clock() == spec_clock(((val >> 8u16) & 3) as u8, old(self).instance_id()),
            // Writing to mode resets the counter
            final(self).counter_value() == 0,
            final(self).target_value() == old(self).target_value(),
            final(self).timing() == old(self).timing(),
            final(self).instance_id() == old(self).instance_id(),
            final(self).flags() == old(self).flags(),
    {
        proof {
            lemma_timer_bits(val, 0, 0, 0, 0);
        }
        self.free_run = (val & 1) == 0;
        self.sync = Sync::from_field((val >> 1) & 3);
        self.target_wrap = (val >> 3) & 1 != 0;
        self.target_irq = (val >> 4) & 1 != 0;
        self.wrap_irq = (val >> 5) & 1 != 0;
        self.repeat_irq = (val >> 6) & 1 != 0;
        self.pulse_irq = (val >> 7) & 1 != 0;
        self.clock_source = ClockSource::from_field((val >> 8) & 3);
        // Polarity of this flag appears to be reversed. I'm still not
        // sure what it does though...
        self.request_interrupt = (val >> 10) & 1 != 0;
        // Writing to mode resets the counter
        self.counter = 0;
        proof {
            let t = b16(self.target_reached);
            let o = b16(self.overflow_reached);
            lemma_timer_bits(val, t, o, 0, 0);
            assert(b16(self.target_wrap) == (val >> 3u16) & 1);
            assert(b16(self.wrap_irq) == (val >> 5u16) & 1);
            assert(b16(self.repeat_irq) == (val >> 6u16) & 1);
            assert(b16(self.pulse_irq) == (val >> 7u16) & 1);
        }
    }

    fn target(&self) -> (r: u16)
        ensures
            r == self.target_value(),
    {
        self.target
    }

    fn set_target(&mut self, val: u16)
        requires
            old(self).wf(),
        ensures
            final(self).wf(),
            final(self).target_value() == val,
            *final(self) == old(self).written(8, val),
            final(self).counter_value() == old(self).counter_value(),
            final(self).mode_reg() == old(self).mode_reg(),
            final(self).timing() == old(self).timing(),
            final(self).instance_id() == old(self).instance_id(),
            final(self).free_running() == old(self).free_running(),
            final(self).clock() == old(self).clock(),
            final(self).wrap_at_target() == old(self).wrap_at_target(),
            final(self).flags() == old(self).flags(),
    {
        self.target = val;
    }

    fn counter(&self) -> (r: u16)
        ensures
            r == self.counter_value(),
    {
        self.counter
    }

    fn set_counter(&mut self, val: u16)
        requires
            old(self).wf(),
        ensures
            final(self).wf(),
            final(self).counter_value() == val,
            *final(self) == old(self).written(0, val),
            final(self).target_value() == old(self).target_value(),
            final(self).mode_reg() == old(self).mode_reg(),
            final(self).timing() == old(self).timing(),
            final(self).instance_id() == old(self).instance_id(),
            final(self).free_running() == old(self).free_running(),
            final(self).clock() == old(self).clock(),
            final(self).wrap_at_target() == old(self).wrap_at_target(),
            final(self).flags() == old(self).flags(),
    {
        self.counter = val;
    }
}


/// Timekeeper identity of timer number `i`
pub open spec fn timer_peripheral(i: int) -> Peripheral {
    if i == 0 {
        Peripheral::Timer0
    } else if i == 1 {
        Peripheral::Timer1
    } else {
        Peripheral::Timer2
    }
}

/// Cycles elapsed since timer `i` was last synchronized
pub open spec fn timer_delta(tk: TimeKeeper, i: int) -> u64 {
    (tk.date() - tk.sheet(timer_peripheral(i)).last_sync) as u64
}

/// Time keeper after timer `i` has been synchronized
pub open spec fn timer_synced_sheets(tk: TimeKeeper, i: int) -> Seq<crate::timekeeper::TimeSheet> {
    tk.sheets().update(
        peripheral_index(timer_peripheral(i)),
        crate::timekeeper::TimeSheet { last_sync: tk.date(), ..tk.sheet(timer_peripheral(i)) },
    )
}

/// Value read from the timer register at `offset` once the timer was
/// advanced by `delta` cycles
pub open spec fn timers_load_value(ts: Seq<Timer>, delta: u64, offset: u32) -> u32 {
    let t = ts[(offset >> 4u32) as int].synced(delta);
    if offset & 0xf == 0 {
        t.counter_value() as u32
    } else if offset & 0xf == 4 {
        t.mode_reg() as u32
    } else {
        t.target_value() as u32
    }
}

/// Timers after a read of the register at `offset`, the timer having
/// been advanced by `delta` cycles
pub open spec fn timers_after_load(ts: Seq<Timer>, delta: u64, offset: u32) -> Seq<Timer> {
    let i = (offset >> 4u32) as int;
    let t = ts[i].synced(delta);
    ts.update(
        i,
        if offset & 0xf == 4 {
            t.mode_read()
        } else {
            t
        },
    )
}

/// Timers after a write of `val` to the register at `offset`, the
/// timer having been advanced by `delta` cycles
pub open spec fn timers_after_store(
    ts: Seq<Timer>,
    delta: u64,
    gpu: GpuClocks,
    offset: u32,
    val: u16,
) -> Seq<Timer> {
    let i = (offset >> 4u32) as int;
    ts.update(i, ts[i].synced(delta).written(offset & 0xf, val).reconfigured(gpu))
}

pub struct Timers {
    /// The three timers. They're mostly identical except that they
    /// can each select a unique clock source besides the regular
    /// system clock:
    ///
    /// * Timer 0: GPU pixel clock
    /// * Timer 1: GPU horizontal blanking
    /// * Timer 2: System clock / 8
    timers: Vec<Timer>,
}

impl Timers {
    /// The three timers, by number
    pub closed spec fn timers_view(&self) -> Seq<Timer> {
        self.timers@
    }

    /// Three well-formed timers, timer `i` being instance `i`
    pub open spec fn wf(&self) -> bool {
        &&& self.timers_view().len() == 3
        &&& self.timers_view()[0].wf()
        &&& self.timers_view()[0].instance_id() == Peripheral::Timer0
        &&& self.timers_view()[1].wf()
        &&& self.timers_view()[1].instance_id() == Peripheral::Timer1
        &&& self.timers_view()[2].wf()
        &&& self.timers_view()[2].instance_id() == Peripheral::Timer2
    }

    /// Timer `i` is in free running mode
    pub fn free_running_at(&self, i: usize) -> (r: bool)
        requires
            self.wf(),
            i < 3,
        ensures
            r == self.timers_view()[i as int].free_running(),
    {
        self.timers[i].free_run
    }

    pub fn new() -> (t: Timers)
        ensures
            t.wf(),
            forall|i: int|
                0 <= i < 3 ==> #[trigger] self::zeroed(t.timers_view()[i]),
    {
        let mut timers: Vec<Timer> = Vec::new();
        timers.push(Timer::new(Peripheral::Timer0));
        timers.push(Timer::new(Peripheral::Timer1));
        timers.push(Timer::new(Peripheral::Timer2));
        Timers { timers }
    }

    /// Write `val` to the timer register at `offset`. Only halfword
    /// and word accesses to the counter (0), mode (4) and target (8)
    /// registers of free running timers are supported. `gpu` holds
    /// the current video clock timings.
    pub fn store<T: Addressable>(&mut self, tk: &mut TimeKeeper, gpu: &GpuClocks, offset: u32, val: u32)
        requires
            old(self).wf(),
            old(tk).wf(),
            old(tk).date() <= MAX_DATE,
            gpu_clocks_wf(*gpu),
            T::spec_width() != AccessWidth::Byte,
            offset >> 4u32 < 3,
            offset & 0xf == 0 || offset & 0xf == 4 || offset & 0xf == 8,
            offset & 0xf == 4 ==> (val as u16) & 1 == 0 && ((val as u16) >> 10u16) & 1 == 0,
            offset & 0xf != 4 ==> old(self).timers_view()[(offset >> 4u32) as int].free_running(),
        ensures
            final(self).wf(),
            final(self).timers_view() == timers_after_store(
                old(self).timers_view(),
                timer_delta(*old(tk), (offset >> 4u32) as int),
                *gpu,
                offset,
                val as u16,
            ),
            final(tk).wf(),
            final(tk).date() == old(tk).date(),
            final(tk).next_sync_date() == old(tk).next_sync_date(),
            final(tk).sheets() == timer_synced_sheets(*old(tk), (offset >> 4u32) as int),
    {
        let val = val as u16;
        let instance = (offset >> 4) as usize;
        let mut timer = self.timers[instance];
        assert(self.timers_view()[instance as int].wf());
        assert(timer == self.timers_view()[instance as int]);
        assert(timer.wf() && timer.instance_id() == timer_peripheral(instance as int));
        timer.sync(tk);
        let reg = offset & 0xf;
        if reg == 0 {
            timer.set_counter(val);
        } else if reg == 4 {
            timer.set_mode(val);
        } else {
            timer.set_target(val);
        }
        // The caller is responsible for synchronizing the GPU when
        // `timer.needs_gpu()`: `gpu` holds its up to date timings.
        timer.reconfigure(gpu);
        self.timers.set(instance, timer);
        proof {
            assert forall|j: int| 0 <= j < 3 implies #[trigger] self.timers_view()[j].wf()
                && self.timers_view()[j].instance_id() == timer_peripheral(j) by {
                if j != instance {
                    assert(self.timers_view()[j] == old(self).timers_view()[j]);
                    assert(old(self).timers_view()[j].wf());
                } else {
                    assert(self.timers_view()[j] == timer);
                }
            }
        }
    }

    /// Read the timer register at `offset`. Only halfword and word
    /// accesses to the counter (0), mode (4) and target (8)
    /// registers are supported. Reading the mode register clears the
    /// timer's target and overflow flags.
    pub fn load<T: Addressable>(&mut self, tk: &mut TimeKeeper, offset: u32) -> (r: u32)
        requires
            old(self).wf(),
            old(tk).wf(),
            old(tk).date() <= MAX_DATE,
            T::spec_width() != AccessWidth::Byte,
            offset >> 4u32 < 3,
            offset & 0xf == 0 || offset & 0xf == 4 || offset & 0xf == 8,
        ensures
            final(self).wf(),
            r == timers_load_value(
                old(self).timers_view(),
                timer_delta(*old(tk), (offset >> 4u32) as int),
                offset,
            ),
            final(self).timers_view() == timers_after_load(
                old(self).timers_view(),
                timer_delta(*old(tk), (offset >> 4u32) as int),
                offset,
            ),
            final(tk).wf(),
            final(tk).date() == old(tk).date(),
            final(tk).next_sync_date() == old(tk).next_sync_date(),
            final(tk).sheets() == timer_synced_sheets(*old(tk), (offset >> 4u32) as int),
    {
        let instance = (offset >> 4) as usize;
        let mut timer = self.timers[instance];
        assert(self.timers_view()[instance as int].wf());
        assert(timer == self.timers_view()[instance as int]);
        assert(timer.wf() && timer.instance_id() == timer_peripheral(instance as int));
        timer.sync(tk);
        let reg = offset & 0xf;
        let val = if reg == 0 {
            timer.counter()
        } else if reg == 4 {
            timer.mode()
        } else {
            timer.target()
        };
        self.timers.set(instance, timer);
        proof {
            assert forall|j: int| 0 <= j < 3 implies #[trigger] self.timers_view()[j].wf()
                && self.timers_view()[j].instance_id() == timer_peripheral(j) by {
                if j != instance {
                    assert(self.timers_view()[j] == old(self).timers_view()[j]);
                    assert(old(self).timers_view()[j].wf());
                } else {
                    assert(self.timers_view()[j] == timer);
                }
            }
        }
        val as u32
    }

    /// Called by the GPU when the video timings change since it can
    /// affect the timers that use them. Only free running timers are
    /// supported.
    pub fn video_timings_changed(&mut self, tk: &mut TimeKeeper, gpu: &GpuClocks)
        requires
            old(self).wf(),
            old(tk).wf(),
            old(tk).date() <= MAX_DATE,
            gpu_clocks_wf(*gpu),
            forall|i: int| 0 <= i < 3 ==> #[trigger] old(self).timers_view()[i].free_running(),
        ensures
            final(self).wf(),
            forall|i: int|
                0 <= i < 3 ==> #[trigger] final(self).timers_view()[i] == if clock_needs_gpu(
                    old(self).timers_view()[i].clock(),
                ) {
                    old(self).timers_view()[i].synced(timer_delta(*old(tk), i)).reconfigured(*gpu)
                } else {
                    old(self).timers_view()[i]
                },
            final(tk).wf(),
            final(tk).date() == old(tk).date(),
            final(tk).next_sync_date() == old(tk).next_sync_date(),
            forall|i: int|
                0 <= i < 3 && !clock_needs_gpu(old(self).timers_view()[i].clock()) ==> #[trigger]
                    final(tk).sheet(timer_peripheral(i)) == old(tk).sheet(timer_peripheral(i)),
            forall|i: int|
                0 <= i < 3 && clock_needs_gpu(old(self).timers_view()[i].clock()) ==> #[trigger]
                    final(tk).sheet(timer_peripheral(i)).last_sync == old(tk).date(),
            forall|i: int|
                0 <= i < NUM_PERIPHERALS && i != 1 && i != 2 && i != 3 ==> #[trigger]
                    final(tk).sheets()[i] == old(tk).sheets()[i],
    {
        let mut i: usize = 0;
        while i < 3
            invariant
                i <= 3,
                self.wf(),
                tk.wf(),
                tk.date() == old(tk).date(),
                tk.date() <= MAX_DATE,
                tk.next_sync_date() == old(tk).next_sync_date(),
                gpu_clocks_wf(*gpu),
                forall|j: int|
                    i <= j < 3 ==> #[trigger] self.timers_view()[j] == old(self).timers_view()[j],
                forall|j: int|
                    i <= j < 3 ==> #[trigger] tk.sheet(timer_peripheral(j)) == old(tk).sheet(
                        timer_peripheral(j),
                    ),
                forall|j: int| 0 <= j < 3 ==> #[trigger] old(self).timers_view()[j].free_running(),
                forall|j: int|
                    0 <= j < i ==> #[trigger] self.timers_view()[j] == if clock_needs_gpu(
                        old(self).timers_view()[j].clock(),
                    ) {
                        old(self).timers_view()[j].synced(timer_delta(*old(tk), j)).reconfigured(
                            *gpu,
                        )
                    } else {
                        old(self).timers_view()[j]
                    },
                forall|j: int|
                    0 <= j < i && !clock_needs_gpu(old(self).timers_view()[j].clock()) ==> #[trigger]
                        tk.sheet(timer_peripheral(j)) == old(tk).sheet(timer_peripheral(j)),
                forall|j: int|
                    0 <= j < i && clock_needs_gpu(old(self).timers_view()[j].clock()) ==> #[trigger]
                        tk.sheet(timer_peripheral(j)).last_sync == old(tk).date(),
                forall|j: int|
                    0 <= j < NUM_PERIPHERALS && j != 1 && j != 2 && j != 3 ==> #[trigger]
                        tk.sheets()[j] == old(tk).sheets()[j],
            decreases 3 - i,
        {
            assert(self.wf());
            assert(self.timers_view()[i as int].wf());
            let mut t = self.timers[i];
            assert(t.wf() && t.instance_id() == timer_peripheral(i as int));
            assert(t == old(self).timers_view()[i as int]);
            let ghost tk_before = *tk;
            let ghost timers_before = self.timers_view();
            assert(self.timers_view()[0].wf() && self.timers_view()[0].instance_id()
                == timer_peripheral(0));
            assert(self.timers_view()[1].wf() && self.timers_view()[1].instance_id()
                == timer_peripheral(1));
            assert(self.timers_view()[2].wf() && self.timers_view()[2].instance_id()
                == timer_peripheral(2));
            if t.needs_gpu() {
                t.sync(tk);
                t.reconfigure(gpu);
                self.timers.set(i, t);
            }
            proof {
                assert forall|j: int| 0 <= j < NUM_PERIPHERALS && j != peripheral_index(timer_peripheral(i as int))
                    implies #[trigger] tk.sheets()[j] == tk_before.sheets()[j] by {}
                assert forall|j: int| 0 <= j < 3 && j != i implies #[trigger] tk.sheet(
                    timer_peripheral(j),
                ) == tk_before.sheet(timer_peripheral(j)) by {
                    assert(peripheral_index(timer_peripheral(j)) != peripheral_index(
                        timer_peripheral(i as int),
                    ));
                }
            }
            proof {
                assert forall|j: int| 0 <= j < 3 implies #[trigger] self.timers_view()[j].wf()
                    && self.timers_view()[j].instance_id() == timer_peripheral(j) by {
                    if j != i {
                        assert(self.timers_view()[j] == timers_before[j]);
                    } else {
                        assert(self.timers_view()[j] == t || self.timers_view()[j] == old(self).timers_view()[j]);
                    }
                }
            }
            i += 1;
        }
    }
}

/// Timer freshly reset: counter, target and mode cleared, counting
/// the system clock
pub open spec fn zeroed(t: Timer) -> bool {
    &&& t.counter_value() == 0
    &&& t.target_value() == 0
    &&& t.mode_reg() == 0
    &&& t.timing() == (0x10000u64, 0u64)
}

/// Bit-level facts behind the packing of the timer registers
proof fn lemma_timer_bits(val: u16, t: u16, o: u16, f: u16, delta: u64)
    by (bit_vector)
    ensures
        1u64 << 16u64 == 0x10000,
        0u64 << 16u64 == 0,
        8u64 << 16u64 == 0x80000,
        0u16 | (0u16 << 1u16) | (0u16 << 3u16) | (0u16 << 5u16) | (0u16 << 6u16) | (0u16 << 7u16)
            | (0u16 << 8u16) | (0u16 << 10u16) | (0u16 << 11u16) | (0u16 << 12u16) == 0u16,
        delta <= 0x7fff_ffff_ffffu64 ==> delta << 16u64 <= 0x7fff_ffff_ffff_0000u64,
        0u16 | f == f,
        ((val >> 1u16) & 3) < 4,
        ((val >> 8u16) & 3) < 4,
        ((val >> 3u16) & 1) <= 1,
        ((val >> 5u16) & 1) <= 1,
        ((val >> 6u16) & 1) <= 1,
        ((val >> 7u16) & 1) <= 1,
        (t <= 1 && o <= 1) ==> 1u16 | (((val >> 1u16) & 3) << 1u16) | (((val >> 3u16) & 1)
            << 3u16) | (((val >> 5u16) & 1) << 5u16) | (((val >> 6u16) & 1) << 6u16) | (((val
            >> 7u16) & 1) << 7u16) | (((val >> 8u16) & 3) << 8u16) | (0u16 << 10u16) | (t
            << 11u16) | (o << 12u16) == (val & 0x3ee) | (t << 11u16) | (o << 12u16) | 1,
{
}

/// Clock selected by writing `val` to a timer's mode register (clock
/// source in bits [9:8]): timer 0 counts GPU dot clocks when bit 8 is
/// set, timer 1 counts GPU horizontal syncs when bit 8 is set, both
/// count CPU cycles otherwise; timer 2 counts CPU cycles for sources 0
/// and 1 and CPU cycles divided by 8 for sources 2 and 3. Only timer 0
/// ever uses the dot clock and only timer 1 the horizontal sync.
pub proof fn lemma_mode_selects_clock(t: Timer, val: u16)
    requires
        t.instance_id() == Peripheral::Timer0 || t.instance_id() == Peripheral::Timer1
            || t.instance_id() == Peripheral::Timer2,
    ensures
        t.instance_id() == Peripheral::Timer0 ==> (t.mode_written(val).clock() == Clock::GpuDotClock
            <==> val & 0x100 != 0) && (t.mode_written(val).clock() == Clock::SysClock <==> val & 0x100
            == 0),
        t.instance_id() == Peripheral::Timer1 ==> (t.mode_written(val).clock() == Clock::GpuHSync
            <==> val & 0x100 != 0) && (t.mode_written(val).clock() == Clock::SysClock <==> val & 0x100
            == 0),
        t.instance_id() == Peripheral::Timer2 ==> (t.mode_written(val).clock() == Clock::SysClockDiv8
            <==> val & 0x200 != 0) && (t.mode_written(val).clock() == Clock::SysClock <==> val & 0x200
            == 0),
        t.mode_written(val).clock() == Clock::GpuDotClock ==> t.instance_id() == Peripheral::Timer0,
        t.mode_written(val).clock() == Clock::GpuHSync ==> t.instance_id() == Peripheral::Timer1,
{
    lemma_clock_source_bits(val);
}

/// Bit-level facts about the clock source field of the mode register
proof fn lemma_clock_source_bits(val: u16)
    by (bit_vector)
    ensures
        ((((val >> 8u16) & 3) as u8) & 1 == 0) == (val & 0x100 == 0),
        ((((val >> 8u16) & 3) as u8) < 2) == (val & 0x200 == 0),
{
}

} // verus!
