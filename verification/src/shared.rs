//! State shared between various modules

use vstd::prelude::*;

use crate::timekeeper::TimeKeeper;
use crate::memory::interrupts::InterruptState;

verus! {

/// State shared between various modules
pub struct SharedState {
    tk: TimeKeeper,
    irq_state: InterruptState,
    counters: Counters,
}

impl SharedState {
    /// Time keeper
    pub closed spec fn time(&self) -> TimeKeeper {
        self.tk
    }

    /// Interrupt controller state
    pub closed spec fn irq(&self) -> InterruptState {
        self.irq_state
    }

    /// Debugging and profiling counters
    pub closed spec fn counter_values(&self) -> Counters {
        self.counters
    }

    pub fn new() -> (s: SharedState)
        ensures
            s.time().wf(),
            s.time().date() == 0,
            s.irq().status_bits() == 0,
            s.irq().mask_bits() == 0,
            s.counter_values().frame.value() == 0,
            s.counter_values().framebuffer_swap.value() == 0,
            s.counter_values().cpu_interrupt.value() == 0,
    {
        SharedState { tk: TimeKeeper::new(), irq_state: InterruptState::new(), counters: Counters::new() }
    }

    /// Time keeper, read only
    pub fn time_keeper(&self) -> (r: &TimeKeeper)
        ensures
            *r == self.time(),
    {
        &self.tk
    }

    pub fn tk(&mut self) -> (r: &mut TimeKeeper)
        ensures
            *r == old(self).time(),
            final(self).time() == *final(r),
            final(self).irq() == old(self).irq(),
            final(self).counter_values() == old(self).counter_values(),
    {
        &mut self.tk
    }

    pub fn irq_state(&self) -> (r: &InterruptState)
        ensures
            *r == self.irq(),
    {
        &self.irq_state
    }

    pub fn irq_state_mut(&mut self) -> (r: &mut InterruptState)
        ensures
            *r == old(self).irq(),
            final(self).irq() == *final(r),
            final(self).time() == old(self).time(),
            final(self).counter_values() == old(self).counter_values(),
    {
        &mut self.irq_state
    }

    pub fn counters(&self) -> (r: &Counters)
        ensures
            *r == self.counter_values(),
    {
        &self.counters
    }

    pub fn counters_mut(&mut self) -> (r: &mut Counters)
        ensures
            *r == old(self).counter_values(),
            final(self).counter_values() == *final(r),
            final(self).time() == old(self).time(),
            final(self).irq() == old(self).irq(),
    {
        &mut self.counters
    }
}

/// Struct holding various counters for debugging and profiling
pub struct Counters {
    /// Increments at each frame drawn to the display. It will wrap in
    /// a little more than 2 years at 60Hz.
    pub frame: Counter,
    /// Increments when the game sets the display area coordinates, it
    /// usually means that the game wants to display a new frame and
    /// can be used to compute the internal FPS.
    pub framebuffer_swap: Counter,
    /// Incremented when the CPU is preempted by an external
    /// interrupt.
    pub cpu_interrupt: Counter,
}

impl Counters {
    pub fn new() -> (c: Counters)
        ensures
            c.frame.value() == 0,
            c.framebuffer_swap.value() == 0,
            c.cpu_interrupt.value() == 0,
    {
        Counters { frame: Counter(0), framebuffer_swap: Counter(0), cpu_interrupt: Counter(0) }
    }
}

/// Simple wrapper around a `u32` to implement a counter interface
#[derive(Copy, Clone)]
pub struct Counter(u32);

impl Counter {
    /// Current value of the counter
    pub closed spec fn value(&self) -> u32 {
        self.0
    }

    pub fn reset(&mut self)
        ensures
            final(self).value() == 0,
    {
        self.0 = 0
    }

    /// Increment the counter, wrapping around to 0 after `u32::MAX`
    pub fn increment(&mut self)
        ensures
            final(self).value() == if old(self).value() == u32::MAX {
                0
            } else {
                (old(self).value() + 1) as u32
            },
    {
        self.0 = self.0.wrapping_add(1)
    }

    pub fn get(&self) -> (v: u32)
        ensures
            v == self.value(),
    {
        self.0
    }
}

} // verus!
