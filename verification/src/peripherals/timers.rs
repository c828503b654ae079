//! The `Timers` device interface and its types.
use crate::isa::Word;
use super::{same_except, DevicePart, DeviceState};
use vstd::prelude::*;

verus! {

#[derive(Debug, Clone, Copy, PartialEq, Eq, Structural)]
pub enum TimerId {
    T0,
    T1,
}

impl TimerId {
    pub const NUM_TIMERS: usize = 2;
}

#[derive(Debug, Clone, Copy, PartialEq, Eq, Structural)]
pub enum TimerMode {
    SingleShot,
    Repeated,
}

/// A timer is either off or counts down a non-zero period (in milliseconds).
#[derive(Debug, Clone, Copy, PartialEq, Eq, Structural)]
pub enum TimerState {
    Disabled,
    WithPeriod(Word),
}

/// The two timers.
/// Each call touches only the timer it names. What `get_mode` reports is the
/// implementation's own.
pub trait Timers: DeviceState {
    fn set_mode(&mut self, timer: TimerId, mode: TimerMode)
        ensures
            final(self).timer_mode(timer) == mode,
            final(self).timer_state(timer) == old(self).timer_state(timer),
            same_except(*old(self), *final(self), DevicePart::Timer(timer)),
    ;

    fn get_mode(&self, timer: TimerId) -> TimerMode;

    fn set_state(&mut self, timer: TimerId, state: TimerState)
        ensures
            final(self).timer_state(timer) == state,
            final(self).timer_mode(timer) == old(self).timer_mode(timer),
            same_except(*old(self), *final(self), DevicePart::Timer(timer)),
    ;

    fn get_state(&self, timer: TimerId) -> (r: TimerState)
        ensures
            r == self.timer_state(timer),
    ;

    fn interrupt_occurred(&mut self, timer: TimerId) -> (r: bool)
        ensures
            r == old(self).timer_pending(timer),
            same_except(*old(self), *final(self), DevicePart::Timer(timer)),
    ;

    /// Lowers the timer's flag; its mode and state stay.
    fn reset_interrupt_flag(&mut self, timer: TimerId)
        ensures
            !final(self).timer_flag(timer),
            final(self).timer_mode(timer) == old(self).timer_mode(timer),
            final(self).timer_irq(timer) == old(self).timer_irq(timer),
            final(self).timer_state(timer) == old(self).timer_state(timer),
            same_except(*old(self), *final(self), DevicePart::Timer(timer)),
    ;

    /// Asking does not change whether the timer reports an interrupt.
    fn interrupts_enabled(&mut self, timer: TimerId) -> (r: bool)
        ensures
            r == old(self).timer_irq(timer),
            final(self).timer_pending(timer) == old(self).timer_pending(timer),
            final(self).timer_irq(timer) == old(self).timer_irq(timer),
            final(self).timer_flag(timer) == old(self).timer_flag(timer),
            same_except(*old(self), *final(self), DevicePart::Timer(timer)),
    ;
}

} // verus!
