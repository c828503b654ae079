//! The `Pwm` device interface and its types.
use super::{same_except, DevicePart, DeviceState};
use vstd::prelude::*;
use vstd::std_specs::convert::FromSpecImpl;

verus! {

#[derive(Debug, Clone, Copy, PartialEq, Eq, Structural)]
pub enum PwmPin {
    P0,
    P1,
}

impl PwmPin {
    pub const NUM_PINS: usize = 2;

    /// Position of the pin in a `PwmPinArr`.
    pub open spec fn index(self) -> int {
        match self {
            PwmPin::P0 => 0,
            PwmPin::P1 => 1,
        }
    }

    pub fn to_index(self) -> (r: usize)
        ensures
            r == self.index(),
    {
        match self {
            PwmPin::P0 => 0,
            PwmPin::P1 => 1,
        }
    }
}

/// A pin is either off or runs with a non-zero period.
/// The position of a pin, as a number.
impl From<PwmPin> for usize {
    fn from(pin: PwmPin) -> (r: usize) {
        pin.to_index()
    }
}

impl FromSpecImpl<PwmPin> for usize {
    open spec fn obeys_from_spec() -> bool {
        true
    }

    open spec fn from_spec(pin: PwmPin) -> usize {
        pin.index() as usize
    }
}

#[derive(Debug, Clone, Copy, PartialEq, Eq, Structural)]
pub enum PwmState {
    Enabled(u8),
    Disabled,
}

/// One value per PWM pin, in pin order.
#[derive(Debug, Clone, Copy, PartialEq, Eq)]
pub struct PwmPinArr<T>(pub [T; 2]);

pub type PwmDutyCycle = u8;

/// The pulse width modulation unit.
/// Each call touches only the pin it names. What a duty cycle does to the
/// pin's state is the implementation's own (see `duty_cycle_state`).
pub trait Pwm: DeviceState {
    /// Sets the state; the duty cycle last given stays on record.
    fn set_state(&mut self, pin: PwmPin, state: PwmState)
        ensures
            final(self).pwm_state(pin) == state,
            final(self).pwm_duty(pin) == old(self).pwm_duty(pin),
            same_except(*old(self), *final(self), DevicePart::PwmPin(pin)),
    ;

    fn get_state(&self, pin: PwmPin) -> (r: PwmState)
        ensures
            r == self.pwm_state(pin),
    ;

    /// The states of both pins, in pin order.
    fn get_states(&self) -> PwmPinArr<PwmState> {
        PwmPinArr([self.get_state(PwmPin::P0), self.get_state(PwmPin::P1)])
    }

    fn set_duty_cycle(&mut self, pin: PwmPin, duty_cycle: PwmDutyCycle)
        ensures
            final(self).pwm_duty(pin) == duty_cycle,
            final(self).pwm_state(pin) == old(self).duty_cycle_state(pin, duty_cycle),
            same_except(*old(self), *final(self), DevicePart::PwmPin(pin)),
    ;

    fn get_duty_cycle(&self, pin: PwmPin) -> PwmDutyCycle;

    /// The duty cycles of both pins, in pin order.
    fn get_duty_cycles(&self) -> PwmPinArr<PwmDutyCycle> {
        PwmPinArr([self.get_duty_cycle(PwmPin::P0), self.get_duty_cycle(PwmPin::P1)])
    }
}

} // verus!
