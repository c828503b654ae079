//! The `Gpio` device interface and its types.
use super::{same_except, DevicePart, DeviceState};
use vstd::prelude::*;

verus! {

#[derive(Debug, Clone, Copy, PartialEq, Eq, Structural)]
pub enum GpioPin {
    G0,
    G1,
    G2,
    G3,
    G4,
    G5,
    G6,
    G7,
}

impl GpioPin {
    pub const NUM_PINS: usize = 8;
}

#[derive(Debug, Clone, Copy, PartialEq, Eq, Structural)]
pub enum GpioBank {
    A,
    B,
    C,
}

#[derive(Debug, Clone, Copy, PartialEq, Eq, Structural)]
pub enum GpioState {
    Disabled,
    Output,
    Input,
    Interrupt,
}

/// A read of a pin that is not in a readable state (the pin and its state).
#[derive(Debug, Clone, Copy, PartialEq, Eq, Structural)]
pub struct GpioReadError(pub GpioPin, pub GpioState);

/// A write to a pin that is not in a writable state (the pin and its state).
#[derive(Debug, Clone, Copy, PartialEq, Eq, Structural)]
pub struct GpioWriteError(pub GpioPin, pub GpioState);

#[derive(Debug, Clone, Copy, PartialEq, Eq, Structural)]
pub struct GpioMiscError;

/// One bank of eight general purpose I/O pins.
/// Each call touches only the pin it names.
pub trait Gpio: DeviceState {
    /// A failed change leaves the pin in its state.
    fn set_state(&mut self, pin: GpioPin, state: GpioState) -> (r: Result<(), GpioMiscError>)
        ensures
            r is Ok ==> final(self).gpio_state(pin) == state,
            r is Err ==> final(self).gpio_state(pin) == old(self).gpio_state(pin),
            same_except(*old(self), *final(self), DevicePart::GpioPin(pin)),
    ;

    fn get_state(&self, pin: GpioPin) -> (r: GpioState)
        ensures
            r == self.gpio_state(pin),
    ;

    fn read(&mut self, pin: GpioPin) -> (r: Result<bool, GpioReadError>)
        ensures
            same_except(*old(self), *final(self), DevicePart::GpioPin(pin)),
    ;

    /// Drives the pin to `bit`; the level written goes on record whether or
    /// not the pin takes it.
    fn write(&mut self, pin: GpioPin, bit: bool) -> (r: Result<(), GpioWriteError>)
        ensures
            final(self).gpio_level(pin) == bit,
            same_except(*old(self), *final(self), DevicePart::GpioPin(pin)),
    ;

    fn interrupt_occurred(&mut self, pin: GpioPin) -> (r: bool)
        ensures
            r == old(self).gpio_pending(pin),
            same_except(*old(self), *final(self), DevicePart::GpioPin(pin)),
    ;

    fn interrupts_enabled(&self, pin: GpioPin) -> (r: bool)
        ensures
            r == self.gpio_irq(pin),
    ;

    /// Lowers the pin's flag; its state and interrupt enable stay.
    fn reset_interrupt_flag(&mut self, pin: GpioPin)
        ensures
            !final(self).gpio_flag(pin),
            final(self).gpio_state(pin) == old(self).gpio_state(pin),
            final(self).gpio_irq(pin) == old(self).gpio_irq(pin),
            same_except(*old(self), *final(self), DevicePart::GpioPin(pin)),
    ;
}

} // verus!
