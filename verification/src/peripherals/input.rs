//! The `Input` device interface (the keyboard).
use super::{same_except, DevicePart, DeviceState};
use vstd::prelude::*;

verus! {

/// The keyboard: a one character buffer.
/// Each call touches only the keyboard.
pub trait Input: DeviceState {
    /// Reads the current character and marks it as read.
    fn read_data(&mut self) -> (r: Result<u8, InputError>)
        ensures
            same_except(*old(self), *final(self), DevicePart::Input),
    ;

    /// Whether a character is waiting that has not been read yet; asking
    /// leaves the interrupt enable alone.
    fn current_data_unread(&mut self) -> (r: bool)
        ensures
            final(self).input_irq() == old(self).input_irq(),
            same_except(*old(self), *final(self), DevicePart::Input),
    ;

    fn interrupt_occurred(&mut self) -> (r: bool)
        ensures
            r == old(self).input_pending(),
            same_except(*old(self), *final(self), DevicePart::Input),
    ;

    /// Lowers the flag; the interrupt enable stays.
    fn reset_interrupt_flag(&mut self)
        ensures
            !final(self).input_flag(),
            final(self).input_irq() == old(self).input_irq(),
            same_except(*old(self), *final(self), DevicePart::Input),
    ;

    fn set_interrupt_enable_bit(&mut self, bit: bool)
        ensures
            final(self).input_irq() == bit,
            same_except(*old(self), *final(self), DevicePart::Input),
    ;

    fn interrupts_enabled(&self) -> (r: bool)
        ensures
            r == self.input_irq(),
    ;
}

#[derive(Debug, Clone, Copy, PartialEq, Eq, Structural)]
pub enum InputError {
    NonUnicodeCharacter(u8),
    IoError,
    NoDataAvailable,
}

} // verus!
