//! The `Output` device interface (the display).
use super::{same_except, DevicePart, DeviceState};
use vstd::prelude::*;

verus! {

/// The display.
/// Each call touches only the display.
pub trait Output: DeviceState {
    fn write_data(&mut self, c: u8) -> (r: Result<(), OutputError>)
        ensures
            same_except(*old(self), *final(self), DevicePart::Output),
    ;

    /// High when the display can take more data; set low by `write_data`.
    fn current_data_written(&self) -> bool;

    fn interrupt_occurred(&mut self) -> (r: bool)
        ensures
            r == old(self).output_pending(),
            same_except(*old(self), *final(self), DevicePart::Output),
    ;

    /// Lowers the flag; the interrupt enable stays.
    fn reset_interrupt_flag(&mut self)
        ensures
            !final(self).output_flag(),
            final(self).output_irq() == old(self).output_irq(),
            same_except(*old(self), *final(self), DevicePart::Output),
    ;

    fn set_interrupt_enable_bit(&mut self, bit: bool)
        ensures
            final(self).output_irq() == bit,
            same_except(*old(self), *final(self), DevicePart::Output),
    ;

    fn interrupts_enabled(&self) -> (r: bool)
        ensures
            r == self.output_irq(),
    ;
}

#[derive(Debug, Clone, Copy, PartialEq, Eq, Structural)]
pub enum OutputError {
    NonUnicodeCharacter(u8),
    IoError,
    NotReady,
}

} // verus!
