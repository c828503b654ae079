//! The `Clock` device interface.
use crate::isa::Word;
use super::{same_except, DevicePart, DeviceState};
use vstd::prelude::*;

verus! {

/// A millisecond counter that wraps at 2^16.
pub trait Clock: DeviceState {
    fn get_milliseconds(&self) -> (r: Word)
        ensures
            r == self.clock_ms(),
    ;

    fn set_milliseconds(&mut self, ms: Word)
        ensures
            final(self).clock_ms() == ms,
            same_except(*old(self), *final(self), DevicePart::Clock),
    ;
}

} // verus!
