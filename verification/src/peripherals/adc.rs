//! The `Adc` device interface and its types.
use super::{same_except, DevicePart, DeviceState};
use vstd::prelude::*;
use vstd::std_specs::convert::FromSpecImpl;

verus! {

#[derive(Debug, Clone, Copy, PartialEq, Eq, Structural)]
pub enum AdcPin {
    A0,
    A1,
    A2,
    A3,
    A4,
    A5,
}

impl AdcPin {
    pub const NUM_PINS: usize = 6;

    /// Position of the pin in an `AdcPinArr`.
    pub open spec fn index(self) -> int {
        match self {
            AdcPin::A0 => 0,
            AdcPin::A1 => 1,
            AdcPin::A2 => 2,
            AdcPin::A3 => 3,
            AdcPin::A4 => 4,
            AdcPin::A5 => 5,
        }
    }

    pub fn to_index(self) -> (r: usize)
        ensures
            r == self.index(),
    {
        match self {
            AdcPin::A0 => 0,
            AdcPin::A1 => 1,
            AdcPin::A2 => 2,
            AdcPin::A3 => 3,
            AdcPin::A4 => 4,
            AdcPin::A5 => 5,
        }
    }
}

/// The position of a pin, as a number.
impl From<AdcPin> for usize {
    fn from(pin: AdcPin) -> (r: usize) {
        pin.to_index()
    }
}

impl FromSpecImpl<AdcPin> for usize {
    open spec fn obeys_from_spec() -> bool {
        true
    }

    open spec fn from_spec(pin: AdcPin) -> usize {
        pin.index() as usize
    }
}

#[derive(Debug, Clone, Copy, PartialEq, Eq, Structural)]
pub enum AdcState {
    Enabled,
    Disabled,
}

/// One value per ADC pin, in pin order.
#[derive(Debug, Clone, Copy, PartialEq, Eq)]
pub struct AdcPinArr<T>(pub [T; 6]);

#[derive(Debug, Clone, Copy, PartialEq, Eq, Structural)]
pub struct AdcMiscError;

/// A read of a pin that is not enabled: the pin and its state.
#[derive(Debug, Clone, Copy, PartialEq, Eq, Structural)]
pub struct AdcReadError(pub AdcPin, pub AdcState);

/// For each pin, the state mismatch that made its read fail, if any.
#[derive(Debug, Clone, Copy, PartialEq, Eq)]
pub struct AdcReadErrors(pub AdcPinArr<Option<(AdcPin, AdcState)>>);

impl AdcReadErrors {
    /// Collects the failures out of a full set of readings; never fails.
    pub fn try_from(read_errors: AdcPinArr<Result<u8, AdcReadError>>) -> (r: Result<AdcReadErrors, ()>)
        ensures
            r is Ok,
            forall|i: int|
                0 <= i < 6 ==> #[trigger] r.unwrap().0.0@[i] == match read_errors.0@[i] {
                    Ok(_) => None,
                    Err(e) => Some((e.0, e.1)),
                },
    {
        let mut errors: [Option<(AdcPin, AdcState)>; 6] = [None, None, None, None, None, None];
        let mut idx: usize = 0;
        while idx < 6
            invariant
                0 <= idx <= 6,
                forall|i: int|
                    0 <= i < idx ==> #[trigger] errors@[i] == match read_errors.0@[i] {
                        Ok(_) => None,
                        Err(e) => Some((e.0, e.1)),
                    },
            decreases 6 - idx,
        {
            let res = read_errors.0[idx];
            match res {
                Ok(_) => {
                    errors.set(idx, None);
                },
                Err(e) => {
                    errors.set(idx, Some((e.0, e.1)));
                },
            }
            idx = idx + 1;
        }
        Ok(AdcReadErrors(AdcPinArr(errors)))
    }
}

/// The analog to digital converter (readings are 8 bits wide).
/// Each call touches only the pin it names.
pub trait Adc: DeviceState {
    /// A failed change leaves the pin in its state.
    fn set_state(&mut self, pin: AdcPin, state: AdcState) -> (r: Result<(), AdcMiscError>)
        ensures
            r is Ok ==> final(self).adc_state(pin) == state,
            r is Err ==> final(self).adc_state(pin) == old(self).adc_state(pin),
            same_except(*old(self), *final(self), DevicePart::AdcPin(pin)),
    ;

    fn get_state(&self, pin: AdcPin) -> (r: AdcState)
        ensures
            r == self.adc_state(pin),
    ;

    /// The states of all the pins, in pin order.
    fn get_states(&self) -> AdcPinArr<AdcState> {
        AdcPinArr(
            [
                self.get_state(AdcPin::A0),
                self.get_state(AdcPin::A1),
                self.get_state(AdcPin::A2),
                self.get_state(AdcPin::A3),
                self.get_state(AdcPin::A4),
                self.get_state(AdcPin::A5),
            ],
        )
    }

    fn read(&mut self, pin: AdcPin) -> (r: Result<u8, AdcReadError>)
        ensures
            final(self).adc_state(pin) == old(self).adc_state(pin),
            same_except(*old(self), *final(self), DevicePart::AdcPin(pin)),
    ;

    /// A reading of every pin, in pin order.
    fn read_all(&mut self) -> AdcPinArr<Result<u8, AdcReadError>> {
        let r0 = self.read(AdcPin::A0);
        let r1 = self.read(AdcPin::A1);
        let r2 = self.read(AdcPin::A2);
        let r3 = self.read(AdcPin::A3);
        let r4 = self.read(AdcPin::A4);
        let r5 = self.read(AdcPin::A5);
        AdcPinArr([r0, r1, r2, r3, r4, r5])
    }
}

} // verus!
