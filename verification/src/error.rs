//! The errors that peripherals and the interpreter report through the control
//! interface, and how an interpreter may choose to surface them.
use crate::isa::Word;
use crate::peripherals::adc::{AdcMiscError, AdcReadError, AdcReadErrors};
use crate::peripherals::gpio::{GpioBank, GpioMiscError, GpioPin, GpioReadError, GpioWriteError};
use crate::peripherals::input::InputError;
use crate::peripherals::output::OutputError;
use vstd::prelude::*;
use vstd::std_specs::convert::FromSpecImpl;

verus! {

/// The optional peripherals.
#[derive(Debug, Clone, Copy, PartialEq, Eq, Structural)]
pub enum OptionalPeripherals {
    GpioBankB,
    GpioBankC,
}

#[derive(Debug, Clone, Copy, PartialEq, Eq)]
pub enum Error {
    InvalidGpioWrite(GpioWriteError, GpioBank, GpioPin),
    InvalidGpioRead(GpioReadError, GpioBank, GpioPin),
    GpioMiscError(GpioMiscError),
    InvalidAdcRead(AdcReadError),
    InvalidAdcReads(AdcReadErrors),
    AdcMiscError(AdcMiscError),
    InputError(InputError),
    OutputError(OutputError),
    OptionalPeripheralIsNotPresent(OptionalPeripherals),
    SystemStackOverflow,
}

impl From<(GpioWriteError, GpioBank, GpioPin)> for Error {
    fn from(e: (GpioWriteError, GpioBank, GpioPin)) -> (r: Error) {
        Error::InvalidGpioWrite(e.0, e.1, e.2)
    }
}

impl FromSpecImpl<(GpioWriteError, GpioBank, GpioPin)> for Error {
    open spec fn obeys_from_spec() -> bool {
        true
    }

    open spec fn from_spec(e: (GpioWriteError, GpioBank, GpioPin)) -> Error {
        Error::InvalidGpioWrite(e.0, e.1, e.2)
    }
}

impl From<(GpioReadError, GpioBank, GpioPin)> for Error {
    fn from(e: (GpioReadError, GpioBank, GpioPin)) -> (r: Error) {
        Error::InvalidGpioRead(e.0, e.1, e.2)
    }
}

impl FromSpecImpl<(GpioReadError, GpioBank, GpioPin)> for Error {
    open spec fn obeys_from_spec() -> bool {
        true
    }

    open spec fn from_spec(e: (GpioReadError, GpioBank, GpioPin)) -> Error {
        Error::InvalidGpioRead(e.0, e.1, e.2)
    }
}

impl From<GpioMiscError> for Error {
    fn from(e: GpioMiscError) -> (r: Error) {
        Error::GpioMiscError(e)
    }
}

impl FromSpecImpl<GpioMiscError> for Error {
    open spec fn obeys_from_spec() -> bool {
        true
    }

    open spec fn from_spec(e: GpioMiscError) -> Error {
        Error::GpioMiscError(e)
    }
}

impl From<AdcReadError> for Error {
    fn from(e: AdcReadError) -> (r: Error) {
        Error::InvalidAdcRead(e)
    }
}

impl FromSpecImpl<AdcReadError> for Error {
    open spec fn obeys_from_spec() -> bool {
        true
    }

    open spec fn from_spec(e: AdcReadError) -> Error {
        Error::InvalidAdcRead(e)
    }
}

impl From<AdcReadErrors> for Error {
    fn from(e: AdcReadErrors) -> (r: Error) {
        Error::InvalidAdcReads(e)
    }
}

impl FromSpecImpl<AdcReadErrors> for Error {
    open spec fn obeys_from_spec() -> bool {
        true
    }

    open spec fn from_spec(e: AdcReadErrors) -> Error {
        Error::InvalidAdcReads(e)
    }
}

impl From<AdcMiscError> for Error {
    fn from(e: AdcMiscError) -> (r: Error) {
        Error::AdcMiscError(e)
    }
}

impl FromSpecImpl<AdcMiscError> for Error {
    open spec fn obeys_from_spec() -> bool {
        true
    }

    open spec fn from_spec(e: AdcMiscError) -> Error {
        Error::AdcMiscError(e)
    }
}

impl From<InputError> for Error {
    fn from(e: InputError) -> (r: Error) {
        Error::InputError(e)
    }
}

impl FromSpecImpl<InputError> for Error {
    open spec fn obeys_from_spec() -> bool {
        true
    }

    open spec fn from_spec(e: InputError) -> Error {
        Error::InputError(e)
    }
}

impl From<OutputError> for Error {
    fn from(e: OutputError) -> (r: Error) {
        Error::OutputError(e)
    }
}

impl FromSpecImpl<OutputError> for Error {
    open spec fn obeys_from_spec() -> bool {
        true
    }

    open spec fn from_spec(e: OutputError) -> Error {
        Error::OutputError(e)
    }
}

/// What an interpreter does about an error.
#[derive(Debug, Clone, Copy, PartialEq, Eq, Structural)]
pub enum ErrorHandlingStrategy {
    DefaultValue(Word),
    Warn,
    FireException { interrupt_vector_table_number: u8, payload: Option<Word> },
}

impl ErrorHandlingStrategy {
    /// The strategy for an error; failed reads fall back to 0, the rest warn.
    /// No strategy is defined for a batch of failed ADC reads.
    pub fn from(err: Error) -> (r: ErrorHandlingStrategy)
        requires
            !(err is InvalidAdcReads),
        ensures
            r == (match err {
                Error::InvalidGpioRead(..) | Error::InvalidAdcRead(_) => ErrorHandlingStrategy::DefaultValue(0),
                _ => ErrorHandlingStrategy::Warn,
            }),
    {
        match err {
            Error::InvalidGpioWrite(..) => ErrorHandlingStrategy::Warn,
            Error::InvalidGpioRead(..) => ErrorHandlingStrategy::DefaultValue(0u16),
            Error::GpioMiscError(_) => ErrorHandlingStrategy::Warn,
            Error::InvalidAdcRead(_) => ErrorHandlingStrategy::DefaultValue(0u16),
            Error::AdcMiscError(_) => ErrorHandlingStrategy::Warn,
            Error::InputError(_) => ErrorHandlingStrategy::Warn,
            Error::OutputError(_) => ErrorHandlingStrategy::Warn,
            Error::OptionalPeripheralIsNotPresent(_) => ErrorHandlingStrategy::Warn,
            Error::SystemStackOverflow => ErrorHandlingStrategy::Warn,
            Error::InvalidAdcReads(_) => ErrorHandlingStrategy::Warn,
        }
    }
}

} // verus!
