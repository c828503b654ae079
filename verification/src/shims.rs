//! A keyboard built on a character source: the `Input` device that a host
//! simulator hands to the interpreter.
use crate::isa::Word;
use crate::peripherals::adc::{AdcPin, AdcState};
use crate::peripherals::gpio::{GpioPin, GpioState};
use crate::peripherals::input::{Input, InputError};
use crate::peripherals::pwm::{PwmDutyCycle, PwmPin, PwmState};
use crate::peripherals::timers::{TimerId, TimerMode, TimerState};
use crate::peripherals::DeviceState;
use vstd::prelude::*;

verus! {

/// Where keyboard characters come from: a one character buffer that hands out
/// the latest character once (`None` when it was already handed out).
pub trait Source {
    /// The character that the next `get_char` hands out.
    spec fn next_char(&self) -> Option<u8>;

    fn get_char(&mut self) -> (r: Option<u8>)
        ensures
            r == old(self).next_char(),
    ;
}

impl<'a, S: Source> Source for &'a mut S {
    open spec fn next_char(&self) -> Option<u8> {
        (**self).next_char()
    }

    fn get_char(&mut self) -> (r: Option<u8>) {
        (**self).get_char()
    }
}

/// A source fed by hand: `push` leaves a character, `get_char` takes it.
pub struct SourceShim {
    last_char: Option<u8>,
}

impl SourceShim {
    /// The character waiting to be taken, if any.
    pub closed spec fn waiting(&self) -> Option<u8> {
        self.last_char
    }

    pub fn new() -> (r: SourceShim)
        ensures
            r.waiting() is None,
    {
        SourceShim { last_char: None }
    }

    /// Leaves `c` as the latest character, in place of any not taken yet.
    /// Characters outside ASCII are ignored.
    pub fn push(&mut self, c: char)
        ensures
            (c as u32) < 128 ==> final(self).waiting() == Some(c as u8),
            (c as u32) >= 128 ==> final(self).waiting() == old(self).waiting(),
    {
        let code: u32 = c as u32;
        if code < 128 {
            self.last_char = Some(code as u8);
        }
    }
}

impl Default for SourceShim {
    fn default() -> (r: SourceShim)
        ensures
            r.waiting() is None,
    {
        SourceShim::new()
    }
}

impl Source for SourceShim {
    open spec fn next_char(&self) -> Option<u8> {
        self.waiting()
    }

    fn get_char(&mut self) -> (r: Option<u8>)
        ensures
            r == old(self).waiting(),
            final(self).waiting() is None,
    {
        self.last_char.take()
    }
}

/// A keyboard reading from a `Source`. A character taken from the source waits
/// in `data` until it is read; taking one raises the interrupt flag.
pub struct InputShim<S: Source> {
    source: S,
    flag: bool,
    interrupt_enable_bit: bool,
    data: Option<u8>,
}

impl InputShim<SourceShim> {
    /// A keyboard over a source that nothing feeds.
    pub fn new() -> (r: InputShim<SourceShim>)
        ensures
            r.data() is None,
            !r.flag(),
            !r.interrupts_on(),
            r.source().waiting() is None,
    {
        InputShim::using(SourceShim::new())
    }
}

impl<S: Source> InputShim<S> {
    pub closed spec fn data(&self) -> Option<u8> {
        self.data
    }

    pub closed spec fn flag(&self) -> bool {
        self.flag
    }

    pub closed spec fn interrupts_on(&self) -> bool {
        self.interrupt_enable_bit
    }

    pub closed spec fn source(&self) -> S {
        self.source
    }

    fn sourced_from(source: S) -> (r: InputShim<S>)
        ensures
            r.data() is None,
            !r.flag(),
            !r.interrupts_on(),
            r.source() == source,
    {
        InputShim { source, flag: false, interrupt_enable_bit: false, data: None }
    }

    /// A keyboard that owns its source.
    pub fn using(source: S) -> (r: InputShim<S>)
        ensures
            r.data() is None,
            !r.flag(),
            !r.interrupts_on(),
            r.source() == source,
    {
        InputShim::sourced_from(source)
    }

    pub fn get_inner_ref(&self) -> (r: &S)
        ensures
            *r == self.source(),
    {
        &self.source
    }

    /// Takes in what the source handed out: a character is kept (and raises
    /// the flag) only when no earlier one is waiting to be read.
    pub fn take_in(&mut self, got: Option<u8>)
        ensures
            final(self).source() == old(self).source(),
            final(self).interrupts_on() == old(self).interrupts_on(),
            (old(self).data() is None && got is Some) ==> final(self).data() == got
                && final(self).flag(),
            !(old(self).data() is None && got is Some) ==> final(self).data() == old(self).data()
                && final(self).flag() == old(self).flag(),
    {
        if self.data.is_none() {
            if let Some(c) = got {
                self.data = Some(c);
                self.flag = true;
            }
        }
    }

    /// Asks the source for a new character unless one is still waiting.
    fn fetch_latest(&mut self)
        ensures
            final(self).interrupts_on() == old(self).interrupts_on(),
            old(self).data() is Some ==> final(self).data() == old(self).data() && final(self).flag() == old(self).flag() && final(self).source() == old(self).source(),
            old(self).data() is None ==> (final(self).data() is Some ==> final(self).flag()) && (
            final(self).data() is None ==> final(self).flag() == old(self).flag()),
            old(self).data() is None ==> final(self).flag() == (old(self).flag()
                || old(self).source().next_char() is Some),
            old(self).data() is None ==> final(self).data() == old(self).source().next_char(),
    {
        if self.data.is_none() {
            let got = self.source.get_char();
            self.take_in(got);
        }
    }
}

impl<'a, S: Source> InputShim<&'a mut S> {
    /// A keyboard over a source that stays with its owner.
    pub fn with_ref(source: &'a mut S) -> (r: InputShim<&'a mut S>)
        ensures
            *r.source() == *old(source),
            r.data() is None,
            !r.flag(),
            !r.interrupts_on(),
    {
        InputShim::sourced_from(source)
    }
}

impl<S: Source> Default for InputShim<S> where S: Default {
    fn default() -> (r: InputShim<S>)
        ensures
            r.data() is None,
            !r.flag(),
            !r.interrupts_on(),
    {
        InputShim::using(S::default())
    }
}

/// Only the keyboard is here; every other device reads as idle. A poll
/// reports an interrupt when the flag is up or when a character would be taken
/// in from the source.
impl<S: Source> DeviceState for InputShim<S> {
    open spec fn gpio_state(&self, pin: GpioPin) -> GpioState {
        GpioState::Disabled
    }

    open spec fn gpio_irq(&self, pin: GpioPin) -> bool {
        false
    }

    open spec fn gpio_pending(&self, pin: GpioPin) -> bool {
        false
    }

    open spec fn gpio_flag(&self, pin: GpioPin) -> bool {
        false
    }

    open spec fn adc_state(&self, pin: AdcPin) -> AdcState {
        AdcState::Disabled
    }

    open spec fn pwm_state(&self, pin: PwmPin) -> PwmState {
        PwmState::Disabled
    }

    open spec fn pwm_duty(&self, pin: PwmPin) -> PwmDutyCycle {
        0
    }

    open spec fn duty_cycle_state(&self, pin: PwmPin, duty: PwmDutyCycle) -> PwmState {
        PwmState::Disabled
    }

    open spec fn timer_mode(&self, timer: TimerId) -> TimerMode {
        TimerMode::SingleShot
    }

    open spec fn timer_state(&self, timer: TimerId) -> TimerState {
        TimerState::Disabled
    }

    open spec fn timer_irq(&self, timer: TimerId) -> bool {
        false
    }

    open spec fn timer_pending(&self, timer: TimerId) -> bool {
        false
    }

    open spec fn timer_flag(&self, timer: TimerId) -> bool {
        false
    }

    open spec fn clock_ms(&self) -> Word {
        0
    }

    open spec fn input_irq(&self) -> bool {
        self.interrupts_on()
    }

    open spec fn input_pending(&self) -> bool {
        self.flag() || (self.data() is None && self.source().next_char() is Some)
    }

    open spec fn input_flag(&self) -> bool {
        self.flag()
    }

    open spec fn output_irq(&self) -> bool {
        false
    }

    open spec fn output_pending(&self) -> bool {
        false
    }

    open spec fn output_flag(&self) -> bool {
        false
    }
}

impl<S: Source> Input for InputShim<S> {
    fn read_data(&mut self) -> (r: Result<u8, InputError>)
        ensures
            final(self).data() is None,
            !final(self).flag(),
            final(self).interrupts_on() == old(self).interrupts_on(),
            old(self).data() matches Some(d) ==> r == Ok::<u8, InputError>(d),
            old(self).data() is None ==> r == match old(self).source().next_char() {
                Some(c) => Ok::<u8, InputError>(c),
                None => Err(InputError::NoDataAvailable),
            },
            r matches Err(e) ==> e == InputError::NoDataAvailable,
    {
        self.fetch_latest();
        self.flag = false;
        match self.data.take() {
            Some(c) => Ok(c),
            None => Err(InputError::NoDataAvailable),
        }
    }

    fn current_data_unread(&mut self) -> (r: bool)
        ensures
            r == final(self).flag(),
            r == old(self).input_pending(),
            final(self).interrupts_on() == old(self).interrupts_on(),
            old(self).data() is Some ==> final(self).data() == old(self).data() && r == old(self).flag(),
            final(self).data() is Some && old(self).data() is None ==> r,
    {
        self.fetch_latest();
        self.flag
    }

    fn interrupt_occurred(&mut self) -> (r: bool)
        ensures
            r == final(self).flag(),
            final(self).interrupts_on() == old(self).interrupts_on(),
            old(self).data() is Some ==> final(self).data() == old(self).data() && r == old(self).flag(),
    {
        self.current_data_unread()
    }

    fn reset_interrupt_flag(&mut self)
        ensures
            !final(self).flag(),
            final(self).data() == old(self).data(),
            final(self).source() == old(self).source(),
            final(self).interrupts_on() == old(self).interrupts_on(),
    {
        self.flag = false;
    }

    fn set_interrupt_enable_bit(&mut self, bit: bool)
        ensures
            final(self).interrupts_on() == bit,
            final(self).flag() == old(self).flag(),
            final(self).data() == old(self).data(),
            final(self).source() == old(self).source(),
    {
        self.interrupt_enable_bit = bit;
    }

    fn interrupts_enabled(&self) -> (r: bool)
        ensures
            r == self.interrupts_on(),
    {
        self.interrupt_enable_bit
    }
}

} // verus!
