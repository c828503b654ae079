//! Peripheral units for devices: the bookkeeping that the LC-3 peripheral
//! interfaces ask for, over hardware that only counts down, samples or drives
//! a pin. The hardware is reached through the small traits below, which a board
//! implements over its HAL.
use crate::isa::Word;
use crate::peripherals::adc::{Adc, AdcMiscError, AdcPin, AdcReadError, AdcState};
use crate::peripherals::gpio::{GpioPin, GpioState};
use crate::peripherals::pwm::{Pwm, PwmDutyCycle, PwmPin, PwmState};
use crate::peripherals::timers::{TimerId, TimerMode, TimerState, Timers};
use crate::peripherals::DeviceState;
use vstd::prelude::*;

verus! {

/// A hardware countdown timer that restarts itself each period.
pub trait CountdownTimer {
    /// The period of the countdown last started, if any (an implementation
    /// keeps its own record of it).
    open spec fn started(&self) -> Option<Word> {
        None
    }

    /// Starts counting down `period` milliseconds, again and again.
    fn start(&mut self, period: Word)
        ensures
            final(self).started() == Some(period),
    ;

    /// Whether a period has run out since the last call to `wait`.
    spec fn expired(&self) -> bool;

    /// Whether a period has run out since the last call.
    fn wait(&mut self) -> (r: bool)
        ensures
            r == old(self).expired(),
    ;
}

/// Position of a timer in the per-timer arrays.
pub open spec fn timer_index(t: TimerId) -> int {
    match t {
        TimerId::T0 => 0,
        TimerId::T1 => 1,
    }
}

fn timer_slot(t: TimerId) -> (r: usize)
    ensures
        r == timer_index(t),
{
    match t {
        TimerId::T0 => 0,
        TimerId::T1 => 1,
    }
}

/// Two timers over two hardware countdowns. Single shot mode is had by
/// disabling a timer once its first period has run out.
pub struct GenericTimerUnit<T0: CountdownTimer, T1: CountdownTimer> {
    t0: T0,
    t1: T1,
    states: [TimerState; 2],
    modes: [TimerMode; 2],
    flags: [bool; 2],
}

impl<T0: CountdownTimer, T1: CountdownTimer> GenericTimerUnit<T0, T1> {
    pub closed spec fn state_of(&self, t: TimerId) -> TimerState {
        self.states@[timer_index(t)]
    }

    pub closed spec fn mode_of(&self, t: TimerId) -> TimerMode {
        self.modes@[timer_index(t)]
    }

    /// Whether the hardware behind the timer has had a period run out.
    pub closed spec fn expired_of(&self, t: TimerId) -> bool {
        match t {
            TimerId::T0 => self.t0.expired(),
            TimerId::T1 => self.t1.expired(),
        }
    }

    /// The period the hardware behind the timer was last started with.
    pub closed spec fn started_of(&self, t: TimerId) -> Option<Word> {
        match t {
            TimerId::T0 => self.t0.started(),
            TimerId::T1 => self.t1.started(),
        }
    }

    /// Whether the timer's interrupt flag is raised.
    pub closed spec fn flag_of(&self, t: TimerId) -> bool {
        self.flags@[timer_index(t)]
    }

    /// Both timers disabled, in single shot mode, with their flags down.
    pub fn new(hal_timer0: T0, hal_timer1: T1) -> (r: GenericTimerUnit<T0, T1>)
        ensures
            forall|t: TimerId|
                r.state_of(t) == TimerState::Disabled && r.mode_of(t) == TimerMode::SingleShot
                    && !r.flag_of(t),
    {
        GenericTimerUnit {
            t0: hal_timer0,
            t1: hal_timer1,
            states: [TimerState::Disabled, TimerState::Disabled],
            modes: [TimerMode::SingleShot, TimerMode::SingleShot],
            flags: [false, false],
        }
    }

    /// Takes in whether the running timer's period ran out: when it did the
    /// flag goes up and a single shot timer is disabled.
    pub fn note_expiry(&mut self, timer: TimerId, expired: bool) -> (r: bool)
        ensures
            r == expired,
            forall|t: TimerId| t != timer ==> final(self).state_of(t) == old(self).state_of(t)
                && final(self).flag_of(t) == old(self).flag_of(t),
            forall|t: TimerId| final(self).mode_of(t) == old(self).mode_of(t),
            forall|t: TimerId| final(self).expired_of(t) == old(self).expired_of(t),
            expired ==> final(self).flag_of(timer),
            expired && old(self).mode_of(timer) == TimerMode::SingleShot ==> final(self).state_of(
                timer,
            ) == TimerState::Disabled,
            !(expired && old(self).mode_of(timer) == TimerMode::SingleShot) ==> final(self).state_of(timer) == old(self).state_of(timer),
            !expired ==> final(self).flag_of(timer) == old(self).flag_of(timer),
    {
        let i = timer_slot(timer);
        if expired {
            if self.modes[i] == TimerMode::SingleShot {
                self.states.set(i, TimerState::Disabled);
            }
            self.flags.set(i, true);
        }
        expired
    }
}

/// Only the timers are here; every other device reads as idle.
impl<T0: CountdownTimer, T1: CountdownTimer> DeviceState for GenericTimerUnit<T0, T1> {
    open spec fn gpio_state(&self, pin: GpioPin) -> GpioState {
        GpioState::Disabled
    }

    open spec fn gpio_irq(&self, pin: GpioPin) -> bool {
        false
    }

    open spec fn gpio_pending(&self, pin: GpioPin) -> bool {
        false
    }

    open spec fn gpio_flag(&self, pin: GpioPin) -> bool {
        false
    }

    open spec fn adc_state(&self, pin: AdcPin) -> AdcState {
        AdcState::Disabled
    }

    open spec fn pwm_state(&self, pin: PwmPin) -> PwmState {
        PwmState::Disabled
    }

    open spec fn pwm_duty(&self, pin: PwmPin) -> PwmDutyCycle {
        0
    }

    open spec fn duty_cycle_state(&self, pin: PwmPin, duty: PwmDutyCycle) -> PwmState {
        PwmState::Disabled
    }

    open spec fn timer_mode(&self, timer: TimerId) -> TimerMode {
        self.mode_of(timer)
    }

    open spec fn timer_state(&self, timer: TimerId) -> TimerState {
        self.state_of(timer)
    }

    open spec fn timer_irq(&self, timer: TimerId) -> bool {
        self.state_of(timer) is WithPeriod
    }

    open spec fn timer_pending(&self, timer: TimerId) -> bool {
        self.state_of(timer) is WithPeriod && self.expired_of(timer)
    }

    open spec fn timer_flag(&self, timer: TimerId) -> bool {
        self.flag_of(timer)
    }

    open spec fn clock_ms(&self) -> Word {
        0
    }

    open spec fn input_irq(&self) -> bool {
        false
    }

    open spec fn input_pending(&self) -> bool {
        false
    }

    open spec fn input_flag(&self) -> bool {
        false
    }

    open spec fn output_irq(&self) -> bool {
        false
    }

    open spec fn output_pending(&self) -> bool {
        false
    }

    open spec fn output_flag(&self) -> bool {
        false
    }
}

impl<T0: CountdownTimer, T1: CountdownTimer> Timers for GenericTimerUnit<T0, T1> {
    fn set_mode(&mut self, timer: TimerId, mode: TimerMode)
        ensures
            final(self).mode_of(timer) == mode,
            forall|t: TimerId| t != timer ==> final(self).mode_of(t) == old(self).mode_of(t),
            forall|t: TimerId|
                final(self).state_of(t) == old(self).state_of(t) && final(self).flag_of(t) == old(self).flag_of(t),
    {
        let i = timer_slot(timer);
        self.modes.set(i, mode);
    }

    /// Always single shot, whatever mode was set.
    fn get_mode(&self, timer: TimerId) -> (r: TimerMode)
        ensures
            r == TimerMode::SingleShot,
    {
        TimerMode::SingleShot
    }

    /// Records the state; a period starts the hardware counting it down.
    fn set_state(&mut self, timer: TimerId, state: TimerState)
        ensures
            final(self).state_of(timer) == state,
            state matches TimerState::WithPeriod(p) ==> final(self).started_of(timer) == Some(p),
            state is Disabled ==> final(self).started_of(timer) == old(self).started_of(timer),
            forall|t: TimerId| t != timer ==> final(self).started_of(t) == old(self).started_of(t),
            forall|t: TimerId| t != timer ==> final(self).state_of(t) == old(self).state_of(t),
            forall|t: TimerId|
                final(self).mode_of(t) == old(self).mode_of(t) && final(self).flag_of(t) == old(self).flag_of(t),
    {
        let i = timer_slot(timer);
        self.states.set(i, state);
        if let TimerState::WithPeriod(period) = state {
            match timer {
                TimerId::T0 => self.t0.start(period),
                TimerId::T1 => self.t1.start(period),
            }
        }
    }

    fn get_state(&self, timer: TimerId) -> (r: TimerState)
        ensures
            r == self.state_of(timer),
    {
        self.states[timer_slot(timer)]
    }

    /// A disabled timer never fires; a running one fires when its hardware
    /// says the period ran out (see `note_expiry`).
    fn interrupt_occurred(&mut self, timer: TimerId) -> (r: bool)
        ensures
            r == (old(self).state_of(timer) is WithPeriod && old(self).expired_of(timer)),
            old(self).state_of(timer) == TimerState::Disabled ==> !r,
            forall|t: TimerId| t != timer ==> final(self).state_of(t) == old(self).state_of(t)
                && final(self).flag_of(t) == old(self).flag_of(t),
            forall|t: TimerId| final(self).mode_of(t) == old(self).mode_of(t),
            r ==> final(self).flag_of(timer),
            r && old(self).mode_of(timer) == TimerMode::SingleShot ==> final(self).state_of(timer)
                == TimerState::Disabled,
            !(r && old(self).mode_of(timer) == TimerMode::SingleShot) ==> final(self).state_of(
                timer,
            ) == old(self).state_of(timer),
            !r ==> final(self).flag_of(timer) == old(self).flag_of(timer),
    {
        let i = timer_slot(timer);
        match self.states[i] {
            TimerState::Disabled => false,
            TimerState::WithPeriod(_) => {
                let expired = match timer {
                    TimerId::T0 => self.t0.wait(),
                    TimerId::T1 => self.t1.wait(),
                };
                self.note_expiry(timer, expired)
            },
        }
    }

    fn reset_interrupt_flag(&mut self, timer: TimerId)
        ensures
            !final(self).flag_of(timer),
            forall|t: TimerId| t != timer ==> final(self).flag_of(t) == old(self).flag_of(t),
            forall|t: TimerId|
                final(self).state_of(t) == old(self).state_of(t) && final(self).mode_of(t) == old(self).mode_of(t),
    {
        let i = timer_slot(timer);
        self.flags.set(i, false);
    }

    /// A timer's interrupts are on while it runs.
    fn interrupts_enabled(&mut self, timer: TimerId) -> (r: bool)
        ensures
            r == (old(self).state_of(timer) is WithPeriod),
            forall|t: TimerId|
                final(self).state_of(t) == old(self).state_of(t) && final(self).mode_of(t) == old(self).mode_of(t) && final(self).flag_of(t) == old(self).flag_of(t),
    {
        let i = timer_slot(timer);
        match self.states[i] {
            TimerState::WithPeriod(_) => true,
            TimerState::Disabled => self.interrupt_occurred(timer),
        }
    }
}

/// One ADC input of the hardware.
pub trait AdcChannel {
    /// The sample that the next read takes.
    spec fn next_sample(&self) -> Option<u16>;

    /// A raw sample, or `None` when none could be taken.
    fn read_raw(&mut self) -> (r: Option<u16>)
        ensures
            r == old(self).next_sample(),
    ;
}

/// The reading that a raw sample gives: the sample halved, to eight bits; a
/// missing sample fails as a read of a disabled pin.
pub fn adc_reading(pin: AdcPin, raw: Option<u16>) -> (r: Result<u8, AdcReadError>)
    ensures
        r == adc_reading_spec(pin, raw),
{
    proof {
        if let Some(v) = raw {
            assert(((v >> 1u16) & 0xFF) < 256) by (bit_vector);
        }
    }
    match raw {
        Some(v) => Ok(((v >> 1u16) & 0xFF) as u8),
        None => Err(AdcReadError(pin, AdcState::Disabled)),
    }
}

/// Six ADC pins over six hardware channels; the pins' states are kept here
/// (the hardware knows none).
pub struct GenericAdcUnit<C0: AdcChannel, C1: AdcChannel, C2: AdcChannel, C3: AdcChannel, C4: AdcChannel, C5: AdcChannel> {
    c0: C0,
    c1: C1,
    c2: C2,
    c3: C3,
    c4: C4,
    c5: C5,
    pin_states: [AdcState; 6],
}

impl<C0: AdcChannel, C1: AdcChannel, C2: AdcChannel, C3: AdcChannel, C4: AdcChannel, C5: AdcChannel> GenericAdcUnit<
    C0,
    C1,
    C2,
    C3,
    C4,
    C5,
> {
    pub closed spec fn state_of(&self, p: AdcPin) -> AdcState {
        self.pin_states@[p.index()]
    }

    /// The sample that the channel behind pin `p` takes next.
    pub closed spec fn sample_of(&self, p: AdcPin) -> Option<u16> {
        match p {
            AdcPin::A0 => self.c0.next_sample(),
            AdcPin::A1 => self.c1.next_sample(),
            AdcPin::A2 => self.c2.next_sample(),
            AdcPin::A3 => self.c3.next_sample(),
            AdcPin::A4 => self.c4.next_sample(),
            AdcPin::A5 => self.c5.next_sample(),
        }
    }

    /// Whether the channel behind pin `p` is the same in `self` and `other`.
    pub closed spec fn same_channel(&self, other: Self, p: AdcPin) -> bool {
        match p {
            AdcPin::A0 => self.c0 == other.c0,
            AdcPin::A1 => self.c1 == other.c1,
            AdcPin::A2 => self.c2 == other.c2,
            AdcPin::A3 => self.c3 == other.c3,
            AdcPin::A4 => self.c4 == other.c4,
            AdcPin::A5 => self.c5 == other.c5,
        }
    }

    /// All pins disabled.
    pub fn new(c0: C0, c1: C1, c2: C2, c3: C3, c4: C4, c5: C5) -> (r: Self)
        ensures
            forall|p: AdcPin| r.state_of(p) == AdcState::Disabled,
    {
        GenericAdcUnit {
            c0,
            c1,
            c2,
            c3,
            c4,
            c5,
            pin_states: [
                AdcState::Disabled,
                AdcState::Disabled,
                AdcState::Disabled,
                AdcState::Disabled,
                AdcState::Disabled,
                AdcState::Disabled,
            ],
        }
    }

    fn sample(&mut self, pin: AdcPin) -> (r: Option<u16>)
        ensures
            r == old(self).sample_of(pin),
            forall|p: AdcPin| final(self).state_of(p) == old(self).state_of(p),
            forall|p: AdcPin| p != pin ==> final(self).same_channel(*old(self), p),
    {
        match pin {
            AdcPin::A0 => self.c0.read_raw(),
            AdcPin::A1 => self.c1.read_raw(),
            AdcPin::A2 => self.c2.read_raw(),
            AdcPin::A3 => self.c3.read_raw(),
            AdcPin::A4 => self.c4.read_raw(),
            AdcPin::A5 => self.c5.read_raw(),
        }
    }
}

/// Only the ADC pins are here; every other device reads as idle.
impl<C0: AdcChannel, C1: AdcChannel, C2: AdcChannel, C3: AdcChannel, C4: AdcChannel, C5: AdcChannel> DeviceState for GenericAdcUnit<
    C0,
    C1,
    C2,
    C3,
    C4,
    C5,
> {
    open spec fn gpio_state(&self, pin: GpioPin) -> GpioState {
        GpioState::Disabled
    }

    open spec fn gpio_irq(&self, pin: GpioPin) -> bool {
        false
    }

    open spec fn gpio_pending(&self, pin: GpioPin) -> bool {
        false
    }

    open spec fn gpio_flag(&self, pin: GpioPin) -> bool {
        false
    }

    open spec fn adc_state(&self, pin: AdcPin) -> AdcState {
        self.state_of(pin)
    }

    open spec fn pwm_state(&self, pin: PwmPin) -> PwmState {
        PwmState::Disabled
    }

    open spec fn pwm_duty(&self, pin: PwmPin) -> PwmDutyCycle {
        0
    }

    open spec fn duty_cycle_state(&self, pin: PwmPin, duty: PwmDutyCycle) -> PwmState {
        PwmState::Disabled
    }

    open spec fn timer_mode(&self, timer: TimerId) -> TimerMode {
        TimerMode::SingleShot
    }

    open spec fn timer_state(&self, timer: TimerId) -> TimerState {
        TimerState::Disabled
    }

    open spec fn timer_irq(&self, timer: TimerId) -> bool {
        false
    }

    open spec fn timer_pending(&self, timer: TimerId) -> bool {
        false
    }

    open spec fn timer_flag(&self, timer: TimerId) -> bool {
        false
    }

    open spec fn clock_ms(&self) -> Word {
        0
    }

    open spec fn input_irq(&self) -> bool {
        false
    }

    open spec fn input_pending(&self) -> bool {
        false
    }

    open spec fn input_flag(&self) -> bool {
        false
    }

    open spec fn output_irq(&self) -> bool {
        false
    }

    open spec fn output_pending(&self) -> bool {
        false
    }

    open spec fn output_flag(&self) -> bool {
        false
    }
}

impl<C0: AdcChannel, C1: AdcChannel, C2: AdcChannel, C3: AdcChannel, C4: AdcChannel, C5: AdcChannel> Adc for GenericAdcUnit<
    C0,
    C1,
    C2,
    C3,
    C4,
    C5,
> {
    /// Records the state; never fails.
    fn set_state(&mut self, pin: AdcPin, state: AdcState) -> (r: Result<(), AdcMiscError>)
        ensures
            r is Ok,
            final(self).state_of(pin) == state,
            forall|p: AdcPin| p != pin ==> final(self).state_of(p) == old(self).state_of(p),
    {
        self.pin_states.set(pin.to_index(), state);
        Ok(())
    }

    fn get_state(&self, pin: AdcPin) -> (r: AdcState)
        ensures
            r == self.state_of(pin),
    {
        self.pin_states[pin.to_index()]
    }

    /// A disabled pin fails to read without touching the hardware; an enabled
    /// one gives the reading of its channel's sample (see `adc_reading`).
    fn read(&mut self, pin: AdcPin) -> (r: Result<u8, AdcReadError>)
        ensures
            forall|p: AdcPin| final(self).state_of(p) == old(self).state_of(p),
            old(self).state_of(pin) != AdcState::Enabled ==> r == Err::<u8, AdcReadError>(
                AdcReadError(pin, AdcState::Disabled),
            ) && *final(self) == *old(self),
            forall|p: AdcPin| p != pin ==> final(self).same_channel(*old(self), p),
            old(self).state_of(pin) == AdcState::Enabled ==> r == adc_reading_spec(
                pin,
                old(self).sample_of(pin),
            ),
    {
        if self.pin_states[pin.to_index()] == AdcState::Enabled {
            let raw = self.sample(pin);
            adc_reading(pin, raw)
        } else {
            Err(AdcReadError(pin, AdcState::Disabled))
        }
    }
}

/// The reading of a raw sample, as `adc_reading` computes it.
pub open spec fn adc_reading_spec(pin: AdcPin, raw: Option<u16>) -> Result<u8, AdcReadError> {
    match raw {
        Some(v) => Ok(((v >> 1u16) & 0xFF) as u8),
        None => Err(AdcReadError(pin, AdcState::Disabled)),
    }
}

/// A sample is read as half its value, cut to eight bits; a missing sample
/// reads as the pin being disabled.
pub proof fn law_adc_reading(pin: AdcPin, raw: Option<u16>)
    ensures
        raw matches Some(v) ==> adc_reading_spec(pin, raw) == Ok::<u8, AdcReadError>(((v / 2) % 256) as u8),
        raw is None ==> adc_reading_spec(pin, raw) == Err::<u8, AdcReadError>(AdcReadError(pin, AdcState::Disabled)),
{
    if let Some(v) = raw {
        assert((v >> 1u16) & 0xFF == (v / 2) % 256) by (bit_vector);
    }
}

/// One PWM output of the hardware.
pub trait PwmOutput {
    /// Whether the output is on (an implementation keeps its own record).
    open spec fn output_on(&self) -> bool {
        false
    }

    /// The duty cycle the output was last given (an implementation keeps its
    /// own record).
    open spec fn output_duty(&self) -> u16 {
        0
    }

    fn enable(&mut self)
        ensures
            final(self).output_on(),
            final(self).output_duty() == old(self).output_duty(),
    ;

    fn disable(&mut self)
        ensures
            !final(self).output_on(),
            final(self).output_duty() == old(self).output_duty(),
    ;

    fn set_duty(&mut self, duty: u16)
        ensures
            final(self).output_duty() == duty,
            final(self).output_on() == old(self).output_on(),
    ;
}

/// Two PWM pins over two hardware outputs; the pins' states are kept here.
pub struct GenericPwm<T0: PwmOutput, T1: PwmOutput> {
    p0: T0,
    p1: T1,
    pin_states: [PwmState; 2],
    /// The duty cycle last given to each pin.
    duty0: Ghost<PwmDutyCycle>,
    duty1: Ghost<PwmDutyCycle>,
}

impl<T0: PwmOutput, T1: PwmOutput> GenericPwm<T0, T1> {
    pub closed spec fn state_of(&self, p: PwmPin) -> PwmState {
        self.pin_states@[p.index()]
    }

    /// Whether the hardware output behind pin `p` is on.
    pub closed spec fn output_on_of(&self, p: PwmPin) -> bool {
        match p {
            PwmPin::P0 => self.p0.output_on(),
            PwmPin::P1 => self.p1.output_on(),
        }
    }

    /// The duty cycle the hardware output behind pin `p` was last given.
    pub closed spec fn output_duty_of(&self, p: PwmPin) -> u16 {
        match p {
            PwmPin::P0 => self.p0.output_duty(),
            PwmPin::P1 => self.p1.output_duty(),
        }
    }

    /// The duty cycle last given to pin `p`.
    pub closed spec fn duty_of(&self, p: PwmPin) -> PwmDutyCycle {
        match p {
            PwmPin::P0 => self.duty0@,
            PwmPin::P1 => self.duty1@,
        }
    }

    /// Both pins disabled.
    pub fn new(p0: T0, p1: T1) -> (r: Self)
        ensures
            forall|p: PwmPin| r.state_of(p) == PwmState::Disabled,
    {
        GenericPwm {
            p0,
            p1,
            pin_states: [PwmState::Disabled, PwmState::Disabled],
            duty0: Ghost(0),
            duty1: Ghost(0),
        }
    }
}

/// Only the PWM pins are here; every other device reads as idle.
impl<T0: PwmOutput, T1: PwmOutput> DeviceState for GenericPwm<T0, T1> {
    open spec fn gpio_state(&self, pin: GpioPin) -> GpioState {
        GpioState::Disabled
    }

    open spec fn gpio_irq(&self, pin: GpioPin) -> bool {
        false
    }

    open spec fn gpio_pending(&self, pin: GpioPin) -> bool {
        false
    }

    open spec fn gpio_flag(&self, pin: GpioPin) -> bool {
        false
    }

    open spec fn adc_state(&self, pin: AdcPin) -> AdcState {
        AdcState::Disabled
    }

    open spec fn pwm_state(&self, pin: PwmPin) -> PwmState {
        self.state_of(pin)
    }

    open spec fn pwm_duty(&self, pin: PwmPin) -> PwmDutyCycle {
        self.duty_of(pin)
    }

    open spec fn duty_cycle_state(&self, pin: PwmPin, duty: PwmDutyCycle) -> PwmState {
        PwmState::Enabled(
            if duty == 0 {
                1u8
            } else {
                duty
            },
        )
    }

    open spec fn timer_mode(&self, timer: TimerId) -> TimerMode {
        TimerMode::SingleShot
    }

    open spec fn timer_state(&self, timer: TimerId) -> TimerState {
        TimerState::Disabled
    }

    open spec fn timer_irq(&self, timer: TimerId) -> bool {
        false
    }

    open spec fn timer_pending(&self, timer: TimerId) -> bool {
        false
    }

    open spec fn timer_flag(&self, timer: TimerId) -> bool {
        false
    }

    open spec fn clock_ms(&self) -> Word {
        0
    }

    open spec fn input_irq(&self) -> bool {
        false
    }

    open spec fn input_pending(&self) -> bool {
        false
    }

    open spec fn input_flag(&self) -> bool {
        false
    }

    open spec fn output_irq(&self) -> bool {
        false
    }

    open spec fn output_pending(&self) -> bool {
        false
    }

    open spec fn output_flag(&self) -> bool {
        false
    }
}

impl<T0: PwmOutput, T1: PwmOutput> Pwm for GenericPwm<T0, T1> {
    /// Drives the hardware (enabled with the duty, or disabled) and records the state.
    fn set_state(&mut self, pin: PwmPin, state: PwmState)
        ensures
            final(self).state_of(pin) == state,
            state matches PwmState::Enabled(d) ==> final(self).output_on_of(pin) && final(self).output_duty_of(pin) == d as u16,
            state is Disabled ==> !final(self).output_on_of(pin),
            forall|p: PwmPin| p != pin ==> final(self).output_on_of(p) == old(self).output_on_of(p)
                && final(self).output_duty_of(p) == old(self).output_duty_of(p),
            forall|p: PwmPin| p != pin ==> final(self).state_of(p) == old(self).state_of(p),
            forall|p: PwmPin| final(self).duty_of(p) == old(self).duty_of(p),
    {
        match state {
            PwmState::Enabled(duty) => match pin {
                PwmPin::P0 => {
                    self.p0.enable();
                    self.p0.set_duty(duty as u16);
                },
                PwmPin::P1 => {
                    self.p1.enable();
                    self.p1.set_duty(duty as u16);
                },
            },
            PwmState::Disabled => match pin {
                PwmPin::P0 => self.p0.disable(),
                PwmPin::P1 => self.p1.disable(),
            },
        }
        self.pin_states.set(pin.to_index(), state);
    }

    fn get_state(&self, pin: PwmPin) -> (r: PwmState)
        ensures
            r == self.state_of(pin),
    {
        self.pin_states[pin.to_index()]
    }

    /// Enables the pin with the duty cycle; a duty cycle of 0 counts as 1.
    fn set_duty_cycle(&mut self, pin: PwmPin, duty_cycle: PwmDutyCycle)
        ensures
            final(self).output_on_of(pin),
            final(self).output_duty_of(pin) == if duty_cycle == 0 {
                1u16
            } else {
                duty_cycle as u16
            },
            final(self).state_of(pin) == PwmState::Enabled(
                if duty_cycle == 0 {
                    1u8
                } else {
                    duty_cycle
                },
            ),
            forall|p: PwmPin| p != pin ==> final(self).state_of(p) == old(self).state_of(p),
    {
        let duty = if duty_cycle == 0 {
            1u8
        } else {
            duty_cycle
        };
        self.set_state(pin, PwmState::Enabled(duty));
        proof {
            match pin {
                PwmPin::P0 => {
                    self.duty0@ = duty_cycle;
                },
                PwmPin::P1 => {
                    self.duty1@ = duty_cycle;
                },
            }
        }
    }

    /// The duty cycle of an enabled pin; 1 for a disabled one.
    fn get_duty_cycle(&self, pin: PwmPin) -> (r: PwmDutyCycle)
        ensures
            r == (match self.state_of(pin) {
                PwmState::Enabled(d) => d,
                PwmState::Disabled => 1u8,
            }),
    {
        match self.pin_states[pin.to_index()] {
            PwmState::Enabled(d) => d,
            PwmState::Disabled => 1,
        }
    }
}

} // verus!
