//! The peripheral interfaces of the LC-3 and the types they exchange.
use vstd::prelude::*;

pub mod adc;
pub mod clock;
pub mod gpio;
pub mod input;
pub mod output;
pub mod pwm;
pub mod support;
pub mod timers;

use self::adc::{Adc, AdcPin, AdcState};
use self::clock::Clock;
use self::gpio::{Gpio, GpioPin, GpioState};
use self::input::Input;
use self::output::Output;
use self::pwm::{Pwm, PwmDutyCycle, PwmPin, PwmState};
use self::timers::{TimerId, TimerMode, TimerState, Timers};
use crate::isa::Word;

verus! {

/// What the device interfaces promise about, device by device: the state of
/// each pin and timer, the clock, and for each interrupt source whether its
/// interrupts are enabled (`*_irq`), whether polling it now would report an
/// interrupt (`*_pending`) and whether its interrupt flag is raised (`*_flag`).
/// Every device interface extends this trait, so that a call on one device can
/// promise to leave the others alone (see [`same_except`]).
pub trait DeviceState: Sized {
    spec fn gpio_state(&self, pin: GpioPin) -> GpioState;

    spec fn gpio_irq(&self, pin: GpioPin) -> bool;

    spec fn gpio_pending(&self, pin: GpioPin) -> bool;

    spec fn gpio_flag(&self, pin: GpioPin) -> bool;

    /// The level last written to the pin (an implementation keeps its own
    /// record of it).
    open spec fn gpio_level(&self, pin: GpioPin) -> bool {
        false
    }

    spec fn adc_state(&self, pin: AdcPin) -> AdcState;

    spec fn pwm_state(&self, pin: PwmPin) -> PwmState;

    /// The duty cycle last given to the pin.
    spec fn pwm_duty(&self, pin: PwmPin) -> PwmDutyCycle;

    /// The state that giving the pin duty cycle `duty` now leaves it in.
    spec fn duty_cycle_state(&self, pin: PwmPin, duty: PwmDutyCycle) -> PwmState;

    spec fn timer_mode(&self, timer: TimerId) -> TimerMode;

    spec fn timer_state(&self, timer: TimerId) -> TimerState;

    spec fn timer_irq(&self, timer: TimerId) -> bool;

    spec fn timer_pending(&self, timer: TimerId) -> bool;

    spec fn timer_flag(&self, timer: TimerId) -> bool;

    spec fn clock_ms(&self) -> Word;

    spec fn input_irq(&self) -> bool;

    spec fn input_pending(&self) -> bool;

    spec fn input_flag(&self) -> bool;

    spec fn output_irq(&self) -> bool;

    spec fn output_pending(&self) -> bool;

    spec fn output_flag(&self) -> bool;
}

/// One device: a GPIO pin, an ADC pin, a PWM pin, a timer, the clock, the
/// keyboard or the display.
#[derive(Debug, Clone, Copy, PartialEq, Eq, Structural)]
pub enum DevicePart {
    GpioPin(GpioPin),
    AdcPin(AdcPin),
    PwmPin(PwmPin),
    Timer(TimerId),
    Clock,
    Input,
    Output,
}

/// `a` and `b` agree on every device but `part`.
pub open spec fn same_except<D: DeviceState>(a: D, b: D, part: DevicePart) -> bool {
    &&& forall|p: GpioPin|
        #![trigger b.gpio_state(p)]
        #![trigger b.gpio_irq(p)]
        #![trigger b.gpio_pending(p)]
        #![trigger b.gpio_flag(p)]
        #![trigger b.gpio_level(p)]
        part != DevicePart::GpioPin(p) ==> {
            &&& b.gpio_level(p) == a.gpio_level(p)
            &&& b.gpio_state(p) == a.gpio_state(p)
            &&& b.gpio_irq(p) == a.gpio_irq(p)
            &&& b.gpio_pending(p) == a.gpio_pending(p)
            &&& b.gpio_flag(p) == a.gpio_flag(p)
        }
    &&& forall|p: AdcPin| part != DevicePart::AdcPin(p) ==> #[trigger] b.adc_state(p) == a.adc_state(p)
    &&& forall|p: PwmPin|
        #![trigger b.pwm_state(p)]
        #![trigger b.pwm_duty(p)]
        part != DevicePart::PwmPin(p) ==> b.pwm_state(p) == a.pwm_state(p) && b.pwm_duty(p) == a.pwm_duty(p)
    &&& forall|t: TimerId|
        #![trigger b.timer_mode(t)]
        #![trigger b.timer_state(t)]
        #![trigger b.timer_irq(t)]
        #![trigger b.timer_pending(t)]
        #![trigger b.timer_flag(t)]
        part != DevicePart::Timer(t) ==> {
            &&& b.timer_mode(t) == a.timer_mode(t)
            &&& b.timer_state(t) == a.timer_state(t)
            &&& b.timer_irq(t) == a.timer_irq(t)
            &&& b.timer_pending(t) == a.timer_pending(t)
            &&& b.timer_flag(t) == a.timer_flag(t)
        }
    &&& part != DevicePart::Clock ==> b.clock_ms() == a.clock_ms()
    &&& part != DevicePart::Input ==> {
        &&& b.input_irq() == a.input_irq()
        &&& b.input_pending() == a.input_pending()
        &&& b.input_flag() == a.input_flag()
    }
    &&& part != DevicePart::Output ==> {
        &&& b.output_irq() == a.output_irq()
        &&& b.output_pending() == a.output_pending()
        &&& b.output_flag() == a.output_flag()
    }
}

/// Everything the interpreter needs from the machine's devices: one GPIO bank
/// (bank A; banks B and C are absent), the ADC, PWM, timers, clock, keyboard
/// input and display output.
pub trait Peripherals: Gpio + Adc + Pwm + Timers + Clock + Input + Output {

}

} // verus!
