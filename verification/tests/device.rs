use lc3_utp::device::{adc_reading, AdcChannel, CountdownTimer, GenericAdcUnit, GenericPwm, GenericTimerUnit, PwmOutput};
use lc3_utp::peripherals::adc::{Adc, AdcPin, AdcReadError, AdcState};
use lc3_utp::peripherals::pwm::{Pwm, PwmPin, PwmState};
use lc3_utp::peripherals::timers::{TimerId, TimerMode, TimerState, Timers};

#[derive(Default)]
struct FakeTimer {
    started: Option<u16>,
    fires: bool,
}

impl CountdownTimer for FakeTimer {
    fn start(&mut self, period: u16) {
        self.started = Some(period);
    }
    fn expired(&self) -> bool {
        self.fires
    }
    fn wait(&mut self) -> bool {
        self.fires
    }
}

#[test]
fn single_shot_timers_disable_after_firing() {
    let mut unit = GenericTimerUnit::new(FakeTimer { fires: true, ..Default::default() }, FakeTimer::default());
    assert!(!unit.interrupt_occurred(TimerId::T0));
    unit.set_state(TimerId::T0, TimerState::WithPeriod(100));
    assert!(unit.interrupts_enabled(TimerId::T0));
    assert!(unit.interrupt_occurred(TimerId::T0));
    assert_eq!(TimerState::Disabled, unit.get_state(TimerId::T0));
    assert!(!unit.interrupts_enabled(TimerId::T0));
    assert_eq!(TimerMode::SingleShot, unit.get_mode(TimerId::T0));
}

#[test]
fn repeated_timers_keep_running() {
    let mut unit = GenericTimerUnit::new(FakeTimer::default(), FakeTimer { fires: true, ..Default::default() });
    unit.set_mode(TimerId::T1, TimerMode::Repeated);
    unit.set_state(TimerId::T1, TimerState::WithPeriod(7));
    assert!(unit.interrupt_occurred(TimerId::T1));
    assert_eq!(TimerState::WithPeriod(7), unit.get_state(TimerId::T1));
    unit.reset_interrupt_flag(TimerId::T1);
    assert!(!unit.interrupt_occurred(TimerId::T0));
    assert!(unit.note_expiry(TimerId::T0, true));
}

struct FakeChannel(Option<u16>);

impl AdcChannel for FakeChannel {
    fn next_sample(&self) -> Option<u16> {
        self.0
    }
    fn read_raw(&mut self) -> Option<u16> {
        self.0
    }
}

#[test]
fn adc_readings_are_halved() {
    assert_eq!(Ok(0x7F), adc_reading(AdcPin::A0, Some(0xFF)));
    assert_eq!(Ok(0xFF), adc_reading(AdcPin::A0, Some(0x1FF)));
    assert_eq!(Ok(0x00), adc_reading(AdcPin::A0, Some(0x200)));
    assert_eq!(Err(AdcReadError(AdcPin::A3, AdcState::Disabled)), adc_reading(AdcPin::A3, None));
    let mut unit = GenericAdcUnit::new(
        FakeChannel(Some(100)),
        FakeChannel(None),
        FakeChannel(Some(2)),
        FakeChannel(Some(4)),
        FakeChannel(Some(6)),
        FakeChannel(Some(8)),
    );
    assert_eq!(Err(AdcReadError(AdcPin::A0, AdcState::Disabled)), unit.read(AdcPin::A0));
    assert_eq!(Ok(()), unit.set_state(AdcPin::A0, AdcState::Enabled));
    assert_eq!(AdcState::Enabled, unit.get_state(AdcPin::A0));
    assert_eq!(Ok(50), unit.read(AdcPin::A0));
    assert_eq!(Ok(()), unit.set_state(AdcPin::A1, AdcState::Enabled));
    assert_eq!(Err(AdcReadError(AdcPin::A1, AdcState::Disabled)), unit.read(AdcPin::A1));
    let all = unit.read_all();
    assert_eq!(Ok(50), all.0[0]);
    assert!(all.0[2].is_err());
}

#[derive(Default)]
struct FakePwm {
    enabled: bool,
    duty: u16,
}

impl PwmOutput for FakePwm {
    fn enable(&mut self) {
        self.enabled = true;
    }
    fn disable(&mut self) {
        self.enabled = false;
    }
    fn set_duty(&mut self, duty: u16) {
        self.duty = duty;
    }
}

#[test]
fn pwm_duty_cycles() {
    let mut unit = GenericPwm::new(FakePwm::default(), FakePwm::default());
    assert_eq!(PwmState::Disabled, unit.get_state(PwmPin::P0));
    assert_eq!(1, unit.get_duty_cycle(PwmPin::P0));
    unit.set_duty_cycle(PwmPin::P0, 0);
    assert_eq!(PwmState::Enabled(1), unit.get_state(PwmPin::P0));
    unit.set_duty_cycle(PwmPin::P1, 200);
    assert_eq!(200, unit.get_duty_cycle(PwmPin::P1));
    unit.set_state(PwmPin::P1, PwmState::Disabled);
    assert_eq!(PwmState::Disabled, unit.get_state(PwmPin::P1));
    assert_eq!(PwmState::Enabled(1), unit.get_states().0[0]);
}
