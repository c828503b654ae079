use lc3_utp::error::Error;
use lc3_utp::interp::{Acv, CallStack, Interpreter, MachineState, ProcessorMode};
use lc3_utp::interp_builder::{InterpreterBuilder, NotSet};
use lc3_utp::isa::{Reg, Word, MCR_ADDR, PSR_ADDR};
use lc3_utp::mem_mapped::{KBDR_ADDR, KBSR_ADDR, DDR_ADDR};
use lc3_utp::misc::MemoryDump;
use lc3_utp::runner::run_program;
use lc3_utp::peripherals::adc::{Adc, AdcMiscError, AdcPin, AdcReadError, AdcState};
use lc3_utp::peripherals::clock::Clock;
use lc3_utp::peripherals::gpio::{Gpio, GpioMiscError, GpioPin, GpioReadError, GpioState, GpioWriteError};
use lc3_utp::peripherals::input::{Input, InputError};
use lc3_utp::peripherals::output::{Output, OutputError};
use lc3_utp::peripherals::pwm::{Pwm, PwmPin, PwmState};
use lc3_utp::peripherals::timers::{TimerId, TimerMode, TimerState, Timers};
use lc3_utp::peripherals::{DeviceState, Peripherals};

/// A machine's devices, kept in plain fields.
#[derive(Default)]
struct Devices {
    gpio: [Option<GpioState>; 8],
    adc: [bool; 6],
    pwm: [(Option<PwmState>, u8); 2],
    timer_modes: [bool; 2],
    timer_states: [Option<TimerState>; 2],
    ms: Word,
    key: Option<u8>,
    key_flag: bool,
    key_interrupts: bool,
    display: Vec<u8>,
    display_interrupts: bool,
}

fn gpio_idx(p: GpioPin) -> usize {
    match p {
        GpioPin::G0 => 0,
        GpioPin::G1 => 1,
        GpioPin::G2 => 2,
        GpioPin::G3 => 3,
        GpioPin::G4 => 4,
        GpioPin::G5 => 5,
        GpioPin::G6 => 6,
        GpioPin::G7 => 7,
    }
}

impl DeviceState for Devices {
    fn gpio_state(&self, pin: GpioPin) -> GpioState {
        self.gpio[gpio_idx(pin)].unwrap_or(GpioState::Disabled)
    }
    fn gpio_irq(&self, _pin: GpioPin) -> bool {
        false
    }
    fn gpio_pending(&self, _pin: GpioPin) -> bool {
        false
    }
    fn gpio_flag(&self, _pin: GpioPin) -> bool {
        false
    }
    fn adc_state(&self, pin: AdcPin) -> AdcState {
        if self.adc[pin.to_index()] { AdcState::Enabled } else { AdcState::Disabled }
    }
    fn pwm_state(&self, pin: PwmPin) -> PwmState {
        self.pwm[pin.to_index()].0.unwrap_or(PwmState::Disabled)
    }
    fn pwm_duty(&self, pin: PwmPin) -> u8 {
        self.pwm[pin.to_index()].1
    }
    fn duty_cycle_state(&self, pin: PwmPin, _duty: u8) -> PwmState {
        self.pwm_state(pin)
    }
    fn timer_mode(&self, timer: TimerId) -> TimerMode {
        if self.timer_modes[timer_idx(timer)] { TimerMode::Repeated } else { TimerMode::SingleShot }
    }
    fn timer_state(&self, timer: TimerId) -> TimerState {
        self.timer_states[timer_idx(timer)].unwrap_or(TimerState::Disabled)
    }
    fn timer_irq(&self, _timer: TimerId) -> bool {
        false
    }
    fn timer_pending(&self, _timer: TimerId) -> bool {
        false
    }
    fn timer_flag(&self, _timer: TimerId) -> bool {
        false
    }
    fn clock_ms(&self) -> Word {
        self.ms
    }
    fn input_irq(&self) -> bool {
        self.key_interrupts
    }
    fn input_pending(&self) -> bool {
        self.key_flag
    }
    fn input_flag(&self) -> bool {
        self.key_flag
    }
    fn output_irq(&self) -> bool {
        self.display_interrupts
    }
    fn output_pending(&self) -> bool {
        false
    }
    fn output_flag(&self) -> bool {
        false
    }
}

impl Gpio for Devices {
    fn set_state(&mut self, pin: GpioPin, state: GpioState) -> Result<(), GpioMiscError> {
        self.gpio[gpio_idx(pin)] = Some(state);
        Ok(())
    }
    fn get_state(&self, pin: GpioPin) -> GpioState {
        self.gpio[gpio_idx(pin)].unwrap_or(GpioState::Disabled)
    }
    fn read(&mut self, pin: GpioPin) -> Result<bool, GpioReadError> {
        Err(GpioReadError(pin, Gpio::get_state(self, pin)))
    }
    fn write(&mut self, pin: GpioPin, _bit: bool) -> Result<(), GpioWriteError> {
        Err(GpioWriteError(pin, Gpio::get_state(self, pin)))
    }
    fn interrupt_occurred(&mut self, _pin: GpioPin) -> bool {
        false
    }
    fn interrupts_enabled(&self, _pin: GpioPin) -> bool {
        false
    }
    fn reset_interrupt_flag(&mut self, _pin: GpioPin) {}
}

impl Adc for Devices {
    fn set_state(&mut self, pin: AdcPin, state: AdcState) -> Result<(), AdcMiscError> {
        self.adc[pin.to_index()] = state == AdcState::Enabled;
        Ok(())
    }
    fn get_state(&self, pin: AdcPin) -> AdcState {
        if self.adc[pin.to_index()] { AdcState::Enabled } else { AdcState::Disabled }
    }
    fn read(&mut self, pin: AdcPin) -> Result<u8, AdcReadError> {
        if self.adc[pin.to_index()] { Ok(42) } else { Err(AdcReadError(pin, AdcState::Disabled)) }
    }
}

impl Pwm for Devices {
    fn set_state(&mut self, pin: PwmPin, state: PwmState) {
        self.pwm[pin.to_index()].0 = Some(state);
    }
    fn get_state(&self, pin: PwmPin) -> PwmState {
        self.pwm[pin.to_index()].0.unwrap_or(PwmState::Disabled)
    }
    fn set_duty_cycle(&mut self, pin: PwmPin, duty_cycle: u8) {
        self.pwm[pin.to_index()].1 = duty_cycle;
    }
    fn get_duty_cycle(&self, pin: PwmPin) -> u8 {
        self.pwm[pin.to_index()].1
    }
}

fn timer_idx(t: TimerId) -> usize {
    match t {
        TimerId::T0 => 0,
        TimerId::T1 => 1,
    }
}

impl Timers for Devices {
    fn set_mode(&mut self, timer: TimerId, mode: TimerMode) {
        self.timer_modes[timer_idx(timer)] = mode == TimerMode::Repeated;
    }
    fn get_mode(&self, timer: TimerId) -> TimerMode {
        if self.timer_modes[timer_idx(timer)] { TimerMode::Repeated } else { TimerMode::SingleShot }
    }
    fn set_state(&mut self, timer: TimerId, state: TimerState) {
        self.timer_states[timer_idx(timer)] = Some(state);
    }
    fn get_state(&self, timer: TimerId) -> TimerState {
        self.timer_states[timer_idx(timer)].unwrap_or(TimerState::Disabled)
    }
    fn interrupt_occurred(&mut self, _timer: TimerId) -> bool {
        false
    }
    fn reset_interrupt_flag(&mut self, _timer: TimerId) {}
    fn interrupts_enabled(&mut self, _timer: TimerId) -> bool {
        false
    }
}

impl Clock for Devices {
    fn get_milliseconds(&self) -> Word {
        self.ms
    }
    fn set_milliseconds(&mut self, ms: Word) {
        self.ms = ms;
    }
}

impl Input for Devices {
    fn read_data(&mut self) -> Result<u8, InputError> {
        self.key_flag = false;
        self.key.take().ok_or(InputError::NoDataAvailable)
    }
    fn current_data_unread(&mut self) -> bool {
        self.key.is_some()
    }
    fn interrupt_occurred(&mut self) -> bool {
        self.key_flag
    }
    fn reset_interrupt_flag(&mut self) {
        self.key_flag = false;
    }
    fn set_interrupt_enable_bit(&mut self, bit: bool) {
        self.key_interrupts = bit;
    }
    fn interrupts_enabled(&self) -> bool {
        self.key_interrupts
    }
}

impl Output for Devices {
    fn write_data(&mut self, c: u8) -> Result<(), OutputError> {
        self.display.push(c);
        Ok(())
    }
    fn current_data_written(&self) -> bool {
        true
    }
    fn interrupt_occurred(&mut self) -> bool {
        false
    }
    fn reset_interrupt_flag(&mut self) {}
    fn set_interrupt_enable_bit(&mut self, bit: bool) {
        self.display_interrupts = bit;
    }
    fn interrupts_enabled(&self) -> bool {
        self.display_interrupts
    }
}

impl Peripherals for Devices {}

/// A machine whose memory holds `program` from 0x0200 on, plus `extra` words.
fn machine(program: &[Word], extra: &[(Word, Word)]) -> Interpreter<Devices> {
    let mut entries: Vec<(Word, Word)> = Vec::new();
    for (i, w) in program.iter().enumerate() {
        entries.push((0x0200 + i as Word, *w));
    }
    entries.extend_from_slice(extra);
    let mut mem = MemoryDump::blank();
    mem.layer_loadable(&entries);
    Interpreter::new(mem, Devices::default(), [7; 8], 0x1234, MachineState::Halted)
}

#[test]
fn reset_values() {
    let interp = machine(&[], &[]);
    assert_eq!(0x0200, interp.get_pc());
    assert_eq!(MachineState::Running, interp.get_machine_state());
    for r in [Reg::R0, Reg::R1, Reg::R2, Reg::R3, Reg::R4, Reg::R5, Reg::R6, Reg::R7] {
        assert_eq!(0, interp.get_register(r));
    }
    assert_eq!((false, true, false), interp.get_cc());
    assert_eq!(0x0700, interp.get_word_force_memory_backed(PSR_ADDR) & 0x0700);
    assert_eq!(0x8000, interp.get_word_force_memory_backed(MCR_ADDR) & 0x8000);
    assert_eq!(0, interp.get_call_stack_depth());
}

#[test]
fn reset_puts_the_devices_in_their_reset_state() {
    let mut devices = Devices::default();
    devices.ms = 55;
    devices.gpio[3] = Some(GpioState::Output);
    devices.adc[2] = true;
    devices.timer_modes = [true, true];
    devices.timer_states = [Some(TimerState::WithPeriod(10)), Some(TimerState::WithPeriod(20))];
    devices.key_flag = true;
    devices.pwm = [(Some(PwmState::Enabled(7)), 30), (None, 40)];
    let interp = Interpreter::new(MemoryDump::blank(), devices, [0; 8], 0, MachineState::Halted);
    let p = interp.get_peripherals();
    assert_eq!(0, p.clock_ms());
    assert_eq!(GpioState::Disabled, p.gpio_state(GpioPin::G3));
    assert_eq!(AdcState::Disabled, p.adc_state(AdcPin::A2));
    for t in [TimerId::T0, TimerId::T1] {
        assert_eq!(TimerMode::SingleShot, p.timer_mode(t));
        assert_eq!(TimerState::Disabled, p.timer_state(t));
    }
    assert!(!p.input_flag());
    for pin in [PwmPin::P0, PwmPin::P1] {
        assert_eq!(PwmState::Disabled, p.pwm_state(pin));
        assert_eq!(0, p.pwm_duty(pin));
    }
}

#[test]
fn add_immediate_sets_register_and_cc() {
    // ADD R1, R1, #5 ; ADD R2, R1, #-6
    let mut interp = machine(&[0x1265, 0x147A], &[]);
    assert_eq!(MachineState::Running, interp.step());
    assert_eq!(5, interp.get_register(Reg::R1));
    assert_eq!((false, false, true), interp.get_cc());
    interp.step();
    assert_eq!(0xFFFF, interp.get_register(Reg::R2));
    assert_eq!((true, false, false), interp.get_cc());
    assert_eq!(0x0202, interp.get_pc());
}

#[test]
fn branch_taken_on_zero() {
    // AND R0, R0, #0 ; BRz #2 ; ADD R1,R1,#1 ; ADD R1,R1,#1 ; ADD R2,R2,#1
    let mut interp = machine(&[0x5020, 0x0402, 0x1261, 0x1261, 0x14A1], &[]);
    interp.step();
    interp.step();
    assert_eq!(0x0204, interp.get_pc());
    interp.step();
    assert_eq!(0, interp.get_register(Reg::R1));
    assert_eq!(1, interp.get_register(Reg::R2));
}

#[test]
fn load_and_store() {
    // LD R3, #3 ; ST R3, #3 ; LEA R5, #1 ; LDR R4, R5, #0 ; .FILL xBEEF ; .FILL 0
    let program = [0x2603, 0x3603, 0xEA01, 0x6940, 0xBEEF, 0x0000];
    let mut interp = machine(&program, &[]);
    interp.step();
    assert_eq!(0xBEEF, interp.get_register(Reg::R3));
    interp.step();
    assert_eq!(0xBEEF, interp.get_word_force_memory_backed(0x0205));
    interp.step();
    assert_eq!(0x0204, interp.get_register(Reg::R5));
    interp.step();
    assert_eq!(0xBEEF, interp.get_register(Reg::R4));
}

#[test]
fn trap_and_return() {
    // LD R6, #2 ; TRAP x25 ; (next) ; .FILL x3000 ; handler at x0400: RTI
    let mut interp = machine(&[0x2C02, 0xF025, 0x0000, 0x3000], &[(0x0025, 0x0400), (0x0400, 0x8000)]);
    interp.step();
    assert_eq!(0x3000, interp.get_register(Reg::R6));
    interp.step();
    assert_eq!(0x0400, interp.get_pc());
    assert_eq!(0x2FFE, interp.get_register(Reg::R6));
    assert_eq!(0x0202, interp.get_word_force_memory_backed(0x2FFE));
    assert_eq!(1, interp.get_call_stack_depth());
    interp.step();
    assert_eq!(0x0202, interp.get_pc());
    assert_eq!(0x3000, interp.get_register(Reg::R6));
    assert_eq!(0, interp.get_call_stack_depth());
}

#[test]
fn trap_without_stack_overflows() {
    // R6 is 0 after a reset: pushing overflows the system stack.
    let mut interp = machine(&[0xF025], &[(0x0025, 0x0400)]);
    assert_eq!(MachineState::Halted, interp.step());
    assert_eq!(Some(Error::SystemStackOverflow), interp.get_error());
    assert_eq!(None, interp.get_error());
}

#[test]
fn user_mode_fetch_outside_user_space_is_an_acv() {
    // The image's PSR asks for user mode; the supervisor stack is at x3000.
    let mut interp = machine(&[0x1261], &[(PSR_ADDR, 0x8002), (0xFFFA, 0x3000), (0x0102, 0x0500)]);
    assert!(interp.is_acv(0x0200));
    assert_eq!(Err(Acv), interp.get_word(0x0200));
    interp.step();
    assert_eq!(0x0500, interp.get_pc());
    assert!(!interp.is_acv(0x0200));
    assert_eq!(0x2FFE, interp.get_register(Reg::R6));
    assert_eq!(0, interp.get_register(Reg::R1));
}

#[test]
fn illegal_opcode_raises_exception() {
    let mut interp = machine(&[0x2C02, 0xD000, 0x0000, 0x3000], &[(0x0101, 0x0600)]);
    interp.step();
    interp.step();
    assert_eq!(0x0600, interp.get_pc());
}

#[test]
fn clearing_the_mcr_running_bit_halts() {
    // AND R1, R1, #0 ; STI R1, #1 ; (next) ; .FILL xFFFE
    let mut interp = machine(&[0x5260, 0xB201, 0x0000, MCR_ADDR], &[]);
    interp.step();
    assert_eq!(MachineState::Halted, interp.step());
    let pc = interp.get_pc();
    assert_eq!(MachineState::Halted, interp.step());
    assert_eq!(pc, interp.get_pc());
}

#[test]
fn halt_clears_running_bit() {
    let mut interp = machine(&[], &[]);
    interp.halt();
    assert_eq!(MachineState::Halted, interp.get_machine_state());
    assert_eq!(0, interp.get_word_force_memory_backed(MCR_ADDR) & 0x8000);
}

#[test]
fn keyboard_and_display_registers() {
    let mut interp = machine(&[], &[]);
    interp.get_peripherals_mut().key = Some(b'q');
    assert_eq!(Ok(0x8000), interp.get_word(KBSR_ADDR));
    assert_eq!(Ok(b'q' as Word), interp.get_word(KBDR_ADDR));
    assert_eq!(Ok(0), interp.get_word(KBSR_ADDR));
    assert_eq!(Ok(()), interp.set_word(DDR_ADDR, b'!' as Word));
    assert_eq!(vec![b'!'], interp.get_peripherals().display);
}

#[test]
fn read_back_a_write() {
    let mut interp = machine(&[], &[]);
    assert_eq!(Ok(()), interp.set_word(0x4000, 0x1234));
    assert_eq!(Ok(0x1234), interp.get_word(0x4000));
    interp.set_register(Reg::R3, 9);
    assert_eq!(9, interp.get_register(Reg::R3));
    interp.set_pc(0x3000);
    assert_eq!(0x3000, interp.get_pc());
}

#[test]
fn subroutine_calls_are_recorded() {
    // JSR #1 ; (skipped) ; RET
    let mut interp = machine(&[0x4801, 0x0000, 0xC1C0], &[]);
    interp.step();
    assert_eq!(0x0202, interp.get_pc());
    assert_eq!(1, interp.get_call_stack_depth());
    assert_eq!(Some((0x0202, ProcessorMode::Supervisor)), interp.get_call_stack()[0]);
    interp.step();
    assert_eq!(0x0201, interp.get_pc());
    assert_eq!(0, interp.get_call_stack_depth());
}

#[test]
fn call_stack_push_pop() {
    let mut cs = CallStack::new();
    assert!(cs.push(0x3000, true));
    assert_eq!(1, cs.depth());
    assert_eq!(Some((0x3000, ProcessorMode::User)), cs.entries()[0]);
    assert!(cs.pop());
    assert_eq!(0, cs.depth());
    assert_eq!(None, cs.entries()[0]);
}

#[test]
fn builder_builds_a_reset_machine() {
    let interp = InterpreterBuilder::<Devices, NotSet, NotSet, NotSet, NotSet, NotSet>::new()
        .with_default_memory()
        .with_default_peripherals()
        .with_regs([1; 8])
        .with_pc(0x3000)
        .with_default_state()
        .build();
    assert_eq!(0x0200, interp.get_pc());
    assert_eq!(0, interp.get_register(Reg::R0));
    assert_eq!(MachineState::Running, interp.get_machine_state());
    let default_interp: Interpreter<Devices> = Default::default();
    assert_eq!(0x0200, default_interp.get_pc());
}

#[test]
fn reset_puts_the_image_back() {
    let mut interp = machine(&[0x1265], &[]);
    assert_eq!(Ok(()), interp.set_word(0x0200, 0));
    interp.step();
    interp.reset();
    assert_eq!(0x1265, interp.get_word_force_memory_backed(0x0200));
    assert_eq!(0x0200, interp.get_pc());
    interp.step();
    assert_eq!(5, interp.get_register(Reg::R1));
}

#[test]
fn registers_psr_and_pc_together() {
    let mut interp = machine(&[0x1265], &[]);
    interp.step();
    let (regs, psr, pc) = interp.get_registers_psr_and_pc();
    assert_eq!([0, 5, 0, 0, 0, 0, 0, 0], regs);
    assert_eq!(0x0701, psr);
    assert_eq!(0x0201, pc);
}

#[test]
fn keyboard_interrupt_and_return() {
    // ADD R1, R1, #1 at x0200; the keyboard's service routine at x0600 is RTI.
    let mut interp = machine(&[0x1261], &[(0x0180, 0x0600), (0x0600, 0x8000)]);
    interp.set_register(Reg::R6, 0x3000);
    interp.set_word_force_memory_backed(PSR_ADDR, 0x0002);
    {
        let devices = interp.get_peripherals_mut();
        devices.key_interrupts = true;
        devices.key_flag = true;
    }
    interp.step();
    assert_eq!(0x0600, interp.get_pc());
    assert_eq!(0x0400, interp.get_word_force_memory_backed(PSR_ADDR) & 0x0700);
    assert_eq!(0x2FFE, interp.get_register(Reg::R6));
    interp.step();
    assert_eq!(0x0200, interp.get_pc());
    assert_eq!(0x0002, interp.get_word_force_memory_backed(PSR_ADDR));
    assert_eq!(0x3000, interp.get_register(Reg::R6));
    interp.step();
    assert_eq!(1, interp.get_register(Reg::R1));
}

#[test]
fn absent_gpio_banks_are_reported() {
    let mut interp = machine(&[], &[]);
    assert_eq!(Ok(0x8000), interp.get_word(0xFE21));
    assert_eq!(
        Some(Error::OptionalPeripheralIsNotPresent(lc3_utp::error::OptionalPeripherals::GpioBankB)),
        interp.get_error()
    );
    assert_eq!(Ok(()), interp.set_word(0xFE30, 1));
    assert_eq!(
        Some(Error::OptionalPeripheralIsNotPresent(lc3_utp::error::OptionalPeripherals::GpioBankC)),
        interp.get_error()
    );
    assert_eq!(Ok(0), interp.get_word(DDR_ADDR));
}

#[test]
fn loads_through_a_pointer_reach_the_keyboard() {
    // LDI R2, #1 ; (unused) ; .FILL KBDR
    let mut interp = machine(&[0xA401, 0x0000, KBDR_ADDR], &[]);
    interp.get_peripherals_mut().key = Some(b'A');
    interp.step();
    assert_eq!(b'A' as Word, interp.get_register(Reg::R2));
    assert_eq!((false, false, true), interp.get_cc());
}

#[test]
fn a_run_is_checked_against_what_is_expected() {
    let mut interp = machine(&[], &[]);
    let regs = [None, Some(5), None, None, None, None, None, None];
    assert!(run_program(&mut interp, &[0x1265, 0x1261], 0x3000, 0x3000, 1, regs, Some(0x3001), &[(0x3000, 0x1265)]));
    let mut again = machine(&[], &[]);
    let wrong = [None, Some(6), None, None, None, None, None, None];
    assert!(!run_program(&mut again, &[0x1265], 0x3000, 0x3000, 1, wrong, None, &[]));
    let mut third = machine(&[], &[]);
    assert!(!run_program(&mut third, &[0x1265], 0x3000, 0x3000, 1, [None; 8], None, &[(0x3000, 7)]));
}

#[test]
fn device_registers_reach_the_devices() {
    let mut interp = machine(&[], &[]);
    assert_eq!(Ok(()), interp.set_word(0xFE12, 1));
    assert_eq!(GpioState::Output, interp.get_peripherals().gpio_state(GpioPin::G1));
    assert_eq!(Ok(1), interp.get_word(0xFE12));
    assert_eq!(Ok(()), interp.set_word(KBSR_ADDR, 0x4000));
    assert!(interp.get_peripherals().input_irq());
    assert_eq!(Ok(0x4000), interp.get_word(KBSR_ADDR));
    assert_eq!(Ok(()), interp.set_word(0xFE51, 0x0133));
    assert_eq!(0x33, interp.get_peripherals().pwm_duty(PwmPin::P0));
    assert_eq!(Ok(()), interp.set_word(0xFE60, 1));
    assert_eq!(TimerMode::Repeated, interp.get_peripherals().timer_mode(TimerId::T0));
    assert_eq!(Ok(()), interp.set_word(0xFE63, 250));
    assert_eq!(TimerState::WithPeriod(250), interp.get_peripherals().timer_state(TimerId::T1));
    assert_eq!(Ok(250), interp.get_word(0xFE63));
    assert_eq!(Ok(()), interp.set_word(0xFE70, 77));
    assert_eq!(Ok(77), interp.get_word(0xFE70));
}
