use lc3_utp::control::{Snapshot, SnapshotError, SnapshotUsingClone, State};
use lc3_utp::error::{Error, ErrorHandlingStrategy, OptionalPeripherals};
use lc3_utp::interp::{gpio_state_from_word, gpio_state_to_word, pwm_state_from_word, timer_state_from_word};
use lc3_utp::isa::{Instruction, Reg};
use lc3_utp::mem_mapped::{MCR, PSR};
use lc3_utp::misc::{to_memory_dump, AssembledProgram, LoadableIterator, MemoryDump};
use lc3_utp::peripherals::adc::{AdcPin, AdcPinArr, AdcReadError, AdcReadErrors, AdcState};
use lc3_utp::peripherals::gpio::{GpioBank, GpioPin, GpioReadError, GpioState, GpioWriteError};
use lc3_utp::peripherals::input::{Input, InputError};
use lc3_utp::peripherals::pwm::PwmState;
use lc3_utp::peripherals::timers::TimerState;
use lc3_utp::shims::{InputShim, Source, SourceShim};

#[test]
fn decoding_instructions() {
    assert_eq!(Ok(Instruction::AddImm { dr: Reg::R1, sr1: Reg::R1, imm5: 5 }), Instruction::try_from_word(0x1265));
    assert_eq!(Ok(Instruction::AddImm { dr: Reg::R2, sr1: Reg::R1, imm5: -6 }), Instruction::try_from_word(0x147A));
    assert_eq!(Ok(Instruction::AddReg { dr: Reg::R0, sr1: Reg::R1, sr2: Reg::R2 }), Instruction::try_from_word(0x1042));
    assert_eq!(Ok(Instruction::Br { n: false, z: true, p: false, offset9: 2 }), Instruction::try_from_word(0x0402));
    assert_eq!(Ok(Instruction::Br { n: true, z: true, p: true, offset9: -1 }), Instruction::try_from_word(0x0FFF));
    assert_eq!(Ok(Instruction::Jsr { offset11: 1 }), Instruction::try_from_word(0x4801));
    assert_eq!(Ok(Instruction::Jsrr { base: Reg::R3 }), Instruction::try_from_word(0x40C0));
    assert_eq!(Ok(Instruction::Ret), Instruction::try_from_word(0xC1C0));
    assert_eq!(Ok(Instruction::Jmp { base: Reg::R2 }), Instruction::try_from_word(0xC080));
    assert_eq!(Ok(Instruction::Not { dr: Reg::R4, sr: Reg::R5 }), Instruction::try_from_word(0x997F));
    assert_eq!(Ok(Instruction::Rti), Instruction::try_from_word(0x8000));
    assert_eq!(Ok(Instruction::Trap { trapvec: 0x25 }), Instruction::try_from_word(0xF025));
    assert_eq!(Ok(Instruction::Ldr { dr: Reg::R4, base: Reg::R5, offset6: -1 }), Instruction::try_from_word(0x697F));
    assert_eq!(Err(0xD000), Instruction::try_from_word(0xD000));
    assert!(Instruction::AddImm { dr: Reg::R0, sr1: Reg::R0, imm5: 0 }.sets_condition_codes());
    assert!(!Instruction::St { sr: Reg::R0, offset9: 0 }.sets_condition_codes());
}

#[test]
fn register_numbers() {
    assert_eq!(Some(Reg::R5), Reg::from_index(5));
    assert_eq!(None, Reg::from_index(8));
    assert_eq!(7, Reg::R7.to_index());
}

#[test]
fn psr_fields() {
    let psr = PSR(0x8702);
    assert_eq!(7, psr.get_priority());
    assert!(psr.in_user_mode());
    assert!(!psr.in_privileged_mode());
    assert_eq!((false, true, false), psr.get_cc());
    let p2 = psr.with_priority(3).with_mode(false).with_cc(0xFFFF);
    assert_eq!(PSR(0x0304), p2);
    assert!(p2.n() && !p2.z() && !p2.p());
    assert_eq!(PSR(0x0301), p2.with_cc(9));
}

#[test]
fn mcr_running_bit() {
    assert!(MCR(0x8000).is_running());
    assert!(!MCR(0x7FFF).is_running());
    assert_eq!(MCR(0x0012), MCR(0x8012).with_running_bit(false));
    assert_eq!(MCR(0x8012), MCR(0x0012).with_running_bit(true));
}

#[test]
fn device_register_values() {
    assert_eq!(GpioState::Input, gpio_state_from_word(0xFF06));
    assert_eq!(3, gpio_state_to_word(GpioState::Interrupt));
    assert_eq!(PwmState::Disabled, pwm_state_from_word(0x0100));
    assert_eq!(PwmState::Enabled(0x20), pwm_state_from_word(0x0120));
    assert_eq!(TimerState::Disabled, timer_state_from_word(0));
    assert_eq!(TimerState::WithPeriod(500), timer_state_from_word(500));
}

#[test]
fn layers_chain() {
    let mut mem = MemoryDump::blank();
    mem.layer_loadable(&[(0x3000, 1)]).layer_iterator(&[(0x3000, 2), (0x3001, 4)]);
    assert_eq!(2, mem.get(0x3000));
    assert_eq!(4, mem.get(0x3001));
}

#[test]
fn layering_later_entries_win() {
    let mut mem = MemoryDump::blank();
    mem.layer_loadable(&[(0x3000, 1), (0x3001, 2), (0x3000, 3)]);
    assert_eq!(3, mem.get(0x3000));
    assert_eq!(2, mem.get(0x3001));
    assert_eq!(0, mem.get(0x3002));
    mem.layer_iterator(&[(0x3001, 9)]);
    assert_eq!(9, mem.get(0x3001));
    let dump = to_memory_dump(&[(0x10, 0xAB)]);
    assert_eq!(0xAB, dump.get(0x10));
    let dump2 = vec![(0x11u16, 0xCDu16)].to_memory_dump();
    assert_eq!(0xCD, dump2.get(0x11));
    let entries = dump2.loadable();
    assert_eq!(65536, entries.len());
    assert_eq!((0x11, 0xCD), entries[0x11]);
}

#[test]
fn assembled_programs_load_only_what_they_set() {
    let mut words = vec![(0u16, false); 65536];
    words[0x3000] = (0x1234, true);
    words[0x3002] = (0, true);
    words[0x4000] = (0x5555, false);
    let prog = AssembledProgram::new(words);
    assert_eq!(vec![(0x3000u16, 0x1234u16), (0x3002, 0)], prog.loadable());
    let dump = MemoryDump::from_assembled(&prog);
    assert_eq!(0x1234, dump.get(0x3000));
    assert_eq!(0x5555, dump.get(0x4000));
    let from_words = MemoryDump::from_words(vec![7; 65536]);
    assert_eq!(7, from_words.get(0xFFFF));
    assert_eq!(65536, from_words.words().len());
}

#[test]
fn error_strategies() {
    assert_eq!(
        ErrorHandlingStrategy::DefaultValue(0),
        ErrorHandlingStrategy::from(Error::InvalidGpioRead(GpioReadError(GpioPin::G1, GpioState::Output), GpioBank::A, GpioPin::G1))
    );
    assert_eq!(
        ErrorHandlingStrategy::Warn,
        ErrorHandlingStrategy::from(Error::InvalidGpioWrite(GpioWriteError(GpioPin::G1, GpioState::Input), GpioBank::A, GpioPin::G1))
    );
    assert_eq!(
        ErrorHandlingStrategy::DefaultValue(0),
        ErrorHandlingStrategy::from(Error::InvalidAdcRead(AdcReadError(AdcPin::A2, AdcState::Disabled)))
    );
    assert_eq!(ErrorHandlingStrategy::Warn, ErrorHandlingStrategy::from(Error::SystemStackOverflow));
    assert_eq!(
        ErrorHandlingStrategy::Warn,
        ErrorHandlingStrategy::from(Error::OptionalPeripheralIsNotPresent(OptionalPeripherals::GpioBankB))
    );
    assert_eq!(ErrorHandlingStrategy::Warn, ErrorHandlingStrategy::from(Error::InputError(InputError::IoError)));
}

#[test]
fn adc_read_errors_collect_failures() {
    let reads = AdcPinArr([
        Ok(1),
        Err(AdcReadError(AdcPin::A1, AdcState::Disabled)),
        Ok(2),
        Ok(3),
        Err(AdcReadError(AdcPin::A4, AdcState::Disabled)),
        Ok(4),
    ]);
    let errs = AdcReadErrors::try_from(reads).unwrap();
    assert_eq!(None, errs.0 .0[0]);
    assert_eq!(Some((AdcPin::A1, AdcState::Disabled)), errs.0 .0[1]);
    assert_eq!(Some((AdcPin::A4, AdcState::Disabled)), errs.0 .0[4]);
}

#[test]
fn snapshots_put_back_the_recorded_state() {
    let mut s = SnapshotUsingClone(vec![1u8, 2]);
    let snap = s.record().unwrap();
    s.0.push(3);
    s.restore(snap).unwrap();
    assert_eq!(vec![1u8, 2], s.0);
    assert_ne!(State::Paused, State::Halted);
    assert_eq!(SnapshotError::Other("x"), SnapshotError::Other("x"));
}

#[test]
fn source_shim_hands_out_the_latest_ascii_character_once() {
    let mut src = SourceShim::new();
    assert_eq!(None, src.get_char());
    src.push('a');
    src.push('b');
    src.push('é');
    assert_eq!(Some(b'b'), src.get_char());
    assert_eq!(None, src.get_char());
}

#[test]
fn input_shim_reads_from_its_source() {
    let mut src = SourceShim::new();
    src.push('k');
    let mut inp = InputShim::using(src);
    assert!(!inp.interrupts_enabled());
    inp.set_interrupt_enable_bit(true);
    assert!(inp.interrupts_enabled());
    assert!(inp.current_data_unread());
    assert!(inp.interrupt_occurred());
    inp.reset_interrupt_flag();
    assert!(!inp.interrupt_occurred());
    assert_eq!(Ok(b'k'), inp.read_data());
    assert_eq!(Err(InputError::NoDataAvailable), inp.read_data());
    assert!(!inp.current_data_unread());

    let mut fresh = InputShim::new();
    assert_eq!(Err(InputError::NoDataAvailable), fresh.read_data());
    let _source: &SourceShim = fresh.get_inner_ref();
}

#[test]
fn input_shim_over_a_borrowed_source() {
    let mut src = SourceShim::new();
    src.push('z');
    {
        let mut inp = InputShim::with_ref(&mut src);
        assert_eq!(Ok(b'z'), inp.read_data());
    }
    assert_eq!(None, src.get_char());
}

#[test]
fn errors_convert_from_their_parts() {
    assert_eq!(Error::InputError(InputError::IoError), Error::from(InputError::IoError));
    let e: Error = AdcReadError(AdcPin::A1, AdcState::Disabled).into();
    assert_eq!(Error::InvalidAdcRead(AdcReadError(AdcPin::A1, AdcState::Disabled)), e);
    let w = GpioWriteError(GpioPin::G2, GpioState::Input);
    assert_eq!(Error::InvalidGpioWrite(w, GpioBank::A, GpioPin::G2), Error::from((w, GpioBank::A, GpioPin::G2)));
}

#[test]
fn pins_as_positions() {
    assert_eq!(3, usize::from(AdcPin::A3));
    assert_eq!(5, usize::from(AdcPin::A5));
    assert_eq!(1, usize::from(lc3_utp::peripherals::pwm::PwmPin::P1));
}
