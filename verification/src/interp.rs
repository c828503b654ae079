//! The instruction level simulator.
//!
//! The state of the machine (memory, registers, program counter, run state,
//! pending error and call stack) is modelled by [`Cpu`]; every operation of the
//! interpreter is specified by a spec function on that model. Accesses to the
//! memory mapped device registers go to the peripherals, whose answers the model
//! cannot know: the model marks such an access by setting [`Cpu::io`], and the
//! contracts promise the model's result whenever no device register was touched.
use crate::error::{Error, OptionalPeripherals};
use crate::isa::{
    Addr, Instruction, Reg, Word, ADDR_SPACE_SIZE_IN_WORDS, ACCESS_CONTROL_VIOLATION_EXCEPTION_VECTOR, BSP_ADDR,
    ILLEGAL_OPCODE_EXCEPTION_VECTOR, INTERRUPT_VECTOR_TABLE_START_ADDR, MCR_ADDR,
    MEM_MAPPED_START_ADDR, OS_START_ADDR, PRIVILEGE_MODE_VIOLATION_EXCEPTION_VECTOR, PSR_ADDR,
    TRAP_VECTOR_TABLE_START_ADDR, USER_PROGRAM_START_ADDR, decode_spec,
};
use crate::mem_mapped::{KBSR_ADDR, KBDR_ADDR, DSR_ADDR, DDR_ADDR, GPIO_MEM_MAPPED_BASE, ADC_MEM_MAPPED_BASE, PWM_MEM_MAPPED_BASE, TIMER_MEM_MAPPED_BASE, is_device, device_register, psr_priority, psr_with_priority, psr_with_mode, psr_with_cc, psr_user, PSR, MCR};
use crate::misc::MemoryDump;
use crate::peripherals::adc::{Adc, AdcPin, AdcState};
use crate::peripherals::clock::Clock;
use crate::peripherals::gpio::{Gpio, GpioBank, GpioPin, GpioState};
use crate::peripherals::input::Input;
use crate::peripherals::output::Output;
use crate::peripherals::pwm::{Pwm, PwmPin, PwmState};
use crate::peripherals::timers::{TimerId, TimerMode, TimerState, Timers};
use crate::interrupts::{
    agree_from, first_polled, lemma_keep_later, lemma_only_first, none_polled, polled,
    source_irq, source_pending, source_quiet,
};
use crate::peripherals::{same_except, DevicePart, DeviceState, Peripherals};
use vstd::prelude::*;

verus! {

/// An access control violation.
#[derive(Debug, Clone, Copy, PartialEq, Eq, Structural)]
pub struct Acv;

pub type ReadAttempt = Result<Word, Acv>;

pub type WriteAttempt = Result<(), Acv>;

#[derive(Debug, Clone, Copy, PartialEq, Eq, Structural)]
pub enum MachineState {
    Running,
    Halted,
}

impl MachineState {
    /// A machine starts out halted.
    pub fn new() -> (r: MachineState)
        ensures
            r == MachineState::Halted,
    {
        MachineState::Halted
    }
}

#[derive(Debug, Clone, Copy, PartialEq, Eq, Structural)]
pub enum ProcessorMode {
    User,
    Supervisor,
}

/// How many subroutine entries the call stack records.
pub const MAX_CALL_STACK_DEPTH: usize = 10;

/// The subroutines entered (and not yet left), with the mode each was entered in.
/// Calls nested deeper than [`MAX_CALL_STACK_DEPTH`] are counted but not recorded.
#[derive(Debug, Clone)]
pub struct CallStack {
    stack: Vec<Option<(Addr, ProcessorMode)>>,
    depth: u64,
}

pub open spec fn mode_of(in_user_mode: bool) -> ProcessorMode {
    if in_user_mode {
        ProcessorMode::User
    } else {
        ProcessorMode::Supervisor
    }
}

/// The call stack after entering `subroutine`: the entry is recorded when there
/// is room for it, and the depth always grows.
pub open spec fn push_calls(
    calls: Seq<Option<(Addr, ProcessorMode)>>,
    depth: u64,
    subroutine: Addr,
    in_user_mode: bool,
) -> (Seq<Option<(Addr, ProcessorMode)>>, u64) {
    (
        if depth < MAX_CALL_STACK_DEPTH {
            calls.update(depth as int, Some((subroutine, mode_of(in_user_mode))))
        } else {
            calls
        },
        (depth + 1) as u64,
    )
}

/// The call stack after leaving a subroutine: the depth drops (not below 0) and
/// the entry at the new depth is cleared when it is a recorded one.
pub open spec fn pop_calls(calls: Seq<Option<(Addr, ProcessorMode)>>, depth: u64) -> (
    Seq<Option<(Addr, ProcessorMode)>>,
    u64,
) {
    let d = if depth == 0 {
        0u64
    } else {
        (depth - 1) as u64
    };
    (
        if d < MAX_CALL_STACK_DEPTH {
            calls.update(d as int, None)
        } else {
            calls
        },
        d,
    )
}

/// A call stack is well formed when it has its fixed number of slots and every
/// slot at or above the depth is empty.
pub open spec fn calls_wf(calls: Seq<Option<(Addr, ProcessorMode)>>, depth: u64) -> bool {
    &&& calls.len() == MAX_CALL_STACK_DEPTH
    &&& forall|i: int| depth <= i < MAX_CALL_STACK_DEPTH ==> #[trigger] calls[i] is None
}

impl CallStack {
    pub closed spec fn calls(&self) -> Seq<Option<(Addr, ProcessorMode)>> {
        self.stack@
    }

    pub closed spec fn spec_depth(&self) -> u64 {
        self.depth
    }

    pub open spec fn wf(&self) -> bool {
        calls_wf(self.calls(), self.spec_depth())
    }

    /// An empty call stack.
    pub fn new() -> (r: CallStack)
        ensures
            r.wf(),
            r.spec_depth() == 0,
            r.calls() == Seq::new(MAX_CALL_STACK_DEPTH as nat, |i: int| None::<(Addr, ProcessorMode)>),
    {
        let stack = vec![None; MAX_CALL_STACK_DEPTH];
        assert(stack@ =~= Seq::new(MAX_CALL_STACK_DEPTH as nat, |i: int| None::<(Addr, ProcessorMode)>));
        CallStack { stack, depth: 0 }
    }

    /// Records entering `subroutine`; `true` when there was room to record it.
    pub fn push(&mut self, subroutine: Addr, in_user_mode: bool) -> (r: bool)
        requires
            old(self).wf(),
            old(self).spec_depth() < u64::MAX,
        ensures
            final(self).wf(),
            r == (old(self).spec_depth() < MAX_CALL_STACK_DEPTH),
            (final(self).calls(), final(self).spec_depth()) == push_calls(
                old(self).calls(),
                old(self).spec_depth(),
                subroutine,
                in_user_mode,
            ),
    {
        let mut success = false;
        if self.depth < MAX_CALL_STACK_DEPTH as u64 {
            let processor_mode = if in_user_mode {
                ProcessorMode::User
            } else {
                ProcessorMode::Supervisor
            };
            self.stack.set(self.depth as usize, Some((subroutine, processor_mode)));
            success = true;
        }
        self.depth = self.depth + 1;
        success
    }

    /// Records leaving a subroutine; `true` when the entry left was a recorded one.
    pub fn pop(&mut self) -> (r: bool)
        requires
            old(self).wf(),
        ensures
            final(self).wf(),
            r == ((if old(self).spec_depth() == 0 {
                0
            } else {
                old(self).spec_depth() - 1
            }) < MAX_CALL_STACK_DEPTH),
            (final(self).calls(), final(self).spec_depth()) == pop_calls(
                old(self).calls(),
                old(self).spec_depth(),
            ),
    {
        let mut success = false;
        self.depth = if self.depth == 0 {
            0
        } else {
            self.depth - 1
        };
        if self.depth < MAX_CALL_STACK_DEPTH as u64 {
            self.stack.set(self.depth as usize, None);
            success = true;
        }
        success
    }

    /// The recorded entries, one per slot.
    pub fn entries(&self) -> (r: Vec<Option<(Addr, ProcessorMode)>>)
        ensures
            r@ == self.calls(),
    {
        let mut out: Vec<Option<(Addr, ProcessorMode)>> = Vec::new();
        let mut i: usize = 0;
        while i < self.stack.len()
            invariant
                0 <= i <= self.stack@.len(),
                out@ =~= self.stack@.subrange(0, i as int),
            decreases self.stack@.len() - i,
        {
            out.push(self.stack[i]);
            i = i + 1;
        }
        out
    }

    pub fn depth(&self) -> (r: u64)
        ensures
            r == self.spec_depth(),
    {
        self.depth
    }
}

/// Entering a subroutine and then leaving it gives back the call stack as it was.
pub proof fn law_call_stack_push_pop(
    calls: Seq<Option<(Addr, ProcessorMode)>>,
    depth: u64,
    subroutine: Addr,
    in_user_mode: bool,
)
    requires
        calls_wf(calls, depth),
        depth < u64::MAX,
    ensures
        ({
            let (c1, d1) = push_calls(calls, depth, subroutine, in_user_mode);
            pop_calls(c1, d1) == (calls, depth)
        }),
{
    let (c1, d1) = push_calls(calls, depth, subroutine, in_user_mode);
    let (c2, d2) = pop_calls(c1, d1);
    assert(c2 =~= calls);
}

/// Every push and pop keeps the call stack well formed.
pub proof fn law_call_stack_wf(
    calls: Seq<Option<(Addr, ProcessorMode)>>,
    depth: u64,
    subroutine: Addr,
    in_user_mode: bool,
)
    requires
        calls_wf(calls, depth),
    ensures
        depth < u64::MAX ==> ({
            let (c, d) = push_calls(calls, depth, subroutine, in_user_mode);
            calls_wf(c, d)
        }),
        ({
            let (c, d) = pop_calls(calls, depth);
            calls_wf(c, d)
        }),
{
}

/// The model of the machine's state.
pub struct Cpu {
    pub mem: Seq<Word>,
    pub regs: Seq<Word>,
    pub pc: Word,
    pub state: MachineState,
    pub error: Option<Error>,
    pub calls: Seq<Option<(Addr, ProcessorMode)>>,
    pub depth: u64,
    /// Set once a memory mapped device register has been accessed.
    pub io: bool,
}

/// The parts of the model that a device register access leaves alone.
pub open spec fn same_core(a: Cpu, b: Cpu) -> bool {
    &&& a.mem == b.mem
    &&& a.regs == b.regs
    &&& a.pc == b.pc
    &&& a.state == b.state
    &&& a.calls == b.calls
    &&& a.depth == b.depth
}

/// Addresses that are plain memory: below the device region, or one of the
/// memory backed special registers.
pub open spec fn memory_backed(a: Addr) -> bool {
    a < MEM_MAPPED_START_ADDR || a == BSP_ADDR || a == PSR_ADDR || a == MCR_ADDR
}

pub open spec fn mark_io(c: Cpu) -> Cpu {
    Cpu { io: true, ..c }
}

/// Reading a word without the access check: memory for memory backed addresses,
/// the device for device registers, 0 elsewhere.
pub open spec fn read_s(c: Cpu, a: Addr) -> (Cpu, Word) {
    if memory_backed(a) {
        (c, c.mem[a as int])
    } else if is_device(a) {
        (mark_io(c), 0)
    } else {
        (c, 0)
    }
}

/// Stopping the machine: clears the running bit of the MCR and halts.
pub open spec fn halt_s(c: Cpu) -> Cpu {
    let m = c.mem[MCR_ADDR as int];
    Cpu {
        mem: if m & 0x8000 != 0 {
            c.mem.update(MCR_ADDR as int, m & 0x7FFF)
        } else {
            c.mem
        },
        state: MachineState::Halted,
        ..c
    }
}

/// Writing a word without the access check. Writing the MCR with its running
/// bit clear halts the machine; writes outside memory and the devices are dropped.
pub open spec fn write_s(c: Cpu, a: Addr, w: Word) -> Cpu {
    if a == MCR_ADDR {
        let c2 = Cpu { mem: c.mem.update(a as int, w), ..c };
        if w & 0x8000 == 0 {
            Cpu { state: MachineState::Halted, ..c2 }
        } else {
            c2
        }
    } else if memory_backed(a) {
        Cpu { mem: c.mem.update(a as int, w), ..c }
    } else if is_device(a) {
        mark_io(c)
    } else {
        c
    }
}

pub open spec fn psr(c: Cpu) -> Word {
    c.mem[PSR_ADDR as int]
}

pub open spec fn in_user_mode(c: Cpu) -> bool {
    psr(c) & 0x8000 != 0
}

pub open spec fn priority(c: Cpu) -> Word {
    (psr(c) >> 8u16) & 7
}

/// User mode may only touch the user region: from the start of user programs up
/// to the device region.
pub open spec fn is_acv_s(c: Cpu, a: Addr) -> bool {
    in_user_mode(c) && (a < USER_PROGRAM_START_ADDR || a >= MEM_MAPPED_START_ADDR)
}

pub open spec fn get_word_s(c: Cpu, a: Addr) -> (Cpu, Result<Word, Acv>) {
    if is_acv_s(c, a) {
        (c, Err(Acv))
    } else {
        let (c2, w) = read_s(c, a);
        (c2, Ok(w))
    }
}

pub open spec fn set_word_s(c: Cpu, a: Addr, w: Word) -> (Cpu, Result<(), Acv>) {
    if is_acv_s(c, a) {
        (c, Err(Acv))
    } else {
        (write_s(c, a, w), Ok(()))
    }
}

pub open spec fn set_cc_s(c: Cpu, w: Word) -> Cpu {
    Cpu { mem: c.mem.update(PSR_ADDR as int, psr_with_cc(psr(c), w)), ..c }
}

pub open spec fn set_priority_s(c: Cpu, priority: u8) -> Cpu {
    Cpu { mem: c.mem.update(PSR_ADDR as int, psr_with_priority(psr(c), priority)), ..c }
}

pub open spec fn with_reg(c: Cpu, r: Reg, w: Word) -> Cpu {
    Cpu { regs: c.regs.update(r.index(), w), ..c }
}

pub open spec fn reg_of(c: Cpu, r: Reg) -> Word {
    c.regs[r.index()]
}

/// Writing a register, and updating the condition codes when the instruction sets them.
pub open spec fn set_reg_s(c: Cpu, r: Reg, w: Word, sets_cc: bool) -> Cpu {
    let c2 = with_reg(c, r, w);
    if sets_cc {
        set_cc_s(c2, w)
    } else {
        c2
    }
}

/// Pushing onto the system stack. A stack pointer at or below the start of the
/// operating system is an overflow: the error is recorded and the machine halts.
pub open spec fn push_s(c: Cpu, w: Word) -> (Cpu, Result<(), Acv>) {
    let sp = reg_of(c, Reg::R6);
    if sp <= OS_START_ADDR {
        (halt_s(Cpu { error: Some(Error::SystemStackOverflow), ..c }), Err(Acv))
    } else {
        set_word_s(with_reg(c, Reg::R6, (sp - 1) as Word), (sp - 1) as Word, w)
    }
}

/// Popping off the stack; the stack pointer is left alone when the read fails.
pub open spec fn pop_s(c: Cpu) -> (Cpu, Result<Word, Acv>) {
    let (c2, r) = get_word_s(c, reg_of(c, Reg::R6));
    match r {
        Err(e) => (c2, Err(e)),
        Ok(w) => (
            with_reg(c2, Reg::R6, vstd::wrapping::u16_specs::wrapping_add(reg_of(c2, Reg::R6), 1)),
            Ok(w),
        ),
    }
}

/// Pushes the saved PSR and then the PC (so that the PC comes off first).
pub open spec fn push_state_s(c: Cpu, saved_psr: Word) -> (Cpu, Result<(), Acv>) {
    let (c2, r) = push_s(c, saved_psr);
    match r {
        Err(e) => (c2, Err(e)),
        Ok(_) => push_s(c2, c2.pc),
    }
}

/// Records entering a subroutine (once the depth counter is saturated nothing changes).
pub open spec fn push_cs_s(c: Cpu, subroutine: Addr, user: bool) -> Cpu {
    if c.depth < u64::MAX {
        let (calls, depth) = push_calls(c.calls, c.depth, subroutine, user);
        Cpu { calls, depth, ..c }
    } else {
        c
    }
}

pub open spec fn pop_cs_s(c: Cpu) -> Cpu {
    let (calls, depth) = pop_calls(c.calls, c.depth);
    Cpu { calls, depth, ..c }
}

/// Returning from a trap or interrupt: pops the PC and then the PSR.
pub open spec fn restore_state_s(c: Cpu) -> (Cpu, Result<(), Acv>) {
    let c1 = pop_cs_s(c);
    let (c2, r) = pop_s(c1);
    match r {
        Err(e) => (c2, Err(e)),
        Ok(pc) => {
            let (c4, r2) = pop_s(Cpu { pc, ..c2 });
            match r2 {
                Err(e) => (c4, Err(e)),
                Ok(p) => (Cpu { mem: c4.mem.update(PSR_ADDR as int, p), ..c4 }, Ok(())),
            }
        },
    }
}

/// Exchanges the stack pointer and the backup stack pointer.
pub open spec fn swap_stacks_s(c: Cpu) -> Cpu {
    Cpu {
        mem: c.mem.update(BSP_ADDR as int, reg_of(c, Reg::R6)),
        regs: c.regs.update(Reg::R6.index(), c.mem[BSP_ADDR as int]),
        ..c
    }
}

/// Entering a trap, exception or interrupt: switch to supervisor mode (and its
/// stack) when in user mode, then push the PSR as it was and the PC.
pub open spec fn prep_s(c: Cpu) -> Cpu {
    let saved = psr(c);
    let c1 = if in_user_mode(c) {
        swap_stacks_s(Cpu { mem: c.mem.update(PSR_ADDR as int, psr_with_mode(saved, false)), ..c })
    } else {
        c
    };
    push_state_s(c1, saved).0
}

/// Jumping through the vector table that starts at `table`: the routine's address
/// is the table entry for `vec`, and the entry is recorded on the call stack.
/// (The entry is read in supervisor mode; should the pushes have put the machine
/// back in user mode, the read fails and the PC stays put.)
pub open spec fn vector_s(c: Cpu, table: Addr, vec: u8) -> Cpu {
    let c1 = prep_s(c);
    let (c2, r) = get_word_s(c1, table | (vec as Word));
    let c3 = match r {
        Ok(w) => Cpu { pc: w, ..c2 },
        Err(_) => c2,
    };
    push_cs_s(c3, c3.pc, in_user_mode(c3))
}

pub open spec fn handle_trap_s(c: Cpu, vec: u8) -> Cpu {
    vector_s(c, TRAP_VECTOR_TABLE_START_ADDR, vec)
}

pub open spec fn handle_exception_s(c: Cpu, vec: u8) -> Cpu {
    vector_s(c, INTERRUPT_VECTOR_TABLE_START_ADDR, vec)
}

/// Taking an interrupt of the given priority: refused (`false`) while the
/// processor runs at a higher priority; otherwise the interrupted instruction is
/// re-run on return, the condition codes read zero and the priority is raised.
pub open spec fn handle_interrupt_s(c: Cpu, vec: u8, priority_level: u8) -> (Cpu, bool) {
    if priority(c) > priority_level {
        (c, false)
    } else {
        let c1 = Cpu { pc: vstd::wrapping::u16_specs::wrapping_sub(c.pc, 1), ..c };
        let c2 = handle_exception_s(c1, vec);
        (set_priority_s(set_cc_s(c2, 0), priority_level), true)
    }
}

/// The interrupt vectors, in the order the devices are polled: keyboard,
/// display, the eight GPIO pins of bank A, then the two timers.
pub open spec fn interrupt_vectors() -> Seq<u8> {
    seq![0x80u8, 0x81, 0x90, 0x91, 0x92, 0x93, 0x94, 0x95, 0x96, 0x97, 0xE0, 0xE1]
}

/// `now`, with devices `p`, is the state after taking the interrupt of source
/// `i` from `c`: that of handling its vector at priority 4, with the source's
/// flag lowered unless its interrupts were off by then.
pub open spec fn interrupt_dispatched<D: DeviceState>(c: Cpu, now: Cpu, p: D, i: int) -> bool {
    let post = handle_interrupt_s(c, interrupt_vectors()[i], 4).0;
    &&& same_core(now, post)
    &&& !post.io ==> now == post && source_quiet(p, i)
}

/// No interrupt is taken from `c` with devices `p`: the processor runs at
/// priority 4 or above, or no source asks for one.
pub open spec fn no_interrupt_due<D: DeviceState>(c: Cpu, p: D) -> bool {
    priority(c) >= 4 || none_polled(p)
}

/// `now` is the state after taking one of the interrupts from `c`, which runs
/// below the interrupts' priority.
pub open spec fn interrupt_taken(c: Cpu, now: Cpu) -> bool {
    &&& priority(c) < 4
    &&& exists|i: int|
        0 <= i < 12 && ({
            let post = #[trigger] handle_interrupt_s(c, interrupt_vectors()[i], 4).0;
            &&& same_core(now, post)
            &&& !post.io ==> now == post
        })
}

pub open spec fn add_signed(w: Word, off: i16) -> Word {
    vstd::wrapping::u16_specs::wrapping_add_signed(w, off)
}

/// Executing one decoded instruction (the PC already points past it).
pub open spec fn exec_s(c: Cpu, insn: Instruction) -> (Cpu, Result<(), Acv>) {
    let cc = insn.spec_sets_condition_codes();
    match insn {
        Instruction::AddReg { dr, sr1, sr2 } => (
            set_reg_s(c, dr, vstd::wrapping::u16_specs::wrapping_add(reg_of(c, sr1), reg_of(c, sr2)), cc),
            Ok(()),
        ),
        Instruction::AddImm { dr, sr1, imm5 } => (
            set_reg_s(c, dr, add_signed(reg_of(c, sr1), imm5), cc),
            Ok(()),
        ),
        Instruction::AndReg { dr, sr1, sr2 } => (
            set_reg_s(c, dr, reg_of(c, sr1) & reg_of(c, sr2), cc),
            Ok(()),
        ),
        Instruction::AndImm { dr, sr1, imm5 } => (
            set_reg_s(c, dr, reg_of(c, sr1) & (imm5 as Word), cc),
            Ok(()),
        ),
        Instruction::Br { n, z, p, offset9 } => {
            let ps = psr(c);
            if (n && ps & 4 != 0) || (z && ps & 2 != 0) || (p && ps & 1 != 0) {
                (Cpu { pc: add_signed(c.pc, offset9), ..c }, Ok(()))
            } else {
                (c, Ok(()))
            }
        },
        Instruction::Ret => (pop_cs_s(Cpu { pc: reg_of(c, Reg::R7), ..c }), Ok(())),
        Instruction::Jmp { base } => if base == Reg::R7 {
            (pop_cs_s(Cpu { pc: reg_of(c, Reg::R7), ..c }), Ok(()))
        } else {
            (Cpu { pc: reg_of(c, base), ..c }, Ok(()))
        },
        Instruction::Jsr { offset11 } => {
            let c1 = with_reg(c, Reg::R7, c.pc);
            let target = add_signed(c1.pc, offset11);
            let c2 = Cpu { pc: target, ..c1 };
            (push_cs_s(c2, target, in_user_mode(c2)), Ok(()))
        },
        Instruction::Jsrr { base } => {
            let target = reg_of(c, base);
            let c1 = Cpu { pc: target, ..c };
            let c2 = push_cs_s(c1, target, in_user_mode(c1));
            (with_reg(c2, Reg::R7, c.pc), Ok(()))
        },
        Instruction::Ld { dr, offset9 } => {
            let (c1, r) = get_word_s(c, add_signed(c.pc, offset9));
            match r {
                Err(e) => (c1, Err(e)),
                Ok(w) => (set_reg_s(c1, dr, w, cc), Ok(())),
            }
        },
        Instruction::Ldi { dr, offset9 } => {
            let (c1, r) = get_word_s(c, add_signed(c.pc, offset9));
            match r {
                Err(e) => (c1, Err(e)),
                Ok(a) => {
                    let (c2, r2) = get_word_s(c1, a);
                    match r2 {
                        Err(e) => (c2, Err(e)),
                        Ok(w) => (set_reg_s(c2, dr, w, cc), Ok(())),
                    }
                },
            }
        },
        Instruction::Ldr { dr, base, offset6 } => {
            let (c1, r) = get_word_s(c, add_signed(reg_of(c, base), offset6));
            match r {
                Err(e) => (c1, Err(e)),
                Ok(w) => (set_reg_s(c1, dr, w, cc), Ok(())),
            }
        },
        Instruction::Lea { dr, offset9 } => (
            set_reg_s(c, dr, add_signed(c.pc, offset9), cc),
            Ok(()),
        ),
        Instruction::Not { dr, sr } => (set_reg_s(c, dr, !reg_of(c, sr), cc), Ok(())),
        Instruction::Rti => if !in_user_mode(c) {
            let c1 = restore_state_s(c).0;
            if in_user_mode(c1) {
                (swap_stacks_s(c1), Ok(()))
            } else {
                (c1, Ok(()))
            }
        } else {
            (handle_exception_s(c, PRIVILEGE_MODE_VIOLATION_EXCEPTION_VECTOR), Ok(()))
        },
        Instruction::St { sr, offset9 } => set_word_s(c, add_signed(c.pc, offset9), reg_of(c, sr)),
        Instruction::Sti { sr, offset9 } => {
            let (c1, r) = get_word_s(c, add_signed(c.pc, offset9));
            match r {
                Err(e) => (c1, Err(e)),
                Ok(a) => set_word_s(c1, a, reg_of(c1, sr)),
            }
        },
        Instruction::Str { sr, base, offset6 } => set_word_s(
            c,
            add_signed(reg_of(c, base), offset6),
            reg_of(c, sr),
        ),
        Instruction::Trap { trapvec } => (handle_trap_s(c, trapvec), Ok(())),
    }
}

/// The address whose word a load or store (LD, LDR, LDI, ST, STR, STI) reads
/// or writes; for LDI and STI only when the pointer comes from memory that the
/// access check lets through. `None` for every other instruction.
pub open spec fn direct_access_addr(c: Cpu, insn: Instruction) -> Option<Addr> {
    match insn {
        Instruction::Ld { offset9, .. } => Some(add_signed(c.pc, offset9)),
        Instruction::St { offset9, .. } => Some(add_signed(c.pc, offset9)),
        Instruction::Ldr { base, offset6, .. } => Some(add_signed(reg_of(c, base), offset6)),
        Instruction::Str { base, offset6, .. } => Some(add_signed(reg_of(c, base), offset6)),
        Instruction::Ldi { offset9, .. } => pointer_at(c, add_signed(c.pc, offset9)),
        Instruction::Sti { offset9, .. } => pointer_at(c, add_signed(c.pc, offset9)),
        _ => None,
    }
}

/// The word at `a`, when `a` is memory that the access check lets through.
pub open spec fn pointer_at(c: Cpu, a: Addr) -> Option<Addr> {
    if memory_backed(a) && !is_acv_s(c, a) {
        Some(c.mem[a as int])
    } else {
        None
    }
}

/// The load or store reaches a device register at the address it reads or
/// writes (see [`direct_access_addr`]), and the access check lets it through.
pub open spec fn reaches_device(c: Cpu, insn: Instruction) -> bool {
    &&& direct_access_addr(c, insn) is Some
    &&& !memory_backed(direct_access_addr(c, insn)->Some_0)
    &&& is_device(direct_access_addr(c, insn)->Some_0)
    &&& !is_acv_s(c, direct_access_addr(c, insn)->Some_0)
}

/// `now`, with devices `p1`, is what a load or store whose access reaches a
/// device leaves of `c` with devices `p0`: a load puts some word `w`, the one
/// the device gave (see [`device_read_effect`]), in its destination register
/// and sets the condition codes from it; a store leaves registers and memory
/// alone and writes the source register to the device (see
/// [`device_write_effect`]). Either may record an error (see
/// [`device_read_outcome`] and [`device_write_outcome`]); nothing else changes.
pub open spec fn device_access_s<D: DeviceState>(c: Cpu, insn: Instruction, now: Cpu, p0: D, p1: D) -> bool {
    let ce = Cpu { error: now.error, ..c };
    let a = direct_access_addr(c, insn)->Some_0;
    let cc = insn.spec_sets_condition_codes();
    match insn {
        Instruction::Ld { dr, .. } => exists|w: Word|
            now == #[trigger] set_reg_s(ce, dr, w, cc) && device_read_effect(a, w, p0, p1),
        Instruction::Ldr { dr, .. } => exists|w: Word|
            now == #[trigger] set_reg_s(ce, dr, w, cc) && device_read_effect(a, w, p0, p1),
        Instruction::Ldi { dr, .. } => exists|w: Word|
            now == #[trigger] set_reg_s(ce, dr, w, cc) && device_read_effect(a, w, p0, p1),
        Instruction::St { sr, .. } => now == ce && device_write_effect(a, reg_of(c, sr), p0, p1),
        Instruction::Str { sr, .. } => now == ce && device_write_effect(a, reg_of(c, sr), p0, p1),
        Instruction::Sti { sr, .. } => now == ce && device_write_effect(a, reg_of(c, sr), p0, p1),
        _ => false,
    }
}

/// The instruction at the PC of `c` (already moved past it to give `c1`) is
/// fetched from memory without a fault and is a load or store whose access
/// reaches a device register.
pub open spec fn fetches_device_access(c: Cpu, c1: Cpu) -> bool {
    &&& memory_backed(c.pc)
    &&& !is_acv_s(c1, c.pc)
    &&& decode_spec(c1.mem[c.pc as int]) is Ok
    &&& reaches_device(c1, decode_spec(c1.mem[c.pc as int])->Ok_0)
}

/// Fetching, decoding and executing the instruction at `insn_addr`, with the PC
/// already past it. A failed access raises the access control violation
/// exception; an undecodable word raises the illegal opcode exception.
pub open spec fn fetch_exec_s(c: Cpu, insn_addr: Addr) -> Cpu {
    let (c1, r) = get_word_s(c, insn_addr);
    match r {
        Err(_) => handle_exception_s(c1, ACCESS_CONTROL_VIOLATION_EXCEPTION_VECTOR),
        Ok(w) => match decode_spec(w) {
            Err(_) => handle_exception_s(c1, ILLEGAL_OPCODE_EXCEPTION_VECTOR),
            Ok(insn) => {
                let (c2, r2) = exec_s(c1, insn);
                match r2 {
                    Err(_) => handle_exception_s(c2, ACCESS_CONTROL_VIOLATION_EXCEPTION_VECTOR),
                    Ok(_) => c2,
                }
            },
        },
    }
}

/// The state right after a reset, for the memory image `image`.
pub open spec fn reset_s(image: Seq<Word>) -> Cpu {
    let m1 = image.update(PSR_ADDR as int, psr_with_priority(image[PSR_ADDR as int], 7));
    let m2 = m1.update(MCR_ADDR as int, (m1[MCR_ADDR as int] & 0x7FFF) | 0x8000u16);
    let m3 = m2.update(PSR_ADDR as int, psr_with_cc(m2[PSR_ADDR as int], 0));
    Cpu {
        mem: m3,
        regs: seq![0u16, 0, 0, 0, 0, 0, 0, 0],
        pc: OS_START_ADDR,
        state: MachineState::Running,
        error: None,
        calls: Seq::new(MAX_CALL_STACK_DEPTH as nat, |i: int| None::<(Addr, ProcessorMode)>),
        depth: 0,
        io: false,
    }
}

/// The state after the PC has moved past the instruction at the PC.
pub open spec fn advance_pc(c: Cpu) -> Cpu {
    Cpu { pc: vstd::wrapping::u16_specs::wrapping_add(c.pc, 1), ..c }
}

/// One step of a running machine when no interrupt is taken.
pub open spec fn step_s(c: Cpu) -> Cpu {
    if c.state == MachineState::Halted {
        c
    } else {
        fetch_exec_s(advance_pc(c), c.pc)
    }
}

/// The GPIO pin numbered `i` (`i < 8`).
pub open spec fn gpio_pin_spec(i: int) -> GpioPin {
    if i == 0 {
        GpioPin::G0
    } else if i == 1 {
        GpioPin::G1
    } else if i == 2 {
        GpioPin::G2
    } else if i == 3 {
        GpioPin::G3
    } else if i == 4 {
        GpioPin::G4
    } else if i == 5 {
        GpioPin::G5
    } else if i == 6 {
        GpioPin::G6
    } else {
        GpioPin::G7
    }
}

/// The number of a GPIO pin.
pub open spec fn gpio_index(p: GpioPin) -> int {
    match p {
        GpioPin::G0 => 0,
        GpioPin::G1 => 1,
        GpioPin::G2 => 2,
        GpioPin::G3 => 3,
        GpioPin::G4 => 4,
        GpioPin::G5 => 5,
        GpioPin::G6 => 6,
        GpioPin::G7 => 7,
    }
}

/// Pins with different numbers are different pins.
pub proof fn lemma_gpio_pins_differ()
    ensures
        forall|i: int, j: int|
            0 <= i < 8 && 0 <= j < 8 && i != j ==> #[trigger] gpio_pin_spec(i) != #[trigger] gpio_pin_spec(j),
{
}

/// Every pin is the pin of its number.
pub proof fn lemma_gpio_pins_all()
    ensures
        forall|p: GpioPin| #[trigger] gpio_pin_spec(gpio_index(p)) == p && 0 <= gpio_index(p) < 8,
{
}

/// GPIO pin `p` is disabled (or, if the device refused, as it was in `before`)
/// and has its flag down.
pub open spec fn gpio_pin_reset<D: DeviceState>(before: D, after: D, p: GpioPin) -> bool {
    &&& after.gpio_state(p) == GpioState::Disabled || after.gpio_state(p) == before.gpio_state(p)
    &&& !after.gpio_flag(p)
}

pub open spec fn gpio_reset<D: DeviceState>(before: D, after: D) -> bool {
    forall|p: GpioPin|
        #![trigger after.gpio_state(p)]
        #![trigger after.gpio_flag(p)]
        gpio_pin_reset(before, after, p)
}

/// Every ADC pin is disabled, or as it was in `before` where the device refused.
pub open spec fn adc_reset<D: DeviceState>(before: D, after: D) -> bool {
    forall|p: AdcPin|
        #[trigger] after.adc_state(p) == AdcState::Disabled || after.adc_state(p) == before.adc_state(p)
}

/// Timer `t` is single shot and disabled, with its flag down.
pub open spec fn timer_reset<D: DeviceState>(after: D, t: TimerId) -> bool {
    &&& after.timer_mode(t) == TimerMode::SingleShot
    &&& after.timer_state(t) == TimerState::Disabled
    &&& !after.timer_flag(t)
}

/// PWM pin `p` was disabled and then given duty cycle 0: the duty cycle on
/// record is 0, and the pin is in the state that duty cycle 0 gives a disabled
/// pin.
pub open spec fn pwm_reset<D: DeviceState>(after: D, p: PwmPin) -> bool {
    &&& after.pwm_duty(p) == 0
    &&& exists|mid: D|
        mid.pwm_state(p) == PwmState::Disabled && after.pwm_state(p) == #[trigger] mid.duty_cycle_state(p, 0)
}

/// What a reset of the devices leaves, from `before` to `after`: GPIO and ADC
/// pins disabled (or as they were, where the device refused), GPIO flags down,
/// PWM pins disabled and then given duty cycle 0, both timers single shot and
/// disabled with their flags down, the clock at 0, and the keyboard and display
/// flags down.
pub open spec fn devices_reset<D: DeviceState>(before: D, after: D) -> bool {
    &&& gpio_reset(before, after)
    &&& adc_reset(before, after)
    &&& pwm_reset(after, PwmPin::P0)
    &&& pwm_reset(after, PwmPin::P1)
    &&& timer_reset(after, TimerId::T0)
    &&& timer_reset(after, TimerId::T1)
    &&& after.clock_ms() == 0
    &&& !after.input_flag()
    &&& !after.output_flag()
}

/// Helper: the GPIO pin numbered `i` (`i < 8`).
fn gpio_pin(i: u16) -> (r: GpioPin)
    requires
        i < 8,
    ensures
        r == gpio_pin_spec(i as int),
{
    if i == 0 {
        GpioPin::G0
    } else if i == 1 {
        GpioPin::G1
    } else if i == 2 {
        GpioPin::G2
    } else if i == 3 {
        GpioPin::G3
    } else if i == 4 {
        GpioPin::G4
    } else if i == 5 {
        GpioPin::G5
    } else if i == 6 {
        GpioPin::G6
    } else {
        GpioPin::G7
    }
}

/// The ADC pin numbered `i` (`i < 6`).
pub open spec fn adc_pin_spec(i: int) -> AdcPin {
    if i == 0 {
        AdcPin::A0
    } else if i == 1 {
        AdcPin::A1
    } else if i == 2 {
        AdcPin::A2
    } else if i == 3 {
        AdcPin::A3
    } else if i == 4 {
        AdcPin::A4
    } else {
        AdcPin::A5
    }
}

/// The GPIO state a control register value selects (its two low bits).
pub open spec fn gpio_word_state(value: Word) -> GpioState {
    if value & 3 == 0 {
        GpioState::Disabled
    } else if value & 3 == 1 {
        GpioState::Output
    } else if value & 3 == 2 {
        GpioState::Input
    } else {
        GpioState::Interrupt
    }
}

/// The control register value of a GPIO state.
pub open spec fn gpio_state_word(state: GpioState) -> Word {
    match state {
        GpioState::Disabled => 0u16,
        GpioState::Output => 1u16,
        GpioState::Input => 2u16,
        GpioState::Interrupt => 3u16,
    }
}

/// The PWM state a control register value selects: the low byte is the
/// period, and a zero period turns the pin off.
pub open spec fn pwm_word_state(value: Word) -> PwmState {
    if value & 0xFF == 0 {
        PwmState::Disabled
    } else {
        PwmState::Enabled((value & 0xFF) as u8)
    }
}

/// The timer state a period register value selects: zero turns it off.
pub open spec fn timer_word_state(value: Word) -> TimerState {
    if value == 0 {
        TimerState::Disabled
    } else {
        TimerState::WithPeriod(value)
    }
}

/// The GPIO pin of bank A whose register is at offset `off` from the GPIO base.
pub open spec fn gpio_reg_pin(off: int) -> GpioPin {
    gpio_pin_spec((off % 16) / 2)
}

/// What a read of device register `a`, giving `r`, does to the devices (from
/// `p0` to `p1`) and what it gives, as far as the device interfaces promise:
/// the keyboard status carries the keyboard's interrupt enable in bit 14; the
/// GPIO, ADC and PWM control registers, the timer period registers and the
/// clock give the state on record; data reads touch only their own device;
/// the other registers leave the devices alone.
pub open spec fn device_read_effect<D: DeviceState>(a: Addr, r: Word, p0: D, p1: D) -> bool {
    if a == KBSR_ADDR {
        &&& same_except(p0, p1, DevicePart::Input)
        &&& p1.input_irq() == p0.input_irq()
        &&& (r & 0x4000 != 0) <==> p0.input_irq()
    } else if a == KBDR_ADDR {
        same_except(p0, p1, DevicePart::Input)
    } else if a == DSR_ADDR || a == DDR_ADDR {
        p1 == p0
    } else if GPIO_MEM_MAPPED_BASE <= a < GPIO_MEM_MAPPED_BASE + 48 {
        let off = a - GPIO_MEM_MAPPED_BASE;
        if off / 16 != 0 {
            p1 == p0
        } else if off % 2 == 0 {
            p1 == p0 && r == gpio_state_word(p0.gpio_state(gpio_reg_pin(off)))
        } else {
            same_except(p0, p1, DevicePart::GpioPin(gpio_reg_pin(off)))
        }
    } else if ADC_MEM_MAPPED_BASE <= a < ADC_MEM_MAPPED_BASE + 12 {
        let off = a - ADC_MEM_MAPPED_BASE;
        let pin = adc_pin_spec(off / 2);
        if off % 2 == 0 {
            p1 == p0 && r == (if p0.adc_state(pin) == AdcState::Enabled {
                1u16
            } else {
                0u16
            })
        } else {
            same_except(p0, p1, DevicePart::AdcPin(pin))
        }
    } else if PWM_MEM_MAPPED_BASE <= a < PWM_MEM_MAPPED_BASE + 4 {
        let off = a - PWM_MEM_MAPPED_BASE;
        let pin = if off / 2 == 0 {
            PwmPin::P0
        } else {
            PwmPin::P1
        };
        &&& p1 == p0
        &&& off % 2 == 0 ==> r == match p0.pwm_state(pin) {
            PwmState::Disabled => 0u16,
            PwmState::Enabled(n) => n as u16,
        }
    } else if TIMER_MEM_MAPPED_BASE <= a < TIMER_MEM_MAPPED_BASE + 4 {
        let off = a - TIMER_MEM_MAPPED_BASE;
        let id = if off / 2 == 0 {
            TimerId::T0
        } else {
            TimerId::T1
        };
        &&& p1 == p0
        &&& off % 2 == 1 ==> r == match p0.timer_state(id) {
            TimerState::Disabled => 0u16,
            TimerState::WithPeriod(n) => n,
        }
    } else {
        p1 == p0 && r == p0.clock_ms()
    }
}

/// What a write of `value` to device register `a` does to the devices (from
/// `p0` to `p1`): the keyboard and display status registers set their
/// device's interrupt enable (bit 14 and bit 1); a control register sets its
/// pin's state (GPIO and ADC pins keep theirs where the device refuses, which
/// is recorded as an error); a GPIO data register drives its pin to bit 0 of
/// the word; a PWM data register gives its pin the duty cycle
/// in the low byte; the timer registers set a timer's mode (bit 0) or period;
/// the clock register sets the clock; every write touches only its own device.
pub open spec fn device_write_effect<D: DeviceState>(a: Addr, value: Word, p0: D, p1: D) -> bool {
    if a == KBSR_ADDR {
        same_except(p0, p1, DevicePart::Input) && p1.input_irq() == (value & 0x4000 != 0)
    } else if a == KBDR_ADDR {
        p1 == p0
    } else if a == DSR_ADDR {
        same_except(p0, p1, DevicePart::Output) && p1.output_irq() == (value & 2 != 0)
    } else if a == DDR_ADDR {
        same_except(p0, p1, DevicePart::Output)
    } else if GPIO_MEM_MAPPED_BASE <= a < GPIO_MEM_MAPPED_BASE + 48 {
        let off = a - GPIO_MEM_MAPPED_BASE;
        let pin = gpio_reg_pin(off);
        if off / 16 != 0 {
            p1 == p0
        } else if off % 2 == 0 {
            &&& same_except(p0, p1, DevicePart::GpioPin(pin))
            &&& p1.gpio_state(pin) == gpio_word_state(value) || p1.gpio_state(pin) == p0.gpio_state(pin)
        } else {
            same_except(p0, p1, DevicePart::GpioPin(pin)) && p1.gpio_level(pin) == (value & 1 != 0)
        }
    } else if ADC_MEM_MAPPED_BASE <= a < ADC_MEM_MAPPED_BASE + 12 {
        let off = a - ADC_MEM_MAPPED_BASE;
        let pin = adc_pin_spec(off / 2);
        if off % 2 == 0 {
            &&& same_except(p0, p1, DevicePart::AdcPin(pin))
            &&& p1.adc_state(pin) == (if value & 1 != 0 {
                AdcState::Enabled
            } else {
                AdcState::Disabled
            }) || p1.adc_state(pin) == p0.adc_state(pin)
        } else {
            p1 == p0
        }
    } else if PWM_MEM_MAPPED_BASE <= a < PWM_MEM_MAPPED_BASE + 4 {
        let off = a - PWM_MEM_MAPPED_BASE;
        let pin = if off / 2 == 0 {
            PwmPin::P0
        } else {
            PwmPin::P1
        };
        &&& same_except(p0, p1, DevicePart::PwmPin(pin))
        &&& off % 2 == 0 ==> p1.pwm_state(pin) == pwm_word_state(value)
        &&& off % 2 == 1 ==> p1.pwm_duty(pin) == (value & 0xFF) as u8
    } else if TIMER_MEM_MAPPED_BASE <= a < TIMER_MEM_MAPPED_BASE + 4 {
        let off = a - TIMER_MEM_MAPPED_BASE;
        let id = if off / 2 == 0 {
            TimerId::T0
        } else {
            TimerId::T1
        };
        &&& same_except(p0, p1, DevicePart::Timer(id))
        &&& off % 2 == 0 ==> p1.timer_mode(id) == (if value & 1 != 0 {
            TimerMode::Repeated
        } else {
            TimerMode::SingleShot
        })
        &&& off % 2 == 1 ==> p1.timer_state(id) == timer_word_state(value)
    } else {
        same_except(p0, p1, DevicePart::Clock) && p1.clock_ms() == value
    }
}

/// Helper: the ADC pin numbered `i` (`i < 6`).
fn adc_pin(i: u16) -> (r: AdcPin)
    requires
        i < 6,
    ensures
        r.index() == i,
        r == adc_pin_spec(i as int),
{
    if i == 0 {
        AdcPin::A0
    } else if i == 1 {
        AdcPin::A1
    } else if i == 2 {
        AdcPin::A2
    } else if i == 3 {
        AdcPin::A3
    } else if i == 4 {
        AdcPin::A4
    } else {
        AdcPin::A5
    }
}

/// What a read of the device register at `a` gives and does to the pending
/// error (`before` to `after`), as far as it does not depend on the devices'
/// answers: status registers carry only their status bits; data registers of
/// bank A, the ADC and the keyboard give their bits or, on a failed read, a
/// flagged value and the error; banks B and C are absent; the PWM registers
/// hold a byte and the timer mode registers a bit.
pub open spec fn device_read_outcome(a: Addr, r: Word, before: Option<Error>, after: Option<Error>) -> bool {
    if a == KBSR_ADDR {
        r & 0x3FFF == 0 && after == before
    } else if a == KBDR_ADDR {
        ||| r <= 0xFF && after == before
        ||| r == 0 && after matches Some(Error::InputError(_))
    } else if a == DSR_ADDR {
        (r == 0 || r == 0x8000) && after == before
    } else if a == DDR_ADDR {
        r == 0 && after == before
    } else if GPIO_MEM_MAPPED_BASE <= a < GPIO_MEM_MAPPED_BASE + 16 {
        let off = a - GPIO_MEM_MAPPED_BASE;
        if off % 2 == 0 {
            r <= 3 && after == before
        } else {
            ||| r <= 1 && after == before
            ||| r == 0x8000 && (after matches Some(Error::InvalidGpioRead(_, GpioBank::A, p)) && p
                == gpio_pin_spec(off / 2))
        }
    } else if GPIO_MEM_MAPPED_BASE + 16 <= a < GPIO_MEM_MAPPED_BASE + 48 {
        let off = a - GPIO_MEM_MAPPED_BASE;
        &&& after == Some(Error::OptionalPeripheralIsNotPresent(
            if off < 32 {
                OptionalPeripherals::GpioBankB
            } else {
                OptionalPeripherals::GpioBankC
            },
        ))
        &&& r == (if off % 2 == 0 {
            0u16
        } else {
            0x8000u16
        })
    } else if ADC_MEM_MAPPED_BASE <= a < ADC_MEM_MAPPED_BASE + 12 {
        if (a - ADC_MEM_MAPPED_BASE) % 2 == 0 {
            r <= 1 && after == before
        } else {
            ||| r <= 0xFF && after == before
            ||| r == 0x8000 && after matches Some(Error::InvalidAdcRead(_))
        }
    } else if PWM_MEM_MAPPED_BASE <= a < PWM_MEM_MAPPED_BASE + 4 {
        r <= 0xFF && after == before
    } else if TIMER_MEM_MAPPED_BASE <= a < TIMER_MEM_MAPPED_BASE + 4 {
        ((a - TIMER_MEM_MAPPED_BASE) % 2 == 0 ==> r <= 1) && after == before
    } else {
        after == before
    }
}

/// What a write of the device register at `a` does to the pending error
/// (`before` to `after`): a write to bank B or C records that the bank is
/// absent; a write to a bank A register or an ADC control register may record
/// the device's refusal; any other write leaves the error alone.
pub open spec fn device_write_outcome(a: Addr, before: Option<Error>, after: Option<Error>) -> bool {
    if GPIO_MEM_MAPPED_BASE <= a < GPIO_MEM_MAPPED_BASE + 16 {
        let off = a - GPIO_MEM_MAPPED_BASE;
        ||| after == before
        ||| off % 2 == 0 && after matches Some(Error::GpioMiscError(_))
        ||| off % 2 == 1 && (after matches Some(Error::InvalidGpioWrite(_, GpioBank::A, p)) && p
            == gpio_pin_spec(off / 2))
    } else if GPIO_MEM_MAPPED_BASE + 16 <= a < GPIO_MEM_MAPPED_BASE + 48 {
        after == Some(Error::OptionalPeripheralIsNotPresent(
            if a - GPIO_MEM_MAPPED_BASE < 32 {
                OptionalPeripherals::GpioBankB
            } else {
                OptionalPeripherals::GpioBankC
            },
        ))
    } else if ADC_MEM_MAPPED_BASE <= a < ADC_MEM_MAPPED_BASE + 12 && (a - ADC_MEM_MAPPED_BASE) % 2
        == 0 {
        after == before || after matches Some(Error::AdcMiscError(_))
    } else {
        after == before
    }
}

/// The GPIO state that a control register value selects (its two low bits).
pub fn gpio_state_from_word(value: Word) -> (r: GpioState)
    ensures
        r == gpio_word_state(value),
{
    let v = value & 3;
    if v == 0 {
        GpioState::Disabled
    } else if v == 1 {
        GpioState::Output
    } else if v == 2 {
        GpioState::Input
    } else {
        GpioState::Interrupt
    }
}

/// The control register value of a GPIO state.
pub fn gpio_state_to_word(state: GpioState) -> (r: Word)
    ensures
        r == gpio_state_word(state),
{
    match state {
        GpioState::Disabled => 0,
        GpioState::Output => 1,
        GpioState::Input => 2,
        GpioState::Interrupt => 3,
    }
}

/// The PWM state that a control register value selects: its low byte is the
/// period, and a zero period turns the pin off.
pub fn pwm_state_from_word(value: Word) -> (r: PwmState)
    ensures
        r == pwm_word_state(value),
{
    proof {
        assert(value & 0xFF < 256) by (bit_vector);
    }
    let v = (value & 0xFF) as u8;
    if v == 0 {
        PwmState::Disabled
    } else {
        PwmState::Enabled(v)
    }
}

/// The timer state that a period register value selects: zero turns the timer off.
pub fn timer_state_from_word(value: Word) -> (r: TimerState)
    ensures
        r == timer_word_state(value),
{
    if value == 0 {
        TimerState::Disabled
    } else {
        TimerState::WithPeriod(value)
    }
}

/// The LC-3 interpreter: memory, registers, program counter and the peripherals.
pub struct Interpreter<P: Peripherals> {
    memory: Vec<Word>,
    image: Vec<Word>,
    peripherals: P,
    regs: Vec<Word>,
    pc: Word,
    state: MachineState,
    error: Option<Error>,
    call_stack: CallStack,
}

impl<P: Peripherals> Interpreter<P> {
    /// The model of the machine's state.
    pub closed spec fn cpu(&self) -> Cpu {
        Cpu {
            mem: self.memory@,
            regs: self.regs@,
            pc: self.pc,
            state: self.state,
            error: self.error,
            calls: self.call_stack.calls(),
            depth: self.call_stack.spec_depth(),
            io: false,
        }
    }

    /// The memory contents that a reset restores.
    pub closed spec fn image(&self) -> Seq<Word> {
        self.image@
    }

/// The model of an interpreter never carries the mark of a device access:
    /// that mark only tells a model step apart from what the devices did.
    pub proof fn lemma_model_untouched(&self)
        ensures
            !self.cpu().io,
    {
    }

        pub closed spec fn wf(&self) -> bool {
        &&& self.memory@.len() == ADDR_SPACE_SIZE_IN_WORDS
        &&& self.image@.len() == ADDR_SPACE_SIZE_IN_WORDS
        &&& self.regs@.len() == Reg::NUM_REGS
        &&& self.call_stack.wf()
    }

    /// The machine's devices.
    pub closed spec fn peripherals(&self) -> P {
        self.peripherals
    }

    pub fn get_peripherals(&self) -> (r: &P)
        ensures
            *r == self.peripherals(),
    {
        &self.peripherals
    }

    pub fn get_peripherals_mut(&mut self) -> (r: &mut P)
        requires
            old(self).wf(),
        ensures
            *r == old(self).peripherals(),
            final(self).peripherals() == *final(r),
            final(self).wf(),
            final(self).cpu() == old(self).cpu(),
            final(self).image() == old(self).image(),
    {
        &mut self.peripherals
    }

    /// Reads memory directly, devices and access checks aside.
    pub fn get_word_force_memory_backed(&self, addr: Addr) -> (r: Word)
        requires
            self.wf(),
        ensures
            r == self.cpu().mem[addr as int],
    {
        self.memory[addr as usize]
    }

    /// Writes memory directly, devices and access checks aside.
    pub fn set_word_force_memory_backed(&mut self, addr: Addr, word: Word)
        requires
            old(self).wf(),
        ensures
            final(self).peripherals() == old(self).peripherals(),
            final(self).image() == old(self).image(),
            final(self).wf(),
            final(self).cpu() == (Cpu { mem: old(self).cpu().mem.update(addr as int, word), ..old(self).cpu() }),
    {
        self.memory.set(addr as usize, word);
    }

    pub fn get_register(&self, reg: Reg) -> (r: Word)
        requires
            self.wf(),
        ensures
            r == reg_of(self.cpu(), reg),
    {
        self.regs[reg.to_index()]
    }

    pub fn set_register(&mut self, reg: Reg, word: Word)
        requires
            old(self).wf(),
        ensures
            final(self).peripherals() == old(self).peripherals(),
            final(self).wf(),
            final(self).cpu() == with_reg(old(self).cpu(), reg, word),
    {
        let i = reg.to_index();
        self.regs.set(i, word);
    }

    /// The registers, the PSR and the PC, as a controller reads them.
    pub fn get_registers_psr_and_pc(&self) -> (r: ([Word; 8], Word, Word))
        requires
            self.wf(),
        ensures
            r.0@ == self.cpu().regs,
            r.1 == psr(self.cpu()),
            r.2 == self.cpu().pc,
    {
        let regs: [Word; 8] = [
            self.regs[0],
            self.regs[1],
            self.regs[2],
            self.regs[3],
            self.regs[4],
            self.regs[5],
            self.regs[6],
            self.regs[7],
        ];
        assert(regs@ =~= self.regs@);
        (regs, self.memory[PSR_ADDR as usize], self.pc)
    }

    pub fn get_pc(&self) -> (r: Addr)
        ensures
            r == self.cpu().pc,
    {
        self.pc
    }

    pub fn set_pc(&mut self, addr: Addr)
        ensures
            final(self).peripherals() == old(self).peripherals(),
            final(self).wf() == old(self).wf(),
            final(self).cpu() == (Cpu { pc: addr, ..old(self).cpu() }),
    {
        self.pc = addr;
    }

    pub fn get_machine_state(&self) -> (r: MachineState)
        ensures
            r == self.cpu().state,
    {
        self.state
    }

    /// Records an error for the control interface to pick up.
    pub fn set_error(&mut self, err: Error)
        ensures
            final(self).peripherals() == old(self).peripherals(),
            final(self).wf() == old(self).wf(),
            final(self).cpu() == (Cpu { error: Some(err), ..old(self).cpu() }),
    {
        self.error = Some(err);
    }

    /// Takes the pending error, if any.
    pub fn get_error(&mut self) -> (r: Option<Error>)
        ensures
            final(self).wf() == old(self).wf(),
            r == old(self).cpu().error,
            final(self).cpu() == (Cpu { error: None, ..old(self).cpu() }),
    {
        let e = self.error;
        self.error = None;
        e
    }

    /// The recorded call stack entries, one per slot.
    pub fn get_call_stack(&self) -> (r: Vec<Option<(Addr, ProcessorMode)>>)
        ensures
            r@ == self.cpu().calls,
    {
        self.call_stack.entries()
    }

    pub fn get_call_stack_depth(&self) -> (r: u64)
        ensures
            r == self.cpu().depth,
    {
        self.call_stack.depth()
    }

    /// Stops the machine: clears the MCR's running bit and halts.
    pub fn halt(&mut self)
        requires
            old(self).wf(),
        ensures
            final(self).peripherals() == old(self).peripherals(),
            final(self).wf(),
            final(self).cpu() == halt_s(old(self).cpu()),
    {
        let mcr = MCR(self.memory[MCR_ADDR as usize]);
        if mcr.is_running() {
            let m = mcr.with_running_bit(false);
            self.set_word_force_memory_backed(MCR_ADDR, m.0);
            proof {
                let v = mcr.0;
                assert((v & 0x7FFF) | 0u16 == v & 0x7FFF) by (bit_vector);
            }
        }
        self.state = MachineState::Halted;
    }

    fn device_read(&mut self, a: Addr) -> (r: Word)
        requires
            old(self).wf(),
            is_device(a),
        ensures
            final(self).wf(),
            same_core(final(self).cpu(), old(self).cpu()),
            final(self).image() == old(self).image(),
            device_read_outcome(a, r, old(self).cpu().error, final(self).cpu().error),
            device_read_effect(a, r, old(self).peripherals(), final(self).peripherals()),
    {
        if a == KBSR_ADDR {
            let ready = Input::current_data_unread(&mut self.peripherals);
            let enabled = Input::interrupts_enabled(&self.peripherals);
            let hi: u16 = if ready {
                0x8000u16
            } else {
                0u16
            };
            let lo: u16 = if enabled {
                0x4000u16
            } else {
                0u16
            };
            assert((hi | lo) & 0x3FFF == 0 && (((hi | lo) & 0x4000 != 0) == (lo == 0x4000))) by (bit_vector)
                requires
                    hi == 0 || hi == 0x8000,
                    lo == 0 || lo == 0x4000,
            ;
            hi | lo
        } else if a == KBDR_ADDR {
            match Input::read_data(&mut self.peripherals) {
                Ok(v) => v as Word,
                Err(e) => {
                    self.error = Some(Error::InputError(e));
                    0
                },
            }
        } else if a == DSR_ADDR {
            if Output::current_data_written(&self.peripherals) {
                0x8000
            } else {
                0
            }
        } else if a == DDR_ADDR {
            0
        } else if GPIO_MEM_MAPPED_BASE <= a && a < GPIO_MEM_MAPPED_BASE + 48 {
            let off = a - GPIO_MEM_MAPPED_BASE;
            let bank = off / 16;
            let pin_num = (off % 16) / 2;
            let is_cr = off % 2 == 0;
            if bank == 0 {
                assert(off % 16 == off);
                let pin = gpio_pin(pin_num);
                assert(pin == gpio_reg_pin(off as int));
                if is_cr {
                    gpio_state_to_word(Gpio::get_state(&self.peripherals, pin))
                } else {
                    match Gpio::read(&mut self.peripherals, pin) {
                        Ok(b) => if b {
                            1
                        } else {
                            0
                        },
                        Err(e) => {
                            self.error = Some(Error::InvalidGpioRead(e, GpioBank::A, pin));
                            0x8000
                        },
                    }
                }
            } else {
                let missing = if bank == 1 {
                    OptionalPeripherals::GpioBankB
                } else {
                    OptionalPeripherals::GpioBankC
                };
                self.error = Some(Error::OptionalPeripheralIsNotPresent(missing));
                if is_cr {
                    0
                } else {
                    0x8000
                }
            }
        } else if ADC_MEM_MAPPED_BASE <= a && a < ADC_MEM_MAPPED_BASE + 12 {
            let off = a - ADC_MEM_MAPPED_BASE;
            let pin = adc_pin(off / 2);
            if off % 2 == 0 {
                match Adc::get_state(&self.peripherals, pin) {
                    AdcState::Disabled => 0,
                    AdcState::Enabled => 1,
                }
            } else {
                match Adc::read(&mut self.peripherals, pin) {
                    Ok(v) => v as Word,
                    Err(e) => {
                        self.error = Some(Error::InvalidAdcRead(e));
                        0x8000
                    },
                }
            }
        } else if PWM_MEM_MAPPED_BASE <= a && a < PWM_MEM_MAPPED_BASE + 4 {
            let off = a - PWM_MEM_MAPPED_BASE;
            let pin = if off / 2 == 0 {
                PwmPin::P0
            } else {
                PwmPin::P1
            };
            if off % 2 == 0 {
                match Pwm::get_state(&self.peripherals, pin) {
                    PwmState::Disabled => 0,
                    PwmState::Enabled(n) => n as Word,
                }
            } else {
                Pwm::get_duty_cycle(&self.peripherals, pin) as Word
            }
        } else if TIMER_MEM_MAPPED_BASE <= a && a < TIMER_MEM_MAPPED_BASE + 4 {
            let off = a - TIMER_MEM_MAPPED_BASE;
            let id = if off / 2 == 0 {
                TimerId::T0
            } else {
                TimerId::T1
            };
            if off % 2 == 0 {
                match Timers::get_mode(&self.peripherals, id) {
                    TimerMode::SingleShot => 0,
                    TimerMode::Repeated => 1,
                }
            } else {
                match Timers::get_state(&self.peripherals, id) {
                    TimerState::Disabled => 0,
                    TimerState::WithPeriod(p) => p,
                }
            }
        } else {
            Clock::get_milliseconds(&self.peripherals)
        }
    }

    fn device_write(&mut self, a: Addr, value: Word)
        requires
            old(self).wf(),
            is_device(a),
        ensures
            final(self).wf(),
            same_core(final(self).cpu(), old(self).cpu()),
            final(self).image() == old(self).image(),
            device_write_outcome(a, old(self).cpu().error, final(self).cpu().error),
            device_write_effect(a, value, old(self).peripherals(), final(self).peripherals()),
    {
        if a == KBSR_ADDR {
            Input::set_interrupt_enable_bit(&mut self.peripherals, value & 0x4000 != 0);
        } else if a == KBDR_ADDR {
        } else if a == DSR_ADDR {
            Output::set_interrupt_enable_bit(&mut self.peripherals, value & 2 != 0);
        } else if a == DDR_ADDR {
            let _ = Output::write_data(&mut self.peripherals, (value & 0xFF) as u8);
        } else if GPIO_MEM_MAPPED_BASE <= a && a < GPIO_MEM_MAPPED_BASE + 48 {
            let off = a - GPIO_MEM_MAPPED_BASE;
            let bank = off / 16;
            let pin_num = (off % 16) / 2;
            let is_cr = off % 2 == 0;
            if bank == 0 {
                let pin = gpio_pin(pin_num);
                if is_cr {
                    let state = gpio_state_from_word(value);
                    match Gpio::set_state(&mut self.peripherals, pin, state) {
                        Ok(()) => {},
                        Err(e) => {
                            self.error = Some(Error::GpioMiscError(e));
                        },
                    }
                } else {
                    match Gpio::write(&mut self.peripherals, pin, value & 1 != 0) {
                        Ok(()) => {},
                        Err(e) => {
                            self.error = Some(Error::InvalidGpioWrite(e, GpioBank::A, pin));
                        },
                    }
                }
            } else {
                let missing = if bank == 1 {
                    OptionalPeripherals::GpioBankB
                } else {
                    OptionalPeripherals::GpioBankC
                };
                self.error = Some(Error::OptionalPeripheralIsNotPresent(missing));
            }
        } else if ADC_MEM_MAPPED_BASE <= a && a < ADC_MEM_MAPPED_BASE + 12 {
            let off = a - ADC_MEM_MAPPED_BASE;
            let pin = adc_pin(off / 2);
            if off % 2 == 0 {
                let state = if value & 1 != 0 {
                    AdcState::Enabled
                } else {
                    AdcState::Disabled
                };
                match Adc::set_state(&mut self.peripherals, pin, state) {
                    Ok(()) => {},
                    Err(e) => {
                        self.error = Some(Error::AdcMiscError(e));
                    },
                }
            }
        } else if PWM_MEM_MAPPED_BASE <= a && a < PWM_MEM_MAPPED_BASE + 4 {
            let off = a - PWM_MEM_MAPPED_BASE;
            let pin = if off / 2 == 0 {
                PwmPin::P0
            } else {
                PwmPin::P1
            };
            if off % 2 == 0 {
                Pwm::set_state(&mut self.peripherals, pin, pwm_state_from_word(value));
            } else {
                Pwm::set_duty_cycle(&mut self.peripherals, pin, (value & 0xFF) as u8);
            }
        } else if TIMER_MEM_MAPPED_BASE <= a && a < TIMER_MEM_MAPPED_BASE + 4 {
            let off = a - TIMER_MEM_MAPPED_BASE;
            let id = if off / 2 == 0 {
                TimerId::T0
            } else {
                TimerId::T1
            };
            if off % 2 == 0 {
                let mode = if value & 1 != 0 {
                    TimerMode::Repeated
                } else {
                    TimerMode::SingleShot
                };
                Timers::set_mode(&mut self.peripherals, id, mode);
            } else {
                Timers::set_state(&mut self.peripherals, id, timer_state_from_word(value));
            }
        } else {
            Clock::set_milliseconds(&mut self.peripherals, value);
        }
    }

    /// Reads a word without the access check: memory, a device register, or 0
    /// for the unused part of the device region.
    pub fn get_word_unchecked(&mut self, addr: Addr) -> (r: Word)
        requires
            old(self).wf(),
        ensures
            is_device(addr) ==> device_read_effect(addr, r, old(self).peripherals(), final(self).peripherals()),
            !read_s(old(self).cpu(), addr).0.io ==> final(self).peripherals() == old(self).peripherals(),
            final(self).wf(),
            same_core(final(self).cpu(), old(self).cpu()),
            ({
                let (post, w) = read_s(old(self).cpu(), addr);
                !post.io ==> final(self).cpu() == post && r == w
            }),
            is_device(addr) ==> device_read_outcome(addr, r, old(self).cpu().error, final(self).cpu().error),
            !is_device(addr) ==> final(self).peripherals() == old(self).peripherals(),
            final(self).image() == old(self).image(),
    {
        if memory_backed_addr(addr) {
            self.memory[addr as usize]
        } else if device_register(addr) {
            self.device_read(addr)
        } else {
            0
        }
    }

    /// Writes a word without the access check. A write to the MCR that clears
    /// its running bit halts the machine.
    pub fn set_word_unchecked(&mut self, addr: Addr, word: Word)
        requires
            old(self).wf(),
        ensures
            is_device(addr) ==> device_write_effect(addr, word, old(self).peripherals(), final(self).peripherals()),
            !write_s(old(self).cpu(), addr, word).io ==> final(self).peripherals() == old(self).peripherals(),
            final(self).wf(),
            ({
                let post = write_s(old(self).cpu(), addr, word);
                &&& !post.io ==> final(self).cpu() == post
                &&& post.io ==> same_core(final(self).cpu(), old(self).cpu())
            }),
    {
        if addr == MCR_ADDR {
            self.set_word_force_memory_backed(addr, word);
            if word & 0x8000 == 0 {
                self.halt();
            }
        } else if memory_backed_addr(addr) {
            self.set_word_force_memory_backed(addr, word);
        } else if device_register(addr) {
            self.device_write(addr, word);
        }
    }

    pub fn is_acv(&self, addr: Addr) -> (r: bool)
        requires
            self.wf(),
        ensures
            r == is_acv_s(self.cpu(), addr),
    {
        let psr = PSR(self.memory[PSR_ADDR as usize]);
        if psr.in_user_mode() {
            addr < USER_PROGRAM_START_ADDR || addr >= MEM_MAPPED_START_ADDR
        } else {
            false
        }
    }

    /// Reads a word with the access check.
    pub fn get_word(&mut self, addr: Addr) -> (r: ReadAttempt)
        requires
            old(self).wf(),
        ensures
            !is_acv_s(old(self).cpu(), addr) && is_device(addr) ==> r is Ok && device_read_effect(addr, r->Ok_0, old(self).peripherals(), final(self).peripherals()),
            !get_word_s(old(self).cpu(), addr).0.io ==> final(self).peripherals() == old(self).peripherals(),
            final(self).wf(),
            same_core(final(self).cpu(), old(self).cpu()),
            ({
                let (post, res) = get_word_s(old(self).cpu(), addr);
                &&& r is Err <==> res is Err
                &&& !post.io ==> final(self).cpu() == post && r == res
            }),
    {
        if self.is_acv(addr) {
            Err(Acv)
        } else {
            Ok(self.get_word_unchecked(addr))
        }
    }

    /// Writes a word with the access check.
    pub fn set_word(&mut self, addr: Addr, word: Word) -> (r: WriteAttempt)
        requires
            old(self).wf(),
        ensures
            !is_acv_s(old(self).cpu(), addr) && is_device(addr) ==> r is Ok && device_write_effect(addr, word, old(self).peripherals(), final(self).peripherals()),
            !set_word_s(old(self).cpu(), addr, word).0.io ==> final(self).peripherals() == old(self).peripherals(),
            final(self).wf(),
            ({
                let (post, res) = set_word_s(old(self).cpu(), addr, word);
                &&& r == res
                &&& !post.io ==> final(self).cpu() == post
                &&& post.io ==> same_core(final(self).cpu(), old(self).cpu())
            }),
    {
        if self.is_acv(addr) {
            Err(Acv)
        } else {
            self.set_word_unchecked(addr, word);
            Ok(())
        }
    }

    fn get_reg(&self, r: Reg) -> (w: Word)
        requires
            self.wf(),
        ensures
            w == reg_of(self.cpu(), r),
    {
        self.regs[r.to_index()]
    }

    fn set_reg(&mut self, r: Reg, w: Word)
        requires
            old(self).wf(),
        ensures
            final(self).peripherals() == old(self).peripherals(),
            final(self).wf(),
            final(self).cpu() == with_reg(old(self).cpu(), r, w),
    {
        let i = r.to_index();
        self.regs.set(i, w);
    }

    fn psr(&self) -> (r: PSR)
        requires
            self.wf(),
        ensures
            r.0 == psr(self.cpu()),
    {
        PSR(self.memory[PSR_ADDR as usize])
    }

    fn set_cc(&mut self, word: Word)
        requires
            old(self).wf(),
        ensures
            final(self).peripherals() == old(self).peripherals(),
            final(self).image() == old(self).image(),
            final(self).wf(),
            final(self).cpu() == set_cc_s(old(self).cpu(), word),
    {
        let p = self.psr().with_cc(word);
        self.set_word_force_memory_backed(PSR_ADDR, p.0);
    }

    /// The condition codes (n, z, p).
    pub fn get_cc(&self) -> (r: (bool, bool, bool))
        requires
            self.wf(),
        ensures
            r == (psr(self.cpu()) & 4 != 0, psr(self.cpu()) & 2 != 0, psr(self.cpu()) & 1 != 0),
    {
        self.psr().get_cc()
    }

    fn set_priority(&mut self, priority: u8)
        requires
            old(self).wf(),
        ensures
            final(self).peripherals() == old(self).peripherals(),
            final(self).image() == old(self).image(),
            final(self).wf(),
            final(self).cpu() == set_priority_s(old(self).cpu(), priority),
    {
        let p = self.psr().with_priority(priority);
        self.set_word_force_memory_backed(PSR_ADDR, p.0);
    }

    /// Pushes onto the system stack (never anything else).
    fn push(&mut self, word: Word) -> (r: WriteAttempt)
        requires
            old(self).wf(),
        ensures
            !push_s(old(self).cpu(), word).0.io ==> final(self).peripherals() == old(self).peripherals(),
            final(self).wf(),
            ({
                let (post, res) = push_s(old(self).cpu(), word);
                &&& r == res
                &&& same_core(final(self).cpu(), post)
                &&& !post.io ==> final(self).cpu() == post
            }),
    {
        let sp = self.get_reg(Reg::R6);
        if sp <= OS_START_ADDR {
            self.set_error(Error::SystemStackOverflow);
            self.halt();
            return Err(Acv);
        }
        self.set_reg(Reg::R6, sp - 1);
        self.set_word(sp - 1, word)
    }

    /// Pops off the stack; R6 is left alone when the read fails.
    fn pop(&mut self) -> (r: ReadAttempt)
        requires
            old(self).wf(),
        ensures
            final(self).wf(),
            ({
                let (post, res) = pop_s(old(self).cpu());
                &&& r is Err <==> res is Err
                &&& same_core(final(self).cpu(), post)
                &&& !post.io ==> final(self).cpu() == post && r == res
            }),
    {
        let sp = self.get_reg(Reg::R6);
        let word = self.get_word(sp)?;
        let sp2 = self.get_reg(Reg::R6);
        self.set_reg(Reg::R6, sp2.wrapping_add(1));
        Ok(word)
    }

    fn push_state(&mut self, saved_psr: Word) -> (r: WriteAttempt)
        requires
            old(self).wf(),
        ensures
            !push_state_s(old(self).cpu(), saved_psr).0.io ==> final(self).peripherals() == old(self).peripherals(),
            final(self).wf(),
            ({
                let (post, res) = push_state_s(old(self).cpu(), saved_psr);
                &&& r == res
                &&& same_core(final(self).cpu(), post)
                &&& !post.io ==> final(self).cpu() == post
            }),
    {
        let r1 = self.push(saved_psr);
        match r1 {
            Err(e) => Err(e),
            Ok(()) => {
                let pc = self.get_pc();
                self.push(pc)
            },
        }
    }

    fn push_call_stack(&mut self, subroutine: Addr, in_user_mode: bool) -> (r: bool)
        requires
            old(self).wf(),
        ensures
            final(self).peripherals() == old(self).peripherals(),
            final(self).wf(),
            final(self).cpu() == push_cs_s(old(self).cpu(), subroutine, in_user_mode),
    {
        if self.call_stack.depth() < u64::MAX {
            self.call_stack.push(subroutine, in_user_mode)
        } else {
            false
        }
    }

    fn pop_call_stack(&mut self) -> (r: bool)
        requires
            old(self).wf(),
        ensures
            final(self).peripherals() == old(self).peripherals(),
            final(self).wf(),
            final(self).cpu() == pop_cs_s(old(self).cpu()),
    {
        self.call_stack.pop()
    }

    fn restore_state(&mut self) -> (r: Result<(), Acv>)
        requires
            old(self).wf(),
        ensures
            final(self).wf(),
            ({
                let (post, res) = restore_state_s(old(self).cpu());
                &&& r is Err <==> res is Err
                &&& !post.io ==> final(self).cpu() == post && r == res
            }),
    {
        self.pop_call_stack();
        let ghost c1 = self.cpu();
        let pc = self.pop()?;
        self.set_pc(pc);
        let p = self.pop()?;
        self.set_word_force_memory_backed(PSR_ADDR, p);
        Ok(())
    }

    fn swap_stacks(&mut self)
        requires
            old(self).wf(),
        ensures
            final(self).peripherals() == old(self).peripherals(),
            final(self).wf(),
            final(self).cpu() == swap_stacks_s(old(self).cpu()),
    {
        let sp = self.get_reg(Reg::R6);
        let bsp = self.get_word_force_memory_backed(BSP_ADDR);
        self.set_word_force_memory_backed(BSP_ADDR, sp);
        self.set_reg(Reg::R6, bsp);
    }

    fn prep_for_execution_event(&mut self)
        requires
            old(self).wf(),
        ensures
            !prep_s(old(self).cpu()).io ==> final(self).peripherals() == old(self).peripherals(),
            final(self).wf(),
            same_core(final(self).cpu(), prep_s(old(self).cpu())),
            !prep_s(old(self).cpu()).io ==> final(self).cpu() == prep_s(old(self).cpu()),
    {
        let psr = self.psr();
        let saved_psr = psr.0;
        if psr.in_user_mode() {
            let p = psr.with_mode(false);
            self.set_word_force_memory_backed(PSR_ADDR, p.0);
            self.swap_stacks();
        }
        let _ = self.push_state(saved_psr);
    }

    fn handle_vector(&mut self, table: Addr, vec: u8)
        requires
            old(self).wf(),
            table == TRAP_VECTOR_TABLE_START_ADDR || table == INTERRUPT_VECTOR_TABLE_START_ADDR,
        ensures
            !vector_s(old(self).cpu(), table, vec).io ==> final(self).peripherals() == old(self).peripherals(),
            final(self).wf(),
            same_core(final(self).cpu(), vector_s(old(self).cpu(), table, vec)),
            !vector_s(old(self).cpu(), table, vec).io ==> final(self).cpu() == vector_s(
                old(self).cpu(),
                table,
                vec,
            ),
    {
        self.prep_for_execution_event();
        let addr = table | (vec as Word);
        proof {
            let v = vec as u16;
            assert((0u16 | v) < 0x200 && (0x100u16 | v) < 0x200) by (bit_vector)
                requires
                    v < 256,
            ;
        }
        match self.get_word(addr) {
            Ok(w) => self.pc = w,
            Err(_) => {},
        }
        let pc = self.get_pc();
        let user = self.psr().in_user_mode();
        self.push_call_stack(pc, user);
    }

    fn handle_trap(&mut self, trap_vec: u8)
        requires
            old(self).wf(),
        ensures
            final(self).wf(),
            same_core(final(self).cpu(), handle_trap_s(old(self).cpu(), trap_vec)),
            !handle_trap_s(old(self).cpu(), trap_vec).io ==> final(self).cpu() == handle_trap_s(
                old(self).cpu(),
                trap_vec,
            ),
    {
        self.handle_vector(TRAP_VECTOR_TABLE_START_ADDR, trap_vec)
    }

    fn handle_exception(&mut self, ex_vec: u8)
        requires
            old(self).wf(),
        ensures
            !handle_exception_s(old(self).cpu(), ex_vec).io ==> final(self).peripherals() == old(self).peripherals(),
            final(self).wf(),
            same_core(final(self).cpu(), handle_exception_s(old(self).cpu(), ex_vec)),
            !handle_exception_s(old(self).cpu(), ex_vec).io ==> final(self).cpu()
                == handle_exception_s(old(self).cpu(), ex_vec),
    {
        self.handle_vector(INTERRUPT_VECTOR_TABLE_START_ADDR, ex_vec)
    }

    fn handle_interrupt(&mut self, int_vec: u8, priority: u8) -> (r: bool)
        requires
            old(self).wf(),
        ensures
            !handle_interrupt_s(old(self).cpu(), int_vec, priority).0.io ==> final(self).peripherals() == old(self).peripherals(),
            final(self).wf(),
            ({
                let (post, taken) = handle_interrupt_s(old(self).cpu(), int_vec, priority);
                &&& r == taken
                &&& same_core(final(self).cpu(), post)
                &&& !post.io ==> final(self).cpu() == post
            }),
    {
        if self.psr().get_priority() > priority {
            return false;
        }
        self.pc = self.pc.wrapping_sub(1);
        self.handle_exception(int_vec);
        self.set_cc(0);
        self.set_priority(priority);
        true
    }

    /// Polls the interrupt sources in order (keyboard, display, GPIO bank A pins
    /// 0 to 7, timers 0 and 1) and takes the first one that is enabled and
    /// pending, lowering its flag if its interrupts are still on. All of them run
    /// at priority 4, so none is taken while the processor runs at priority 4 or
    /// above.
    #[verifier::spinoff_prover]
    #[verifier::rlimit(60)]
    fn check_interrupts(&mut self) -> (r: bool)
        requires
            old(self).wf(),
        ensures
            final(self).wf(),
            !r ==> final(self).cpu() == old(self).cpu(),
            priority(old(self).cpu()) >= 4 ==> !r && final(self).peripherals() == old(self).peripherals(),
            r ==> interrupt_taken(old(self).cpu(), final(self).cpu()),
            priority(old(self).cpu()) < 4 && none_polled(old(self).peripherals()) ==> !r,
            forall|i: int|
                priority(old(self).cpu()) < 4 && first_polled(old(self).peripherals(), i) ==> r
                    && interrupt_dispatched(old(self).cpu(), final(self).cpu(), final(self).peripherals(), i),
    {
        let cur_priority = self.psr().get_priority();
        if 4 <= cur_priority {
            return false;
        }
        let ghost p0 = self.peripherals();
        let ghost c0 = self.cpu();
        if Input::interrupts_enabled(&self.peripherals) {
            let ghost before = self.peripherals();
            if Input::interrupt_occurred(&mut self.peripherals) {
                assert(polled(p0, 0));
                if Input::interrupts_enabled(&self.peripherals) {
                    Input::reset_interrupt_flag(&mut self.peripherals);
                }
                assert(source_quiet(self.peripherals(), 0));
                let r = self.handle_interrupt(0x80, 4);
                assert(interrupt_vectors()[0] == 0x80);
                proof {
                    lemma_only_first(p0, 0);
                }
                return r;
            }
            proof {
                lemma_keep_later(p0, before, self.peripherals(), 0);
            }
        }
        assert(!polled(p0, 0) && agree_from(p0, self.peripherals(), 1));
        assert(source_irq(self.peripherals(), 1) == source_irq(p0, 1));
        assert(source_pending(self.peripherals(), 1) == source_pending(p0, 1));
        if Output::interrupts_enabled(&self.peripherals) {
            let ghost before = self.peripherals();
            if Output::interrupt_occurred(&mut self.peripherals) {
                assert(polled(p0, 1));
                if Output::interrupts_enabled(&self.peripherals) {
                    Output::reset_interrupt_flag(&mut self.peripherals);
                }
                assert(source_quiet(self.peripherals(), 1));
                let r = self.handle_interrupt(0x81, 4);
                assert(interrupt_vectors()[1] == 0x81);
                proof {
                    lemma_only_first(p0, 1);
                }
                return r;
            }
            proof {
                lemma_keep_later(p0, before, self.peripherals(), 1);
            }
        }
        assert(!polled(p0, 1) && agree_from(p0, self.peripherals(), 2));
        let mut i: u16 = 0;
        while i < 8
            invariant
                0 <= i <= 8,
                self.wf(),
                self.cpu() == c0,
                c0 == old(self).cpu(),
                p0 == old(self).peripherals(),
                priority(c0) < 4,
                forall|j: int| 0 <= j < 2 + i ==> !#[trigger] polled(p0, j),
                agree_from(p0, self.peripherals(), 2 + i),
            decreases 8 - i,
        {
            let pin = gpio_pin(i);
            let ghost k: int = 2 + i as int;
            assert(gpio_pin_spec(k - 2) == pin);
            assert(source_irq(self.peripherals(), k) == source_irq(p0, k));
            assert(source_pending(self.peripherals(), k) == source_pending(p0, k));
            if Gpio::interrupts_enabled(&self.peripherals, pin) {
                let ghost before = self.peripherals();
                if Gpio::interrupt_occurred(&mut self.peripherals, pin) {
                    assert(polled(p0, k));
                    if Gpio::interrupts_enabled(&self.peripherals, pin) {
                        Gpio::reset_interrupt_flag(&mut self.peripherals, pin);
                    }
                    assert(source_quiet(self.peripherals(), k));
                    let v = 0x90u8 + (i as u8);
                    let r = self.handle_interrupt(v, 4);
                    assert(interrupt_vectors()[k] == v);
                    proof {
                        lemma_only_first(p0, k);
                    }
                    return r;
                }
                proof {
                    lemma_keep_later(p0, before, self.peripherals(), k);
                }
            }
            assert(!polled(p0, k) && agree_from(p0, self.peripherals(), k + 1));
            i = i + 1;
        }
        let ghost before = self.peripherals();
        assert(source_irq(before, 10) == source_irq(p0, 10));
        assert(source_pending(before, 10) == source_pending(p0, 10));
        if Timers::interrupts_enabled(&mut self.peripherals, TimerId::T0) {
            proof {
                lemma_keep_later(p0, before, self.peripherals(), 10);
            }
            let ghost mid = self.peripherals();
            if Timers::interrupt_occurred(&mut self.peripherals, TimerId::T0) {
                assert(polled(p0, 10));
                if Timers::interrupts_enabled(&mut self.peripherals, TimerId::T0) {
                    Timers::reset_interrupt_flag(&mut self.peripherals, TimerId::T0);
                }
                assert(source_quiet(self.peripherals(), 10));
                let r = self.handle_interrupt(0xE0, 4);
                assert(interrupt_vectors()[10] == 0xE0);
                proof {
                    lemma_only_first(p0, 10);
                }
                return r;
            }
            proof {
                lemma_keep_later(p0, mid, self.peripherals(), 10);
            }
        } else {
            proof {
                lemma_keep_later(p0, before, self.peripherals(), 10);
            }
        }
        assert(!polled(p0, 10) && agree_from(p0, self.peripherals(), 11));
        let ghost before = self.peripherals();
        assert(source_irq(before, 11) == source_irq(p0, 11));
        assert(source_pending(before, 11) == source_pending(p0, 11));
        if Timers::interrupts_enabled(&mut self.peripherals, TimerId::T1) {
            proof {
                lemma_keep_later(p0, before, self.peripherals(), 11);
            }
            let ghost mid = self.peripherals();
            if Timers::interrupt_occurred(&mut self.peripherals, TimerId::T1) {
                assert(polled(p0, 11));
                if Timers::interrupts_enabled(&mut self.peripherals, TimerId::T1) {
                    Timers::reset_interrupt_flag(&mut self.peripherals, TimerId::T1);
                }
                assert(source_quiet(self.peripherals(), 11));
                let r = self.handle_interrupt(0xE1, 4);
                assert(interrupt_vectors()[11] == 0xE1);
                proof {
                    lemma_only_first(p0, 11);
                }
                return r;
            }
        }
        assert(!polled(p0, 11));
        assert(none_polled(p0));
        false
    }

    /// Writes a destination register, updating the condition codes when the
    /// instruction sets them.
    fn set_dr(&mut self, dr: Reg, w: Word, insn: &Instruction)
        requires
            old(self).wf(),
        ensures
            final(self).peripherals() == old(self).peripherals(),
            final(self).wf(),
            final(self).cpu() == set_reg_s(old(self).cpu(), dr, w, insn.spec_sets_condition_codes()),
    {
        self.set_reg(dr, w);
        if insn.sets_condition_codes() {
            self.set_cc(w);
        }
    }

    /// Executes one decoded instruction (the PC already points past it).
    #[verifier::rlimit(60)]
    #[verifier::spinoff_prover]
    fn instruction_step_inner(&mut self, insn: Instruction) -> (r: Result<(), Acv>)
        requires
            old(self).wf(),
        ensures
            final(self).wf(),
            ({
                let (post, res) = exec_s(old(self).cpu(), insn);
                !post.io ==> final(self).cpu() == post && r == res
            }),
            reaches_device(old(self).cpu(), insn) ==> r is Ok && device_access_s(
                old(self).cpu(),
                insn,
                final(self).cpu(),
                old(self).peripherals(),
                final(self).peripherals(),
            ),
    {
        match insn {
            Instruction::AddReg { dr, sr1, sr2 } => {
                let w = self.get_reg(sr1).wrapping_add(self.get_reg(sr2));
                self.set_dr(dr, w, &insn);
            },
            Instruction::AddImm { dr, sr1, imm5 } => {
                let w = self.get_reg(sr1).wrapping_add_signed(imm5);
                self.set_dr(dr, w, &insn);
            },
            Instruction::AndReg { dr, sr1, sr2 } => {
                let w = self.get_reg(sr1) & self.get_reg(sr2);
                self.set_dr(dr, w, &insn);
            },
            Instruction::AndImm { dr, sr1, imm5 } => {
                let w = self.get_reg(sr1) & (imm5 as Word);
                self.set_dr(dr, w, &insn);
            },
            Instruction::Br { n, z, p, offset9 } => {
                let (cc_n, cc_z, cc_p) = self.get_cc();
                if n && cc_n || z && cc_z || p && cc_p {
                    let pc = self.get_pc().wrapping_add_signed(offset9);
                    self.set_pc(pc);
                }
            },
            Instruction::Ret => {
                let pc = self.get_reg(Reg::R7);
                self.set_pc(pc);
                self.pop_call_stack();
            },
            Instruction::Jmp { base } => {
                let pc = self.get_reg(base);
                self.set_pc(pc);
                if base == Reg::R7 {
                    self.pop_call_stack();
                }
            },
            Instruction::Jsr { offset11 } => {
                let pc = self.get_pc();
                self.set_reg(Reg::R7, pc);
                let target = pc.wrapping_add_signed(offset11);
                self.set_pc(target);
                let user = self.psr().in_user_mode();
                self.push_call_stack(target, user);
            },
            Instruction::Jsrr { base } => {
                let pc = self.get_pc();
                let target = self.get_reg(base);
                self.set_pc(target);
                let user = self.psr().in_user_mode();
                self.push_call_stack(target, user);
                self.set_reg(Reg::R7, pc);
            },
            Instruction::Ld { dr, offset9 } => {
                let addr = self.get_pc().wrapping_add_signed(offset9);
                let w = self.get_word(addr)?;
                self.set_dr(dr, w, &insn);
            },
            Instruction::Ldi { dr, offset9 } => {
                let addr = self.get_pc().wrapping_add_signed(offset9);
                let a = self.get_word(addr)?;
                let w = self.get_word(a)?;
                self.set_dr(dr, w, &insn);
            },
            Instruction::Ldr { dr, base, offset6 } => {
                let addr = self.get_reg(base).wrapping_add_signed(offset6);
                let w = self.get_word(addr)?;
                self.set_dr(dr, w, &insn);
            },
            Instruction::Lea { dr, offset9 } => {
                let w = self.get_pc().wrapping_add_signed(offset9);
                self.set_dr(dr, w, &insn);
            },
            Instruction::Not { dr, sr } => {
                let w = !self.get_reg(sr);
                self.set_dr(dr, w, &insn);
            },
            Instruction::Rti => {
                if self.psr().in_privileged_mode() {
                    let _ = self.restore_state();
                    if self.psr().in_user_mode() {
                        self.swap_stacks();
                    }
                } else {
                    self.handle_exception(PRIVILEGE_MODE_VIOLATION_EXCEPTION_VECTOR);
                }
            },
            Instruction::St { sr, offset9 } => {
                let addr = self.get_pc().wrapping_add_signed(offset9);
                let w = self.get_reg(sr);
                self.set_word(addr, w)?;
            },
            Instruction::Sti { sr, offset9 } => {
                let addr = self.get_pc().wrapping_add_signed(offset9);
                let a = self.get_word(addr)?;
                let w = self.get_reg(sr);
                self.set_word(a, w)?;
            },
            Instruction::Str { sr, base, offset6 } => {
                let addr = self.get_reg(base).wrapping_add_signed(offset6);
                let w = self.get_reg(sr);
                self.set_word(addr, w)?;
            },
            Instruction::Trap { trapvec } => {
                self.handle_trap(trapvec);
            },
        }
        Ok(())
    }

    /// Fetches, decodes and executes the instruction at `insn_addr` (the PC is
    /// already past it), raising the access control violation or illegal opcode
    /// exception where those occur.
    #[verifier::spinoff_prover]
    #[verifier::rlimit(40)]
    fn fetch_and_execute(&mut self, insn_addr: Addr)
        requires
            old(self).wf(),
        ensures
            final(self).wf(),
            !fetch_exec_s(old(self).cpu(), insn_addr).io ==> final(self).cpu() == fetch_exec_s(
                old(self).cpu(),
                insn_addr,
            ),
            ({
                let c = old(self).cpu();
                memory_backed(insn_addr) && !is_acv_s(c, insn_addr) && decode_spec(c.mem[insn_addr as int]) is Ok
                    && reaches_device(c, decode_spec(c.mem[insn_addr as int])->Ok_0) ==> device_access_s(
                    c,
                    decode_spec(c.mem[insn_addr as int])->Ok_0,
                    final(self).cpu(),
                    old(self).peripherals(),
                    final(self).peripherals(),
                )
            }),
    {
        match self.get_word(insn_addr) {
            Err(_) => self.handle_exception(ACCESS_CONTROL_VIOLATION_EXCEPTION_VECTOR),
            Ok(w) => match Instruction::try_from_word(w) {
                Ok(insn) => match self.instruction_step_inner(insn) {
                    Ok(()) => {},
                    Err(_) => self.handle_exception(ACCESS_CONTROL_VIOLATION_EXCEPTION_VECTOR),
                },
                Err(_) => self.handle_exception(ILLEGAL_OPCODE_EXCEPTION_VECTOR),
            },
        }
    }

    /// Runs one instruction cycle: a halted machine stays as it is; a running one
    /// moves the PC past the current instruction, takes a pending interrupt if one
    /// may fire, and otherwise executes the instruction. Returns the machine state.
    pub fn step(&mut self) -> (r: MachineState)
        requires
            old(self).wf(),
        ensures
            final(self).wf(),
            r == final(self).cpu().state,
            old(self).cpu().state == MachineState::Halted ==> final(self).cpu() == old(self).cpu(),
            old(self).cpu().state == MachineState::Running && no_interrupt_due(old(self).cpu(), old(self).peripherals())
                ==> (!step_s(old(self).cpu()).io ==> final(self).cpu() == step_s(old(self).cpu())),
            forall|i: int|
                old(self).cpu().state == MachineState::Running && priority(old(self).cpu()) < 4
                    && first_polled(old(self).peripherals(), i) ==> interrupt_dispatched(
                    advance_pc(old(self).cpu()),
                    final(self).cpu(),
                    final(self).peripherals(),
                    i,
                ),
            old(self).cpu().state == MachineState::Running && no_interrupt_due(old(self).cpu(), old(self).peripherals())
                && fetches_device_access(old(self).cpu(), advance_pc(old(self).cpu())) ==> ({
                let c1 = advance_pc(old(self).cpu());
                let insn = decode_spec(c1.mem[old(self).cpu().pc as int])->Ok_0;
                &&& exists|polled: P| #[trigger] device_access_s(c1, insn, final(self).cpu(), polled, final(self).peripherals())
                &&& priority(old(self).cpu()) >= 4 ==> device_access_s(
                    c1,
                    insn,
                    final(self).cpu(),
                    old(self).peripherals(),
                    final(self).peripherals(),
                )
            }),
    {
        if self.state == MachineState::Halted {
            return MachineState::Halted;
        }
        let current_pc = self.pc;
        self.pc = current_pc.wrapping_add(1);
        let ghost pre = *self;
        assert(priority(pre.cpu()) == priority(old(self).cpu()));
        assert(pre.peripherals() == old(self).peripherals());
        if self.check_interrupts() {
            return self.state;
        }
        assert forall|i: int| priority(old(self).cpu()) < 4 implies !first_polled(old(self).peripherals(), i) by {
            if first_polled(pre.peripherals(), i) {
                assert(priority(pre.cpu()) < 4);
            }
        }
        self.fetch_and_execute(current_pc);
        self.state
    }

    /// Puts every peripheral in its reset state: each GPIO pin disabled with its
    /// flag lowered, each ADC pin disabled (a refusal of either is ignored), each
    /// PWM pin disabled and then given duty cycle 0, each timer single shot and
    /// disabled with its flag lowered, the clock at 0, and the keyboard and
    /// display flags lowered. See [`devices_reset`] for what that leaves.
    #[verifier::spinoff_prover]
    #[verifier::rlimit(40)]
    fn reset_peripherals(&mut self)
        requires
            old(self).wf(),
        ensures
            final(self).image() == old(self).image(),
            final(self).wf(),
            final(self).cpu() == old(self).cpu(),
            devices_reset(old(self).peripherals(), final(self).peripherals()),
    {
        let ghost p0 = self.peripherals();
        let mut i: u16 = 0;
        while i < 8
            invariant
                0 <= i <= 8,
                self.wf(),
                self.cpu() == old(self).cpu(),
                self.image() == old(self).image(),
                forall|j: int|
                    0 <= j < i ==> gpio_pin_reset(p0, self.peripherals(), #[trigger] gpio_pin_spec(j)),
                forall|j: int|
                    i <= j < 8 ==> self.peripherals().gpio_state(#[trigger] gpio_pin_spec(j))
                        == p0.gpio_state(gpio_pin_spec(j)),
                forall|p: AdcPin| #[trigger] self.peripherals().adc_state(p) == p0.adc_state(p),
            decreases 8 - i,
        {
            let pin = gpio_pin(i);
            let _ = Gpio::set_state(&mut self.peripherals, pin, GpioState::Disabled);
            Gpio::reset_interrupt_flag(&mut self.peripherals, pin);
            proof {
                lemma_gpio_pins_differ();
            }
            i = i + 1;
        }
        proof {
            lemma_gpio_pins_all();
            assert forall|p: GpioPin| gpio_pin_reset(p0, self.peripherals(), p) by {
                assert(gpio_pin_spec(gpio_index(p)) == p);
            }
        }
        let mut j: u16 = 0;
        while j < 6
            invariant
                0 <= j <= 6,
                self.wf(),
                self.cpu() == old(self).cpu(),
                self.image() == old(self).image(),
                gpio_reset(p0, self.peripherals()),
                forall|p: AdcPin|
                    p.index() < j ==> #[trigger] self.peripherals().adc_state(p) == AdcState::Disabled
                        || self.peripherals().adc_state(p) == p0.adc_state(p),
                forall|p: AdcPin|
                    p.index() >= j ==> #[trigger] self.peripherals().adc_state(p) == p0.adc_state(p),
            decreases 6 - j,
        {
            let _ = Adc::set_state(&mut self.peripherals, adc_pin(j), AdcState::Disabled);
            j = j + 1;
        }
        Pwm::set_state(&mut self.peripherals, PwmPin::P0, PwmState::Disabled);
        let ghost m0 = self.peripherals();
        Pwm::set_duty_cycle(&mut self.peripherals, PwmPin::P0, 0);
        Pwm::set_state(&mut self.peripherals, PwmPin::P1, PwmState::Disabled);
        let ghost m1 = self.peripherals();
        Pwm::set_duty_cycle(&mut self.peripherals, PwmPin::P1, 0);
        Timers::set_mode(&mut self.peripherals, TimerId::T0, TimerMode::SingleShot);
        Timers::set_state(&mut self.peripherals, TimerId::T0, TimerState::Disabled);
        Timers::reset_interrupt_flag(&mut self.peripherals, TimerId::T0);
        Timers::set_mode(&mut self.peripherals, TimerId::T1, TimerMode::SingleShot);
        Timers::set_state(&mut self.peripherals, TimerId::T1, TimerState::Disabled);
        Timers::reset_interrupt_flag(&mut self.peripherals, TimerId::T1);
        Clock::set_milliseconds(&mut self.peripherals, 0);
        Input::reset_interrupt_flag(&mut self.peripherals);
        Output::reset_interrupt_flag(&mut self.peripherals);
        assert(timer_reset(self.peripherals(), TimerId::T0));
        assert(timer_reset(self.peripherals(), TimerId::T1));
        assert(self.peripherals().pwm_state(PwmPin::P0) == m0.duty_cycle_state(PwmPin::P0, 0));
        assert(self.peripherals().pwm_state(PwmPin::P1) == m1.duty_cycle_state(PwmPin::P1, 0));
        assert(self.peripherals().pwm_duty(PwmPin::P0) == 0 && self.peripherals().pwm_duty(PwmPin::P1) == 0);
        assert(gpio_reset(p0, self.peripherals()) && adc_reset(p0, self.peripherals()));
    }

    /// Resets the machine: memory back to its image, PC at the start of the
    /// operating system, priority 7, condition codes zero, MCR running, registers
    /// cleared, peripherals reset (see [`devices_reset`]), no pending error, empty
    /// call stack, running.
    #[verifier::spinoff_prover]
    pub fn reset(&mut self)
        requires
            old(self).wf(),
        ensures
            final(self).wf(),
            final(self).image() == old(self).image(),
            final(self).cpu() == reset_s(old(self).image()),
            devices_reset(old(self).peripherals(), final(self).peripherals()),
    {
        self.pc = OS_START_ADDR;
        let mut i: usize = 0;
        while i < ADDR_SPACE_SIZE_IN_WORDS
            invariant
                0 <= i <= ADDR_SPACE_SIZE_IN_WORDS,
                self.wf(),
                self.image@ == old(self).image@,
                forall|j: int| 0 <= j < i ==> #[trigger] self.memory@[j] == self.image@[j],
                self.pc == OS_START_ADDR,
                self.regs@ == old(self).regs@,
                self.call_stack == old(self).call_stack,
                self.peripherals == old(self).peripherals,
            decreases ADDR_SPACE_SIZE_IN_WORDS - i,
        {
            let w = self.image[i];
            self.memory.set(i, w);
            i = i + 1;
        }
        assert(self.memory@ =~= self.image@);
        self.set_priority(7);
        let mcr = MCR(self.memory[MCR_ADDR as usize]).with_running_bit(true);
        self.set_word_force_memory_backed(MCR_ADDR, mcr.0);
        self.set_cc(0);
        self.regs = vec![0u16; Reg::NUM_REGS];
        self.reset_peripherals();
        self.state = MachineState::Running;
        self.error = None;
        self.call_stack = CallStack::new();
        assert(self.regs@ =~= seq![0u16, 0, 0, 0, 0, 0, 0, 0]);
    }

    /// A machine with the given memory image and peripherals, reset (so the
    /// given registers, PC and state are replaced by the reset values).
    #[verifier::spinoff_prover]
    pub fn new(memory: MemoryDump, peripherals: P, regs: [Word; 8], pc: Word, state: MachineState) -> (r: Interpreter<P>)
        requires
            memory.wf(),
        ensures
            r.wf(),
            r.image() == memory@,
            r.cpu() == reset_s(memory@),
            devices_reset(peripherals, r.peripherals()),
    {
        let words = memory.words();
        let mut image: Vec<Word> = Vec::new();
        let mut i: usize = 0;
        while i < ADDR_SPACE_SIZE_IN_WORDS
            invariant
                0 <= i <= ADDR_SPACE_SIZE_IN_WORDS,
                words@ == memory@,
                memory@.len() == ADDR_SPACE_SIZE_IN_WORDS,
                image@ =~= memory@.subrange(0, i as int),
            decreases ADDR_SPACE_SIZE_IN_WORDS - i,
        {
            image.push(words[i]);
            i = i + 1;
        }
        let mut reg_file: Vec<Word> = Vec::new();
        let mut k: usize = 0;
        while k < 8
            invariant
                0 <= k <= 8,
                reg_file@.len() == k,
            decreases 8 - k,
        {
            reg_file.push(regs[k]);
            k = k + 1;
        }
        let mut interp = Interpreter {
            memory: vec![0u16; ADDR_SPACE_SIZE_IN_WORDS],
            image,
            peripherals,
            regs: reg_file,
            pc,
            state,
            error: None,
            call_stack: CallStack::new(),
        };
        interp.reset();
        interp
    }
}

fn memory_backed_addr(a: Addr) -> (r: bool)
    ensures
        r == memory_backed(a),
{
    a < MEM_MAPPED_START_ADDR || a == BSP_ADDR || a == PSR_ADDR || a == MCR_ADDR
}

} // verus!
