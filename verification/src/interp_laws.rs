//! Properties of the machine model that span several operations: what a read
//! gives back of a write, what a pop gives back of a push, what a return from a
//! trap restores, and what a reset leaves.
use crate::interp::{
    add_signed, calls_wf, exec_s, handle_exception_s, handle_interrupt_s, pop_calls, pop_cs_s, priority, reset_s,
    set_cc_s, set_priority_s, MachineState, get_word_s, handle_trap_s, in_user_mode, is_acv_s, law_call_stack_push_pop,
    memory_backed, pop_s, prep_s, psr, push_cs_s, push_s, push_state_s, reg_of, set_word_s,
    swap_stacks_s, with_reg, Cpu,
};
use crate::isa::{
    Addr, Instruction, Reg, Word, ADDR_SPACE_SIZE_IN_WORDS, BSP_ADDR, INTERRUPT_VECTOR_TABLE_START_ADDR,
    MCR_ADDR, MEM_MAPPED_START_ADDR,
    OS_START_ADDR, PSR_ADDR, TRAP_VECTOR_TABLE_START_ADDR,
};
use crate::interp::{device_read_effect, device_write_effect, gpio_pin_spec, gpio_reg_pin, gpio_state_word, gpio_word_state, pwm_word_state, timer_word_state};
use crate::peripherals::gpio::GpioState;
use crate::peripherals::pwm::PwmState;
use crate::peripherals::timers::TimerState;
use crate::interp::{advance_pc, fetch_exec_s, interrupt_vectors, step_s};
use crate::isa::decode_spec;
use crate::mem_mapped::{
    DISPLAY_INT_VEC, GA0_INT_VEC, GPIO_BASE_INT_VEC, KEYBOARD_INT_VEC, T0_INT_VEC, T1_INT_VEC,
    TIMER_BASE_INT_VEC,
    law_cc_one_hot,
    CLKR_ADDR, GPIO_MEM_MAPPED_BASE, TIMER_MEM_MAPPED_BASE, KBSR_ADDR,
    cc_bits, psr_n, psr_p, psr_user, psr_with_cc, psr_with_mode, psr_with_priority, psr_z,
};
use crate::peripherals::DeviceState;
use vstd::prelude::*;

verus! {

/// A model state whose memory and register file have their full sizes.
pub open spec fn sized(c: Cpu) -> bool {
    &&& c.mem.len() == ADDR_SPACE_SIZE_IN_WORDS
    &&& c.regs.len() == 8
}

/// A checked write to plain memory that succeeds is given back by a checked
/// read of the same address. (The PSR is left out: writing it can change the
/// mode, and with it whether the read is allowed.)
pub proof fn law_read_back_write(c: Cpu, a: Addr, w: Word)
    requires
        sized(c),
        memory_backed(a),
        a != PSR_ADDR,
    ensures
        ({
            let (c1, r) = set_word_s(c, a, w);
            r is Ok ==> get_word_s(c1, a) == (c1, Ok::<Word, crate::interp::Acv>(w))
        }),
{
}

/// A write to one address leaves every other plain memory address as it was.
pub proof fn law_write_leaves_others(c: Cpu, a: Addr, b: Addr, w: Word)
    requires
        sized(c),
        a != b,
        memory_backed(b),
    ensures
        set_word_s(c, a, w).0.mem[b as int] == c.mem[b as int],
{
}

/// A push onto the stack that lands in ordinary memory is undone by a pop: the
/// pop gives back the pushed word and the stack pointer is back where it was.
pub proof fn law_pop_gives_back_push(c: Cpu, w: Word)
    requires
        sized(c),
        reg_of(c, Reg::R6) > OS_START_ADDR,
        reg_of(c, Reg::R6) <= MEM_MAPPED_START_ADDR,
        !is_acv_s(c, (reg_of(c, Reg::R6) - 1) as Addr),
    ensures
        ({
            let (c1, r1) = push_s(c, w);
            let (c2, r2) = pop_s(c1);
            &&& r1 is Ok
            &&& r2 == Ok::<Word, crate::interp::Acv>(w)
            &&& reg_of(c2, Reg::R6) == reg_of(c, Reg::R6)
            &&& c2.mem == c1.mem
        }),
{
    let sp = reg_of(c, Reg::R6);
    let c0 = with_reg(c, Reg::R6, (sp - 1) as Word);
    assert(psr(c0) == psr(c));
}

/// The supervisor stack pointer that a trap from `c` pushes onto: the backup
/// stack pointer when the trap comes from user mode, else R6.
pub open spec fn supervisor_sp(c: Cpu) -> Word {
    if in_user_mode(c) {
        c.mem[BSP_ADDR as int]
    } else {
        reg_of(c, Reg::R6)
    }
}

/// Returning (`RTI`) right after a trap puts back what the trap changed: the
/// PC, the PSR (and with it the mode), the stack pointer, the backup stack
/// pointer and the call stack. This holds when the two words the trap pushes land
/// in ordinary memory above the operating system's start.
#[verifier::rlimit(40)]
pub proof fn law_rti_returns_from_trap(c: Cpu, vec: u8)
    requires
        sized(c),
        supervisor_sp(c) > OS_START_ADDR + 1,
        supervisor_sp(c) <= MEM_MAPPED_START_ADDR,
        calls_wf(c.calls, c.depth),
        c.depth < u64::MAX,
    ensures
        ({
            let t = handle_trap_s(c, vec);
            let (r, res) = exec_s(t, Instruction::Rti);
            &&& res is Ok
            &&& r.pc == c.pc
            &&& psr(r) == psr(c)
            &&& reg_of(r, Reg::R6) == reg_of(c, Reg::R6)
            &&& r.mem[BSP_ADDR as int] == c.mem[BSP_ADDR as int]
            &&& r.calls == c.calls
            &&& r.depth == c.depth
        }),
{
    let sp = supervisor_sp(c);
    let saved = psr(c);
    // entering: into supervisor mode on the supervisor stack
    let c1 = if in_user_mode(c) {
        swap_stacks_s(Cpu { mem: c.mem.update(PSR_ADDR as int, psr_with_mode(saved, false)), ..c })
    } else {
        c
    };
    assert(psr_with_mode(saved, false) & 0x8000 == 0) by (bit_vector);
    assert(!in_user_mode(c1));
    assert(reg_of(c1, Reg::R6) == sp);
    let (c2, r2) = push_s(c1, saved);
    assert(r2 is Ok);
    assert(!in_user_mode(c2));
    assert(reg_of(c2, Reg::R6) == sp - 1);
    let (c3, r3) = push_s(c2, c2.pc);
    assert(r3 is Ok);
    assert(!in_user_mode(c3));
    assert(c3.pc == c.pc);
    assert(c3.mem[sp - 1] == saved);
    assert(c3.mem[sp - 2] == c.pc);
    assert(reg_of(c3, Reg::R6) == sp - 2);
    assert(push_state_s(c1, saved) == (c3, r3));
    assert(prep_s(c) == c3);
    assert((0u16 | (vec as u16)) == vec as u16) by (bit_vector);
    let (c4, r4) = get_word_s(c3, TRAP_VECTOR_TABLE_START_ADDR | (vec as Word));
    assert(r4 is Ok);
    let c5 = Cpu { pc: c4.mem[vec as int], ..c4 };
    law_call_stack_push_pop(c.calls, c.depth, c5.pc, false);
    let t = handle_trap_s(c, vec);
    assert(t == push_cs_s(c5, c5.pc, false));
    assert(!in_user_mode(t));
}

/// A reset leaves the machine running at the start of the operating system
/// with priority 7, the condition codes reading zero, the MCR's running bit set,
/// the registers cleared, no error and an empty call stack; every other word of
/// memory is the image's.
pub proof fn law_reset_state(image: Seq<Word>)
    requires
        image.len() == ADDR_SPACE_SIZE_IN_WORDS,
    ensures
        ({
            let c = reset_s(image);
            &&& c.state == MachineState::Running
            &&& c.pc == OS_START_ADDR
            &&& priority(c) == 7
            &&& psr_z(psr(c)) && !psr_n(psr(c)) && !psr_p(psr(c))
            &&& in_user_mode(c) == psr_user(image[PSR_ADDR as int])
            &&& c.mem[MCR_ADDR as int] & 0x8000 != 0
            &&& forall|r: Reg| reg_of(c, r) == 0
            &&& c.error is None
            &&& c.depth == 0
            &&& forall|a: int| 0 <= a < ADDR_SPACE_SIZE_IN_WORDS && a != PSR_ADDR && a != MCR_ADDR
                ==> #[trigger] c.mem[a] == image[a]
        }),
{
    let p0 = image[PSR_ADDR as int];
    let m0 = image[MCR_ADDR as int];
    let p1 = psr_with_priority(p0, 7);
    let p2 = psr_with_cc(p1, 0);
    assert(((p2 >> 8u16) & 7) == 7 && (p2 & 2 != 0) && (p2 & 4 == 0) && (p2 & 1 == 0)
        && ((p2 & 0x8000 != 0) == (p0 & 0x8000 != 0))) by (bit_vector)
        requires
            p1 == (p0 & 0xF8FF) | ((7u16 & 7) << 8u16),
            p2 == (p1 & 0xFFF8) | 2u16,
    ;
    assert(((m0 & 0x7FFF) | 0x8000u16) & 0x8000 != 0) by (bit_vector);
    let c = reset_s(image);
    assert forall|r: Reg| reg_of(c, r) == 0 by {
        assert(0 <= r.index() < 8);
    }
}

/// Returning (`RTI`) from a supervisor state whose stack holds a PC and, above
/// it, a PSR: both come back, and a PSR in user mode switches back to the user
/// stack.
proof fn lemma_rti_pops_state(u: Cpu, sp: Word, pc0: Word, psr0: Word)
    requires
        sized(u),
        !in_user_mode(u),
        sp > OS_START_ADDR + 1,
        sp <= MEM_MAPPED_START_ADDR,
        reg_of(u, Reg::R6) == sp - 2,
        u.mem[sp - 2] == pc0,
        u.mem[sp - 1] == psr0,
    ensures
        ({
            let (r, res) = exec_s(u, Instruction::Rti);
            &&& res is Ok
            &&& r.pc == pc0
            &&& psr(r) == psr0
            &&& psr_user(psr0) ==> reg_of(r, Reg::R6) == u.mem[BSP_ADDR as int]
                && r.mem[BSP_ADDR as int] == sp
            &&& !psr_user(psr0) ==> reg_of(r, Reg::R6) == sp && r.mem[BSP_ADDR as int]
                == u.mem[BSP_ADDR as int]
            &&& (r.calls, r.depth) == pop_calls(u.calls, u.depth)
        }),
{
    let u1 = pop_cs_s(u);
    let (u2, r2) = pop_s(u1);
    assert(r2 == Ok::<Word, crate::interp::Acv>(pc0));
    assert(reg_of(u2, Reg::R6) == sp - 1);
    let u3 = Cpu { pc: pc0, ..u2 };
    let (u4, r4) = pop_s(u3);
    assert(r4 == Ok::<Word, crate::interp::Acv>(psr0));
    assert(reg_of(u4, Reg::R6) == sp);
}

/// Returning (`RTI`) right after an interrupt is taken resumes the interrupted
/// instruction (the PC one before the advanced PC that the interrupt saw) with
/// the PSR as it was before the interrupt raised the priority and cleared the
/// condition codes; the stack pointers and the call stack are put back too.
/// This holds when the two words the interrupt pushes land in ordinary memory
/// above the operating system's start.
#[verifier::rlimit(40)]
pub proof fn law_rti_returns_from_interrupt(c: Cpu, vec: u8, level: u8)
    requires
        sized(c),
        priority(c) <= level,
        supervisor_sp(c) > OS_START_ADDR + 1,
        supervisor_sp(c) <= MEM_MAPPED_START_ADDR,
        calls_wf(c.calls, c.depth),
        c.depth < u64::MAX,
    ensures
        ({
            let (t, taken) = handle_interrupt_s(c, vec, level);
            let (r, res) = exec_s(t, Instruction::Rti);
            &&& taken
            &&& res is Ok
            &&& r.pc == vstd::wrapping::u16_specs::wrapping_sub(c.pc, 1)
            &&& psr(r) == psr(c)
            &&& reg_of(r, Reg::R6) == reg_of(c, Reg::R6)
            &&& r.mem[BSP_ADDR as int] == c.mem[BSP_ADDR as int]
            &&& r.calls == c.calls
            &&& r.depth == c.depth
        }),
{
    let c0 = Cpu { pc: vstd::wrapping::u16_specs::wrapping_sub(c.pc, 1), ..c };
    let sp = supervisor_sp(c0);
    let saved = psr(c0);
    let c1 = if in_user_mode(c0) {
        swap_stacks_s(Cpu { mem: c0.mem.update(PSR_ADDR as int, psr_with_mode(saved, false)), ..c0 })
    } else {
        c0
    };
    assert(psr_with_mode(saved, false) & 0x8000 == 0) by (bit_vector);
    assert(!in_user_mode(c1));
    let (c2, r2) = push_s(c1, saved);
    assert(r2 is Ok);
    let (c3, r3) = push_s(c2, c2.pc);
    assert(r3 is Ok);
    assert(!in_user_mode(c3));
    assert(c3.mem[sp - 1] == saved);
    assert(c3.mem[sp - 2] == c0.pc);
    assert(reg_of(c3, Reg::R6) == sp - 2);
    assert(push_state_s(c1, saved) == (c3, r3));
    assert(prep_s(c0) == c3);
    assert((0x0100u16 | (vec as u16)) == 0x0100 + vec as u16) by (bit_vector);
    let (c4, r4) = get_word_s(c3, INTERRUPT_VECTOR_TABLE_START_ADDR | (vec as Word));
    assert(r4 is Ok);
    let c5 = Cpu { pc: c4.mem[0x0100 + vec as int], ..c4 };
    law_call_stack_push_pop(c.calls, c.depth, c5.pc, false);
    let e = handle_exception_s(c0, vec);
    assert(e == push_cs_s(c5, c5.pc, false));
    let e1 = set_cc_s(e, 0);
    let t = set_priority_s(e1, level);
    let pe = psr(e);
    let pe1 = psr(e1);
    assert((pe & 0x8000 == 0) ==> (psr_with_cc(pe, 0) & 0x8000 == 0)) by (bit_vector)
        requires
            psr_with_cc(pe, 0) == (pe & 0xFFF8) | cc_bits(0),
            cc_bits(0) == 2,
    ;
    assert((pe1 & 0x8000 == 0) ==> (psr_with_priority(pe1, level) & 0x8000 == 0)) by (bit_vector);
    assert(!in_user_mode(t));
    assert(t.mem[sp - 1] == saved);
    assert(t.mem[sp - 2] == c0.pc);
    assert(reg_of(t, Reg::R6) == sp - 2);
    assert(handle_interrupt_s(c, vec, level) == (t, true));
    lemma_rti_pops_state(t, sp, c0.pc, saved);
}

/// A subroutine call (`JSR`) followed by a return (`RET`) comes back to the
/// instruction after the call (the PC as it stood, already advanced past the
/// call), with R7 holding that address and the call stack as it was.
pub proof fn law_ret_returns_from_jsr(c: Cpu, offset11: i16)
    requires
        sized(c),
        calls_wf(c.calls, c.depth),
        c.depth < u64::MAX,
    ensures
        ({
            let (c1, r1) = exec_s(c, Instruction::Jsr { offset11 });
            let (c2, r2) = exec_s(c1, Instruction::Ret);
            &&& r1 is Ok && r2 is Ok
            &&& c2.pc == c.pc
            &&& reg_of(c2, Reg::R7) == c.pc
            &&& c2.calls == c.calls
            &&& c2.depth == c.depth
            &&& c2.mem == c.mem
        }),
{
    let c1 = with_reg(c, Reg::R7, c.pc);
    let target = add_signed(c1.pc, offset11);
    let c2 = Cpu { pc: target, ..c1 };
    law_call_stack_push_pop(c.calls, c.depth, target, in_user_mode(c2));
}

/// A timer period register or the clock register reads back the word last
/// written to it.
pub proof fn law_device_register_read_back<D: DeviceState>(a: Addr, v: Word, r: Word, p0: D, p1: D, p2: D)
    requires
        a == TIMER_MEM_MAPPED_BASE + 1 || a == TIMER_MEM_MAPPED_BASE + 3 || a == CLKR_ADDR,
        device_write_effect(a, v, p0, p1),
        device_read_effect(a, r, p1, p2),
    ensures
        r == v,
{
}

/// A GPIO control register of bank A reads back the state last written to it
/// (the two low bits of the word), when the device took that state.
pub proof fn law_gpio_control_read_back<D: DeviceState>(a: Addr, v: Word, r: Word, p0: D, p1: D, p2: D)
    requires
        GPIO_MEM_MAPPED_BASE <= a < GPIO_MEM_MAPPED_BASE + 16,
        (a - GPIO_MEM_MAPPED_BASE) % 2 == 0,
        device_write_effect(a, v, p0, p1),
        p1.gpio_state(gpio_reg_pin(a - GPIO_MEM_MAPPED_BASE)) == gpio_word_state(v),
        device_read_effect(a, r, p1, p2),
    ensures
        r == v & 3,
{
    assert(v & 3 == 0 || v & 3 == 1 || v & 3 == 2 || v & 3 == 3) by (bit_vector);
}

/// The keyboard status register reads back the interrupt enable bit last
/// written to it.
pub proof fn law_keyboard_enable_read_back<D: DeviceState>(v: Word, r: Word, p0: D, p1: D, p2: D)
    requires
        device_write_effect(KBSR_ADDR, v, p0, p1),
        device_read_effect(KBSR_ADDR, r, p1, p2),
    ensures
        (r & 0x4000 != 0) == (v & 0x4000 != 0),
{
}

/// The condition codes of `c` give the sign of `w`: exactly one of n, z, p is
/// set, n for a word with its top bit set, z for zero, p otherwise.
pub open spec fn cc_reflects(c: Cpu, w: Word) -> bool {
    &&& psr_n(psr(c)) == (w >= 0x8000)
    &&& psr_z(psr(c)) == (w == 0)
    &&& psr_p(psr(c)) == (0 < w < 0x8000)
}

/// `post` differs from `c` at most in register `dr` and the condition codes,
/// which hold `w` and its sign.
pub open spec fn only_dr_and_cc(c: Cpu, post: Cpu, dr: Reg, w: Word) -> bool {
    &&& post.regs.len() == 8
    &&& post.regs[dr.index()] == w
    &&& forall|r: Reg| r != dr ==> #[trigger] post.regs[r.index()] == c.regs[r.index()]
    &&& cc_reflects(post, w)
    &&& post.mem.len() == c.mem.len()
    &&& forall|a: int| 0 <= a < c.mem.len() && a != PSR_ADDR ==> #[trigger] post.mem[a] == c.mem[a]
    &&& post.pc == c.pc
    &&& post.state == c.state
    &&& post.calls == c.calls
    &&& post.depth == c.depth
}

/// Register mode ADD puts the sum of its two source registers, modulo 2^16,
/// in its destination and sets the condition codes from it.
pub proof fn law_add_registers(c: Cpu, dr: Reg, sr1: Reg, sr2: Reg)
    requires
        sized(c),
    ensures
        ({
            let (post, res) = exec_s(c, Instruction::AddReg { dr, sr1, sr2 });
            let sum = ((c.regs[sr1.index()] as int + c.regs[sr2.index()] as int) % 0x10000) as Word;
            res is Ok && only_dr_and_cc(c, post, dr, sum)
        }),
{
    let w = ((c.regs[sr1.index()] as int + c.regs[sr2.index()] as int) % 0x10000) as Word;
    law_cc_one_hot(psr(with_reg(c, dr, w)), w);
}

/// Immediate mode ADD puts the sum of its source register and its (signed)
/// immediate, modulo 2^16, in its destination and sets the condition codes.
pub proof fn law_add_immediate(c: Cpu, dr: Reg, sr1: Reg, imm5: i16)
    requires
        sized(c),
    ensures
        ({
            let (post, res) = exec_s(c, Instruction::AddImm { dr, sr1, imm5 });
            let sum = ((c.regs[sr1.index()] as int + imm5 as int) % 0x10000) as Word;
            res is Ok && only_dr_and_cc(c, post, dr, sum)
        }),
{
    let w = ((c.regs[sr1.index()] as int + imm5 as int) % 0x10000) as Word;
    law_cc_one_hot(psr(with_reg(c, dr, w)), w);
}

/// Register mode AND puts the bitwise and of its two source registers in its
/// destination and sets the condition codes from it.
pub proof fn law_and_registers(c: Cpu, dr: Reg, sr1: Reg, sr2: Reg)
    requires
        sized(c),
    ensures
        ({
            let (post, res) = exec_s(c, Instruction::AndReg { dr, sr1, sr2 });
            res is Ok && only_dr_and_cc(c, post, dr, c.regs[sr1.index()] & c.regs[sr2.index()])
        }),
{
    let w = c.regs[sr1.index()] & c.regs[sr2.index()];
    law_cc_one_hot(psr(with_reg(c, dr, w)), w);
}

/// Immediate mode AND puts the bitwise and of its source register and its
/// sign extended immediate in its destination and sets the condition codes.
pub proof fn law_and_immediate(c: Cpu, dr: Reg, sr1: Reg, imm5: i16)
    requires
        sized(c),
    ensures
        ({
            let (post, res) = exec_s(c, Instruction::AndImm { dr, sr1, imm5 });
            res is Ok && only_dr_and_cc(c, post, dr, c.regs[sr1.index()] & (imm5 as Word))
        }),
{
    let w = c.regs[sr1.index()] & (imm5 as Word);
    law_cc_one_hot(psr(with_reg(c, dr, w)), w);
}

/// NOT puts the bitwise complement of its source register in its destination
/// and sets the condition codes from it.
pub proof fn law_not(c: Cpu, dr: Reg, sr: Reg)
    requires
        sized(c),
    ensures
        ({
            let (post, res) = exec_s(c, Instruction::Not { dr, sr });
            res is Ok && only_dr_and_cc(c, post, dr, !c.regs[sr.index()])
        }),
{
    let w = !c.regs[sr.index()];
    law_cc_one_hot(psr(with_reg(c, dr, w)), w);
}

/// LEA puts the address `offset9` words from the PC (modulo 2^16) in its
/// destination and sets the condition codes from it.
pub proof fn law_lea(c: Cpu, dr: Reg, offset9: i16)
    requires
        sized(c),
    ensures
        ({
            let (post, res) = exec_s(c, Instruction::Lea { dr, offset9 });
            let a = ((c.pc as int + offset9 as int) % 0x10000) as Word;
            res is Ok && only_dr_and_cc(c, post, dr, a)
        }),
{
    let w = ((c.pc as int + offset9 as int) % 0x10000) as Word;
    law_cc_one_hot(psr(with_reg(c, dr, w)), w);
}

/// The address `off` words from `base`, modulo 2^16.
pub open spec fn offset_addr(base: Word, off: i16) -> Addr {
    ((base as int + off as int) % 0x10000) as Addr
}

/// BR moves the PC `offset9` words on when one of the conditions it names (n,
/// z, p) is set in the condition codes, and otherwise changes nothing.
pub proof fn law_branch(c: Cpu, n: bool, z: bool, p: bool, offset9: i16)
    requires
        sized(c),
    ensures
        ({
            let (post, res) = exec_s(c, Instruction::Br { n, z, p, offset9 });
            let taken = (n && psr_n(psr(c))) || (z && psr_z(psr(c))) || (p && psr_p(psr(c)));
            &&& res is Ok
            &&& post == if taken {
                Cpu { pc: offset_addr(c.pc, offset9), ..c }
            } else {
                c
            }
        }),
{
}

/// JSR saves the return address (the PC) in R7 and jumps `offset11` words on;
/// memory is left alone.
pub proof fn law_jsr(c: Cpu, offset11: i16)
    requires
        sized(c),
    ensures
        ({
            let (post, res) = exec_s(c, Instruction::Jsr { offset11 });
            &&& res is Ok
            &&& post.regs[7] == c.pc
            &&& forall|r: Reg| r != Reg::R7 ==> #[trigger] post.regs[r.index()] == c.regs[r.index()]
            &&& post.pc == offset_addr(c.pc, offset11)
            &&& post.mem == c.mem
        }),
{
}

/// JMP jumps to the address in its base register (RET is JMP through R7);
/// registers and memory are left alone.
pub proof fn law_jmp(c: Cpu, base: Reg)
    requires
        sized(c),
    ensures
        ({
            let (post, res) = exec_s(c, Instruction::Jmp { base });
            &&& res is Ok
            &&& post.pc == c.regs[base.index()]
            &&& post.regs == c.regs
            &&& post.mem == c.mem
        }),
{
}

/// LD from ordinary memory that the access check lets through puts the word
/// stored `offset9` words from the PC in its destination and sets the
/// condition codes from it.
pub proof fn law_ld(c: Cpu, dr: Reg, offset9: i16)
    requires
        sized(c),
        offset_addr(c.pc, offset9) < MEM_MAPPED_START_ADDR,
        !is_acv_s(c, offset_addr(c.pc, offset9)),
    ensures
        ({
            let (post, res) = exec_s(c, Instruction::Ld { dr, offset9 });
            res is Ok && only_dr_and_cc(c, post, dr, c.mem[offset_addr(c.pc, offset9) as int])
        }),
{
    let w = c.mem[offset_addr(c.pc, offset9) as int];
    law_cc_one_hot(psr(with_reg(c, dr, w)), w);
}

/// LDR from ordinary memory that the access check lets through puts the word
/// stored `offset6` words from its base register in its destination and sets
/// the condition codes from it.
pub proof fn law_ldr(c: Cpu, dr: Reg, base: Reg, offset6: i16)
    requires
        sized(c),
        offset_addr(c.regs[base.index()], offset6) < MEM_MAPPED_START_ADDR,
        !is_acv_s(c, offset_addr(c.regs[base.index()], offset6)),
    ensures
        ({
            let (post, res) = exec_s(c, Instruction::Ldr { dr, base, offset6 });
            res is Ok && only_dr_and_cc(c, post, dr, c.mem[offset_addr(c.regs[base.index()], offset6) as int])
        }),
{
    let w = c.mem[offset_addr(c.regs[base.index()], offset6) as int];
    law_cc_one_hot(psr(with_reg(c, dr, w)), w);
}

/// ST to ordinary memory that the access check lets through stores its source
/// register `offset9` words from the PC and changes nothing else.
pub proof fn law_st(c: Cpu, sr: Reg, offset9: i16)
    requires
        sized(c),
        offset_addr(c.pc, offset9) < MEM_MAPPED_START_ADDR,
        !is_acv_s(c, offset_addr(c.pc, offset9)),
    ensures
        ({
            let (post, res) = exec_s(c, Instruction::St { sr, offset9 });
            &&& res is Ok
            &&& post == Cpu { mem: c.mem.update(offset_addr(c.pc, offset9) as int, c.regs[sr.index()]), ..c }
        }),
{
}

/// STR to ordinary memory that the access check lets through stores its source
/// register `offset6` words from its base register and changes nothing else.
pub proof fn law_str(c: Cpu, sr: Reg, base: Reg, offset6: i16)
    requires
        sized(c),
        offset_addr(c.regs[base.index()], offset6) < MEM_MAPPED_START_ADDR,
        !is_acv_s(c, offset_addr(c.regs[base.index()], offset6)),
    ensures
        ({
            let (post, res) = exec_s(c, Instruction::Str { sr, base, offset6 });
            let a = offset_addr(c.regs[base.index()], offset6);
            &&& res is Ok
            &&& post == Cpu { mem: c.mem.update(a as int, c.regs[sr.index()]), ..c }
        }),
{
}

/// The interrupt sources, in polling order, use the keyboard's, the display's,
/// GPIO pin `i`'s (`GA0_INT_VEC + i`) and the timers' own vectors; their
/// entries in the interrupt vector table are where the memory map puts them.
pub proof fn law_interrupt_vectors()
    ensures
        interrupt_vectors().len() == 12,
        interrupt_vectors()[0] == KEYBOARD_INT_VEC,
        interrupt_vectors()[1] == DISPLAY_INT_VEC,
        forall|i: int| 0 <= i < 8 ==> #[trigger] interrupt_vectors()[2 + i] == GA0_INT_VEC + i,
        interrupt_vectors()[10] == T0_INT_VEC,
        interrupt_vectors()[11] == T1_INT_VEC,
        INTERRUPT_VECTOR_TABLE_START_ADDR + GA0_INT_VEC == GPIO_BASE_INT_VEC,
        INTERRUPT_VECTOR_TABLE_START_ADDR + T0_INT_VEC == TIMER_BASE_INT_VEC,
        INTERRUPT_VECTOR_TABLE_START_ADDR + T1_INT_VEC == TIMER_BASE_INT_VEC + 1,
{
}

/// A write of `v` to the data register of GPIO bank A pin `i` (at
/// `GPIO_MEM_MAPPED_BASE + 2i + 1`) drives that pin to bit 0 of `v`, and
/// leaves every other pin's level alone.
pub proof fn law_gpio_data_write<D: DeviceState>(i: int, v: Word, p0: D, p1: D)
    requires
        0 <= i < 8,
        device_write_effect((GPIO_MEM_MAPPED_BASE + 2 * i + 1) as Addr, v, p0, p1),
    ensures
        p1.gpio_level(gpio_pin_spec(i)) == (v & 1 == 1),
        forall|j: int| 0 <= j < 8 && j != i ==> #[trigger] p1.gpio_level(gpio_pin_spec(j)) == p0.gpio_level(gpio_pin_spec(j)),
{
    assert((v & 1 != 0) == (v & 1 == 1)) by (bit_vector);
    let a = (GPIO_MEM_MAPPED_BASE + 2 * i + 1) as Addr;
    assert(gpio_reg_pin(a - GPIO_MEM_MAPPED_BASE) == gpio_pin_spec(i));
    crate::interp::lemma_gpio_pins_differ();
}

/// Taking an interrupt through vector `vec` at a priority the processor allows
/// enters the routine whose address is the entry for `vec` in the interrupt
/// vector table (`0x0100 + vec`), in supervisor mode at the interrupt's
/// priority, with the interrupted PSR and the PC to resume at (the interrupted
/// instruction's own address) pushed on the supervisor stack.
pub proof fn law_interrupt_enters_its_routine(c: Cpu, vec: u8, level: u8)
    requires
        sized(c),
        priority(c) <= level,
        level < 8,
        supervisor_sp(c) > OS_START_ADDR + 1,
        supervisor_sp(c) <= MEM_MAPPED_START_ADDR,
    ensures
        ({
            let (t, taken) = handle_interrupt_s(c, vec, level);
            let sp = supervisor_sp(c);
            &&& taken
            &&& t.pc == c.mem[INTERRUPT_VECTOR_TABLE_START_ADDR + vec as int]
            &&& !in_user_mode(t)
            &&& priority(t) == level
            &&& reg_of(t, Reg::R6) == sp - 2
            &&& t.mem[sp - 1] == psr(c)
            &&& t.mem[sp - 2] == vstd::wrapping::u16_specs::wrapping_sub(c.pc, 1)
        }),
{
    let c0 = Cpu { pc: vstd::wrapping::u16_specs::wrapping_sub(c.pc, 1), ..c };
    let sp = supervisor_sp(c0);
    let saved = psr(c0);
    let c1 = if in_user_mode(c0) {
        swap_stacks_s(Cpu { mem: c0.mem.update(PSR_ADDR as int, psr_with_mode(saved, false)), ..c0 })
    } else {
        c0
    };
    assert(psr_with_mode(saved, false) & 0x8000 == 0) by (bit_vector);
    assert(!in_user_mode(c1));
    let (c2, r2) = push_s(c1, saved);
    assert(r2 is Ok);
    let (c3, r3) = push_s(c2, c2.pc);
    assert(r3 is Ok);
    assert(c3.mem[sp - 1] == saved);
    assert(c3.mem[sp - 2] == c0.pc);
    assert(push_state_s(c1, saved) == (c3, r3));
    assert(prep_s(c0) == c3);
    assert((0x0100u16 | (vec as u16)) == 0x0100 + vec as u16) by (bit_vector);
    assert(c3.mem[0x0100 + vec as int] == c.mem[0x0100 + vec as int]);
    let e = handle_exception_s(c0, vec);
    assert(e.pc == c.mem[0x0100 + vec as int]);
    let e1 = set_cc_s(e, 0);
    let t = set_priority_s(e1, level);
    let pe = psr(e);
    let pe1 = psr(e1);
    assert((pe & 0x8000 == 0) ==> (psr_with_cc(pe, 0) & 0x8000 == 0)) by (bit_vector)
        requires
            psr_with_cc(pe, 0) == (pe & 0xFFF8) | cc_bits(0),
            cc_bits(0) == 2,
    ;
    assert((pe1 & 0x8000 == 0) ==> (psr_with_priority(pe1, level) & 0x8000 == 0)) by (bit_vector);
    crate::mem_mapped::law_priority_roundtrip(pe1, level);
    assert((level as Word) & 7 == level as Word) by (bit_vector)
        requires
            level < 8,
    ;
    assert(handle_interrupt_s(c, vec, level) == (t, true));
}

/// A GPIO control register holds the pin's state in its two low bits:
/// Disabled 0, Output 1, Input 2, Interrupt 3; writing the word of a state
/// selects that state, and the word of the state a word selects is its two low
/// bits.
pub proof fn law_gpio_control_words(s: GpioState, v: Word)
    ensures
        gpio_state_word(s) < 4,
        gpio_word_state(gpio_state_word(s)) == s,
        gpio_state_word(gpio_word_state(v)) == v % 4,
        gpio_state_word(GpioState::Disabled) == 0,
        gpio_state_word(GpioState::Output) == 1,
        gpio_state_word(GpioState::Input) == 2,
        gpio_state_word(GpioState::Interrupt) == 3,
{
    assert(v & 3 == v % 4) by (bit_vector);
    assert((0u16 & 3) == 0 && (1u16 & 3) == 1 && (2u16 & 3) == 2 && (3u16 & 3) == 3) by (bit_vector);
}

/// A PWM control register's low byte is the pin's period: zero turns the pin
/// off, anything else enables it with that byte; a timer period register of
/// zero turns the timer off, anything else runs it with that period.
pub proof fn law_period_words(v: Word)
    ensures
        v % 256 == 0 ==> pwm_word_state(v) == PwmState::Disabled,
        v % 256 != 0 ==> pwm_word_state(v) == PwmState::Enabled((v % 256) as u8),
        v == 0 ==> timer_word_state(v) == TimerState::Disabled,
        v != 0 ==> timer_word_state(v) == TimerState::WithPeriod(v),
{
    assert(v & 0xFF == v % 256) by (bit_vector);
}

/// A step of a running machine whose PC holds (in memory it may read) a
/// register mode ADD moves the PC to the next word and leaves in the
/// destination the sum, modulo 2^16, of the two source registers.
pub proof fn law_step_add(c: Cpu, dr: Reg, sr1: Reg, sr2: Reg)
    requires
        sized(c),
        c.state == MachineState::Running,
        c.pc < MEM_MAPPED_START_ADDR,
        !is_acv_s(c, c.pc),
        decode_spec(c.mem[c.pc as int]) == Ok::<Instruction, Word>(Instruction::AddReg { dr, sr1, sr2 }),
    ensures
        ({
            let post = step_s(c);
            &&& post.pc == (c.pc as int + 1) % 0x10000
            &&& post.regs[dr.index()] == (c.regs[sr1.index()] as int + c.regs[sr2.index()] as int) % 0x10000
        }),
{
    let c1 = advance_pc(c);
    assert(!is_acv_s(c1, c.pc));
    law_add_registers(c1, dr, sr1, sr2);
    assert(step_s(c) == fetch_exec_s(c1, c.pc));
}

} // verus!
