//! Running a program on an interpreter and checking where it ends up: the
//! PC, registers and memory words a test expects after a number of steps.
use crate::interp::{read_s, same_core, Cpu, Interpreter};
use crate::isa::{Addr, Reg, Word};
use crate::mem_mapped::is_device;
use crate::peripherals::Peripherals;
use vstd::prelude::*;

verus! {

/// The checks of a run, on the machine state `c`: the PC when one is
/// expected, each expected register, and each expected word at an address
/// that is no device register (as a read of it gives it).
pub open spec fn run_checks(c: Cpu, regs: Seq<Option<Word>>, pc: Option<Addr>, mem: Seq<(Addr, Word)>) -> bool {
    &&& pc matches Some(p) ==> c.pc == p
    &&& forall|i: int| 0 <= i < 8 ==> (#[trigger] regs[i] matches Some(w) ==> c.regs[i] == w)
    &&& forall|i: int|
        0 <= i < mem.len() && !is_device(#[trigger] mem[i].0) ==> read_s(c, mem[i].0).1 == mem[i].1
}

/// No expected word is at a device register.
pub open spec fn no_device_checks(mem: Seq<(Addr, Word)>) -> bool {
    forall|i: int| 0 <= i < mem.len() ==> !is_device(#[trigger] mem[i].0)
}

/// Writes `insns` from `at` on (without the access check), sets the PC to
/// `pc0`, runs `steps` steps and then checks, in order, the PC, the registers
/// R0 to R7 and the memory words, stopping at the first that differs (the
/// memory words are read as the program would, devices included). Returns
/// whether all of them hold.
pub fn run_program<P: Peripherals>(
    interp: &mut Interpreter<P>,
    insns: &[Word],
    at: Addr,
    pc0: Addr,
    steps: usize,
    regs: [Option<Word>; 8],
    pc: Option<Addr>,
    mem: &[(Addr, Word)],
) -> (r: bool)
    requires
        old(interp).wf(),
        at as int + insns@.len() <= 0x10000,
    ensures
        final(interp).wf(),
        r ==> run_checks(final(interp).cpu(), regs@, pc, mem@),
        run_checks(final(interp).cpu(), regs@, pc, mem@) && no_device_checks(mem@) ==> r,
{
    let mut k: usize = 0;
    while k < insns.len()
        invariant
            interp.wf(),
            0 <= k <= insns@.len(),
            at as int + insns@.len() <= 0x10000,
        decreases insns@.len() - k,
    {
        interp.set_word_unchecked(at + k as u16, insns[k]);
        k = k + 1;
    }
    interp.set_pc(pc0);
    let mut n: usize = 0;
    while n < steps
        invariant
            interp.wf(),
            0 <= n <= steps,
        decreases steps - n,
    {
        let _ = interp.step();
        n = n + 1;
    }
    let ghost c_end = interp.cpu();
    if let Some(p) = pc {
        if interp.get_pc() != p {
            return false;
        }
    }
    let mut i: u16 = 0;
    while i < 8
        invariant
            interp.wf(),
            interp.cpu() == c_end,
            0 <= i <= 8,
            pc matches Some(p) ==> c_end.pc == p,
            forall|j: int| 0 <= j < i ==> (#[trigger] regs@[j] matches Some(w) ==> c_end.regs[j] == w),
        decreases 8 - i,
    {
        if let Some(w) = regs[i as usize] {
            let reg = match Reg::from_index(i) {
                Some(reg) => reg,
                None => {
                    return false;
                },
            };
            if interp.get_register(reg) != w {
                return false;
            }
        }
        i = i + 1;
    }
    let mut m: usize = 0;
    while m < mem.len()
        invariant
            interp.wf(),
            same_core(interp.cpu(), c_end),
            0 <= m <= mem@.len(),
            pc matches Some(p) ==> c_end.pc == p,
            forall|j: int| 0 <= j < 8 ==> (#[trigger] regs@[j] matches Some(w) ==> c_end.regs[j] == w),
            forall|j: int|
                0 <= j < m && !is_device(#[trigger] mem@[j].0) ==> read_s(c_end, mem@[j].0).1 == mem@[j].1,
        decreases mem@.len() - m,
    {
        let (a, w) = mem[m];
        proof {
            interp.lemma_model_untouched();
        }
        let got = interp.get_word_unchecked(a);
        assert(!is_device(a) ==> got == read_s(c_end, a).1);
        if got != w {
            return false;
        }
        m = m + 1;
    }
    true
}

} // verus!
