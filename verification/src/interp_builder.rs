//! Putting an interpreter together piece by piece. The builder's type records
//! which pieces have been given, so that `build` is only there once all are.
use crate::interp::{reset_s, Interpreter, MachineState};
use crate::isa::Word;
use crate::misc::MemoryDump;
use crate::peripherals::Peripherals;
use core::marker::PhantomData;
use vstd::prelude::*;

verus! {

/// Whether a piece of the builder has been given.
pub trait Given {
    spec fn given() -> bool;
}

#[derive(Debug)]
pub struct IsSet;

#[derive(Debug)]
pub struct NotSet;

impl Given for IsSet {
    open spec fn given() -> bool {
        true
    }
}

impl Given for NotSet {
    open spec fn given() -> bool {
        false
    }
}

pub struct InterpreterBuilder<P: Peripherals, Mem: Given, Perip: Given, Regs: Given, Pc: Given, St: Given> {
    memory: Option<MemoryDump>,
    peripherals: Option<P>,
    regs: Option<[Word; 8]>,
    pc: Option<Word>,
    state: Option<MachineState>,
    _given: PhantomData<(Mem, Perip, Regs, Pc, St)>,
}

impl<P: Peripherals, Mem: Given, Perip: Given, Regs: Given, Pc: Given, St: Given> InterpreterBuilder<
    P,
    Mem,
    Perip,
    Regs,
    Pc,
    St,
> {
    /// Each piece that the type marks as given is there; the memory image has
    /// its full size.
    pub closed spec fn wf(&self) -> bool {
        &&& Mem::given() ==> self.memory is Some
        &&& Perip::given() ==> self.peripherals is Some
        &&& Regs::given() ==> self.regs is Some
        &&& Pc::given() ==> self.pc is Some
        &&& St::given() ==> self.state is Some
        &&& self.memory matches Some(m) ==> m.wf()
    }

    /// The memory image given, if any.
    pub closed spec fn memory(&self) -> Option<Seq<Word>> {
        match self.memory {
            Some(m) => Some(m@),
            None => None,
        }
    }

    /// The peripherals given, if any.
    pub closed spec fn peripherals(&self) -> Option<P> {
        self.peripherals
    }

    pub fn with_memory(self, memory: MemoryDump) -> (r: InterpreterBuilder<P, IsSet, Perip, Regs, Pc, St>)
        requires
            self.wf(),
            memory.wf(),
        ensures
            r.wf(),
            r.memory() == Some(memory@),
            r.peripherals() == self.peripherals(),
    {
        InterpreterBuilder {
            memory: Some(memory),
            peripherals: self.peripherals,
            regs: self.regs,
            pc: self.pc,
            state: self.state,
            _given: PhantomData,
        }
    }

    /// A blank memory image.
    pub fn with_default_memory(self) -> (r: InterpreterBuilder<P, IsSet, Perip, Regs, Pc, St>)
        requires
            self.wf(),
        ensures
            r.wf(),
            r.memory() == Some(Seq::new(65536, |i: int| 0u16)),
            r.peripherals() == self.peripherals(),
    {
        let m = MemoryDump::blank();
        self.with_memory(m)
    }

    pub fn with_peripherals(self, peripherals: P) -> (r: InterpreterBuilder<P, Mem, IsSet, Regs, Pc, St>)
        requires
            self.wf(),
        ensures
            r.wf(),
            r.memory() == self.memory(),
            r.peripherals() == Some(peripherals),
    {
        InterpreterBuilder {
            memory: self.memory,
            peripherals: Some(peripherals),
            regs: self.regs,
            pc: self.pc,
            state: self.state,
            _given: PhantomData,
        }
    }

    pub fn with_regs(self, regs: [Word; 8]) -> (r: InterpreterBuilder<P, Mem, Perip, IsSet, Pc, St>)
        requires
            self.wf(),
        ensures
            r.wf(),
            r.memory() == self.memory(),
            r.peripherals() == self.peripherals(),
    {
        InterpreterBuilder {
            memory: self.memory,
            peripherals: self.peripherals,
            regs: Some(regs),
            pc: self.pc,
            state: self.state,
            _given: PhantomData,
        }
    }

    /// All registers zero.
    pub fn with_default_regs(self) -> (r: InterpreterBuilder<P, Mem, Perip, IsSet, Pc, St>)
        requires
            self.wf(),
        ensures
            r.wf(),
            r.memory() == self.memory(),
            r.peripherals() == self.peripherals(),
    {
        self.with_regs([0u16; 8])
    }

    pub fn with_pc(self, pc: Word) -> (r: InterpreterBuilder<P, Mem, Perip, Regs, IsSet, St>)
        requires
            self.wf(),
        ensures
            r.wf(),
            r.memory() == self.memory(),
            r.peripherals() == self.peripherals(),
    {
        InterpreterBuilder {
            memory: self.memory,
            peripherals: self.peripherals,
            regs: self.regs,
            pc: Some(pc),
            state: self.state,
            _given: PhantomData,
        }
    }

    /// A PC of zero.
    pub fn with_default_pc(self) -> (r: InterpreterBuilder<P, Mem, Perip, Regs, IsSet, St>)
        requires
            self.wf(),
        ensures
            r.wf(),
            r.memory() == self.memory(),
            r.peripherals() == self.peripherals(),
    {
        self.with_pc(0)
    }

    pub fn with_state(self, state: MachineState) -> (r: InterpreterBuilder<P, Mem, Perip, Regs, Pc, IsSet>)
        requires
            self.wf(),
        ensures
            r.wf(),
            r.memory() == self.memory(),
            r.peripherals() == self.peripherals(),
    {
        InterpreterBuilder {
            memory: self.memory,
            peripherals: self.peripherals,
            regs: self.regs,
            pc: self.pc,
            state: Some(state),
            _given: PhantomData,
        }
    }

    /// The state a machine starts out in (halted).
    pub fn with_default_state(self) -> (r: InterpreterBuilder<P, Mem, Perip, Regs, Pc, IsSet>)
        requires
            self.wf(),
        ensures
            r.wf(),
            r.memory() == self.memory(),
            r.peripherals() == self.peripherals(),
    {
        self.with_state(MachineState::new())
    }
}

impl<P: Peripherals> InterpreterBuilder<P, NotSet, NotSet, NotSet, NotSet, NotSet> {
    /// A builder with nothing given yet.
    pub fn new() -> (r: InterpreterBuilder<P, NotSet, NotSet, NotSet, NotSet, NotSet>)
        ensures
            r.wf(),
            r.memory() is None,
            r.peripherals() is None,
    {
        InterpreterBuilder {
            memory: None,
            peripherals: None,
            regs: None,
            pc: None,
            state: None,
            _given: PhantomData,
        }
    }
}

impl<P: Peripherals + Default, Mem: Given, Perip: Given, Regs: Given, Pc: Given, St: Given> InterpreterBuilder<
    P,
    Mem,
    Perip,
    Regs,
    Pc,
    St,
> {
    /// Every piece at its default: a blank image, default peripherals, zero
    /// registers and PC, and a halted machine.
    pub fn with_defaults(self) -> (r: InterpreterBuilder<P, IsSet, IsSet, IsSet, IsSet, IsSet>)
        ensures
            r.wf(),
            r.memory() == Some(Seq::new(65536, |i: int| 0u16)),
    {
        let m = MemoryDump::blank();
        InterpreterBuilder {
            memory: Some(m),
            peripherals: Some(P::default()),
            regs: Some([0u16; 8]),
            pc: Some(0),
            state: Some(MachineState::new()),
            _given: PhantomData,
        }
    }

    /// Default peripherals.
    pub fn with_default_peripherals(self) -> (r: InterpreterBuilder<P, Mem, IsSet, Regs, Pc, St>)
        requires
            self.wf(),
        ensures
            r.wf(),
            r.memory() == self.memory(),
    {
        self.with_peripherals(P::default())
    }
}

impl<P: Peripherals> InterpreterBuilder<P, IsSet, IsSet, IsSet, IsSet, IsSet> {
    /// The interpreter, reset (so the given registers, PC and state give way to
    /// the reset values).
    pub fn build(self) -> (r: Interpreter<P>)
        requires
            self.wf(),
        ensures
            r.wf(),
            self.memory() matches Some(m) && r.image() == m && r.cpu() == reset_s(m),
    {
        Interpreter::new(
            self.memory.unwrap(),
            self.peripherals.unwrap(),
            self.regs.unwrap(),
            self.pc.unwrap(),
            self.state.unwrap(),
        )
    }
}

/// An interpreter built from defaults: a blank image and default peripherals.
impl<P: Peripherals + Default> Default for Interpreter<P> {
    fn default() -> (r: Interpreter<P>)
        ensures
            r.wf(),
            r.image() == Seq::new(65536, |i: int| 0u16),
            r.cpu() == reset_s(r.image()),
    {
        InterpreterBuilder::<P, NotSet, NotSet, NotSet, NotSet, NotSet>::new().with_defaults().build()
    }
}

} // verus!
