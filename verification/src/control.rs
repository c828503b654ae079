//! Execution state as reported to a controller, and recording and restoring
//! a value's state.
use core::convert::Infallible;
use vstd::prelude::*;

verus! {

/// Where a simulator's execution stands.
#[derive(Debug, Clone, Copy, PartialEq, Eq, PartialOrd, Ord, Structural)]
pub enum State {
    Paused,
    RunningUntilEvent,
    Halted,
}

/// Why a state could not be recorded or restored.
#[derive(Debug, Clone, PartialEq, Eq, PartialOrd, Ord, Hash)]
pub enum SnapshotError {
    UnrecordableState,
    UninterruptableState,
    Other(&'static str),
}

/// A value whose state can be recorded and later put back.
pub trait Snapshot {
    type Snap;

    type Err;

    /// Records the current state; fails where the state cannot be recorded.
    fn record(&self) -> Result<Self::Snap, Self::Err>;

    /// Puts back a recorded state; fails where the current state cannot be
    /// abandoned.
    fn restore(&mut self, snap: Self::Snap) -> Result<(), Self::Err>;
}

/// Snapshots of a cloneable value: a snapshot is a clone.
#[derive(Debug, Clone, Copy, PartialEq, Eq, PartialOrd, Ord, Hash)]
pub struct SnapshotUsingClone<T: Clone>(pub T);

impl<T: Clone> Snapshot for SnapshotUsingClone<T> {
    type Snap = T;

    type Err = Infallible;

    fn record(&self) -> (r: Result<T, Infallible>)
        ensures
            r matches Ok(s) && cloned(self.0, s),
    {
        Ok(self.0.clone())
    }

    fn restore(&mut self, snap: T) -> (r: Result<(), Infallible>)
        ensures
            r is Ok,
            final(self).0 == snap,
    {
        self.0 = snap;
        Ok(())
    }
}

} // verus!
