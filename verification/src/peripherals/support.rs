//! Type level booleans and the optional peripheral wrappers.
use vstd::prelude::*;

verus! {

/// Keeps the type level booleans closed to this crate.
pub trait Sealed {

}

/// A boolean known at the type level.
pub trait Bool: Sealed {
    fn value() -> bool;
}

pub struct True;

pub struct False;

impl Sealed for True {

}

impl Sealed for False {

}

impl Bool for True {
    fn value() -> (r: bool)
        ensures
            r,
    {
        true
    }
}

impl Bool for False {
    fn value() -> (r: bool)
        ensures
            !r,
    {
        false
    }
}

/// A peripheral that may or may not be present.
pub trait OptionalPeripheral: Sealed {
    type Inner;

    fn is_present() -> bool;

    fn get(&self) -> Option<&Self::Inner>;
}

/// The absent peripheral.
#[derive(Debug, Default)]
pub struct NotPresent<T>(pub core::marker::PhantomData<T>);

/// A present peripheral.
#[derive(Debug, Clone, Copy, PartialEq, Eq, Default)]
pub struct Present<T>(pub T);

impl<T> Sealed for NotPresent<T> {

}

impl<T> Sealed for Present<T> {

}

impl<T> OptionalPeripheral for NotPresent<T> {
    type Inner = T;

    fn is_present() -> (r: bool)
        ensures
            !r,
    {
        false
    }

    fn get(&self) -> (r: Option<&T>)
        ensures
            r is None,
    {
        None
    }
}

impl<T> OptionalPeripheral for Present<T> {
    type Inner = T;

    fn is_present() -> (r: bool)
        ensures
            r,
    {
        true
    }

    fn get(&self) -> (r: Option<&T>)
        ensures
            r == Some(&self.0),
    {
        Some(&self.0)
    }
}

} // verus!
