//! A verified core for the LC-3 teaching platform: the ISA, an instruction
//! level simulator, the peripheral interfaces, and the device support pieces.
use vstd::prelude::*;

pub mod isa;
pub mod peripherals;
pub mod control;
pub mod device;
pub mod error;
pub mod misc;
pub mod mem_mapped;
pub mod interp;
pub mod interrupts;
pub mod runner;
pub mod interp_builder;
pub mod interp_laws;
pub mod fifo;
pub mod rpc;
pub mod shims;

verus! {
} // verus!
