//! Witness generation for a circuit prover: a witness store partitioned by copy constraints, a
//! fixed-point scheduler over watching generators, a small library of generators with a byte
//! encoding, and the memory model of a simulated virtual machine.
use vstd::prelude::*;

pub mod field;
pub mod generation;
pub mod generator;
pub mod memory;
pub mod serialization;
pub mod target;
pub mod witness;

verus! {

} // verus!
