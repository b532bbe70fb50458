//! The invocations of the permutation that a trace is built from.

use crate::constants::WIDTH;
use vstd::prelude::*;

verus! {

/// One invocation of the permutation: the sixteen lanes it is applied to.
#[derive(Clone, Copy, Debug)]
pub struct Poseidon2Event {
    pub input: [u32; WIDTH],
}

/// The invocations collected during one execution.
#[derive(Clone, Debug, Default)]
pub struct ExecutionRecord {
    pub poseidon2_events: Vec<Poseidon2Event>,
}

} // verus!
