use vstd::prelude::*;

use crate::types::Wrapper;

verus! {

/// A value bound for one field slot of the worker.
#[derive(Debug, Clone, Copy, PartialEq, Eq, Structural)]
pub struct Update {
    pub input_pos: usize,
    pub value: Wrapper,
}

} // verus!
