//! Movement patterns of units on the field.

use vstd::prelude::*;

verus! {

/// The wave that a movement pattern follows.
#[derive(Clone, Copy, Debug, PartialEq, Eq, Structural)]
pub enum InnerFunc {
    Sin,
    Cos,
}

/// A vertical movement pattern over time: `m` times the wave `f_inner`,
/// taken at `b` times the elapsed time.
#[derive(Clone, Copy, Debug, PartialEq, Eq)]
pub struct MoveFunction {
    pub m: usize,
    pub f_inner: InnerFunc,
    pub b: usize,
}

} // verus!
