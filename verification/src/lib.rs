//! An evolutionary trainer for parametric waveform approximators.
//!
//! A population of agents, each a short sum of periodic basis terms, is
//! evolved toward a goal signal: every generation the non-elite tail of the
//! population is rewritten with mutated copies of elite agents, fitness is
//! recomputed, and the population is re-ranked ascending by fitness.
//!
//! All numeric state is fixed-point (see [`fixed`]); the per-lane numeric
//! primitives (RNG draws, mutation arithmetic, fitness distance) are
//! implemented and verified here as a sequential compute backend with the
//! same lane semantics a data-parallel backend must provide.

pub mod agent;
pub mod engine;
pub mod fixed;
pub mod formula;
pub mod laws;
pub mod mutate;
pub mod params;
pub mod schedule;
pub mod sort;
pub mod wave;
pub mod rng;

use vstd::prelude::*;

verus! {

/// Largest number of basis terms one agent may hold.
pub const MAX_FUNCTIONS: usize = 8;

/// Everything that can go wrong in the training engine.
#[derive(Clone, Copy, PartialEq, Eq, Structural, Debug)]
pub enum TrainError {
    /// The requested population does not fit in the memory budget.
    AllocationError,
    /// A goal signal of the wrong length was supplied.
    SizeMismatch,
    /// A dispatch of the named operation failed on the backend.
    KernelDispatchError(DispatchOp),
    /// An agent index outside the population was supplied.
    IndexOutOfRange,
}

/// The four operations a compute backend dispatches.
#[derive(Clone, Copy, PartialEq, Eq, Structural, Debug)]
pub enum DispatchOp {
    Init,
    Step,
    SortPass,
    Render,
}

} // verus!
