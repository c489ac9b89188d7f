//! Evolutionary-algorithm tuning values for one run.
//!
//! Set once at initialization and read-only while stepping; changing them
//! means re-initializing. Fractions and probabilities are fixed-point values
//! in `[0, FP_SCALE]`, standing for reals in `[0, 1]`.

use vstd::prelude::*;
use crate::fixed::FP_SCALE;
use crate::MAX_FUNCTIONS;

verus! {

/// Process-wide tunables for one run.
#[derive(Clone, Copy, PartialEq, Eq, Structural, Debug)]
pub struct HyperParameters {
    /// Initial term count per agent, `1..=MAX_FUNCTIONS`.
    pub starting_functions: usize,
    /// Fraction of the population retained as elite each generation.
    pub selection_fraction: i64,
    /// Probability that one term's coefficients are perturbed.
    pub mutation_probability: i64,
    /// Magnitude of a coefficient perturbation.
    pub mutation_strength: i64,
    /// Probability that a mutation adds one term.
    pub function_addition_probability: i64,
    /// Probability that a mutation removes one term.
    pub function_subtraction_probability: i64,
}

/// A fixed-point fraction standing for a real in `[0, 1]`.
pub open spec fn fraction_wf(v: int) -> bool {
    0 <= v <= FP_SCALE
}

impl HyperParameters {
    /// A parameter set the engine accepts.
    pub open spec fn valid(self) -> bool {
        &&& 1 <= self.starting_functions <= MAX_FUNCTIONS
        &&& fraction_wf(self.selection_fraction as int)
        &&& fraction_wf(self.mutation_probability as int)
        &&& fraction_wf(self.mutation_strength as int)
        &&& fraction_wf(self.function_addition_probability as int)
        &&& fraction_wf(self.function_subtraction_probability as int)
    }

    /// Whether the engine would accept this parameter set; what `valid`
    /// states, decided at run time.
    pub fn check(&self) -> (r: bool)
        ensures
            r == self.valid(),
    {
        1 <= self.starting_functions && self.starting_functions <= MAX_FUNCTIONS
            && 0 <= self.selection_fraction && self.selection_fraction <= FP_SCALE
            && 0 <= self.mutation_probability && self.mutation_probability <= FP_SCALE
            && 0 <= self.mutation_strength && self.mutation_strength <= FP_SCALE
            && 0 <= self.function_addition_probability
            && self.function_addition_probability <= FP_SCALE
            && 0 <= self.function_subtraction_probability
            && self.function_subtraction_probability <= FP_SCALE
    }
}

/// Number of elite slots: `floor(population_size * selection_fraction)`.
pub open spec fn top_count_spec(population_size: int, selection_fraction: int) -> int {
    population_size * selection_fraction / (FP_SCALE as int)
}

/// The elite count for this population size, with the guarantee that elites
/// never outnumber the population.
pub fn top_count(population_size: usize, params: &HyperParameters) -> (r: usize)
    requires
        params.valid(),
    ensures
        r == top_count_spec(population_size as int, params.selection_fraction as int),
        r <= population_size,
{
    let ps: u128 = population_size as u128;
    let sf: u128 = params.selection_fraction as u128;
    assert(ps * sf <= 0xFFFF_FFFF_FFFF_FFFF * 0x1_0000) by (nonlinear_arith)
        requires
            ps <= 0xFFFF_FFFF_FFFF_FFFF,
            sf <= 0x1_0000,
    ;
    let wide: u128 = ps * sf;
    let t: u128 = wide / (FP_SCALE as u128);
    assert(t <= population_size) by (nonlinear_arith)
        requires
            wide == population_size as u128 * params.selection_fraction as u128,
            t == wide / (FP_SCALE as u128),
            params.selection_fraction <= FP_SCALE,
            0 <= params.selection_fraction,
    ;
    t as usize
}

} // verus!
