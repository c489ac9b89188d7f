//! The per-individual data model.
//!
//! An agent is one candidate waveform: an ordered sequence of at most
//! [`MAX_FUNCTIONS`](crate::MAX_FUNCTIONS) basis terms together with its
//! fitness, the aggregate distance between the waveform it renders and the
//! goal (lower is better). Terms are plain fixed-point values; an agent is a
//! plain value with no shared ownership.

use vstd::prelude::*;
use crate::fixed::{fp_in_range, FP_MAX};
use crate::MAX_FUNCTIONS;

verus! {

/// The basis a term is drawn from.
#[derive(Clone, Copy, PartialEq, Eq, Structural, Debug)]
pub enum WaveFunction {
    Sine,
    SawTooth,
}

/// One basis term: `scale * basis(x + x_translation)`, fixed-point fields.
/// Immutable once produced by mutation; replaced wholesale.
#[derive(Clone, Copy, PartialEq, Eq, Structural, Debug)]
pub struct FunctionCoefficients {
    pub function_type: WaveFunction,
    pub scale: i64,
    pub x_translation: i64,
}

/// One candidate solution. Only the terms actually present are stored; their
/// count (`functions_len` in the device layout, where the term array has
/// fixed capacity) is the length of `functions`, and entries past it do not
/// exist here at all, so nothing can evaluate them.
pub struct Agent {
    pub functions: Vec<FunctionCoefficients>,
    pub fitness: i64,
}

/// The mathematical value of one agent.
pub ghost struct AgentView {
    pub terms: Seq<FunctionCoefficients>,
    pub fitness: int,
}

impl View for Agent {
    type V = AgentView;

    open spec fn view(&self) -> AgentView {
        AgentView { terms: self.functions@, fitness: self.fitness as int }
    }
}

/// A term whose coefficients the engine may hold.
pub open spec fn term_wf(t: FunctionCoefficients) -> bool {
    &&& fp_in_range(t.scale as int)
    &&& fp_in_range(t.x_translation as int)
}

/// An agent the engine may hold: term count within capacity, every
/// coefficient in range, fitness a saturated non-negative distance.
pub open spec fn agent_wf(a: AgentView) -> bool {
    &&& a.terms.len() <= MAX_FUNCTIONS
    &&& forall|i: int| 0 <= i < a.terms.len() ==> term_wf(#[trigger] a.terms[i])
    &&& 0 <= a.fitness <= FP_MAX
}

impl Agent {
    /// Number of basis terms in use, `0 <= len <= MAX_FUNCTIONS`.
    pub fn functions_len(&self) -> (r: usize)
        ensures
            r == self@.terms.len(),
    {
        self.functions.len()
    }
}

impl Default for Agent {
    /// A zero-term agent with fitness unset (stored as zero).
    fn default() -> (r: Self)
        ensures
            r@.terms.len() == 0,
            r@.fitness == 0,
            agent_wf(r@),
    {
        Agent { functions: Vec::new(), fitness: 0 }
    }
}

/// An independent copy of a term buffer.
pub fn copy_terms(ts: &Vec<FunctionCoefficients>) -> (r: Vec<FunctionCoefficients>)
    ensures
        r@ == ts@,
{
    let mut terms: Vec<FunctionCoefficients> = Vec::new();
    let mut i: usize = 0;
    while i < ts.len()
        invariant
            i <= ts.len(),
            terms@ == ts@.subrange(0, i as int),
        decreases ts.len() - i,
    {
        terms.push(ts[i]);
        i = i + 1;
    }
    assert(terms@ =~= ts@);
    terms
}

/// An independent copy of a sample buffer.
pub fn copy_goal(ts: &Vec<i64>) -> (r: Vec<i64>)
    ensures
        r@ == ts@,
{
    let mut out: Vec<i64> = Vec::new();
    let mut i: usize = 0;
    while i < ts.len()
        invariant
            i <= ts.len(),
            out@ == ts@.subrange(0, i as int),
        decreases ts.len() - i,
    {
        out.push(ts[i]);
        i = i + 1;
    }
    assert(out@ =~= ts@);
    out
}

/// An independent copy of an agent: copies are cheap and semantically
/// independent.
pub fn clone_agent(a: &Agent) -> (r: Agent)
    ensures
        r@ == a@,
{
    let r = Agent { functions: copy_terms(&a.functions), fitness: a.fitness };
    assert(r@ =~= a@);
    r
}

} // verus!
