//! The engine's guarantees, stated on their own.
//!
//! Each lemma here states one promise of the training protocol over the
//! specification functions that the engine's contracts use, so a reader can
//! see the guarantee without tracing it through the method contracts.

use vstd::prelude::*;
use crate::agent::AgentView;
use crate::engine::{
    generation_pop_spec, init_pop_spec, init_rngs_spec, step_pop_spec,
};
use crate::params::HyperParameters;
use crate::sort::{lemma_sort_first_is_no_worse, lemma_sort_spec, sort_spec};
use crate::wave::{agent_value_upto, render_spec};

verus! {

/// Initializing twice with the same seed, tuning and goal gives the same
/// population and the same generator states: seeding is deterministic.
pub proof fn lemma_initialize_deterministic(
    pop1: Seq<AgentView>,
    pop2: Seq<AgentView>,
    rngs1: Seq<u64>,
    rngs2: Seq<u64>,
    seed: u64,
    params: HyperParameters,
    goal: Seq<int>,
    n: int,
)
    requires
        pop1 == sort_spec(init_pop_spec(seed, params, goal, n)),
        pop2 == sort_spec(init_pop_spec(seed, params, goal, n)),
        rngs1 == init_rngs_spec(seed, params, n),
        rngs2 == init_rngs_spec(seed, params, n),
    ensures
        pop1 == pop2,
        rngs1 == rngs2,
{
}

/// Elites survive a generation: every agent among the top `top` slots is
/// still in the population after the generation's mutate-and-rank cycle,
/// untouched, counted with multiplicity.
pub proof fn lemma_elites_survive(
    pop: Seq<AgentView>,
    rngs: Seq<u64>,
    top: int,
    params: HyperParameters,
    goal: Seq<int>,
)
    requires
        0 <= top <= pop.len(),
        rngs.len() == pop.len(),
    ensures
        pop.subrange(0, top).to_multiset().subset_of(
            generation_pop_spec(pop, rngs, top, params, goal).to_multiset(),
        ),
{
    broadcast use vstd::seq_lib::lemma_multiset_commutative;

    let m = step_pop_spec(pop, rngs, top, params, goal);
    let head = m.subrange(0, top);
    let tail = m.subrange(top, m.len() as int);
    assert(head =~= pop.subrange(0, top));
    assert(m =~= head + tail);
    assert((head + tail).to_multiset() == head.to_multiset().add(tail.to_multiset()));
    lemma_sort_spec(m);
    assert forall|x: AgentView|
        pop.subrange(0, top).to_multiset().count(x) <= #[trigger] generation_pop_spec(
            pop,
            rngs,
            top,
            params,
            goal,
        ).to_multiset().count(x) by {
        assert(m.to_multiset().count(x) == head.to_multiset().count(x) + tail.to_multiset().count(
            x,
        ));
    }
}

/// The best agent never degrades over a generation: slot 0 of the ranked
/// result is at least as fit as slot 0 was before, since the previous best is
/// an elite and elites are untouched.
pub proof fn lemma_best_never_degrades(
    pop: Seq<AgentView>,
    rngs: Seq<u64>,
    top: int,
    params: HyperParameters,
    goal: Seq<int>,
)
    requires
        1 <= top <= pop.len(),
        rngs.len() == pop.len(),
    ensures
        generation_pop_spec(pop, rngs, top, params, goal)[0].fitness <= pop[0].fitness,
{
    let m = step_pop_spec(pop, rngs, top, params, goal);
    assert(m[0] == pop[0]);
    assert(m.contains(pop[0]));
    lemma_sort_first_is_no_worse(m, pop[0]);
}

/// An agent with no active terms renders to zero at every sample position.
pub proof fn lemma_empty_agent_renders_zero(wave_res: int)
    ensures
        forall|w: int|
            0 <= w < wave_res ==> #[trigger] render_spec(
                Seq::<crate::agent::FunctionCoefficients>::empty(),
                wave_res,
            )[w] == 0,
{
    reveal(agent_value_upto);
}

} // verus!
