//! Agent construction and mutation.
//!
//! Initialization builds every agent from its slot's freshly seeded generator:
//! `starting_functions` random terms, fitness computed against the goal. A
//! generation mutates each non-elite slot: a copy of an elite agent chosen by
//! the slot's generator gets, independently, per-term coefficient
//! perturbation with probability `mutation_probability` (magnitude scaled by
//! `mutation_strength`), one term added with probability
//! `function_addition_probability` (a no-op at capacity), and one term removed
//! with probability `function_subtraction_probability` (a no-op at one term).
//! The mutated agent's fitness is recomputed before the slot is done.

use vstd::prelude::*;
use crate::agent::{agent_wf, copy_terms, term_wf, Agent, AgentView, FunctionCoefficients,
    WaveFunction};
use crate::fixed::{fp_add, fp_add_spec, fp_in_range, fp_mul, fp_mul_spec};
use crate::params::{fraction_wf, HyperParameters};
use crate::rng::{
    draw_fraction, draw_fraction_spec, draw_index, draw_index_spec, draw_signed_fraction,
    draw_signed_fraction_spec, rng_next, rng_next_state_spec, rng_next_value_spec, seed_slot,
    seed_slot_spec,
};
use crate::wave::{compute_fitness, fitness_spec, samples_view};
use crate::MAX_FUNCTIONS;

verus! {

/// The term one draw sequence produces, and the generator state after it.
pub open spec fn random_term_spec(s: u64) -> (FunctionCoefficients, u64) {
    let s1 = rng_next_state_spec(s);
    let v1 = rng_next_value_spec(s);
    let s2 = rng_next_state_spec(s1);
    let v2 = rng_next_value_spec(s1);
    let s3 = rng_next_state_spec(s2);
    let v3 = rng_next_value_spec(s2);
    (
        FunctionCoefficients {
            function_type: if v1 % 2 == 0 {
                WaveFunction::Sine
            } else {
                WaveFunction::SawTooth
            },
            scale: draw_signed_fraction_spec(v2) as i64,
            x_translation: draw_signed_fraction_spec(v3) as i64,
        },
        s3,
    )
}

/// One random term: random basis, random scale and translation in `[-1, 1]`.
pub fn random_term(s: u64) -> (r: (FunctionCoefficients, u64))
    ensures
        r == random_term_spec(s),
        term_wf(r.0),
{
    let (s1, v1) = rng_next(s);
    let (s2, v2) = rng_next(s1);
    let (s3, v3) = rng_next(s2);
    let t = FunctionCoefficients {
        function_type: if v1 % 2 == 0 {
            WaveFunction::Sine
        } else {
            WaveFunction::SawTooth
        },
        scale: draw_signed_fraction(v2),
        x_translation: draw_signed_fraction(v3),
    };
    (t, s3)
}

/// The first `count` terms a slot's generator produces, with the state after.
#[verifier::opaque]
pub open spec fn gen_terms_spec(s: u64, count: int) -> (Seq<FunctionCoefficients>, u64)
    decreases count,
{
    if count <= 0 {
        (Seq::empty(), s)
    } else {
        let prev = gen_terms_spec(s, count - 1);
        let t = random_term_spec(prev.1);
        (prev.0.push(t.0), t.1)
    }
}

/// Generated terms are well formed and as many as asked for.
pub proof fn lemma_gen_terms_wf(s: u64, count: int)
    ensures
        gen_terms_spec(s, count).0.len() == if count <= 0 {
            0
        } else {
            count
        },
        forall|i: int|
            0 <= i < gen_terms_spec(s, count).0.len() ==> term_wf(
                #[trigger] gen_terms_spec(s, count).0[i],
            ),
    decreases count,
{
    reveal(gen_terms_spec);
    if count > 0 {
        lemma_gen_terms_wf(s, count - 1);
    }
}

pub fn gen_terms(s: u64, count: usize) -> (r: (Vec<FunctionCoefficients>, u64))
    ensures
        (r.0@, r.1) == gen_terms_spec(s, count as int),
        forall|i: int| 0 <= i < r.0@.len() ==> term_wf(#[trigger] r.0@[i]),
        r.0@.len() == count,
{
    let mut terms: Vec<FunctionCoefficients> = Vec::new();
    let mut state = s;
    let mut i: usize = 0;
    proof {
        reveal(gen_terms_spec);
        lemma_gen_terms_wf(s, count as int);
    }
    while i < count
        invariant
            i <= count,
            (terms@, state) == gen_terms_spec(s, i as int),
            forall|k: int| 0 <= k < terms@.len() ==> term_wf(#[trigger] terms@[k]),
        decreases count - i,
    {
        proof {
            reveal(gen_terms_spec);
        }
        let (t, ns) = random_term(state);
        terms.push(t);
        state = ns;
        i = i + 1;
    }
    (terms, state)
}

/// The agent slot `i` holds right after initialization under `seed`: its
/// generator seeded from `(seed, i)`, `starting_functions` random terms, and
/// its fitness measured against the goal.
pub open spec fn init_agent_spec(
    seed: u64,
    i: u64,
    params: HyperParameters,
    goal: Seq<int>,
) -> AgentView {
    let g = gen_terms_spec(seed_slot_spec(seed, i), params.starting_functions as int);
    AgentView { terms: g.0, fitness: fitness_spec(g.0, goal) }
}

/// The generator state slot `i` holds right after initialization.
pub open spec fn init_rng_spec(seed: u64, i: u64, params: HyperParameters) -> u64 {
    gen_terms_spec(seed_slot_spec(seed, i), params.starting_functions as int).1
}

/// Build the initial agent of one slot.
pub fn init_agent(seed: u64, i: u64, params: &HyperParameters, goal: &Vec<i64>) -> (r: (
    Agent,
    u64,
))
    requires
        params.valid(),
        forall|k: int| 0 <= k < goal@.len() ==> fp_in_range(#[trigger] goal@[k] as int),
    ensures
        r.0@ == init_agent_spec(seed, i, *params, samples_view(goal@)),
        r.1 == init_rng_spec(seed, i, *params),
        agent_wf(r.0@),
        r.0@.fitness == fitness_spec(r.0@.terms, samples_view(goal@)),
{
    let s0 = seed_slot(seed, i);
    let (terms, s1) = gen_terms(s0, params.starting_functions);
    let fitness = compute_fitness(&terms, goal);
    let a = Agent { functions: terms, fitness };
    assert(a@ == init_agent_spec(seed, i, *params, samples_view(goal@)));
    (a, s1)
}

/// The terms after the first `k` of them have taken their perturbation draw,
/// and the generator state after those draws.
#[verifier::opaque]
pub open spec fn perturb_terms_spec(
    terms: Seq<FunctionCoefficients>,
    s: u64,
    mutation_probability: i64,
    mutation_strength: i64,
    k: int,
) -> (Seq<FunctionCoefficients>, u64)
    decreases k,
{
    if k <= 0 {
        (terms, s)
    } else {
        let prev = perturb_terms_spec(terms, s, mutation_probability, mutation_strength, k - 1);
        let s1 = rng_next_state_spec(prev.1);
        let v1 = rng_next_value_spec(prev.1);
        if draw_fraction_spec(v1) < mutation_probability as int {
            let s2 = rng_next_state_spec(s1);
            let v2 = rng_next_value_spec(s1);
            let s3 = rng_next_state_spec(s2);
            let v3 = rng_next_value_spec(s2);
            let old_t = terms[k - 1];
            let t = FunctionCoefficients {
                function_type: old_t.function_type,
                scale: fp_add_spec(
                    old_t.scale as int,
                    fp_mul_spec(draw_signed_fraction_spec(v2), mutation_strength as int),
                ) as i64,
                x_translation: fp_add_spec(
                    old_t.x_translation as int,
                    fp_mul_spec(draw_signed_fraction_spec(v3), mutation_strength as int),
                ) as i64,
            };
            (prev.0.update(k - 1, t), s3)
        } else {
            (prev.0, s1)
        }
    }
}

/// Perturbation keeps the term count, touches only the first `k` slots, and
/// keeps every term well formed.
#[verifier::rlimit(100)]
pub proof fn lemma_perturb_terms_wf(
    terms: Seq<FunctionCoefficients>,
    s: u64,
    mutation_probability: i64,
    mutation_strength: i64,
    k: int,
)
    requires
        k <= terms.len(),
        forall|i: int| 0 <= i < terms.len() ==> term_wf(#[trigger] terms[i]),
        fraction_wf(mutation_strength as int),
    ensures
        perturb_terms_spec(terms, s, mutation_probability, mutation_strength, k).0.len()
            == terms.len(),
        forall|i: int|
            k <= i < terms.len() ==> #[trigger] perturb_terms_spec(
                terms,
                s,
                mutation_probability,
                mutation_strength,
                k,
            ).0[i] == terms[i],
        forall|i: int|
            0 <= i < terms.len() ==> term_wf(
                #[trigger] perturb_terms_spec(
                    terms,
                    s,
                    mutation_probability,
                    mutation_strength,
                    k,
                ).0[i],
            ),
    decreases k,
{
    reveal(perturb_terms_spec);
    if k > 0 {
        lemma_perturb_terms_wf(terms, s, mutation_probability, mutation_strength, k - 1);
        let prev = perturb_terms_spec(terms, s, mutation_probability, mutation_strength, k - 1);
        let cur = perturb_terms_spec(terms, s, mutation_probability, mutation_strength, k);
        assert(cur.0.len() == terms.len());
        assert forall|i: int| k <= i < terms.len() implies cur.0[i] == terms[i] by {
            assert(prev.0[i] == terms[i]);
        }
        assert forall|i: int| 0 <= i < terms.len() implies term_wf(cur.0[i]) by {
            assert(term_wf(prev.0[i]));
            assert(term_wf(terms[k - 1]));
        }
    }
}

/// Run the perturbation draws over an owned term buffer.
fn perturb_terms(
    terms: Vec<FunctionCoefficients>,
    s: u64,
    mutation_probability: i64,
    mutation_strength: i64,
) -> (r: (Vec<FunctionCoefficients>, u64))
    requires
        forall|i: int| 0 <= i < terms@.len() ==> term_wf(#[trigger] terms@[i]),
        fraction_wf(mutation_strength as int),
    ensures
        (r.0@, r.1) == perturb_terms_spec(
            terms@,
            s,
            mutation_probability,
            mutation_strength,
            terms@.len() as int,
        ),
        r.0@.len() == terms@.len(),
        forall|i: int| 0 <= i < r.0@.len() ==> term_wf(#[trigger] r.0@[i]),
{
    proof {
        reveal(perturb_terms_spec);
    }
    let ghost orig: Seq<FunctionCoefficients> = terms@;
    let n = terms.len();
    let mut out = terms;
    let mut state = s;
    let mut i: usize = 0;
    while i < n
        invariant
            i <= n,
            n == orig.len(),
            forall|k: int| 0 <= k < orig.len() ==> term_wf(#[trigger] orig[k]),
            fraction_wf(mutation_strength as int),
            (out@, state) == perturb_terms_spec(
                orig,
                s,
                mutation_probability,
                mutation_strength,
                i as int,
            ),
        decreases n - i,
    {
        proof {
            reveal(perturb_terms_spec);
            lemma_perturb_terms_wf(orig, s, mutation_probability, mutation_strength, i as int);
            lemma_perturb_terms_wf(
                orig,
                s,
                mutation_probability,
                mutation_strength,
                i + 1 as int,
            );
        }
        let (s1, v1) = rng_next(state);
        if draw_fraction(v1) < mutation_probability {
            let (s2, v2) = rng_next(s1);
            let (s3, v3) = rng_next(s2);
            let old_t = out[i];
            assert(out@[i as int] == orig[i as int]);
            let t = FunctionCoefficients {
                function_type: old_t.function_type,
                scale: fp_add(old_t.scale, fp_mul(draw_signed_fraction(v2), mutation_strength)),
                x_translation: fp_add(
                    old_t.x_translation,
                    fp_mul(draw_signed_fraction(v3), mutation_strength),
                ),
            };
            out.set(i, t);
            state = s3;
        } else {
            state = s1;
        }
        i = i + 1;
    }
    proof {
        lemma_perturb_terms_wf(orig, s, mutation_probability, mutation_strength, n as int);
    }
    (out, state)
}

/// The mutated copy of `terms` that the draw sequence starting at `s`
/// produces, with its fitness against the goal, and the state after: per-term
/// perturbation, then at most one addition (skipped at capacity), then at
/// most one removal (skipped at one term).
#[verifier::opaque]
pub open spec fn mutate_agent_spec(
    terms: Seq<FunctionCoefficients>,
    s: u64,
    params: HyperParameters,
    goal: Seq<int>,
) -> (AgentView, u64) {
    let p = perturb_terms_spec(
        terms,
        s,
        params.mutation_probability,
        params.mutation_strength,
        terms.len() as int,
    );
    let sa = rng_next_state_spec(p.1);
    let va = rng_next_value_spec(p.1);
    let added = if draw_fraction_spec(va) < params.function_addition_probability as int
        && p.0.len() < MAX_FUNCTIONS {
        let rt = random_term_spec(sa);
        (p.0.push(rt.0), rt.1)
    } else {
        (p.0, sa)
    };
    let ss = rng_next_state_spec(added.1);
    let vs = rng_next_value_spec(added.1);
    let kept = if draw_fraction_spec(vs) < params.function_subtraction_probability as int
        && added.0.len() > 1 {
        (added.0.drop_last(), ss)
    } else {
        (added.0, ss)
    };
    (AgentView { terms: kept.0, fitness: fitness_spec(kept.0, goal) }, kept.1)
}

/// Mutation never overflows the term capacity and never empties an agent:
/// adding at capacity and removing the last term are no-ops.
#[verifier::rlimit(100)]
pub proof fn lemma_mutate_agent_len(
    terms: Seq<FunctionCoefficients>,
    s: u64,
    params: HyperParameters,
    goal: Seq<int>,
)
    requires
        terms.len() <= MAX_FUNCTIONS,
        forall|i: int| 0 <= i < terms.len() ==> term_wf(#[trigger] terms[i]),
        fraction_wf(params.mutation_strength as int),
    ensures
        mutate_agent_spec(terms, s, params, goal).0.terms.len() <= MAX_FUNCTIONS,
        terms.len() >= 1 ==> mutate_agent_spec(terms, s, params, goal).0.terms.len() >= 1,
{
    reveal(mutate_agent_spec);
    lemma_perturb_terms_wf(
        terms,
        s,
        params.mutation_probability,
        params.mutation_strength,
        terms.len() as int,
    );
}

/// Mutate one copy of an elite agent's terms and measure it against the goal.
pub fn mutate_agent(
    elite_terms: &Vec<FunctionCoefficients>,
    s: u64,
    params: &HyperParameters,
    goal: &Vec<i64>,
) -> (r: (Agent, u64))
    requires
        params.valid(),
        elite_terms@.len() <= MAX_FUNCTIONS,
        forall|i: int| 0 <= i < elite_terms@.len() ==> term_wf(#[trigger] elite_terms@[i]),
        forall|i: int| 0 <= i < goal@.len() ==> fp_in_range(#[trigger] goal@[i] as int),
    ensures
        r.0@ == mutate_agent_spec(elite_terms@, s, *params, samples_view(goal@)).0,
        r.1 == mutate_agent_spec(elite_terms@, s, *params, samples_view(goal@)).1,
        agent_wf(r.0@),
        r.0@.fitness == fitness_spec(r.0@.terms, samples_view(goal@)),
{
    proof {
        reveal(mutate_agent_spec);
    }
    let copied = copy_terms(elite_terms);
    let (mut out, s0) = perturb_terms(
        copied,
        s,
        params.mutation_probability,
        params.mutation_strength,
    );
    let (sa, va) = rng_next(s0);
    let mut state = sa;
    if draw_fraction(va) < params.function_addition_probability && out.len() < MAX_FUNCTIONS {
        let (t, ns) = random_term(sa);
        out.push(t);
        state = ns;
    }
    let (ss, vs) = rng_next(state);
    state = ss;
    if draw_fraction(vs) < params.function_subtraction_probability && out.len() > 1 {
        out.pop();
    }
    let fitness = compute_fitness(&out, goal);
    let a = Agent { functions: out, fitness };
    assert(a@.terms =~= mutate_agent_spec(elite_terms@, s, *params, samples_view(goal@)).0.terms);
    assert(a@ == mutate_agent_spec(elite_terms@, s, *params, samples_view(goal@)).0);
    (a, state)
}

/// What one non-elite slot holding generator state `s` becomes during a
/// generation: a mutated copy of the elite its own draw picks.
pub open spec fn mutate_slot_spec(
    pop: Seq<AgentView>,
    s: u64,
    top: int,
    params: HyperParameters,
    goal: Seq<int>,
) -> (AgentView, u64) {
    let s1 = rng_next_state_spec(s);
    let v1 = rng_next_value_spec(s);
    let e = draw_index_spec(v1, top);
    mutate_agent_spec(pop[e].terms, s1, params, goal)
}

/// Rewrite one non-elite slot from a mutated elite copy.
pub fn mutate_slot(
    agents: &Vec<Agent>,
    s: u64,
    top: usize,
    params: &HyperParameters,
    goal: &Vec<i64>,
) -> (r: (Agent, u64))
    requires
        params.valid(),
        0 < top <= agents@.len(),
        forall|i: int|
            0 <= i < agents@.len() ==> agent_wf(#[trigger] crate::sort::views(agents@)[i]),
        forall|i: int| 0 <= i < goal@.len() ==> fp_in_range(#[trigger] goal@[i] as int),
    ensures
        r.0@ == mutate_slot_spec(
            crate::sort::views(agents@),
            s,
            top as int,
            *params,
            samples_view(goal@),
        ).0,
        r.1 == mutate_slot_spec(
            crate::sort::views(agents@),
            s,
            top as int,
            *params,
            samples_view(goal@),
        ).1,
        agent_wf(r.0@),
        r.0@.fitness == fitness_spec(r.0@.terms, samples_view(goal@)),
{
    let (s1, v1) = rng_next(s);
    let e = draw_index(v1, top as u64);
    assert(e < top);
    let elite = &agents[e as usize];
    assert(crate::sort::views(agents@)[e as int] == elite@);
    assert(agent_wf(elite@));
    assert(crate::sort::views(agents@)[e as int].terms == elite.functions@);
    mutate_agent(&elite.functions, s1, params, goal)
}

} // verus!
