//! The training engine.
//!
//! One engine owns the population store for the life of the process: the
//! fixed-length agent buffer, one generator state per slot, and the goal
//! buffer, all allocated once against a memory budget. `init` reseeds and
//! repopulates everything; `step` runs generations (mutate the non-elite
//! tail, re-rank); `best` reads slot 0, memoized until the next write;
//! `output` renders any agent's waveform. After every completed `init` or
//! `step` the population is totally ordered ascending by fitness, so slot 0
//! always holds the best agent.

use vstd::prelude::*;
use crate::agent::{agent_wf, clone_agent, Agent, AgentView};
use crate::fixed::fp_in_range;
use crate::mutate::{init_agent, init_agent_spec, init_rng_spec, mutate_slot, mutate_slot_spec};
use crate::params::{top_count, top_count_spec, HyperParameters};
use crate::sort::{sort_population, sort_spec, sorted_by_fitness, views};
use crate::wave::{fitness_spec, render_samples, render_spec, samples_view};
use crate::TrainError;

verus! {

/// Bytes one agent occupies in the population store.
pub const AGENT_BYTES: u64 = 200;

/// Bytes one slot's generator state occupies.
pub const RNG_STATE_BYTES: u64 = 8;

/// Bytes one sample of the goal or output buffer occupies.
pub const SAMPLE_BYTES: u64 = 8;

/// What a population of `n` agents with `wave_res`-sample goal and output
/// buffers asks of the memory budget.
pub open spec fn required_bytes_spec(n: int, wave_res: int) -> int {
    n * (AGENT_BYTES + RNG_STATE_BYTES) + wave_res * 2 * SAMPLE_BYTES
}

/// A positive power of two.
pub open spec fn is_pow2(n: int) -> bool
    decreases n,
{
    if n <= 0 {
        false
    } else if n == 1 {
        true
    } else {
        n % 2 == 0 && is_pow2(n / 2)
    }
}

/// Decide `is_pow2` at run time.
pub fn is_power_of_two(n: usize) -> (r: bool)
    ensures
        r == is_pow2(n as int),
{
    if n == 0 {
        return false;
    }
    let mut m: usize = n;
    while m > 1 && m % 2 == 0
        invariant
            m >= 1,
            is_pow2(n as int) == is_pow2(m as int),
        decreases m,
    {
        m = m / 2;
    }
    m == 1
}

impl Default for HyperParameters {
    /// The tuning the engine starts with: one term per agent, a fifth of the
    /// population kept as elite, and a tenth chance each of perturbation,
    /// addition and removal, with perturbation strength a fifth.
    fn default() -> (r: Self)
        ensures
            r == default_params(),
            r.valid(),
    {
        HyperParameters {
            starting_functions: 1,
            selection_fraction: 13107,
            mutation_probability: 6554,
            mutation_strength: 13107,
            function_addition_probability: 6554,
            function_subtraction_probability: 6554,
        }
    }
}

/// The engine's starting tuning values.
pub open spec fn default_params() -> HyperParameters {
    HyperParameters {
        starting_functions: 1,
        selection_fraction: 13107,
        mutation_probability: 6554,
        mutation_strength: 13107,
        function_addition_probability: 6554,
        function_subtraction_probability: 6554,
    }
}

/// Every agent of a population is well formed and carries exactly its
/// measured fitness against the goal.
pub open spec fn consistent(pop: Seq<AgentView>, goal: Seq<int>) -> bool {
    forall|i: int|
        0 <= i < pop.len() ==> agent_wf(#[trigger] pop[i]) && pop[i].fitness == fitness_spec(
            pop[i].terms,
            goal,
        )
}

/// Consistency is a property of the contents alone: any reordering keeps it.
pub proof fn lemma_consistent_permutation(s1: Seq<AgentView>, s2: Seq<AgentView>, goal: Seq<int>)
    requires
        s1.to_multiset() == s2.to_multiset(),
        consistent(s1, goal),
    ensures
        consistent(s2, goal),
{
    broadcast use vstd::seq_lib::to_multiset_contains;

    assert forall|i: int| 0 <= i < s2.len() implies agent_wf(#[trigger] s2[i]) && s2[i].fitness
        == fitness_spec(s2[i].terms, goal) by {
        assert(s2.contains(s2[i]));
        assert(s2.to_multiset().count(s2[i]) > 0);
        assert(s1.to_multiset().count(s2[i]) > 0);
        assert(s1.contains(s2[i]));
        let j = choose|j: int| 0 <= j < s1.len() && s1[j] == s2[i];
        assert(agent_wf(s1[j]));
    }
}

/// The population an `init(seed, ..)` dispatch produces, slot by slot,
/// before ranking.
pub open spec fn init_pop_spec(
    seed: u64,
    params: HyperParameters,
    goal: Seq<int>,
    n: int,
) -> Seq<AgentView> {
    Seq::new(n as nat, |i: int| init_agent_spec(seed, i as u64, params, goal))
}

/// The generator states an `init(seed, ..)` dispatch leaves, slot by slot.
pub open spec fn init_rngs_spec(seed: u64, params: HyperParameters, n: int) -> Seq<u64> {
    Seq::new(n as nat, |i: int| init_rng_spec(seed, i as u64, params))
}

/// The population one `step` dispatch produces before ranking: the top `top`
/// slots untouched, every other slot a mutated copy of an elite chosen by
/// that slot's generator.
pub open spec fn step_pop_spec(
    pop: Seq<AgentView>,
    rngs: Seq<u64>,
    top: int,
    params: HyperParameters,
    goal: Seq<int>,
) -> Seq<AgentView> {
    Seq::new(
        pop.len(),
        |i: int|
            if i < top {
                pop[i]
            } else {
                mutate_slot_spec(pop, rngs[i], top, params, goal).0
            },
    )
}

/// The generator states after one `step` dispatch: elite slots keep theirs.
pub open spec fn step_rngs_spec(
    pop: Seq<AgentView>,
    rngs: Seq<u64>,
    top: int,
    params: HyperParameters,
    goal: Seq<int>,
) -> Seq<u64> {
    Seq::new(
        rngs.len(),
        |i: int|
            if i < top {
                rngs[i]
            } else {
                mutate_slot_spec(pop, rngs[i], top, params, goal).1
            },
    )
}

/// One full generation: mutate the tail, then rank everything.
pub open spec fn generation_pop_spec(
    pop: Seq<AgentView>,
    rngs: Seq<u64>,
    top: int,
    params: HyperParameters,
    goal: Seq<int>,
) -> Seq<AgentView> {
    sort_spec(step_pop_spec(pop, rngs, top, params, goal))
}

/// The population and generator states after `k` whole generations.
pub open spec fn evolve_spec(
    pop: Seq<AgentView>,
    rngs: Seq<u64>,
    top: int,
    params: HyperParameters,
    goal: Seq<int>,
    k: int,
) -> (Seq<AgentView>, Seq<u64>)
    decreases k,
{
    if k <= 0 {
        (pop, rngs)
    } else {
        let prev = evolve_spec(pop, rngs, top, params, goal, k - 1);
        (
            generation_pop_spec(prev.0, prev.1, top, params, goal),
            step_rngs_spec(prev.0, prev.1, top, params, goal),
        )
    }
}

/// The training engine and its population store.
pub struct Trainer {
    /// Fixed number of agents, a power of two, set at allocation.
    pub population_size: usize,
    /// Fixed number of samples of the goal and of any rendered output.
    pub wave_res: usize,
    /// Tuning values of the current run.
    pub params: HyperParameters,
    /// The goal signal, `wave_res` fixed-point samples.
    pub goal: Vec<i64>,
    /// The population, one agent per slot.
    pub agents: Vec<Agent>,
    /// One generator state per slot.
    pub rngs: Vec<u64>,
    /// Whether `init` has completed since allocation.
    pub initialized: bool,
    /// Completed writes to the population; the memo below is valid only for
    /// the generation it was taken in.
    pub generation: u64,
    /// The memoized best agent and the generation it was read in.
    pub best_cache: Option<(u64, Agent)>,
}

impl Trainer {
    /// The engine's invariant: buffers allocated once and never resized,
    /// parameters valid, every goal sample in range; once initialized, the
    /// population is ranked and every agent carries its measured fitness.
    pub open spec fn wf(self) -> bool {
        &&& self.agents@.len() == self.population_size
        &&& self.rngs@.len() == self.population_size
        &&& self.goal@.len() == self.wave_res
        &&& self.wave_res >= 1
        &&& is_pow2(self.population_size as int)
        &&& self.params.valid()
        &&& forall|i: int| 0 <= i < self.goal@.len() ==> fp_in_range(#[trigger] self.goal@[i] as int)
        &&& self.initialized ==> sorted_by_fitness(views(self.agents@))
        &&& self.initialized ==> consistent(views(self.agents@), samples_view(self.goal@))
        &&& match self.best_cache {
            Some(c) => self.initialized && (c.0 == self.generation ==> self.agents@.len() > 0
                && c.1@ == views(self.agents@)[0]),
            None => true,
        }
    }

    /// The number of elite slots under the current tuning.
    pub open spec fn top_spec(self) -> int {
        top_count_spec(self.population_size as int, self.params.selection_fraction as int)
    }

    /// Allocate the population store: the fixed agent buffer, the generator
    /// states, and the goal buffer, all sized for the life of the process.
    /// Fails with `AllocationError` exactly when the deterministic size of
    /// that storage exceeds the memory budget.
    pub fn new(population_size: usize, wave_res: usize, memory_budget: u64) -> (r: Result<
        Trainer,
        TrainError,
    >)
        requires
            is_pow2(population_size as int),
            wave_res >= 1,
        ensures
            r is Err <==> required_bytes_spec(population_size as int, wave_res as int)
                > memory_budget,
            r is Err ==> r->Err_0 == TrainError::AllocationError,
            r is Ok ==> (r->Ok_0).wf() && !(r->Ok_0).initialized && (r->Ok_0).population_size
                == population_size && (r->Ok_0).wave_res == wave_res && (r->Ok_0).params
                == default_params(),
    {
        let ps: u128 = population_size as u128;
        let wr: u128 = wave_res as u128;
        let need: u128 = ps * 208 + wr * 16;
        assert(need == required_bytes_spec(population_size as int, wave_res as int));
        if need > memory_budget as u128 {
            return Err(TrainError::AllocationError);
        }
        let mut agents: Vec<Agent> = Vec::new();
        let mut rngs: Vec<u64> = Vec::new();
        let mut i: usize = 0;
        while i < population_size
            invariant
                i <= population_size,
                agents@.len() == i,
                rngs@.len() == i,
            decreases population_size - i,
        {
            agents.push(Agent::default());
            rngs.push(0);
            i = i + 1;
        }
        let mut goal: Vec<i64> = Vec::new();
        let mut w: usize = 0;
        while w < wave_res
            invariant
                w <= wave_res,
                goal@.len() == w,
                forall|k: int| 0 <= k < goal@.len() ==> fp_in_range(#[trigger] goal@[k] as int),
            decreases wave_res - w,
        {
            goal.push(0);
            w = w + 1;
        }
        Ok(
            Trainer {
                population_size,
                wave_res,
                params: HyperParameters::default(),
                goal,
                agents,
                rngs,
                initialized: false,
                generation: 0,
                best_cache: None,
            },
        )
    }

    /// Load the goal, reseed every slot from `(seed, slot)`, rebuild every
    /// agent with `starting_functions` random terms and its measured fitness,
    /// and rank the population. Fails with `SizeMismatch`, leaving the engine
    /// untouched, exactly when the goal has the wrong number of samples.
    #[verifier::rlimit(100)]
    pub fn init(&mut self, params: HyperParameters, seed: u64, goal: &Vec<i64>) -> (r: Result<
        (),
        TrainError,
    >)
        requires
            old(self).wf(),
            params.valid(),
            forall|i: int| 0 <= i < goal@.len() ==> fp_in_range(#[trigger] goal@[i] as int),
        ensures
            final(self).wf(),
            r is Err <==> goal@.len() != old(self).wave_res,
            r is Err ==> r->Err_0 == TrainError::SizeMismatch && *final(self) == *old(self),
            r is Ok ==> ({
                &&& final(self).initialized
                &&& final(self).params == params
                &&& final(self).goal@ == goal@
                &&& final(self).population_size == old(self).population_size
                &&& final(self).wave_res == old(self).wave_res
                &&& views(final(self).agents@) == sort_spec(
                    init_pop_spec(
                        seed,
                        params,
                        samples_view(goal@),
                        old(self).population_size as int,
                    ),
                )
                &&& final(self).rngs@ == init_rngs_spec(
                    seed,
                    params,
                    old(self).population_size as int,
                )
                &&& sorted_by_fitness(views(final(self).agents@))
            }),
    {
        if goal.len() != self.wave_res {
            return Err(TrainError::SizeMismatch);
        }
        self.params = params;
        self.goal = crate::agent::copy_goal(goal);
        self.best_cache = None;
        self.generation = if self.generation == u64::MAX {
            0
        } else {
            self.generation + 1
        };
        let n = self.population_size;
        let ghost gview: Seq<int> = samples_view(goal@);
        let mut i: usize = 0;
        while i < n
            invariant
                i <= n,
                n == self.population_size,
                self.population_size == old(self).population_size,
                self.wave_res == old(self).wave_res,
                self.goal@.len() == self.wave_res,
                self.wave_res >= 1,
                is_pow2(self.population_size as int),
                self.best_cache is None,
                self.agents@.len() == n,
                self.rngs@.len() == n,
                self.goal@ == goal@,
                self.params == params,
                params.valid(),
                gview == samples_view(goal@),
                forall|k: int| 0 <= k < goal@.len() ==> fp_in_range(#[trigger] goal@[k] as int),
                forall|k: int|
                    0 <= k < i ==> #[trigger] views(self.agents@)[k] == init_agent_spec(
                        seed,
                        k as u64,
                        params,
                        gview,
                    ),
                forall|k: int|
                    0 <= k < i ==> #[trigger] self.rngs@[k] == init_rng_spec(
                        seed,
                        k as u64,
                        params,
                    ),
                forall|k: int|
                    0 <= k < i ==> agent_wf(#[trigger] views(self.agents@)[k]) && views(
                        self.agents@,
                    )[k].fitness == fitness_spec(views(self.agents@)[k].terms, gview),
            decreases n - i,
        {
            let ghost pre: Seq<Agent> = self.agents@;
            let (a, s) = init_agent(seed, i as u64, &params, goal);
            self.agents.set(i, a);
            self.rngs.set(i, s);
            proof {
                assert forall|k: int| 0 <= k < i implies #[trigger] views(self.agents@)[k]
                    == views(pre)[k] by {
                    assert(self.agents@[k] == pre[k]);
                }
                assert(views(self.agents@)[i as int] == a@);
            }
            i = i + 1;
        }
        proof {
            assert(views(self.agents@) =~= init_pop_spec(seed, params, gview, n as int));
            assert(self.rngs@ =~= init_rngs_spec(seed, params, n as int));
            assert(consistent(views(self.agents@), gview));
        }
        let ghost unranked: Seq<AgentView> = views(self.agents@);
        sort_population(&mut self.agents);
        proof {
            lemma_consistent_permutation(unranked, views(self.agents@), gview);
        }
        self.initialized = true;
        Ok(())
    }

    /// One generation: rewrite every non-elite slot with a mutated copy of an
    /// elite chosen by that slot's generator, then rank the population.
    #[verifier::rlimit(100)]
    fn step_once(&mut self)
        requires
            old(self).wf(),
            old(self).initialized,
            old(self).best_cache is None,
            old(self).top_spec() >= 1,
        ensures
            final(self).wf(),
            final(self).initialized,
            final(self).best_cache is None,
            final(self).population_size == old(self).population_size,
            final(self).wave_res == old(self).wave_res,
            final(self).params == old(self).params,
            final(self).goal@ == old(self).goal@,
            final(self).generation == old(self).generation,
            views(final(self).agents@) == generation_pop_spec(
                views(old(self).agents@),
                old(self).rngs@,
                old(self).top_spec(),
                old(self).params,
                samples_view(old(self).goal@),
            ),
            final(self).rngs@ == step_rngs_spec(
                views(old(self).agents@),
                old(self).rngs@,
                old(self).top_spec(),
                old(self).params,
                samples_view(old(self).goal@),
            ),
            views(final(self).agents@)[0].fitness <= views(old(self).agents@)[0].fitness,
    {
        let ghost orig_pop: Seq<AgentView> = views(self.agents@);
        let ghost orig_rngs: Seq<u64> = self.rngs@;
        let ghost gview: Seq<int> = samples_view(self.goal@);
        let ghost params0: HyperParameters = self.params;
        let n = self.population_size;
        let top = top_count(n, &self.params);
        let ghost t: int = top as int;
        let mut i: usize = top;
        while i < n
            invariant
                top <= i <= n,
                n == self.population_size,
                top as int == t,
                1 <= t <= n,
                self.agents@.len() == n,
                self.rngs@.len() == n,
                orig_pop.len() == n,
                orig_rngs.len() == n,
                self.wave_res == old(self).wave_res,
                self.goal@ == old(self).goal@,
                self.params == old(self).params,
                self.params == params0,
                self.initialized == old(self).initialized,
                self.generation == old(self).generation,
                self.best_cache == old(self).best_cache,
                self.population_size == old(self).population_size,
                self.params.valid(),
                gview == samples_view(self.goal@),
                forall|k: int|
                    0 <= k < self.goal@.len() ==> fp_in_range(#[trigger] self.goal@[k] as int),
                orig_pop == views(old(self).agents@),
                orig_rngs == old(self).rngs@,
                forall|k: int| 0 <= k < t ==> #[trigger] views(self.agents@)[k] == orig_pop[k],
                forall|k: int| 0 <= k < t ==> #[trigger] self.rngs@[k] == orig_rngs[k],
                forall|k: int| i <= k < n ==> #[trigger] views(self.agents@)[k] == orig_pop[k],
                forall|k: int| i <= k < n ==> #[trigger] self.rngs@[k] == orig_rngs[k],
                forall|k: int|
                    t <= k < i ==> #[trigger] views(self.agents@)[k] == mutate_slot_spec(
                        orig_pop,
                        orig_rngs[k],
                        t,
                        params0,
                        gview,
                    ).0,
                forall|k: int|
                    t <= k < i ==> #[trigger] self.rngs@[k] == mutate_slot_spec(
                        orig_pop,
                        orig_rngs[k],
                        t,
                        params0,
                        gview,
                    ).1,
                forall|k: int|
                    0 <= k < n ==> agent_wf(#[trigger] views(self.agents@)[k]) && views(
                        self.agents@,
                    )[k].fitness == fitness_spec(views(self.agents@)[k].terms, gview),
            decreases n - i,
        {
            let s = self.rngs[i];
            proof {
                assert(s == orig_rngs[i as int]);
                lemma_mutate_slot_depends_on_elites(
                    views(self.agents@),
                    orig_pop,
                    s,
                    t,
                    params0,
                    gview,
                );
            }
            let (a, ns) = mutate_slot(&self.agents, s, top, &self.params, self.goal_ref());
            let ghost pre: Seq<Agent> = self.agents@;
            self.agents.set(i, a);
            self.rngs.set(i, ns);
            proof {
                assert forall|k: int| 0 <= k < n && k != i as int implies #[trigger] views(
                    self.agents@,
                )[k] == views(pre)[k] by {
                    assert(self.agents@[k] == pre[k]);
                }
                assert(views(self.agents@)[i as int] == a@);
            }
            i = i + 1;
        }
        proof {
            assert(views(self.agents@) =~= step_pop_spec(orig_pop, orig_rngs, t, params0, gview));
            assert(self.rngs@ =~= step_rngs_spec(orig_pop, orig_rngs, t, params0, gview));
            assert(consistent(views(self.agents@), gview));
            assert(views(self.agents@)[0] == orig_pop[0]);
            assert(views(self.agents@).contains(views(self.agents@)[0]));
        }
        let ghost unranked: Seq<AgentView> = views(self.agents@);
        sort_population(&mut self.agents);
        proof {
            lemma_consistent_permutation(unranked, views(self.agents@), gview);
            crate::sort::lemma_sort_first_is_no_worse(unranked, orig_pop[0]);
        }
    }

    /// A shared borrow of the goal buffer.
    fn goal_ref(&self) -> (r: &Vec<i64>)
        ensures
            r@ == self.goal@,
    {
        &self.goal
    }

    /// Run `quantity` whole generations. The population afterwards is exactly
    /// the one `quantity` mutate-and-rank cycles produce from the current
    /// state, still ranked; the best fitness never degrades.
    pub fn step(&mut self, quantity: usize) -> (r: Result<(), TrainError>)
        requires
            old(self).wf(),
            old(self).initialized,
            old(self).top_spec() >= 1,
        ensures
            final(self).wf(),
            final(self).initialized,
            final(self).population_size == old(self).population_size,
            final(self).wave_res == old(self).wave_res,
            final(self).params == old(self).params,
            final(self).goal@ == old(self).goal@,
            r is Ok,
            views(final(self).agents@) == evolve_spec(
                views(old(self).agents@),
                old(self).rngs@,
                old(self).top_spec(),
                old(self).params,
                samples_view(old(self).goal@),
                quantity as int,
            ).0,
            final(self).rngs@ == evolve_spec(
                views(old(self).agents@),
                old(self).rngs@,
                old(self).top_spec(),
                old(self).params,
                samples_view(old(self).goal@),
                quantity as int,
            ).1,
            sorted_by_fitness(views(final(self).agents@)),
            views(final(self).agents@)[0].fitness <= views(old(self).agents@)[0].fitness,
    {
        let ghost orig_pop: Seq<AgentView> = views(self.agents@);
        let ghost orig_rngs: Seq<u64> = self.rngs@;
        let ghost t: int = self.top_spec();
        let ghost gview: Seq<int> = samples_view(self.goal@);
        self.best_cache = None;
        self.generation = if self.generation == u64::MAX {
            0
        } else {
            self.generation + 1
        };
        let mut g: usize = 0;
        while g < quantity
            invariant
                g <= quantity,
                self.wf(),
                self.initialized,
                self.best_cache is None,
                self.population_size == old(self).population_size,
                self.wave_res == old(self).wave_res,
                self.params == old(self).params,
                self.goal@ == old(self).goal@,
                t == self.top_spec(),
                1 <= t,
                gview == samples_view(self.goal@),
                orig_pop == views(old(self).agents@),
                orig_rngs == old(self).rngs@,
                (views(self.agents@), self.rngs@) == evolve_spec(
                    orig_pop,
                    orig_rngs,
                    t,
                    self.params,
                    gview,
                    g as int,
                ),
                views(self.agents@)[0].fitness <= orig_pop[0].fitness,
            decreases quantity - g,
        {
            self.step_once();
            g = g + 1;
        }
        Ok(())
    }

    /// The current best agent: slot 0 of the ranked population, memoized
    /// until the population is next written.
    pub fn best(&mut self) -> (r: Agent)
        requires
            old(self).wf(),
            old(self).initialized,
        ensures
            final(self).wf(),
            final(self).agents@ == old(self).agents@,
            final(self).rngs@ == old(self).rngs@,
            final(self).goal@ == old(self).goal@,
            final(self).params == old(self).params,
            final(self).population_size == old(self).population_size,
            final(self).wave_res == old(self).wave_res,
            final(self).initialized == old(self).initialized,
            final(self).generation == old(self).generation,
            r@ == views(old(self).agents@)[0],
    {
        proof {
            assert(self.population_size >= 1);
            assert(views(self.agents@)[0] == self.agents@[0]@);
        }
        match &self.best_cache {
            Some(c) => {
                if c.0 == self.generation {
                    let cached = clone_agent(&c.1);
                    return cached;
                }
            },
            None => {},
        }
        let a = clone_agent(&self.agents[0]);
        let cached = clone_agent(&a);
        self.best_cache = Some((self.generation, cached));
        a
    }

    /// The best fitness of the current population.
    pub fn best_fitness(&mut self) -> (r: i64)
        requires
            old(self).wf(),
            old(self).initialized,
        ensures
            final(self).wf(),
            final(self).agents@ == old(self).agents@,
            final(self).rngs@ == old(self).rngs@,
            final(self).goal@ == old(self).goal@,
            final(self).params == old(self).params,
            final(self).population_size == old(self).population_size,
            final(self).wave_res == old(self).wave_res,
            final(self).initialized == old(self).initialized,
            final(self).generation == old(self).generation,
            r as int == views(old(self).agents@)[0].fitness,
    {
        let a = self.best();
        a.fitness
    }

    /// Render the waveform of the agent in the given slot into a fresh
    /// buffer of `wave_res` samples. Fails with `IndexOutOfRange`, reading
    /// nothing, exactly when the slot does not exist.
    pub fn output(&self, agent_index: usize) -> (r: Result<Vec<i64>, TrainError>)
        requires
            self.wf(),
            self.initialized,
        ensures
            r is Err <==> agent_index >= self.population_size,
            r is Err ==> r->Err_0 == TrainError::IndexOutOfRange,
            r is Ok ==> (r->Ok_0)@.len() == self.wave_res && samples_view((r->Ok_0)@)
                == render_spec(views(self.agents@)[agent_index as int].terms, self.wave_res as int),
    {
        if agent_index >= self.population_size {
            return Err(TrainError::IndexOutOfRange);
        }
        let a = &self.agents[agent_index];
        proof {
            assert(agent_wf(views(self.agents@)[agent_index as int]));
            assert(views(self.agents@)[agent_index as int].terms == a.functions@);
        }
        let buf = render_samples(&a.functions, self.wave_res);
        Ok(buf)
    }
}

/// A slot's mutation reads only the elite slots, which a `step` dispatch
/// never writes: the same draw over two populations with equal elites gives
/// the same agent.
pub proof fn lemma_mutate_slot_depends_on_elites(
    pop1: Seq<AgentView>,
    pop2: Seq<AgentView>,
    s: u64,
    top: int,
    params: HyperParameters,
    goal: Seq<int>,
)
    requires
        top >= 1,
        top <= pop1.len(),
        top <= pop2.len(),
        forall|k: int| 0 <= k < top ==> #[trigger] pop1[k] == pop2[k],
    ensures
        mutate_slot_spec(pop1, s, top, params, goal) == mutate_slot_spec(
            pop2,
            s,
            top,
            params,
            goal,
        ),
{
    let v1 = crate::rng::rng_next_value_spec(s);
    let e = crate::rng::draw_index_spec(v1, top);
    assert(0 <= e < top) by {
        vstd::arithmetic::div_mod::lemma_mod_bound(v1 as int, top);
    }
    assert(pop1[e] == pop2[e]);
}

} // verus!
