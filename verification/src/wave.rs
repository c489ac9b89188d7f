//! Waveform evaluation and fitness.
//!
//! An agent's waveform is the saturating sum of its basis terms, each
//! `scale * basis(x + x_translation)` where the basis has period one: the
//! sine basis is a piecewise-quadratic wave (zero at 0 and 1/2, one at 1/4,
//! minus one at 3/4), the sawtooth basis is the fractional part itself.
//! Fitness is the saturated sum over all sample positions of the absolute
//! distance to the goal; lower is better, and it is never negative.

use vstd::prelude::*;
use crate::agent::{term_wf, FunctionCoefficients, WaveFunction};
use crate::fixed::{
    fp_abs_diff, fp_abs_diff_spec, fp_add, fp_add_spec, fp_in_range, fp_mul, fp_mul_spec,
    FP_MAX, FP_SCALE,
};

verus! {

pub const FP_HALF: i64 = 32768;

/// Fractional part of a fixed-point value, in `[0, FP_SCALE)`.
pub open spec fn frac_spec(w: int) -> int {
    if w >= 0 {
        w % (FP_SCALE as int)
    } else {
        let m = (-w) % (FP_SCALE as int);
        if m == 0 {
            0
        } else {
            FP_SCALE - m
        }
    }
}

/// The period-one sine-shaped basis at phase `u` in `[0, FP_SCALE)`.
pub open spec fn sine_wave_spec(u: int) -> int {
    if u < FP_HALF {
        16 * u * (FP_HALF - u) / (FP_SCALE as int)
    } else {
        -(16 * (u - FP_HALF) * (FP_SCALE - u) / (FP_SCALE as int))
    }
}

/// The chosen basis at phase `u` in `[0, FP_SCALE)`.
pub open spec fn basis_spec(kind: WaveFunction, u: int) -> int {
    match kind {
        WaveFunction::Sine => sine_wave_spec(u),
        WaveFunction::SawTooth => u,
    }
}

/// One term's contribution at sample position `x`.
pub open spec fn term_value_spec(t: FunctionCoefficients, x: int) -> int {
    fp_mul_spec(t.scale as int, basis_spec(t.function_type, frac_spec(x + t.x_translation)))
}

/// Saturating sum of the first `n` terms' contributions at `x`.
#[verifier::opaque]
pub open spec fn agent_value_upto(terms: Seq<FunctionCoefficients>, x: int, n: int) -> int
    decreases n,
{
    if n <= 0 {
        0
    } else {
        fp_add_spec(agent_value_upto(terms, x, n - 1), term_value_spec(terms[n - 1], x))
    }
}

/// The agent's waveform value at sample position `x`: zero for an agent with
/// no terms.
pub open spec fn agent_value_spec(terms: Seq<FunctionCoefficients>, x: int) -> int {
    agent_value_upto(terms, x, terms.len() as int)
}

/// Sample position `w` of `wave_res` as a fixed-point value in `[0, 1)`.
pub open spec fn sample_x_spec(w: int, wave_res: int) -> int {
    w * (FP_SCALE as int) / wave_res
}

/// The `wave_res` samples of an agent's waveform.
pub open spec fn render_spec(terms: Seq<FunctionCoefficients>, wave_res: int) -> Seq<int> {
    Seq::new(wave_res as nat, |w: int| agent_value_spec(terms, sample_x_spec(w, wave_res)))
}

/// A sample buffer as a sequence of mathematical values.
pub open spec fn samples_view(s: Seq<i64>) -> Seq<int> {
    s.map_values(|v: i64| v as int)
}

/// Saturated distance accumulated over the first `w` sample positions.
#[verifier::opaque]
pub open spec fn fitness_upto(
    terms: Seq<FunctionCoefficients>,
    goal: Seq<int>,
    wave_res: int,
    w: int,
) -> int
    decreases w,
{
    if w <= 0 {
        0
    } else {
        fp_add_spec(
            fitness_upto(terms, goal, wave_res, w - 1),
            fp_abs_diff_spec(
                agent_value_spec(terms, sample_x_spec(w - 1, wave_res)),
                goal[w - 1],
            ),
        )
    }
}

/// The fitness of an agent against a goal: the saturated sum of absolute
/// distances at every sample position. Never negative.
pub open spec fn fitness_spec(terms: Seq<FunctionCoefficients>, goal: Seq<int>) -> int {
    fitness_upto(terms, goal, goal.len() as int, goal.len() as int)
}

/// Fitness is a saturated distance: always in `[0, FP_MAX]`.
pub proof fn lemma_fitness_upto_range(
    terms: Seq<FunctionCoefficients>,
    goal: Seq<int>,
    wave_res: int,
    w: int,
)
    ensures
        0 <= fitness_upto(terms, goal, wave_res, w) <= FP_MAX,
    decreases w,
{
    reveal(fitness_upto);
    if w > 0 {
        lemma_fitness_upto_range(terms, goal, wave_res, w - 1);
    }
}

/// Fitness is never negative, whatever the agent and the goal.
pub proof fn lemma_fitness_nonnegative(terms: Seq<FunctionCoefficients>, goal: Seq<int>)
    ensures
        0 <= fitness_spec(terms, goal) <= FP_MAX,
{
    lemma_fitness_upto_range(terms, goal, goal.len() as int, goal.len() as int);
}

/// Fractional part: wraps any in-range value into `[0, FP_SCALE)`.
pub fn frac(w: i64) -> (r: i64)
    requires
        -0x200_0000_0000 <= w <= 0x200_0000_0000,
    ensures
        r == frac_spec(w as int),
        0 <= r < FP_SCALE,
{
    if w >= 0 {
        ((w as u64) % (FP_SCALE as u64)) as i64
    } else {
        let m = (((-w) as u64) % (FP_SCALE as u64)) as i64;
        if m == 0 {
            0
        } else {
            FP_SCALE - m
        }
    }
}

/// The sine-shaped basis, in `[-FP_SCALE, FP_SCALE]`.
pub fn sine_wave(u: i64) -> (r: i64)
    requires
        0 <= u < FP_SCALE,
    ensures
        r == sine_wave_spec(u as int),
        -FP_SCALE <= r <= FP_SCALE,
{
    if u < FP_HALF {
        let a: u64 = u as u64;
        let b: u64 = (FP_HALF - u) as u64;
        assert(a * b <= 16384 * 16384) by (nonlinear_arith)
            requires
                a + b == 32768,
        ;
        let ab: u64 = a * b;
        let p: u64 = 16 * ab;
        assert(p as int == 16 * (a as int) * (b as int)) by (nonlinear_arith)
            requires
                ab == a * b,
                p == 16 * ab,
        ;
        let r = (p / (FP_SCALE as u64)) as i64;
        assert(r <= FP_SCALE) by (nonlinear_arith)
            requires
                r == 16 * (a as int) * (b as int) / (FP_SCALE as int),
                (a as int) * (b as int) <= 16384 * 16384,
        ;
        assert(r == sine_wave_spec(u as int));
        r
    } else {
        let a: u64 = (u - FP_HALF) as u64;
        let b: u64 = (FP_SCALE - u) as u64;
        assert(a * b <= 16384 * 16384) by (nonlinear_arith)
            requires
                a + b == 32768,
        ;
        let ab: u64 = a * b;
        let p: u64 = 16 * ab;
        assert(p as int == 16 * (a as int) * (b as int)) by (nonlinear_arith)
            requires
                ab == a * b,
                p == 16 * ab,
        ;
        let q = (p / (FP_SCALE as u64)) as i64;
        assert(q <= FP_SCALE) by (nonlinear_arith)
            requires
                q == 16 * (a as int) * (b as int) / (FP_SCALE as int),
                (a as int) * (b as int) <= 16384 * 16384,
        ;
        assert(-q == sine_wave_spec(u as int));
        -q
    }
}

/// One term's contribution at sample position `x` in `[0, FP_SCALE)`.
pub fn term_value(t: &FunctionCoefficients, x: i64) -> (r: i64)
    requires
        term_wf(*t),
        0 <= x < FP_SCALE,
    ensures
        r == term_value_spec(*t, x as int),
        fp_in_range(r as int),
{
    let u = frac(x + t.x_translation);
    let b = match t.function_type {
        WaveFunction::Sine => sine_wave(u),
        WaveFunction::SawTooth => u,
    };
    fp_mul(t.scale, b)
}

/// The agent's waveform value at `x`: the saturating sum of all its terms.
pub fn agent_value(terms: &Vec<FunctionCoefficients>, x: i64) -> (r: i64)
    requires
        forall|i: int| 0 <= i < terms@.len() ==> term_wf(#[trigger] terms@[i]),
        0 <= x < FP_SCALE,
    ensures
        r == agent_value_spec(terms@, x as int),
        fp_in_range(r as int),
{
    proof {
        reveal(agent_value_upto);
    }
    let mut acc: i64 = 0;
    let mut i: usize = 0;
    while i < terms.len()
        invariant
            i <= terms.len(),
            forall|k: int| 0 <= k < terms@.len() ==> term_wf(#[trigger] terms@[k]),
            0 <= x < FP_SCALE,
            acc == agent_value_upto(terms@, x as int, i as int),
            fp_in_range(acc as int),
        decreases terms.len() - i,
    {
        proof {
            reveal(agent_value_upto);
        }
        let tv = term_value(&terms[i], x);
        acc = fp_add(acc, tv);
        i = i + 1;
    }
    proof {
        reveal(agent_value_upto);
    }
    acc
}

/// Sample position `w` of `wave_res` as a fixed-point value, strictly below
/// one whole unit.
pub fn sample_x(w: usize, wave_res: usize) -> (r: i64)
    requires
        w < wave_res,
    ensures
        r == sample_x_spec(w as int, wave_res as int),
        0 <= r < FP_SCALE,
{
    let wide: u128 = w as u128 * (FP_SCALE as u128);
    let r: u128 = wide / (wave_res as u128);
    assert(r < FP_SCALE) by (nonlinear_arith)
        requires
            r == (w as int) * (FP_SCALE as int) / (wave_res as int),
            w < wave_res,
            0 < wave_res,
    ;
    r as i64
}

/// Render the `wave_res` samples of an agent's waveform into a fresh buffer.
pub fn render_samples(terms: &Vec<FunctionCoefficients>, wave_res: usize) -> (r: Vec<i64>)
    requires
        forall|i: int| 0 <= i < terms@.len() ==> term_wf(#[trigger] terms@[i]),
    ensures
        r@.len() == wave_res,
        samples_view(r@) =~= render_spec(terms@, wave_res as int),
        forall|i: int| 0 <= i < r@.len() ==> fp_in_range(#[trigger] r@[i] as int),
{
    let mut out: Vec<i64> = Vec::new();
    let mut w: usize = 0;
    while w < wave_res
        invariant
            w <= wave_res,
            forall|i: int| 0 <= i < terms@.len() ==> term_wf(#[trigger] terms@[i]),
            out@.len() == w,
            forall|i: int|
                0 <= i < w ==> #[trigger] out@[i] as int == agent_value_spec(
                    terms@,
                    sample_x_spec(i, wave_res as int),
                ),
            forall|i: int| 0 <= i < out@.len() ==> fp_in_range(#[trigger] out@[i] as int),
        decreases wave_res - w,
    {
        let x = sample_x(w, wave_res);
        let v = agent_value(terms, x);
        out.push(v);
        w = w + 1;
    }
    out
}

/// The fitness of an agent against a goal buffer.
pub fn compute_fitness(terms: &Vec<FunctionCoefficients>, goal: &Vec<i64>) -> (r: i64)
    requires
        forall|i: int| 0 <= i < terms@.len() ==> term_wf(#[trigger] terms@[i]),
        forall|i: int| 0 <= i < goal@.len() ==> fp_in_range(#[trigger] goal@[i] as int),
    ensures
        r == fitness_spec(terms@, samples_view(goal@)),
        0 <= r <= FP_MAX,
{
    proof {
        reveal(fitness_upto);
    }
    let wave_res = goal.len();
    let mut acc: i64 = 0;
    let mut w: usize = 0;
    while w < wave_res
        invariant
            w <= wave_res,
            wave_res == goal@.len(),
            forall|i: int| 0 <= i < terms@.len() ==> term_wf(#[trigger] terms@[i]),
            forall|i: int| 0 <= i < goal@.len() ==> fp_in_range(#[trigger] goal@[i] as int),
            acc == fitness_upto(terms@, samples_view(goal@), wave_res as int, w as int),
            0 <= acc <= FP_MAX,
        decreases wave_res - w,
    {
        proof {
            reveal(fitness_upto);
        }
        let x = sample_x(w, wave_res);
        let v = agent_value(terms, x);
        let d = fp_abs_diff(v, goal[w]);
        acc = fp_add(acc, d);
        assert(samples_view(goal@)[w as int] == goal@[w as int] as int);
        w = w + 1;
    }
    acc
}

} // verus!
