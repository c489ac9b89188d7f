//! Deterministic per-slot random number generation.
//!
//! Every population slot carries one 64-bit generator state, seeded from the
//! global seed and the slot index, so that re-running initialization with the
//! same seed reproduces the same population. The generator is a SplitMix-style
//! counter-and-mix design: advancing adds an odd constant, the output mixes
//! the new state through xor-shift-multiply rounds.

use vstd::prelude::*;
use crate::fixed::FP_SCALE;

verus! {

pub const RNG_INCREMENT: u64 = 0x9E3779B97F4A7C15;
pub const RNG_MIX_A: u64 = 0xBF58476D1CE4E5B9;
pub const RNG_MIX_B: u64 = 0x94D049BB133111EB;

/// Addition modulo 2^64.
pub open spec fn wadd64(a: u64, b: u64) -> u64 {
    ((a as int + b as int) % 0x1_0000_0000_0000_0000) as u64
}

/// Multiplication modulo 2^64.
pub open spec fn wmul64(a: u64, b: u64) -> u64 {
    ((a as int * b as int) % 0x1_0000_0000_0000_0000) as u64
}

/// The output mix: two xor-shift-multiply rounds and a final xor-shift.
#[verifier::opaque]
pub open spec fn mix64_spec(z0: u64) -> u64 {
    let z1 = wmul64(z0 ^ (z0 >> 30), RNG_MIX_A);
    let z2 = wmul64(z1 ^ (z1 >> 27), RNG_MIX_B);
    z2 ^ (z2 >> 31)
}

/// The state after one draw.
pub open spec fn rng_next_state_spec(s: u64) -> u64 {
    wadd64(s, RNG_INCREMENT)
}

/// The value produced by one draw.
pub open spec fn rng_next_value_spec(s: u64) -> u64 {
    mix64_spec(rng_next_state_spec(s))
}

/// The initial generator state of population slot `i` under global seed
/// `seed`: a deterministic function of the pair alone.
pub open spec fn seed_slot_spec(seed: u64, i: u64) -> u64 {
    mix64_spec(wadd64(seed, wmul64(i, RNG_INCREMENT)))
}

fn wadd64_exec(a: u64, b: u64) -> (r: u64)
    ensures
        r == wadd64(a, b),
{
    ((a as u128 + b as u128) % 0x1_0000_0000_0000_0000) as u64
}

fn wmul64_exec(a: u64, b: u64) -> (r: u64)
    ensures
        r == wmul64(a, b),
{
    let wa = a as u128;
    let wb = b as u128;
    assert(wa * wb <= 0xFFFF_FFFF_FFFF_FFFF * 0xFFFF_FFFF_FFFF_FFFF) by (nonlinear_arith)
        requires
            wa <= 0xFFFF_FFFF_FFFF_FFFF,
            wb <= 0xFFFF_FFFF_FFFF_FFFF,
    ;
    ((wa * wb) % 0x1_0000_0000_0000_0000) as u64
}

fn mix64(z0: u64) -> (r: u64)
    ensures
        r == mix64_spec(z0),
{
    proof {
        reveal(mix64_spec);
    }
    let z1 = wmul64_exec(z0 ^ (z0 >> 30), RNG_MIX_A);
    let z2 = wmul64_exec(z1 ^ (z1 >> 27), RNG_MIX_B);
    z2 ^ (z2 >> 31)
}

/// Advance a slot's generator by one draw: returns the new state and the
/// drawn value.
pub fn rng_next(s: u64) -> (r: (u64, u64))
    ensures
        r.0 == rng_next_state_spec(s),
        r.1 == rng_next_value_spec(s),
{
    let ns = wadd64_exec(s, RNG_INCREMENT);
    let v = mix64(ns);
    (ns, v)
}

/// The initial generator state of slot `i` under `seed`.
pub fn seed_slot(seed: u64, i: u64) -> (r: u64)
    ensures
        r == seed_slot_spec(seed, i),
{
    mix64(wadd64_exec(seed, wmul64_exec(i, RNG_INCREMENT)))
}

/// A draw mapped onto `[0, n)`.
pub open spec fn draw_index_spec(v: u64, n: int) -> int {
    v as int % n
}

pub fn draw_index(v: u64, n: u64) -> (r: u64)
    requires
        n > 0,
    ensures
        r as int == draw_index_spec(v, n as int),
        r < n,
{
    v % n
}

/// A draw mapped onto a fixed-point fraction in `[0, FP_SCALE)`.
pub open spec fn draw_fraction_spec(v: u64) -> int {
    v as int % (FP_SCALE as int)
}

pub fn draw_fraction(v: u64) -> (r: i64)
    ensures
        r as int == draw_fraction_spec(v),
        0 <= r < FP_SCALE,
{
    (v % (FP_SCALE as u64)) as i64
}

/// A draw mapped onto a signed fixed-point fraction in `[-FP_SCALE, FP_SCALE]`.
pub open spec fn draw_signed_fraction_spec(v: u64) -> int {
    v as int % (2 * FP_SCALE + 1) - FP_SCALE as int
}

pub fn draw_signed_fraction(v: u64) -> (r: i64)
    ensures
        r as int == draw_signed_fraction_spec(v),
        -FP_SCALE <= r <= FP_SCALE,
{
    (v % (2 * FP_SCALE as u64 + 1)) as i64 - FP_SCALE
}

} // verus!
