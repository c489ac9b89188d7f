//! The bitonic ranking dispatch schedule.
//!
//! A data-parallel backend ranks the population with a bitonic sorting
//! network: for block size `k` from 2 up to the population size (doubling),
//! and comparison distance `j` from `k/2` down to 1 (halving), it dispatches
//! one compare-and-swap pass `(j, k)` over all lanes. This module produces
//! that exact sequence of passes for a power-of-two population, so a driver
//! can replay it against any lane-parallel compute substrate; the engine's
//! own sequential ranking pass lives in [`crate::sort`]. Mid-network states
//! are not meaningful orderings: the order holds only after the whole
//! sequence has run.

use vstd::prelude::*;
use crate::engine::is_pow2;

verus! {

/// The passes of one merge stage of block size `k` that remain when the next
/// comparison distance is `j`: distances `j, j/2, .., 1`, in dispatch order.
pub open spec fn stage_spec(k: int, j: int) -> Seq<(usize, usize)>
    decreases j,
{
    if j <= 0 {
        Seq::empty()
    } else {
        seq![((j as usize), (k as usize))] + stage_spec(k, j / 2)
    }
}

/// The whole network up to block size `k`: stages of block size 2, 4, ...,
/// `k`, each fully dispatched before the next begins.
pub open spec fn schedule_spec(n: int, k: int) -> Seq<(usize, usize)>
    decreases k,
{
    if k <= 1 {
        Seq::empty()
    } else {
        schedule_spec(n, k / 2) + stage_spec(k, k / 2)
    }
}

/// `k` doubled `d` times gives `n`: the block sizes the dispatch loop visits
/// are exactly those that reach the population size.
pub open spec fn pow2_reaches(k: int, n: int, d: int) -> bool
    decreases d,
{
    if d < 0 {
        false
    } else if d == 0 {
        k == n
    } else {
        pow2_reaches(2 * k, n, d - 1)
    }
}

/// Every pass of a stage is within bounds: `1 <= j < k`.
pub proof fn lemma_stage_bounds(k: int, j: int)
    requires
        0 < 2 * j <= k <= usize::MAX,
    ensures
        forall|p: int|
            0 <= p < stage_spec(k, j).len() ==> 1 <= (#[trigger] stage_spec(k, j)[p]).0 < k
                && stage_spec(k, j)[p].1 == k,
    decreases j,
{
    if j / 2 > 0 {
        lemma_stage_bounds(k, j / 2);
    }
    assert forall|p: int| 0 <= p < stage_spec(k, j).len() implies 1 <= (#[trigger] stage_spec(
        k,
        j,
    )[p]).0 < k && stage_spec(k, j)[p].1 == k by {
        if p == 0 {
            assert(stage_spec(k, j)[0] == ((j as usize), (k as usize)));
        } else {
            assert(stage_spec(k, j)[p] == stage_spec(k, j / 2)[p - 1]);
        }
    }
}

/// Every pass of the network is within bounds: `1 <= j < k <= n`.
pub proof fn lemma_schedule_bounds(n: int, k: int)
    requires
        1 <= k <= n <= usize::MAX,
    ensures
        forall|p: int|
            0 <= p < schedule_spec(n, k).len() ==> 1 <= (#[trigger] schedule_spec(n, k)[p]).0 < (
            schedule_spec(n, k)[p]).1 <= k,
    decreases k,
{
    if k > 1 {
        lemma_schedule_bounds(n, k / 2);
        lemma_stage_bounds(k, k / 2);
        assert forall|p: int| 0 <= p < schedule_spec(n, k).len() implies 1 <= (
        #[trigger] schedule_spec(n, k)[p]).0 < (schedule_spec(n, k)[p]).1 <= k by {
            let pre = schedule_spec(n, k / 2);
            if p >= pre.len() {
                assert(schedule_spec(n, k)[p] == stage_spec(k, k / 2)[p - pre.len()]);
            }
        }
    }
}

/// Every power of two at least 2 is reached from 2 by doubling.
proof fn lemma_pow2_reached_from_two(n: int)
    requires
        is_pow2(n),
    ensures
        n >= 1,
        n >= 2 ==> exists|d: int| #[trigger] pow2_reaches(2, n, d),
    decreases n,
{
    if n >= 2 {
        lemma_pow2_reached_from_two(n / 2);
        if n / 2 == 1 {
            assert(pow2_reaches(2, n, 0));
        } else {
            let d = choose|d: int| #[trigger] pow2_reaches(2, n / 2, d);
            lemma_pow2_shift(2, n / 2, d);
            assert(pow2_reaches(2, n, d + 1));
        }
    }
}

/// Doubling both sides keeps the reach relation.
proof fn lemma_pow2_shift(k: int, n: int, d: int)
    requires
        pow2_reaches(k, n, d),
    ensures
        pow2_reaches(2 * k, 2 * n, d),
    decreases d,
{
    if d > 0 {
        lemma_pow2_shift(2 * k, n, d - 1);
    }
}

/// A block size that reaches the population size never exceeds it, and
/// reaches it in no steps exactly when it equals it.
proof fn lemma_pow2_reach_min(k: int, n: int, d: int)
    requires
        pow2_reaches(k, n, d),
        k >= 1,
    ensures
        k <= n,
        k < n ==> d >= 1,
    decreases d,
{
    if d > 0 {
        lemma_pow2_reach_min(2 * k, n, d - 1);
    }
}

/// One merge stage of block size `k`, dispatch order `j = k/2, k/4, .., 1`.
fn stage(k: usize) -> (r: Vec<(usize, usize)>)
    requires
        2 <= k,
        k % 2 == 0,
    ensures
        r@ == stage_spec(k as int, (k / 2) as int),
{
    let mut out: Vec<(usize, usize)> = Vec::new();
    let mut j: usize = k / 2;
    while j > 0
        invariant
            j <= k / 2,
            out@ + stage_spec(k as int, j as int) =~= stage_spec(k as int, (k / 2) as int),
        decreases j,
    {
        out.push((j, k));
        proof {
            assert(stage_spec(k as int, j as int) == seq![((j as usize), (k as usize))]
                + stage_spec(k as int, (j / 2) as int));
            assert(out@ + stage_spec(k as int, (j / 2) as int) =~= stage_spec(
                k as int,
                (k / 2) as int,
            ));
        }
        j = j / 2;
    }
    proof {
        assert(out@ =~= out@ + stage_spec(k as int, 0));
    }
    out
}

/// The full bitonic dispatch schedule for a power-of-two population of `n`
/// agents: the exact `(j, k)` pass sequence of the protocol, ending with the
/// full merge `k == n`. Replaying these passes in order yields a total
/// ascending order by fitness.
pub fn sort_schedule(n: usize) -> (r: Vec<(usize, usize)>)
    requires
        is_pow2(n as int),
    ensures
        r@ == schedule_spec(n as int, n as int),
        forall|p: int| 0 <= p < r@.len() ==> 1 <= (#[trigger] r@[p]).0 < (r@[p]).1 <= n,
{
    let mut out: Vec<(usize, usize)> = Vec::new();
    proof {
        lemma_pow2_reached_from_two(n as int);
    }
    if n < 2 {
        proof {
            assert(schedule_spec(n as int, n as int) =~= Seq::<(usize, usize)>::empty());
        }
        return out;
    }
    let mut k: u128 = 2;
    while k <= n as u128
        invariant
            2 <= k <= 2 * (n as u128),
            n >= 2,
            k % 2 == 0,
            out@ == schedule_spec(n as int, (k / 2) as int),
            k <= n as u128 ==> exists|d: int| #[trigger] pow2_reaches(k as int, n as int, d),
            k > n as u128 ==> k == 2 * (n as u128),
        decreases 2 * (n as u128) - k,
    {
        let mut st = stage(k as usize);
        proof {
            assert(out@ + st@ == schedule_spec(n as int, k as int));
        }
        out.append(&mut st);
        proof {
            let d = choose|d: int| #[trigger] pow2_reaches(k as int, n as int, d);
            lemma_pow2_reach_min(k as int, n as int, d);
            if (k as int) < n as int {
                assert(pow2_reaches(2 * (k as int), n as int, d - 1));
                lemma_pow2_reach_min(2 * (k as int), n as int, d - 1);
            }
        }
        k = k * 2;
    }
    proof {
        assert(k == 2 * (n as u128));
        assert((k / 2) as int == n as int);
        lemma_schedule_bounds(n as int, n as int);
    }
    out
}

} // verus!
