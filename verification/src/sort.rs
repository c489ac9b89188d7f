//! The ranking pass.
//!
//! After every generation the population is put into a total ascending order
//! by fitness, so that slot 0 holds the best agent. The order is pinned: the
//! result is the stable insertion of each agent in turn, so ranking the same
//! population twice gives the same order (ties keep their relative order
//! within one pass).

use vstd::prelude::*;
use crate::agent::{Agent, AgentView};

verus! {

/// A population sequence in a total ascending order by fitness.
pub open spec fn sorted_by_fitness(s: Seq<AgentView>) -> bool {
    forall|i: int, j: int|
        0 <= i <= j < s.len() ==> (#[trigger] s[i]).fitness <= (#[trigger] s[j]).fitness
}

/// The mathematical values of a population buffer.
pub open spec fn views(s: Seq<Agent>) -> Seq<AgentView> {
    s.map_values(|a: Agent| a@)
}

/// The slot where an agent of fitness `f` lands in the sorted sequence `s`:
/// after every slot whose fitness is at most `f`, counted from the end.
pub open spec fn insert_pos(s: Seq<AgentView>, f: int) -> int
    decreases s.len(),
{
    if s.len() == 0 {
        0
    } else if s.last().fitness <= f {
        s.len() as int
    } else {
        insert_pos(s.drop_last(), f)
    }
}

/// One stable insertion into a sorted sequence.
pub open spec fn insert_sorted_spec(s: Seq<AgentView>, a: AgentView) -> Seq<AgentView> {
    s.insert(insert_pos(s, a.fitness), a)
}

/// The ranking of a whole population: each agent inserted stably in turn.
pub open spec fn sort_spec(s: Seq<AgentView>) -> Seq<AgentView>
    decreases s.len(),
{
    if s.len() == 0 {
        Seq::empty()
    } else {
        insert_sorted_spec(sort_spec(s.drop_last()), s.last())
    }
}

/// Where an agent lands: everything before has fitness at most `f`,
/// everything at or after has strictly more.
pub proof fn lemma_insert_pos(s: Seq<AgentView>, f: int)
    requires
        sorted_by_fitness(s),
    ensures
        0 <= insert_pos(s, f) <= s.len(),
        forall|j: int| 0 <= j < insert_pos(s, f) ==> (#[trigger] s[j]).fitness <= f,
        forall|j: int| insert_pos(s, f) <= j < s.len() ==> (#[trigger] s[j]).fitness > f,
    decreases s.len(),
{
    if s.len() > 0 && s.last().fitness > f {
        assert(sorted_by_fitness(s.drop_last()));
        lemma_insert_pos(s.drop_last(), f);
        assert forall|j: int| 0 <= j < insert_pos(s, f) implies (#[trigger] s[j]).fitness
            <= f by {
            assert(s.drop_last()[j] == s[j]);
        }
        assert forall|j: int| insert_pos(s, f) <= j < s.len() implies (#[trigger] s[j]).fitness
            > f by {
            if j < s.len() - 1 {
                assert(s.drop_last()[j] == s[j]);
            }
        }
    } else if s.len() > 0 {
        assert forall|j: int| 0 <= j < insert_pos(s, f) implies (#[trigger] s[j]).fitness
            <= f by {
            assert(s[j].fitness <= s[s.len() - 1].fitness);
        }
    }
}

/// Stable insertion keeps the order, grows the length by one, and adds
/// exactly the inserted agent to the contents.
pub proof fn lemma_insert_sorted(s: Seq<AgentView>, a: AgentView)
    requires
        sorted_by_fitness(s),
    ensures
        sorted_by_fitness(insert_sorted_spec(s, a)),
        insert_sorted_spec(s, a).len() == s.len() + 1,
        insert_sorted_spec(s, a).to_multiset() =~= s.to_multiset().insert(a),
{
    lemma_insert_pos(s, a.fitness);
    let pos = insert_pos(s, a.fitness);
    let r = s.insert(pos, a);
    assert forall|i: int, j: int| 0 <= i <= j < r.len() implies (#[trigger] r[i]).fitness
        <= (#[trigger] r[j]).fitness by {
        assert(forall|k: int| 0 <= k < pos ==> r[k] == s[k]);
        assert(forall|k: int| pos < k < r.len() ==> r[k] == s[k - 1]);
        assert(r[pos] == a);
    }
    broadcast use vstd::seq_lib::to_multiset_insert;

}

/// Ranking sorts, keeps the length, and keeps the contents: the result is a
/// permutation of the input in ascending fitness order.
pub proof fn lemma_sort_spec(s: Seq<AgentView>)
    ensures
        sorted_by_fitness(sort_spec(s)),
        sort_spec(s).len() == s.len(),
        sort_spec(s).to_multiset() =~= s.to_multiset(),
    decreases s.len(),
{
    broadcast use vstd::seq_lib::to_multiset_build;

    if s.len() == 0 {
        assert(s =~= Seq::<AgentView>::empty());
        assert(sort_spec(s).to_multiset() =~= s.to_multiset());
    } else {
        lemma_sort_spec(s.drop_last());
        lemma_insert_sorted(sort_spec(s.drop_last()), s.last());
        assert(s =~= s.drop_last().push(s.last()));
        assert(s.to_multiset() =~= s.drop_last().to_multiset().insert(s.last()));
    }
}

/// Whatever the population holds, after ranking the agent in slot 0 is at
/// least as fit as any agent the population held.
pub proof fn lemma_sort_first_is_no_worse(s: Seq<AgentView>, x: AgentView)
    requires
        s.contains(x),
    ensures
        sort_spec(s).len() == s.len(),
        sort_spec(s)[0].fitness <= x.fitness,
{
    broadcast use vstd::seq_lib::to_multiset_contains;

    lemma_sort_spec(s);
    assert(s.to_multiset().count(x) > 0);
    assert(sort_spec(s).to_multiset().count(x) > 0);
    assert(sort_spec(s).contains(x));
    let i = choose|i: int| 0 <= i < sort_spec(s).len() && sort_spec(s)[i] == x;
    assert(sort_spec(s)[0].fitness <= sort_spec(s)[i].fitness);
}

/// Insert one agent into an already-sorted buffer at its slot.
fn insert_sorted(v: Vec<Agent>, a: Agent) -> (r: Vec<Agent>)
    requires
        sorted_by_fitness(views(v@)),
    ensures
        views(r@) =~= insert_sorted_spec(views(v@), a@),
{
    let ghost vs: Seq<AgentView> = views(v@);
    proof {
        lemma_insert_pos(views(v@), a@.fitness);
    }
    let mut idx: usize = v.len();
    proof {
        assert(views(v@).subrange(0, idx as int) =~= views(v@));
    }
    while idx > 0 && v[idx - 1].fitness > a.fitness
        invariant
            idx <= v.len(),
            sorted_by_fitness(views(v@)),
            insert_pos(views(v@), a@.fitness) == insert_pos(
                views(v@).subrange(0, idx as int),
                a@.fitness,
            ),
        decreases idx,
    {
        proof {
            let pre = views(v@).subrange(0, idx as int);
            assert(pre.last() == v@[idx - 1]@);
            assert(pre.drop_last() =~= views(v@).subrange(0, idx - 1));
        }
        idx = idx - 1;
    }
    proof {
        let pre = views(v@).subrange(0, idx as int);
        if idx > 0 {
            assert(pre.last() == v@[idx - 1]@);
            assert(insert_pos(pre, a@.fitness) == idx);
        } else {
            assert(pre.len() == 0);
        }
        assert(insert_pos(views(v@), a@.fitness) == idx);
    }
    let ghost before: Seq<Agent> = v@;
    let mut v = v;
    v.insert(idx, a);
    assert(views(v@) =~= insert_sorted_spec(vs, a@)) by {
        assert(v@ == before.insert(idx as int, a));
    }
    v
}

/// The ranking pass: put the whole population into ascending fitness order.
/// The result is the pinned stable ranking of the input, a permutation of it.
pub fn sort_population(v: &mut Vec<Agent>)
    ensures
        views(final(v)@) =~= sort_spec(views(old(v)@)),
        sorted_by_fitness(views(final(v)@)),
        final(v)@.len() == old(v)@.len(),
        views(final(v)@).to_multiset() =~= views(old(v)@).to_multiset(),
{
    let ghost orig: Seq<AgentView> = views(v@);
    let mut out: Vec<Agent> = Vec::new();
    proof {
        assert(views(out@) =~= sort_spec(orig.subrange(0, 0)));
    }
    let mut taken: usize = 0;
    let len0: usize = v.len();
    let ghost n: int = len0 as int;
    proof {
        assert(views(v@) =~= orig.subrange(0, n));
    }
    while v.len() > 0
        invariant
            orig.len() == n,
            n <= usize::MAX,
            taken + v@.len() == n,
            0 <= taken <= n,
            views(v@) =~= orig.subrange(taken as int, n),
            views(out@) =~= sort_spec(orig.subrange(0, taken as int)),
            sorted_by_fitness(views(out@)),
        decreases v@.len(),
    {
        let ghost pre_v: Seq<Agent> = v@;
        let a = v.remove(0);
        proof {
            let pre = orig.subrange(0, taken as int);
            let now = orig.subrange(0, taken + 1);
            assert(taken < n);
            assert(a@ == views(pre_v)[0]);
            assert(views(pre_v) =~= orig.subrange(taken as int, n));
            assert(orig.subrange(taken as int, n)[0] == orig[taken as int]);
            assert(a@ == orig[taken as int]);
            assert(now.len() == taken + 1);
            assert(now.drop_last() =~= pre);
            assert(now.last() == orig[taken as int]);
            lemma_sort_spec(pre);
            lemma_insert_sorted(sort_spec(pre), a@);
            assert(views(v@) =~= views(pre_v).drop_first());
        }
        out = insert_sorted(out, a);
        taken = taken + 1;
        proof {
            assert(views(v@) =~= orig.subrange(taken as int, n));
        }
    }
    proof {
        assert(orig.subrange(0, n) =~= orig);
        lemma_sort_spec(orig);
    }
    *v = out;
}

} // verus!
