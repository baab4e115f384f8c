//! Disc conservation: the multiset of ranks found across all rods plus the
//! disc in hand never changes. This module defines those multisets and the
//! lemmas that track them through a push onto, or a pop from, one rod.

use vstd::prelude::*;

use crate::board::{Disc, Rod};
use vstd::multiset::Multiset;

verus! {

broadcast use vstd::seq_lib::group_to_multiset_ensures;

/// Ranks of one stack, as a multiset.
pub open spec fn ranks_of(s: Seq<Disc>) -> Multiset<u32> {
    s.map_values(|d: Disc| d.rank).to_multiset()
}

/// Ranks of every disc stacked on any rod.
pub open spec fn stacks_ranks(rods: Seq<Rod>) -> Multiset<u32>
    decreases rods.len(),
{
    if rods.len() == 0 {
        Multiset::empty()
    } else {
        stacks_ranks(rods.drop_last()).add(ranks_of(rods.last().discs@))
    }
}

/// The multiset of ranks `{lo, lo + 1, ..., n - 1}`, each once.
pub open spec fn ranks_from(lo: int, n: int) -> Multiset<u32>
    decreases n - lo,
{
    if lo >= n {
        Multiset::empty()
    } else {
        ranks_from(lo + 1, n).insert(lo as u32)
    }
}

/// An empty stack contributes nothing.
pub proof fn lemma_ranks_of_empty(s: Seq<Disc>)
    requires
        s.len() == 0,
    ensures
        ranks_of(s) == Multiset::<u32>::empty(),
{
    let m = s.map_values(|d: Disc| d.rank);
    assert(m.len() == 0);
    assert(m.to_multiset().len() == 0);
    assert(m.to_multiset() =~= Multiset::<u32>::empty());
}

/// Each rank in `lo .. n` occurs exactly once in `ranks_from(lo, n)`, and
/// no other rank occurs at all.
pub proof fn lemma_ranks_from_count(lo: int, n: int, r: u32)
    requires
        0 <= lo,
        n <= u32::MAX,
    ensures
        ranks_from(lo, n).count(r) == (if lo <= r < n {
            1nat
        } else {
            0nat
        }),
    decreases n - lo,
{
    if lo < n {
        lemma_ranks_from_count(lo + 1, n, r);
    }
}

/// When a single rod holds every stacked disc, the board's multiset is
/// that rod's multiset.
pub proof fn lemma_stacks_ranks_one_rod(rods: Seq<Rod>, i: int)
    requires
        0 <= i < rods.len(),
        forall|j: int| 0 <= j < rods.len() && j != i ==> rods[j].discs@.len() == 0,
    ensures
        stacks_ranks(rods) == ranks_of(rods[i].discs@),
    decreases rods.len(),
{
    if i == rods.len() - 1 {
        lemma_stacks_ranks_all_empty(rods.drop_last());
        assert(Multiset::<u32>::empty().add(ranks_of(rods.last().discs@)) =~= ranks_of(
            rods.last().discs@,
        ));
    } else {
        lemma_stacks_ranks_one_rod(rods.drop_last(), i);
        lemma_ranks_of_empty(rods.last().discs@);
        assert(ranks_of(rods.drop_last()[i].discs@).add(Multiset::<u32>::empty()) =~= ranks_of(
            rods[i].discs@,
        ));
    }
}

/// A board of empty rods has an empty multiset.
pub proof fn lemma_stacks_ranks_all_empty(rods: Seq<Rod>)
    requires
        forall|j: int| 0 <= j < rods.len() ==> rods[j].discs@.len() == 0,
    ensures
        stacks_ranks(rods) == Multiset::<u32>::empty(),
    decreases rods.len(),
{
    if rods.len() > 0 {
        lemma_stacks_ranks_all_empty(rods.drop_last());
        lemma_ranks_of_empty(rods.last().discs@);
        assert(Multiset::<u32>::empty().add(Multiset::<u32>::empty())
            =~= Multiset::<u32>::empty());
    }
}

/// Appending a disc to a stack inserts its rank into the stack's multiset.
pub proof fn lemma_ranks_of_push(s: Seq<Disc>, d: Disc)
    ensures
        ranks_of(s.push(d)) == ranks_of(s).insert(d.rank),
{
    let f = |x: Disc| x.rank;
    assert(s.push(d).map_values(f) =~= s.map_values(f).push(d.rank));
    assert(s.map_values(f).push(d.rank).to_multiset() =~= s.map_values(f).to_multiset().insert(
        d.rank,
    ));
}

/// `stacks_ranks` reads only the stacks: two rod sequences whose stacks
/// agree index by index have the same multiset.
pub proof fn lemma_stacks_ranks_congruence(a: Seq<Rod>, b: Seq<Rod>)
    requires
        a.len() == b.len(),
        forall|j: int| 0 <= j < a.len() ==> a[j].discs@ == b[j].discs@,
    ensures
        stacks_ranks(a) == stacks_ranks(b),
    decreases a.len(),
{
    if a.len() > 0 {
        lemma_stacks_ranks_congruence(a.drop_last(), b.drop_last());
    }
}

/// Pushing disc `d` onto the stack of rod `i`, all other rods untouched,
/// inserts `d`'s rank into the board's multiset.
pub proof fn lemma_stacks_ranks_push(a: Seq<Rod>, b: Seq<Rod>, i: int, d: Disc)
    requires
        a.len() == b.len(),
        0 <= i < a.len(),
        forall|j: int| 0 <= j < a.len() && j != i ==> a[j].discs@ == b[j].discs@,
        b[i].discs@ == a[i].discs@.push(d),
    ensures
        stacks_ranks(b) == stacks_ranks(a).insert(d.rank),
    decreases a.len(),
{
    if i == a.len() - 1 {
        lemma_stacks_ranks_congruence(a.drop_last(), b.drop_last());
        lemma_ranks_of_push(a.last().discs@, d);
        assert(stacks_ranks(a.drop_last()).add(ranks_of(a.last().discs@).insert(d.rank))
            =~= stacks_ranks(a.drop_last()).add(ranks_of(a.last().discs@)).insert(d.rank));
    } else {
        lemma_stacks_ranks_push(a.drop_last(), b.drop_last(), i, d);
        assert(stacks_ranks(a.drop_last()).insert(d.rank).add(ranks_of(a.last().discs@))
            =~= stacks_ranks(a.drop_last()).add(ranks_of(a.last().discs@)).insert(d.rank));
    }
}

/// Popping the top disc of rod `i`, all other rods untouched, removes its
/// rank from the board's multiset.
pub proof fn lemma_stacks_ranks_pop(a: Seq<Rod>, b: Seq<Rod>, i: int)
    requires
        a.len() == b.len(),
        0 <= i < a.len(),
        a[i].discs@.len() > 0,
        forall|j: int| 0 <= j < a.len() && j != i ==> a[j].discs@ == b[j].discs@,
        b[i].discs@ == a[i].discs@.drop_last(),
    ensures
        stacks_ranks(a) == stacks_ranks(b).insert(a[i].discs@.last().rank),
{
    let d = a[i].discs@.last();
    assert(a[i].discs@ =~= b[i].discs@.push(d));
    lemma_stacks_ranks_push(b, a, i, d);
}

} // verus!
