//! Arranging levels in ascending order.

use crate::level::{lemma_level_order_is_total, level_le, Level};
use vstd::multiset::Multiset;
use vstd::prelude::*;
use vstd::relations::sorted_by;
use vstd::seq_lib::{lemma_multiset_commutative, lemma_sorted_unique, to_multiset_build};

verus! {

/// The levels of `levels`, each as often as it occurs there, from the lowest
/// to the highest.
pub open spec fn ascending(levels: Seq<Level>) -> Seq<Level> {
    levels.sort_by(level_le())
}

/// No level of `levels` is above one that comes after it.
pub open spec fn is_ascending(levels: Seq<Level>) -> bool {
    forall|i: int, j: int| 0 <= i < j < levels.len() ==> (#[trigger] levels[i]).le(#[trigger] levels[j])
}

/// `ascending(levels)` is the one arrangement of `levels` that is in
/// ascending order.
pub proof fn lemma_ascending_is_unique(levels: Seq<Level>, arranged: Seq<Level>)
    requires
        is_ascending(arranged),
        arranged.to_multiset() == levels.to_multiset(),
    ensures
        arranged == ascending(levels),
{
    lemma_level_order_is_total();
    levels.lemma_sort_by_ensures(level_le());
    assert(sorted_by(arranged, level_le()));
    lemma_sorted_unique(arranged, ascending(levels), level_le());
}

/// `ascending(levels)` holds the levels of `levels`, in ascending order.
pub proof fn lemma_ascending_properties(levels: Seq<Level>)
    ensures
        is_ascending(ascending(levels)),
        ascending(levels).to_multiset() == levels.to_multiset(),
        ascending(levels).len() == levels.len(),
{
    lemma_level_order_is_total();
    levels.lemma_sort_by_ensures(level_le());
    let sorted = ascending(levels);
    assert forall|i: int, j: int| 0 <= i < j < sorted.len() implies (#[trigger] sorted[i]).le(
        #[trigger] sorted[j],
    ) by {
        assert(level_le()(sorted[i], sorted[j]));
    }
    levels.to_multiset_ensures();
    sorted.to_multiset_ensures();
}

/// A run of length zero holds no level.
proof fn lemma_empty_run_has_no_levels(run: Seq<Level>)
    requires
        run.len() == 0,
    ensures
        run.to_multiset() =~= Multiset::empty(),
        run.to_multiset().add(run.to_multiset()) =~= run.to_multiset(),
{
    broadcast use vstd::multiset::group_multiset_axioms;

    run.to_multiset_ensures();
    assert forall|level: Level| run.to_multiset().count(level) == 0 by {
        assert(!run.contains(level));
    }
}

/// Merges two ascending runs into one.
fn merge(left: &Vec<Level>, right: &Vec<Level>) -> (merged: Vec<Level>)
    requires
        is_ascending(left@),
        is_ascending(right@),
    ensures
        is_ascending(merged@),
        merged@.to_multiset() == left@.to_multiset().add(right@.to_multiset()),
{
    let mut merged: Vec<Level> = Vec::new();
    let mut i: usize = 0;
    let mut j: usize = 0;
    proof {
        lemma_empty_run_has_no_levels(merged@);
        lemma_empty_run_has_no_levels(left@.take(0));
        lemma_empty_run_has_no_levels(right@.take(0));
    }
    while i < left.len() || j < right.len()
        invariant
            i <= left.len(),
            j <= right.len(),
            is_ascending(left@),
            is_ascending(right@),
            is_ascending(merged@),
            merged@.to_multiset() == left@.take(i as int).to_multiset().add(
                right@.take(j as int).to_multiset(),
            ),
            forall|k: int|
                0 <= k < merged.len() && i < left.len() ==> (#[trigger] merged[k]).le(
                    left[i as int],
                ),
            forall|k: int|
                0 <= k < merged.len() && j < right.len() ==> (#[trigger] merged[k]).le(
                    right[j as int],
                ),
        decreases left.len() - i + right.len() - j,
    {
        let from_left = if i < left.len() && j < right.len() {
            left[i].at_most(&right[j])
        } else {
            i < left.len()
        };
        if from_left {
            proof {
                assert(left@.take(i + 1) =~= left@.take(i as int).push(left[i as int]));
                to_multiset_build(left@.take(i as int), left[i as int]);
                to_multiset_build(merged@, left[i as int]);
            }
            merged.push(left[i]);
            i += 1;
        } else {
            proof {
                assert(right@.take(j + 1) =~= right@.take(j as int).push(right[j as int]));
                to_multiset_build(right@.take(j as int), right[j as int]);
                to_multiset_build(merged@, right[j as int]);
            }
            merged.push(right[j]);
            j += 1;
        }
    }
    proof {
        assert(left@.take(i as int) =~= left@);
        assert(right@.take(j as int) =~= right@);
    }
    merged
}

/// Arranges the levels from position `from` up to position `to` in
/// ascending order.
fn sort_range(levels: &Vec<Level>, from: usize, to: usize) -> (sorted: Vec<Level>)
    requires
        from <= to <= levels.len(),
    ensures
        is_ascending(sorted@),
        sorted@.to_multiset() == levels@.subrange(from as int, to as int).to_multiset(),
    decreases to - from,
{
    if to - from <= 1 {
        let mut sorted: Vec<Level> = Vec::new();
        if from < to {
            sorted.push(levels[from]);
        }
        proof {
            assert(sorted@ =~= levels@.subrange(from as int, to as int));
        }
        sorted
    } else {
        let middle = from + (to - from) / 2;
        let left = sort_range(levels, from, middle);
        let right = sort_range(levels, middle, to);
        proof {
            let lower = levels@.subrange(from as int, middle as int);
            let upper = levels@.subrange(middle as int, to as int);
            assert(levels@.subrange(from as int, to as int) =~= lower + upper);
            lemma_multiset_commutative(lower, upper);
        }
        merge(&left, &right)
    }
}

/// The levels of `levels` in ascending order.
pub fn sort_levels(levels: &Vec<Level>) -> (sorted: Vec<Level>)
    ensures
        sorted@ == ascending(levels@),
{
    let sorted = sort_range(levels, 0, levels.len());
    proof {
        assert(levels@.subrange(0, levels.len() as int) =~= levels@);
        lemma_ascending_is_unique(levels@, sorted@);
    }
    sorted
}

} // verus!
