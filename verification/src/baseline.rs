//! The baseline of a spectrum, and levels read from it.
//!
//! The baseline is the median of the levels. Of an even number of levels
//! the median is the upper of the two in the middle: the level at position
//! `len / 2` of the ascending arrangement, counted from zero.

use crate::level::{lemma_minus_keeps_order, lemma_minus_self_is_zero, Level};
use crate::sorting::{
    ascending, is_ascending, lemma_ascending_is_unique, lemma_ascending_properties, sort_levels,
};
use vstd::prelude::*;
use vstd::seq_lib::{to_multiset_build, to_multiset_insert, to_multiset_remove};

verus! {

/// The median of `levels`: the level in the middle of their ascending
/// arrangement, the upper of the two in the middle where their number is
/// even.
pub open spec fn median(levels: Seq<Level>) -> Level
    recommends
        levels.len() > 0,
{
    ascending(levels)[(levels.len() / 2) as int]
}

/// Every level of `levels` as read from `baseline`.
pub open spec fn relative_to(levels: Seq<Level>, baseline: Level) -> Seq<Level> {
    Seq::new(levels.len(), |i: int| levels[i].minus(baseline))
}

/// Every level of `levels` as read from their median.
pub open spec fn adjusted(levels: Seq<Level>) -> Seq<Level> {
    relative_to(levels, median(levels))
}

/// The median of `levels`, if there is any level.
pub fn median_level(levels: &Vec<Level>) -> (middle: Option<Level>)
    ensures
        match middle {
            Some(level) => levels.len() > 0 && level == median(levels@),
            None => levels.len() == 0,
        },
{
    if levels.len() == 0 {
        return None;
    }
    let sorted = sort_levels(levels);
    proof {
        lemma_ascending_properties(levels@);
    }
    Some(sorted[levels.len() / 2])
}

/// Every level of `levels` as read from `baseline`.
pub fn levels_relative_to(levels: &Vec<Level>, baseline: &Level) -> (shifted: Vec<Level>)
    ensures
        shifted@ == relative_to(levels@, *baseline),
{
    let mut shifted: Vec<Level> = Vec::new();
    let mut i: usize = 0;
    while i < levels.len()
        invariant
            i <= levels.len(),
            shifted.len() == i,
            forall|k: int| 0 <= k < i ==> shifted[k] == (#[trigger] levels[k]).minus(*baseline),
        decreases levels.len() - i,
    {
        shifted.push(levels[i].subtract(baseline));
        i += 1;
    }
    proof {
        assert(shifted@ =~= relative_to(levels@, *baseline));
    }
    shifted
}

/// Every level of `levels` as read from their median. No level gives no
/// level.
pub fn adjust_levels(levels: &Vec<Level>) -> (shifted: Vec<Level>)
    ensures
        shifted@ == adjusted(levels@),
{
    match median_level(levels) {
        Some(baseline) => levels_relative_to(levels, &baseline),
        None => {
            let shifted: Vec<Level> = Vec::new();
            proof {
                assert(shifted@ =~= adjusted(levels@));
            }
            shifted
        },
    }
}

/// Two runs that hold the same levels equally often still do so when each
/// level is read from `baseline`.
proof fn lemma_relative_keeps_contents(a: Seq<Level>, b: Seq<Level>, baseline: Level)
    requires
        a.to_multiset() == b.to_multiset(),
    ensures
        relative_to(a, baseline).to_multiset() == relative_to(b, baseline).to_multiset(),
    decreases a.len(),
{
    a.to_multiset_ensures();
    b.to_multiset_ensures();
    if a.len() == 0 {
        assert(relative_to(a, baseline) =~= relative_to(b, baseline));
    } else {
        let last = a.last();
        let shorter_a = a.drop_last();
        assert(a.contains(last));
        assert(b.to_multiset().count(last) > 0);
        assert(b.contains(last));
        let j = choose|j: int| 0 <= j < b.len() && b[j] == last;
        let shorter_b = b.remove(j);
        assert(shorter_a =~= a.remove(a.len() - 1));
        to_multiset_remove(a, a.len() - 1);
        to_multiset_remove(b, j);
        lemma_relative_keeps_contents(shorter_a, shorter_b, baseline);
        let moved = last.minus(baseline);
        assert(relative_to(a, baseline) =~= relative_to(shorter_a, baseline).push(moved));
        to_multiset_build(relative_to(shorter_a, baseline), moved);
        assert(relative_to(b, baseline) =~= relative_to(shorter_b, baseline).insert(j, moved));
        to_multiset_insert(relative_to(shorter_b, baseline), j, moved);
    }
}

/// Reading every level from one baseline commutes with arranging the levels
/// in ascending order.
pub proof fn lemma_relative_commutes_with_ascending(levels: Seq<Level>, baseline: Level)
    ensures
        ascending(relative_to(levels, baseline)) == relative_to(ascending(levels), baseline),
{
    let sorted = ascending(levels);
    lemma_ascending_properties(levels);
    let moved = relative_to(sorted, baseline);
    assert forall|i: int, j: int| 0 <= i < j < moved.len() implies (#[trigger] moved[i]).le(
        #[trigger] moved[j],
    ) by {
        assert(sorted[i].le(sorted[j]));
        lemma_minus_keeps_order(sorted[i], sorted[j], baseline);
    }
    lemma_relative_keeps_contents(sorted, levels, baseline);
    lemma_ascending_is_unique(relative_to(levels, baseline), moved);
}

/// After adjustment the median of the whole spectrum is exactly zero,
/// provided that the median before was finite.
pub proof fn lemma_adjusted_median_is_zero(levels: Seq<Level>)
    requires
        levels.len() > 0,
        median(levels) is Finite,
    ensures
        median(adjusted(levels)) == Level::Finite(0),
{
    let baseline = median(levels);
    lemma_ascending_properties(levels);
    lemma_relative_commutes_with_ascending(levels, baseline);
    lemma_minus_self_is_zero(baseline);
}

/// Where the median is `NegInfinity`, the adjusted median is `NegInfinity`
/// too: the levels of empty bins do not move.
pub proof fn lemma_adjusted_median_of_silence(levels: Seq<Level>)
    requires
        levels.len() > 0,
        median(levels) == Level::NegInfinity,
    ensures
        median(adjusted(levels)) == Level::NegInfinity,
{
    let baseline = median(levels);
    lemma_ascending_properties(levels);
    lemma_relative_commutes_with_ascending(levels, baseline);
}

} // verus!
