//! Levels on the decibel scale, in fixed point and closed under infinity.

use vstd::prelude::*;
use vstd::relations::total_ordering;

verus! {

/// How many units of a finite [`Level`] make one decibel.
pub const LEVEL_UNITS_PER_DECIBEL: i64 = 1000;

/// A level on the decibel scale.
///
/// A finite level counts thousandths of a decibel. A bin of magnitude zero
/// has no finite level: its level is `NegInfinity`, which lies below every
/// other level. `PosInfinity` lies above every other level; it is what a
/// finite level becomes when it is measured from a baseline of
/// `NegInfinity`, or when a difference leaves the range of `i64`.
#[derive(Clone, Copy, Debug, PartialEq, Eq, Structural)]
pub enum Level {
    NegInfinity,
    Finite(i64),
    PosInfinity,
}

impl Level {
    /// `self` is at most `other` on the extended number line.
    pub open spec fn le(self, other: Level) -> bool {
        match (self, other) {
            (Level::NegInfinity, _) => true,
            (_, Level::PosInfinity) => true,
            (Level::Finite(a), Level::Finite(b)) => a <= b,
            _ => false,
        }
    }

    /// `self` is strictly below `other`.
    pub open spec fn lt(self, other: Level) -> bool {
        self.le(other) && self != other
    }

    /// The level `self` as read from `baseline`: their difference on the
    /// extended number line.
    ///
    /// An infinite level stays what it is whatever the baseline, so the
    /// level of an empty bin stays `NegInfinity` even over a baseline of
    /// `NegInfinity`. A finite level over an infinite baseline lies
    /// infinitely far on the other side. A finite difference that `i64`
    /// cannot hold is infinite with the sign of the difference.
    pub open spec fn minus(self, baseline: Level) -> Level {
        match (self, baseline) {
            (Level::NegInfinity, _) => Level::NegInfinity,
            (Level::PosInfinity, _) => Level::PosInfinity,
            (Level::Finite(_), Level::NegInfinity) => Level::PosInfinity,
            (Level::Finite(_), Level::PosInfinity) => Level::NegInfinity,
            (Level::Finite(a), Level::Finite(b)) => if a - b > i64::MAX {
                Level::PosInfinity
            } else if a - b < i64::MIN {
                Level::NegInfinity
            } else {
                Level::Finite((a - b) as i64)
            },
        }
    }

    /// Whether `self` is at most `other`.
    pub fn at_most(&self, other: &Level) -> (holds: bool)
        ensures
            holds == self.le(*other),
    {
        match (*self, *other) {
            (Level::NegInfinity, _) => true,
            (_, Level::PosInfinity) => true,
            (Level::Finite(a), Level::Finite(b)) => a <= b,
            _ => false,
        }
    }

    /// Whether `self` is strictly above `other`.
    pub fn exceeds(&self, other: &Level) -> (holds: bool)
        ensures
            holds == other.lt(*self),
    {
        !self.at_most(other)
    }

    /// Whether the level is neither of the two infinities.
    pub fn is_finite(&self) -> (holds: bool)
        ensures
            holds == (*self is Finite),
    {
        match *self {
            Level::Finite(_) => true,
            _ => false,
        }
    }

    /// The level as read from `baseline`.
    pub fn subtract(&self, baseline: &Level) -> (difference: Level)
        ensures
            difference == self.minus(*baseline),
    {
        match (*self, *baseline) {
            (Level::NegInfinity, _) => Level::NegInfinity,
            (Level::PosInfinity, _) => Level::PosInfinity,
            (Level::Finite(_), Level::NegInfinity) => Level::PosInfinity,
            (Level::Finite(_), Level::PosInfinity) => Level::NegInfinity,
            (Level::Finite(a), Level::Finite(b)) => match a.checked_sub(b) {
                Some(d) => Level::Finite(d),
                None => if a >= b {
                    Level::PosInfinity
                } else {
                    Level::NegInfinity
                },
            },
        }
    }
}

/// The order of levels as a relation, for use with sequences.
pub open spec fn level_le() -> spec_fn(Level, Level) -> bool {
    |a: Level, b: Level| a.le(b)
}

/// The order of levels is total: any two levels compare, and two levels
/// that are each at most the other are the same level.
pub proof fn lemma_level_order_is_total()
    ensures
        total_ordering(level_le()),
{
    let leq = level_le();
    assert forall|a: Level| #[trigger] leq(a, a) by {}
    assert forall|a: Level, b: Level| #[trigger] leq(a, b) && #[trigger] leq(b, a) implies a
        == b by {}
    assert forall|a: Level, b: Level| #[trigger] leq(a, b) || #[trigger] leq(b, a) by {}
    assert forall|a: Level, b: Level, c: Level| #[trigger]
        leq(a, b) && #[trigger] leq(b, c) implies leq(a, c) by {}
}

/// Reading two levels from one baseline keeps their order.
pub proof fn lemma_minus_keeps_order(a: Level, b: Level, baseline: Level)
    requires
        a.le(b),
    ensures
        a.minus(baseline).le(b.minus(baseline)),
{
}

/// A finite level read from itself is zero.
pub proof fn lemma_minus_self_is_zero(a: Level)
    requires
        a is Finite,
    ensures
        a.minus(a) == Level::Finite(0),
{
}

} // verus!
