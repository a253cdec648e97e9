//! Comparing a peak with the warning threshold.
//!
//! The threshold is a level on the adjusted scale, the scale on which the
//! baseline is zero. It is not a distance from some other level.

use crate::baseline::relative_to;
use crate::level::Level;
use vstd::prelude::*;

verus! {

/// A peak at `peak_level` calls for a warning at the threshold
/// `warning_offset`, given in thousandths of a decibel: the peak lies
/// strictly above the threshold.
pub open spec fn warns(peak_level: Level, warning_offset: i64) -> bool {
    Level::Finite(warning_offset).lt(peak_level)
}

/// Whether a peak at `peak_level` calls for a warning at the threshold
/// `warning_offset`. A peak exactly at the threshold does not.
pub fn exceeds_threshold(peak_level: &Level, warning_offset: i64) -> (warning: bool)
    ensures
        warning == warns(*peak_level, warning_offset),
{
    peak_level.exceeds(&Level::Finite(warning_offset))
}

/// A finite peak calls for a warning exactly if it is above the threshold:
/// not at the threshold, but already one unit above it.
pub proof fn lemma_threshold_is_strict(peak_level: i64, warning_offset: i64)
    ensures
        warns(Level::Finite(peak_level), warning_offset) <==> peak_level > warning_offset,
        !warns(Level::Finite(warning_offset), warning_offset),
        warning_offset < i64::MAX ==> warns(
            Level::Finite((warning_offset + 1) as i64),
            warning_offset,
        ),
{
}

/// A spectrum of empty bins stays one under any baseline, and a peak that
/// is an empty bin calls for no warning at any finite threshold.
pub proof fn lemma_silence_never_warns(levels: Seq<Level>, baseline: Level, warning_offset: i64)
    requires
        forall|k: int| 0 <= k < levels.len() ==> levels[k] == Level::NegInfinity,
    ensures
        forall|k: int|
            0 <= k < levels.len() ==> (#[trigger] relative_to(levels, baseline)[k])
                == Level::NegInfinity,
        !warns(Level::NegInfinity, warning_offset),
{
}

} // verus!
