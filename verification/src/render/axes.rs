//! Where a bin and a level lie on a canvas.
//!
//! The horizontal axis runs from zero at the left edge to half the sample
//! rate at the right edge. The vertical axis runs from 100 decibels at the
//! top edge to -100 decibels at the bottom edge; levels beyond either end
//! are drawn on the edge.

use crate::level::Level;
use crate::render::canvas::MAX_DIMENSION;
use vstd::prelude::*;

verus! {

/// The level of the top edge, in thousandths of a decibel.
pub const LEVEL_AXIS_TOP: i64 = 100_000;

/// The level of the bottom edge, in thousandths of a decibel.
pub const LEVEL_AXIS_BOTTOM: i64 = -100_000;

/// The level at which `level` is drawn: the level itself if it lies on the
/// axis, else the nearer end of the axis.
pub open spec fn level_on_axis(level: Level) -> int {
    match level {
        Level::NegInfinity => LEVEL_AXIS_BOTTOM as int,
        Level::PosInfinity => LEVEL_AXIS_TOP as int,
        Level::Finite(v) => if v < LEVEL_AXIS_BOTTOM {
            LEVEL_AXIS_BOTTOM as int
        } else if v > LEVEL_AXIS_TOP {
            LEVEL_AXIS_TOP as int
        } else {
            v as int
        },
    }
}

/// The row of a canvas of `height` rows on which `level` is drawn, counted
/// from the top.
pub open spec fn row_of_level(level: Level, height: int) -> int {
    (LEVEL_AXIS_TOP - level_on_axis(level)) * (height - 1) / (LEVEL_AXIS_TOP - LEVEL_AXIS_BOTTOM)
}

/// The column of a canvas of `width` columns on which bin `k` of a signal
/// of `sample_count` samples is drawn, counted from the left.
pub open spec fn column_of_bin(k: int, sample_count: int, width: int) -> int {
    2 * k * (width - 1) / sample_count
}

/// The row on which `level` is drawn.
pub(crate) fn level_row(level: &Level, height: usize) -> (row: usize)
    requires
        0 < height <= MAX_DIMENSION,
    ensures
        row == row_of_level(*level, height as int),
        row < height,
{
    let drawn: i64 = match *level {
        Level::NegInfinity => LEVEL_AXIS_BOTTOM,
        Level::PosInfinity => LEVEL_AXIS_TOP,
        Level::Finite(v) => if v < LEVEL_AXIS_BOTTOM {
            LEVEL_AXIS_BOTTOM
        } else if v > LEVEL_AXIS_TOP {
            LEVEL_AXIS_TOP
        } else {
            v
        },
    };
    let below_top = (LEVEL_AXIS_TOP - drawn) as u64;
    let rows = (height - 1) as u64;
    assert(below_top * rows <= 200_000 * rows) by (nonlinear_arith)
        requires
            below_top <= 200_000,
    ;
    assert(below_top * rows / 200_000 <= rows) by (nonlinear_arith)
        requires
            below_top * rows <= 200_000 * rows,
    ;
    (below_top * rows / 200_000) as usize
}

/// The column on which bin `k` is drawn.
pub(crate) fn bin_column(k: usize, sample_count: usize, width: usize) -> (column: usize)
    requires
        0 < width <= MAX_DIMENSION,
        k < sample_count / 2,
    ensures
        column == column_of_bin(k as int, sample_count as int, width as int),
        column < width,
{
    let twice = 2 * (k as u128);
    let columns = (width - 1) as u128;
    let count = sample_count as u128;
    assert(twice * columns <= count * columns) by (nonlinear_arith)
        requires
            twice <= count,
    ;
    assert(count * columns <= 0xffff_ffff_ffff_ffff * 16384) by (nonlinear_arith)
        requires
            count <= 0xffff_ffff_ffff_ffff,
            columns <= 16384,
    ;
    assert(twice * columns / (count as int) <= columns) by (nonlinear_arith)
        requires
            twice * columns <= count * columns,
            count > 0,
    ;
    (twice * columns / count) as usize
}

} // verus!
