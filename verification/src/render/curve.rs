//! Drawing a series of bins as a stepped curve.
//!
//! The curve leaves each point along its row until it stands in the column
//! of the next point, and there runs along the column to the next point's
//! row. The last point is drawn as a single pixel.

use crate::render::axes::{bin_column, column_of_bin, level_row, row_of_level};
use crate::render::canvas::{
    column_span, either, lemma_painted_alike, lemma_painted_nothing, lemma_painted_twice,
    row_span, Canvas, Color, Region, MAX_DIMENSION,
};
use crate::spectrum::Bin;
use vstd::prelude::*;

verus! {

/// A position on a canvas.
#[derive(Clone, Copy, Debug, PartialEq, Eq, Structural)]
pub struct Point {
    pub column: usize,
    pub row: usize,
}

/// The position at which `bin` of a signal of `sample_count` samples is
/// drawn on a canvas of `width` by `height` pixels.
pub open spec fn point_of(bin: Bin, sample_count: int, width: int, height: int) -> Point {
    Point {
        column: column_of_bin(bin.index as int, sample_count, width) as usize,
        row: row_of_level(bin.level, height) as usize,
    }
}

/// The positions at which `bins` are drawn, in their order.
pub open spec fn curve_points(bins: Seq<Bin>, sample_count: int, width: int, height: int) -> Seq<
    Point,
> {
    Seq::new(bins.len(), |i: int| point_of(bins[i], sample_count, width, height))
}

/// The step of a curve that leads from `from` to `to`: the row of `from`
/// between the two columns, and the column of `to` between the two rows.
pub open spec fn step_region(from: Point, to: Point) -> Region {
    either(
        row_span(from.row as int, from.column as int, to.column as int),
        column_span(
            to.column as int,
            if from.row <= to.row {
                from.row as int
            } else {
                to.row as int
            },
            if from.row <= to.row {
                to.row as int
            } else {
                from.row as int
            },
        ),
    )
}

/// The point after point `j` of `points`, or point `j` itself if it is the
/// last.
pub open spec fn next_point(points: Seq<Point>, j: int) -> Point {
    if j + 1 < points.len() {
        points[j + 1]
    } else {
        points[j]
    }
}

/// `(x, y)` lies on the step that leaves point `j` of `points`.
pub open spec fn on_step(points: Seq<Point>, j: int, x: int, y: int) -> bool {
    step_region(points[j], next_point(points, j))(x, y)
}

/// The steps that leave the first `n` points of `points`.
pub open spec fn curve_prefix(points: Seq<Point>, n: int) -> Region {
    |x: int, y: int| exists|j: int| 0 <= j < n && #[trigger] on_step(points, j, x, y)
}

/// The stepped curve through `points`.
pub open spec fn curve_region(points: Seq<Point>) -> Region {
    curve_prefix(points, points.len() as int)
}

/// The positions at which `bins` are drawn on a canvas of `width` by
/// `height` pixels.
pub(crate) fn plot_points(bins: &Vec<Bin>, sample_count: usize, width: usize, height: usize) -> (points:
    Vec<Point>)
    requires
        0 < width <= MAX_DIMENSION,
        0 < height <= MAX_DIMENSION,
        forall|i: int| 0 <= i < bins.len() ==> (#[trigger] bins[i]).index < sample_count / 2,
    ensures
        points@ == curve_points(bins@, sample_count as int, width as int, height as int),
{
    let mut points: Vec<Point> = Vec::new();
    let mut i: usize = 0;
    while i < bins.len()
        invariant
            0 < width <= MAX_DIMENSION,
            0 < height <= MAX_DIMENSION,
            forall|i: int| 0 <= i < bins.len() ==> (#[trigger] bins[i]).index < sample_count / 2,
            i <= bins.len(),
            points.len() == i,
            forall|k: int|
                0 <= k < i ==> points[k] == point_of(
                    #[trigger] bins[k],
                    sample_count as int,
                    width as int,
                    height as int,
                ),
        decreases bins.len() - i,
    {
        let bin = bins[i];
        points.push(
            Point {
                column: bin_column(bin.index, sample_count, width),
                row: level_row(&bin.level, height),
            },
        );
        i += 1;
    }
    proof {
        assert(points@ =~= curve_points(
            bins@,
            sample_count as int,
            width as int,
            height as int,
        ));
    }
    points
}

/// The canvas with the stepped curve through `points` drawn in `color`.
/// What lies outside the canvas is left out.
pub fn draw_curve(canvas: Canvas, points: &Vec<Point>, color: Color) -> (drawn: Canvas)
    ensures
        drawn@ == canvas@.painted(curve_region(points@), color),
{
    let ghost before = canvas@;
    proof {
        use_type_invariant(&canvas);
    }
    let mut drawn = canvas;
    let mut j: usize = 0;
    proof {
        lemma_painted_nothing(before, curve_prefix(points@, 0), color);
    }
    while j < points.len()
        invariant
            before.wf(),
            j <= points.len(),
            drawn@ == before.painted(curve_prefix(points@, j as int), color),
        decreases points.len() - j,
    {
        let from = points[j];
        let to = if j + 1 < points.len() {
            points[j + 1]
        } else {
            points[j]
        };
        let (low, high) = if from.row <= to.row {
            (from.row, to.row)
        } else {
            (to.row, from.row)
        };
        drawn = drawn.with_row_span(from.row, from.column, to.column, color);
        drawn = drawn.with_column_span(to.column, low, high, color);
        proof {
            let done = curve_prefix(points@, j as int);
            let along = row_span(from.row as int, from.column as int, to.column as int);
            let across = column_span(to.column as int, low as int, high as int);
            lemma_painted_twice(before, done, along, color);
            lemma_painted_twice(before, either(done, along), across, color);
            let all = either(either(done, along), across);
            let next = curve_prefix(points@, j + 1);
            assert forall|x: int, y: int| before.holds(x, y) implies #[trigger] all(x, y) == next(
                x,
                y,
            ) by {
                assert(on_step(points@, j as int, x, y) == (along(x, y) || across(x, y)));
                if next(x, y) {
                    let i = choose|i: int| 0 <= i < j + 1 && #[trigger] on_step(points@, i, x, y);
                    if i < j {
                        assert(done(x, y));
                    }
                }
                if done(x, y) {
                    let i = choose|i: int| 0 <= i < j && #[trigger] on_step(points@, i, x, y);
                    assert(on_step(points@, i, x, y));
                }
            }
            lemma_painted_alike(before, all, next, color);
        }
        j += 1;
    }
    drawn
}

} // verus!
