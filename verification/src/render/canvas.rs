//! A raster of pixels that can be painted region by region.

use crate::error::AnalysisError;
use vstd::arithmetic::div_mod::{lemma_fundamental_div_mod, lemma_fundamental_div_mod_converse};
use vstd::prelude::*;

verus! {

/// The colour of a pixel.
#[derive(Clone, Copy, Debug, PartialEq, Eq, Structural)]
pub struct Color {
    pub red: u8,
    pub green: u8,
    pub blue: u8,
}

/// The largest width and the largest height of a canvas, in pixels.
pub const MAX_DIMENSION: usize = 16384;

/// A set of pixel positions, given by its test: column first, row second.
pub type Region = spec_fn(int, int) -> bool;

/// What a [`Canvas`] stands for: its pixels row by row from the top, each
/// row from the left.
pub struct CanvasView {
    pub width: nat,
    pub height: nat,
    pub pixels: Seq<Color>,
}

impl CanvasView {
    /// Both dimensions are positive and within the limit, and there is one
    /// pixel for each position.
    pub open spec fn wf(self) -> bool {
        &&& 0 < self.width <= MAX_DIMENSION
        &&& 0 < self.height <= MAX_DIMENSION
        &&& self.pixels.len() == self.width * self.height
    }

    /// Column `x` of row `y` is a position of the canvas.
    pub open spec fn holds(self, x: int, y: int) -> bool {
        0 <= x < self.width && 0 <= y < self.height
    }

    /// The colour at column `x` of row `y`.
    pub open spec fn at(self, x: int, y: int) -> Color {
        self.pixels[y * self.width + x]
    }

    /// The canvas of the given size with every pixel of one colour.
    pub open spec fn blank(width: nat, height: nat, background: Color) -> CanvasView {
        CanvasView { width, height, pixels: Seq::new(width * height, |i: int| background) }
    }

    /// The canvas with every pixel of `region` set to `color` and every
    /// other pixel as it was. Positions of `region` outside the canvas are
    /// of no account.
    pub open spec fn painted(self, region: Region, color: Color) -> CanvasView {
        CanvasView {
            width: self.width,
            height: self.height,
            pixels: Seq::new(
                self.pixels.len(),
                |i: int|
                    if region(i % (self.width as int), i / (self.width as int)) {
                        color
                    } else {
                        self.pixels[i]
                    },
            ),
        }
    }
}

/// The region of the single position `(x0, y0)`.
pub open spec fn point_region(x0: int, y0: int) -> Region {
    |x: int, y: int| x == x0 && y == y0
}

/// The positions of row `y0` from column `from` to column `to`, both
/// included.
pub open spec fn row_span(y0: int, from: int, to: int) -> Region {
    |x: int, y: int| y == y0 && from <= x <= to
}

/// The positions of column `x0` from row `from` to row `to`, both
/// included.
pub open spec fn column_span(x0: int, from: int, to: int) -> Region {
    |x: int, y: int| x == x0 && from <= y <= to
}

/// A pixel's place in the row-major sequence determines its column and
/// its row.
proof fn lemma_position_of_index(width: int, x: int, y: int, i: int)
    requires
        0 < width,
        0 <= x < width,
    ensures
        i == y * width + x <==> (i % width == x && i / width == y),
{
    if i == y * width + x {
        assert(y * width == width * y) by (nonlinear_arith);
        lemma_fundamental_div_mod_converse(i, width, y, x);
    }
    if i % width == x && i / width == y {
        lemma_fundamental_div_mod(i, width);
        assert(y * width == width * y) by (nonlinear_arith);
    }
}

/// Every position of the canvas has a place in the sequence of pixels.
proof fn lemma_index_in_range(width: int, height: int, x: int, y: int)
    requires
        0 <= x < width <= MAX_DIMENSION,
        0 <= y < height <= MAX_DIMENSION,
    ensures
        0 <= y * width <= y * width + x < width * height <= 16384 * 16384,
{
    assert(0 <= y * width <= y * width + x < width * height <= 16384 * 16384)
        by (nonlinear_arith)
        requires
            0 <= x < width <= 16384,
            0 <= y < height <= 16384,
    ;
}

/// The positions of `a` together with those of `b`.
pub open spec fn either(a: Region, b: Region) -> Region {
    |x: int, y: int| a(x, y) || b(x, y)
}

/// A packed colour: red in bits 16 to 23, green in bits 8 to 15, blue in
/// bits 0 to 7.
pub open spec fn rgb(packed: u32) -> Color {
    Color {
        red: (packed / 65536 % 256) as u8,
        green: (packed / 256 % 256) as u8,
        blue: (packed % 256) as u8,
    }
}

/// The colour that `packed` stands for.
pub fn color_of(packed: u32) -> (color: Color)
    ensures
        color == rgb(packed),
{
    Color {
        red: (packed / 65536 % 256) as u8,
        green: (packed / 256 % 256) as u8,
        blue: (packed % 256) as u8,
    }
}

/// Every place in the sequence of pixels is a position of the canvas.
pub proof fn lemma_index_is_position(canvas: CanvasView, i: int)
    requires
        canvas.wf(),
        0 <= i < canvas.pixels.len(),
    ensures
        canvas.holds(i % (canvas.width as int), i / (canvas.width as int)),
{
    let width = canvas.width as int;
    let height = canvas.height as int;
    lemma_fundamental_div_mod(i, width);
    assert(0 <= i % width < width && 0 <= i / width < height) by (nonlinear_arith)
        requires
            0 <= i < width * height,
            0 < width,
            i == width * (i / width) + i % width,
            0 <= i % width < width,
    ;
}

/// Painting a region changes exactly the pixels of the region.
pub proof fn lemma_painted_at(canvas: CanvasView, region: Region, color: Color, x: int, y: int)
    requires
        canvas.wf(),
        canvas.holds(x, y),
    ensures
        canvas.painted(region, color).at(x, y) == if region(x, y) {
            color
        } else {
            canvas.at(x, y)
        },
{
    let width = canvas.width as int;
    lemma_index_in_range(width, canvas.height as int, x, y);
    lemma_position_of_index(width, x, y, y * width + x);
}

/// Two regions that hold the same positions of the canvas paint alike.
pub proof fn lemma_painted_alike(canvas: CanvasView, a: Region, b: Region, color: Color)
    requires
        canvas.wf(),
        forall|x: int, y: int| canvas.holds(x, y) ==> #[trigger] a(x, y) == b(x, y),
    ensures
        canvas.painted(a, color) == canvas.painted(b, color),
{
    let width = canvas.width as int;
    assert forall|i: int| 0 <= i < canvas.pixels.len() implies canvas.painted(a, color).pixels[i]
        == canvas.painted(b, color).pixels[i] by {
        lemma_index_is_position(canvas, i);
        assert(a(i % width, i / width) == b(i % width, i / width));
    }
    assert(canvas.painted(a, color).pixels =~= canvas.painted(b, color).pixels);
}

/// Painting two regions in one colour, one after the other, paints both.
pub proof fn lemma_painted_twice(canvas: CanvasView, a: Region, b: Region, color: Color)
    ensures
        canvas.painted(a, color).painted(b, color) == canvas.painted(either(a, b), color),
{
    assert(canvas.painted(a, color).painted(b, color).pixels =~= canvas.painted(
        either(a, b),
        color,
    ).pixels);
}

/// Painting a region that holds no position of the canvas changes
/// nothing.
pub proof fn lemma_painted_nothing(canvas: CanvasView, region: Region, color: Color)
    requires
        canvas.wf(),
        forall|x: int, y: int| canvas.holds(x, y) ==> !#[trigger] region(x, y),
    ensures
        canvas.painted(region, color) == canvas,
{
    let width = canvas.width as int;
    assert forall|i: int| 0 <= i < canvas.pixels.len() implies canvas.painted(
        region,
        color,
    ).pixels[i] == canvas.pixels[i] by {
        lemma_index_is_position(canvas, i);
        assert(!region(i % width, i / width));
    }
    assert(canvas.painted(region, color).pixels =~= canvas.pixels);
}

/// A raster of pixels.
pub struct Canvas {
    width: usize,
    height: usize,
    pixels: Vec<Color>,
}

impl View for Canvas {
    type V = CanvasView;

    closed spec fn view(&self) -> CanvasView {
        CanvasView {
            width: self.width as nat,
            height: self.height as nat,
            pixels: self.pixels@,
        }
    }
}

impl Canvas {
    #[verifier::type_invariant]
    pub open spec fn well_formed(&self) -> bool {
        self@.wf()
    }

    /// A canvas of `width` by `height` pixels, all of the colour
    /// `background`. A canvas without pixels, or one beyond the limit in
    /// either dimension, cannot be drawn on.
    pub fn new(width: usize, height: usize, background: Color) -> (canvas: Result<
        Canvas,
        AnalysisError,
    >)
        ensures
            match canvas {
                Ok(c) => {
                    &&& 0 < width <= MAX_DIMENSION
                    &&& 0 < height <= MAX_DIMENSION
                    &&& c@ == CanvasView::blank(width as nat, height as nat, background)
                },
                Err(e) => {
                    &&& e == AnalysisError::Render
                    &&& !(0 < width <= MAX_DIMENSION && 0 < height <= MAX_DIMENSION)
                },
            },
    {
        if width == 0 || height == 0 || width > MAX_DIMENSION || height > MAX_DIMENSION {
            return Err(AnalysisError::Render);
        }
        assert(width * height <= 16384 * 16384) by (nonlinear_arith)
            requires
                width <= 16384,
                height <= 16384,
        ;
        let total = width * height;
        let mut pixels: Vec<Color> = Vec::new();
        let mut i: usize = 0;
        while i < total
            invariant
                i <= total,
                pixels.len() == i,
                forall|k: int| 0 <= k < i ==> pixels[k] == background,
            decreases total - i,
        {
            pixels.push(background);
            i += 1;
        }
        proof {
            assert(pixels@ =~= CanvasView::blank(width as nat, height as nat, background).pixels);
        }
        Ok(Canvas { width, height, pixels })
    }

    /// The number of columns.
    pub fn width(&self) -> (width: usize)
        ensures
            width == self@.width,
            self@.wf(),
    {
        proof {
            use_type_invariant(self);
        }
        self.width
    }

    /// The number of rows.
    pub fn height(&self) -> (height: usize)
        ensures
            height == self@.height,
            self@.wf(),
    {
        proof {
            use_type_invariant(self);
        }
        self.height
    }

    /// The pixels row by row from the top, each row from the left.
    pub fn pixels(&self) -> (pixels: &Vec<Color>)
        ensures
            pixels@ == self@.pixels,
            self@.wf(),
    {
        proof {
            use_type_invariant(self);
        }
        &self.pixels
    }

    /// The colour at column `x` of row `y`, if that is a position of the
    /// canvas.
    pub fn pixel(&self, x: usize, y: usize) -> (color: Option<Color>)
        ensures
            color == if self@.holds(x as int, y as int) {
                Some(self@.at(x as int, y as int))
            } else {
                None
            },
    {
        proof {
            use_type_invariant(self);
        }
        if x < self.width && y < self.height {
            proof {
                lemma_index_in_range(self.width as int, self.height as int, x as int, y as int);
            }
            Some(self.pixels[y * self.width + x])
        } else {
            None
        }
    }

    /// The canvas with the pixel at column `x` of row `y` set to `color`.
    /// The canvas stays as it is if that is no position of it.
    pub fn with_pixel(self, x: usize, y: usize, color: Color) -> (canvas: Canvas)
        ensures
            canvas@ == self@.painted(point_region(x as int, y as int), color),
    {
        proof {
            use_type_invariant(&self);
        }
        let ghost before = self@;
        let ghost after = before.painted(point_region(x as int, y as int), color);
        let ghost columns = self.width as int;
        let Canvas { width, height, mut pixels } = self;
        if x < width && y < height {
            proof {
                lemma_index_in_range(columns, height as int, x as int, y as int);
            }
            pixels.set(y * width + x, color);
            proof {
                assert forall|i: int| 0 <= i < before.pixels.len() implies pixels@[i]
                    == after.pixels[i] by {
                    lemma_position_of_index(columns, x as int, y as int, i);
                }
            }
        } else {
            proof {
                assert forall|i: int| 0 <= i < before.pixels.len() implies pixels@[i]
                    == after.pixels[i] by {
                    if i % columns == x as int && i / columns == y as int {
                        lemma_fundamental_div_mod(i, columns);
                        assert(columns * (y as int) >= columns * height) by (nonlinear_arith)
                            requires
                                y >= height,
                                columns > 0,
                        ;
                    }
                }
            }
        }
        proof {
            assert(pixels@ =~= after.pixels);
        }
        Canvas { width, height, pixels }
    }

    /// The canvas with the pixels of row `y` from column `from` to column
    /// `to`, both included, set to `color`. What lies outside the canvas is
    /// left out.
    pub fn with_row_span(self, y: usize, from: usize, to: usize, color: Color) -> (canvas: Canvas)
        ensures
            canvas@ == self@.painted(row_span(y as int, from as int, to as int), color),
    {
        proof {
            use_type_invariant(&self);
        }
        let ghost before = self@;
        let width = self.width();
        let mut canvas = self;
        let mut x = from;
        proof {
            lemma_painted_nothing(before, row_span(y as int, from as int, from - 1), color);
        }
        while x <= to && x < width
            invariant
                before.wf(),
                width == before.width,
                from <= x,
                x == from || x <= to + 1,
                canvas@ == before.painted(row_span(y as int, from as int, x - 1), color),
            decreases width - x,
        {
            canvas = canvas.with_pixel(x, y, color);
            proof {
                let done = row_span(y as int, from as int, x - 1);
                let next = point_region(x as int, y as int);
                lemma_painted_twice(before, done, next, color);
                lemma_painted_alike(
                    before,
                    either(done, next),
                    row_span(y as int, from as int, x as int),
                    color,
                );
            }
            x += 1;
        }
        proof {
            lemma_painted_alike(
                before,
                row_span(y as int, from as int, x - 1),
                row_span(y as int, from as int, to as int),
                color,
            );
        }
        canvas
    }

    /// The canvas with the pixels of column `x` from row `from` to row
    /// `to`, both included, set to `color`. What lies outside the canvas is
    /// left out.
    pub fn with_column_span(self, x: usize, from: usize, to: usize, color: Color) -> (canvas:
        Canvas)
        ensures
            canvas@ == self@.painted(column_span(x as int, from as int, to as int), color),
    {
        proof {
            use_type_invariant(&self);
        }
        let ghost before = self@;
        let height = self.height();
        let mut canvas = self;
        let mut y = from;
        proof {
            lemma_painted_nothing(before, column_span(x as int, from as int, from - 1), color);
        }
        while y <= to && y < height
            invariant
                before.wf(),
                height == before.height,
                from <= y,
                y == from || y <= to + 1,
                canvas@ == before.painted(column_span(x as int, from as int, y - 1), color),
            decreases height - y,
        {
            canvas = canvas.with_pixel(x, y, color);
            proof {
                let done = column_span(x as int, from as int, y - 1);
                let next = point_region(x as int, y as int);
                lemma_painted_twice(before, done, next, color);
                lemma_painted_alike(
                    before,
                    either(done, next),
                    column_span(x as int, from as int, y as int),
                    color,
                );
            }
            y += 1;
        }
        proof {
            lemma_painted_alike(
                before,
                column_span(x as int, from as int, y - 1),
                column_span(x as int, from as int, to as int),
                color,
            );
        }
        canvas
    }
}

} // verus!
