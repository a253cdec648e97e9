//! Text on a canvas: numbers as decimal text, and a font of 5 by 7 pixels.

use crate::level::Level;
use crate::render::canvas::{
    either, lemma_painted_alike, lemma_painted_nothing, lemma_painted_twice, point_region,
    Canvas, Color, Region,
};
use vstd::prelude::*;
use vstd::string::StringSliceAdditionalSpecFns;

verus! {

/// The width of a glyph in pixels.
pub const GLYPH_WIDTH: usize = 5;

/// The height of a glyph in pixels.
pub const GLYPH_HEIGHT: usize = 7;

/// The distance in pixels from the left edge of a glyph to that of the
/// next glyph of a text.
pub const GLYPH_ADVANCE: usize = 6;

/// The glyphs of the font: the digits, the letters from A to Z, the full
/// stop, the hyphen, the colon, and the blank. Bit `5 * row + column` of a
/// glyph says whether the pixel in that row, counted from the top, and
/// that column, counted from the left, belongs to it.
pub const GLYPHS: [u64; 40] = [
    0x3a33ae62e,
    0x3884210c4,
    0x7c444422e,
    0x3a304111f,
    0x211f4a988,
    0x3a3083c3f,
    0x3a317844c,
    0x08422221f,
    0x3a317462e,
    0x1910f462e,
    0x4631fc62e,
    0x3e317c62f,
    0x3a210862e,
    0x1d318c527,
    0x7c217843f,
    0x04217843f,
    0x7a31e862e,
    0x4631fc631,
    0x38842108e,
    0x19284211c,
    0x452519531,
    0x7c2108421,
    0x4631ad771,
    0x4639ace31,
    0x3a318c62e,
    0x04217c62f,
    0x59358c62e,
    0x45257c62f,
    0x3e107043e,
    0x10842109f,
    0x3a318c631,
    0x11518c631,
    0x2ab5ac631,
    0x462a22a31,
    0x108422a31,
    0x7c222221f,
    0x18c000000,
    0x0000f8000,
    0x00c6018c0,
    0x000000000,
];

/// The place in [`GLYPHS`] of the glyph for the ASCII character `byte`. A
/// small letter has the glyph of its capital, and a character that the
/// font lacks has that of the blank.
pub open spec fn glyph_index(byte: u8) -> int {
    if 48 <= byte <= 57 {
        byte - 48
    } else if 65 <= byte <= 90 {
        byte - 55
    } else if 97 <= byte <= 122 {
        byte - 87
    } else if byte == 46 {
        36
    } else if byte == 45 {
        37
    } else if byte == 58 {
        38
    } else {
        39
    }
}

/// Bit `cell` of the glyph for `byte`.
pub open spec fn glyph_cell(byte: u8, cell: u64) -> bool {
    (GLYPHS[glyph_index(byte)] >> cell) & 1 == 1
}

/// The pixel in column `column` of row `row` belongs to the glyph for
/// `byte`.
pub open spec fn glyph_bit(byte: u8, column: int, row: int) -> bool {
    0 <= column < GLYPH_WIDTH && 0 <= row < GLYPH_HEIGHT && glyph_cell(
        byte,
        (GLYPH_WIDTH * row + column) as u64,
    )
}

/// The pixels of the glyph for `byte` with its top left corner at
/// `(left, top)`.
pub open spec fn glyph_region(left: int, top: int, byte: u8) -> Region {
    |x: int, y: int| glyph_bit(byte, x - left, y - top)
}

/// The pixels of the glyph for `byte` among its first `cells` cells,
/// counted row by row.
pub open spec fn glyph_cells(left: int, top: int, byte: u8, cells: int) -> Region {
    |x: int, y: int|
        glyph_bit(byte, x - left, y - top) && GLYPH_WIDTH * (y - top) + (x - left) < cells
}

/// `(x, y)` is a pixel of character `i` of `text`, where the text starts
/// with its top left corner at `(left, top)`.
pub open spec fn on_glyph(text: Seq<u8>, left: int, top: int, i: int, x: int, y: int) -> bool {
    glyph_bit(text[i], x - (left + GLYPH_ADVANCE * i), y - top)
}

/// The pixels of the first `n` characters of `text`.
pub open spec fn text_prefix(text: Seq<u8>, left: int, top: int, n: int) -> Region {
    |x: int, y: int| exists|i: int| 0 <= i < n && #[trigger] on_glyph(text, left, top, i, x, y)
}

/// The pixels of `text` written in one line with its top left corner at
/// `(left, top)`.
pub open spec fn text_region(text: Seq<u8>, left: int, top: int) -> Region {
    text_prefix(text, left, top, text.len() as int)
}

/// `n` in decimal digits, without leading zeros.
pub open spec fn decimal_text(n: nat) -> Seq<u8>
    decreases n,
{
    if n < 10 {
        seq![(48 + n) as u8]
    } else {
        decimal_text(n / 10).push((48 + n % 10) as u8)
    }
}

/// A number given in thousandths, with two decimal places. The number is
/// rounded to the nearest hundredth, and away from zero where it lies
/// halfway between two. A negative number keeps its sign even where it
/// rounds to zero.
pub open spec fn fixed_text(thousandths: int) -> Seq<u8> {
    let magnitude = if thousandths < 0 {
        -thousandths
    } else {
        thousandths
    };
    let hundredths = (magnitude + 5) / 10;
    let sign = if thousandths < 0 {
        "-".spec_bytes()
    } else {
        Seq::<u8>::empty()
    };
    sign + decimal_text((hundredths / 100) as nat) + ".".spec_bytes() + seq![
        (48 + hundredths / 10 % 10) as u8,
        (48 + hundredths % 10) as u8,
    ]
}

/// A level in decibels with two decimal places, or the name of the
/// infinity that it is.
pub open spec fn level_text(level: Level) -> Seq<u8> {
    match level {
        Level::NegInfinity => "-inf".spec_bytes(),
        Level::Finite(v) => fixed_text(v as int),
        Level::PosInfinity => "inf".spec_bytes(),
    }
}

/// Appends the bytes of `text`.
pub fn append_str(out: &mut Vec<u8>, text: &str)
    ensures
        final(out)@ == old(out)@ + text.spec_bytes(),
{
    let bytes = text.as_bytes();
    let mut i: usize = 0;
    while i < bytes.len()
        invariant
            i <= bytes.len(),
            bytes@ == text.spec_bytes(),
            out@ == old(out)@ + bytes@.take(i as int),
        decreases bytes.len() - i,
    {
        out.push(bytes[i]);
        proof {
            assert(bytes@.take(i + 1) =~= bytes@.take(i as int).push(bytes@[i as int]));
        }
        i += 1;
    }
    proof {
        assert(bytes@.take(i as int) =~= bytes@);
    }
}

/// Appends `n` in decimal digits.
pub fn append_decimal(out: &mut Vec<u8>, n: u64)
    ensures
        final(out)@ == old(out)@ + decimal_text(n as nat),
    decreases n,
{
    if n >= 10 {
        append_decimal(out, n / 10);
    }
    out.push(48 + (n % 10) as u8);
    proof {
        assert(out@ =~= old(out)@ + decimal_text(n as nat));
    }
}

/// Appends a number of the given magnitude in thousandths, with two
/// decimal places, and with a minus sign before it if `negative`.
fn append_magnitude(out: &mut Vec<u8>, negative: bool, magnitude: u64)
    requires
        negative ==> magnitude > 0,
    ensures
        final(out)@ == old(out)@ + fixed_text(
            if negative {
                -(magnitude as int)
            } else {
                magnitude as int
            },
        ),
{
    let hundredths = magnitude / 10 + if magnitude % 10 >= 5 {
        1
    } else {
        0
    };
    if negative {
        append_str(out, "-");
    }
    append_decimal(out, hundredths / 100);
    append_str(out, ".");
    out.push(48 + (hundredths / 10 % 10) as u8);
    out.push(48 + (hundredths % 10) as u8);
    proof {
        let value = if negative {
            -(magnitude as int)
        } else {
            magnitude as int
        };
        assert(out@ =~= old(out)@ + fixed_text(value));
    }
}

/// Appends a number given in thousandths, with two decimal places.
pub fn append_fixed(out: &mut Vec<u8>, thousandths: i64)
    ensures
        final(out)@ == old(out)@ + fixed_text(thousandths as int),
{
    if thousandths < 0 {
        let magnitude = (-(thousandths as i128)) as u64;
        append_magnitude(out, true, magnitude);
    } else {
        append_magnitude(out, false, thousandths as u64);
    }
}

/// Appends a number that is not negative, given in thousandths, with two
/// decimal places.
pub fn append_unsigned_fixed(out: &mut Vec<u8>, thousandths: u64)
    ensures
        final(out)@ == old(out)@ + fixed_text(thousandths as int),
{
    append_magnitude(out, false, thousandths);
}

/// Appends a level in decibels with two decimal places, or the name of the
/// infinity that it is.
pub fn append_level(out: &mut Vec<u8>, level: &Level)
    ensures
        final(out)@ == old(out)@ + level_text(*level),
{
    match *level {
        Level::NegInfinity => append_str(out, "-inf"),
        Level::Finite(v) => append_fixed(out, v),
        Level::PosInfinity => append_str(out, "inf"),
    }
}

/// The glyph for the ASCII character `byte`.
fn glyph_of(byte: u8) -> (glyph: u64)
    ensures
        glyph == GLYPHS[glyph_index(byte)],
{
    let index: usize = if 48 <= byte && byte <= 57 {
        (byte - 48) as usize
    } else if 65 <= byte && byte <= 90 {
        (byte - 55) as usize
    } else if 97 <= byte && byte <= 122 {
        (byte - 87) as usize
    } else if byte == 46 {
        36
    } else if byte == 45 {
        37
    } else if byte == 58 {
        38
    } else {
        39
    };
    GLYPHS[index]
}

/// The canvas with the glyph for `byte` drawn in `color`, its top left
/// corner at column `left` of row `top`. What lies outside the canvas is
/// left out.
pub fn draw_glyph(canvas: Canvas, left: usize, top: usize, byte: u8, color: Color) -> (drawn:
    Canvas)
    ensures
        drawn@ == canvas@.painted(glyph_region(left as int, top as int, byte), color),
{
    let ghost before = canvas@;
    let width = canvas.width();
    let height = canvas.height();
    let glyph = glyph_of(byte);
    let mut drawn = canvas;
    let mut cell: u64 = 0;
    proof {
        lemma_painted_nothing(before, glyph_cells(left as int, top as int, byte, 0), color);
    }
    while cell < 35
        invariant
            before.wf(),
            width == before.width,
            height == before.height,
            glyph == GLYPHS[glyph_index(byte)],
            cell <= 35,
            drawn@ == before.painted(
                glyph_cells(left as int, top as int, byte, cell as int),
                color,
            ),
        decreases 35 - cell,
    {
        let column = (cell % 5) as usize;
        let row = (cell / 5) as usize;
        let ghost done = glyph_cells(left as int, top as int, byte, cell as int);
        let ghost next = glyph_cells(left as int, top as int, byte, cell + 1);
        if (glyph >> cell) & 1 == 1 && left < width && top < height {
            drawn = drawn.with_pixel(left + column, top + row, color);
            proof {
                let dot = point_region(left + column, top + row);
                lemma_painted_twice(before, done, dot, color);
                assert forall|x: int, y: int| before.holds(x, y) implies #[trigger] either(
                    done,
                    dot,
                )(x, y) == next(x, y) by {
                    assert(glyph_cell(byte, cell));
                    if dot(x, y) {
                        assert(5 * (y - top) + (x - left) == cell);
                    }
                }
                lemma_painted_alike(before, either(done, dot), next, color);
            }
        } else {
            proof {
                assert forall|x: int, y: int| before.holds(x, y) implies #[trigger] done(x, y)
                    == next(x, y) by {
                    if next(x, y) && !done(x, y) {
                        assert(5 * (y - top) + (x - left) == cell);
                        assert(glyph_cell(byte, cell));
                    }
                }
                lemma_painted_alike(before, done, next, color);
            }
        }
        cell += 1;
    }
    proof {
        assert forall|x: int, y: int| before.holds(x, y) implies #[trigger] glyph_cells(
            left as int,
            top as int,
            byte,
            35,
        )(x, y) == glyph_region(left as int, top as int, byte)(x, y) by {}
        lemma_painted_alike(
            before,
            glyph_cells(left as int, top as int, byte, 35),
            glyph_region(left as int, top as int, byte),
            color,
        );
    }
    drawn
}

/// The canvas with `text` written in one line in `color`, the top left
/// corner of its first character at column `left` of row `top`. What lies
/// outside the canvas is left out.
pub fn draw_text(canvas: Canvas, left: usize, top: usize, text: &Vec<u8>, color: Color) -> (drawn:
    Canvas)
    ensures
        drawn@ == canvas@.painted(text_region(text@, left as int, top as int), color),
{
    let ghost before = canvas@;
    let width = canvas.width();
    let mut drawn = canvas;
    let mut i: usize = 0;
    let mut at = left;
    proof {
        lemma_painted_nothing(before, text_prefix(text@, left as int, top as int, 0), color);
    }
    while i < text.len() && at < width
        invariant
            before.wf(),
            width == before.width,
            i <= text.len(),
            at == left + GLYPH_ADVANCE * i,
            drawn@ == before.painted(text_prefix(text@, left as int, top as int, i as int), color),
        decreases text.len() - i,
    {
        drawn = draw_glyph(drawn, at, top, text[i], color);
        proof {
            let done = text_prefix(text@, left as int, top as int, i as int);
            let glyph = glyph_region(at as int, top as int, text@[i as int]);
            let next = text_prefix(text@, left as int, top as int, i + 1);
            lemma_painted_twice(before, done, glyph, color);
            assert forall|x: int, y: int| before.holds(x, y) implies #[trigger] either(
                done,
                glyph,
            )(x, y) == next(x, y) by {
                assert(on_glyph(text@, left as int, top as int, i as int, x, y) == glyph(x, y));
                if next(x, y) {
                    let j = choose|j: int|
                        0 <= j < i + 1 && #[trigger] on_glyph(
                            text@,
                            left as int,
                            top as int,
                            j,
                            x,
                            y,
                        );
                    if j < i {
                        assert(done(x, y));
                    }
                }
                if done(x, y) {
                    let j = choose|j: int|
                        0 <= j < i && #[trigger] on_glyph(text@, left as int, top as int, j, x, y);
                    assert(on_glyph(text@, left as int, top as int, j, x, y));
                }
            }
            lemma_painted_alike(before, either(done, glyph), next, color);
        }
        i += 1;
        at += GLYPH_ADVANCE;
    }
    proof {
        let done = text_prefix(text@, left as int, top as int, i as int);
        let whole = text_region(text@, left as int, top as int);
        assert forall|x: int, y: int| before.holds(x, y) implies #[trigger] done(x, y) == whole(
            x,
            y,
        ) by {
            if whole(x, y) {
                let j = choose|j: int|
                    0 <= j < text.len() && #[trigger] on_glyph(
                        text@,
                        left as int,
                        top as int,
                        j,
                        x,
                        y,
                    );
                if j >= i {
                    assert(x - (left + GLYPH_ADVANCE * j) >= 0);
                    assert(false);
                }
                assert(done(x, y));
            }
            if done(x, y) {
                let j = choose|j: int|
                    0 <= j < i && #[trigger] on_glyph(text@, left as int, top as int, j, x, y);
                assert(on_glyph(text@, left as int, top as int, j, x, y));
            }
        }
        lemma_painted_alike(before, done, whole, color);
    }
    drawn
}

} // verus!
