//! A canvas as a bitmap file: 24 bits a pixel, not compressed, the rows
//! from the bottom of the picture to its top.

use crate::render::canvas::{Canvas, CanvasView, Color};
use crate::render::text::append_str;
use vstd::prelude::*;
use vstd::string::StringSliceAdditionalSpecFns;

verus! {

/// The number of bytes before the first row of pixels: 14 of the file's
/// header and 40 of the picture's.
pub const BMP_HEADER_SIZE: u32 = 54;

/// The resolution written to the file, in pixels a metre.
pub const BMP_RESOLUTION: u32 = 2835;

/// The two bytes of `value`, the low byte first.
pub open spec fn u16_le(value: nat) -> Seq<u8> {
    seq![(value % 256) as u8, (value / 256 % 256) as u8]
}

/// The four bytes of `value`, the lowest byte first.
pub open spec fn u32_le(value: nat) -> Seq<u8> {
    seq![
        (value % 256) as u8,
        (value / 256 % 256) as u8,
        (value / 65536 % 256) as u8,
        (value / 16777216 % 256) as u8,
    ]
}

/// The number of bytes of a row of `width` pixels: three for each pixel,
/// and as many more as bring the row to a multiple of four.
pub open spec fn bmp_row_size(width: nat) -> nat {
    (3 * width + (4 - (3 * width) % 4) % 4) as nat
}

/// The header of the bitmap of a canvas of `width` by `height` pixels.
pub open spec fn bmp_header(width: nat, height: nat) -> Seq<u8> {
    let data = bmp_row_size(width) * height;
    "BM".spec_bytes() + u32_le((BMP_HEADER_SIZE + data) as nat) + u16_le(0) + u16_le(0) + u32_le(
        BMP_HEADER_SIZE as nat,
    ) + u32_le(40) + u32_le(width) + u32_le(height) + u16_le(1) + u16_le(24) + u32_le(0) + u32_le(
        data,
    ) + u32_le(BMP_RESOLUTION as nat) + u32_le(BMP_RESOLUTION as nat) + u32_le(0) + u32_le(0)
}

/// Byte `channel` of a pixel of `color`: blue is the first byte, green the
/// second, red the third.
pub open spec fn bmp_channel(color: Color, channel: int) -> u8 {
    if channel == 0 {
        color.blue
    } else if channel == 1 {
        color.green
    } else {
        color.red
    }
}

/// Row `y` of `canvas` as bytes: its pixels from the left, then zeros up
/// to the size of a row.
pub open spec fn bmp_row(canvas: CanvasView, y: int) -> Seq<u8> {
    Seq::new(
        bmp_row_size(canvas.width),
        |i: int|
            if i < 3 * canvas.width {
                bmp_channel(canvas.at(i / 3, y), i % 3)
            } else {
                0u8
            },
    )
}

/// The lowest `rows` rows of `canvas` as bytes, the bottom row first.
pub open spec fn bmp_rows(canvas: CanvasView, rows: nat) -> Seq<u8>
    decreases rows,
{
    if rows == 0 {
        Seq::empty()
    } else {
        bmp_rows(canvas, (rows - 1) as nat) + bmp_row(canvas, canvas.height - rows)
    }
}

/// The bitmap file of `canvas`: the header, then all rows from the bottom
/// row to the top row.
pub open spec fn bmp(canvas: CanvasView) -> Seq<u8> {
    bmp_header(canvas.width, canvas.height) + bmp_rows(canvas, canvas.height)
}

/// The lowest `rows` rows take `rows` times the size of a row.
proof fn lemma_bmp_rows_length(canvas: CanvasView, rows: nat)
    ensures
        bmp_rows(canvas, rows).len() == bmp_row_size(canvas.width) * rows,
    decreases rows,
{
    let size = bmp_row_size(canvas.width);
    if rows > 0 {
        lemma_bmp_rows_length(canvas, (rows - 1) as nat);
        assert(size * (rows - 1) + size == size * rows) by (nonlinear_arith);
    } else {
        assert(size * 0 == 0) by (nonlinear_arith);
    }
}

/// The length of the bitmap file of a canvas: the header and the rows. It
/// stays below 2^30 bytes whatever the canvas.
pub proof fn lemma_bmp_length(canvas: CanvasView)
    requires
        canvas.wf(),
    ensures
        bmp(canvas).len() == BMP_HEADER_SIZE + bmp_row_size(canvas.width) * canvas.height,
        bmp(canvas).len() <= 805_355_574,
{
    lemma_bmp_rows_length(canvas, canvas.height);
    let size = bmp_row_size(canvas.width) as int;
    let height = canvas.height as int;
    assert(size * height <= 49155 * 16384) by (nonlinear_arith)
        requires
            0 <= size <= 49155,
            0 <= height <= 16384,
    ;
    broadcast use vstd::string::is_ascii_spec_bytes;

    reveal_strlit("BM");
    assert("BM".spec_bytes().len() == 2) by {
        assert(vstd::string::is_ascii("BM"));
    }
}

/// Appends the two bytes of `value`, the low byte first.
fn append_u16_le(out: &mut Vec<u8>, value: u16)
    ensures
        final(out)@ == old(out)@ + u16_le(value as nat),
{
    out.push((value % 256) as u8);
    out.push((value / 256 % 256) as u8);
    proof {
        assert(out@ =~= old(out)@ + u16_le(value as nat));
    }
}

/// Appends the four bytes of `value`, the lowest byte first.
fn append_u32_le(out: &mut Vec<u8>, value: u32)
    ensures
        final(out)@ == old(out)@ + u32_le(value as nat),
{
    out.push((value % 256) as u8);
    out.push((value / 256 % 256) as u8);
    out.push((value / 65536 % 256) as u8);
    out.push((value / 16777216 % 256) as u8);
    proof {
        assert(out@ =~= old(out)@ + u32_le(value as nat));
    }
}

/// Appends row `y` of `canvas`.
fn append_row(out: &mut Vec<u8>, canvas: &Canvas, y: usize)
    requires
        y < canvas@.height,
    ensures
        final(out)@ == old(out)@ + bmp_row(canvas@, y as int),
{
    let width = canvas.width();
    let ghost row = bmp_row(canvas@, y as int);
    let mut x: usize = 0;
    while x < width
        invariant
            canvas@.wf(),
            width == canvas@.width,
            y < canvas@.height,
            x <= width,
            row == bmp_row(canvas@, y as int),
            out@ == old(out)@ + row.take(3 * x),
        decreases width - x,
    {
        match canvas.pixel(x, y) {
            Some(color) => {
                out.push(color.blue);
                out.push(color.green);
                out.push(color.red);
            },
            None => {},
        }
        proof {
            assert(out@ =~= old(out)@ + row.take(3 * (x + 1)));
        }
        x += 1;
    }
    let size = 3 * width + (4 - (3 * width) % 4) % 4;
    let mut filled = 3 * width;
    while filled < size
        invariant
            3 * width <= filled <= size,
            size == bmp_row_size(canvas@.width),
            width == canvas@.width,
            row == bmp_row(canvas@, y as int),
            out@ == old(out)@ + row.take(filled as int),
        decreases size - filled,
    {
        out.push(0);
        proof {
            assert(out@ =~= old(out)@ + row.take(filled + 1));
        }
        filled += 1;
    }
    proof {
        assert(row.take(filled as int) =~= row);
    }
}

/// The bitmap file of `canvas`.
pub fn encode_bmp(canvas: &Canvas) -> (bytes: Vec<u8>)
    ensures
        bytes@ == bmp(canvas@),
{
    let width = canvas.width();
    let height = canvas.height();
    let row_size = 3 * width + (4 - (3 * width) % 4) % 4;
    assert(row_size * height <= 49155 * 16384) by (nonlinear_arith)
        requires
            row_size <= 49155,
            height <= 16384,
    ;
    let data = (row_size * height) as u32;
    let mut bytes: Vec<u8> = Vec::new();
    append_str(&mut bytes, "BM");
    append_u32_le(&mut bytes, BMP_HEADER_SIZE + data);
    append_u16_le(&mut bytes, 0);
    append_u16_le(&mut bytes, 0);
    append_u32_le(&mut bytes, BMP_HEADER_SIZE);
    append_u32_le(&mut bytes, 40);
    append_u32_le(&mut bytes, width as u32);
    append_u32_le(&mut bytes, height as u32);
    append_u16_le(&mut bytes, 1);
    append_u16_le(&mut bytes, 24);
    append_u32_le(&mut bytes, 0);
    append_u32_le(&mut bytes, data);
    append_u32_le(&mut bytes, BMP_RESOLUTION);
    append_u32_le(&mut bytes, BMP_RESOLUTION);
    append_u32_le(&mut bytes, 0);
    append_u32_le(&mut bytes, 0);
    let ghost header = bytes@;
    proof {
        assert(header =~= bmp_header(canvas@.width, canvas@.height));
    }
    let mut rows: usize = 0;
    while rows < height
        invariant
            height == canvas@.height,
            rows <= height,
            bytes@ == header + bmp_rows(canvas@, rows as nat),
        decreases height - rows,
    {
        append_row(&mut bytes, canvas, height - 1 - rows);
        proof {
            assert(bytes@ =~= header + bmp_rows(canvas@, (rows + 1) as nat));
        }
        rows += 1;
    }
    bytes
}

} // verus!
