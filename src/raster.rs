//! Assembly of the tone-mapped 8-bit raster handed to the image encoder.
//!
//! The renderer produces pixels bottom row first; the image is stored top
//! row first, so rows are flipped on the way in.
use image::{ImageBuffer, Rgb};
use vstd::prelude::*;

verus! {

/// An 8-bit RGB image held in memory by the `image` crate.
#[verifier::external_body]
pub struct Canvas {
    img: ImageBuffer<Rgb<u8>, Vec<u8>>,
}

/// The pixels of a canvas, row-major with the top row first.
pub uninterp spec fn canvas_pixels(c: Canvas) -> Seq<(u8, u8, u8)>;

/// The width of a canvas, in pixels.
pub uninterp spec fn canvas_width(c: Canvas) -> nat;

/// Index of the pixel at `(col, row)` in a row-major grid of `width` columns.
pub open spec fn cell(width: int, col: int, row: int) -> int {
    row * width + col
}

/// Relies on `ImageBuffer::new`: a `width` by `height` image whose subpixels
/// are all zero. It panics where `3 * width`, or that times `height`,
/// overflows `usize`.
#[verifier::external_body]
fn new_canvas(width: u32, height: u32) -> (r: Canvas)
    requires
        3 * (width as int) <= usize::MAX,
        3 * (width as int) * (height as int) <= usize::MAX,
    ensures
        canvas_width(r) == width,
        canvas_pixels(r) == Seq::new(width as nat * height as nat, |i: int| (0u8, 0u8, 0u8)),
{
    Canvas { img: ImageBuffer::new(width, height) }
}

/// Relies on `ImageBuffer::put_pixel`: sets the pixel at `(x, y)` and leaves
/// the others. It panics outside the grid.
#[verifier::external_body]
fn put_pixel(c: &mut Canvas, x: u32, y: u32, px: (u8, u8, u8))
    requires
        x < canvas_width(*old(c)),
        cell(canvas_width(*old(c)) as int, x as int, y as int) < canvas_pixels(*old(c)).len(),
    ensures
        canvas_width(*final(c)) == canvas_width(*old(c)),
        canvas_pixels(*final(c)) == canvas_pixels(*old(c)).update(
            cell(canvas_width(*old(c)) as int, x as int, y as int),
            px,
        ),
{
    c.img.put_pixel(x, y, Rgb([px.0, px.1, px.2]))
}

/// Relies on `ImageBuffer::into_raw`: the subpixels, three per pixel, in the
/// order of the pixels.
#[verifier::external_body]
fn into_raw(c: Canvas) -> (r: Vec<u8>)
    ensures
        r@.len() == 3 * canvas_pixels(c).len(),
        forall|i: int|
            0 <= i < canvas_pixels(c).len() ==> {
                &&& r@[3 * i] == (#[trigger] canvas_pixels(c)[i]).0
                &&& r@[3 * i + 1] == canvas_pixels(c)[i].1
                &&& r@[3 * i + 2] == canvas_pixels(c)[i].2
            },
{
    c.img.into_raw()
}

proof fn lemma_cell_bounds(width: int, height: int, col: int, row: int)
    requires
        0 <= col < width,
        0 <= row < height,
    ensures
        0 <= cell(width, col, row) < width * height,
{
    assert(0 <= row * width) by (nonlinear_arith)
        requires
            0 <= row,
            0 <= width,
    ;
    assert(row * width + col < width * height) by (nonlinear_arith)
        requires
            0 <= col < width,
            0 <= row < height,
    ;
}

proof fn lemma_cell_unique(width: int, col1: int, row1: int, col2: int, row2: int)
    requires
        0 <= col1 < width,
        0 <= col2 < width,
        0 <= row1,
        0 <= row2,
        cell(width, col1, row1) == cell(width, col2, row2),
    ensures
        col1 == col2,
        row1 == row2,
{
    assert(row1 == row2) by (nonlinear_arith)
        requires
            0 <= col1 < width,
            0 <= col2 < width,
            0 <= row1,
            0 <= row2,
            row1 * width + col1 == row2 * width + col2,
    ;
}

impl Canvas {
    /// Builds a `width` by `height` image from `pixels`, which the renderer
    /// lists row by row from the bottom row up: the pixel at `(x, y)` of
    /// `pixels` lands in column `x`, row `height - 1 - y` counted from the top.
    pub fn assemble(width: u32, height: u32, pixels: &Vec<(u8, u8, u8)>) -> (r: Canvas)
        requires
            pixels@.len() == width as int * height as int,
            3 * (width as int) <= usize::MAX,
            3 * (width as int) * (height as int) <= usize::MAX,
        ensures
            canvas_width(r) == width,
            canvas_pixels(r).len() == width as int * height as int,
            forall|x: int, y: int|
                0 <= x < width && 0 <= y < height ==> canvas_pixels(r)[cell(
                    width as int,
                    x,
                    height - 1 - y,
                )] == #[trigger] pixels@[cell(width as int, x, y)],
    {
        let mut canvas = new_canvas(width, height);
        let ghost w = width as int;
        let ghost h = height as int;
        assert(w * h <= usize::MAX) by (nonlinear_arith)
            requires
                3 * w * h <= usize::MAX,
                0 <= w,
                0 <= h,
        ;
        let mut y: u32 = 0;
        while y < height
            invariant
                0 <= y <= height,
                w == width,
                h == height,
                w * h <= usize::MAX,
                pixels@.len() == w * h,
                canvas_width(canvas) == width,
                canvas_pixels(canvas).len() == w * h,
                forall|xx: int, yy: int|
                    0 <= xx < w && 0 <= yy < y ==> canvas_pixels(canvas)[cell(w, xx, h - 1 - yy)]
                        == #[trigger] pixels@[cell(w, xx, yy)],
            decreases height - y,
        {
            let mut x: u32 = 0;
            while x < width
                invariant
                    0 <= x <= width,
                    0 <= y < height,
                    w == width,
                    h == height,
                    w * h <= usize::MAX,
                    pixels@.len() == w * h,
                    canvas_width(canvas) == width,
                    canvas_pixels(canvas).len() == w * h,
                    forall|xx: int, yy: int|
                        0 <= xx < w && 0 <= yy < y ==> canvas_pixels(canvas)[cell(
                            w,
                            xx,
                            h - 1 - yy,
                        )] == #[trigger] pixels@[cell(w, xx, yy)],
                    forall|xx: int|
                        0 <= xx < x ==> canvas_pixels(canvas)[cell(w, xx, h - 1 - y)]
                            == #[trigger] pixels@[cell(w, xx, y as int)],
                decreases width - x,
            {
                proof {
                    lemma_cell_bounds(w, h, x as int, y as int);
                    lemma_cell_bounds(w, h, x as int, h - 1 - y);
                }
                let idx: usize = (y as usize) * (width as usize) + (x as usize);
                let row: u32 = height - 1 - y;
                let ghost before = canvas_pixels(canvas);
                put_pixel(&mut canvas, x, row, pixels[idx]);
                proof {
                    assert forall|xx: int, yy: int|
                        0 <= xx < w && 0 <= yy < y implies canvas_pixels(canvas)[cell(
                            w,
                            xx,
                            h - 1 - yy,
                        )] == #[trigger] pixels@[cell(w, xx, yy)] by {
                        lemma_cell_bounds(w, h, xx, h - 1 - yy);
                        if cell(w, xx, h - 1 - yy) == cell(w, x as int, row as int) {
                            lemma_cell_unique(w, xx, h - 1 - yy, x as int, row as int);
                        }
                    }
                    assert forall|xx: int|
                        0 <= xx <= x implies canvas_pixels(canvas)[cell(w, xx, h - 1 - y)]
                            == #[trigger] pixels@[cell(w, xx, y as int)] by {
                        lemma_cell_bounds(w, h, xx, h - 1 - y);
                        if xx < x && cell(w, xx, h - 1 - y) == cell(w, x as int, row as int) {
                            lemma_cell_unique(w, xx, h - 1 - y, x as int, row as int);
                        }
                    }
                }
                x = x + 1;
            }
            y = y + 1;
        }
        canvas
    }

    /// The image's subpixels, row-major from the top row, three per pixel
    /// (red, green, blue): the layout an image encoder takes.
    pub fn into_rgb_bytes(self) -> (r: Vec<u8>)
        ensures
            r@.len() == 3 * canvas_pixels(self).len(),
            forall|i: int|
                0 <= i < canvas_pixels(self).len() ==> {
                    &&& r@[3 * i] == (#[trigger] canvas_pixels(self)[i]).0
                    &&& r@[3 * i + 1] == canvas_pixels(self)[i].1
                    &&& r@[3 * i + 2] == canvas_pixels(self)[i].2
                },
    {
        into_raw(self)
    }
}

} // verus!
