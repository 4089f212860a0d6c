//! The frame buffer a render fills and the order its pixels are dispatched.
//!
//! Each pixel of a `width x height` frame is an independent sampling task.
//! `pixel_tasks` lists every coordinate once, in the order the renderer hands
//! them to its worker pool, and `PixelBuffer` collects the finished 8-bit RGB
//! values row by row, ready for an external encoder.

use vstd::prelude::*;

verus! {

/// One 8-bit RGB pixel value.
#[derive(Clone, Copy, Debug, PartialEq, Eq, Structural)]
pub struct Rgb8 {
    pub r: u8,
    pub g: u8,
    pub b: u8,
}

/// A `width x height` grid of 8-bit RGB pixels, stored row by row as the raw
/// byte layout an external image encoder takes.
pub struct PixelBuffer {
    width: u32,
    height: u32,
    data: Vec<u8>,
}

impl PixelBuffer {
    /// The three bytes of pixel `(x, y)` sit at `3 * (y * width + x)`.
    pub closed spec fn wf(self) -> bool {
        self.data@.len() == 3 * ((self.width as int) * (self.height as int))
    }

    pub closed spec fn spec_width(self) -> u32 {
        self.width
    }

    pub closed spec fn spec_height(self) -> u32 {
        self.height
    }

    /// The pixel stored at column `x` of row `y`.
    pub closed spec fn pixel(self, x: int, y: int) -> Rgb8 {
        let base = 3 * (y * self.width + x);
        Rgb8 { r: self.data@[base], g: self.data@[base + 1], b: self.data@[base + 2] }
    }

    /// A fresh buffer of black pixels.
    pub fn new(width: u32, height: u32) -> (buf: PixelBuffer)
        requires
            3 * ((width as int) * (height as int)) <= usize::MAX,
        ensures
            buf.wf(),
            buf.spec_width() == width,
            buf.spec_height() == height,
            forall|x: int, y: int|
                0 <= x < width && 0 <= y < height ==> #[trigger] buf.pixel(x, y) == (Rgb8 {
                    r: 0,
                    g: 0,
                    b: 0,
                }),
    {
        let n: usize = 3 * ((width as usize) * (height as usize));
        let mut data: Vec<u8> = Vec::new();
        let mut i: usize = 0;
        while i < n
            invariant
                i <= n,
                data@.len() == i,
                forall|k: int| 0 <= k < i ==> data@[k] == 0u8,
            decreases n - i,
        {
            data.push(0u8);
            i = i + 1;
        }
        let buf = PixelBuffer { width, height, data };
        proof {
            assert forall|x: int, y: int| 0 <= x < width && 0 <= y < height implies #[trigger] buf
                .pixel(x, y) == (Rgb8 { r: 0, g: 0, b: 0 }) by {
                lemma_pixel_base_bounds(width, height, x, y);
            }
        }
        buf
    }

    pub fn width(&self) -> (w: u32)
        ensures
            w == self.spec_width(),
    {
        self.width
    }

    pub fn height(&self) -> (h: u32)
        ensures
            h == self.spec_height(),
    {
        self.height
    }

    /// Store one finished pixel; every other pixel keeps its value.
    pub fn set_pixel(&mut self, x: u32, y: u32, color: Rgb8)
        requires
            old(self).wf(),
            x < old(self).spec_width(),
            y < old(self).spec_height(),
        ensures
            final(self).wf(),
            final(self).spec_width() == old(self).spec_width(),
            final(self).spec_height() == old(self).spec_height(),
            final(self).pixel(x as int, y as int) == color,
            forall|i: int, j: int|
                0 <= i < old(self).spec_width() && 0 <= j < old(self).spec_height() && !(i == x
                    && j == y) ==> #[trigger] final(self).pixel(i, j) == old(self).pixel(i, j),
    {
        // binds the buffer length as a usize, so the byte offsets below are
        // known to fit
        let len = self.data.len();
        proof {
            lemma_pixel_base_bounds(self.width, self.height, x as int, y as int);
            assert(3 * ((self.width as int) * (self.height as int)) == len);
        }
        let base: usize = 3 * ((y as usize) * (self.width as usize) + (x as usize));
        self.data[base] = color.r;
        self.data[base + 1] = color.g;
        self.data[base + 2] = color.b;
        proof {
            assert forall|i: int, j: int|
                0 <= i < old(self).spec_width() && 0 <= j < old(self).spec_height() && !(i == x
                    && j == y) implies #[trigger] self.pixel(i, j) == old(self).pixel(i, j) by {
                lemma_pixel_base_bounds(self.width, self.height, i, j);
                lemma_pixel_bases_distinct(self.width, i, j, x as int, y as int);
            }
        }
    }

    /// Hand the raw bytes to an external encoder: row by row, three bytes per
    /// pixel, so byte `3 * (y * width + x) + c` is channel `c` of pixel
    /// `(x, y)`.
    pub fn into_raw(self) -> (bytes: Vec<u8>)
        requires
            self.wf(),
        ensures
            bytes@.len() == 3 * ((self.spec_width() as int) * (self.spec_height() as int)),
            forall|x: int, y: int|
                0 <= x < self.spec_width() && 0 <= y < self.spec_height() ==> {
                    let base = 3 * (y * self.spec_width() + x);
                    &&& bytes@[base] == (#[trigger] self.pixel(x, y)).r
                    &&& bytes@[base + 1] == self.pixel(x, y).g
                    &&& bytes@[base + 2] == self.pixel(x, y).b
                },
    {
        self.data
    }
}

/// The three bytes of a pixel in range lie inside the buffer.
proof fn lemma_pixel_base_bounds(width: u32, height: u32, x: int, y: int)
    requires
        0 <= x < width,
        0 <= y < height,
    ensures
        0 <= 3 * (y * width + x),
        3 * (y * width + x) + 3 <= 3 * ((width as int) * (height as int)),
{
    assert(0 <= y * width + x && y * width + x < width * height) by (nonlinear_arith)
        requires
            0 <= x < width,
            0 <= y < height,
    ;
}

/// Distinct coordinates use disjoint byte ranges.
proof fn lemma_pixel_bases_distinct(width: u32, x1: int, y1: int, x2: int, y2: int)
    requires
        0 <= x1 < width,
        0 <= x2 < width,
        0 <= y1,
        0 <= y2,
        !(x1 == x2 && y1 == y2),
    ensures
        y1 * width + x1 != y2 * width + x2,
{
    assert(y1 * width + x1 != y2 * width + x2) by (nonlinear_arith)
        requires
            0 <= x1 < width,
            0 <= x2 < width,
            0 <= y1,
            0 <= y2,
            !(x1 == x2 && y1 == y2),
    ;
}

/// Every pixel of a `width x height` frame, in dispatch order: row `0` first,
/// each row left to right, one task per pixel.
pub fn pixel_tasks(width: u32, height: u32) -> (tasks: Vec<(u32, u32)>)
    requires
        (width as int) * (height as int) <= usize::MAX,
    ensures
        tasks@.len() == (width as int) * (height as int),
        forall|k: int|
            0 <= k < tasks@.len() ==> (#[trigger] tasks@[k]).0 == k % (width as int)
                && tasks@[k].1 == k / (width as int),
        forall|k: int|
            0 <= k < tasks@.len() ==> (#[trigger] tasks@[k]).0 < width && tasks@[k].1 < height,
{
    let mut tasks: Vec<(u32, u32)> = Vec::new();
    let mut y: u32 = 0;
    while y < height
        invariant
            y <= height,
            tasks@.len() == (width as int) * (y as int),
            forall|k: int|
                0 <= k < tasks@.len() ==> (#[trigger] tasks@[k]).0 == k % (width as int)
                    && tasks@[k].1 == k / (width as int),
            forall|k: int|
                0 <= k < tasks@.len() ==> (#[trigger] tasks@[k]).0 < width && tasks@[k].1 < height,
        decreases height - y,
    {
        let mut x: u32 = 0;
        while x < width
            invariant
                x <= width,
                y < height,
                tasks@.len() == (width as int) * (y as int) + x,
                forall|k: int|
                    0 <= k < tasks@.len() ==> (#[trigger] tasks@[k]).0 == k % (width as int)
                        && tasks@[k].1 == k / (width as int),
                forall|k: int|
                    0 <= k < tasks@.len() ==> (#[trigger] tasks@[k]).0 < width && tasks@[k].1
                        < height,
            decreases width - x,
        {
            proof {
                lemma_task_index(width as int, height as int, x as int, y as int);
            }
            tasks.push((x, y));
            x = x + 1;
        }
        proof {
            assert((width as int) * ((y as int) + 1) == (width as int) * (y as int) + width)
                by (nonlinear_arith);
        }
        y = y + 1;
    }
    tasks
}

/// Task number `width * y + x` is the pixel `(x, y)`, and it fits the frame.
proof fn lemma_task_index(width: int, height: int, x: int, y: int)
    requires
        0 <= x < width,
        0 <= y < height,
    ensures
        (width * y + x) % width == x,
        (width * y + x) / width == y,
        width * y + x < width * height,
{
    assert((width * y + x) % width == x && (width * y + x) / width == y) by (nonlinear_arith)
        requires
            0 <= x < width,
            0 <= y,
    ;
    assert(width * y + x < width * height) by (nonlinear_arith)
        requires
            0 <= x < width,
            0 <= y < height,
    ;
}

} // verus!
