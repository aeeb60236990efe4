//! Plain-value representation of a decoded RGB image.

use vstd::prelude::*;

verus! {

/// An RGB image held as plain bytes: row-major, three bytes per pixel
/// (red, green, blue), no padding between rows.
pub struct RgbFrame {
    pub width: u32,
    pub height: u32,
    pub pixels: Vec<u8>,
}

impl RgbFrame {
    /// The buffer holds exactly three bytes for every pixel.
    pub open spec fn wf(&self) -> bool {
        self.pixels@.len() == 3 * (self.width as int) * (self.height as int)
    }

    /// Channel `c` (0 = red, 1 = green, 2 = blue) of the pixel at column `x`, row `y`.
    pub open spec fn px(&self, x: int, y: int, c: int) -> u8 {
        self.pixels@[3 * (y * (self.width as int) + x) + c]
    }

    /// Build a frame where every pixel has the same color.
    pub fn new_filled(width: u32, height: u32, r: u8, g: u8, b: u8) -> (f: RgbFrame)
        requires
            3 * (width as int) * (height as int) <= usize::MAX,
        ensures
            f.wf(),
            f.width == width,
            f.height == height,
            forall|x: int, y: int|
                0 <= x < width && 0 <= y < height ==> f.px(x, y, 0) == r && f.px(x, y, 1) == g
                    && f.px(x, y, 2) == b,
    {
        proof {
            lemma_triple_area(width as int, height as int);
        }
        let npx: usize = (width as usize) * (height as usize);
        let mut pixels: Vec<u8> = Vec::new();
        let mut i: usize = 0;
        while i < npx
            invariant
                i <= npx,
                npx == (width as int) * (height as int),
                3 * npx <= usize::MAX,
                pixels@.len() == 3 * i,
                forall|j: int|
                    0 <= j < pixels@.len() ==> #[trigger] pixels@[j] == (if j % 3 == 0 {
                        r
                    } else if j % 3 == 1 {
                        g
                    } else {
                        b
                    }),
            decreases npx - i,
        {
            pixels.push(r);
            pixels.push(g);
            pixels.push(b);
            i = i + 1;
        }
        let f = RgbFrame { width, height, pixels };
        proof {
            assert forall|x: int, y: int| 0 <= x < width && 0 <= y < height implies f.px(x, y, 0)
                == r && f.px(x, y, 1) == g && f.px(x, y, 2) == b by {
                lemma_flat_index(width as int, height as int, x, y);
                let t = y * (width as int) + x;
                assert((3 * t) % 3 == 0 && (3 * t + 1) % 3 == 1 && (3 * t + 2) % 3 == 2)
                    by (nonlinear_arith)
                    requires
                        0 <= t,
                ;
            }
        }
        f
    }

    /// Read one channel of one pixel.
    pub fn get_px(&self, x: u32, y: u32, c: u32) -> (v: u8)
        requires
            self.wf(),
            x < self.width,
            y < self.height,
            c < 3,
        ensures
            v == self.px(x as int, y as int, c as int),
    {
        let n: usize = self.pixels.len();
        proof {
            lemma_flat_index(self.width as int, self.height as int, x as int, y as int);
            lemma_triple_area(self.width as int, self.height as int);
        }
        let idx: usize = 3 * ((y as usize) * (self.width as usize) + (x as usize)) + (c as usize);
        self.pixels[idx]
    }
}

/// A nonnegative area stays below three times itself.
pub proof fn lemma_triple_area(w: int, h: int)
    requires
        0 <= w,
        0 <= h,
    ensures
        0 <= w * h <= 3 * w * h,
        3 * (w * h) == 3 * w * h,
{
    assert(0 <= w * h && w * h <= 3 * w * h && 3 * (w * h) == 3 * w * h) by (nonlinear_arith)
        requires
            0 <= w,
            0 <= h,
    ;
}

/// A pixel's flat row-major index stays below the pixel count.
pub proof fn lemma_flat_index(w: int, h: int, x: int, y: int)
    requires
        0 <= x < w,
        0 <= y < h,
    ensures
        0 <= y * w + x,
        y * w + x < w * h,
{
    assert(y * w + x < w * h) by (nonlinear_arith)
        requires
            0 <= x < w,
            0 <= y < h,
    ;
    assert(0 <= y * w + x) by (nonlinear_arith)
        requires
            0 <= x < w,
            0 <= y,
    ;
}

} // verus!
