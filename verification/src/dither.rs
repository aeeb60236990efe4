//! Floyd-Steinberg error-diffusion quantization to the panel's 7-color
//! palette, producing the packed two-pixels-per-byte buffer the panel takes.

use vstd::prelude::*;
use crate::frame::RgbFrame;
use crate::display::Color;

verus! {

/// Red component of palette entry `i`.
pub open spec fn palette_r(i: int) -> int {
    if i == 0 {
        0
    } else if i == 5 {
        0
    } else if i == 6 {
        0
    } else {
        255
    }
}

/// Green component of palette entry `i`.
pub open spec fn palette_g(i: int) -> int {
    if i == 1 {
        255
    } else if i == 2 {
        255
    } else if i == 4 {
        128
    } else if i == 6 {
        255
    } else {
        0
    }
}

/// Blue component of palette entry `i`.
pub open spec fn palette_b(i: int) -> int {
    if i == 1 {
        255
    } else if i == 5 {
        255
    } else {
        0
    }
}

/// The RGB triple that defines palette entry `i`.
pub fn palette_rgb(i: usize) -> (t: (i16, i16, i16))
    requires
        i < 7,
    ensures
        t.0 == palette_r(i as int),
        t.1 == palette_g(i as int),
        t.2 == palette_b(i as int),
{
    match i {
        0 => (0, 0, 0),  // black
        1 => (255, 255, 255),  // white
        2 => (255, 255, 0),  // yellow
        3 => (255, 0, 0),  // red
        4 => (255, 128, 0),  // orange
        5 => (0, 0, 255),  // blue
        _ => (0, 255, 0),  // green
    }
}

/// Squared Euclidean distance from `(r, g, b)` to palette entry `i`.
pub open spec fn palette_dist2(i: int, r: int, g: int, b: int) -> int {
    (r - palette_r(i)) * (r - palette_r(i)) + (g - palette_g(i)) * (g - palette_g(i)) + (b
        - palette_b(i)) * (b - palette_b(i))
}

/// Among palette entries `0 .. n`, the first one at minimal squared distance
/// from `(r, g, b)`.
pub open spec fn nearest_color_upto(n: int, r: int, g: int, b: int) -> int
    decreases n,
{
    if n <= 1 {
        0
    } else {
        let prev = nearest_color_upto(n - 1, r, g, b);
        if palette_dist2(n - 1, r, g, b) < palette_dist2(prev, r, g, b) {
            n - 1
        } else {
            prev
        }
    }
}

/// The palette entry nearest to `(r, g, b)`: minimal squared Euclidean
/// distance, ties resolved in favor of the first palette entry.
pub open spec fn nearest_color(r: int, g: int, b: int) -> int {
    nearest_color_upto(7, r, g, b)
}

/// The nearest palette entry is at a minimal distance, and on a tie it is the
/// first palette entry at that distance.
pub proof fn lemma_nearest_color_minimal(r: int, g: int, b: int)
    ensures
        0 <= nearest_color(r, g, b) < 7,
        forall|j: int|
            0 <= j < 7 ==> palette_dist2(nearest_color(r, g, b), r, g, b) <= #[trigger] palette_dist2(
                j,
                r,
                g,
                b,
            ),
        forall|j: int|
            0 <= j < nearest_color(r, g, b) ==> palette_dist2(nearest_color(r, g, b), r, g, b)
                < #[trigger] palette_dist2(j, r, g, b),
{
    lemma_nearest_color_upto_minimal(7, r, g, b);
}

proof fn lemma_nearest_color_upto_minimal(n: int, r: int, g: int, b: int)
    requires
        1 <= n,
    ensures
        0 <= nearest_color_upto(n, r, g, b) < n,
        forall|j: int|
            0 <= j < n ==> palette_dist2(nearest_color_upto(n, r, g, b), r, g, b)
                <= #[trigger] palette_dist2(j, r, g, b),
        forall|j: int|
            0 <= j < nearest_color_upto(n, r, g, b) ==> palette_dist2(
                nearest_color_upto(n, r, g, b),
                r,
                g,
                b,
            ) < #[trigger] palette_dist2(j, r, g, b),
    decreases n,
{
    if n > 1 {
        lemma_nearest_color_upto_minimal(n - 1, r, g, b);
    }
}

/// Squared distance from `(r, g, b)` to palette entry `i`, as a machine value.
fn dist2(i: usize, r: i16, g: i16, b: i16) -> (d: i64)
    requires
        i < 7,
    ensures
        d == palette_dist2(i as int, r as int, g as int, b as int),
{
    let (pr, pg, pb) = palette_rgb(i);
    let dr: i64 = (r as i64) - (pr as i64);
    let dg: i64 = (g as i64) - (pg as i64);
    let db: i64 = (b as i64) - (pb as i64);
    proof {
        assert(0 <= dr * dr <= 0x7fff_ffff) by (nonlinear_arith)
            requires
                -33023 <= dr <= 33023,
        ;
        assert(0 <= dg * dg <= 0x7fff_ffff) by (nonlinear_arith)
            requires
                -33023 <= dg <= 33023,
        ;
        assert(0 <= db * db <= 0x7fff_ffff) by (nonlinear_arith)
            requires
                -33023 <= db <= 33023,
        ;
    }
    dr * dr + dg * dg + db * db
}

/// Find the nearest palette color by minimal squared Euclidean distance in
/// RGB space; ties resolve to the first palette entry.
pub fn find_nearest_color(r: i16, g: i16, b: i16) -> (idx: usize)
    ensures
        idx == nearest_color(r as int, g as int, b as int),
        idx < 7,
{
    let mut best: usize = 0;
    let mut best_d: i64 = dist2(0, r, g, b);
    let mut i: usize = 1;
    while i < 7
        invariant
            1 <= i <= 7,
            best == nearest_color_upto(i as int, r as int, g as int, b as int),
            best < i,
            best_d == palette_dist2(best as int, r as int, g as int, b as int),
        decreases 7 - i,
    {
        let d = dist2(i, r, g, b);
        if d < best_d {
            best = i;
            best_d = d;
        }
        i = i + 1;
    }
    best
}

/// Size in bytes of the packed output for a `width` x `height` image:
/// two pixels per byte, rounded down.
pub open spec fn spec_buffer_size(width: int, height: int) -> int {
    (width * height) / 2
}

/// Calculate the packed buffer size for the given dimensions (2 pixels per byte).
pub fn calculate_buffer_size(width: u32, height: u32) -> (n: usize)
    requires
        (width as int) * (height as int) <= usize::MAX,
    ensures
        n == spec_buffer_size(width as int, height as int),
{
    ((width as usize) * (height as usize)) / 2
}

/// Clamp a diffused channel value back into the 0..=255 byte domain.
pub open spec fn clamp_255(v: int) -> int {
    if v < 0 {
        0
    } else if v > 255 {
        255
    } else {
        v
    }
}

/// The share of an error term handed to one neighbor: `err * num / 16`,
/// dividing toward zero.
pub open spec fn diffused(err: int, num: int) -> int {
    if err >= 0 {
        (err * num) / 16
    } else {
        -(((-err) * num) / 16)
    }
}

/// Componentwise sum of two channel triples.
pub open spec fn add3(a: (int, int, int), d: (int, int, int)) -> (int, int, int) {
    (a.0 + d.0, a.1 + d.1, a.2 + d.2)
}

/// Add `d` to the triple at index `i` of an error row, where that index
/// exists.
pub open spec fn bump(row: Seq<(int, int, int)>, i: int, d: (int, int, int)) -> Seq<
    (int, int, int),
> {
    if 0 <= i < row.len() {
        row.update(i, add3(row[i], d))
    } else {
        row
    }
}

/// An error row of width `w`, all zero.
pub open spec fn zero_row(w: int) -> Seq<(int, int, int)> {
    Seq::new(w as nat, |i: int| (0, 0, 0))
}

/// The RGB triple of the pixel at column `x`, row `y` of a row-major
/// three-bytes-per-pixel buffer of width `w`.
pub open spec fn px3(px: Seq<u8>, w: int, x: int, y: int) -> (int, int, int) {
    (
        px[3 * (y * w + x)] as int,
        px[3 * (y * w + x) + 1] as int,
        px[3 * (y * w + x) + 2] as int,
    )
}

/// The dithering state between pixels: the error row of the line being
/// scanned, the error row of the line below it, and the packed output
/// written so far. Only these two rows are ever held, whatever the image
/// height.
pub struct DitherState {
    pub curr: Seq<(int, int, int)>,
    pub next: Seq<(int, int, int)>,
    pub out: Seq<u8>,
}

/// One pixel of Floyd-Steinberg: clamp the accumulated value, pick the
/// nearest palette color, spread the quantization error to the right
/// neighbor (7/16), lower-left (3/16), lower (5/16) and lower-right (1/16)
/// where those neighbors exist, and pack the chosen 4-bit index into the
/// output, first pixel of a pair in the high nibble.
#[verifier::opaque]
pub open spec fn dither_pixel(st: DitherState, px: Seq<u8>, w: int, h: int, x: int, y: int) -> DitherState {
    let r = clamp_255(st.curr[x].0);
    let g = clamp_255(st.curr[x].1);
    let b = clamp_255(st.curr[x].2);
    let ci = nearest_color(r, g, b);
    let er = r - palette_r(ci);
    let eg = g - palette_g(ci);
    let eb = b - palette_b(ci);
    let curr1 = if x + 1 < w {
        bump(st.curr, x + 1, (diffused(er, 7), diffused(eg, 7), diffused(eb, 7)))
    } else {
        st.curr
    };
    let next1 = if y + 1 < h && x > 0 {
        bump(st.next, x - 1, (diffused(er, 3), diffused(eg, 3), diffused(eb, 3)))
    } else {
        st.next
    };
    let next2 = if y + 1 < h {
        bump(next1, x, (diffused(er, 5), diffused(eg, 5), diffused(eb, 5)))
    } else {
        next1
    };
    let next3 = if y + 1 < h && x + 1 < w {
        bump(next2, x + 1, (diffused(er, 1), diffused(eg, 1), diffused(eb, 1)))
    } else {
        next2
    };
    let p = y * w + x;
    let bi = p / 2;
    let out1 = if !(0 <= bi < st.out.len()) {
        st.out
    } else if p % 2 == 0 {
        st.out.update(bi, (ci * 16) as u8)
    } else {
        st.out.update(bi, (st.out[bi] + ci) as u8)
    };
    DitherState { curr: curr1, next: next3, out: out1 }
}

/// The state after the first `x` columns of row `y`, starting from a state
/// whose current row already holds the pixel values plus carried error.
pub open spec fn dither_row_upto(
    st: DitherState,
    px: Seq<u8>,
    w: int,
    h: int,
    y: int,
    x: int,
) -> DitherState
    decreases x,
{
    if x <= 0 {
        st
    } else {
        dither_pixel(dither_row_upto(st, px, w, h, y, x - 1), px, w, h, x - 1, y)
    }
}

/// The current row with the pixel values of image row `y` added in.
pub open spec fn loaded_row(row: Seq<(int, int, int)>, px: Seq<u8>, w: int, y: int) -> Seq<
    (int, int, int),
> {
    Seq::new(row.len(), |x: int| add3(row[x], px3(px, w, x, y)))
}

/// One whole row: load the pixel values, scan every column, then move the
/// lower error row up and start a fresh zero row below.
pub open spec fn dither_row(st: DitherState, px: Seq<u8>, w: int, h: int, y: int) -> DitherState {
    let loaded = DitherState { curr: loaded_row(st.curr, px, w, y), next: st.next, out: st.out };
    let done = dither_row_upto(loaded, px, w, h, y, w);
    DitherState { curr: done.next, next: zero_row(w), out: done.out }
}

/// The starting state: two zero error rows and an all-zero packed buffer.
pub open spec fn dither_init(w: int, h: int) -> DitherState {
    DitherState {
        curr: zero_row(w),
        next: zero_row(w),
        out: Seq::new(spec_buffer_size(w, h) as nat, |i: int| 0u8),
    }
}

/// The state after the first `y` rows.
pub open spec fn dither_rows(px: Seq<u8>, w: int, h: int, y: int) -> DitherState
    decreases y,
{
    if y <= 0 {
        dither_init(w, h)
    } else {
        dither_row(dither_rows(px, w, h, y - 1), px, w, h, y - 1)
    }
}

/// The packed buffer that Floyd-Steinberg dithering produces for a
/// row-major RGB byte buffer of the given size.
pub open spec fn spec_dither(px: Seq<u8>, w: int, h: int) -> Seq<u8> {
    dither_rows(px, w, h, h).out
}

/// Dithering is a function of the pixel bytes and dimensions alone: equal
/// inputs give byte-identical outputs.
pub proof fn lemma_dither_deterministic(
    a: Seq<u8>,
    b: Seq<u8>,
    w: int,
    h: int,
)
    requires
        a == b,
    ensures
        spec_dither(a, w, h) == spec_dither(b, w, h),
{
}

/// The integer views of a machine error row.
pub open spec fn rv(s: Seq<(i16, i16, i16)>) -> Seq<(int, int, int)> {
    Seq::new(s.len(), |i: int| (s[i].0 as int, s[i].1 as int, s[i].2 as int))
}

/// Every channel of the triple lies within `-m ..= m`.
pub open spec fn c16(t: (i16, i16, i16), m: int) -> bool {
    -m <= t.0 <= m && -m <= t.1 <= m && -m <= t.2 <= m
}

/// Bound on a cell of the lower error row while column `x` is being
/// scanned: cells to the left have all three of their shares, the two
/// around the scan point have some, the rest none.
pub open spec fn next_bound(j: int, x: int) -> int {
    if j < x - 1 {
        336
    } else if j == x - 1 {
        200
    } else if j == x {
        100
    } else {
        20
    }
}

/// Lengths of the three state components are invariant over a row scan.
proof fn lemma_row_upto_len(st: DitherState, px: Seq<u8>, w: int, h: int, y: int, x: int)
    ensures
        dither_row_upto(st, px, w, h, y, x).curr.len() == st.curr.len(),
        dither_row_upto(st, px, w, h, y, x).next.len() == st.next.len(),
        dither_row_upto(st, px, w, h, y, x).out.len() == st.out.len(),
    decreases x,
{
    if x > 0 {
        lemma_row_upto_len(st, px, w, h, y, x - 1);
        let prev = dither_row_upto(st, px, w, h, y, x - 1);
        assert(dither_row_upto(st, px, w, h, y, x) == dither_pixel(prev, px, w, h, x - 1, y));
        lemma_pixel_len(prev, px, w, h, x - 1, y);
    }
}

/// One pixel step keeps the lengths of all three state components.
proof fn lemma_pixel_len(st: DitherState, px: Seq<u8>, w: int, h: int, x: int, y: int)
    ensures
        dither_pixel(st, px, w, h, x, y).curr.len() == st.curr.len(),
        dither_pixel(st, px, w, h, x, y).next.len() == st.next.len(),
        dither_pixel(st, px, w, h, x, y).out.len() == st.out.len(),
{
    reveal(dither_pixel);
}

/// The two error rows keep width `w` and the output keeps the packed size,
/// over any number of rows.
proof fn lemma_dither_rows_len(px: Seq<u8>, w: int, h: int, y: int)
    requires
        0 <= w,
        0 <= h,
    ensures
        dither_rows(px, w, h, y).curr.len() == w,
        dither_rows(px, w, h, y).next.len() == w,
        dither_rows(px, w, h, y).out.len() == spec_buffer_size(w, h),
    decreases y,
{
    if y > 0 {
        lemma_dither_rows_len(px, w, h, y - 1);
        let st = dither_rows(px, w, h, y - 1);
        let loaded = DitherState {
            curr: loaded_row(st.curr, px, w, y - 1),
            next: st.next,
            out: st.out,
        };
        lemma_row_upto_len(loaded, px, w, h, y - 1, w);
    }
}

/// The byte holds two 4-bit palette indices: both nibbles are at most six.
pub open spec fn packed_byte_ok(b: u8) -> bool {
    b / 16 <= 6 && b % 16 <= 6
}

/// The shape of the packed output after `p` pixels: every finished byte
/// holds two palette indices, and a byte whose low nibble is still to
/// come holds a palette index in its high nibble and zero below.
pub open spec fn out_state_ok(out: Seq<u8>, p: int) -> bool {
    &&& forall|j: int| 0 <= j < p / 2 ==> packed_byte_ok(#[trigger] out[j])
    &&& (p % 2 == 1 && p / 2 < out.len() ==> out[p / 2] % 16 == 0 && out[p / 2] / 16 <= 6)
}

/// One pixel step keeps the packed output well shaped.
proof fn lemma_pixel_out_ok(st: DitherState, px: Seq<u8>, w: int, h: int, x: int, y: int)
    requires
        0 <= x < w,
        0 <= y < h,
        st.out.len() == spec_buffer_size(w, h),
        out_state_ok(st.out, y * w + x),
    ensures
        dither_pixel(st, px, w, h, x, y).out.len() == st.out.len(),
        out_state_ok(dither_pixel(st, px, w, h, x, y).out, y * w + x + 1),
{
    reveal(dither_pixel);
    let r = clamp_255(st.curr[x].0);
    let g = clamp_255(st.curr[x].1);
    let b = clamp_255(st.curr[x].2);
    lemma_nearest_color_minimal(r, g, b);
    let ci = nearest_color(r, g, b);
    let p = y * w + x;
    let bi = p / 2;
    crate::frame::lemma_flat_index(w, h, x, y);
    let out1 = dither_pixel(st, px, w, h, x, y).out;
    let len = st.out.len() as int;
    if p % 2 == 0 {
        assert((p + 1) / 2 == p / 2 && (p + 1) % 2 == 1);
        if bi < len {
            assert(out1 == st.out.update(bi, (ci * 16) as u8));
            assert(out1[bi] == (ci * 16) as u8);
            assert(out1[bi] / 16 == ci && out1[bi] % 16 == 0) by (nonlinear_arith)
                requires
                    out1[bi] == ci * 16,
                    0 <= ci <= 6,
            ;
            assert forall|j: int| 0 <= j < (p + 1) / 2 implies packed_byte_ok(out1[j]) by {
                assert(out1[j] == st.out[j]);
            }
        } else {
            assert(out1 == st.out);
        }
    } else {
        // An odd pixel index always lands inside the buffer: its high
        // nibble was written by the preceding even pixel.
        assert(2 * bi + 1 == p);
        assert(2 * (bi + 1) <= w * h);
        assert(bi + 1 <= (w * h) / 2);
        assert(0 <= bi < len);
        assert((p + 1) / 2 == p / 2 + 1 && (p + 1) % 2 == 0);
        let a = st.out[bi] / 16;
        assert(st.out[bi] == 16 * a);
        assert(out1 == st.out.update(bi, (st.out[bi] + ci) as u8));
        assert(out1[bi] == (st.out[bi] + ci) as u8);
        assert(16 * a + ci <= 102);
        assert((16 * a + ci) / 16 == a && (16 * a + ci) % 16 == ci) by (nonlinear_arith)
            requires
                0 <= a <= 6,
                0 <= ci <= 6,
        ;
        assert(packed_byte_ok(out1[bi]));
        assert forall|j: int| 0 <= j < (p + 1) / 2 implies packed_byte_ok(out1[j]) by {
            if j < bi {
                assert(out1[j] == st.out[j]);
            }
        }
    }
}

/// A whole row scan keeps the packed output well shaped.
proof fn lemma_row_out_ok(st: DitherState, px: Seq<u8>, w: int, h: int, y: int, x: int)
    requires
        0 <= x <= w,
        0 <= y < h,
        st.out.len() == spec_buffer_size(w, h),
        out_state_ok(st.out, y * w),
    ensures
        dither_row_upto(st, px, w, h, y, x).out.len() == st.out.len(),
        out_state_ok(dither_row_upto(st, px, w, h, y, x).out, y * w + x),
    decreases x,
{
    if x > 0 {
        lemma_row_out_ok(st, px, w, h, y, x - 1);
        lemma_pixel_out_ok(dither_row_upto(st, px, w, h, y, x - 1), px, w, h, x - 1, y);
    }
}

/// Every completed row keeps the packed output well shaped.
proof fn lemma_rows_out_ok(px: Seq<u8>, w: int, h: int, y: int)
    requires
        0 <= w,
        0 <= y <= h,
    ensures
        out_state_ok(dither_rows(px, w, h, y).out, y * w),
    decreases y,
{
    if y == 0 {
        assert(out_state_ok(dither_rows(px, w, h, 0).out, 0));
    } else {
        lemma_rows_out_ok(px, w, h, y - 1);
        lemma_dither_rows_len(px, w, h, y - 1);
        let st = dither_rows(px, w, h, y - 1);
        let loaded = DitherState {
            curr: loaded_row(st.curr, px, w, y - 1),
            next: st.next,
            out: st.out,
        };
        lemma_row_out_ok(loaded, px, w, h, y - 1, w);
        assert((y - 1) * w + w == y * w) by (nonlinear_arith);
    }
}

/// The wire contract of the packed buffer: every byte of the dithered
/// output carries a palette index (at most six) in each of its two
/// nibbles, the first pixel of a pair in the high nibble.
pub proof fn lemma_dither_packs_palette_indices(px: Seq<u8>, w: int, h: int)
    requires
        0 <= w,
        0 <= h,
    ensures
        forall|j: int|
            0 <= j < spec_dither(px, w, h).len() ==> packed_byte_ok(
                #[trigger] spec_dither(px, w, h)[j],
            ),
{
    lemma_rows_out_ok(px, w, h, h);
    lemma_dither_rows_len(px, w, h, h);
    assert(h * w == w * h) by (nonlinear_arith);
}

/// Clamp a channel value into `0 ..= 255`.
fn clamp_byte(v: i16) -> (r: i16)
    ensures
        r == clamp_255(v as int),
        0 <= r <= 255,
{
    if v < 0 {
        0
    } else if v > 255 {
        255
    } else {
        v
    }
}

/// The share of an error term handed to one neighbor, dividing toward zero.
fn diffuse(err: i16, num: u16) -> (d: i16)
    requires
        -255 <= err <= 255,
        1 <= num <= 7,
    ensures
        d == diffused(err as int, num as int),
        -112 <= d <= 112,
{
    if err >= 0 {
        proof {
            assert(0 <= (err as int) * (num as int) <= 1785) by (nonlinear_arith)
                requires
                    0 <= err <= 255,
                    1 <= num <= 7,
            ;
        }
        (((err as u16) * num) / 16) as i16
    } else {
        let pos: i16 = -err;
        proof {
            assert(0 <= (pos as int) * (num as int) <= 1785) by (nonlinear_arith)
                requires
                    0 <= pos <= 255,
                    1 <= num <= 7,
            ;
        }
        let m = (((pos as u16) * num) / 16) as i16;
        -m
    }
}

/// Dither one pixel: clamp, quantize, diffuse the error to the live
/// neighbors, pack the chosen index. The rows and output advance from the
/// state after `x` columns of row `y` to the state after `x + 1`.
#[verifier::rlimit(100)]
fn dither_col(
    curr_row: &mut Vec<(i16, i16, i16)>,
    next_row: &mut Vec<(i16, i16, i16)>,
    result: &mut Vec<u8>,
    img: &RgbFrame,
    x: usize,
    y: usize,
    Ghost(loaded): Ghost<DitherState>,
)
    requires
        img.wf(),
        x < img.width,
        y < img.height,
        loaded.curr.len() == img.width as int,
        loaded.next.len() == img.width as int,
        loaded.out.len() == spec_buffer_size(img.width as int, img.height as int),
        old(curr_row)@.len() == img.width as int,
        old(next_row)@.len() == img.width as int,
        old(result)@.len() == spec_buffer_size(img.width as int, img.height as int),
        rv(old(curr_row)@) == dither_row_upto(
            loaded,
            img.pixels@,
            img.width as int,
            img.height as int,
            y as int,
            x as int,
        ).curr,
        rv(old(next_row)@) == dither_row_upto(
            loaded,
            img.pixels@,
            img.width as int,
            img.height as int,
            y as int,
            x as int,
        ).next,
        old(result)@ == dither_row_upto(
            loaded,
            img.pixels@,
            img.width as int,
            img.height as int,
            y as int,
            x as int,
        ).out,
        c16(old(curr_row)@[x as int], 704),
        forall|j: int| x < j < img.width ==> c16(#[trigger] old(curr_row)@[j], 592),
        forall|j: int| 0 <= j < x - 1 ==> c16(#[trigger] old(next_row)@[j], 336),
        0 < x ==> c16(old(next_row)@[x as int - 1], 200),
        c16(old(next_row)@[x as int], 100),
        forall|j: int| x < j < img.width ==> c16(#[trigger] old(next_row)@[j], 20),
        (y * (img.width as int) + x) % 2 == 1 && (y * (img.width as int) + x) / 2 < old(result)@.len() ==> old(result)@[(y * (img.width as int) + x) / 2] <= 96,
    ensures
        final(curr_row)@.len() == old(curr_row)@.len(),
        final(next_row)@.len() == old(next_row)@.len(),
        final(result)@.len() == old(result)@.len(),
        rv(final(curr_row)@) == dither_row_upto(
            loaded,
            img.pixels@,
            img.width as int,
            img.height as int,
            y as int,
            x as int + 1,
        ).curr,
        rv(final(next_row)@) == dither_row_upto(
            loaded,
            img.pixels@,
            img.width as int,
            img.height as int,
            y as int,
            x as int + 1,
        ).next,
        final(result)@ == dither_row_upto(
            loaded,
            img.pixels@,
            img.width as int,
            img.height as int,
            y as int,
            x as int + 1,
        ).out,
        x + 1 < img.width ==> c16(final(curr_row)@[x as int + 1], 704),
        forall|j: int| x + 1 < j < img.width ==> c16(#[trigger] final(curr_row)@[j], 592),
        forall|j: int| 0 <= j < x ==> c16(#[trigger] final(next_row)@[j], 336),
        c16(final(next_row)@[x as int], 200),
        x + 1 < img.width ==> c16(final(next_row)@[x as int + 1], 100),
        forall|j: int| x + 1 < j < img.width ==> c16(#[trigger] final(next_row)@[j], 20),
        (y * (img.width as int) + x + 1) % 2 == 1 && (y * (img.width as int) + x + 1) / 2 < final(result)@.len() ==> final(result)@[(y * (img.width as int) + x + 1) / 2] <= 96,
{
    let ghost px: Seq<u8> = img.pixels@;
    let ghost wi: int = img.width as int;
    let ghost hi: int = img.height as int;
    let w: usize = img.width as usize;
    let h: usize = img.height as usize;
    let ghost prev: DitherState = dither_row_upto(loaded, px, wi, hi, y as int, x as int);
    proof {
        lemma_row_upto_len(loaded, px, wi, hi, y as int, x as int);
        crate::frame::lemma_flat_index(wi, hi, x as int, y as int);
        crate::frame::lemma_triple_area(wi, hi);
    }
    let n: usize = img.pixels.len();
    let bs: usize = result.len();
    let t = curr_row[x];
    let r = clamp_byte(t.0);
    let g = clamp_byte(t.1);
    let b = clamp_byte(t.2);
    let ci = find_nearest_color(r, g, b);
    let (pr, pg, pb) = palette_rgb(ci);
    let er = r - pr;
    let eg = g - pg;
    let eb = b - pb;
    proof {
        assert(rv(curr_row@)[x as int] == (t.0 as int, t.1 as int, t.2 as int));
    }
    if x + 1 < w {
        let u = curr_row[x + 1];
        curr_row.set(x + 1, (u.0 + diffuse(er, 7), u.1 + diffuse(eg, 7), u.2 + diffuse(eb, 7)));
    }
    if y + 1 < h {
        if x > 0 {
            let u = next_row[x - 1];
            next_row.set(
                x - 1,
                (u.0 + diffuse(er, 3), u.1 + diffuse(eg, 3), u.2 + diffuse(eb, 3)),
            );
        }
        let u = next_row[x];
        next_row.set(x, (u.0 + diffuse(er, 5), u.1 + diffuse(eg, 5), u.2 + diffuse(eb, 5)));
        if x + 1 < w {
            let u = next_row[x + 1];
            next_row.set(
                x + 1,
                (u.0 + diffuse(er, 1), u.1 + diffuse(eg, 1), u.2 + diffuse(eb, 1)),
            );
        }
    }
    let p: usize = y * w + x;
    let bi: usize = p / 2;
    if p % 2 == 0 {
        if bi < bs {
            result.set(bi, (ci as u8) * 16);
        }
    } else {
        proof {
            assert(2 * (bi as int) + 1 == p as int);
            assert(2 * ((bi as int) + 1) <= wi * hi);
            assert((bi as int) + 1 <= (wi * hi) / 2);
        }
        let prev_byte = result[bi];
        result.set(bi, prev_byte + (ci as u8));
    }
    proof {
        reveal(dither_pixel);
        let stepd = dither_pixel(prev, px, wi, hi, x as int, y as int);
        assert(rv(curr_row@) =~= stepd.curr);
        assert(rv(next_row@) =~= stepd.next);
        assert(result@ =~= stepd.out);
        assert(dither_row_upto(loaded, px, wi, hi, y as int, x as int + 1) == stepd);
    }
}

/// Apply Floyd-Steinberg dithering to an RGB image, producing the packed
/// two-pixels-per-byte palette-index buffer. Working memory beyond the
/// output is two error rows of the image's width, whatever its height.
#[verifier::rlimit(100)]
pub fn dither_image(img: &RgbFrame) -> (out: Vec<u8>)
    requires
        img.wf(),
    ensures
        out@ == spec_dither(img.pixels@, img.width as int, img.height as int),
        out@.len() == spec_buffer_size(img.width as int, img.height as int),
{
    let ghost px: Seq<u8> = img.pixels@;
    let ghost wi: int = img.width as int;
    let ghost hi: int = img.height as int;
    let n: usize = img.pixels.len();
    proof {
        crate::frame::lemma_triple_area(wi, hi);
    }
    let w: usize = img.width as usize;
    let h: usize = img.height as usize;
    let bs: usize = calculate_buffer_size(img.width, img.height);

    let mut result: Vec<u8> = Vec::new();
    while result.len() < bs
        invariant
            result@.len() <= bs,
            bs == spec_buffer_size(wi, hi),
            forall|j: int| 0 <= j < result@.len() ==> result@[j] == 0u8,
        decreases bs - result.len(),
    {
        result.push(0u8);
    }

    let mut curr_row: Vec<(i16, i16, i16)> = Vec::new();
    while curr_row.len() < w
        invariant
            curr_row@.len() <= w,
            forall|j: int| 0 <= j < curr_row@.len() ==> curr_row@[j] == (0i16, 0i16, 0i16),
        decreases w - curr_row.len(),
    {
        curr_row.push((0, 0, 0));
    }
    let mut next_row: Vec<(i16, i16, i16)> = Vec::new();
    while next_row.len() < w
        invariant
            next_row@.len() <= w,
            forall|j: int| 0 <= j < next_row@.len() ==> next_row@[j] == (0i16, 0i16, 0i16),
        decreases w - next_row.len(),
    {
        next_row.push((0, 0, 0));
    }

    proof {
        lemma_dither_rows_len(px, wi, hi, 0);
        assert(rv(curr_row@) =~= dither_rows(px, wi, hi, 0).curr);
        assert(rv(next_row@) =~= dither_rows(px, wi, hi, 0).next);
        assert(result@ =~= dither_rows(px, wi, hi, 0).out);
    }

    let mut y: usize = 0;
    while y < h
        invariant
            y <= h,
            w == wi,
            h == hi,
            n == px.len(),
            px.len() == 3 * wi * hi,
            px == img.pixels@,
            wi == img.width as int,
            hi == img.height as int,
            bs == spec_buffer_size(wi, hi),
            curr_row@.len() == w,
            next_row@.len() == w,
            result@.len() == bs,
            rv(curr_row@) == dither_rows(px, wi, hi, y as int).curr,
            rv(next_row@) == dither_rows(px, wi, hi, y as int).next,
            result@ == dither_rows(px, wi, hi, y as int).out,
            forall|j: int| 0 <= j < w ==> c16(#[trigger] curr_row@[j], 336),
            forall|j: int| 0 <= j < w ==> #[trigger] next_row@[j] == (0i16, 0i16, 0i16),
            (y * w) % 2 == 1 && (y * w) / 2 < bs ==> result@[((y * w) / 2) as int] <= 96,
        decreases h - y,
    {
        let ghost row_st: DitherState = dither_rows(px, wi, hi, y as int);
        let ghost loaded: DitherState = DitherState {
            curr: loaded_row(row_st.curr, px, wi, y as int),
            next: row_st.next,
            out: row_st.out,
        };

        // Add this row's pixel values into the carried error row.
        let mut x: usize = 0;
        while x < w
            invariant
                x <= w,
                w == wi,
                h == hi,
                y < h,
                n == px.len(),
                px.len() == 3 * wi * hi,
                px == img.pixels@,
                curr_row@.len() == w,
                loaded.curr =~= loaded_row(row_st.curr, px, wi, y as int),
                row_st.curr.len() == w,
                forall|j: int| 0 <= j < x ==> rv(curr_row@)[j] == loaded.curr[j],
                forall|j: int| x <= j < w ==> rv(curr_row@)[j] == row_st.curr[j],
                forall|j: int| 0 <= j < x ==> c16(#[trigger] curr_row@[j], 592),
                forall|j: int| x <= j < w ==> c16(#[trigger] curr_row@[j], 336),
            decreases w - x,
        {
            proof {
                crate::frame::lemma_flat_index(wi, hi, x as int, y as int);
                crate::frame::lemma_triple_area(wi, hi);
            }
            let base: usize = 3 * (y * w + x);
            let p0 = img.pixels[base];
            let p1 = img.pixels[base + 1];
            let p2 = img.pixels[base + 2];
            let t = curr_row[x];
            proof {
                assert(rv(curr_row@)[x as int] == row_st.curr[x as int]);
            }
            curr_row.set(x, (t.0 + (p0 as i16), t.1 + (p1 as i16), t.2 + (p2 as i16)));
            proof {
                assert(rv(curr_row@)[x as int] == loaded.curr[x as int]);
            }
            x = x + 1;
        }
        proof {
            assert(rv(curr_row@) =~= loaded.curr);
            lemma_row_upto_len(loaded, px, wi, hi, y as int, 0);
        }

        // Scan the row left to right, diffusing the quantization error.
        let mut x: usize = 0;
        while x < w
            invariant
                x <= w,
                w == wi,
                h == hi,
                y < h,
                n == px.len(),
                px.len() == 3 * wi * hi,
                px == img.pixels@,
                wi == img.width as int,
                hi == img.height as int,
                img.wf(),
                bs == spec_buffer_size(wi, hi),
                curr_row@.len() == w,
                next_row@.len() == w,
                result@.len() == bs,
                loaded.curr.len() == w,
                loaded.next.len() == w,
                loaded.out.len() == bs,
                rv(curr_row@) == dither_row_upto(loaded, px, wi, hi, y as int, x as int).curr,
                rv(next_row@) == dither_row_upto(loaded, px, wi, hi, y as int, x as int).next,
                result@ == dither_row_upto(loaded, px, wi, hi, y as int, x as int).out,
                x < w ==> c16(curr_row@[x as int], 704),
                forall|j: int| x < j < w ==> c16(#[trigger] curr_row@[j], 592),
                forall|j: int| 0 <= j < x - 1 ==> c16(#[trigger] next_row@[j], 336),
                0 < x ==> c16(next_row@[x as int - 1], 200),
                x < w ==> c16(next_row@[x as int], 100),
                forall|j: int| x < j < w ==> c16(#[trigger] next_row@[j], 20),
                (y * w + x) % 2 == 1 && (y * w + x) / 2 < bs ==> result@[((y * w + x) / 2) as int]
                    <= 96,
            decreases w - x,
        {
            dither_col(&mut curr_row, &mut next_row, &mut result, img, x, y, Ghost(loaded));
            x = x + 1;
        }

        // The lower error row becomes the carried row; a fresh zero row
        // takes its place.
        let ghost done: DitherState = dither_row_upto(loaded, px, wi, hi, y as int, w as int);
        proof {
            lemma_row_upto_len(loaded, px, wi, hi, y as int, w as int);
        }
        let tmp = curr_row;
        curr_row = next_row;
        next_row = tmp;
        let mut x: usize = 0;
        while x < w
            invariant
                x <= w,
                next_row@.len() == w,
                forall|j: int| 0 <= j < x ==> #[trigger] next_row@[j] == (0i16, 0i16, 0i16),
            decreases w - x,
        {
            next_row.set(x, (0, 0, 0));
            x = x + 1;
        }
        proof {
            assert(rv(next_row@) =~= zero_row(wi));
            assert(dither_rows(px, wi, hi, y as int + 1) == DitherState {
                curr: done.next,
                next: zero_row(wi),
                out: done.out,
            });
            assert((y as int + 1) * wi == y as int * wi + wi) by (nonlinear_arith);
        }
        y = y + 1;
    }
    result
}

/// Name of a palette color, for logs and the status page.
pub fn color_name(color: Color) -> (s: &'static str)
    ensures
        s@ == match color {
            Color::Black => "Black"@,
            Color::White => "White"@,
            Color::Yellow => "Yellow"@,
            Color::Red => "Red"@,
            Color::Orange => "Orange"@,
            Color::Blue => "Blue"@,
            Color::Green => "Green"@,
        },
{
    match color {
        Color::Black => "Black",
        Color::White => "White",
        Color::Yellow => "Yellow",
        Color::Red => "Red",
        Color::Orange => "Orange",
        Color::Blue => "Blue",
        Color::Green => "Green",
    }
}

} // verus!
