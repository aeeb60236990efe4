//! Geometric transform: rotation and mirroring as exact pixel
//! permutations, integer scale-to-fit / scale-to-fill geometry, white
//! letterbox padding and center cropping, around a trusted resampling
//! step.

use vstd::prelude::*;
use crate::frame::RgbFrame;
use crate::frame::lemma_flat_index;
use crate::frame::lemma_triple_area;

verus! {

/// Rotation angle in degrees.
#[derive(Debug, Clone, Copy, PartialEq, Eq, Structural)]
pub enum Rotation {
    NoRotation,
    Rotate90,
    Rotate180,
    Rotate270,
}

/// The rotation a degree figure denotes; anything but the three right
/// angles means no rotation.
pub open spec fn spec_rotation_from(degrees: u16) -> Rotation {
    if degrees == 90 {
        Rotation::Rotate90
    } else if degrees == 180 {
        Rotation::Rotate180
    } else if degrees == 270 {
        Rotation::Rotate270
    } else {
        Rotation::NoRotation
    }
}

impl From<u16> for Rotation {
    fn from(degrees: u16) -> (r: Rotation)
        ensures
            r == spec_rotation_from(degrees),
    {
        match degrees {
            90 => Rotation::Rotate90,
            180 => Rotation::Rotate180,
            270 => Rotation::Rotate270,
            _ => Rotation::NoRotation,
        }
    }
}

impl vstd::std_specs::convert::FromSpecImpl<u16> for Rotation {
    open spec fn obeys_from_spec() -> bool {
        true
    }

    open spec fn from_spec(degrees: u16) -> Rotation {
        spec_rotation_from(degrees)
    }
}

/// Image transformation options.
#[derive(Debug, Clone)]
pub struct TransformOptions {
    /// Rotation to apply.
    pub rotation: Rotation,
    /// Mirror horizontally.
    pub mirror_h: bool,
    /// Mirror vertically.
    pub mirror_v: bool,
    /// Scale to fit (letterbox) rather than fill (crop).
    pub scale_to_fit: bool,
    /// Apply rotation before mirroring rather than after.
    pub rotate_first: bool,
    /// Target width in pixels.
    pub target_width: u32,
    /// Target height in pixels.
    pub target_height: u32,
}

impl Default for TransformOptions {
    /// No rotation or mirroring, scale to fit, rotate first, 800 x 480.
    fn default() -> (o: Self)
        ensures
            o.rotation == Rotation::NoRotation,
            !o.mirror_h,
            !o.mirror_v,
            o.scale_to_fit,
            o.rotate_first,
            o.target_width == 800,
            o.target_height == 480,
    {
        TransformOptions {
            rotation: Rotation::NoRotation,
            mirror_h: false,
            mirror_v: false,
            scale_to_fit: true,
            rotate_first: true,
            target_width: 800,
            target_height: 480,
        }
    }
}

/// The five pixel permutations the transform uses.
#[derive(Debug, Clone, Copy, PartialEq, Eq, Structural)]
pub enum PixelMap {
    Rotate90,
    Rotate180,
    Rotate270,
    MirrorH,
    MirrorV,
}

/// Output dimensions of a permutation of a `w` x `h` image: the quarter
/// turns swap the sides.
pub open spec fn map_dims(m: PixelMap, w: int, h: int) -> (int, int) {
    match m {
        PixelMap::Rotate90 => (h, w),
        PixelMap::Rotate270 => (h, w),
        _ => (w, h),
    }
}

/// The source pixel that lands at output position `(x, y)`; `w` and `h`
/// are the input dimensions. The quarter turns are clockwise.
pub open spec fn map_src(m: PixelMap, w: int, h: int, x: int, y: int) -> (int, int) {
    match m {
        PixelMap::Rotate90 => (y, h - 1 - x),
        PixelMap::Rotate180 => (w - 1 - x, h - 1 - y),
        PixelMap::Rotate270 => (w - 1 - y, x),
        PixelMap::MirrorH => (w - 1 - x, y),
        PixelMap::MirrorV => (x, h - 1 - y),
    }
}

/// The pixel bytes of a permutation of a `w` x `h` image, row-major.
pub open spec fn permuted(px: Seq<u8>, w: int, h: int, m: PixelMap) -> Seq<u8> {
    let dims = map_dims(m, w, h);
    Seq::new(
        (3 * dims.0 * dims.1) as nat,
        |k: int|
            {
                let q = k / 3;
                let c = k % 3;
                let x = q % dims.0;
                let y = q / dims.0;
                let s = map_src(m, w, h, x, y);
                px[3 * (s.1 * w + s.0) + c]
            },
    )
}

/// The pixel bytes after the chosen rotation.
pub open spec fn spec_rotated_px(px: Seq<u8>, w: int, h: int, rotation: Rotation) -> Seq<u8> {
    match rotation {
        Rotation::NoRotation => px,
        Rotation::Rotate90 => permuted(px, w, h, PixelMap::Rotate90),
        Rotation::Rotate180 => permuted(px, w, h, PixelMap::Rotate180),
        Rotation::Rotate270 => permuted(px, w, h, PixelMap::Rotate270),
    }
}

/// The pixel bytes after the chosen mirrorings: horizontal first, then
/// vertical, on a `w` x `h` image (mirroring keeps the dimensions).
pub open spec fn spec_mirrored_px(
    px: Seq<u8>,
    w: int,
    h: int,
    mirror_h: bool,
    mirror_v: bool,
) -> Seq<u8> {
    let a = if mirror_h {
        permuted(px, w, h, PixelMap::MirrorH)
    } else {
        px
    };
    if mirror_v {
        permuted(a, w, h, PixelMap::MirrorV)
    } else {
        a
    }
}

/// The pixel bytes after the whole orientation phase, in the configured
/// order: rotate then mirror, or mirror then rotate. The two orders
/// differ for quarter turns combined with mirroring.
pub open spec fn spec_oriented_px(px: Seq<u8>, w: int, h: int, o: &TransformOptions) -> Seq<u8> {
    if o.rotate_first {
        let d = spec_oriented_dims(w, h, o.rotation);
        spec_mirrored_px(spec_rotated_px(px, w, h, o.rotation), d.0, d.1, o.mirror_h, o.mirror_v)
    } else {
        spec_rotated_px(spec_mirrored_px(px, w, h, o.mirror_h, o.mirror_v), w, h, o.rotation)
    }
}

/// Splitting a byte offset into its pixel and channel.
proof fn lemma_split3(t: int, c: int)
    requires
        0 <= t,
        0 <= c < 3,
    ensures
        (3 * t + c) / 3 == t,
        (3 * t + c) % 3 == c,
{
    assert((3 * t + c) / 3 == t && (3 * t + c) % 3 == c) by (nonlinear_arith)
        requires
            0 <= t,
            0 <= c < 3,
    ;
}

/// Splitting a row-major pixel index into its column and row.
proof fn lemma_rowmajor(w: int, x: int, y: int)
    requires
        0 <= x < w,
        0 <= y,
    ensures
        (y * w + x) / w == y,
        (y * w + x) % w == x,
{
    assert((y * w + x) / w == y && (y * w + x) % w == x) by (nonlinear_arith)
        requires
            0 <= x < w,
            0 <= y,
    ;
}

/// Apply one pixel permutation, reading each output pixel from its source.
#[verifier::rlimit(60)]
fn apply_map(img: &RgbFrame, m: PixelMap) -> (out: RgbFrame)
    requires
        img.wf(),
    ensures
        out.wf(),
        (out.width as int, out.height as int) == map_dims(
            m,
            img.width as int,
            img.height as int,
        ),
        forall|x: int, y: int, c: int|
            0 <= x < out.width && 0 <= y < out.height && 0 <= c < 3 ==> #[trigger] out.px(x, y, c)
                == img.px(
                map_src(m, img.width as int, img.height as int, x, y).0,
                map_src(m, img.width as int, img.height as int, x, y).1,
                c,
            ),
        out.pixels@ == permuted(img.pixels@, img.width as int, img.height as int, m),
{
    let n: usize = img.pixels.len();
    proof {
        lemma_triple_area(img.width as int, img.height as int);
    }
    let iw: u32 = img.width;
    let ih: u32 = img.height;
    let (ow, oh): (u32, u32) = match m {
        PixelMap::Rotate90 => (ih, iw),
        PixelMap::Rotate270 => (ih, iw),
        _ => (iw, ih),
    };
    proof {
        assert((iw as int) * (ih as int) == (ow as int) * (oh as int)) by (nonlinear_arith)
            requires
                (ow == iw && oh == ih) || (ow == ih && oh == iw),
        ;
    }
    let total: usize = (ow as usize) * (oh as usize);
    let mut pixels: Vec<u8> = Vec::new();
    let mut p: usize = 0;
    while p < total
        invariant
            p <= total,
            img.wf(),
            iw == img.width,
            ih == img.height,
            n == img.pixels@.len(),
            total == (ow as int) * (oh as int),
            total == (iw as int) * (ih as int),
            (ow as int, oh as int) == map_dims(m, iw as int, ih as int),
            pixels@.len() == 3 * p,
            forall|q: int, c: int|
                0 <= q < p && 0 <= c < 3 ==> #[trigger] pixels@[3 * q + c] == img.px(
                    map_src(m, iw as int, ih as int, q % (ow as int), q / (ow as int)).0,
                    map_src(m, iw as int, ih as int, q % (ow as int), q / (ow as int)).1,
                    c,
                ),
        decreases total - p,
    {
        proof {
            assert(ow > 0) by (nonlinear_arith)
                requires
                    (ow as int) * (oh as int) > 0 || (ow as int) * (oh as int) > p >= 0,
            ;
        }
        let x: u32 = (p % (ow as usize)) as u32;
        let y: u32 = (p / (ow as usize)) as u32;
        proof {
            assert((p as int) / (ow as int) < oh) by (nonlinear_arith)
                requires
                    0 <= p < (ow as int) * (oh as int),
                    ow > 0,
            ;
        }
        let (sx, sy): (u32, u32) = match m {
            PixelMap::Rotate90 => (y, ih - 1 - x),
            PixelMap::Rotate180 => (iw - 1 - x, ih - 1 - y),
            PixelMap::Rotate270 => (iw - 1 - y, x),
            PixelMap::MirrorH => (iw - 1 - x, y),
            PixelMap::MirrorV => (x, ih - 1 - y),
        };
        let b0 = img.get_px(sx, sy, 0);
        let b1 = img.get_px(sx, sy, 1);
        let b2 = img.get_px(sx, sy, 2);
        pixels.push(b0);
        pixels.push(b1);
        pixels.push(b2);
        p = p + 1;
    }
    let out = RgbFrame { width: ow, height: oh, pixels };
    proof {
        lemma_triple_area(ow as int, oh as int);
        assert forall|x: int, y: int, c: int|
            0 <= x < out.width && 0 <= y < out.height && 0 <= c < 3 implies #[trigger] out.px(
            x,
            y,
            c,
        ) == img.px(
            map_src(m, img.width as int, img.height as int, x, y).0,
            map_src(m, img.width as int, img.height as int, x, y).1,
            c,
        ) by {
            let q = y * (ow as int) + x;
            lemma_flat_index(ow as int, oh as int, x, y);
            lemma_rowmajor(ow as int, x, y);
            assert(out.px(x, y, c) == out.pixels@[3 * q + c]);
        }
        let pm = permuted(img.pixels@, iw as int, ih as int, m);
        assert(out.pixels@.len() == pm.len());
        assert forall|k: int| 0 <= k < out.pixels@.len() implies out.pixels@[k] == pm[k] by {
            let q = k / 3;
            let c = k % 3;
            assert(k == 3 * q + c && 0 <= c < 3 && 0 <= q);
            assert(q < total) by (nonlinear_arith)
                requires
                    3 * q + c < 3 * (total as int),
                    0 <= c < 3,
            ;
            assert(out.pixels@[3 * q + c] == img.px(
                map_src(m, iw as int, ih as int, q % (ow as int), q / (ow as int)).0,
                map_src(m, iw as int, ih as int, q % (ow as int), q / (ow as int)).1,
                c,
            ));
        }
        assert(out.pixels@ =~= pm);
    }
    out
}

/// Rotate an image a quarter turn clockwise: the output pixel at
/// `(x, y)` is the input pixel at `(y, height - 1 - x)`.
pub fn rotate90(img: &RgbFrame) -> (out: RgbFrame)
    requires
        img.wf(),
    ensures
        out.wf(),
        out.width == img.height,
        out.height == img.width,
        forall|x: int, y: int, c: int|
            0 <= x < out.width && 0 <= y < out.height && 0 <= c < 3 ==> #[trigger] out.px(x, y, c)
                == img.px(y, img.height - 1 - x, c),
        out.pixels@ == permuted(img.pixels@, img.width as int, img.height as int, PixelMap::Rotate90),
{
    apply_map(img, PixelMap::Rotate90)
}

/// Rotate an image a half turn: the output pixel at `(x, y)` is the
/// input pixel at `(width - 1 - x, height - 1 - y)`.
pub fn rotate180(img: &RgbFrame) -> (out: RgbFrame)
    requires
        img.wf(),
    ensures
        out.wf(),
        out.width == img.width,
        out.height == img.height,
        forall|x: int, y: int, c: int|
            0 <= x < out.width && 0 <= y < out.height && 0 <= c < 3 ==> #[trigger] out.px(x, y, c)
                == img.px(img.width - 1 - x, img.height - 1 - y, c),
        out.pixels@ == permuted(img.pixels@, img.width as int, img.height as int, PixelMap::Rotate180),
{
    apply_map(img, PixelMap::Rotate180)
}

/// Rotate an image three quarter turns clockwise: the output pixel at
/// `(x, y)` is the input pixel at `(width - 1 - y, x)`.
pub fn rotate270(img: &RgbFrame) -> (out: RgbFrame)
    requires
        img.wf(),
    ensures
        out.wf(),
        out.width == img.height,
        out.height == img.width,
        forall|x: int, y: int, c: int|
            0 <= x < out.width && 0 <= y < out.height && 0 <= c < 3 ==> #[trigger] out.px(x, y, c)
                == img.px(img.width - 1 - y, x, c),
        out.pixels@ == permuted(img.pixels@, img.width as int, img.height as int, PixelMap::Rotate270),
{
    apply_map(img, PixelMap::Rotate270)
}

/// Mirror an image horizontally: the output pixel at `(x, y)` is the
/// input pixel at `(width - 1 - x, y)`.
pub fn mirror_horizontal(img: &RgbFrame) -> (out: RgbFrame)
    requires
        img.wf(),
    ensures
        out.wf(),
        out.width == img.width,
        out.height == img.height,
        forall|x: int, y: int, c: int|
            0 <= x < out.width && 0 <= y < out.height && 0 <= c < 3 ==> #[trigger] out.px(x, y, c)
                == img.px(img.width - 1 - x, y, c),
        out.pixels@ == permuted(img.pixels@, img.width as int, img.height as int, PixelMap::MirrorH),
{
    apply_map(img, PixelMap::MirrorH)
}

/// Mirror an image vertically: the output pixel at `(x, y)` is the input
/// pixel at `(x, height - 1 - y)`.
pub fn mirror_vertical(img: &RgbFrame) -> (out: RgbFrame)
    requires
        img.wf(),
    ensures
        out.wf(),
        out.width == img.width,
        out.height == img.height,
        forall|x: int, y: int, c: int|
            0 <= x < out.width && 0 <= y < out.height && 0 <= c < 3 ==> #[trigger] out.px(x, y, c)
                == img.px(x, img.height - 1 - y, c),
        out.pixels@ == permuted(img.pixels@, img.width as int, img.height as int, PixelMap::MirrorV),
{
    apply_map(img, PixelMap::MirrorV)
}

/// Apply the chosen rotation to an image.
pub fn apply_rotation(img: RgbFrame, rotation: Rotation) -> (out: RgbFrame)
    requires
        img.wf(),
    ensures
        out.wf(),
        rotation == Rotation::NoRotation ==> out == img,
        (out.width as int, out.height as int) == spec_oriented_dims(
            img.width as int,
            img.height as int,
            rotation,
        ),
        out.pixels@ == spec_rotated_px(img.pixels@, img.width as int, img.height as int, rotation),
{
    match rotation {
        Rotation::NoRotation => img,
        Rotation::Rotate90 => rotate90(&img),
        Rotation::Rotate180 => rotate180(&img),
        Rotation::Rotate270 => rotate270(&img),
    }
}

/// Apply the chosen mirrorings to an image; dimensions are kept.
pub fn apply_mirroring(img: RgbFrame, mirror_h: bool, mirror_v: bool) -> (out: RgbFrame)
    requires
        img.wf(),
    ensures
        out.wf(),
        out.width == img.width,
        out.height == img.height,
        !mirror_h && !mirror_v ==> out == img,
        out.pixels@ == spec_mirrored_px(
            img.pixels@,
            img.width as int,
            img.height as int,
            mirror_h,
            mirror_v,
        ),
{
    let img = if mirror_h {
        mirror_horizontal(&img)
    } else {
        img
    };
    if mirror_v {
        mirror_vertical(&img)
    } else {
        img
    }
}

/// The largest size at the source's aspect ratio that fits inside the
/// target box (never below one pixel a side): height-limited sources take
/// the full target height, width-limited ones the full target width.
pub open spec fn spec_fit_dims(sw: int, sh: int, tw: int, th: int) -> (int, int) {
    if sw * th <= sh * tw {
        (if (sw * th) / sh >= 1 { (sw * th) / sh } else { 1 }, th)
    } else {
        (tw, if (sh * tw) / sw >= 1 { (sh * tw) / sw } else { 1 })
    }
}

/// The smallest size at the source's aspect ratio that covers the target
/// box, saturated at the integer limit.
pub open spec fn spec_fill_dims(sw: int, sh: int, tw: int, th: int) -> (int, int) {
    if sw * th <= sh * tw {
        let nh = if (sh * tw) / sw >= th {
            (sh * tw) / sw
        } else {
            th
        };
        (tw, if nh <= u32::MAX { nh } else { u32::MAX as int })
    } else {
        let nw = if (sw * th) / sh >= tw {
            (sw * th) / sh
        } else {
            tw
        };
        (if nw <= u32::MAX { nw } else { u32::MAX as int }, th)
    }
}

/// Division keeps the order of products.
proof fn lemma_div_bound(a: int, b: int, q: int)
    requires
        b >= 1,
        0 <= a <= b * q,
        q >= 0,
    ensures
        a / b <= q,
{
    assert(a / b <= q) by (nonlinear_arith)
        requires
            b >= 1,
            0 <= a <= b * q,
            q >= 0,
    ;
}

/// Compute the scaled size for fit mode.
pub fn compute_fit_dims(sw: u32, sh: u32, tw: u32, th: u32) -> (r: (u32, u32))
    requires
        1 <= sw,
        1 <= sh,
        1 <= tw <= 2000,
        1 <= th <= 2000,
    ensures
        (r.0 as int, r.1 as int) == spec_fit_dims(sw as int, sh as int, tw as int, th as int),
        1 <= r.0 <= tw,
        1 <= r.1 <= th,
        r.0 == tw || r.1 == th,
{
    proof {
        assert((sw as int) * (th as int) <= 0xffff_ffff * 2000 && (sh as int) * (tw as int)
            <= 0xffff_ffff * 2000) by (nonlinear_arith)
            requires
                sw <= 0xffff_ffff,
                sh <= 0xffff_ffff,
                tw <= 2000,
                th <= 2000,
        ;
    }
    let a: u64 = (sw as u64) * (th as u64);
    let b: u64 = (sh as u64) * (tw as u64);
    if a <= b {
        let nw: u64 = a / (sh as u64);
        proof {
            lemma_div_bound(a as int, sh as int, tw as int);
        }
        let nw32: u32 = if nw >= 1 {
            nw as u32
        } else {
            1
        };
        (nw32, th)
    } else {
        let nh: u64 = b / (sw as u64);
        proof {
            lemma_div_bound(b as int, sw as int, th as int);
        }
        let nh32: u32 = if nh >= 1 {
            nh as u32
        } else {
            1
        };
        (tw, nh32)
    }
}

/// Compute the scaled size for fill mode.
pub fn compute_fill_dims(sw: u32, sh: u32, tw: u32, th: u32) -> (r: (u32, u32))
    requires
        1 <= sw,
        1 <= sh,
        1 <= tw <= 2000,
        1 <= th <= 2000,
    ensures
        (r.0 as int, r.1 as int) == spec_fill_dims(sw as int, sh as int, tw as int, th as int),
        r.0 >= tw,
        r.1 >= th,
        r.0 == tw || r.1 == th,
{
    proof {
        assert((sw as int) * (th as int) <= 0xffff_ffff * 2000 && (sh as int) * (tw as int)
            <= 0xffff_ffff * 2000) by (nonlinear_arith)
            requires
                sw <= 0xffff_ffff,
                sh <= 0xffff_ffff,
                tw <= 2000,
                th <= 2000,
        ;
    }
    let a: u64 = (sw as u64) * (th as u64);
    let b: u64 = (sh as u64) * (tw as u64);
    if a <= b {
        let q: u64 = b / (sw as u64);
        let nh: u64 = if q >= (th as u64) {
            q
        } else {
            th as u64
        };
        let nh32: u32 = if nh <= (u32::MAX as u64) {
            nh as u32
        } else {
            u32::MAX
        };
        (tw, nh32)
    } else {
        let q: u64 = a / (sh as u64);
        let nw: u64 = if q >= (tw as u64) {
            q
        } else {
            tw as u64
        };
        let nw32: u32 = if nw <= (u32::MAX as u64) {
            nw as u32
        } else {
            u32::MAX
        };
        (nw32, th)
    }
}

/// Paste an image onto a white canvas of the target size at the given
/// offset: inside the pasted box the source pixels, white everywhere
/// else.
#[verifier::rlimit(60)]
pub fn pad_to_canvas(img: &RgbFrame, tw: u32, th: u32, ox: u32, oy: u32) -> (out: RgbFrame)
    requires
        img.wf(),
        ox + img.width <= tw,
        oy + img.height <= th,
        3 * (tw as int) * (th as int) <= usize::MAX,
    ensures
        out.wf(),
        out.width == tw,
        out.height == th,
        forall|x: int, y: int, c: int|
            0 <= x < tw && 0 <= y < th && 0 <= c < 3 ==> #[trigger] out.px(x, y, c) == (if ox <= x
                < ox + img.width && oy <= y < oy + img.height {
                img.px(x - ox, y - oy, c)
            } else {
                255u8
            }),
{
    proof {
        lemma_triple_area(tw as int, th as int);
    }
    let total: usize = (tw as usize) * (th as usize);
    let mut pixels: Vec<u8> = Vec::new();
    let mut p: usize = 0;
    while p < total
        invariant
            p <= total,
            img.wf(),
            ox + img.width <= tw,
            oy + img.height <= th,
            total == (tw as int) * (th as int),
            pixels@.len() == 3 * p,
            forall|q: int, c: int|
                0 <= q < p && 0 <= c < 3 ==> #[trigger] pixels@[3 * q + c] == (if ox <= q % (
                tw as int) < ox + img.width && oy <= q / (tw as int) < oy + img.height {
                    img.px(q % (tw as int) - ox, q / (tw as int) - oy, c)
                } else {
                    255u8
                }),
        decreases total - p,
    {
        proof {
            assert(tw > 0) by (nonlinear_arith)
                requires
                    (tw as int) * (th as int) > p >= 0,
            ;
            assert((p as int) / (tw as int) < th) by (nonlinear_arith)
                requires
                    0 <= p < (tw as int) * (th as int),
                    tw > 0,
            ;
        }
        let x: u32 = (p % (tw as usize)) as u32;
        let y: u32 = (p / (tw as usize)) as u32;
        if ox <= x && x < ox + img.width && oy <= y && y < oy + img.height {
            let b0 = img.get_px(x - ox, y - oy, 0);
            let b1 = img.get_px(x - ox, y - oy, 1);
            let b2 = img.get_px(x - ox, y - oy, 2);
            pixels.push(b0);
            pixels.push(b1);
            pixels.push(b2);
        } else {
            pixels.push(255);
            pixels.push(255);
            pixels.push(255);
        }
        p = p + 1;
    }
    let out = RgbFrame { width: tw, height: th, pixels };
    proof {
        lemma_triple_area(tw as int, th as int);
        assert forall|x: int, y: int, c: int|
            0 <= x < tw && 0 <= y < th && 0 <= c < 3 implies #[trigger] out.px(x, y, c) == (if ox
            <= x < ox + img.width && oy <= y < oy + img.height {
            img.px(x - ox, y - oy, c)
        } else {
            255u8
        }) by {
            let q = y * (tw as int) + x;
            lemma_flat_index(tw as int, th as int, x, y);
            lemma_rowmajor(tw as int, x, y);
            assert(out.px(x, y, c) == out.pixels@[3 * q + c]);
        }
    }
    out
}

/// Cut the target-size window at the given offset out of an image.
#[verifier::rlimit(60)]
pub fn center_crop(img: &RgbFrame, tw: u32, th: u32, cx: u32, cy: u32) -> (out: RgbFrame)
    requires
        img.wf(),
        cx + tw <= img.width,
        cy + th <= img.height,
        3 * (tw as int) * (th as int) <= usize::MAX,
    ensures
        out.wf(),
        out.width == tw,
        out.height == th,
        forall|x: int, y: int, c: int|
            0 <= x < tw && 0 <= y < th && 0 <= c < 3 ==> #[trigger] out.px(x, y, c) == img.px(
                x + cx,
                y + cy,
                c,
            ),
{
    proof {
        lemma_triple_area(tw as int, th as int);
    }
    let total: usize = (tw as usize) * (th as usize);
    let mut pixels: Vec<u8> = Vec::new();
    let mut p: usize = 0;
    while p < total
        invariant
            p <= total,
            img.wf(),
            cx + tw <= img.width,
            cy + th <= img.height,
            total == (tw as int) * (th as int),
            pixels@.len() == 3 * p,
            forall|q: int, c: int|
                0 <= q < p && 0 <= c < 3 ==> #[trigger] pixels@[3 * q + c] == img.px(
                    q % (tw as int) + cx,
                    q / (tw as int) + cy,
                    c,
                ),
        decreases total - p,
    {
        proof {
            assert(tw > 0) by (nonlinear_arith)
                requires
                    (tw as int) * (th as int) > p >= 0,
            ;
            assert((p as int) / (tw as int) < th) by (nonlinear_arith)
                requires
                    0 <= p < (tw as int) * (th as int),
                    tw > 0,
            ;
        }
        let x: u32 = (p % (tw as usize)) as u32;
        let y: u32 = (p / (tw as usize)) as u32;
        let b0 = img.get_px(x + cx, y + cy, 0);
        let b1 = img.get_px(x + cx, y + cy, 1);
        let b2 = img.get_px(x + cx, y + cy, 2);
        pixels.push(b0);
        pixels.push(b1);
        pixels.push(b2);
        p = p + 1;
    }
    let out = RgbFrame { width: tw, height: th, pixels };
    proof {
        lemma_triple_area(tw as int, th as int);
        assert forall|x: int, y: int, c: int|
            0 <= x < tw && 0 <= y < th && 0 <= c < 3 implies #[trigger] out.px(x, y, c) == img.px(
            x + cx,
            y + cy,
            c,
        ) by {
            let q = y * (tw as int) + x;
            lemma_flat_index(tw as int, th as int, x, y);
            lemma_rowmajor(tw as int, x, y);
            assert(out.px(x, y, c) == out.pixels@[3 * q + c]);
        }
    }
    out
}

/// What the imaging library's triangle-filter resampling yields: the
/// row-major RGB bytes of a `w` x `h` image scaled to `nw` x `nh`. The
/// result depends on the pixels and the four dimensions alone.
pub uninterp spec fn resampled(px: Seq<u8>, w: int, h: int, nw: int, nh: int) -> Seq<u8>;

/// Relies on `image::RgbImage::from_raw`, `DynamicImage::resize_exact`
/// (triangle filter) and `into_rgb8`: resampling depends on its arguments
/// alone and yields an image of exactly the requested dimensions.
#[verifier::external_body]
fn resize_rgb(img: &RgbFrame, nw: u32, nh: u32) -> (out: RgbFrame)
    requires
        img.wf(),
        1 <= img.width,
        1 <= img.height,
        1 <= nw,
        1 <= nh,
    ensures
        out.wf(),
        out.width == nw,
        out.height == nh,
        out.pixels@ == resampled(
            img.pixels@,
            img.width as int,
            img.height as int,
            nw as int,
            nh as int,
        ),
{
    let buf = image::RgbImage::from_raw(img.width, img.height, img.pixels.clone()).unwrap();
    let resized = image::DynamicImage::ImageRgb8(buf).resize_exact(
        nw,
        nh,
        image::imageops::FilterType::Triangle,
    );
    let rgb = resized.into_rgb8();
    RgbFrame { width: nw, height: nh, pixels: rgb.into_raw() }
}

/// The dimensions an image has after the orientation phase: the quarter
/// turns swap the sides, mirroring keeps them.
pub open spec fn spec_oriented_dims(w: int, h: int, rotation: Rotation) -> (int, int) {
    if rotation == Rotation::Rotate90 || rotation == Rotation::Rotate270 {
        (h, w)
    } else {
        (w, h)
    }
}

/// Transform an image for display: rotation and mirroring in the
/// configured order (both exactly specified pixel permutations), then the
/// trusted resampling to the fit or fill size, with white letterbox bars
/// and centering in fit mode and a center crop in fill mode. Every output
/// pixel is pinned: inside the scaled box it is the named resampling of
/// the oriented image, outside (fit mode only) it is white.
pub fn transform_image(img: RgbFrame, options: &TransformOptions) -> (out: RgbFrame)
    requires
        img.wf(),
        1 <= img.width,
        1 <= img.height,
        1 <= options.target_width <= 2000,
        1 <= options.target_height <= 2000,
    ensures
        out.wf(),
        out.width == options.target_width,
        out.height == options.target_height,
        ({
            let tw = options.target_width as int;
            let th = options.target_height as int;
            let dims = spec_oriented_dims(img.width as int, img.height as int, options.rotation);
            let opx = spec_oriented_px(img.pixels@, img.width as int, img.height as int, options);
            if options.scale_to_fit {
                let fit = spec_fit_dims(dims.0, dims.1, tw, th);
                let sc = resampled(opx, dims.0, dims.1, fit.0, fit.1);
                let ox = (tw - fit.0) / 2;
                let oy = (th - fit.1) / 2;
                forall|x: int, y: int, c: int|
                    0 <= x < tw && 0 <= y < th && 0 <= c < 3 ==> #[trigger] out.px(x, y, c) == (
                    if ox <= x < ox + fit.0 && oy <= y < oy + fit.1 {
                        sc[3 * ((y - oy) * fit.0 + (x - ox)) + c]
                    } else {
                        255u8
                    })
            } else {
                let fl = spec_fill_dims(dims.0, dims.1, tw, th);
                let sc = resampled(opx, dims.0, dims.1, fl.0, fl.1);
                let cx = (fl.0 - tw) / 2;
                let cy = (fl.1 - th) / 2;
                forall|x: int, y: int, c: int|
                    0 <= x < tw && 0 <= y < th && 0 <= c < 3 ==> #[trigger] out.px(x, y, c) == sc[3
                        * ((y + cy) * fl.0 + (x + cx)) + c]
            }
        }),
{
    let ghost iw: int = img.width as int;
    let ghost ih: int = img.height as int;
    let ghost dims0 = spec_oriented_dims(iw, ih, options.rotation);
    let ghost opx = spec_oriented_px(img.pixels@, iw, ih, options);
    let oriented: RgbFrame = if options.rotate_first {
        let r = apply_rotation(img, options.rotation);
        apply_mirroring(r, options.mirror_h, options.mirror_v)
    } else {
        let m = apply_mirroring(img, options.mirror_h, options.mirror_v);
        apply_rotation(m, options.rotation)
    };
    proof {
        assert(oriented.pixels@ == opx);
        assert((oriented.width as int, oriented.height as int) == dims0);
    }
    let tw = options.target_width;
    let th = options.target_height;
    if options.scale_to_fit {
        let (nw, nh) = compute_fit_dims(oriented.width, oriented.height, tw, th);
        let scaled = resize_rgb(&oriented, nw, nh);
        let ox = (tw - nw) / 2;
        let oy = (th - nh) / 2;
        proof {
            lemma_triple_area(tw as int, th as int);
            assert(3 * (tw as int) * (th as int) <= 3 * 2000 * 2000) by (nonlinear_arith)
                requires
                    0 <= tw <= 2000,
                    0 <= th <= 2000,
            ;
        }
        let out = pad_to_canvas(&scaled, tw, th, ox, oy);
        proof {
            let fit = spec_fit_dims(dims0.0, dims0.1, tw as int, th as int);
            let sc = resampled(opx, dims0.0, dims0.1, fit.0, fit.1);
            assert(scaled.pixels@ == sc);
            assert forall|x: int, y: int, c: int|
                0 <= x < tw && 0 <= y < th && 0 <= c < 3 implies #[trigger] out.px(x, y, c) == (
            if ox <= x < ox + fit.0 && oy <= y < oy + fit.1 {
                sc[3 * ((y - oy) * fit.0 + (x - ox)) + c]
            } else {
                255u8
            }) by {
                if ox <= x < ox + fit.0 && oy <= y < oy + fit.1 {
                    assert(out.px(x, y, c) == scaled.px(x - ox, y - oy, c));
                }
            }
        }
        out
    } else {
        let (nw, nh) = compute_fill_dims(oriented.width, oriented.height, tw, th);
        let scaled = resize_rgb(&oriented, nw, nh);
        let cx = (nw - tw) / 2;
        let cy = (nh - th) / 2;
        proof {
            lemma_triple_area(tw as int, th as int);
            assert(3 * (tw as int) * (th as int) <= 3 * 2000 * 2000) by (nonlinear_arith)
                requires
                    0 <= tw <= 2000,
                    0 <= th <= 2000,
            ;
        }
        let out = center_crop(&scaled, tw, th, cx, cy);
        proof {
            let fl = spec_fill_dims(dims0.0, dims0.1, tw as int, th as int);
            let sc = resampled(opx, dims0.0, dims0.1, fl.0, fl.1);
            assert(scaled.pixels@ == sc);
            assert forall|x: int, y: int, c: int|
                0 <= x < tw && 0 <= y < th && 0 <= c < 3 implies #[trigger] out.px(x, y, c) == sc[3
                * ((y + cy) * fl.0 + (x + cx)) + c] by {
                assert(out.px(x, y, c) == scaled.px(x + cx, y + cy, c));
            }
        }
        out
    }
}

} // verus!
