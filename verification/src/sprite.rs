//! Decoded animation frames and the box their visible pixels occupy.
//!
//! All frames of the walk cycle are cropped to one common rectangle: the
//! smallest one that holds every pixel with a non-zero alpha in any frame.

use vstd::prelude::*;

verus! {

/// An RGBA image: `width * height` pixels in row-major order, four bytes
/// (red, green, blue, alpha) per pixel.
pub struct RgbaFrame {
    pub width: u32,
    pub height: u32,
    pub pixels: Vec<u8>,
}

impl RgbaFrame {
    /// The pixel buffer holds exactly `width * height` pixels.
    pub open spec fn wf(&self) -> bool {
        self.pixels@.len() == self.width * self.height * 4
    }
}

/// The alpha byte of pixel `(x, y)`.
pub open spec fn alpha_at(f: &RgbaFrame, x: int, y: int) -> u8 {
    f.pixels@[(y * f.width + x) * 4 + 3]
}

/// Pixel `(x, y)` lies in the frame and is not fully transparent.
pub open spec fn opaque(f: &RgbaFrame, x: int, y: int) -> bool {
    0 <= x < f.width && 0 <= y < f.height && alpha_at(f, x, y) > 0
}

pub open spec fn has_opaque(f: &RgbaFrame) -> bool {
    exists|x: int, y: int| opaque(f, x, y)
}

/// `b` is `(min_x, min_y, max_x, max_y)` of the pixels of `f` that are not
/// fully transparent; `(width, height, 0, 0)` when there are none.
pub open spec fn is_alpha_bounds(f: &RgbaFrame, b: (u32, u32, u32, u32)) -> bool {
    if has_opaque(f) {
        &&& forall|x: int, y: int|
            #[trigger] opaque(f, x, y) ==> b.0 <= x <= b.2 && b.1 <= y <= b.3
        &&& exists|y: int| #[trigger] opaque(f, b.0 as int, y)
        &&& exists|x: int| #[trigger] opaque(f, x, b.1 as int)
        &&& exists|y: int| #[trigger] opaque(f, b.2 as int, y)
        &&& exists|x: int| #[trigger] opaque(f, x, b.3 as int)
    } else {
        b == (f.width, f.height, 0u32, 0u32)
    }
}

/// The alpha bounds of `f` (see [`is_alpha_bounds`]).
pub open spec fn alpha_bounds_of(f: &RgbaFrame) -> (u32, u32, u32, u32) {
    choose|b: (u32, u32, u32, u32)| is_alpha_bounds(f, b)
}

/// The alpha bounds of a frame are unique.
proof fn lemma_alpha_bounds_unique(f: &RgbaFrame, a: (u32, u32, u32, u32), b: (u32, u32, u32, u32))
    requires
        is_alpha_bounds(f, a),
        is_alpha_bounds(f, b),
    ensures
        a == b,
{
    if has_opaque(f) {
        let ya = choose|y: int| #[trigger] opaque(f, a.0 as int, y);
        let yb = choose|y: int| #[trigger] opaque(f, b.0 as int, y);
        assert(opaque(f, a.0 as int, ya));
        assert(opaque(f, b.0 as int, yb));
        let xa = choose|x: int| #[trigger] opaque(f, x, a.1 as int);
        let xb = choose|x: int| #[trigger] opaque(f, x, b.1 as int);
        assert(opaque(f, xa, a.1 as int));
        assert(opaque(f, xb, b.1 as int));
        let ya2 = choose|y: int| #[trigger] opaque(f, a.2 as int, y);
        let yb2 = choose|y: int| #[trigger] opaque(f, b.2 as int, y);
        assert(opaque(f, a.2 as int, ya2));
        assert(opaque(f, b.2 as int, yb2));
        let xa3 = choose|x: int| #[trigger] opaque(f, x, a.3 as int);
        let xb3 = choose|x: int| #[trigger] opaque(f, x, b.3 as int);
        assert(opaque(f, xa3, a.3 as int));
        assert(opaque(f, xb3, b.3 as int));
    }
}

/// Pixel `(x2, y2)` comes before pixel `(x, y)` in row-major order.
pub open spec fn before(x2: int, y2: int, x: int, y: int) -> bool {
    y2 < y || (y2 == y && x2 < x)
}

/// What the scan of `f` has established once every pixel before `(x, y)`
/// has been visited, with `b` the bounds found so far and `found` whether an
/// opaque pixel has been seen.
pub open spec fn scan_state(
    f: &RgbaFrame,
    x: int,
    y: int,
    b: (u32, u32, u32, u32),
    found: bool,
) -> bool {
    &&& found == (exists|x2: int, y2: int| #[trigger] opaque(f, x2, y2) && before(x2, y2, x, y))
    &&& !found ==> b == (f.width, f.height, 0u32, 0u32)
    &&& found ==> {
        &&& forall|x2: int, y2: int|
            #[trigger] opaque(f, x2, y2) && before(x2, y2, x, y) ==> b.0 <= x2 <= b.2 && b.1 <= y2
                <= b.3
        &&& exists|y2: int| #[trigger] opaque(f, b.0 as int, y2)
        &&& exists|x2: int| #[trigger] opaque(f, x2, b.1 as int)
        &&& exists|y2: int| #[trigger] opaque(f, b.2 as int, y2)
        &&& exists|x2: int| #[trigger] opaque(f, x2, b.3 as int)
    }
}

/// The bounds `b` extended by pixel `(x, y)`.
pub open spec fn extend_bounds(b: (u32, u32, u32, u32), x: u32, y: u32) -> (u32, u32, u32, u32) {
    (
        if x < b.0 { x } else { b.0 },
        if y < b.1 { y } else { b.1 },
        if x > b.2 { x } else { b.2 },
        if y > b.3 { y } else { b.3 },
    )
}

proof fn lemma_scan_step(
    f: &RgbaFrame,
    x: u32,
    y: u32,
    b: (u32, u32, u32, u32),
    found: bool,
    nb: (u32, u32, u32, u32),
    nfound: bool,
)
    requires
        scan_state(f, x as int, y as int, b, found),
        x < f.width,
        y < f.height,
        opaque(f, x as int, y as int) ==> nfound && nb == extend_bounds(b, x, y),
        !opaque(f, x as int, y as int) ==> nfound == found && nb == b,
    ensures
        scan_state(f, x + 1, y as int, nb, nfound),
{
    let xi: int = x as int;
    let yi: int = y as int;
    assert forall|x2: int, y2: int| #[trigger]
        opaque(f, x2, y2) && before(x2, y2, xi + 1, yi) implies before(x2, y2, xi, yi) || (x2 == xi
        && y2 == yi) by {}
    if opaque(f, xi, yi) {
        assert(opaque(f, xi, yi) && before(xi, yi, xi + 1, yi));
        if !found {
            assert(b == (f.width, f.height, 0u32, 0u32));
            assert(nb == (x, y, x, y));
            assert forall|x2: int, y2: int| #[trigger]
                opaque(f, x2, y2) && before(x2, y2, xi + 1, yi) implies nb.0 <= x2 <= nb.2 && nb.1
                <= y2 <= nb.3 by {
                if before(x2, y2, xi, yi) {
                    assert(opaque(f, x2, y2) && before(x2, y2, xi, yi));
                }
            }
        } else {
            if x < b.0 {
                assert(opaque(f, nb.0 as int, yi));
            }
            if y < b.1 {
                assert(opaque(f, xi, nb.1 as int));
            }
            if x > b.2 {
                assert(opaque(f, nb.2 as int, yi));
            }
            if y > b.3 {
                assert(opaque(f, xi, nb.3 as int));
            }
        }
    } else {
        if found {
            let (xw, yw) = choose|x2: int, y2: int| #[trigger]
                opaque(f, x2, y2) && before(x2, y2, xi, yi);
            assert(opaque(f, xw, yw) && before(xw, yw, xi + 1, yi));
        } else {
            assert forall|x2: int, y2: int| #[trigger]
                opaque(f, x2, y2) implies !before(x2, y2, xi + 1, yi) by {
                if before(x2, y2, xi, yi) {
                    assert(opaque(f, x2, y2) && before(x2, y2, xi, yi));
                }
            }
        }
    }
}

proof fn lemma_index_in_bounds(w: int, h: int, x: int, y: int)
    requires
        0 <= x < w,
        0 <= y < h,
    ensures
        (y * w + x) * 4 + 3 < w * h * 4,
        0 <= y * w + x,
{
    assert(y * w + x < w * h) by (nonlinear_arith)
        requires
            0 <= x < w,
            0 <= y < h,
    ;
    assert(0 <= y * w) by (nonlinear_arith)
        requires
            0 <= y,
            0 <= w,
    ;
}

/// The bounding box `(min_x, min_y, max_x, max_y)` of the pixels of `img`
/// that are not fully transparent; `(width, height, 0, 0)` when all are.
pub fn alpha_bounds(img: &RgbaFrame) -> (r: (u32, u32, u32, u32))
    requires
        img.wf(),
    ensures
        is_alpha_bounds(img, r),
        r == alpha_bounds_of(img),
{
    let w: u32 = img.width;
    let h: u32 = img.height;
    let mut min_x: u32 = w;
    let mut min_y: u32 = h;
    let mut max_x: u32 = 0;
    let mut max_y: u32 = 0;
    let ghost mut found = false;
    let len: usize = img.pixels.len();
    let mut i: usize = 0;
    let mut y: u32 = 0;
    while y < h
        invariant
            img.wf(),
            len == img.pixels@.len(),
            w == img.width,
            h == img.height,
            y <= h,
            i as int == y * w * 4,
            scan_state(img, 0, y as int, (min_x, min_y, max_x, max_y), found),
        decreases h - y,
    {
        let mut x: u32 = 0;
        while x < w
            invariant
                img.wf(),
                len == img.pixels@.len(),
                w == img.width,
                h == img.height,
                y < h,
                x <= w,
                i as int == (y * w + x) * 4,
                scan_state(img, x as int, y as int, (min_x, min_y, max_x, max_y), found),
            decreases w - x,
        {
            proof {
                lemma_index_in_bounds(w as int, h as int, x as int, y as int);
            }
            assert(i + 3 < img.pixels@.len());
            let ghost b = (min_x, min_y, max_x, max_y);
            let ghost old_found = found;
            if img.pixels[i + 3] > 0 {
                if x < min_x {
                    min_x = x;
                }
                if y < min_y {
                    min_y = y;
                }
                if x > max_x {
                    max_x = x;
                }
                if y > max_y {
                    max_y = y;
                }
                proof {
                    found = true;
                }
            }
            proof {
                lemma_scan_step(img, x, y, b, old_found, (min_x, min_y, max_x, max_y), found);
            }
            i = i + 4;
            x = x + 1;
        }
        proof {
            assert(i as int == (y + 1) * w * 4) by (nonlinear_arith)
                requires
                    i as int == (y * w + w) * 4,
            ;
            assert forall|x2: int, y2: int|
                before(x2, y2, w as int, y as int) && #[trigger] opaque(img, x2, y2) implies before(
                x2,
                y2,
                0,
                y + 1,
            ) by {}
            assert forall|x2: int, y2: int|
                before(x2, y2, 0, y + 1) && #[trigger] opaque(img, x2, y2) implies before(
                x2,
                y2,
                w as int,
                y as int,
            ) by {}
        }
        y = y + 1;
    }
    proof {
        assert forall|x2: int, y2: int| #[trigger] opaque(img, x2, y2) implies before(
            x2,
            y2,
            0,
            h as int,
        ) by {}
        let b = (min_x, min_y, max_x, max_y);
        assert(is_alpha_bounds(img, b));
        lemma_alpha_bounds_unique(img, b, alpha_bounds_of(img));
    }
    (min_x, min_y, max_x, max_y)
}

/// The bounds `a` and `b` joined: the smaller minima and the larger maxima.
pub open spec fn union_bounds(a: (u32, u32, u32, u32), b: (u32, u32, u32, u32)) -> (
    u32,
    u32,
    u32,
    u32,
) {
    (
        if b.0 < a.0 { b.0 } else { a.0 },
        if b.1 < a.1 { b.1 } else { a.1 },
        if b.2 > a.2 { b.2 } else { a.2 },
        if b.3 > a.3 { b.3 } else { a.3 },
    )
}

/// The alpha bounds of all `frames` joined, starting from
/// `(u32::MAX, u32::MAX, 0, 0)`.
pub open spec fn global_alpha_bounds(frames: Seq<RgbaFrame>) -> (u32, u32, u32, u32)
    decreases frames.len(),
{
    if frames.len() == 0 {
        (u32::MAX, u32::MAX, 0u32, 0u32)
    } else {
        union_bounds(global_alpha_bounds(frames.drop_last()), alpha_bounds_of(&frames.last()))
    }
}

/// A rectangle of pixels: its top-left corner and its size.
#[derive(Debug, Clone, Copy, PartialEq, Eq, Structural)]
pub struct CropRect {
    pub x: u32,
    pub y: u32,
    pub width: u32,
    pub height: u32,
}

/// The span `lo..=hi` has a size that fits in `u32`.
pub open spec fn span_fits(lo: u32, hi: u32) -> bool {
    lo <= hi && hi - lo + 1 <= u32::MAX
}

/// The common crop of the walk-cycle frames: the rectangle from the smallest
/// to the largest coordinates of the non-transparent pixels of all frames.
/// `None` when the frames hold no such pixel (no such rectangle exists).
pub fn sprite_crop(frames: &Vec<RgbaFrame>) -> (r: Option<CropRect>)
    requires
        forall|i: int| 0 <= i < frames@.len() ==> (#[trigger] frames@[i]).wf(),
    ensures
        ({
            let g = global_alpha_bounds(frames@);
            match r {
                Some(c) => span_fits(g.0, g.2) && span_fits(g.1, g.3) && c == (CropRect {
                    x: g.0,
                    y: g.1,
                    width: (g.2 - g.0 + 1) as u32,
                    height: (g.3 - g.1 + 1) as u32,
                }),
                None => !(span_fits(g.0, g.2) && span_fits(g.1, g.3)),
            }
        }),
{
    let mut acc: (u32, u32, u32, u32) = (u32::MAX, u32::MAX, 0, 0);
    let n: usize = frames.len();
    let mut i: usize = 0;
    while i < n
        invariant
            n == frames@.len(),
            i <= n,
            forall|j: int| 0 <= j < frames@.len() ==> (#[trigger] frames@[j]).wf(),
            acc == global_alpha_bounds(frames@.take(i as int)),
        decreases n - i,
    {
        let b = alpha_bounds(&frames[i]);
        proof {
            assert(frames@.take(i + 1).drop_last() =~= frames@.take(i as int));
            assert(frames@.take(i + 1).last() == frames@[i as int]);
        }
        acc = (
            if b.0 < acc.0 { b.0 } else { acc.0 },
            if b.1 < acc.1 { b.1 } else { acc.1 },
            if b.2 > acc.2 { b.2 } else { acc.2 },
            if b.3 > acc.3 { b.3 } else { acc.3 },
        );
        i = i + 1;
    }
    proof {
        assert(frames@.take(n as int) =~= frames@);
    }
    let (min_x, min_y, max_x, max_y) = acc;
    if min_x > max_x || min_y > max_y {
        return None;
    }
    let dx: u32 = max_x - min_x;
    let dy: u32 = max_y - min_y;
    if dx == u32::MAX || dy == u32::MAX {
        return None;
    }
    Some(CropRect { x: min_x, y: min_y, width: dx + 1, height: dy + 1 })
}

proof fn lemma_global_covers(frames: Seq<RgbaFrame>, i: int, x: int, y: int)
    requires
        0 <= i < frames.len(),
        opaque(&frames[i], x, y),
    ensures
        ({
            let g = global_alpha_bounds(frames);
            g.0 <= x <= g.2 && g.1 <= y <= g.3
        }),
    decreases frames.len(),
{
    let last = frames.last();
    if i == frames.len() - 1 {
        assert(opaque(&last, x, y));
        lemma_alpha_bounds_exist(&last);
    } else {
        assert(frames.drop_last()[i] == frames[i]);
        lemma_global_covers(frames.drop_last(), i, x, y);
    }
}

/// The least `i` in `0..n` with `p(i)`, when there is one.
proof fn lemma_least(p: spec_fn(int) -> bool, n: nat) -> (m: int)
    requires
        exists|i: int| 0 <= i < n && #[trigger] p(i),
    ensures
        0 <= m < n,
        p(m),
        forall|i: int| 0 <= i < n && #[trigger] p(i) ==> m <= i,
    decreases n,
{
    if exists|i: int| 0 <= i < n - 1 && #[trigger] p(i) {
        lemma_least(p, (n - 1) as nat)
    } else {
        let w = choose|i: int| 0 <= i < n && #[trigger] p(i);
        assert(w == n - 1);
        (n - 1) as int
    }
}

/// The greatest `i` in `0..n` with `p(i)`, when there is one.
proof fn lemma_greatest(p: spec_fn(int) -> bool, n: nat) -> (m: int)
    requires
        exists|i: int| 0 <= i < n && #[trigger] p(i),
    ensures
        0 <= m < n,
        p(m),
        forall|i: int| 0 <= i < n && #[trigger] p(i) ==> i <= m,
    decreases n,
{
    if p(n - 1) {
        (n - 1) as int
    } else {
        lemma_greatest(p, (n - 1) as nat)
    }
}

/// Every frame has alpha bounds.
proof fn lemma_alpha_bounds_exist(f: &RgbaFrame)
    ensures
        is_alpha_bounds(f, alpha_bounds_of(f)),
{
    if has_opaque(f) {
        let (x0, y0) = choose|x: int, y: int| opaque(f, x, y);
        let in_col = |x: int| exists|y: int| #[trigger] opaque(f, x, y);
        let in_row = |y: int| exists|x: int| #[trigger] opaque(f, x, y);
        assert(in_col(x0));
        assert(in_row(y0));
        let lx = lemma_least(in_col, f.width as nat);
        let gx = lemma_greatest(in_col, f.width as nat);
        let ly = lemma_least(in_row, f.height as nat);
        let gy = lemma_greatest(in_row, f.height as nat);
        let b = (lx as u32, ly as u32, gx as u32, gy as u32);
        assert forall|x: int, y: int| #[trigger]
            opaque(f, x, y) implies b.0 <= x <= b.2 && b.1 <= y <= b.3 by {
            assert(in_col(x));
            assert(in_row(y));
        }
        assert(in_col(lx));
        assert(in_col(gx));
        assert(in_row(ly));
        assert(in_row(gy));
        assert(is_alpha_bounds(f, b));
    } else {
        assert(is_alpha_bounds(f, (f.width, f.height, 0u32, 0u32)));
    }
}

/// Law: the common crop holds every non-transparent pixel of every frame.
pub proof fn law_crop_covers_visible_pixels(frames: Seq<RgbaFrame>, i: int, x: int, y: int)
    requires
        0 <= i < frames.len(),
        opaque(&frames[i], x, y),
    ensures
        ({
            let g = global_alpha_bounds(frames);
            &&& span_fits(g.0, g.2) && span_fits(g.1, g.3)
            &&& g.0 <= x < g.0 + (g.2 - g.0 + 1)
            &&& g.1 <= y < g.1 + (g.3 - g.1 + 1)
        }),
{
    lemma_global_covers(frames, i, x, y);
    lemma_global_below_size(frames);
}

/// The maxima of the joined bounds are below `u32::MAX`.
proof fn lemma_global_below_size(frames: Seq<RgbaFrame>)
    ensures
        global_alpha_bounds(frames).2 < u32::MAX,
        global_alpha_bounds(frames).3 < u32::MAX,
    decreases frames.len(),
{
    if frames.len() > 0 {
        let last = frames.last();
        lemma_global_below_size(frames.drop_last());
        lemma_alpha_bounds_exist(&last);
        if has_opaque(&last) {
            let b = alpha_bounds_of(&last);
            let y = choose|y: int| #[trigger] opaque(&last, b.2 as int, y);
            let x = choose|x: int| #[trigger] opaque(&last, x, b.3 as int);
            assert(opaque(&last, b.2 as int, y));
            assert(opaque(&last, x, b.3 as int));
        }
    }
}
/// What decoding `bytes` gives: the format guessed by `image::guess_format`
/// from the leading bytes, the image decoded in that format by
/// `image::load_from_memory_with_format`, converted by `into_rgba8`; as the
/// width, the height and the raw RGBA bytes. `None` where no format is
/// recognised or the bytes do not decode in it.
pub uninterp spec fn decoded_image(bytes: Seq<u8>) -> Option<(u32, u32, Seq<u8>)>;

/// Decodes `bytes` as `image::load_from_memory` does when no format hook is
/// registered: `image::guess_format` picks the built-in format from the
/// magic bytes, `image::load_from_memory_with_format` decodes in it (default
/// limits; with a built-in format no decoding hook is consulted) and
/// `DynamicImage::into_rgba8` converts the result. The contract only names
/// the outcome, as a function of the bytes; it states nothing of the image
/// formats themselves.
#[verifier::external_body]
fn decode_rgba(bytes: &[u8]) -> (r: Option<RgbaFrame>)
    ensures
        match r {
            Some(f) => decoded_image(bytes@) == Some((f.width, f.height, f.pixels@)),
            None => decoded_image(bytes@) is None,
        },
{
    match image::guess_format(bytes) {
        Ok(format) => match image::load_from_memory_with_format(bytes, format) {
            Ok(img) => {
                let rgba = img.into_rgba8();
                let (width, height) = rgba.dimensions();
                Some(RgbaFrame { width, height, pixels: rgba.into_raw() })
            },
            Err(_) => None,
        },
        Err(_) => None,
    }
}

/// Decode an embedded animation frame to RGBA, in the format its leading
/// bytes announce. `None` when the bytes cannot be decoded, or when the decoded buffer does not hold exactly
/// `width * height` pixels.
pub fn decode_frame(bytes: &[u8]) -> (r: Option<RgbaFrame>)
    ensures
        r is Some <==> (decoded_image(bytes@) matches Some((w, h, p)) && p.len() == w * h * 4),
        r matches Some(f) ==> f.wf() && decoded_image(bytes@) == Some((f.width, f.height, f.pixels@)),
{
    match decode_rgba(bytes) {
        Some(f) => {
            proof {
                let (a, b) = (f.width as int, f.height as int);
                assert(0 <= a * b <= 0xffff_ffff * 0xffff_ffffint) by (nonlinear_arith)
                    requires
                        0 <= a <= 0xffff_ffff,
                        0 <= b <= 0xffff_ffff,
                ;
            }
            let expected: u128 = f.width as u128 * f.height as u128 * 4;
            if f.pixels.len() as u128 == expected {
                Some(f)
            } else {
                None
            }
        },
        None => None,
    }
}

/// Byte `c` of pixel `(x, y)` of `f`.
pub open spec fn byte_at(f: &RgbaFrame, x: int, y: int, c: int) -> u8 {
    f.pixels@[(y * f.width + x) * 4 + c]
}

/// The part of `rect` that lies in `f` (`image::imageops::crop_imm` clamps
/// the rectangle this way).
pub open spec fn clamped_rect(f: &RgbaFrame, rect: CropRect) -> CropRect {
    let x = if rect.x < f.width { rect.x } else { f.width };
    let y = if rect.y < f.height { rect.y } else { f.height };
    CropRect {
        x,
        y,
        width: if rect.width < f.width - x { rect.width } else { (f.width - x) as u32 },
        height: if rect.height < f.height - y { rect.height } else { (f.height - y) as u32 },
    }
}

/// `c` is the part `rect` of `f`: the pixels of the clamped rectangle, in
/// row-major order.
pub open spec fn is_crop_of(f: &RgbaFrame, rect: CropRect, c: &RgbaFrame) -> bool {
    let r = clamped_rect(f, rect);
    &&& c.wf()
    &&& c.width == r.width
    &&& c.height == r.height
    &&& forall|x: int, y: int, k: int|
        0 <= x < c.width && 0 <= y < c.height && 0 <= k < 4 ==> #[trigger] byte_at(c, x, y, k)
            == byte_at(f, x + r.x, y + r.y, k)
}

/// Crops `f` with `image::imageops::crop_imm` and copies the part out with
/// `SubImage::to_image`. The contract states what their source shows:
/// the rectangle is clamped to the image, and pixel `(x, y)` of the result is
/// pixel `(x + rect.x, y + rect.y)` of the image; the new buffer holds
/// exactly `width * height` pixels.
#[verifier::external_body]
fn crop_rgba(f: &RgbaFrame, rect: CropRect) -> (c: RgbaFrame)
    requires
        f.wf(),
    ensures
        is_crop_of(f, rect, &c),
{
    let img = image::RgbaImage::from_raw(f.width, f.height, f.pixels.clone()).unwrap();
    let part = image::imageops::crop_imm(&img, rect.x, rect.y, rect.width, rect.height).to_image();
    let (width, height) = part.dimensions();
    RgbaFrame { width, height, pixels: part.into_raw() }
}

/// Crop every frame to `rect` (clamped to the frame), in order.
pub fn crop_frames(frames: &Vec<RgbaFrame>, rect: CropRect) -> (r: Vec<RgbaFrame>)
    requires
        forall|i: int| 0 <= i < frames@.len() ==> (#[trigger] frames@[i]).wf(),
    ensures
        r@.len() == frames@.len(),
        forall|i: int| 0 <= i < frames@.len() ==> is_crop_of(&frames@[i], rect, #[trigger] &r@[i]),
{
    let mut r: Vec<RgbaFrame> = Vec::new();
    let n: usize = frames.len();
    let mut i: usize = 0;
    while i < n
        invariant
            n == frames@.len(),
            i <= n,
            r@.len() == i,
            forall|j: int| 0 <= j < frames@.len() ==> (#[trigger] frames@[j]).wf(),
            forall|j: int| 0 <= j < i ==> is_crop_of(&frames@[j], rect, #[trigger] &r@[j]),
        decreases n - i,
    {
        let c = crop_rgba(&frames[i], rect);
        r.push(c);
        i = i + 1;
    }
    r
}

} // verus!
