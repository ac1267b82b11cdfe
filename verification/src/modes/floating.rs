//! The pixel work behind floating mode — grey conversion, dilation, component
//! boxes and the suppression of nested targets — and the labelling of the
//! targets that it finds.
use vstd::prelude::*;

use super::tile::{tile_index, tile_label};
use super::{Rect, Subdivision};
use crate::text::string_push;

verus! {

/// A grey-scale image, row by row.
pub struct GrayImage {
    pub width: u32,
    pub height: u32,
    pub pixels: Vec<u8>,
}

impl GrayImage {
    pub open spec fn wf(&self) -> bool {
        self.pixels@.len() == self.width * self.height
    }
}

/// Half of a value rounded toward zero, as integer division computes it.
pub open spec fn half_toward_zero(a: int) -> int {
    if a >= 0 {
        a / 2
    } else {
        -((-a) / 2)
    }
}

/// Centre of `inner` as the check computes it: the sides are taken as `i32`.
pub open spec fn inner_center_x(inner: Rect) -> int {
    inner.x + half_toward_zero((inner.w as i32) as int)
}

pub open spec fn inner_center_y(inner: Rect) -> int {
    inner.y + half_toward_zero((inner.h as i32) as int)
}

/// `inner`'s centre lies within `outer` and `inner` is smaller.
pub open spec fn spec_rect_contains(outer: Rect, inner: Rect) -> bool {
    &&& inner_center_x(inner) >= outer.x
    &&& inner_center_x(inner) < outer.x + (outer.w as i32)
    &&& inner_center_y(inner) >= outer.y
    &&& inner_center_y(inner) < outer.y + (outer.h as i32)
    &&& inner.w * inner.h < outer.w * outer.h
}

/// The additions that the containment check performs stay in the `i32` range.
pub open spec fn rect_contains_in_range(outer: Rect, inner: Rect) -> bool {
    &&& i32::MIN <= inner_center_x(inner) <= i32::MAX
    &&& i32::MIN <= inner_center_y(inner) <= i32::MAX
    &&& inner_center_x(inner) >= outer.x ==> i32::MIN <= outer.x + (outer.w as i32) <= i32::MAX
    &&& (inner_center_x(inner) >= outer.x && inner_center_x(inner) < outer.x + (outer.w as i32)
        && inner_center_y(inner) >= outer.y) ==> i32::MIN <= outer.y + (outer.h as i32) <= i32::MAX
}

pub proof fn lemma_u32_product(a: u32, b: u32)
    ensures
        0 <= a * b <= u64::MAX,
{
    assert(0 <= a * b <= u64::MAX) by (nonlinear_arith)
        requires
            a <= u32::MAX,
            b <= u32::MAX,
            a >= 0,
            b >= 0,
    ;
}

/// Check if `inner`'s center lies within `outer` and `inner` is smaller.
pub fn rect_contains(outer: &Rect, inner: &Rect) -> (b: bool)
    requires
        rect_contains_in_range(*outer, *inner),
    ensures
        b == spec_rect_contains(*outer, *inner),
{
    proof {
        lemma_u32_product(inner.w, inner.h);
        lemma_u32_product(outer.w, outer.h);
    }
    let icx = inner.x + inner.w as i32 / 2;
    let icy = inner.y + inner.h as i32 / 2;
    icx >= outer.x && icx < outer.x + outer.w as i32 && icy >= outer.y && icy < outer.y + outer.h as i32
        && (inner.w as u64 * inner.h as u64) < (outer.w as u64 * outer.h as u64)
}

/// Every pair of rectangles can be compared without leaving the `i32` range.
pub open spec fn pairwise_in_range(rects: Seq<Rect>) -> bool {
    forall|i: int, j: int|
        0 <= i < rects.len() && 0 <= j < rects.len() ==> rect_contains_in_range(
            #[trigger] rects[i],
            #[trigger] rects[j],
        )
}

/// Whether the containment check of `inner` in `outer` stays in the `i32` range.
pub fn compare_in_range(outer: &Rect, inner: &Rect) -> (b: bool)
    ensures
        b == rect_contains_in_range(*outer, *inner),
{
    let hw: i32 = inner.w as i32 / 2;
    let hh: i32 = inner.h as i32 / 2;
    let icx: i64 = inner.x as i64 + hw as i64;
    let icy: i64 = inner.y as i64 + hh as i64;
    let right: i64 = outer.x as i64 + outer.w as i32 as i64;
    let bottom: i64 = outer.y as i64 + outer.h as i32 as i64;
    let lo = i32::MIN as i64;
    let hi = i32::MAX as i64;
    if !(lo <= icx && icx <= hi && lo <= icy && icy <= hi) {
        return false;
    }
    if icx >= outer.x as i64 && !(lo <= right && right <= hi) {
        return false;
    }
    if icx >= outer.x as i64 && icx < right && icy >= outer.y as i64 && !(lo <= bottom && bottom <= hi) {
        return false;
    }
    true
}

/// Whether every pair of the rectangles can be compared within the `i32` range.
pub fn all_comparable(rects: &Vec<Rect>) -> (b: bool)
    ensures
        b == pairwise_in_range(rects@),
{
    let n = rects.len();
    let mut i: usize = 0;
    while i < n
        invariant
            n == rects@.len(),
            i <= n,
            forall|a: int, c: int| 0 <= a < i && 0 <= c < n ==> rect_contains_in_range(#[trigger] rects@[a], #[trigger] rects@[c]),
        decreases n - i,
    {
        let mut j: usize = 0;
        while j < n
            invariant
                n == rects@.len(),
                i < n,
                j <= n,
                forall|a: int, c: int| 0 <= a < i && 0 <= c < n ==> rect_contains_in_range(#[trigger] rects@[a], #[trigger] rects@[c]),
                forall|c: int| 0 <= c < j ==> rect_contains_in_range(rects@[i as int], #[trigger] rects@[c]),
            decreases n - j,
        {
            if !compare_in_range(&rects[i], &rects[j]) {
                assert(!rect_contains_in_range(rects@[i as int], rects@[j as int]));
                return false;
            }
            j = j + 1;
        }
        i = i + 1;
    }
    true
}

/// The scan of later rectangles for rectangle `i`, from position `j` on: a kept
/// later rectangle inside `i` is dropped; if instead `i` lies inside a kept
/// later one, `i` is dropped and the scan ends.
pub open spec fn scan_later(rects: Seq<Rect>, keep: Seq<bool>, i: int, j: int) -> Seq<bool>
    decreases rects.len() - j,
{
    if j >= rects.len() {
        keep
    } else if !keep[j] {
        scan_later(rects, keep, i, j + 1)
    } else if spec_rect_contains(rects[i], rects[j]) {
        scan_later(rects, keep.update(j, false), i, j + 1)
    } else if spec_rect_contains(rects[j], rects[i]) {
        keep.update(i, false)
    } else {
        scan_later(rects, keep, i, j + 1)
    }
}

/// The scans of every still-kept rectangle from position `i` on.
pub open spec fn scan_all(rects: Seq<Rect>, keep: Seq<bool>, i: int) -> Seq<bool>
    decreases rects.len() - i,
{
    if i >= rects.len() {
        keep
    } else if keep[i] {
        scan_all(rects, scan_later(rects, keep, i, i + 1), i + 1)
    } else {
        scan_all(rects, keep, i + 1)
    }
}

/// Which rectangles survive the suppression of nested ones.
pub open spec fn keep_flags(rects: Seq<Rect>) -> Seq<bool> {
    scan_all(rects, Seq::new(rects.len(), |k: int| true), 0)
}

/// The rectangles whose flag is set, in order.
pub open spec fn flagged(rects: Seq<Rect>, flags: Seq<bool>) -> Seq<Rect>
    decreases rects.len(),
{
    if rects.len() == 0 {
        Seq::empty()
    } else {
        let rest = flagged(rects.drop_last(), flags.take(rects.len() - 1));
        if flags[rects.len() - 1] {
            rest.push(rects.last())
        } else {
            rest
        }
    }
}

pub proof fn lemma_scan_later_len(rects: Seq<Rect>, keep: Seq<bool>, i: int, j: int)
    requires
        keep.len() == rects.len(),
        0 <= i < rects.len(),
        0 <= j,
    ensures
        scan_later(rects, keep, i, j).len() == rects.len(),
    decreases rects.len() - j,
{
    if j < rects.len() {
        lemma_scan_later_len(rects, keep.update(j, false), i, j + 1);
        lemma_scan_later_len(rects, keep, i, j + 1);
    }
}

/// Suppress nested rects, keeping the larger enclosing one.
pub fn suppress_nested(rects: Vec<Rect>) -> (kept: Vec<Rect>)
    requires
        pairwise_in_range(rects@),
    ensures
        kept@ == flagged(rects@, keep_flags(rects@)),
{
    let n = rects.len();
    let mut keep: Vec<bool> = Vec::new();
    let mut k: usize = 0;
    while k < n
        invariant
            n == rects.len(),
            k <= n,
            keep@ == Seq::new(k as nat, |m: int| true),
        decreases n - k,
    {
        keep.push(true);
        k = k + 1;
        assert(keep@ =~= Seq::new(k as nat, |m: int| true));
    }
    let mut i: usize = 0;
    while i < n
        invariant
            n == rects.len(),
            i <= n,
            keep@.len() == n,
            pairwise_in_range(rects@),
            keep_flags(rects@) == scan_all(rects@, keep@, i as int),
        decreases n - i,
    {
        if keep[i] {
            let ghost start = keep@;
            let mut j: usize = i + 1;
            while j < n
                invariant_except_break
                    keep@[i as int],
                    scan_later(rects@, start, i as int, i + 1) == scan_later(rects@, keep@, i as int, j as int),
                invariant
                    n == rects.len(),
                    i < n,
                    i < j <= n,
                    keep@.len() == n,
                    start.len() == n,
                    start[i as int],
                    pairwise_in_range(rects@),
                ensures
                    keep@.len() == n,
                    scan_later(rects@, start, i as int, i + 1) == keep@,
                decreases n - j,
            {
                if keep[j] {
                    if rect_contains(&rects[i], &rects[j]) {
                        keep.set(j, false);
                    } else if rect_contains(&rects[j], &rects[i]) {
                        keep.set(i, false);
                        break;
                    }
                }
                j = j + 1;
            }
            proof {
                lemma_scan_later_len(rects@, start, i as int, i + 1);
            }
            assert(keep_flags(rects@) == scan_all(rects@, keep@, i + 1));
        }
        i = i + 1;
    }
    let mut kept: Vec<Rect> = Vec::new();
    let mut m: usize = 0;
    while m < n
        invariant
            n == rects.len(),
            m <= n,
            keep@.len() == n,
            keep@ == keep_flags(rects@),
            kept@ == flagged(rects@.take(m as int), keep@.take(m as int)),
        decreases n - m,
    {
        if keep[m] {
            kept.push(rects[m]);
        }
        m = m + 1;
        assert(rects@.take(m as int).drop_last() =~= rects@.take(m - 1));
        assert(keep@.take(m as int).take(m - 1) =~= keep@.take(m - 1));
    }
    assert(rects@.take(n as int) =~= rects@);
    assert(keep@.take(n as int) =~= keep@);
    kept
}

/// Neither rectangle's centre-and-size test puts it inside the other.
pub open spec fn not_nested(a: Rect, b: Rect) -> bool {
    !spec_rect_contains(a, b) && !spec_rect_contains(b, a)
}

/// A scan only ever drops rectangles; if `i` survives its scan, every later
/// survivor is not nested with `i`.
proof fn lemma_scan_later_sound(rects: Seq<Rect>, keep: Seq<bool>, i: int, j: int)
    requires
        keep.len() == rects.len(),
        0 <= i < j,
        i < rects.len(),
        keep[i],
    ensures
        scan_later(rects, keep, i, j).len() == rects.len(),
        forall|k: int| 0 <= k < rects.len() && #[trigger] scan_later(rects, keep, i, j)[k] ==> keep[k],
        scan_later(rects, keep, i, j)[i] ==> forall|k: int|
            j <= k < rects.len() && #[trigger] scan_later(rects, keep, i, j)[k] ==> not_nested(rects[i], rects[k]),
    decreases rects.len() - j,
{
    lemma_scan_later_len(rects, keep, i, j);
    if j < rects.len() {
        let r = scan_later(rects, keep, i, j);
        if !keep[j] {
            lemma_scan_later_sound(rects, keep, i, j + 1);
            assert(r == scan_later(rects, keep, i, j + 1));
        } else if spec_rect_contains(rects[i], rects[j]) {
            let k2 = keep.update(j, false);
            lemma_scan_later_sound(rects, k2, i, j + 1);
            assert(r == scan_later(rects, k2, i, j + 1));
            assert forall|k: int| 0 <= k < rects.len() && #[trigger] r[k] implies keep[k] by {
                assert(k2[k] ==> keep[k]);
            }
        } else if spec_rect_contains(rects[j], rects[i]) {
            assert(r == keep.update(i, false));
        } else {
            lemma_scan_later_sound(rects, keep, i, j + 1);
            assert(r == scan_later(rects, keep, i, j + 1));
            assert(not_nested(rects[i], rects[j]));
        }
    }
}

/// After all scans from `i` on, surviving rectangles at or after `i` are
/// pairwise not nested, and only rectangles kept before survive.
proof fn lemma_scan_all_sound(rects: Seq<Rect>, keep: Seq<bool>, i: int)
    requires
        keep.len() == rects.len(),
        0 <= i,
    ensures
        scan_all(rects, keep, i).len() == rects.len(),
        forall|k: int| 0 <= k < rects.len() && #[trigger] scan_all(rects, keep, i)[k] ==> keep[k],
        forall|a: int, b: int|
            i <= a < b < rects.len() && #[trigger] scan_all(rects, keep, i)[a] && #[trigger] scan_all(
                rects,
                keep,
                i,
            )[b] ==> not_nested(rects[a], rects[b]),
    decreases rects.len() - i,
{
    if i < rects.len() {
        if keep[i] {
            let p = scan_later(rects, keep, i, i + 1);
            lemma_scan_later_len(rects, keep, i, i + 1);
            lemma_scan_later_sound(rects, keep, i, i + 1);
            lemma_scan_all_sound(rects, p, i + 1);
        } else {
            lemma_scan_all_sound(rects, keep, i + 1);
        }
    }
}

/// No two rectangles that survive the suppression are nested in one another.
pub proof fn lemma_survivors_not_nested(rects: Seq<Rect>)
    ensures
        keep_flags(rects).len() == rects.len(),
        forall|a: int, b: int|
            0 <= a < b < rects.len() && #[trigger] keep_flags(rects)[a] && #[trigger] keep_flags(rects)[b]
                ==> not_nested(rects[a], rects[b]),
{
    lemma_scan_all_sound(rects, Seq::new(rects.len(), |k: int| true), 0);
}

/// Grey level of an RGB colour: 0.299 R + 0.587 G + 0.114 B, rounded down.
pub open spec fn gray_level(r: u8, g: u8, b: u8) -> u8 {
    ((r * 299 + g * 587 + b * 114) / 1000) as u8
}

/// The grey image of `width × height` RGBA pixels, four bytes each.
pub open spec fn gray_pixels(width: int, height: int, rgba: Seq<u8>) -> Seq<u8> {
    Seq::new(
        (width * height) as nat,
        |k: int| gray_level(rgba[4 * k], rgba[4 * k + 1], rgba[4 * k + 2]),
    )
}

pub fn gray_from_rgba(width: u32, height: u32, rgba: &Vec<u8>) -> (img: GrayImage)
    requires
        rgba@.len() == 4 * width * height,
        width * height <= u32::MAX,
    ensures
        img.wf(),
        img.width == width,
        img.height == height,
        img.pixels@ == gray_pixels(width as int, height as int, rgba@),
{
    assert(4 * width * height == 4 * (width * height)) by (nonlinear_arith);
    let n: usize = (width * height) as usize;
    let len = rgba.len();
    let mut pixels: Vec<u8> = Vec::new();
    let mut k: usize = 0;
    while k < n
        invariant
            len == rgba@.len(),
            n == width * height,
            rgba@.len() == 4 * n,
            k <= n,
            pixels@ == gray_pixels(width as int, height as int, rgba@).subrange(0, k as int),
        decreases n - k,
    {
        assert(k * 4 + 3 < rgba@.len());
        assert(k * 4 <= usize::MAX);
        let idx = k * 4;
        let r = rgba[idx] as u32;
        let g = rgba[idx + 1] as u32;
        let b = rgba[idx + 2] as u32;
        let level = ((r * 299 + g * 587 + b * 114) / 1000) as u8;
        pixels.push(level);
        k = k + 1;
        assert(pixels@ =~= gray_pixels(width as int, height as int, rgba@).subrange(0, k as int));
    }
    GrayImage { width, height, pixels }
}

/// The pixel at column `x` of row `y`.
pub open spec fn pixel_at(pixels: Seq<u8>, width: int, x: int, y: int) -> u8 {
    pixels[y * width + x]
}

/// `c - r`, stopping at zero.
pub open spec fn window_lo(c: int, r: int) -> int {
    if c >= r { c - r } else { 0 }
}

/// `c + r`, stopping at the last position `n - 1`.
pub open spec fn window_hi(c: int, r: int, n: int) -> int {
    if c + r <= n - 1 { c + r } else { n - 1 }
}

/// Some pixel of the window `[x0, x1] × [y0, y1]` is lit.
pub open spec fn ink_in_window(pixels: Seq<u8>, width: int, x0: int, x1: int, y0: int, y1: int) -> bool {
    exists|nx: int, ny: int| x0 <= nx <= x1 && y0 <= ny <= y1 && #[trigger] pixel_at(pixels, width, nx, ny) > 0
}

/// How far a kernel side of `k` pixels reaches past the centre: `k / 2` before
/// it, `(k - 1) / 2` after it, so that the window is exactly `k` long (one
/// pixel for a side of 0 or 1).
pub open spec fn reach_after(k: int) -> int {
    if k <= 0 { 0 } else { (k - 1) / 2 }
}

/// Dilation with a `kw × kh` kernel: a pixel lights up when some pixel of the
/// `kw × kh` window around it is lit, the window reaching `kw / 2` columns to
/// the left and `(kw - 1) / 2` to the right, and likewise `kh / 2` rows up and
/// `(kh - 1) / 2` down; the window is cut off at the image's edges.
pub open spec fn dilated(img: GrayImage, kw: int, kh: int) -> Seq<u8> {
    let w = img.width as int;
    let h = img.height as int;
    Seq::new(
        (w * h) as nat,
        |k: int|
            if ink_in_window(
                img.pixels@,
                w,
                window_lo(k % w, kw / 2),
                window_hi(k % w, reach_after(kw), w),
                window_lo(k / w, kh / 2),
                window_hi(k / w, reach_after(kh), h),
            ) {
                255u8
            } else {
                0u8
            },
    )
}

/// Away from the image's edges, a kernel side of `k >= 1` pixels covers exactly
/// `k` positions: `k / 2` before the centre, the centre, `(k - 1) / 2` after it.
pub proof fn lemma_window_exact(c: int, k: int, n: int)
    requires
        k >= 1,
        c >= k / 2,
        c + reach_after(k) <= n - 1,
    ensures
        window_hi(c, reach_after(k), n) - window_lo(c, k / 2) + 1 == k,
{
}

proof fn lemma_pixel_index(width: int, height: int, x: int, y: int)
    requires
        0 <= x < width,
        0 <= y < height,
    ensures
        0 <= y * width + x < width * height,
{
    assert(0 <= y * width + x < width * height) by (nonlinear_arith)
        requires
            0 <= x < width,
            0 <= y < height,
    ;
}

fn window_has_ink(img: &GrayImage, x0: u32, x1: u32, y0: u32, y1: u32) -> (b: bool)
    requires
        img.wf(),
        x0 <= x1 < img.width,
        y0 <= y1 < img.height,
    ensures
        b == ink_in_window(img.pixels@, img.width as int, x0 as int, x1 as int, y0 as int, y1 as int),
{
    let w = img.width;
    let len = img.pixels.len();
    let mut ny = y0;
    while ny <= y1
        invariant
            len == img.pixels@.len(),
            img.wf(),
            w == img.width,
            x0 <= x1 < img.width,
            y0 <= y1 < img.height,
            y0 <= ny <= y1 + 1,
            forall|cx: int, cy: int|
                x0 <= cx <= x1 && y0 <= cy < ny ==> #[trigger] pixel_at(img.pixels@, w as int, cx, cy) == 0,
        decreases y1 + 1 - ny,
    {
        let mut nx = x0;
        while nx <= x1
            invariant
                len == img.pixels@.len(),
                img.wf(),
                w == img.width,
                x0 <= x1 < img.width,
                y0 <= y1 < img.height,
                y0 <= ny <= y1,
                x0 <= nx <= x1 + 1,
                forall|cx: int, cy: int|
                    x0 <= cx <= x1 && y0 <= cy < ny ==> #[trigger] pixel_at(img.pixels@, w as int, cx, cy) == 0,
                forall|cx: int| x0 <= cx < nx ==> #[trigger] pixel_at(img.pixels@, w as int, cx, ny as int) == 0,
            decreases x1 + 1 - nx,
        {
            proof {
                lemma_pixel_index(w as int, img.height as int, nx as int, ny as int);
                assert(ny * w <= ny * w + nx);
                assert(ny * w + nx < img.pixels@.len());
            }
            let idx = (ny as usize) * (w as usize) + nx as usize;
            if img.pixels[idx] > 0 {
                assert(pixel_at(img.pixels@, w as int, nx as int, ny as int) > 0);
                return true;
            }
            nx = nx + 1;
        }
        ny = ny + 1;
    }
    false
}

/// Dilate a binary image with a rectangular kernel (kw × kh).
pub fn dilate_binary(img: &GrayImage, kw: u32, kh: u32) -> (out: GrayImage)
    requires
        img.wf(),
        img.width == 0 || img.width - 1 + kw / 2 <= u32::MAX,
        img.height == 0 || img.height - 1 + kh / 2 <= u32::MAX,
    ensures
        out.wf(),
        out.width == img.width,
        out.height == img.height,
        out.pixels@ == dilated(*img, kw as int, kh as int),
{
    let w = img.width;
    let h = img.height;
    let hw = kw / 2;
    let hh = kh / 2;
    let aw: u32 = if kw == 0 { 0 } else { (kw - 1) / 2 };
    let ah: u32 = if kh == 0 { 0 } else { (kh - 1) / 2 };
    let n = img.pixels.len();
    let mut pixels: Vec<u8> = Vec::new();
    let mut k: usize = 0;
    while k < n
        invariant
            img.wf(),
            w == img.width,
            h == img.height,
            hw == kw / 2,
            hh == kh / 2,
            aw == reach_after(kw as int),
            ah == reach_after(kh as int),
            aw <= hw,
            ah <= hh,
            n == w * h,
            img.width == 0 || img.width - 1 + kw / 2 <= u32::MAX,
            img.height == 0 || img.height - 1 + kh / 2 <= u32::MAX,
            k <= n,
            pixels@ == dilated(*img, kw as int, kh as int).subrange(0, k as int),
        decreases n - k,
    {
        assert(w > 0) by (nonlinear_arith)
            requires
                k < n,
                n == w * h,
                h >= 0,
        ;
        let xq = k % (w as usize);
        let yq = k / (w as usize);
        assert(yq < h) by (nonlinear_arith)
            requires
                yq == (k as int) / (w as int),
                k < w * h,
                w > 0,
        ;
        let x = xq as u32;
        let y = yq as u32;
        let y0 = if y >= hh { y - hh } else { 0 };
        let y1 = if y + ah <= h - 1 { y + ah } else { h - 1 };
        let x0 = if x >= hw { x - hw } else { 0 };
        let x1 = if x + aw <= w - 1 { x + aw } else { w - 1 };
        let hit = window_has_ink(img, x0, x1, y0, y1);
        pixels.push(if hit { 255u8 } else { 0u8 });
        k = k + 1;
        assert(pixels@ =~= dilated(*img, kw as int, kh as int).subrange(0, k as int));
    }
    GrayImage { width: w, height: h, pixels }
}

/// Labels that connected-component labelling gives the pixels of an image:
/// eight-way connectivity, black as background.
pub uninterp spec fn connected_component_labels(width: u32, height: u32, pixels: Seq<u8>) -> Seq<u32>;

/// Pixel `j` (counted row by row) gets a label of its own when the labelling
/// scans it: it is lit, and none of the neighbours scanned before it — west,
/// north-west, north, north-east — has its value.
pub open spec fn opens_label(pixels: Seq<u8>, width: int, j: int) -> bool {
    let x = j % width;
    let y = j / width;
    let v = pixels[j];
    &&& v != 0
    &&& (x > 0 ==> pixels[j - 1] != v)
    &&& (y > 0 ==> pixels[j - width] != v)
    &&& (x > 0 && y > 0 ==> pixels[j - width - 1] != v)
    &&& (x < width - 1 && y > 0 ==> pixels[j - width + 1] != v)
}

/// Every pixel of a non-empty image opens a label of its own, so the labelling
/// hands out one label more than its store of one per pixel holds: a single lit
/// pixel, for example.
pub open spec fn labelling_overflows(img: GrayImage) -> bool {
    &&& img.width > 0
    &&& img.height > 0
    &&& forall|j: int| 0 <= j < img.width * img.height ==> #[trigger] opens_label(img.pixels@, img.width as int, j)
}

/// Whether labelling the image would run out of labels.
pub fn labelling_would_overflow(img: &GrayImage) -> (b: bool)
    requires
        img.wf(),
    ensures
        b == labelling_overflows(*img),
{
    let w = img.width;
    let n = img.pixels.len();
    if w == 0 || img.height == 0 {
        return false;
    }
    let wu = w as usize;
    let mut j: usize = 0;
    while j < n
        invariant
            img.wf(),
            w == img.width,
            wu == w,
            w > 0,
            img.height > 0,
            n == img.pixels@.len(),
            n == w * img.height,
            j <= n,
            forall|i: int| 0 <= i < j ==> #[trigger] opens_label(img.pixels@, w as int, i),
        decreases n - j,
    {
        let x = j % wu;
        let y = j / wu;
        proof {
            vstd::arithmetic::div_mod::lemma_fundamental_div_mod(j as int, w as int);
            assert(y > 0 ==> j >= wu + x) by (nonlinear_arith)
                requires
                    j == wu * y + x,
                    x >= 0,
                    wu > 0,
            ;
        }
        let v = img.pixels[j];
        let mut opens = v != 0;
        if opens && x > 0 && img.pixels[j - 1] == v {
            opens = false;
        }
        if opens && y > 0 && img.pixels[j - wu] == v {
            opens = false;
        }
        if opens && x > 0 && y > 0 && img.pixels[j - wu - 1] == v {
            opens = false;
        }
        if opens && x + 1 < wu && y > 0 && img.pixels[j - wu + 1] == v {
            opens = false;
        }
        assert(opens == opens_label(img.pixels@, w as int, j as int));
        if !opens {
            return false;
        }
        j = j + 1;
    }
    true
}

/// Calls `imageproc::region_labelling::connected_components` with eight-way
/// connectivity and black as background. Stated of its result, as the crate's
/// source shows: one label per pixel, 0 exactly on background pixels, and labels
/// counted up from 1, so never more than the number of pixels. Which component
/// gets which label is left to the name. The crate sizes its label store by the
/// number of pixels and fails an assertion when every pixel opens a label of its
/// own; such images are left out.
#[verifier::external_body]
fn label_components(img: &GrayImage) -> (labels: Vec<u32>)
    requires
        img.wf(),
        img.width * img.height < 0x1_0000_0000,
        !labelling_overflows(*img),
    ensures
        labels@ == connected_component_labels(img.width, img.height, img.pixels@),
        labels@.len() == img.pixels@.len(),
        forall|i: int| 0 <= i < labels@.len() ==> (labels@[i] == 0) == (img.pixels@[i] == 0),
        forall|i: int| 0 <= i < labels@.len() ==> labels@[i] <= labels@.len(),
{
    let image = image::GrayImage::from_raw(img.width, img.height, img.pixels.clone()).unwrap();
    imageproc::region_labelling::connected_components(
        &image,
        imageproc::region_labelling::Connectivity::Eight,
        image::Luma([0u8]),
    ).into_raw()
}

/// Smallest and largest column and row of a component's pixels.
#[derive(Debug, Clone, Copy, PartialEq, Eq, Structural)]
pub struct PixelBox {
    pub min_x: u32,
    pub min_y: u32,
    pub max_x: u32,
    pub max_y: u32,
}

pub open spec fn max_label(labels: Seq<u32>) -> int
    decreases labels.len(),
{
    if labels.len() == 0 {
        0
    } else {
        let m = max_label(labels.drop_last());
        if labels.last() > m { labels.last() as int } else { m }
    }
}

/// The box of the pixels among the first `n` that carry label `l`; with no such
/// pixel, the empty box (`u32::MAX`, `u32::MAX`, 0, 0).
pub open spec fn fold_box(labels: Seq<u32>, width: int, n: int, l: int) -> PixelBox
    decreases n,
{
    if n <= 0 {
        PixelBox { min_x: u32::MAX, min_y: u32::MAX, max_x: 0, max_y: 0 }
    } else {
        let b = fold_box(labels, width, n - 1, l);
        if labels[n - 1] == l {
            let x = (n - 1) % width;
            let y = (n - 1) / width;
            PixelBox {
                min_x: if x < b.min_x { x as u32 } else { b.min_x },
                min_y: if y < b.min_y { y as u32 } else { b.min_y },
                max_x: if x > b.max_x { x as u32 } else { b.max_x },
                max_y: if y > b.max_y { y as u32 } else { b.max_y },
            }
        } else {
            b
        }
    }
}

/// Boxes of the components labelled 1 to `m` that have pixels, in label order.
pub open spec fn boxes_upto(labels: Seq<u32>, width: int, m: int) -> Seq<PixelBox>
    decreases m,
{
    if m <= 0 {
        Seq::empty()
    } else {
        let rest = boxes_upto(labels, width, m - 1);
        let b = fold_box(labels, width, labels.len() as int, m);
        if b.min_x == u32::MAX {
            rest
        } else {
            rest.push(b)
        }
    }
}

pub open spec fn component_boxes_of(img: GrayImage) -> Seq<PixelBox> {
    let labels = connected_component_labels(img.width, img.height, img.pixels@);
    boxes_upto(labels, img.width as int, max_label(labels))
}

proof fn lemma_max_label_bound(labels: Seq<u32>)
    ensures
        0 <= max_label(labels),
        forall|i: int| 0 <= i < labels.len() ==> labels[i] <= max_label(labels),
        labels.len() > 0 ==> exists|i: int| 0 <= i < labels.len() && labels[i] == max_label(labels),
        labels.len() == 0 ==> max_label(labels) == 0,
        max_label(labels) == 0 || exists|i: int| 0 <= i < labels.len() && labels[i] == max_label(labels),
    decreases labels.len(),
{
    if labels.len() > 0 {
        lemma_max_label_bound(labels.drop_last());
        assert forall|i: int| 0 <= i < labels.len() implies labels[i] <= max_label(labels) by {
            if i < labels.len() - 1 {
                assert(labels[i] == labels.drop_last()[i]);
            }
        }
        if labels.last() <= max_label(labels.drop_last()) && max_label(labels.drop_last()) > 0 {
            let i = choose|i: int|
                0 <= i < labels.drop_last().len() && labels.drop_last()[i] == max_label(labels.drop_last());
            assert(labels[i] == max_label(labels));
        }
        if labels.last() <= max_label(labels.drop_last()) && max_label(labels.drop_last()) == 0 {
            assert(labels[labels.len() - 1] == max_label(labels));
        }
    }
}

/// Bounding box of every connected component of lit pixels.
pub fn component_boxes(img: &GrayImage) -> (boxes: Vec<PixelBox>)
    requires
        img.wf(),
        img.width * img.height < 0x1_0000_0000,
        !labelling_overflows(*img),
    ensures
        boxes@ == component_boxes_of(*img),
{
    let labels = label_components(img);
    let ghost ls = labels@;
    let n = labels.len();
    let w = img.width;
    let mut count: u32 = 0;
    let mut i: usize = 0;
    while i < n
        invariant
            n == labels@.len(),
            i <= n,
            count == max_label(labels@.take(i as int)),
        decreases n - i,
    {
        assert(labels@.take(i + 1).drop_last() =~= labels@.take(i as int));
        if labels[i] > count {
            count = labels[i];
        }
        i = i + 1;
    }
    assert(labels@.take(n as int) =~= labels@);
    proof {
        lemma_max_label_bound(labels@);
    }
    let mut min_x: Vec<u32> = Vec::new();
    let mut min_y: Vec<u32> = Vec::new();
    let mut max_x: Vec<u32> = Vec::new();
    let mut max_y: Vec<u32> = Vec::new();
    let mut c: u32 = 0;
    while c < count
        invariant
            c <= count,
            min_x@.len() == c,
            min_y@.len() == c,
            max_x@.len() == c,
            max_y@.len() == c,
            forall|k: int| 0 <= k < c ==> #[trigger] min_x@[k] == u32::MAX && min_y@[k] == u32::MAX && max_x@[k] == 0 && max_y@[k] == 0,
        decreases count - c,
    {
        min_x.push(u32::MAX);
        min_y.push(u32::MAX);
        max_x.push(0);
        max_y.push(0);
        c = c + 1;
    }
    let mut p: usize = 0;
    while p < n
        invariant
            n == labels@.len(),
            n == img.width * img.height,
            w == img.width,
            count == max_label(labels@),
            forall|q: int| 0 <= q < n ==> labels@[q] <= count,
            p <= n,
            min_x@.len() == count,
            min_y@.len() == count,
            max_x@.len() == count,
            max_y@.len() == count,
            forall|l: int|
                1 <= l <= count ==> (PixelBox {
                    min_x: #[trigger] min_x@[l - 1],
                    min_y: min_y@[l - 1],
                    max_x: max_x@[l - 1],
                    max_y: max_y@[l - 1],
                }) == fold_box(labels@, w as int, p as int, l),
        decreases n - p,
    {
        let l = labels[p];
        if l != 0 {
            assert(w > 0) by (nonlinear_arith)
                requires
                    p < n,
                    n == w * img.height,
                    img.height >= 0,
            ;
            let idx = (l - 1) as usize;
            let x = (p % (w as usize)) as u32;
            let yq = p / (w as usize);
            assert(yq < img.height) by (nonlinear_arith)
                requires
                    yq == (p as int) / (w as int),
                    p < w * img.height,
                    w > 0,
            ;
            let y = yq as u32;
            if x < min_x[idx] {
                min_x.set(idx, x);
            }
            if y < min_y[idx] {
                min_y.set(idx, y);
            }
            if x > max_x[idx] {
                max_x.set(idx, x);
            }
            if y > max_y[idx] {
                max_y.set(idx, y);
            }
        }
        p = p + 1;
        assert forall|m: int| 1 <= m <= count implies (PixelBox {
            min_x: #[trigger] min_x@[m - 1],
            min_y: min_y@[m - 1],
            max_x: max_x@[m - 1],
            max_y: max_y@[m - 1],
        }) == fold_box(labels@, w as int, p as int, m) by {
            assert(fold_box(labels@, w as int, p as int, m) == (if labels@[p - 1] == m {
                let b = fold_box(labels@, w as int, p - 1, m);
                let x = (p - 1) % (w as int);
                let y = (p - 1) / (w as int);
                PixelBox {
                    min_x: if x < b.min_x { x as u32 } else { b.min_x },
                    min_y: if y < b.min_y { y as u32 } else { b.min_y },
                    max_x: if x > b.max_x { x as u32 } else { b.max_x },
                    max_y: if y > b.max_y { y as u32 } else { b.max_y },
                }
            } else {
                fold_box(labels@, w as int, p - 1, m)
            }));
        }
    }
    let mut boxes: Vec<PixelBox> = Vec::new();
    let mut m: u32 = 0;
    while m < count
        invariant
            m <= count,
            n == labels@.len(),
            count == max_label(labels@),
            min_x@.len() == count,
            min_y@.len() == count,
            max_x@.len() == count,
            max_y@.len() == count,
            forall|l: int|
                1 <= l <= count ==> (PixelBox {
                    min_x: #[trigger] min_x@[l - 1],
                    min_y: min_y@[l - 1],
                    max_x: max_x@[l - 1],
                    max_y: max_y@[l - 1],
                }) == fold_box(labels@, w as int, n as int, l),
            boxes@ == boxes_upto(labels@, w as int, m as int),
        decreases count - m,
    {
        let k = m as usize;
        assert((PixelBox { min_x: min_x@[(m + 1) - 1], min_y: min_y@[(m + 1) - 1], max_x: max_x@[(m + 1) - 1], max_y: max_y@[(m + 1) - 1] })
            == fold_box(labels@, w as int, n as int, m + 1));
        if min_x[k] != u32::MAX {
            boxes.push(PixelBox { min_x: min_x[k], min_y: min_y[k], max_x: max_x[k], max_y: max_y[k] });
        }
        m = m + 1;
    }
    boxes
}

fn symbol_char(i: usize) -> (c: char)
    requires
        i < 26,
    ensures
        c == super::tile::symbol(i as int),
{
    (97u8 + i as u8) as char
}

fn symbol_of_byte(b: u8) -> (r: Option<usize>)
    ensures
        match super::tile::symbol_index(b) {
            Some(p) => r == Some(p as usize),
            None => r is None,
        },
{
    let l = if 65 <= b && b <= 90 { b + 32 } else { b };
    if 97 <= l && l <= 122 {
        Some((l - 97) as usize)
    } else {
        None
    }
}

/// Label of target `idx` among `total` targets, as tile labels are formed.
pub fn index_to_label(idx: usize, total: usize) -> (s: String)
    requires
        total <= 26 ==> idx < 26,
    ensures
        s@ == tile_label(idx as int, total as int),
{
    let mut s = String::new();
    if total <= 26 {
        string_push(&mut s, symbol_char(idx));
        return s;
    }
    let first = idx / 26;
    let second = idx % 26;
    string_push(&mut s, symbol_char(first % 26));
    string_push(&mut s, symbol_char(second));
    s
}

/// Index of the target that a label names among `total` targets, read as tile
/// labels are read.
pub fn label_to_index(label: &str, total: usize) -> (r: Option<usize>)
    ensures
        match tile_index(vstd::utf8::encode_utf8(label@), total as int) {
            Some(i) => r == Some(i as usize),
            None => r is None,
        },
{
    let bytes = label.as_bytes();
    if total <= 26 {
        if bytes.len() != 1 {
            return None;
        }
        match symbol_of_byte(bytes[0]) {
            Some(p) => if p < total { Some(p) } else { None },
            None => None,
        }
    } else {
        if bytes.len() != 2 {
            return None;
        }
        match (symbol_of_byte(bytes[0]), symbol_of_byte(bytes[1])) {
            (Some(f), Some(s)) => {
                let idx = f * 26 + s;
                if idx < total { Some(idx) } else { None }
            },
            _ => None,
        }
    }
}

/// `p / q` rounded to the nearest integer, halves away from zero, for
/// `p >= 0` and `q > 0`.
pub open spec fn round_div(p: int, q: int) -> int {
    (2 * p + q) / (2 * q)
}

/// One side of the dilation kernel: `tenths / 10` times the capture's scale
/// (captured rows per row of the area), rounded, at least 1, held at
/// `u32::MAX`; an area without rows gives an unbounded scale, so the largest
/// kernel.
pub open spec fn kernel_side(tenths: int, captured_height: int, area_h: int) -> u32 {
    if area_h == 0 {
        u32::MAX
    } else {
        let k = round_div(tenths * captured_height, 10 * area_h);
        if k < 1 { 1 } else if k > u32::MAX { u32::MAX } else { k as u32 }
    }
}

fn kernel_side_of(tenths: u64, captured_height: u32, area_h: u32) -> (k: u32)
    requires
        tenths <= 100,
    ensures
        k == kernel_side(tenths as int, captured_height as int, area_h as int),
{
    if area_h == 0 {
        return u32::MAX;
    }
    assert(tenths * captured_height <= 100 * 0xFFFF_FFFF) by (nonlinear_arith)
        requires
            tenths <= 100,
            captured_height <= 0xFFFF_FFFF,
    ;
    let p: u64 = tenths * captured_height as u64;
    let q: u64 = 10 * area_h as u64;
    let k: u64 = (2 * p + q) / (2 * q);
    if k < 1 {
        1
    } else if k > u32::MAX as u64 {
        u32::MAX
    } else {
        k as u32
    }
}

/// The dilation kernel for a capture `captured_height` rows high of an area
/// `area_h` rows high: 3.5 by 2.5 times the scale.
pub fn kernel_size(captured_height: u32, area_h: u32) -> (k: (u32, u32))
    ensures
        k == (kernel_side(35, captured_height as int, area_h as int), kernel_side(25, captured_height as int, area_h as int)),
{
    (kernel_side_of(35, captured_height, area_h), kernel_side_of(25, captured_height, area_h))
}

/// Whether a component box, measured in the area's units (captured pixels
/// divided by the scale), has the size of a target: under 50 high and 500
/// wide, over 3 high and 7 wide. Compared exactly: a side `p` captured pixels
/// long measures `p · area_h / captured_height`.
pub open spec fn target_sized(b: PixelBox, captured_height: int, area_h: int) -> bool {
    let pw = b.max_x - b.min_x + 1;
    let ph = b.max_y - b.min_y + 1;
    &&& area_h > 0
    &&& ph * area_h < 50 * captured_height
    &&& pw * area_h < 500 * captured_height
    &&& ph * area_h > 3 * captured_height
    &&& pw * area_h > 7 * captured_height
}

/// A component box in the area's coordinates, rounded to whole units.
pub open spec fn box_rect(b: PixelBox, area: Rect, captured_height: int) -> Rect {
    let h = area.h as int;
    Rect {
        x: (round_div(b.min_x * h, captured_height) + area.x) as i32,
        y: (round_div(b.min_y * h, captured_height) + area.y) as i32,
        w: round_div((b.max_x - b.min_x + 1) * h, captured_height) as u32,
        h: round_div((b.max_y - b.min_y + 1) * h, captured_height) as u32,
    }
}

/// The boxes of target size, as rectangles of the area, in order.
pub open spec fn target_rects_of(boxes: Seq<PixelBox>, area: Rect, captured_height: int) -> Seq<Rect>
    decreases boxes.len(),
{
    if boxes.len() == 0 {
        Seq::empty()
    } else {
        let rest = target_rects_of(boxes.drop_last(), area, captured_height);
        if target_sized(boxes.last(), captured_height, area.h as int) {
            rest.push(box_rect(boxes.last(), area, captured_height))
        } else {
            rest
        }
    }
}

/// A box is a box: its far corner is not before its near one.
pub open spec fn box_ordered(b: PixelBox) -> bool {
    b.min_x <= b.max_x && b.min_y <= b.max_y
}

/// The rectangle of a box stays within the `i32` range.
pub open spec fn box_fits(b: PixelBox, area: Rect, captured_height: int) -> bool {
    let h = area.h as int;
    &&& round_div(b.min_x * h, captured_height) + area.x <= i32::MAX
    &&& round_div(b.min_y * h, captured_height) + area.y <= i32::MAX
}

fn rounded(p: u64, q: u64) -> (r: u128)
    requires
        q > 0,
    ensures
        r == round_div(p as int, q as int),
{
    (2 * p as u128 + q as u128) / (2 * q as u128)
}

/// Whether every box's rectangle stays within the `i32` range.
pub fn boxes_fit(boxes: &Vec<PixelBox>, area: Rect, captured_height: u32) -> (b: bool)
    requires
        captured_height > 0,
    ensures
        b == forall|k: int| 0 <= k < boxes@.len() ==> box_fits(#[trigger] boxes@[k], area, captured_height as int),
{
    let mut k: usize = 0;
    while k < boxes.len()
        invariant
            k <= boxes@.len(),
            captured_height > 0,
            forall|j: int| 0 <= j < k ==> box_fits(#[trigger] boxes@[j], area, captured_height as int),
        decreases boxes@.len() - k,
    {
        let b = boxes[k];
        assert(b.min_x as u64 * area.h as u64 <= 0xFFFF_FFFF * 0xFFFF_FFFF) by (nonlinear_arith)
            requires
                b.min_x <= 0xFFFF_FFFF,
                area.h <= 0xFFFF_FFFF,
        ;
        assert(b.min_y as u64 * area.h as u64 <= 0xFFFF_FFFF * 0xFFFF_FFFF) by (nonlinear_arith)
            requires
                b.min_y <= 0xFFFF_FFFF,
                area.h <= 0xFFFF_FFFF,
        ;
        let ox = rounded(b.min_x as u64 * area.h as u64, captured_height as u64);
        let oy = rounded(b.min_y as u64 * area.h as u64, captured_height as u64);
        if ox as i128 + area.x as i128 > i32::MAX as i128 || oy as i128 + area.y as i128 > i32::MAX as i128 {
            return false;
        }
        k = k + 1;
    }
    true
}

/// The boxes of target size among the component boxes of a capture
/// `captured_height` rows high of `area`, as rectangles of the area.
pub fn target_rects(boxes: &Vec<PixelBox>, area: Rect, captured_height: u32) -> (rects: Vec<Rect>)
    requires
        captured_height > 0,
        forall|k: int| 0 <= k < boxes@.len() ==> box_ordered(#[trigger] boxes@[k]),
        forall|k: int| 0 <= k < boxes@.len() ==> box_fits(#[trigger] boxes@[k], area, captured_height as int),
    ensures
        rects@ == target_rects_of(boxes@, area, captured_height as int),
{
    let mut rects: Vec<Rect> = Vec::new();
    let hh = captured_height as u64;
    let ah = area.h as u64;
    let mut k: usize = 0;
    while k < boxes.len()
        invariant
            k <= boxes@.len(),
            hh == captured_height,
            ah == area.h,
            captured_height > 0,
            forall|j: int| 0 <= j < boxes@.len() ==> box_ordered(#[trigger] boxes@[j]),
            forall|j: int| 0 <= j < boxes@.len() ==> box_fits(#[trigger] boxes@[j], area, captured_height as int),
            rects@ == target_rects_of(boxes@.take(k as int), area, captured_height as int),
        decreases boxes@.len() - k,
    {
        let b = boxes[k];
        assert(boxes@.take(k + 1).drop_last() =~= boxes@.take(k as int));
        assert(boxes@.take(k + 1).last() == b);
        assert(box_ordered(boxes@[k as int]) && box_fits(boxes@[k as int], area, captured_height as int));
        let pw: u64 = (b.max_x - b.min_x) as u64 + 1;
        let ph: u64 = (b.max_y - b.min_y) as u64 + 1;
        assert(pw * ah <= 0x1_0000_0000 * 0xFFFF_FFFF && ph * ah <= 0x1_0000_0000 * 0xFFFF_FFFF) by (nonlinear_arith)
            requires
                pw <= 0x1_0000_0000,
                ph <= 0x1_0000_0000,
                ah <= 0xFFFF_FFFF,
        ;
        let sized = ah > 0 && ph * ah < 50 * hh && pw * ah < 500 * hh && ph * ah > 3 * hh && pw * ah > 7 * hh;
        if sized {
            assert(b.min_x as u64 * ah <= 0xFFFF_FFFF * 0xFFFF_FFFF) by (nonlinear_arith)
                requires
                    b.min_x <= 0xFFFF_FFFF,
                    ah <= 0xFFFF_FFFF,
            ;
            assert(b.min_y as u64 * ah <= 0xFFFF_FFFF * 0xFFFF_FFFF) by (nonlinear_arith)
                requires
                    b.min_y <= 0xFFFF_FFFF,
                    ah <= 0xFFFF_FFFF,
            ;
            let ox = rounded(b.min_x as u64 * ah, hh);
            let oy = rounded(b.min_y as u64 * ah, hh);
            let rw = rounded(pw * ah, hh);
            let rh = rounded(ph * ah, hh);
            assert(rw <= 500 && rh <= 50) by (nonlinear_arith)
                requires
                    rw == (2 * (pw * ah) + hh) / (2 * hh),
                    rh == (2 * (ph * ah) + hh) / (2 * hh),
                    pw * ah < 500 * hh,
                    ph * ah < 50 * hh,
                    hh > 0,
            ;
            assert(ox as int + area.x >= i32::MIN && oy as int + area.y >= i32::MIN);
            let r = Rect {
                x: (ox as i128 + area.x as i128) as i32,
                y: (oy as i128 + area.y as i128) as i32,
                w: rw as u32,
                h: rh as u32,
            };
            rects.push(r);
        }
        k = k + 1;
    }
    assert(boxes@.take(boxes@.len() as int) =~= boxes@);
    rects
}

/// The detected targets, each labelled by its position.
pub open spec fn floating_subdivisions(targets: Seq<Rect>) -> Seq<(Seq<char>, Rect)> {
    Seq::new(targets.len(), |i: int| (tile_label(i, targets.len() as int), targets[i]))
}

/// The target that a selection names.
pub open spec fn floating_resolve(targets: Seq<Rect>, selection: Seq<char>) -> Option<Rect> {
    match tile_index(vstd::utf8::encode_utf8(selection), targets.len() as int) {
        Some(i) => Some(targets[i]),
        None => None,
    }
}

/// Floating mode offers the targets that detection finds on screen. Detection
/// reads the screen, so it is done by the caller; these functions label the
/// targets it found and pick one by label.
pub struct FloatingMode;

impl FloatingMode {
    pub fn subdivisions(targets: Vec<Rect>) -> (subs: Vec<Subdivision>)
        ensures
            super::views(subs@) == floating_subdivisions(targets@),
    {
        let total = targets.len();
        let mut subs: Vec<Subdivision> = Vec::new();
        let mut i: usize = 0;
        while i < total
            invariant
                total == targets@.len(),
                i <= total,
                super::views(subs@) == floating_subdivisions(targets@).subrange(0, i as int),
            decreases total - i,
        {
            let sub = Subdivision { label: index_to_label(i, total), rect: targets[i] };
            let ghost before = subs@;
            subs.push(sub);
            assert(super::views(subs@) == super::views(before).push(sub@));
            i = i + 1;
            assert(super::views(subs@) =~= floating_subdivisions(targets@).subrange(0, i as int));
        }
        assert(floating_subdivisions(targets@).subrange(0, total as int) =~= floating_subdivisions(targets@));
        subs
    }

    pub fn resolve(targets: Vec<Rect>, selection: &str) -> (r: Option<Rect>)
        ensures
            r == floating_resolve(targets@, selection@),
    {
        let total = targets.len();
        match label_to_index(selection, total) {
            Some(idx) => Some(targets[idx]),
            None => None,
        }
    }
}

} // verus!
