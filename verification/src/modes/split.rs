use vstd::prelude::*;

use super::bisect::{
    lemma_halves_partition, spec_subdivide_horizontal, spec_subdivide_vertical, subdivide_horizontal,
    subdivide_vertical,
};
use super::{
    find_label, lemma_find_own_label, partitions, select_by_label, select_label, views, Mode, Rect, Subdivision,
    MIN_SUB_AREA_SIZE,
};
use crate::text::ascii_lower_seq;

verus! {

pub struct SplitXMode;

pub struct SplitYMode;

/// Split-X halves the width into a west and an east part, unless the area is
/// one pixel narrow or the smaller half would have less than
/// `MIN_SUB_AREA_SIZE` pixels.
pub open spec fn split_x_subdivisions(area: Rect) -> Seq<(Seq<char>, Rect)> {
    if area.w <= 1 || (area.w / 2) * area.h < MIN_SUB_AREA_SIZE {
        Seq::empty()
    } else {
        spec_subdivide_horizontal(area)
    }
}

/// Split-Y halves the height into a north and a south part, unless the area is
/// one pixel low or the smaller half would have less than `MIN_SUB_AREA_SIZE`
/// pixels.
pub open spec fn split_y_subdivisions(area: Rect) -> Seq<(Seq<char>, Rect)> {
    if area.h <= 1 || area.w * (area.h / 2) < MIN_SUB_AREA_SIZE {
        Seq::empty()
    } else {
        spec_subdivide_vertical(area)
    }
}

/// Whether a `w × h` part has fewer than `MIN_SUB_AREA_SIZE` pixels.
fn below_minimum(w: u32, h: u32) -> (b: bool)
    ensures
        b == (w * h < MIN_SUB_AREA_SIZE),
{
    assert(w as u64 * h as u64 <= 0xFFFF_FFFF * 0xFFFF_FFFF) by (nonlinear_arith)
        requires
            w <= 0xFFFF_FFFF,
            h <= 0xFFFF_FFFF,
    ;
    (w as u64) * (h as u64) < MIN_SUB_AREA_SIZE as u64
}

/// Both halves of a split have at least as many pixels as the smaller one.
pub proof fn lemma_split_parts_large(area: Rect)
    ensures
        forall|k: int|
            0 <= k < split_x_subdivisions(area).len() ==> #[trigger] split_x_subdivisions(area)[k].1.w
                * split_x_subdivisions(area)[k].1.h >= MIN_SUB_AREA_SIZE,
        forall|k: int|
            0 <= k < split_y_subdivisions(area).len() ==> #[trigger] split_y_subdivisions(area)[k].1.w
                * split_y_subdivisions(area)[k].1.h >= MIN_SUB_AREA_SIZE,
{
    let xs = split_x_subdivisions(area);
    let ys = split_y_subdivisions(area);
    assert forall|k: int| 0 <= k < xs.len() implies #[trigger] xs[k].1.w * xs[k].1.h >= MIN_SUB_AREA_SIZE by {
        let half = area.w / 2;
        assert(xs[k].1.w >= half && xs[k].1.h == area.h);
        assert(xs[k].1.w * area.h >= half * area.h) by (nonlinear_arith)
            requires
                xs[k].1.w >= half,
        ;
    }
    assert forall|k: int| 0 <= k < ys.len() implies #[trigger] ys[k].1.w * ys[k].1.h >= MIN_SUB_AREA_SIZE by {
        let half = area.h / 2;
        assert(ys[k].1.h >= half && ys[k].1.w == area.w);
        assert(area.w * ys[k].1.h >= area.w * half) by (nonlinear_arith)
            requires
                ys[k].1.h >= half,
        ;
    }
}

impl Mode for SplitXMode {
    open spec fn computes_on(&self, area: Rect) -> bool {
        area.x + area.w / 2 <= i32::MAX
    }

    open spec fn spec_subdivisions(&self, area: Rect) -> Seq<(Seq<char>, Rect)> {
        split_x_subdivisions(area)
    }

    open spec fn spec_resolve(&self, area: Rect, selection: Seq<char>) -> Option<Rect> {
        select_label(split_x_subdivisions(area), selection)
    }

    fn subdivisions(&self, area: Rect) -> (subs: Vec<Subdivision>)
        ensures
            forall|k: int| 0 <= k < subs@.len() ==> #[trigger] subs@[k].rect.w * subs@[k].rect.h >= MIN_SUB_AREA_SIZE,
    {
        proof {
            lemma_split_parts_large(area);
        }
        if area.w <= 1 || below_minimum(area.w / 2, area.h) {
            let subs: Vec<Subdivision> = Vec::new();
            assert(views(subs@) =~= Seq::empty());
            return subs;
        }
        let subs = subdivide_horizontal(&area);
        assert forall|k: int| 0 <= k < subs@.len() implies #[trigger] subs@[k].rect.w * subs@[k].rect.h
            >= MIN_SUB_AREA_SIZE by {
            assert(views(subs@)[k] == subs@[k]@);
            assert(split_x_subdivisions(area)[k].1 == subs@[k].rect);
            assert(split_x_subdivisions(area)[k].1.w * split_x_subdivisions(area)[k].1.h >= MIN_SUB_AREA_SIZE);
        }
        subs
    }

    fn resolve(&self, area: Rect, selection: &str) -> (r: Option<Rect>)
        ensures
            vstd::utf8::is_ascii_chars(selection@) ==> r == find_label(
                split_x_subdivisions(area),
                ascii_lower_seq(selection@),
            ),
    {
        let subs = self.subdivisions(area);
        select_by_label(&subs, selection)
    }
}

impl Mode for SplitYMode {
    open spec fn computes_on(&self, area: Rect) -> bool {
        area.y + area.h / 2 <= i32::MAX
    }

    open spec fn spec_subdivisions(&self, area: Rect) -> Seq<(Seq<char>, Rect)> {
        split_y_subdivisions(area)
    }

    open spec fn spec_resolve(&self, area: Rect, selection: Seq<char>) -> Option<Rect> {
        select_label(split_y_subdivisions(area), selection)
    }

    fn subdivisions(&self, area: Rect) -> (subs: Vec<Subdivision>)
        ensures
            forall|k: int| 0 <= k < subs@.len() ==> #[trigger] subs@[k].rect.w * subs@[k].rect.h >= MIN_SUB_AREA_SIZE,
    {
        proof {
            lemma_split_parts_large(area);
        }
        if area.h <= 1 || below_minimum(area.w, area.h / 2) {
            let subs: Vec<Subdivision> = Vec::new();
            assert(views(subs@) =~= Seq::empty());
            return subs;
        }
        let subs = subdivide_vertical(&area);
        assert forall|k: int| 0 <= k < subs@.len() implies #[trigger] subs@[k].rect.w * subs@[k].rect.h
            >= MIN_SUB_AREA_SIZE by {
            assert(views(subs@)[k] == subs@[k]@);
            assert(split_y_subdivisions(area)[k].1 == subs@[k].rect);
            assert(split_y_subdivisions(area)[k].1.w * split_y_subdivisions(area)[k].1.h >= MIN_SUB_AREA_SIZE);
        }
        subs
    }

    fn resolve(&self, area: Rect, selection: &str) -> (r: Option<Rect>)
        ensures
            vstd::utf8::is_ascii_chars(selection@) ==> r == find_label(
                split_y_subdivisions(area),
                ascii_lower_seq(selection@),
            ),
    {
        let subs = self.subdivisions(area);
        select_by_label(&subs, selection)
    }
}

/// When a split cuts an area, its two halves leave neither gap nor overlap, and
/// looking up either label finds that half.
pub proof fn lemma_split_law(area: Rect)
    ensures
        split_x_subdivisions(area).len() > 0 && area.x + area.w / 2 <= i32::MAX ==> partitions(
            area,
            split_x_subdivisions(area),
        ),
        split_y_subdivisions(area).len() > 0 && area.y + area.h / 2 <= i32::MAX ==> partitions(
            area,
            split_y_subdivisions(area),
        ),
        forall|k: int|
            0 <= k < split_x_subdivisions(area).len() ==> find_label(
                split_x_subdivisions(area),
                #[trigger] split_x_subdivisions(area)[k].0,
            ) == Some(split_x_subdivisions(area)[k].1),
        forall|k: int|
            0 <= k < split_y_subdivisions(area).len() ==> find_label(
                split_y_subdivisions(area),
                #[trigger] split_y_subdivisions(area)[k].0,
            ) == Some(split_y_subdivisions(area)[k].1),
{
    reveal_strlit("w");
    reveal_strlit("e");
    reveal_strlit("n");
    reveal_strlit("s");
    lemma_halves_partition(area);
    let xs = split_x_subdivisions(area);
    let ys = split_y_subdivisions(area);
    assert forall|k: int| 0 <= k < xs.len() implies find_label(xs, #[trigger] xs[k].0) == Some(xs[k].1) by {
        assert(xs =~= spec_subdivide_horizontal(area));
        assert("w"@[0] != "e"@[0]);
        lemma_find_own_label(xs, k);
    }
    assert forall|k: int| 0 <= k < ys.len() implies find_label(ys, #[trigger] ys[k].0) == Some(ys[k].1) by {
        assert(ys =~= spec_subdivide_vertical(area));
        assert("n"@[0] != "s"@[0]);
        lemma_find_own_label(ys, k);
    }
}

} // verus!
