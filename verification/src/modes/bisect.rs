use vstd::prelude::*;

use super::grid::{cell_len, cell_rect, grid_cell, grid_fits, lemma_offset_bounded, lemma_row_major_partitions, sides_fit};
use super::{
    distinct_labels, find_label, labelled, lemma_find_own_label, partitions, select_by_label, select_label, views,
    Mode, Rect, Subdivision, MIN_SUB_AREA_SIZE,
};
use crate::text::ascii_lower_seq;

verus! {

pub struct BisectMode;

#[derive(Debug, Clone, Copy, PartialEq, Eq, Structural)]
pub enum Division {
    Eight,
    Four,
    Horizontal,
    Vertical,
    Undividable,
}

/// How an area is cut. Wide areas — wider than 1.8 times their height, that is
/// `5·w > 9·h` — are cut into eight cells, others into four; areas one pixel
/// thin are halved along their long side. An area is not cut at all when the
/// smallest part it would give has less than `MIN_SUB_AREA_SIZE` pixels.
pub open spec fn division_of(area: Rect) -> Division {
    let w = area.w as int;
    let h = area.h as int;
    if w <= 1 && h <= 1 {
        Division::Undividable
    } else if w <= 1 {
        if w * (h / 2) >= MIN_SUB_AREA_SIZE { Division::Vertical } else { Division::Undividable }
    } else if h <= 1 {
        if (w / 2) * h >= MIN_SUB_AREA_SIZE { Division::Horizontal } else { Division::Undividable }
    } else if 5 * w > 9 * h {
        if (w / 4) * (h / 2) >= MIN_SUB_AREA_SIZE { Division::Eight } else { Division::Undividable }
    } else {
        if (w / 2) * (h / 2) >= MIN_SUB_AREA_SIZE { Division::Four } else { Division::Undividable }
    }
}

/// Whether the smallest part of a `w × h` area cut into `cols × rows` parts
/// has at least `MIN_SUB_AREA_SIZE` pixels.
fn parts_large_enough(w: u32, h: u32, cols: u32, rows: u32) -> (b: bool)
    requires
        cols > 0,
        rows > 0,
    ensures
        b == ((w / cols) as int * (h / rows) as int >= MIN_SUB_AREA_SIZE),
{
    let a = (w / cols) as u64;
    let b = (h / rows) as u64;
    assert(a * b <= 0xFFFF_FFFF * 0xFFFF_FFFF) by (nonlinear_arith)
        requires
            a <= 0xFFFF_FFFF,
            b <= 0xFFFF_FFFF,
    ;
    a * b >= MIN_SUB_AREA_SIZE as u64
}

pub fn determine_division(area: &Rect) -> (d: Division)
    ensures
        d == division_of(*area),
{
    if area.w <= 1 && area.h <= 1 {
        return Division::Undividable;
    }
    if area.w <= 1 {
        return if parts_large_enough(area.w, area.h, 1, 2) { Division::Vertical } else { Division::Undividable };
    }
    if area.h <= 1 {
        return if parts_large_enough(area.w, area.h, 2, 1) { Division::Horizontal } else { Division::Undividable };
    }
    // Exact integer form of `w > 1.8 · h`: both sides are multiples of 1/5.
    if 5 * (area.w as u64) > 9 * (area.h as u64) {
        if parts_large_enough(area.w, area.h, 4, 2) {
            Division::Eight
        } else {
            Division::Undividable
        }
    } else {
        if parts_large_enough(area.w, area.h, 2, 2) {
            Division::Four
        } else {
            Division::Undividable
        }
    }
}

/// Labels of the four-cell cut: nw, ne, sw, se.
pub open spec fn label_4(i: int) -> Seq<char> {
    if i == 0 {
        "nw"@
    } else if i == 1 {
        "ne"@
    } else if i == 2 {
        "sw"@
    } else {
        "se"@
    }
}

/// Labels of the eight-cell cut: top row nw, nw2, ne2, ne; bottom row sw, sw2, se2, se.
pub open spec fn label_8(i: int) -> Seq<char> {
    if i == 0 {
        "nw"@
    } else if i == 1 {
        "nw2"@
    } else if i == 2 {
        "ne2"@
    } else if i == 3 {
        "ne"@
    } else if i == 4 {
        "sw"@
    } else if i == 5 {
        "sw2"@
    } else if i == 6 {
        "se2"@
    } else {
        "se"@
    }
}

pub open spec fn cell_label(cols: int, i: int) -> Seq<char> {
    if cols == 4 {
        label_8(i)
    } else {
        label_4(i)
    }
}

/// Two rows of `cols` cells, listed row by row.
pub open spec fn spec_subdivide_4_or_8(area: Rect, cols: int) -> Seq<(Seq<char>, Rect)> {
    Seq::new(
        (2 * cols) as nat,
        |k: int| (cell_label(cols, k), grid_cell(area, cols, 2, k % cols, k / cols)),
    )
}

/// The west half gets the smaller half when the width is odd.
pub open spec fn spec_subdivide_horizontal(area: Rect) -> Seq<(Seq<char>, Rect)> {
    let half = area.w / 2;
    seq![
        ("w"@, Rect { x: area.x, y: area.y, w: half as u32, h: area.h }),
        ("e"@, Rect { x: (area.x + half) as i32, y: area.y, w: (area.w - half) as u32, h: area.h }),
    ]
}

/// The north half gets the smaller half when the height is odd.
pub open spec fn spec_subdivide_vertical(area: Rect) -> Seq<(Seq<char>, Rect)> {
    let half = area.h / 2;
    seq![
        ("n"@, Rect { x: area.x, y: area.y, w: area.w, h: half as u32 }),
        ("s"@, Rect { x: area.x, y: (area.y + half) as i32, w: area.w, h: (area.h - half) as u32 }),
    ]
}

pub open spec fn bisect_subdivisions(area: Rect) -> Seq<(Seq<char>, Rect)> {
    match division_of(area) {
        Division::Eight => spec_subdivide_4_or_8(area, 4),
        Division::Four => spec_subdivide_4_or_8(area, 2),
        Division::Horizontal => spec_subdivide_horizontal(area),
        Division::Vertical => spec_subdivide_vertical(area),
        Division::Undividable => Seq::empty(),
    }
}

/// Every coordinate that the bisect computation of `area` forms stays in range.
pub open spec fn bisect_computes_on(area: Rect) -> bool {
    match division_of(area) {
        Division::Eight => grid_fits(area, 4, 2),
        Division::Four => grid_fits(area, 2, 2),
        Division::Horizontal => area.x + area.w / 2 <= i32::MAX,
        Division::Vertical => area.y + area.h / 2 <= i32::MAX,
        Division::Undividable => true,
    }
}

fn cell_label_text(cols: u32, idx: u32) -> (s: &'static str)
    requires
        idx < 2 * cols,
        cols == 2 || cols == 4,
    ensures
        s@ == cell_label(cols as int, idx as int),
{
    if cols == 4 {
        if idx == 0 {
            "nw"
        } else if idx == 1 {
            "nw2"
        } else if idx == 2 {
            "ne2"
        } else if idx == 3 {
            "ne"
        } else if idx == 4 {
            "sw"
        } else if idx == 5 {
            "sw2"
        } else if idx == 6 {
            "se2"
        } else {
            "se"
        }
    } else {
        if idx == 0 {
            "nw"
        } else if idx == 1 {
            "ne"
        } else if idx == 2 {
            "sw"
        } else {
            "se"
        }
    }
}

pub fn subdivide_4_or_8(area: &Rect, cols: u32) -> (subs: Vec<Subdivision>)
    requires
        cols == 2 || cols == 4,
        grid_fits(*area, cols as int, 2),
    ensures
        views(subs@) == spec_subdivide_4_or_8(*area, cols as int),
{
    let rows = 2u32;
    let total = cols * rows;
    let mut subs: Vec<Subdivision> = Vec::new();
    let mut k: u32 = 0;
    while k < total
        invariant
            cols == 2 || cols == 4,
            total == 2 * cols,
            rows == 2,
            k <= total,
            grid_fits(*area, cols as int, 2),
            views(subs@) == spec_subdivide_4_or_8(*area, cols as int).subrange(0, k as int),
        decreases total - k,
    {
        let i = k % cols;
        let j = k / cols;
        let rect = cell_rect(area, cols, rows, i, j);
        let sub = labelled(cell_label_text(cols, k), rect);
        let ghost before = subs@;
        subs.push(sub);
        assert(views(subs@) == views(before).push(sub@));
        k = k + 1;
        assert(views(subs@) =~= spec_subdivide_4_or_8(*area, cols as int).subrange(0, k as int));
    }
    subs
}

pub fn subdivide_horizontal(area: &Rect) -> (subs: Vec<Subdivision>)
    requires
        area.x + area.w / 2 <= i32::MAX,
    ensures
        views(subs@) == spec_subdivide_horizontal(*area),
{
    let half = area.w / 2;
    let west = labelled("w", Rect { x: area.x, y: area.y, w: half, h: area.h });
    let east = labelled("e", Rect { x: area.x + half as i32, y: area.y, w: area.w - half, h: area.h });
    let subs = vec![west, east];
    assert(views(subs@) =~= spec_subdivide_horizontal(*area));
    subs
}

pub fn subdivide_vertical(area: &Rect) -> (subs: Vec<Subdivision>)
    requires
        area.y + area.h / 2 <= i32::MAX,
    ensures
        views(subs@) == spec_subdivide_vertical(*area),
{
    let half = area.h / 2;
    let north = labelled("n", Rect { x: area.x, y: area.y, w: area.w, h: half });
    let south = labelled("s", Rect { x: area.x, y: area.y + half as i32, w: area.w, h: area.h - half });
    let subs = vec![north, south];
    assert(views(subs@) =~= spec_subdivide_vertical(*area));
    subs
}

impl Mode for BisectMode {
    open spec fn computes_on(&self, area: Rect) -> bool {
        bisect_computes_on(area)
    }

    open spec fn spec_subdivisions(&self, area: Rect) -> Seq<(Seq<char>, Rect)> {
        bisect_subdivisions(area)
    }

    open spec fn spec_resolve(&self, area: Rect, selection: Seq<char>) -> Option<Rect> {
        select_label(bisect_subdivisions(area), selection)
    }

    fn subdivisions(&self, area: Rect) -> (subs: Vec<Subdivision>)
        ensures
            forall|k: int| 0 <= k < subs@.len() ==> #[trigger] subs@[k].rect.w * subs@[k].rect.h >= MIN_SUB_AREA_SIZE,
    {
        proof {
            lemma_bisect_parts_large(area);
        }
        let subs = self.subdivisions_unchecked(area);
        assert forall|k: int| 0 <= k < subs@.len() implies #[trigger] subs@[k].rect.w * subs@[k].rect.h
            >= MIN_SUB_AREA_SIZE by {
            assert(views(subs@)[k] == subs@[k]@);
            assert(bisect_subdivisions(area)[k].1 == subs@[k].rect);
            assert(bisect_subdivisions(area)[k].1.w * bisect_subdivisions(area)[k].1.h >= MIN_SUB_AREA_SIZE);
        }
        subs
    }

    fn resolve(&self, area: Rect, selection: &str) -> (r: Option<Rect>)
        ensures
            vstd::utf8::is_ascii_chars(selection@) ==> r == find_label(
                bisect_subdivisions(area),
                ascii_lower_seq(selection@),
            ),
    {
        let subs = self.subdivisions(area);
        select_by_label(&subs, selection)
    }
}

impl BisectMode {
    fn subdivisions_unchecked(&self, area: Rect) -> (subs: Vec<Subdivision>)
        requires
            bisect_computes_on(area),
        ensures
            views(subs@) == bisect_subdivisions(area),
    {
        match determine_division(&area) {
            Division::Eight => subdivide_4_or_8(&area, 4),
            Division::Four => subdivide_4_or_8(&area, 2),
            Division::Horizontal => subdivide_horizontal(&area),
            Division::Vertical => subdivide_vertical(&area),
            Division::Undividable => {
                let subs: Vec<Subdivision> = Vec::new();
                assert(views(subs@) =~= Seq::empty());
                subs
            },
        }
    }
}

/// Two halves side by side, or one above the other, partition the area.
pub proof fn lemma_halves_partition(area: Rect)
    ensures
        area.x + area.w / 2 <= i32::MAX ==> partitions(area, spec_subdivide_horizontal(area)),
        area.y + area.h / 2 <= i32::MAX ==> partitions(area, spec_subdivide_vertical(area)),
{
    let hs = spec_subdivide_horizontal(area);
    let vs = spec_subdivide_vertical(area);
    if area.x + area.w / 2 <= i32::MAX {
        assert forall|px: int, py: int| #[trigger] area.covers(px, py) implies exists|k: int|
            0 <= k < hs.len() && #[trigger] hs[k].1.covers(px, py) && (forall|j: int|
                0 <= j < hs.len() && #[trigger] hs[j].1.covers(px, py) ==> j == k) by {
            if px < area.x + area.w / 2 {
                assert(hs[0].1.covers(px, py));
            } else {
                assert(hs[1].1.covers(px, py));
            }
        }
    }
    if area.y + area.h / 2 <= i32::MAX {
        assert forall|px: int, py: int| #[trigger] area.covers(px, py) implies exists|k: int|
            0 <= k < vs.len() && #[trigger] vs[k].1.covers(px, py) && (forall|j: int|
                0 <= j < vs.len() && #[trigger] vs[j].1.covers(px, py) ==> j == k) by {
            if py < area.y + area.h / 2 {
                assert(vs[0].1.covers(px, py));
            } else {
                assert(vs[1].1.covers(px, py));
            }
        }
    }
}

/// Cutting an area in bisect mode leaves neither gap nor overlap, and looking
/// up the label of any part finds that part.
pub proof fn lemma_bisect_law(area: Rect)
    requires
        bisect_computes_on(area),
        sides_fit(area),
        division_of(area) != Division::Undividable,
    ensures
        partitions(area, bisect_subdivisions(area)),
        distinct_labels(bisect_subdivisions(area)),
        forall|k: int|
            0 <= k < bisect_subdivisions(area).len() ==> find_label(
                bisect_subdivisions(area),
                #[trigger] bisect_subdivisions(area)[k].0,
            ) == Some(bisect_subdivisions(area)[k].1),
{
    reveal_strlit("nw");
    reveal_strlit("ne");
    reveal_strlit("sw");
    reveal_strlit("se");
    reveal_strlit("nw2");
    reveal_strlit("ne2");
    reveal_strlit("sw2");
    reveal_strlit("se2");
    reveal_strlit("w");
    reveal_strlit("e");
    reveal_strlit("n");
    reveal_strlit("s");
    let subs = bisect_subdivisions(area);
    match division_of(area) {
        Division::Eight => {
            lemma_row_major_partitions(area, 4, 2, subs);
        },
        Division::Four => {
            lemma_row_major_partitions(area, 2, 2, subs);
        },
        Division::Horizontal => {
            lemma_halves_partition(area);
        },
        Division::Vertical => {
            lemma_halves_partition(area);
        },
        Division::Undividable => {},
    }
    assert forall|i: int, j: int| 0 <= i < j < subs.len() implies #[trigger] subs[i].0 != #[trigger] subs[j].0 by {
        assert(subs[i].0.len() != subs[j].0.len() || subs[i].0[0] != subs[j].0[0] || subs[i].0[1] != subs[j].0[1]
            || subs[i].0[2] != subs[j].0[2]);
    }
    assert forall|k: int| 0 <= k < subs.len() implies find_label(subs, #[trigger] subs[k].0) == Some(subs[k].1) by {
        lemma_find_own_label(subs, k);
    }
}

/// Every part that bisect mode cuts has at least `MIN_SUB_AREA_SIZE` pixels.
pub proof fn lemma_bisect_parts_large(area: Rect)
    ensures
        forall|k: int|
            0 <= k < bisect_subdivisions(area).len() ==> #[trigger] bisect_subdivisions(area)[k].1.w
                * bisect_subdivisions(area)[k].1.h >= MIN_SUB_AREA_SIZE,
{
    let subs = bisect_subdivisions(area);
    let w = area.w as int;
    let h = area.h as int;
    assert forall|k: int| 0 <= k < subs.len() implies #[trigger] subs[k].1.w * subs[k].1.h >= MIN_SUB_AREA_SIZE by {
        match division_of(area) {
            Division::Eight => {
                lemma_grid_part_large(area, 4, k);
            },
            Division::Four => {
                lemma_grid_part_large(area, 2, k);
            },
            Division::Horizontal => {
                let half = w / 2;
                assert(subs[k].1.h == area.h);
                assert(subs[k].1.w >= half);
                assert(subs[k].1.w * h >= half * h) by (nonlinear_arith)
                    requires
                        subs[k].1.w >= half,
                        h >= 0,
                ;
            },
            Division::Vertical => {
                let half = h / 2;
                assert(subs[k].1.w == area.w);
                assert(subs[k].1.h >= half);
                assert(w * subs[k].1.h >= w * half) by (nonlinear_arith)
                    requires
                        subs[k].1.h >= half,
                        w >= 0,
                ;
            },
            Division::Undividable => {},
        }
    }
}

/// A cell of a two-row grid is at least `w / cols` wide and `h / 2` high.
proof fn lemma_grid_part_large(area: Rect, cols: int, k: int)
    requires
        cols == 2 || cols == 4,
        0 <= k < 2 * cols,
        (area.w as int / cols) * (area.h as int / 2) >= MIN_SUB_AREA_SIZE,
    ensures
        ({
            let c = grid_cell(area, cols, 2, k % cols, k / cols);
            c.w * c.h >= MIN_SUB_AREA_SIZE
        }),
{
    let col = k % cols;
    let row = k / cols;
    assert(0 <= col < cols && 0 <= row < 2);
    let cw = cell_len(col, area.w as int, cols);
    let ch = cell_len(row, area.h as int, 2);
    lemma_offset_bounded(col, area.w as int, cols);
    lemma_offset_bounded(row, area.h as int, 2);
    assert(cw >= area.w as int / cols && ch >= area.h as int / 2);
    assert(cw <= area.w && ch <= area.h);
    let c = grid_cell(area, cols, 2, col, row);
    assert(c.w == cw && c.h == ch);
    assert(cw * ch >= (area.w as int / cols) * (area.h as int / 2)) by (nonlinear_arith)
        requires
            cw >= area.w as int / cols,
            ch >= area.h as int / 2,
            area.w as int / cols >= 0,
            area.h as int / 2 >= 0,
    ;
}

} // verus!
