use vstd::prelude::*;

use super::grid::{
    cell_rect, grid_cell, grid_fits, lemma_column_major_partitions, lemma_div_mod_parts, sides_fit,
};
use super::{partitions, views, Mode, Rect, Subdivision};
use crate::text::{ascii_lower, ascii_lower_byte, ascii_lower_seq, ascii_upper_seq};
use crate::text::string_push;

verus! {

/// Smallest tile: 25 × 50 pixels.
pub const TILE_MIN_AREA: u32 = 1250;

/// Number of label symbols, the letters a to z.
pub const SYMBOL_COUNT: u32 = 26;

/// Most tiles that two-letter labels can name apart.
pub const MAX_CELLS: u64 = 676;

pub struct TileMode;

#[derive(Debug, Clone, Copy, PartialEq, Eq, Structural)]
pub struct GridLayout {
    pub rows: u32,
    pub cols: u32,
    pub sub_w: u32,
    pub sub_w_off: u32,
    pub sub_h: u32,
    pub sub_h_off: u32,
}

/// `k` is the integer square root of `n`.
pub open spec fn is_floor_sqrt(k: int, n: int) -> bool {
    0 <= k && k * k <= n < (k + 1) * (k + 1)
}

/// Integer square root, rounding down.
pub fn floor_sqrt(n: u64) -> (k: u64)
    ensures
        is_floor_sqrt(k as int, n as int),
{
    let mut lo: u64 = 0;
    let mut hi: u64 = 0x1_0000_0000;
    assert(hi * hi > n) by (nonlinear_arith)
        requires
            hi == 0x1_0000_0000,
            n <= u64::MAX,
    ;
    while hi - lo > 1
        invariant
            lo < hi <= 0x1_0000_0000,
            lo * lo <= n,
            n < hi * hi,
        decreases hi - lo,
    {
        let mid = lo + (hi - lo) / 2;
        assert(lo < mid < hi);
        assert(mid * mid < 0x1_0000_0000_0000_0000) by (nonlinear_arith)
            requires
                mid < 0x1_0000_0000,
        ;
        if (mid as u128) * (mid as u128) <= n as u128 {
            lo = mid;
        } else {
            hi = mid;
        }
    }
    assert(hi == lo + 1);
    lo
}

/// Tile size aimed at: the area shared among at most 676 tiles, but no tile
/// below the minimum area.
pub open spec fn sub_area_size(area: Rect) -> int {
    let share = (area.w * area.h) / (MAX_CELLS as int);
    if share >= TILE_MIN_AREA { share } else { TILE_MIN_AREA as int }
}

/// Some integer square root of `n`.
pub open spec fn spec_floor_sqrt(n: int) -> int {
    choose|k: int| is_floor_sqrt(k, n)
}

/// The tile layout of an area: tiles about twice as wide as high, whose area is
/// the target tile size; the side lengths are the integer parts of
/// `√(size / 2)` and `√(2 · size)`.
pub open spec fn tile_layout(area: Rect) -> GridLayout {
    let s = sub_area_size(area);
    let tile_h = spec_floor_sqrt(s / 2);
    let tile_w = spec_floor_sqrt(2 * s);
    let rows: int = if tile_h == 0 { 1 } else if area.h as int / tile_h >= 1 { area.h as int / tile_h } else { 1 };
    let cols: int = if tile_w == 0 { 1 } else if area.w as int / tile_w >= 1 { area.w as int / tile_w } else { 1 };
    GridLayout {
        rows: rows as u32,
        cols: cols as u32,
        sub_w: (area.w as int / cols) as u32,
        sub_w_off: (area.w as int % cols) as u32,
        sub_h: (area.h as int / rows) as u32,
        sub_h_off: (area.h as int % rows) as u32,
    }
}

/// Number of tiles of an area.
pub open spec fn tile_count(area: Rect) -> int {
    tile_layout(area).rows * tile_layout(area).cols
}

proof fn lemma_floor_sqrt_unique(k: int, j: int, n: int)
    requires
        is_floor_sqrt(k, n),
        is_floor_sqrt(j, n),
    ensures
        k == j,
{
    if k < j {
        assert((k + 1) * (k + 1) <= j * j) by (nonlinear_arith)
            requires
                0 <= k < j,
        ;
    } else if j < k {
        assert((j + 1) * (j + 1) <= k * k) by (nonlinear_arith)
            requires
                0 <= j < k,
        ;
    }
}

/// The tile count never passes 2705: tiles are at least about as large as the
/// area divided by 676, up to rounding of the side lengths.
proof fn lemma_tile_count_bounded(w: int, h: int, s: int, a: int, b: int, rows: int, cols: int)
    requires
        0 <= w,
        0 <= h,
        s >= 1250,
        676 * (s + 1) > w * h,
        is_floor_sqrt(a, s / 2),
        is_floor_sqrt(b, 2 * s),
        rows >= 1,
        cols >= 1,
        rows == 1 || rows * a <= h,
        cols == 1 || cols * b <= w,
        rows <= h || rows == 1,
        cols <= w || cols == 1,
        w <= u32::MAX,
        h <= u32::MAX,
    ensures
        rows * cols <= u32::MAX,
{
    if rows == 1 {
        assert(rows * cols == cols);
    } else if cols == 1 {
        assert(rows * cols == rows);
    } else {
        assert(a >= 1) by (nonlinear_arith)
            requires
                is_floor_sqrt(a, s / 2),
                s >= 1250,
        ;
        assert(b >= 1) by (nonlinear_arith)
            requires
                is_floor_sqrt(b, 2 * s),
                s >= 1250,
        ;
        assert(2 * ((a + 1) * (a + 1)) >= s) by (nonlinear_arith)
            requires
                (s / 2) < (a + 1) * (a + 1),
                s >= 0,
        ;
        assert((a + 1) * (b + 1) > s) by (nonlinear_arith)
            requires
                2 * ((a + 1) * (a + 1)) >= s,
                2 * s < (b + 1) * (b + 1),
                a >= 0,
                b >= 0,
                s > 0,
        ;
        assert((a + 1) * (b + 1) <= 4 * (a * b)) by (nonlinear_arith)
            requires
                a >= 1,
                b >= 1,
        ;
        assert(rows * cols * (a * b) <= w * h) by (nonlinear_arith)
            requires
                rows * a <= h,
                cols * b <= w,
                rows >= 0,
                cols >= 0,
                a >= 0,
                b >= 0,
        ;
        assert(rows * cols <= 2705) by (nonlinear_arith)
            requires
                rows * cols * (a * b) <= w * h,
                676 * (s + 1) > w * h,
                s < 4 * (a * b),
                s >= 1250,
                rows * cols >= 0,
                a * b >= 1,
        ;
    }
}

pub fn compute_grid(area: &Rect) -> (g: GridLayout)
    ensures
        g == tile_layout(*area),
        1 <= g.rows <= area.h || g.rows == 1,
        1 <= g.cols <= area.w || g.cols == 1,
        g.rows * g.cols <= u32::MAX,
{
    assert(area.w * area.h <= u64::MAX) by (nonlinear_arith)
        requires
            area.w <= u32::MAX,
            area.h <= u32::MAX,
            area.w >= 0,
            area.h >= 0,
    ;
    let total: u64 = area.w as u64 * area.h as u64;
    let share = total / MAX_CELLS;
    let sub_area: u64 = if share >= TILE_MIN_AREA as u64 { share } else { TILE_MIN_AREA as u64 };
    assert(sub_area == sub_area_size(*area));
    assert(sub_area <= u64::MAX / 2);
    let tile_h = floor_sqrt(sub_area / 2);
    let tile_w = floor_sqrt(sub_area * 2);
    proof {
        let s = sub_area as int;
        lemma_floor_sqrt_unique(tile_h as int, spec_floor_sqrt(s / 2), s / 2);
        lemma_floor_sqrt_unique(tile_w as int, spec_floor_sqrt(2 * s), 2 * s);
        assert(tile_h * tile_h <= s) by (nonlinear_arith)
            requires
                tile_h * tile_h <= s / 2,
                s >= 0,
        ;
        assert(tile_h < 0x1_0000_0000) by (nonlinear_arith)
            requires
                tile_h * tile_h <= s,
                s <= u64::MAX,
                tile_h >= 0,
        ;
        assert(tile_w < 0x1_0000_0000) by (nonlinear_arith)
            requires
                tile_w * tile_w <= 2 * s,
                2 * s <= u64::MAX,
                tile_w >= 0,
        ;
    }
    let tile_h = tile_h as u32;
    let tile_w = tile_w as u32;
    let rows: u32 = if tile_h == 0 {
        1
    } else if area.h / tile_h >= 1 {
        area.h / tile_h
    } else {
        1
    };
    let sub_h = area.h / rows;
    let sub_h_off = area.h % rows;
    let cols: u32 = if tile_w == 0 {
        1
    } else if area.w / tile_w >= 1 {
        area.w / tile_w
    } else {
        1
    };
    let sub_w = area.w / cols;
    let sub_w_off = area.w % cols;
    proof {
        let s = sub_area as int;
        assert(676 * (s + 1) > area.w * area.h) by (nonlinear_arith)
            requires
                s >= (area.w * area.h) / 676,
                area.w * area.h >= 0,
        ;
        if tile_h > 0 && rows > 1 {
            lemma_div_mod_parts(area.h as int, tile_h as int);
            assert(rows * tile_h <= area.h) by (nonlinear_arith)
                requires
                    rows == area.h / tile_h,
                    area.h == tile_h * (area.h / tile_h) + area.h % tile_h,
                    area.h % tile_h >= 0,
            ;
        }
        if tile_w > 0 && cols > 1 {
            lemma_div_mod_parts(area.w as int, tile_w as int);
            assert(cols * tile_w <= area.w) by (nonlinear_arith)
                requires
                    cols == area.w / tile_w,
                    area.w == tile_w * (area.w / tile_w) + area.w % tile_w,
                    area.w % tile_w >= 0,
            ;
        }
        if tile_h > 0 {
            lemma_div_mod_parts(area.h as int, tile_h as int);
        }
        if tile_w > 0 {
            lemma_div_mod_parts(area.w as int, tile_w as int);
        }
        lemma_tile_count_bounded(
            area.w as int,
            area.h as int,
            s,
            tile_h as int,
            tile_w as int,
            rows as int,
            cols as int,
        );
    }
    GridLayout { rows, cols, sub_w, sub_w_off, sub_h, sub_h_off }
}

/// The label symbol with index `i`: the letters a to z.
pub open spec fn symbol(i: int) -> char {
    ((97 + i) as u32) as char
}

/// Single letters while there are at most 26 tiles, two letters otherwise:
/// the first letter counts columns of 26 (wrapping after z), the second the
/// position within.
pub open spec fn tile_label(idx: int, total: int) -> Seq<char> {
    if total <= 26 {
        seq![symbol(idx)]
    } else {
        seq![symbol((idx / 26) % 26), symbol(idx % 26)]
    }
}

/// Position among the symbols of an ASCII letter, in either case.
pub open spec fn symbol_index(b: u8) -> Option<int> {
    let l = ascii_lower_byte(b);
    if 97 <= l && l <= 122 {
        Some(l - 97)
    } else {
        None
    }
}

/// The tile index that the label bytes name among `total` tiles, if any.
pub open spec fn tile_index(bytes: Seq<u8>, total: int) -> Option<int> {
    if total <= 26 {
        if bytes.len() != 1 {
            None
        } else {
            match symbol_index(bytes[0]) {
                Some(p) => if p < total { Some(p) } else { None },
                None => None,
            }
        }
    } else {
        if bytes.len() != 2 {
            None
        } else {
            match (symbol_index(bytes[0]), symbol_index(bytes[1])) {
                (Some(f), Some(s)) => if f * 26 + s < total { Some(f * 26 + s) } else { None },
                _ => None,
            }
        }
    }
}

fn symbol_char(i: u32) -> (c: char)
    requires
        i < 26,
    ensures
        c == symbol(i as int),
{
    (97u8 + i as u8) as char
}

fn symbol_of_byte(b: u8) -> (r: Option<u32>)
    ensures
        match symbol_index(b) {
            Some(p) => r == Some(p as u32),
            None => r is None,
        },
{
    let l = if 65 <= b && b <= 90 { b + 32 } else { b };
    if 97 <= l && l <= 122 {
        Some((l - 97) as u32)
    } else {
        None
    }
}

pub fn index_to_label(idx: u32, total: u32) -> (s: String)
    requires
        total <= 26 ==> idx < 26,
    ensures
        s@ == tile_label(idx as int, total as int),
{
    let mut s = String::new();
    if total <= SYMBOL_COUNT {
        string_push(&mut s, symbol_char(idx));
        return s;
    }
    let first = idx / SYMBOL_COUNT;
    let second = idx % SYMBOL_COUNT;
    string_push(&mut s, symbol_char(first % SYMBOL_COUNT));
    string_push(&mut s, symbol_char(second));
    s
}

pub fn label_to_index(label: &str, total: u32) -> (r: Option<u32>)
    ensures
        match tile_index(vstd::utf8::encode_utf8(label@), total as int) {
            Some(i) => r == Some(i as u32),
            None => r is None,
        },
{
    let bytes = label.as_bytes();
    if total <= SYMBOL_COUNT {
        if bytes.len() != 1 {
            return None;
        }
        let pos = symbol_of_byte(bytes[0]);
        match pos {
            Some(p) => if p < total { Some(p) } else { None },
            None => None,
        }
    } else {
        if bytes.len() != 2 {
            return None;
        }
        let first = symbol_of_byte(bytes[0]);
        let second = symbol_of_byte(bytes[1]);
        match (first, second) {
            (Some(f), Some(s)) => {
                let idx = f * SYMBOL_COUNT + s;
                if idx < total { Some(idx) } else { None }
            },
            _ => None,
        }
    }
}

/// Tile `idx`, counted column by column.
pub open spec fn tile_cell(area: Rect, idx: int) -> Rect {
    let g = tile_layout(area);
    grid_cell(area, g.cols as int, g.rows as int, idx / (g.rows as int), idx % (g.rows as int))
}

pub open spec fn tile_subdivisions(area: Rect) -> Seq<(Seq<char>, Rect)> {
    Seq::new(
        tile_count(area) as nat,
        |i: int| (tile_label(i, tile_count(area)), tile_cell(area, i)),
    )
}

pub open spec fn tile_resolve(area: Rect, selection: Seq<char>) -> Option<Rect> {
    match tile_index(vstd::utf8::encode_utf8(selection), tile_count(area)) {
        Some(i) => Some(tile_cell(area, i)),
        None => None,
    }
}

pub open spec fn tile_computes_on(area: Rect) -> bool {
    grid_fits(area, tile_layout(area).cols as int, tile_layout(area).rows as int)
}

pub fn idx_to_rect(grid: &GridLayout, area: &Rect, idx: u32) -> (r: Rect)
    requires
        *grid == tile_layout(*area),
        grid.rows >= 1,
        grid.cols >= 1,
        idx < grid.rows * grid.cols,
        tile_computes_on(*area),
    ensures
        r == tile_cell(*area, idx as int),
{
    // Column-major: column = idx / rows, row = idx % rows
    let col = idx / grid.rows;
    let row = idx % grid.rows;
    assert(col < grid.cols) by (nonlinear_arith)
        requires
            idx < grid.rows * grid.cols,
            col == idx / grid.rows,
            grid.rows >= 1,
            idx >= 0,
    ;
    cell_rect(area, grid.cols, grid.rows, col, row)
}

impl Mode for TileMode {
    open spec fn computes_on(&self, area: Rect) -> bool {
        tile_computes_on(area)
    }

    open spec fn spec_subdivisions(&self, area: Rect) -> Seq<(Seq<char>, Rect)> {
        tile_subdivisions(area)
    }

    open spec fn spec_resolve(&self, area: Rect, selection: Seq<char>) -> Option<Rect> {
        tile_resolve(area, selection)
    }

    fn subdivisions(&self, area: Rect) -> (subs: Vec<Subdivision>) {
        let grid = compute_grid(&area);
        let total = grid.rows * grid.cols;
        let mut subs: Vec<Subdivision> = Vec::new();
        let mut idx: u32 = 0;
        while idx < total
            invariant
                grid == tile_layout(area),
                grid.rows >= 1,
                grid.cols >= 1,
                total == grid.rows * grid.cols,
                total == tile_count(area),
                idx <= total,
                tile_computes_on(area),
                views(subs@) == tile_subdivisions(area).subrange(0, idx as int),
            decreases total - idx,
        {
            let rect = idx_to_rect(&grid, &area, idx);
            let label = index_to_label(idx, total);
            let sub = Subdivision { label, rect };
            let ghost before = subs@;
            subs.push(sub);
            assert(views(subs@) == views(before).push(sub@));
            idx = idx + 1;
            assert(views(subs@) =~= tile_subdivisions(area).subrange(0, idx as int));
        }
        assert(tile_subdivisions(area).subrange(0, total as int) =~= tile_subdivisions(area));
        subs
    }

    fn resolve(&self, area: Rect, selection: &str) -> (r: Option<Rect>) {
        let grid = compute_grid(&area);
        let total = grid.rows * grid.cols;
        let idx = label_to_index(selection, total);
        match idx {
            Some(i) => Some(idx_to_rect(&grid, &area, i)),
            None => None,
        }
    }
}

/// A layout has at least one row and one column.
pub proof fn lemma_layout_positive(area: Rect)
    ensures
        tile_layout(area).rows >= 1,
        tile_layout(area).cols >= 1,
{
    let s = sub_area_size(area);
    let tile_h = spec_floor_sqrt(s / 2);
    let tile_w = spec_floor_sqrt(2 * s);
    if tile_h > 0 {
        lemma_div_mod_parts(area.h as int, tile_h);
    } else if tile_h < 0 {
        assert(area.h as int / tile_h <= 0) by (nonlinear_arith)
            requires
                tile_h < 0,
                area.h >= 0,
        ;
    }
    if tile_w > 0 {
        lemma_div_mod_parts(area.w as int, tile_w);
    } else if tile_w < 0 {
        assert(area.w as int / tile_w <= 0) by (nonlinear_arith)
            requires
                tile_w < 0,
                area.w >= 0,
        ;
    }
}

/// Reading back a tile label gives the tile's index, as long as labels name
/// tiles apart: up to 26 tiles, or the first 676 tiles of a larger grid.
pub proof fn lemma_tile_label_round_trip(i: int, total: int)
    requires
        0 <= i < total,
        total <= 26 || i < 676,
    ensures
        tile_index(vstd::utf8::encode_utf8(tile_label(i, total)), total) == Some(i),
{
    let l = tile_label(i, total);
    assert(vstd::utf8::is_ascii_chars(l));
    vstd::utf8::is_ascii_chars_encode_utf8(l);
    let b = vstd::utf8::encode_utf8(l);
    if total <= 26 {
        assert(b[0] == 97 + i);
    } else {
        assert(0 <= i / 26 < 26);
        assert((i / 26) % 26 == i / 26);
        assert(b[0] == 97 + i / 26);
        assert(b[1] == 97 + i % 26);
        assert((i / 26) * 26 + i % 26 == i);
    }
}

/// Cutting an area into tiles leaves neither gap nor overlap, and resolving
/// the label of a tile gives that tile, for every tile that labels name apart.
pub proof fn lemma_tile_law(area: Rect)
    requires
        tile_computes_on(area),
        sides_fit(area),
    ensures
        partitions(area, tile_subdivisions(area)),
        forall|i: int|
            0 <= i < tile_count(area) && (tile_count(area) <= 26 || i < 676) ==> tile_resolve(
                area,
                #[trigger] tile_label(i, tile_count(area)),
            ) == Some(tile_cell(area, i)),
{
    let g = tile_layout(area);
    lemma_layout_positive(area);
    lemma_column_major_partitions(area, g.cols as int, g.rows as int, tile_subdivisions(area));
    assert forall|i: int|
        0 <= i < tile_count(area) && (tile_count(area) <= 26 || i < 676) implies tile_resolve(
            area,
            #[trigger] tile_label(i, tile_count(area)),
        ) == Some(tile_cell(area, i)) by {
        lemma_tile_label_round_trip(i, tile_count(area));
    }
}

/// A tile label written in upper case names the same tile.
pub proof fn lemma_tile_label_upper_round_trip(i: int, total: int)
    requires
        0 <= i < total,
        total <= 26 || i < 676,
    ensures
        tile_index(vstd::utf8::encode_utf8(ascii_upper_seq(tile_label(i, total))), total) == Some(i),
{
    let l = ascii_upper_seq(tile_label(i, total));
    assert(vstd::utf8::is_ascii_chars(l));
    vstd::utf8::is_ascii_chars_encode_utf8(l);
    let b = vstd::utf8::encode_utf8(l);
    if total <= 26 {
        assert(l[0] == (((97 + i) as u32 - 32) as char));
        assert(b[0] == 65 + i);
        assert(ascii_lower_byte(b[0]) == 97 + i);
    } else {
        assert(0 <= i / 26 < 26);
        assert((i / 26) % 26 == i / 26);
        assert(b[0] == 65 + i / 26);
        assert(b[1] == 65 + i % 26);
        assert(ascii_lower_byte(b[0]) == 97 + i / 26);
        assert(ascii_lower_byte(b[1]) == 97 + i % 26);
        assert((i / 26) * 26 + i % 26 == i);
    }
}

/// Label bytes that name a tile are that tile's label, up to ASCII case: a
/// label is read back only as the index it was written for.
pub proof fn lemma_tile_index_names_label(bytes: Seq<u8>, total: int)
    requires
        tile_index(bytes, total) is Some,
    ensures
        ({
            let i = tile_index(bytes, total)->0;
            &&& 0 <= i < total
            &&& i < 676
            &&& bytes.map_values(|b: u8| ascii_lower_byte(b)) == vstd::utf8::encode_utf8(tile_label(i, total))
        }),
{
    let i = tile_index(bytes, total)->0;
    let l = tile_label(i, total);
    assert(vstd::utf8::is_ascii_chars(l));
    vstd::utf8::is_ascii_chars_encode_utf8(l);
    let e = vstd::utf8::encode_utf8(l);
    let lowered = bytes.map_values(|b: u8| ascii_lower_byte(b));
    if total <= 26 {
        assert(lowered[0] == 97 + i);
        assert(e[0] == 97 + i);
        assert(lowered =~= e);
    } else {
        let f = symbol_index(bytes[0])->0;
        let g = symbol_index(bytes[1])->0;
        assert(i == f * 26 + g);
        assert(i / 26 == f && i % 26 == g);
        assert(f % 26 == f);
        assert(lowered[0] == 97 + f);
        assert(lowered[1] == 97 + g);
        assert(e[0] == 97 + f);
        assert(e[1] == 97 + g);
        assert(lowered =~= e);
    }
}

/// On an ASCII selection, tile resolution does not depend on case.
pub proof fn lemma_tile_resolve_ascii_case(area: Rect, selection: Seq<char>)
    requires
        vstd::utf8::is_ascii_chars(selection),
    ensures
        tile_resolve(area, selection) == tile_resolve(area, ascii_lower_seq(selection)),
{
    lemma_tile_index_ascii_case(selection, tile_count(area));
}

/// On an ASCII label, reading a tile index does not depend on case.
pub proof fn lemma_tile_index_ascii_case(selection: Seq<char>, total: int)
    requires
        vstd::utf8::is_ascii_chars(selection),
    ensures
        tile_index(vstd::utf8::encode_utf8(selection), total) == tile_index(
            vstd::utf8::encode_utf8(ascii_lower_seq(selection)),
            total,
        ),
{
    let low = ascii_lower_seq(selection);
    assert(vstd::utf8::is_ascii_chars(low));
    vstd::utf8::is_ascii_chars_encode_utf8(selection);
    vstd::utf8::is_ascii_chars_encode_utf8(low);
    let b = vstd::utf8::encode_utf8(selection);
    let c = vstd::utf8::encode_utf8(low);
    assert forall|k: int| 0 <= k < b.len() implies symbol_index(#[trigger] b[k]) == symbol_index(c[k]) by {
        assert(selection[k] as u8 == b[k]);
        assert(low[k] as u8 == c[k]);
        assert(low[k] == ascii_lower(selection[k]));
    }
    if b.len() >= 1 {
        assert(symbol_index(b[0]) == symbol_index(c[0]));
    }
    if b.len() >= 2 {
        assert(symbol_index(b[1]) == symbol_index(c[1]));
    }
}

} // verus!
