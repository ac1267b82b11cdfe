//! Even division of a length into a number of cells, the first cells taking one
//! unit more when the division leaves a remainder.
use vstd::prelude::*;

use super::{partitions, Rect};

verus! {

pub open spec fn min_int(a: int, b: int) -> int {
    if a <= b { a } else { b }
}

/// Start of cell `i` when `size` units are divided into `n` cells.
pub open spec fn cell_offset(i: int, size: int, n: int) -> int {
    i * (size / n) + min_int(i, size % n)
}

/// Length of cell `i` when `size` units are divided into `n` cells.
pub open spec fn cell_len(i: int, size: int, n: int) -> int {
    size / n + if i < size % n { 1int } else { 0int }
}

/// The cell in column `col` and row `row` of `area` cut into `cols` × `rows` cells.
/// Coordinates are the area's origin plus the cell offset taken as an `i32`, as the
/// computation does it.
pub open spec fn grid_cell(area: Rect, cols: int, rows: int, col: int, row: int) -> Rect {
    Rect {
        x: (area.x + (cell_offset(col, area.w as int, cols) as i32)) as i32,
        y: (area.y + (cell_offset(row, area.h as int, rows) as i32)) as i32,
        w: cell_len(col, area.w as int, cols) as u32,
        h: cell_len(row, area.h as int, rows) as u32,
    }
}

/// Every cell origin of the grid stays inside the `i32` range.
pub open spec fn grid_fits(area: Rect, cols: int, rows: int) -> bool {
    &&& forall|c: int|
        0 <= c < cols ==> i32::MIN <= #[trigger] (area.x + (cell_offset(c, area.w as int, cols) as i32)) <= i32::MAX
    &&& forall|r: int|
        0 <= r < rows ==> i32::MIN <= #[trigger] (area.y + (cell_offset(r, area.h as int, rows) as i32)) <= i32::MAX
}

pub proof fn lemma_div_mod_parts(size: int, n: int)
    requires
        0 <= size,
        0 < n,
    ensures
        size == n * (size / n) + size % n,
        0 <= size % n < n,
        0 <= size / n,
        size / n <= size,
{
    vstd::arithmetic::div_mod::lemma_fundamental_div_mod(size, n);
    assert(0 <= size / n <= size) by (nonlinear_arith)
        requires
            0 <= size,
            0 < n,
            size == n * (size / n) + size % n,
            0 <= size % n < n,
    ;
}

/// The cell in column `col` and row `row` of `area` cut into `cols` × `rows` cells.
pub fn cell_rect(area: &Rect, cols: u32, rows: u32, col: u32, row: u32) -> (r: Rect)
    requires
        0 < cols,
        0 < rows,
        col < cols,
        row < rows,
        grid_fits(*area, cols as int, rows as int),
    ensures
        r == grid_cell(*area, cols as int, rows as int, col as int, row as int),
{
    proof {
        lemma_offset_bounded(col as int, area.w as int, cols as int);
        lemma_offset_bounded(row as int, area.h as int, rows as int);
        lemma_div_mod_parts(area.w as int, cols as int);
        lemma_div_mod_parts(area.h as int, rows as int);
    }
    let sub_w = area.w / cols;
    let off_w = area.w % cols;
    let sub_h = area.h / rows;
    let off_h = area.h % rows;
    assert(col * sub_w <= cell_offset(col as int, area.w as int, cols as int));
    assert(row * sub_h <= cell_offset(row as int, area.h as int, rows as int));
    let ox: u32 = col * sub_w + if col < off_w { col } else { off_w };
    let oy: u32 = row * sub_h + if row < off_h { row } else { off_h };
    assert(ox == cell_offset(col as int, area.w as int, cols as int));
    assert(oy == cell_offset(row as int, area.h as int, rows as int));
    assert(i32::MIN <= area.x + (cell_offset(col as int, area.w as int, cols as int) as i32) <= i32::MAX);
    assert(i32::MIN <= area.y + (cell_offset(row as int, area.h as int, rows as int) as i32) <= i32::MAX);
    let x = area.x + ox as i32;
    let y = area.y + oy as i32;
    let w = sub_w + if col < off_w { 1 } else { 0 };
    let h = sub_h + if row < off_h { 1 } else { 0 };
    Rect { x, y, w, h }
}

/// Cell offsets never pass the length being divided.
pub proof fn lemma_offset_bounded(i: int, size: int, n: int)
    requires
        0 <= size,
        0 < n,
        0 <= i <= n,
    ensures
        0 <= cell_offset(i, size, n) <= size,
        i < n ==> cell_offset(i, size, n) + cell_len(i, size, n) <= size,
        cell_len(i, size, n) >= 0,
{
    lemma_div_mod_parts(size, n);
    let q = size / n;
    let r = size % n;
    assert(0 <= i * q <= n * q) by (nonlinear_arith)
        requires
            0 <= i <= n,
            0 <= q,
    ;
    if i < n {
        assert(i * q + q <= n * q) by (nonlinear_arith)
            requires
                0 <= i < n,
                0 <= q,
        ;
    }
}

/// Each cell starts where the previous one ends.
pub proof fn lemma_offset_step(i: int, size: int, n: int)
    requires
        0 <= size,
        0 < n,
        0 <= i,
    ensures
        cell_offset(i + 1, size, n) == cell_offset(i, size, n) + cell_len(i, size, n),
{
    let q = size / n;
    assert((i + 1) * q == i * q + q) by (nonlinear_arith);
}

/// The cells together span exactly the divided length.
pub proof fn lemma_offset_total(size: int, n: int)
    requires
        0 <= size,
        0 < n,
    ensures
        cell_offset(n, size, n) == size,
        cell_offset(0, size, n) == 0,
{
    lemma_div_mod_parts(size, n);
    assert(n * (size / n) == (size / n) * n) by (nonlinear_arith);
}

/// Offsets grow with the cell index.
pub proof fn lemma_offset_monotone(i: int, j: int, size: int, n: int)
    requires
        0 <= size,
        0 < n,
        0 <= i <= j,
    ensures
        cell_offset(i, size, n) <= cell_offset(j, size, n),
    decreases j - i,
{
    if i < j {
        lemma_offset_step(j - 1, size, n);
        lemma_offset_monotone(i, j - 1, size, n);
    }
}

/// Every position inside the divided length lies in exactly one cell.
pub proof fn lemma_cell_of(t: int, size: int, n: int) -> (i: int)
    requires
        0 <= size,
        0 < n,
        0 <= t < size,
    ensures
        0 <= i < n,
        cell_offset(i, size, n) <= t < cell_offset(i, size, n) + cell_len(i, size, n),
        forall|k: int|
            0 <= k < n && #[trigger] cell_offset(k, size, n) <= t < cell_offset(k, size, n) + cell_len(k, size, n)
                ==> k == i,
{
    lemma_offset_total(size, n);
    let i = cell_below(t, size, n, n);
    assert forall|k: int|
        0 <= k < n && #[trigger] cell_offset(k, size, n) <= t < cell_offset(k, size, n) + cell_len(k, size, n)
            implies k == i by {
        lemma_offset_step(k, size, n);
        lemma_offset_step(i, size, n);
        if k < i {
            lemma_offset_monotone(k + 1, i, size, n);
        } else if i < k {
            lemma_offset_monotone(i + 1, k, size, n);
        }
    }
    i
}

proof fn cell_below(t: int, size: int, n: int, m: int) -> (i: int)
    requires
        0 <= size,
        0 < n,
        0 <= m <= n,
        0 <= t < cell_offset(m, size, n),
    ensures
        0 <= i < m,
        cell_offset(i, size, n) <= t < cell_offset(i, size, n) + cell_len(i, size, n),
    decreases m,
{
    lemma_offset_total(size, n);
    assert(m > 0);
    lemma_offset_step(m - 1, size, n);
    if t >= cell_offset(m - 1, size, n) {
        m - 1
    } else {
        cell_below(t, size, n, m - 1)
    }
}

/// Both sides of the area fit in an `i32`, so cell offsets keep their value as `i32`.
pub open spec fn sides_fit(area: Rect) -> bool {
    area.w <= i32::MAX && area.h <= i32::MAX
}

proof fn lemma_cell_coords(area: Rect, cols: int, rows: int, c: int, r: int)
    requires
        0 < cols,
        0 < rows,
        0 <= c < cols,
        0 <= r < rows,
        sides_fit(area),
        grid_fits(area, cols, rows),
    ensures
        grid_cell(area, cols, rows, c, r).x == area.x + cell_offset(c, area.w as int, cols),
        grid_cell(area, cols, rows, c, r).y == area.y + cell_offset(r, area.h as int, rows),
        grid_cell(area, cols, rows, c, r).w == cell_len(c, area.w as int, cols),
        grid_cell(area, cols, rows, c, r).h == cell_len(r, area.h as int, rows),
        cell_offset(c, area.w as int, cols) + cell_len(c, area.w as int, cols) <= area.w,
        cell_offset(r, area.h as int, rows) + cell_len(r, area.h as int, rows) <= area.h,
{
    lemma_offset_bounded(c, area.w as int, cols);
    lemma_offset_bounded(r, area.h as int, rows);
    assert(i32::MIN <= area.x + (cell_offset(c, area.w as int, cols) as i32) <= i32::MAX);
    assert(i32::MIN <= area.y + (cell_offset(r, area.h as int, rows) as i32) <= i32::MAX);
}

/// Every cell of a grid lies inside the area that was cut.
pub proof fn lemma_grid_cell_inside(area: Rect, cols: int, rows: int, c: int, r: int, px: int, py: int)
    requires
        0 < cols,
        0 < rows,
        0 <= c < cols,
        0 <= r < rows,
        sides_fit(area),
        grid_fits(area, cols, rows),
        grid_cell(area, cols, rows, c, r).covers(px, py),
    ensures
        area.covers(px, py),
{
    lemma_cell_coords(area, cols, rows, c, r);
    lemma_offset_bounded(c, area.w as int, cols);
    lemma_offset_bounded(r, area.h as int, rows);
}

/// Every point of the area lies in exactly one cell of the grid.
pub proof fn lemma_grid_point_cell(area: Rect, cols: int, rows: int, px: int, py: int) -> (cr: (int, int))
    requires
        0 < cols,
        0 < rows,
        sides_fit(area),
        grid_fits(area, cols, rows),
        area.covers(px, py),
    ensures
        0 <= cr.0 < cols,
        0 <= cr.1 < rows,
        grid_cell(area, cols, rows, cr.0, cr.1).covers(px, py),
        forall|c: int, r: int|
            0 <= c < cols && 0 <= r < rows && #[trigger] grid_cell(area, cols, rows, c, r).covers(px, py)
                ==> c == cr.0 && r == cr.1,
{
    let c = lemma_cell_of(px - area.x, area.w as int, cols);
    let r = lemma_cell_of(py - area.y, area.h as int, rows);
    lemma_cell_coords(area, cols, rows, c, r);
    assert forall|c2: int, r2: int|
        0 <= c2 < cols && 0 <= r2 < rows && #[trigger] grid_cell(area, cols, rows, c2, r2).covers(px, py)
            implies c2 == c && r2 == r by {
        lemma_cell_coords(area, cols, rows, c2, r2);
    }
    (c, r)
}

/// Cells listed row by row (`k` is column `k % cols` of row `k / cols`)
/// partition the area.
pub proof fn lemma_row_major_partitions(area: Rect, cols: int, rows: int, subs: Seq<(Seq<char>, Rect)>)
    requires
        0 < cols,
        0 < rows,
        sides_fit(area),
        grid_fits(area, cols, rows),
        subs.len() == cols * rows,
        forall|k: int|
            0 <= k < subs.len() ==> #[trigger] subs[k].1 == grid_cell(area, cols, rows, k % cols, k / cols),
    ensures
        partitions(area, subs),
{
    assert forall|k: int, px: int, py: int|
        0 <= k < subs.len() && #[trigger] subs[k].1.covers(px, py) implies area.covers(px, py) by {
        lemma_index_split(k, cols, rows);
        lemma_grid_cell_inside(area, cols, rows, k % cols, k / cols, px, py);
    }
    assert forall|px: int, py: int| #[trigger] area.covers(px, py) implies exists|k: int|
        0 <= k < subs.len() && #[trigger] subs[k].1.covers(px, py) && (forall|j: int|
            0 <= j < subs.len() && #[trigger] subs[j].1.covers(px, py) ==> j == k) by {
        let cr = lemma_grid_point_cell(area, cols, rows, px, py);
        let k = cr.1 * cols + cr.0;
        lemma_index_join(cr.0, cr.1, cols, rows);
        assert(subs[k].1.covers(px, py));
        assert forall|j: int| 0 <= j < subs.len() && #[trigger] subs[j].1.covers(px, py) implies j == k by {
            lemma_index_split(j, cols, rows);
            lemma_index_join(j % cols, j / cols, cols, rows);
        }
    }
}

/// Cells listed column by column (`k` is row `k % rows` of column `k / rows`)
/// partition the area.
pub proof fn lemma_column_major_partitions(area: Rect, cols: int, rows: int, subs: Seq<(Seq<char>, Rect)>)
    requires
        0 < cols,
        0 < rows,
        sides_fit(area),
        grid_fits(area, cols, rows),
        subs.len() == cols * rows,
        forall|k: int|
            0 <= k < subs.len() ==> #[trigger] subs[k].1 == grid_cell(area, cols, rows, k / rows, k % rows),
    ensures
        partitions(area, subs),
{
    assert(cols * rows == rows * cols) by (nonlinear_arith);
    assert forall|k: int, px: int, py: int|
        0 <= k < subs.len() && #[trigger] subs[k].1.covers(px, py) implies area.covers(px, py) by {
        lemma_index_split(k, rows, cols);
        lemma_grid_cell_inside(area, cols, rows, k / rows, k % rows, px, py);
    }
    assert forall|px: int, py: int| #[trigger] area.covers(px, py) implies exists|k: int|
        0 <= k < subs.len() && #[trigger] subs[k].1.covers(px, py) && (forall|j: int|
            0 <= j < subs.len() && #[trigger] subs[j].1.covers(px, py) ==> j == k) by {
        let cr = lemma_grid_point_cell(area, cols, rows, px, py);
        let k = cr.0 * rows + cr.1;
        lemma_index_join(cr.1, cr.0, rows, cols);
        assert(subs[k].1.covers(px, py));
        assert forall|j: int| 0 <= j < subs.len() && #[trigger] subs[j].1.covers(px, py) implies j == k by {
            lemma_index_split(j, rows, cols);
            lemma_index_join(j % rows, j / rows, rows, cols);
        }
    }
}

/// Splitting an index below `n · m` by `n` gives a position and a group in range.
proof fn lemma_index_split(k: int, n: int, m: int)
    requires
        0 < n,
        0 < m,
        0 <= k < n * m,
    ensures
        0 <= k % n < n,
        0 <= k / n < m,
        k == (k / n) * n + k % n,
{
    lemma_div_mod_parts(k, n);
    assert(k / n < m) by (nonlinear_arith)
        requires
            k == n * (k / n) + k % n,
            0 <= k % n,
            k < n * m,
            0 < n,
    ;
    assert(n * (k / n) == (k / n) * n) by (nonlinear_arith);
}

/// Joining a position `i` and a group `g` into `g · n + i` is undone by the split.
proof fn lemma_index_join(i: int, g: int, n: int, m: int)
    requires
        0 < n,
        0 < m,
        0 <= i < n,
        0 <= g < m,
    ensures
        0 <= g * n + i < n * m,
        (g * n + i) % n == i,
        (g * n + i) / n == g,
{
    assert(0 <= g * n + i < n * m) by (nonlinear_arith)
        requires
            0 <= i < n,
            0 <= g < m,
    ;
    vstd::arithmetic::div_mod::lemma_fundamental_div_mod_converse(g * n + i, n, g, i);
}

/// Whether every cell origin of `area` cut into `cols × rows` cells stays in
/// the `i32` range.
pub fn grid_fits_check(area: &Rect, cols: u32, rows: u32) -> (b: bool)
    requires
        0 < cols,
        0 < rows,
    ensures
        b == grid_fits(*area, cols as int, rows as int),
{
    proof {
        lemma_div_mod_parts(area.w as int, cols as int);
        lemma_div_mod_parts(area.h as int, rows as int);
    }
    let sub_w = area.w / cols;
    let off_w = area.w % cols;
    let mut c: u32 = 0;
    while c < cols
        invariant
            0 < cols,
            c <= cols,
            sub_w == area.w / cols,
            off_w == area.w % cols,
            forall|k: int|
                0 <= k < c ==> i32::MIN <= #[trigger] (area.x + (cell_offset(k, area.w as int, cols as int) as i32))
                    <= i32::MAX,
        decreases cols - c,
    {
        proof {
            lemma_offset_bounded(c as int, area.w as int, cols as int);
        }
        assert(c * sub_w <= cell_offset(c as int, area.w as int, cols as int));
        let ox: u32 = c * sub_w + if c < off_w { c } else { off_w };
        assert(ox == cell_offset(c as int, area.w as int, cols as int));
        let v: i64 = area.x as i64 + (ox as i32) as i64;
        if v < i32::MIN as i64 || v > i32::MAX as i64 {
            return false;
        }
        c = c + 1;
    }
    let sub_h = area.h / rows;
    let off_h = area.h % rows;
    let mut r: u32 = 0;
    while r < rows
        invariant
            0 < rows,
            0 < cols,
            r <= rows,
            sub_h == area.h / rows,
            off_h == area.h % rows,
            forall|k: int|
                0 <= k < cols ==> i32::MIN <= #[trigger] (area.x + (cell_offset(k, area.w as int, cols as int) as i32))
                    <= i32::MAX,
            forall|k: int|
                0 <= k < r ==> i32::MIN <= #[trigger] (area.y + (cell_offset(k, area.h as int, rows as int) as i32))
                    <= i32::MAX,
        decreases rows - r,
    {
        proof {
            lemma_offset_bounded(r as int, area.h as int, rows as int);
        }
        assert(r * sub_h <= cell_offset(r as int, area.h as int, rows as int));
        let oy: u32 = r * sub_h + if r < off_h { r } else { off_h };
        assert(oy == cell_offset(r as int, area.h as int, rows as int));
        let v: i64 = area.y as i64 + (oy as i32) as i64;
        if v < i32::MIN as i64 || v > i32::MAX as i64 {
            return false;
        }
        r = r + 1;
    }
    true
}

} // verus!
