use vstd::prelude::*;

use crate::text::{ascii_lower_seq, owned, str_to_lowercase, unicode_lowercase};

pub mod bisect;
pub mod floating;
pub mod grid;
pub mod split;
pub mod tile;

verus! {

/// Minimum sub-area size in pixels² — matches tile mode's smallest tile.
/// Bisect and split modes do not cut an area when a part it would give has
/// fewer pixels than this.
pub const MIN_SUB_AREA_SIZE: u32 = 1250;

#[derive(Debug, Clone, Copy, PartialEq, Eq, Structural)]
pub struct Rect {
    pub x: i32,
    pub y: i32,
    pub w: u32,
    pub h: u32,
}

impl Rect {
    /// The point test exactly as it is computed: the width and height are taken
    /// as `i32` before being added to the origin.
    pub open spec fn spec_contains(self, x: int, y: int) -> bool {
        &&& x >= self.x
        &&& x < self.x + (self.w as i32)
        &&& y >= self.y
        &&& y < self.y + (self.h as i32)
    }

    /// The additions that the point test performs stay in the `i32` range.
    pub open spec fn contains_in_range(self, x: int, y: int) -> bool {
        &&& x >= self.x ==> self.x + (self.w as i32) <= i32::MAX && self.x + (self.w as i32) >= i32::MIN
        &&& (x >= self.x && x < self.x + (self.w as i32) && y >= self.y) ==> self.y + (self.h as i32)
            <= i32::MAX && self.y + (self.h as i32) >= i32::MIN
    }

    /// The point lies in the rectangle, in exact arithmetic.
    pub open spec fn covers(self, x: int, y: int) -> bool {
        self.x <= x < self.x + self.w && self.y <= y < self.y + self.h
    }

    pub fn area(self) -> (a: u32)
        requires
            self.w * self.h <= u32::MAX,
        ensures
            a == self.w * self.h,
    {
        self.w * self.h
    }

    pub fn center(self) -> (c: (i32, i32))
        requires
            i32::MIN <= self.x + self.w / 2 <= i32::MAX,
            i32::MIN <= self.y + self.h / 2 <= i32::MAX,
        ensures
            c.0 == self.x + self.w / 2,
            c.1 == self.y + self.h / 2,
    {
        (self.x + (self.w / 2) as i32, self.y + (self.h / 2) as i32)
    }

    pub fn contains(self, x: i32, y: i32) -> (b: bool)
        requires
            self.contains_in_range(x as int, y as int),
        ensures
            b == self.spec_contains(x as int, y as int),
    {
        x >= self.x && x < self.x + self.w as i32 && y >= self.y && y < self.y + self.h as i32
    }
}

/// For a rectangle whose sides fit in an `i32`, the computed point test is the
/// exact one.
pub proof fn lemma_contains_exact(r: Rect, x: int, y: int)
    requires
        r.w <= i32::MAX,
        r.h <= i32::MAX,
    ensures
        r.spec_contains(x, y) == r.covers(x, y),
{
}

#[derive(Debug, Clone)]
pub struct Subdivision {
    pub label: String,
    pub rect: Rect,
}

impl View for Subdivision {
    type V = (Seq<char>, Rect);

    open spec fn view(&self) -> (Seq<char>, Rect) {
        (self.label@, self.rect)
    }
}

/// The labels and rectangles of a list of subdivisions.
pub open spec fn views(subs: Seq<Subdivision>) -> Seq<(Seq<char>, Rect)> {
    subs.map_values(|s: Subdivision| s@)
}

/// The rectangles of `subs` lie inside `area`, and each point of `area` lies in
/// exactly one of them.
pub open spec fn partitions(area: Rect, subs: Seq<(Seq<char>, Rect)>) -> bool {
    &&& forall|k: int, px: int, py: int|
        0 <= k < subs.len() && #[trigger] subs[k].1.covers(px, py) ==> area.covers(px, py)
    &&& forall|px: int, py: int|
        #![trigger area.covers(px, py)]
        area.covers(px, py) ==> exists|k: int|
            0 <= k < subs.len() && #[trigger] subs[k].1.covers(px, py) && (forall|j: int|
                0 <= j < subs.len() && #[trigger] subs[j].1.covers(px, py) ==> j == k)
}

/// The rectangle of the first entry carrying `label`, if any.
pub open spec fn find_label(subs: Seq<(Seq<char>, Rect)>, label: Seq<char>) -> Option<Rect>
    decreases subs.len(),
{
    if subs.len() == 0 {
        None
    } else if subs[0].0 == label {
        Some(subs[0].1)
    } else {
        find_label(subs.drop_first(), label)
    }
}

/// No two entries carry the same label.
pub open spec fn distinct_labels(subs: Seq<(Seq<char>, Rect)>) -> bool {
    forall|i: int, j: int| 0 <= i < j < subs.len() ==> #[trigger] subs[i].0 != #[trigger] subs[j].0
}

/// When labels are distinct, looking up an entry's label finds that entry.
pub proof fn lemma_find_own_label(subs: Seq<(Seq<char>, Rect)>, k: int)
    requires
        distinct_labels(subs),
        0 <= k < subs.len(),
    ensures
        find_label(subs, subs[k].0) == Some(subs[k].1),
    decreases k,
{
    if k > 0 {
        assert(subs[0].0 != subs[k].0);
        let rest = subs.drop_first();
        assert forall|i: int, j: int| 0 <= i < j < rest.len() implies #[trigger] rest[i].0 != #[trigger] rest[j].0 by {
            assert(rest[i] == subs[i + 1] && rest[j] == subs[j + 1]);
        }
        assert(rest[k - 1] == subs[k]);
        lemma_find_own_label(rest, k - 1);
    }
}

/// A selection is matched against labels after Unicode lower-casing.
pub open spec fn select_label(subs: Seq<(Seq<char>, Rect)>, selection: Seq<char>) -> Option<Rect> {
    find_label(subs, unicode_lowercase(selection))
}

/// The rectangle of the first subdivision whose label is `label`.
pub fn find_by_label(subs: &Vec<Subdivision>, label: &String) -> (r: Option<Rect>)
    ensures
        r == find_label(views(subs@), label@),
{
    let mut i: usize = 0;
    assert(views(subs@).skip(0) == views(subs@));
    while i < subs.len()
        invariant
            i <= subs.len(),
            find_label(views(subs@), label@) == find_label(views(subs@).skip(i as int), label@),
        decreases subs.len() - i,
    {
        assert(views(subs@).skip(i as int).drop_first() == views(subs@).skip(i + 1));
        if subs[i].label == *label {
            return Some(subs[i].rect);
        }
        i = i + 1;
    }
    assert(views(subs@).skip(i as int).len() == 0);
    None
}

/// Lower-cases the selection and looks it up among the labels.
pub fn select_by_label(subs: &Vec<Subdivision>, selection: &str) -> (r: Option<Rect>)
    ensures
        r == select_label(views(subs@), selection@),
        vstd::utf8::is_ascii_chars(selection@) ==> r == find_label(views(subs@), ascii_lower_seq(selection@)),
{
    let sel = str_to_lowercase(selection);
    find_by_label(subs, &sel)
}

/// A subdivision built from a literal label.
pub fn labelled(label: &str, rect: Rect) -> (s: Subdivision)
    ensures
        s@ == (label@, rect),
{
    Subdivision { label: owned(label), rect }
}

/// A way of cutting an area into labelled sub-areas and of picking one by label.
pub trait Mode {
    /// The computation of this mode on `area` stays within machine ranges.
    spec fn computes_on(&self, area: Rect) -> bool;

    /// The labelled sub-areas of `area`, in order.
    spec fn spec_subdivisions(&self, area: Rect) -> Seq<(Seq<char>, Rect)>;

    /// The sub-area that `selection` picks in `area`, if any.
    spec fn spec_resolve(&self, area: Rect, selection: Seq<char>) -> Option<Rect>;

    fn subdivisions(&self, area: Rect) -> (subs: Vec<Subdivision>)
        requires
            self.computes_on(area),
        ensures
            views(subs@) == self.spec_subdivisions(area),
    ;

    fn resolve(&self, area: Rect, selection: &str) -> (r: Option<Rect>)
        requires
            self.computes_on(area),
        ensures
            r == self.spec_resolve(area, selection@),
    ;
}

#[derive(Debug, Clone)]
pub struct ModeStep {
    pub mode: ModeType,
    pub selection: String,
}

#[derive(Debug, Clone, Copy, PartialEq, Eq, Structural)]
pub enum ModeType {
    Bisect,
    SplitX,
    SplitY,
    Tile,
    Floating,
}

/// Position of a mode in the cycling order.
pub open spec fn mode_index(m: ModeType) -> int {
    match m {
        ModeType::Bisect => 0,
        ModeType::SplitX => 1,
        ModeType::SplitY => 2,
        ModeType::Tile => 3,
        ModeType::Floating => 4,
    }
}

pub open spec fn mode_at(i: int) -> ModeType {
    if i == 0 {
        ModeType::Bisect
    } else if i == 1 {
        ModeType::SplitX
    } else if i == 2 {
        ModeType::SplitY
    } else if i == 3 {
        ModeType::Tile
    } else {
        ModeType::Floating
    }
}

pub open spec fn mode_label(m: ModeType) -> Seq<char> {
    match m {
        ModeType::Bisect => "Bisect"@,
        ModeType::SplitX => "Split-X"@,
        ModeType::SplitY => "Split-Y"@,
        ModeType::Tile => "Tile"@,
        ModeType::Floating => "Floating"@,
    }
}

impl ModeType {
    pub const ALL: [ModeType; 5] = [
        ModeType::Bisect,
        ModeType::SplitX,
        ModeType::SplitY,
        ModeType::Tile,
        ModeType::Floating,
    ];

    pub fn label(self) -> (l: &'static str)
        ensures
            l@ == mode_label(self),
    {
        match self {
            ModeType::Bisect => "Bisect",
            ModeType::SplitX => "Split-X",
            ModeType::SplitY => "Split-Y",
            ModeType::Tile => "Tile",
            ModeType::Floating => "Floating",
        }
    }

    /// The mode after this one in `ALL`, wrapping around at the end.
    pub fn next(self) -> (n: ModeType)
        ensures
            n == mode_at((mode_index(self) + 1) % 5),
    {
        match self {
            ModeType::Bisect => ModeType::SplitX,
            ModeType::SplitX => ModeType::SplitY,
            ModeType::SplitY => ModeType::Tile,
            ModeType::Tile => ModeType::Floating,
            ModeType::Floating => ModeType::Bisect,
        }
    }
}

/// `ALL` lists every mode once, in the cycling order.
pub proof fn lemma_all_modes(m: ModeType)
    ensures
        ModeType::ALL@.len() == 5,
        ModeType::ALL@[mode_index(m)] == m,
        0 <= mode_index(m) < 5,
        mode_at(mode_index(m)) == m,
{
}

/// Cycling through the modes returns to the start after five steps, and no two
/// modes have the same successor.
pub proof fn lemma_next_cycles(m: ModeType, k: ModeType)
    ensures
        mode_at((mode_index(mode_at((mode_index(mode_at((mode_index(mode_at((mode_index(mode_at((
        mode_index(m) + 1) % 5)) + 1) % 5)) + 1) % 5)) + 1) % 5)) + 1) % 5) == m,
        mode_at((mode_index(m) + 1) % 5) == mode_at((mode_index(k) + 1) % 5) ==> m == k,
{
}

/// Sub-areas that a mode offers in `area`; floating mode offers the targets
/// that detection found there.
pub open spec fn mode_subdivisions(mode: ModeType, area: Rect, targets: Seq<Rect>) -> Seq<(Seq<char>, Rect)> {
    match mode {
        ModeType::Bisect => bisect::bisect_subdivisions(area),
        ModeType::SplitX => split::split_x_subdivisions(area),
        ModeType::SplitY => split::split_y_subdivisions(area),
        ModeType::Tile => tile::tile_subdivisions(area),
        ModeType::Floating => floating::floating_subdivisions(targets),
    }
}

/// The sub-area that a selection picks.
pub open spec fn mode_resolve(mode: ModeType, area: Rect, selection: Seq<char>, targets: Seq<Rect>) -> Option<Rect> {
    match mode {
        ModeType::Bisect => select_label(bisect::bisect_subdivisions(area), selection),
        ModeType::SplitX => select_label(split::split_x_subdivisions(area), selection),
        ModeType::SplitY => select_label(split::split_y_subdivisions(area), selection),
        ModeType::Tile => tile::tile_resolve(area, selection),
        ModeType::Floating => floating::floating_resolve(targets, selection),
    }
}

/// The sub-area that an already lower-cased selection picks: the selection is
/// compared with the labels as it stands.
pub open spec fn mode_resolve_lowered(mode: ModeType, area: Rect, lowered: Seq<char>, targets: Seq<Rect>) -> Option<Rect> {
    match mode {
        ModeType::Bisect => find_label(bisect::bisect_subdivisions(area), lowered),
        ModeType::SplitX => find_label(split::split_x_subdivisions(area), lowered),
        ModeType::SplitY => find_label(split::split_y_subdivisions(area), lowered),
        ModeType::Tile => tile::tile_resolve(area, lowered),
        ModeType::Floating => floating::floating_resolve(targets, lowered),
    }
}

/// The mode's computation on `area` stays within machine ranges.
pub open spec fn mode_computes_on(mode: ModeType, area: Rect) -> bool {
    match mode {
        ModeType::Bisect => bisect::bisect_computes_on(area),
        ModeType::SplitX => area.x + area.w / 2 <= i32::MAX,
        ModeType::SplitY => area.y + area.h / 2 <= i32::MAX,
        ModeType::Tile => tile::tile_computes_on(area),
        ModeType::Floating => true,
    }
}

impl ModeType {
    /// Floating mode works on targets detected on screen, which the caller
    /// supplies; the other modes compute from the area alone.
    pub fn needs_targets(self) -> (b: bool)
        ensures
            b == (self == ModeType::Floating),
    {
        match self {
            ModeType::Floating => true,
            _ => false,
        }
    }

    /// Whether this mode's computation on `area` stays within machine ranges.
    pub fn computes_on_check(self, area: Rect) -> (b: bool)
        ensures
            b == mode_computes_on(self, area),
    {
        match self {
            ModeType::Bisect => match bisect::determine_division(&area) {
                bisect::Division::Eight => grid::grid_fits_check(&area, 4, 2),
                bisect::Division::Four => grid::grid_fits_check(&area, 2, 2),
                bisect::Division::Horizontal => area.x as i64 + (area.w / 2) as i64 <= i32::MAX as i64,
                bisect::Division::Vertical => area.y as i64 + (area.h / 2) as i64 <= i32::MAX as i64,
                bisect::Division::Undividable => true,
            },
            ModeType::SplitX => area.x as i64 + (area.w / 2) as i64 <= i32::MAX as i64,
            ModeType::SplitY => area.y as i64 + (area.h / 2) as i64 <= i32::MAX as i64,
            ModeType::Tile => {
                let g = tile::compute_grid(&area);
                proof {
                    tile::lemma_layout_positive(area);
                }
                grid::grid_fits_check(&area, g.cols, g.rows)
            },
            ModeType::Floating => true,
        }
    }

    /// The labelled sub-areas of `area` in this mode. `targets` are the targets
    /// detected in `area` and matter in floating mode only.
    pub fn subdivisions_of(self, area: Rect, targets: Vec<Rect>) -> (subs: Vec<Subdivision>)
        requires
            mode_computes_on(self, area),
        ensures
            views(subs@) == mode_subdivisions(self, area, targets@),
    {
        match self {
            ModeType::Bisect => bisect::BisectMode.subdivisions(area),
            ModeType::SplitX => split::SplitXMode.subdivisions(area),
            ModeType::SplitY => split::SplitYMode.subdivisions(area),
            ModeType::Tile => tile::TileMode.subdivisions(area),
            ModeType::Floating => floating::FloatingMode::subdivisions(targets),
        }
    }

    /// The sub-area of `area` that `selection` picks in this mode. `targets` are
    /// the targets detected in `area` and matter in floating mode only.
    pub fn resolve_in(self, area: Rect, selection: &str, targets: Vec<Rect>) -> (r: Option<Rect>)
        requires
            mode_computes_on(self, area),
        ensures
            r == mode_resolve(self, area, selection@, targets@),
            vstd::utf8::is_ascii_chars(selection@) ==> r == mode_resolve_lowered(
                self,
                area,
                ascii_lower_seq(selection@),
                targets@,
            ),
    {
        proof {
            if vstd::utf8::is_ascii_chars(selection@) {
                tile::lemma_tile_resolve_ascii_case(area, selection@);
                tile::lemma_tile_index_ascii_case(selection@, targets@.len() as int);
            }
        }
        match self {
            ModeType::Bisect => bisect::BisectMode.resolve(area, selection),
            ModeType::SplitX => split::SplitXMode.resolve(area, selection),
            ModeType::SplitY => split::SplitYMode.resolve(area, selection),
            ModeType::Tile => tile::TileMode.resolve(area, selection),
            ModeType::Floating => floating::FloatingMode::resolve(targets, selection),
        }
    }
}

/// Where the walk through a chain of steps stands.
#[derive(Debug, Clone, Copy)]
pub enum ChainProgress {
    /// The walk ended: the area reached, or `None` when a selection named nothing.
    Done(Option<Rect>),
    /// Step `step` is a floating step: the targets in `area` are to be detected
    /// and handed to `continue_chain`.
    NeedsTargets { area: Rect, step: usize },
}

pub open spec fn targets_view(targets: Option<Vec<Rect>>) -> Option<Seq<Rect>> {
    match targets {
        Some(t) => Some(t@),
        None => None,
    }
}

/// The walk from step `i` on, starting in `area`; `targets` are the targets
/// detected for step `i`, when it is a floating step and they are known.
pub open spec fn chain_walk(area: Rect, steps: Seq<ModeStep>, i: int, targets: Option<Seq<Rect>>) -> ChainProgress
    decreases steps.len() - i,
{
    if i >= steps.len() || i < 0 {
        ChainProgress::Done(Some(area))
    } else if steps[i].mode == ModeType::Floating {
        match targets {
            None => ChainProgress::NeedsTargets { area, step: i as usize },
            Some(t) => match floating::floating_resolve(t, steps[i].selection@) {
                None => ChainProgress::Done(None),
                Some(r) => chain_walk(r, steps, i + 1, None),
            },
        }
    } else {
        match mode_resolve(steps[i].mode, area, steps[i].selection@, Seq::empty()) {
            None => ChainProgress::Done(None),
            Some(r) => chain_walk(r, steps, i + 1, None),
        }
    }
}

/// Every resolution that the walk performs stays within machine ranges.
pub open spec fn chain_safe(area: Rect, steps: Seq<ModeStep>, i: int, targets: Option<Seq<Rect>>) -> bool
    decreases steps.len() - i,
{
    if i >= steps.len() || i < 0 {
        true
    } else if steps[i].mode == ModeType::Floating {
        match targets {
            None => true,
            Some(t) => match floating::floating_resolve(t, steps[i].selection@) {
                None => true,
                Some(r) => chain_safe(r, steps, i + 1, None),
            },
        }
    } else {
        &&& mode_computes_on(steps[i].mode, area)
        &&& match mode_resolve(steps[i].mode, area, steps[i].selection@, Seq::empty()) {
            None => true,
            Some(r) => chain_safe(r, steps, i + 1, None),
        }
    }
}

/// Every selection from step `i` on is made of ASCII characters.
pub open spec fn selections_ascii(steps: Seq<ModeStep>, i: int) -> bool {
    forall|k: int| i <= k < steps.len() ==> vstd::utf8::is_ascii_chars(#[trigger] steps[k].selection@)
}

/// The walk of `chain_walk` with each selection lower-cased (ASCII) and then
/// compared with the labels as it stands.
pub open spec fn chain_walk_lowered(area: Rect, steps: Seq<ModeStep>, i: int, targets: Option<Seq<Rect>>) -> ChainProgress
    decreases steps.len() - i,
{
    if i >= steps.len() || i < 0 {
        ChainProgress::Done(Some(area))
    } else if steps[i].mode == ModeType::Floating {
        match targets {
            None => ChainProgress::NeedsTargets { area, step: i as usize },
            Some(t) => match floating::floating_resolve(t, ascii_lower_seq(steps[i].selection@)) {
                None => ChainProgress::Done(None),
                Some(r) => chain_walk_lowered(r, steps, i + 1, None),
            },
        }
    } else {
        match mode_resolve_lowered(steps[i].mode, area, ascii_lower_seq(steps[i].selection@), Seq::empty()) {
            None => ChainProgress::Done(None),
            Some(r) => chain_walk_lowered(r, steps, i + 1, None),
        }
    }
}

/// Walks a chain of steps from `area`, starting at step `step`; `targets` are
/// the targets detected in `area` when step `step` is a floating step.
pub fn continue_chain(area: Rect, steps: &[ModeStep], step: usize, targets: Option<Vec<Rect>>) -> (p: ChainProgress)
    requires
        step <= steps@.len(),
        chain_safe(area, steps@, step as int, targets_view(targets)),
    ensures
        p == chain_walk(area, steps@, step as int, targets_view(targets)),
        selections_ascii(steps@, step as int) ==> p == chain_walk_lowered(
            area,
            steps@,
            step as int,
            targets_view(targets),
        ),
{
    match try_continue_chain(area, steps, step, targets) {
        Some(p) => p,
        None => {
            proof {
                assert(false);
            }
            ChainProgress::Done(None)
        },
    }
}

/// Resolve a chain of mode+selection steps starting from an initial area. The
/// walk stops at the first floating step, asking for the targets there.
pub fn resolve_chain(initial_area: Rect, steps: &[ModeStep]) -> (p: ChainProgress)
    requires
        chain_safe(initial_area, steps@, 0, None),
    ensures
        p == chain_walk(initial_area, steps@, 0, None),
        selections_ascii(steps@, 0) ==> p == chain_walk_lowered(initial_area, steps@, 0, None),
{
    continue_chain(initial_area, steps, 0, None)
}

/// Walks a chain of steps like `continue_chain`, testing before each
/// resolution that it stays within machine ranges: `None` when one would not.
pub fn try_continue_chain(area: Rect, steps: &[ModeStep], step: usize, targets: Option<Vec<Rect>>) -> (r: Option<
    ChainProgress,
>)
    requires
        step <= steps@.len(),
    ensures
        match r {
            Some(p) => {
                &&& chain_safe(area, steps@, step as int, targets_view(targets))
                &&& p == chain_walk(area, steps@, step as int, targets_view(targets))
                &&& selections_ascii(steps@, step as int) ==> p == chain_walk_lowered(
                    area,
                    steps@,
                    step as int,
                    targets_view(targets),
                )
            },
            None => !chain_safe(area, steps@, step as int, targets_view(targets)),
        },
{
    let mut cur = area;
    let mut i = step;
    let mut pending = targets;
    while i < steps.len()
        invariant
            i <= steps@.len(),
            chain_safe(area, steps@, step as int, targets_view(targets)) == chain_safe(
                cur,
                steps@,
                i as int,
                targets_view(pending),
            ),
            chain_walk(area, steps@, step as int, targets_view(targets)) == chain_walk(
                cur,
                steps@,
                i as int,
                targets_view(pending),
            ),
            step <= i,
            selections_ascii(steps@, step as int) ==> chain_walk_lowered(
                area,
                steps@,
                step as int,
                targets_view(targets),
            ) == chain_walk_lowered(cur, steps@, i as int, targets_view(pending)),
        decreases steps@.len() - i,
    {
        let st = &steps[i];
        if st.mode.needs_targets() {
            match pending {
                None => {
                    return Some(ChainProgress::NeedsTargets { area: cur, step: i });
                },
                Some(t) => {
                    proof {
                        if selections_ascii(steps@, step as int) {
                            assert(vstd::utf8::is_ascii_chars(steps@[i as int].selection@));
                            tile::lemma_tile_index_ascii_case(st.selection@, t@.len() as int);
                        }
                    }
                    match floating::FloatingMode::resolve(t, st.selection.as_str()) {
                        None => {
                            return Some(ChainProgress::Done(None));
                        },
                        Some(r) => {
                            cur = r;
                        },
                    }
                },
            }
        } else {
            if !st.mode.computes_on_check(cur) {
                return None;
            }
            let none: Vec<Rect> = Vec::new();
            assert(none@ =~= Seq::<Rect>::empty());
            proof {
                if selections_ascii(steps@, step as int) {
                    assert(vstd::utf8::is_ascii_chars(steps@[i as int].selection@));
                }
            }
            match st.mode.resolve_in(cur, st.selection.as_str(), none) {
                None => {
                    return Some(ChainProgress::Done(None));
                },
                Some(r) => {
                    cur = r;
                },
            }
        }
        pending = None;
        i = i + 1;
    }
    Some(ChainProgress::Done(Some(cur)))
}

/// Resolves a chain of steps from `initial_area` like `resolve_chain`, or
/// gives `None` when some resolution on the way would leave machine ranges.
pub fn try_resolve_chain(initial_area: Rect, steps: &[ModeStep]) -> (r: Option<ChainProgress>)
    ensures
        match r {
            Some(p) => {
                &&& chain_safe(initial_area, steps@, 0, None)
                &&& p == chain_walk(initial_area, steps@, 0, None)
                &&& selections_ascii(steps@, 0) ==> p == chain_walk_lowered(initial_area, steps@, 0, None)
            },
            None => !chain_safe(initial_area, steps@, 0, None),
        },
{
    try_continue_chain(initial_area, steps, 0, None)
}

/// A walk's outcome as seen from a longer list of steps in which its steps
/// come after `n` others: a request for targets names its step `n` places on.
pub open spec fn shift_progress(p: ChainProgress, n: int) -> ChainProgress {
    match p {
        ChainProgress::NeedsTargets { area, step } => ChainProgress::NeedsTargets {
            area,
            step: (step as int + n) as usize,
        },
        other => other,
    }
}

/// A chain without steps ends where it starts; a chain of one step gives what
/// that step's mode resolves, or asks for targets when the step is a floating
/// one.
pub proof fn lemma_chain_identity(area: Rect, step: ModeStep)
    ensures
        chain_walk(area, Seq::empty(), 0, None) == ChainProgress::Done(Some(area)),
        chain_walk(area, seq![step], 0, None) == (if step.mode == ModeType::Floating {
            ChainProgress::NeedsTargets { area, step: 0 }
        } else {
            ChainProgress::Done(mode_resolve(step.mode, area, step.selection@, Seq::empty()))
        }),
{
    let s = seq![step];
    if step.mode != ModeType::Floating {
        match mode_resolve(step.mode, area, step.selection@, Seq::empty()) {
            Some(r) => {
                assert(chain_walk(r, s, 1, None) == ChainProgress::Done(Some(r)));
            },
            None => {},
        }
    }
}

proof fn lemma_chain_suffix(area: Rect, s1: Seq<ModeStep>, s2: Seq<ModeStep>, j: int)
    requires
        0 <= j <= s2.len(),
        s1.len() + s2.len() <= usize::MAX,
    ensures
        chain_walk(area, s1 + s2, s1.len() + j, None) == shift_progress(chain_walk(area, s2, j, None), s1.len() as int),
    decreases s2.len() - j,
{
    let s = s1 + s2;
    let n = s1.len() as int;
    if j < s2.len() {
        assert(s[n + j] == s2[j]);
        if s2[j].mode != ModeType::Floating {
            match mode_resolve(s2[j].mode, area, s2[j].selection@, Seq::empty()) {
                Some(r) => {
                    lemma_chain_suffix(r, s1, s2, j + 1);
                    assert(n + j + 1 == n + (j + 1));
                },
                None => {},
            }
        }
    }
}

/// Walking two lists of steps one after the other is walking the first, then
/// the second from the area the first one reached: the walk stops as soon as
/// one selection names nothing, and a request for targets in the second list
/// names its step in the whole list.
pub proof fn lemma_chain_concat(area: Rect, s1: Seq<ModeStep>, s2: Seq<ModeStep>, i: int)
    requires
        0 <= i <= s1.len(),
        s1.len() + s2.len() <= usize::MAX,
    ensures
        chain_walk(area, s1 + s2, i, None) == match chain_walk(area, s1, i, None) {
            ChainProgress::Done(Some(b)) => shift_progress(chain_walk(b, s2, 0, None), s1.len() as int),
            other => other,
        },
    decreases s1.len() - i,
{
    let s = s1 + s2;
    if i == s1.len() {
        lemma_chain_suffix(area, s1, s2, 0);
    } else {
        assert(s[i] == s1[i]);
        if s1[i].mode != ModeType::Floating {
            match mode_resolve(s1[i].mode, area, s1[i].selection@, Seq::empty()) {
                Some(r) => {
                    lemma_chain_concat(r, s1, s2, i + 1);
                },
                None => {},
            }
        }
    }
}

} // verus!
