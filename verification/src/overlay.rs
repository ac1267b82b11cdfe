//! The state of the selection overlay: the current area, the areas left
//! behind, and the labelled sub-areas on offer.
use vstd::prelude::*;

use crate::modes::bisect::{bisect_subdivisions, division_of, lemma_bisect_law, Division};
use crate::modes::grid::sides_fit;
use crate::modes::split::lemma_split_law;
use crate::modes::tile::lemma_tile_law;
use crate::modes::{mode_computes_on, mode_subdivisions, views, ModeType, Rect, Subdivision};

verus! {

#[derive(Debug, Clone)]
pub struct OverlayState {
    pub mode: ModeType,
    pub viewport: Rect,
    pub area: Rect,
    pub history: Vec<Rect>,
    pub subdivisions: Vec<Subdivision>,
    /// In floating mode, the sub-areas are the targets detected in `area`;
    /// until the caller hands them in, this is set and no sub-area is offered.
    pub targets_pending: bool,
}

/// The sub-areas offered in `area` right after a rebuild.
pub open spec fn rebuilt(mode: ModeType, area: Rect) -> Seq<(Seq<char>, Rect)> {
    if mode == ModeType::Floating {
        Seq::empty()
    } else {
        mode_subdivisions(mode, area, Seq::empty())
    }
}

/// Area of a rectangle.
pub open spec fn rect_area(r: Rect) -> int {
    r.w * r.h
}

/// Index of the first smallest of the first `n` sub-areas that contain the
/// point, if any contains it.
pub open spec fn smallest_containing(subs: Seq<(Seq<char>, Rect)>, x: int, y: int, n: int) -> Option<int>
    decreases n,
{
    if n <= 0 {
        None
    } else {
        let best = smallest_containing(subs, x, y, n - 1);
        if subs[n - 1].1.spec_contains(x, y) {
            match best {
                None => Some(n - 1),
                Some(j) => if rect_area(subs[n - 1].1) < rect_area(subs[j].1) { Some(n - 1) } else { Some(j) },
            }
        } else {
            best
        }
    }
}

/// What `smallest_containing` picks: a sub-area that contains the point, no
/// larger than any other that does, and the first among equally small ones;
/// nothing is picked only when no sub-area contains the point.
pub proof fn lemma_smallest_containing(subs: Seq<(Seq<char>, Rect)>, x: int, y: int, n: int)
    requires
        0 <= n <= subs.len(),
    ensures
        match smallest_containing(subs, x, y, n) {
            None => forall|k: int| 0 <= k < n ==> !(#[trigger] subs[k].1.spec_contains(x, y)),
            Some(j) => {
                &&& 0 <= j < n
                &&& subs[j].1.spec_contains(x, y)
                &&& forall|k: int|
                    0 <= k < n && #[trigger] subs[k].1.spec_contains(x, y) ==> rect_area(subs[j].1) <= rect_area(
                        subs[k].1,
                    ) && (rect_area(subs[j].1) == rect_area(subs[k].1) ==> j <= k)
            },
        },
    decreases n,
{
    if n > 0 {
        lemma_smallest_containing(subs, x, y, n - 1);
    }
}

/// The point test and the area of every sub-area that contains the point stay
/// within machine ranges, and so does the mode's computation on it.
pub open spec fn select_in_range(mode: ModeType, subs: Seq<(Seq<char>, Rect)>, x: int, y: int) -> bool {
    forall|k: int|
        0 <= k < subs.len() ==> #[trigger] subs[k].1.contains_in_range(x, y) && (subs[k].1.spec_contains(x, y)
            ==> subs[k].1.w * subs[k].1.h <= u32::MAX && mode_computes_on(mode, subs[k].1))
}

impl OverlayState {
    pub open spec fn offers(&self) -> Seq<(Seq<char>, Rect)> {
        views(self.subdivisions@)
    }

    pub fn new(mode: ModeType, viewport: Rect) -> (state: Self)
        requires
            mode_computes_on(mode, viewport),
        ensures
            state.mode == mode,
            state.viewport == viewport,
            state.area == viewport,
            state.history@ == Seq::<Rect>::empty(),
            state.offers() == rebuilt(mode, viewport),
            state.targets_pending == (mode == ModeType::Floating),
    {
        let mut state = Self {
            mode,
            viewport,
            area: viewport,
            history: Vec::new(),
            subdivisions: Vec::new(),
            targets_pending: false,
        };
        state.rebuild();
        state
    }

    pub fn set_mode(&mut self, mode: ModeType)
        requires
            mode_computes_on(mode, old(self).area),
        ensures
            final(self).mode == mode,
            final(self).viewport == old(self).viewport,
            final(self).area == old(self).area,
            final(self).history@ == Seq::<Rect>::empty(),
            final(self).offers() == rebuilt(mode, old(self).area),
            final(self).targets_pending == (mode == ModeType::Floating),
    {
        self.mode = mode;
        self.history.clear();
        self.rebuild();
    }

    /// Zooms into the smallest offered sub-area that contains the point — the
    /// first of them when several are equally small — and returns its label.
    pub fn select_at(&mut self, x: i32, y: i32) -> (label: Option<String>)
        requires
            select_in_range(old(self).mode, old(self).offers(), x as int, y as int),
        ensures
            match smallest_containing(old(self).offers(), x as int, y as int, old(self).offers().len() as int) {
                None => label is None && *final(self) == *old(self),
                Some(k) => {
                    &&& label matches Some(l) && l@ == old(self).offers()[k].0
                    &&& final(self).mode == old(self).mode
                    &&& final(self).viewport == old(self).viewport
                    &&& final(self).history@ == old(self).history@.push(old(self).area)
                    &&& final(self).area == old(self).offers()[k].1
                    &&& final(self).offers() == rebuilt(old(self).mode, old(self).offers()[k].1)
                    &&& final(self).targets_pending == (old(self).mode == ModeType::Floating)
                },
            },
    {
        let n = self.subdivisions.len();
        let mut best: Option<usize> = None;
        let mut best_area: u32 = 0;
        let mut i: usize = 0;
        while i < n
            invariant
                n == self.subdivisions@.len(),
                i <= n,
                select_in_range(self.mode, self.offers(), x as int, y as int),
                match best {
                    None => smallest_containing(self.offers(), x as int, y as int, i as int) is None,
                    Some(b) => smallest_containing(self.offers(), x as int, y as int, i as int) == Some(b as int)
                        && b < i && best_area == rect_area(self.offers()[b as int].1),
                },
            decreases n - i,
        {
            let rect = self.subdivisions[i].rect;
            assert(self.offers()[i as int].1 == rect);
            assert(self.offers()[i as int].1.contains_in_range(x as int, y as int));
            if rect.contains(x, y) {
                let a = rect.area();
                match best {
                    None => {
                        best = Some(i);
                        best_area = a;
                    },
                    Some(_) => {
                        if a < best_area {
                            best = Some(i);
                            best_area = a;
                        }
                    },
                }
            }
            i = i + 1;
        }
        match best {
            None => None,
            Some(b) => {
                proof {
                    lemma_smallest_containing(self.offers(), x as int, y as int, n as int);
                    assert(self.offers()[b as int].1.contains_in_range(x as int, y as int));
                }
                let label = self.subdivisions[b].label.clone();
                let new_area = self.subdivisions[b].rect;
                assert(self.offers()[b as int].1 == new_area);
                self.history.push(self.area);
                self.area = new_area;
                self.rebuild();
                Some(label)
            },
        }
    }

    /// Recomputes the offered sub-areas for the current mode and area. In
    /// floating mode they wait for the caller's targets.
    pub fn rebuild(&mut self)
        requires
            mode_computes_on(old(self).mode, old(self).area),
        ensures
            final(self).mode == old(self).mode,
            final(self).viewport == old(self).viewport,
            final(self).area == old(self).area,
            final(self).history == old(self).history,
            final(self).offers() == rebuilt(old(self).mode, old(self).area),
            final(self).targets_pending == (old(self).mode == ModeType::Floating),
    {
        if self.mode.needs_targets() {
            self.subdivisions = Vec::new();
            self.targets_pending = true;
            assert(self.offers() =~= Seq::empty());
        } else {
            let none: Vec<Rect> = Vec::new();
            self.subdivisions = self.mode.subdivisions_of(self.area, none);
            self.targets_pending = false;
        }
    }

    /// Hands in the targets that detection found in the current area, in
    /// floating mode.
    pub fn provide_targets(&mut self, targets: Vec<Rect>)
        requires
            old(self).mode == ModeType::Floating,
        ensures
            final(self).mode == old(self).mode,
            final(self).viewport == old(self).viewport,
            final(self).area == old(self).area,
            final(self).history == old(self).history,
            final(self).offers() == mode_subdivisions(ModeType::Floating, old(self).area, targets@),
            !final(self).targets_pending,
    {
        self.subdivisions = crate::modes::floating::FloatingMode::subdivisions(targets);
        self.targets_pending = false;
    }
}

/// Zooming in a mode that computes its sub-areas never leaves the area: every
/// point of an offered sub-area lies in the area it was cut from.
pub proof fn lemma_zoom_stays_inside(mode: ModeType, area: Rect, k: int, px: int, py: int)
    requires
        mode != ModeType::Floating,
        mode_computes_on(mode, area),
        sides_fit(area),
        0 <= k < rebuilt(mode, area).len(),
        rebuilt(mode, area)[k].1.covers(px, py),
    ensures
        area.covers(px, py),
{
    match mode {
        ModeType::Bisect => {
            if division_of(area) == Division::Undividable {
                assert(bisect_subdivisions(area).len() == 0);
            }
            lemma_bisect_law(area);
        },
        ModeType::SplitX => {
            lemma_split_law(area);
        },
        ModeType::SplitY => {
            lemma_split_law(area);
        },
        ModeType::Tile => {
            lemma_tile_law(area);
        },
        ModeType::Floating => {},
    }
}

} // verus!
