//! What the tool knows of desktop windows and of the session it runs in, and
//! the decisions it takes on them.
use vstd::prelude::*;

use crate::text::{ascii_lower_seq, str_to_ascii_lowercase, str_trim, trim_ws};

verus! {

#[derive(Debug)]
pub struct WindowInfo {
    pub id: u64,
    pub title: String,
    pub pid: u32,
    pub x: i32,
    pub y: i32,
    pub width: u32,
    pub height: u32,
    pub is_minimized: bool,
    pub is_maximized: bool,
}

/// A window's information with the title as characters.
pub struct WindowView {
    pub id: u64,
    pub title: Seq<char>,
    pub pid: u32,
    pub x: i32,
    pub y: i32,
    pub width: u32,
    pub height: u32,
    pub is_minimized: bool,
    pub is_maximized: bool,
}

impl View for WindowInfo {
    type V = WindowView;

    open spec fn view(&self) -> WindowView {
        WindowView {
            id: self.id,
            title: self.title@,
            pid: self.pid,
            x: self.x,
            y: self.y,
            width: self.width,
            height: self.height,
            is_minimized: self.is_minimized,
            is_maximized: self.is_maximized,
        }
    }
}

pub open spec fn window_views(ws: Seq<WindowInfo>) -> Seq<WindowView> {
    ws.map_values(|w: WindowInfo| w@)
}

impl Clone for WindowInfo {
    fn clone(&self) -> (c: Self)
        ensures
            c@ == self@,
    {
        WindowInfo {
            id: self.id,
            title: self.title.clone(),
            pid: self.pid,
            x: self.x,
            y: self.y,
            width: self.width,
            height: self.height,
            is_minimized: self.is_minimized,
            is_maximized: self.is_maximized,
        }
    }
}

#[derive(Debug, Clone, Copy, PartialEq, Eq, Structural)]
pub struct PermissionStatus {
    pub screen_capture: bool,
    pub accessibility: bool,
    pub input_simulation: bool,
    pub cursor_tracking: bool,
}

impl Default for PermissionStatus {
    fn default() -> (p: Self)
        ensures
            !p.screen_capture && !p.accessibility && !p.input_simulation && !p.cursor_tracking,
    {
        PermissionStatus {
            screen_capture: false,
            accessibility: false,
            input_simulation: false,
            cursor_tracking: false,
        }
    }
}

impl PermissionStatus {
    /// Some feature of the tool is available in this session.
    pub fn any_available(&self) -> (b: bool)
        ensures
            b == (self.screen_capture || self.accessibility || self.input_simulation || self.cursor_tracking),
    {
        self.screen_capture || self.accessibility || self.input_simulation || self.cursor_tracking
    }
}

/// `a + b`, held at the ends of the `i32` range.
pub open spec fn spec_sat_add_i32(a: int, b: int) -> int {
    if a + b > i32::MAX {
        i32::MAX as int
    } else if a + b < i32::MIN {
        i32::MIN as int
    } else {
        a + b
    }
}

/// `a · b`, held at `u32::MAX`.
pub open spec fn spec_sat_mul_u32(a: int, b: int) -> int {
    if a * b > u32::MAX {
        u32::MAX as int
    } else {
        a * b
    }
}

/// Saturating `i32` addition.
pub fn sat_add_i32(a: i32, b: i32) -> (r: i32)
    ensures
        r == spec_sat_add_i32(a as int, b as int),
{
    let s = a as i64 + b as i64;
    if s > i32::MAX as i64 {
        i32::MAX
    } else if s < i32::MIN as i64 {
        i32::MIN
    } else {
        s as i32
    }
}

/// Saturating `u32` multiplication.
pub fn sat_mul_u32(a: u32, b: u32) -> (r: u32)
    ensures
        r == spec_sat_mul_u32(a as int, b as int),
{
    proof {
        crate::modes::floating::lemma_u32_product(a, b);
    }
    let p = a as u64 * b as u64;
    if p > u32::MAX as u64 {
        u32::MAX
    } else {
        p as u32
    }
}

/// The window's rectangle holds the point; the far edges are formed with
/// saturating addition of the size taken as an `i32`.
pub open spec fn window_holds(w: WindowView, x: int, y: int) -> bool {
    let right = spec_sat_add_i32(w.x as int, (w.width as i32) as int);
    let bottom = spec_sat_add_i32(w.y as int, (w.height as i32) as int);
    x >= w.x && x < right && y >= w.y && y < bottom
}

pub open spec fn window_area(w: WindowView) -> int {
    spec_sat_mul_u32(w.width as int, w.height as int)
}

/// Index of the first smallest of the first `n` windows that hold the point.
pub open spec fn smallest_window_at(ws: Seq<WindowView>, x: int, y: int, n: int) -> Option<int>
    decreases n,
{
    if n <= 0 {
        None
    } else {
        let best = smallest_window_at(ws, x, y, n - 1);
        if window_holds(ws[n - 1], x, y) {
            match best {
                None => Some(n - 1),
                Some(j) => if window_area(ws[n - 1]) < window_area(ws[j]) { Some(n - 1) } else { Some(j) },
            }
        } else {
            best
        }
    }
}

/// The window at a point: the smallest of the windows that hold it, the first
/// one listed among equally small ones.
pub fn window_at(windows: &Vec<WindowInfo>, x: i32, y: i32) -> (found: Option<WindowInfo>)
    ensures
        match smallest_window_at(window_views(windows@), x as int, y as int, windows@.len() as int) {
            None => found is None,
            Some(k) => found matches Some(w) && w@ == windows@[k]@,
        },
{
    let n = windows.len();
    let ghost ws = window_views(windows@);
    let mut best: Option<usize> = None;
    let mut best_area: u32 = 0;
    let mut i: usize = 0;
    while i < n
        invariant
            n == windows@.len(),
            ws == window_views(windows@),
            i <= n,
            match best {
                None => smallest_window_at(ws, x as int, y as int, i as int) is None,
                Some(b) => smallest_window_at(ws, x as int, y as int, i as int) == Some(b as int) && b < i
                    && best_area == window_area(ws[b as int]),
            },
        decreases n - i,
    {
        let w = &windows[i];
        assert(ws[i as int] == w@);
        let right = sat_add_i32(w.x, w.width as i32);
        let bottom = sat_add_i32(w.y, w.height as i32);
        if x >= w.x && x < right && y >= w.y && y < bottom {
            let a = sat_mul_u32(w.width, w.height);
            match best {
                None => {
                    best = Some(i);
                    best_area = a;
                },
                Some(_) => {
                    if a < best_area {
                        best = Some(i);
                        best_area = a;
                    }
                },
            }
        }
        i = i + 1;
    }
    match best {
        None => None,
        Some(b) => {
            assert(ws[b as int] == windows@[b as int]@);
            Some(windows[b].clone())
        },
    }
}

/// What the window picked at a point is: it holds the point, no window that
/// holds the point is smaller, and among equally small ones it comes first.
pub proof fn lemma_window_at_smallest(ws: Seq<WindowView>, x: int, y: int, n: int)
    requires
        0 <= n <= ws.len(),
    ensures
        match smallest_window_at(ws, x, y, n) {
            None => forall|k: int| 0 <= k < n ==> !window_holds(#[trigger] ws[k], x, y),
            Some(j) => {
                &&& 0 <= j < n
                &&& window_holds(ws[j], x, y)
                &&& forall|k: int|
                    0 <= k < n && window_holds(#[trigger] ws[k], x, y) ==> window_area(ws[j]) <= window_area(ws[k])
                        && (window_area(ws[j]) == window_area(ws[k]) ==> j <= k)
            },
        },
    decreases n,
{
    if n > 0 {
        lemma_window_at_smallest(ws, x, y, n - 1);
    }
}

/// `needle` occurs in `haystack` as a run of consecutive characters.
pub open spec fn occurs_in(haystack: Seq<char>, needle: Seq<char>) -> bool {
    exists|i: int| 0 <= i && i + needle.len() <= haystack.len() && #[trigger] haystack.subrange(i, i + needle.len()) == needle
}

/// Calls `str::contains` with a string pattern: whether the pattern occurs as a
/// run of consecutive characters.
#[verifier::external_body]
pub(crate) fn str_contains(haystack: &str, needle: &str) -> (b: bool)
    ensures
        b == occurs_in(haystack@, needle@),
{
    haystack.contains(needle)
}

/// The search query as it is matched: trimmed and ASCII lower-cased.
pub open spec fn search_query(search: Seq<char>) -> Seq<char> {
    ascii_lower_seq(trim_ws(search))
}

/// The query occurs in the ASCII lower-cased title.
pub open spec fn title_matches(title: Seq<char>, query: Seq<char>) -> bool {
    occurs_in(ascii_lower_seq(title), query)
}

/// The windows, in order, whose title matches the query.
pub open spec fn matching_windows(ws: Seq<WindowView>, query: Seq<char>) -> Seq<WindowView>
    decreases ws.len(),
{
    if ws.len() == 0 {
        Seq::empty()
    } else {
        let rest = matching_windows(ws.drop_last(), query);
        if title_matches(ws.last().title, query) {
            rest.push(ws.last())
        } else {
            rest
        }
    }
}

/// The windows a search lists: all of them without a search or with a blank
/// one, else those whose title contains the query, ignoring ASCII case.
pub open spec fn searched_windows(ws: Seq<WindowView>, search: Option<Seq<char>>) -> Seq<WindowView> {
    match search {
        None => ws,
        Some(s) => if search_query(s).len() == 0 {
            ws
        } else {
            matching_windows(ws, search_query(s))
        },
    }
}

pub open spec fn opt_chars(search: Option<&str>) -> Option<Seq<char>> {
    match search {
        Some(s) => Some(s@),
        None => None,
    }
}

pub fn filter_windows(windows: Vec<WindowInfo>, search: Option<&str>) -> (found: Vec<WindowInfo>)
    ensures
        window_views(found@) == searched_windows(window_views(windows@), opt_chars(search)),
{
    let search = match search {
        None => {
            return windows;
        },
        Some(s) => s,
    };
    let query = str_to_ascii_lowercase(str_trim(search));
    if query.unicode_len() == 0 {
        return windows;
    }
    let ghost ws = window_views(windows@);
    let mut found: Vec<WindowInfo> = Vec::new();
    let mut i: usize = 0;
    while i < windows.len()
        invariant
            i <= windows@.len(),
            ws == window_views(windows@),
            query@ == search_query(search@),
            window_views(found@) == matching_windows(ws.take(i as int), query@),
        decreases windows@.len() - i,
    {
        let title = str_to_ascii_lowercase(windows[i].title.as_str());
        assert(ws.take(i + 1).drop_last() =~= ws.take(i as int));
        assert(ws.take(i + 1).last() == windows@[i as int]@);
        if str_contains(title.as_str(), query.as_str()) {
            let w = windows[i].clone();
            let ghost before = found@;
            found.push(w);
            assert(window_views(found@) =~= window_views(before).push(w@));
        }
        i = i + 1;
    }
    assert(ws.take(windows@.len() as int) =~= ws);
    found
}

/// The first window listed with the given id.
pub open spec fn window_with_id(ws: Seq<WindowView>, id: u64) -> Option<int>
    decreases ws.len(),
{
    if ws.len() == 0 {
        None
    } else if ws[0].id == id {
        Some(0)
    } else {
        match window_with_id(ws.drop_first(), id) {
            Some(k) => Some(k + 1),
            None => None,
        }
    }
}

/// The window found for an id is listed, has that id, and comes before every
/// other window with it; when none is found, no listed window has the id.
pub proof fn lemma_window_with_id(ws: Seq<WindowView>, id: u64)
    ensures
        match window_with_id(ws, id) {
            Some(k) => 0 <= k < ws.len() && ws[k].id == id && forall|i: int| 0 <= i < k ==> ws[i].id != id,
            None => forall|i: int| 0 <= i < ws.len() ==> ws[i].id != id,
        },
    decreases ws.len(),
{
    if ws.len() > 0 && ws[0].id != id {
        lemma_window_with_id(ws.drop_first(), id);
        assert forall|i: int| 1 <= i < ws.len() implies ws[i] == ws.drop_first()[i - 1] by {}
    }
}

pub fn find_window(windows: &Vec<WindowInfo>, id: u64) -> (found: Option<WindowInfo>)
    ensures
        match window_with_id(window_views(windows@), id) {
            None => found is None,
            Some(k) => found matches Some(w) && w@ == windows@[k]@,
        },
{
    let ghost ws = window_views(windows@);
    let mut i: usize = 0;
    assert(ws.skip(0) =~= ws);
    while i < windows.len()
        invariant
            i <= windows@.len(),
            ws == window_views(windows@),
            window_with_id(ws, id) == match window_with_id(ws.skip(i as int), id) {
                Some(k) => Some(k + i),
                None => None,
            },
        decreases windows@.len() - i,
    {
        assert(ws.skip(i as int).drop_first() =~= ws.skip(i + 1));
        assert(ws.skip(i as int)[0] == windows@[i as int]@);
        if windows[i].id == id {
            return Some(windows[i].clone());
        }
        i = i + 1;
    }
    None
}

} // verus!
