//! The sections of the desktop window and the mouse buttons it offers.
use vstd::prelude::*;

verus! {

#[derive(Debug, Clone, Copy, PartialEq, Eq, Structural)]
pub enum AppSection {
    Overview,
    Window,
    Browser,
    Capture,
    Input,
}

/// The sections shown when no browser section is available, in tab order.
pub open spec fn core_sections() -> Seq<AppSection> {
    seq![AppSection::Overview, AppSection::Window, AppSection::Capture, AppSection::Input]
}

/// The sections shown when a browser section is available, in tab order.
pub open spec fn browser_sections() -> Seq<AppSection> {
    seq![
        AppSection::Overview,
        AppSection::Window,
        AppSection::Browser,
        AppSection::Capture,
        AppSection::Input,
    ]
}

pub open spec fn section_label(s: AppSection) -> Seq<char> {
    match s {
        AppSection::Overview => "Overview"@,
        AppSection::Window => "Window"@,
        AppSection::Browser => "Browser"@,
        AppSection::Capture => "Capture"@,
        AppSection::Input => "Input"@,
    }
}

impl AppSection {
    pub const CORE: [AppSection; 4] = [
        AppSection::Overview,
        AppSection::Window,
        AppSection::Capture,
        AppSection::Input,
    ];

    pub const WITH_BROWSER: [AppSection; 5] = [
        AppSection::Overview,
        AppSection::Window,
        AppSection::Browser,
        AppSection::Capture,
        AppSection::Input,
    ];

    /// The sections to show as tabs, with the browser section only when a
    /// browser is available.
    pub fn visible_sections(has_browser: bool) -> (sections: &'static [AppSection])
        ensures
            sections@ == (if has_browser { browser_sections() } else { core_sections() }),
    {
        if has_browser {
            assert(Self::WITH_BROWSER@ =~= browser_sections());
            &Self::WITH_BROWSER
        } else {
            assert(Self::CORE@ =~= core_sections());
            &Self::CORE
        }
    }

    pub fn label(self) -> (l: &'static str)
        ensures
            l@ == section_label(self),
    {
        match self {
            AppSection::Overview => "Overview",
            AppSection::Window => "Window",
            AppSection::Browser => "Browser",
            AppSection::Capture => "Capture",
            AppSection::Input => "Input",
        }
    }
}

#[derive(Debug, Clone, Copy, PartialEq, Eq, Structural)]
pub enum MouseButtonChoice {
    Left,
    Right,
    Middle,
}

pub open spec fn button_choice_label(b: MouseButtonChoice) -> Seq<char> {
    match b {
        MouseButtonChoice::Left => "Left"@,
        MouseButtonChoice::Right => "Right"@,
        MouseButtonChoice::Middle => "Middle"@,
    }
}

impl MouseButtonChoice {
    pub const ALL: [MouseButtonChoice; 3] = [
        MouseButtonChoice::Left,
        MouseButtonChoice::Right,
        MouseButtonChoice::Middle,
    ];

    pub fn label(self) -> (l: &'static str)
        ensures
            l@ == button_choice_label(self),
    {
        match self {
            MouseButtonChoice::Left => "Left",
            MouseButtonChoice::Right => "Right",
            MouseButtonChoice::Middle => "Middle",
        }
    }
}

/// Every section has its own tab label, and the browser section is the only
/// one that depends on a browser being available.
pub proof fn lemma_sections_distinct(a: AppSection, b: AppSection)
    ensures
        section_label(a) == section_label(b) ==> a == b,
        browser_sections().contains(a),
        core_sections().contains(a) <==> a != AppSection::Browser,
{
    reveal_strlit("Overview");
    reveal_strlit("Window");
    reveal_strlit("Browser");
    reveal_strlit("Capture");
    reveal_strlit("Input");
    match a {
        AppSection::Overview => assert(browser_sections()[0] == a && core_sections()[0] == a),
        AppSection::Window => assert(browser_sections()[1] == a && core_sections()[1] == a),
        AppSection::Browser => {
            assert(browser_sections()[2] == a);
            assert(!core_sections().contains(a)) by {
                assert(forall|i: int| 0 <= i < 4 ==> core_sections()[i] != AppSection::Browser);
            }
        },
        AppSection::Capture => assert(browser_sections()[3] == a && core_sections()[2] == a),
        AppSection::Input => assert(browser_sections()[4] == a && core_sections()[3] == a),
    }
    if section_label(a) == section_label(b) && a != b {
        assert(section_label(a).len() != section_label(b).len() || section_label(a)[0] != section_label(b)[0]);
    }
}

} // verus!
