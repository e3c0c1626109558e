//! The pages of the settings window. The page contents are drawn by the
//! application.

use vstd::prelude::*;

verus! {

#[derive(Debug, Clone, Copy, PartialEq, Eq, Structural)]
pub enum Page {
    Sources,
    Schedule,
    Appearance,
    History,
}

pub open spec fn page_title(p: Page) -> Seq<char> {
    match p {
        Page::Sources => "Sources"@,
        Page::Schedule => "Schedule"@,
        Page::Appearance => "Appearance"@,
        Page::History => "History"@,
    }
}

pub open spec fn page_icon(p: Page) -> Seq<char> {
    match p {
        Page::Sources => "applications-internet-symbolic"@,
        Page::Schedule => "preferences-system-time-symbolic"@,
        Page::Appearance => "preferences-desktop-wallpaper-symbolic"@,
        Page::History => "document-open-recent-symbolic"@,
    }
}

impl Page {
    pub fn title(&self) -> (r: &'static str)
        ensures
            r@ == page_title(*self),
    {
        match self {
            Page::Sources => "Sources",
            Page::Schedule => "Schedule",
            Page::Appearance => "Appearance",
            Page::History => "History",
        }
    }

    /// Name of the page's icon in the icon theme.
    pub fn icon(&self) -> (r: &'static str)
        ensures
            r@ == page_icon(*self),
    {
        match self {
            Page::Sources => "applications-internet-symbolic",
            Page::Schedule => "preferences-system-time-symbolic",
            Page::Appearance => "preferences-desktop-wallpaper-symbolic",
            Page::History => "document-open-recent-symbolic",
        }
    }
}

} // verus!
