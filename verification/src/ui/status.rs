//! The status line at the bottom of the screen.
use vstd::prelude::*;

use crate::app::{Screen, UiMode};
use crate::util::string::push_all;

verus! {

/// The keys that the current screen offers.
pub open spec fn view_hint_of(m: UiMode) -> Seq<char> {
    match m.view {
        Screen::Browser => "[T]ypes  [S]PARQL  [F]ind  [M]arks  [b] Bookmark  [c] Copy triple  [Tab] Next section  [\u{2191}/\u{2193}] Navigate  [Enter] Open  [\u{2190}/\u{2192}] History  [Q]uit"@,
        Screen::Types => "[S]PARQL  [F]ind  [M]arks  [\u{2191}/\u{2193}] Navigate  [Enter] Browse  [Q]uit"@,
        Screen::Sparql => if m.sparql_mode_input {
            "[Esc] Browser  [Enter] Run  [Tab] Results  [Ctrl+U] Clear  [Ctrl+C] Copy  [Ctrl+V] Paste"@
        } else {
            "[Tab] Input  [\u{2191}/\u{2193}] Navigate  [Enter] Open  [Esc/B] Browser  [Q]uit"@
        },
        Screen::Search => if m.search_mode_input {
            "[Esc] Browser  [Enter] Search  [Tab] Results"@
        } else {
            "[Tab] Input  [\u{2191}/\u{2193}] Navigate  [Enter] Browse  [Esc/B] Browser  [Q]uit"@
        },
        Screen::Bookmarks => "[B]rowser  [T]ypes  [S]PARQL  [F]ind  [\u{2191}/\u{2193}] Navigate  [Enter] Browse  [Del] Remove  [Q]uit"@,
    }
}

/// The status line: the keys of the screen, after the status message when
/// there is one.
pub open spec fn status_line_of(m: UiMode, status: Seq<char>) -> Seq<char> {
    if status.len() == 0 {
        view_hint_of(m)
    } else {
        status + "  |  "@ + view_hint_of(m)
    }
}

/// The keys that the current screen offers.
pub fn view_hint(m: UiMode) -> (r: &'static str)
    ensures
        r@ == view_hint_of(m),
{
    match m.view {
        Screen::Browser => "[T]ypes  [S]PARQL  [F]ind  [M]arks  [b] Bookmark  [c] Copy triple  [Tab] Next section  [\u{2191}/\u{2193}] Navigate  [Enter] Open  [\u{2190}/\u{2192}] History  [Q]uit",
        Screen::Types => "[S]PARQL  [F]ind  [M]arks  [\u{2191}/\u{2193}] Navigate  [Enter] Browse  [Q]uit",
        Screen::Sparql => if m.sparql_mode_input {
            "[Esc] Browser  [Enter] Run  [Tab] Results  [Ctrl+U] Clear  [Ctrl+C] Copy  [Ctrl+V] Paste"
        } else {
            "[Tab] Input  [\u{2191}/\u{2193}] Navigate  [Enter] Open  [Esc/B] Browser  [Q]uit"
        },
        Screen::Search => if m.search_mode_input {
            "[Esc] Browser  [Enter] Search  [Tab] Results"
        } else {
            "[Tab] Input  [\u{2191}/\u{2193}] Navigate  [Enter] Browse  [Esc/B] Browser  [Q]uit"
        },
        Screen::Bookmarks => "[B]rowser  [T]ypes  [S]PARQL  [F]ind  [\u{2191}/\u{2193}] Navigate  [Enter] Browse  [Del] Remove  [Q]uit",
    }
}

/// The status line for the screen and the status message.
pub fn status_line(m: UiMode, status: &str) -> (r: String)
    ensures
        r@ == status_line_of(m, status@),
{
    let hint = view_hint(m);
    let mut s = String::new();
    if !status.is_empty() {
        push_all(&mut s, status);
        push_all(&mut s, "  |  ");
    }
    push_all(&mut s, hint);
    s
}

} // verus!
