//! The browser's state machine: what a key press does in each view, where the
//! browser starts, and the edits it makes to its lists and inputs.
pub mod browse;
pub mod edit;
pub mod history;
pub mod model;

use vstd::prelude::*;

use crate::app::model::NamedNode;
use crate::rdf::display::opt_view;
use crate::util::string::{concat_strs, str_eq};

verus! {

/// The screens of the browser.
#[derive(Debug, Clone, Copy, PartialEq, Eq)]
pub enum Screen {
    Browser,
    Types,
    Sparql,
    Search,
    Bookmarks,
}

/// Which view is shown, and whether the SPARQL and search screens have
/// their text input focused.
#[derive(Debug, Clone, Copy)]
pub struct UiMode {
    pub view: Screen,
    pub sparql_mode_input: bool,
    pub search_mode_input: bool,
}

/// What the key handling needs to know of the loaded data.
#[derive(Debug, Clone, Copy)]
pub struct KeyContext {
    /// A resource is open in the browser.
    pub has_browser_data: bool,
    /// The last SPARQL query gave a result.
    pub has_sparql_result: bool,
    /// The last search found something.
    pub has_search_results: bool,
    /// The list of types is loaded.
    pub types_loaded: bool,
}

/// A key, as the terminal reports it.
#[derive(Debug, Clone, Copy)]
pub enum KeyCode {
    Char(char),
    Up,
    Down,
    Left,
    Right,
    Enter,
    Tab,
    BackTab,
    Backspace,
    Delete,
    Esc,
    Other,
}

/// No modifier key held.
pub const MOD_NONE: u8 = 0;

/// The shift modifier bit.
pub const MOD_SHIFT: u8 = 1;

/// The control modifier bit.
pub const MOD_CONTROL: u8 = 2;

/// What a key press asks the application to do, beyond changing the mode.
#[derive(Debug, Clone, Copy, PartialEq, Eq)]
pub enum Action {
    Nothing,
    Quit,
    SparqlPushChar(char),
    SearchPushChar(char),
    LoadTypes,
    ToggleBookmark,
    CopyTriple,
    BrowserUp,
    BrowserDown,
    BrowserNextSection,
    BrowserPrevSection,
    BrowserActivate,
    HistoryBack,
    HistoryForward,
    TypesUp,
    TypesDown,
    TypesActivate,
    SparqlRun,
    SparqlBackspace,
    SparqlCursorLeft,
    SparqlCursorRight,
    SparqlClear,
    SparqlCopy,
    SparqlPaste,
    SparqlResultUp,
    SparqlResultDown,
    SparqlActivate,
    BookmarksUp,
    BookmarksDown,
    BookmarksActivate,
    BookmarksDelete,
    SearchRun,
    SearchBackspace,
    SearchCursorLeft,
    SearchCursorRight,
    SearchResultUp,
    SearchResultDown,
    SearchActivate,
}

/// Whether typed characters go into a text input.
pub open spec fn in_text_input(m: UiMode) -> bool {
    (m.view == Screen::Sparql && m.sparql_mode_input) || (m.view == Screen::Search
        && m.search_mode_input)
}

/// Whether the modifiers are none or shift alone.
pub open spec fn plain_or_shift(mods: u8) -> bool {
    mods == MOD_NONE || mods == MOD_SHIFT
}

/// `m` showing `view`.
pub open spec fn with_view(m: UiMode, view: Screen) -> UiMode {
    UiMode { view, ..m }
}

/// The outcome of a key press in the browser view.
pub open spec fn browser_key(m: UiMode, code: KeyCode, mods: u8) -> (UiMode, Action) {
    match code {
        KeyCode::Char('b') if mods == MOD_NONE => (m, Action::ToggleBookmark),
        KeyCode::Char('c') if mods == MOD_NONE => (m, Action::CopyTriple),
        KeyCode::Up => (m, Action::BrowserUp),
        KeyCode::Down => (m, Action::BrowserDown),
        KeyCode::Tab if mods == MOD_NONE => (m, Action::BrowserNextSection),
        KeyCode::BackTab => (m, Action::BrowserPrevSection),
        KeyCode::Enter => (m, Action::BrowserActivate),
        KeyCode::Left => (m, Action::HistoryBack),
        KeyCode::Right => (m, Action::HistoryForward),
        _ => (m, Action::Nothing),
    }
}

/// The outcome of a key press in the types view.
pub open spec fn types_key(m: UiMode, code: KeyCode) -> (UiMode, Action) {
    match code {
        KeyCode::Up => (m, Action::TypesUp),
        KeyCode::Down => (m, Action::TypesDown),
        KeyCode::Enter => (m, Action::TypesActivate),
        _ => (m, Action::Nothing),
    }
}

/// The outcome of a key press in the SPARQL view.
pub open spec fn sparql_key(m: UiMode, ctx: KeyContext, code: KeyCode, mods: u8) -> (UiMode, Action) {
    let input = m.sparql_mode_input;
    match code {
        KeyCode::Tab => if ctx.has_sparql_result {
            (UiMode { sparql_mode_input: !input, ..m }, Action::Nothing)
        } else {
            (m, Action::Nothing)
        },
        KeyCode::Enter => if input {
            (m, Action::SparqlRun)
        } else {
            (m, Action::SparqlActivate)
        },
        KeyCode::Backspace if input => (m, Action::SparqlBackspace),
        KeyCode::Left if input => (m, Action::SparqlCursorLeft),
        KeyCode::Right if input => (m, Action::SparqlCursorRight),
        KeyCode::Char('u') if input && mods == MOD_CONTROL => (m, Action::SparqlClear),
        KeyCode::Char('c') if input && mods == MOD_CONTROL => (m, Action::SparqlCopy),
        KeyCode::Char('v') if input && mods == MOD_CONTROL => (m, Action::SparqlPaste),
        KeyCode::Up if !input => (m, Action::SparqlResultUp),
        KeyCode::Down if !input => (m, Action::SparqlResultDown),
        _ => (m, Action::Nothing),
    }
}

/// The outcome of a key press in the bookmarks view.
pub open spec fn bookmarks_key(m: UiMode, code: KeyCode) -> (UiMode, Action) {
    match code {
        KeyCode::Up => (m, Action::BookmarksUp),
        KeyCode::Down => (m, Action::BookmarksDown),
        KeyCode::Enter => (m, Action::BookmarksActivate),
        KeyCode::Delete => (m, Action::BookmarksDelete),
        _ => (m, Action::Nothing),
    }
}

/// The outcome of a key press in the search view.
pub open spec fn search_key(m: UiMode, ctx: KeyContext, code: KeyCode) -> (UiMode, Action) {
    let input = m.search_mode_input;
    match code {
        KeyCode::Tab => if ctx.has_search_results {
            (UiMode { search_mode_input: !input, ..m }, Action::Nothing)
        } else {
            (m, Action::Nothing)
        },
        KeyCode::Enter => if input {
            (m, Action::SearchRun)
        } else {
            (m, Action::SearchActivate)
        },
        KeyCode::Backspace if input => (m, Action::SearchBackspace),
        KeyCode::Left if input => (m, Action::SearchCursorLeft),
        KeyCode::Right if input => (m, Action::SearchCursorRight),
        KeyCode::Up if !input => (m, Action::SearchResultUp),
        KeyCode::Down if !input => (m, Action::SearchResultDown),
        _ => (m, Action::Nothing),
    }
}

/// The outcome of a key press: typed characters go into a focused input
/// first; otherwise the global keys (quit, switch view, back to the browser)
/// apply, and then the keys of the current view.
pub open spec fn key_outcome(m: UiMode, ctx: KeyContext, code: KeyCode, mods: u8) -> (
    UiMode,
    Action,
) {
    let typing = in_text_input(m);
    let away = m.view == Screen::Sparql || m.view == Screen::Search || m.view == Screen::Bookmarks;
    let back = if ctx.has_browser_data {
        with_view(m, Screen::Browser)
    } else {
        m
    };
    match code {
        KeyCode::Char(c) if m.view == Screen::Sparql && plain_or_shift(mods) && m.sparql_mode_input => (
            m,
            Action::SparqlPushChar(c),
        ),
        KeyCode::Char(c) if m.view == Screen::Search && plain_or_shift(mods) && m.search_mode_input => (
            m,
            Action::SearchPushChar(c),
        ),
        KeyCode::Char(c) if (c == 'q' || c == 'Q') && !typing => (m, Action::Quit),
        KeyCode::Char('t') if mods == MOD_NONE && !typing => (
            with_view(m, Screen::Types),
            if ctx.types_loaded {
                Action::Nothing
            } else {
                Action::LoadTypes
            },
        ),
        KeyCode::Char('s') if mods == MOD_NONE && !typing => (
            UiMode { view: Screen::Sparql, sparql_mode_input: true, ..m },
            Action::Nothing,
        ),
        KeyCode::Char('f') if mods == MOD_NONE && !typing => (
            UiMode { view: Screen::Search, search_mode_input: true, ..m },
            Action::Nothing,
        ),
        KeyCode::Char('m') if mods == MOD_NONE && !typing => (
            with_view(m, Screen::Bookmarks),
            Action::Nothing,
        ),
        KeyCode::Char('b') if away && mods == MOD_NONE && !typing => (back, Action::Nothing),
        KeyCode::Esc if away => (back, Action::Nothing),
        _ => match m.view {
            Screen::Browser => browser_key(m, code, mods),
            Screen::Types => types_key(m, code),
            Screen::Sparql => sparql_key(m, ctx, code, mods),
            Screen::Bookmarks => bookmarks_key(m, code),
            Screen::Search => search_key(m, ctx, code),
        },
    }
}

/// Handles one key press: the mode after it, and what the application must do.
pub fn handle_key(m: UiMode, ctx: KeyContext, code: KeyCode, mods: u8) -> (r: (UiMode, Action))
    ensures
        r == key_outcome(m, ctx, code, mods),
{
    let typing = (matches!(m.view, Screen::Sparql) && m.sparql_mode_input) || (matches!(
        m.view,
        Screen::Search
    ) && m.search_mode_input);
    let away = matches!(m.view, Screen::Sparql | Screen::Search | Screen::Bookmarks);
    let plain = mods == MOD_NONE || mods == MOD_SHIFT;
    let back = if ctx.has_browser_data {
        UiMode { view: Screen::Browser, ..m }
    } else {
        m
    };
    match code {
        KeyCode::Char(c) if matches!(m.view, Screen::Sparql) && plain && m.sparql_mode_input => {
            return (m, Action::SparqlPushChar(c));
        },
        KeyCode::Char(c) if matches!(m.view, Screen::Search) && plain && m.search_mode_input => {
            return (m, Action::SearchPushChar(c));
        },
        KeyCode::Char(c) if (c == 'q' || c == 'Q') && !typing => {
            return (m, Action::Quit);
        },
        KeyCode::Char('t') if mods == MOD_NONE && !typing => {
            let action = if ctx.types_loaded {
                Action::Nothing
            } else {
                Action::LoadTypes
            };
            return (UiMode { view: Screen::Types, ..m }, action);
        },
        KeyCode::Char('s') if mods == MOD_NONE && !typing => {
            return (UiMode { view: Screen::Sparql, sparql_mode_input: true, ..m }, Action::Nothing);
        },
        KeyCode::Char('f') if mods == MOD_NONE && !typing => {
            return (UiMode { view: Screen::Search, search_mode_input: true, ..m }, Action::Nothing);
        },
        KeyCode::Char('m') if mods == MOD_NONE && !typing => {
            return (UiMode { view: Screen::Bookmarks, ..m }, Action::Nothing);
        },
        KeyCode::Char('b') if away && mods == MOD_NONE && !typing => {
            return (back, Action::Nothing);
        },
        KeyCode::Esc if away => {
            return (back, Action::Nothing);
        },
        _ => {},
    }
    match m.view {
        Screen::Browser => match code {
            KeyCode::Char('b') if mods == MOD_NONE => (m, Action::ToggleBookmark),
            KeyCode::Char('c') if mods == MOD_NONE => (m, Action::CopyTriple),
            KeyCode::Up => (m, Action::BrowserUp),
            KeyCode::Down => (m, Action::BrowserDown),
            KeyCode::Tab if mods == MOD_NONE => (m, Action::BrowserNextSection),
            KeyCode::BackTab => (m, Action::BrowserPrevSection),
            KeyCode::Enter => (m, Action::BrowserActivate),
            KeyCode::Left => (m, Action::HistoryBack),
            KeyCode::Right => (m, Action::HistoryForward),
            _ => (m, Action::Nothing),
        },
        Screen::Types => match code {
            KeyCode::Up => (m, Action::TypesUp),
            KeyCode::Down => (m, Action::TypesDown),
            KeyCode::Enter => (m, Action::TypesActivate),
            _ => (m, Action::Nothing),
        },
        Screen::Sparql => {
            let input = m.sparql_mode_input;
            match code {
                KeyCode::Tab => if ctx.has_sparql_result {
                    (UiMode { sparql_mode_input: !input, ..m }, Action::Nothing)
                } else {
                    (m, Action::Nothing)
                },
                KeyCode::Enter => if input {
                    (m, Action::SparqlRun)
                } else {
                    (m, Action::SparqlActivate)
                },
                KeyCode::Backspace if input => (m, Action::SparqlBackspace),
                KeyCode::Left if input => (m, Action::SparqlCursorLeft),
                KeyCode::Right if input => (m, Action::SparqlCursorRight),
                KeyCode::Char('u') if input && mods == MOD_CONTROL => (m, Action::SparqlClear),
                KeyCode::Char('c') if input && mods == MOD_CONTROL => (m, Action::SparqlCopy),
                KeyCode::Char('v') if input && mods == MOD_CONTROL => (m, Action::SparqlPaste),
                KeyCode::Up if !input => (m, Action::SparqlResultUp),
                KeyCode::Down if !input => (m, Action::SparqlResultDown),
                _ => (m, Action::Nothing),
            }
        },
        Screen::Bookmarks => match code {
            KeyCode::Up => (m, Action::BookmarksUp),
            KeyCode::Down => (m, Action::BookmarksDown),
            KeyCode::Enter => (m, Action::BookmarksActivate),
            KeyCode::Delete => (m, Action::BookmarksDelete),
            _ => (m, Action::Nothing),
        },
        Screen::Search => {
            let input = m.search_mode_input;
            match code {
                KeyCode::Tab => if ctx.has_search_results {
                    (UiMode { search_mode_input: !input, ..m }, Action::Nothing)
                } else {
                    (m, Action::Nothing)
                },
                KeyCode::Enter => if input {
                    (m, Action::SearchRun)
                } else {
                    (m, Action::SearchActivate)
                },
                KeyCode::Backspace if input => (m, Action::SearchBackspace),
                KeyCode::Left if input => (m, Action::SearchCursorLeft),
                KeyCode::Right if input => (m, Action::SearchCursorRight),
                KeyCode::Up if !input => (m, Action::SearchResultUp),
                KeyCode::Down if !input => (m, Action::SearchResultDown),
                _ => (m, Action::Nothing),
            }
        },
    }
}

/// While an input is focused, a character typed with no modifier or with
/// shift goes into it and changes nothing else: it never quits or switches
/// the view.
pub proof fn lemma_typing_stays_in_input(m: UiMode, ctx: KeyContext, c: char, mods: u8)
    requires
        in_text_input(m),
        plain_or_shift(mods),
    ensures
        key_outcome(m, ctx, KeyCode::Char(c), mods).0 == m,
        key_outcome(m, ctx, KeyCode::Char(c), mods).1 == if m.view == Screen::Sparql {
            Action::SparqlPushChar(c)
        } else {
            Action::SearchPushChar(c)
        },
{
}

/// A key press quits exactly when it is `q` or `Q` and no input is focused.
pub proof fn lemma_quit_only_outside_input(m: UiMode, ctx: KeyContext, code: KeyCode, mods: u8)
    ensures
        (key_outcome(m, ctx, code, mods).1 == Action::Quit) <==> (!in_text_input(m) && (code
            == KeyCode::Char('q') || code == KeyCode::Char('Q'))),
{
}

/// The view changes only to one the key asks for, and a key press that
/// goes back to the browser does so only when a resource is open there.
pub proof fn lemma_back_needs_resource(m: UiMode, ctx: KeyContext, code: KeyCode, mods: u8)
    ensures
        key_outcome(m, ctx, code, mods).0.view == Screen::Browser && m.view != Screen::Browser
            ==> ctx.has_browser_data,
{
}

/// In the browser, with any modifiers and whatever else is loaded, the
/// arrow keys keep the mode: Up and Down move the selection up and down,
/// Left and Right go back and forward in the history, Shift+Tab goes to the
/// previous section and Enter follows the selected line; plain Tab goes to
/// the next section.
pub proof fn lemma_browser_keys(m: UiMode, ctx: KeyContext, mods: u8)
    requires
        m.view == Screen::Browser,
    ensures
        key_outcome(m, ctx, KeyCode::Up, mods) == (m, Action::BrowserUp),
        key_outcome(m, ctx, KeyCode::Down, mods) == (m, Action::BrowserDown),
        key_outcome(m, ctx, KeyCode::Left, mods) == (m, Action::HistoryBack),
        key_outcome(m, ctx, KeyCode::Right, mods) == (m, Action::HistoryForward),
        key_outcome(m, ctx, KeyCode::BackTab, mods) == (m, Action::BrowserPrevSection),
        key_outcome(m, ctx, KeyCode::Enter, mods) == (m, Action::BrowserActivate),
        key_outcome(m, ctx, KeyCode::Tab, MOD_NONE) == (m, Action::BrowserNextSection),
{
}

/// In each of the other lists the arrow keys move that list's selection:
/// the types and the bookmarks always, the SPARQL results and the search
/// results when their text input is not focused; Up goes up and Down goes
/// down, and the mode stays.
pub proof fn lemma_list_keys(m: UiMode, ctx: KeyContext, mods: u8)
    ensures
        m.view == Screen::Types ==> key_outcome(m, ctx, KeyCode::Up, mods) == (m, Action::TypesUp)
            && key_outcome(m, ctx, KeyCode::Down, mods) == (m, Action::TypesDown),
        m.view == Screen::Bookmarks ==> key_outcome(m, ctx, KeyCode::Up, mods) == (
            m,
            Action::BookmarksUp,
        ) && key_outcome(m, ctx, KeyCode::Down, mods) == (m, Action::BookmarksDown),
        m.view == Screen::Sparql && !m.sparql_mode_input ==> key_outcome(m, ctx, KeyCode::Up, mods)
            == (m, Action::SparqlResultUp) && key_outcome(m, ctx, KeyCode::Down, mods) == (
            m,
            Action::SparqlResultDown,
        ),
        m.view == Screen::Search && !m.search_mode_input ==> key_outcome(m, ctx, KeyCode::Up, mods)
            == (m, Action::SearchResultUp) && key_outcome(m, ctx, KeyCode::Down, mods) == (
            m,
            Action::SearchResultDown,
        ),
{
}

/// Where the browser starts.
#[derive(Debug)]
pub enum Start {
    /// Open the resource at this IRI.
    Navigate(NamedNode),
    /// The given IRI is not valid: show this status message.
    InvalidUri(String),
    /// No IRI was given: load the types.
    LoadTypes,
}

/// What parsing `iri` as an IRI gives: the IRI's text, or the parser's
/// message about it.
pub uninterp spec fn iri_parse(iri: Seq<char>) -> Result<Seq<char>, Seq<char>>;

/// Calls `oxrdf::NamedNode::new`, which validates `iri` as an IRI (RFC 3987).
/// Claimed: the outcome is `iri_parse` of the text; a success keeps the text
/// as it is (the crate stores the string it was given); a failure gives the
/// parse error's message as `Display` writes it.
#[verifier::external_body]
fn parse_named_node(iri: String) -> (r: Result<NamedNode, String>)
    ensures
        match r {
            Ok(n) => iri_parse(iri@) == Ok::<Seq<char>, Seq<char>>(n@),
            Err(e) => iri_parse(iri@) == Err::<Seq<char>, Seq<char>>(e@),
        },
        r matches Ok(n) ==> n@ == iri@,
{
    match oxrdf::NamedNode::new(iri) {
        Ok(n) => Ok(NamedNode::new_unchecked(n.into_string())),
        Err(e) => Err(format!("{}", e)),
    }
}

/// Where the browser starts for the optional IRI given on the command line.
pub open spec fn start_of(start_uri: Option<Seq<char>>) -> Result<Option<Seq<char>>, Seq<char>> {
    match start_uri {
        None => Ok(None),
        Some(u) => match iri_parse(u) {
            Ok(t) => Ok(Some(t)),
            Err(e) => Err("Invalid URI: "@ + e),
        },
    }
}

/// Where the browser starts: the resource at `start_uri` if it is a valid
/// IRI, a status message if it is not, the types when none is given.
pub fn start(start_uri: Option<String>) -> (r: Start)
    ensures
        match r {
            Start::Navigate(n) => start_of(opt_view(start_uri)) == Ok::<
                Option<Seq<char>>,
                Seq<char>,
            >(Some(n@)),
            Start::InvalidUri(msg) => start_of(opt_view(start_uri)) == Err::<
                Option<Seq<char>>,
                Seq<char>,
            >(msg@),
            Start::LoadTypes => start_of(opt_view(start_uri)) == Ok::<
                Option<Seq<char>>,
                Seq<char>,
            >(None),
        },
        r matches Start::Navigate(n) ==> start_uri matches Some(u) && n@ == u@,
{
    match start_uri {
        None => Start::LoadTypes,
        Some(u) => match parse_named_node(u) {
            Ok(n) => Start::Navigate(n),
            Err(e) => {
                let msg = concat_strs("Invalid URI: ", e.as_str());
                Start::InvalidUri(msg)
            },
        },
    }
}

/// The selection after the entry at `sel` is removed from a list that then
/// has `len` entries.
pub open spec fn selection_after_removal(sel: nat, len: nat) -> nat {
    if sel > 0 && sel >= len {
        (sel - 1) as nat
    } else {
        sel
    }
}

/// Removes the selected entry of `items`, if the selection is on one, and
/// moves the selection back when it was on the last entry. Tells whether an
/// entry was removed.
pub fn remove_selected<T>(items: &mut Vec<T>, selection: &mut usize) -> (removed: bool)
    ensures
        removed == (*old(selection) < old(items)@.len()),
        removed ==> final(items)@ == old(items)@.remove(*old(selection) as int),
        removed ==> *final(selection) == selection_after_removal(
            *old(selection) as nat,
            final(items)@.len(),
        ),
        !removed ==> final(items)@ == old(items)@ && *final(selection) == *old(selection),
{
    if *selection < items.len() {
        items.remove(*selection);
        if *selection > 0 && *selection >= items.len() {
            *selection = *selection - 1;
        }
        true
    } else {
        false
    }
}

/// Removing the selected entry keeps the selection on an entry, unless the
/// list became empty.
pub proof fn lemma_removal_keeps_selection_valid(sel: nat, old_len: nat)
    requires
        sel < old_len,
    ensures
        old_len - 1 == 0 || selection_after_removal(sel, (old_len - 1) as nat) < old_len - 1,
{
}


/// The IRIs of a list of resources.
pub open spec fn iris_of(nodes: Seq<NamedNode>) -> Seq<Seq<char>> {
    nodes.map_values(|n: NamedNode| n@)
}

/// A list of IRIs after toggling `iri`: without its first occurrence if the
/// list holds it, with it added at the end otherwise.
pub open spec fn toggled(s: Seq<Seq<char>>, iri: Seq<char>) -> Seq<Seq<char>> {
    if s.contains(iri) {
        s.remove_value(iri)
    } else {
        s.push(iri)
    }
}

/// A selection kept on the list after it shrank to `len` entries: the last
/// entry when it was past the end, the first when the list is empty.
pub open spec fn selection_within(sel: nat, len: nat) -> nat {
    if sel >= len {
        if len == 0 {
            0
        } else {
            (len - 1) as nat
        }
    } else {
        sel
    }
}

/// Whether `list` holds a resource with the IRI of `uri`.
pub fn contains_iri(list: &Vec<NamedNode>, uri: &NamedNode) -> (r: bool)
    ensures
        r == iris_of(list@).contains(uri@),
{
    let ghost iris = iris_of(list@);
    let mut i: usize = 0;
    while i < list.len()
        invariant
            iris == iris_of(list@),
            0 <= i <= list@.len(),
            forall|j: int| 0 <= j < i ==> iris[j] != uri@,
        decreases list@.len() - i,
    {
        if str_eq(list[i].as_str(), uri.as_str()) {
            assert(iris[i as int] == uri@);
            return true;
        }
        i = i + 1;
    }
    assert(!iris.contains(uri@)) by {
        if iris.contains(uri@) {
            let k = choose|k: int| 0 <= k < iris.len() && iris[k] == uri@;
            assert(iris[k] != uri@);
        }
    }
    false
}

/// The selection one line up; it stays on the first line.
pub fn select_up(sel: usize) -> (r: usize)
    ensures
        r == if sel > 0 {
            sel - 1
        } else {
            0
        },
{
    if sel > 0 {
        sel - 1
    } else {
        0
    }
}

/// The selection one line down in a list of `len` lines; it stays on the
/// last line.
pub fn select_down(sel: usize, len: usize) -> (r: usize)
    ensures
        r == if sel + 1 < len {
            sel + 1
        } else {
            sel as int
        },
        sel < len ==> r < len,
{
    if sel < len && len - sel > 1 {
        sel + 1
    } else {
        sel
    }
}

/// Bookmarks or unbookmarks `uri`: removes it from `bookmarks` if it is
/// there, keeping the selection on the list, and adds it at the end if it is
/// not. Tells whether `uri` is bookmarked afterwards.
pub fn toggle_bookmark(bookmarks: &mut Vec<NamedNode>, selection: &mut usize, uri: &NamedNode) -> (marked:
    bool)
    ensures
        marked == !iris_of(old(bookmarks)@).contains(uri@),
        iris_of(final(bookmarks)@) == toggled(iris_of(old(bookmarks)@), uri@),
        marked ==> final(bookmarks)@ == old(bookmarks)@.push(*uri) && *final(selection)
            == *old(selection),
        !marked ==> *final(selection) == selection_within(
            *old(selection) as nat,
            final(bookmarks)@.len(),
        ),
{
    let ghost iris = iris_of(bookmarks@);
    let mut i: usize = 0;
    while i < bookmarks.len()
        invariant
            bookmarks@ == old(bookmarks)@,
            *selection == *old(selection),
            iris == iris_of(bookmarks@),
            0 <= i <= bookmarks@.len(),
            forall|j: int| 0 <= j < i ==> iris[j] != uri@,
        decreases bookmarks@.len() - i,
    {
        if str_eq(bookmarks[i].as_str(), uri.as_str()) {
            proof {
                assert(iris[i as int] == uri@);
                iris.index_of_first_ensures(uri@);
                let k = iris.index_of_first(uri@)->0;
                assert(k == i as int) by {
                    if k < i {
                        assert(iris[k] != uri@);
                    }
                }
                assert(iris_of(bookmarks@.remove(i as int)) =~= iris.remove(i as int));
            }
            bookmarks.remove(i);
            if *selection >= bookmarks.len() {
                *selection = if bookmarks.len() == 0 {
                    0
                } else {
                    bookmarks.len() - 1
                };
            }
            return false;
        }
        i = i + 1;
    }
    proof {
        assert(!iris.contains(uri@)) by {
            if iris.contains(uri@) {
                let k = choose|k: int| 0 <= k < iris.len() && iris[k] == uri@;
                assert(iris[k] != uri@);
            }
        }
        assert(iris_of(bookmarks@.push(*uri)) =~= iris.push(uri@));
    }
    bookmarks.push(uri.duplicate());
    true
}

proof fn lemma_remove_value_contains(s: Seq<Seq<char>>, x: Seq<char>, y: Seq<char>)
    requires
        s.no_duplicates(),
        s.contains(x),
    ensures
        s.remove_value(x).contains(y) == (s.contains(y) && y != x),
        s.remove_value(x).no_duplicates(),
{
    s.index_of_first_ensures(x);
    let k = s.index_of_first(x).unwrap();
    let r = s.remove(k);
    assert(s.remove_value(x) == r);
    s.remove_ensures(k);
    if r.contains(y) {
        let j = choose|j: int| 0 <= j < r.len() && r[j] == y;
        if j < k {
            assert(r[j] == s[j]);
        } else {
            assert(r[j] == s[j + 1]);
        }
    }
    if s.contains(y) && y != x {
        let j = choose|j: int| 0 <= j < s.len() && s[j] == y;
        if j < k {
            assert(r[j] == y);
        } else {
            assert(r[j - 1] == y);
        }
    }
    assert forall|a: int, b: int| 0 <= a < r.len() && 0 <= b < r.len() && a != b implies r[a]
        != r[b] by {
        let sa = if a < k {
            a
        } else {
            a + 1
        };
        let sb = if b < k {
            b
        } else {
            b + 1
        };
        assert(r[a] == s[sa]);
        assert(r[b] == s[sb]);
    }
}

proof fn lemma_push_contains(s: Seq<Seq<char>>, x: Seq<char>, y: Seq<char>)
    ensures
        s.push(x).contains(y) == (s.contains(y) || y == x),
        s.no_duplicates() && !s.contains(x) ==> s.push(x).no_duplicates(),
{
    let t = s.push(x);
    assert(t[s.len() as int] == x);
    if t.contains(y) && y != x {
        let j = choose|j: int| 0 <= j < t.len() && t[j] == y;
        assert(s[j] == y);
    }
    if s.contains(y) {
        let j = choose|j: int| 0 <= j < s.len() && s[j] == y;
        assert(t[j] == y);
    }
    if s.no_duplicates() && !s.contains(x) {
        assert forall|a: int, b: int| 0 <= a < t.len() && 0 <= b < t.len() && a != b implies t[a]
            != t[b] by {
            if a == s.len() {
                assert(s[b] != x);
            } else if b == s.len() {
                assert(s[a] != x);
            }
        }
    }
}

/// Toggling a bookmark flips whether that resource is bookmarked, leaves
/// every other resource as it was, and never lists a resource twice.
pub proof fn lemma_toggle_flips(s: Seq<Seq<char>>, iri: Seq<char>, other: Seq<char>)
    requires
        s.no_duplicates(),
        other != iri,
    ensures
        toggled(s, iri).contains(iri) == !s.contains(iri),
        toggled(s, iri).contains(other) == s.contains(other),
        toggled(s, iri).no_duplicates(),
{
    if s.contains(iri) {
        lemma_remove_value_contains(s, iri, iri);
        lemma_remove_value_contains(s, iri, other);
    } else {
        lemma_push_contains(s, iri, iri);
        lemma_push_contains(s, iri, other);
    }
}

/// Toggling a bookmark that was not there twice gives the list back as it was.
pub proof fn lemma_toggle_twice(s: Seq<Seq<char>>, iri: Seq<char>)
    requires
        !s.contains(iri),
    ensures
        toggled(toggled(s, iri), iri) == s,
{
    let t = s.push(iri);
    lemma_push_contains(s, iri, iri);
    t.index_of_first_ensures(iri);
    let k = t.index_of_first(iri).unwrap();
    assert(k == s.len()) by {
        if k < s.len() {
            assert(s[k] == iri);
        }
    }
    assert(t.remove(k) =~= s);
}

} // verus!
