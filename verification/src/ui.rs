//! The state of the interactive screens and how keys and mouse wheel move
//! it: menus, the package list with its search field, confirmations and
//! command output.
use vstd::prelude::*;

use crate::editor::{
    cut, lemma_word_moves_bounds, next, next_of, previous, previous_of, remove_range, scroll_down,
    scroll_down_of, scroll_up, scroll_up_of, word_left, word_left_of, word_right, word_right_of,
    PAGE_SIZE,
};
use crate::package::{Action, ActionView, PackageList, PackageSource, list_view, source_title};
use crate::route::Route;
use crate::search::{fuzzy_matches, lemma_search_results_in_range, positions, search_results};
use crate::text::{is_control, is_control_char, owned, string_of, strs};

verus! {

/// The number of entries of the main menu.
pub const MAIN_MENU_LEN: usize = 5;

/// The number of entries of the remove menu.
pub const REMOVE_MENU_LEN: usize = 5;

/// The number of entries of the advanced menu.
pub const ADVANCED_MENU_LEN: usize = 4;

/// A key, as far as the screens tell keys apart.
#[derive(Clone, Copy, Debug, PartialEq, Eq, Structural)]
pub enum KeyCode {
    Char(char),
    Enter,
    Esc,
    Backspace,
    Tab,
    Up,
    Down,
    Left,
    Right,
    Home,
    End,
    PageUp,
    PageDown,
    Other,
}

/// A key event: the key, whether Control was held, and whether it was a
/// press (rather than a release or a repeat).
#[derive(Clone, Copy, Debug, PartialEq, Eq, Structural)]
pub struct Key {
    pub code: KeyCode,
    pub ctrl: bool,
    pub press: bool,
}

impl Key {
    /// A press of `code`, with or without Control.
    pub fn press(code: KeyCode, ctrl: bool) -> (k: Key)
        ensures
            k == (Key { code, ctrl, press: true }),
    {
        Key { code, ctrl, press: true }
    }
}

/// A mouse event, as far as the screens tell them apart.
#[derive(Clone, Copy, Debug, PartialEq, Eq, Structural)]
pub enum Mouse {
    ScrollUp,
    ScrollDown,
    Other,
}

/// The menu that a package list returns to.
#[derive(Clone, Copy, Debug, PartialEq, Eq, Structural)]
pub enum PackageBack {
    Main,
    RemoveMenu,
}

/// Text shown after an operation, scrolled by some lines.
pub struct OutputView {
    pub title: String,
    pub body: String,
    pub scroll: u16,
}

/// A list of packages with the search over it and the packages picked.
pub struct PackageView {
    pub source: PackageSource,
    pub packages: Vec<String>,
    /// The positions of the packages that match the query, in listing order.
    pub matches: Vec<usize>,
    pub back: PackageBack,
    /// Which packages are picked, by position.
    pub selected: Vec<bool>,
    pub notice: Option<String>,
    pub query: Vec<char>,
    /// The position of the editing cursor in the query, in characters.
    pub query_cursor: usize,
    pub searching: bool,
    pub loading: bool,
    pub scroll_offset: usize,
    pub viewport_height: usize,
}

/// What the terminal shows.
pub enum Screen {
    Main,
    RemoveMenu,
    AdvancedMenu,
    Packages(PackageView),
    Confirm(Action),
    Output(OutputView),
}

/// Work that the screens ask for.
pub enum Request {
    Load(PackageSource),
    Preview { package: String, installed: bool },
    Execute(Action),
}

/// The state of the interactive interface.
pub struct App {
    pub cursor: usize,
    pub main_cursor: usize,
    pub remove_cursor: usize,
    pub advanced_cursor: usize,
    /// The source whose packages are being loaded, if any.
    pub loading: Option<PackageSource>,
    pub screen: Screen,
    pub should_quit: bool,
}

// ---------------------------------------------------------------------------
// Models
// ---------------------------------------------------------------------------
/// The value of an output view.
pub struct OutputModel {
    pub title: Seq<char>,
    pub body: Seq<char>,
    pub scroll: u16,
}

/// The value of a package view.
pub struct ListModel {
    pub source: PackageSource,
    pub packages: Seq<Seq<char>>,
    pub matches: Seq<int>,
    pub back: PackageBack,
    pub selected: Seq<bool>,
    pub notice: Option<Seq<char>>,
    pub query: Seq<char>,
    pub query_cursor: usize,
    pub searching: bool,
    pub loading: bool,
    pub scroll_offset: usize,
    pub viewport_height: usize,
}

/// The value of a screen.
pub enum ScreenModel {
    Main,
    RemoveMenu,
    AdvancedMenu,
    Packages(ListModel),
    Confirm(ActionView),
    Output(OutputModel),
}

/// The value of a request.
pub enum RequestModel {
    Load(PackageSource),
    Preview(Seq<char>, bool),
    Execute(ActionView),
}

/// The value of the interface state.
pub struct AppModel {
    pub cursor: usize,
    pub main_cursor: usize,
    pub remove_cursor: usize,
    pub advanced_cursor: usize,
    pub loading: Option<PackageSource>,
    pub screen: ScreenModel,
    pub should_quit: bool,
}

impl View for OutputView {
    type V = OutputModel;

    open spec fn view(&self) -> OutputModel {
        OutputModel { title: self.title@, body: self.body@, scroll: self.scroll }
    }
}

impl View for PackageView {
    type V = ListModel;

    open spec fn view(&self) -> ListModel {
        ListModel {
            source: self.source,
            packages: strs(self.packages@),
            matches: positions(self.matches@),
            back: self.back,
            selected: self.selected@,
            notice: match self.notice {
                Some(n) => Some(n@),
                None => None,
            },
            query: self.query@,
            query_cursor: self.query_cursor,
            searching: self.searching,
            loading: self.loading,
            scroll_offset: self.scroll_offset,
            viewport_height: self.viewport_height,
        }
    }
}

impl View for Screen {
    type V = ScreenModel;

    open spec fn view(&self) -> ScreenModel {
        match self {
            Screen::Main => ScreenModel::Main,
            Screen::RemoveMenu => ScreenModel::RemoveMenu,
            Screen::AdvancedMenu => ScreenModel::AdvancedMenu,
            Screen::Packages(v) => ScreenModel::Packages(v@),
            Screen::Confirm(a) => ScreenModel::Confirm(a@),
            Screen::Output(o) => ScreenModel::Output(o@),
        }
    }
}

impl View for Request {
    type V = RequestModel;

    open spec fn view(&self) -> RequestModel {
        match self {
            Request::Load(s) => RequestModel::Load(*s),
            Request::Preview { package, installed } => RequestModel::Preview(package@, *installed),
            Request::Execute(a) => RequestModel::Execute(a@),
        }
    }
}

impl View for App {
    type V = AppModel;

    open spec fn view(&self) -> AppModel {
        AppModel {
            cursor: self.cursor,
            main_cursor: self.main_cursor,
            remove_cursor: self.remove_cursor,
            advanced_cursor: self.advanced_cursor,
            loading: self.loading,
            screen: self.screen@,
            should_quit: self.should_quit,
        }
    }
}

/// The value of an optional request.
pub open spec fn request_model(r: Option<Request>) -> Option<RequestModel> {
    match r {
        Some(q) => Some(q@),
        None => None,
    }
}

/// A package view whose positions all name packages and whose cursor is
/// within its query.
pub open spec fn list_ok(v: ListModel) -> bool {
    &&& v.selected.len() == v.packages.len()
    &&& forall|k: int| 0 <= k < v.matches.len() ==> 0 <= #[trigger] v.matches[k] < v.packages.len()
    &&& v.query_cursor <= v.query.len()
}

/// An interface state that the key handling can work on.
pub open spec fn app_ok(a: AppModel) -> bool {
    &&& a.cursor < usize::MAX
    &&& a.main_cursor < usize::MAX
    &&& a.remove_cursor < usize::MAX
    &&& a.advanced_cursor < usize::MAX
    &&& match a.screen {
        ScreenModel::Packages(v) => list_ok(v),
        _ => true,
    }
}

// ---------------------------------------------------------------------------
// Transitions
// ---------------------------------------------------------------------------
/// The state after moving to `s`: the cursor of a menu being left is kept
/// for it, and the cursor of a menu being entered is restored (other screens
/// start at 0).
pub open spec fn with_screen(a: AppModel, s: ScreenModel) -> AppModel {
    let saved = match a.screen {
        ScreenModel::Main => AppModel { main_cursor: a.cursor, ..a },
        ScreenModel::RemoveMenu => AppModel { remove_cursor: a.cursor, ..a },
        ScreenModel::AdvancedMenu => AppModel { advanced_cursor: a.cursor, ..a },
        _ => a,
    };
    let cursor = match s {
        ScreenModel::Main => saved.main_cursor,
        ScreenModel::RemoveMenu => saved.remove_cursor,
        ScreenModel::AdvancedMenu => saved.advanced_cursor,
        _ => 0,
    };
    AppModel { cursor, screen: s, ..saved }
}

/// The state with the interface asked to quit.
pub open spec fn quit(a: AppModel) -> AppModel {
    AppModel { should_quit: true, ..a }
}

/// The state with the cursor at `c`.
pub open spec fn at_cursor(a: AppModel, c: usize) -> AppModel {
    AppModel { cursor: c, ..a }
}

/// The menu screen a package list goes back to.
pub open spec fn back_screen(b: PackageBack) -> ScreenModel {
    match b {
        PackageBack::Main => ScreenModel::Main,
        PackageBack::RemoveMenu => ScreenModel::RemoveMenu,
    }
}

/// What a key does on the main menu.
pub open spec fn main_key(a: AppModel, key: Key) -> (AppModel, Option<RequestModel>) {
    let c = key.code;
    if c == KeyCode::Char('q') || c == KeyCode::Esc {
        (quit(a), None)
    } else if c == KeyCode::Up || c == KeyCode::Char('k') {
        (at_cursor(a, previous_of(a.cursor, MAIN_MENU_LEN)), None)
    } else if c == KeyCode::Down || c == KeyCode::Char('j') {
        (at_cursor(a, next_of(a.cursor, MAIN_MENU_LEN)), None)
    } else if c == KeyCode::Enter {
        if a.cursor == 0 {
            (a, Some(RequestModel::Load(PackageSource::Available)))
        } else if a.cursor == 1 {
            (with_screen(a, ScreenModel::RemoveMenu), None)
        } else if a.cursor == 2 {
            (with_screen(a, ScreenModel::Confirm(ActionView::UpdateSystem)), None)
        } else if a.cursor == 3 {
            (with_screen(a, ScreenModel::AdvancedMenu), None)
        } else {
            (quit(a), None)
        }
    } else {
        (a, None)
    }
}

/// What a key does on the remove menu.
pub open spec fn remove_key(a: AppModel, key: Key) -> (AppModel, Option<RequestModel>) {
    let c = key.code;
    if c == KeyCode::Char('q') {
        (quit(a), None)
    } else if c == KeyCode::Esc {
        (with_screen(a, ScreenModel::Main), None)
    } else if c == KeyCode::Up || c == KeyCode::Char('k') {
        (at_cursor(a, previous_of(a.cursor, REMOVE_MENU_LEN)), None)
    } else if c == KeyCode::Down || c == KeyCode::Char('j') {
        (at_cursor(a, next_of(a.cursor, REMOVE_MENU_LEN)), None)
    } else if c == KeyCode::Enter {
        if a.cursor == 0 {
            (a, Some(RequestModel::Load(PackageSource::Installed)))
        } else if a.cursor == 1 {
            (a, Some(RequestModel::Load(PackageSource::Recent)))
        } else if a.cursor == 2 {
            (a, Some(RequestModel::Load(PackageSource::Aur)))
        } else if a.cursor == 3 {
            (a, Some(RequestModel::Load(PackageSource::Orphaned)))
        } else {
            (with_screen(a, ScreenModel::Main), None)
        }
    } else {
        (a, None)
    }
}

/// What a key does on the advanced menu.
pub open spec fn advanced_key(a: AppModel, key: Key) -> (AppModel, Option<RequestModel>) {
    let c = key.code;
    if c == KeyCode::Char('q') {
        (quit(a), None)
    } else if c == KeyCode::Esc {
        (with_screen(a, ScreenModel::Main), None)
    } else if c == KeyCode::Up || c == KeyCode::Char('k') {
        (at_cursor(a, previous_of(a.cursor, ADVANCED_MENU_LEN)), None)
    } else if c == KeyCode::Down || c == KeyCode::Char('j') {
        (at_cursor(a, next_of(a.cursor, ADVANCED_MENU_LEN)), None)
    } else if c == KeyCode::Enter {
        if a.cursor == 0 {
            (with_screen(a, ScreenModel::Confirm(ActionView::ClearHelperCache)), None)
        } else if a.cursor == 1 {
            (with_screen(a, ScreenModel::Confirm(ActionView::RefreshCache(false))), None)
        } else if a.cursor == 2 {
            (with_screen(a, ScreenModel::Confirm(ActionView::RefreshCache(true))), None)
        } else {
            (with_screen(a, ScreenModel::Main), None)
        }
    } else {
        (a, None)
    }
}

/// What a key does on a confirmation.
pub open spec fn confirm_key(a: AppModel, action: ActionView, key: Key) -> (AppModel, Option<
    RequestModel,
>) {
    let c = key.code;
    if c == KeyCode::Char('y') || c == KeyCode::Enter {
        (a, Some(RequestModel::Execute(action)))
    } else if c == KeyCode::Char('n') || c == KeyCode::Esc {
        (with_screen(a, ScreenModel::Main), None)
    } else if c == KeyCode::Char('q') {
        (quit(a), None)
    } else {
        (a, None)
    }
}

/// What a key does on command output.
pub open spec fn output_key(a: AppModel, o: OutputModel, key: Key) -> (AppModel, Option<
    RequestModel,
>) {
    let c = key.code;
    if c == KeyCode::Char('q') {
        (quit(a), None)
    } else if c == KeyCode::Enter || c == KeyCode::Esc {
        (with_screen(a, ScreenModel::Main), None)
    } else if c == KeyCode::Up || c == KeyCode::Char('k') {
        let s = if o.scroll > 0 {
            (o.scroll - 1) as u16
        } else {
            0u16
        };
        (AppModel { screen: ScreenModel::Output(OutputModel { scroll: s, ..o }), ..a }, None)
    } else if c == KeyCode::Down || c == KeyCode::Char('j') {
        let s = if o.scroll < u16::MAX {
            (o.scroll + 1) as u16
        } else {
            u16::MAX
        };
        (AppModel { screen: ScreenModel::Output(OutputModel { scroll: s, ..o }), ..a }, None)
    } else {
        (a, None)
    }
}

/// What a key does on a package list that is still loading.
pub open spec fn loading_key(a: AppModel, v: ListModel, key: Key) -> (AppModel, Option<
    RequestModel,
>) {
    let c = key.code;
    if c == KeyCode::Char('q') {
        (quit(a), None)
    } else if c == KeyCode::Esc {
        (with_screen(AppModel { loading: None, ..a }, back_screen(v.back)), None)
    } else {
        (a, None)
    }
}

/// The state showing the package view `v`.
pub open spec fn with_list(a: AppModel, v: ListModel) -> AppModel {
    AppModel { screen: ScreenModel::Packages(v), ..a }
}

/// The package view with a new query and cursor, its matches recomputed.
pub open spec fn requery(v: ListModel, q: Seq<char>, c: usize) -> ListModel {
    ListModel { query: q, query_cursor: c, matches: search_results(q, v.packages), ..v }
}

/// The package view with its query cursor at `c`.
pub open spec fn query_at(v: ListModel, c: usize) -> ListModel {
    ListModel { query_cursor: c, ..v }
}

/// The packages picked, in the order of the list.
pub open spec fn chosen(ps: Seq<Seq<char>>, sel: Seq<bool>) -> Seq<Seq<char>>
    decreases ps.len(),
{
    if ps.len() == 0 || sel.len() == 0 {
        seq![]
    } else {
        (if sel[0] {
            seq![ps[0]]
        } else {
            seq![]
        }) + chosen(ps.drop_first(), sel.drop_first())
    }
}

/// Whether some match is not picked.
pub open spec fn some_match_unpicked(v: ListModel) -> bool {
    exists|k: int| 0 <= k < v.matches.len() && !v.selected[#[trigger] v.matches[k]]
}

/// The picks after "select all": every match picked, or, when all were
/// picked already, every match unpicked; other packages keep their pick.
pub open spec fn select_all_of(v: ListModel) -> Seq<bool> {
    Seq::new(
        v.selected.len(),
        |i: int|
            if v.matches.contains(i) {
                some_match_unpicked(v)
            } else {
                v.selected[i]
            },
    )
}

/// The packages that confirming the list acts on: the picked ones, or else
/// the one under the cursor.
pub open spec fn enter_packages(a: AppModel, v: ListModel) -> Seq<Seq<char>> {
    let picked = chosen(v.packages, v.selected);
    if picked.len() == 0 && a.cursor < v.matches.len() && 0 <= v.matches[a.cursor as int]
        < v.packages.len() {
        seq![v.packages[v.matches[a.cursor as int]]]
    } else {
        picked
    }
}

/// What a key does on a loaded package list.
pub open spec fn list_key(a: AppModel, v: ListModel, key: Key) -> (AppModel, Option<RequestModel>) {
    let c = key.code;
    let s = v.searching;
    let ctrl = key.ctrl;
    let q = v.query;
    let qc = v.query_cursor;
    let n = v.matches.len();
    if c == KeyCode::Char('/') && !s {
        (with_list(a, ListModel { searching: true, ..v }), None)
    } else if c == KeyCode::Esc {
        (with_screen(a, back_screen(v.back)), None)
    } else if c == KeyCode::Char('a') && s && ctrl {
        (with_list(a, query_at(v, 0)), None)
    } else if c == KeyCode::Char('e') && s && ctrl {
        (with_list(a, query_at(v, q.len() as usize)), None)
    } else if (c == KeyCode::Char('h') || c == KeyCode::Char('w') || c == KeyCode::Backspace) && s
        && ctrl {
        let start = word_left_of(q, qc as int);
        (at_cursor(with_list(a, requery(v, cut(q, start, qc as int), start as usize)), 0), None)
    } else if c == KeyCode::Backspace && s {
        if qc == 0 {
            (at_cursor(with_list(a, requery(v, q, qc)), 0), None)
        } else {
            (
                at_cursor(with_list(a, requery(v, cut(q, qc - 1, qc as int), (qc - 1) as usize)), 0),
                None,
            )
        }
    } else if c == KeyCode::Home && s {
        (with_list(a, query_at(v, 0)), None)
    } else if c == KeyCode::End && s {
        (with_list(a, query_at(v, q.len() as usize)), None)
    } else if c == KeyCode::Left && s && ctrl {
        (with_list(a, query_at(v, word_left_of(q, qc as int) as usize)), None)
    } else if c == KeyCode::Right && s && ctrl {
        (with_list(a, query_at(v, word_right_of(q, qc as int) as usize)), None)
    } else if c == KeyCode::Left && s {
        (with_list(a, query_at(v, if qc > 0 { (qc - 1) as usize } else { qc })), None)
    } else if c == KeyCode::Right && s {
        (with_list(a, query_at(v, if qc < q.len() { (qc + 1) as usize } else { qc })), None)
    } else if c is Char && s && !is_control_char(c->Char_0) {
        (
            at_cursor(with_list(a, requery(v, q.insert(qc as int, c->Char_0), (qc + 1) as usize)), 0),
            None,
        )
    } else if c == KeyCode::Char('q') {
        (quit(a), None)
    } else if c == KeyCode::Up || c == KeyCode::Char('k') {
        (at_cursor(a, scroll_up_of(a.cursor, n as usize)), None)
    } else if c == KeyCode::Down || c == KeyCode::Char('j') {
        (at_cursor(a, scroll_down_of(a.cursor, n as usize)), None)
    } else if c == KeyCode::PageUp {
        let raised = if a.cursor + PAGE_SIZE <= usize::MAX {
            a.cursor + PAGE_SIZE
        } else {
            usize::MAX as int
        };
        let top = if n > 0 {
            n - 1
        } else {
            0
        };
        (at_cursor(a, if raised < top { raised as usize } else { top as usize }), None)
    } else if c == KeyCode::PageDown {
        (at_cursor(a, if a.cursor >= PAGE_SIZE { (a.cursor - PAGE_SIZE) as usize } else { 0 }), None)
    } else if c == KeyCode::Char(' ') || c == KeyCode::Tab {
        if a.cursor < n && 0 <= v.matches[a.cursor as int] < v.selected.len() {
            let i = v.matches[a.cursor as int];
            (
                at_cursor(
                    with_list(a, ListModel { selected: v.selected.update(i, !v.selected[i]), ..v }),
                    scroll_down_of(a.cursor, n as usize),
                ),
                None,
            )
        } else {
            (a, None)
        }
    } else if c == KeyCode::Char('a') {
        (with_list(a, ListModel { selected: select_all_of(v), ..v }), None)
    } else if c == KeyCode::Char('p') {
        if a.cursor < n && 0 <= v.matches[a.cursor as int] < v.packages.len() {
            (
                a,
                Some(
                    RequestModel::Preview(
                        v.packages[v.matches[a.cursor as int]],
                        !(v.source is Available),
                    ),
                ),
            )
        } else {
            (a, None)
        }
    } else if c == KeyCode::Enter {
        let ps = enter_packages(a, v);
        if ps.len() == 0 {
            (with_list(a, ListModel { notice: None, ..v }), None)
        } else if !(v.source is Available) {
            (with_screen(a, ScreenModel::Confirm(ActionView::Remove(ps))), None)
        } else {
            (a, Some(RequestModel::Execute(ActionView::Install(ps))))
        }
    } else {
        (a, None)
    }
}

/// What a key event does to the interface: nothing unless it is a press;
/// otherwise it depends on the screen.
pub open spec fn key_step(a: AppModel, key: Key) -> (AppModel, Option<RequestModel>) {
    if !key.press {
        (a, None)
    } else {
        match a.screen {
            ScreenModel::Main => main_key(a, key),
            ScreenModel::RemoveMenu => remove_key(a, key),
            ScreenModel::AdvancedMenu => advanced_key(a, key),
            ScreenModel::Packages(v) => if v.loading {
                loading_key(a, v, key)
            } else {
                list_key(a, v, key)
            },
            ScreenModel::Confirm(action) => confirm_key(a, action, key),
            ScreenModel::Output(o) => output_key(a, o, key),
        }
    }
}

/// What the mouse wheel does: it moves the cursor of a package list or
/// scrolls command output; nothing else.
pub open spec fn mouse_step(a: AppModel, m: Mouse) -> AppModel {
    match a.screen {
        ScreenModel::Packages(v) => if m == Mouse::ScrollUp {
            at_cursor(a, scroll_up_of(a.cursor, v.matches.len() as usize))
        } else if m == Mouse::ScrollDown {
            at_cursor(a, scroll_down_of(a.cursor, v.matches.len() as usize))
        } else {
            a
        },
        ScreenModel::Output(o) => if m == Mouse::ScrollUp {
            AppModel {
                screen: ScreenModel::Output(
                    OutputModel {
                        scroll: if o.scroll > 0 {
                            (o.scroll - 1) as u16
                        } else {
                            0u16
                        },
                        ..o
                    },
                ),
                ..a
            }
        } else if m == Mouse::ScrollDown {
            AppModel {
                screen: ScreenModel::Output(
                    OutputModel {
                        scroll: if o.scroll < u16::MAX {
                            (o.scroll + 1) as u16
                        } else {
                            u16::MAX
                        },
                        ..o
                    },
                ),
                ..a
            }
        } else {
            a
        },
        _ => a,
    }
}

// ---------------------------------------------------------------------------
// Package views
// ---------------------------------------------------------------------------
impl PackageView {
    /// The query, as a string.
    pub fn query_text(&self) -> (s: String)
        ensures
            s@ == self.query@,
    {
        string_of(self.query.as_slice())
    }

    /// Recomputes the matches of the query.
    pub fn refresh_matches(&mut self)
        ensures
            final(self)@ == requery(old(self)@, old(self)@.query, old(self)@.query_cursor),
    {
        let q = string_of(self.query.as_slice());
        self.matches = fuzzy_matches(q.as_str(), self.packages.as_slice());
    }
}

/// Deletes the character before the query cursor, if any.
pub fn delete_previous_character(view: &mut PackageView)
    requires
        old(view).query_cursor <= old(view).query@.len(),
    ensures
        final(view)@ == (if old(view).query_cursor == 0 {
            old(view)@
        } else {
            ListModel {
                query: cut(old(view)@.query, old(view).query_cursor - 1, old(view).query_cursor as int),
                query_cursor: (old(view).query_cursor - 1) as usize,
                ..old(view)@
            }
        }),
{
    if view.query_cursor == 0 {
        return;
    }
    let start = view.query_cursor - 1;
    remove_range(&mut view.query, start, view.query_cursor);
    view.query_cursor = start;
}

/// Deletes the word before the query cursor (and the white space between).
pub fn delete_previous_word(view: &mut PackageView)
    requires
        old(view).query_cursor <= old(view).query@.len(),
    ensures
        ({
            let start = word_left_of(old(view)@.query, old(view).query_cursor as int);
            final(view)@ == ListModel {
                query: cut(old(view)@.query, start, old(view).query_cursor as int),
                query_cursor: start as usize,
                ..old(view)@
            }
        }),
{
    let end = view.query_cursor;
    let start = word_left(view.query.as_slice(), end);
    remove_range(&mut view.query, start, end);
    view.query_cursor = start;
}

/// Moves the query cursor one character left.
pub fn move_query_left(view: &mut PackageView)
    ensures
        final(view)@ == query_at(
            old(view)@,
            if old(view).query_cursor > 0 {
                (old(view).query_cursor - 1) as usize
            } else {
                old(view).query_cursor
            },
        ),
{
    if view.query_cursor > 0 {
        view.query_cursor = view.query_cursor - 1;
    }
}

/// Moves the query cursor one character right.
pub fn move_query_right(view: &mut PackageView)
    ensures
        final(view)@ == query_at(
            old(view)@,
            if old(view).query_cursor < old(view)@.query.len() {
                (old(view).query_cursor + 1) as usize
            } else {
                old(view).query_cursor
            },
        ),
{
    if view.query_cursor < view.query.len() {
        view.query_cursor = view.query_cursor + 1;
    }
}

/// Moves the query cursor to the start of the word before it.
pub fn move_query_word_left(view: &mut PackageView)
    requires
        old(view).query_cursor <= old(view).query@.len(),
    ensures
        final(view)@ == query_at(
            old(view)@,
            word_left_of(old(view)@.query, old(view).query_cursor as int) as usize,
        ),
{
    view.query_cursor = word_left(view.query.as_slice(), view.query_cursor);
}

/// Moves the query cursor to the end of the word after it.
pub fn move_query_word_right(view: &mut PackageView)
    requires
        old(view).query_cursor <= old(view).query@.len(),
    ensures
        final(view)@ == query_at(
            old(view)@,
            word_right_of(old(view)@.query, old(view).query_cursor as int) as usize,
        ),
{
    view.query_cursor = word_right(view.query.as_slice(), view.query_cursor);
}

/// The picked packages, in the order of the list.
pub fn selected_packages(view: &PackageView) -> (r: Vec<String>)
    ensures
        strs(r@) == chosen(view@.packages, view@.selected),
{
    let ghost ps = strs(view.packages@);
    let ghost sel = view.selected@;
    let mut r: Vec<String> = Vec::new();
    let mut i: usize = 0;
    assert(ps.skip(0) =~= ps);
    assert(sel.skip(0) =~= sel);
    while i < view.packages.len() && i < view.selected.len()
        invariant
            i <= ps.len(),
            i <= sel.len(),
            ps == strs(view.packages@),
            sel == view.selected@,
            strs(r@) + chosen(ps.skip(i as int), sel.skip(i as int)) == chosen(ps, sel),
        decreases ps.len() - i,
    {
        proof {
            assert(ps.skip(i as int).drop_first() =~= ps.skip(i + 1));
            assert(sel.skip(i as int).drop_first() =~= sel.skip(i + 1));
            assert(ps.skip(i as int)[0] == ps[i as int]);
        }
        let ghost before = strs(r@);
        if view.selected[i] {
            r.push(view.packages[i].clone());
            assert(strs(r@) =~= before.push(ps[i as int]));
            assert(before.push(ps[i as int]) + chosen(ps.skip(i + 1), sel.skip(i + 1)) =~= before + (
            seq![ps[i as int]] + chosen(ps.skip(i + 1), sel.skip(i + 1))));
        } else {
            assert(seq![] + chosen(ps.skip(i + 1), sel.skip(i + 1)) =~= chosen(
                ps.skip(i + 1),
                sel.skip(i + 1),
            ));
        }
        i += 1;
    }
    proof {
        assert(chosen(ps.skip(i as int), sel.skip(i as int)) =~= seq![]);
        assert(strs(r@) + seq![] =~= strs(r@));
    }
    r
}

fn select_all(view: &mut PackageView)
    requires
        list_ok(old(view)@),
    ensures
        final(view)@ == (ListModel { selected: select_all_of(old(view)@), ..old(view)@ }),
{
    let ghost v = view@;
    let mut any = false;
    let mut k: usize = 0;
    while k < view.matches.len()
        invariant
            k <= view.matches@.len(),
            view@ == v,
            list_ok(v),
            any == (exists|j: int| 0 <= j < k && !v.selected[#[trigger] v.matches[j]]),
        decreases view.matches@.len() - k,
    {
        assert(v.matches[k as int] == view.matches@[k as int] as int);
        if !view.selected[view.matches[k]] {
            any = true;
        }
        k += 1;
    }
    assert(any == some_match_unpicked(v));
    let mut k: usize = 0;
    while k < view.matches.len()
        invariant
            k <= view.matches@.len(),
            list_ok(v),
            positions(view.matches@) == v.matches,
            view.selected@.len() == v.selected.len(),
            any == some_match_unpicked(v),
            forall|i: int|
                0 <= i < v.selected.len() ==> #[trigger] view.selected@[i] == if v.matches.take(
                    k as int,
                ).contains(i) {
                    any
                } else {
                    v.selected[i]
                },
            view.source == v.source,
            strs(view.packages@) == v.packages,
            view.back == v.back,
            view.notice == old(view).notice,
            view.query@ == v.query,
            view.query_cursor == v.query_cursor,
            view.searching == v.searching,
            view.loading == v.loading,
            view.scroll_offset == v.scroll_offset,
            view.viewport_height == v.viewport_height,
        decreases view.matches@.len() - k,
    {
        let idx = view.matches[k];
        assert(v.matches[k as int] == idx as int);
        view.selected.set(idx, any);
        proof {
            assert forall|i: int| 0 <= i < v.selected.len() implies #[trigger] view.selected@[i]
                == if v.matches.take(k + 1).contains(i) {
                any
            } else {
                v.selected[i]
            } by {
                assert(v.matches.take(k + 1) =~= v.matches.take(k as int).push(idx as int));
                if i == idx as int {
                    assert(v.matches.take(k + 1)[k as int] == i);
                } else {
                    let t1 = v.matches.take(k + 1);
                    let t0 = v.matches.take(k as int);
                    if t1.contains(i) {
                        let j = choose|j: int| 0 <= j < t1.len() && t1[j] == i;
                        assert(t0[j] == i);
                    }
                    if t0.contains(i) {
                        let j = choose|j: int| 0 <= j < t0.len() && t0[j] == i;
                        assert(t1[j] == i);
                    }
                }
            }
        }
        k += 1;
    }
    assert(v.matches.take(view.matches@.len() as int) =~= v.matches);
    assert(view.selected@ =~= select_all_of(v));
}

// ---------------------------------------------------------------------------
// The interface
// ---------------------------------------------------------------------------
/// The cursor that a screen is entered with.
pub open spec fn entry_cursor(a: AppModel, s: ScreenModel) -> usize {
    match s {
        ScreenModel::Main => a.main_cursor,
        ScreenModel::RemoveMenu => a.remove_cursor,
        ScreenModel::AdvancedMenu => a.advanced_cursor,
        _ => 0,
    }
}

/// The state with its screen put back to `s`.
pub open spec fn placed(a: AppModel, s: ScreenModel) -> AppModel {
    AppModel { screen: s, ..a }
}

impl App {
    /// The interface at start: the main menu, nothing loading.
    pub fn new() -> (a: App)
        ensures
            a@ == (AppModel {
                cursor: 0,
                main_cursor: 0,
                remove_cursor: 0,
                advanced_cursor: 0,
                loading: None,
                screen: ScreenModel::Main,
                should_quit: false,
            }),
    {
        App {
            cursor: 0,
            main_cursor: 0,
            remove_cursor: 0,
            advanced_cursor: 0,
            loading: None,
            screen: Screen::Main,
            should_quit: false,
        }
    }

    /// Moves to `screen`, keeping the cursor of a menu being left and
    /// restoring that of a menu being entered.
    pub fn set_screen(&mut self, screen: Screen)
        ensures
            final(self)@ == with_screen(old(self)@, screen@),
    {
        match &self.screen {
            Screen::Main => self.main_cursor = self.cursor,
            Screen::RemoveMenu => self.remove_cursor = self.cursor,
            Screen::AdvancedMenu => self.advanced_cursor = self.cursor,
            _ => {},
        }
        self.cursor = match &screen {
            Screen::Main => self.main_cursor,
            Screen::RemoveMenu => self.remove_cursor,
            Screen::AdvancedMenu => self.advanced_cursor,
            _ => 0,
        };
        self.screen = screen;
    }

    /// Moves to `screen` from a screen that is not a menu.
    fn enter(&mut self, screen: Screen)
        ensures
            final(self)@ == (AppModel {
                cursor: entry_cursor(old(self)@, screen@),
                screen: screen@,
                ..old(self)@
            }),
    {
        self.cursor = match &screen {
            Screen::Main => self.main_cursor,
            Screen::RemoveMenu => self.remove_cursor,
            Screen::AdvancedMenu => self.advanced_cursor,
            _ => 0,
        };
        self.screen = screen;
    }

    /// Shows the action for confirmation.
    pub fn show_confirmation(&mut self, action: Action)
        ensures
            final(self)@ == with_screen(old(self)@, ScreenModel::Confirm(action@)),
    {
        self.set_screen(Screen::Confirm(action));
    }

    /// Opens the interface on a command-line route: `install` asks for the
    /// available packages, `remove` for the installed ones, `update` shows
    /// the system update for confirmation; no route leaves the main menu.
    pub fn open_route(&mut self, route: Route) -> (r: Option<Request>)
        ensures
            match route {
                Route::Tui => r is None && final(self)@ == old(self)@,
                Route::Install => (r matches Some(Request::Load(s)) && s == PackageSource::Available
                    && final(self)@ == old(self)@),
                Route::Remove => (r matches Some(Request::Load(s)) && s == PackageSource::Installed
                    && final(self)@ == old(self)@),
                Route::Update => r is None && final(self)@ == with_screen(
                    old(self)@,
                    ScreenModel::Confirm(ActionView::UpdateSystem),
                ),
            },
    {
        match route {
            Route::Tui => None,
            Route::Install => Some(Request::Load(PackageSource::Available)),
            Route::Remove => Some(Request::Load(PackageSource::Installed)),
            Route::Update => {
                self.show_confirmation(Action::UpdateSystem);
                None
            },
        }
    }

    /// Shows a text under a title.
    pub fn show_output(&mut self, title: String, body: String)
        ensures
            final(self)@ == with_screen(
                old(self)@,
                ScreenModel::Output(OutputModel { title: title@, body: body@, scroll: 0 }),
            ),
    {
        self.set_screen(Screen::Output(OutputView { title, body, scroll: 0 }));
    }

    fn main_key(&mut self, key: Key) -> (r: Option<Request>)
        requires
            old(self).screen is Main,
            app_ok(old(self)@),
        ensures
            (final(self)@, request_model(r)) == main_key(old(self)@, key),
            app_ok(final(self)@),
    {
        let c = key.code;
        if c == KeyCode::Char('q') || c == KeyCode::Esc {
            self.should_quit = true;
            None
        } else if c == KeyCode::Up || c == KeyCode::Char('k') {
            previous(&mut self.cursor, MAIN_MENU_LEN);
            None
        } else if c == KeyCode::Down || c == KeyCode::Char('j') {
            next(&mut self.cursor, MAIN_MENU_LEN);
            None
        } else if c == KeyCode::Enter {
            if self.cursor == 0 {
                Some(Request::Load(PackageSource::Available))
            } else if self.cursor == 1 {
                self.set_screen(Screen::RemoveMenu);
                None
            } else if self.cursor == 2 {
                self.set_screen(Screen::Confirm(Action::UpdateSystem));
                None
            } else if self.cursor == 3 {
                self.set_screen(Screen::AdvancedMenu);
                None
            } else {
                self.should_quit = true;
                None
            }
        } else {
            None
        }
    }

    fn remove_key(&mut self, key: Key) -> (r: Option<Request>)
        requires
            old(self).screen is RemoveMenu,
            app_ok(old(self)@),
        ensures
            (final(self)@, request_model(r)) == remove_key(old(self)@, key),
            app_ok(final(self)@),
    {
        let c = key.code;
        if c == KeyCode::Char('q') {
            self.should_quit = true;
            None
        } else if c == KeyCode::Esc {
            self.set_screen(Screen::Main);
            None
        } else if c == KeyCode::Up || c == KeyCode::Char('k') {
            previous(&mut self.cursor, REMOVE_MENU_LEN);
            None
        } else if c == KeyCode::Down || c == KeyCode::Char('j') {
            next(&mut self.cursor, REMOVE_MENU_LEN);
            None
        } else if c == KeyCode::Enter {
            if self.cursor == 0 {
                Some(Request::Load(PackageSource::Installed))
            } else if self.cursor == 1 {
                Some(Request::Load(PackageSource::Recent))
            } else if self.cursor == 2 {
                Some(Request::Load(PackageSource::Aur))
            } else if self.cursor == 3 {
                Some(Request::Load(PackageSource::Orphaned))
            } else {
                self.set_screen(Screen::Main);
                None
            }
        } else {
            None
        }
    }

    fn advanced_key(&mut self, key: Key) -> (r: Option<Request>)
        requires
            old(self).screen is AdvancedMenu,
            app_ok(old(self)@),
        ensures
            (final(self)@, request_model(r)) == advanced_key(old(self)@, key),
            app_ok(final(self)@),
    {
        let c = key.code;
        if c == KeyCode::Char('q') {
            self.should_quit = true;
            None
        } else if c == KeyCode::Esc {
            self.set_screen(Screen::Main);
            None
        } else if c == KeyCode::Up || c == KeyCode::Char('k') {
            previous(&mut self.cursor, ADVANCED_MENU_LEN);
            None
        } else if c == KeyCode::Down || c == KeyCode::Char('j') {
            next(&mut self.cursor, ADVANCED_MENU_LEN);
            None
        } else if c == KeyCode::Enter {
            if self.cursor == 0 {
                self.set_screen(Screen::Confirm(Action::ClearHelperCache));
            } else if self.cursor == 1 {
                self.set_screen(Screen::Confirm(Action::RefreshCache { without_aur: false }));
            } else if self.cursor == 2 {
                self.set_screen(Screen::Confirm(Action::RefreshCache { without_aur: true }));
            } else {
                self.set_screen(Screen::Main);
            }
            None
        } else {
            None
        }
    }

    fn confirm_key(&mut self, action: Action, key: Key) -> (r: Option<Request>)
        requires
            app_ok(old(self)@),
        ensures
            (final(self)@, request_model(r)) == confirm_key(
                placed(old(self)@, ScreenModel::Confirm(action@)),
                action@,
                key,
            ),
            app_ok(final(self)@),
    {
        let c = key.code;
        if c == KeyCode::Char('y') || c == KeyCode::Enter {
            let again = action.duplicate();
            self.screen = Screen::Confirm(action);
            Some(Request::Execute(again))
        } else if c == KeyCode::Char('n') || c == KeyCode::Esc {
            self.enter(Screen::Main);
            None
        } else if c == KeyCode::Char('q') {
            self.screen = Screen::Confirm(action);
            self.should_quit = true;
            None
        } else {
            self.screen = Screen::Confirm(action);
            None
        }
    }

    fn output_key(&mut self, output: OutputView, key: Key) -> (r: Option<Request>)
        requires
            app_ok(old(self)@),
        ensures
            (final(self)@, request_model(r)) == output_key(
                placed(old(self)@, ScreenModel::Output(output@)),
                output@,
                key,
            ),
            app_ok(final(self)@),
    {
        let mut output = output;
        let c = key.code;
        if c == KeyCode::Char('q') {
            self.screen = Screen::Output(output);
            self.should_quit = true;
        } else if c == KeyCode::Enter || c == KeyCode::Esc {
            self.enter(Screen::Main);
        } else if c == KeyCode::Up || c == KeyCode::Char('k') {
            output.scroll = output.scroll.saturating_sub(1);
            self.screen = Screen::Output(output);
        } else if c == KeyCode::Down || c == KeyCode::Char('j') {
            output.scroll = output.scroll.saturating_add(1);
            self.screen = Screen::Output(output);
        } else {
            self.screen = Screen::Output(output);
        }
        None
    }

    fn loading_key(&mut self, view: PackageView, key: Key) -> (r: Option<Request>)
        requires
            app_ok(old(self)@),
            list_ok(view@),
        ensures
            (final(self)@, request_model(r)) == loading_key(
                placed(old(self)@, ScreenModel::Packages(view@)),
                view@,
                key,
            ),
            app_ok(final(self)@),
    {
        let c = key.code;
        if c == KeyCode::Char('q') {
            self.screen = Screen::Packages(view);
            self.should_quit = true;
        } else if c == KeyCode::Esc {
            self.loading = None;
            let back = match view.back {
                PackageBack::Main => Screen::Main,
                PackageBack::RemoveMenu => Screen::RemoveMenu,
            };
            self.enter(back);
        } else {
            self.screen = Screen::Packages(view);
        }
        None
    }
}

/// Room in the query for one more character.
pub open spec fn query_room(a: AppModel) -> bool {
    match a.screen {
        ScreenModel::Packages(v) => v.query.len() < usize::MAX,
        _ => true,
    }
}

impl App {
    fn list_key(&mut self, view: PackageView, key: Key) -> (r: Option<Request>)
        requires
            app_ok(old(self)@),
            list_ok(view@),
            view@.query.len() < usize::MAX,
            !view.loading,
        ensures
            (final(self)@, request_model(r)) == list_key(
                placed(old(self)@, ScreenModel::Packages(view@)),
                view@,
                key,
            ),
            app_ok(final(self)@),
    {
        let ghost v0 = view@;
        let ghost a0 = placed(self@, ScreenModel::Packages(view@));
        let mut view = view;
        let c = key.code;
        let s = view.searching;
        let ctrl = key.ctrl;
        let typed: Option<char> = match c {
            KeyCode::Char(ch) => if s && !is_control(ch) {
                Some(ch)
            } else {
                None
            },
            _ => None,
        };
        if c == KeyCode::Char('/') && !s {
            view.searching = true;
            self.screen = Screen::Packages(view);
            return None;
        } else if c == KeyCode::Esc {
            let back = match view.back {
                PackageBack::Main => Screen::Main,
                PackageBack::RemoveMenu => Screen::RemoveMenu,
            };
            self.enter(back);
            return None;
        } else if c == KeyCode::Char('a') && s && ctrl {
            view.query_cursor = 0;
            self.screen = Screen::Packages(view);
            return None;
        } else if c == KeyCode::Char('e') && s && ctrl {
            view.query_cursor = view.query.len();
            self.screen = Screen::Packages(view);
            return None;
        } else if (c == KeyCode::Char('h') || c == KeyCode::Char('w') || c == KeyCode::Backspace)
            && s && ctrl {
            proof {
                lemma_word_moves_bounds(v0.query, v0.query_cursor as int);
            }
            delete_previous_word(&mut view);
            view.refresh_matches();
            proof {
                lemma_search_results_in_range(view@.query, view@.packages);
            }
            self.cursor = 0;
            self.screen = Screen::Packages(view);
            return None;
        } else if c == KeyCode::Backspace && s {
            delete_previous_character(&mut view);
            view.refresh_matches();
            proof {
                lemma_search_results_in_range(view@.query, view@.packages);
            }
            self.cursor = 0;
            self.screen = Screen::Packages(view);
            return None;
        } else if c == KeyCode::Home && s {
            view.query_cursor = 0;
            self.screen = Screen::Packages(view);
            return None;
        } else if c == KeyCode::End && s {
            view.query_cursor = view.query.len();
            self.screen = Screen::Packages(view);
            return None;
        } else if c == KeyCode::Left && s && ctrl {
            proof {
                lemma_word_moves_bounds(v0.query, v0.query_cursor as int);
            }
            move_query_word_left(&mut view);
            self.screen = Screen::Packages(view);
            return None;
        } else if c == KeyCode::Right && s && ctrl {
            proof {
                lemma_word_moves_bounds(v0.query, v0.query_cursor as int);
            }
            move_query_word_right(&mut view);
            self.screen = Screen::Packages(view);
            return None;
        } else if c == KeyCode::Left && s {
            move_query_left(&mut view);
            self.screen = Screen::Packages(view);
            return None;
        } else if c == KeyCode::Right && s {
            move_query_right(&mut view);
            self.screen = Screen::Packages(view);
            return None;
        }
        match typed {
            Some(ch) => {
                let at = view.query_cursor;
                view.query.insert(at, ch);
                view.query_cursor = at + 1;
                view.refresh_matches();
                proof {
                    lemma_search_results_in_range(view@.query, view@.packages);
                }
                self.cursor = 0;
                self.screen = Screen::Packages(view);
                return None;
            },
            None => {},
        }
        let n = view.matches.len();
        if c == KeyCode::Char('q') {
            self.should_quit = true;
            self.screen = Screen::Packages(view);
            None
        } else if c == KeyCode::Up || c == KeyCode::Char('k') {
            scroll_up(&mut self.cursor, n);
            self.screen = Screen::Packages(view);
            None
        } else if c == KeyCode::Down || c == KeyCode::Char('j') {
            scroll_down(&mut self.cursor, n);
            self.screen = Screen::Packages(view);
            None
        } else if c == KeyCode::PageUp {
            let raised = self.cursor.saturating_add(PAGE_SIZE);
            let top = n.saturating_sub(1);
            self.cursor = if raised < top {
                raised
            } else {
                top
            };
            self.screen = Screen::Packages(view);
            None
        } else if c == KeyCode::PageDown {
            self.cursor = self.cursor.saturating_sub(PAGE_SIZE);
            self.screen = Screen::Packages(view);
            None
        } else if c == KeyCode::Char(' ') || c == KeyCode::Tab {
            if self.cursor < n && view.matches[self.cursor] < view.selected.len() {
                let i = view.matches[self.cursor];
                assert(v0.matches[self.cursor as int] == i as int);
                let was = view.selected[i];
                view.selected.set(i, !was);
                scroll_down(&mut self.cursor, n);
            }
            self.screen = Screen::Packages(view);
            None
        } else if c == KeyCode::Char('a') {
            select_all(&mut view);
            self.screen = Screen::Packages(view);
            None
        } else if c == KeyCode::Char('p') {
            let mut r = None;
            if self.cursor < n && view.matches[self.cursor] < view.packages.len() {
                let i = view.matches[self.cursor];
                assert(v0.matches[self.cursor as int] == i as int);
                r = Some(
                    Request::Preview {
                        package: view.packages[i].clone(),
                        installed: view.source.is_installed(),
                    },
                );
            }
            self.screen = Screen::Packages(view);
            r
        } else if c == KeyCode::Enter {
            let mut packages = selected_packages(&view);
            if packages.len() == 0 && self.cursor < n && view.matches[self.cursor]
                < view.packages.len() {
                let i = view.matches[self.cursor];
                assert(v0.matches[self.cursor as int] == i as int);
                let ghost before = strs(packages@);
                packages.push(view.packages[i].clone());
                assert(strs(packages@) =~= seq![v0.packages[i as int]]);
            }
            assert(strs(packages@) == enter_packages(a0, v0));
            if packages.len() == 0 {
                view.notice = None;
                self.screen = Screen::Packages(view);
                None
            } else if view.source.is_installed() {
                self.enter(Screen::Confirm(Action::Remove(packages)));
                None
            } else {
                self.screen = Screen::Packages(view);
                Some(Request::Execute(Action::Install(packages)))
            }
        } else {
            self.screen = Screen::Packages(view);
            None
        }
    }

    /// Applies a key event: what it does depends on the screen (see
    /// `key_step`); it may ask for work to be done.
    pub fn handle_key(&mut self, key: Key) -> (r: Option<Request>)
        requires
            app_ok(old(self)@),
            query_room(old(self)@),
        ensures
            (final(self)@, request_model(r)) == key_step(old(self)@, key),
            app_ok(final(self)@),
    {
        if !key.press {
            return None;
        }
        let ghost a0 = self@;
        let mut screen = Screen::Main;
        std::mem::swap(&mut screen, &mut self.screen);
        assert(self@ == placed(a0, ScreenModel::Main));
        match screen {
            Screen::Main => {
                self.screen = Screen::Main;
                self.main_key(key)
            },
            Screen::RemoveMenu => {
                self.screen = Screen::RemoveMenu;
                self.remove_key(key)
            },
            Screen::AdvancedMenu => {
                self.screen = Screen::AdvancedMenu;
                self.advanced_key(key)
            },
            Screen::Packages(view) => {
                if view.loading {
                    self.loading_key(view, key)
                } else {
                    self.list_key(view, key)
                }
            },
            Screen::Confirm(action) => self.confirm_key(action, key),
            Screen::Output(output) => self.output_key(output, key),
        }
    }

    /// Applies a mouse event: the wheel moves the cursor of a package list
    /// or scrolls command output.
    pub fn handle_mouse(&mut self, mouse: Mouse) -> (r: Option<Request>)
        requires
            app_ok(old(self)@),
        ensures
            final(self)@ == mouse_step(old(self)@, mouse),
            r is None,
            app_ok(final(self)@),
    {
        match &mut self.screen {
            Screen::Packages(view) => {
                let n = view.matches.len();
                if mouse == Mouse::ScrollUp {
                    scroll_up(&mut self.cursor, n);
                } else if mouse == Mouse::ScrollDown {
                    scroll_down(&mut self.cursor, n);
                }
            },
            Screen::Output(output) => {
                if mouse == Mouse::ScrollUp {
                    output.scroll = output.scroll.saturating_sub(1);
                } else if mouse == Mouse::ScrollDown {
                    output.scroll = output.scroll.saturating_add(1);
                }
            },
            _ => {},
        }
        None
    }
}

// ---------------------------------------------------------------------------
// Loading and showing lists
// ---------------------------------------------------------------------------
/// What a look at the loading task found: its result, nothing yet, or that
/// it went away without one.
pub enum LoadPoll {
    Ready(Result<PackageList, String>),
    Empty,
    Disconnected,
}

/// The menu that a list of `source` returns to: the main menu for the
/// available packages, the remove menu for the others.
pub open spec fn back_of(source: PackageSource) -> PackageBack {
    if source is Available {
        PackageBack::Main
    } else {
        PackageBack::RemoveMenu
    }
}

/// The package view shown while the packages of `source` load.
pub open spec fn loading_list(source: PackageSource) -> ListModel {
    ListModel {
        source,
        packages: seq![],
        matches: seq![],
        back: back_of(source),
        selected: seq![],
        notice: None,
        query: seq![],
        query_cursor: 0,
        searching: false,
        loading: true,
        scroll_offset: 0,
        viewport_height: 1,
    }
}

/// The package view of a loaded list: all packages listed (non-AUR ones
/// first), none picked, the search field active and empty.
pub open spec fn loaded_list(source: PackageSource, packages: Seq<Seq<char>>, notice: Option<Seq<char>>) -> ListModel {
    ListModel {
        source,
        packages,
        matches: search_results(seq![], packages),
        back: back_of(source),
        selected: Seq::new(packages.len(), |i: int| false),
        notice,
        query: seq![],
        query_cursor: 0,
        searching: true,
        loading: false,
        scroll_offset: 0,
        viewport_height: 1,
    }
}

/// What showing a loaded list leads to: the list, or, when it is empty,
/// its notice (or "No packages found.") under the source's title.
pub open spec fn show_packages_of(a: AppModel, source: PackageSource, list: (Seq<Seq<char>>, Option<Seq<char>>)) -> AppModel {
    if list.0.len() == 0 {
        with_screen(
            a,
            ScreenModel::Output(
                OutputModel {
                    title: source_title(source),
                    body: match list.1 {
                        Some(n) => n,
                        None => "No packages found."@,
                    },
                    scroll: 0,
                },
            ),
        )
    } else {
        with_screen(a, ScreenModel::Packages(loaded_list(source, list.0, list.1)))
    }
}

/// The plan for a request: what the caller is to do for it.
pub enum Plan {
    /// Find out whether the cache is fresh, then ask `plan_available`.
    CheckFreshCache,
    /// Load the packages of the source at once and show them.
    ListNow(PackageSource),
    /// Load the packages of the source in the background.
    StartLoading(PackageSource),
    /// Show information on a package.
    Preview { package: String, installed: bool },
    /// Regenerate the cache and report the count.
    RefreshCache { without_aur: bool },
    /// Run the action's command in the terminal.
    RunInteractive(Action),
}

/// Plans the work for a request: the available packages are listed at once
/// from a fresh cache, other lists load in the background, a cache refresh
/// runs captured, other actions run in the terminal.
pub fn plan_request(request: Request) -> (p: Plan)
    ensures
        match request@ {
            RequestModel::Load(source) => if source is Available {
                p is CheckFreshCache
            } else {
                p == Plan::StartLoading(source)
            },
            RequestModel::Preview(package, installed) => (p matches Plan::Preview { package: q, installed: i }
                && q@ == package && i == installed),
            RequestModel::Execute(action) => match action {
                ActionView::RefreshCache(w) => p == Plan::RefreshCache { without_aur: w },
                _ => (p matches Plan::RunInteractive(a) && a@ == action),
            },
        },
{
    match request {
        Request::Load(source) => {
            if source.is_installed() {
                Plan::StartLoading(source)
            } else {
                Plan::CheckFreshCache
            }
        },
        Request::Preview { package, installed } => Plan::Preview { package, installed },
        Request::Execute(action) => match action {
            Action::RefreshCache { without_aur } => Plan::RefreshCache { without_aur },
            other => Plan::RunInteractive(other),
        },
    }
}

/// Plans the loading of the available packages: at once from a fresh
/// cache, else in the background.
pub fn plan_available(fresh: bool) -> (p: Plan)
    ensures
        p == (if fresh {
            Plan::ListNow(PackageSource::Available)
        } else {
            Plan::StartLoading(PackageSource::Available)
        }),
{
    if fresh {
        Plan::ListNow(PackageSource::Available)
    } else {
        Plan::StartLoading(PackageSource::Available)
    }
}

/// The report after a cache refresh: the count and the cache path, or the error.
pub open spec fn refresh_report(result: Result<usize, Seq<char>>, path: Seq<char>) -> Seq<char> {
    match result {
        Ok(n) => "Cache refreshed: "@ + crate::text::decimal(n as nat) + " packages.\n"@ + path,
        Err(e) => e,
    }
}

impl App {
    /// Shows the package view of `source` while its packages load.
    pub fn start_loading(&mut self, source: PackageSource)
        ensures
            final(self)@ == with_screen(
                AppModel { loading: Some(source), ..old(self)@ },
                ScreenModel::Packages(loading_list(source)),
            ),
    {
        self.loading = Some(source);
        let back = if source.is_installed() {
            PackageBack::RemoveMenu
        } else {
            PackageBack::Main
        };
        let view = PackageView {
            source,
            packages: Vec::new(),
            matches: Vec::new(),
            back,
            selected: Vec::new(),
            notice: None,
            query: Vec::new(),
            query_cursor: 0,
            searching: false,
            loading: true,
            scroll_offset: 0,
            viewport_height: 1,
        };
        assert(view@ == loading_list(source)) by {
            assert(strs(view.packages@) =~= seq![]);
            assert(positions(view.matches@) =~= seq![]);
            assert(view.selected@ =~= seq![]);
            assert(view.query@ =~= seq![]);
        }
        self.set_screen(Screen::Packages(view));
    }

    /// Takes the result of the loading task, if it has one: the source and
    /// the list (or error); "Package loading failed." when the task went
    /// away. Nothing changes while nothing is loading or the task is busy.
    pub fn poll_loading(&mut self, poll: LoadPoll) -> (r: Option<(PackageSource, Result<PackageList, String>)>)
        ensures
            match old(self).loading {
                None => r is None && final(self)@ == old(self)@,
                Some(source) => match poll {
                    LoadPoll::Ready(result) => (r matches Some((s, res)) && s == source
                        && crate::package::list_result_view(res) == crate::package::list_result_view(result)
                        && final(self)@ == (AppModel { loading: None, ..old(self)@ })),
                    LoadPoll::Empty => r is None && final(self)@ == old(self)@,
                    LoadPoll::Disconnected => (r matches Some((s, Err(e))) && s == source
                        && e@ == "Package loading failed."@
                        && final(self)@ == (AppModel { loading: None, ..old(self)@ })),
                },
            },
    {
        let source = match self.loading {
            None => return None,
            Some(s) => s,
        };
        match poll {
            LoadPoll::Ready(result) => {
                self.loading = None;
                Some((source, result))
            },
            LoadPoll::Empty => None,
            LoadPoll::Disconnected => {
                self.loading = None;
                Some((source, Err(owned("Package loading failed."))))
            },
        }
    }

    /// Shows a loaded list: the packages, or, when there are none, the
    /// notice (or "No packages found.") as output.
    pub fn show_packages(&mut self, source: PackageSource, list: PackageList)
        ensures
            final(self)@ == show_packages_of(old(self)@, source, list_view(list)),
    {
        if list.packages.len() == 0 {
            let body = match list.notice {
                Some(n) => n,
                None => owned("No packages found."),
            };
            self.show_output(owned(source.title()), body);
            return;
        }
        let packages = list.packages;
        let matches = fuzzy_matches("", packages.as_slice());
        proof {
            reveal_strlit("");
        }
        let back = if source.is_installed() {
            PackageBack::RemoveMenu
        } else {
            PackageBack::Main
        };
        let selected = vec![false; packages.len()];
        let view = PackageView {
            selected,
            packages,
            matches,
            back,
            source,
            notice: list.notice,
            query: Vec::new(),
            query_cursor: 0,
            searching: true,
            loading: false,
            scroll_offset: 0,
            viewport_height: 1,
        };
        assert(view@ == loaded_list(source, list_view(list).0, list_view(list).1)) by {
            assert(view.selected@ =~= Seq::new(view.packages@.len(), |i: int| false));
            assert(view.query@ =~= seq![]);
            assert(""@ =~= Seq::<char>::empty());
        }
        self.set_screen(Screen::Packages(view));
    }

    /// Shows what loading the packages of `source` gave: the list, or the
    /// error under the source's title.
    pub fn show_loaded(&mut self, source: PackageSource, result: Result<PackageList, String>)
        ensures
            final(self)@ == match crate::package::list_result_view(result) {
                Ok(l) => show_packages_of(old(self)@, source, l),
                Err(e) => with_screen(
                    old(self)@,
                    ScreenModel::Output(OutputModel { title: source_title(source), body: e, scroll: 0 }),
                ),
            },
    {
        match result {
            Ok(list) => self.show_packages(source, list),
            Err(error) => self.show_output(owned(source.title()), error),
        }
    }

    /// Shows the outcome of a command under a title.
    pub fn show_result(&mut self, title: String, result: Result<String, String>)
        ensures
            final(self)@ == with_screen(
                old(self)@,
                ScreenModel::Output(
                    OutputModel {
                        title: title@,
                        body: match result {
                            Ok(m) => m@,
                            Err(e) => e@,
                        },
                        scroll: 0,
                    },
                ),
            ),
    {
        match result {
            Ok(message) => self.show_output(title, message),
            Err(error) => self.show_output(title, error),
        }
    }

    /// Shows the outcome of a cache refresh: the count of packages and the
    /// cache path, or the error, under the refresh's title.
    pub fn show_refresh_result(&mut self, without_aur: bool, result: Result<usize, String>, cache_path: &str)
        ensures
            final(self)@ == with_screen(
                old(self)@,
                ScreenModel::Output(
                    OutputModel {
                        title: crate::package::action_title(Action::RefreshCache { without_aur }),
                        body: refresh_report(
                            match result {
                                Ok(n) => Ok(n),
                                Err(e) => Err(e@),
                            },
                            cache_path@,
                        ),
                        scroll: 0,
                    },
                ),
            ),
    {
        let action = Action::RefreshCache { without_aur };
        let title = owned(action.title());
        let body = match result {
            Ok(count) => {
                let mut b = owned("Cache refreshed: ");
                let digits = crate::text::decimal_string(count as u64);
                crate::text::push_str(&mut b, digits.as_str());
                crate::text::push_str(&mut b, " packages.\n");
                crate::text::push_str(&mut b, cache_path);
                b
            },
            Err(e) => e,
        };
        self.show_output(title, body);
    }
}

// ---------------------------------------------------------------------------
// Laws
// ---------------------------------------------------------------------------
/// Escape on a package list (loaded or still loading) goes back to the menu
/// that opened it, with that menu's cursor where it was left.
pub proof fn lemma_escape_returns_to_menu(a: AppModel, ctrl: bool)
    requires
        a.screen is Packages,
    ensures
        ({
            let v = a.screen->Packages_0;
            let (b, r) = key_step(a, Key { code: KeyCode::Esc, ctrl, press: true });
            &&& b.screen == back_screen(v.back)
            &&& b.cursor == match v.back {
                PackageBack::Main => a.main_cursor,
                PackageBack::RemoveMenu => a.remove_cursor,
            }
            &&& r is None
        }),
{
}

/// Leaving a menu for another screen and coming back restores the menu's cursor.
pub proof fn lemma_menu_cursor_restored(a: AppModel, s: ScreenModel)
    requires
        a.screen is Main || a.screen is RemoveMenu || a.screen is AdvancedMenu,
        !(s is Main || s is RemoveMenu || s is AdvancedMenu),
    ensures
        with_screen(with_screen(a, s), a.screen).cursor == a.cursor,
        with_screen(with_screen(a, s), a.screen).screen == a.screen,
{
}

/// While the search field has focus, typing a character never changes the
/// list or which packages are picked; the list stays on screen.
pub proof fn lemma_typing_keeps_picks(a: AppModel, key: Key)
    requires
        a.screen is Packages,
        !a.screen->Packages_0.loading,
        a.screen->Packages_0.searching,
        key.press,
        key.code is Char,
        !is_control_char(key.code->Char_0),
    ensures
        ({
            let v = a.screen->Packages_0;
            let b = key_step(a, key).0;
            b.screen is Packages && b.screen->Packages_0.packages == v.packages
                && b.screen->Packages_0.selected == v.selected
        }),
{
}

/// The picked packages are exactly those whose flag is set: each entry of
/// the result is a package whose flag is set, and each package whose flag
/// is set is in the result.
pub proof fn lemma_chosen_are_the_picked(ps: Seq<Seq<char>>, sel: Seq<bool>)
    requires
        ps.len() == sel.len(),
    ensures
        forall|x: Seq<char>|
            chosen(ps, sel).contains(x) <==> exists|i: int| 0 <= i < ps.len() && sel[i] && ps[i] == x,
    decreases ps.len(),
{
    if ps.len() > 0 {
        let rp = ps.drop_first();
        let rs = sel.drop_first();
        lemma_chosen_are_the_picked(rp, rs);
        let head: Seq<Seq<char>> = if sel[0] {
            seq![ps[0]]
        } else {
            seq![]
        };
        let c = chosen(ps, sel);
        assert(c == head + chosen(rp, rs));
        assert forall|x: Seq<char>| c.contains(x) <==> exists|i: int|
            0 <= i < ps.len() && sel[i] && ps[i] == x by {
            if c.contains(x) {
                let k = choose|k: int| 0 <= k < c.len() && c[k] == x;
                if k < head.len() {
                    assert(sel[0] && ps[0] == x);
                } else {
                    assert(chosen(rp, rs)[k - head.len()] == x);
                    assert(chosen(rp, rs).contains(x));
                    let i = choose|i: int| 0 <= i < rp.len() && rs[i] && rp[i] == x;
                    assert(sel[i + 1] && ps[i + 1] == x);
                }
            }
            if exists|i: int| 0 <= i < ps.len() && sel[i] && ps[i] == x {
                let i = choose|i: int| 0 <= i < ps.len() && sel[i] && ps[i] == x;
                if i == 0 {
                    assert(c[0] == x);
                } else {
                    assert(rs[i - 1] && rp[i - 1] == x);
                    assert(chosen(rp, rs).contains(x));
                    let k = choose|k: int| 0 <= k < chosen(rp, rs).len() && chosen(rp, rs)[k] == x;
                    assert(c[head.len() + k] == x);
                }
            }
        }
    }
}

/// Enter on a loaded package list acts on the picked packages, or, when none
/// is picked, on the package shown under the cursor: the one at the cursor's
/// place among the matches of the current query. Available packages are
/// asked to be installed; installed ones are shown for removal first.
pub proof fn lemma_enter_acts_on_the_chosen(a: AppModel, v: ListModel, ctrl: bool)
    requires
        a.screen == ScreenModel::Packages(v),
        !v.loading,
        list_ok(v),
    ensures
        ({
            let (b, r) = key_step(a, Key { code: KeyCode::Enter, ctrl, press: true });
            &&& (forall|i: int| 0 <= i < v.selected.len() ==> !v.selected[i]) && a.cursor
                < v.matches.len() ==> {
                let target = v.packages[v.matches[a.cursor as int]];
                if v.source is Available {
                    b == a && r == Some(
                        RequestModel::Execute(ActionView::Install(seq![target])),
                    )
                } else {
                    b == with_screen(a, ScreenModel::Confirm(ActionView::Remove(seq![target])))
                        && r is None
                }
            }
            &&& (exists|i: int| 0 <= i < v.selected.len() && v.selected[i]) ==> {
                let ps = if v.source is Available {
                    r->Some_0->Execute_0->Install_0
                } else {
                    b.screen->Confirm_0->Remove_0
                };
                &&& (if v.source is Available {
                    b == a && r matches Some(RequestModel::Execute(ActionView::Install(_)))
                } else {
                    r is None && b.screen matches ScreenModel::Confirm(ActionView::Remove(_))
                })
                &&& forall|x: Seq<char>|
                    ps.contains(x) <==> exists|i: int|
                        0 <= i < v.packages.len() && v.selected[i] && v.packages[i] == x
            }
        }),
{
    lemma_chosen_are_the_picked(v.packages, v.selected);
    let picked = chosen(v.packages, v.selected);
    if forall|i: int| 0 <= i < v.selected.len() ==> !v.selected[i] {
        if picked.len() > 0 {
            assert(picked.contains(picked[0]));
        }
    }
    if exists|i: int| 0 <= i < v.selected.len() && v.selected[i] {
        let i = choose|i: int| 0 <= i < v.selected.len() && v.selected[i];
        assert(picked.contains(v.packages[i]));
    }
}

/// Tab (or Space, when the search field does not have focus) on a loaded
/// package list flips the pick of exactly the package shown under the
/// cursor, the one at the cursor's place among the matches, leaves every
/// other pick, the packages, the matches and the query as they were, and
/// moves the cursor on to the next match down the screen.
pub proof fn lemma_pick_flips_the_package_under_cursor(a: AppModel, v: ListModel, key: Key)
    requires
        a.screen == ScreenModel::Packages(v),
        !v.loading,
        list_ok(v),
        key.press,
        key.code == KeyCode::Tab || (key.code == KeyCode::Char(' ') && !v.searching),
        a.cursor < v.matches.len() <= usize::MAX,
    ensures
        ({
            let (b, r) = key_step(a, key);
            let t = v.matches[a.cursor as int];
            &&& r is None
            &&& b.screen matches ScreenModel::Packages(w) && w.packages == v.packages && w.matches
                == v.matches && w.query == v.query && w.selected.len() == v.selected.len()
                && w.selected[t] == !v.selected[t] && forall|j: int|
                0 <= j < v.selected.len() && j != t ==> w.selected[j] == v.selected[j]
            &&& b.cursor == if a.cursor > 0 {
                a.cursor - 1
            } else {
                0
            }
        }),
{
    let t = v.matches[a.cursor as int];
    assert(0 <= t < v.packages.len());
    assert(key_step(a, key) == list_key(a, v, key));
    let w = ListModel { selected: v.selected.update(t, !v.selected[t]), ..v };
    assert(list_key(a, v, key) == (
        at_cursor(with_list(a, w), scroll_down_of(a.cursor, v.matches.len() as usize)),
        None::<RequestModel>,
    ));
}

} // verus!
