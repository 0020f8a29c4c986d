//! The keys of the host list, the Dashboard, its tag filter and the Detail
//! View: each key press as a step from the screen's state to its next state
//! and the action asked of the application.
//!
//! Moving the selection and editing a form's fields are the application's
//! own (its list and form types): they come back as actions.

use vstd::prelude::*;

use crate::event::ServiceKind;
use crate::ui::snippets::{typed, KeyInput, SnippetPopup};
use crate::text::push_char;

verus! {

/// A direction of Dashboard grid navigation.
#[derive(Debug, Clone, Copy, PartialEq, Eq, Structural)]
pub enum NavDir {
    Up,
    Down,
    Left,
    Right,
}

/// A popup of the host list. The forms' fields are the application's.
#[derive(Debug, Clone, Copy, PartialEq, Eq, Structural)]
pub enum HostPopup {
    AddForm,
    EditForm,
    /// Deleting the host at this index.
    DeleteConfirm(usize),
    /// Setting up a key for the host at this index.
    KeySetupConfirm(usize),
    KeySetupProgress,
}

/// What a key asks of the application.
#[derive(Debug, Clone, PartialEq, Eq)]
pub enum ScreenAction {
    ConnectAt(usize),
    OpenEditPopup,
    StartKeySetup,
    ReloadHosts,
    SearchQueryChanged,
    ConfirmForm,
    ConfirmDelete,
    ConfirmKeySetup(usize),
    CancelKeySetup,
    /// Move the list selection down.
    SelectNext,
    /// Move the list selection up.
    SelectPrev,
    /// Move the form's focus to its next field.
    FormFocusNext,
    /// Move the form's focus to its previous field.
    FormFocusPrev,
    /// Type a character into the form's focused field.
    FormInsert(char),
    /// Delete before the cursor in the form's focused field.
    FormBackspace,
    DashboardNav(NavDir),
    OpenDetailView,
    RefreshMetrics,
    CycleSortOrder,
    OpenTagFilter,
    OpenQuickExecute,
    /// Filter by this tag, or clear the filter.
    TagFilterSelected(Option<String>),
    DismissSnippetResult,
    ConnectFromDetailView,
    CloseDetailView,
    ShowQuickView(ServiceKind),
}

/// [`ScreenAction`] with the tag as text.
pub ghost enum ActionView {
    ConnectAt(usize),
    OpenEditPopup,
    StartKeySetup,
    ReloadHosts,
    SearchQueryChanged,
    ConfirmForm,
    ConfirmDelete,
    ConfirmKeySetup(usize),
    CancelKeySetup,
    SelectNext,
    SelectPrev,
    FormFocusNext,
    FormFocusPrev,
    FormInsert(char),
    FormBackspace,
    DashboardNav(NavDir),
    OpenDetailView,
    RefreshMetrics,
    CycleSortOrder,
    OpenTagFilter,
    OpenQuickExecute,
    TagFilterSelected(Option<Seq<char>>),
    DismissSnippetResult,
    ConnectFromDetailView,
    CloseDetailView,
    ShowQuickView(ServiceKind),
}

impl View for ScreenAction {
    type V = ActionView;

    open spec fn view(&self) -> ActionView {
        match self {
            ScreenAction::ConnectAt(i) => ActionView::ConnectAt(*i),
            ScreenAction::OpenEditPopup => ActionView::OpenEditPopup,
            ScreenAction::StartKeySetup => ActionView::StartKeySetup,
            ScreenAction::ReloadHosts => ActionView::ReloadHosts,
            ScreenAction::SearchQueryChanged => ActionView::SearchQueryChanged,
            ScreenAction::ConfirmForm => ActionView::ConfirmForm,
            ScreenAction::ConfirmDelete => ActionView::ConfirmDelete,
            ScreenAction::ConfirmKeySetup(i) => ActionView::ConfirmKeySetup(*i),
            ScreenAction::CancelKeySetup => ActionView::CancelKeySetup,
            ScreenAction::SelectNext => ActionView::SelectNext,
            ScreenAction::SelectPrev => ActionView::SelectPrev,
            ScreenAction::FormFocusNext => ActionView::FormFocusNext,
            ScreenAction::FormFocusPrev => ActionView::FormFocusPrev,
            ScreenAction::FormInsert(c) => ActionView::FormInsert(*c),
            ScreenAction::FormBackspace => ActionView::FormBackspace,
            ScreenAction::DashboardNav(d) => ActionView::DashboardNav(*d),
            ScreenAction::OpenDetailView => ActionView::OpenDetailView,
            ScreenAction::RefreshMetrics => ActionView::RefreshMetrics,
            ScreenAction::CycleSortOrder => ActionView::CycleSortOrder,
            ScreenAction::OpenTagFilter => ActionView::OpenTagFilter,
            ScreenAction::OpenQuickExecute => ActionView::OpenQuickExecute,
            ScreenAction::TagFilterSelected(t) => ActionView::TagFilterSelected(
                match t {
                    Some(x) => Some(x@),
                    None => None,
                },
            ),
            ScreenAction::DismissSnippetResult => ActionView::DismissSnippetResult,
            ScreenAction::ConnectFromDetailView => ActionView::ConnectFromDetailView,
            ScreenAction::CloseDetailView => ActionView::CloseDetailView,
            ScreenAction::ShowQuickView(k) => ActionView::ShowQuickView(*k),
        }
    }
}

/// The view of an optional action.
pub open spec fn act(a: Option<ScreenAction>) -> Option<ActionView> {
    match a {
        Some(x) => Some(x@),
        None => None,
    }
}

/// The key state of the host list: its popup, whether its search field
/// has the keyboard, and the search text.
pub struct HostListState {
    pub popup: Option<HostPopup>,
    pub search_mode: bool,
    pub search_query: String,
}

/// [`HostListState`] with the search text as text.
pub ghost struct HostListView {
    pub popup: Option<HostPopup>,
    pub search_mode: bool,
    pub query: Seq<char>,
}

impl View for HostListState {
    type V = HostListView;

    open spec fn view(&self) -> HostListView {
        HostListView {
            popup: self.popup,
            search_mode: self.search_mode,
            query: self.search_query@,
        }
    }
}

/// `c` typed, with or without Control.
pub open spec fn is_char(k: KeyInput, c: char) -> bool {
    k matches KeyInput::Char { c: x, .. } && x == c
}

/// A key in a host-list form.
pub open spec fn form_key(k: KeyInput) -> Option<ActionView> {
    match k {
        KeyInput::Enter => Some(ActionView::ConfirmForm),
        KeyInput::Tab => Some(ActionView::FormFocusNext),
        KeyInput::BackTab => Some(ActionView::FormFocusPrev),
        KeyInput::Backspace => Some(ActionView::FormBackspace),
        _ => match typed(k) {
            Some(c) => Some(ActionView::FormInsert(c)),
            None => None,
        },
    }
}

/// A key in the host list, `selected` being the index of the selected host
/// if any: an open popup takes it first (Esc closes any popup), then the
/// search field, then the list.
pub open spec fn host_list_step(s: HostListView, k: KeyInput, selected: Option<usize>) -> (
    HostListView,
    Option<ActionView>,
) {
    match s.popup {
        Some(p) => if k == KeyInput::Esc {
            (HostListView { popup: None, ..s }, None)
        } else {
            match p {
                HostPopup::AddForm | HostPopup::EditForm => (s, form_key(k)),
                HostPopup::DeleteConfirm(_) => if is_char(k, 'y') || is_char(k, 'Y') {
                    (s, Some(ActionView::ConfirmDelete))
                } else if is_char(k, 'n') || is_char(k, 'N') {
                    (HostListView { popup: None, ..s }, None)
                } else {
                    (s, None)
                },
                HostPopup::KeySetupConfirm(i) => if is_char(k, 'y') || is_char(k, 'Y') || k
                    == KeyInput::Enter {
                    (s, Some(ActionView::ConfirmKeySetup(i)))
                } else if is_char(k, 'n') || is_char(k, 'N') {
                    (s, Some(ActionView::CancelKeySetup))
                } else {
                    (s, None)
                },
                HostPopup::KeySetupProgress => (s, None),
            }
        },
        None => if s.search_mode {
            if k == KeyInput::Enter {
                (HostListView { search_mode: false, ..s }, None)
            } else if k == KeyInput::Esc {
                (
                    HostListView { search_mode: false, query: Seq::empty(), ..s },
                    Some(ActionView::SearchQueryChanged),
                )
            } else if k == KeyInput::Backspace {
                (
                    HostListView {
                        query: if s.query.len() > 0 {
                            s.query.drop_last()
                        } else {
                            s.query
                        },
                        ..s
                    },
                    Some(ActionView::SearchQueryChanged),
                )
            } else {
                match typed(k) {
                    Some(c) => (
                        HostListView { query: s.query.push(c), ..s },
                        Some(ActionView::SearchQueryChanged),
                    ),
                    None => (s, None),
                }
            }
        } else if k == KeyInput::Down || is_char(k, 'j') {
            (s, Some(ActionView::SelectNext))
        } else if k == KeyInput::Up || is_char(k, 'k') {
            (s, Some(ActionView::SelectPrev))
        } else if k == KeyInput::Enter {
            (
                s,
                match selected {
                    Some(i) => Some(ActionView::ConnectAt(i)),
                    None => None,
                },
            )
        } else if is_char(k, '/') {
            (HostListView { search_mode: true, ..s }, None)
        } else if is_char(k, 'a') {
            (HostListView { popup: Some(HostPopup::AddForm), ..s }, None)
        } else if is_char(k, 'e') {
            (
                s,
                if selected is Some {
                    Some(ActionView::OpenEditPopup)
                } else {
                    None
                },
            )
        } else if is_char(k, 'd') {
            match selected {
                Some(i) => (HostListView { popup: Some(HostPopup::DeleteConfirm(i)), ..s }, None),
                None => (s, None),
            }
        } else if is_char(k, 'K') {
            (
                s,
                if selected is Some {
                    Some(ActionView::StartKeySetup)
                } else {
                    None
                },
            )
        } else if is_char(k, 'r') {
            (s, Some(ActionView::ReloadHosts))
        } else {
            (s, None)
        },
    }
}

/// The same key, by its code alone (Control ignored on characters).
pub open spec fn same_code(a: KeyInput, b: KeyInput) -> bool {
    match (a, b) {
        (KeyInput::Char { c: x, .. }, KeyInput::Char { c: y, .. }) => x == y,
        _ => a == b,
    }
}

/// A key on the Dashboard: with the search field or a popup open the host
/// list takes it; otherwise it moves in the grid, opens the Detail View,
/// manages hosts, or starts a search (`/` or the configured `search_key`).
pub open spec fn dashboard_step(
    s: HostListView,
    k: KeyInput,
    selected: Option<usize>,
    search_key: KeyInput,
) -> (HostListView, Option<ActionView>) {
    if s.search_mode || s.popup is Some {
        host_list_step(s, k, selected)
    } else if is_char(k, 'j') || k == KeyInput::Down {
        (s, Some(ActionView::DashboardNav(NavDir::Down)))
    } else if is_char(k, 'k') || k == KeyInput::Up {
        (s, Some(ActionView::DashboardNav(NavDir::Up)))
    } else if is_char(k, 'h') || k == KeyInput::Left {
        (s, Some(ActionView::DashboardNav(NavDir::Left)))
    } else if is_char(k, 'l') || k == KeyInput::Right {
        (s, Some(ActionView::DashboardNav(NavDir::Right)))
    } else if k == KeyInput::Enter {
        (s, Some(ActionView::OpenDetailView))
    } else if is_char(k, 'a') {
        (HostListView { popup: Some(HostPopup::AddForm), ..s }, None)
    } else if is_char(k, 'e') {
        (s, Some(ActionView::OpenEditPopup))
    } else if is_char(k, 'd') {
        match selected {
            Some(i) => (HostListView { popup: Some(HostPopup::DeleteConfirm(i)), ..s }, None),
            None => (s, None),
        }
    } else if is_char(k, '/') || same_code(k, search_key) {
        (HostListView { search_mode: true, ..s }, None)
    } else if is_char(k, 'r') {
        (s, Some(ActionView::RefreshMetrics))
    } else if is_char(k, 's') {
        (s, Some(ActionView::CycleSortOrder))
    } else if is_char(k, 't') {
        (s, Some(ActionView::OpenTagFilter))
    } else if is_char(k, 'x') {
        (s, Some(ActionView::OpenQuickExecute))
    } else if is_char(k, 'K') {
        (s, Some(ActionView::StartKeySetup))
    } else if k == KeyInput::Esc {
        if s.query.len() > 0 {
            (HostListView { query: Seq::empty(), ..s }, Some(ActionView::SearchQueryChanged))
        } else {
            (s, None)
        }
    } else {
        (s, None)
    }
}

/// Whether a key is `c`, with or without Control.
fn key_is(k: KeyInput, c: char) -> (r: bool)
    ensures
        r == is_char(k, c),
{
    match k {
        KeyInput::Char { c: x, .. } => x == c,
        _ => false,
    }
}

/// `s` without its last character.
fn drop_last_char(s: &String) -> (r: String)
    ensures
        r@ == (if s@.len() > 0 {
            s@.drop_last()
        } else {
            s@
        }),
{
    let v = crate::text::chars_of(s.as_str());
    let n: usize = if v.len() > 0 {
        v.len() - 1
    } else {
        0
    };
    let w = crate::text::slice(&v, 0, n);
    let r = crate::text::string_of(&w);
    assert(r@ =~= (if s@.len() > 0 {
        s@.drop_last()
    } else {
        s@
    }));
    r
}

/// A key in a host-list form; see [`form_key`].
fn form_key_action(k: KeyInput) -> (r: Option<ScreenAction>)
    ensures
        act(r) == form_key(k),
{
    match k {
        KeyInput::Enter => Some(ScreenAction::ConfirmForm),
        KeyInput::Tab => Some(ScreenAction::FormFocusNext),
        KeyInput::BackTab => Some(ScreenAction::FormFocusPrev),
        KeyInput::Backspace => Some(ScreenAction::FormBackspace),
        KeyInput::Char { c, ctrl } => if ctrl {
            None
        } else {
            Some(ScreenAction::FormInsert(c))
        },
        _ => None,
    }
}

/// A key in the host list; see [`host_list_step`].
pub fn host_list_key(st: &mut HostListState, key: KeyInput, selected: Option<usize>) -> (r: Option<
    ScreenAction,
>)
    ensures
        (final(st)@, act(r)) == host_list_step(old(st)@, key, selected),
{
    match st.popup {
        Some(p) => {
            if key == KeyInput::Esc {
                st.popup = None;
                return None;
            }
            match p {
                HostPopup::AddForm | HostPopup::EditForm => form_key_action(key),
                HostPopup::DeleteConfirm(_) => {
                    if key_is(key, 'y') || key_is(key, 'Y') {
                        Some(ScreenAction::ConfirmDelete)
                    } else if key_is(key, 'n') || key_is(key, 'N') {
                        st.popup = None;
                        None
                    } else {
                        None
                    }
                },
                HostPopup::KeySetupConfirm(i) => {
                    if key_is(key, 'y') || key_is(key, 'Y') || key == KeyInput::Enter {
                        Some(ScreenAction::ConfirmKeySetup(i))
                    } else if key_is(key, 'n') || key_is(key, 'N') {
                        Some(ScreenAction::CancelKeySetup)
                    } else {
                        None
                    }
                },
                HostPopup::KeySetupProgress => None,
            }
        },
        None => {
            if st.search_mode {
                if key == KeyInput::Enter {
                    st.search_mode = false;
                    None
                } else if key == KeyInput::Esc {
                    st.search_mode = false;
                    st.search_query = String::new();
                    Some(ScreenAction::SearchQueryChanged)
                } else if key == KeyInput::Backspace {
                    let q = drop_last_char(&st.search_query);
                    st.search_query = q;
                    Some(ScreenAction::SearchQueryChanged)
                } else {
                    match key {
                        KeyInput::Char { c, ctrl } => if ctrl {
                            None
                        } else {
                            push_char(&mut st.search_query, c);
                            Some(ScreenAction::SearchQueryChanged)
                        },
                        _ => None,
                    }
                }
            } else if key == KeyInput::Down || key_is(key, 'j') {
                Some(ScreenAction::SelectNext)
            } else if key == KeyInput::Up || key_is(key, 'k') {
                Some(ScreenAction::SelectPrev)
            } else if key == KeyInput::Enter {
                match selected {
                    Some(i) => Some(ScreenAction::ConnectAt(i)),
                    None => None,
                }
            } else if key_is(key, '/') {
                st.search_mode = true;
                None
            } else if key_is(key, 'a') {
                st.popup = Some(HostPopup::AddForm);
                None
            } else if key_is(key, 'e') {
                if selected.is_some() {
                    Some(ScreenAction::OpenEditPopup)
                } else {
                    None
                }
            } else if key_is(key, 'd') {
                match selected {
                    Some(i) => {
                        st.popup = Some(HostPopup::DeleteConfirm(i));
                    },
                    None => {},
                }
                None
            } else if key_is(key, 'K') {
                if selected.is_some() {
                    Some(ScreenAction::StartKeySetup)
                } else {
                    None
                }
            } else if key_is(key, 'r') {
                Some(ScreenAction::ReloadHosts)
            } else {
                None
            }
        },
    }
}

/// Whether two keys have the same code; see [`same_code`].
fn same_code_exec(a: KeyInput, b: KeyInput) -> (r: bool)
    ensures
        r == same_code(a, b),
{
    match (a, b) {
        (KeyInput::Char { c: x, .. }, KeyInput::Char { c: y, .. }) => x == y,
        _ => a == b,
    }
}

/// A key on the Dashboard; see [`dashboard_step`].
pub fn dashboard_key(
    st: &mut HostListState,
    key: KeyInput,
    selected: Option<usize>,
    search_key: KeyInput,
) -> (r: Option<ScreenAction>)
    ensures
        (final(st)@, act(r)) == dashboard_step(old(st)@, key, selected, search_key),
{
    if st.search_mode || st.popup.is_some() {
        return host_list_key(st, key, selected);
    }
    if key_is(key, 'j') || key == KeyInput::Down {
        Some(ScreenAction::DashboardNav(NavDir::Down))
    } else if key_is(key, 'k') || key == KeyInput::Up {
        Some(ScreenAction::DashboardNav(NavDir::Up))
    } else if key_is(key, 'h') || key == KeyInput::Left {
        Some(ScreenAction::DashboardNav(NavDir::Left))
    } else if key_is(key, 'l') || key == KeyInput::Right {
        Some(ScreenAction::DashboardNav(NavDir::Right))
    } else if key == KeyInput::Enter {
        Some(ScreenAction::OpenDetailView)
    } else if key_is(key, 'a') {
        st.popup = Some(HostPopup::AddForm);
        None
    } else if key_is(key, 'e') {
        Some(ScreenAction::OpenEditPopup)
    } else if key_is(key, 'd') {
        match selected {
            Some(i) => {
                st.popup = Some(HostPopup::DeleteConfirm(i));
            },
            None => {},
        }
        None
    } else if key_is(key, '/') || same_code_exec(key, search_key) {
        st.search_mode = true;
        None
    } else if key_is(key, 'r') {
        Some(ScreenAction::RefreshMetrics)
    } else if key_is(key, 's') {
        Some(ScreenAction::CycleSortOrder)
    } else if key_is(key, 't') {
        Some(ScreenAction::OpenTagFilter)
    } else if key_is(key, 'x') {
        Some(ScreenAction::OpenQuickExecute)
    } else if key_is(key, 'K') {
        Some(ScreenAction::StartKeySetup)
    } else if key == KeyInput::Esc {
        let v = crate::text::chars_of(st.search_query.as_str());
        if v.len() > 0 {
            st.search_query = String::new();
            Some(ScreenAction::SearchQueryChanged)
        } else {
            None
        }
    } else {
        None
    }
}

/// The tag filter popup: open or not, and its selected row (row 0 is
/// "All", which clears the filter; row `i + 1` is the `i`-th tag).
#[derive(Debug, Clone, Copy, PartialEq, Eq, Structural)]
pub struct TagPopup {
    pub open: bool,
    pub selected: usize,
}

/// The keys that a tag popup can take: moving down needs room to count.
pub open spec fn tag_key_defined(p: TagPopup, k: KeyInput, tags: Seq<Seq<char>>) -> bool {
    (is_char(k, 'j') || k == KeyInput::Down) ==> p.selected < usize::MAX
}

/// A key in the tag filter popup over `tags`: Esc or `t` closes it, as does
/// Ctrl+C; `j`/`k` move within its rows; Enter picks the selected row.
pub open spec fn tag_step(p: TagPopup, k: KeyInput, tags: Seq<Seq<char>>) -> (
    TagPopup,
    Option<ActionView>,
) {
    let total = tags.len() + 1;
    if k == KeyInput::Esc || is_char(k, 't') {
        (TagPopup { open: false, ..p }, None)
    } else if is_char(k, 'j') || k == KeyInput::Down {
        (
            TagPopup {
                selected: if p.selected + 1 < total - 1 {
                    (p.selected + 1) as usize
                } else {
                    (total - 1) as usize
                },
                ..p
            },
            None,
        )
    } else if is_char(k, 'k') || k == KeyInput::Up {
        (TagPopup { selected: if p.selected > 0 {
            (p.selected - 1) as usize
        } else {
            0
        }, ..p }, None)
    } else if k == KeyInput::Enter {
        (
            p,
            Some(
                ActionView::TagFilterSelected(
                    if p.selected == 0 {
                        None
                    } else if p.selected - 1 < tags.len() {
                        Some(tags[p.selected - 1])
                    } else {
                        None
                    },
                ),
            ),
        )
    } else if k == (KeyInput::Char { c: 'c', ctrl: true }) {
        (TagPopup { open: false, ..p }, None)
    } else {
        (p, None)
    }
}

/// A key in the tag filter popup; see [`tag_step`].
pub fn tag_popup_key(popup: &mut TagPopup, key: KeyInput, tags: &Vec<String>) -> (r: Option<
    ScreenAction,
>)
    requires
        tag_key_defined(*old(popup), key, crate::text::string_views(tags@)),
        tags@.len() < usize::MAX,
    ensures
        (*final(popup), act(r)) == tag_step(*old(popup), key, crate::text::string_views(tags@)),
{
    let total = tags.len() + 1;
    if key == KeyInput::Esc || key_is(key, 't') {
        popup.open = false;
        None
    } else if key_is(key, 'j') || key == KeyInput::Down {
        let next = popup.selected + 1;
        popup.selected = if next < total - 1 {
            next
        } else {
            total - 1
        };
        None
    } else if key_is(key, 'k') || key == KeyInput::Up {
        popup.selected = popup.selected.saturating_sub(1);
        None
    } else if key == KeyInput::Enter {
        let sel = popup.selected;
        let chosen = if sel == 0 {
            None
        } else if sel - 1 < tags.len() {
            Some(tags[sel - 1].clone())
        } else {
            None
        };
        Some(ScreenAction::TagFilterSelected(chosen))
    } else if key == (KeyInput::Char { c: 'c', ctrl: true }) {
        popup.open = false;
        None
    } else {
        None
    }
}

/// The service a quick-view key names: `4` Docker, `5` Nginx, `6`
/// PostgreSQL, `7` Redis, `8` Node.js.
pub open spec fn quick_view_kind(k: KeyInput) -> Option<ServiceKind> {
    if is_char(k, '4') {
        Some(ServiceKind::Docker)
    } else if is_char(k, '5') {
        Some(ServiceKind::Nginx)
    } else if is_char(k, '6') {
        Some(ServiceKind::PostgreSQL)
    } else if is_char(k, '7') {
        Some(ServiceKind::Redis)
    } else if is_char(k, '8') {
        Some(ServiceKind::NodeJS)
    } else {
        None
    }
}

/// A key in the Detail View, `scroll` being the scroll of an open snippet
/// results popup: that popup takes the key first (`j`/`k` scroll, Esc or
/// `q` dismiss, any other key is swallowed); otherwise Enter connects, `r`
/// refreshes, Esc goes back, `4` to `8` show a service's quick view.
pub open spec fn detail_step(scroll: Option<usize>, k: KeyInput) -> (Option<usize>, Option<ActionView>) {
    match scroll {
        Some(s) => if is_char(k, 'j') || k == KeyInput::Down {
            (Some(if s < usize::MAX {
                (s + 1) as usize
            } else {
                s
            }), None)
        } else if is_char(k, 'k') || k == KeyInput::Up {
            (Some(if s > 0 {
                (s - 1) as usize
            } else {
                0
            }), None)
        } else if k == KeyInput::Esc || is_char(k, 'q') {
            (scroll, Some(ActionView::DismissSnippetResult))
        } else {
            (scroll, None)
        },
        None => (
            None,
            if k == KeyInput::Enter {
                Some(ActionView::ConnectFromDetailView)
            } else if is_char(k, 'r') {
                Some(ActionView::RefreshMetrics)
            } else if k == KeyInput::Esc {
                Some(ActionView::CloseDetailView)
            } else {
                match quick_view_kind(k) {
                    Some(kind) => Some(ActionView::ShowQuickView(kind)),
                    None => None,
                }
            },
        ),
    }
}

/// The scroll of an open results popup.
pub open spec fn results_scroll(p: Option<SnippetPopup>) -> Option<usize> {
    match p {
        Some(SnippetPopup::Results { scroll }) => Some(scroll),
        _ => None,
    }
}

/// A key in the Detail View, over the Snippets popup that may show a
/// command's results; see [`detail_step`]. Other popups are left as they
/// are.
pub fn detail_key(popup: &mut Option<SnippetPopup>, key: KeyInput) -> (r: Option<ScreenAction>)
    ensures
        (results_scroll(*final(popup)), act(r)) == detail_step(results_scroll(*old(popup)), key),
        results_scroll(*old(popup)) is None ==> *final(popup) == *old(popup),
{
    let scroll = match popup {
        Some(SnippetPopup::Results { scroll }) => Some(*scroll),
        _ => None,
    };
    match scroll {
        Some(s) => {
            if key_is(key, 'j') || key == KeyInput::Down {
                *popup = Some(SnippetPopup::Results { scroll: s.saturating_add(1) });
                None
            } else if key_is(key, 'k') || key == KeyInput::Up {
                *popup = Some(SnippetPopup::Results { scroll: s.saturating_sub(1) });
                None
            } else if key == KeyInput::Esc || key_is(key, 'q') {
                Some(ScreenAction::DismissSnippetResult)
            } else {
                None
            }
        },
        None => {
            if key == KeyInput::Enter {
                Some(ScreenAction::ConnectFromDetailView)
            } else if key_is(key, 'r') {
                Some(ScreenAction::RefreshMetrics)
            } else if key == KeyInput::Esc {
                Some(ScreenAction::CloseDetailView)
            } else if key_is(key, '4') {
                Some(ScreenAction::ShowQuickView(ServiceKind::Docker))
            } else if key_is(key, '5') {
                Some(ScreenAction::ShowQuickView(ServiceKind::Nginx))
            } else if key_is(key, '6') {
                Some(ScreenAction::ShowQuickView(ServiceKind::PostgreSQL))
            } else if key_is(key, '7') {
                Some(ScreenAction::ShowQuickView(ServiceKind::Redis))
            } else if key_is(key, '8') {
                Some(ScreenAction::ShowQuickView(ServiceKind::NodeJS))
            } else {
                None
            }
        },
    }
}

} // verus!
