//! The bottom status bar: what it shows for the application's state.
//!
//! A critical alert comes first, then a status message, then the hints of
//! whatever has the keyboard (a search field, a popup), and otherwise the
//! global keys. Drawing the bar is left to the caller.

use vstd::prelude::*;

use crate::event::{alerts_view, has_critical, Alert, AlertSeverity, AlertView};
use crate::text::{fmt_u64, int_text, owned, push_str};

verus! {

/// A host-list popup, as far as the status bar tells them apart.
#[derive(Debug, Clone, Copy, PartialEq, Eq, Structural)]
pub enum HostPopupKind {
    /// The add or edit form.
    Form,
    DeleteConfirm,
    KeySetupConfirm,
    KeySetupProgress,
}

/// A snippets popup, as far as the status bar tells them apart.
#[derive(Debug, Clone, Copy, PartialEq, Eq, Structural)]
pub enum SnippetPopupKind {
    /// The add or edit form.
    Form,
    DeleteConfirm,
    ParamInput,
    BroadcastPicker,
    QuickExecuteInput,
    Results,
}

/// A file-manager popup, as far as the status bar tells them apart.
#[derive(Debug, Clone)]
pub enum FilePopupKind {
    HostPicker,
    DeleteConfirm,
    /// A new directory's name, or a new name for an entry.
    NameInput,
    /// A transfer under way: the file and how far it got, in percent.
    TransferProgress { filename: String, percent: u64 },
}

/// What the status bar is drawn from.
pub struct StatusInput {
    /// The alerts of all hosts, in the order they are walked.
    pub alerts: Vec<Alert>,
    pub status_message: Option<String>,
    /// The host list's search field has the keyboard.
    pub host_search: bool,
    pub host_popup: Option<HostPopupKind>,
    /// The snippets search field has the keyboard.
    pub snippet_search: bool,
    pub snippet_popup: Option<SnippetPopupKind>,
    /// The file manager is the screen shown.
    pub file_manager_screen: bool,
    pub file_popup: Option<FilePopupKind>,
    pub tag_popup_open: bool,
}

/// What the status bar shows.
#[derive(Debug, Clone)]
pub enum StatusBar {
    /// A critical alert and its suggested action.
    Alert { message: String, action: Option<String> },
    /// The status message.
    Message(String),
    /// A search field's hints, for the snippets search or the host search.
    Search { snippets: bool, hints: Vec<(String, String)> },
    /// Key hints as (key, what it does), after an optional note.
    Hints { note: Option<String>, hints: Vec<(String, String)> },
}

/// Key hints as text.
pub open spec fn hints_view(v: Seq<(String, String)>) -> Seq<(Seq<char>, Seq<char>)> {
    Seq::new(v.len(), |i: int| (v[i].0@, v[i].1@))
}

/// [`StatusBar`] as text.
pub ghost enum StatusBarView {
    Alert { message: Seq<char>, action: Option<Seq<char>> },
    Message(Seq<char>),
    Search { snippets: bool, hints: Seq<(Seq<char>, Seq<char>)> },
    Hints { note: Option<Seq<char>>, hints: Seq<(Seq<char>, Seq<char>)> },
}

impl View for StatusBar {
    type V = StatusBarView;

    open spec fn view(&self) -> StatusBarView {
        match self {
            StatusBar::Alert { message, action } => StatusBarView::Alert {
                message: message@,
                action: match action {
                    Some(a) => Some(a@),
                    None => None,
                },
            },
            StatusBar::Message(m) => StatusBarView::Message(m@),
            StatusBar::Search { snippets, hints } => StatusBarView::Search {
                snippets: *snippets,
                hints: hints_view(hints@),
            },
            StatusBar::Hints { note, hints } => StatusBarView::Hints {
                note: match note {
                    Some(n) => Some(n@),
                    None => None,
                },
                hints: hints_view(hints@),
            },
        }
    }
}

pub open spec fn form_hints() -> Seq<(Seq<char>, Seq<char>)> {
    seq![("Tab"@, "next field"@), ("Shift+Tab"@, "prev field"@), ("Enter"@, "save"@), ("Esc"@, "cancel"@)]
}

pub open spec fn delete_hints() -> Seq<(Seq<char>, Seq<char>)> {
    seq![("y"@, "confirm delete"@), ("n / Esc"@, "cancel"@)]
}

pub open spec fn search_hints() -> Seq<(Seq<char>, Seq<char>)> {
    seq![("Enter"@, "confirm"@), ("Esc"@, "clear"@)]
}

pub open spec fn global_hints() -> Seq<(Seq<char>, Seq<char>)> {
    seq![
        ("1"@, "Dashboard"@),
        ("2"@, "Files"@),
        ("3"@, "Snippets"@),
        ("4"@, "Terminal"@),
        ("?"@, "Help"@),
        ("q"@, "Quit"@),
    ]
}

/// The hints while a host-list popup is open.
pub open spec fn host_popup_bar(p: HostPopupKind) -> StatusBarView {
    match p {
        HostPopupKind::Form => StatusBarView::Hints { note: None, hints: form_hints() },
        HostPopupKind::DeleteConfirm => StatusBarView::Hints { note: None, hints: delete_hints() },
        HostPopupKind::KeySetupConfirm => StatusBarView::Hints {
            note: None,
            hints: seq![("y / Enter"@, "confirm setup"@), ("n / Esc"@, "cancel"@)],
        },
        HostPopupKind::KeySetupProgress => StatusBarView::Hints {
            note: Some("Setting up SSH keys…"@),
            hints: seq![("Esc"@, "close"@)],
        },
    }
}

/// The hints while a snippets popup is open.
pub open spec fn snippet_popup_bar(p: SnippetPopupKind) -> StatusBarView {
    let hints = match p {
        SnippetPopupKind::Form => form_hints(),
        SnippetPopupKind::DeleteConfirm => delete_hints(),
        SnippetPopupKind::ParamInput => seq![
            ("Tab"@, "next param"@),
            ("Enter"@, "run"@),
            ("Esc"@, "cancel"@),
        ],
        SnippetPopupKind::BroadcastPicker => seq![
            ("j/k"@, "navigate"@),
            ("Space"@, "toggle"@),
            ("Enter"@, "run"@),
            ("Esc"@, "cancel"@),
        ],
        SnippetPopupKind::QuickExecuteInput => seq![("Enter"@, "run"@), ("Esc"@, "cancel"@)],
        SnippetPopupKind::Results => seq![("j/k"@, "scroll"@), ("Esc"@, "close"@)],
    };
    StatusBarView::Hints { note: None, hints }
}

/// The hints while a file-manager popup is open.
pub open spec fn file_popup_bar(p: FilePopupKind) -> StatusBarView {
    match p {
        FilePopupKind::HostPicker => StatusBarView::Hints {
            note: None,
            hints: seq![("j/k"@, "navigate"@), ("Enter"@, "connect"@), ("Esc"@, "cancel"@)],
        },
        FilePopupKind::DeleteConfirm => StatusBarView::Hints { note: None, hints: delete_hints() },
        FilePopupKind::NameInput => StatusBarView::Hints {
            note: None,
            hints: seq![("Enter"@, "confirm"@), ("Esc"@, "cancel"@)],
        },
        FilePopupKind::TransferProgress { filename, percent } => StatusBarView::Hints {
            note: Some("Transferring: "@ + filename@ + "  "@ + int_text(percent as int) + "%"@),
            hints: Seq::empty(),
        },
    }
}

/// `i` is the first critical alert among `a`.
pub open spec fn first_critical_at(a: Seq<AlertView>, i: int) -> bool {
    &&& 0 <= i < a.len()
    &&& a[i].severity == AlertSeverity::Critical
    &&& forall|j: int| 0 <= j < i ==> (#[trigger] a[j]).severity != AlertSeverity::Critical
}

/// What the status bar shows when no alert is critical: the status
/// message, else the hints of the search field, popup or tag list that has
/// the keyboard (in that order; file-manager popups only on that screen),
/// else the global keys.
pub open spec fn calm_bar(s: StatusInput) -> StatusBarView {
    if s.status_message is Some {
        StatusBarView::Message(s.status_message->0@)
    } else if s.host_search {
        StatusBarView::Search { snippets: false, hints: search_hints() }
    } else if s.host_popup is Some {
        host_popup_bar(s.host_popup->0)
    } else if s.snippet_search {
        StatusBarView::Search { snippets: true, hints: search_hints() }
    } else if s.snippet_popup is Some {
        snippet_popup_bar(s.snippet_popup->0)
    } else if s.file_manager_screen && s.file_popup is Some {
        file_popup_bar(s.file_popup->0)
    } else if s.tag_popup_open {
        StatusBarView::Hints {
            note: None,
            hints: seq![("j/k"@, "navigate"@), ("Enter"@, "select"@), ("Esc"@, "close"@)],
        }
    } else {
        StatusBarView::Hints { note: None, hints: global_hints() }
    }
}

/// Appends a key hint.
fn push_hint(v: &mut Vec<(String, String)>, key: &str, what: &str)
    ensures
        hints_view(final(v)@) == hints_view(old(v)@).push((key@, what@)),
{
    v.push((owned(key), owned(what)));
    assert(hints_view(v@) =~= hints_view(old(v)@).push((key@, what@)));
}

fn form_hints_vec() -> (r: Vec<(String, String)>)
    ensures
        hints_view(r@) == form_hints(),
{
    let mut v: Vec<(String, String)> = Vec::new();
    push_hint(&mut v, "Tab", "next field");
    push_hint(&mut v, "Shift+Tab", "prev field");
    push_hint(&mut v, "Enter", "save");
    push_hint(&mut v, "Esc", "cancel");
    assert(hints_view(v@) =~= form_hints());
    v
}

fn delete_hints_vec() -> (r: Vec<(String, String)>)
    ensures
        hints_view(r@) == delete_hints(),
{
    let mut v: Vec<(String, String)> = Vec::new();
    push_hint(&mut v, "y", "confirm delete");
    push_hint(&mut v, "n / Esc", "cancel");
    assert(hints_view(v@) =~= delete_hints());
    v
}

/// Two key hints.
fn two_hints(k1: &str, w1: &str, k2: &str, w2: &str) -> (r: Vec<(String, String)>)
    ensures
        hints_view(r@) == seq![(k1@, w1@), (k2@, w2@)],
{
    let mut v: Vec<(String, String)> = Vec::new();
    push_hint(&mut v, k1, w1);
    push_hint(&mut v, k2, w2);
    assert(hints_view(v@) =~= seq![(k1@, w1@), (k2@, w2@)]);
    v
}

/// Three key hints.
fn three_hints(k1: &str, w1: &str, k2: &str, w2: &str, k3: &str, w3: &str) -> (r: Vec<
    (String, String),
>)
    ensures
        hints_view(r@) == seq![(k1@, w1@), (k2@, w2@), (k3@, w3@)],
{
    let mut v: Vec<(String, String)> = Vec::new();
    push_hint(&mut v, k1, w1);
    push_hint(&mut v, k2, w2);
    push_hint(&mut v, k3, w3);
    assert(hints_view(v@) =~= seq![(k1@, w1@), (k2@, w2@), (k3@, w3@)]);
    v
}

fn global_hints_vec() -> (r: Vec<(String, String)>)
    ensures
        hints_view(r@) == global_hints(),
{
    let mut v: Vec<(String, String)> = Vec::new();
    push_hint(&mut v, "1", "Dashboard");
    push_hint(&mut v, "2", "Files");
    push_hint(&mut v, "3", "Snippets");
    push_hint(&mut v, "4", "Terminal");
    push_hint(&mut v, "?", "Help");
    push_hint(&mut v, "q", "Quit");
    assert(hints_view(v@) =~= global_hints());
    v
}

/// The hints while a host-list popup is open; see [`host_popup_bar`].
fn host_popup_status(p: HostPopupKind) -> (r: StatusBar)
    ensures
        r@ == host_popup_bar(p),
{
    match p {
        HostPopupKind::Form => StatusBar::Hints { note: None, hints: form_hints_vec() },
        HostPopupKind::DeleteConfirm => StatusBar::Hints { note: None, hints: delete_hints_vec() },
        HostPopupKind::KeySetupConfirm => StatusBar::Hints {
            note: None,
            hints: two_hints("y / Enter", "confirm setup", "n / Esc", "cancel"),
        },
        HostPopupKind::KeySetupProgress => {
            let mut v: Vec<(String, String)> = Vec::new();
            push_hint(&mut v, "Esc", "close");
            assert(hints_view(v@) =~= seq![("Esc"@, "close"@)]);
            StatusBar::Hints { note: Some(owned("Setting up SSH keys…")), hints: v }
        },
    }
}

/// The hints while a snippets popup is open; see [`snippet_popup_bar`].
fn snippet_popup_status(p: SnippetPopupKind) -> (r: StatusBar)
    ensures
        r@ == snippet_popup_bar(p),
{
    let hints = match p {
        SnippetPopupKind::Form => form_hints_vec(),
        SnippetPopupKind::DeleteConfirm => delete_hints_vec(),
        SnippetPopupKind::ParamInput => three_hints(
            "Tab",
            "next param",
            "Enter",
            "run",
            "Esc",
            "cancel",
        ),
        SnippetPopupKind::BroadcastPicker => {
            let mut v: Vec<(String, String)> = Vec::new();
            push_hint(&mut v, "j/k", "navigate");
            push_hint(&mut v, "Space", "toggle");
            push_hint(&mut v, "Enter", "run");
            push_hint(&mut v, "Esc", "cancel");
            assert(hints_view(v@) =~= seq![
                ("j/k"@, "navigate"@),
                ("Space"@, "toggle"@),
                ("Enter"@, "run"@),
                ("Esc"@, "cancel"@),
            ]);
            v
        },
        SnippetPopupKind::QuickExecuteInput => two_hints("Enter", "run", "Esc", "cancel"),
        SnippetPopupKind::Results => two_hints("j/k", "scroll", "Esc", "close"),
    };
    StatusBar::Hints { note: None, hints }
}

/// The hints while a file-manager popup is open; see [`file_popup_bar`].
fn file_popup_status(p: &FilePopupKind) -> (r: StatusBar)
    ensures
        r@ == file_popup_bar(*p),
{
    match p {
        FilePopupKind::HostPicker => StatusBar::Hints {
            note: None,
            hints: three_hints("j/k", "navigate", "Enter", "connect", "Esc", "cancel"),
        },
        FilePopupKind::DeleteConfirm => StatusBar::Hints { note: None, hints: delete_hints_vec() },
        FilePopupKind::NameInput => StatusBar::Hints {
            note: None,
            hints: two_hints("Enter", "confirm", "Esc", "cancel"),
        },
        FilePopupKind::TransferProgress { filename, percent } => {
            let mut n = owned("Transferring: ");
            push_str(&mut n, filename.as_str());
            push_str(&mut n, "  ");
            push_str(&mut n, fmt_u64(*percent).as_str());
            push_str(&mut n, "%");
            let v: Vec<(String, String)> = Vec::new();
            assert(hints_view(v@) =~= Seq::<(Seq<char>, Seq<char>)>::empty());
            StatusBar::Hints { note: Some(n), hints: v }
        },
    }
}

/// What the status bar shows when no alert is critical; see [`calm_bar`].
fn calm_status(s: &StatusInput) -> (r: StatusBar)
    ensures
        r@ == calm_bar(*s),
{
    match &s.status_message {
        Some(m) => {
            return StatusBar::Message(m.clone());
        },
        None => {},
    }
    if s.host_search {
        return StatusBar::Search {
            snippets: false,
            hints: two_hints("Enter", "confirm", "Esc", "clear"),
        };
    }
    match s.host_popup {
        Some(p) => {
            return host_popup_status(p);
        },
        None => {},
    }
    if s.snippet_search {
        return StatusBar::Search {
            snippets: true,
            hints: two_hints("Enter", "confirm", "Esc", "clear"),
        };
    }
    match s.snippet_popup {
        Some(p) => {
            return snippet_popup_status(p);
        },
        None => {},
    }
    if s.file_manager_screen {
        match &s.file_popup {
            Some(p) => {
                return file_popup_status(p);
            },
            None => {},
        }
    }
    if s.tag_popup_open {
        return StatusBar::Hints {
            note: None,
            hints: three_hints("j/k", "navigate", "Enter", "select", "Esc", "close"),
        };
    }
    StatusBar::Hints { note: None, hints: global_hints_vec() }
}

/// What the status bar shows: the first critical alert among `s.alerts`
/// with its suggested action, if any alert is critical; otherwise
/// [`calm_bar`].
pub fn status_bar(s: &StatusInput) -> (r: StatusBar)
    ensures
        has_critical(alerts_view(s.alerts@)) ==> exists|i: int|
            first_critical_at(alerts_view(s.alerts@), i) && r@ == (StatusBarView::Alert {
                message: alerts_view(s.alerts@)[i].message,
                action: alerts_view(s.alerts@)[i].suggested_action,
            }),
        !has_critical(alerts_view(s.alerts@)) ==> r@ == calm_bar(*s),
{
    let ghost av = alerts_view(s.alerts@);
    let mut i: usize = 0;
    while i < s.alerts.len()
        invariant
            i <= s.alerts@.len(),
            av == alerts_view(s.alerts@),
            forall|j: int| 0 <= j < i ==> (#[trigger] av[j]).severity != AlertSeverity::Critical,
        decreases s.alerts@.len() - i,
    {
        if s.alerts[i].severity == AlertSeverity::Critical {
            assert(first_critical_at(av, i as int));
            let a = &s.alerts[i];
            let action = match &a.suggested_action {
                Some(x) => Some(x.clone()),
                None => None,
            };
            return StatusBar::Alert { message: a.message.clone(), action };
        }
        i = i + 1;
    }
    assert(!has_critical(av)) by {
        assert forall|j: int| 0 <= j < av.len() implies (#[trigger] av[j]).severity
            != AlertSeverity::Critical by {}
    }
    calm_status(s)
}

} // verus!
