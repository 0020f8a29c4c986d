//! The Snippets screen: the list window, command previews and the keys of
//! its popups (forms, delete confirmation, parameters, broadcast picker,
//! quick execute, results).

use vstd::prelude::*;

use crate::config::snippets::{Snippet, SnippetScope};
use crate::text::{
    chars_of, join, join_strings, owned, push_char, push_str, string_of, string_views, trim,
    trim_chars,
};

verus! {

// ---------------------------------------------------------------------------
// The list
// ---------------------------------------------------------------------------

/// The selected row clamped to the list, and the first row shown so that
/// the selected one is visible in `height` rows.
pub open spec fn list_window_of(selected: int, len: int, height: int) -> (int, int) {
    let last = if len > 0 {
        len - 1
    } else {
        0
    };
    let sel = if selected < last {
        selected
    } else {
        last
    };
    (sel, if sel >= height {
        sel - height + 1
    } else {
        0
    })
}

/// The selected row and the scroll offset of a list of `len` rows shown
/// `height` rows at a time; see [`list_window_of`].
pub fn list_window(selected: usize, len: usize, height: usize) -> (r: (usize, usize))
    ensures
        (r.0 as int, r.1 as int) == list_window_of(selected as int, len as int, height as int),
{
    let last = if len > 0 {
        len - 1
    } else {
        0
    };
    let sel = if selected < last {
        selected
    } else {
        last
    };
    let offset = if sel >= height {
        sel - height + 1
    } else {
        0
    };
    (sel, offset)
}

/// A command as the list shows it: its first 40 characters, and `…` after
/// them when the command is longer than 40 bytes.
pub open spec fn preview_of(cmd: Seq<char>) -> Seq<char> {
    let head = if cmd.len() > 40 {
        cmd.take(40)
    } else {
        cmd
    };
    if vstd::utf8::encode_utf8(cmd).len() > 40 {
        head.push('…')
    } else {
        head
    }
}

/// The command preview of a list row; see [`preview_of`].
pub fn command_preview(cmd: &str) -> (r: String)
    requires
        vstd::utf8::encode_utf8(cmd@).len() <= usize::MAX,
    ensures
        r@ == preview_of(cmd@),
{
    let v = chars_of(cmd);
    let mut r = String::new();
    let mut i: usize = 0;
    while i < v.len() && i < 40
        invariant
            i <= v.len(),
            i <= 40,
            v@ == cmd@,
            r@ == v@.take(i as int),
        decreases v.len() - i,
    {
        push_char(&mut r, v[i]);
        i = i + 1;
        assert(r@ =~= v@.take(i as int));
    }
    assert(r@ =~= (if cmd@.len() > 40 {
        cmd@.take(40)
    } else {
        cmd@
    }));
    if cmd.len() > 40 {
        push_char(&mut r, '…');
    }
    r
}

/// A list row of a snippet, in the spans it is drawn with: the scope badge,
/// the host part, the name padded to 28 characters, the command preview,
/// the parameter names and the tags.
pub struct SnippetRow {
    pub scope: String,
    pub host: String,
    pub name: String,
    pub command: String,
    pub params: String,
    pub tags: String,
}

/// The texts of an optional list (none for `None`).
pub open spec fn opt_texts(v: Option<Vec<String>>) -> Seq<Seq<char>> {
    match v {
        Some(x) => texts(x@),
        None => Seq::empty(),
    }
}

/// `s` padded with spaces to `w` characters.
pub open spec fn padded(s: Seq<char>, w: nat) -> Seq<char> {
    if s.len() < w {
        s + Seq::new((w - s.len()) as nat, |i: int| ' ')
    } else {
        s
    }
}

/// Each text between square brackets.
pub open spec fn bracketed(ts: Seq<Seq<char>>) -> Seq<Seq<char>> {
    Seq::new(ts.len(), |i: int| "["@ + ts[i] + "]"@)
}

/// The spans of a snippet's list row.
pub open spec fn row_of(s: Snippet) -> (Seq<char>, Seq<char>, Seq<char>, Seq<char>, Seq<char>, Seq<char>) {
    let params = opt_texts(s.params);
    let tags = join(bracketed(opt_texts(s.tags)), " "@);
    (
        if s.scope == SnippetScope::Global {
            "  [global"@
        } else {
            "  [host"@
        },
        if s.scope == SnippetScope::Host {
            ":"@ + (match s.host {
                Some(h) => h@,
                None => "?"@,
            }) + "]  "@
        } else {
            "]  "@
        },
        padded(s.name@, 28),
        "  "@ + preview_of(s.command@),
        if params.len() == 0 {
            Seq::empty()
        } else {
            " {…"@ + join(params, ", "@) + "…}"@
        },
        if tags.len() == 0 {
            Seq::empty()
        } else {
            "  "@ + tags
        },
    )
}

/// The spans of a snippet's list row; see [`row_of`].
pub fn snippet_row(s: &Snippet) -> (r: SnippetRow)
    requires
        vstd::utf8::encode_utf8(s.command@).len() <= usize::MAX,
    ensures
        (r.scope@, r.host@, r.name@, r.command@, r.params@, r.tags@) == row_of(*s),
{
    let scope = match s.scope {
        SnippetScope::Global => owned("  [global"),
        SnippetScope::Host => owned("  [host"),
    };
    let host = match s.scope {
        SnippetScope::Host => {
            let mut h = owned(":");
            match &s.host {
                Some(x) => push_str(&mut h, x.as_str()),
                None => push_str(&mut h, "?"),
            }
            push_str(&mut h, "]  ");
            h
        },
        SnippetScope::Global => owned("]  "),
    };
    let nv = chars_of(s.name.as_str());
    let mut name = string_of(&nv);
    let mut k: usize = nv.len();
    while k < 28
        invariant
            nv@ == s.name@,
            nv.len() <= k <= 28 || (k == nv.len() && k >= 28),
            name@ == nv@ + Seq::new((k - nv.len()) as nat, |i: int| ' '),
        decreases 28 - k,
    {
        push_char(&mut name, ' ');
        k = k + 1;
        assert(name@ =~= nv@ + Seq::new((k - nv.len()) as nat, |i: int| ' '));
    }
    assert(name@ =~= padded(s.name@, 28));
    let mut command = owned("  ");
    push_str(&mut command, command_preview(s.command.as_str()).as_str());
    let empty: Vec<String> = Vec::new();
    let pv: &Vec<String> = match &s.params {
        Some(p) => p,
        None => &empty,
    };
    assert(texts(pv@) == opt_texts(s.params)) by {
        assert(texts(empty@) =~= Seq::<Seq<char>>::empty());
    }
    let params = if pv.len() == 0 {
        String::new()
    } else {
        let mut p = owned(" {…");
        let names = join_strings(pv, ", ");
        assert(string_views(pv@) =~= texts(pv@));
        push_str(&mut p, names.as_str());
        push_str(&mut p, "…}");
        p
    };
    let tv: &Vec<String> = match &s.tags {
        Some(t) => t,
        None => &empty,
    };
    assert(texts(tv@) == opt_texts(s.tags)) by {
        assert(texts(empty@) =~= Seq::<Seq<char>>::empty());
    }
    let mut wrapped: Vec<String> = Vec::new();
    let mut j: usize = 0;
    while j < tv.len()
        invariant
            j <= tv@.len(),
            string_views(wrapped@) == bracketed(texts(tv@)).take(j as int),
        decreases tv@.len() - j,
    {
        let mut b = owned("[");
        push_str(&mut b, tv[j].as_str());
        push_str(&mut b, "]");
        let ghost w0 = string_views(wrapped@);
        let ghost br = bracketed(texts(tv@));
        assert(b@ == br[j as int]);
        wrapped.push(b);
        assert(string_views(wrapped@) =~= w0.push(b@));
        assert(br.take(j + 1) =~= br.take(j as int).push(br[j as int]));
        j = j + 1;
    }
    assert(bracketed(texts(tv@)).take(tv@.len() as int) =~= bracketed(texts(tv@)));
    let joined_tags = join_strings(&wrapped, " ");
    let jv = chars_of(joined_tags.as_str());
    let tags = if jv.len() == 0 {
        String::new()
    } else {
        let mut t = owned("  ");
        push_str(&mut t, joined_tags.as_str());
        t
    };
    SnippetRow { scope, host, name, command, params, tags }
}

// ---------------------------------------------------------------------------
// Popup keys
// ---------------------------------------------------------------------------

/// A key press, as far as the popups tell keys apart.
#[derive(Debug, Clone, Copy, PartialEq, Eq, Structural)]
pub enum KeyInput {
    /// A character; `ctrl` when Control was held.
    Char { c: char, ctrl: bool },
    Enter,
    Esc,
    Tab,
    BackTab,
    Backspace,
    Up,
    Down,
    Left,
    Right,
    /// Any other key.
    Other,
}

/// A popup of the Snippets screen with what its keys act on. The text of
/// the parameter fields and of the quick command is edited at its end: no
/// key of these popups moves a cursor.
#[derive(Debug, Clone)]
pub enum SnippetPopup {
    /// The add or edit form; its fields and focus are the form's own.
    Form,
    DeleteConfirm,
    ParamInput { values: Vec<String>, focused: usize },
    BroadcastPicker { cursor: usize, snippet_idx: usize },
    QuickExecuteInput { host_name: String, command: String },
    Results { scroll: usize },
}

/// What a key in a popup asks of the application.
#[derive(Debug, Clone)]
pub enum SnippetAction {
    ConfirmSnippetForm,
    ConfirmSnippetDelete,
    ConfirmParamInput,
    ToggleBroadcastHost(usize),
    ConfirmBroadcast,
    QuickExecute { host_name: String, command: String },
    DismissSnippetResult,
    /// Move the form's focus to its next field.
    FormFocusNext,
    /// Move the form's focus to its previous field.
    FormFocusPrev,
    /// Type a character into the form's focused field.
    FormInsert(char),
    /// Delete before the cursor in the form's focused field.
    FormBackspace,
    /// The search text changed: filter the list again.
    SearchChanged,
    /// Move the list selection down.
    SelectNext,
    /// Move the list selection up.
    SelectPrev,
    OpenSnippetAdd,
    OpenSnippetEdit,
    OpenSnippetDeleteConfirm,
    /// Run the snippet at this index, on no chosen hosts.
    ExecuteSnippet(usize),
    OpenBroadcastPicker,
}

/// [`SnippetPopup`] as text.
pub ghost enum PopupView {
    Form,
    DeleteConfirm,
    ParamInput { values: Seq<Seq<char>>, focused: int },
    BroadcastPicker { cursor: int, snippet_idx: int },
    QuickExecuteInput { host_name: Seq<char>, command: Seq<char> },
    Results { scroll: int },
}

/// [`SnippetAction`] as text.
pub ghost enum ActionView {
    ConfirmSnippetForm,
    ConfirmSnippetDelete,
    ConfirmParamInput,
    ToggleBroadcastHost(int),
    ConfirmBroadcast,
    QuickExecute { host_name: Seq<char>, command: Seq<char> },
    DismissSnippetResult,
    FormFocusNext,
    FormFocusPrev,
    FormInsert(char),
    FormBackspace,
    SearchChanged,
    SelectNext,
    SelectPrev,
    OpenSnippetAdd,
    OpenSnippetEdit,
    OpenSnippetDeleteConfirm,
    ExecuteSnippet(int),
    OpenBroadcastPicker,
}

/// The text of a list of strings.
pub open spec fn texts(v: Seq<String>) -> Seq<Seq<char>> {
    Seq::new(v.len(), |i: int| v[i]@)
}

impl View for SnippetPopup {
    type V = PopupView;

    open spec fn view(&self) -> PopupView {
        match self {
            SnippetPopup::Form => PopupView::Form,
            SnippetPopup::DeleteConfirm => PopupView::DeleteConfirm,
            SnippetPopup::ParamInput { values, focused } => PopupView::ParamInput {
                values: texts(values@),
                focused: *focused as int,
            },
            SnippetPopup::BroadcastPicker { cursor, snippet_idx } => PopupView::BroadcastPicker {
                cursor: *cursor as int,
                snippet_idx: *snippet_idx as int,
            },
            SnippetPopup::QuickExecuteInput { host_name, command } => PopupView::QuickExecuteInput {
                host_name: host_name@,
                command: command@,
            },
            SnippetPopup::Results { scroll } => PopupView::Results { scroll: *scroll as int },
        }
    }
}

impl View for SnippetAction {
    type V = ActionView;

    open spec fn view(&self) -> ActionView {
        match self {
            SnippetAction::ConfirmSnippetForm => ActionView::ConfirmSnippetForm,
            SnippetAction::ConfirmSnippetDelete => ActionView::ConfirmSnippetDelete,
            SnippetAction::ConfirmParamInput => ActionView::ConfirmParamInput,
            SnippetAction::ToggleBroadcastHost(i) => ActionView::ToggleBroadcastHost(*i as int),
            SnippetAction::ConfirmBroadcast => ActionView::ConfirmBroadcast,
            SnippetAction::QuickExecute { host_name, command } => ActionView::QuickExecute {
                host_name: host_name@,
                command: command@,
            },
            SnippetAction::DismissSnippetResult => ActionView::DismissSnippetResult,
            SnippetAction::FormFocusNext => ActionView::FormFocusNext,
            SnippetAction::FormFocusPrev => ActionView::FormFocusPrev,
            SnippetAction::FormInsert(c) => ActionView::FormInsert(*c),
            SnippetAction::FormBackspace => ActionView::FormBackspace,
            SnippetAction::SearchChanged => ActionView::SearchChanged,
            SnippetAction::SelectNext => ActionView::SelectNext,
            SnippetAction::SelectPrev => ActionView::SelectPrev,
            SnippetAction::OpenSnippetAdd => ActionView::OpenSnippetAdd,
            SnippetAction::OpenSnippetEdit => ActionView::OpenSnippetEdit,
            SnippetAction::OpenSnippetDeleteConfirm => ActionView::OpenSnippetDeleteConfirm,
            SnippetAction::ExecuteSnippet(i) => ActionView::ExecuteSnippet(*i as int),
            SnippetAction::OpenBroadcastPicker => ActionView::OpenBroadcastPicker,
        }
    }
}

/// The view of an optional popup.
pub open spec fn popup_view(p: Option<SnippetPopup>) -> Option<PopupView> {
    match p {
        Some(x) => Some(x@),
        None => None,
    }
}

/// The view of an optional action.
pub open spec fn action_view(a: Option<SnippetAction>) -> Option<ActionView> {
    match a {
        Some(x) => Some(x@),
        None => None,
    }
}

/// A character typed without Control.
pub open spec fn typed(k: KeyInput) -> Option<char> {
    match k {
        KeyInput::Char { c, ctrl } => if ctrl {
            None
        } else {
            Some(c)
        },
        _ => None,
    }
}

/// `s` without its last character (unchanged when empty).
pub open spec fn backspaced(s: Seq<char>) -> Seq<char> {
    if s.len() > 0 {
        s.drop_last()
    } else {
        s
    }
}

/// A key in an open popup: the popup afterwards (`None` once closed) and
/// the action asked of the application.
pub open spec fn popup_step(p: PopupView, k: KeyInput) -> (Option<PopupView>, Option<ActionView>) {
    match p {
        PopupView::Form => match k {
            KeyInput::Esc => (None, None),
            KeyInput::Enter => (Some(p), Some(ActionView::ConfirmSnippetForm)),
            KeyInput::Tab => (Some(p), Some(ActionView::FormFocusNext)),
            KeyInput::BackTab => (Some(p), Some(ActionView::FormFocusPrev)),
            KeyInput::Backspace => (Some(p), Some(ActionView::FormBackspace)),
            _ => match typed(k) {
                Some(c) => (Some(p), Some(ActionView::FormInsert(c))),
                None => (Some(p), None),
            },
        },
        PopupView::DeleteConfirm => match k {
            KeyInput::Char { c: 'y', .. } => (Some(p), Some(ActionView::ConfirmSnippetDelete)),
            KeyInput::Char { c: 'n', .. } | KeyInput::Esc => (None, None),
            _ => (Some(p), None),
        },
        PopupView::ParamInput { values, focused } => {
            let n = values.len() as int;
            match k {
                KeyInput::Enter => (Some(p), Some(ActionView::ConfirmParamInput)),
                KeyInput::Esc => (None, None),
                KeyInput::Tab => (
                    Some(PopupView::ParamInput {
                        values,
                        focused: (focused + 1) % (if n > 1 {
                            n
                        } else {
                            1
                        }),
                    }),
                    None,
                ),
                KeyInput::BackTab => (
                    Some(PopupView::ParamInput {
                        values,
                        focused: if focused == 0 {
                            if n > 0 {
                                n - 1
                            } else {
                                0
                            }
                        } else {
                            focused - 1
                        },
                    }),
                    None,
                ),
                KeyInput::Backspace => (
                    Some(PopupView::ParamInput {
                        values: values.update(focused, backspaced(values[focused])),
                        focused,
                    }),
                    None,
                ),
                _ => match typed(k) {
                    Some(c) => (
                        Some(PopupView::ParamInput {
                            values: values.update(focused, values[focused].push(c)),
                            focused,
                        }),
                        None,
                    ),
                    None => (Some(p), None),
                },
            }
        },
        PopupView::BroadcastPicker { cursor, snippet_idx } => match k {
            KeyInput::Char { c: 'j', .. } | KeyInput::Down => (
                Some(PopupView::BroadcastPicker {
                    cursor: if cursor < usize::MAX {
                        cursor + 1
                    } else {
                        cursor
                    },
                    snippet_idx,
                }),
                None,
            ),
            KeyInput::Char { c: 'k', .. } | KeyInput::Up => (
                Some(PopupView::BroadcastPicker {
                    cursor: if cursor > 0 {
                        cursor - 1
                    } else {
                        0
                    },
                    snippet_idx,
                }),
                None,
            ),
            KeyInput::Char { c: ' ', .. } => (Some(p), Some(ActionView::ToggleBroadcastHost(cursor))),
            KeyInput::Enter => (Some(p), Some(ActionView::ConfirmBroadcast)),
            KeyInput::Esc => (None, None),
            _ => (Some(p), None),
        },
        PopupView::QuickExecuteInput { host_name, command } => match k {
            KeyInput::Enter => (
                None,
                if trim(command).len() == 0 {
                    None
                } else {
                    Some(ActionView::QuickExecute { host_name, command: trim(command) })
                },
            ),
            KeyInput::Esc => (None, None),
            KeyInput::Backspace => (
                Some(PopupView::QuickExecuteInput { host_name, command: backspaced(command) }),
                None,
            ),
            _ => match typed(k) {
                Some(c) => (
                    Some(PopupView::QuickExecuteInput { host_name, command: command.push(c) }),
                    None,
                ),
                None => (Some(p), None),
            },
        },
        PopupView::Results { scroll } => match k {
            KeyInput::Char { c: 'j', .. } | KeyInput::Down => (
                Some(PopupView::Results {
                    scroll: if scroll < usize::MAX {
                        scroll + 1
                    } else {
                        scroll
                    },
                }),
                None,
            ),
            KeyInput::Char { c: 'k', .. } | KeyInput::Up => (
                Some(PopupView::Results {
                    scroll: if scroll > 0 {
                        scroll - 1
                    } else {
                        0
                    },
                }),
                None,
            ),
            KeyInput::Esc | KeyInput::Enter | KeyInput::Char { c: 'q', .. } => (
                Some(p),
                Some(ActionView::DismissSnippetResult),
            ),
            _ => (Some(p), None),
        },
    }
}

/// The keys a popup can take: in a parameter popup, Tab moves past a
/// focus below the largest index, and an edit needs a focused field.
pub open spec fn key_defined(p: PopupView, k: KeyInput) -> bool {
    p matches PopupView::ParamInput { values, focused } ==> {
        &&& (k is Tab ==> focused < usize::MAX)
        &&& ((k is Backspace || typed(k) is Some) ==> focused < values.len())
    }
}

proof fn lemma_texts_update(v: Seq<String>, i: int, s: String)
    requires
        0 <= i < v.len(),
    ensures
        texts(v.update(i, s)) == texts(v).update(i, s@),
{
    assert(texts(v.update(i, s)) =~= texts(v).update(i, s@));
}

/// `s` without its last character.
fn backspace_text(s: &String) -> (r: String)
    ensures
        r@ == backspaced(s@),
{
    let v = chars_of(s.as_str());
    let mut r = String::new();
    let n: usize = if v.len() > 0 {
        v.len() - 1
    } else {
        0
    };
    let mut i: usize = 0;
    while i < n
        invariant
            i <= n,
            n == (if v@.len() > 0 {
                v@.len() - 1
            } else {
                0
            }),
            v@ == s@,
            r@ == v@.take(i as int),
        decreases n - i,
    {
        push_char(&mut r, v[i]);
        i = i + 1;
        assert(r@ =~= v@.take(i as int));
    }
    assert(r@ =~= backspaced(s@));
    r
}

/// A key pressed while the Snippets screen shows `popup`: updates the
/// popup (`None` once it closes) and returns what the key asks of the
/// application; see [`popup_step`]. Without a popup, nothing happens.
pub fn snippet_popup_key(popup: &mut Option<SnippetPopup>, key: KeyInput) -> (r: Option<
    SnippetAction,
>)
    requires
        *old(popup) matches Some(p) ==> key_defined(p@, key),
    ensures
        *old(popup) is None ==> *final(popup) is None && r is None,
        *old(popup) matches Some(p) ==> (popup_view(*final(popup)), action_view(r)) == popup_step(
            p@,
            key,
        ),
{
    let cur = popup.take();
    match cur {
        None => None,
        Some(p) => {
            let (next, action) = popup_key_step(p, key);
            *popup = next;
            action
        },
    }
}

/// [`popup_step`] on an open popup.
fn popup_key_step(p: SnippetPopup, key: KeyInput) -> (r: (Option<SnippetPopup>, Option<SnippetAction>))
    requires
        key_defined(p@, key),
    ensures
        (popup_view(r.0), action_view(r.1)) == popup_step(p@, key),
{
    match p {
        SnippetPopup::Form => {
            let a = match key {
                KeyInput::Esc => {
                    return (None, None);
                },
                KeyInput::Enter => Some(SnippetAction::ConfirmSnippetForm),
                KeyInput::Tab => Some(SnippetAction::FormFocusNext),
                KeyInput::BackTab => Some(SnippetAction::FormFocusPrev),
                KeyInput::Backspace => Some(SnippetAction::FormBackspace),
                KeyInput::Char { c, ctrl } => if ctrl {
                    None
                } else {
                    Some(SnippetAction::FormInsert(c))
                },
                _ => None,
            };
            (Some(SnippetPopup::Form), a)
        },
        SnippetPopup::DeleteConfirm => match key {
            KeyInput::Char { c, ctrl: _ } => if c == 'y' {
                (Some(SnippetPopup::DeleteConfirm), Some(SnippetAction::ConfirmSnippetDelete))
            } else if c == 'n' {
                (None, None)
            } else {
                (Some(SnippetPopup::DeleteConfirm), None)
            },
            KeyInput::Esc => (None, None),
            _ => (Some(SnippetPopup::DeleteConfirm), None),
        },
        SnippetPopup::ParamInput { values, focused } => {
            let n = values.len();
            match key {
                KeyInput::Enter => (
                    Some(SnippetPopup::ParamInput { values, focused }),
                    Some(SnippetAction::ConfirmParamInput),
                ),
                KeyInput::Esc => (None, None),
                KeyInput::Tab => {
                    let m = if n > 1 {
                        n
                    } else {
                        1
                    };
                    (Some(SnippetPopup::ParamInput { values, focused: (focused + 1) % m }), None)
                },
                KeyInput::BackTab => {
                    let f = if focused == 0 {
                        if n > 0 {
                            n - 1
                        } else {
                            0
                        }
                    } else {
                        focused - 1
                    };
                    (Some(SnippetPopup::ParamInput { values, focused: f }), None)
                },
                KeyInput::Backspace => {
                    let mut values = values;
                    let t = backspace_text(&values[focused]);
                    proof {
                        lemma_texts_update(values@, focused as int, t);
                    }
                    values.set(focused, t);
                    (Some(SnippetPopup::ParamInput { values, focused }), None)
                },
                KeyInput::Char { c, ctrl } => {
                    if ctrl {
                        (Some(SnippetPopup::ParamInput { values, focused }), None)
                    } else {
                        let mut values = values;
                        let mut t = values[focused].clone();
                        push_char(&mut t, c);
                        proof {
                            lemma_texts_update(values@, focused as int, t);
                        }
                        values.set(focused, t);
                        (Some(SnippetPopup::ParamInput { values, focused }), None)
                    }
                },
                _ => (Some(SnippetPopup::ParamInput { values, focused }), None),
            }
        },
        SnippetPopup::BroadcastPicker { cursor, snippet_idx } => match key {
            KeyInput::Char { c, ctrl: _ } => if c == 'j' {
                (Some(SnippetPopup::BroadcastPicker { cursor: cursor.saturating_add(1), snippet_idx }), None)
            } else if c == 'k' {
                (Some(SnippetPopup::BroadcastPicker { cursor: cursor.saturating_sub(1), snippet_idx }), None)
            } else if c == ' ' {
                (
                    Some(SnippetPopup::BroadcastPicker { cursor, snippet_idx }),
                    Some(SnippetAction::ToggleBroadcastHost(cursor)),
                )
            } else {
                (Some(SnippetPopup::BroadcastPicker { cursor, snippet_idx }), None)
            },
            KeyInput::Down => (
                Some(SnippetPopup::BroadcastPicker { cursor: cursor.saturating_add(1), snippet_idx }),
                None,
            ),
            KeyInput::Up => (
                Some(SnippetPopup::BroadcastPicker { cursor: cursor.saturating_sub(1), snippet_idx }),
                None,
            ),
            KeyInput::Enter => (
                Some(SnippetPopup::BroadcastPicker { cursor, snippet_idx }),
                Some(SnippetAction::ConfirmBroadcast),
            ),
            KeyInput::Esc => (None, None),
            _ => (Some(SnippetPopup::BroadcastPicker { cursor, snippet_idx }), None),
        },
        SnippetPopup::QuickExecuteInput { host_name, command } => match key {
            KeyInput::Enter => {
                let v = chars_of(command.as_str());
                let t = trim_chars(&v);
                if t.len() == 0 {
                    (None, None)
                } else {
                    (None, Some(SnippetAction::QuickExecute { host_name, command: string_of(&t) }))
                }
            },
            KeyInput::Esc => (None, None),
            KeyInput::Backspace => {
                let c2 = backspace_text(&command);
                (Some(SnippetPopup::QuickExecuteInput { host_name, command: c2 }), None)
            },
            KeyInput::Char { c, ctrl } => {
                if ctrl {
                    (Some(SnippetPopup::QuickExecuteInput { host_name, command }), None)
                } else {
                    let mut command = command;
                    push_char(&mut command, c);
                    (Some(SnippetPopup::QuickExecuteInput { host_name, command }), None)
                }
            },
            _ => (Some(SnippetPopup::QuickExecuteInput { host_name, command }), None),
        },
        SnippetPopup::Results { scroll } => match key {
            KeyInput::Char { c, ctrl: _ } => if c == 'j' {
                (Some(SnippetPopup::Results { scroll: scroll.saturating_add(1) }), None)
            } else if c == 'k' {
                (Some(SnippetPopup::Results { scroll: scroll.saturating_sub(1) }), None)
            } else if c == 'q' {
                (Some(SnippetPopup::Results { scroll }), Some(SnippetAction::DismissSnippetResult))
            } else {
                (Some(SnippetPopup::Results { scroll }), None)
            },
            KeyInput::Down => (Some(SnippetPopup::Results { scroll: scroll.saturating_add(1) }), None),
            KeyInput::Up => (Some(SnippetPopup::Results { scroll: scroll.saturating_sub(1) }), None),
            KeyInput::Esc | KeyInput::Enter => (
                Some(SnippetPopup::Results { scroll }),
                Some(SnippetAction::DismissSnippetResult),
            ),
            _ => (Some(SnippetPopup::Results { scroll }), None),
        },
    }
}

/// A key while the snippets search field has the keyboard, on the search
/// text `query`: whether the field gives up the keyboard, the text
/// afterwards, and whether the list must be filtered again. Esc clears the text and
/// leaves the field, Enter leaves it, Backspace deletes the last
/// character, a character typed without Control is appended.
pub open spec fn search_step(query: Seq<char>, k: KeyInput) -> (bool, Seq<char>, bool) {
    match k {
        KeyInput::Esc => (true, Seq::empty(), true),
        KeyInput::Enter => (true, query, false),
        KeyInput::Backspace => (false, backspaced(query), true),
        _ => match typed(k) {
            Some(c) => (false, query.push(c), true),
            None => (false, query, false),
        },
    }
}

/// A key in the snippets search field; see [`search_step`]. Returns
/// `SearchChanged` when the list must be filtered again.
pub fn snippet_search_key(search_mode: &mut bool, query: &mut String, key: KeyInput) -> (r: Option<
    SnippetAction,
>)
    ensures
        ({
            let (leaves, q, changed) = search_step(old(query)@, key);
            &&& *final(search_mode) == (if leaves {
                false
            } else {
                *old(search_mode)
            })
            &&& final(query)@ == q
            &&& action_view(r) == (if changed {
                Some(ActionView::SearchChanged)
            } else {
                None
            })
        }),
{
    match key {
        KeyInput::Esc => {
            *search_mode = false;
            *query = String::new();
            Some(SnippetAction::SearchChanged)
        },
        KeyInput::Enter => {
            *search_mode = false;
            None
        },
        KeyInput::Backspace => {
            let t = backspace_text(query);
            *query = t;
            Some(SnippetAction::SearchChanged)
        },
        KeyInput::Char { c, ctrl } => {
            if ctrl {
                None
            } else {
                push_char(query, c);
                Some(SnippetAction::SearchChanged)
            }
        },
        _ => None,
    }
}

/// `c` typed, with or without Control.
pub open spec fn pressed(k: KeyInput, c: char) -> bool {
    k matches KeyInput::Char { c: x, .. } && x == c
}

/// A key on the Snippets list with no popup and no search field open,
/// `selected` being the index of the selected snippet if any; the search
/// text `query` is cleared by Esc. Returns whether the search field takes
/// the keyboard, the search text, and the action.
pub open spec fn list_step(query: Seq<char>, k: KeyInput, selected: Option<usize>) -> (
    bool,
    Seq<char>,
    Option<ActionView>,
) {
    if pressed(k, 'j') || k == KeyInput::Down {
        (false, query, Some(ActionView::SelectNext))
    } else if pressed(k, 'k') || k == KeyInput::Up {
        (false, query, Some(ActionView::SelectPrev))
    } else if pressed(k, 'n') || pressed(k, 'a') {
        (false, query, Some(ActionView::OpenSnippetAdd))
    } else if pressed(k, 'e') {
        (false, query, Some(ActionView::OpenSnippetEdit))
    } else if pressed(k, 'd') {
        (false, query, Some(ActionView::OpenSnippetDeleteConfirm))
    } else if k == KeyInput::Enter || pressed(k, 'x') {
        (
            false,
            query,
            match selected {
                Some(i) => Some(ActionView::ExecuteSnippet(i as int)),
                None => None,
            },
        )
    } else if pressed(k, 'b') {
        (false, query, Some(ActionView::OpenBroadcastPicker))
    } else if pressed(k, '/') {
        (true, query, None)
    } else if k == KeyInput::Esc && query.len() > 0 {
        (false, Seq::empty(), Some(ActionView::SearchChanged))
    } else {
        (false, query, None)
    }
}

fn pressed_exec(k: KeyInput, c: char) -> (r: bool)
    ensures
        r == pressed(k, c),
{
    match k {
        KeyInput::Char { c: x, .. } => x == c,
        _ => false,
    }
}

/// A key on the Snippets screen: the search field takes it when open (see
/// [`search_step`]), else an open popup (see [`popup_step`]), else the list
/// (see [`list_step`]).
pub fn snippets_key(
    search_mode: &mut bool,
    query: &mut String,
    popup: &mut Option<SnippetPopup>,
    key: KeyInput,
    selected: Option<usize>,
) -> (r: Option<SnippetAction>)
    requires
        !*old(search_mode) ==> (*old(popup) matches Some(p) ==> key_defined(p@, key)),
    ensures
        *old(search_mode) ==> ({
            let (leaves, q, changed) = search_step(old(query)@, key);
            &&& *final(search_mode) == !leaves
            &&& final(query)@ == q
            &&& *final(popup) == *old(popup)
            &&& action_view(r) == (if changed {
                Some(ActionView::SearchChanged)
            } else {
                None
            })
        }),
        !*old(search_mode) && *old(popup) is Some ==> ({
            &&& (popup_view(*final(popup)), action_view(r)) == popup_step(old(popup)->0@, key)
            &&& !*final(search_mode)
            &&& final(query)@ == old(query)@
        }),
        !*old(search_mode) && *old(popup) is None ==> ({
            let (m, q, a) = list_step(old(query)@, key, selected);
            &&& *final(search_mode) == m
            &&& final(query)@ == q
            &&& *final(popup) is None
            &&& action_view(r) == a
        }),
{
    if *search_mode {
        return snippet_search_key(search_mode, query, key);
    }
    if popup.is_some() {
        return snippet_popup_key(popup, key);
    }
    if pressed_exec(key, 'j') || key == KeyInput::Down {
        Some(SnippetAction::SelectNext)
    } else if pressed_exec(key, 'k') || key == KeyInput::Up {
        Some(SnippetAction::SelectPrev)
    } else if pressed_exec(key, 'n') || pressed_exec(key, 'a') {
        Some(SnippetAction::OpenSnippetAdd)
    } else if pressed_exec(key, 'e') {
        Some(SnippetAction::OpenSnippetEdit)
    } else if pressed_exec(key, 'd') {
        Some(SnippetAction::OpenSnippetDeleteConfirm)
    } else if key == KeyInput::Enter || pressed_exec(key, 'x') {
        match selected {
            Some(i) => Some(SnippetAction::ExecuteSnippet(i)),
            None => None,
        }
    } else if pressed_exec(key, 'b') {
        Some(SnippetAction::OpenBroadcastPicker)
    } else if pressed_exec(key, '/') {
        *search_mode = true;
        None
    } else if key == KeyInput::Esc && chars_of(query.as_str()).len() > 0 {
        *query = String::new();
        Some(SnippetAction::SearchChanged)
    } else {
        None
    }
}

} // verus!
