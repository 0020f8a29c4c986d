use omnyssh::config::snippets::{Snippet, SnippetScope};
use omnyssh::ui::snippets::{
    command_preview, list_window, snippet_popup_key, snippet_row, snippet_search_key, KeyInput,
    SnippetAction, SnippetPopup,
};

fn ch(c: char) -> KeyInput {
    KeyInput::Char { c, ctrl: false }
}

#[test]
fn list_window_keeps_the_selection_visible() {
    assert_eq!(list_window(3, 10, 5), (3, 0));
    assert_eq!(list_window(7, 10, 5), (7, 3));
    assert_eq!(list_window(25, 10, 5), (9, 5));
    assert_eq!(list_window(4, 0, 5), (0, 0));
    assert_eq!(list_window(2, 3, 0), (2, 3));
}

#[test]
fn command_preview_cuts_at_forty() {
    assert_eq!(command_preview("ls -la"), "ls -la");
    let long = "a".repeat(45);
    assert_eq!(command_preview(&long), format!("{}…", "a".repeat(40)));
    let exact = "b".repeat(40);
    assert_eq!(command_preview(&exact), exact);
    // 30 characters but more than 40 bytes: nothing cut, the mark still shown.
    let wide = "é".repeat(30);
    assert_eq!(command_preview(&wide), format!("{}…", wide));
}

#[test]
fn form_keys_go_to_the_form_and_esc_closes() {
    let mut p = Some(SnippetPopup::Form);
    assert!(matches!(snippet_popup_key(&mut p, KeyInput::Tab), Some(SnippetAction::FormFocusNext)));
    assert!(matches!(snippet_popup_key(&mut p, ch('x')), Some(SnippetAction::FormInsert('x'))));
    assert!(snippet_popup_key(&mut p, KeyInput::Char { c: 'x', ctrl: true }).is_none());
    assert!(matches!(
        snippet_popup_key(&mut p, KeyInput::Enter),
        Some(SnippetAction::ConfirmSnippetForm)
    ));
    assert!(p.is_some());
    assert!(snippet_popup_key(&mut p, KeyInput::Esc).is_none());
    assert!(p.is_none());
    assert!(snippet_popup_key(&mut p, KeyInput::Enter).is_none());
}

#[test]
fn param_fields_cycle_and_edit() {
    let mut p = Some(SnippetPopup::ParamInput {
        values: vec![String::new(), "ab".to_string()],
        focused: 0,
    });
    snippet_popup_key(&mut p, ch('v'));
    snippet_popup_key(&mut p, KeyInput::Tab);
    snippet_popup_key(&mut p, KeyInput::Backspace);
    match &p {
        Some(SnippetPopup::ParamInput { values, focused }) => {
            assert_eq!(values, &vec!["v".to_string(), "a".to_string()]);
            assert_eq!(*focused, 1);
        }
        _ => panic!("expected the parameter popup"),
    }
    snippet_popup_key(&mut p, KeyInput::Tab);
    snippet_popup_key(&mut p, KeyInput::BackTab);
    assert!(matches!(p, Some(SnippetPopup::ParamInput { focused: 1, .. })));
    assert!(matches!(
        snippet_popup_key(&mut p, KeyInput::Enter),
        Some(SnippetAction::ConfirmParamInput)
    ));
}

#[test]
fn broadcast_picker_moves_and_toggles() {
    let mut p = Some(SnippetPopup::BroadcastPicker { cursor: 0, snippet_idx: 3 });
    snippet_popup_key(&mut p, KeyInput::Up);
    snippet_popup_key(&mut p, ch('j'));
    snippet_popup_key(&mut p, KeyInput::Down);
    assert!(matches!(
        snippet_popup_key(&mut p, ch(' ')),
        Some(SnippetAction::ToggleBroadcastHost(2))
    ));
    assert!(matches!(snippet_popup_key(&mut p, KeyInput::Enter), Some(SnippetAction::ConfirmBroadcast)));
}

#[test]
fn quick_execute_trims_and_skips_empty() {
    let mut p = Some(SnippetPopup::QuickExecuteInput {
        host_name: "web".to_string(),
        command: " uptim".to_string(),
    });
    snippet_popup_key(&mut p, ch('e'));
    snippet_popup_key(&mut p, ch(' '));
    match snippet_popup_key(&mut p, KeyInput::Enter) {
        Some(SnippetAction::QuickExecute { host_name, command }) => {
            assert_eq!(host_name, "web");
            assert_eq!(command, "uptime");
        }
        other => panic!("unexpected {:?}", other),
    }
    assert!(p.is_none());
    let mut q = Some(SnippetPopup::QuickExecuteInput {
        host_name: "web".to_string(),
        command: "  ".to_string(),
    });
    assert!(snippet_popup_key(&mut q, KeyInput::Enter).is_none());
    assert!(q.is_none());
}

#[test]
fn results_scroll_and_dismiss() {
    let mut p = Some(SnippetPopup::Results { scroll: 1 });
    snippet_popup_key(&mut p, ch('k'));
    snippet_popup_key(&mut p, ch('k'));
    assert!(matches!(p, Some(SnippetPopup::Results { scroll: 0 })));
    assert!(matches!(
        snippet_popup_key(&mut p, ch('q')),
        Some(SnippetAction::DismissSnippetResult)
    ));
    let mut d = Some(SnippetPopup::DeleteConfirm);
    assert!(matches!(snippet_popup_key(&mut d, ch('y')), Some(SnippetAction::ConfirmSnippetDelete)));
    assert!(snippet_popup_key(&mut d, ch('n')).is_none());
    assert!(d.is_none());
}

#[test]
fn search_field_edits_and_leaves() {
    let mut mode = true;
    let mut query = String::from("ng");
    assert!(matches!(snippet_search_key(&mut mode, &mut query, ch('x')), Some(SnippetAction::SearchChanged)));
    assert_eq!(query, "ngx");
    assert!(matches!(
        snippet_search_key(&mut mode, &mut query, KeyInput::Backspace),
        Some(SnippetAction::SearchChanged)
    ));
    assert_eq!(query, "ng");
    assert!(snippet_search_key(&mut mode, &mut query, KeyInput::Char { c: 'a', ctrl: true }).is_none());
    assert!(mode);
    assert!(snippet_search_key(&mut mode, &mut query, KeyInput::Enter).is_none());
    assert!(!mode);
    assert_eq!(query, "ng");
    mode = true;
    assert!(matches!(
        snippet_search_key(&mut mode, &mut query, KeyInput::Esc),
        Some(SnippetAction::SearchChanged)
    ));
    assert!(!mode);
    assert_eq!(query, "");
}

#[test]
fn snippet_row_spans() {
    let s = Snippet {
        name: "restart".to_string(),
        command: "systemctl restart {{service}}".to_string(),
        scope: SnippetScope::Host,
        host: Some("web".to_string()),
        tags: Some(vec!["ops".to_string(), "svc".to_string()]),
        params: Some(vec!["service".to_string()]),
    };
    let r = snippet_row(&s);
    assert_eq!(r.scope, "  [host");
    assert_eq!(r.host, ":web]  ");
    assert_eq!(r.name, format!("{:<28}", "restart"));
    assert_eq!(r.command, "  systemctl restart {{service}}");
    assert_eq!(r.params, " {…service…}");
    assert_eq!(r.tags, "  [ops] [svc]");
    let g = Snippet {
        name: "a-name-longer-than-twenty-eight-chars".to_string(),
        command: "ls".to_string(),
        scope: SnippetScope::Global,
        host: None,
        tags: None,
        params: Some(vec![]),
    };
    let r = snippet_row(&g);
    assert_eq!(r.scope, "  [global");
    assert_eq!(r.host, "]  ");
    assert_eq!(r.name, "a-name-longer-than-twenty-eight-chars");
    assert_eq!(r.params, "");
    assert_eq!(r.tags, "");
}
