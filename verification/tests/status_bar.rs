use omnyssh::event::{AlertSeverity, ServiceKind};
use omnyssh::ssh::services::alert;
use omnyssh::ui::status_bar::{
    status_bar, FilePopupKind, HostPopupKind, SnippetPopupKind, StatusBar, StatusInput,
};

fn calm() -> StatusInput {
    StatusInput {
        alerts: vec![],
        status_message: None,
        host_search: false,
        host_popup: None,
        snippet_search: false,
        snippet_popup: None,
        file_manager_screen: false,
        file_popup: None,
        tag_popup_open: false,
    }
}

fn keys(bar: &StatusBar) -> Vec<String> {
    match bar {
        StatusBar::Hints { hints, .. } | StatusBar::Search { hints, .. } => {
            hints.iter().map(|(k, w)| format!("{}:{}", k, w)).collect()
        }
        _ => vec![],
    }
}

#[test]
fn global_keys_when_nothing_has_the_keyboard() {
    let bar = status_bar(&calm());
    assert_eq!(
        keys(&bar),
        vec!["1:Dashboard", "2:Files", "3:Snippets", "4:Terminal", "?:Help", "q:Quit"]
    );
}

#[test]
fn first_critical_alert_comes_first() {
    let mut s = calm();
    s.status_message = Some("saved".to_string());
    s.alerts = vec![
        alert(AlertSeverity::Warning, ServiceKind::Docker, "w".to_string(), None),
        alert(AlertSeverity::Critical, ServiceKind::Redis, "down".to_string(), Some("restart it".to_string())),
        alert(AlertSeverity::Critical, ServiceKind::Nginx, "later".to_string(), None),
    ];
    match status_bar(&s) {
        StatusBar::Alert { message, action } => {
            assert_eq!(message, "down");
            assert_eq!(action.as_deref(), Some("restart it"));
        }
        other => panic!("expected an alert, got {:?}", other),
    }
}

#[test]
fn message_then_search_then_popups() {
    let mut s = calm();
    s.status_message = Some("saved".to_string());
    s.host_search = true;
    assert!(matches!(status_bar(&s), StatusBar::Message(m) if m == "saved"));
    s.status_message = None;
    let bar = status_bar(&s);
    assert!(matches!(bar, StatusBar::Search { snippets: false, .. }));
    assert_eq!(keys(&bar), vec!["Enter:confirm", "Esc:clear"]);
    s.host_search = false;
    s.host_popup = Some(HostPopupKind::DeleteConfirm);
    assert_eq!(keys(&status_bar(&s)), vec!["y:confirm delete", "n / Esc:cancel"]);
    s.host_popup = None;
    s.snippet_popup = Some(SnippetPopupKind::BroadcastPicker);
    assert_eq!(
        keys(&status_bar(&s)),
        vec!["j/k:navigate", "Space:toggle", "Enter:run", "Esc:cancel"]
    );
}

#[test]
fn file_popups_only_on_the_file_manager() {
    let mut s = calm();
    s.file_popup = Some(FilePopupKind::TransferProgress { filename: "a.txt".to_string(), percent: 42 });
    assert_eq!(keys(&status_bar(&s)).len(), 6);
    s.file_manager_screen = true;
    match status_bar(&s) {
        StatusBar::Hints { note, hints } => {
            assert_eq!(note.as_deref(), Some("Transferring: a.txt  42%"));
            assert!(hints.is_empty());
        }
        other => panic!("unexpected {:?}", other),
    }
    s.file_popup = None;
    s.tag_popup_open = true;
    assert_eq!(keys(&status_bar(&s)), vec!["j/k:navigate", "Enter:select", "Esc:close"]);
}
