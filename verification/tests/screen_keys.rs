use omnyssh::event::ServiceKind;
use omnyssh::ui::input::{
    dashboard_key, detail_key, host_list_key, tag_popup_key, HostListState, HostPopup, NavDir,
    ScreenAction, TagPopup,
};
use omnyssh::ui::snippets::{snippets_key, KeyInput, SnippetAction, SnippetPopup};

fn ch(c: char) -> KeyInput {
    KeyInput::Char { c, ctrl: false }
}

fn fresh() -> HostListState {
    HostListState { popup: None, search_mode: false, search_query: String::new() }
}

#[test]
fn host_list_normal_keys() {
    let mut st = fresh();
    assert_eq!(host_list_key(&mut st, ch('j'), Some(1)), Some(ScreenAction::SelectNext));
    assert_eq!(host_list_key(&mut st, KeyInput::Up, Some(1)), Some(ScreenAction::SelectPrev));
    assert_eq!(host_list_key(&mut st, KeyInput::Enter, Some(4)), Some(ScreenAction::ConnectAt(4)));
    assert_eq!(host_list_key(&mut st, KeyInput::Enter, None), None);
    assert_eq!(host_list_key(&mut st, ch('e'), None), None);
    assert_eq!(host_list_key(&mut st, ch('K'), Some(0)), Some(ScreenAction::StartKeySetup));
    assert_eq!(host_list_key(&mut st, ch('r'), None), Some(ScreenAction::ReloadHosts));
    assert_eq!(host_list_key(&mut st, ch('d'), Some(2)), None);
    assert_eq!(st.popup, Some(HostPopup::DeleteConfirm(2)));
    assert_eq!(host_list_key(&mut st, ch('Y'), Some(2)), Some(ScreenAction::ConfirmDelete));
    assert_eq!(host_list_key(&mut st, ch('n'), Some(2)), None);
    assert_eq!(st.popup, None);
}

#[test]
fn host_list_search_and_forms() {
    let mut st = fresh();
    host_list_key(&mut st, ch('/'), None);
    assert!(st.search_mode);
    assert_eq!(host_list_key(&mut st, ch('w'), None), Some(ScreenAction::SearchQueryChanged));
    host_list_key(&mut st, ch('e'), None);
    host_list_key(&mut st, KeyInput::Backspace, None);
    assert_eq!(st.search_query, "w");
    assert_eq!(host_list_key(&mut st, KeyInput::Char { c: 'x', ctrl: true }, None), None);
    host_list_key(&mut st, KeyInput::Enter, None);
    assert!(!st.search_mode);
    assert_eq!(st.search_query, "w");
    host_list_key(&mut st, ch('a'), None);
    assert_eq!(st.popup, Some(HostPopup::AddForm));
    assert_eq!(host_list_key(&mut st, KeyInput::Tab, None), Some(ScreenAction::FormFocusNext));
    assert_eq!(host_list_key(&mut st, ch('z'), None), Some(ScreenAction::FormInsert('z')));
    assert_eq!(host_list_key(&mut st, KeyInput::Enter, None), Some(ScreenAction::ConfirmForm));
    assert_eq!(host_list_key(&mut st, KeyInput::Esc, None), None);
    assert_eq!(st.popup, None);
    st.popup = Some(HostPopup::KeySetupConfirm(3));
    assert_eq!(host_list_key(&mut st, KeyInput::Enter, None), Some(ScreenAction::ConfirmKeySetup(3)));
    assert_eq!(host_list_key(&mut st, ch('N'), None), Some(ScreenAction::CancelKeySetup));
}

#[test]
fn dashboard_keys() {
    let mut st = fresh();
    assert_eq!(
        dashboard_key(&mut st, ch('h'), None, ch('/')),
        Some(ScreenAction::DashboardNav(NavDir::Left))
    );
    assert_eq!(
        dashboard_key(&mut st, KeyInput::Right, None, ch('/')),
        Some(ScreenAction::DashboardNav(NavDir::Right))
    );
    assert_eq!(dashboard_key(&mut st, KeyInput::Enter, None, ch('/')), Some(ScreenAction::OpenDetailView));
    assert_eq!(dashboard_key(&mut st, ch('s'), None, ch('/')), Some(ScreenAction::CycleSortOrder));
    assert_eq!(dashboard_key(&mut st, ch('t'), None, ch('/')), Some(ScreenAction::OpenTagFilter));
    // A configured search key.
    assert_eq!(dashboard_key(&mut st, ch('f'), None, ch('f')), None);
    assert!(st.search_mode);
    // While searching, keys go to the host list's search field.
    dashboard_key(&mut st, ch('h'), None, ch('f'));
    assert_eq!(st.search_query, "h");
    dashboard_key(&mut st, KeyInput::Enter, None, ch('f'));
    assert_eq!(
        dashboard_key(&mut st, KeyInput::Esc, None, ch('f')),
        Some(ScreenAction::SearchQueryChanged)
    );
    assert_eq!(st.search_query, "");
    assert_eq!(dashboard_key(&mut st, KeyInput::Esc, None, ch('f')), None);
}

#[test]
fn tag_popup_keys() {
    let tags = vec!["prod".to_string(), "web".to_string()];
    let mut p = TagPopup { open: true, selected: 0 };
    tag_popup_key(&mut p, ch('j'), &tags);
    tag_popup_key(&mut p, ch('j'), &tags);
    tag_popup_key(&mut p, ch('j'), &tags);
    assert_eq!(p.selected, 2);
    assert_eq!(
        tag_popup_key(&mut p, KeyInput::Enter, &tags),
        Some(ScreenAction::TagFilterSelected(Some("web".to_string())))
    );
    tag_popup_key(&mut p, ch('k'), &tags);
    tag_popup_key(&mut p, ch('k'), &tags);
    tag_popup_key(&mut p, ch('k'), &tags);
    assert_eq!(p.selected, 0);
    assert_eq!(tag_popup_key(&mut p, KeyInput::Enter, &tags), Some(ScreenAction::TagFilterSelected(None)));
    tag_popup_key(&mut p, KeyInput::Char { c: 'c', ctrl: true }, &tags);
    assert!(!p.open);
}

#[test]
fn detail_view_keys() {
    let mut popup: Option<SnippetPopup> = None;
    assert_eq!(detail_key(&mut popup, ch('6')), Some(ScreenAction::ShowQuickView(ServiceKind::PostgreSQL)));
    assert_eq!(detail_key(&mut popup, KeyInput::Esc), Some(ScreenAction::CloseDetailView));
    assert_eq!(detail_key(&mut popup, ch('9')), None);
    let mut results = Some(SnippetPopup::Results { scroll: 0 });
    assert_eq!(detail_key(&mut results, ch('j')), None);
    assert!(matches!(results, Some(SnippetPopup::Results { scroll: 1 })));
    assert_eq!(detail_key(&mut results, KeyInput::Enter), None);
    assert_eq!(detail_key(&mut results, ch('q')), Some(ScreenAction::DismissSnippetResult));
}

#[test]
fn snippets_screen_keys() {
    let mut search = false;
    let mut query = String::from("ng");
    let mut popup: Option<SnippetPopup> = None;
    assert!(matches!(
        snippets_key(&mut search, &mut query, &mut popup, ch('x'), Some(5)),
        Some(SnippetAction::ExecuteSnippet(5))
    ));
    assert!(snippets_key(&mut search, &mut query, &mut popup, KeyInput::Enter, None).is_none());
    assert!(matches!(
        snippets_key(&mut search, &mut query, &mut popup, ch('b'), None),
        Some(SnippetAction::OpenBroadcastPicker)
    ));
    assert!(matches!(
        snippets_key(&mut search, &mut query, &mut popup, KeyInput::Esc, None),
        Some(SnippetAction::SearchChanged)
    ));
    assert_eq!(query, "");
    snippets_key(&mut search, &mut query, &mut popup, ch('/'), None);
    assert!(search);
    snippets_key(&mut search, &mut query, &mut popup, ch('j'), None);
    assert_eq!(query, "j");
    popup = Some(SnippetPopup::DeleteConfirm);
    search = false;
    assert!(matches!(
        snippets_key(&mut search, &mut query, &mut popup, ch('y'), None),
        Some(SnippetAction::ConfirmSnippetDelete)
    ));
}
