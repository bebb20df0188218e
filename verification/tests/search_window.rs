use bg3_debug_tool::search_menu::{SearchAction, SearchEvent, SearchState};

#[test]
fn search_window_decisions() {
    let mut s = SearchState::new();
    assert!(s.take_focus());
    assert!(!s.take_focus());
    assert_eq!(
        s.on_event(SearchEvent::CategoryChosen { category: 2, text_empty: true, table_empty: true }),
        SearchAction::Search
    );
    assert_eq!(s.cur_category, 2);
    assert_eq!(
        s.on_event(SearchEvent::CategoryChosen { category: 3, text_empty: false, table_empty: true }),
        SearchAction::Nothing
    );
    assert_eq!(
        s.on_event(SearchEvent::CategoryChosen { category: 1, text_empty: true, table_empty: false }),
        SearchAction::Nothing
    );
    assert_eq!(s.cur_category, 1);
    assert_eq!(s.on_event(SearchEvent::CaseSensitiveToggled(true)), SearchAction::Search);
    assert!(s.case_sensitive);
    assert_eq!(s.on_event(SearchEvent::FieldsChanged), SearchAction::Search);
    assert_eq!(s.on_event(SearchEvent::Submitted), SearchAction::Search);
    s.finish_search(false);
    assert!(s.search_failed);
    assert_eq!(s.failure_text(), Some("Failed to load items, try loading a save"));
    assert!(s.take_focus());
    s.finish_search(true);
    assert_eq!(s.failure_text(), None);
}
