use pro_chat::app::{App, Provider};
use pro_chat::search::contains_text;

#[test]
fn substring_test() {
    assert!(contains_text("hello world", "o w"));
    assert!(contains_text("abc", ""));
    assert!(!contains_text("abc", "abcd"));
    assert!(!contains_text("", "a"));
    assert!(contains_text("ééx", "éx"));
}

#[test]
fn search_ignores_case_and_wraps() {
    let mut a = App::new(Provider::Anthropic, Some("k".into()));
    a.send("Hello World").unwrap();
    a.on_api_chunk("nothing here");
    a.on_api_done();
    a.send("WORLD peace").unwrap();
    a.search_query = "world".into();
    a.execute_search();
    assert_eq!(a.search_matches, vec![0, 2]);
    assert_eq!(a.search_match_idx, 0);
    assert_eq!(a.status_message.as_deref(), Some("/world: match 1/2"));
    assert_eq!(a.scroll_offset, 0);
    a.next_search_match();
    assert_eq!(a.search_match_idx, 1);
    assert_eq!(a.scroll_offset, 8);
    a.next_search_match();
    assert_eq!(a.search_match_idx, 0);
    a.prev_search_match();
    assert_eq!(a.search_match_idx, 1);
    assert_eq!(a.status_message.as_deref(), Some("/world: match 2/2"));
    a.search_query = "absent".into();
    a.execute_search();
    assert!(a.search_matches.is_empty());
    assert_eq!(a.status_message.as_deref(), Some("Pattern not found: absent"));
}

#[test]
fn scrolling_saturates() {
    let mut a = App::new(Provider::Anthropic, None);
    a.scroll_up(3);
    assert_eq!(a.scroll_offset, 0);
    assert!(!a.auto_scroll);
    a.scroll_down(5);
    assert_eq!(a.scroll_offset, 5);
    a.scroll_to_bottom();
    assert!(a.auto_scroll);
    a.scroll_down(1);
    assert_eq!(a.scroll_offset, usize::MAX);
    a.scroll_to_top();
    assert_eq!(a.scroll_offset, 0);
}
