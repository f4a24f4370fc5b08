use pro_chat::app::{App, Provider};

fn app_with(text: &str) -> App {
    let mut a = App::new(Provider::Anthropic, Some("k".into()));
    a.set_input(text);
    a
}

#[test]
fn insert_and_delete_around_the_cursor() {
    let mut a = app_with("héllo");
    assert_eq!(a.cursor_pos, 5);
    a.cursor_left();
    a.insert_char('!');
    assert_eq!(a.input, "héll!o");
    assert_eq!(a.cursor_pos, 5);
    a.delete_char_before_cursor();
    assert_eq!(a.input, "héllo");
    a.cursor_home();
    assert_eq!(a.cursor_pos, 0);
    a.delete_char_at_cursor();
    assert_eq!(a.input, "éllo");
    a.cursor_right();
    a.delete_to_start();
    assert_eq!(a.input, "llo");
    assert_eq!(a.cursor_pos, 0);
}

#[test]
fn words_and_lines() {
    let mut a = app_with("one two  ");
    a.delete_word_before_cursor();
    assert_eq!(a.input, "one ");
    assert_eq!(a.cursor_pos, 4);
    a.set_input("alpha beta\ngamma");
    a.cursor_word_back();
    assert_eq!(a.cursor_pos, 11);
    a.cursor_home();
    assert_eq!(a.cursor_pos, 11);
    a.cursor_left();
    a.cursor_word_back();
    assert_eq!(a.cursor_pos, 6);
    a.cursor_home();
    assert_eq!(a.cursor_pos, 0);
    a.cursor_word_forward();
    assert_eq!(a.cursor_pos, 6);
    a.cursor_end();
    assert_eq!(a.cursor_pos, 10);
    a.insert_newline();
    assert_eq!(a.input, "alpha beta\n\ngamma");
}

#[test]
fn undo_and_redo_restore_states() {
    let mut a = app_with("ab");
    a.insert_char('c');
    a.insert_char('d');
    assert_eq!(a.input, "abcd");
    a.undo();
    assert_eq!(a.input, "abc");
    a.undo();
    assert_eq!(a.input, "ab");
    a.redo();
    assert_eq!(a.input, "abc");
    assert_eq!(a.cursor_pos, 3);
    a.clear_input();
    assert_eq!(a.input, "");
    a.undo();
    assert_eq!(a.input, "abc");
    a.undo();
    a.undo();
    assert_eq!(a.status_message.as_deref(), Some("Nothing to undo"));
}

#[test]
fn undo_keeps_the_last_hundred_states() {
    let mut a = app_with("");
    for _ in 0..150 {
        a.insert_char('x');
    }
    assert_eq!(a.undo_stack.len(), 100);
}

#[test]
fn sent_messages_can_be_recalled() {
    let mut a = app_with("first ");
    a.send_message().unwrap();
    a.on_api_done();
    a.set_input("second");
    a.send_message().unwrap();
    a.on_api_done();
    assert_eq!(a.input_history, vec!["first".to_string(), "second".to_string()]);
    a.history_prev();
    assert_eq!(a.input, "second");
    a.history_prev();
    assert_eq!(a.input, "first");
    a.history_prev();
    assert_eq!(a.input, "first");
    a.history_next();
    assert_eq!(a.input, "second");
    a.history_next();
    assert_eq!(a.input, "");
    assert_eq!(a.input_history_idx, None);
}
