use pro_chat::app::{
    App, ToolInvocation, ConfirmAnswer, EditError, InputMode, MessageContent, Provider, RetryError, SendError,
    ToolStep,
};
use pro_chat::history::{sort_by_recency, Conversation, Role, SavedMessage};
use pro_chat::json::{parse_json, Json};
use pro_chat::tools::{ToolExecutor, ToolPermission, ToolResult};

fn app() -> App {
    App::new(Provider::Anthropic, Some("key".to_string()))
}

#[test]
fn blank_input_appends_nothing() {
    let mut a = app();
    assert_eq!(a.send(""), Err(SendError::Blank));
    assert_eq!(a.send("   "), Err(SendError::Blank));
    assert_eq!(a.send("\t\n "), Err(SendError::Blank));
    assert!(a.messages.is_empty());
    assert!(a.api_messages.is_empty());
    assert!(a.conversation.messages.is_empty());
    assert!(!a.streaming);
}

#[test]
fn send_without_key_fails_and_appends_nothing() {
    let mut a = App::new(Provider::OpenAi, None);
    assert_eq!(a.send("hello"), Err(SendError::NoApiKey));
    assert!(a.messages.is_empty());
    assert!(a.api_messages.is_empty());
}

#[test]
fn send_appends_to_all_three_views() {
    let mut a = app();
    let call = a.send("  hi there ").unwrap();
    assert!(call.with_tools);
    assert_eq!(a.messages.len(), 2);
    assert_eq!(a.messages[0].role, Role::User);
    assert_eq!(a.messages[0].content, "hi there");
    assert_eq!(a.messages[1].role, Role::Assistant);
    assert_eq!(a.messages[1].content, "");
    assert_eq!(a.api_messages.len(), 1);
    assert_eq!(a.api_messages[0].content.as_text(), "hi there");
    assert_eq!(a.conversation.messages.len(), 1);
    assert_eq!(a.conversation.title, "hi there");
    assert!(a.streaming);
}

#[test]
fn send_message_uses_and_clears_the_input() {
    let mut a = App::new(Provider::OpenAi, Some("k".into()));
    a.input = "question".into();
    let call = a.send_message().unwrap();
    assert!(!call.with_tools);
    assert_eq!(call.provider, Provider::OpenAi);
    assert_eq!(a.input, "");
    assert_eq!(a.messages[0].content, "question");
}

#[test]
fn retry_while_streaming_fails_and_changes_nothing() {
    let mut a = app();
    a.send("hi").unwrap();
    for _ in 0..3 {
        assert_eq!(a.retry_last(), Err(RetryError::StillStreaming));
        assert_eq!(a.messages.len(), 2);
        assert_eq!(a.api_messages.len(), 1);
        assert_eq!(a.conversation.messages.len(), 1);
        assert!(a.streaming);
    }
}

#[test]
fn retry_without_assistant_entry_fails() {
    let mut a = app();
    assert_eq!(a.retry_last(), Err(RetryError::NoAssistantMessage));
}

#[test]
fn streamed_text_is_committed_on_done() {
    let mut a = app();
    a.send("hi").unwrap();
    a.on_api_chunk("Hel");
    a.on_api_chunk("lo");
    assert_eq!(a.messages[1].content, "Hello");
    assert!(a.on_api_done());
    assert!(!a.streaming);
    assert_eq!(a.conversation.messages.len(), 2);
    assert_eq!(a.conversation.messages[1].role, Role::Assistant);
    assert_eq!(a.conversation.messages[1].content, "Hello");
    assert_eq!(a.api_messages.len(), 2);
    assert_eq!(a.api_messages[1].role, Role::Assistant);
    assert_eq!(a.api_messages[1].content.as_text(), "Hello");
}

#[test]
fn error_drops_an_empty_placeholder() {
    let mut a = app();
    a.send("hi").unwrap();
    a.on_api_error("API error 500: boom");
    assert!(!a.streaming);
    assert_eq!(a.messages.len(), 1);
    assert_eq!(a.status_message.as_deref(), Some("Error: API error 500: boom"));
}

#[test]
fn cancel_after_ten_characters_commits_them_once() {
    let mut a = app();
    a.send("tell me").unwrap();
    a.on_api_chunk("01234");
    a.on_api_chunk("56789");
    let before = a.conversation.messages.len();
    a.cancel_stream();
    assert!(!a.streaming);
    assert_eq!(a.conversation.messages.len(), before + 1);
    let last = a.conversation.messages.last().unwrap();
    assert_eq!(last.role, Role::Assistant);
    assert_eq!(last.content, "0123456789");
    assert_eq!(a.messages.len(), 2);
    assert_eq!(a.messages[1].content, "0123456789");
    assert_eq!(a.stream_buffer, "");
}

fn saved(role: Role, content: &str) -> SavedMessage {
    SavedMessage { role, content: content.to_string(), timestamp: 1_700_000_000_000 }
}

#[test]
fn load_send_retry_restores_the_views() {
    let conv = Conversation {
        id: "abc".into(),
        title: "earlier".into(),
        created_at: 0,
        updated_at: 0,
        messages: vec![saved(Role::User, "question"), saved(Role::Assistant, "answer")],
    };
    let mut a = app();
    a.load_conversation(conv);
    assert_eq!(a.messages.len(), 2);
    let history_before = a.api_messages.len();
    assert_eq!(history_before, 2);
    a.send("hi").unwrap();
    a.on_api_chunk("reply");
    a.on_api_done();
    a.retry_last().unwrap();
    assert_eq!(a.messages.len(), 4);
    assert_eq!(a.messages[0].content, "question");
    assert_eq!(a.messages[1].content, "answer");
    assert_eq!(a.messages[2].content, "hi");
    assert_eq!(a.messages[3].role, Role::Assistant);
    assert_eq!(a.messages[3].content, "");
    assert_eq!(a.api_messages.len(), history_before + 1);
    assert_eq!(a.api_messages[0].content.as_text(), "question");
    assert_eq!(a.api_messages[1].role, Role::Assistant);
    assert_eq!(a.api_messages[1].content.as_text(), "answer");
    assert_eq!(a.api_messages[2].role, Role::User);
    assert_eq!(a.api_messages[2].content.as_text(), "hi");
    assert_eq!(a.conversation.id, "abc");
    assert!(a.streaming);
}

#[test]
fn edit_last_message_moves_the_turn_back_to_input() {
    let mut a = app();
    assert_eq!(a.edit_last_message(), Err(EditError::NoUserMessage));
    a.send("first").unwrap();
    a.on_api_chunk("one");
    a.on_api_done();
    a.send("second").unwrap();
    assert_eq!(a.edit_last_message(), Err(EditError::StillStreaming));
    a.on_api_done();
    a.input_mode = InputMode::Normal;
    a.edit_last_message().unwrap();
    assert_eq!(a.input, "second");
    assert_eq!(a.input_mode, InputMode::Insert);
    assert_eq!(a.messages.len(), 2);
    assert_eq!(a.api_messages.len(), 2);
    assert_eq!(a.conversation.messages.len(), 2);
}

fn two_searches() -> &'static str {
    r#"{"content": [
        {"type": "text", "text": "Looking."},
        {"type": "tool_use", "id": "t1", "name": "search_files", "input": {"pattern": "foo"}},
        {"type": "tool_use", "id": "t2", "name": "search_files", "input": {"pattern": "bar"}}
    ]}"#
}

fn result_ids(a: &App) -> Vec<String> {
    match &a.api_messages.last().unwrap().content {
        MessageContent::Blocks(blocks) => blocks
            .iter()
            .map(|b| match b.get("tool_use_id") {
                Some(Json::Str(s)) => s.clone(),
                _ => String::new(),
            })
            .collect(),
        MessageContent::Text(_) => Vec::new(),
    }
}

#[test]
fn always_allow_skips_the_second_confirmation() {
    let mut a = app();
    a.tool_executor = ToolExecutor::new();
    a.send("find things").unwrap();
    a.on_api_chunk("Looking.");
    let step = a.handle_tool_use_response(two_searches());
    assert_eq!(step, ToolStep::Confirm(0));
    assert_eq!(a.handle_tool_confirm(ConfirmAnswer::AlwaysAllow), ToolStep::Run(0));
    assert_eq!(a.tool_executor.permission("search_files"), ToolPermission::AutoAllow);
    let step = a.tool_finished(ToolResult::ok("a.rs:1:foo".into()));
    assert_eq!(step, ToolStep::Run(1));
    let step = a.tool_finished(ToolResult::ok("No matches found.".into()));
    assert!(matches!(step, ToolStep::Continue(c) if c.with_tools));
    assert_eq!(result_ids(&a), vec!["t1".to_string(), "t2".to_string()]);
    assert!(a.pending_tool_calls.is_empty());
    assert!(a.streaming);
}

#[test]
fn denied_tools_resolve_without_running() {
    let mut a = app();
    a.tool_executor.set_permission("search_files", ToolPermission::Deny);
    a.send("find").unwrap();
    let step = a.handle_tool_use_response(two_searches());
    assert!(matches!(step, ToolStep::Continue(_)));
    let n = a.api_messages.len();
    assert_eq!(a.api_messages[n - 2].role, Role::Assistant);
    assert_eq!(a.api_messages[n - 1].role, Role::User);
    assert_eq!(result_ids(&a), vec!["t1".to_string(), "t2".to_string()]);
    match &a.api_messages[n - 1].content {
        MessageContent::Blocks(blocks) => {
            assert_eq!(blocks.len(), 2);
            assert!(matches!(blocks[0].get("is_error"), Some(Json::Bool(true))));
        }
        MessageContent::Text(_) => panic!("expected tool results"),
    }
}

#[test]
fn deny_once_then_allow_once() {
    let mut a = app();
    a.tool_executor = ToolExecutor::new();
    a.send("find").unwrap();
    assert_eq!(a.handle_tool_use_response(two_searches()), ToolStep::Confirm(0));
    assert_eq!(a.handle_tool_confirm(ConfirmAnswer::DenyOnce), ToolStep::Confirm(1));
    assert_eq!(a.tool_executor.permission("search_files"), ToolPermission::AskFirst);
    assert_eq!(a.handle_tool_confirm(ConfirmAnswer::AllowOnce), ToolStep::Run(1));
    assert!(matches!(a.tool_finished(ToolResult::ok("x".into())), ToolStep::Continue(_)));
}

#[test]
fn response_without_tool_calls_finishes_the_turn() {
    let mut a = app();
    a.send("hi").unwrap();
    a.on_api_chunk("plain answer");
    let step = a.handle_tool_use_response(r#"{"content": [{"type": "text", "text": "plain answer"}]}"#);
    assert_eq!(step, ToolStep::Idle);
    assert!(!a.streaming);
    assert_eq!(a.api_messages.len(), 2);
    assert_eq!(a.api_messages[1].content.as_text(), "plain answer");
    assert_eq!(a.conversation.messages.last().unwrap().content, "plain answer");
}

#[test]
fn unreadable_tool_response_is_reported() {
    let mut a = app();
    a.send("hi").unwrap();
    assert_eq!(a.handle_tool_use_response("not json"), ToolStep::Idle);
    assert!(a.status_message.is_some());
    assert_eq!(a.api_messages.len(), 1);
}

#[test]
fn new_app_allows_read_only_tools() {
    let a = app();
    assert_eq!(a.tool_executor.permission("read_file"), ToolPermission::AutoAllow);
    assert_eq!(a.tool_executor.permission("list_files"), ToolPermission::AutoAllow);
    assert_eq!(a.tool_executor.permission("search_files"), ToolPermission::AutoAllow);
    assert_eq!(a.tool_executor.permission("execute"), ToolPermission::AskFirst);
}

#[test]
fn new_conversation_hands_back_the_old_record() {
    let mut a = app();
    assert!(a.new_conversation().is_none());
    a.send("hi").unwrap();
    a.on_api_done();
    let old = a.new_conversation().unwrap();
    assert_eq!(old.messages.len(), 1);
    assert!(a.messages.is_empty());
    assert_eq!(a.conversation.title, "New conversation");
}

#[test]
fn long_first_message_titles_the_conversation() {
    let mut c = Conversation::new();
    assert_eq!(c.id.len(), 36);
    c.add_message(Role::Assistant, "welcome");
    assert_eq!(c.title, "New conversation");
    let long: String = std::iter::repeat('x').take(70).collect();
    c.add_message(Role::User, &long);
    assert_eq!(c.title, format!("{}...", "x".repeat(60)));
    c.add_message(Role::User, "later");
    assert_eq!(c.title.len(), 63);
}

#[test]
fn block_content_text_joins_text_blocks() {
    let j = parse_json(r#"[{"type":"text","text":"a"},{"type":"tool_use","id":"x"},{"type":"text","text":"b"}]"#)
        .unwrap();
    let blocks = match j {
        Json::Array(b) => b,
        _ => panic!("expected an array"),
    };
    assert_eq!(MessageContent::Blocks(blocks).as_text(), "ab");
}

#[test]
fn events_of_a_cancelled_turn_are_not_current() {
    let mut a = app();
    let first = a.send("one").unwrap();
    assert!(a.is_current(first.turn));
    a.cancel_stream();
    assert!(!a.is_current(first.turn));
    let second = a.send("two").unwrap();
    assert_ne!(first.turn, second.turn);
    assert!(a.is_current(second.turn));
    assert!(!a.is_current(first.turn));
}

#[test]
fn listing_puts_the_most_recent_first() {
    let conv = |id: &str, t: i64| Conversation {
        id: id.into(),
        title: id.into(),
        created_at: 0,
        updated_at: t,
        messages: Vec::new(),
    };
    let mut cs = vec![conv("a", 5), conv("b", 9), conv("c", 1), conv("d", 9), conv("e", 7)];
    sort_by_recency(&mut cs);
    let order: Vec<&str> = cs.iter().map(|c| c.id.as_str()).collect();
    assert_eq!(order, vec!["b", "d", "e", "a", "c"]);
    let mut empty: Vec<Conversation> = Vec::new();
    sort_by_recency(&mut empty);
    assert!(empty.is_empty());
}

#[test]
fn export_renders_entries_and_tool_results() {
    let mut a = app();
    assert!(a.export_markdown().is_none());
    a.send("hi").unwrap();
    a.on_api_chunk("hello");
    a.messages[1].tool_invocations.push(ToolInvocation {
        tool_name: "execute".into(),
        tool_args: "$ ls".into(),
        result: Some(ToolResult::ok("a.txt".into())),
        collapsed: false,
    });
    let doc = a.export_markdown().unwrap();
    assert_eq!(
        doc,
        "## You\n\nhi\n\n## Assistant\n\nhello\n\n**Tool: execute**\nArgs: $ ls\nResult (Success):\n```\na.txt\n```\n\n"
    );
}

#[test]
fn retry_reports_missing_user_message_and_key() {
    let qa = || Conversation {
        id: "c".into(),
        title: "t".into(),
        created_at: 0,
        updated_at: 0,
        messages: vec![saved(Role::User, "q"), saved(Role::Assistant, "a")],
    };
    let mut no_key = App::new(Provider::Anthropic, None);
    no_key.load_conversation(qa());
    assert_eq!(no_key.retry_last(), Err(RetryError::NoApiKey));
    assert_eq!(no_key.messages.len(), 2);
    assert_eq!(no_key.api_messages.len(), 2);
    assert_eq!(no_key.conversation.messages.len(), 2);
    assert!(!no_key.streaming);

    let mut only_answer = app();
    only_answer.load_conversation(Conversation {
        id: "d".into(),
        title: "t".into(),
        created_at: 0,
        updated_at: 0,
        messages: vec![saved(Role::Assistant, "hello")],
    });
    assert_eq!(only_answer.retry_last(), Err(RetryError::NoUserMessage));
    assert_eq!(only_answer.messages.len(), 1);
    assert_eq!(only_answer.api_messages.len(), 1);
    assert_eq!(only_answer.conversation.messages.len(), 1);
}

#[test]
fn unknown_tools_are_answered_with_a_failure() {
    let mut a = app();
    a.send("go").unwrap();
    let body = r#"{"content": [
        {"type": "tool_use", "id": "u1", "name": "launch_rocket", "input": {}},
        {"type": "tool_use", "id": "r1", "name": "read_file", "input": {"path": "a"}}
    ]}"#;
    assert_eq!(a.handle_tool_use_response(body), ToolStep::Run(1));
    assert_eq!(a.tool_invocations.len(), 1);
    assert_eq!(a.tool_invocations[0].tool_name, "unknown");
    let step = a.tool_finished(ToolResult::ok("contents".into()));
    assert!(matches!(step, ToolStep::Continue(_)));
    assert_eq!(result_ids(&a), vec!["u1".to_string(), "r1".to_string()]);
    match &a.api_messages.last().unwrap().content {
        MessageContent::Blocks(blocks) => {
            assert!(matches!(blocks[0].get("content"), Some(Json::Str(s)) if s == "Unknown tool: launch_rocket"));
            assert!(matches!(blocks[0].get("is_error"), Some(Json::Bool(true))));
            assert!(matches!(blocks[1].get("is_error"), Some(Json::Bool(false))));
        }
        MessageContent::Text(_) => panic!("expected tool results"),
    }
    assert_eq!(a.tool_invocations.len(), 2);
    assert_eq!(a.messages[1].tool_invocations.len(), 2);
}

#[test]
fn tool_response_text_lands_in_the_open_entry() {
    let mut a = app();
    a.tool_executor = ToolExecutor::new();
    a.send("find").unwrap();
    a.on_api_chunk("Looking.");
    a.handle_tool_use_response(two_searches());
    assert_eq!(a.messages.len(), 2);
    assert_eq!(a.messages[1].content, "Looking.");
    assert_eq!(a.overlay, pro_chat::app::Overlay::ToolConfirm);
    assert!(a.tool_invocations.is_empty());
}

#[test]
fn events_during_tool_resolution_change_nothing() {
    let mut a = app();
    a.tool_executor = ToolExecutor::new();
    a.send("find").unwrap();
    assert_eq!(a.handle_tool_use_response(two_searches()), ToolStep::Confirm(0));
    let history = a.api_messages.len();
    assert_eq!(a.handle_tool_use_response(two_searches()), ToolStep::Idle);
    assert!(!a.on_api_done());
    assert_eq!(a.api_messages.len(), history);
    assert_eq!(a.pending_tool_calls.len(), 2);
    assert_eq!(a.pending_tool_confirm_idx, 0);
}

#[test]
fn deny_always_moves_past_the_call_and_denies_later_ones() {
    let mut a = app();
    a.tool_executor = ToolExecutor::new();
    a.send("find").unwrap();
    assert_eq!(a.handle_tool_use_response(two_searches()), ToolStep::Confirm(0));
    let step = a.handle_tool_confirm(ConfirmAnswer::DenyAlways);
    assert!(matches!(step, ToolStep::Continue(_)));
    assert_eq!(a.tool_executor.permission("search_files"), ToolPermission::Deny);
    assert_eq!(a.tool_invocations.len(), 2);
    assert!(a.tool_invocations.iter().all(|i| matches!(&i.result, Some(r) if !r.success)));
    assert_eq!(result_ids(&a), vec!["t1".to_string(), "t2".to_string()]);
}
