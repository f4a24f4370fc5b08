use pro_chat::executor::{
    edit_plan, glob_pattern, number_lines, poll_decision, search_command, CommandOutput,
    EditFailure, PollAction, ToolOutcome,
};
use pro_chat::json::parse_json;
use pro_chat::json::Json;
use pro_chat::tools::{
    format_tool_args, format_tool_definitions, parse_tool_calls, Tool, ToolExecutor, ToolPermission,
};

fn ran(success: bool, code: Option<i32>, stdout: &str, stderr: &str) -> CommandOutput {
    CommandOutput { success, code, stdout: stdout.to_string(), stderr: stderr.to_string() }
}

#[test]
fn test_parse_tool_calls_read_file() {
    let response = parse_json(
        r#"{"content": [
            {"type": "text", "text": "Reading the file now."},
            {"type": "tool_use", "id": "toolu_123", "name": "read_file", "input": {"path": "/tmp/test.txt"}}
        ]}"#,
    )
    .unwrap();
    let calls = parse_tool_calls(&response);
    assert_eq!(calls.len(), 1);
    assert_eq!(calls[0].id, "toolu_123");
    assert!(matches!(&calls[0].tool, Tool::ReadFile { path } if path == "/tmp/test.txt"));
}

#[test]
fn test_parse_tool_calls_multiple() {
    let response = parse_json(
        r#"{"content": [
            {"type": "tool_use", "id": "toolu_1", "name": "read_file", "input": {"path": "a.txt"}},
            {"type": "tool_use", "id": "toolu_2", "name": "execute", "input": {"command": "ls"}}
        ]}"#,
    )
    .unwrap();
    let calls = parse_tool_calls(&response);
    assert_eq!(calls.len(), 2);
}

#[test]
fn test_parse_tool_calls_empty() {
    let response = parse_json(r#"{"content": [{"type": "text", "text": "No tools here."}]}"#).unwrap();
    let calls = parse_tool_calls(&response);
    assert!(calls.is_empty());
}

#[test]
fn parse_tool_calls_defaults_and_unknown_tools() {
    let response = parse_json(
        r#"{"content": [
            {"type": "tool_use", "id": "a", "name": "list_files", "input": {}},
            {"type": "tool_use", "id": "b", "name": "launch_rocket", "input": {}},
            {"type": "tool_use", "name": "execute", "input": {"command": "ls"}},
            {"type": "tool_use", "id": "c", "name": "search_files", "input": {"pattern": "fn", "path": "src"}}
        ]}"#,
    )
    .unwrap();
    let calls = parse_tool_calls(&response);
    assert_eq!(calls.len(), 3);
    assert!(matches!(&calls[0].tool, Tool::ListFiles { path, pattern: None } if path == "."));
    assert_eq!(calls[1].id, "b");
    assert!(matches!(&calls[1].tool, Tool::Unknown { name } if name == "launch_rocket"));
    assert_eq!(calls[2].id, "c");
    assert!(matches!(&calls[2].tool,
        Tool::SearchFiles { pattern, path: Some(p) } if pattern == "fn" && p == "src"));
    let executor = ToolExecutor::new();
    let r = executor.execute(&calls[1].tool, &ToolOutcome::Failed(String::new()));
    assert!(!r.success);
    assert_eq!(r.output, "Unknown tool: launch_rocket");
}

#[test]
fn test_read_file_not_found() {
    let executor = ToolExecutor::new();
    let result = executor.execute(
        &Tool::ReadFile { path: "/tmp/__nonexistent_pro_chat_test__".into() },
        &ToolOutcome::NotFound,
    );
    assert!(!result.success);
    assert!(result.output.contains("not found"));
}

#[test]
fn test_write_and_read_file() {
    let executor = ToolExecutor::new();
    let path = "/tmp/pro_chat_test_write_read/hello.txt".to_string();
    let write_result = executor.execute(
        &Tool::WriteFile { path: path.clone(), content: "line one\nline two\n".into() },
        &ToolOutcome::Written,
    );
    assert!(write_result.success);
    assert_eq!(write_result.output, "Wrote 18 bytes to /tmp/pro_chat_test_write_read/hello.txt");

    let read_result = executor.execute(
        &Tool::ReadFile { path },
        &ToolOutcome::Contents("line one\nline two\n".into()),
    );
    assert!(read_result.success);
    assert!(read_result.output.contains("line one"));
    assert!(read_result.output.contains("line two"));
}

#[test]
fn test_edit_file() {
    let contents = "Hello world\nFoo bar\n";
    let planned = edit_plan(contents, "Foo bar", "Baz qux").unwrap();
    assert!(planned.contains("Baz qux"));
    assert!(!planned.contains("Foo bar"));
    assert_eq!(planned, "Hello world\nBaz qux\n");

    let executor = ToolExecutor::new();
    let result = executor.execute(
        &Tool::EditFile {
            path: "/tmp/pro_chat_test_edit/edit_me.txt".into(),
            old_text: "Foo bar".into(),
            new_text: "Baz qux".into(),
        },
        &ToolOutcome::Edited(contents.into(), None),
    );
    assert!(result.success);
}

#[test]
fn test_edit_file_not_found_text() {
    assert_eq!(edit_plan("aaa\n", "zzz", "yyy"), Err(EditFailure::NotFound));
    let executor = ToolExecutor::new();
    let result = executor.execute(
        &Tool::EditFile {
            path: "/tmp/pro_chat_test_edit_nf/nf.txt".into(),
            old_text: "zzz".into(),
            new_text: "yyy".into(),
        },
        &ToolOutcome::Edited("aaa\n".into(), None),
    );
    assert!(!result.success);
}

#[test]
fn edit_with_text_occurring_twice_is_ambiguous_and_writes_nothing() {
    let contents = "let x = 1;\nlet x = 1;\n";
    assert_eq!(edit_plan(contents, "let x", "let y"), Err(EditFailure::Ambiguous(2)));
    let executor = ToolExecutor::new();
    let result = executor.execute(
        &Tool::EditFile { path: "f.rs".into(), old_text: "let x".into(), new_text: "let y".into() },
        &ToolOutcome::Edited(contents.into(), None),
    );
    assert!(!result.success);
    assert_eq!(
        result.output,
        "old_text matches 2 locations in f.rs -- provide more context to make it unique"
    );
}

#[test]
fn edit_counts_non_overlapping_matches() {
    assert_eq!(edit_plan("aaa", "aa", "b"), Ok("ba".to_string()));
    assert_eq!(edit_plan("", "", "new"), Ok("new".to_string()));
    assert_eq!(edit_plan("ab", "", "x"), Err(EditFailure::Ambiguous(3)));
}

#[test]
fn test_execute_command() {
    let executor = ToolExecutor::new();
    let result = executor.execute(
        &Tool::Execute { command: "echo hello".into() },
        &ToolOutcome::Ran(ran(true, Some(0), "hello\n", "")),
    );
    assert!(result.success);
    assert!(result.output.contains("hello"));
}

#[test]
fn failed_command_reports_exit_code_and_both_streams() {
    let executor = ToolExecutor::new();
    let result = executor.execute(
        &Tool::Execute { command: "false".into() },
        &ToolOutcome::Ran(ran(false, Some(2), "out", "err")),
    );
    assert!(!result.success);
    assert_eq!(result.output, "Exit code 2\nout\n[stderr]\nerr");
    let silent = executor.execute(
        &Tool::Execute { command: "true".into() },
        &ToolOutcome::Ran(ran(true, Some(0), "", "")),
    );
    assert_eq!(silent.output, "(no output)");
    let killed = executor.execute(
        &Tool::Execute { command: "kill".into() },
        &ToolOutcome::Ran(ran(false, None, "", "")),
    );
    assert_eq!(killed.output, "Exit code -1\n(no output)");
}

#[test]
fn command_past_its_timeout_is_killed_and_reported() {
    let mut executor = ToolExecutor::new();
    executor.set_command_timeout(1000);
    assert_eq!(poll_decision(false, 900, executor.command_timeout()), PollAction::Sleep(100));
    assert_eq!(poll_decision(false, 1000, executor.command_timeout()), PollAction::Kill);
    assert_eq!(poll_decision(true, 5000, executor.command_timeout()), PollAction::Collect);
    let result = executor.execute(&Tool::Execute { command: "sleep 999".into() }, &ToolOutcome::TimedOut);
    assert!(!result.success);
    assert!(result.output.contains("timed out"));
    assert_eq!(result.output, "Command timed out after 1 seconds");
}

#[test]
fn default_command_timeout_is_two_minutes() {
    let executor = ToolExecutor::new();
    assert_eq!(executor.command_timeout(), 120_000);
}

#[test]
fn test_permission_defaults() {
    let executor = ToolExecutor::new();
    assert_eq!(executor.permission("read_file"), ToolPermission::AskFirst);
    assert_eq!(executor.permission("execute"), ToolPermission::AskFirst);
}

#[test]
fn test_permission_override() {
    let mut executor = ToolExecutor::new();
    executor.set_permission("read_file", ToolPermission::AutoAllow);
    assert_eq!(executor.permission("read_file"), ToolPermission::AutoAllow);
    assert_eq!(executor.permission("execute"), ToolPermission::AskFirst);
    executor.set_permission("read_file", ToolPermission::Deny);
    assert_eq!(executor.permission("read_file"), ToolPermission::Deny);
}

#[test]
fn test_tool_name() {
    assert_eq!(Tool::ReadFile { path: String::new() }.name(), "read_file");
    assert_eq!(Tool::Execute { command: String::new() }.name(), "execute");
}

#[test]
fn read_file_numbers_lines() {
    assert_eq!(number_lines("a\r\nb\n"), "     1\ta\n     2\tb");
    assert_eq!(number_lines(""), "");
    assert_eq!(number_lines("x"), "     1\tx");
}

#[test]
fn list_and_search_requests_and_results() {
    assert_eq!(glob_pattern("src", None), "src/**/*");
    let p = "*.rs".to_string();
    assert_eq!(glob_pattern("src", Some(&p)), "src/*.rs");
    let (prog, args) = search_command("fn main", None, false);
    assert_eq!(prog, "grep");
    assert_eq!(args, vec!["-rn", "--color=never", "fn main", "."]);
    let (prog, args) = search_command("x", Some(&"src".to_string()), true);
    assert_eq!(prog, "rg");
    assert_eq!(args.len(), 5);
    assert_eq!(args[4], "src");

    let executor = ToolExecutor::new();
    let listing = executor.execute(
        &Tool::ListFiles { path: "src".into(), pattern: None },
        &ToolOutcome::Listed(vec!["src/a.rs".into(), "src/b.rs".into()]),
    );
    assert_eq!(listing.output, "src/a.rs\nsrc/b.rs");
    let none = executor.execute(
        &Tool::SearchFiles { pattern: "zz".into(), path: None },
        &ToolOutcome::Searched("grep".into(), ran(false, Some(1), "", "")),
    );
    assert!(none.success);
    assert_eq!(none.output, "No matches found.");
    let broken = executor.execute(
        &Tool::SearchFiles { pattern: "(".into(), path: None },
        &ToolOutcome::Searched("rg".into(), ran(false, Some(2), "", "regex parse error")),
    );
    assert!(!broken.success);
    assert_eq!(broken.output, "rg error: regex parse error");
}

#[test]
fn tool_arguments_are_summarised() {
    assert_eq!(format_tool_args(&Tool::Execute { command: "ls".into() }), "$ ls");
    assert_eq!(
        format_tool_args(&Tool::WriteFile { path: "a".into(), content: "héllo".into() }),
        "path: a (6 bytes)"
    );
    assert_eq!(
        format_tool_args(&Tool::ListFiles { path: ".".into(), pattern: Some("*.rs".into()) }),
        "path: ., pattern: *.rs"
    );
}

#[test]
fn permissions_default_to_asking() {
    assert_eq!(ToolPermission::default(), ToolPermission::AskFirst);
    let executor = ToolExecutor::default();
    assert_eq!(executor.permission("write_file"), ToolPermission::AskFirst);
}

#[test]
fn test_format_tool_definitions_is_array() {
    let defs = format_tool_definitions();
    assert!(matches!(defs, Json::Array(_)));
    match defs {
        Json::Array(items) => {
            assert_eq!(items.len(), 6);
            assert!(matches!(items[5].get("name"), Some(Json::Str(n)) if n == "edit_file"));
        }
        _ => unreachable!(),
    }
}
