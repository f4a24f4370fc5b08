use pro_chat::app::Provider;
use pro_chat::sse::{error_events, tool_mode_events, SseDecoder, StreamEvent};

fn texts(evs: &[StreamEvent]) -> String {
    evs.iter()
        .map(|e| match e {
            StreamEvent::Chunk(t) => t.clone(),
            _ => String::new(),
        })
        .collect()
}

fn count_done(evs: &[StreamEvent]) -> usize {
    evs.iter().filter(|e| matches!(e, StreamEvent::Done)).count()
}

fn count_errors(evs: &[StreamEvent]) -> usize {
    evs.iter().filter(|e| matches!(e, StreamEvent::Error(_))).count()
}

const DELTA_STREAM: &str = "event: message_start\n\
data: {\"type\":\"message_start\"}\n\
\n\
data: {\"type\":\"content_block_delta\",\"delta\":{\"text\":\"Hello\"}}\n\
data: not json at all\n\
data: {\"type\":\"content_block_delta\",\"delta\":{\"text\":\", world\"}}\r\n\
data: {\"type\":\"message_stop\"}\n\
data: {\"type\":\"content_block_delta\",\"delta\":{\"text\":\"late\"}}\n";

#[test]
fn well_formed_stream_yields_text_then_one_done() {
    for split in [1usize, 3, 7, 40, DELTA_STREAM.len()] {
        let mut d = SseDecoder::new(Provider::Anthropic);
        let mut evs = Vec::new();
        for piece in DELTA_STREAM.as_bytes().chunks(split) {
            evs.extend(d.feed(piece));
        }
        evs.extend(d.finish());
        assert_eq!(texts(&evs), "Hello, world");
        assert_eq!(count_done(&evs), 1);
        assert_eq!(count_errors(&evs), 0);
        assert!(matches!(evs.last(), Some(StreamEvent::Done)));
    }
}

#[test]
fn openai_stream_ends_at_done_sentinel() {
    let body = "data: {\"choices\":[{\"delta\":{\"role\":\"assistant\"}}]}\n\
data: {\"choices\":[{\"delta\":{\"content\":\"Hi\"}}]}\n\
data: {\"choices\":[{\"delta\":{\"content\":\" there\"}}]}\n\
data: [DONE]\n\
data: {\"choices\":[{\"delta\":{\"content\":\"ignored\"}}]}\n";
    let mut d = SseDecoder::new(Provider::OpenAi);
    let mut evs = d.feed(body.as_bytes());
    assert!(d.finished());
    evs.extend(d.feed(b"data: more\n"));
    evs.extend(d.finish());
    assert_eq!(texts(&evs), "Hi there");
    assert_eq!(count_done(&evs), 1);
    assert_eq!(evs.len(), 3);
}

#[test]
fn incomplete_line_waits_for_its_end() {
    let mut d = SseDecoder::new(Provider::OpenAi);
    let evs = d.feed("data: {\"choices\":[{\"delta\":{\"content\":\"x\"}}]}".as_bytes());
    assert!(evs.is_empty());
    let evs = d.feed(b"\n");
    assert_eq!(texts(&evs), "x");
    let evs = d.finish();
    assert_eq!(count_done(&evs), 1);
}

#[test]
fn non_success_status_gives_exactly_one_error() {
    let evs = error_events("404 Not Found", "{\"error\":\"nope\"}");
    assert_eq!(evs.len(), 1);
    assert!(matches!(&evs[0], StreamEvent::Error(m) if m == "API error 404 Not Found: {\"error\":\"nope\"}"));
    assert_eq!(count_done(&evs), 0);
}

#[test]
fn tool_mode_body_with_tool_use_is_handed_on() {
    let body = r#"{"content":[{"type":"text","text":"Let me look."},{"type":"tool_use","id":"t","name":"read_file","input":{"path":"a"}}]}"#;
    let evs = tool_mode_events(body);
    assert_eq!(evs.len(), 2);
    assert!(matches!(&evs[0], StreamEvent::Chunk(t) if t == "Let me look."));
    assert!(matches!(&evs[1], StreamEvent::ToolUseRequest(b) if b == body));
}

#[test]
fn tool_mode_body_without_tool_use_completes() {
    let evs = tool_mode_events(r#"{"content":[{"type":"text","text":"a"},{"type":"text","text":"b"}]}"#);
    assert_eq!(texts(&evs), "ab");
    assert!(matches!(evs.last(), Some(StreamEvent::Done)));
    let bad = tool_mode_events("<html>");
    assert_eq!(count_errors(&bad), 1);
    assert_eq!(bad.len(), 1);
}

#[test]
fn characters_split_between_pieces_are_kept() {
    let body = "data: {\"choices\":[{\"delta\":{\"content\":\"h\u{e9}\u{1F600}\"}}]}\ndata: [DONE]\n";
    let bytes = body.as_bytes();
    for cut in 1..bytes.len() {
        let mut d = SseDecoder::new(Provider::OpenAi);
        let mut evs = d.feed(&bytes[..cut]);
        evs.extend(d.feed(&bytes[cut..]));
        evs.extend(d.finish());
        assert_eq!(texts(&evs), "h\u{e9}\u{1F600}");
        assert_eq!(count_done(&evs), 1);
    }
}

#[test]
fn invalid_bytes_do_not_stop_the_stream() {
    let mut d = SseDecoder::new(Provider::OpenAi);
    let mut evs = d.feed(b"data: \xff\xfe\n");
    evs.extend(d.feed(b"data: {\"choices\":[{\"delta\":{\"content\":\"ok\"}}]}\ndata: [DONE]\n"));
    assert_eq!(texts(&evs), "ok");
    assert_eq!(count_done(&evs), 1);
}
