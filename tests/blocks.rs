use pro_chat::app::{App, Provider};
use pro_chat::blocks::code_blocks;

#[test]
fn fenced_blocks_with_language_tags() {
    let text = "Intro\n```rust\nfn main() {}\n\n```\nmiddle\n```\nplain\n```\ntail ```py";
    let bs = code_blocks(text);
    assert_eq!(bs.len(), 2);
    assert_eq!(bs[0].0, "rust");
    assert_eq!(bs[0].1, "fn main() {}");
    assert_eq!(bs[1].0, "");
    assert_eq!(bs[1].1, "plain");
    assert!(code_blocks("no code here").is_empty());
    assert!(code_blocks("```unclosed\ncode").is_empty());
}

#[test]
fn blocks_come_from_answers_only() {
    let mut a = App::new(Provider::Anthropic, Some("k".into()));
    a.send("```\nnot from the user\n```").unwrap();
    a.on_api_chunk("Here:\n``` sh \necho hi\n```");
    a.on_api_done();
    a.extract_code_blocks();
    assert_eq!(a.code_blocks.len(), 1);
    assert_eq!(a.code_blocks[0].0, 1);
    assert_eq!(a.code_blocks[0].1, "sh");
    assert_eq!(a.code_blocks[0].2, "echo hi");
}
