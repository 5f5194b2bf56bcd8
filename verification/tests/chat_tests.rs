use openchad::chat::{
    classify_line, trim_ws, window_messages, ChatMessage, ChunkBatcher, LineStep, CHAT_CHUNKS,
};
use openchad::stream::StreamAssembler;

#[test]
fn window_keeps_the_most_recent_turns() {
    let history = vec![
        ChatMessage { role: "user".to_string(), content: "one".to_string() },
        ChatMessage { role: "assistant".to_string(), content: "two".to_string() },
        ChatMessage { role: "user".to_string(), content: "three".to_string() },
        ChatMessage { role: "assistant".to_string(), content: "four".to_string() },
    ];
    let msgs = window_messages(&history, 2, "header", "question".to_string());
    assert_eq!(msgs.len(), 4);
    assert_eq!(msgs[0].content, "three");
    assert_eq!(msgs[1].content, "four");
    assert_eq!(msgs[2].role, "system");
    assert_eq!(msgs[2].content, "header");
    assert_eq!(msgs[3].role, "user");
    assert_eq!(msgs[3].content, "question");
}

#[test]
fn window_larger_than_history_keeps_everything() {
    let history = vec![ChatMessage { role: "user".to_string(), content: "only".to_string() }];
    let msgs = window_messages(&history, 10, "h", "m".to_string());
    assert_eq!(msgs.len(), 3);
    assert_eq!(msgs[0].content, "only");
}

#[test]
fn batcher_emits_every_twenty_fifth_fragment() {
    let mut b = ChunkBatcher::new();
    for i in 0..CHAT_CHUNKS - 1 {
        assert!(b.push_fragment(format!("f{} ", i)).is_none());
    }
    let chunk = b.push_fragment("last".to_string()).expect("a full batch closes a chunk");
    assert!(chunk.starts_with("f0 f1 "));
    assert!(chunk.ends_with("last"));
    // The final, partial batch is flushed as one item — even when empty.
    assert_eq!(b.finish(), "");
}

#[test]
fn batcher_loses_no_text() {
    let mut b = ChunkBatcher::new();
    let mut expected = String::new();
    let mut emitted = String::new();
    for i in 0..60 {
        let frag = format!("<{}>", i);
        expected.push_str(&frag);
        if let Some(chunk) = b.push_fragment(frag) {
            emitted.push_str(&chunk);
        }
    }
    emitted.push_str(&b.finish());
    assert_eq!(emitted, expected);
}

#[test]
fn terminator_line_ends_the_stream() {
    assert!(matches!(classify_line("data: [DONE]"), LineStep::Done));
    assert!(matches!(classify_line("  data: [DONE]\n"), LineStep::Done));
}

#[test]
fn content_frames_yield_fragments() {
    let line = "data: {\"choices\":[{\"delta\":{\"content\":\"Hi\"},\"index\":0,\"finish_reason\":null}],\"id\":\"c1\",\"object\":\"chunk\",\"created\":1,\"model\":\"m\"}";
    match classify_line(line) {
        LineStep::Fragment(f) => assert_eq!(f, "Hi"),
        other => panic!("unexpected: {:?}", other),
    }
}

#[test]
fn frames_without_content_are_skipped() {
    let no_content = "data: {\"choices\":[{\"delta\":{},\"index\":0,\"finish_reason\":\"stop\"}],\"id\":\"c\",\"object\":\"o\",\"created\":1,\"model\":\"m\"}";
    assert!(matches!(classify_line(no_content), LineStep::Skip));
    assert!(matches!(classify_line("data: not json"), LineStep::Skip));
    assert!(matches!(classify_line(""), LineStep::Skip));
    assert!(matches!(classify_line("event: ping"), LineStep::Skip));
}

#[test]
fn whitespace_trimming() {
    assert_eq!(trim_ws("  hi \r\n"), "hi");
    assert_eq!(trim_ws("hi"), "hi");
    assert_eq!(trim_ws(" \t "), "");
}

#[test]
fn stream_keeps_order_and_flushes_footer_once() {
    let mut a = StreamAssembler::new("the footer".to_string());
    let mut items: Vec<String> = Vec::new();
    for chunk in ["alpha", "beta", "gamma"] {
        items.push(a.on_chunk(chunk.to_string()));
    }
    items.push(a.finish());
    assert_eq!(items, vec!["alpha", "beta", "gamma", "the footer"]);
}

#[test]
fn assistant_message_wraps_content() {
    let m = ChatMessage::assistant("done".to_string());
    assert_eq!(m.role, "assistant");
    assert_eq!(m.content, "done");
}
