use agenticlaw::llm::StreamDelta;
use agenticlaw::sse::{drain_events, event_fields, SseDecoder, SsePayload};

#[test]
fn drain_cuts_complete_blocks_and_keeps_the_rest() {
    let (blocks, rest) = drain_events("event: a\ndata: 1\n\nevent: b\ndata: 2\n\nevent: c\nda");
    assert_eq!(blocks, vec!["event: a\ndata: 1".to_string(), "event: b\ndata: 2".to_string()]);
    assert_eq!(rest, "event: c\nda");
    let (blocks, rest) = drain_events("no end yet");
    assert!(blocks.is_empty());
    assert_eq!(rest, "no end yet");
    let (blocks, rest) = drain_events("a\n\n\nb");
    assert_eq!(blocks, vec!["a".to_string()]);
    assert_eq!(rest, "\nb");
}

#[test]
fn fields_take_the_last_lines_and_skip_empty_data() {
    let f = event_fields("event: content_block_delta\r\ndata: {\"x\":1}");
    assert_eq!(f, Some(("content_block_delta".to_string(), "{\"x\":1}".to_string())));
    let f = event_fields("event: a\nevent: b\ndata: 1\ndata: 2");
    assert_eq!(f, Some(("b".to_string(), "2".to_string())));
    assert_eq!(event_fields("event: ping"), None);
    assert_eq!(event_fields(": comment\ndata: x"), Some((String::new(), "x".to_string())));
}

#[test]
fn decoder_follows_a_tool_call() {
    let mut d = SseDecoder::new();
    let start = d.on_event(
        "content_block_start",
        SsePayload::ToolUseStart { id: "t1".to_string(), name: "read".to_string() },
    );
    assert!(matches!(start, Some(Ok(StreamDelta::ToolCallStart { ref id, ref name })) if id == "t1" && name == "read"));
    let args = d.on_event("content_block_delta", SsePayload::InputJsonDelta("{\"p\":".to_string()));
    assert!(matches!(args, Some(Ok(StreamDelta::ToolCallDelta { ref id, ref arguments })) if id == "t1" && arguments == "{\"p\":"));
    let end = d.on_event("content_block_stop", SsePayload::Other);
    assert!(matches!(end, Some(Ok(StreamDelta::ToolCallEnd { ref id })) if id == "t1"));
    assert!(d.current_tool_id.is_none());
    assert!(d.on_event("content_block_stop", SsePayload::Other).is_none());
    let late = d.on_event("content_block_delta", SsePayload::InputJsonDelta("x".to_string()));
    assert!(late.is_none());
}

#[test]
fn decoder_passes_text_and_ends() {
    let mut d = SseDecoder::new();
    let t = d.on_event("content_block_delta", SsePayload::TextDelta("Hi".to_string()));
    assert!(matches!(t, Some(Ok(StreamDelta::Text(ref s))) if s == "Hi"));
    let th = d.on_event("content_block_delta", SsePayload::ThinkingDelta("hmm".to_string()));
    assert!(matches!(th, Some(Ok(StreamDelta::Thinking(ref s))) if s == "hmm"));
    assert!(d.on_event("content_block_start", SsePayload::TextStart).is_none());
    assert!(d.on_event("message_delta", SsePayload::Other).is_none());
    let done = d.on_event("message_stop", SsePayload::Other);
    assert!(matches!(done, Some(Ok(StreamDelta::Done { stop_reason: Some(ref r), usage: None })) if r == "end_turn"));
    let err = d.on_event("error", SsePayload::ErrorMessage("overloaded".to_string()));
    assert!(matches!(err, Some(Err(ref m)) if m == "overloaded"));
    assert!(d.on_event("ping", SsePayload::Other).is_none());
}

#[test]
fn drained_blocks_and_rest_rejoin_to_the_buffer() {
    let buffer = "event: a\ndata: 1\n\n\n\nevent: b\ndata: {}\n\npartial";
    let (blocks, rest) = drain_events(buffer);
    let mut parts = blocks.clone();
    parts.push(rest);
    assert_eq!(parts.join("\n\n"), buffer);
}
