use agenticlaw::llm::{provider_request, status_error, LlmError, tool_use_blocks, validate_and_heal_messages, AccumulatedToolCall, ContentBlock, LlmContent, LlmMessage, Usage};

#[test]
fn accumulated_tool_call_default() {
    let tc = AccumulatedToolCall::default();
    assert!(tc.id.is_empty());
    assert!(tc.name.is_empty());
    assert!(tc.arguments.is_empty());
}

#[test]
fn usage_default() {
    let u = Usage::default();
    assert_eq!(u.input_tokens, 0);
    assert_eq!(u.output_tokens, 0);
}

#[test]
fn llm_content_from_string() {
    let c: LlmContent = "hello".into();
    match c {
        LlmContent::Text(s) => assert_eq!(s, "hello"),
        _ => panic!("Expected Text"),
    }
}

#[test]
fn llm_content_from_owned_string() {
    let c: LlmContent = String::from("world").into();
    match c {
        LlmContent::Text(s) => assert_eq!(s, "world"),
        _ => panic!("Expected Text"),
    }
}

#[test]
fn tool_blocks_keep_json_arguments_and_replace_others() {
    let calls = vec![
        AccumulatedToolCall { id: "tc-1".into(), name: "read".into(), arguments: r#"{"path":"/tmp/foo"}"#.into() },
        AccumulatedToolCall { id: "tc-2".into(), name: "read".into(), arguments: "not json".into() },
    ];
    let blocks = tool_use_blocks(&calls);
    assert_eq!(blocks.len(), 2);
    match &blocks[0] {
        ContentBlock::ToolUse { id, name, input } => {
            assert_eq!(id, "tc-1");
            assert_eq!(name, "read");
            assert_eq!(input, r#"{"path":"/tmp/foo"}"#);
        }
        _ => panic!("expected a tool use"),
    }
    match &blocks[1] {
        ContentBlock::ToolUse { input, .. } => assert_eq!(input, "null"),
        _ => panic!("expected a tool use"),
    }
}

#[test]
fn accumulated_tool_call_parse_valid() {
    let tc = AccumulatedToolCall {
        id: "tc-1".into(),
        name: "read".into(),
        arguments: r#"{"path":"/tmp/foo"}"#.into(),
    };
    let parsed = tc.parse_arguments().unwrap();
    assert_eq!(parsed["path"], "/tmp/foo");
}

#[test]
fn accumulated_tool_call_parse_invalid() {
    let tc = AccumulatedToolCall {
        id: "tc-1".into(),
        name: "read".into(),
        arguments: "not json".into(),
    };
    assert!(tc.parse_arguments().is_err());
}

fn call(id: &str) -> ContentBlock {
    ContentBlock::ToolUse { id: id.to_string(), name: "read".to_string(), input: "{}".to_string() }
}

fn result(id: &str) -> ContentBlock {
    ContentBlock::ToolResult { tool_use_id: id.to_string(), content: "ok".to_string(), is_error: None }
}

fn result_ids(m: &LlmMessage) -> Vec<String> {
    match &m.content {
        LlmContent::Blocks(b) => b
            .iter()
            .filter_map(|x| match x {
                ContentBlock::ToolResult { tool_use_id, .. } => Some(tool_use_id.clone()),
                _ => None,
            })
            .collect(),
        LlmContent::Text(_) => vec![],
    }
}

fn msg(role: &str, blocks: Vec<ContentBlock>) -> LlmMessage {
    LlmMessage { role: role.to_string(), content: LlmContent::Blocks(blocks) }
}

#[test]
fn healing_drops_repeated_results() {
    let h = validate_and_heal_messages(&[msg("assistant", vec![call("a")]), msg("user", vec![result("a"), result("a")])]);
    assert_eq!(h.len(), 2);
    assert_eq!(result_ids(&h[1]), vec!["a".to_string()]);
}

#[test]
fn healing_answers_missing_calls_in_the_next_user_message() {
    let h = validate_and_heal_messages(&[
        msg("assistant", vec![call("a"), call("b")]),
        msg("user", vec![result("a")]),
        LlmMessage { role: "assistant".to_string(), content: LlmContent::Text("done".to_string()) },
    ]);
    assert_eq!(h.len(), 3);
    assert_eq!(result_ids(&h[1]), vec!["a".to_string(), "b".to_string()]);
    match &h[1].content {
        LlmContent::Blocks(b) => assert!(matches!(&b[1], ContentBlock::ToolResult { content, is_error: Some(true), .. } if content == "[cancelled] Tool execution was interrupted.")),
        _ => panic!("expected blocks"),
    }
}

#[test]
fn healing_inserts_a_user_message_for_a_trailing_call() {
    let h = validate_and_heal_messages(&[msg("user", vec![]), msg("assistant", vec![call("z")])]);
    assert_eq!(h.len(), 3);
    assert_eq!(h[2].role, "user");
    assert_eq!(result_ids(&h[2]), vec!["z".to_string()]);
}

fn result_with(id: &str, content: &str) -> ContentBlock {
    ContentBlock::ToolResult { tool_use_id: id.to_string(), content: content.to_string(), is_error: None }
}

#[test]
fn healing_drops_repeats_of_a_message_it_extends() {
    let h = validate_and_heal_messages(&[
        msg("assistant", vec![call("a"), call("b")]),
        msg("user", vec![result_with("a", "x"), result_with("a", "y")]),
    ]);
    assert_eq!(h.len(), 2);
    assert_eq!(result_ids(&h[1]), vec!["a".to_string(), "b".to_string()]);
    match &h[1].content {
        LlmContent::Blocks(b) => {
            assert!(matches!(&b[0], ContentBlock::ToolResult { content, is_error: None, .. } if content == "x"));
            assert!(matches!(&b[1], ContentBlock::ToolResult { content, is_error: Some(true), .. } if content == "[cancelled] Tool execution was interrupted."));
        }
        _ => panic!("expected blocks"),
    }
    // A healed history needs no further repair.
    let again = validate_and_heal_messages(&h);
    assert_eq!(again.len(), 2);
    assert_eq!(result_ids(&again[1]), vec!["a".to_string(), "b".to_string()]);
}

#[test]
fn healing_answers_a_repeated_call_once() {
    let h = validate_and_heal_messages(&[msg("assistant", vec![call("a"), call("a")])]);
    assert_eq!(h.len(), 2);
    assert_eq!(result_ids(&h[1]), vec!["a".to_string()]);
}

#[test]
fn tool_block_input_is_compact_json() {
    let tc = AccumulatedToolCall { id: "t".into(), name: "read".into(), arguments: "{ \"b\": 1,\n  \"a\": [1, 2] }".into() };
    match tc.to_block() {
        ContentBlock::ToolUse { input, .. } => assert_eq!(input, r#"{"a":[1,2],"b":1}"#),
        _ => panic!("expected a tool use"),
    }
    let v = tc.parse_arguments().unwrap();
    assert_eq!(v["a"][1], 2);
}

#[test]
fn http_status_decides_the_provider_error() {
    assert!(status_error(200, "200 OK", "").is_none());
    assert!(matches!(status_error(401, "401 Unauthorized", "bad key"), Some(LlmError::AuthFailed(t)) if t == "bad key"));
    assert!(matches!(status_error(429, "429 Too Many Requests", "slow down"), Some(LlmError::RateLimited { retry_after_ms: 60000 })));
    assert!(matches!(status_error(500, "500 Internal Server Error", "oops"), Some(LlmError::RequestFailed(t)) if t == "500 Internal Server Error: oops"));
}

#[test]
fn provider_request_heals_and_defaults() {
    let calls = vec![ContentBlock::ToolUse { id: "t1".into(), name: "read".into(), input: "{}".into() }];
    let history = vec![
        LlmMessage { role: "user".into(), content: LlmContent::Text("hi".into()) },
        LlmMessage { role: "assistant".into(), content: LlmContent::Blocks(calls) },
    ];
    let r = provider_request("sonnet-test", &history, None, Some("sys".into()));
    assert_eq!(r.model, "sonnet-test");
    assert_eq!(r.max_tokens, 8192);
    assert!(r.stream);
    assert_eq!(r.system.as_deref(), Some("sys"));
    assert_eq!(r.messages.len(), 3);
    let r = provider_request("sonnet-test", &history[..1], Some(100), None);
    assert_eq!(r.max_tokens, 100);
    assert_eq!(r.messages.len(), 1);
}
