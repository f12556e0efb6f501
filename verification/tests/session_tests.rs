use agenticlaw::llm::{ContentBlock, LlmContent, LlmMessage};
use agenticlaw::session::{assistant_ctx_text, assistant_with_tools, combined_system_prompt, push_tool_result, resumed_messages};

fn block_count(m: &LlmMessage) -> usize {
    match &m.content {
        LlmContent::Blocks(b) => b.len(),
        LlmContent::Text(_) => 0,
    }
}

#[test]
fn system_prompt_joins_preloads_and_extra() {
    assert_eq!(combined_system_prompt(&vec![], Some("sys")), Some("sys".to_string()));
    assert_eq!(combined_system_prompt(&vec![], None), None);
    let pre = vec!["# SOUL".to_string(), "# AGENTS".to_string()];
    assert_eq!(combined_system_prompt(&pre, None), Some("# SOUL\n\n# AGENTS".to_string()));
    assert_eq!(combined_system_prompt(&pre, Some("extra")), Some("# SOUL\n\n# AGENTS\n\nextra".to_string()));
}

#[test]
fn tool_results_of_a_turn_share_one_user_message() {
    let mut ms = vec![LlmMessage { role: "user".to_string(), content: LlmContent::Text("hi".to_string()) }];
    ms.push(assistant_with_tools(
        Some("let me look"),
        vec![
            ContentBlock::ToolUse { id: "a".to_string(), name: "read".to_string(), input: "{}".to_string() },
            ContentBlock::ToolUse { id: "b".to_string(), name: "glob".to_string(), input: "{}".to_string() },
        ],
    ));
    assert_eq!(block_count(&ms[1]), 3);
    push_tool_result(&mut ms, "a", "file text", false);
    assert_eq!(ms.len(), 3);
    push_tool_result(&mut ms, "b", "no match", true);
    assert_eq!(ms.len(), 3);
    assert_eq!(ms[2].role, "user");
    assert_eq!(block_count(&ms[2]), 2);
    match &ms[2].content {
        LlmContent::Blocks(b) => {
            assert!(matches!(&b[0], ContentBlock::ToolResult { tool_use_id, is_error: None, .. } if tool_use_id == "a"));
            assert!(matches!(&b[1], ContentBlock::ToolResult { tool_use_id, is_error: Some(true), .. } if tool_use_id == "b"));
        }
        _ => panic!("expected blocks"),
    }
}

#[test]
fn tool_result_after_plain_user_text_starts_a_message() {
    let mut ms = vec![LlmMessage { role: "user".to_string(), content: LlmContent::Text("hi".to_string()) }];
    push_tool_result(&mut ms, "x", "out", false);
    assert_eq!(ms.len(), 2);
    let mut empty: Vec<LlmMessage> = Vec::new();
    push_tool_result(&mut empty, "x", "out", false);
    assert_eq!(empty.len(), 1);
    assert_eq!(empty[0].role, "user");
}

#[test]
fn assistant_message_skips_empty_text() {
    let m = assistant_with_tools(Some(""), vec![]);
    assert_eq!(m.role, "assistant");
    assert_eq!(block_count(&m), 0);
    let m = assistant_with_tools(None, vec![ContentBlock::Text { text: "t".to_string() }]);
    assert_eq!(block_count(&m), 1);
}

#[test]
fn resumed_messages_keep_roles_and_order() {
    let ms = resumed_messages(&vec![
        ("user".to_string(), "q".to_string()),
        ("assistant".to_string(), "a".to_string()),
    ]);
    assert_eq!(ms.len(), 2);
    assert_eq!(ms[1].role, "assistant");
    assert!(matches!(&ms[0].content, LlmContent::Text(t) if t == "q"));
}

#[test]
fn assistant_ctx_text_lists_tool_calls() {
    let calls = vec![
        ContentBlock::ToolUse { id: "a".to_string(), name: "read".to_string(), input: r#"{"path":"/tmp/x","n":3}"#.to_string() },
        ContentBlock::ToolUse { id: "b".to_string(), name: "glob".to_string(), input: r#"{"n":3}"#.to_string() },
        ContentBlock::ToolUse { id: "c".to_string(), name: "ls".to_string(), input: "null".to_string() },
    ];
    assert_eq!(
        assistant_ctx_text(Some("Looking."), &calls),
        "Looking.\n[tool:read] n=3\n[tool:glob] n=3\n[tool:ls]"
    );
    assert_eq!(assistant_ctx_text(None, &vec![]), "");
}

#[test]
fn tool_line_shows_a_string_value_bare() {
    let calls = vec![
        ContentBlock::ToolUse { id: "a".to_string(), name: "bash".to_string(), input: r#"{"command":"ls -la"}"#.to_string() },
        ContentBlock::ToolUse { id: "b".to_string(), name: "edit".to_string(), input: r#"{"changes":[1,"x"]}"#.to_string() },
    ];
    assert_eq!(
        assistant_ctx_text(None, &calls),
        "[tool:bash] command=ls -la\n[tool:edit] changes=[1,\"x\"]"
    );
}
