use agenticlaw::ctx_file::{
    assistant_text, header, is_ctx_file, is_session_file_of, latest_ctx, latest_for_session, parse_ctx,
    session_ctx_path_at, sessions_dir, tool_call, tool_result, user_message,
};

#[test]
fn create_and_read() {
    let content = header(
        "s1",
        "2026-02-16T12:00:00Z",
        Some("/workspace"),
        &["You are an agent.".into(), "Available tools: read, write".into()],
    );
    assert!(content.contains("--- session: s1 ---"));
    assert!(content.contains("cwd: /workspace"));
    assert!(content.contains("You are an agent."));
    assert!(content.contains("Available tools"));
    assert_eq!(
        content,
        "--- session: s1 ---\nstarted: 2026-02-16T12:00:00Z\ncwd: /workspace\n\n--- 2026-02-16T12:00:00Z ---\nYou are an agent.\n\nAvailable tools: read, write\n\n"
    );
}

#[test]
fn append_user_and_assistant() {
    let mut content = header("s1", "2026-02-16T12:00:00Z", None, &[]);
    content.push_str(&user_message("2026-02-16T12:00:01Z", "Hello"));
    content.push_str(&assistant_text("2026-02-16T12:00:02Z", "Hi there!"));
    assert!(content.contains("<up>\nHello\n</up>"));
    assert!(content.contains("Hi there!"));
    assert!(!content.contains("<up>\nHi there!"));
}

#[test]
fn append_tool_result_as_up() {
    let block = tool_result("2026-02-16T12:00:03Z", "read", "file contents here", false);
    assert!(block.contains("<up>"));
    assert!(block.contains("[tool:read] file contents here"));
    assert!(block.contains("</up>"));
    assert_eq!(block, "--- 2026-02-16T12:00:03Z ---\n<up>\n[tool:read] file contents here\n</up>\n\n");
    let failed = tool_result("t", "exec", "  boom \n", true);
    assert_eq!(failed, "--- t ---\n<up>\n[tool:exec] error: boom\n</up>\n\n");
}

#[test]
fn long_tool_results_are_shortened() {
    let content: String = (1..=40).map(|i| format!("line {}\n", i)).collect();
    let block = tool_result("t", "read", &content, false);
    assert!(block.contains("line 15\n  ... (10 lines omitted)\nline 26"));
    assert!(!block.contains("line 16\n"));
    assert!(block.ends_with("line 40\n</up>\n\n"));
}

#[test]
fn full_conversation_flow() {
    let mut content = header("conv-001", "2026-02-16T12:00:00Z", Some("/workspace"), &["You are helpful.".into()]);
    content.push_str(&user_message("2026-02-16T12:00:01Z", "Read /tmp/foo.txt"));
    content.push_str(&assistant_text("2026-02-16T12:00:02Z", "Let me read that file."));
    content.push_str(&tool_call("read", "/tmp/foo.txt"));
    content.push_str(&tool_result("2026-02-16T12:00:03Z", "read", "hello world", false));
    content.push_str(&assistant_text("2026-02-16T12:00:04Z", "The file contains: hello world"));
    assert!(content.contains("--- session: conv-001 ---"));
    assert!(content.contains("You are helpful."));
    assert!(content.contains("<up>\nRead /tmp/foo.txt\n</up>"));
    assert!(content.contains("Let me read that file."));
    assert!(content.contains("[tool:read] /tmp/foo.txt"));
    assert!(content.contains("<up>\n[tool:read] hello world\n</up>"));
    assert!(content.contains("The file contains: hello world"));

    let resumed = parse_ctx("/w/conv.ctx", &content);
    assert_eq!(resumed.session_id, "conv-001");
    assert_eq!(resumed.ctx_path, "/w/conv.ctx");
    assert_eq!(resumed.system_prompt.as_deref(), Some("You are helpful."));
    let expected: Vec<(String, String)> = vec![
        ("user".into(), "Read /tmp/foo.txt".into()),
        ("assistant".into(), "Let me read that file.\n\n[tool:read] /tmp/foo.txt".into()),
        ("user".into(), "[tool:read] hello world".into()),
        ("assistant".into(), "The file contains: hello world".into()),
    ];
    assert_eq!(resumed.messages, expected);
}

#[test]
fn resume_of_a_file_without_preload() {
    let mut content = header("s9", "t0", None, &[]);
    content.push_str(&assistant_text("t1", "first words"));
    content.push_str(&user_message("t2", "  "));
    let resumed = parse_ctx("p", &content);
    assert_eq!(resumed.session_id, "s9");
    assert_eq!(resumed.system_prompt.as_deref(), Some("first words"));
    assert!(resumed.messages.is_empty());
}

#[test]
fn session_paths() {
    assert_eq!(sessions_dir("/ws"), "/ws/.agenticlaw/sessions");
    assert_eq!(sessions_dir("/ws/.agenticlaw"), "/ws/.agenticlaw/sessions");
    assert_eq!(sessions_dir("/ws/.agenticlaw/"), "/ws/.agenticlaw/sessions");
    assert_eq!(
        session_ctx_path_at("/ws", "20260216-120000", "main"),
        "/ws/.agenticlaw/sessions/20260216-120000-main.ctx"
    );
}

#[test]
fn picking_the_latest_session_file() {
    let names: Vec<String> = vec![
        "20260101-000000-main.ctx".into(),
        "notes.txt".into(),
        "20260301-000000-other.ctx".into(),
        "20260201-000000-main.ctx".into(),
        ".ctx".into(),
    ];
    assert_eq!(latest_ctx(&names), Some(2));
    assert_eq!(latest_for_session(&names, "main"), Some(3));
    assert_eq!(latest_for_session(&names, "none"), None);
    assert!(is_ctx_file("a.ctx"));
    assert!(!is_ctx_file(".ctx"));
    assert!(is_session_file_of("main.ctx", "main"));
    assert!(!is_session_file_of("xmain.ctx", "main"));
    let none: Vec<String> = vec!["a.txt".into()];
    assert_eq!(latest_ctx(&none), None);
}

#[test]
fn an_exchange_reads_back() {
    let mut content = header("s1", "t0", None, &[]);
    content.push_str(&user_message("t1", "What is 2+2?"));
    content.push_str(&assistant_text("t2", "Four."));
    let resumed = parse_ctx("x.ctx", &content);
    assert_eq!(resumed.session_id, "s1");
    assert!(resumed.system_prompt.is_none());
    assert_eq!(
        resumed.messages,
        vec![("user".to_string(), "What is 2+2?".to_string()), ("assistant".to_string(), "Four.".to_string())]
    );
}

#[test]
fn several_exchanges_read_back_in_order() {
    let mut content = header("s-42", "2025-01-01T00:00:00Z", None, &[]);
    let exchanges = [("t1", "hello there", "t2", "hi!"), ("t3", "and again", "t4", "sure thing"), ("t5", "bye", "t6", "ok")];
    for (ts1, m, ts2, r) in exchanges.iter() {
        content.push_str(&user_message(ts1, m));
        content.push_str(&assistant_text(ts2, r));
    }
    let resumed = parse_ctx("s.ctx", &content);
    assert_eq!(resumed.session_id, "s-42");
    assert!(resumed.system_prompt.is_none());
    let expected: Vec<(String, String)> = exchanges
        .iter()
        .flat_map(|(_, m, _, r)| vec![("user".to_string(), m.to_string()), ("assistant".to_string(), r.to_string())])
        .collect();
    assert_eq!(resumed.messages, expected);
}
