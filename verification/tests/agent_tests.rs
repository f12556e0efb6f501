use agenticlaw::context::{sleep_due, ContextManager};
use agenticlaw::llm::{ContentBlock, LlmContent, LlmMessage};
use agenticlaw::subagent::{purpose_hash_name, try_purpose_hash_name, hash_name_with};
use agenticlaw::types::SessionKey;

#[test]
fn session_key_basics() {
    let key = SessionKey::new("test-session");
    assert_eq!(key.as_str(), "test-session");
    assert_eq!(key.to_string(), "test-session");
}

#[test]
fn context_manager_estimate_tokens() {
    assert_eq!(ContextManager::estimate_tokens(""), 0);
    assert_eq!(ContextManager::estimate_tokens("hi"), 1);
    assert_eq!(ContextManager::estimate_tokens("hello"), 2);
    assert_eq!(ContextManager::estimate_tokens("hello world"), 3);
}

#[test]
fn test_token_estimation() {
    assert_eq!(ContextManager::estimate_tokens("hello"), 2);
    assert_eq!(ContextManager::estimate_tokens("hello world"), 3);
}

#[test]
fn context_manager_message_tokens() {
    let msg = LlmMessage {
        role: "user".into(),
        content: LlmContent::Text("hello world".into()),
    };
    let tokens = ContextManager::message_tokens(&msg);
    assert_eq!(tokens, 13);
}

#[test]
fn context_manager_message_tokens_blocks() {
    let msg = LlmMessage {
        role: "assistant".into(),
        content: LlmContent::Blocks(vec![
            ContentBlock::Text { text: "hi".into() },
            ContentBlock::ToolUse {
                id: "tc-1".into(),
                name: "read".into(),
                input: "{\"path\":\"/tmp/foo\"}".into(),
            },
        ]),
    };
    let tokens = ContextManager::message_tokens(&msg);
    assert!(tokens > 10, "Expected > 10 tokens, got {}", tokens);
}

#[test]
fn context_manager_calculate_total() {
    let cm = ContextManager::new(100_000);
    let messages = vec![
        LlmMessage { role: "user".into(), content: LlmContent::Text("hello".into()) },
        LlmMessage { role: "assistant".into(), content: LlmContent::Text("hi there".into()) },
    ];
    let total = cm.calculate_total(&messages);
    assert!(total > 20, "Expected > 20 tokens, got {}", total);
}

#[test]
fn context_manager_set_system_adds_tokens() {
    let mut cm = ContextManager::new(100_000);
    let empty_total = cm.calculate_total(&[]);
    assert_eq!(empty_total, 0);
    cm.set_system("You are a helpful assistant.");
    let with_system = cm.calculate_total(&[]);
    assert!(with_system > 0, "System prompt should add tokens");
}

#[test]
fn context_manager_compact_removes_old_messages() {
    let cm = ContextManager::new(100);
    let mut messages: Vec<LlmMessage> = (0..50)
        .map(|i| LlmMessage {
            role: "user".into(),
            content: LlmContent::Text(format!(
                "This is message number {} with some padding text to use tokens",
                i
            )),
        })
        .collect();
    let before = messages.len();
    cm.compact(&mut messages);
    assert!(messages.len() < before, "Compaction should remove messages: {} -> {}", before, messages.len());
    assert!(messages.len() >= 2, "Should keep at least 2 messages");
}

#[test]
fn context_manager_no_compact_under_limit() {
    let cm = ContextManager::new(1_000_000);
    let mut messages = vec![LlmMessage { role: "user".into(), content: LlmContent::Text("hello".into()) }];
    let before = messages.len();
    cm.compact(&mut messages);
    assert_eq!(messages.len(), before, "Should not compact under limit");
}

#[test]
fn context_manager_compact_empty() {
    let cm = ContextManager::new(100);
    let mut messages: Vec<LlmMessage> = Vec::new();
    cm.compact(&mut messages);
    assert!(messages.is_empty());
}

#[test]
fn compaction_keeps_first_and_last_message() {
    let cm = ContextManager::new(100);
    let mut messages: Vec<LlmMessage> = (0..50)
        .map(|i| LlmMessage { role: "user".into(), content: LlmContent::Text(format!("message {} with padding padding padding", i)) })
        .collect();
    cm.compact(&mut messages);
    match (&messages[0].content, &messages[messages.len() - 1].content) {
        (LlmContent::Text(a), LlmContent::Text(b)) => {
            assert_eq!(a, "message 0 with padding padding padding");
            assert_eq!(b, "message 49 with padding padding padding");
        }
        _ => panic!("expected text"),
    }
}

#[test]
fn test_purpose_hash_name_format() {
    let name = purpose_hash_name("Fix slider CSS bug in dashboard");
    assert!(name.contains('-'));
    let parts: Vec<&str> = name.rsplitn(2, '-').collect();
    assert_eq!(parts[0].len(), 5);
    assert!(parts[0].chars().all(|c| c.is_ascii_hexdigit()));
}

#[test]
fn test_purpose_hash_truncation() {
    let name = purpose_hash_name("This is a very long purpose that exceeds twenty characters by far");
    let parts: Vec<&str> = name.rsplitn(2, '-').collect();
    assert!(parts[1].len() <= 20);
}

#[test]
fn hash_name_is_exact_for_a_given_hash() {
    assert_eq!(hash_name_with("Fix slider CSS bug in dashboard", 0xabcdef12), "fix-slider-css-bug-def12");
    assert!(try_purpose_hash_name("Fix slider CSS").is_some());
}

#[test]
fn sleep_is_due_past_the_threshold_share() {
    assert!(!sleep_due(110_000, 550, 200_000));
    assert!(sleep_due(110_001, 550, 200_000));
    assert!(!sleep_due(0, 0, 200_000));
    assert!(sleep_due(1, 0, 200_000));
}
