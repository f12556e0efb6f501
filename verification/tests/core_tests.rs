use agenticlaw::types::{AuthConfig, AuthMode, BindMode, Error, ExtendedConfig, GatewayConfig, Message, Role, RpcResponse, SessionKey};

#[test]
fn session_key_new_and_display() {
    let key = SessionKey::new("abc-123");
    assert_eq!(key.as_str(), "abc-123");
    assert_eq!(key.to_string(), "abc-123");
}

#[test]
fn session_key_clone_is_cheap() {
    let key = SessionKey::new("test");
    let cloned = key.clone();
    assert_eq!(key, cloned);
    assert_eq!(key.as_str(), cloned.as_str());
}

#[test]
fn session_key_from_string() {
    let key: SessionKey = "hello".into();
    assert_eq!(key.as_str(), "hello");
    let key2: SessionKey = String::from("world").into();
    assert_eq!(key2.as_str(), "world");
}

#[test]
fn session_key_equality_and_hash() {
    let a = SessionKey::new("same");
    let b = SessionKey::new("same");
    let c = SessionKey::new("different");
    assert_eq!(a, b);
    assert_ne!(a, c);
    let mut set = std::collections::HashSet::new();
    set.insert(a.clone());
    assert!(set.contains(&b));
    assert!(!set.contains(&c));
}

#[test]
fn message_system_constructor() {
    let msg = Message::system("You are helpful");
    assert_eq!(msg.role, Role::System);
    assert_eq!(msg.content, "You are helpful");
    assert!(msg.tool_calls.is_none());
    assert!(msg.tool_call_id.is_none());
}

#[test]
fn message_user_constructor() {
    let msg = Message::user("Hello");
    assert_eq!(msg.role, Role::User);
    assert_eq!(msg.content, "Hello");
}

#[test]
fn message_assistant_constructor() {
    let msg = Message::assistant("Hi there");
    assert_eq!(msg.role, Role::Assistant);
    assert_eq!(msg.content, "Hi there");
}

#[test]
fn message_tool_result_constructor() {
    let msg = Message::tool_result("tc-123", "file contents");
    assert_eq!(msg.role, Role::Tool);
    assert_eq!(msg.content, "file contents");
    assert_eq!(msg.tool_call_id.as_deref(), Some("tc-123"));
}

#[test]
fn gateway_config_defaults() {
    let config = GatewayConfig::default();
    assert_eq!(config.port, 18789);
    assert!(matches!(config.bind, BindMode::Lan));
    assert!(matches!(config.auth.mode, AuthMode::Token));
}

#[test]
fn bind_mode_to_addr() {
    assert_eq!(BindMode::Loopback.to_addr(), "127.0.0.1");
    assert_eq!(BindMode::Lan.to_addr(), "0.0.0.0");
}

#[test]
fn auth_config_defaults() {
    let config = AuthConfig::default();
    assert!(matches!(config.mode, AuthMode::Token));
    assert!(config.token.is_none());
}

#[test]
fn error_auth_failed() {
    let e = Error::auth_failed("bad creds");
    assert!(e.to_string().contains("bad creds"));
    assert!(matches!(e, Error::AuthFailed { .. }));
}

#[test]
fn error_llm_error() {
    let e = Error::llm_error("anthropic", "rate limited");
    assert!(e.to_string().contains("anthropic"));
    assert!(e.to_string().contains("rate limited"));
}

#[test]
fn error_tool_error() {
    let e = Error::tool_error("read", "file not found");
    assert!(e.to_string().contains("read"));
    assert!(e.to_string().contains("file not found"));
}

#[test]
fn error_display_all_variants() {
    let errors: Vec<Error> = vec![
        Error::AuthFailed { reason: "x".into() },
        Error::ConnectionClosed("x".into()),
        Error::InvalidMessage("x".into()),
        Error::SessionNotFound("x".into()),
        Error::MethodNotFound("x".into()),
        Error::LlmError { provider: "p".into(), message: "m".into() },
        Error::ToolError { name: "n".into(), message: "m".into() },
        Error::ConfigError("x".into()),
        Error::Internal("x".into()),
    ];
    for e in errors {
        let _ = e.to_string();
    }
}

#[test]
fn error_texts_are_exact() {
    assert_eq!(Error::auth_failed("bad").to_string(), "authentication failed: bad");
    assert_eq!(Error::llm_error("p", "m").to_string(), "llm error: p - m");
    assert_eq!(Error::tool_error("n", "m").to_string(), "tool error: n - m");
    assert_eq!(Error::IoError("gone".into()).to_string(), "io error: gone");
    assert_eq!(Error::JsonError("bad".into()).to_string(), "json error: bad");
    assert_eq!(Error::Internal("x".into()).to_string(), "internal error: x");
}

#[test]
fn extended_config_api_key() {
    let mut c = ExtendedConfig::with_workspace("/ws".into());
    assert_eq!(c.gateway.port, 18789);
    assert_eq!(c.api_key(Some("env".into())).unwrap(), "env");
    match c.api_key(None) {
        Err(Error::ConfigError(m)) => assert_eq!(m, "ANTHROPIC_API_KEY not set"),
        _ => panic!("expected a refusal"),
    }
    c.anthropic_api_key = Some("cfg".into());
    assert_eq!(c.api_key(Some("env".into())).unwrap(), "cfg");
}

fn ok_object() -> serde_json::Value {
    let mut m = serde_json::Map::new();
    m.insert("ok".to_string(), serde_json::Value::Bool(true));
    serde_json::Value::Object(m)
}

#[test]
fn rpc_response_ok() {
    let resp = RpcResponse::ok("req-1", ok_object());
    assert_eq!(resp.id, "req-1");
    assert_eq!(resp.result.unwrap()["ok"], serde_json::Value::Bool(true));
    assert!(resp.error.is_none());
}

#[test]
fn rpc_response_error() {
    let resp = RpcResponse::err("req-1", -32601, "method not found");
    assert_eq!(resp.id, "req-1");
    let e = resp.error.unwrap();
    assert_eq!(e.message, "method not found");
    assert_eq!(e.code, -32601);
    assert!(resp.result.is_none());
}

#[test]
fn rpc_response_method_not_found() {
    let resp = RpcResponse::method_not_found("req-1", "foo.bar");
    let e = resp.error.unwrap();
    assert!(e.message.contains("foo.bar"));
    assert_eq!(e.code, -32601);
}

#[test]
fn rpc_response_internal_error() {
    let resp = RpcResponse::internal_error("req-1", "something broke");
    let e = resp.error.unwrap();
    assert!(e.message.contains("something broke"));
    assert_eq!(e.code, -32603);
}

#[test]
fn rpc_response_auth_error() {
    let resp = RpcResponse::auth_error("req-1", "bad token");
    let e = resp.error.unwrap();
    assert!(e.message.contains("bad token"));
    assert_eq!(e.code, -32000);
}
