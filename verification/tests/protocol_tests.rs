use agenticlaw::auth::ResolvedAuth;
use agenticlaw::bee::{all_pass, plan_compatibility, provides, requested_capabilities, self_tests, surface};
use agenticlaw::protocol::{
    connection_step, legacy_call_reply, output_event_to_message, ClientMessage, EventMessage, Incoming,
    IncomingMessage, JsonScalar, Reply, RpcRequest, ServerMessage,
};
use agenticlaw::queue::OutputEvent;
use agenticlaw::types::AuthMode;
use serde_json::Value;

fn scalar_json(s: &JsonScalar) -> Value {
    match s {
        JsonScalar::Str(t) => Value::String(t.clone()),
        JsonScalar::Bool(b) => Value::Bool(*b),
        JsonScalar::Count(n) => Value::from(*n as u64),
        JsonScalar::Null => Value::Null,
    }
}

fn event_value(evt: &EventMessage) -> Value {
    let mut data = serde_json::Map::new();
    for (k, v) in &evt.data {
        data.insert(k.clone(), scalar_json(v));
    }
    let mut m = serde_json::Map::new();
    m.insert("event".to_string(), Value::String(evt.event.clone()));
    m.insert("data".to_string(), Value::Object(data));
    Value::Object(m)
}

fn event_json(evt: &EventMessage) -> String {
    event_value(evt).to_string()
}

fn opt_json(o: &Option<String>) -> Value {
    match o {
        Some(s) => Value::String(s.clone()),
        None => Value::Null,
    }
}

fn server_json(msg: &ServerMessage) -> String {
    let mut m = serde_json::Map::new();
    let mut put = |k: &str, v: Value| {
        m.insert(k.to_string(), v);
    };
    match msg {
        ServerMessage::AuthResult { ok, error } => {
            put("type", "auth_result".into());
            put("ok", Value::Bool(*ok));
            put("error", opt_json(error));
        }
        ServerMessage::Delta { session, content } => {
            put("type", "delta".into());
            put("session", session.as_str().into());
            put("content", content.as_str().into());
        }
        ServerMessage::Thinking { session, content } => {
            put("type", "thinking".into());
            put("session", session.as_str().into());
            put("content", content.as_str().into());
        }
        ServerMessage::ToolCall { session, id, name } => {
            put("type", "tool_call".into());
            put("session", session.as_str().into());
            put("id", id.as_str().into());
            put("name", name.as_str().into());
        }
        ServerMessage::ToolCallDelta { session, id, arguments } => {
            put("type", "tool_call_delta".into());
            put("session", session.as_str().into());
            put("id", id.as_str().into());
            put("arguments", arguments.as_str().into());
        }
        ServerMessage::Done { session } => {
            put("type", "done".into());
            put("session", session.as_str().into());
        }
        ServerMessage::Error { session, message } => {
            put("type", "error".into());
            put("session", session.as_str().into());
            put("message", message.as_str().into());
        }
        ServerMessage::Result { id, result, error } => {
            put("type", "result".into());
            put("id", id.as_str().into());
            if let Some(r) = result {
                put("result", r.clone());
            }
            if let Some(e) = error {
                put("error", e.as_str().into());
            }
        }
        ServerMessage::Pong => put("type", "pong".into()),
        ServerMessage::Info { version, layer } => {
            put("type", "info".into());
            put("version", version.as_str().into());
            put("layer", opt_json(layer));
        }
    }
    Value::Object(m).to_string()
}

fn token_auth(token: &str) -> ResolvedAuth {
    ResolvedAuth { mode: AuthMode::Token, token: Some(token.to_string()) }
}

#[test]
fn event_message_chat_delta() {
    let evt = EventMessage::chat_delta("main", "Hello");
    let json = event_json(&evt);
    assert!(json.contains(r#""event":"chat""#));
    assert!(json.contains(r#""session":"main""#));
    assert!(json.contains(r#""type":"delta""#));
    assert!(json.contains(r#""content":"Hello""#));
}

#[test]
fn event_message_chat_done() {
    let evt = EventMessage::chat_done("main");
    let json = event_json(&evt);
    assert!(json.contains(r#""type":"done""#));
    assert!(json.contains(r#""session":"main""#));
}

#[test]
fn event_message_chat_error() {
    let evt = EventMessage::chat_error("main", "something broke");
    let json = event_json(&evt);
    assert!(json.contains(r#""type":"error""#));
    assert!(json.contains("something broke"));
}

#[test]
fn event_message_chat_tool_call() {
    let evt = EventMessage::chat_tool_call("main", "tc-1", "read");
    let json = event_json(&evt);
    assert!(json.contains(r#""type":"tool_call""#));
    assert!(json.contains(r#""id":"tc-1""#));
    assert!(json.contains(r#""name":"read""#));
}

#[test]
fn event_message_chat_tool_result() {
    let evt = EventMessage::chat_tool_result("main", "tc-1", "read", "file contents", false);
    let json = event_json(&evt);
    assert!(json.contains(r#""type":"tool_result""#));
    assert!(json.contains("file contents"));
}

#[test]
fn event_message_info() {
    let evt = EventMessage::info("0.1.0", Some("gateway"));
    let json = event_json(&evt);
    assert!(json.contains(r#""event":"info""#));
    assert!(json.contains("0.1.0"));
    assert!(json.contains("gateway"));
}

#[test]
fn event_message_pong() {
    let evt = EventMessage::pong();
    let json = event_json(&evt);
    assert!(json.contains(r#""event":"pong""#));
}

#[test]
fn event_message_auth_result() {
    let evt = EventMessage::auth_result(true, None);
    let json = event_json(&evt);
    assert!(json.contains(r#""event":"auth""#));
    assert!(json.contains(r#""ok":true"#));
}

#[test]
fn server_message_auth_ok() {
    let msg = ServerMessage::auth_ok();
    let json = server_json(&msg);
    assert!(json.contains(r#""ok":true"#));
    assert!(json.contains(r#""type":"auth_result""#));
}

#[test]
fn server_message_delta() {
    let msg = ServerMessage::delta("s1", "hello world");
    let json = server_json(&msg);
    assert!(json.contains(r#""type":"delta""#));
    assert!(json.contains("hello world"));
}

#[test]
fn server_message_done() {
    let msg = ServerMessage::done("s1");
    let json = server_json(&msg);
    assert!(json.contains(r#""type":"done""#));
}

#[test]
fn server_message_error() {
    let msg = ServerMessage::error("s1", "something broke");
    let json = server_json(&msg);
    assert!(json.contains(r#""type":"error""#));
    assert!(json.contains("something broke"));
}

#[test]
fn server_message_result_ok() {
    let mut status = serde_json::Map::new();
    status.insert("status".to_string(), Value::String("ok".to_string()));
    let msg = ServerMessage::result_ok("req-1", Value::Object(status));
    let json = server_json(&msg);
    assert!(json.contains(r#""type":"result""#));
    assert!(json.contains(r#""id":"req-1""#));
    assert!(!json.contains(r#""error""#));
}

#[test]
fn server_message_result_error() {
    let msg = ServerMessage::result_error("req-1", "not found");
    let json = server_json(&msg);
    assert!(json.contains("not found"));
    let parsed: Value = serde_json::from_str(&json).unwrap();
    assert!(parsed.get("result").is_none(), "result field should be skipped when None");
}

#[test]
fn server_message_pong() {
    let json = server_json(&ServerMessage::Pong);
    assert!(json.contains(r#""type":"pong""#));
}

#[test]
fn server_message_info() {
    let msg = ServerMessage::Info { version: "0.1.0".into(), layer: Some("gateway".into()) };
    let json = server_json(&msg);
    assert!(json.contains(r#""type":"info""#));
    assert!(json.contains("0.1.0"));
    assert!(json.contains("gateway"));
}

#[test]
fn output_events_get_their_wire_types() {
    let sleep = OutputEvent::Sleep { session: "main".into(), token_count: 105_000 };
    let v = event_value(&output_event_to_message(&sleep));
    assert_eq!(v["event"], "chat");
    assert_eq!(v["data"]["type"], "sleep");
    assert_eq!(v["data"]["session"], "main");
    assert_eq!(v["data"]["token_count"], 105_000);

    let exec = OutputEvent::ToolExecuting { session: "s".into(), id: "t1".into(), name: "bash".into() };
    let v = event_value(&output_event_to_message(&exec));
    assert_eq!(v["data"]["type"], "tool_executing");
    assert_eq!(v["data"]["id"], "t1");
    assert_eq!(v["data"]["name"], "bash");

    let ctx = OutputEvent::CtxUpdate { session: "s".into(), content: "--- x ---".into() };
    let v = event_value(&output_event_to_message(&ctx));
    assert_eq!(v["data"]["type"], "ctx_update");
    assert_eq!(v["data"]["content"], "--- x ---");

    let parked = OutputEvent::ToolParked { session: "s".into(), id: "t2".into(), name: "web".into() };
    let v = event_value(&output_event_to_message(&parked));
    assert_eq!(v["data"]["type"], "tool_parked");

    let res = OutputEvent::ToolResult {
        session: "s".into(),
        id: "t3".into(),
        name: "read".into(),
        result: "ok".into(),
        is_error: true,
    };
    let v = event_value(&output_event_to_message(&res));
    assert_eq!(v["data"]["type"], "tool_result");
    assert_eq!(v["data"]["content"], "ok");
    assert_eq!(v["data"]["is_error"], true);
}

fn auth_request(token: Value) -> Incoming {
    let mut params = serde_json::Map::new();
    params.insert("token".to_string(), token);
    Incoming::Current(IncomingMessage::Rpc(RpcRequest {
        id: "1".into(),
        method: "auth".into(),
        params: Value::Object(params),
    }))
}

#[test]
fn auth_rpc_authenticates_and_answers_ok() {
    let auth = token_auth("secret");
    let (authed, reply) = connection_step(false, auth_request(Value::String("secret".into())), &auth);
    assert!(authed);
    match reply {
        Reply::Respond(r) => {
            assert_eq!(r.id, "1");
            assert_eq!(r.result.unwrap()["ok"], true);
            assert!(r.error.is_none());
        }
        _ => panic!("expected a response"),
    }
}

#[test]
fn auth_rpc_with_wrong_token_is_an_auth_error() {
    let auth = token_auth("secret");
    let (authed, reply) = connection_step(false, auth_request(Value::String("nope".into())), &auth);
    assert!(!authed);
    match reply {
        Reply::Respond(r) => {
            let e = r.error.unwrap();
            assert_eq!(e.code, -32000);
            assert_eq!(e.message, "authentication failed: invalid token");
            assert!(r.result.is_none());
        }
        _ => panic!("expected a response"),
    }
    let (authed, _) = connection_step(false, auth_request(Value::from(7)), &auth);
    assert!(!authed);
}

#[test]
fn other_rpc_requests_are_routed() {
    let auth = token_auth("secret");
    let req = RpcRequest { id: "2".into(), method: "sessions.list".into(), params: Value::Null };
    let (authed, reply) = connection_step(true, Incoming::Current(IncomingMessage::Rpc(req)), &auth);
    assert!(authed);
    assert!(matches!(reply, Reply::RouteRpc(r) if r.method == "sessions.list" && r.id == "2"));
}

#[test]
fn auth_shorthand_answers_with_an_auth_event() {
    let auth = token_auth("secret");
    let (authed, reply) =
        connection_step(false, Incoming::Current(IncomingMessage::Auth { token: Some("secret".into()) }), &auth);
    assert!(authed);
    match reply {
        Reply::Event(e) => {
            let v = event_value(&e);
            assert_eq!(v["event"], "auth");
            assert_eq!(v["data"]["ok"], true);
            assert!(v["data"]["error"].is_null());
        }
        _ => panic!("expected an event"),
    }
    let (authed, reply) =
        connection_step(false, Incoming::Current(IncomingMessage::Auth { token: None }), &auth);
    assert!(!authed);
    match reply {
        Reply::Event(e) => {
            let v = event_value(&e);
            assert_eq!(v["data"]["ok"], false);
            assert_eq!(v["data"]["error"], "authentication failed: token required");
        }
        _ => panic!("expected an event"),
    }
}

#[test]
fn legacy_messages_need_authentication() {
    let auth = token_auth("secret");
    let chat = ClientMessage::Chat { session: "s1".into(), message: "hi".into(), model: None };
    let (authed, reply) = connection_step(false, Incoming::Legacy(chat), &auth);
    assert!(!authed);
    assert!(matches!(reply, Reply::Legacy(ServerMessage::AuthResult { ok: false, error: Some(e) }) if e == "not authenticated"));

    let call = ClientMessage::Call { id: "c1".into(), method: "health".into(), params: Value::Null };
    let (_, reply) = connection_step(false, Incoming::Legacy(call), &auth);
    match reply {
        Reply::Legacy(m) => {
            let json = server_json(&m);
            assert!(json.contains("not authenticated"));
            assert!(json.contains(r#""id":"c1""#));
        }
        _ => panic!("expected a legacy answer"),
    }

    let (authed, reply) =
        connection_step(false, Incoming::Legacy(ClientMessage::Auth { token: Some("secret".into()) }), &auth);
    assert!(authed);
    assert!(matches!(reply, Reply::Legacy(ServerMessage::AuthResult { ok: true, error: None })));

    let chat = ClientMessage::Chat { session: "s1".into(), message: "hi".into(), model: Some("m".into()) };
    let (_, reply) = connection_step(true, Incoming::Legacy(chat), &auth);
    assert!(matches!(reply, Reply::RouteChat(c) if c.session == "s1" && c.message == "hi" && c.model.as_deref() == Some("m")));

    let (_, reply) = connection_step(true, Incoming::Legacy(ClientMessage::Ping), &auth);
    assert!(matches!(reply, Reply::Legacy(ServerMessage::Pong)));

    let (authed, reply) = connection_step(false, Incoming::Legacy(ClientMessage::Abort { session: "s1".into() }), &auth);
    assert!(!authed);
    assert!(matches!(reply, Reply::AbortSession(s) if s == "s1"));

    let (authed, reply) = connection_step(true, Incoming::Unreadable, &auth);
    assert!(authed);
    assert!(matches!(reply, Reply::Ignore));
}

#[test]
fn legacy_call_results() {
    let ok = legacy_call_reply("c1", Ok(Value::Bool(true)));
    assert!(matches!(ok, ServerMessage::Result { ref id, result: Some(Value::Bool(true)), error: None } if id == "c1"));
    let err = legacy_call_reply("c2", Err((-32601, "Method not found: x".into())));
    assert!(matches!(err, ServerMessage::Result { ref id, result: None, error: Some(ref e) } if id == "c2" && e == "Method not found: x"));
}

#[test]
fn plan_reports_missing_capabilities_in_order() {
    let requested = vec!["agent.chat".to_string(), "gpu.cuda".to_string(), "ws.legacy-v2".to_string(), "net.p2p".to_string()];
    let (compatible, missing) = plan_compatibility(&requested);
    assert!(!compatible);
    assert_eq!(missing, vec!["gpu.cuda".to_string(), "net.p2p".to_string()]);
    let (compatible, missing) = plan_compatibility(&vec!["runtime.gateway".to_string()]);
    assert!(compatible);
    assert!(missing.is_empty());
}

#[test]
fn plan_reads_requires_strings() {
    let body = r#"{"requires":["agent.chat", 5, "x.y"]}"#;
    assert_eq!(requested_capabilities(body), vec!["agent.chat".to_string(), "x.y".to_string()]);
    assert!(requested_capabilities(r#"{"requires":"agent.chat"}"#).is_empty());
    assert!(requested_capabilities("{}").is_empty());
}

#[test]
fn surface_lists_capabilities_and_endpoints() {
    let s = surface(vec!["read".to_string()]);
    assert_eq!(s.name, "agenticlaw");
    assert_eq!(s.kind, "runtime");
    assert_eq!(s.provides.len(), 14);
    assert_eq!(s.provides, provides());
    assert!(s.provides.contains(&"consciousness.sleep-wake".to_string()));
    assert_eq!(s.needs, vec!["runtime.rust".to_string()]);
    assert_eq!(s.sacred[2], ("plan".to_string(), "/plan".to_string()));
}

#[test]
fn self_test_passes_only_when_all_pass() {
    let results = self_tests(3, 0, true);
    assert_eq!(results[0].detail, "3 tools loaded");
    assert_eq!(results[1].detail, "0 active sessions");
    assert_eq!(results[2].detail, "ANTHROPIC_API_KEY set");
    assert!(all_pass(&results));
    let results = self_tests(0, 2, true);
    assert!(!results[0].pass);
    assert!(!all_pass(&results));
    let results = self_tests(2, 2, false);
    assert_eq!(results[2].detail, "ANTHROPIC_API_KEY missing");
    assert!(!all_pass(&results));
}
