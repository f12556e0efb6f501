use agenticlaw::auth::ResolvedAuth;
use agenticlaw::queue::OutputEvent;
use agenticlaw::rpc::{chat_send_params, rpc_call_of, forward_event, required_param, route, to_response, Forward, RpcMethod};
use agenticlaw::runtime::AgentEvent;
use agenticlaw::types::{AuthMode, Error, RpcResponse};

#[test]
fn test_token_auth() {
    let auth = ResolvedAuth { mode: AuthMode::Token, token: Some("test-token-123".into()) };
    assert!(auth.verify_token(Some("test-token-123")).is_ok());
    assert!(auth.verify_token(Some("wrong-token")).is_err());
    assert!(auth.verify_token(None).is_err());
}

#[test]
fn test_no_auth() {
    let auth = ResolvedAuth { mode: AuthMode::Disabled, token: None };
    assert!(auth.verify_token(None).is_ok());
    assert!(auth.verify_token(Some("anything")).is_ok());
}

#[test]
fn token_auth_refusal_reasons() {
    let auth = ResolvedAuth { mode: AuthMode::Token, token: None };
    match auth.verify_token(Some("x")) {
        Err(Error::AuthFailed { reason }) => assert_eq!(reason, "no token configured"),
        _ => panic!("expected a refusal"),
    }
    let auth = ResolvedAuth { mode: AuthMode::Token, token: Some("t".into()) };
    match auth.verify_token(None) {
        Err(Error::AuthFailed { reason }) => assert_eq!(reason, "token required"),
        _ => panic!("expected a refusal"),
    }
    match auth.verify_token(Some("u")) {
        Err(Error::AuthFailed { reason }) => assert_eq!(reason, "invalid token"),
        _ => panic!("expected a refusal"),
    }
}

#[test]
fn routing_refuses_unauthenticated_and_unknown_methods() {
    assert!(matches!(route("chat.send", true), Ok(RpcMethod::ChatSend)));
    assert!(matches!(route("ctx.read", true), Ok(RpcMethod::CtxRead)));
    match route("chat.send", false) {
        Err((code, msg)) => {
            assert_eq!(code, -32000);
            assert_eq!(msg, "Not authenticated");
        }
        _ => panic!("expected a refusal"),
    }
    match route("auth", false) {
        Err((code, msg)) => {
            assert_eq!(code, -32601);
            assert_eq!(msg, "Method not found: auth");
        }
        _ => panic!("expected a refusal"),
    }
    match required_param(None, "session") {
        Err((code, msg)) => {
            assert_eq!(code, -32602);
            assert_eq!(msg, "Missing required param: session");
        }
        _ => panic!("expected a refusal"),
    }
}

#[test]
fn agent_events_forward_to_output_events() {
    match forward_event("s1", AgentEvent::Text("hi".into())) {
        Forward::Send(OutputEvent::Delta { session, content }) => {
            assert_eq!(session, "s1");
            assert_eq!(content, "hi");
        }
        _ => panic!("expected a delta"),
    }
    assert!(matches!(forward_event("s1", AgentEvent::Done { stop_reason: "end_turn".into() }), Forward::TurnDone));
    assert!(matches!(forward_event("s1", AgentEvent::AgentStart), Forward::Skip));
}

#[test]
fn rpc_responses_carry_results_and_errors() {
    let ok = RpcResponse::ok("req-1", serde_json::Value::Bool(true));
    assert_eq!(ok.id, "req-1");
    assert_eq!(ok.result, Some(serde_json::Value::Bool(true)));
    assert!(ok.error.is_none());
    let nf = RpcResponse::method_not_found("req-2", "chat.fly");
    let e = nf.error.unwrap();
    assert_eq!(e.code, -32601);
    assert_eq!(e.message, "Method not found: chat.fly");
    assert_eq!(RpcResponse::internal_error("a", "boom").error.unwrap().code, -32603);
    assert_eq!(RpcResponse::auth_error("a", "no").error.unwrap().code, -32000);
    let r = to_response("req-3", Err((-32602, "Missing param: session".to_string())));
    assert!(r.result.is_none());
    assert_eq!(r.error.unwrap().message, "Missing param: session");
    let r = to_response("req-4", Ok(serde_json::Value::from(7)));
    assert_eq!(r.result, Some(serde_json::Value::from(7)));
}

#[test]
fn rpc_request_parse_chat_send() {
    let json = r#"{"id":"req-1","method":"chat.send","params":{"session":"main","message":"hello"}}"#;
    let req = rpc_call_of(json).unwrap();
    assert_eq!(req.id, "req-1");
    assert_eq!(req.method, "chat.send");
    let value: serde_json::Value = serde_json::from_str(json).unwrap();
    let params = chat_send_params(&value["params"].to_string()).unwrap();
    assert_eq!(params.session, "main");
    assert_eq!(params.message, "hello");
}

#[test]
fn rpc_call_needs_string_id_and_method() {
    assert!(rpc_call_of(r#"{"id":"req-2","method":"sessions.list"}"#).is_some());
    assert!(rpc_call_of(r#"{"id":7,"method":"sessions.list"}"#).is_none());
    assert!(rpc_call_of(r#"{"id":"req-3"}"#).is_none());
    assert!(rpc_call_of("not json").is_none());
}
