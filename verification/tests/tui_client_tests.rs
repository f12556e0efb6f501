use agenticlaw::tui::App;
use agenticlaw::tui_client::GatewayEvent;

fn chat(kind: &str) -> GatewayEvent {
    GatewayEvent {
        event: "chat".to_string(),
        kind: kind.to_string(),
        content: None,
        name: None,
        is_error: None,
        message: None,
        version: None,
    }
}

#[test]
fn gateway_chat_events_fill_the_output() {
    let mut app = App::new("m", "s", "p");
    app.agent_running = true;
    let mut d = chat("delta");
    d.content = Some("Hello".to_string());
    app.apply_gateway_event(&d);
    app.apply_gateway_event(&chat("tool_call"));
    let mut r = chat("tool_result");
    r.content = Some("abcdef".to_string());
    app.apply_gateway_event(&r);
    let mut e = chat("tool_result");
    e.content = Some("x".repeat(250));
    e.is_error = Some(true);
    app.apply_gateway_event(&e);
    assert!(app.agent_running);
    app.apply_gateway_event(&chat("done"));
    assert!(!app.agent_running);
    let expected: Vec<String> = vec![
        "Hello".to_string(),
        "[tool:?]".to_string(),
        "  done (6 chars)".to_string(),
        format!("  error: {}", "x".repeat(200)),
        String::new(),
        String::new(),
    ];
    assert_eq!(app.output_lines, expected);
}

#[test]
fn gateway_error_and_info_events() {
    let mut app = App::new("m", "s", "p");
    app.agent_running = true;
    app.apply_gateway_event(&chat("error"));
    assert!(!app.agent_running);
    assert_eq!(app.output_lines, vec!["Error: unknown error".to_string(), String::new()]);
    let mut info = chat("");
    info.event = "info".to_string();
    info.version = Some("0.3.1".to_string());
    app.apply_gateway_event(&info);
    assert_eq!(app.model, "gateway v0.3.1");
    let mut other = chat("");
    other.event = "pong".to_string();
    app.apply_gateway_event(&other);
    assert_eq!(app.model, "gateway v0.3.1");
}
