use agenticlaw::ego::{warm_core_dir_of_state, warm_core_of_state};
use agenticlaw::injection::correlates;
use agenticlaw::registry::{NodeType, NodeTypeRegistry, OperatorRole};
use agenticlaw::tui_client::{auth_verdict, gateway_event_of, is_info_event};
use agenticlaw::version::VersionPlan;

#[test]
fn gateway_event_is_read_from_json() {
    let e = gateway_event_of(r#"{"event":"chat","data":{"type":"tool_result","content":"abc","is_error":true,"name":7}}"#).unwrap();
    assert_eq!(e.event, "chat");
    assert_eq!(e.kind, "tool_result");
    assert_eq!(e.content, Some("abc".to_string()));
    assert_eq!(e.is_error, Some(true));
    assert_eq!(e.name, None);
    assert_eq!(e.message, None);
    let e = gateway_event_of(r#"{"event":"info","data":{"version":"0.3.1"}}"#).unwrap();
    assert_eq!(e.version, Some("0.3.1".to_string()));
    assert_eq!(e.kind, "");
    assert!(gateway_event_of("not json").is_none());
    let e = gateway_event_of("[1,2]").unwrap();
    assert_eq!(e.event, "");
}

#[test]
fn auth_replies_are_judged() {
    assert!(auth_verdict(r#"{"event":"auth","data":{"ok":true}}"#).is_ok());
    assert_eq!(
        auth_verdict(r#"{"event":"auth","data":{"ok":false,"error":"bad token"}}"#).unwrap_err(),
        "Authentication failed: bad token"
    );
    assert_eq!(auth_verdict(r#"{"event":"auth","data":{}}"#).unwrap_err(), "Authentication failed: unknown");
    assert!(auth_verdict(r#"{"event":"info","data":{}}"#).is_ok());
    assert!(auth_verdict("garbage").is_ok());
    assert!(is_info_event(r#"{"event":"info"}"#));
    assert!(!is_info_event(r#"{"event":"auth"}"#));
}

#[test]
fn warm_core_follows_the_state_file() {
    let b_growing = r#"{"core_a":{"phase":"Ready"},"core_b":{"phase":"Growing"}}"#;
    assert_eq!(warm_core_of_state(b_growing), Some("core-b"));
    assert_eq!(warm_core_dir_of_state(b_growing), "core-b");
    let a_growing = r#"{"core_a":{"phase":"Growing"},"core_b":{"phase":"Growing"}}"#;
    assert_eq!(warm_core_of_state(a_growing), Some("core-a"));
    assert_eq!(warm_core_dir_of_state(a_growing), "core-b");
    assert_eq!(warm_core_of_state(r#"{}"#), Some("core-a"));
    assert_eq!(warm_core_of_state("{"), None);
    assert_eq!(warm_core_dir_of_state("{"), "core-a");
}

#[test]
fn correlation_threshold_in_thousandths() {
    let a = "alpha bravo charlie delta";
    let b = "alpha bravo echo foxtrot";
    // 2 shared of 6 terms: 0.33 > 0.1, but not > 0.5.
    assert!(correlates(a, b, 100));
    assert!(!correlates(a, b, 500));
    assert!(!correlates("", b, 0));
}

#[test]
fn refusals_have_their_messages() {
    let p = VersionPlan::RefuseDowngrade { current: 3, target: 2 };
    let m = p.error_text().unwrap();
    assert!(m.contains("Refusing to downgrade"));
    assert_eq!(m, "Workspace is at schema version 3 but binary targets version 2. Refusing to downgrade. Use a newer binary or explicit rollback.");
    assert_eq!(VersionPlan::NoMigrationPath { from: 1, to: 5 }.error_text().unwrap(), "No migration path from version 1 to 5");
    assert!(VersionPlan::Nothing.error_text().is_none());
}

fn node(id: &str, children: &[&str]) -> NodeType {
    NodeType {
        id: id.to_string(),
        name: id.to_string(),
        taxonomy_ref: None,
        purpose_template: String::new(),
        fear_template: String::new(),
        prompt_template: String::new(),
        role: OperatorRole::Read,
        is_leaf: children.is_empty(),
        children: children.iter().map(|c| c.to_string()).collect(),
        success_criterion: None,
        max_tool_calls: 1,
    }
}

#[test]
fn children_of_skips_unregistered_children_in_order() {
    let mut reg = NodeTypeRegistry::new();
    reg.register(node("root", &["b", "missing", "a"]));
    reg.register(node("a", &[]));
    reg.register(node("b", &[]));
    let ids: Vec<String> = reg.children_of("root").iter().map(|t| t.id.clone()).collect();
    assert_eq!(ids, vec!["b".to_string(), "a".to_string()]);
    assert!(reg.children_of("nope").is_empty());
}

#[test]
fn chat_send_params_are_read() {
    use_chat_send();
}

fn use_chat_send() {
    let c = agenticlaw::rpc::chat_send_params(r#"{"session":"main","message":"Hello","model":"m1"}"#).unwrap();
    assert_eq!(c.session, "main");
    assert_eq!(c.message, "Hello");
    assert_eq!(c.model, Some("m1".to_string()));
    let e = agenticlaw::rpc::chat_send_params(r#"{"message":"Hello"}"#).err().unwrap();
    assert_eq!(e, (-32602, "Missing required param: session".to_string()));
    let e = agenticlaw::rpc::chat_send_params(r#"{"session":"main"}"#).err().unwrap();
    assert_eq!(e.1, "Missing required param: message");
}
