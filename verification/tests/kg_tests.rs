use agenticlaw::manifest::{build_report, NodeState, Outcome, RunManifest};
use agenticlaw::persistent::{IssueNode, PrNode};
use agenticlaw::registry::{default_issue_registry, render_template, OperatorRole, TemplateVars};
use agenticlaw::resource::GraphAddress;

#[test]
fn default_registry_has_all_nodes() {
    let reg = default_issue_registry();
    assert!(reg.get("issue").is_some());
    assert!(reg.get("analysis").is_some());
    assert!(reg.get("impl").is_some());
    assert!(reg.get("pr").is_some());
    assert!(reg.get("read-issue").is_some());
    assert!(reg.get("trace-entrypoints").is_some());
    assert!(reg.get("identify-files").is_some());
    assert!(reg.get("check-conflicts").is_some());
    assert!(reg.get("synthesize-plan").is_some());
    assert!(reg.get("create-branch").is_some());
    assert!(reg.get("apply-changes").is_some());
    assert!(reg.get("write-tests").is_some());
    assert!(reg.get("run-tests").is_some());
    assert!(reg.get("fill-template").is_some());
    assert!(reg.get("push-and-create").is_some());
    assert!(reg.get("verify-ci").is_some());
}

#[test]
fn children_resolve() {
    let reg = default_issue_registry();
    let analysis_children = reg.children_of("analysis");
    assert_eq!(analysis_children.len(), 5);
    assert_eq!(analysis_children[0].id, "read-issue");
    assert_eq!(analysis_children[4].id, "synthesize-plan");
}

#[test]
fn template_rendering() {
    let reg = default_issue_registry();
    let vars = TemplateVars {
        issue: "183".into(),
        repo: "agentiagency/agentimolt-v03".into(),
        ..Default::default()
    };
    let purpose = reg.render_purpose("read-issue", &vars).unwrap();
    assert!(purpose.contains("183"));
    assert!(!purpose.contains("{issue}"));
}

#[test]
fn leaves_are_leaves() {
    let reg = default_issue_registry();
    for id in &["read-issue", "trace-entrypoints", "identify-files", "create-branch", "run-tests"] {
        let nt = reg.get(id).unwrap();
        assert!(nt.is_leaf, "{} should be a leaf", id);
        assert!(nt.children.is_empty(), "{} should have no children", id);
    }
}

#[test]
fn parents_have_children() {
    let reg = default_issue_registry();
    for id in &["issue", "analysis", "impl", "pr"] {
        let nt = reg.get(id).unwrap();
        assert!(!nt.is_leaf, "{} should be a parent", id);
        assert!(!nt.children.is_empty(), "{} should have children", id);
    }
}

#[test]
fn all_children_exist_in_registry() {
    let reg = default_issue_registry();
    for id in reg.all_ids() {
        let nt = reg.get(id).unwrap();
        for child_id in &nt.children {
            assert!(reg.get(child_id).is_some(), "child '{}' of '{}' not found in registry", child_id, id);
        }
    }
}

#[test]
fn tool_limits_correct() {
    let reg = default_issue_registry();
    assert_eq!(reg.get("read-issue").unwrap().max_tool_calls, 0);
    assert_eq!(reg.get("synthesize-plan").unwrap().max_tool_calls, 0);
    assert_eq!(reg.get("fill-template").unwrap().max_tool_calls, 1);
    assert!(reg.get("trace-entrypoints").unwrap().max_tool_calls <= 3);
    assert!(reg.get("identify-files").unwrap().max_tool_calls <= 3);
    assert_eq!(reg.get("apply-changes").unwrap().max_tool_calls, 3);
    assert_eq!(reg.get("run-tests").unwrap().max_tool_calls, 3);
}

#[test]
fn operator_roles_assigned() {
    let reg = default_issue_registry();
    assert_eq!(reg.get("read-issue").unwrap().role, OperatorRole::Read);
    assert_eq!(reg.get("trace-entrypoints").unwrap().role, OperatorRole::Read);
    assert_eq!(reg.get("apply-changes").unwrap().role, OperatorRole::Agent);
    assert_eq!(reg.get("create-branch").unwrap().role, OperatorRole::Local);
}

#[test]
fn render_template_replaces_every_variable() {
    let vars = TemplateVars {
        issue: "7".into(),
        repo: "o/r".into(),
        branch: "fix-7".into(),
        extra: vec![("who".to_string(), "me".to_string())],
        ..Default::default()
    };
    assert_eq!(render_template("{repo}#{issue} on {branch} by {who} {missing}", &vars), "o/r#7 on fix-7 by me {missing}");
}

#[test]
fn issue_node_stable_key() {
    let node = IssueNode::new("agentiagency/agentimolt-v03", 183, "/tmp/test");
    assert_eq!(node.session_key.as_str(), "kg-issue-agentiagency-agentimolt-v03-183");
    let node2 = IssueNode::new("agentiagency/agentimolt-v03", 183, "/tmp/test");
    assert_eq!(node.session_key.as_str(), node2.session_key.as_str());
    let node3 = IssueNode::new("agentiagency/agentimolt-v03", 184, "/tmp/test");
    assert_ne!(node.session_key.as_str(), node3.session_key.as_str());
}

#[test]
fn pr_node_stable_key() {
    let node = PrNode::new("agentiagency/agentimolt-v03", 189, "/tmp/test");
    assert_eq!(node.session_key.as_str(), "kg-pr-agentiagency-agentimolt-v03-189");
}

#[test]
fn ctx_path_deterministic() {
    let node = IssueNode::new("agentiagency/agentimolt-v03", 183, "/workspace");
    assert_eq!(node.ctx_path(), "/workspace/.ctx/kg-issue-agentiagency-agentimolt-v03-183.ctx");
}

#[test]
fn graph_address_child() {
    let root = GraphAddress::root();
    let issue = root.child("issue").child("183");
    assert_eq!(issue.as_str(), "/root/issue/183");
    let analysis = issue.child("analysis");
    assert_eq!(analysis.as_str(), "/root/issue/183/analysis");
}

#[test]
fn manifest_lifecycle() {
    let mut m = RunManifest::new("183-test", "Fix slider", "/root/issue/183", "issues/183", 1_000);
    m.add_node("/root/issue/183/analysis", NodeState::Pending);
    m.add_node("/root/issue/183/impl", NodeState::Blocked);
    m.add_node("/root/issue/183/pr", NodeState::Blocked);
    m.start_node("/root/issue/183/analysis", Some("sess-123".into()), 2_000);
    assert_eq!(m.get_node("/root/issue/183/analysis").unwrap().status, NodeState::Running);
    m.finish_node("/root/issue/183/analysis", NodeState::Success, 5000, 3_500);
    assert_eq!(m.get_node("/root/issue/183/analysis").unwrap().tokens, 5000);
    assert_eq!(m.get_node("/root/issue/183/analysis").unwrap().wall_ms, 1_500);
    m.finalize(Outcome::Success, 9_000);
    assert_eq!(m.outcome, Outcome::Success);
    assert_eq!(m.total_tokens, 5000);
    assert_eq!(m.total_wall_ms, 8_000);
}

#[test]
fn run_log_line_format() {
    let m = RunManifest::new("42-test", "Test purpose", "/root/issue/42", "issues/42", 0);
    let line = m.run_log_line("2026-02-16T12:00:00Z");
    assert!(line.contains("42-test"));
    assert!(line.contains("Test purpose"));
    assert!(line.contains("/root/issue/42"));
    assert_eq!(line, "| 42-test | Test purpose | /root/issue/42 | issues/42 | 2026-02-16T12:00:00Z | pending |");
}

#[test]
fn nodes_are_kept_in_address_order_and_reported() {
    let mut m = RunManifest::new("7-run", "Fix", "/root/issue/7", "issues/7", 0);
    m.add_node("/root/issue/7", NodeState::Pending);
    m.add_node("/root/issue/7/pr", NodeState::Blocked);
    m.add_node("/root/issue/7/analysis", NodeState::Blocked);
    m.add_node("/root/issue/7/impl", NodeState::Blocked);
    let order: Vec<&str> = m.nodes.iter().map(|(a, _)| a.as_str()).collect();
    assert_eq!(order, vec!["/root/issue/7", "/root/issue/7/analysis", "/root/issue/7/impl", "/root/issue/7/pr"]);
    m.finish_node("/root/issue/7/analysis", NodeState::Success, 12, 40);
    m.finalize(Outcome::Success, 100);
    let report = build_report("7-run", &m);
    assert_eq!(
        report,
        "# KG Run Report: 7-run\n\n## Purpose\nFix\n\n## Target\nissues/7\n\n## Outcome: success\n\n## Node Tree\n  \u{25CB} /root/issue/7 (0 tokens, 0ms)\n    \u{2713} /root/issue/7/analysis (12 tokens, 0ms)\n    \u{25AA} /root/issue/7/impl (0 tokens, 0ms)\n    \u{25AA} /root/issue/7/pr (0 tokens, 0ms)\n\n## Totals\n- Tokens: 12\n- Wall: 100ms\n- Nodes: 4\n"
    );
}
