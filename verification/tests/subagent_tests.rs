use agenticlaw::agents::SubagentRegistry;
use agenticlaw::subagent::SubagentStatus;

#[test]
fn test_registry_register_and_query() {
    let mut registry = SubagentRegistry::new();
    let name = registry.register("Fix slider CSS", "session-1", None, 1000);

    let info = registry.query(&name, 1000).unwrap();
    assert_eq!(info.purpose, "Fix slider CSS");
    assert_eq!(info.status, SubagentStatus::Running);
    assert!(info.children.is_empty());
}

#[test]
fn test_registry_pause_resume() {
    let mut registry = SubagentRegistry::new();
    let name = registry.register("Fix slider", "session-1", None, 0);

    assert!(!registry.is_paused(&name));
    registry.pause(&name).unwrap();
    assert!(registry.is_paused(&name));
    assert_eq!(registry.query(&name, 0).unwrap().status, SubagentStatus::Paused);

    registry.resume(&name).unwrap();
    assert!(!registry.is_paused(&name));
    assert_eq!(registry.query(&name, 0).unwrap().status, SubagentStatus::Running);
}

#[test]
fn test_registry_kill() {
    let mut registry = SubagentRegistry::new();
    let name = registry.register("Fix slider", "session-1", None, 0);

    registry.kill(&name, 10).unwrap();
    assert!(registry.is_killed(&name));
    assert_eq!(registry.query(&name, 10).unwrap().status, SubagentStatus::Killed);
}

#[test]
fn test_recursive_pause() {
    let mut registry = SubagentRegistry::new();
    let parent = registry.register("Parent task", "session-1", None, 0);
    let child = registry.register("Child task", "session-2", Some(&parent), 0);

    registry.pause(&parent).unwrap();
    assert!(registry.is_paused(&parent));
    assert!(registry.is_paused(&child));
}

#[test]
fn test_registry_list() {
    let mut registry = SubagentRegistry::new();
    registry.register("Task A", "session-1", None, 0);
    registry.register("Task B", "session-2", None, 0);

    let list = registry.list(0);
    assert_eq!(list.len(), 2);
}

#[test]
fn test_mark_complete() {
    let mut registry = SubagentRegistry::new();
    let name = registry.register("Fix bug", "session-1", None, 0);

    registry.mark_complete(&name, "Fixed the bug successfully", 1500, 5);
    let info = registry.query(&name, 5).unwrap();
    assert_eq!(info.status, SubagentStatus::Complete);
    assert_eq!(info.tokens, 1500);
}

#[test]
fn test_find_by_prefix() {
    let mut registry = SubagentRegistry::new();
    let name = registry.register("Fix slider CSS", "session-1", None, 0);

    let found = registry.find_by_prefix("fix-slider");
    assert!(found.is_some());
    assert_eq!(found.unwrap(), name);
}

#[test]
fn find_by_prefix_lowercases_and_misses() {
    let mut registry = SubagentRegistry::new();
    let name = registry.register("Fix slider CSS", "session-1", None, 0);
    assert_eq!(registry.find_by_prefix("FIX-SLI"), Some(name));
    assert_eq!(registry.find_by_prefix("other"), None);
}

#[test]
fn register_links_parent_and_child() {
    let mut registry = SubagentRegistry::new();
    let parent = registry.register("Parent task", "session-1", None, 0);
    let child = registry.register("Child task", "session-2", Some(&parent), 0);
    let p = registry.query(&parent, 0).unwrap();
    assert_eq!(p.children, vec![child.clone()]);
    let c = registry.query(&child, 0).unwrap();
    assert_eq!(c.parent, Some(parent));
}

#[test]
fn query_reports_elapsed_and_unknown_names() {
    let mut registry = SubagentRegistry::new();
    let name = registry.register("Fix bug", "session-1", None, 1000);
    assert_eq!(registry.query(&name, 1250).unwrap().elapsed_ms, 250);
    assert_eq!(registry.query(&name, 900).unwrap().elapsed_ms, 0);
    assert_eq!(registry.query("nope", 0).unwrap_err(), "Subagent 'nope' not found");
}

#[test]
fn controls_refuse_with_messages() {
    let mut registry = SubagentRegistry::new();
    let name = registry.register("Fix bug", "session-1", None, 0);
    assert_eq!(
        registry.resume(&name).unwrap_err(),
        format!("Subagent '{}' is not paused (status: running)", name)
    );
    registry.kill(&name, 3).unwrap();
    assert_eq!(
        registry.pause(&name).unwrap_err(),
        format!("Subagent '{}' is not running (status: killed)", name)
    );
    assert_eq!(
        registry.kill(&name, 4).unwrap_err(),
        format!("Subagent '{}' already terminated (status: killed)", name)
    );
    assert_eq!(registry.pause("ghost").unwrap_err(), "Subagent 'ghost' not found");
}

#[test]
fn kill_and_resume_reach_grandchildren() {
    let mut registry = SubagentRegistry::new();
    let a = registry.register("Top task", "s1", None, 0);
    let b = registry.register("Middle task", "s2", Some(&a), 0);
    let c = registry.register("Bottom task", "s3", Some(&b), 0);
    registry.pause(&a).unwrap();
    assert!(registry.is_paused(&c));
    registry.resume(&a).unwrap();
    assert!(!registry.is_paused(&b));
    assert!(!registry.is_paused(&c));
    registry.mark_complete(&b, "done", 7, 1);
    registry.kill(&a, 2).unwrap();
    assert!(registry.is_killed(&a));
    assert!(!registry.is_killed(&b));
    assert_eq!(registry.query(&b, 2).unwrap().status, SubagentStatus::Complete);
    // The finished child refuses the kill, so the cascade stops there.
    assert!(!registry.is_killed(&c));
}

#[test]
fn mark_failed_and_long_output() {
    let mut registry = SubagentRegistry::new();
    let a = registry.register("Task A", "s1", None, 0);
    let b = registry.register("Task B", "s2", None, 0);
    registry.mark_failed(&a, "boom", 1);
    let info = registry.query(&a, 1).unwrap();
    assert_eq!(info.status, SubagentStatus::Failed);
    assert_eq!(info.last_output, "ERROR: boom");
    let long = "x".repeat(600);
    registry.mark_complete(&b, &long, 1, 1);
    let out = registry.query(&b, 1).unwrap().last_output;
    assert_eq!(out.len(), 500);
    assert!(out.ends_with("..."));
}

#[test]
fn gc_removes_only_old_finished_subagents() {
    let mut registry = SubagentRegistry::new();
    let done = registry.register("Done task", "s1", None, 0);
    let fresh = registry.register("Fresh task", "s2", None, 0);
    let running = registry.register("Running task", "s3", None, 0);
    registry.mark_complete(&done, "ok", 1, 100);
    registry.mark_complete(&fresh, "ok", 1, 900);
    registry.gc(1000, 500);
    assert!(registry.query(&done, 1000).is_err());
    assert!(registry.query(&fresh, 1000).is_ok());
    assert!(registry.query(&running, 1000).is_ok());
    assert_eq!(registry.list(1000).len(), 2);
}

#[test]
fn info_display_text_shows_preview() {
    let mut registry = SubagentRegistry::new();
    let name = registry.register("Fix bug", "session-1", None, 0);
    let info = registry.query(&name, 42).unwrap();
    assert_eq!(info.display_text(), format!("{} [running] \u{2014} Fix bug (42ms, ~0tok)", name));
    let long = "y".repeat(150);
    registry.mark_complete(&name, &long, 9, 50);
    let info = registry.query(&name, 60).unwrap();
    let expected = format!(
        "{} [complete] \u{2014} Fix bug (60ms, ~9tok)\n  \u{2514}\u{2500} {}...",
        name,
        "y".repeat(97)
    );
    assert_eq!(info.display_text(), expected);
}
