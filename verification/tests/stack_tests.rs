use agenticlaw::config::{EgoConfig, ModelConfig};
use agenticlaw::ego::{distill_context, distill_request, layer_distill_plan, wake_context, warm_core_name, Watcher};
use agenticlaw::runtime::{turn_start, TurnStart, child_session_key, AgentEvent, ChildOutput, InnerStep, ToolRun, TurnLoop};
use agenticlaw::stack::{
    best_tier_model, cascade_route, extract_ego_text, layer_soul_fallback, tail_within, wake_prompt_text, CascadeRoute,
};

#[test]
fn tail_within_keeps_whole_characters() {
    assert_eq!(tail_within("hello", 10), "hello");
    assert_eq!(tail_within("hello world", 5), "world");
    // "hi🦀bye": asking for the last 5 bytes reaches into the crab, which is kept whole.
    assert_eq!(tail_within("hi\u{1F980}bye", 5), "\u{1F980}bye");
}

#[test]
fn ego_is_the_layers_own_text() {
    let content = "--- session: s ---\nstarted: t\n\n--- t1 ---\nI speak.\n\n--- t2 ---\n<up>\nYou ask.\n</up>\n\n--- t3 ---\nI answer.\n";
    assert_eq!(extract_ego_text(content, 100).as_deref(), Some("I speak.\n\n\nI answer.\n"));
    assert_eq!(extract_ego_text(content, 10).as_deref(), Some("I answer.\n"));
    assert_eq!(extract_ego_text("   ", 100), None);
    assert_eq!(extract_ego_text("--- session: s ---\nstarted: t\n\n--- t ---\n<up>\nonly user\n</up>\n", 100), None);
}

#[test]
fn wake_prompt_layout() {
    let p = wake_prompt_text("  I am L1.  ", "tail text", " soul ");
    assert_eq!(
        p,
        "I am L1.\n\n--- Recent context ---\n\ntail text\n\n---\nThe following workspace files are available and may affect your experience (they are not your identity \u{2014} your identity is above):\n\nsoul\n"
    );
    let q = wake_prompt_text("ego", "", "soul");
    assert!(q.starts_with("ego\n\n---\nThe following"));
}

#[test]
fn cascade_routes() {
    assert_eq!(cascade_route(0), CascadeRoute::Layer(1));
    assert_eq!(cascade_route(2), CascadeRoute::Layer(3));
    assert_eq!(cascade_route(3), CascadeRoute::DualCore);
    assert_eq!(cascade_route(4), CascadeRoute::Nowhere);
}

#[test]
fn soul_fallbacks() {
    assert_eq!(layer_soul_fallback(1), "You are consciousness layer 1 (Attention).");
    assert_eq!(layer_soul_fallback(7), "You are consciousness layer 7.");
}

#[test]
fn model_detection_prefers_short_generation_4_ids() {
    let ids: Vec<String> = vec![
        "acme-opus-3".into(),
        "acme-opus-4-6-20260101".into(),
        "acme-opus-4-6".into(),
        "acme-sonnet-4".into(),
        "other-opus".into(),
    ];
    assert_eq!(best_tier_model(&ids, "acme", "opus"), Some(2));
    let old: Vec<String> = vec!["acme-3-opus-long".into(), "acme-3-opus".into()];
    assert_eq!(best_tier_model(&old, "acme", "opus"), Some(1));
    assert_eq!(best_tier_model(&old, "acme", "haiku"), None);
}

#[test]
fn distillation_plans() {
    let ego = EgoConfig::default();
    let models = ModelConfig::uniform("top-model");
    let p0 = layer_distill_plan(&ego, &models, 0).unwrap();
    assert_eq!(p0.watcher, Watcher::Layer(1));
    assert_eq!(p0.context_budget, 8000);
    let p3 = layer_distill_plan(&ego, &models, 3).unwrap();
    assert_eq!(p3.watcher, Watcher::WarmCore);
    assert_eq!(p3.context_budget, 16000);
    assert!(layer_distill_plan(&ego, &models, 4).is_none());
    assert_eq!(distill_context("  \n", 10), None);
    assert_eq!(distill_context("0123456789abc", 3).as_deref(), Some("abc"));
    assert_eq!(distill_request("P", "C"), "P\n\n--- Your context (what you've observed) ---\n\nC");
    assert_eq!(wake_context("ego", ""), "ego");
    assert_eq!(wake_context(" ego ", "tail"), "ego\n\n--- Recent context ---\n\ntail");
    assert_eq!(warm_core_name(Some("Ready"), Some("Growing")), "core-b");
    assert_eq!(warm_core_name(Some("Growing"), Some("Growing")), "core-a");
    assert_eq!(warm_core_name(None, None), "core-a");
}

#[test]
fn turn_loop_runs_until_no_tools_and_no_steering() {
    let mut l = TurnLoop::new(2, vec!["steer".to_string()]);
    match l.next_step() {
        InnerStep::Run { turn, inject } => {
            assert_eq!(turn, 1);
            assert_eq!(inject, vec!["steer".to_string()]);
        }
        _ => panic!("expected a run"),
    }
    l.after_answer(1, false, vec![]);
    assert!(matches!(l.next_step(), InnerStep::Run { turn: 2, .. }));
    l.after_answer(3, false, vec![]);
    assert!(matches!(l.next_step(), InnerStep::Exceeded { error } if error == "Max tool iterations exceeded"));
    assert!(!l.after_stop(0, false, vec![]));
    let mut m = TurnLoop::new(5, vec![]);
    assert!(matches!(m.next_step(), InnerStep::Run { turn: 1, .. }));
    m.after_answer(0, false, vec![]);
    assert!(matches!(m.next_step(), InnerStep::Finished));
    assert!(m.after_stop(1, false, vec![]));
    assert!(matches!(m.next_step(), InnerStep::Run { turn: 2, .. }));
}

#[test]
fn tool_run_skips_after_steering() {
    let mut r = ToolRun::new();
    assert!(r.runs_next());
    assert!(ToolRun::checks_steering(0, 3));
    assert!(!ToolRun::checks_steering(2, 3));
    r.after_tool(vec![]);
    assert!(r.runs_next());
    r.after_tool(vec!["stop".to_string()]);
    assert!(!r.runs_next());
}

#[test]
fn child_output_collects_text() {
    assert_eq!(child_session_key("n1").as_str(), "kg-child:n1");
    let mut c = ChildOutput::new();
    c.absorb(&AgentEvent::Text("abcdefghi".into()));
    c.absorb(&AgentEvent::Error("x".into()));
    c.absorb(&AgentEvent::Text("xyz".into()));
    assert_eq!(c.output, "abcdefghixyz");
    assert_eq!(c.token_estimate, 2);
}

#[test]
fn turn_sleeps_past_the_threshold() {
    assert!(matches!(turn_start(110_001, 550, 200_000), TurnStart::Sleep { token_count: 110_001 }));
    assert!(matches!(turn_start(110_000, 550, 200_000), TurnStart::Start));
    assert!(matches!(turn_start(5, 550, 200_000), TurnStart::Start));
}
