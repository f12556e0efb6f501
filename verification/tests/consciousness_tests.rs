use agenticlaw::config::{EgoConfig, PortConfig, SleepConfig};
use agenticlaw::version::VersionController;
use agenticlaw::cores::{estimate_tokens, CoreId, CorePhase, CoreState, CORE_NAMES, CORE_PORTS};
use agenticlaw::injection::term_overlap;
use agenticlaw::runtime::AgentEvent;
use agenticlaw::seed::select_seed_from_response;
use agenticlaw::stack::{extract_tail_paragraphs, safe_byte_boundary, LAYER_NAMES, LAYER_PORTS};

fn correlation_score(a: &str, b: &str) -> f64 {
    let (shared, union) = term_overlap(a, b);
    if union == 0 {
        0.0
    } else {
        shared as f64 / union as f64
    }
}

#[test]
fn core_state_new_initializes_correctly() {
    let state = CoreState::new(200_000);
    assert_eq!(state.version, 2);
    assert_eq!(state.budget_tokens, 200_000);
    assert_eq!(state.core_a.phase, CorePhase::Growing);
    assert_eq!(state.core_b.phase, CorePhase::Infant);
    assert_eq!(state.core_a.estimated_tokens, 0);
    assert_eq!(state.core_b.estimated_tokens, 0);
    assert_eq!(state.core_a.samples, 0);
    assert_eq!(state.core_b.samples, 0);
    assert!(state.last_compaction_core.is_none());
    assert!(state.last_compaction_time.is_none());
}

#[test]
fn core_state_asymmetric_start() {
    let state = CoreState::new(100_000);
    assert_ne!(state.core_a.phase, state.core_b.phase);
    assert_eq!(state.core_a.phase, CorePhase::Growing);
    assert_eq!(state.core_b.phase, CorePhase::Infant);
}

#[test]
fn core_state_accessor_returns_correct_core() {
    let mut state = CoreState::new(200_000);
    state.core_a.estimated_tokens = 42;
    state.core_b.estimated_tokens = 99;
    assert_eq!(state.get_core(CoreId::A).estimated_tokens, 42);
    assert_eq!(state.get_core(CoreId::B).estimated_tokens, 99);
}

#[test]
fn core_state_mut_accessor_modifies_correct_core() {
    let mut state = CoreState::new(200_000);
    state.core_mut(CoreId::A).phase = CorePhase::Ready;
    state.core_mut(CoreId::B).phase = CorePhase::Seeded;
    assert_eq!(state.core_a.phase, CorePhase::Ready);
    assert_eq!(state.core_b.phase, CorePhase::Seeded);
}

#[test]
fn core_id_other_alternates() {
    assert_eq!(CoreId::A.other(), CoreId::B);
    assert_eq!(CoreId::B.other(), CoreId::A);
    assert_eq!(CoreId::A.other().other(), CoreId::A);
    assert_eq!(CoreId::B.other().other(), CoreId::B);
}

#[test]
fn core_id_index_is_distinct() {
    assert_eq!(CoreId::A.index(), 0);
    assert_eq!(CoreId::B.index(), 1);
    assert_ne!(CoreId::A.index(), CoreId::B.index());
}

#[test]
fn core_id_dir_names_are_distinct() {
    assert_eq!(CoreId::A.dir_name(), "core-a");
    assert_eq!(CoreId::B.dir_name(), "core-b");
    assert_ne!(CoreId::A.dir_name(), CoreId::B.dir_name());
}

#[test]
fn layer_ports_are_unique() {
    let mut seen = std::collections::HashSet::new();
    for port in &LAYER_PORTS {
        assert!(seen.insert(port), "Duplicate layer port: {}", port);
    }
    for port in &CORE_PORTS {
        assert!(seen.insert(port), "Core port {} collides with layer port", port);
    }
}

#[test]
fn gateway_is_port_18789() {
    assert_eq!(LAYER_PORTS[0], 18789, "L0 gateway must be on port 18789");
}

#[test]
fn layer_names_match_architecture() {
    assert_eq!(LAYER_NAMES[0], "Gateway");
    assert_eq!(LAYER_NAMES[1], "Attention");
    assert_eq!(LAYER_NAMES[2], "Pattern");
    assert_eq!(LAYER_NAMES[3], "Integration");
}

#[test]
fn core_names_match_architecture() {
    assert_eq!(CORE_NAMES[0], "Core-A");
    assert_eq!(CORE_NAMES[1], "Core-B");
}

#[test]
fn parent_tail_extracts_last_n_blocks() {
    let content = "block one\n\nblock two\n\nblock three\n\nblock four\n\nblock five";
    let tail = extract_tail_paragraphs(content, 3);
    assert!(tail.contains("block three"));
    assert!(tail.contains("block four"));
    assert!(tail.contains("block five"));
    assert!(!tail.contains("block one"));
    assert!(!tail.contains("block two"));
}

#[test]
fn parent_tail_returns_all_when_n_exceeds_blocks() {
    let content = "block one\n\nblock two\n\nblock three";
    let tail = extract_tail_paragraphs(content, 100);
    assert_eq!(tail, content);
}

#[test]
fn parent_tail_returns_empty_for_empty_content() {
    assert!(extract_tail_paragraphs("", 15).is_empty());
}

#[test]
fn parent_tail_returns_empty_for_zero_n() {
    assert!(extract_tail_paragraphs("block one\n\nblock two", 0).is_empty());
}

#[test]
fn parent_tail_single_block_no_delimiter() {
    let content = "single block with no double newlines";
    let tail = extract_tail_paragraphs(content, 5);
    assert_eq!(tail, content);
}

#[test]
fn parent_tail_preserves_block_content() {
    let content = "line 1\nline 2\nline 3\n\nsecond block\nwith lines\n\nthird block";
    let tail = extract_tail_paragraphs(content, 2);
    assert!(tail.contains("second block\nwith lines"));
    assert!(tail.contains("third block"));
    assert!(!tail.contains("line 1"));
}

#[test]
fn parent_tail_with_real_ctx_content() {
    let content = "--- session: test ---\nstarted: 2026-02-19T00:00:00Z\n\n--- 2026-02-19T00:00:01Z ---\nFirst assistant message.\n\n--- 2026-02-19T00:00:02Z ---\n<up>\nUser question.\n</up>\n\n--- 2026-02-19T00:00:03Z ---\nSecond assistant message.\n\n--- 2026-02-19T00:00:04Z ---\nThird assistant message.";
    let tail = extract_tail_paragraphs(content, 2);
    assert!(tail.contains("Third assistant message"));
    assert!(tail.contains("Second assistant message"));
    assert!(!tail.contains("First assistant message"));
}

#[test]
fn agent_event_sleep_variant_exists() {
    let event = AgentEvent::Sleep { token_count: 105_000 };
    match event {
        AgentEvent::Sleep { token_count } => assert_eq!(token_count, 105_000),
        _ => panic!("Expected Sleep variant"),
    }
}

#[test]
fn correlation_identical_texts_score_one() {
    let score = correlation_score(
        "the consciousness stack processes deltas through layers",
        "the consciousness stack processes deltas through layers",
    );
    assert!((score - 1.0).abs() < f64::EPSILON, "Identical texts should score 1.0, got {}", score);
}

#[test]
fn correlation_disjoint_texts_score_zero() {
    let score = correlation_score("alpha beta gamma delta", "epsilon zeta theta iota");
    assert!(score < f64::EPSILON, "Disjoint texts should score ~0.0, got {}", score);
}

#[test]
fn correlation_partial_overlap() {
    let score = correlation_score(
        "the gateway processes incoming messages through layers",
        "the gateway handles outgoing responses through filters",
    );
    assert!(score > 0.0, "Partial overlap should score > 0");
    assert!(score < 1.0, "Partial overlap should score < 1");
}

#[test]
fn correlation_short_words_excluded() {
    let score = correlation_score("the a is on it at by to", "the a is on it at by to");
    assert!(score < f64::EPSILON, "Text with only short words should score 0.0 (all filtered), got {}", score);
}

#[test]
fn correlation_empty_text_scores_zero() {
    assert!(correlation_score("", "something here") < f64::EPSILON);
    assert!(correlation_score("something here", "") < f64::EPSILON);
    assert!(correlation_score("", "") < f64::EPSILON);
}

#[test]
fn correlation_above_injection_threshold() {
    let score = correlation_score(
        "the consciousness stack cascades context through attention pattern integration layers",
        "layers of consciousness processing attention and integration produce cascading patterns",
    );
    assert!(score > 0.1, "Related texts should exceed injection threshold 0.1, got {}", score);
}

#[test]
fn correlation_counts_are_exact() {
    // "gateway" and "through" are shared; the others differ.
    assert_eq!(
        term_overlap(
            "the gateway processes incoming messages through layers",
            "the gateway handles outgoing responses through filters",
        ),
        (2, 10)
    );
}

#[test]
fn config_layer_ports_helper() {
    let ports = PortConfig::default();
    assert_eq!(ports.as_array(), [18789, 18791, 18792, 18793]);
}

#[test]
fn config_tail_paragraphs_default_is_15() {
    let ego = EgoConfig::default();
    assert_eq!(ego.tail_paragraphs, 15);
}

#[test]
fn estimate_tokens_empty() {
    assert_eq!(estimate_tokens(""), 0);
}

#[test]
fn estimate_tokens_basic() {
    let text = "a".repeat(100);
    assert_eq!(estimate_tokens(&text), 25);
}

#[test]
fn estimate_tokens_rounds_down() {
    assert_eq!(estimate_tokens("abcdefg"), 1);
}

#[test]
fn safe_boundary_ascii() {
    let s = "hello world";
    assert_eq!(safe_byte_boundary(s, 5), 5);
}

#[test]
fn safe_boundary_at_string_end() {
    let s = "hello";
    assert_eq!(safe_byte_boundary(s, 100), 5);
}

#[test]
fn safe_boundary_multibyte() {
    let s = "hi\u{1F980}bye";
    assert_eq!(safe_byte_boundary(s, 4), 2);
    assert_eq!(safe_byte_boundary(s, 3), 2);
    assert_eq!(safe_byte_boundary(s, 2), 2);
    assert_eq!(safe_byte_boundary(s, 6), 6);
}

#[test]
fn safe_boundary_zero() {
    let s = "\u{1F980}";
    assert_eq!(safe_byte_boundary(s, 0), 0);
}

#[test]
fn seed_selection_empty_returns_input() {
    let result = select_seed_from_response("", 100);
    assert_eq!(result, "");
}

#[test]
fn seed_selection_single_paragraph() {
    let text = "This is a single paragraph with enough words to test.";
    let result = select_seed_from_response(text, 1000);
    assert_eq!(result, text);
}

#[test]
fn seed_selection_respects_budget() {
    let p1 = "alpha bravo charlie delta echo foxtrot golf hotel india juliet";
    let p2 = "kilo lima mike november oscar papa quebec romeo sierra tango";
    let p3 = "uniform victor whiskey xray yankee zulu ability bracket courage drum";
    let text = format!("{}\n\n{}\n\n{}", p1, p2, p3);
    let result = select_seed_from_response(&text, 5);
    assert!(result.len() <= 22, "Seed should respect budget, got {} chars", result.len());
}

#[test]
fn seed_selection_preserves_original_order() {
    let text = "first paragraph here\n\nsecond paragraph here\n\nthird paragraph here";
    let result = select_seed_from_response(text, 1000);
    if result.contains("first") && result.contains("third") {
        let first_pos = result.find("first").unwrap();
        let third_pos = result.find("third").unwrap();
        assert!(first_pos < third_pos, "Original order should be preserved in seed");
    }
}

#[test]
fn seed_selection_favors_density_and_recency() {
    let unique_para = "consciousness gateway injection correlation threshold cascade delta watcher";
    let repetitive_para = "word word word word word word word word word word";
    let text = format!("{}\n\n{}", repetitive_para, unique_para);
    let result = select_seed_from_response(&text, 100);
    assert!(result.contains("consciousness"), "Seed should favor high-density paragraph, got: {}", result);
}

#[test]
fn seed_selection_no_empty_paragraphs() {
    let text = "real content here\n\n\n\n\n\nmore content here";
    let result = select_seed_from_response(text, 1000);
    assert!(!result.is_empty());
    assert!(result.contains("real content"));
}

#[test]
fn phase_lifecycle_normal_sequence() {
    let phases = [
        CorePhase::Infant,
        CorePhase::Seeded,
        CorePhase::Growing,
        CorePhase::Ready,
        CorePhase::Compacting,
        CorePhase::Infant,
    ];
    for i in 0..phases.len() - 1 {
        for j in (i + 1)..phases.len() - 1 {
            assert_ne!(phases[i], phases[j], "Phases {} and {} should differ", i, j);
        }
    }
    assert_eq!(phases[0], phases[phases.len() - 1]);
}

#[test]
fn budget_half_calculation() {
    let state = CoreState::new(200_000);
    let budget_half = state.budget_tokens / 2;
    assert_eq!(budget_half, 100_000);
}

#[test]
fn seed_budget_is_tenth_of_half() {
    let state = CoreState::new(200_000);
    let budget_half = state.budget_tokens / 2;
    let seed_budget = budget_half / 10;
    assert_eq!(seed_budget, 10_000);
}

#[test]
fn version_controller_fresh_workspace_reports_zero() {
    let vc = VersionController::new(String::from("/tmp/fresh-workspace"));
    assert_eq!(vc.current_version(&None), 0);
}

#[test]
fn sleep_threshold_is_configurable() {
    let config = SleepConfig::default();
    assert!(
        config.context_threshold_permille == 550,
        "Default sleep threshold should be 0.55, got {}",
        config.context_threshold_permille as f64 / 1000.0
    );
}
