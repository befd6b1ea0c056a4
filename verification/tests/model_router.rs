use chord_proxy::agentic::model_router::{
    AgenticModelRouter, ComplexityHeuristic, DecisionSource, RouterMode, SupraRouterClient,
    TurnZeroDecision, DEFAULT_DAEMON_TIMEOUT_MS, DEFAULT_SUPRA_ROUTER_URL,
};
use chord_proxy::agentic::router_classifier::{Route, RouterClassification};
use chord_proxy::table::Table;

fn env_of(key: &str, value: &str) -> Table {
    let mut env = Table::new();
    env.insert(key.to_string(), value.to_string());
    env
}

#[test]
fn test_simple_context_does_not_escalate() {
    let h = ComplexityHeuristic::default();
    // 1 result, small char count, no reasoning words
    assert!(!h.assess_complexity(1, 100, "what time is it"));
}

#[test]
fn test_high_tool_result_count_triggers_escalation() {
    let h = ComplexityHeuristic::default();
    // threshold is 2, so >2 = 3 should trigger
    assert!(h.assess_complexity(3, 100, "simple query"));
}

#[test]
fn test_exactly_at_threshold_does_not_trigger() {
    let h = ComplexityHeuristic::default();
    // threshold is 2, count == 2 should NOT trigger (strictly greater than)
    assert!(!h.assess_complexity(2, 100, "simple query"));
}

#[test]
fn test_large_char_count_triggers_escalation() {
    let h = ComplexityHeuristic::default();
    // threshold is 5000, so >5000 should trigger
    assert!(h.assess_complexity(1, 5_001, "simple query"));
}

#[test]
fn test_exactly_at_char_threshold_does_not_trigger() {
    let h = ComplexityHeuristic::default();
    assert!(!h.assess_complexity(1, 5_000, "simple query"));
}

#[test]
fn test_reasoning_word_analyze_triggers_escalation() {
    let h = ComplexityHeuristic::default();
    assert!(h.assess_complexity(0, 0, "please analyze this data"));
}

#[test]
fn test_reasoning_word_compare_triggers_escalation() {
    let h = ComplexityHeuristic::default();
    assert!(h.assess_complexity(0, 0, "compare these two approaches"));
}

#[test]
fn test_reasoning_word_synthesize_triggers_escalation() {
    let h = ComplexityHeuristic::default();
    assert!(h.assess_complexity(0, 0, "synthesize the findings"));
}

#[test]
fn test_reasoning_word_evaluate_triggers_escalation() {
    let h = ComplexityHeuristic::default();
    assert!(h.assess_complexity(0, 0, "evaluate the options"));
}

#[test]
fn test_reasoning_word_explain_why_triggers_escalation() {
    let h = ComplexityHeuristic::default();
    assert!(h.assess_complexity(0, 0, "explain why this fails"));
}

#[test]
fn test_reasoning_word_reason_about_triggers_escalation() {
    let h = ComplexityHeuristic::default();
    assert!(h.assess_complexity(0, 0, "reason about the consequences"));
}

#[test]
fn test_reasoning_word_case_insensitive() {
    let h = ComplexityHeuristic::default();
    assert!(h.assess_complexity(0, 0, "ANALYZE the results"));
    assert!(h.assess_complexity(0, 0, "Synthesize all data"));
}

#[test]
fn test_all_six_reasoning_words_covered() {
    let h = ComplexityHeuristic::default();
    let queries = [
        "analyze this",
        "compare those",
        "synthesize the data",
        "evaluate options",
        "explain why it failed",
        "reason about consequences",
    ];
    for q in &queries {
        assert!(
            h.assess_complexity(0, 0, q),
            "Expected escalation for query: {}",
            q
        );
    }
}

#[test]
fn test_new_router_starts_on_fast_model() {
    let router = AgenticModelRouter::with_models("fast-model", "deep-model");
    assert_eq!(router.current_model(), "fast-model");
}

#[test]
fn test_simple_query_stays_on_fast_model() {
    let router = AgenticModelRouter::with_models("fast-20b", "deep-120b");
    // No escalation triggered
    assert!(!router.should_escalate(1, 100, "hello"));
    assert_eq!(router.current_model(), "fast-20b");
}

#[test]
fn test_complex_query_should_escalate_returns_true() {
    let router = AgenticModelRouter::with_models("fast-20b", "deep-120b");
    assert!(router.should_escalate(3, 100, "simple"));
    assert!(router.should_escalate(1, 6000, "simple"));
    assert!(router.should_escalate(0, 0, "analyze this"));
}

#[test]
fn test_escalate_returns_deep_model_first_time() {
    let mut router = AgenticModelRouter::with_models("fast-20b", "deep-120b");
    let escalated_to = router.escalate();
    assert_eq!(escalated_to, Some("deep-120b".to_string()));
    assert_eq!(router.current_model(), "deep-120b");
}

#[test]
fn test_escalate_second_call_returns_none() {
    let mut router = AgenticModelRouter::with_models("fast-20b", "deep-120b");
    // First escalation
    let first = router.escalate();
    assert!(first.is_some());
    // Second escalation must be rejected
    let second = router.escalate();
    assert!(second.is_none(), "max 1 escalation enforced");
}

#[test]
fn test_escalate_many_calls_still_returns_none_after_first() {
    let mut router = AgenticModelRouter::with_models("fast-20b", "deep-120b");
    router.escalate(); // first: ok
    for _ in 0..10 {
        assert!(router.escalate().is_none());
    }
}

#[test]
fn test_model_is_deep_after_escalation() {
    let mut router = AgenticModelRouter::with_models("fast-20b", "deep-120b");
    router.escalate();
    assert_eq!(router.current_model(), "deep-120b");
}

#[test]
fn test_force_deep_sets_current_to_deep_model() {
    let mut router = AgenticModelRouter::with_models("fast-20b", "deep-120b");
    router.force_deep();
    assert_eq!(router.current_model(), "deep-120b");
}

#[test]
fn test_force_deep_blocks_further_escalation() {
    let mut router = AgenticModelRouter::with_models("fast-20b", "deep-120b");
    router.force_deep();
    // After force_deep the escalation slot is consumed — no swap needed.
    assert!(router.escalate().is_none());
}

#[test]
fn test_force_deep_idempotent() {
    let mut router = AgenticModelRouter::with_models("fast-20b", "deep-120b");
    router.force_deep();
    router.force_deep(); // should not panic
    assert_eq!(router.current_model(), "deep-120b");
}

#[test]
fn test_is_deep_request_detects_slash_deep() {
    assert!(AgenticModelRouter::is_deep_request("/deep analyze the data"));
}

#[test]
fn test_is_deep_request_case_insensitive() {
    assert!(AgenticModelRouter::is_deep_request("/Deep analyze"));
    assert!(AgenticModelRouter::is_deep_request("/DEEP analyze"));
}

#[test]
fn test_is_deep_request_with_leading_whitespace() {
    assert!(AgenticModelRouter::is_deep_request("  /deep analyze the data"));
}

#[test]
fn test_is_deep_request_false_for_normal_message() {
    assert!(!AgenticModelRouter::is_deep_request("what is the weather?"));
}

#[test]
fn test_is_deep_request_false_for_slash_other() {
    assert!(!AgenticModelRouter::is_deep_request("/help me with this"));
}

#[test]
fn test_is_deep_request_just_slash_deep() {
    assert!(AgenticModelRouter::is_deep_request("/deep"));
}

#[test]
fn test_is_deep_request_empty_string() {
    assert!(!AgenticModelRouter::is_deep_request(""));
}

#[test]
fn test_env_var_fast_model_default() {
    // When CHORD_FAST_MODEL is not set, default is "qwen2.5:20b"
    let router = AgenticModelRouter::with_models("qwen2.5:20b", "qwen2.5:120b");
    assert_eq!(router.fast_model(), "qwen2.5:20b");
}

#[test]
fn test_env_var_deep_model_default() {
    let router = AgenticModelRouter::with_models("qwen2.5:20b", "qwen2.5:120b");
    assert_eq!(router.deep_model(), "qwen2.5:120b");
}

#[test]
fn test_new_reads_env_vars() {
    let router = AgenticModelRouter::new(&Table::new());
    // Whatever the env says, the router should not panic and both model
    // names must be non-empty.
    assert!(!router.fast_model().is_empty());
    assert!(!router.deep_model().is_empty());
    assert!(!router.current_model().is_empty());
}

#[test]
fn test_no_hardcoded_model_names_except_defaults() {
    // The defaults are explicitly allowed per spec ("configurable defaults").
    // This test documents that the default strings are the only hardcoded values.
    let router = AgenticModelRouter::with_models("custom-fast", "custom-deep");
    assert_eq!(router.fast_model(), "custom-fast");
    assert_eq!(router.deep_model(), "custom-deep");
    // No mention of qwen in the custom router
    assert!(!router.current_model().contains("qwen"));
}

#[test]
fn test_escalate_when_already_on_deep_returns_none() {
    // Router starts on deep model (e.g. after force_deep)
    let mut router = AgenticModelRouter::with_models("fast-20b", "deep-120b");
    router.force_deep();
    // escalate() must return None — no swap, already there
    assert!(router.escalate().is_none());
}

#[test]
fn test_current_model_stays_deep_after_escalation() {
    let mut router = AgenticModelRouter::with_models("fast-20b", "deep-120b");
    router.escalate();
    // Current must remain deep for all subsequent calls
    assert_eq!(router.current_model(), "deep-120b");
    assert_eq!(router.current_model(), "deep-120b");
}

#[test]
fn test_force_deep_then_should_escalate_does_not_change_model() {
    let mut router = AgenticModelRouter::with_models("fast-20b", "deep-120b");
    router.force_deep();
    // Even if heuristic says "escalate", slot is consumed
    assert!(router.should_escalate(5, 10000, "analyze and compare everything"));
    assert!(router.escalate().is_none()); // slot already used
    assert_eq!(router.current_model(), "deep-120b"); // still deep
}

#[test]
fn test_router_mode_defaults_to_shadow_when_unset() {
    assert_eq!(RouterMode::from_env(&Table::new()), RouterMode::Shadow);
}

#[test]
fn test_router_mode_defaults_to_shadow_on_garbage_value() {
    assert_eq!(RouterMode::from_env(&env_of("ROUTER_MODE", "banana")), RouterMode::Shadow);
}

#[test]
fn test_router_mode_active_case_insensitive() {
    assert_eq!(RouterMode::from_env(&env_of("ROUTER_MODE", "ACTIVE")), RouterMode::Active);
}

#[test]
fn test_router_mode_default_impl_is_shadow() {
    assert_eq!(RouterMode::default(), RouterMode::Shadow);
}

fn clean_mock_response(complexity: u8, math: bool, code: bool) -> String {
    format!(
        "Domain: general | Complexity: {complexity} | Math: {math} | Code: {code} | Route: n/a | Justification: n/a"
    )
}

#[test]
fn test_shadow_mode_ignores_hybrid_even_when_daemon_available() {
    let mut router = AgenticModelRouter::with_models("fast", "deep");
    let reply = Some(clean_mock_response(5, false, false));
    let decision = router.decide_turn_zero(reply, RouterMode::Shadow, "hello there");

    assert_eq!(decision.source, DecisionSource::HeuristicFallback);
    assert!(!decision.acted_escalate, "shadow mode must not act on hybrid result");
    assert_eq!(router.current_model(), "fast", "shadow mode leaves model unchanged from heuristic");
    assert_eq!(decision.hybrid_route, Some(Route::Big));
}

#[test]
fn test_active_mode_acts_on_daemon_classification() {
    let mut router = AgenticModelRouter::with_models("fast", "deep");
    let reply = Some(clean_mock_response(4, false, false));
    let decision = router.decide_turn_zero(reply, RouterMode::Active, "trivial query");

    assert_eq!(decision.source, DecisionSource::SupraRouter);
    assert!(decision.acted_escalate);
    assert_eq!(router.current_model(), "deep");
}

#[test]
fn test_active_mode_falls_back_when_daemon_unreachable() {
    let mut router = AgenticModelRouter::with_models("fast", "deep");
    let decision = router.decide_turn_zero(None, RouterMode::Active, "hello there");

    assert_eq!(decision.source, DecisionSource::HeuristicFallback);
    assert_eq!(router.current_model(), "fast");
}

#[test]
fn test_active_mode_falls_back_when_daemon_returns_malformed_output() {
    let mut router = AgenticModelRouter::with_models("fast", "deep");
    let reply = Some("complete garbage with no structure".to_string());
    let decision = router.decide_turn_zero(reply, RouterMode::Active, "analyze this");

    // The heuristic decides, and it escalates on "analyze".
    assert_eq!(decision.source, DecisionSource::HeuristicFallback);
    assert!(decision.acted_escalate);
    assert_eq!(router.current_model(), "deep");
}

#[test]
fn test_daemon_timeout_falls_back_cleanly_never_blocks() {
    // A reply that did not come in time is no reply.
    let mut router = AgenticModelRouter::with_models("fast", "deep");
    let decision = router.decide_turn_zero(None, RouterMode::Active, "hello there");

    assert_eq!(decision.source, DecisionSource::HeuristicFallback);
    assert_eq!(router.current_model(), "fast");
}

#[test]
fn test_mid_session_escalation_is_upgrade_only_after_hybrid_turn_zero() {
    let mut router = AgenticModelRouter::with_models("fast", "deep");
    let reply = Some(clean_mock_response(4, false, false));
    let decision = router.decide_turn_zero(reply, RouterMode::Active, "trivial");
    assert!(decision.acted_escalate);
    assert_eq!(router.current_model(), "deep");

    assert!(router.escalate().is_none());
    assert_eq!(router.current_model(), "deep");
}

#[test]
fn test_shadow_actual_agree_true_when_no_hybrid_opinion() {
    let decision = TurnZeroDecision {
        heuristic_would_escalate: false,
        hybrid_classification: None,
        hybrid_route: None,
        mode: RouterMode::Shadow,
        source: DecisionSource::HeuristicFallback,
        acted_escalate: false,
    };
    assert!(decision.shadow_actual_agree());
}

#[test]
fn test_shadow_actual_agree_detects_disagreement() {
    let decision = TurnZeroDecision {
        heuristic_would_escalate: false,
        hybrid_classification: None,
        hybrid_route: Some(Route::Big),
        mode: RouterMode::Shadow,
        source: DecisionSource::HeuristicFallback,
        acted_escalate: false,
    };
    assert!(!decision.shadow_actual_agree());
}

#[test]
fn models_and_classifier_come_from_the_environment() {
    let mut env = env_of("CHORD_FAST_MODEL", "small");
    env.insert("CHORD_DEEP_MODEL".to_string(), "large".to_string());
    env.insert("SUPRA_ROUTER_URL".to_string(), "http://router:1//".to_string());
    env.insert("SUPRA_ROUTER_TIMEOUT_MS".to_string(), "75".to_string());
    let router = AgenticModelRouter::new(&env);
    assert_eq!(router.fast_model(), "small");
    assert_eq!(router.deep_model(), "large");
    let client = SupraRouterClient::from_env(&env);
    assert_eq!(client.timeout_ms, 75);
    assert_eq!(client.classify_url(), "http://router:1/classify");
    let client = SupraRouterClient::from_env(&Table::new());
    assert_eq!(client.base_url, DEFAULT_SUPRA_ROUTER_URL);
    assert_eq!(client.timeout_ms, DEFAULT_DAEMON_TIMEOUT_MS);
    assert_eq!(SupraRouterClient::with_base_url("http://x", 9).timeout_ms, 9);
}

#[test]
fn lowering_goes_beyond_ascii() {
    // The Kelvin sign is "k" in lower case, and a final sigma is lowered by its place.
    let h = ComplexityHeuristic {
        tool_result_count_threshold: 2,
        total_chars_threshold: 5_000,
        reasoning_words: vec!["k".to_string(), "οδοσ".to_string()],
    };
    assert!(h.assess_complexity(0, 0, "\u{212A}"));
    assert!(h.assess_complexity(0, 0, "ΟΔΟΣΑ"));
    assert!(!h.assess_complexity(0, 0, "nothing"));
    assert!(h.assess_lowered(0, 0, "k"));
}

#[test]
fn hybrid_opinion_counts_only_in_active_mode() {
    let class = || RouterClassification { complexity: 5, math: false, code: false, raw_domain: None };
    let mut shadow = AgenticModelRouter::with_models("fast", "deep");
    let d = shadow.act_on(false, Some((Route::Big, class())), RouterMode::Shadow);
    assert!(!d.acted_escalate);
    assert!(!d.shadow_actual_agree());
    let mut active = AgenticModelRouter::with_models("fast", "deep");
    let d = active.act_on(true, Some((Route::Small, class())), RouterMode::Active);
    assert!(!d.acted_escalate);
    assert_eq!(active.current_model(), "fast");
}

#[test]
fn an_escalation_that_is_acted_on_leaves_the_router_on_the_deep_model() {
    let mut router = AgenticModelRouter::with_models("fast", "deep");
    let calm = router.decide_turn_zero(None, RouterMode::Active, "hello");
    assert!(!calm.acted_escalate);
    assert_eq!(router.current_model(), "fast");
    for _ in 0..2 {
        let acted = router.decide_turn_zero(None, RouterMode::Shadow, "please analyze this");
        assert!(acted.acted_escalate);
        assert_eq!(router.current_model(), "deep");
    }
    let after = router.decide_turn_zero(None, RouterMode::Shadow, "hello");
    assert!(!after.acted_escalate);
    assert_eq!(router.current_model(), "deep");
}

#[test]
fn only_the_word_itself_makes_the_mode_active() {
    for word in ["aCtIvE", "active"] {
        assert_eq!(RouterMode::from_env(&env_of("ROUTER_MODE", word)), RouterMode::Active);
    }
    for word in ["shadow", "actave", " active", "actives", ""] {
        assert_eq!(RouterMode::from_env(&env_of("ROUTER_MODE", word)), RouterMode::Shadow);
    }
}
