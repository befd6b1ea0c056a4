use chord_proxy::coding_proxy::{
    continue_select, resolve_backend_for_candidate, select_with_fallback, start_select, Backend,
    CodingCandidate, CodingSelectError, SelectStep, SelectorError,
};

fn backend(name: &str, url: &str) -> Backend {
    Backend {
        name: name.to_string(),
        url: url.to_string(),
    }
}

fn candidate(model_id: &str, backend_tag: Option<&str>, score: f64) -> CodingCandidate<f64> {
    CodingCandidate {
        model_id: model_id.to_string(),
        backend_tag: backend_tag.map(str::to_string),
        mem_config: None,
        combined_score: score,
    }
}

#[test]
fn resolve_backend_maps_gpu_tag_to_llama_gpu() {
    let mut backends = Vec::new();
    backends.push(("llama-gpu".to_string(), backend("llama-gpu", "http://localhost:8082")));
    backends.push(("ollama".to_string(), backend("ollama", "http://localhost:11434")));

    let c = candidate("model-a", Some("gpu"), 0.9);
    let r = resolve_backend_for_candidate(&c, &backends).expect("resolved");
    assert_eq!(r.name, "llama-gpu");
    assert_eq!(r.url, "http://localhost:8082");
}

#[test]
fn resolve_backend_maps_absent_tag_to_ollama() {
    let mut backends = Vec::new();
    backends.push(("ollama".to_string(), backend("ollama", "http://localhost:11434")));

    let c = candidate("model-a", None, 0.9);
    let r = resolve_backend_for_candidate(&c, &backends).expect("resolved");
    assert_eq!(r.name, "ollama");
}

#[test]
fn resolve_backend_none_when_unconfigured() {
    let backends: Vec<(String, Backend)> = Vec::new();
    let c = candidate("model-a", Some("gpu"), 0.9);
    assert!(resolve_backend_for_candidate(&c, &backends).is_none());
}

#[test]
fn select_with_fallback_picks_top_candidate_when_healthy() {
    let mut backends = Vec::new();
    backends.push(("ollama".to_string(), backend("ollama", "http://ollama.local")));
    let candidates = vec![candidate("best-model", None, 0.9), candidate("second-model", None, 0.5)];
    let health = |url: &str| url == "http://ollama.local/health";

    let resp = select_with_fallback(&candidates, &backends, health).expect("selected");
    assert_eq!(resp.selected.model_id, "best-model");
    assert_eq!(resp.fallback_tier, 0);
    assert_eq!(resp.candidates_considered, 2);
}

#[test]
fn select_with_fallback_falls_back_on_unhealthy_top_candidate() {
    // Two distinct backends so the health check can distinguish them.
    let mut backends = Vec::new();
    backends.push(("llama-gpu".to_string(), backend("llama-gpu", "http://gpu.local")));
    backends.push(("ollama".to_string(), backend("ollama", "http://ollama.local")));

    let candidates = vec![
        candidate("gpu-model", Some("gpu"), 0.9),   // resolves to gpu.local — will fail
        candidate("cpu-model", None, 0.5),          // resolves to ollama.local — healthy
    ];
    let health = |url: &str| url == "http://ollama.local/health";

    let resp = select_with_fallback(&candidates, &backends, health).expect("selected");
    assert_eq!(resp.selected.model_id, "cpu-model");
    assert_eq!(resp.fallback_tier, 1, "must record that tier 0 was skipped");
}

#[test]
fn select_with_fallback_all_unavailable_is_distinguishable_error() {
    let mut backends = Vec::new();
    backends.push(("ollama".to_string(), backend("ollama", "http://ollama.local")));
    let candidates = vec![candidate("only-model", None, 0.9)];
    let health = |_url: &str| false;

    let err = select_with_fallback(&candidates, &backends, health).unwrap_err();
    assert_eq!(err, CodingSelectError::AllCandidatesUnavailable { candidates_tried: 1 });
}

#[test]
fn select_with_fallback_empty_candidates_is_no_candidates_error() {
    let backends: Vec<(String, Backend)> = Vec::new();
    let health = |_url: &str| false;
    let err = select_with_fallback::<f64, _>(&[], &backends, health).unwrap_err();
    assert_eq!(err, CodingSelectError::NoCandidates);
}

#[test]
fn select_with_fallback_skips_candidate_with_unconfigured_backend() {
    // First candidate is "gpu" but llama-gpu isn't configured at all —
    // must be skipped (not treated as a health failure that still counts
    // toward a confusing error), falling to the second, configured one.
    let mut backends = Vec::new();
    backends.push(("ollama".to_string(), backend("ollama", "http://ollama.local")));
    let candidates = vec![
        candidate("gpu-model-unconfigured-backend", Some("gpu"), 0.9),
        candidate("cpu-model", None, 0.5),
    ];
    let health = |url: &str| url == "http://ollama.local/health";
    let resp = select_with_fallback(&candidates, &backends, health).expect("selected");
    assert_eq!(resp.selected.model_id, "cpu-model");
}

#[test]
fn health_checker_calls_are_in_ranked_order() {
    let mut backends = Vec::new();
    backends.push(("ollama".to_string(), backend("ollama", "http://ollama.local")));
    let candidates = vec![candidate("a", None, 0.9), candidate("b", None, 0.5)];
    let asked = std::cell::RefCell::new(Vec::new());
    let health = |url: &str| {
        asked.borrow_mut().push(url.to_string());
        false
    };
    let _ = select_with_fallback(&candidates, &backends, health);
    let calls = asked.borrow();
    assert_eq!(calls.len(), 2, "both candidates should have been tried in order");
}

// Guards against accidental reordering that would make fallback_tier lie.
#[test]
fn fallback_tier_reflects_actual_skip_count_with_unconfigured_backend_between() {
    let mut backends = Vec::new();
    backends.push(("ollama".to_string(), backend("ollama", "http://ollama.local")));
    let candidates = vec![
        candidate("tier0-unconfigured", Some("gpu"), 0.95),
        candidate("tier1-healthy", None, 0.5),
    ];
    let health = |url: &str| url == "http://ollama.local/health";
    let resp = select_with_fallback(&candidates, &backends, health).unwrap();
    // tier0 is skipped for lack of backend config (not a health failure),
    // but it still occupied ranked-list index 0, so fallback_tier is 1.
    assert_eq!(resp.fallback_tier, 1);
    assert_eq!(resp.selected.model_id, "tier1-healthy");
}

#[test]
fn selection_goes_step_by_step() {
    let backends = vec![
        ("llama-gpu".to_string(), backend("gpu-box", "http://gpu.local")),
        ("ollama".to_string(), backend("cpu-box", "http://ollama.local")),
    ];
    let mut first = candidate("gpu-model", Some("gpu"), 0.9);
    first.mem_config = Some("q4".to_string());
    let candidates = vec![first, candidate("cpu-model", Some("legacy"), 0.5)];
    match start_select(&candidates, &backends) {
        SelectStep::Probe { tier, url } => {
            assert_eq!(tier, 0);
            assert_eq!(url, "http://gpu.local/health");
        }
        other => panic!("expected Probe, got {other:?}"),
    }
    match continue_select(&candidates, &backends, 0, true) {
        SelectStep::Selected(s) => {
            assert_eq!(s.selected.backend, "gpu-box");
            assert_eq!(s.selected.confidence, 0.9);
            assert_eq!(s.selected.mem_config.as_deref(), Some("q4"));
        }
        other => panic!("expected Selected, got {other:?}"),
    }
    match continue_select(&candidates, &backends, 0, false) {
        SelectStep::Probe { tier, url } => {
            assert_eq!(tier, 1);
            assert_eq!(url, "http://ollama.local/health");
        }
        other => panic!("expected Probe, got {other:?}"),
    }
    match continue_select(&candidates, &backends, 1, false) {
        SelectStep::Failed(e) => assert_eq!(
            e,
            CodingSelectError::AllCandidatesUnavailable { candidates_tried: 2 }
        ),
        other => panic!("expected Failed, got {other:?}"),
    }
}

#[test]
fn selection_errors_say_what_is_wrong() {
    assert_eq!(
        CodingSelectError::from(SelectorError::NotConfigured),
        CodingSelectError::NotConfigured
    );
    assert_eq!(
        CodingSelectError::from(SelectorError::StoreUnavailable),
        CodingSelectError::StoreUnavailable
    );
    let e = CodingSelectError::AllCandidatesUnavailable { candidates_tried: 12 };
    assert_eq!(e.status(), 503);
    assert!(e.message().starts_with("all 12 ranked coding-model candidate(s) failed"));
    assert!(CodingSelectError::NoCandidates.message().contains("no measured"));
    assert!(CodingSelectError::NotConfigured.message().contains("not configured"));
    assert!(CodingSelectError::StoreUnavailable.message().contains("temporarily"));
}
