use chord_proxy::gpu_exclusive::{
    count_unloaded, decide_acquire, decide_release,
    is_embedding_model, is_keep_resident, iso_utc, keep_resident_embed_warm_body,
    keep_resident_warm_body, ollama_base_from_env, partition_evictable, plan_eviction,
    rendered_or_epoch, ttl_secs_from_env, warm_keep_resident_models, warm_replied,
    warm_request, AcquireDecision, AcquireOutcome, GpuExclusive, LockRecord,
    ReleaseDecision, ReleaseOutcome, WarmStep, DEFAULT_TTL_SECS,
};
use chord_proxy::table::Table;

fn env_of(key: &str, value: &str) -> Table {
    let mut env = Table::new();
    env.insert(key.to_string(), value.to_string());
    env
}


fn rec(holder: &str, acquired_at: u64, last_heartbeat: u64) -> LockRecord {
    LockRecord {
        holder: holder.into(),
        acquired_at,
        last_heartbeat,
    }
}


#[test]
fn not_expired_within_ttl() {
    let r = rec("sweep", 100, 100);
    assert!(!r.is_expired(100, 600));
    assert!(!r.is_expired(700, 600)); // exactly ttl old ⇒ not yet expired
}

#[test]
fn expired_past_ttl() {
    let r = rec("sweep", 100, 100);
    assert!(r.is_expired(701, 600)); // 601s since heartbeat > 600 ttl
}

#[test]
fn clock_going_backwards_reads_as_not_expired() {
    let r = rec("sweep", 100, 500);
    // now < last_heartbeat — saturating_sub ⇒ age 0, never spuriously expired.
    assert!(!r.is_expired(400, 600));
}


#[test]
fn acquire_when_free_grants_new() {
    assert_eq!(
        decide_acquire(None, "sweep", 10, 600),
        AcquireDecision::GrantNew
    );
}

#[test]
fn acquire_same_holder_live_lock_is_refresh() {
    let r = rec("sweep", 100, 100);
    assert_eq!(
        decide_acquire(Some(&r), "sweep", 200, 600),
        AcquireDecision::Refresh
    );
}

#[test]
fn acquire_different_holder_live_lock_blocks() {
    let r = rec("sweep", 100, 150);
    assert_eq!(
        decide_acquire(Some(&r), "other", 200, 600),
        AcquireDecision::HeldBy {
            holder: "sweep".into(),
            since: 100
        }
    );
}

#[test]
fn acquire_expired_lock_grants_new_even_to_different_holder() {
    // A crashed holder (no heartbeat past ttl) must never wedge the GPU:
    // anyone can take over an abandoned lock.
    let r = rec("sweep", 100, 100);
    assert_eq!(
        decide_acquire(Some(&r), "other", 1000, 600),
        AcquireDecision::GrantNew
    );
}


#[test]
fn release_no_lock_is_notheld() {
    assert_eq!(decide_release(None, "sweep"), ReleaseDecision::NotHeld);
}

#[test]
fn release_own_lock_releases() {
    let r = rec("sweep", 100, 100);
    assert_eq!(decide_release(Some(&r), "sweep"), ReleaseDecision::Release);
}

#[test]
fn release_others_lock_is_mismatch() {
    let r = rec("sweep", 100, 100);
    assert_eq!(
        decide_release(Some(&r), "other"),
        ReleaseDecision::Mismatch {
            holder: "sweep".into()
        }
    );
}


#[test]
fn acquire_release_cycle() {
    let mut gpu = GpuExclusive::new(600);
    assert!(gpu.active_holder(0).is_none());

    match gpu.acquire("sweep", 10) {
        AcquireOutcome::Granted { new_grant, record } => {
            assert!(new_grant);
            assert_eq!(record.acquired_at, 10);
        }
        other => panic!("expected new grant, got {other:?}"),
    }

    // Now gated.
    let held = gpu.active_holder(20).expect("should be held");
    assert_eq!(held.holder, "sweep");

    // Same-holder re-acquire = heartbeat refresh (not a new grant), preserves
    // acquired_at, bumps last_heartbeat.
    match gpu.acquire("sweep", 300) {
        AcquireOutcome::Granted { new_grant, record } => {
            assert!(!new_grant);
            assert_eq!(record.acquired_at, 10);
            assert_eq!(record.last_heartbeat, 300);
        }
        other => panic!("expected refresh, got {other:?}"),
    }

    // Release frees the GPU.
    assert_eq!(gpu.release("sweep"), ReleaseOutcome::Released);
    assert!(gpu.active_holder(310).is_none());
}

#[test]
fn heartbeat_holds_across_would_be_ttl_but_silence_expires() {
    let mut gpu = GpuExclusive::new(600);
    gpu.acquire("sweep", 0);
    // Heartbeat at 500 keeps it live well past the original 600 window.
    gpu.acquire("sweep", 500);
    assert!(gpu.active_holder(1000).is_some()); // 500s since last heartbeat
                                                // But no further heartbeat ⇒ expires 600s after the last one (500).
    assert!(gpu.active_holder(1101).is_none());
}

#[test]
fn different_holder_blocked_while_live() {
    let mut gpu = GpuExclusive::new(600);
    gpu.acquire("sweep", 0);
    match gpu.acquire("other", 10) {
        AcquireOutcome::Blocked { record } => assert_eq!(record.holder, "sweep"),
        other => panic!("expected blocked, got {other:?}"),
    }
    // Original holder still gates.
    assert_eq!(gpu.active_holder(10).unwrap().holder, "sweep");
}

#[test]
fn expired_lock_no_longer_gates_and_is_takeable() {
    let mut gpu = GpuExclusive::new(600);
    gpu.acquire("sweep", 0);
    assert!(gpu.active_holder(601).is_none()); // abandoned
                                               // A new holder takes over cleanly.
    match gpu.acquire("other", 601) {
        AcquireOutcome::Granted { new_grant, .. } => assert!(new_grant),
        other => panic!("expected takeover grant, got {other:?}"),
    }
    assert_eq!(gpu.active_holder(602).unwrap().holder, "other");
}

#[test]
fn release_mismatch_leaves_lock_intact() {
    let mut gpu = GpuExclusive::new(600);
    gpu.acquire("sweep", 0);
    match gpu.release("other") {
        ReleaseOutcome::Mismatch { record } => assert_eq!(record.holder, "sweep"),
        other => panic!("expected mismatch, got {other:?}"),
    }
    assert!(gpu.active_holder(1).is_some());
}

#[test]
fn ttl_env_parsing_falls_back_on_junk() {
    assert_eq!(ttl_secs_from_env(&env_of("CHORD_GPU_EXCLUSIVE_TTL_SECS", "not-a-number")), DEFAULT_TTL_SECS);
    assert_eq!(ttl_secs_from_env(&env_of("CHORD_GPU_EXCLUSIVE_TTL_SECS", "0")), DEFAULT_TTL_SECS);
    assert_eq!(ttl_secs_from_env(&env_of("CHORD_GPU_EXCLUSIVE_TTL_SECS", "1200")), 1200);
    assert_eq!(ttl_secs_from_env(&Table::new()), DEFAULT_TTL_SECS);
}

#[test]
fn iso_utc_is_rfc3339() {
    // 2021-01-01T00:00:00Z
    assert!(iso_utc(1609459200).starts_with("2021-01-01T00:00:00"));
}


#[test]
fn keep_resident_membership() {
    let exempt = vec!["granite4.1:8b".to_string(), "lumina:latest".to_string()];
    assert!(is_keep_resident("granite4.1:8b", &exempt));
    assert!(is_keep_resident("lumina:latest", &exempt));
    assert!(!is_keep_resident("qwen3-coder:30b", &exempt));
    // Empty exempt set (the default) never matches → today's behavior.
    assert!(!is_keep_resident("granite4.1:8b", &[]));
}

#[test]
fn partition_exempts_keep_resident_only() {
    // granite/embedding are keep-resident; the qwen coder is a sweep model
    // (→ evict); the empty name is dropped entirely.
    let resident = vec![
        "granite4.1:8b".to_string(),
        "qwen3-coder:30b".to_string(),
        "qwen3-embedding:0.6b".to_string(),
        "".to_string(),
    ];
    let exempt = vec![
        "granite4.1:8b".to_string(),
        "qwen3-embedding:0.6b".to_string(),
    ];
    let (to_evict, kept) = partition_evictable(&resident, &exempt);
    // The keep-resident models are NOT in the evict list...
    assert_eq!(to_evict, vec!["qwen3-coder:30b".to_string()]);
    // ...and the non-resident sweep model IS.
    assert!(to_evict.contains(&"qwen3-coder:30b".to_string()));
    assert!(!to_evict.contains(&"granite4.1:8b".to_string()));
    assert!(!to_evict.contains(&"qwen3-embedding:0.6b".to_string()));
    assert_eq!(
        kept,
        vec![
            "granite4.1:8b".to_string(),
            "qwen3-embedding:0.6b".to_string()
        ]
    );
}

#[test]
fn partition_empty_exempt_evicts_everything() {
    // Default (empty exempt) preserves the original "unload all" behavior.
    let resident = vec!["a".to_string(), "b".to_string()];
    let (to_evict, kept) = partition_evictable(&resident, &[]);
    assert_eq!(to_evict, vec!["a".to_string(), "b".to_string()]);
    assert!(kept.is_empty());
}

#[test]
fn warm_body_pins_indefinitely() {
    // The re-warm logic must issue keep_alive:-1 (indefinite residency).
    let body = keep_resident_warm_body("granite4.1:8b");
    assert_eq!(body.model, "granite4.1:8b");
    assert_eq!(body.keep_alive, -1);
    // Empty prompt: load / set keep_alive without generating.
    assert_eq!(body.prompt, "");
}


#[test]
fn embed_warm_body_pins_indefinitely() {
    // The embed keep-resident warm must also issue keep_alive:-1.
    let body = keep_resident_embed_warm_body("qwen3-embedding:0.6b");
    assert_eq!(body.model, "qwen3-embedding:0.6b");
    assert_eq!(body.keep_alive, -1);
    assert_eq!(body.prompt, "");
}

#[test]
fn is_embedding_model_matches_embed_substring() {
    assert!(is_embedding_model("qwen3-embedding:0.6b"));
    assert!(is_embedding_model("mxbai-embed-large:latest"));
    assert!(is_embedding_model("nomic-embed-text"));
    assert!(!is_embedding_model("granite4.1:8b"));
    assert!(!is_embedding_model("qwen3-coder:30b"));
}


/// Pins each model against a server that answers each endpoint with a fixed status, and records
/// which addresses were asked.
fn warm_all(
    base: &str,
    models: &[String],
    generate: Option<u16>,
    embeddings: Option<u16>,
) -> (usize, Vec<String>) {
    let mut asked = Vec::new();
    let mut walk = warm_keep_resident_models(models);
    while let Some((url, body)) = warm_request(models, base, &walk) {
        assert_eq!(body.model, models[walk.at]);
        assert_eq!(body.keep_alive, -1);
        asked.push(url);
        let reply = match walk.step {
            WarmStep::AskGenerate => generate,
            _ => embeddings,
        };
        walk = warm_replied(models, walk, reply);
    }
    (walk.warmed, asked)
}

#[test]
fn warming_passes_over_blank_names_and_goes_on_after_a_failure() {
    let models = vec![
        "".to_string(),
        "granite4.1:8b".to_string(),
        "".to_string(),
        "nomic-embed-text".to_string(),
    ];
    let (warmed, asked) = warm_all("http://ollama.local", &models, None, Some(200));
    assert_eq!(warmed, 1);
    assert_eq!(asked.first().map(String::as_str), Some("http://ollama.local/api/generate"));
    assert_eq!(asked.last().map(String::as_str), Some("http://ollama.local/api/embeddings"));
    assert_eq!(warm_keep_resident_models(&models).at, 1);
    assert_eq!(warm_keep_resident_models(&[]).warmed, 0);
    assert!(warm_request(&[], "http://ollama.local", &warm_keep_resident_models(&[])).is_none());
}

#[test]
fn warm_is_fail_soft_on_unreachable_ollama() {
    let models = vec!["granite4.1:8b".to_string()];
    let (warmed, _) = warm_all("http://192.0.2.1:65535", &models, None, None);
    assert_eq!(warmed, 0);
}

#[test]
fn evict_is_fail_soft_on_unreachable_ollama() {
    let exempt = vec!["granite4.1:8b".to_string()];
    let plan = plan_eviction("http://192.0.2.1:65535", false, &[], &exempt);
    assert!(plan.to_evict.is_empty());
    let unloaded = count_unloaded(&[]);
    assert_eq!(unloaded, 0);
}

#[test]
fn embed_model_uses_embeddings_endpoint_with_keep_alive_minus_one() {
    let models = vec!["qwen3-embedding:0.6b".to_string()];
    let (warmed, asked) = warm_all("http://ollama.local/", &models, Some(200), Some(200));
    assert_eq!(warmed, 1, "embedding model should be pinned via /api/embeddings");
    assert_eq!(asked, vec!["http://ollama.local/api/embeddings".to_string()]);
    assert_eq!(keep_resident_embed_warm_body(&models[0]).keep_alive, -1);
}

#[test]
fn generate_400_falls_back_to_embeddings_warm() {
    let models = vec!["mystery-vectorizer:latest".to_string()];
    let (warmed, asked) = warm_all("http://ollama.local", &models, Some(400), Some(200));
    assert_eq!(warmed, 1, "400 from /api/generate should trigger embed fallback");
    assert_eq!(
        asked,
        vec![
            "http://ollama.local/api/generate".to_string(),
            "http://ollama.local/api/embeddings".to_string(),
        ]
    );
}

const LEASE_FILE: &str = "/state/gpu_exclusive_lease.json";

fn durable(ttl: u64, persisted: Option<LockRecord>, now: u64) -> GpuExclusive {
    GpuExclusive::with_state(ttl, Some(LEASE_FILE.to_string()), persisted, now)
}

#[test]
fn with_state_reloads_live_lease_across_restart() {
    let mut gpu = durable(600, None, 0);
    assert!(matches!(
        gpu.acquire("sweep", 10),
        AcquireOutcome::Granted {
            new_grant: true,
            ..
        }
    ));
    let written = gpu.persisted();
    assert!(written.is_some(), "lease should be written on acquire");

    let restarted = durable(600, written, 20);
    let held = restarted
        .active_holder(20)
        .expect("live lease should survive the restart");
    assert_eq!(held.holder, "sweep");
    assert_eq!(held.acquired_at, 10);
}

#[test]
fn with_state_drops_expired_lease_on_load() {
    let mut gpu = durable(600, None, 0);
    gpu.acquire("sweep", 0);

    let mut restarted = durable(600, gpu.persisted(), 700);
    assert!(restarted.active_holder(700).is_none());
    assert!(matches!(
        restarted.acquire("other", 700),
        AcquireOutcome::Granted {
            new_grant: true,
            ..
        }
    ));
}

#[test]
fn with_state_corrupt_file_starts_unheld_no_panic() {
    // A file that cannot be read hands over nothing.
    let mut gpu = durable(600, None, 0);
    assert!(gpu.active_holder(0).is_none());
    assert!(matches!(
        gpu.acquire("sweep", 0),
        AcquireOutcome::Granted {
            new_grant: true,
            ..
        }
    ));
}

#[test]
fn with_state_missing_file_starts_unheld() {
    let gpu = durable(600, None, 0);
    assert!(gpu.active_holder(0).is_none());
}

#[test]
fn release_clears_persisted_lease() {
    let mut gpu = durable(600, None, 0);
    gpu.acquire("sweep", 0);
    assert_eq!(gpu.release("sweep"), ReleaseOutcome::Released);

    let restarted = durable(600, gpu.persisted(), 1);
    assert!(restarted.active_holder(1).is_none());
}

#[test]
fn heartbeat_refresh_is_persisted() {
    let mut gpu = durable(600, None, 0);
    gpu.acquire("sweep", 0);
    gpu.acquire("sweep", 500);

    let restarted = durable(600, gpu.persisted(), 1000);
    let held = restarted
        .active_holder(1000)
        .expect("refreshed lease should still be live 500s after the heartbeat");
    assert_eq!(held.last_heartbeat, 500);
    assert_eq!(held.acquired_at, 0);
}

#[test]
fn gpu_exclusive_no_state_path_writes_nothing_and_still_works() {
    let mut gpu = GpuExclusive::new(600);
    assert!(gpu.state_path().is_none());
    assert!(matches!(
        gpu.acquire("sweep", 0),
        AcquireOutcome::Granted {
            new_grant: true,
            ..
        }
    ));
    assert_eq!(gpu.active_holder(1).unwrap().holder, "sweep");
    assert_eq!(gpu.release("sweep"), ReleaseOutcome::Released);
}

#[test]
fn lease_from_environment_takes_ttl_and_path() {
    let mut env = env_of("CHORD_STATE_DIR", "/var/lib/chord");
    env.insert("CHORD_GPU_EXCLUSIVE_TTL_SECS".to_string(), "45".to_string());
    let held = rec("sweep", 5, 5);
    let gpu = GpuExclusive::from_env(&env, Some(held.clone()), 6);
    assert_eq!(gpu.ttl(), 45);
    assert!(gpu.state_path().unwrap().starts_with("/var/lib/chord/"));
    assert_eq!(gpu.active_holder(6), Some(held.clone()));
    // Without a place to keep it nothing is reloaded.
    let volatile = GpuExclusive::from_env(&Table::new(), Some(held), 6);
    assert!(volatile.active_holder(6).is_none());
    assert_eq!(volatile.ttl(), DEFAULT_TTL_SECS);
}

#[test]
fn snapshot_tells_whether_the_lease_is_abandoned() {
    let mut gpu = GpuExclusive::new(10);
    assert!(gpu.snapshot(0).is_none());
    gpu.acquire("sweep", 100);
    assert_eq!(gpu.snapshot(110), Some((rec("sweep", 100, 100), false)));
    assert_eq!(gpu.snapshot(111), Some((rec("sweep", 100, 100), true)));
}

#[test]
fn releasing_nothing_is_released() {
    let mut gpu = GpuExclusive::new(10);
    assert_eq!(gpu.release("sweep"), ReleaseOutcome::Released);
}

#[test]
fn instants_are_rendered_by_the_calendar() {
    assert_eq!(iso_utc(0), "1970-01-01T00:00:00+00:00");
    assert_eq!(iso_utc(1609459200), "2021-01-01T00:00:00+00:00");
    // Beyond the calendar, and beyond its signed range, the number itself is shown.
    assert_eq!(iso_utc(9_000_000_000_000_000_000), "9000000000000000000");
    assert_eq!(iso_utc(u64::MAX), "18446744073709551615");
    assert_eq!(iso_utc(9_223_372_036_854_775_808), "9223372036854775808");
    assert_eq!(rendered_or_epoch(None, 7), "7");
    assert_eq!(rendered_or_epoch(Some("then".to_string()), 7), "then");
}

#[test]
fn eviction_goes_to_the_generate_endpoint() {
    let resident = vec!["a".to_string(), "".to_string(), "b".to_string()];
    let plan = plan_eviction("http://ollama.local//", true, &resident, &["b".to_string()]);
    assert_eq!(plan.url, "http://ollama.local/api/generate");
    assert_eq!(plan.to_evict, vec!["a".to_string()]);
    assert_eq!(plan.kept, vec!["b".to_string()]);
    assert_eq!(count_unloaded(&[Some(200), None, Some(500), Some(204)]), 2);
}

#[test]
fn warming_counts_only_what_was_pinned() {
    let models = vec!["".to_string(), "a".to_string(), "Nomic-EMBED".to_string()];
    let (warmed, asked) = warm_all("http://h", &models, Some(500), Some(200));
    assert_eq!(warmed, 1);
    assert_eq!(asked.len(), 2);
    // A server error of the text endpoint does not fall back.
    let (warmed, asked) = warm_all("http://h", &["a".to_string()], Some(503), Some(200));
    assert_eq!(warmed, 0);
    assert_eq!(asked, vec!["http://h/api/generate".to_string()]);
}

#[test]
fn ollama_base_is_trimmed_and_filled() {
    assert_eq!(ollama_base_from_env(&env_of("OLLAMA_URL", "  http://h ")), Some("http://h".to_string()));
    assert_eq!(ollama_base_from_env(&env_of("OLLAMA_URL", "  ")), None);
    assert_eq!(ollama_base_from_env(&Table::new()), None);
}
