use chord_proxy::config::{
    admin_idle_state_path, chord_state_dir, gpu_exclusive_state_path, gtt_total_sysfs_path, ip_bin,
    mcp_backend_token, model_source_allowlist, nft_bin, normalize_llm_url,
    parse_model_source_allowlist, parse_protected_models, release_config, residency_state_path,
    residency_wait_threshold_ms, runtime_telemetry_off, swap_context_defaults,
    sweep_session_state_path, vram_free_sysfs_path, vram_total_sysfs_path, Config, ProxyError,
    RateLimitConfig, COOLDOWN_DISABLED, MCP_TOKEN_MISSING, PERSONAL_TOKEN_MISSING, SOURCES_EMPTY,
    SOURCES_UNSET,
};
use chord_proxy::table::Table;

fn env_of(pairs: &[(&str, &str)]) -> Table {
    let mut env = Table::new();
    for (key, value) in pairs {
        env.insert(key.to_string(), value.to_string());
    }
    env
}

fn loaded(env: &Table) -> Config {
    match Config::from_env(env) {
        Ok(cfg) => cfg,
        Err(e) => panic!("refused: {e:?}"),
    }
}

#[test]
fn test_config_defaults_for_optional_fields() {
    let mut env = Table::new();
    env.insert("MCP_BACKEND_URL".to_string(), "http://mcp-test-backend:3200".to_string());

    let cfg = loaded(&env);
    assert_eq!(cfg.mcp_backend_url, "http://mcp-test-backend:3200");
    assert_eq!(cfg.jwt_secret, "");
    assert_eq!(cfg.tool_timeout_secs, 30);
    assert_eq!(cfg.catalog_cache_secs, 300);
    assert_eq!(cfg.listen_port, 9099);
    assert_eq!(cfg.control_port, 8090);
    assert_eq!(cfg.rate_limits.user_llm_limit, 200);
    assert_eq!(cfg.rate_limits.user_tool_limit, 500);
    assert_eq!(cfg.rate_limits.user_deep_limit, 50);
    assert_eq!(cfg.rate_limits.guest_llm_limit, 20);
    assert_eq!(cfg.rate_limits.guest_tool_limit, 50);
    assert_eq!(cfg.rate_limits.guest_deep_limit, 5);
}

#[test]
fn test_config_reads_custom_values() {
    let mut env = Table::new();
    env.insert("MCP_BACKEND_URL".to_string(), "http://custom-mcp:4000".to_string());
    env.insert("CHORD_JWT_SECRET".to_string(), "my-secret".to_string());
    env.insert("CHORD_TOOL_TIMEOUT_SECS".to_string(), "60".to_string());
    env.insert("CHORD_CATALOG_CACHE_SECS".to_string(), "120".to_string());
    env.insert("CHORD_PROXY_PORT".to_string(), "8888".to_string());
    env.insert("CHORD_CONTROL_PORT".to_string(), "8091".to_string());

    let cfg = loaded(&env);
    assert_eq!(cfg.mcp_backend_url, "http://custom-mcp:4000");
    assert_eq!(cfg.jwt_secret, "my-secret");
    assert_eq!(cfg.tool_timeout_secs, 60);
    assert_eq!(cfg.catalog_cache_secs, 120);
    assert_eq!(cfg.listen_port, 8888);
    assert_eq!(cfg.control_port, 8091);
}

#[test]
fn test_mcp_backend_token_absent_when_env_unset() {
    let mut env = Table::new();
    env.insert("MCP_BACKEND_URL".to_string(), "http://mcp-test-backend:3200".to_string());

    let cfg = loaded(&env);
    assert_eq!(cfg.mcp_backend_token, None);
}

#[test]
fn test_mcp_backend_token_absent_when_env_blank() {
    let mut env = Table::new();
    env.insert("MCP_BACKEND_URL".to_string(), "http://mcp-test-backend:3200".to_string());
    env.insert("MCP_BACKEND_TOKEN".to_string(), "   ".to_string());

    let cfg = loaded(&env);
    assert_eq!(cfg.mcp_backend_token, None);
}

#[test]
fn test_mcp_backend_token_present_when_env_set() {
    let mut env = Table::new();
    env.insert("MCP_BACKEND_URL".to_string(), "http://mcp-test-backend:3200".to_string());
    env.insert("MCP_BACKEND_TOKEN".to_string(), "shared-secret-123".to_string());

    let cfg = loaded(&env);
    assert_eq!(cfg.mcp_backend_token, Some("shared-secret-123".to_string()));
}

#[test]
fn test_config_model_tier_defaults() {
    let mut env = Table::new();
    env.insert("MCP_BACKEND_URL".to_string(), "http://mcp-test-backend:3200".to_string());

    let cfg = loaded(&env);
    assert_eq!(cfg.model_archive_path, "/var/lib/model-archive");
    assert_eq!(cfg.model_local_path, "/opt/ollama-models");
    assert!(!cfg.model_protected.contains(&"lumina".to_string()));
    assert!(cfg.model_protected.contains(&"lumina-fast".to_string()));
    assert!(cfg.model_protected.contains(&"lumina-deep".to_string()));
    assert!(cfg.model_protected.contains(&"qwen3-coder:30b".to_string()));
    assert_eq!(cfg.model_protected.len(), 5);
    assert_eq!(cfg.model_pull_timeout_secs, 600);
    assert_eq!(cfg.model_disk_pressure_percent, 80);
    assert_eq!(cfg.model_sweep_interval_secs, 1800);
    assert_eq!(cfg.model_warm_cooldown_hours, 168);
    assert_eq!(cfg.model_archive_copy_timeout_secs, 1800);
    assert_eq!(cfg.model_gc_min_age_secs, 300);
}

#[test]
fn test_config_model_tier_reads_env() {
    let mut env = Table::new();
    env.insert("MCP_BACKEND_URL".to_string(), "http://mcp-test-backend:3200".to_string());
    env.insert("MODEL_ARCHIVE_PATH".to_string(), "/custom/archive".to_string());
    env.insert("MODEL_LOCAL_PATH".to_string(), "/custom/local".to_string());
    env.insert("MODEL_PROTECTED".to_string(), "a,b , c".to_string());

    let cfg = loaded(&env);
    assert_eq!(cfg.model_archive_path, "/custom/archive");
    assert_eq!(cfg.model_local_path, "/custom/local");
    assert_eq!(cfg.model_protected, vec!["a", "b", "c"]);

    env.insert("MODEL_PULL_TIMEOUT_SECS".to_string(), "120".to_string());
    env.insert("MODEL_DISK_PRESSURE_PERCENT".to_string(), "90".to_string());
    env.insert("MODEL_SWEEP_INTERVAL_SECS".to_string(), "60".to_string());
    env.insert("MODEL_WARM_COOLDOWN_HOURS".to_string(), "24".to_string());
    env.insert("MODEL_ARCHIVE_COPY_TIMEOUT_SECS".to_string(), "900".to_string());
    env.insert("MODEL_GC_MIN_AGE_SECS".to_string(), "60".to_string());
    let cfg = loaded(&env);
    assert_eq!(cfg.model_pull_timeout_secs, 120);
    assert_eq!(cfg.model_disk_pressure_percent, 90);
    assert_eq!(cfg.model_sweep_interval_secs, 60);
    assert_eq!(cfg.model_warm_cooldown_hours, 24);
    assert_eq!(cfg.model_archive_copy_timeout_secs, 900);
    assert_eq!(cfg.model_gc_min_age_secs, 60);
}

#[test]
fn test_rate_limit_config_reads_env_vars() {
    let mut env = Table::new();
    env.insert("CHORD_RATE_LLM_USER".to_string(), "99".to_string());
    env.insert("CHORD_RATE_TOOL_USER".to_string(), "88".to_string());
    env.insert("CHORD_RATE_DEEP_USER".to_string(), "11".to_string());
    env.insert("CHORD_RATE_LLM_GUEST".to_string(), "7".to_string());
    env.insert("CHORD_RATE_TOOL_GUEST".to_string(), "14".to_string());
    env.insert("CHORD_RATE_DEEP_GUEST".to_string(), "2".to_string());

    let rl = RateLimitConfig::from_env(&env);
    assert_eq!(rl.user_llm_limit, 99);
    assert_eq!(rl.user_tool_limit, 88);
    assert_eq!(rl.user_deep_limit, 11);
    assert_eq!(rl.guest_llm_limit, 7);
    assert_eq!(rl.guest_tool_limit, 14);
    assert_eq!(rl.guest_deep_limit, 2);
}

#[test]
fn test_config_debug_redacts_mcp_backend_token() {
    let mut cfg = Config::test_default();
    cfg.mcp_backend_token = Some("hunter2-super-secret".to_string());
    let debug_str = cfg.debug_text();
    assert!(!debug_str.contains("hunter2-super-secret"));
    assert!(debug_str.contains("***redacted***"));

    cfg.mcp_backend_token = None;
    let debug_str = cfg.debug_text();
    assert!(!debug_str.contains("***redacted***"));
    assert!(debug_str.contains("mcp_backend_token: None"));
}

#[test]
fn test_normalize_llm_url_keeps_real_value() {
    assert_eq!(
        normalize_llm_url(Some("http://localhost:11434/v1/chat/completions".into())).as_deref(),
        Some("http://localhost:11434/v1/chat/completions")
    );
}

#[test]
fn test_normalize_llm_url_trims_whitespace() {
    assert_eq!(
        normalize_llm_url(Some("  http://host:11434/v1/chat/completions  ".into())).as_deref(),
        Some("http://host:11434/v1/chat/completions")
    );
}

#[test]
fn test_normalize_llm_url_none_for_missing_or_blank() {
    assert!(normalize_llm_url(None).is_none());
    assert!(normalize_llm_url(Some(String::new())).is_none());
    assert!(
        normalize_llm_url(Some("   ".into())).is_none(),
        "blank CHORD_LLM_URL must be treated as None (endpoint disabled)"
    );
}

#[test]
fn test_parse_protected_models_trims_and_drops_empties() {
    let v = parse_protected_models(" lumina, lumina-fast ,, qwen3:8b , ");
    assert_eq!(v, vec!["lumina", "lumina-fast", "qwen3:8b"]);
    assert!(parse_protected_models("").is_empty());
    assert!(parse_protected_models("  , ,").is_empty());
}

#[test]
fn test_mcp_backend_token_fn_trims_and_filters_blank() {
    assert_eq!(
        mcp_backend_token(&env_of(&[("MCP_BACKEND_TOKEN", "  padded-token  ")])),
        Some("padded-token".to_string())
    );
    assert_eq!(mcp_backend_token(&Table::new()), None);
}

#[test]
fn test_config_missing_required_field_fails() {
    match Config::from_env(&Table::new()) {
        Ok(_) => panic!("must fail"),
        Err(ProxyError::Config(err)) => assert!(err.contains("MCP_BACKEND_URL")),
    }
}

#[test]
fn no_token_is_ever_shown() {
    let mut cfg = Config::test_default();
    cfg.jwt_secret = "jwt-value".to_string();
    cfg.mcp_backend_token = Some("backend-value".to_string());
    cfg.personal_backend_token = Some("personal-value".to_string());
    let text = cfg.debug_text();
    assert!(!text.contains("backend-value"));
    assert!(!text.contains("personal-value"));
}

#[test]
fn shown_texts_are_quoted() {
    let mut cfg = Config::test_default();
    cfg.mcp_backend_url = "http://a\"b".to_string();
    assert!(cfg.debug_text().contains("mcp_backend_url: \"http://a\\\"b\""));
}

#[test]
fn state_files_lie_in_the_state_directory() {
    let env = env_of(&[("CHORD_STATE_DIR", " /var/lib/chord ")]);
    assert_eq!(chord_state_dir(&env).as_deref(), Some("/var/lib/chord"));
    assert_eq!(
        gpu_exclusive_state_path(&env).as_deref(),
        Some("/var/lib/chord/gpu_exclusive_lease.json")
    );
    assert_eq!(
        sweep_session_state_path(&env).as_deref(),
        Some("/var/lib/chord/sweep_sessions.json")
    );
    assert_eq!(
        admin_idle_state_path(&env).as_deref(),
        Some("/var/lib/chord/admin_idle_state.json")
    );
    assert!(gpu_exclusive_state_path(&env_of(&[("CHORD_STATE_DIR", "  ")])).is_none());
    assert!(admin_idle_state_path(&Table::new()).is_none());
}

#[test]
fn paths_and_numbers_come_from_the_environment() {
    let env = env_of(&[
        ("CHORD_VRAM_FREE_SYSFS_PATH", "/sys/a"),
        ("CHORD_VRAM_TOTAL_SYSFS_PATH", "/sys/b"),
        ("CHORD_GTT_TOTAL_SYSFS_PATH", "/sys/c"),
        ("CHORD_RESIDENCY_STATE_PATH", "/state/r"),
        ("CHORD_RESIDENCY_WAIT_THRESHOLD_MS", "12"),
        ("CHORD_SWAP_BASE_CTX", "+100"),
        ("CHORD_SWAP_MIN_CTX", "x"),
        ("CHORD_RELEASE_BASELINE_GB", "1.5"),
    ]);
    assert_eq!(vram_free_sysfs_path(&env).as_deref(), Some("/sys/a"));
    assert_eq!(vram_total_sysfs_path(&env).as_deref(), Some("/sys/b"));
    assert_eq!(gtt_total_sysfs_path(&env).as_deref(), Some("/sys/c"));
    assert_eq!(residency_state_path(&env).as_deref(), Some("/state/r"));
    assert_eq!(residency_wait_threshold_ms(&env), 12);
    let ctx = swap_context_defaults(&env);
    assert_eq!(ctx.base_ctx, 100);
    assert_eq!(ctx.min_ctx, 8192);
    assert_eq!(release_config(&env).baseline_gb.as_deref(), Some("1.5"));
    assert!(release_config(&Table::new()).baseline_gb.is_none());
}

#[test]
fn sources_are_listed_by_commas_or_blanks() {
    assert_eq!(
        parse_model_source_allowlist("a, b  c,,d\te"),
        vec!["a", "b", "c", "d", "e"]
    );
    let env = env_of(&[("MODEL_SOURCE_ALLOWLIST", "x y")]);
    assert_eq!(model_source_allowlist(&env), vec!["x", "y"]);
}

#[test]
fn telemetry_stays_off_unless_allowed() {
    assert!(runtime_telemetry_off(&Table::new()));
    for on in ["false", "0", "no", "FALSE", " No "] {
        assert!(!runtime_telemetry_off(&env_of(&[("CHORD_RUNTIME_TELEMETRY_OFF", on)])), "{on}");
    }
    for off in ["true", "1", "yes", "banana", "off"] {
        assert!(runtime_telemetry_off(&env_of(&[("CHORD_RUNTIME_TELEMETRY_OFF", off)])), "{off}");
    }
}

#[test]
fn programs_can_be_named_or_switched_off() {
    assert_eq!(ip_bin(&Table::new()).as_deref(), Some("ip"));
    assert_eq!(nft_bin(&Table::new()).as_deref(), Some("nft"));
    assert_eq!(ip_bin(&env_of(&[("CHORD_IP_BIN", "/sbin/ip")])).as_deref(), Some("/sbin/ip"));
}

#[test]
fn the_operator_is_warned_of_what_is_missing() {
    let env = env_of(&[
        ("MCP_BACKEND_URL", "http://mcp"),
        ("PERSONAL_BACKEND_URL", "http://personal"),
        ("MODEL_WARM_COOLDOWN_HOURS", "0"),
    ]);
    assert_eq!(
        loaded(&env).warnings(&env),
        vec![MCP_TOKEN_MISSING, SOURCES_UNSET, PERSONAL_TOKEN_MISSING, COOLDOWN_DISABLED]
    );
    let env = env_of(&[("MCP_BACKEND_URL", "  "), ("MODEL_SOURCE_ALLOWLIST", " , ")]);
    assert_eq!(loaded(&env).warnings(&env), vec![SOURCES_EMPTY]);
    let env = env_of(&[
        ("MCP_BACKEND_URL", "http://mcp"),
        ("MCP_BACKEND_TOKEN", "SECRET-REDACTED"),
        ("MODEL_SOURCE_ALLOWLIST", "registry.ollama.ai"),
        ("PERSONAL_BACKEND_URL", "http://personal"),
        ("PERSONAL_BACKEND_TOKEN", "SECRET-REDACTED"),
    ]);
    assert!(loaded(&env).warnings(&env).is_empty());
}

#[test]
fn either_token_alone_is_hidden() {
    let text = |name: &str, token: &str| {
        loaded(&env_of(&[("MCP_BACKEND_URL", "http://mcp"), (name, token)])).debug_text()
    };
    for name in ["MCP_BACKEND_TOKEN", "PERSONAL_BACKEND_TOKEN"] {
        assert_eq!(text(name, "first"), text(name, "second"));
        assert!(!text(name, "first").contains("first"));
    }
}
