use chord_proxy::diffusion::{
    decide_evict, decide_start, is_diffusion_model, wait_for_health, DiffusionConfig,
    DiffusionManager, EnsureStep, Liveness, StartDecision,
};
use chord_proxy::table::Table;

#[test]
fn default_config_matches_expected_nvme_paths() {
    let cfg = DiffusionConfig::default();
    assert_eq!(cfg.model_id, "diffusion-gemma");
    assert_eq!(cfg.port, 8877);
    assert_eq!(cfg.bind, "127.0.0.1");
    assert_eq!(cfg.idle_secs, 300);
    assert!(cfg.bin.contains("llama-diffusion-daemon"));
    assert!(cfg.model_path.ends_with(".gguf"));
    assert!(cfg.extra_args.contains(&"--diffusion-eb".to_string()));
}

#[test]
fn base_url_and_health_url() {
    let cfg = DiffusionConfig {
        bind: "127.0.0.1".into(),
        port: 8877,
        ..DiffusionConfig::default()
    };
    assert_eq!(cfg.base_url(), "http://127.0.0.1:8877");
    assert_eq!(cfg.health_url(), "http://127.0.0.1:8877/health");
}

#[test]
fn chat_completions_url_has_exactly_one_path_segment() {
    let cfg = DiffusionConfig {
        bind: "127.0.0.1".into(),
        port: 8877,
        ..DiffusionConfig::default()
    };
    let url = cfg.chat_completions_url();
    assert_eq!(url, "http://127.0.0.1:8877/v1/chat/completions");
    assert_eq!(
        url.matches("/v1/chat/completions").count(),
        1,
        "URL must carry exactly one chat-completions path, got: {url}"
    );
}
#[test]
fn from_getter_overrides_defaults_and_ignores_junk_port() {
    let env: std::collections::HashMap<&str, &str> = [
        ("DIFFUSION_MODEL_ID", "test-diffusion"),
        ("DIFFUSION_PORT", "9999"),
        ("DIFFUSION_IDLE_SECS", "42"),
        ("DIFFUSION_EXTRA_ARGS", "-x 1 -y 2"),
    ]
    .into_iter()
    .collect();
    let cfg = DiffusionConfig::from_getter(|k| env.get(k).map(|s| s.to_string()));
    assert_eq!(cfg.model_id, "test-diffusion");
    assert_eq!(cfg.port, 9999);
    assert_eq!(cfg.idle_secs, 42);
    assert_eq!(cfg.extra_args, vec!["-x", "1", "-y", "2"]);
    let junk: std::collections::HashMap<&str, &str> =
        [("DIFFUSION_PORT", "not-a-port")].into_iter().collect();
    let cfg2 = DiffusionConfig::from_getter(|k| junk.get(k).map(|s| s.to_string()));
    assert_eq!(cfg2.port, 8877);
    let cfg3 = DiffusionConfig::from_getter(|_| None);
    assert_eq!(cfg3, DiffusionConfig::default());
}

#[test]
fn is_diffusion_model_matches_exact_and_tagged() {
    let cfg = DiffusionConfig::default();
    assert!(is_diffusion_model(&cfg, "diffusion-gemma"));
    assert!(is_diffusion_model(&cfg, "diffusion-gemma:latest"));
    assert!(is_diffusion_model(&cfg, "Diffusion-Gemma"));
    assert!(!is_diffusion_model(&cfg, "qwen3-coder:30b"));
    assert!(!is_diffusion_model(&cfg, "diffusion-gemma-eval"));
}

#[test]
fn decide_start_already_running_short_circuits_regardless_of_gpu_lock() {
    assert_eq!(decide_start(true, true), StartDecision::AlreadyRunning);
    assert_eq!(decide_start(false, true), StartDecision::AlreadyRunning);
}

#[test]
fn decide_start_blocked_when_gpu_exclusively_held_and_not_running() {
    assert_eq!(decide_start(true, false), StartDecision::Blocked);
}

#[test]
fn decide_start_starts_when_free_and_not_running() {
    assert_eq!(decide_start(false, false), StartDecision::Start);
}

#[test]
fn decide_evict_true_when_running_and_idle_past_threshold() {
    assert!(decide_evict(true, 300, 300));
    assert!(decide_evict(true, 301, 300));
}

#[test]
fn decide_evict_false_when_not_yet_idle() {
    assert!(!decide_evict(true, 299, 300));
}

#[test]
fn decide_evict_false_when_not_running() {
    assert!(!decide_evict(false, 10_000, 300));
}

#[test]
fn decide_evict_disabled_when_idle_timeout_zero() {
    assert!(!decide_evict(true, 1_000_000, 0));
}


const BLOCKED: &str = "diffusion: GPU exclusively held — refusing to start llama-diffusion-daemon";

#[test]
fn ensure_running_blocked_while_gpu_exclusively_held() {
    let mut mgr = DiffusionManager::new(DiffusionConfig {
        bin: "/nonexistent/llama-diffusion-daemon".into(),
        ..DiffusionConfig::default()
    });
    let step = mgr.ensure_running_gated(true, Liveness::Exited, 10);
    assert_eq!(step, EnsureStep::Fail(BLOCKED.to_string()));
    assert!(!mgr.is_running(Liveness::Exited));
}

#[test]
fn ensure_running_surfaces_spawn_failure_when_gpu_free() {
    let mut mgr = DiffusionManager::new(DiffusionConfig {
        bin: "/definitely/not/a/real/binary/llama-diffusion-daemon".into(),
        port: 59_337,
        ..DiffusionConfig::default()
    });
    let step = mgr.ensure_running_gated(false, Liveness::Exited, 10);
    assert_eq!(step, EnsureStep::ProbePort("http://127.0.0.1:59337/health".to_string()));
    let (step, warn) = mgr.port_probed(false, 10);
    assert!(!warn);
    match step {
        EnsureStep::Spawn(plan) => {
            assert_eq!(plan.bin, "/definitely/not/a/real/binary/llama-diffusion-daemon");
            assert_eq!(plan.args[0], "-m");
            assert!(plan.args[1].ends_with(".gguf"));
            assert_eq!(plan.args[2], "-ngl");
            assert_eq!(plan.args.len(), 14);
            assert_eq!(plan.env[1], ("DGEM_HTTP_PORT".to_string(), "59337".to_string()));
            assert_eq!(plan.env[2], ("DGEM_IDLE_TIMEOUT_SECS".to_string(), "0".to_string()));
        }
        other => panic!("expected Spawn, got {other:?}"),
    }
    let step = mgr.spawned(Err("No such file".to_string()));
    assert_eq!(
        step,
        EnsureStep::Fail("diffusion: failed to spawn llama-diffusion-daemon: No such file".to_string())
    );
    assert!(!mgr.is_running(Liveness::Alive));
}

#[test]
fn stop_on_never_started_manager_is_a_noop() {
    let mut mgr = DiffusionManager::new(DiffusionConfig::default());
    assert!(!mgr.stop());
}

#[test]
fn dead_tracked_child_is_reaped_and_not_running() {
    let mut mgr = DiffusionManager::new(DiffusionConfig::default());
    mgr.spawned(Ok(()));
    assert!(mgr.is_running(Liveness::Alive));
    assert!(
        !mgr.is_running(Liveness::Exited),
        "a tracked child that has exited must not read as running"
    );
}

#[test]
fn start_that_becomes_healthy_serves_and_is_evicted_when_idle() {
    let mut mgr = DiffusionManager::new(DiffusionConfig::default());
    let serve = EnsureStep::Serve("http://127.0.0.1:8877/v1/chat/completions".to_string());
    assert_eq!(
        mgr.spawned(Ok(())),
        EnsureStep::AwaitHealth("http://127.0.0.1:8877/health".to_string(), 120)
    );
    assert_eq!(mgr.health_awaited(true, 1_000), serve);
    // Running: served at once, whoever holds the GPU.
    assert_eq!(mgr.ensure_running_gated(true, Liveness::Alive, 1_100), serve);
    assert_eq!(mgr.idle_secs(1_150), 50);
    assert_eq!(mgr.idle_secs(1_000), 0);
    assert!(!mgr.idle_eviction_due(Liveness::Alive, 1_399));
    assert!(mgr.idle_eviction_due(Liveness::Unknown, 1_400));
    assert!(mgr.stop());
    assert!(!mgr.idle_eviction_due(Liveness::Alive, 9_999));
}

#[test]
fn start_that_stays_unhealthy_is_given_up() {
    let mut mgr = DiffusionManager::new(DiffusionConfig::default());
    mgr.spawned(Ok(()));
    assert_eq!(
        mgr.health_awaited(false, 5),
        EnsureStep::Fail(
            "diffusion: llama-diffusion-daemon did not become healthy within 120s".to_string()
        )
    );
    assert!(!mgr.is_running(Liveness::Alive));
    assert_eq!(wait_for_health(true, true), Some(true));
    assert_eq!(wait_for_health(false, true), Some(false));
    assert_eq!(wait_for_health(false, false), None);
}

#[test]
fn ambient_daemon_is_used_warned_of_once_and_not_owned() {
    let mut mgr = DiffusionManager::new(DiffusionConfig::default());
    let (step, warn) = mgr.port_probed(true, 5);
    assert!(matches!(step, EnsureStep::Serve(_)));
    assert!(warn);
    let (_, again) = mgr.port_probed(true, 6);
    assert!(!again);
    assert!(!mgr.is_running(Liveness::Alive));
    mgr.spawned(Ok(()));
    mgr.stop();
    let (_, anew) = mgr.port_probed(true, 7);
    assert!(anew);
}

#[test]
fn daemon_settings_come_from_the_environment() {
    let mut env = Table::new();
    env.insert("DIFFUSION_BIND".to_string(), " 0.0.0.0 ".to_string());
    env.insert("DIFFUSION_PORT".to_string(), "65536".to_string());
    env.insert("DIFFUSION_START_TIMEOUT_SECS".to_string(), " 7 ".to_string());
    env.insert("DIFFUSION_EXTRA_ARGS".to_string(), "   ".to_string());
    let cfg = DiffusionConfig::from_env(&env);
    assert_eq!(cfg.bind, "0.0.0.0");
    assert_eq!(cfg.port, 8877);
    assert_eq!(cfg.start_timeout_secs, 7);
    assert_eq!(cfg.extra_args, DiffusionConfig::default().extra_args);
    let mgr = DiffusionManager::new(cfg);
    assert_eq!(mgr.model_id(), "diffusion-gemma");
    assert!(mgr.is_diffusion_model("Diffusion-Gemma:x"));
    assert_eq!(mgr.config().bind, "0.0.0.0");
}
