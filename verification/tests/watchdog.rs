use chord_proxy::admin::idle::{EnterOutcome, IdleController, Phase, ResumeManifest};
use chord_proxy::admin::watchdog::{
    coder_activity_holders_from_env, coder_activity_stale, coder_activity_timeout_secs_from_env,
    compiler_lease_held, compiler_lease_holders_from_env, drain_secs_from_env,
    is_coder_activity_holder, is_compiler_lease, parse_positive_env,
    release_budget_secs_from_env, stale_transition_secs_from_env, stale_transition_warning,
    watchdog_due, watchdog_secs_from_env, watchdog_should_activate, watchdog_tick,
    watchdog_tick_should_activate, DEFAULT_CODER_ACTIVITY_HOLDERS,
    DEFAULT_CODER_ACTIVITY_TIMEOUT_SECS,
};
use chord_proxy::gpu_exclusive::{GpuExclusive, DEFAULT_TTL_SECS};
use chord_proxy::table::Table;

fn env_of(pairs: &[(&str, &str)]) -> Table {
    let mut env = Table::new();
    for (key, value) in pairs {
        env.insert(key.to_string(), value.to_string());
    }
    env
}

fn manifest(reason: &str, entered_at: u64, deadline: u64) -> ResumeManifest<f64> {
    ResumeManifest {
        reason: reason.into(),
        entered_at,
        watchdog_deadline: deadline,
        resident_models: vec!["qwen3-coder:30b".into()],
        mem_available_before_gb: 12.0,
        episode: 0,
    }
}

fn holders() -> Vec<String> {
    vec!["compiler".into(), "build".into(), "bld".into()]
}
fn coder_holders() -> Vec<String> {
    DEFAULT_CODER_ACTIVITY_HOLDERS
        .split(',')
        .map(|s| s.trim().to_ascii_lowercase())
        .filter(|s| !s.is_empty())
        .collect()
}


#[test]
fn compiler_lease_matches_only_build_holders() {
    let p = holders();
    assert!(is_compiler_lease("compiler", &p));
    assert!(is_compiler_lease("bld-05-compiler", &p));
    assert!(is_compiler_lease("constellation-build", &p));
    assert!(is_compiler_lease("COMPILER", &p));
    assert!(!is_compiler_lease("intake_coder_sweep", &p));
    assert!(!is_compiler_lease("intake_assistant_sweep", &p));
    assert!(!is_compiler_lease("", &p));
}

#[test]
fn watchdog_defers_only_for_compiler_lease() {
    let p = holders();
    assert!(!watchdog_should_activate(false, Some("compiler"), &p));
    assert!(!watchdog_should_activate(false, None, &p));
    assert!(!watchdog_should_activate(true, Some("bld-05-compiler"), &p));
    assert!(watchdog_should_activate(
        true,
        Some("intake_coder_sweep"),
        &p
    ));
    assert!(watchdog_should_activate(true, None, &p));
}


#[test]
fn coder_activity_stale_no_heartbeat_is_immediately_stale() {
    assert!(coder_activity_stale(1_000, None, 900));
}

#[test]
fn coder_activity_stale_within_window_is_fresh() {
    assert!(!coder_activity_stale(1_000, Some(500), 900));
}

#[test]
fn coder_activity_stale_at_and_past_timeout() {
    assert!(coder_activity_stale(1_400, Some(500), 900));
    assert!(coder_activity_stale(2_000, Some(500), 900));
}

#[test]
fn coder_activity_stale_clock_backwards_reads_fresh() {
    assert!(!coder_activity_stale(400, Some(1_000), 900));
}

#[test]
fn watchdog_tick_bounds_compiler_defer_by_heartbeat_silence() {
    let p = holders();
    let cp = coder_holders();
    let timeout = 900u64;
    assert!(!watchdog_tick_should_activate(
        1_010,
        false,
        Some("compiler-build-7"),
        Some(1_000),
        &p,
        &cp,
        timeout
    ));
    assert!(watchdog_tick_should_activate(
        1_901,
        false,
        Some("compiler-build-7"),
        Some(1_000),
        &p,
        &cp,
        timeout
    ));
    assert!(!watchdog_tick_should_activate(
        5_005,
        true,
        Some("compiler-build-7"),
        Some(5_000),
        &p,
        &cp,
        timeout
    ));
    assert!(watchdog_tick_should_activate(
        9_999,
        true,
        Some("intake_coder_sweep"),
        Some(9_990),
        &p,
        &cp,
        timeout
    ));
    assert!(!watchdog_tick_should_activate(
        9_999,
        false,
        Some("intake_coder_sweep"),
        Some(9_990),
        &p,
        &cp,
        timeout
    ));
    assert!(watchdog_tick_should_activate(
        9_999, true, None, None, &p, &cp, timeout
    ));
    assert!(!watchdog_tick_should_activate(
        9_999, false, None, None, &p, &cp, timeout
    ));
}

#[test]
fn coder_activity_holders_default_matches_real_production_gpu_labels() {
    let cp = coder_holders();
    assert_eq!(
        cp,
        vec!["coder".to_string(), "assistant".to_string()],
        "sanity: this test must be exercising the real DEFAULT_CODER_ACTIVITY_HOLDERS"
    );
    assert!(
        is_coder_activity_holder("intake_coder_sweep", &cp),
        "intake_coder_sweep (Terminus src/intake/coder_sweep.rs GPU_HOLDER) must reach \
         the coder-activity floor"
    );
    assert!(
        is_coder_activity_holder("intake_coder_case", &cp),
        "intake_coder_case (Terminus src/intake/coder_case.rs GPU_HOLDER) must reach \
         the coder-activity floor"
    );
    assert!(
        is_coder_activity_holder("intake_assistant_sweep", &cp),
        "intake_assistant_sweep (Terminus src/intake/assistant/runner.rs GPU_HOLDER) \
         must reach the coder-activity floor"
    );
    assert!(
        !is_coder_activity_holder("mint_breakfix", &cp),
        "mint_breakfix must NOT reach the coder-activity floor via the DEFAULT pattern \
         set — unverified heartbeat cadence, deliberately excluded pending that \
         verification (see DEFAULT_CODER_ACTIVITY_HOLDERS doc); it remains governed by \
         the absolute watchdog deadline alone, unchanged from before this item"
    );
    let compiler_patterns = holders();
    for real_holder in [
        "intake_coder_sweep",
        "intake_coder_case",
        "intake_assistant_sweep",
        "mint_breakfix",
    ] {
        assert!(
            !is_compiler_lease(real_holder, &compiler_patterns),
            "{real_holder} must NOT match the COMPILER pattern set — that's the whole \
             reason a separate coder-activity set is needed"
        );
    }
}

#[test]
fn watchdog_tick_should_activate_reaches_floor_for_real_coder_holder_labels() {
    let p = holders();
    let cp = coder_holders();
    let timeout = 900u64;
    assert!(!watchdog_tick_should_activate(
        1_010,
        false,
        Some("intake_coder_sweep"),
        Some(1_000),
        &p,
        &cp,
        timeout
    ));
    assert!(watchdog_tick_should_activate(
        1_901,
        false,
        Some("intake_coder_sweep"),
        Some(1_000),
        &p,
        &cp,
        timeout
    ));
    assert!(!watchdog_tick_should_activate(
        1_901,
        false,
        Some("mint_breakfix"),
        Some(1_000),
        &p,
        &cp,
        timeout
    ));
    assert!(watchdog_tick_should_activate(
        1_901,
        true,
        Some("mint_breakfix"),
        Some(1_000),
        &p,
        &cp,
        timeout
    ));
}

#[test]
fn behavioral_coder_silence_reverts_state_machine_to_active() {

    let mut ctl: IdleController<f64> = IdleController::new(0);
    let mut gpu = GpuExclusive::new(u64::MAX);
    let patterns = holders();
    let coder_patterns = coder_holders();
    let timeout = 900u64;
    let m = manifest("compiler-build-42", 0, 3600);
    assert!(matches!(ctl.enter(m.clone(), 0), EnterOutcome::Entered(_)));
    assert_eq!(ctl.phase(), Phase::Idle);
    for tick_now in [0u64, 300, 600, 900, 1_200, 1_500] {
        gpu.acquire("compiler-build-42", tick_now);
        let result = watchdog_tick(&mut ctl, &gpu, tick_now, &patterns, &coder_patterns, timeout, true);
        assert!(
            result.is_none(),
            "must NOT revert mid-build while heartbeats keep arriving (t={tick_now})"
        );
        assert_eq!(
            ctl.phase(),
            Phase::Idle,
            "still idle — the build is still genuinely renewing (t={tick_now})"
        );
    }
    let last_heartbeat = 1_500u64;
    let now_past = last_heartbeat + timeout;
    let cleared = watchdog_tick(&mut ctl, &gpu, now_past, &patterns, &coder_patterns, timeout, true)
        .expect("coder silence past the window must actually revert");
    assert_eq!(cleared.reason, "compiler-build-42");
    assert_eq!(
        ctl.phase(),
        Phase::Active,
        "Chord must actually be back in its default assistant-fleet mode"
    );
    assert!(!ctl.is_idle());
}

#[test]
fn watchdog_tick_treats_expired_gpu_record_as_no_holder() {

    let mut ctl: IdleController<f64> = IdleController::new(0);
    let mut gpu = GpuExclusive::new(600);
    let patterns = holders();
    let coder_patterns = coder_holders();
    let coder_activity_timeout = 900u64;
    let m = manifest("compiler-build-expired", 0, 100);
    assert!(matches!(ctl.enter(m.clone(), 0), EnterOutcome::Entered(_)));
    gpu.acquire("compiler-build-expired", 0);
    let now = 2000u64;

    let result = watchdog_tick(&mut ctl, &gpu, now, &patterns, &coder_patterns, coder_activity_timeout, true);
    assert!(
        result.is_some(),
        "a record abandoned well past both TTLs must not defer an already-overdue revert"
    );
    assert_eq!(
        ctl.phase(),
        Phase::Active,
        "the state machine must have actually flipped back to Active"
    );
}

#[test]
fn watchdog_tick_default_ttls_honor_the_900s_coder_activity_floor() {

    let mut ctl: IdleController<f64> = IdleController::new(0);
    let mut gpu = GpuExclusive::new(DEFAULT_TTL_SECS);
    let patterns = holders();
    let coder_patterns = coder_holders();
    let coder_activity_timeout = DEFAULT_CODER_ACTIVITY_TIMEOUT_SECS;
    assert!(
        DEFAULT_TTL_SECS < coder_activity_timeout,
        "sanity: this test only means something when the GPU ttl is the \
         SHORTER of the two, exactly the real default configuration"
    );
    let m = manifest("compiler-build-longhaul", 0, 10);
    assert!(matches!(ctl.enter(m, 0), EnterOutcome::Entered(_)));

    let last_heartbeat = 0u64;
    gpu.acquire("compiler-build-longhaul", last_heartbeat);
    let still_within_floor = last_heartbeat + 650;
    assert!(
        watchdog_tick(&mut ctl, &gpu, still_within_floor, &patterns, &coder_patterns, coder_activity_timeout, true)
            .is_none(),
        "650s of silence is past GPU_EXCLUSIVE's own 600s TTL but still under \
         the promised 900s coder-activity floor — must NOT revert"
    );
    assert_eq!(
        ctl.phase(),
        Phase::Idle,
        "still idle — 650s does not yet violate the 900s floor"
    );
    let at_floor = last_heartbeat + coder_activity_timeout;
    let result = watchdog_tick(&mut ctl, &gpu, at_floor, &patterns, &coder_patterns, coder_activity_timeout, true);
    assert!(
        result.is_some(),
        "900s of silence meets the coder-activity floor — must revert"
    );
    assert_eq!(ctl.phase(), Phase::Active);
}


#[test]
fn positive_env_falls_back_on_junk() {
    let key = "CHORD_IDLE_TEST_KEY";
    assert_eq!(parse_positive_env(&env_of(&[(key, "not-a-number")]), key, 42), 42);
    assert_eq!(parse_positive_env(&env_of(&[(key, "0")]), key, 42), 42);
    assert_eq!(parse_positive_env(&env_of(&[(key, "900")]), key, 42), 900);
}

#[test]
fn compiler_lease_holders_default_when_unset() {
    let p = compiler_lease_holders_from_env(&Table::new());
    assert!(p.contains(&"compiler".to_string()));
    assert!(is_compiler_lease("compiler", &p));
}

#[test]
fn stale_threshold_always_exceeds_release_budget() {
    let env = Table::new();
    assert!(stale_transition_secs_from_env(&env) > release_budget_secs_from_env(&env));

    let env = env_of(&[
        ("CHORD_IDLE_RELEASE_BUDGET_SECS", "90"),
        ("CHORD_IDLE_STALE_TRANSITION_SECS", "30"),
    ]);
    assert!(
        stale_transition_secs_from_env(&env) > release_budget_secs_from_env(&env),
        "misconfigured stale ≤ budget must be clamped above the budget"
    );
}

#[test]
fn the_operator_is_warned_of_an_age_that_is_raised() {
    assert_eq!(stale_transition_warning(&Table::new()), None);
    assert_eq!(
        stale_transition_warning(&env_of(&[("CHORD_IDLE_STALE_TRANSITION_SECS", "91")])),
        None
    );

    let env = env_of(&[("CHORD_IDLE_STALE_TRANSITION_SECS", "90")]);
    let (stale, budget, clamped_to, told) = stale_transition_warning(&env).unwrap();
    assert_eq!((stale, budget, clamped_to), (90, 90, 300));
    assert!(told.starts_with("CHORD_IDLE_STALE_TRANSITION_SECS \u{2264} release budget"));

    let env = env_of(&[("CHORD_IDLE_RELEASE_BUDGET_SECS", "1000")]);
    let (stale, budget, clamped_to, _) = stale_transition_warning(&env).unwrap();
    assert_eq!((stale, budget, clamped_to), (300, 1000, 1500));
    assert_eq!(stale_transition_secs_from_env(&env), 1500);
}

#[test]
fn durations_come_from_the_environment() {
    let env = env_of(&[
        ("CHORD_IDLE_WATCHDOG_SECS", "10"),
        ("CHORD_IDLE_DRAIN_SECS", "11"),
        ("CHORD_IDLE_CODER_ACTIVITY_TIMEOUT_SECS", "12"),
    ]);
    assert_eq!(watchdog_secs_from_env(&env), 10);
    assert_eq!(drain_secs_from_env(&env), 11);
    assert_eq!(coder_activity_timeout_secs_from_env(&env), 12);
}

#[test]
fn holder_lists_are_lowered_and_fall_back() {
    let env = env_of(&[("CHORD_IDLE_CODER_ACTIVITY_HOLDERS", " Foo , ,BAR")]);
    assert_eq!(coder_activity_holders_from_env(&env), vec!["foo".to_string(), "bar".to_string()]);
    let env = env_of(&[("CHORD_IDLE_CODER_ACTIVITY_HOLDERS", "  ")]);
    assert_eq!(coder_activity_holders_from_env(&env), coder_holders());
    let env = env_of(&[("CHORD_IDLE_CODER_ACTIVITY_HOLDERS", " , ")]);
    assert!(coder_activity_holders_from_env(&env).is_empty());
}

#[test]
fn compiler_lease_is_held_only_while_live() {
    let env = Table::new();
    let mut gpu = GpuExclusive::new(10);
    assert!(!compiler_lease_held(&gpu, &env, 0));
    gpu.acquire("compiler-7", 0);
    assert!(compiler_lease_held(&gpu, &env, 10));
    assert!(!compiler_lease_held(&gpu, &env, 11));
    let mut other = GpuExclusive::new(10);
    other.acquire("intake_coder_sweep", 0);
    assert!(!compiler_lease_held(&other, &env, 0));
}

#[test]
fn a_file_that_cannot_be_cleared_keeps_idle() {
    let mut ctl = IdleController::with_state(Some("/state/idle.json".to_string()), None, 0);
    assert!(matches!(ctl.enter(manifest("compiler", 0, 10), 0), EnterOutcome::Entered(_)));
    let gpu = GpuExclusive::new(600);
    let due = watchdog_due(&ctl, &gpu, 20, &holders(), &coder_holders(), 900);
    assert!(due.is_some());
    assert!(ctl.must_clear(due));
    assert!(watchdog_tick(&mut ctl, &gpu, 20, &holders(), &coder_holders(), 900, false).is_none());
    assert_eq!(ctl.phase(), Phase::Idle);
    assert!(watchdog_tick(&mut ctl, &gpu, 20, &holders(), &coder_holders(), 900, true).is_some());
    assert_eq!(ctl.phase(), Phase::Active);
}

#[test]
fn the_case_of_a_pattern_decides_nothing() {
    let loud = vec!["COMPILER".to_string()];
    assert!(is_compiler_lease("compiler", &loud));
    assert!(is_compiler_lease("Nightly-Compiler-3", &loud));
    assert!(!is_compiler_lease("coder", &loud));
    assert!(is_coder_activity_holder("intake_coder_sweep", &["Coder".to_string()]));
    assert!(!is_coder_activity_holder("intake_coder_sweep", &["".to_string()]));
    assert!(!watchdog_should_activate(true, Some("compiler"), &loud));
    assert!(watchdog_should_activate(true, Some("coder"), &loud));
}
