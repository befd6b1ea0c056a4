use chord_proxy::admin::idle::{
    activity_summary, decide_activate, decide_enter, lazy_action, ActivateDecision,
    ActivateOutcome, AdmitOutcome, BeginActivate, BeginEnter, EnterDecision, EnterOutcome,
    IdleController, LazyAction, Phase, ResumeManifest,
};
use chord_proxy::table::Table;

fn manifest(reason: &str, entered_at: u64, deadline: u64) -> ResumeManifest<f64> {
    ResumeManifest {
        reason: reason.into(),
        entered_at,
        watchdog_deadline: deadline,
        resident_models: vec!["qwen3-coder:30b".into()],
        mem_available_before_gb: 12.0,
        episode: 0,
    }
}

#[test]
fn enter_when_active_enters_when_idle_is_noop() {
    assert_eq!(decide_enter::<f64>(None), EnterDecision::Enter);
    let m = manifest("compiler", 100, 3700);
    assert_eq!(decide_enter(Some(&m)), EnterDecision::AlreadyIdle);
}

#[test]
fn activate_when_idle_restores_when_active_is_noop() {
    let m = manifest("compiler", 100, 3700);
    assert_eq!(decide_activate(Some(&m)), ActivateDecision::Restore);
    assert_eq!(decide_activate::<f64>(None), ActivateDecision::AlreadyActive);
}

#[test]
fn watchdog_expiry_is_deadline_relative() {
    let m = manifest("compiler", 100, 3700);
    assert!(!m.watchdog_expired(3699));
    assert!(m.watchdog_expired(3700));
    assert!(m.watchdog_expired(9999));
}


#[test]
fn lazy_action_preserves_idle_only_under_compiler_lease() {
    assert_eq!(lazy_action(true), LazyAction::PreserveIdle);
    assert_eq!(lazy_action(false), LazyAction::Restore);
}

#[test]
fn watchdog_tick_episode_guard_refuses_superseded_activation() {
    let mut ctl: IdleController<f64> = IdleController::new(0);

    let m1 = manifest("compiler-build-first", 0, 10);
    let entered1 = match ctl.enter(m1, 0) {
        EnterOutcome::Entered(m) => m,
        other => panic!("expected Entered, got {other:?}"),
    };
    let stale_episode = entered1.episode;
    assert!(matches!(ctl.exit(true, 0), ActivateOutcome::Activated(_)));
    let m2 = manifest("compiler-build-second", 20, 30);
    let entered2 = match ctl.enter(m2, 0) {
        EnterOutcome::Entered(m) => m,
        other => panic!("expected Entered, got {other:?}"),
    };
    assert_ne!(
        entered2.episode, stale_episode,
        "sanity: the second episode really is a distinct identity"
    );
    assert_eq!(
        ctl.begin_activate_for_episode(stale_episode, true, 0),
        Err(BeginActivate::Superseded)
    );
    assert_eq!(
        ctl.phase(),
        Phase::Idle,
        "the newer episode's Idle phase must be untouched by the stale decision"
    );
    assert_eq!(ctl.snapshot().unwrap(), entered2);
    let (won, generation) = ctl
        .begin_activate_for_episode(entered2.episode, true, 0)
        .expect("the current episode's own decision must win the CAS");
    assert_eq!(won, entered2);
    ctl.finish_activate(generation);
    assert_eq!(ctl.phase(), Phase::Active);
}


#[test]
fn enter_then_exit_cycle() {
    let mut ctl: IdleController<f64> = IdleController::new(0);
    assert_eq!(ctl.phase(), Phase::Active);
    assert!(!ctl.is_idle());
    assert!(ctl.snapshot().is_none());

    let m = manifest("compiler", 100, 3700);
    match ctl.enter(m.clone(), 0) {
        EnterOutcome::Entered(got) => assert_eq!(got, m),
        other => panic!("expected Entered, got {other:?}"),
    }
    assert!(ctl.is_idle());
    assert_eq!(ctl.phase(), Phase::Idle);
    assert_eq!(ctl.snapshot().unwrap(), m);

    match ctl.exit(true, 0) {
        ActivateOutcome::Activated(got) => assert_eq!(got, m),
        other => panic!("expected Activated, got {other:?}"),
    }
    assert!(!ctl.is_idle());
    assert_eq!(ctl.phase(), Phase::Active);
}

#[test]
fn enter_is_idempotent_and_does_not_clobber() {
    let mut ctl: IdleController<f64> = IdleController::new(0);
    let first = manifest("compiler", 100, 3700);
    let second = manifest("someone-else", 999, 9999);
    assert!(matches!(ctl.enter(first.clone(), 0), EnterOutcome::Entered(_)));
    match ctl.enter(second, 0) {
        EnterOutcome::AlreadyIdle(got) => assert_eq!(got, first),
        other => panic!("expected AlreadyIdle, got {other:?}"),
    }
    assert_eq!(ctl.snapshot().unwrap(), first);
}

#[test]
fn exit_is_idempotent() {
    let mut ctl: IdleController<f64> = IdleController::new(0);
    assert!(matches!(ctl.exit(true, 0), ActivateOutcome::AlreadyActive));
    ctl.enter(manifest("compiler", 1, 2), 0);
    assert!(matches!(ctl.exit(true, 0), ActivateOutcome::Activated(_)));
    assert!(matches!(ctl.exit(true, 0), ActivateOutcome::AlreadyActive));
}


#[test]
fn begin_enter_is_exclusive_cas_release_runs_once() {
    let mut ctl: IdleController<f64> = IdleController::new(0);
    let t = ctl.try_begin_enter(0).expect("first begins");
    assert!(matches!(
        ctl.try_begin_enter(0),
        Err(BeginEnter::InTransition)
    ));
    assert_eq!(ctl.begin_enter(0), BeginEnter::InTransition);
    let m = manifest("compiler", 1, 2);
    assert_eq!(t.commit(&mut ctl, m.clone()), Some(m.clone()));
    match ctl.begin_enter(0) {
        BeginEnter::AlreadyIdle(got) => assert_eq!(got, m),
        other => panic!("expected AlreadyIdle, got {other:?}"),
    }
}

#[test]
fn begin_activate_is_exclusive_cas() {
    let mut ctl: IdleController<f64> = IdleController::new(0);
    ctl.enter(manifest("compiler", 1, 2), 0);
    let (_m, generation) = ctl.begin_activate_inner(true, 0).expect("Idle ⇒ activate begins");
    assert_eq!(ctl.begin_activate(true, 0), BeginActivate::InTransition);
    assert!(ctl.finish_activate(generation));
    assert_eq!(ctl.begin_activate(true, 0), BeginActivate::AlreadyActive);
}


#[test]
fn dropped_enter_transition_rolls_back_to_active() {
    let mut ctl: IdleController<f64> = IdleController::new(0);
    let t = ctl.try_begin_enter(0).expect("Active ⇒ transition begins");
    assert_eq!(ctl.phase(), Phase::EnteringIdle);
    assert!(t.abandon(&mut ctl));
    assert_eq!(
        ctl.phase(),
        Phase::Active,
        "dropped transition must roll back to Active"
    );
    assert!(!ctl.is_idle());
    assert!(matches!(
        ctl.enter(manifest("compiler", 1, 2), 0),
        EnterOutcome::Entered(_)
    ));
}

#[test]
fn committed_enter_transition_reaches_idle() {
    let mut ctl: IdleController<f64> = IdleController::new(0);
    let t = ctl.try_begin_enter(0).expect("Active ⇒ transition begins");
    let m = manifest("compiler", 5, 10);
    assert_eq!(t.commit(&mut ctl, m.clone()), Some(m.clone()));
    assert!(ctl.is_idle());
    assert_eq!(ctl.snapshot().unwrap(), m);
}

#[test]
fn try_begin_enter_errors_when_not_active() {
    let mut ctl: IdleController<f64> = IdleController::new(0);
    ctl.enter(manifest("compiler", 1, 2), 0);
    match ctl.try_begin_enter(0) {
        Err(BeginEnter::AlreadyIdle(_)) => {}
        other => panic!("expected Err(AlreadyIdle), got {other:?}"),
    }
    assert!(
        ctl.is_idle(),
        "a rejected try_begin_enter must not disturb idle"
    );
}

#[test]
fn recover_stale_transition_only_when_stale() {
    let mut ctl: IdleController<f64> = IdleController::new(0);
    assert_eq!(ctl.begin_enter(0), BeginEnter::Begin);
    let now = 0u64;
    assert!(!ctl.recover_stale_transition(now, 120));
    assert_eq!(ctl.phase(), Phase::EnteringIdle);
    assert!(ctl.recover_stale_transition(now + 1_000, 120));
    assert_eq!(ctl.phase(), Phase::Active);
    assert!(!ctl.recover_stale_transition(now + 1_000, 120));
}

#[test]
fn stale_guard_drop_does_not_clobber_newer_transition() {
    let mut ctl: IdleController<f64> = IdleController::new(0);
    let first = ctl.try_begin_enter(0).expect("first transition begins");
    assert_eq!(ctl.phase(), Phase::EnteringIdle);
    let now = 0u64;
    assert!(ctl.recover_stale_transition(now + 10_000, 120));
    assert_eq!(ctl.phase(), Phase::Active);
    let second = ctl.try_begin_enter(0).expect("second transition begins");
    assert_eq!(ctl.phase(), Phase::EnteringIdle);
    let second_generation = second.generation();
    assert!(!first.abandon(&mut ctl));
    assert_eq!(
        ctl.phase(),
        Phase::EnteringIdle,
        "stale guard drop must not roll back the newer transition"
    );
    let m = manifest("compiler", 7, 9);
    let committed = second.commit(&mut ctl, m).expect("second transition still live");
    assert_eq!(committed.episode, second_generation);
    assert!(ctl.is_idle());
    assert_eq!(ctl.snapshot().unwrap(), committed);
}

#[test]
fn stale_guard_commit_does_not_clobber_newer_phase() {
    let mut ctl: IdleController<f64> = IdleController::new(0);
    let stale = ctl.try_begin_enter(0).expect("first transition begins");
    let now = 0u64;
    assert!(ctl.recover_stale_transition(now + 10_000, 120));
    let fresh = manifest("compiler", 1, 2);
    let entered = match ctl.enter(fresh, 0) {
        EnterOutcome::Entered(m) => m,
        other => panic!("expected Entered, got {other:?}"),
    };
    let stale_m = manifest("stale", 99, 100);
    assert_eq!(stale.commit(&mut ctl, stale_m), None);
    assert_eq!(
        ctl.snapshot().unwrap(),
        entered,
        "stale commit must not overwrite the newer manifest"
    );
}

#[test]
fn no_inflight_admitted_after_entering_idle() {
    let mut ctl: IdleController<f64> = IdleController::new(0);
    assert_eq!(ctl.inflight_count(), 0);
    let guard = match ctl.try_admit(0) {
        AdmitOutcome::Admitted(g) => {
            assert_eq!(ctl.inflight_count(), 1);
            g
        }
        _ => panic!("Active must admit"),
    };
    ctl.end_request(guard);
    assert_eq!(ctl.inflight_count(), 0);
    let t = ctl.try_begin_enter(0).expect("Active ⇒ transition begins");
    assert!(matches!(ctl.try_admit(0), AdmitOutcome::Transitioning));
    assert_eq!(
        ctl.inflight_count(),
        0,
        "no request admitted after EnteringIdle"
    );
    let _ = t.commit(&mut ctl, manifest("compiler", 1, 2));
    assert!(matches!(ctl.try_admit(0), AdmitOutcome::Idle));
    assert_eq!(ctl.inflight_count(), 0);
}

#[test]
fn admit_guard_increments_and_decrements() {
    let mut ctl: IdleController<f64> = IdleController::new(0);
    assert_eq!(ctl.inflight_count(), 0);
    match ctl.try_admit(0) {
        AdmitOutcome::Admitted(g) => {
            assert_eq!(ctl.inflight_count(), 1);
            ctl.end_request(g);
            assert_eq!(ctl.inflight_count(), 0);
        }
        _ => panic!("Active must admit"),
    }
}


#[test]
fn activity_summary_serving_when_inflight_positive() {
    let (serving, idle_secs) = activity_summary(1, 1_000, 9_999);
    assert!(serving);
    assert_eq!(idle_secs, 0);
    let (serving, idle_secs) = activity_summary(5, 0, 9_999);
    assert!(serving);
    assert_eq!(idle_secs, 0);
}

#[test]
fn activity_summary_idle_secs_grows_from_last_activity() {
    let (serving, idle_secs) = activity_summary(0, 1_000, 1_000);
    assert!(!serving);
    assert_eq!(idle_secs, 0);
    assert_eq!(activity_summary(0, 1_000, 1_042).1, 42);
    assert_eq!(activity_summary(0, 1_000, 4_600).1, 3_600);
}

#[test]
fn activity_summary_never_negative_on_backward_clock() {
    let (serving, idle_secs) = activity_summary(0, 5_000, 1_000);
    assert!(!serving);
    assert_eq!(idle_secs, 0);
}


const STATE_FILE: &str = "/state/admin_idle_state.json";

fn durable(persisted: Option<ResumeManifest<f64>>) -> IdleController<f64> {
    IdleController::with_state(Some(STATE_FILE.to_string()), persisted, 0)
}

#[test]
fn with_state_reloads_idle_across_restart() {
    let mut ctl = durable(None);
    let m = manifest("compiler", 100, 3700);
    assert!(matches!(ctl.enter(m.clone(), 0), EnterOutcome::Entered(_)));
    let written = ctl.persisted();
    assert!(written.is_some(), "state should be written on enter");

    let restarted = durable(written);
    assert!(restarted.is_idle());
    assert_eq!(restarted.snapshot().unwrap(), m);
}

#[test]
fn exit_clears_persisted_state() {
    let mut ctl = durable(None);
    ctl.enter(manifest("compiler", 1, 2), 0);
    assert!(ctl.must_clear(None));
    assert!(matches!(ctl.exit(true, 0), ActivateOutcome::Activated(_)));

    let restarted = durable(ctl.persisted());
    assert!(!restarted.is_idle());
}

#[test]
fn entering_idle_is_not_persisted() {
    let mut ctl = durable(None);
    assert_eq!(ctl.begin_enter(0), BeginEnter::Begin);
    let restarted = durable(ctl.persisted());
    assert!(
        !restarted.is_idle(),
        "EnteringIdle must not persist as idle"
    );
}

#[test]
fn crash_during_activating_reloads_active_not_idle() {
    let mut ctl = durable(None);
    ctl.enter(manifest("compiler", 1, 2), 0);

    let (_m, _gen) = ctl.begin_activate_inner(true, 0).expect("Idle ⇒ activate begins");
    assert_eq!(ctl.phase(), Phase::Activating);

    let reloaded = durable(ctl.persisted());
    assert!(
        !reloaded.is_idle(),
        "crash during Activating must reload Active, not Idle"
    );
    assert_eq!(reloaded.phase(), Phase::Active);
}

#[test]
fn with_state_corrupt_file_starts_active_no_panic() {
    // A file that cannot be read hands over nothing.
    let mut ctl = durable(None);
    assert!(!ctl.is_idle());
    assert!(matches!(
        ctl.enter(manifest("compiler", 1, 2), 0),
        EnterOutcome::Entered(_)
    ));
}

#[test]
fn with_state_missing_file_starts_active() {
    let ctl = durable(None);
    assert!(!ctl.is_idle());
}

#[test]
fn idle_no_state_path_writes_nothing_and_still_works() {
    let mut ctl: IdleController<f64> = IdleController::new(0);
    assert!(ctl.state_path().is_none());
    assert!(matches!(
        ctl.enter(manifest("compiler", 1, 2), 0),
        EnterOutcome::Entered(_)
    ));
    assert!(ctl.is_idle());
    assert!(!ctl.must_clear(None));
    // Whether a file was cleared is of no account where there is none.
    assert!(matches!(ctl.exit(false, 0), ActivateOutcome::Activated(_)));
}

#[test]
fn begin_activate_persist_failure_stays_recoverable() {
    let mut ctl = durable(None);
    assert!(matches!(
        ctl.enter(manifest("compiler", 1, 2), 0),
        EnterOutcome::Entered(_)
    ));
    assert!(ctl.is_idle());

    match ctl.begin_activate_inner(false, 0) {
        Err(BeginActivate::PersistFailed) => {}
        other => panic!("expected PersistFailed, got {other:?}"),
    }
    assert!(
        ctl.is_idle(),
        "activate must abort and remain Idle when the persist gate fails"
    );
    assert_eq!(ctl.phase(), Phase::Idle);
    assert_eq!(ctl.exit(false, 0), ActivateOutcome::PersistFailed);
    assert!(ctl.is_idle());
}

#[test]
fn release_exceeding_budget_rolls_back_with_admission_closed() {
    let mut ctl: IdleController<f64> = IdleController::new(0);
    let transition = ctl.try_begin_enter(0).expect("Active ⇒ transition begins");

    assert!(matches!(ctl.try_admit(0), AdmitOutcome::Transitioning));

    // The budget runs out: nothing has been committed or rolled back yet.
    assert_eq!(ctl.phase(), Phase::EnteringIdle);
    assert!(matches!(ctl.try_admit(0), AdmitOutcome::Transitioning));

    assert!(transition.abandon(&mut ctl));
    assert_eq!(ctl.phase(), Phase::Active);
    assert!(matches!(ctl.try_admit(0), AdmitOutcome::Admitted(_)));
}

#[test]
fn controller_records_activity_on_admission() {
    let mut ctl: IdleController<f64> = IdleController::new(1_000);
    assert_eq!(ctl.inflight_count(), 0);
    assert_eq!(ctl.last_activity_unix(), 1_000);

    let guard = match ctl.try_admit(1_700_000_000) {
        AdmitOutcome::Admitted(g) => g,
        _ => panic!("expected admission while Active"),
    };
    assert_eq!(ctl.inflight_count(), 1);
    assert!(
        ctl.last_activity_unix() > 1_000,
        "admission must refresh last_activity from the seed"
    );
    assert!(activity_summary(ctl.inflight_count(), ctl.last_activity_unix(), 1_700_000_001).0);
    ctl.end_request(guard);
    assert_eq!(ctl.inflight_count(), 0);
    let (serving, idle) =
        activity_summary(ctl.inflight_count(), ctl.last_activity_unix(), 1_700_000_001);
    assert!(!serving);
    assert_eq!(idle, 1);
}

#[test]
fn drain_ends_when_empty_or_out_of_time() {
    let mut ctl: IdleController<f64> = IdleController::new(0);
    assert_eq!(ctl.drain_inflight(false), Some(0));
    let guard = match ctl.try_admit(5) {
        AdmitOutcome::Admitted(g) => g,
        _ => panic!("in service"),
    };
    assert_eq!(ctl.drain_inflight(false), None);
    assert_eq!(ctl.drain_inflight(true), Some(1));
    ctl.end_request(guard);
    assert_eq!(ctl.drain_inflight(false), Some(0));
}

#[test]
fn idle_state_file_comes_from_the_environment() {
    let mut env = Table::new();
    env.insert("CHORD_STATE_DIR".to_string(), "/var/lib/chord".to_string());
    let kept = manifest("compiler", 1, 2);
    let ctl = IdleController::from_env(&env, Some(kept.clone()), 0);
    assert!(ctl.state_path().unwrap().starts_with("/var/lib/chord/"));
    assert_eq!(ctl.snapshot(), Some(kept.clone()));
    let volatile = IdleController::from_env(&Table::new(), Some(kept), 0);
    assert_eq!(volatile.phase(), Phase::Active);
}

#[test]
fn later_transitions_have_later_generations() {
    let mut ctl: IdleController<f64> = IdleController::new(0);
    let first = ctl.try_begin_enter(0).unwrap();
    let early = first.generation();
    assert!(first.abandon(&mut ctl));
    let second = ctl.try_begin_enter(0).unwrap();
    assert!(second.generation() > early);
}
