use chord_proxy::admin::idle::{
    ActivateOutcome, BeginEnter, EnterOutcome, IdleController, Phase, ResumeManifest,
};
use chord_proxy::admin::release::{
    demote_hot_to_warm, enter_idle, enter_refused, list_resident_models, ps_base, IdleReport,
    Release, ReleaseEvent, ReleaseStage,
};
use chord_proxy::admin::replies::{
    activate_reason, activity_json, admin_activate, admin_idle_enter, admin_idle_status,
    admit_inference, after_restore, enter_reason, idle_compiler_busy_response,
    idle_transition_response, phase_str, reason_of, rewarms, Admission, IdleBody, Rejection,
};
use chord_proxy::control::{ModelRecord, StorageTier};

fn manifest(reason: &str, entered_at: u64, deadline: u64) -> ResumeManifest<f64> {
    ResumeManifest {
        reason: reason.into(),
        entered_at,
        watchdog_deadline: deadline,
        resident_models: vec!["qwen3-coder:30b".into()],
        mem_available_before_gb: 12.0,
        episode: 0,
    }
}

fn controller() -> IdleController<f64> {
    IdleController::new(0)
}

fn report() -> IdleReport<f64> {
    IdleReport {
        mem_available_before_gb: Some(10.0),
        mem_available_after_gb: Some(25.0),
        freed_gb: Some(15.0),
        backends_stopped: 1,
        models_unloaded: 2,
        models_demoted: 3,
        inflight_remaining: 0,
        foreign_gpu_lock_holder: None,
    }
}

#[test]
fn activity_json_shape_serving_and_idle() {
    // Serving shape.
    let v = activity_json(2, 1_000, 5_000);
    assert_eq!(v.serving, true);
    assert_eq!(v.inflight, 2);
    assert_eq!(v.idle_secs, 0);
    assert_eq!(v.last_request_unix, 1_000);

    // Idle shape.
    let v = activity_json(0, 1_000, 1_075);
    assert_eq!(v.serving, false);
    assert_eq!(v.inflight, 0);
    assert_eq!(v.idle_secs, 75);
    assert_eq!(v.last_request_unix, 1_000);
}

#[test]
fn release_goes_stage_by_stage() {
    let mut release: Release<f64> = Release::start();
    // What belongs to a later stage changes nothing.
    release = release.advance(ReleaseEvent::Unloaded(9));
    assert_eq!(release.stage, ReleaseStage::Drain);
    assert_eq!(release.models_unloaded, 0);
    for event in [
        ReleaseEvent::Drained(1),
        ReleaseEvent::Residents(vec!["a".to_string()]),
        ReleaseEvent::MemoryBefore(Some(4.0)),
        ReleaseEvent::BackendsStopped(2),
        ReleaseEvent::DiffusionStopped,
        ReleaseEvent::ResidentSetReleased,
        ReleaseEvent::Unloaded(3),
        ReleaseEvent::Demoted(4),
        ReleaseEvent::Lease(Some("sweep".to_string())),
        ReleaseEvent::MemoryAfter(Some(6.0)),
    ] {
        release = release.advance(event);
    }
    assert_eq!(release.stage, ReleaseStage::Done);
    let (report, residents) = release.into_report(Some(2.0));
    assert_eq!(residents, vec!["a".to_string()]);
    assert_eq!(report.inflight_remaining, 1);
    assert_eq!(report.mem_available_before_gb, Some(4.0));
    assert_eq!(report.backends_stopped, 2);
    assert_eq!(report.models_unloaded, 3);
    assert_eq!(report.models_demoted, 4);
    assert_eq!(report.foreign_gpu_lock_holder.as_deref(), Some("sweep"));
    assert_eq!(report.mem_available_after_gb, Some(6.0));
    assert_eq!(report.freed_gb, Some(2.0));
}

#[test]
fn completed_release_enters_idle() {
    let mut ctl = controller();
    let t = ctl.try_begin_enter(0).unwrap();
    let released = Some((report(), vec!["m".to_string()]));
    let (outcome, got) = enter_idle(&mut ctl, t, "compiler", released, 0.0, 100, 3600);
    assert_eq!(got, Some(report()));
    match outcome {
        EnterOutcome::Entered(m) => {
            assert_eq!(m.reason, "compiler");
            assert_eq!(m.entered_at, 100);
            assert_eq!(m.watchdog_deadline, 3700);
            assert_eq!(m.resident_models, vec!["m".to_string()]);
            assert_eq!(m.mem_available_before_gb, 10.0);
        }
        other => panic!("expected Entered, got {other:?}"),
    }
    assert_eq!(ctl.phase(), Phase::Idle);
}

#[test]
fn overrun_release_goes_back_to_service() {
    let mut ctl = controller();
    let t = ctl.try_begin_enter(0).unwrap();
    let (outcome, got) = enter_idle(&mut ctl, t, "compiler", None, 0.0, 100, 3600);
    assert_eq!(outcome, EnterOutcome::InTransition);
    assert!(got.is_none());
    assert_eq!(ctl.phase(), Phase::Active);
}

#[test]
fn overtaken_release_claims_nothing() {
    let mut ctl = controller();
    let t = ctl.try_begin_enter(0).unwrap();
    assert!(ctl.recover_stale_transition(1_000, 120));
    let released = Some((report(), Vec::new()));
    let (outcome, got) = enter_idle(&mut ctl, t, "compiler", released, 0.0, 1_000, u64::MAX);
    assert_eq!(outcome, EnterOutcome::InTransition);
    assert!(got.is_none());
    assert_eq!(ctl.phase(), Phase::Active);
}

#[test]
fn missing_sample_and_far_deadline_are_bounded() {
    let mut ctl = controller();
    let t = ctl.try_begin_enter(0).unwrap();
    let mut r = report();
    r.mem_available_before_gb = None;
    let (outcome, _) = enter_idle(&mut ctl, t, "x", Some((r, Vec::new())), 0.5, 10, u64::MAX);
    match outcome {
        EnterOutcome::Entered(m) => {
            assert_eq!(m.mem_available_before_gb, 0.5);
            assert_eq!(m.watchdog_deadline, u64::MAX);
        }
        other => panic!("expected Entered, got {other:?}"),
    }
}

#[test]
fn refused_claims_are_no_change() {
    let m = manifest("a", 1, 2);
    assert_eq!(
        enter_refused(BeginEnter::AlreadyIdle(m.clone())),
        EnterOutcome::AlreadyIdle(m)
    );
    assert_eq!(enter_refused::<f64>(BeginEnter::InTransition), EnterOutcome::InTransition);
    assert_eq!(enter_refused::<f64>(BeginEnter::Begin), EnterOutcome::InTransition);
}

#[test]
fn enter_replies_tell_of_the_manifest() {
    let r = admin_idle_enter(EnterOutcome::Entered(manifest("c", 0, 60)), Some(report()));
    assert_eq!(r.http_status, 200);
    assert_eq!(r.status, "idle");
    assert!(r.changed);
    assert_eq!(r.reason.as_deref(), Some("c"));
    assert_eq!(r.entered_at.as_deref(), Some("1970-01-01T00:00:00+00:00"));
    assert_eq!(r.watchdog_deadline.as_deref(), Some("1970-01-01T00:01:00+00:00"));
    assert_eq!(r.resident_models, Some(vec!["qwen3-coder:30b".to_string()]));
    assert_eq!(r.freed, Some(report()));

    let r = admin_idle_enter(EnterOutcome::AlreadyIdle(manifest("c", 0, 60)), None);
    assert!(!r.changed);
    assert!(r.freed.is_none());

    let r = admin_idle_enter::<f64>(EnterOutcome::InTransition, None);
    assert_eq!(r.status, "entering_idle");
    assert!(r.reason.is_none());
    assert_eq!(r.note.as_deref(), Some("another idle/activate transition is in progress"));
}

#[test]
fn activate_replies_tell_what_happened() {
    let r = admin_activate(ActivateOutcome::Activated(manifest("c", 0, 60)));
    assert_eq!((r.http_status, r.status.as_str(), r.changed), (200, "active", true));
    assert_eq!(r.was_idle_since.as_deref(), Some("1970-01-01T00:00:00+00:00"));
    let r = admin_activate::<f64>(ActivateOutcome::AlreadyActive);
    assert_eq!((r.http_status, r.status.as_str(), r.changed), (200, "active", false));
    let r = admin_activate::<f64>(ActivateOutcome::InTransition);
    assert_eq!(r.status, "activating");
    let r = admin_activate::<f64>(ActivateOutcome::PersistFailed);
    assert_eq!(r.http_status, 503);
    assert_eq!(r.retry_after, Some(2));
    assert_eq!(r.error.as_deref(), Some("idle_activate_persist_failed"));
    assert_eq!(r.status, "idle");
}

#[test]
fn status_follows_the_phase() {
    let mut ctl = controller();
    let s = admin_idle_status(&ctl, 5);
    assert_eq!((s.status.as_str(), s.phase.as_str()), ("active", "active"));
    assert!(s.reason.is_none());
    assert_eq!(ctl.begin_enter(0), BeginEnter::Begin);
    let s = admin_idle_status(&ctl, 5);
    assert_eq!((s.status.as_str(), s.phase.as_str()), ("active", "entering_idle"));
    assert!(ctl.recover_stale_transition(1_000, 1));
    ctl.enter(manifest("c", 0, 60), 0);
    let s = admin_idle_status(&ctl, 60);
    assert_eq!((s.status.as_str(), s.phase.as_str()), ("idle", "idle"));
    assert_eq!(s.watchdog_expired, Some(true));
    assert_eq!(admin_idle_status(&ctl, 59).watchdog_expired, Some(false));
    assert_eq!(phase_str(Phase::Activating), "activating");
}

#[test]
fn requests_fare_by_phase_and_lease() {
    let mut ctl = controller();
    match admit_inference(&mut ctl, 0, true, 7) {
        Admission::Admitted(guard) => ctl.end_request(guard),
        other => panic!("expected Admitted, got {other:?}"),
    }
    assert!(matches!(
        admit_inference(&mut ctl, 3, false, 7),
        Admission::Rejected(Rejection::Transition)
    ));
    assert_eq!(ctl.inflight_count(), 0);
    ctl.enter(manifest("c", 0, 60), 0);
    assert!(matches!(
        admit_inference(&mut ctl, 0, true, 7),
        Admission::Rejected(Rejection::CompilerBusy)
    ));
    assert!(matches!(admit_inference(&mut ctl, 0, false, 7), Admission::Restore));
    let outcome = ctl.exit(true, 8);
    assert!(after_restore(&outcome).is_none());
    assert!(rewarms(&outcome));
    assert!(matches!(admit_inference(&mut ctl, 1, false, 8), Admission::Admitted(_)));
    assert_eq!(
        after_restore::<f64>(&ActivateOutcome::PersistFailed),
        Some(Rejection::Transition)
    );
    assert!(!rewarms::<f64>(&ActivateOutcome::AlreadyActive));
}

#[test]
fn rejections_say_when_to_ask_again() {
    let r = idle_transition_response();
    assert_eq!((r.http_status, r.retry_after), (503, 2));
    assert_eq!(r.error, "idle_transition_in_progress");
    let r = idle_compiler_busy_response();
    assert_eq!((r.http_status, r.retry_after), (503, 5));
    assert_eq!((r.error.as_str(), r.status.as_str()), ("idle_compiler_build_active", "idle"));
}

#[test]
fn reasons_default_where_blank() {
    let body = |s: &str| Some(IdleBody { reason: Some(s.to_string()) });
    assert_eq!(enter_reason(None), "compiler");
    assert_eq!(enter_reason(Some(IdleBody { reason: None })), "compiler");
    assert_eq!(activate_reason(body("  ")), "operator");
    assert_eq!(activate_reason(body(" me ")), " me ");
    assert_eq!(reason_of(None, "x"), "x");
}

fn record(name: &str, tier: StorageTier, protected: bool) -> ModelRecord {
    ModelRecord {
        name: name.to_string(),
        tier,
        size_bytes: 1,
        local_path: None,
        archive_path: None,
        last_requested: None,
        last_loaded: None,
        protected,
        managed_by: "ollama".to_string(),
    }
}

#[test]
fn nothing_stays_loaded() {
    let mut records = vec![
        record("a", StorageTier::Hot, true),
        record("b", StorageTier::Cold, false),
        record("c", StorageTier::Hot, false),
    ];
    assert_eq!(demote_hot_to_warm(&mut records), 2);
    let tiers: Vec<StorageTier> = records.iter().map(|r| r.tier).collect();
    assert_eq!(tiers, vec![StorageTier::Warm, StorageTier::Cold, StorageTier::Warm]);
    assert!(records[0].protected);
    assert_eq!(demote_hot_to_warm(&mut records), 0);
}

#[test]
fn resident_models_are_the_named_ones() {
    let names = || vec!["a".to_string(), String::new(), "b".to_string()];
    assert_eq!(list_resident_models(true, names()), vec!["a".to_string(), "b".to_string()]);
    assert!(list_resident_models(false, names()).is_empty());
    assert_eq!(ps_base("http://h//"), "http://h");
}
