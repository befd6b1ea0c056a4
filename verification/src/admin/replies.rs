//! How requests fare in idle mode, and how the operator's requests are answered.
use vstd::prelude::*;

use crate::admin::idle::{
    activity, activity_summary, lazy_action, ActivateOutcome, AdmitOutcome, EnterOutcome,
    IdleController, InflightGuard, LazyAction, ManifestView, Phase,
};
use crate::admin::release::IdleReport;
use crate::gpu_exclusive::{iso_text, iso_utc};
use crate::text::{blank, is_blank, opt_view, owned, views};

verus! {

/// What the operator may say with a request.
#[derive(Debug, PartialEq, Eq)]
pub struct IdleBody {
    /// Who asks.
    pub reason: Option<String>,
}

/// The reason of a request: the one it gives, where that is not blank.
pub open spec fn reason_or(body: Option<IdleBody>, default: Seq<char>) -> Seq<char> {
    match body {
        Some(IdleBody { reason: Some(s) }) => if is_blank(s@) {
            default
        } else {
            s@
        },
        _ => default,
    }
}

/// The reason of a request: the one it gives, as it gives it, where that is not blank.
pub fn reason_of(body: Option<IdleBody>, default: &str) -> (r: String)
    ensures
        r@ == reason_or(body, default@),
{
    match body {
        Some(IdleBody { reason: Some(s) }) => if blank(s.as_str()) {
            owned(default)
        } else {
            s
        },
        _ => owned(default),
    }
}

/// The reason of a request to enter idle.
pub fn enter_reason(body: Option<IdleBody>) -> (r: String)
    ensures
        r@ == reason_or(body, "compiler"@),
{
    reason_of(body, "compiler")
}

/// The reason of a request to activate.
pub fn activate_reason(body: Option<IdleBody>) -> (r: String)
    ensures
        r@ == reason_or(body, "operator"@),
{
    reason_of(body, "operator")
}

/// Why a request is turned away for now.
#[derive(Debug, Clone, Copy, PartialEq, Eq, Structural)]
pub enum Rejection {
    /// A transition is in progress.
    Transition,
    /// The proxy is idle and a build holds the GPU.
    CompilerBusy,
}

/// The reply to a request that is turned away.
#[derive(Debug, PartialEq, Eq)]
pub struct RejectionReply {
    pub http_status: u16,
    /// When to ask again, in seconds.
    pub retry_after: u64,
    pub error: String,
    pub status: String,
}

/// The reply while a transition is in progress.
pub fn idle_transition_response() -> (r: RejectionReply)
    ensures
        r.http_status == 503,
        r.retry_after == 2,
        r.error@ == "idle_transition_in_progress"@,
        r.status@ == "transitioning"@,
{
    RejectionReply {
        http_status: 503,
        retry_after: 2,
        error: owned("idle_transition_in_progress"),
        status: owned("transitioning"),
    }
}

/// The reply while the proxy is idle for a build.
pub fn idle_compiler_busy_response() -> (r: RejectionReply)
    ensures
        r.http_status == 503,
        r.retry_after == 5,
        r.error@ == "idle_compiler_build_active"@,
        r.status@ == "idle"@,
{
    RejectionReply {
        http_status: 503,
        retry_after: 5,
        error: owned("idle_compiler_build_active"),
        status: owned("idle"),
    }
}

/// What becomes of a request.
#[derive(Debug)]
pub enum Admission {
    /// It is served, and counted until it ends.
    Admitted(InflightGuard),
    /// It is turned away for now.
    Rejected(Rejection),
    /// The proxy returns to service first; then the request is tried again.
    Restore,
}

/// How often a request is tried.
pub const ADMISSION_ATTEMPTS: u8 = 3;

/// A request is tried at `now`, for the time `attempt`, counted from zero. `lease_held` says
/// whether a build holds the GPU.
pub fn admit_inference<G: Copy>(
    ctl: &mut IdleController<G>,
    attempt: u8,
    lease_held: bool,
    now: u64,
) -> (r: Admission)
    ensures
        final(ctl).path() == old(ctl).path(),
        if attempt >= ADMISSION_ATTEMPTS {
            final(ctl)@ == old(ctl)@ && r == Admission::Rejected(Rejection::Transition)
        } else {
            &&& final(ctl)@ == old(ctl)@.arrive(now)
            &&& r is Admitted <==> old(ctl)@.state is Active
            &&& r is Restore <==> old(ctl)@.state is Idle && !lease_held
            &&& old(ctl)@.state is Idle && lease_held ==> r == Admission::Rejected(
                Rejection::CompilerBusy,
            )
            &&& !(old(ctl)@.state is Active) && !(old(ctl)@.state is Idle) ==> r
                == Admission::Rejected(Rejection::Transition)
        },
        attempt < 3 && old(ctl)@.state is Active && old(ctl)@.inflight < usize::MAX
            ==> final(ctl)@.inflight == old(ctl)@.inflight + 1,
        attempt < 3 && old(ctl)@.state is Active ==> r is Admitted,
        attempt >= 3 ==> r is Rejected && final(ctl)@ == old(ctl)@,
{
    if attempt >= ADMISSION_ATTEMPTS {
        return Admission::Rejected(Rejection::Transition);
    }
    match ctl.try_admit(now) {
        AdmitOutcome::Admitted(guard) => Admission::Admitted(guard),
        AdmitOutcome::Transitioning => Admission::Rejected(Rejection::Transition),
        AdmitOutcome::Idle => match lazy_action(lease_held) {
            LazyAction::PreserveIdle => Admission::Rejected(Rejection::CompilerBusy),
            LazyAction::Restore => Admission::Restore,
        },
    }
}

/// The proxy was to return to service for a request: is the request turned away for now?
pub fn after_restore<G>(outcome: &ActivateOutcome<G>) -> (r: Option<Rejection>)
    ensures
        r == (if outcome is PersistFailed {
            Some(Rejection::Transition)
        } else {
            None
        }),
{
    match outcome {
        ActivateOutcome::PersistFailed => Some(Rejection::Transition),
        _ => None,
    }
}

/// Did the proxy return to service just now, so that the kept models are loaded again?
pub fn rewarms<G>(outcome: &ActivateOutcome<G>) -> (r: bool)
    ensures
        r == (outcome is Activated),
{
    match outcome {
        ActivateOutcome::Activated(_) => true,
        _ => false,
    }
}

/// The reply to a request to enter idle. What is `None` is left out.
#[derive(Debug, PartialEq)]
pub struct EnterReply<G> {
    pub http_status: u16,
    pub status: String,
    pub changed: bool,
    pub reason: Option<String>,
    pub entered_at: Option<String>,
    pub watchdog_deadline: Option<String>,
    pub resident_models: Option<Vec<String>>,
    pub freed: Option<IdleReport<G>>,
    pub note: Option<String>,
}

/// The reply tells of a manifest.
pub open spec fn tells<G>(
    reason: Option<String>,
    entered_at: Option<String>,
    deadline: Option<String>,
    residents: Option<Vec<String>>,
    m: ManifestView<G>,
) -> bool {
    &&& opt_view(reason) == Some(m.reason)
    &&& opt_view(entered_at) == Some(iso_text(m.entered_at))
    &&& opt_view(deadline) == Some(iso_text(m.watchdog_deadline))
    &&& residents matches Some(v) && views(v@) == m.resident_models
}

/// The note that another transition is in progress.
pub open spec fn transition_note() -> Seq<char> {
    "another idle/activate transition is in progress"@
}

/// The reply to a request to enter idle.
pub fn admin_idle_enter<G>(outcome: EnterOutcome<G>, report: Option<IdleReport<G>>) -> (r:
    EnterReply<G>)
    requires
        outcome is Entered ==> report is Some,
    ensures
        r.http_status == 200,
        match outcome {
            EnterOutcome::Entered(m) => {
                &&& r.status@ == "idle"@
                &&& r.changed
                &&& tells(r.reason, r.entered_at, r.watchdog_deadline, r.resident_models, m@)
                &&& r.freed == report
                &&& r.note is None
            },
            EnterOutcome::AlreadyIdle(m) => {
                &&& r.status@ == "idle"@
                &&& !r.changed
                &&& tells(r.reason, r.entered_at, r.watchdog_deadline, r.resident_models, m@)
                &&& r.freed is None
                &&& r.note is None
            },
            EnterOutcome::InTransition => {
                &&& r.status@ == "entering_idle"@
                &&& !r.changed
                &&& r.reason is None
                &&& r.entered_at is None
                &&& r.watchdog_deadline is None
                &&& r.resident_models is None
                &&& r.freed is None
                &&& opt_view(r.note) == Some(transition_note())
            },
        },
{
    match outcome {
        EnterOutcome::Entered(m) => EnterReply {
            http_status: 200,
            status: owned("idle"),
            changed: true,
            reason: Some(m.reason),
            entered_at: Some(iso_utc(m.entered_at)),
            watchdog_deadline: Some(iso_utc(m.watchdog_deadline)),
            resident_models: Some(m.resident_models),
            freed: report,
            note: None,
        },
        EnterOutcome::AlreadyIdle(m) => EnterReply {
            http_status: 200,
            status: owned("idle"),
            changed: false,
            reason: Some(m.reason),
            entered_at: Some(iso_utc(m.entered_at)),
            watchdog_deadline: Some(iso_utc(m.watchdog_deadline)),
            resident_models: Some(m.resident_models),
            freed: None,
            note: None,
        },
        EnterOutcome::InTransition => EnterReply {
            http_status: 200,
            status: owned("entering_idle"),
            changed: false,
            reason: None,
            entered_at: None,
            watchdog_deadline: None,
            resident_models: None,
            freed: None,
            note: Some(owned("another idle/activate transition is in progress")),
        },
    }
}

/// The reply to a request to activate. What is `None` is left out.
#[derive(Debug, PartialEq, Eq)]
pub struct ActivateReply {
    pub http_status: u16,
    /// When to ask again, in seconds.
    pub retry_after: Option<u64>,
    pub error: Option<String>,
    pub status: String,
    pub changed: bool,
    pub was_idle_since: Option<String>,
    pub resident_models: Option<Vec<String>>,
    pub note: Option<String>,
}

/// The reply to a request to activate.
pub fn admin_activate<G>(outcome: ActivateOutcome<G>) -> (r: ActivateReply)
    ensures
        match outcome {
            ActivateOutcome::Activated(m) => {
                &&& r.http_status == 200
                &&& r.retry_after is None
                &&& r.error is None
                &&& r.status@ == "active"@
                &&& r.changed
                &&& opt_view(r.was_idle_since) == Some(iso_text(m.entered_at))
                &&& (r.resident_models matches Some(v) && views(v@) == m@.resident_models)
                &&& r.note is None
            },
            ActivateOutcome::AlreadyActive => {
                &&& r.http_status == 200
                &&& r.retry_after is None
                &&& r.error is None
                &&& r.status@ == "active"@
                &&& !r.changed
                &&& r.was_idle_since is None
                &&& r.resident_models is None
                &&& r.note is None
            },
            ActivateOutcome::InTransition => {
                &&& r.http_status == 200
                &&& r.retry_after is None
                &&& r.error is None
                &&& r.status@ == "activating"@
                &&& !r.changed
                &&& r.was_idle_since is None
                &&& r.resident_models is None
                &&& opt_view(r.note) == Some(transition_note())
            },
            ActivateOutcome::PersistFailed => {
                &&& r.http_status == 503
                &&& r.retry_after == Some(2u64)
                &&& opt_view(r.error) == Some("idle_activate_persist_failed"@)
                &&& r.status@ == "idle"@
                &&& !r.changed
                &&& r.was_idle_since is None
                &&& r.resident_models is None
                &&& r.note is None
            },
        },
{
    match outcome {
        ActivateOutcome::Activated(m) => ActivateReply {
            http_status: 200,
            retry_after: None,
            error: None,
            status: owned("active"),
            changed: true,
            was_idle_since: Some(iso_utc(m.entered_at)),
            resident_models: Some(m.resident_models),
            note: None,
        },
        ActivateOutcome::AlreadyActive => ActivateReply {
            http_status: 200,
            retry_after: None,
            error: None,
            status: owned("active"),
            changed: false,
            was_idle_since: None,
            resident_models: None,
            note: None,
        },
        ActivateOutcome::InTransition => ActivateReply {
            http_status: 200,
            retry_after: None,
            error: None,
            status: owned("activating"),
            changed: false,
            was_idle_since: None,
            resident_models: None,
            note: Some(owned("another idle/activate transition is in progress")),
        },
        ActivateOutcome::PersistFailed => ActivateReply {
            http_status: 503,
            retry_after: Some(2),
            error: Some(owned("idle_activate_persist_failed")),
            status: owned("idle"),
            changed: false,
            was_idle_since: None,
            resident_models: None,
            note: None,
        },
    }
}

/// The name of a phase.
pub open spec fn phase_name(phase: Phase) -> Seq<char> {
    match phase {
        Phase::Active => "active"@,
        Phase::EnteringIdle => "entering_idle"@,
        Phase::Idle => "idle"@,
        Phase::Activating => "activating"@,
    }
}

/// The name of a phase.
pub fn phase_str(phase: Phase) -> (r: &'static str)
    ensures
        r@ == phase_name(phase),
{
    match phase {
        Phase::Active => "active",
        Phase::EnteringIdle => "entering_idle",
        Phase::Idle => "idle",
        Phase::Activating => "activating",
    }
}

/// How things stand. What is `None` is left out.
#[derive(Debug, PartialEq, Eq)]
pub struct StatusReply {
    pub status: String,
    pub phase: String,
    pub reason: Option<String>,
    pub entered_at: Option<String>,
    pub watchdog_deadline: Option<String>,
    pub watchdog_expired: Option<bool>,
    pub resident_models: Option<Vec<String>>,
    pub inflight: usize,
}

/// Tells how things stand at `now`.
pub fn admin_idle_status<G: Copy>(ctl: &IdleController<G>, now: u64) -> (r: StatusReply)
    ensures
        r.phase@ == phase_name(ctl@.state.phase()),
        r.inflight == ctl@.inflight,
        match ctl@.state.manifest() {
            Some(m) => {
                &&& r.status@ == phase_name(ctl@.state.phase())
                &&& tells(r.reason, r.entered_at, r.watchdog_deadline, r.resident_models, m)
                &&& r.watchdog_expired == Some(now >= m.watchdog_deadline)
            },
            None => {
                &&& r.status@ == "active"@
                &&& r.reason is None
                &&& r.entered_at is None
                &&& r.watchdog_deadline is None
                &&& r.watchdog_expired is None
                &&& r.resident_models is None
            },
        },
{
    let phase = phase_str(ctl.phase());
    match ctl.snapshot() {
        Some(m) => {
            let expired = m.watchdog_expired(now);
            StatusReply {
                status: owned(phase),
                phase: owned(phase),
                reason: Some(m.reason),
                entered_at: Some(iso_utc(m.entered_at)),
                watchdog_deadline: Some(iso_utc(m.watchdog_deadline)),
                watchdog_expired: Some(expired),
                resident_models: Some(m.resident_models),
                inflight: ctl.inflight_count(),
            }
        },
        None => StatusReply {
            status: owned("active"),
            phase: owned(phase),
            reason: None,
            entered_at: None,
            watchdog_deadline: None,
            watchdog_expired: None,
            resident_models: None,
            inflight: ctl.inflight_count(),
        },
    }
}

/// How busy the proxy is.
#[derive(Debug, Clone, Copy, PartialEq, Eq, Structural)]
pub struct ActivityReply {
    pub serving: bool,
    pub inflight: usize,
    pub idle_secs: u64,
    pub last_request_unix: i64,
}

/// Tells how busy the proxy is.
pub fn activity_json(inflight: usize, last_activity_unix: i64, now: i64) -> (r: ActivityReply)
    ensures
        r.serving == activity(inflight, last_activity_unix, now).0,
        r.idle_secs == activity(inflight, last_activity_unix, now).1,
        r.inflight == inflight,
        r.last_request_unix == last_activity_unix,
{
    let (serving, idle_secs) = activity_summary(inflight, last_activity_unix, now);
    ActivityReply { serving, inflight, idle_secs, last_request_unix: last_activity_unix }
}

/// A request that says who asks is answered with that, word for word; one that says nothing, or
/// only white space, with the default.
pub proof fn law_reason_is_the_one_given(given: String, default: Seq<char>)
    ensures
        !is_blank(given@) ==> reason_or(Some(IdleBody { reason: Some(given) }), default)
            == given@,
        is_blank(given@) ==> reason_or(Some(IdleBody { reason: Some(given) }), default)
            == default,
        reason_or(Some(IdleBody { reason: None }), default) == default,
        reason_or(None, default) == default,
{
}

/// A reply that tells of an episode gives its reason, the two instants of the manifest each in its
/// own place, and the models that were loaded.
pub proof fn law_reply_tells_the_manifest<G>(
    reason: String,
    entered_at: String,
    deadline: String,
    residents: Vec<String>,
    m: ManifestView<G>,
)
    ensures
        tells(Some(reason), Some(entered_at), Some(deadline), Some(residents), m) <==> {
            &&& reason@ == m.reason
            &&& entered_at@ == iso_text(m.entered_at)
            &&& deadline@ == iso_text(m.watchdog_deadline)
            &&& views(residents@) == m.resident_models
        },
        !tells(None, Some(entered_at), Some(deadline), Some(residents), m),
        !tells(Some(reason), None, Some(deadline), Some(residents), m),
        !tells(Some(reason), Some(entered_at), None, Some(residents), m),
        !tells(Some(reason), Some(entered_at), Some(deadline), None, m),
{
}

/// Every phase has a name of its own, and idle mode is called idle only when it is complete.
pub proof fn law_phases_have_names_of_their_own(a: Phase, b: Phase)
    ensures
        phase_name(a) == phase_name(b) <==> a == b,
        phase_name(a) == "idle"@ <==> a == Phase::Idle,
        phase_name(a) == "active"@ <==> a == Phase::Active,
        phase_name(a) == "entering_idle"@ <==> a == Phase::EnteringIdle,
        phase_name(a) == "activating"@ <==> a == Phase::Activating,
{
    reveal_strlit("active");
    reveal_strlit("entering_idle");
    reveal_strlit("idle");
    reveal_strlit("activating");
    assert("idle"@[0] == 'i' && "active"@[0] == 'a' && "entering_idle"@[0] == 'e'
        && "activating"@[0] == 'a');
    assert("active"@.len() == 6 && "activating"@.len() == 10);
}

/// What is told of a transition of someone else's says so.
pub proof fn law_transition_is_noted()
    ensures
        transition_note() == "another idle/activate transition is in progress"@,
{
}

} // verus!
