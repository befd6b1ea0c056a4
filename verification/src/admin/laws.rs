//! What holds of idle mode whatever is asked of it, in whatever order.
use vstd::prelude::*;

use crate::admin::idle::{
    activity, next_u64, ActivateOutcome, ActivateRefusal, BeginActivate, BeginEnter,
    ControllerView, EnterRefusal, EnterView, ManifestView, Phase, ResumeManifest, StateView,
};

verus! {

/// Something that happens to the controller.
pub ghost enum IdleOp<G> {
    Arrive { now: u64 },
    EndRequest,
    BeginEnter { now: u64 },
    FinishEnter { generation: u64, manifest: ManifestView<G> },
    AbortEnter { generation: u64 },
    BeginActivate { expected: Option<u64>, cleared: bool, now: u64 },
    FinishActivate { generation: u64 },
    Recover { now: u64, max_age: u64 },
}

/// The controller after one event.
pub open spec fn step<G>(s: ControllerView<G>, op: IdleOp<G>) -> ControllerView<G> {
    match op {
        IdleOp::Arrive { now } => s.arrive(now),
        IdleOp::EndRequest => s.end_request(),
        IdleOp::BeginEnter { now } => s.begin_enter(now).0,
        IdleOp::FinishEnter { generation, manifest } => s.finish_enter(generation, manifest).0,
        IdleOp::AbortEnter { generation } => s.abort_enter(generation).0,
        IdleOp::BeginActivate { expected, cleared, now } => s.begin_activate(
            expected,
            cleared,
            now,
        ).0,
        IdleOp::FinishActivate { generation } => s.finish_activate(generation).0,
        IdleOp::Recover { now, max_age } => s.recover(now, max_age).0,
    }
}

/// The controller after a sequence of events.
pub open spec fn run<G>(s: ControllerView<G>, ops: Seq<IdleOp<G>>) -> ControllerView<G>
    decreases ops.len(),
{
    if ops.len() == 0 {
        s
    } else {
        step(run(s, ops.drop_last()), ops.last())
    }
}

/// Every generation that is in progress or still to come lies beyond `g`.
pub open spec fn beyond<G>(s: ControllerView<G>, g: u64) -> bool {
    &&& s.next_gen > g
    &&& s.state.generation() matches Some(live) ==> live > g
}

/// The transition in progress is the last that was given a generation.
pub open spec fn orderly<G>(s: ControllerView<G>) -> bool {
    s.state.generation() matches Some(live) ==> s.next_gen == next_u64(live)
}

/// A controller starts orderly and stays so through every event.
pub proof fn law_generations_stay_orderly<G>(s: ControllerView<G>, ops: Seq<IdleOp<G>>)
    requires
        orderly(s),
    ensures
        orderly(run(s, ops)),
    decreases ops.len(),
{
    if ops.len() > 0 {
        law_generations_stay_orderly(s, ops.drop_last());
    }
}

/// A controller that has just started is orderly.
pub proof fn law_start_is_orderly<G>(durable: bool, persisted: Option<ManifestView<G>>, now: u64)
    ensures
        orderly(ControllerView::restarted(durable, persisted, now)),
{
}

proof fn lemma_beyond_stays<G>(s: ControllerView<G>, ops: Seq<IdleOp<G>>, g: u64)
    requires
        beyond(s, g),
        s.next_gen + ops.len() <= u64::MAX,
    ensures
        beyond(run(s, ops), g),
        run(s, ops).next_gen <= s.next_gen + ops.len(),
    decreases ops.len(),
{
    if ops.len() > 0 {
        lemma_beyond_stays(s, ops.drop_last(), g);
    }
}

/// A transition that is over stays over. Once the transition of generation `g` has been
/// committed, rolled back or resolved, then whatever happens next, a late commit or roll-back of
/// `g` changes nothing and stores nothing. (Generations are counted in 64 bits; the law speaks of
/// runs that do not exhaust them.)
pub proof fn law_overtaken_transition_is_inert<G>(
    s: ControllerView<G>,
    g: u64,
    ending: IdleOp<G>,
    ops: Seq<IdleOp<G>>,
    late: ManifestView<G>,
)
    requires
        orderly(s),
        s.state.generation() == Some(g),
        step(s, ending).state.generation() != Some(g),
        s.next_gen + 1 + ops.len() <= u64::MAX,
        g < u64::MAX,
    ensures
        ({
            let then_on = run(step(s, ending), ops);
            &&& then_on.finish_enter(g, late) == (then_on, None::<ManifestView<G>>)
            &&& then_on.abort_enter(g) == (then_on, false)
            &&& then_on.finish_activate(g) == (then_on, false)
        }),
{
    let over = step(s, ending);
    assert(beyond(over, g));
    lemma_beyond_stays(over, ops, g);
}

/// Two transitions never share a generation: the one that begins later has a later one.
pub proof fn law_later_transition_has_later_generation<G>(
    s: ControllerView<G>,
    first: u64,
    now: u64,
    ops: Seq<IdleOp<G>>,
    later: u64,
)
    requires
        s.begin_enter(now).1 == Ok::<u64, EnterRefusal<G>>(first),
        s.next_gen + 1 + ops.len() <= u64::MAX,
        run(s.begin_enter(now).0, ops).begin_enter(now).1 == Ok::<u64, EnterRefusal<G>>(later),
    ensures
        later > first,
{
    let begun = s.begin_enter(now).0;
    lemma_next_grows(begun, ops);
}

proof fn lemma_next_grows<G>(s: ControllerView<G>, ops: Seq<IdleOp<G>>)
    requires
        s.next_gen + ops.len() <= u64::MAX,
    ensures
        s.next_gen <= run(s, ops).next_gen <= s.next_gen + ops.len(),
    decreases ops.len(),
{
    if ops.len() > 0 {
        lemma_next_grows(s, ops.drop_last());
    }
}

/// How many requests end in a sequence of events.
pub open spec fn endings<G>(ops: Seq<IdleOp<G>>) -> nat
    decreases ops.len(),
{
    if ops.len() == 0 {
        0
    } else {
        endings(ops.drop_last()) + if ops.last() is EndRequest {
            1nat
        } else {
            0nat
        }
    }
}

/// A drain is closed to newcomers: for as long as the proxy is out of service, the requests in
/// flight are those that were there before, less those that have ended.
pub proof fn law_drain_is_closed_to_newcomers<G>(s: ControllerView<G>, ops: Seq<IdleOp<G>>)
    requires
        forall|k: int| 0 <= k < ops.len() ==> !(#[trigger] run(s, ops.take(k)).state is Active),
        endings(ops) <= s.inflight,
    ensures
        run(s, ops).inflight == s.inflight - endings(ops),
    decreases ops.len(),
{
    if ops.len() > 0 {
        let head = ops.drop_last();
        assert forall|k: int| 0 <= k < head.len() implies !(#[trigger] run(
            s,
            head.take(k),
        ).state is Active) by {
            assert(head.take(k) =~= ops.take(k));
        }
        assert(head =~= ops.take(head.len() as int));
        law_drain_is_closed_to_newcomers(s, head);
        assert(!(run(s, ops.take(head.len() as int)).state is Active));
    }
}

/// Only one of two competing requests to go idle gets to do the work: while a transition is in
/// progress the other is turned away and changes nothing.
pub proof fn law_transition_is_claimed_once<G>(s: ControllerView<G>, now: u64, again: u64)
    requires
        s.begin_enter(now).1 is Ok,
    ensures
        ({
            let begun = s.begin_enter(now).0;
            &&& begun.begin_enter(again) == (
                begun,
                Err::<u64, EnterRefusal<G>>(EnterRefusal::InTransition),
            )
            &&& begun.begin_activate(None, true, again) == (
                begun,
                Err::<(ManifestView<G>, u64), ActivateRefusal>(ActivateRefusal::InTransition),
            )
            &&& begun.arrive(again) == begun
        }),
{
}

/// Going idle twice is going idle once: the second request is told so, and the manifest of the
/// first stays.
pub proof fn law_enter_is_idempotent<G>(
    s: ControllerView<G>,
    first: ManifestView<G>,
    second: ManifestView<G>,
    now: u64,
    again: u64,
)
    requires
        s.enter(first, now).1 is Entered,
    ensures
        ({
            let (idle, answer) = s.enter(first, now);
            &&& answer == EnterView::Entered(ManifestView { episode: s.next_gen, ..first })
            &&& idle.enter(second, again) == (
                idle,
                EnterView::AlreadyIdle(ManifestView { episode: s.next_gen, ..first }),
            )
        }),
{
}

/// Activating undoes going idle: the proxy is in service again with the same requests in flight,
/// and the manifest comes back. A second activation changes nothing.
pub proof fn law_exit_undoes_enter<G>(
    s: ControllerView<G>,
    manifest: ManifestView<G>,
    now: u64,
    later: u64,
    cleared: bool,
)
    requires
        s.state is Active,
        cleared || !s.durable,
    ensures
        ({
            let idle = s.enter(manifest, now).0;
            let (back, answer) = idle.exit(None, cleared, later);
            &&& back.state == s.state
            &&& back.inflight == s.inflight
            &&& back.last_activity == s.last_activity
            &&& answer == Ok::<ManifestView<G>, ActivateRefusal>(
                ManifestView { episode: s.next_gen, ..manifest },
            )
            &&& back.exit(None, cleared, later) == (
                back,
                Err::<ManifestView<G>, ActivateRefusal>(ActivateRefusal::AlreadyActive),
            )
        }),
{
}

/// A roll-back restores the service that was there before.
pub proof fn law_abandoned_enter_rolls_back<G>(s: ControllerView<G>, now: u64)
    requires
        s.state is Active,
    ensures
        ({
            let (back, live) = s.begin_enter(now).0.abort_enter(s.next_gen);
            &&& live
            &&& back.state == s.state
            &&& back.inflight == s.inflight
        }),
{
}

/// An activation whose state file could not be cleared leaves the proxy as it was.
pub proof fn law_uncleared_file_keeps_idle<G>(
    s: ControllerView<G>,
    expected: Option<u64>,
    now: u64,
)
    requires
        s.must_clear(expected),
    ensures
        s.begin_activate(expected, false, now) == (
            s,
            Err::<(ManifestView<G>, u64), ActivateRefusal>(ActivateRefusal::PersistFailed),
        ),
{
}

/// A decision about one idle episode never ends another.
pub proof fn law_stale_decision_spares_new_episode<G>(
    s: ControllerView<G>,
    decided: u64,
    cleared: bool,
    now: u64,
)
    requires
        s.state matches StateView::Idle(m) && m.episode != decided,
    ensures
        s.begin_activate(Some(decided), cleared, now) == (
            s,
            Err::<(ManifestView<G>, u64), ActivateRefusal>(ActivateRefusal::Superseded),
        ),
{
}

/// A crash in the middle of a transition comes back in service; only full idleness survives, with
/// its manifest.
pub proof fn law_restart_after_crash<G>(s: ControllerView<G>, now: u64)
    requires
        s.durable,
    ensures
        ({
            let again = ControllerView::restarted(true, s.state.persisted(), now);
            &&& s.state is Idle ==> again.state == s.state
            &&& !(s.state is Idle) ==> again.state is Active
        }),
{
}

/// The watchdog's clean-up never touches a proxy that is in service or fully idle, and leaves any
/// other in service.
pub proof fn law_recovery_spares_steady_phases<G>(s: ControllerView<G>, now: u64, max_age: u64)
    ensures
        s.state is Active || s.state is Idle ==> s.recover(now, max_age) == (s, false),
        s.recover(now, max_age).1 ==> s.recover(now, max_age).0.state is Active,
        s.recover(now, max_age).0.inflight == s.inflight,
{
}

/// An admission counts one request and notes when; nothing else changes. What arrives out of
/// service leaves no trace.
pub proof fn law_admission_counts_one<G>(s: ControllerView<G>, now: u64)
    ensures
        s.state is Active && s.inflight < usize::MAX ==> s.arrive(now).inflight == s.inflight + 1,
        s.state is Active && s.inflight == usize::MAX ==> s.arrive(now).inflight == 0,
        s.state is Active ==> s.arrive(now).last_activity == now as i64,
        s.arrive(now).state == s.state,
        s.arrive(now).next_gen == s.next_gen,
        s.arrive(now).durable == s.durable,
        !(s.state is Active) ==> s.arrive(now) == s,
{
}

/// An ending takes one request away, whatever the phase, and changes nothing else.
pub proof fn law_ending_takes_one_away<G>(s: ControllerView<G>)
    ensures
        s.inflight > 0 ==> s.end_request().inflight == s.inflight - 1,
        s.inflight == 0 ==> s.end_request().inflight == usize::MAX,
        s.end_request().state == s.state,
        s.end_request().last_activity == s.last_activity,
        s.end_request().next_gen == s.next_gen,
        s.end_request().durable == s.durable,
{
}

/// How many requests are admitted in a sequence of events: those that arrive in service.
pub open spec fn admissions<G>(s: ControllerView<G>, ops: Seq<IdleOp<G>>) -> nat
    decreases ops.len(),
{
    if ops.len() == 0 {
        0
    } else {
        admissions(s, ops.drop_last()) + if ops.last() is Arrive && run(
            s,
            ops.drop_last(),
        ).state is Active {
            1nat
        } else {
            0nat
        }
    }
}

/// The requests in flight are those that were there, with the admissions and without the endings,
/// after any sequence of events. (No more requests end than are in flight, and no more are in
/// flight than can be counted.)
pub proof fn law_inflight_is_admissions_less_endings<G>(s: ControllerView<G>, ops: Seq<IdleOp<G>>)
    requires
        forall|k: int|
            0 <= k <= ops.len() ==> endings(#[trigger] ops.take(k)) <= s.inflight + admissions(
                s,
                ops.take(k),
            ) <= usize::MAX + endings(ops.take(k)),
    ensures
        run(s, ops).inflight == s.inflight + admissions(s, ops) - endings(ops),
    decreases ops.len(),
{
    if ops.len() > 0 {
        let head = ops.drop_last();
        assert forall|k: int| 0 <= k <= head.len() implies endings(#[trigger] head.take(k))
            <= s.inflight + admissions(s, head.take(k)) <= usize::MAX + endings(head.take(k)) by {
            assert(head.take(k) =~= ops.take(k));
        }
        law_inflight_is_admissions_less_endings(s, head);
        assert(ops.take(ops.len() as int) =~= ops);
        let before = run(s, head);
        match ops.last() {
            IdleOp::Arrive { now } => {
                law_admission_counts_one(before, now);
            },
            IdleOp::EndRequest => {
                law_ending_takes_one_away(before);
            },
            op => {
                law_only_requests_move_the_count(before, op);
            },
        }
    }
}

/// Nothing but an admission or an ending moves the count of requests, and nothing but an admission
/// is activity. Whether the state is kept in a file never changes.
pub proof fn law_only_requests_move_the_count<G>(s: ControllerView<G>, op: IdleOp<G>)
    ensures
        !(op is Arrive) && !(op is EndRequest) ==> step(s, op).inflight == s.inflight,
        !(op is Arrive) ==> step(s, op).last_activity == s.last_activity,
        step(s, op).durable == s.durable,
{
}

/// From a start on, nothing is in flight exactly when every request that was admitted has ended:
/// ending one of `n` admitted requests leaves `n - 1`, and only then is a drain over early.
pub proof fn law_drained_means_all_have_ended<G>(
    durable: bool,
    persisted: Option<ManifestView<G>>,
    now: u64,
    ops: Seq<IdleOp<G>>,
)
    requires
        forall|k: int|
            0 <= k <= ops.len() ==> endings(#[trigger] ops.take(k)) <= admissions(
                ControllerView::restarted(durable, persisted, now),
                ops.take(k),
            ) <= usize::MAX + endings(ops.take(k)),
    ensures
        ({
            let s = ControllerView::restarted(durable, persisted, now);
            &&& run(s, ops).inflight == admissions(s, ops) - endings(ops)
            &&& run(s, ops).inflight == 0 <==> admissions(s, ops) == endings(ops)
        }),
{
    let s = ControllerView::restarted(durable, persisted, now);
    assert(s.inflight == 0);
    law_inflight_is_admissions_less_endings(s, ops);
}

/// A proxy starts with nothing in flight and its own start as the last activity. It is idle only
/// where it keeps a file and found a manifest there.
pub proof fn law_start<G>(durable: bool, persisted: Option<ManifestView<G>>, now: u64)
    ensures
        ({
            let s = ControllerView::restarted(durable, persisted, now);
            &&& s.inflight == 0
            &&& s.next_gen == 0
            &&& s.last_activity == now as i64
            &&& s.durable == durable
            &&& durable && persisted is Some ==> s.state == StateView::Idle(persisted->0)
            &&& !durable || persisted is None ==> s.state is Active
            &&& !(s.state is Idle) ==> s == ControllerView::<G>::started(
                StateView::Active,
                durable,
                now,
            )
        }),
{
}

/// Going idle begins in service only: the claim carries its instant and a generation, and the
/// requests in flight stay counted. Whoever is too late learns what there is, and changes nothing.
pub proof fn law_claim_of_idle<G>(s: ControllerView<G>, now: u64)
    ensures
        ({
            let (begun, claim) = s.begin_enter(now);
            match s.state {
                StateView::Active => {
                    &&& claim matches Ok(g) && begun.state == (StateView::<G>::EnteringIdle {
                        since: now,
                        generation: g,
                    })
                    &&& begun.inflight == s.inflight
                    &&& begun.last_activity == s.last_activity
                    &&& begun.durable == s.durable
                },
                StateView::Idle(m) => begun == s && claim == Err::<u64, EnterRefusal<G>>(
                    EnterRefusal::AlreadyIdle(m),
                ),
                _ => begun == s && claim == Err::<u64, EnterRefusal<G>>(
                    EnterRefusal::InTransition,
                ),
            }
        }),
{
}

/// A commit stores the manifest as it was given, with the generation of the transition for its
/// episode, and that is what the state file has to say. One of another generation, or when no
/// entering is in progress, stores nothing.
pub proof fn law_commit_stores_the_manifest<G>(
    s: ControllerView<G>,
    generation: u64,
    manifest: ManifestView<G>,
)
    ensures
        ({
            let (next, stored) = s.finish_enter(generation, manifest);
            if s.state is EnteringIdle && s.state->EnteringIdle_generation == generation {
                &&& stored matches Some(m) && {
                    &&& m.reason == manifest.reason
                    &&& m.entered_at == manifest.entered_at
                    &&& m.watchdog_deadline == manifest.watchdog_deadline
                    &&& m.resident_models == manifest.resident_models
                    &&& m.mem_available_before_gb == manifest.mem_available_before_gb
                    &&& m.episode == generation
                    &&& next.state == StateView::Idle(m)
                }
                &&& next.state.persisted() == stored
                &&& next.state.manifest() == stored
                &&& next.inflight == s.inflight
                &&& next.last_activity == s.last_activity
                &&& next.next_gen == s.next_gen
            } else {
                next == s && stored is None
            }
        }),
{
}

/// A roll-back returns the transition of that generation to service, and touches no other.
pub proof fn law_roll_back_is_of_one_generation<G>(s: ControllerView<G>, generation: u64)
    ensures
        ({
            let (next, live) = s.abort_enter(generation);
            &&& live <==> s.state is EnteringIdle && s.state->EnteringIdle_generation == generation
            &&& live ==> next.state is Active && next.inflight == s.inflight && next.next_gen
                == s.next_gen
            &&& !live ==> next == s
        }),
{
}

/// An activation begins from full idleness only, hands the manifest over, and is finished by its
/// own generation only. It needs the file cleared where there is one.
pub proof fn law_activation_hands_the_manifest_over<G>(
    s: ControllerView<G>,
    m: ManifestView<G>,
    expected: Option<u64>,
    cleared: bool,
    now: u64,
    other: u64,
)
    requires
        s.state == StateView::Idle(m),
        expected is None || expected == Some(m.episode),
        cleared || !s.durable,
    ensures
        ({
            let (begun, claim) = s.begin_activate(expected, cleared, now);
            &&& claim matches Ok((handed, g)) && {
                &&& handed == m
                &&& begun.state == (StateView::Activating { since: now, generation: g, manifest: m })
                &&& begun.finish_activate(g).1
                &&& begun.finish_activate(g).0.state is Active
                &&& begun.finish_activate(g).0.inflight == s.inflight
                &&& other != g ==> begun.finish_activate(other) == (begun, false)
            }
            &&& begun.inflight == s.inflight
            &&& begun.last_activity == s.last_activity
            &&& s.exit(expected, cleared, now).0.state is Active
            &&& s.exit(expected, cleared, now).1 == Ok::<ManifestView<G>, ActivateRefusal>(m)
        }),
{
}

/// What is not fully idle cannot be activated, is told why, and is left as it is.
pub proof fn law_activation_needs_idleness<G>(
    s: ControllerView<G>,
    expected: Option<u64>,
    cleared: bool,
    now: u64,
)
    requires
        !(s.state is Idle),
    ensures
        s.begin_activate(expected, cleared, now) == (
            s,
            Err::<(ManifestView<G>, u64), ActivateRefusal>(
                if s.state is Active {
                    ActivateRefusal::AlreadyActive
                } else {
                    ActivateRefusal::InTransition
                },
            ),
        ),
        s.exit(expected, cleared, now).0 == s,
        s.exit(expected, cleared, now).1 is Err,
        !(s.state is Activating) ==> forall|g: u64| #[trigger]
            s.finish_activate(g) == (s, false),
{
}

/// The file has to be cleared exactly where an activation would fail without it.
pub proof fn law_clearing_is_asked_where_it_matters<G>(
    s: ControllerView<G>,
    expected: Option<u64>,
    now: u64,
)
    ensures
        s.must_clear(expected) <==> s.begin_activate(expected, false, now).1 == Err::<
            (ManifestView<G>, u64),
            ActivateRefusal,
        >(ActivateRefusal::PersistFailed),
        s.must_clear(expected) ==> s.durable && s.state is Idle,
{
}

/// A transition is resolved from its age on and not before: that of an entering counts from its
/// claim, and so does that of an activation. A clock that stepped back reads as no age.
pub proof fn law_recovery_waits_for_the_age<G>(
    s: ControllerView<G>,
    began: u64,
    now: u64,
    max_age: u64,
)
    requires
        s.state is Active || (s.state is Idle && !s.durable),
    ensures
        ({
            let begun = if s.state is Active {
                s.begin_enter(began).0
            } else {
                s.begin_activate(None, false, began).0
            };
            let (next, resolved) = begun.recover(now, max_age);
            &&& resolved <==> max_age == 0 || now - began >= max_age
            &&& resolved ==> next.state is Active && next.next_gen != begun.next_gen
            &&& !resolved ==> next == begun
            &&& next.inflight == s.inflight
        }),
{
}

/// The phases tell the states apart. Only full idleness is kept in the file; a manifest is there
/// while idle and on the way back.
pub proof fn law_phases_tell_the_states_apart<G>(s: StateView<G>)
    ensures
        s.phase() == Phase::Active <==> s is Active,
        s.phase() == Phase::EnteringIdle <==> s is EnteringIdle,
        s.phase() == Phase::Idle <==> s is Idle,
        s.phase() == Phase::Activating <==> s is Activating,
        s.persisted() is Some <==> s is Idle,
        s.manifest() is Some <==> s is Idle || s is Activating,
        s is Idle ==> s.persisted() == Some(s->Idle_0) && s.manifest() == Some(s->Idle_0),
        s is Activating ==> s.manifest() == Some(s->manifest),
        s.transition_since() is Some <==> s is EnteringIdle || s is Activating,
        s.generation() is Some <==> s is EnteringIdle || s is Activating,
{
}

/// The proxy serves while anything is in flight, and has then been quiet for no time at all. Else
/// it has been quiet since its last activity, and a last activity still to come reads as just now.
pub proof fn law_quiet_since_the_last_activity(inflight: usize, last: i64, now: i64)
    ensures
        activity(inflight, last, now).0 <==> inflight > 0,
        inflight > 0 ==> activity(inflight, last, now).1 == 0,
        inflight == 0 && last <= now && now - last <= i64::MAX ==> activity(inflight, last, now).1
            == now - last,
        now <= last ==> activity(inflight, last, now).1 == 0,
        activity(inflight, last, now).1 <= i64::MAX,
        inflight == 0 && now - last > i64::MAX ==> activity(inflight, last, now).1 == i64::MAX,
{
}

/// A refusal is told as what it is: one that is idle already with the manifest there is, and an
/// episode that was superseded as a transition of someone else's.
pub proof fn law_refusals_are_told_as_they_are<G>(
    m: ResumeManifest<G>,
    v: ManifestView<G>,
    why: ActivateRefusal,
)
    ensures
        BeginEnter::AlreadyIdle(m).refuses(EnterRefusal::AlreadyIdle(v)) <==> v == m@,
        !BeginEnter::AlreadyIdle(m).refuses(EnterRefusal::InTransition),
        BeginEnter::<G>::InTransition.refuses(EnterRefusal::InTransition),
        !BeginEnter::<G>::InTransition.refuses(EnterRefusal::AlreadyIdle(v)),
        !BeginEnter::<G>::Begin.refuses(EnterRefusal::AlreadyIdle(v)),
        !BeginEnter::<G>::Begin.refuses(EnterRefusal::InTransition),
        BeginActivate::<G>::AlreadyActive.refuses(why) <==> why == ActivateRefusal::AlreadyActive,
        BeginActivate::<G>::InTransition.refuses(why) <==> why == ActivateRefusal::InTransition,
        BeginActivate::<G>::PersistFailed.refuses(why) <==> why == ActivateRefusal::PersistFailed,
        BeginActivate::<G>::Superseded.refuses(why) <==> why == ActivateRefusal::Superseded,
        !BeginActivate::Begin(m).refuses(why),
        ActivateOutcome::<G>::AlreadyActive.reports(why) <==> why == ActivateRefusal::AlreadyActive,
        ActivateOutcome::<G>::PersistFailed.reports(why) <==> why == ActivateRefusal::PersistFailed,
        ActivateOutcome::<G>::InTransition.reports(why) <==> why == ActivateRefusal::InTransition
            || why == ActivateRefusal::Superseded,
        !ActivateOutcome::Activated(m).reports(why),
{
}

/// An ending undoes an admission as far as the count goes, whatever the count was.
pub proof fn law_ending_undoes_an_admission<G>(s: ControllerView<G>, now: u64)
    requires
        s.state is Active,
    ensures
        s.arrive(now).end_request().inflight == s.inflight,
        s.end_request().arrive(now).inflight == s.inflight,
{
}

/// Generations count up by one and start over where the counter ends, so that no two in a row, and no
/// two that follow different ones, are the same.
pub proof fn law_generations_differ(a: u64, b: u64)
    ensures
        a < u64::MAX ==> next_u64(a) == a + 1,
        next_u64(u64::MAX) == 0,
        next_u64(a) != a,
        next_u64(a) == next_u64(b) ==> a == b,
{
}

} // verus!
