//! Entering idle: what is released, in which order, and how the transition is concluded.
use vstd::prelude::*;

use crate::admin::idle::{
    BeginEnter, ControllerView, EnterOutcome, EnterTransition, EnterView, IdleController,
    ManifestView, ResumeManifest,
};
use crate::control::{ModelRecord, StorageTier};
use crate::text::{owned, trim_end_slashes, views, without_end_slashes};

verus! {

/// What entering idle has freed. `G` is a memory size as the host samples it.
#[derive(Debug, PartialEq)]
pub struct IdleReport<G> {
    pub mem_available_before_gb: Option<G>,
    pub mem_available_after_gb: Option<G>,
    pub freed_gb: Option<G>,
    pub backends_stopped: usize,
    pub models_unloaded: usize,
    pub models_demoted: usize,
    /// Requests that were still running when the release went ahead.
    pub inflight_remaining: usize,
    /// Who holds the GPU; the lease is reported and left alone.
    pub foreign_gpu_lock_holder: Option<String>,
}

/// What the release does next.
#[derive(Debug, Clone, Copy, PartialEq, Eq, Structural)]
pub enum ReleaseStage {
    /// Let the requests in flight end.
    Drain,
    /// List the models that are loaded, for the return to service.
    ListResidents,
    /// Sample the memory.
    SampleBefore,
    /// Stop the backends that are started on demand.
    StopBackends,
    /// Stop the diffusion daemon.
    StopDiffusion,
    /// Give up the set of models that is kept loaded.
    ReleaseResidentSet,
    /// Unload every model.
    UnloadModels,
    /// Record that no model is loaded.
    DemoteHot,
    /// See who holds the GPU.
    ReportLease,
    /// Sample the memory again.
    SampleAfter,
    /// The release is complete.
    Done,
}

impl ReleaseStage {
    /// How many stages come before this one.
    pub open spec fn rank(self) -> nat {
        match self {
            ReleaseStage::Drain => 0,
            ReleaseStage::ListResidents => 1,
            ReleaseStage::SampleBefore => 2,
            ReleaseStage::StopBackends => 3,
            ReleaseStage::StopDiffusion => 4,
            ReleaseStage::ReleaseResidentSet => 5,
            ReleaseStage::UnloadModels => 6,
            ReleaseStage::DemoteHot => 7,
            ReleaseStage::ReportLease => 8,
            ReleaseStage::SampleAfter => 9,
            ReleaseStage::Done => 10,
        }
    }
}

/// What came of a stage.
#[derive(Debug, PartialEq)]
pub enum ReleaseEvent<G> {
    Drained(usize),
    Residents(Vec<String>),
    MemoryBefore(Option<G>),
    BackendsStopped(usize),
    DiffusionStopped,
    ResidentSetReleased,
    Unloaded(usize),
    Demoted(usize),
    Lease(Option<String>),
    MemoryAfter(Option<G>),
}

impl<G> ReleaseEvent<G> {
    /// The stage that this is the outcome of.
    pub open spec fn stage(self) -> ReleaseStage {
        match self {
            ReleaseEvent::Drained(_) => ReleaseStage::Drain,
            ReleaseEvent::Residents(_) => ReleaseStage::ListResidents,
            ReleaseEvent::MemoryBefore(_) => ReleaseStage::SampleBefore,
            ReleaseEvent::BackendsStopped(_) => ReleaseStage::StopBackends,
            ReleaseEvent::DiffusionStopped => ReleaseStage::StopDiffusion,
            ReleaseEvent::ResidentSetReleased => ReleaseStage::ReleaseResidentSet,
            ReleaseEvent::Unloaded(_) => ReleaseStage::UnloadModels,
            ReleaseEvent::Demoted(_) => ReleaseStage::DemoteHot,
            ReleaseEvent::Lease(_) => ReleaseStage::ReportLease,
            ReleaseEvent::MemoryAfter(_) => ReleaseStage::SampleAfter,
        }
    }
}

/// A release in progress.
#[derive(Debug, PartialEq)]
pub struct Release<G> {
    pub stage: ReleaseStage,
    pub inflight_remaining: usize,
    pub resident_models: Vec<String>,
    pub mem_before: Option<G>,
    pub backends_stopped: usize,
    pub models_unloaded: usize,
    pub models_demoted: usize,
    pub lease_holder: Option<String>,
    pub mem_after: Option<G>,
}

impl<G> Release<G> {
    /// The release once `event` has come of the stage it is at. What belongs to another stage
    /// changes nothing.
    pub open spec fn after(self, event: ReleaseEvent<G>) -> Release<G> {
        if event.stage() != self.stage {
            self
        } else {
            match event {
                ReleaseEvent::Drained(n) => Release {
                    stage: ReleaseStage::ListResidents,
                    inflight_remaining: n,
                    ..self
                },
                ReleaseEvent::Residents(v) => Release {
                    stage: ReleaseStage::SampleBefore,
                    resident_models: v,
                    ..self
                },
                ReleaseEvent::MemoryBefore(g) => Release {
                    stage: ReleaseStage::StopBackends,
                    mem_before: g,
                    ..self
                },
                ReleaseEvent::BackendsStopped(n) => Release {
                    stage: ReleaseStage::StopDiffusion,
                    backends_stopped: n,
                    ..self
                },
                ReleaseEvent::DiffusionStopped => Release {
                    stage: ReleaseStage::ReleaseResidentSet,
                    ..self
                },
                ReleaseEvent::ResidentSetReleased => Release {
                    stage: ReleaseStage::UnloadModels,
                    ..self
                },
                ReleaseEvent::Unloaded(n) => Release {
                    stage: ReleaseStage::DemoteHot,
                    models_unloaded: n,
                    ..self
                },
                ReleaseEvent::Demoted(n) => Release {
                    stage: ReleaseStage::ReportLease,
                    models_demoted: n,
                    ..self
                },
                ReleaseEvent::Lease(h) => Release {
                    stage: ReleaseStage::SampleAfter,
                    lease_holder: h,
                    ..self
                },
                ReleaseEvent::MemoryAfter(g) => Release {
                    stage: ReleaseStage::Done,
                    mem_after: g,
                    ..self
                },
            }
        }
    }

    /// Starts a release.
    pub fn start() -> (r: Release<G>)
        ensures
            r.stage == ReleaseStage::Drain,
            r.inflight_remaining == 0,
            r.resident_models@.len() == 0,
            r.mem_before is None,
            r.backends_stopped == 0,
            r.models_unloaded == 0,
            r.models_demoted == 0,
            r.lease_holder is None,
            r.mem_after is None,
    {
        Release {
            stage: ReleaseStage::Drain,
            inflight_remaining: 0,
            resident_models: Vec::new(),
            mem_before: None,
            backends_stopped: 0,
            models_unloaded: 0,
            models_demoted: 0,
            lease_holder: None,
            mem_after: None,
        }
    }

    /// Takes note of what came of the stage that the release is at.
    pub fn advance(self, event: ReleaseEvent<G>) -> (r: Release<G>)
        ensures
            r == self.after(event),
    {
        let mut next = self;
        match (next.stage, event) {
            (ReleaseStage::Drain, ReleaseEvent::Drained(n)) => {
                next.inflight_remaining = n;
                next.stage = ReleaseStage::ListResidents;
            },
            (ReleaseStage::ListResidents, ReleaseEvent::Residents(v)) => {
                next.resident_models = v;
                next.stage = ReleaseStage::SampleBefore;
            },
            (ReleaseStage::SampleBefore, ReleaseEvent::MemoryBefore(g)) => {
                next.mem_before = g;
                next.stage = ReleaseStage::StopBackends;
            },
            (ReleaseStage::StopBackends, ReleaseEvent::BackendsStopped(n)) => {
                next.backends_stopped = n;
                next.stage = ReleaseStage::StopDiffusion;
            },
            (ReleaseStage::StopDiffusion, ReleaseEvent::DiffusionStopped) => {
                next.stage = ReleaseStage::ReleaseResidentSet;
            },
            (ReleaseStage::ReleaseResidentSet, ReleaseEvent::ResidentSetReleased) => {
                next.stage = ReleaseStage::UnloadModels;
            },
            (ReleaseStage::UnloadModels, ReleaseEvent::Unloaded(n)) => {
                next.models_unloaded = n;
                next.stage = ReleaseStage::DemoteHot;
            },
            (ReleaseStage::DemoteHot, ReleaseEvent::Demoted(n)) => {
                next.models_demoted = n;
                next.stage = ReleaseStage::ReportLease;
            },
            (ReleaseStage::ReportLease, ReleaseEvent::Lease(h)) => {
                next.lease_holder = h;
                next.stage = ReleaseStage::SampleAfter;
            },
            (ReleaseStage::SampleAfter, ReleaseEvent::MemoryAfter(g)) => {
                next.mem_after = g;
                next.stage = ReleaseStage::Done;
            },
            _ => {},
        }
        next
    }

    /// The report of a release, and the models that were loaded. `freed` is what the two samples
    /// come to.
    pub fn into_report(self, freed: Option<G>) -> (r: (IdleReport<G>, Vec<String>))
        ensures
            r.0.mem_available_before_gb == self.mem_before,
            r.0.mem_available_after_gb == self.mem_after,
            r.0.freed_gb == freed,
            r.0.backends_stopped == self.backends_stopped,
            r.0.models_unloaded == self.models_unloaded,
            r.0.models_demoted == self.models_demoted,
            r.0.inflight_remaining == self.inflight_remaining,
            r.0.foreign_gpu_lock_holder == self.lease_holder,
            r.1 == self.resident_models,
    {
        (
            IdleReport {
                mem_available_before_gb: self.mem_before,
                mem_available_after_gb: self.mem_after,
                freed_gb: freed,
                backends_stopped: self.backends_stopped,
                models_unloaded: self.models_unloaded,
                models_demoted: self.models_demoted,
                inflight_remaining: self.inflight_remaining,
                foreign_gpu_lock_holder: self.lease_holder,
            },
            self.resident_models,
        )
    }
}

/// Every outcome of the stage at hand leads one stage on, and nothing else leads anywhere: requests
/// are drained before anything is stopped, the loaded models are listed and the kept set is given
/// up before anything is unloaded.
pub proof fn law_release_goes_stage_by_stage<G>(release: Release<G>, event: ReleaseEvent<G>)
    ensures
        event.stage() == release.stage ==> release.after(event).stage.rank()
            == release.stage.rank() + 1,
        event.stage() != release.stage ==> release.after(event) == release,
        ReleaseStage::Drain.rank() == 0,
        ReleaseStage::Drain.rank() < ReleaseStage::StopBackends.rank(),
        ReleaseStage::ListResidents.rank() < ReleaseStage::UnloadModels.rank(),
        ReleaseStage::ReleaseResidentSet.rank() < ReleaseStage::UnloadModels.rank(),
        ReleaseStage::SampleBefore.rank() < ReleaseStage::StopBackends.rank(),
        ReleaseStage::UnloadModels.rank() < ReleaseStage::SampleAfter.rank(),
        release.stage == ReleaseStage::Done ==> release.after(event) == release,
{
}

/// What the claim of a transition into idle is answered, where there is none.
pub fn enter_refused<G>(why: BeginEnter<G>) -> (r: EnterOutcome<G>)
    ensures
        match why {
            BeginEnter::AlreadyIdle(m) => r == EnterOutcome::AlreadyIdle(m),
            _ => r is InTransition,
        },
{
    match why {
        BeginEnter::AlreadyIdle(m) => EnterOutcome::AlreadyIdle(m),
        _ => EnterOutcome::InTransition,
    }
}

/// The later of two instants apart by `secs`, or the end of time.
pub open spec fn deadline(now: u64, secs: u64) -> u64 {
    if now + secs > u64::MAX {
        u64::MAX
    } else {
        (now + secs) as u64
    }
}

/// The manifest of a release that ended at `now`.
pub open spec fn manifest_of<G>(
    reason: Seq<char>,
    now: u64,
    watchdog_secs: u64,
    residents: Seq<Seq<char>>,
    mem_before: G,
) -> ManifestView<G> {
    ManifestView {
        reason,
        entered_at: now,
        watchdog_deadline: deadline(now, watchdog_secs),
        resident_models: residents,
        mem_available_before_gb: mem_before,
        episode: 0,
    }
}

/// Concludes the transition into idle. `released` is what the release came to, or nothing where it
/// overran its budget: the transition is then given up. `no_memory` stands for a sample that could
/// not be had.
pub fn enter_idle<G: Copy>(
    ctl: &mut IdleController<G>,
    transition: EnterTransition,
    reason: &str,
    released: Option<(IdleReport<G>, Vec<String>)>,
    no_memory: G,
    now: u64,
    watchdog_secs: u64,
) -> (r: (EnterOutcome<G>, Option<IdleReport<G>>))
    ensures
        final(ctl).path() == old(ctl).path(),
        match released {
            None => {
                &&& final(ctl)@ == old(ctl)@.abort_enter(transition.gen()).0
                &&& r.0 is InTransition
                &&& r.1 is None
            },
            Some((report, residents)) => {
                let manifest = manifest_of(
                    reason@,
                    now,
                    watchdog_secs,
                    views(residents@),
                    match report.mem_available_before_gb {
                        Some(g) => g,
                        None => no_memory,
                    },
                );
                let (next, stored) = old(ctl)@.finish_enter(transition.gen(), manifest);
                &&& final(ctl)@ == next
                &&& match stored {
                    Some(m) => r.0@ == EnterView::Entered(m) && r.1 == Some(report),
                    None => r.0 is InTransition && r.1 is None,
                }
            },
        },
{
    match released {
        None => {
            transition.abandon(ctl);
            (EnterOutcome::InTransition, None)
        },
        Some((report, resident_models)) => {
            let manifest = ResumeManifest {
                reason: owned(reason),
                entered_at: now,
                watchdog_deadline: now.saturating_add(watchdog_secs),
                resident_models,
                mem_available_before_gb: match report.mem_available_before_gb {
                    Some(g) => g,
                    None => no_memory,
                },
                episode: 0,
            };
            match transition.commit(ctl, manifest) {
                Some(m) => (EnterOutcome::Entered(m), Some(report)),
                None => (EnterOutcome::InTransition, None),
            }
        },
    }
}

/// A release that overruns its budget leaves the proxy in service, with the requests in flight as
/// they were; while it ran no request was let in.
pub proof fn law_overrun_release_rolls_back<G>(ctl: ControllerView<G>, begun: u64, now: u64)
    requires
        ctl.state is Active,
    ensures
        ({
            let (entering, claim) = ctl.begin_enter(begun);
            &&& claim matches Ok(generation)
            &&& entering.arrive(now) == entering
            &&& entering.abort_enter(generation).1
            &&& entering.abort_enter(generation).0.state is Active
            &&& entering.abort_enter(generation).0.inflight == ctl.inflight
        }),
{
}

/// The names that are not empty.
pub open spec fn named(names: Seq<Seq<char>>) -> Seq<Seq<char>>
    decreases names.len(),
{
    if names.len() == 0 {
        Seq::empty()
    } else if names.last().len() == 0 {
        named(names.drop_last())
    } else {
        named(names.drop_last()).push(names.last())
    }
}

/// The loaded models, for the return to service: those that the model server names, where it
/// answers.
pub fn list_resident_models(available: bool, names: Vec<String>) -> (r: Vec<String>)
    ensures
        views(r@) == (if available {
            named(views(names@))
        } else {
            Seq::empty()
        }),
{
    let mut r: Vec<String> = Vec::new();
    if !available {
        assert(views(r@) =~= Seq::empty());
        return r;
    }
    let mut i: usize = 0;
    let ghost all = views(names@);
    assert(all.take(0) =~= Seq::empty());
    assert(views(r@) =~= Seq::empty());
    while i < names.len()
        invariant
            i <= names.len(),
            all == views(names@),
            views(r@) == named(all.take(i as int)),
        decreases names.len() - i,
    {
        let ghost had = views(r@);
        proof {
            assert(all[i as int] == names@[i as int]@);
            assert(all.take(i + 1).drop_last() =~= all.take(i as int));
            assert(all.take(i + 1).last() == names@[i as int]@);
        }
        if names[i].as_str().unicode_len() > 0 {
            r.push(names[i].clone());
            assert(views(r@) =~= had.push(names@[i as int]@));
        }
        i = i + 1;
    }
    assert(all.take(all.len() as int) =~= all);
    r
}

/// The model server's address without slashes at its end.
pub fn ps_base(base: &str) -> (r: String)
    ensures
        r@ == trim_end_slashes(base@),
{
    without_end_slashes(base)
}

/// A record of a model that is no longer loaded.
pub open spec fn demoted(r: ModelRecord) -> ModelRecord {
    if r.tier == StorageTier::Hot {
        ModelRecord { tier: StorageTier::Warm, ..r }
    } else {
        r
    }
}

/// How many records are of loaded models.
pub open spec fn hot_count(records: Seq<ModelRecord>) -> nat {
    crate::control::tier_total(records, StorageTier::Hot)
}

/// Records that no model is loaded, protected ones among them. Says how many were.
pub fn demote_hot_to_warm(records: &mut Vec<ModelRecord>) -> (r: usize)
    ensures
        final(records)@ == old(records)@.map_values(|m: ModelRecord| demoted(m)),
        r == hot_count(old(records)@),
{
    let ghost all = records@;
    let ghost f = |m: ModelRecord| demoted(m);
    let mut count: usize = 0;
    let mut i: usize = 0;
    assert(all.take(0) =~= Seq::empty());
    while i < records.len()
        invariant
            i <= records.len(),
            all == old(records)@,
            f == (|m: ModelRecord| demoted(m)),
            records@.len() == all.len(),
            count <= i,
            count == hot_count(all.take(i as int)),
            forall|k: int| 0 <= k < i ==> #[trigger] records@[k] == demoted(all[k]),
            forall|k: int| i <= k < all.len() ==> #[trigger] records@[k] == all[k],
        decreases records.len() - i,
    {
        assert(all.take(i + 1).drop_last() =~= all.take(i as int));
        let ghost held = records@;
        if records[i].tier == StorageTier::Hot {
            let mut record = records.remove(i);
            record.tier = StorageTier::Warm;
            records.insert(i, record);
            assert(records@ =~= held.update(i as int, demoted(all[i as int])));
            count = count + 1;
        }
        i = i + 1;
    }
    assert(all.take(all.len() as int) =~= all);
    assert(records@ =~= all.map_values(f));
    count
}

/// Nothing is loaded afterwards, and protection is untouched.
pub proof fn law_nothing_stays_hot(records: Seq<ModelRecord>)
    ensures
        hot_count(records.map_values(|m: ModelRecord| demoted(m))) == 0,
        forall|i: int|
            0 <= i < records.len() ==> (#[trigger] demoted(records[i])).protected
                == records[i].protected,
    decreases records.len(),
{
    let f = |m: ModelRecord| demoted(m);
    let all = records.map_values(f);
    if records.len() > 0 {
        law_nothing_stays_hot(records.drop_last());
        assert(all.drop_last() =~= records.drop_last().map_values(f));
    }
}

/// A release that is fed what came of its ten stages, in their order, is complete and tells each of
/// them: the requests that were left, the models that were loaded, the two samples of the memory,
/// the three counts and the holder of the GPU.
pub proof fn law_release_tells_what_came_of_each_stage<G>(
    fresh: Release<G>,
    left: usize,
    residents: Vec<String>,
    before: Option<G>,
    stopped: usize,
    unloaded: usize,
    demoted_models: usize,
    holder: Option<String>,
    after: Option<G>,
)
    requires
        fresh.stage == ReleaseStage::Drain,
    ensures
        ({
            let listed = fresh.after(ReleaseEvent::Drained(left)).after(
                ReleaseEvent::Residents(residents),
            ).after(ReleaseEvent::MemoryBefore(before));
            let freed = listed.after(ReleaseEvent::BackendsStopped(stopped)).after(
                ReleaseEvent::DiffusionStopped,
            ).after(ReleaseEvent::ResidentSetReleased).after(ReleaseEvent::Unloaded(unloaded));
            let done = freed.after(ReleaseEvent::Demoted(demoted_models)).after(
                ReleaseEvent::Lease(holder),
            ).after(ReleaseEvent::MemoryAfter(after));
            &&& listed.stage == ReleaseStage::StopBackends
            &&& freed.stage == ReleaseStage::DemoteHot
            &&& done.stage == ReleaseStage::Done
            &&& done.inflight_remaining == left
            &&& done.resident_models == residents
            &&& done.mem_before == before
            &&& done.backends_stopped == stopped
            &&& done.models_unloaded == unloaded
            &&& done.models_demoted == demoted_models
            &&& done.lease_holder == holder
            &&& done.mem_after == after
        }),
{
}

/// What does not belong to the stage at hand is not taken note of: requests that end late, a lease
/// that is seen too early.
pub proof fn law_stage_takes_its_own_outcome_only<G>(
    release: Release<G>,
    n: usize,
    names: Vec<String>,
    holder: Option<String>,
    sample: Option<G>,
)
    ensures
        release.after(ReleaseEvent::Drained(n)) == release || release.stage == ReleaseStage::Drain,
        release.after(ReleaseEvent::Residents(names)) == release || release.stage
            == ReleaseStage::ListResidents,
        release.after(ReleaseEvent::MemoryBefore(sample)) == release || release.stage
            == ReleaseStage::SampleBefore,
        release.after(ReleaseEvent::BackendsStopped(n)) == release || release.stage
            == ReleaseStage::StopBackends,
        release.after(ReleaseEvent::DiffusionStopped) == release || release.stage
            == ReleaseStage::StopDiffusion,
        release.after(ReleaseEvent::ResidentSetReleased) == release || release.stage
            == ReleaseStage::ReleaseResidentSet,
        release.after(ReleaseEvent::Unloaded(n)) == release || release.stage
            == ReleaseStage::UnloadModels,
        release.after(ReleaseEvent::Demoted(n)) == release || release.stage
            == ReleaseStage::DemoteHot,
        release.after(ReleaseEvent::Lease(holder)) == release || release.stage
            == ReleaseStage::ReportLease,
        release.after(ReleaseEvent::MemoryAfter(sample)) == release || release.stage
            == ReleaseStage::SampleAfter,
{
}

/// A deadline lies its seconds after the instant, as far as time can be told; never before it.
pub proof fn law_deadline_lies_its_seconds_ahead(now: u64, secs: u64)
    ensures
        now + secs <= u64::MAX ==> deadline(now, secs) - now == secs,
        now + secs > u64::MAX ==> deadline(now, secs) == u64::MAX,
        deadline(now, secs) >= now,
{
}

/// A manifest keeps who asked, when idle mode began, the models that were loaded and the memory
/// there was, and gives the watchdog its seconds.
pub proof fn law_manifest_keeps_what_the_return_needs<G>(
    reason: Seq<char>,
    now: u64,
    secs: u64,
    residents: Seq<Seq<char>>,
    mem: G,
)
    ensures
        ({
            let m = manifest_of(reason, now, secs, residents, mem);
            &&& m.reason == reason
            &&& m.entered_at == now
            &&& now + secs <= u64::MAX ==> m.watchdog_deadline == now + secs
            &&& now + secs > u64::MAX ==> m.watchdog_deadline == u64::MAX
            &&& m.resident_models == residents
            &&& m.mem_available_before_gb == mem
        }),
{
}

/// The models are listed in the order they are named, all of them but those without a name.
pub proof fn law_every_named_model_is_listed(before: Seq<Seq<char>>, name: Seq<char>)
    ensures
        named(Seq::empty()) == Seq::<Seq<char>>::empty(),
        name.len() > 0 ==> named(before.push(name)) == named(before).push(name),
        name.len() == 0 ==> named(before.push(name)) == named(before),
{
    assert(before.push(name).drop_last() =~= before);
}

/// Only a loaded model is demoted, to the local disk, and its record stays the same in all else.
pub proof fn law_demotion_is_of_loaded_models(r: ModelRecord)
    ensures
        r.tier == StorageTier::Hot ==> demoted(r).tier == StorageTier::Warm,
        r.tier != StorageTier::Hot ==> demoted(r) == r,
        demoted(r).name == r.name,
        demoted(r).size_bytes == r.size_bytes,
        demoted(r).local_path == r.local_path,
        demoted(r).archive_path == r.archive_path,
        demoted(r).last_requested == r.last_requested,
        demoted(r).last_loaded == r.last_loaded,
        demoted(r).protected == r.protected,
        demoted(r).managed_by == r.managed_by,
{
}

/// The count of demoted models is that of the loaded ones, one by one.
pub proof fn law_loaded_models_are_counted(before: Seq<ModelRecord>, r: ModelRecord)
    ensures
        hot_count(Seq::empty()) == 0,
        r.tier == StorageTier::Hot ==> hot_count(before.push(r)) == hot_count(before) + 1,
        r.tier != StorageTier::Hot ==> hot_count(before.push(r)) == hot_count(before),
{
    assert(before.push(r).drop_last() =~= before);
}

} // verus!
