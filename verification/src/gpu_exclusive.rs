//! The lease that hands the host's one GPU to an outside job while the proxy stays up.
//!
//! A holder takes the lease, renews it by acquiring again, and releases it. A lease that is not
//! renewed within its time to live counts as abandoned: it gates nothing and anyone may take it.
use vstd::prelude::*;

use crate::decimal::{decimal, decimal_of};
use crate::env::{positive_or, positive_var, var, var_of};
use crate::table::Table;
use crate::text::{
    contains, filled, filled_of, has, join, listed, lists, lower_ascii, lowered, opt_view, owned,
    same, trim_end_slashes, views, without_end_slashes,
};

verus! {

/// Seconds without a renewal after which a lease counts as abandoned.
pub const DEFAULT_TTL_SECS: u64 = 600;

/// The time to live that `CHORD_GPU_EXCLUSIVE_TTL_SECS` sets; [`DEFAULT_TTL_SECS`] where it is
/// missing, blank, zero or no number.
pub fn ttl_secs_from_env(env: &Table) -> (r: u64)
    ensures
        r == positive_or(var(env@, "CHORD_GPU_EXCLUSIVE_TTL_SECS"@), DEFAULT_TTL_SECS),
{
    positive_var(env, "CHORD_GPU_EXCLUSIVE_TTL_SECS", DEFAULT_TTL_SECS)
}

/// The RFC 3339 text of an instant in UTC, where the calendar reaches it.
pub uninterp spec fn rfc3339_utc(epoch_secs: i64) -> Option<Seq<char>>;

/// `chrono::DateTime::from_timestamp` and `to_rfc3339` on whole seconds in UTC: the text is a
/// function of the timestamp alone, and there is none for an instant outside chrono's calendar.
#[verifier::external_body]
fn chrono_rfc3339(epoch_secs: i64) -> (r: Option<String>)
    ensures
        opt_view(r) == rfc3339_utc(epoch_secs),
{
    chrono::DateTime::<chrono::Utc>::from_timestamp(epoch_secs, 0).map(|t| t.to_rfc3339())
}

/// What stands for an instant: its calendar text, or the bare number of seconds.
pub open spec fn instant_text(rendered: Option<Seq<char>>, epoch_secs: u64) -> Seq<char> {
    match rendered {
        Some(t) => t,
        None => decimal(epoch_secs as nat),
    }
}

/// The calendar text of an instant where there is one, else the number of seconds.
pub fn rendered_or_epoch(rendered: Option<String>, epoch_secs: u64) -> (r: String)
    ensures
        r@ == instant_text(opt_view(rendered), epoch_secs),
{
    match rendered {
        Some(t) => t,
        None => decimal_of(epoch_secs),
    }
}

/// The text of an instant, as [`iso_utc`] renders it. The calendar counts in signed seconds.
pub open spec fn iso_text(epoch_secs: u64) -> Seq<char> {
    if epoch_secs > i64::MAX {
        decimal(epoch_secs as nat)
    } else {
        instant_text(rfc3339_utc(epoch_secs as i64), epoch_secs)
    }
}

/// An instant as RFC 3339 text in UTC; the number of seconds where the calendar does not reach.
pub fn iso_utc(epoch_secs: u64) -> (r: String)
    ensures
        r@ == iso_text(epoch_secs),
{
    if epoch_secs > i64::MAX as u64 {
        return decimal_of(epoch_secs);
    }
    let rendered = chrono_rfc3339(epoch_secs as i64);
    rendered_or_epoch(rendered, epoch_secs)
}

/// A lease: who holds it, since when, and when it was last renewed.
#[derive(Debug, PartialEq, Eq)]
pub struct LockRecord {
    pub holder: String,
    pub acquired_at: u64,
    pub last_heartbeat: u64,
}

/// What a lease says.
pub ghost struct LockView {
    pub holder: Seq<char>,
    pub acquired_at: u64,
    pub last_heartbeat: u64,
}

impl View for LockRecord {
    type V = LockView;

    open spec fn view(&self) -> LockView {
        LockView {
            holder: self.holder@,
            acquired_at: self.acquired_at,
            last_heartbeat: self.last_heartbeat,
        }
    }
}

impl Clone for LockRecord {
    fn clone(&self) -> (r: Self)
        ensures
            r == *self,
    {
        LockRecord {
            holder: self.holder.clone(),
            acquired_at: self.acquired_at,
            last_heartbeat: self.last_heartbeat,
        }
    }
}

impl LockView {
    /// No renewal within `ttl` seconds of `now`. A clock that stepped back expires nothing.
    pub open spec fn expired(self, now: u64, ttl: u64) -> bool {
        now - self.last_heartbeat > ttl
    }
}

/// The view of an optional lease.
pub open spec fn lock_view(lock: Option<LockRecord>) -> Option<LockView> {
    match lock {
        Some(r) => Some(r@),
        None => None,
    }
}

impl LockRecord {
    /// Is this lease abandoned: not renewed within `ttl` seconds of `now`?
    pub fn is_expired(&self, now: u64, ttl: u64) -> (r: bool)
        ensures
            r == self@.expired(now, ttl),
    {
        now.saturating_sub(self.last_heartbeat) > ttl
    }
}

/// What an acquire is answered.
#[derive(Debug, PartialEq, Eq)]
pub enum AcquireDecision {
    /// Free or abandoned: a fresh grant.
    GrantNew,
    /// The same holder renews a live lease.
    Refresh,
    /// Another holder has a live lease.
    HeldBy { holder: String, since: u64 },
}

/// Decides an acquire by `holder` at `now`.
pub fn decide_acquire(existing: Option<&LockRecord>, holder: &str, now: u64, ttl: u64) -> (r:
    AcquireDecision)
    ensures
        r is GrantNew <==> existing is None || existing->0@.expired(now, ttl),
        r is Refresh <==> existing is Some && !existing->0@.expired(now, ttl)
            && existing->0@.holder == holder@,
        r matches AcquireDecision::HeldBy { holder: h, since } ==> existing is Some && h@
            == existing->0@.holder && since == existing->0@.acquired_at,
{
    match existing {
        None => AcquireDecision::GrantNew,
        Some(r) => if r.is_expired(now, ttl) {
            AcquireDecision::GrantNew
        } else if same(r.holder.as_str(), holder) {
            AcquireDecision::Refresh
        } else {
            AcquireDecision::HeldBy { holder: r.holder.clone(), since: r.acquired_at }
        },
    }
}

/// What a release is answered.
#[derive(Debug, PartialEq, Eq)]
pub enum ReleaseDecision {
    /// The holder gives up its own lease.
    Release,
    /// There is no lease.
    NotHeld,
    /// Another holder has the lease.
    Mismatch { holder: String },
}

/// Decides a release by `holder`.
pub fn decide_release(existing: Option<&LockRecord>, holder: &str) -> (r: ReleaseDecision)
    ensures
        r is NotHeld <==> existing is None,
        r is Release <==> existing is Some && existing->0@.holder == holder@,
        r matches ReleaseDecision::Mismatch { holder: h } ==> existing is Some && h@
            == existing->0@.holder,
{
    match existing {
        None => ReleaseDecision::NotHeld,
        Some(r) => if same(r.holder.as_str(), holder) {
            ReleaseDecision::Release
        } else {
            ReleaseDecision::Mismatch { holder: r.holder.clone() }
        },
    }
}

/// What came of an acquire.
#[derive(Debug, PartialEq, Eq)]
pub enum AcquireOutcome {
    /// Granted; `new_grant` unless it renewed a live lease.
    Granted { record: LockRecord, new_grant: bool },
    /// Another holder has a live lease.
    Blocked { record: LockRecord },
}

/// What came of a release.
#[derive(Debug, PartialEq, Eq)]
pub enum ReleaseOutcome {
    /// The lease is gone, or there was none.
    Released,
    /// Another holder has the lease; it stays.
    Mismatch { record: LockRecord },
}

/// What an [`AcquireOutcome`] says.
pub ghost enum AcquireView {
    Granted { record: LockView, new_grant: bool },
    Blocked { record: LockView },
}

impl View for AcquireOutcome {
    type V = AcquireView;

    open spec fn view(&self) -> AcquireView {
        match self {
            AcquireOutcome::Granted { record, new_grant } => AcquireView::Granted {
                record: record@,
                new_grant: *new_grant,
            },
            AcquireOutcome::Blocked { record } => AcquireView::Blocked { record: record@ },
        }
    }
}

/// What a [`ReleaseOutcome`] says.
pub ghost enum ReleaseView {
    Released,
    Mismatch { record: LockView },
}

impl View for ReleaseOutcome {
    type V = ReleaseView;

    open spec fn view(&self) -> ReleaseView {
        match self {
            ReleaseOutcome::Released => ReleaseView::Released,
            ReleaseOutcome::Mismatch { record } => ReleaseView::Mismatch { record: record@ },
        }
    }
}

/// The lease as it stands, and its time to live.
pub ghost struct GpuView {
    pub lock: Option<LockView>,
    pub ttl: u64,
}

impl GpuView {
    /// The lease that gates inference at `now`.
    pub open spec fn active(self, now: u64) -> Option<LockView> {
        match self.lock {
            Some(r) => if r.expired(now, self.ttl) {
                None
            } else {
                Some(r)
            },
            None => None,
        }
    }

    /// What an acquire by `holder` at `now` is answered.
    pub open spec fn acquire_answer(self, holder: Seq<char>, now: u64) -> AcquireView {
        match self.active(now) {
            None => AcquireView::Granted {
                record: LockView { holder, acquired_at: now, last_heartbeat: now },
                new_grant: true,
            },
            Some(r) => if r.holder == holder {
                AcquireView::Granted {
                    record: LockView { last_heartbeat: now, ..r },
                    new_grant: false,
                }
            } else {
                AcquireView::Blocked { record: r }
            },
        }
    }

    /// The lease after an acquire by `holder` at `now`.
    pub open spec fn after_acquire(self, holder: Seq<char>, now: u64) -> GpuView {
        match self.acquire_answer(holder, now) {
            AcquireView::Granted { record, .. } => GpuView { lock: Some(record), ..self },
            AcquireView::Blocked { .. } => self,
        }
    }

    /// What a release by `holder` is answered.
    pub open spec fn release_answer(self, holder: Seq<char>) -> ReleaseView {
        match self.lock {
            Some(r) => if r.holder == holder {
                ReleaseView::Released
            } else {
                ReleaseView::Mismatch { record: r }
            },
            None => ReleaseView::Released,
        }
    }

    /// The lease after a release by `holder`.
    pub open spec fn after_release(self, holder: Seq<char>) -> GpuView {
        match self.release_answer(holder) {
            ReleaseView::Released => GpuView { lock: None, ..self },
            ReleaseView::Mismatch { .. } => self,
        }
    }

    /// The lease of a process that starts at `now` and finds `persisted` in its state file.
    pub open spec fn restarted(ttl: u64, persisted: Option<LockView>, now: u64) -> GpuView {
        GpuView { lock: (GpuView { lock: persisted, ttl }).active(now), ttl }
    }
}

/// The lease on the host's GPU. Whoever writes the state file at `state_path` writes
/// [`GpuExclusive::persisted`] after every acquire that was granted and every release that was
/// not refused.
#[derive(Debug)]
pub struct GpuExclusive {
    lock: Option<LockRecord>,
    ttl: u64,
    state_path: Option<String>,
}

impl View for GpuExclusive {
    type V = GpuView;

    closed spec fn view(&self) -> GpuView {
        GpuView { lock: lock_view(self.lock), ttl: self.ttl }
    }
}

impl GpuExclusive {
    /// Where the lease is kept across restarts, if anywhere.
    pub closed spec fn path(self) -> Option<Seq<char>> {
        opt_view(self.state_path)
    }

    /// A free GPU, with nothing kept across restarts.
    pub fn new(ttl: u64) -> (r: Self)
        ensures
            r@ == (GpuView { lock: None, ttl }),
            r.path() is None,
    {
        GpuExclusive { lock: None, ttl, state_path: None }
    }

    /// The lease of a process that starts at `now`. `persisted` is what the file at
    /// `state_path` held; an abandoned lease is dropped, and without a path there is none.
    pub fn with_state(
        ttl: u64,
        state_path: Option<String>,
        persisted: Option<LockRecord>,
        now: u64,
    ) -> (r: Self)
        ensures
            r@ == GpuView::restarted(
                ttl,
                if state_path is Some {
                    lock_view(persisted)
                } else {
                    None
                },
                now,
            ),
            r.path() == opt_view(state_path),
    {
        let lock = match persisted {
            Some(rec) => if state_path.is_none() || rec.is_expired(now, ttl) {
                None
            } else {
                Some(rec)
            },
            None => None,
        };
        GpuExclusive { lock, ttl, state_path }
    }

    /// The lease of a process that starts at `now` in the environment `env`. `persisted` is what
    /// the state file held.
    pub fn from_env(env: &Table, persisted: Option<LockRecord>, now: u64) -> (r: Self)
        ensures
            r@ == GpuView::restarted(
                positive_or(var(env@, "CHORD_GPU_EXCLUSIVE_TTL_SECS"@), DEFAULT_TTL_SECS),
                if crate::config::gpu_state_file(env@) is Some {
                    lock_view(persisted)
                } else {
                    None
                },
                now,
            ),
            r.path() == crate::config::gpu_state_file(env@),
    {
        let path = crate::config::gpu_exclusive_state_path(env);
        GpuExclusive::with_state(ttl_secs_from_env(env), path, persisted, now)
    }

    /// The time to live.
    pub fn ttl(&self) -> (r: u64)
        ensures
            r == self@.ttl,
    {
        self.ttl
    }

    /// The file that keeps the lease across restarts.
    pub fn state_path(&self) -> (r: Option<&String>)
        ensures
            r is Some <==> self.path() is Some,
            r matches Some(p) ==> self.path() == Some(p@),
    {
        self.state_path.as_ref()
    }

    /// What the state file has to say.
    pub fn persisted(&self) -> (r: Option<LockRecord>)
        ensures
            lock_view(r) == self@.lock,
    {
        match &self.lock {
            Some(r) => Some(r.clone()),
            None => None,
        }
    }

    /// The live lease that inference has to wait for, if there is one.
    pub fn active_holder(&self, now: u64) -> (r: Option<LockRecord>)
        ensures
            lock_view(r) == self@.active(now),
    {
        match &self.lock {
            Some(r) => if r.is_expired(now, self.ttl) {
                None
            } else {
                Some(r.clone())
            },
            None => None,
        }
    }

    /// An acquire by `holder` at `now`.
    pub fn acquire(&mut self, holder: &str, now: u64) -> (r: AcquireOutcome)
        ensures
            r@ == old(self)@.acquire_answer(holder@, now),
            final(self)@ == old(self)@.after_acquire(holder@, now),
            final(self).path() == old(self).path(),
    {
        match decide_acquire(self.lock.as_ref(), holder, now, self.ttl) {
            AcquireDecision::GrantNew => {
                let record = LockRecord {
                    holder: owned(holder),
                    acquired_at: now,
                    last_heartbeat: now,
                };
                self.lock = Some(record.clone());
                AcquireOutcome::Granted { record, new_grant: true }
            },
            AcquireDecision::Refresh => {
                let since: u64 = match &self.lock {
                    Some(r) => r.acquired_at,
                    None => now,
                };
                let record = LockRecord {
                    holder: owned(holder),
                    acquired_at: since,
                    last_heartbeat: now,
                };
                self.lock = Some(record.clone());
                AcquireOutcome::Granted { record, new_grant: false }
            },
            AcquireDecision::HeldBy { holder: by, since } => {
                let record = match &self.lock {
                    Some(r) => r.clone(),
                    None => LockRecord { holder: by, acquired_at: since, last_heartbeat: now },
                };
                AcquireOutcome::Blocked { record }
            },
        }
    }

    /// A release by `holder`.
    pub fn release(&mut self, holder: &str) -> (r: ReleaseOutcome)
        ensures
            r@ == old(self)@.release_answer(holder@),
            final(self)@ == old(self)@.after_release(holder@),
            final(self).path() == old(self).path(),
    {
        match decide_release(self.lock.as_ref(), holder) {
            ReleaseDecision::Release | ReleaseDecision::NotHeld => {
                self.lock = None;
                ReleaseOutcome::Released
            },
            ReleaseDecision::Mismatch { holder: by } => {
                let record = match &self.lock {
                    Some(r) => r.clone(),
                    None => LockRecord { holder: by, acquired_at: 0, last_heartbeat: 0 },
                };
                ReleaseOutcome::Mismatch { record }
            },
        }
    }

    /// The lease as it stands and whether it is abandoned at `now`.
    pub fn snapshot(&self, now: u64) -> (r: Option<(LockRecord, bool)>)
        ensures
            r is Some <==> self@.lock is Some,
            r matches Some((rec, gone)) ==> self@.lock == Some(rec@) && gone == rec@.expired(
                now,
                self@.ttl,
            ),
    {
        match &self.lock {
            Some(r) => Some((r.clone(), r.is_expired(now, self.ttl))),
            None => None,
        }
    }
}

/// Two holders never have the GPU at once: while a lease is live, an acquire by anyone else is
/// refused and changes nothing.
pub proof fn law_live_lease_excludes_others(gpu: GpuView, other: Seq<char>, now: u64)
    requires
        gpu.active(now) is Some,
        gpu.active(now)->0.holder != other,
    ensures
        gpu.acquire_answer(other, now) == (AcquireView::Blocked { record: gpu.lock->0 }),
        gpu.after_acquire(other, now) == gpu,
{
}

/// An abandoned lease never wedges the GPU: anyone is granted it afresh.
pub proof fn law_abandoned_lease_is_takeable(gpu: GpuView, holder: Seq<char>, now: u64)
    requires
        gpu.lock is Some,
        gpu.lock->0.expired(now, gpu.ttl),
    ensures
        gpu.active(now) is None,
        gpu.acquire_answer(holder, now) == (AcquireView::Granted {
            record: LockView { holder, acquired_at: now, last_heartbeat: now },
            new_grant: true,
        }),
{
}

/// A grant gates inference for exactly the time to live that follows it.
pub proof fn law_grant_gates_for_its_ttl(gpu: GpuView, holder: Seq<char>, now: u64, later: u64)
    requires
        gpu.acquire_answer(holder, now) is Granted,
        now <= later,
    ensures
        ({
            let held = gpu.after_acquire(holder, now);
            &&& later - now <= gpu.ttl ==> held.active(later) == held.lock
            &&& later - now > gpu.ttl ==> held.active(later) is None
            &&& held.lock is Some
            &&& held.lock->0.holder == holder
        }),
{
}

/// A renewal keeps the time of the first grant and moves the time of the last renewal.
pub proof fn law_renewal_keeps_the_first_grant(gpu: GpuView, now: u64)
    requires
        gpu.active(now) is Some,
    ensures
        ({
            let held = gpu.lock->0;
            let renewed = gpu.after_acquire(held.holder, now).lock->0;
            &&& renewed.holder == held.holder
            &&& renewed.acquired_at == held.acquired_at
            &&& renewed.last_heartbeat == now
        }),
{
}

/// A release never takes a lease from somebody else, and one's own is gone after it.
pub proof fn law_release_spares_others(gpu: GpuView, holder: Seq<char>, now: u64)
    ensures
        gpu.lock is Some && gpu.lock->0.holder != holder ==> gpu.after_release(holder) == gpu,
        gpu.lock is Some && gpu.lock->0.holder == holder ==> gpu.after_release(holder).active(now)
            is None,
        gpu.lock is None ==> gpu.after_release(holder) == gpu,
{
}

/// A restart honours exactly the live leases: what gated before the restart gates after it, and
/// what was abandoned is gone.
pub proof fn law_restart_keeps_live_leases(gpu: GpuView, now: u64)
    ensures
        GpuView::restarted(gpu.ttl, gpu.lock, now).active(now) == gpu.active(now),
        GpuView::restarted(gpu.ttl, gpu.lock, now).lock == gpu.active(now),
{
}

/// The base address of the local model server that `OLLAMA_URL` names.
pub fn ollama_base_from_env(env: &Table) -> (r: Option<String>)
    ensures
        opt_view(r) == filled(var(env@, "OLLAMA_URL"@)),
{
    filled_of(var_of(env, "OLLAMA_URL"))
}

/// Is `name` exempt from eviction?
pub fn is_keep_resident(name: &str, exempt: &[String]) -> (r: bool)
    ensures
        r == lists(exempt@, name@),
{
    listed(exempt, name)
}

/// The resident models to unload: named, and not exempt.
pub open spec fn evictable(resident: Seq<Seq<char>>, exempt: Seq<String>) -> Seq<Seq<char>> {
    resident.filter(|n: Seq<char>| n.len() > 0 && !lists(exempt, n))
}

/// The resident models to leave loaded: named, and exempt.
pub open spec fn exempted(resident: Seq<Seq<char>>, exempt: Seq<String>) -> Seq<Seq<char>> {
    resident.filter(|n: Seq<char>| n.len() > 0 && lists(exempt, n))
}

/// The resident models, parted into those to unload and those to keep, in order.
pub fn partition_evictable(resident: &[String], exempt: &[String]) -> (r: (
    Vec<String>,
    Vec<String>,
))
    ensures
        views(r.0@) == evictable(views(resident@), exempt@),
        views(r.1@) == exempted(views(resident@), exempt@),
{
    let mut to_evict: Vec<String> = Vec::new();
    let mut kept: Vec<String> = Vec::new();
    let mut i: usize = 0;
    let ghost names = views(resident@);
    proof {
        reveal(Seq::filter);
        assert(names.take(0) =~= Seq::<Seq<char>>::empty());
        assert(views(to_evict@) =~= evictable(names.take(0), exempt@));
        assert(views(kept@) =~= exempted(names.take(0), exempt@));
    }
    while i < resident.len()
        invariant
            i <= resident.len(),
            names == views(resident@),
            views(to_evict@) == evictable(names.take(i as int), exempt@),
            views(kept@) == exempted(names.take(i as int), exempt@),
        decreases resident.len() - i,
    {
        let name = &resident[i];
        proof {
            reveal(Seq::filter);
            assert(names[i as int] == name@);
            assert(names.take(i + 1).drop_last() =~= names.take(i as int));
            assert(names.take(i + 1).last() == name@);
        }
        if !name.as_str().is_empty() {
            if is_keep_resident(name.as_str(), exempt) {
                let ghost before = views(kept@);
                kept.push(name.clone());
                assert(views(kept@) =~= before.push(name@));
            } else {
                let ghost before = views(to_evict@);
                to_evict.push(name.clone());
                assert(views(to_evict@) =~= before.push(name@));
            }
        }
        i = i + 1;
    }
    assert(names.take(names.len() as int) =~= names);
    (to_evict, kept)
}

/// With nothing exempt every named resident model is unloaded and none is kept.
pub proof fn law_no_exemption_evicts_all(resident: Seq<Seq<char>>)
    ensures
        evictable(resident, Seq::empty()) == resident.filter(|n: Seq<char>| n.len() > 0),
        exempted(resident, Seq::empty()) == Seq::<Seq<char>>::empty(),
    decreases resident.len(),
{
    reveal(Seq::filter);
    if resident.len() > 0 {
        law_no_exemption_evicts_all(resident.drop_last());
    }
}

/// Is an HTTP status one of success?
pub open spec fn is_success(status: u16) -> bool {
    200 <= status < 300
}

/// What an eviction has to ask of the model server.
#[derive(Debug)]
pub struct EvictionPlan {
    /// Where each request goes.
    pub url: String,
    /// The models to unload, in order.
    pub to_evict: Vec<String>,
    /// The exempt models that stay loaded.
    pub kept: Vec<String>,
}

/// Plans the unloading of the models that the server at `ollama_base` reported as resident.
/// Where the report could not be had nothing is asked.
pub fn plan_eviction(
    ollama_base: &str,
    available: bool,
    resident: &[String],
    exempt: &[String],
) -> (r: EvictionPlan)
    ensures
        r.url@ == trim_end_slashes(ollama_base@) + "/api/generate"@,
        available ==> views(r.to_evict@) == evictable(views(resident@), exempt@) && views(r.kept@)
            == exempted(views(resident@), exempt@),
        !available ==> r.to_evict.len() == 0 && r.kept.len() == 0,
{
    let base = without_end_slashes(ollama_base);
    let url = join(base.as_str(), "/api/generate");
    if available {
        let (to_evict, kept) = partition_evictable(resident, exempt);
        EvictionPlan { url, to_evict, kept }
    } else {
        EvictionPlan { url, to_evict: Vec::new(), kept: Vec::new() }
    }
}

/// How many of the replies are successes. A request that got no reply counts as none.
pub open spec fn successes(replies: Seq<Option<u16>>) -> nat
    decreases replies.len(),
{
    if replies.len() == 0 {
        0
    } else {
        successes(replies.drop_last()) + match replies.last() {
            Some(status) => if is_success(status) {
                1nat
            } else {
                0nat
            },
            None => 0nat,
        }
    }
}

/// How many unload requests succeeded; `None` stands for a request that got no reply.
pub fn count_unloaded(replies: &[Option<u16>]) -> (r: usize)
    ensures
        r == successes(replies@),
{
    let mut n: usize = 0;
    let mut i: usize = 0;
    while i < replies.len()
        invariant
            i <= replies.len(),
            n == successes(replies@.take(i as int)),
            n <= i,
        decreases replies.len() - i,
    {
        proof {
            assert(replies@.take(i + 1).drop_last() =~= replies@.take(i as int));
            assert(replies@.take(i + 1).last() == replies@[i as int]);
        }
        match replies[i] {
            Some(status) => if 200 <= status && status < 300 {
                n = n + 1;
            },
            None => {},
        }
        i = i + 1;
    }
    assert(replies@.take(replies@.len() as int) =~= replies@);
    n
}

/// The body of a request that pins a model in memory.
#[derive(Debug, PartialEq, Eq)]
pub struct WarmBody {
    pub model: String,
    pub prompt: String,
    pub keep_alive: i64,
}

/// The body that pins a text model: an empty prompt, kept alive without end.
pub fn keep_resident_warm_body(model: &str) -> (r: WarmBody)
    ensures
        r.model@ == model@,
        r.prompt@ == Seq::<char>::empty(),
        r.keep_alive == -1,
{
    WarmBody { model: owned(model), prompt: String::new(), keep_alive: -1 }
}

/// The body that pins an embedding model: an empty prompt, kept alive without end.
pub fn keep_resident_embed_warm_body(model: &str) -> (r: WarmBody)
    ensures
        r.model@ == model@,
        r.prompt@ == Seq::<char>::empty(),
        r.keep_alive == -1,
{
    WarmBody { model: owned(model), prompt: String::new(), keep_alive: -1 }
}

/// Does the name say that this is an embedding model?
pub open spec fn names_embedding(name: Seq<char>) -> bool {
    contains(lower_ascii(name), "embed"@)
}

/// Does the name say that this is an embedding model?
pub fn is_embedding_model(name: &str) -> (r: bool)
    ensures
        r == names_embedding(name@),
{
    has(lowered(name).as_str(), "embed")
}

/// What pinning one model asks for next.
#[derive(Debug, Clone, Copy, PartialEq, Eq, Structural)]
pub enum WarmStep {
    /// Nothing to ask: the name is empty.
    Skip,
    /// Ask the text endpoint.
    AskGenerate,
    /// Ask the embedding endpoint.
    AskEmbeddings,
    /// The model is pinned.
    Warmed,
    /// The model is not pinned; go on with the next.
    GivenUp,
}

/// The first thing to ask for `model`: embedding models go straight to their own endpoint.
pub open spec fn first_warm_step(model: Seq<char>) -> WarmStep {
    if model.len() == 0 {
        WarmStep::Skip
    } else if names_embedding(model) {
        WarmStep::AskEmbeddings
    } else {
        WarmStep::AskGenerate
    }
}

/// What follows a reply. A text endpoint that answers 400 is the sign of an embedding model.
pub open spec fn next_warm_step(asked: WarmStep, reply: Option<u16>) -> WarmStep {
    match asked {
        WarmStep::AskGenerate => match reply {
            Some(status) => if is_success(status) {
                WarmStep::Warmed
            } else if status == 400 {
                WarmStep::AskEmbeddings
            } else {
                WarmStep::GivenUp
            },
            None => WarmStep::GivenUp,
        },
        WarmStep::AskEmbeddings => match reply {
            Some(status) => if is_success(status) {
                WarmStep::Warmed
            } else {
                WarmStep::GivenUp
            },
            None => WarmStep::GivenUp,
        },
        other => other,
    }
}

/// The first thing to ask for `model`.
pub fn start_warm(model: &str) -> (r: WarmStep)
    ensures
        r == first_warm_step(model@),
{
    if model.is_empty() {
        WarmStep::Skip
    } else if is_embedding_model(model) {
        WarmStep::AskEmbeddings
    } else {
        WarmStep::AskGenerate
    }
}

/// What follows the reply to `asked`; `None` stands for no reply.
pub fn continue_warm(asked: WarmStep, reply: Option<u16>) -> (r: WarmStep)
    ensures
        r == next_warm_step(asked, reply),
{
    let ok = match reply {
        Some(status) => 200 <= status && status < 300,
        None => false,
    };
    match asked {
        WarmStep::AskGenerate => if ok {
            WarmStep::Warmed
        } else {
            match reply {
                Some(status) => if status == 400 {
                    WarmStep::AskEmbeddings
                } else {
                    WarmStep::GivenUp
                },
                None => WarmStep::GivenUp,
            }
        },
        WarmStep::AskEmbeddings => if ok {
            WarmStep::Warmed
        } else {
            WarmStep::GivenUp
        },
        WarmStep::Skip => WarmStep::Skip,
        WarmStep::Warmed => WarmStep::Warmed,
        WarmStep::GivenUp => WarmStep::GivenUp,
    }
}

/// The path of the endpoint that a step asks.
pub open spec fn warm_path(step: WarmStep) -> Seq<char> {
    match step {
        WarmStep::AskEmbeddings => "/api/embeddings"@,
        _ => "/api/generate"@,
    }
}

/// The address that a step asks, on the server at `ollama_base`.
pub fn warm_url(ollama_base: &str, step: WarmStep) -> (r: String)
    ensures
        r@ == trim_end_slashes(ollama_base@) + warm_path(step),
        step == WarmStep::AskEmbeddings ==> r@ == trim_end_slashes(ollama_base@)
            + "/api/embeddings"@,
        step == WarmStep::AskGenerate ==> r@ == trim_end_slashes(ollama_base@) + "/api/generate"@,
{
    let base = without_end_slashes(ollama_base);
    match step {
        WarmStep::AskEmbeddings => join(base.as_str(), "/api/embeddings"),
        _ => join(base.as_str(), "/api/generate"),
    }
}

/// A pass over the models to pin: which one is asked for, what is asked, and how many are pinned.
#[derive(Debug, Clone, Copy, PartialEq, Eq, Structural)]
pub struct WarmWalk {
    pub at: usize,
    pub step: WarmStep,
    pub warmed: usize,
}

/// The pass at the first model from `at` on that has a name; at the end where there is none.
pub open spec fn walk_from(models: Seq<Seq<char>>, at: int, warmed: usize) -> WarmWalk
    decreases models.len() - at,
{
    if at >= models.len() {
        WarmWalk { at: models.len() as usize, step: WarmStep::Skip, warmed }
    } else if first_warm_step(models[at]) == WarmStep::Skip {
        walk_from(models, at + 1, warmed)
    } else {
        WarmWalk { at: at as usize, step: first_warm_step(models[at]), warmed }
    }
}

/// The pass after a reply to what it asks.
pub open spec fn walk_after(models: Seq<Seq<char>>, walk: WarmWalk, reply: Option<u16>) -> WarmWalk {
    match next_warm_step(walk.step, reply) {
        WarmStep::Warmed => walk_from(models, walk.at + 1, (walk.warmed + 1) as usize),
        WarmStep::AskGenerate => WarmWalk { step: WarmStep::AskGenerate, ..walk },
        WarmStep::AskEmbeddings => WarmWalk { step: WarmStep::AskEmbeddings, ..walk },
        _ => walk_from(models, walk.at + 1, walk.warmed),
    }
}

/// The pass asks something for a model, and has pinned none that it has not asked for.
pub open spec fn walking(models: Seq<Seq<char>>, walk: WarmWalk) -> bool {
    &&& walk.at < models.len()
    &&& walk.warmed <= walk.at
    &&& walk.step == WarmStep::AskGenerate || walk.step == WarmStep::AskEmbeddings
}

fn warm_from(models: &[String], from: usize, warmed: usize) -> (r: WarmWalk)
    ensures
        r == walk_from(views(models@), from as int, warmed),
{
    let ghost names = views(models@);
    let mut at: usize = from;
    while at < models.len()
        invariant
            names == views(models@),
            walk_from(names, from as int, warmed) == walk_from(names, at as int, warmed),
        decreases models.len() - at,
    {
        assert(names[at as int] == models@[at as int]@);
        let step = start_warm(models[at].as_str());
        if step != WarmStep::Skip {
            return WarmWalk { at, step, warmed };
        }
        at = at + 1;
    }
    WarmWalk { at: models.len(), step: WarmStep::Skip, warmed }
}

/// Starts a pass over the models to pin.
pub fn warm_keep_resident_models(models: &[String]) -> (r: WarmWalk)
    ensures
        r == walk_from(views(models@), 0, 0),
{
    warm_from(models, 0, 0)
}

/// What the pass sends next: the address and the body; nothing at its end.
pub fn warm_request(models: &[String], ollama_base: &str, walk: &WarmWalk) -> (r: Option<
    (String, WarmBody),
>)
    ensures
        match r {
            Some((url, body)) => {
                &&& walk.at < models@.len()
                &&& walk.step == WarmStep::AskGenerate || walk.step == WarmStep::AskEmbeddings
                &&& url@ == trim_end_slashes(ollama_base@) + warm_path(walk.step)
                &&& body.model@ == models@[walk.at as int]@
                &&& body.prompt@ == Seq::<char>::empty()
                &&& body.keep_alive == -1
            },
            None => !(walk.at < models@.len() && (walk.step == WarmStep::AskGenerate || walk.step
                == WarmStep::AskEmbeddings)),
        },
{
    if walk.at >= models.len() {
        return None;
    }
    let model = models[walk.at].as_str();
    match walk.step {
        WarmStep::AskGenerate => Some(
            (warm_url(ollama_base, walk.step), keep_resident_warm_body(model)),
        ),
        WarmStep::AskEmbeddings => Some(
            (warm_url(ollama_base, walk.step), keep_resident_embed_warm_body(model)),
        ),
        _ => None,
    }
}

/// The server has replied to what the pass asked; `None` stands for no reply.
pub fn warm_replied(models: &[String], walk: WarmWalk, reply: Option<u16>) -> (r: WarmWalk)
    requires
        walking(views(models@), walk),
    ensures
        r == walk_after(views(models@), walk, reply),
{
    let count: usize = models.len();
    assert(walk.at < count);
    match continue_warm(walk.step, reply) {
        WarmStep::Warmed => warm_from(models, walk.at + 1, walk.warmed + 1),
        WarmStep::AskGenerate => WarmWalk {
            at: walk.at,
            step: WarmStep::AskGenerate,
            warmed: walk.warmed,
        },
        WarmStep::AskEmbeddings => WarmWalk {
            at: walk.at,
            step: WarmStep::AskEmbeddings,
            warmed: walk.warmed,
        },
        _ => warm_from(models, walk.at + 1, walk.warmed),
    }
}

proof fn lemma_walk_from(models: Seq<Seq<char>>, at: int, warmed: usize)
    requires
        0 <= at,
        models.len() <= usize::MAX,
        warmed <= at,
        warmed <= models.len(),
    ensures
        walk_from(models, at, warmed).warmed == warmed,
        walk_from(models, at, warmed).at <= models.len(),
        at <= models.len() ==> at <= walk_from(models, at, warmed).at,
        walk_from(models, at, warmed).at < models.len() ==> walking(
            models,
            walk_from(models, at, warmed),
        ),
    decreases models.len() - at,
{
    if at < models.len() && first_warm_step(models[at]) == WarmStep::Skip {
        lemma_walk_from(models, at + 1, warmed);
    }
}

/// A pass starts well, goes on to a later model or to the other endpoint with every reply, and
/// never counts more models than it has asked for; so it ends.
pub proof fn law_warming_pass_ends(models: Seq<Seq<char>>, walk: WarmWalk, reply: Option<u16>)
    requires
        models.len() <= usize::MAX,
        walking(models, walk),
    ensures
        ({
            let start = walk_from(models, 0, 0);
            start.at == models.len() || walking(models, start)
        }),
        ({
            let next = walk_after(models, walk, reply);
            &&& next.at == models.len() || walking(models, next)
            &&& next.at > walk.at || (next.at == walk.at && walk.step == WarmStep::AskGenerate
                && next.step == WarmStep::AskEmbeddings)
            &&& walk.warmed <= next.warmed <= walk.warmed + 1
            &&& next.warmed <= models.len()
        }),
{
    lemma_walk_from(models, 0, 0);
    lemma_walk_from(models, walk.at + 1, walk.warmed);
    lemma_walk_from(models, walk.at + 1, (walk.warmed + 1) as usize);
}

/// A model whose name says that it embeds is never sent to the text endpoint, and every model
/// is done after two replies at most.
pub proof fn law_warming_ends_and_spares_embedders(
    model: Seq<char>,
    first: Option<u16>,
    second: Option<u16>,
)
    ensures
        names_embedding(model) ==> first_warm_step(model) != WarmStep::AskGenerate,
        names_embedding(model) ==> next_warm_step(first_warm_step(model), first)
            != WarmStep::AskGenerate,
        ({
            let done = next_warm_step(next_warm_step(first_warm_step(model), first), second);
            done is Skip || done is Warmed || done is GivenUp
        }),
        first is None && second is None ==> !(next_warm_step(
            next_warm_step(first_warm_step(model), first),
            second,
        ) is Warmed),
{
}

/// A lease is granted afresh on a free GPU and on one whose holder was not heard of for longer than
/// the time to live; within it the holder renews, and everyone else is told who holds it.
pub proof fn law_acquire_goes_by_the_last_renewal(gpu: GpuView, holder: Seq<char>, now: u64)
    ensures
        ({
            let answer = gpu.acquire_answer(holder, now);
            let next = gpu.after_acquire(holder, now);
            let fresh = LockView { holder, acquired_at: now, last_heartbeat: now };
            &&& next.ttl == gpu.ttl
            &&& gpu.lock is None ==> answer == (AcquireView::Granted {
                record: fresh,
                new_grant: true,
            }) && next.lock == Some(fresh)
            &&& gpu.lock matches Some(held) ==> if now - held.last_heartbeat > gpu.ttl {
                &&& answer == (AcquireView::Granted { record: fresh, new_grant: true })
                &&& next.lock == Some(fresh)
            } else if held.holder == holder {
                let renewed = LockView {
                    holder,
                    acquired_at: held.acquired_at,
                    last_heartbeat: now,
                };
                &&& answer == (AcquireView::Granted { record: renewed, new_grant: false })
                &&& next.lock == Some(renewed)
            } else {
                &&& answer == (AcquireView::Blocked { record: held })
                &&& next.lock == Some(held)
            }
        }),
{
}

/// A lease gates inference up to its time to live after the last renewal, and no longer. A clock
/// that stepped back expires nothing.
pub proof fn law_lease_gates_up_to_its_time(gpu: GpuView, now: u64)
    ensures
        gpu.lock is None ==> gpu.active(now) is None,
        gpu.lock is Some && now <= gpu.lock->0.last_heartbeat + gpu.ttl ==> gpu.active(now)
            == gpu.lock,
        gpu.lock is Some && now > gpu.lock->0.last_heartbeat + gpu.ttl ==> gpu.active(now) is None,
        gpu.lock is Some ==> (gpu.lock->0.expired(now, gpu.ttl) <==> now
            > gpu.lock->0.last_heartbeat + gpu.ttl),
{
}

/// A release is refused to whoever does not hold the lease, and told who does; the holder's own
/// frees the GPU, and so does one of a free GPU. The lease's age does not matter.
pub proof fn law_release_is_of_the_holder(gpu: GpuView, holder: Seq<char>)
    ensures
        gpu.lock is None || gpu.lock->0.holder == holder ==> gpu.release_answer(holder)
            == ReleaseView::Released && gpu.after_release(holder).lock is None,
        gpu.lock is Some && gpu.lock->0.holder != holder ==> gpu.release_answer(holder) == (
        ReleaseView::Mismatch { record: gpu.lock->0 }),
        gpu.after_release(holder).ttl == gpu.ttl,
{
}

/// An instant is told by its calendar text, and by the bare number where the calendar has none.
pub proof fn law_instants_are_told(epoch_secs: u64, text: Seq<char>)
    ensures
        instant_text(Some(text), epoch_secs) == text,
        instant_text(None, epoch_secs) == decimal(epoch_secs as nat),
        epoch_secs <= i64::MAX && rfc3339_utc(epoch_secs as i64) == Some(text) ==> iso_text(
            epoch_secs,
        ) == text,
        epoch_secs <= i64::MAX && rfc3339_utc(epoch_secs as i64) is None ==> iso_text(epoch_secs)
            == decimal(epoch_secs as nat),
        epoch_secs > i64::MAX ==> iso_text(epoch_secs) == decimal(epoch_secs as nat),
{
}

/// Without a setting that can be used, a lease lives for ten minutes.
pub proof fn law_unset_time_to_live(env: Map<Seq<char>, Seq<char>>)
    requires
        !env.contains_key("CHORD_GPU_EXCLUSIVE_TTL_SECS"@),
    ensures
        positive_or(var(env, "CHORD_GPU_EXCLUSIVE_TTL_SECS"@), DEFAULT_TTL_SECS) == 600,
{
}

/// Every resident model with a name is either unloaded or kept, in the order they were reported: it
/// is kept exactly where the exemptions name it.
pub proof fn law_every_model_is_evicted_or_kept(
    before: Seq<Seq<char>>,
    name: Seq<char>,
    exempt: Seq<String>,
)
    ensures
        ({
            let exempted_by_name = exists|k: int|
                0 <= k < exempt.len() && (#[trigger] exempt[k])@ == name;
            let all = before.push(name);
            &&& evictable(Seq::empty(), exempt) == Seq::<Seq<char>>::empty()
            &&& exempted(Seq::empty(), exempt) == Seq::<Seq<char>>::empty()
            &&& name.len() > 0 && !exempted_by_name ==> evictable(all, exempt) == evictable(
                before,
                exempt,
            ).push(name) && exempted(all, exempt) == exempted(before, exempt)
            &&& name.len() > 0 && exempted_by_name ==> exempted(all, exempt) == exempted(
                before,
                exempt,
            ).push(name) && evictable(all, exempt) == evictable(before, exempt)
            &&& name.len() == 0 ==> evictable(all, exempt) == evictable(before, exempt)
                && exempted(all, exempt) == exempted(before, exempt)
        }),
{
    reveal(Seq::filter);
    assert(before.push(name).drop_last() =~= before);
    assert(views(exempt).len() == exempt.len());
    assert forall|k: int| 0 <= k < exempt.len() implies views(exempt)[k] == (
    #[trigger] exempt[k])@ by {}
    if lists(exempt, name) {
        let k = choose|k: int| 0 <= k < exempt.len() && views(exempt)[k] == name;
        assert(exempt[k]@ == name);
    }
    if exists|k: int| 0 <= k < exempt.len() && (#[trigger] exempt[k])@ == name {
        let k = choose|k: int| 0 <= k < exempt.len() && (#[trigger] exempt[k])@ == name;
        assert(views(exempt)[k] == name);
    }
}

/// A reply is a success from 200 to 299, and every success counts for one; no reply counts for
/// nothing.
pub proof fn law_successes_are_counted(before: Seq<Option<u16>>, status: u16)
    ensures
        is_success(status) <==> 200 <= status <= 299,
        successes(Seq::empty()) == 0,
        200 <= status <= 299 ==> successes(before.push(Some(status))) == successes(before) + 1,
        !(200 <= status <= 299) ==> successes(before.push(Some(status))) == successes(before),
        successes(before.push(None)) == successes(before),
{
    assert(before.push(Some(status)).drop_last() =~= before);
    assert(before.push(None::<u16>).drop_last() =~= before);
}

/// A name says that a model embeds where it holds the word, in whatever case.
pub proof fn law_embedding_models_by_name(name: Seq<char>, at: int)
    ensures
        0 <= at <= at + 5 <= name.len() && lower_ascii(name.subrange(at, at + 5)) == "embed"@
            ==> names_embedding(name),
        names_embedding(name) ==> exists|k: int|
            0 <= k <= k + 5 <= name.len() && #[trigger] lower_ascii(name.subrange(k, k + 5))
                == "embed"@,
{
    reveal_strlit("embed");
    let low = lower_ascii(name);
    if 0 <= at <= at + 5 <= name.len() && lower_ascii(name.subrange(at, at + 5)) == "embed"@ {
        assert(low.subrange(at, at + 5) =~= lower_ascii(name.subrange(at, at + 5)));
        assert(crate::text::occurs_at(low, "embed"@, at));
    }
    if names_embedding(name) {
        let k = choose|k: int| crate::text::occurs_at(low, "embed"@, k);
        assert(lower_ascii(name.subrange(k, k + 5)) =~= low.subrange(k, k + 5));
    }
}

/// A model is pinned by a success of the endpoint that was asked, whichever that is, and by nothing
/// else. The text endpoint's 400 leads to the embedding endpoint; every other failure, and no reply
/// at all, gives the model up.
pub proof fn law_success_and_nothing_else_pins(asked: WarmStep, status: u16)
    requires
        asked == WarmStep::AskGenerate || asked == WarmStep::AskEmbeddings,
    ensures
        next_warm_step(asked, Some(status)) == WarmStep::Warmed <==> 200 <= status <= 299,
        next_warm_step(asked, Some(status)) == WarmStep::AskEmbeddings <==> status == 400 && asked
            == WarmStep::AskGenerate,
        next_warm_step(asked, Some(status)) == WarmStep::GivenUp <==> !(200 <= status <= 299) && !(
        status == 400 && asked == WarmStep::AskGenerate),
        next_warm_step(asked, None) == WarmStep::GivenUp,
{
}

/// A model without a name is skipped; one whose name says that it embeds is asked for at the
/// embedding endpoint, and any other at the text endpoint.
pub proof fn law_models_are_asked_for_at_their_endpoint(model: Seq<char>)
    ensures
        first_warm_step(model) == WarmStep::Skip <==> model.len() == 0,
        model.len() > 0 && contains(lower_ascii(model), "embed"@) ==> first_warm_step(model)
            == WarmStep::AskEmbeddings,
        model.len() > 0 && !contains(lower_ascii(model), "embed"@) ==> first_warm_step(model)
            == WarmStep::AskGenerate,
        warm_path(WarmStep::AskGenerate) == "/api/generate"@,
        warm_path(WarmStep::AskEmbeddings) == "/api/embeddings"@,
{
}

/// The pass stops at the next model that has a name, and passes over only those that have none; it
/// counts nothing on the way.
pub proof fn law_pass_goes_to_the_next_named_model(models: Seq<Seq<char>>, at: int, warmed: usize)
    requires
        0 <= at <= models.len() <= usize::MAX,
    ensures
        ({
            let walk = walk_from(models, at, warmed);
            &&& at <= walk.at <= models.len()
            &&& walk.warmed == warmed
            &&& forall|k: int| at <= k < walk.at ==> (#[trigger] models[k]).len() == 0
            &&& walk.at < models.len() ==> models[walk.at as int].len() > 0
            &&& walk.at < models.len() ==> walk.step == (if contains(
                lower_ascii(models[walk.at as int]),
                "embed"@,
            ) {
                WarmStep::AskEmbeddings
            } else {
                WarmStep::AskGenerate
            })
        }),
    decreases models.len() - at,
{
    if at < models.len() {
        law_models_are_asked_for_at_their_endpoint(models[at]);
        if first_warm_step(models[at]) == WarmStep::Skip {
            law_pass_goes_to_the_next_named_model(models, at + 1, warmed);
        }
    }
}

/// A reply moves the pass: a success counts the model and goes on, the text endpoint's 400 asks for
/// the same model at the embedding endpoint, and anything else goes on without counting.
pub proof fn law_reply_moves_the_pass(
    models: Seq<Seq<char>>,
    walk: WarmWalk,
    reply: Option<u16>,
)
    requires
        models.len() <= usize::MAX,
        walking(models, walk),
    ensures
        ({
            let next = walk_after(models, walk, reply);
            let pinned = reply is Some && 200 <= reply->0 <= 299;
            let other_endpoint = reply == Some(400u16) && walk.step == WarmStep::AskGenerate;
            &&& pinned ==> next.warmed == walk.warmed + 1
            &&& !pinned ==> next.warmed == walk.warmed
            &&& other_endpoint ==> next.at == walk.at && next.step == WarmStep::AskEmbeddings
            &&& !other_endpoint ==> next.at > walk.at && forall|k: int|
                walk.at < k < next.at ==> (#[trigger] models[k]).len() == 0
        }),
{
    lemma_walk_from(models, walk.at + 1, walk.warmed);
    lemma_walk_from(models, walk.at + 1, (walk.warmed + 1) as usize);
    law_pass_goes_to_the_next_named_model(models, walk.at + 1, walk.warmed);
    law_pass_goes_to_the_next_named_model(models, walk.at + 1, (walk.warmed + 1) as usize);
    if let Some(status) = reply {
        law_success_and_nothing_else_pins(walk.step, status);
    }
}

/// The pass after a sequence of replies.
pub open spec fn walked(models: Seq<Seq<char>>, replies: Seq<Option<u16>>) -> WarmWalk
    decreases replies.len(),
{
    if replies.len() == 0 {
        walk_from(models, 0, 0)
    } else {
        walk_after(models, walked(models, replies.drop_last()), replies.last())
    }
}

/// The count at the end of a pass is the number of models that got a success from an endpoint that
/// was asked for them: every success counts one, and the pass then goes on to another model.
pub proof fn law_pass_counts_the_pinned_models(models: Seq<Seq<char>>, replies: Seq<Option<u16>>)
    requires
        models.len() <= usize::MAX,
        forall|k: int|
            0 <= k < replies.len() ==> walking(models, #[trigger] walked(models, replies.take(k))),
    ensures
        walked(models, replies).warmed == replies.filter(
            |r: Option<u16>| r is Some && 200 <= r->0 <= 299,
        ).len(),
    decreases replies.len(),
{
    reveal(Seq::filter);
    lemma_walk_from(models, 0, 0);
    if replies.len() > 0 {
        let head = replies.drop_last();
        assert forall|k: int| 0 <= k < head.len() implies walking(
            models,
            #[trigger] walked(models, head.take(k)),
        ) by {
            assert(head.take(k) =~= replies.take(k));
        }
        law_pass_counts_the_pinned_models(models, head);
        assert(replies.take(head.len() as int) =~= head);
        assert(walking(models, walked(models, replies.take(head.len() as int))));
        law_reply_moves_the_pass(models, walked(models, head), replies.last());
    }
}

} // verus!
