//! Idle mode: the proxy stops serving, gives its memory and GPU to a build, and comes back.
//!
//! The controller is a state machine. Entering idle and activating are transitions of their own,
//! claimed before any work is done; each carries a generation, so that a transition that was
//! overtaken can neither finish nor roll back a later one.
use vstd::prelude::*;

use crate::table::Table;
use crate::text::{copied, opt_view, views};

verus! {

/// What an idle episode leaves behind for the return to service. `G` is a memory size as the
/// host samples it; nothing here computes with it.
#[derive(Debug, PartialEq)]
pub struct ResumeManifest<G> {
    /// Who asked for idle mode.
    pub reason: String,
    /// When idle mode was entered, in epoch seconds.
    pub entered_at: u64,
    /// When the watchdog may end it, in epoch seconds.
    pub watchdog_deadline: u64,
    /// The models that were loaded at the time.
    pub resident_models: Vec<String>,
    /// The memory that was available before the release.
    pub mem_available_before_gb: G,
    /// Which idle episode this is: the generation of the transition that began it.
    pub episode: u64,
}

/// What a manifest says.
pub ghost struct ManifestView<G> {
    pub reason: Seq<char>,
    pub entered_at: u64,
    pub watchdog_deadline: u64,
    pub resident_models: Seq<Seq<char>>,
    pub mem_available_before_gb: G,
    pub episode: u64,
}

impl<G> View for ResumeManifest<G> {
    type V = ManifestView<G>;

    open spec fn view(&self) -> ManifestView<G> {
        ManifestView {
            reason: self.reason@,
            entered_at: self.entered_at,
            watchdog_deadline: self.watchdog_deadline,
            resident_models: views(self.resident_models@),
            mem_available_before_gb: self.mem_available_before_gb,
            episode: self.episode,
        }
    }
}

/// The view of an optional manifest.
pub open spec fn manifest_view<G>(m: Option<ResumeManifest<G>>) -> Option<ManifestView<G>> {
    match m {
        Some(m) => Some(m@),
        None => None,
    }
}

impl<G: Copy> Clone for ResumeManifest<G> {
    fn clone(&self) -> (r: Self)
        ensures
            r@ == self@,
    {
        ResumeManifest {
            reason: self.reason.clone(),
            entered_at: self.entered_at,
            watchdog_deadline: self.watchdog_deadline,
            resident_models: copied(self.resident_models.as_slice()),
            mem_available_before_gb: self.mem_available_before_gb,
            episode: self.episode,
        }
    }
}

impl<G> ResumeManifest<G> {
    /// Has the watchdog's deadline passed?
    pub fn watchdog_expired(&self, now: u64) -> (r: bool)
        ensures
            r == (now >= self@.watchdog_deadline),
    {
        now >= self.watchdog_deadline
    }
}

/// What a request to go idle finds.
#[derive(Debug, Clone, Copy, PartialEq, Eq, Structural)]
pub enum EnterDecision {
    /// In service: release and go idle.
    Enter,
    /// Idle already: nothing to do.
    AlreadyIdle,
}

/// Decides a request to go idle.
pub fn decide_enter<G>(current: Option<&ResumeManifest<G>>) -> (r: EnterDecision)
    ensures
        r == (if current is None {
            EnterDecision::Enter
        } else {
            EnterDecision::AlreadyIdle
        }),
{
    match current {
        None => EnterDecision::Enter,
        Some(_) => EnterDecision::AlreadyIdle,
    }
}

/// What a request to activate finds.
#[derive(Debug, Clone, Copy, PartialEq, Eq, Structural)]
pub enum ActivateDecision {
    /// Idle: restore service.
    Restore,
    /// In service already: nothing to do.
    AlreadyActive,
}

/// Decides a request to activate.
pub fn decide_activate<G>(current: Option<&ResumeManifest<G>>) -> (r: ActivateDecision)
    ensures
        r == (if current is None {
            ActivateDecision::AlreadyActive
        } else {
            ActivateDecision::Restore
        }),
{
    match current {
        Some(_) => ActivateDecision::Restore,
        None => ActivateDecision::AlreadyActive,
    }
}

/// What a request that arrives in idle mode does.
#[derive(Debug, Clone, Copy, PartialEq, Eq, Structural)]
pub enum LazyAction {
    /// Restore service and serve it.
    Restore,
    /// Turn it away: a build still needs the host.
    PreserveIdle,
}

/// Decides what a request that arrives in idle mode does.
pub fn lazy_action(compiler_lease_held: bool) -> (r: LazyAction)
    ensures
        r == (if compiler_lease_held {
            LazyAction::PreserveIdle
        } else {
            LazyAction::Restore
        }),
{
    if compiler_lease_held {
        LazyAction::PreserveIdle
    } else {
        LazyAction::Restore
    }
}

/// Whether something is being served, and for how long nothing has been. A last activity in the
/// future reads as just now.
pub open spec fn activity(inflight: usize, last_activity_unix: i64, now: i64) -> (bool, u64) {
    let quiet = now - last_activity_unix;
    if inflight > 0 {
        (true, 0)
    } else if quiet <= 0 {
        (false, 0)
    } else if quiet > i64::MAX {
        (false, i64::MAX as u64)
    } else {
        (false, quiet as u64)
    }
}

/// Whether something is being served, and for how many seconds nothing has been.
pub fn activity_summary(inflight: usize, last_activity_unix: i64, now: i64) -> (r: (bool, u64))
    ensures
        r == activity(inflight, last_activity_unix, now),
{
    let serving = inflight > 0;
    let idle_secs: u64 = if serving || now <= last_activity_unix {
        0
    } else {
        let quiet: i128 = now as i128 - last_activity_unix as i128;
        if quiet > i64::MAX as i128 {
            i64::MAX as u64
        } else {
            quiet as u64
        }
    };
    (serving, idle_secs)
}

/// The phases of idle mode.
#[derive(Debug, Clone, Copy, PartialEq, Eq, Structural)]
pub enum Phase {
    Active,
    EnteringIdle,
    Idle,
    Activating,
}

/// The state of the machine. The two transitions carry when they began and their generation.
#[derive(Debug)]
enum IdleState<G> {
    Active,
    EnteringIdle { since: u64, generation: u64 },
    Idle(ResumeManifest<G>),
    Activating { since: u64, generation: u64, manifest: ResumeManifest<G> },
}

/// What the state of the machine says.
pub ghost enum StateView<G> {
    Active,
    EnteringIdle { since: u64, generation: u64 },
    Idle(ManifestView<G>),
    Activating { since: u64, generation: u64, manifest: ManifestView<G> },
}

impl<G> IdleState<G> {
    closed spec fn view(&self) -> StateView<G> {
        match self {
            IdleState::Active => StateView::Active,
            IdleState::EnteringIdle { since, generation } => StateView::EnteringIdle {
                since: *since,
                generation: *generation,
            },
            IdleState::Idle(m) => StateView::Idle(m@),
            IdleState::Activating { since, generation, manifest } => StateView::Activating {
                since: *since,
                generation: *generation,
                manifest: manifest@,
            },
        }
    }

    fn phase(&self) -> (r: Phase)
        ensures
            r == self@.phase(),
    {
        match self {
            IdleState::Active => Phase::Active,
            IdleState::EnteringIdle { .. } => Phase::EnteringIdle,
            IdleState::Idle(_) => Phase::Idle,
            IdleState::Activating { .. } => Phase::Activating,
        }
    }

    fn transition_since(&self) -> (r: Option<u64>)
        ensures
            r == self@.transition_since(),
    {
        match self {
            IdleState::EnteringIdle { since, .. } => Some(*since),
            IdleState::Activating { since, .. } => Some(*since),
            _ => None,
        }
    }
}

impl<G> StateView<G> {
    /// The phase of this state.
    pub open spec fn phase(self) -> Phase {
        match self {
            StateView::Active => Phase::Active,
            StateView::EnteringIdle { .. } => Phase::EnteringIdle,
            StateView::Idle(_) => Phase::Idle,
            StateView::Activating { .. } => Phase::Activating,
        }
    }

    /// When the transition in progress began.
    pub open spec fn transition_since(self) -> Option<u64> {
        match self {
            StateView::EnteringIdle { since, .. } => Some(since),
            StateView::Activating { since, .. } => Some(since),
            _ => None,
        }
    }

    /// The generation of the transition in progress.
    pub open spec fn generation(self) -> Option<u64> {
        match self {
            StateView::EnteringIdle { generation, .. } => Some(generation),
            StateView::Activating { generation, .. } => Some(generation),
            _ => None,
        }
    }

    /// The manifest, while idle or on the way back.
    pub open spec fn manifest(self) -> Option<ManifestView<G>> {
        match self {
            StateView::Idle(m) => Some(m),
            StateView::Activating { manifest, .. } => Some(manifest),
            _ => None,
        }
    }

    /// What the state file has to say: only full idleness outlives the process.
    pub open spec fn persisted(self) -> Option<ManifestView<G>> {
        match self {
            StateView::Idle(m) => Some(m),
            _ => None,
        }
    }
}

/// The counter value after `n`.
pub open spec fn next_u64(n: u64) -> u64 {
    if n == u64::MAX {
        0
    } else {
        (n + 1) as u64
    }
}

fn following(n: u64) -> (r: u64)
    ensures
        r == next_u64(n),
{
    if n == u64::MAX {
        0
    } else {
        n + 1
    }
}

/// What a request to begin entering idle is answered.
#[derive(Debug, PartialEq)]
pub enum BeginEnter<G> {
    /// The transition is claimed: release, then commit it.
    Begin,
    /// Idle already.
    AlreadyIdle(ResumeManifest<G>),
    /// Another transition is in progress.
    InTransition,
}

/// What a request to begin activating is answered.
#[derive(Debug, PartialEq)]
pub enum BeginActivate<G> {
    /// The transition is claimed: finish it.
    Begin(ResumeManifest<G>),
    /// In service already.
    AlreadyActive,
    /// Another transition is in progress.
    InTransition,
    /// The state file could not be cleared; still idle.
    PersistFailed,
    /// Idle, but in another episode than the one that was decided about.
    Superseded,
}

/// What came of entering idle.
#[derive(Debug, PartialEq)]
pub enum EnterOutcome<G> {
    Entered(ResumeManifest<G>),
    AlreadyIdle(ResumeManifest<G>),
    InTransition,
}

/// What came of activating.
#[derive(Debug, PartialEq)]
pub enum ActivateOutcome<G> {
    Activated(ResumeManifest<G>),
    AlreadyActive,
    InTransition,
    /// The state file could not be cleared; still idle.
    PersistFailed,
}

/// What [`EnterOutcome`] says.
pub ghost enum EnterView<G> {
    Entered(ManifestView<G>),
    AlreadyIdle(ManifestView<G>),
    InTransition,
}

impl<G> View for EnterOutcome<G> {
    type V = EnterView<G>;

    open spec fn view(&self) -> EnterView<G> {
        match self {
            EnterOutcome::Entered(m) => EnterView::Entered(m@),
            EnterOutcome::AlreadyIdle(m) => EnterView::AlreadyIdle(m@),
            EnterOutcome::InTransition => EnterView::InTransition,
        }
    }
}

/// Why a transition into idle could not begin.
pub ghost enum EnterRefusal<G> {
    AlreadyIdle(ManifestView<G>),
    InTransition,
}

/// Why an activation could not begin.
#[derive(Debug, Clone, Copy, PartialEq, Eq, Structural)]
pub enum ActivateRefusal {
    AlreadyActive,
    InTransition,
    PersistFailed,
    Superseded,
}

impl<G> BeginEnter<G> {
    /// This is the refusal `why`.
    pub open spec fn refuses(self, why: EnterRefusal<G>) -> bool {
        match self {
            BeginEnter::Begin => false,
            BeginEnter::AlreadyIdle(m) => why == EnterRefusal::AlreadyIdle(m@),
            BeginEnter::InTransition => why == EnterRefusal::<G>::InTransition,
        }
    }
}

impl<G> BeginActivate<G> {
    /// This is the refusal `why`.
    pub open spec fn refuses(self, why: ActivateRefusal) -> bool {
        match self {
            BeginActivate::Begin(_) => false,
            BeginActivate::AlreadyActive => why is AlreadyActive,
            BeginActivate::InTransition => why is InTransition,
            BeginActivate::PersistFailed => why is PersistFailed,
            BeginActivate::Superseded => why is Superseded,
        }
    }
}

impl<G> ActivateOutcome<G> {
    /// This is what a request is answered whose activation could not begin for `why`.
    pub open spec fn reports(self, why: ActivateRefusal) -> bool {
        match why {
            ActivateRefusal::AlreadyActive => self is AlreadyActive,
            ActivateRefusal::PersistFailed => self is PersistFailed,
            ActivateRefusal::InTransition => self is InTransition,
            ActivateRefusal::Superseded => self is InTransition,
        }
    }
}

/// A claim on one place among the requests in flight, handed back when the request ends.
#[must_use]
#[derive(Debug)]
pub struct InflightGuard(());

/// What a new request meets.
#[derive(Debug)]
pub enum AdmitOutcome {
    /// Admitted and counted.
    Admitted(InflightGuard),
    /// The proxy is idle.
    Idle,
    /// A transition is in progress; ask again.
    Transitioning,
}

/// A claimed transition into idle. It is committed or abandoned, once.
#[must_use]
#[derive(Debug)]
pub struct EnterTransition {
    generation: u64,
}

impl EnterTransition {
    /// The generation of this transition.
    pub closed spec fn gen(self) -> u64 {
        self.generation
    }

    /// The generation of this transition.
    pub fn generation(&self) -> (r: u64)
        ensures
            r == self.gen(),
    {
        self.generation
    }

    /// Completes the transition. Where it was overtaken nothing is stored.
    pub fn commit<G: Copy>(self, ctl: &mut IdleController<G>, manifest: ResumeManifest<G>) -> (r:
        Option<ResumeManifest<G>>)
        ensures
            final(ctl)@ == old(ctl)@.finish_enter(self.gen(), manifest@).0,
            manifest_view(r) == old(ctl)@.finish_enter(self.gen(), manifest@).1,
            final(ctl).path() == old(ctl).path(),
    {
        ctl.finish_enter(self.generation, manifest)
    }

    /// Gives the transition up: back to service, unless it was overtaken. Says whether it was
    /// still the one in progress.
    pub fn abandon<G: Copy>(self, ctl: &mut IdleController<G>) -> (r: bool)
        ensures
            final(ctl)@ == old(ctl)@.abort_enter(self.gen()).0,
            r == old(ctl)@.abort_enter(self.gen()).1,
            final(ctl).path() == old(ctl).path(),
    {
        ctl.abort_enter(self.generation)
    }
}

/// All that the controller knows.
pub ghost struct ControllerView<G> {
    pub state: StateView<G>,
    pub inflight: usize,
    pub last_activity: i64,
    pub next_gen: u64,
    /// The state is kept in a file.
    pub durable: bool,
}

impl<G> ControllerView<G> {
    /// In service, with nothing in flight, last active at `now`.
    pub open spec fn started(state: StateView<G>, durable: bool, now: u64) -> Self {
        ControllerView { state, inflight: 0, last_activity: now as i64, next_gen: 0, durable }
    }

    /// A restart at `now` that finds `persisted` in the state file.
    pub open spec fn restarted(durable: bool, persisted: Option<ManifestView<G>>, now: u64) -> Self {
        ControllerView::started(
            match persisted {
                Some(m) => if durable {
                    StateView::Idle(m)
                } else {
                    StateView::Active
                },
                None => StateView::Active,
            },
            durable,
            now,
        )
    }

    /// A request arrives at `now`.
    pub open spec fn arrive(self, now: u64) -> Self {
        match self.state {
            StateView::Active => ControllerView {
                inflight: if self.inflight == usize::MAX {
                    0
                } else {
                    (self.inflight + 1) as usize
                },
                last_activity: now as i64,
                ..self
            },
            _ => self,
        }
    }

    /// A request ends.
    pub open spec fn end_request(self) -> Self {
        ControllerView {
            inflight: if self.inflight == 0 {
                usize::MAX
            } else {
                (self.inflight - 1) as usize
            },
            ..self
        }
    }

    /// Claims the transition into idle at `now`: the generation, or why not.
    pub open spec fn begin_enter(self, now: u64) -> (Self, Result<u64, EnterRefusal<G>>) {
        match self.state {
            StateView::Active => (
                ControllerView {
                    state: StateView::EnteringIdle { since: now, generation: self.next_gen },
                    next_gen: next_u64(self.next_gen),
                    ..self
                },
                Ok(self.next_gen),
            ),
            StateView::Idle(m) => (self, Err(EnterRefusal::AlreadyIdle(m))),
            _ => (self, Err(EnterRefusal::InTransition)),
        }
    }

    /// Completes the transition into idle of that generation, if it is the one in progress.
    pub open spec fn finish_enter(self, generation: u64, manifest: ManifestView<G>) -> (
        Self,
        Option<ManifestView<G>>,
    ) {
        let stamped = ManifestView { episode: generation, ..manifest };
        match self.state {
            StateView::EnteringIdle { generation: live, .. } => if live == generation {
                (ControllerView { state: StateView::Idle(stamped), ..self }, Some(stamped))
            } else {
                (self, None)
            },
            _ => (self, None),
        }
    }

    /// Rolls back the transition into idle of that generation, if it is the one in progress.
    pub open spec fn abort_enter(self, generation: u64) -> (Self, bool) {
        match self.state {
            StateView::EnteringIdle { generation: live, .. } => if live == generation {
                (ControllerView { state: StateView::Active, ..self }, true)
            } else {
                (self, false)
            },
            _ => (self, false),
        }
    }

    /// An activation of episode `expected` (of any, where `None`) has to clear the state file
    /// first.
    pub open spec fn must_clear(self, expected: Option<u64>) -> bool {
        match self.state {
            StateView::Idle(m) => self.durable && (expected matches Some(e) ==> m.episode == e),
            _ => false,
        }
    }

    /// Claims the activation at `now`. `cleared` says whether the state file, where there is
    /// one, was cleared.
    pub open spec fn begin_activate(self, expected: Option<u64>, cleared: bool, now: u64) -> (
        Self,
        Result<(ManifestView<G>, u64), ActivateRefusal>,
    ) {
        match self.state {
            StateView::Idle(m) => if expected is Some && m.episode != expected->0 {
                (self, Err(ActivateRefusal::Superseded))
            } else if self.durable && !cleared {
                (self, Err(ActivateRefusal::PersistFailed))
            } else {
                (
                    ControllerView {
                        state: StateView::Activating {
                            since: now,
                            generation: self.next_gen,
                            manifest: m,
                        },
                        next_gen: next_u64(self.next_gen),
                        ..self
                    },
                    Ok((m, self.next_gen)),
                )
            },
            StateView::Active => (self, Err(ActivateRefusal::AlreadyActive)),
            _ => (self, Err(ActivateRefusal::InTransition)),
        }
    }

    /// Completes the activation of that generation, if it is the one in progress.
    pub open spec fn finish_activate(self, generation: u64) -> (Self, bool) {
        match self.state {
            StateView::Activating { generation: live, .. } => if live == generation {
                (ControllerView { state: StateView::Active, ..self }, true)
            } else {
                (self, false)
            },
            _ => (self, false),
        }
    }

    /// Resolves a transition that has been in progress for `max_age` seconds or more.
    pub open spec fn recover(self, now: u64, max_age: u64) -> (Self, bool) {
        match self.state.transition_since() {
            Some(since) => {
                let age = if now >= since {
                    now - since
                } else {
                    0
                };
                if age >= max_age {
                    (
                        ControllerView {
                            state: StateView::Active,
                            next_gen: next_u64(self.next_gen),
                            ..self
                        },
                        true,
                    )
                } else {
                    (self, false)
                }
            },
            None => (self, false),
        }
    }

    /// Enters idle in one go.
    pub open spec fn enter(self, manifest: ManifestView<G>, now: u64) -> (Self, EnterView<G>) {
        let (begun, claim) = self.begin_enter(now);
        match claim {
            Ok(generation) => {
                let (next, stored) = begun.finish_enter(generation, manifest);
                match stored {
                    Some(m) => (next, EnterView::Entered(m)),
                    None => (next, EnterView::InTransition),
                }
            },
            Err(EnterRefusal::AlreadyIdle(m)) => (begun, EnterView::AlreadyIdle(m)),
            Err(EnterRefusal::InTransition) => (begun, EnterView::InTransition),
        }
    }

    /// Activates episode `expected` (any, where `None`) in one go.
    pub open spec fn exit(self, expected: Option<u64>, cleared: bool, now: u64) -> (
        Self,
        Result<ManifestView<G>, ActivateRefusal>,
    ) {
        let (begun, claim) = self.begin_activate(expected, cleared, now);
        match claim {
            Ok((m, generation)) => (begun.finish_activate(generation).0, Ok(m)),
            Err(why) => (begun, Err(why)),
        }
    }
}

/// The controller of idle mode. Whoever writes the state file at its path writes
/// [`IdleController::persisted`] after every transition that was completed, rolled back or
/// resolved, and clears it before an activation ([`IdleController::must_clear`]).
#[derive(Debug)]
pub struct IdleController<G> {
    state: IdleState<G>,
    inflight: usize,
    last_activity: i64,
    next_gen: u64,
    state_path: Option<String>,
}

impl<G> View for IdleController<G> {
    type V = ControllerView<G>;

    closed spec fn view(&self) -> ControllerView<G> {
        ControllerView {
            state: self.state@,
            inflight: self.inflight,
            last_activity: self.last_activity,
            next_gen: self.next_gen,
            durable: self.state_path is Some,
        }
    }
}

impl<G: Copy> IdleController<G> {
    /// Where the state is kept across restarts, if anywhere.
    pub closed spec fn path(self) -> Option<Seq<char>> {
        opt_view(self.state_path)
    }

    /// A proxy in service that keeps nothing across restarts.
    pub fn new(now: u64) -> (r: Self)
        ensures
            r@ == ControllerView::<G>::started(StateView::Active, false, now),
            r.path() is None,
            r@.state is Active,
            r@.inflight == 0,
    {
        IdleController {
            state: IdleState::Active,
            inflight: 0,
            last_activity: now as i64,
            next_gen: 0,
            state_path: None,
        }
    }

    /// A proxy that starts at `now`. `persisted` is what the file at `state_path` held.
    pub fn with_state(
        state_path: Option<String>,
        persisted: Option<ResumeManifest<G>>,
        now: u64,
    ) -> (r: Self)
        ensures
            r@ == ControllerView::restarted(state_path is Some, manifest_view(persisted), now),
            r.path() == opt_view(state_path),
    {
        let state = match persisted {
            Some(m) => if state_path.is_some() {
                IdleState::Idle(m)
            } else {
                IdleState::Active
            },
            None => IdleState::Active,
        };
        IdleController { state, inflight: 0, last_activity: now as i64, next_gen: 0, state_path }
    }

    /// A proxy that starts at `now` in the environment `env`. `persisted` is what the state file
    /// held.
    pub fn from_env(env: &Table, persisted: Option<ResumeManifest<G>>, now: u64) -> (r: Self)
        ensures
            r@ == ControllerView::restarted(
                crate::config::idle_state_file(env@) is Some,
                manifest_view(persisted),
                now,
            ),
            r.path() == crate::config::idle_state_file(env@),
    {
        IdleController::with_state(crate::config::admin_idle_state_path(env), persisted, now)
    }

    /// The file that keeps the state across restarts.
    pub fn state_path(&self) -> (r: Option<&String>)
        ensures
            r is Some <==> self.path() is Some,
            r matches Some(p) ==> self.path() == Some(p@),
    {
        self.state_path.as_ref()
    }

    /// What the state file has to say.
    pub fn persisted(&self) -> (r: Option<ResumeManifest<G>>)
        ensures
            manifest_view(r) == self@.state.persisted(),
    {
        match &self.state {
            IdleState::Idle(m) => Some(m.clone()),
            _ => None,
        }
    }

    /// The current phase.
    pub fn phase(&self) -> (r: Phase)
        ensures
            r == self@.state.phase(),
    {
        self.state.phase()
    }

    /// Is the proxy fully idle?
    pub fn is_idle(&self) -> (r: bool)
        ensures
            r == (self@.state is Idle),
    {
        match &self.state {
            IdleState::Idle(_) => true,
            _ => false,
        }
    }

    /// The manifest, while idle or on the way back.
    pub fn snapshot(&self) -> (r: Option<ResumeManifest<G>>)
        ensures
            manifest_view(r) == self@.state.manifest(),
    {
        match &self.state {
            IdleState::Idle(m) => Some(m.clone()),
            IdleState::Activating { manifest, .. } => Some(manifest.clone()),
            _ => None,
        }
    }

    /// A request arrives at `now`. It is counted if and only if it is admitted.
    pub fn try_admit(&mut self, now: u64) -> (r: AdmitOutcome)
        ensures
            final(self)@ == old(self)@.arrive(now),
            final(self).path() == old(self).path(),
            r is Admitted <==> old(self)@.state is Active,
            r is Idle <==> old(self)@.state is Idle,
            r is Admitted && old(self)@.inflight < usize::MAX ==> final(self)@.inflight == old(
                self,
            )@.inflight + 1,
            !(r is Admitted) ==> final(self)@ == old(self)@,
    {
        match &self.state {
            IdleState::Active => {
                self.last_activity = now as i64;
                self.inflight = if self.inflight == usize::MAX {
                    0
                } else {
                    self.inflight + 1
                };
                AdmitOutcome::Admitted(InflightGuard(()))
            },
            IdleState::Idle(_) => AdmitOutcome::Idle,
            _ => AdmitOutcome::Transitioning,
        }
    }

    /// A request that was admitted ends.
    pub fn end_request(&mut self, guard: InflightGuard)
        ensures
            final(self)@ == old(self)@.end_request(),
            final(self).path() == old(self).path(),
            old(self)@.inflight > 0 ==> final(self)@.inflight == old(self)@.inflight - 1,
            final(self)@.state == old(self)@.state,
    {
        self.inflight = if self.inflight == 0 {
            usize::MAX
        } else {
            self.inflight - 1
        };
    }

    /// How many requests are in flight.
    pub fn inflight_count(&self) -> (r: usize)
        ensures
            r == self@.inflight,
    {
        self.inflight
    }

    /// When a request was last admitted, or the proxy started.
    pub fn last_activity_unix(&self) -> (r: i64)
        ensures
            r == self@.last_activity,
    {
        self.last_activity
    }

    /// One look at a drain: how many requests are left when it is over, or `None` to look again.
    /// It is over when nothing is in flight or the time is up.
    pub fn drain_inflight(&self, time_is_up: bool) -> (r: Option<usize>)
        ensures
            r == (if self@.inflight == 0 || time_is_up {
                Some(self@.inflight)
            } else {
                None
            }),
    {
        if self.inflight == 0 || time_is_up {
            Some(self.inflight)
        } else {
            None
        }
    }

    fn begin_enter_inner(&mut self, now: u64) -> (r: Result<u64, BeginEnter<G>>)
        ensures
            final(self)@ == old(self)@.begin_enter(now).0,
            final(self).path() == old(self).path(),
            match old(self)@.begin_enter(now).1 {
                Ok(generation) => r == Ok::<u64, BeginEnter<G>>(generation),
                Err(why) => r is Err && r->Err_0.refuses(why),
            },
    {
        match &self.state {
            IdleState::Active => {
                let generation: u64 = self.next_gen;
                self.next_gen = following(generation);
                self.state = IdleState::EnteringIdle { since: now, generation };
                Ok(generation)
            },
            IdleState::Idle(m) => Err(BeginEnter::AlreadyIdle(m.clone())),
            _ => Err(BeginEnter::InTransition),
        }
    }

    /// Claims the transition into idle at `now`.
    pub fn begin_enter(&mut self, now: u64) -> (r: BeginEnter<G>)
        ensures
            final(self)@ == old(self)@.begin_enter(now).0,
            final(self).path() == old(self).path(),
            match old(self)@.begin_enter(now).1 {
                Ok(_) => r is Begin,
                Err(why) => r.refuses(why),
            },
            r is Begin <==> old(self)@.state is Active,
            r is AlreadyIdle <==> old(self)@.state is Idle,
            r is AlreadyIdle ==> r->AlreadyIdle_0@ == old(self)@.state->Idle_0,
    {
        match self.begin_enter_inner(now) {
            Ok(_) => BeginEnter::Begin,
            Err(e) => e,
        }
    }

    /// Claims the transition into idle at `now`, to be committed or abandoned.
    pub fn try_begin_enter(&mut self, now: u64) -> (r: Result<EnterTransition, BeginEnter<G>>)
        ensures
            final(self)@ == old(self)@.begin_enter(now).0,
            final(self).path() == old(self).path(),
            match old(self)@.begin_enter(now).1 {
                Ok(generation) => r is Ok && r->Ok_0.gen() == generation,
                Err(why) => r is Err && r->Err_0.refuses(why),
            },
    {
        match self.begin_enter_inner(now) {
            Ok(generation) => Ok(EnterTransition { generation }),
            Err(e) => Err(e),
        }
    }

    fn finish_enter(&mut self, generation: u64, manifest: ResumeManifest<G>) -> (r: Option<
        ResumeManifest<G>,
    >)
        ensures
            final(self)@ == old(self)@.finish_enter(generation, manifest@).0,
            manifest_view(r) == old(self)@.finish_enter(generation, manifest@).1,
            final(self).path() == old(self).path(),
    {
        let mut manifest = manifest;
        manifest.episode = generation;
        match &self.state {
            IdleState::EnteringIdle { generation: live, .. } => {
                if *live == generation {
                    self.state = IdleState::Idle(manifest.clone());
                    Some(manifest)
                } else {
                    None
                }
            },
            _ => None,
        }
    }

    fn abort_enter(&mut self, generation: u64) -> (r: bool)
        ensures
            final(self)@ == old(self)@.abort_enter(generation).0,
            r == old(self)@.abort_enter(generation).1,
            final(self).path() == old(self).path(),
    {
        match &self.state {
            IdleState::EnteringIdle { generation: live, .. } => {
                if *live == generation {
                    self.state = IdleState::Active;
                    true
                } else {
                    false
                }
            },
            _ => false,
        }
    }

    /// Does an activation of episode `expected` (of any, where `None`) have to clear the state
    /// file first?
    pub fn must_clear(&self, expected: Option<u64>) -> (r: bool)
        ensures
            r == self@.must_clear(expected),
    {
        match &self.state {
            IdleState::Idle(m) => self.state_path.is_some() && match expected {
                Some(e) => m.episode == e,
                None => true,
            },
            _ => false,
        }
    }

    fn begin_activate_inner_impl(&mut self, expected: Option<u64>, cleared: bool, now: u64) -> (r:
        Result<(ResumeManifest<G>, u64), BeginActivate<G>>)
        ensures
            final(self)@ == old(self)@.begin_activate(expected, cleared, now).0,
            final(self).path() == old(self).path(),
            match old(self)@.begin_activate(expected, cleared, now).1 {
                Ok((m, generation)) => r is Ok && r->Ok_0.0@ == m && r->Ok_0.1 == generation,
                Err(why) => r is Err && r->Err_0.refuses(why),
            },
    {
        let manifest = match &self.state {
            IdleState::Idle(m) => {
                if let Some(e) = expected {
                    if m.episode != e {
                        return Err(BeginActivate::Superseded);
                    }
                }
                if self.state_path.is_some() && !cleared {
                    return Err(BeginActivate::PersistFailed);
                }
                m.clone()
            },
            IdleState::Active => {
                return Err(BeginActivate::AlreadyActive);
            },
            _ => {
                return Err(BeginActivate::InTransition);
            },
        };
        let generation: u64 = self.next_gen;
        self.next_gen = following(generation);
        self.state = IdleState::Activating { since: now, generation, manifest: manifest.clone() };
        Ok((manifest, generation))
    }

    /// Claims the activation at `now`: the manifest and the generation to finish it with.
    /// `cleared` says whether the state file, where there is one, was cleared.
    pub fn begin_activate_inner(&mut self, cleared: bool, now: u64) -> (r: Result<
        (ResumeManifest<G>, u64),
        BeginActivate<G>,
    >)
        ensures
            final(self)@ == old(self)@.begin_activate(None, cleared, now).0,
            final(self).path() == old(self).path(),
            match old(self)@.begin_activate(None, cleared, now).1 {
                Ok((m, generation)) => r is Ok && r->Ok_0.0@ == m && r->Ok_0.1 == generation,
                Err(why) => r is Err && r->Err_0.refuses(why),
            },
    {
        self.begin_activate_inner_impl(None, cleared, now)
    }

    /// Claims the activation at `now`, if the proxy is still in the idle episode `expected`.
    pub fn begin_activate_for_episode(&mut self, expected: u64, cleared: bool, now: u64) -> (r:
        Result<(ResumeManifest<G>, u64), BeginActivate<G>>)
        ensures
            final(self)@ == old(self)@.begin_activate(Some(expected), cleared, now).0,
            final(self).path() == old(self).path(),
            match old(self)@.begin_activate(Some(expected), cleared, now).1 {
                Ok((m, generation)) => r is Ok && r->Ok_0.0@ == m && r->Ok_0.1 == generation,
                Err(why) => r is Err && r->Err_0.refuses(why),
            },
    {
        self.begin_activate_inner_impl(Some(expected), cleared, now)
    }

    /// Claims the activation at `now`.
    pub fn begin_activate(&mut self, cleared: bool, now: u64) -> (r: BeginActivate<G>)
        ensures
            final(self)@ == old(self)@.begin_activate(None, cleared, now).0,
            final(self).path() == old(self).path(),
            match old(self)@.begin_activate(None, cleared, now).1 {
                Ok((m, _)) => r is Begin && r->Begin_0@ == m,
                Err(why) => r.refuses(why),
            },
            r is Begin ==> old(self)@.state is Idle && r->Begin_0@ == old(self)@.state->Idle_0,
            r is AlreadyActive <==> old(self)@.state is Active,
            r is PersistFailed <==> old(self)@.state is Idle && old(self)@.durable && !cleared,
    {
        match self.begin_activate_inner(cleared, now) {
            Ok((m, _)) => BeginActivate::Begin(m),
            Err(e) => e,
        }
    }

    /// Completes the activation of that generation. Says whether it was the one in progress.
    pub fn finish_activate(&mut self, generation: u64) -> (r: bool)
        ensures
            final(self)@ == old(self)@.finish_activate(generation).0,
            r == old(self)@.finish_activate(generation).1,
            final(self).path() == old(self).path(),
    {
        match &self.state {
            IdleState::Activating { generation: live, .. } => {
                if *live == generation {
                    self.state = IdleState::Active;
                    true
                } else {
                    false
                }
            },
            _ => false,
        }
    }

    /// Resolves a transition that has been in progress for `max_age` seconds or more: back to
    /// service. Says whether there was one.
    pub fn recover_stale_transition(&mut self, now: u64, max_age: u64) -> (r: bool)
        ensures
            final(self)@ == old(self)@.recover(now, max_age).0,
            r == old(self)@.recover(now, max_age).1,
            final(self).path() == old(self).path(),
    {
        match self.state.transition_since() {
            None => false,
            Some(since) => {
                if now.saturating_sub(since) >= max_age {
                    self.next_gen = following(self.next_gen);
                    self.state = IdleState::Active;
                    true
                } else {
                    false
                }
            },
        }
    }

    /// Enters idle in one go.
    pub fn enter(&mut self, manifest: ResumeManifest<G>, now: u64) -> (r: EnterOutcome<G>)
        ensures
            final(self)@ == old(self)@.enter(manifest@, now).0,
            r@ == old(self)@.enter(manifest@, now).1,
            final(self).path() == old(self).path(),
    {
        match self.try_begin_enter(now) {
            Ok(t) => match t.commit(self, manifest) {
                Some(m) => EnterOutcome::Entered(m),
                None => EnterOutcome::InTransition,
            },
            Err(BeginEnter::AlreadyIdle(m)) => EnterOutcome::AlreadyIdle(m),
            Err(_) => EnterOutcome::InTransition,
        }
    }

    /// Activates in one go.
    pub fn exit(&mut self, cleared: bool, now: u64) -> (r: ActivateOutcome<G>)
        ensures
            final(self)@ == old(self)@.exit(None, cleared, now).0,
            final(self).path() == old(self).path(),
            match old(self)@.exit(None, cleared, now).1 {
                Ok(m) => r is Activated && r->Activated_0@ == m,
                Err(why) => r.reports(why),
            },
            r is Activated <==> old(self)@.state is Idle && (cleared || !old(self)@.durable),
            r is Activated ==> final(self)@.state is Active && r->Activated_0@ == old(
                self,
            )@.state->Idle_0,
            r is AlreadyActive <==> old(self)@.state is Active,
            r is PersistFailed <==> old(self)@.state is Idle && old(self)@.durable && !cleared,
    {
        match self.begin_activate_inner(cleared, now) {
            Ok((m, generation)) => {
                self.finish_activate(generation);
                ActivateOutcome::Activated(m)
            },
            Err(BeginActivate::AlreadyActive) => ActivateOutcome::AlreadyActive,
            Err(BeginActivate::PersistFailed) => ActivateOutcome::PersistFailed,
            Err(_) => ActivateOutcome::InTransition,
        }
    }
}

} // verus!
