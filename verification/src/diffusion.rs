//! The diffusion daemon: started when it is asked for, stopped when it is idle, and never started
//! while somebody else holds the GPU.
use vstd::prelude::*;

use crate::decimal::{decimal, decimal_of, number, parse_up_to};
use crate::env::{var, var_of};
use crate::table::Table;
use crate::text::{
    before, filled, filled_of, items, items_of, join, join3, lower_ascii, opt_view, owned,
    part_before, same_ignoring_case, trim, trimmed, views, Separator,
};

verus! {

/// The settings of the daemon.
#[derive(Debug, Clone, PartialEq, Eq)]
pub struct DiffusionConfig {
    pub model_id: String,
    pub bin: String,
    pub model_path: String,
    pub ld_library_path: String,
    pub bind: String,
    pub port: u16,
    pub idle_secs: u64,
    pub start_timeout_secs: u64,
    pub extra_args: Vec<String>,
}

/// What the settings say.
pub ghost struct DiffusionView {
    pub model_id: Seq<char>,
    pub bin: Seq<char>,
    pub model_path: Seq<char>,
    pub ld_library_path: Seq<char>,
    pub bind: Seq<char>,
    pub port: u16,
    pub idle_secs: u64,
    pub start_timeout_secs: u64,
    pub extra_args: Seq<Seq<char>>,
}

impl View for DiffusionConfig {
    type V = DiffusionView;

    open spec fn view(&self) -> DiffusionView {
        DiffusionView {
            model_id: self.model_id@,
            bin: self.bin@,
            model_path: self.model_path@,
            ld_library_path: self.ld_library_path@,
            bind: self.bind@,
            port: self.port,
            idle_secs: self.idle_secs,
            start_timeout_secs: self.start_timeout_secs,
            extra_args: views(self.extra_args@),
        }
    }
}

/// The daemon program, where nothing else is set.
pub const DEFAULT_BIN: &'static str =
    "/opt/nvme-scratch/dgem/llama-diffusion/build-vulkan/bin/llama-diffusion-daemon";

/// The model file, where nothing else is set.
pub const DEFAULT_MODEL_PATH: &'static str =
    "/opt/nvme-scratch/dgem/diffusiongemma-eval/models/diffusiongemma-26B-A4B-it-Q4_K_M.gguf";

/// The libraries of the daemon, where nothing else is set.
pub const DEFAULT_LD_LIBRARY_PATH: &'static str =
    "/opt/nvme-scratch/dgem/llama-diffusion/build-vulkan/bin";

/// The arguments of the daemon, where nothing else is set.
pub open spec fn default_args() -> Seq<Seq<char>> {
    seq![
        "-ngl"@,
        "99"@,
        "-t"@,
        "4"@,
        "--diffusion-eb"@,
        "auto"@,
        "-c"@,
        "8192"@,
        "-ub"@,
        "8192"@,
        "-b"@,
        "8192"@,
    ]
}

/// The settings where nothing is set.
pub open spec fn default_settings() -> DiffusionView {
    DiffusionView {
        model_id: "diffusion-gemma"@,
        bin: DEFAULT_BIN@,
        model_path: DEFAULT_MODEL_PATH@,
        ld_library_path: DEFAULT_LD_LIBRARY_PATH@,
        bind: "127.0.0.1"@,
        port: 8877,
        idle_secs: 300,
        start_timeout_secs: 120,
        extra_args: default_args(),
    }
}

/// What was answered for each setting.
pub ghost struct DiffusionAnswers {
    pub model_id: Option<Seq<char>>,
    pub bin: Option<Seq<char>>,
    pub model_path: Option<Seq<char>>,
    pub ld_library_path: Option<Seq<char>>,
    pub bind: Option<Seq<char>>,
    pub port: Option<Seq<char>>,
    pub idle_secs: Option<Seq<char>>,
    pub start_timeout_secs: Option<Seq<char>>,
    pub extra_args: Option<Seq<char>>,
}

/// A text, trimmed, in place of `default` where it is there and not blank.
pub open spec fn overridden(value: Option<Seq<char>>, default: Seq<char>) -> Seq<char> {
    match filled(value) {
        Some(s) => s,
        None => default,
    }
}

/// A number, in place of `default` where the trimmed text writes one up to `max`.
pub open spec fn overridden_number(value: Option<Seq<char>>, max: nat, default: nat) -> nat {
    match value {
        Some(s) => match number(trim(s), max) {
            Some(n) => n,
            None => default,
        },
        None => default,
    }
}

/// The arguments that a text lists, in place of the default ones where it lists any.
pub open spec fn overridden_args(value: Option<Seq<char>>) -> Seq<Seq<char>> {
    match value {
        Some(s) => if items(s, Separator::White).len() > 0 {
            items(s, Separator::White)
        } else {
            default_args()
        },
        None => default_args(),
    }
}

impl DiffusionAnswers {
    /// The settings that the answers make.
    pub open spec fn settings(self) -> DiffusionView {
        DiffusionView {
            model_id: overridden(self.model_id, "diffusion-gemma"@),
            bin: overridden(self.bin, DEFAULT_BIN@),
            model_path: overridden(self.model_path, DEFAULT_MODEL_PATH@),
            ld_library_path: overridden(self.ld_library_path, DEFAULT_LD_LIBRARY_PATH@),
            bind: overridden(self.bind, "127.0.0.1"@),
            port: overridden_number(self.port, u16::MAX as nat, 8877) as u16,
            idle_secs: overridden_number(self.idle_secs, u64::MAX as nat, 300) as u64,
            start_timeout_secs: overridden_number(
                self.start_timeout_secs,
                u64::MAX as nat,
                120,
            ) as u64,
            extra_args: overridden_args(self.extra_args),
        }
    }

    /// The answers that an environment gives.
    pub open spec fn of_env(env: Map<Seq<char>, Seq<char>>) -> DiffusionAnswers {
        DiffusionAnswers {
            model_id: var(env, "DIFFUSION_MODEL_ID"@),
            bin: var(env, "DIFFUSION_DAEMON_BIN"@),
            model_path: var(env, "DIFFUSION_MODEL_PATH"@),
            ld_library_path: var(env, "DIFFUSION_LD_LIBRARY_PATH"@),
            bind: var(env, "DIFFUSION_BIND"@),
            port: var(env, "DIFFUSION_PORT"@),
            idle_secs: var(env, "DIFFUSION_IDLE_SECS"@),
            start_timeout_secs: var(env, "DIFFUSION_START_TIMEOUT_SECS"@),
            extra_args: var(env, "DIFFUSION_EXTRA_ARGS"@),
        }
    }
}

/// `get` may answer `value` for `key`.
pub open spec fn may_answer<F: Fn(&str) -> Option<String>>(
    get: F,
    key: &str,
    value: Option<Seq<char>>,
) -> bool {
    exists|r: Option<String>| call_ensures(get, (key,), r) && #[trigger] opt_view(r) == value
}

/// `get` may give these answers.
pub open spec fn may_give<F: Fn(&str) -> Option<String>>(get: F, a: DiffusionAnswers) -> bool {
    &&& may_answer(get, "DIFFUSION_MODEL_ID", a.model_id)
    &&& may_answer(get, "DIFFUSION_DAEMON_BIN", a.bin)
    &&& may_answer(get, "DIFFUSION_MODEL_PATH", a.model_path)
    &&& may_answer(get, "DIFFUSION_LD_LIBRARY_PATH", a.ld_library_path)
    &&& may_answer(get, "DIFFUSION_BIND", a.bind)
    &&& may_answer(get, "DIFFUSION_PORT", a.port)
    &&& may_answer(get, "DIFFUSION_IDLE_SECS", a.idle_secs)
    &&& may_answer(get, "DIFFUSION_START_TIMEOUT_SECS", a.start_timeout_secs)
    &&& may_answer(get, "DIFFUSION_EXTRA_ARGS", a.extra_args)
}

fn text_answer(value: Option<String>, default: &str) -> (r: String)
    ensures
        r@ == overridden(opt_view(value), default@),
{
    match filled_of(value) {
        Some(s) => s,
        None => owned(default),
    }
}

fn number_answer(value: Option<String>, max: u64, default: u64) -> (r: u64)
    requires
        default <= max,
    ensures
        r == overridden_number(opt_view(value), max as nat, default as nat),
        r <= max,
{
    match value {
        Some(s) => match parse_up_to(trimmed(s.as_str()).as_str(), max) {
            Some(n) => n,
            None => default,
        },
        None => default,
    }
}

fn default_arg_list() -> (r: Vec<String>)
    ensures
        views(r@) == default_args(),
{
    let mut v: Vec<String> = Vec::new();
    v.push(owned("-ngl"));
    v.push(owned("99"));
    v.push(owned("-t"));
    v.push(owned("4"));
    v.push(owned("--diffusion-eb"));
    v.push(owned("auto"));
    v.push(owned("-c"));
    v.push(owned("8192"));
    v.push(owned("-ub"));
    v.push(owned("8192"));
    v.push(owned("-b"));
    v.push(owned("8192"));
    assert(views(v@) =~= default_args());
    v
}

fn args_answer(value: Option<String>) -> (r: Vec<String>)
    ensures
        views(r@) == overridden_args(opt_view(value)),
{
    match value {
        Some(s) => {
            let parsed = items_of(s.as_str(), Separator::White);
            assert(views(parsed@).len() == parsed@.len());
            if parsed.len() > 0 {
                parsed
            } else {
                default_arg_list()
            }
        },
        None => default_arg_list(),
    }
}

impl Default for DiffusionConfig {
    fn default() -> (r: Self)
        ensures
            r@ == default_settings(),
    {
        DiffusionConfig {
            model_id: owned("diffusion-gemma"),
            bin: owned(DEFAULT_BIN),
            model_path: owned(DEFAULT_MODEL_PATH),
            ld_library_path: owned(DEFAULT_LD_LIBRARY_PATH),
            bind: owned("127.0.0.1"),
            port: 8877,
            idle_secs: 300,
            start_timeout_secs: 120,
            extra_args: default_arg_list(),
        }
    }
}

/// The base address of a daemon.
pub open spec fn base_address(cfg: DiffusionView) -> Seq<char> {
    "http://"@ + cfg.bind + ":"@ + decimal(cfg.port as nat)
}

impl DiffusionConfig {
    /// The settings that an environment writes.
    pub fn from_env(env: &Table) -> (r: Self)
        ensures
            r@ == DiffusionAnswers::of_env(env@).settings(),
    {
        let get = |key: &str| -> (v: Option<String>)
            ensures
                opt_view(v) == var(env@, key@),
            { var_of(env, key) };
        let r = DiffusionConfig::from_getter(get);
        proof {
            let a = choose|a: DiffusionAnswers| #[trigger]
                may_give(get, a) && r@ == a.settings();
            assert(a == DiffusionAnswers::of_env(env@));
        }
        r
    }

    /// The settings that `get` answers for. What is missing, blank or no number stays at its
    /// default.
    pub fn from_getter<F: Fn(&str) -> Option<String>>(get: F) -> (r: Self)
        requires
            forall|key: &str| #[trigger] call_requires(get, (key,)),
        ensures
            exists|a: DiffusionAnswers| #[trigger] may_give(get, a) && r@ == a.settings(),
    {
        let model_id = get("DIFFUSION_MODEL_ID");
        let bin = get("DIFFUSION_DAEMON_BIN");
        let model_path = get("DIFFUSION_MODEL_PATH");
        let ld_library_path = get("DIFFUSION_LD_LIBRARY_PATH");
        let bind = get("DIFFUSION_BIND");
        let port = get("DIFFUSION_PORT");
        let idle_secs = get("DIFFUSION_IDLE_SECS");
        let start_timeout_secs = get("DIFFUSION_START_TIMEOUT_SECS");
        let extra_args = get("DIFFUSION_EXTRA_ARGS");
        let ghost a = DiffusionAnswers {
            model_id: opt_view(model_id),
            bin: opt_view(bin),
            model_path: opt_view(model_path),
            ld_library_path: opt_view(ld_library_path),
            bind: opt_view(bind),
            port: opt_view(port),
            idle_secs: opt_view(idle_secs),
            start_timeout_secs: opt_view(start_timeout_secs),
            extra_args: opt_view(extra_args),
        };
        assert(may_give(get, a));
        DiffusionConfig {
            model_id: text_answer(model_id, "diffusion-gemma"),
            bin: text_answer(bin, DEFAULT_BIN),
            model_path: text_answer(model_path, DEFAULT_MODEL_PATH),
            ld_library_path: text_answer(ld_library_path, DEFAULT_LD_LIBRARY_PATH),
            bind: text_answer(bind, "127.0.0.1"),
            port: number_answer(port, u16::MAX as u64, 8877) as u16,
            idle_secs: number_answer(idle_secs, u64::MAX, 300),
            start_timeout_secs: number_answer(start_timeout_secs, u64::MAX, 120),
            extra_args: args_answer(extra_args),
        }
    }

    /// The base address of the daemon.
    pub fn base_url(&self) -> (r: String)
        ensures
            r@ == base_address(self@),
    {
        let mut r: String = owned("http://");
        r.append(self.bind.as_str());
        r.append(":");
        r.append(decimal_of(self.port as u64).as_str());
        r
    }

    /// The full address that completions are posted to; nothing is appended to it.
    pub fn chat_completions_url(&self) -> (r: String)
        ensures
            r@ == base_address(self@) + "/v1/chat/completions"@,
    {
        join(self.base_url().as_str(), "/v1/chat/completions")
    }

    /// The address that tells whether the daemon is ready.
    pub fn health_url(&self) -> (r: String)
        ensures
            r@ == base_address(self@) + "/health"@,
    {
        join(self.base_url().as_str(), "/health")
    }
}

/// The model name, without its tag, is the daemon's, whatever the case of its ASCII letters.
pub open spec fn names_daemon(model_id: Seq<char>, model: Seq<char>) -> bool {
    lower_ascii(before(model, ':')) == lower_ascii(model_id)
}

/// Is `model` the daemon's model?
pub fn is_diffusion_model(cfg: &DiffusionConfig, model: &str) -> (r: bool)
    ensures
        r == names_daemon(cfg@.model_id, model@),
{
    same_ignoring_case(part_before(model, ':').as_str(), cfg.model_id.as_str())
}

/// What a request for the daemon does first.
#[derive(Debug, Clone, Copy, PartialEq, Eq, Structural)]
pub enum StartDecision {
    /// It runs already.
    AlreadyRunning,
    /// Somebody else holds the GPU.
    Blocked,
    /// It has to be started.
    Start,
}

/// What a request for the daemon does first.
pub open spec fn start_decision(gpu_held: bool, running: bool) -> StartDecision {
    if running {
        StartDecision::AlreadyRunning
    } else if gpu_held {
        StartDecision::Blocked
    } else {
        StartDecision::Start
    }
}

/// Decides what a request for the daemon does first.
pub fn decide_start(gpu_exclusively_held: bool, already_running: bool) -> (r: StartDecision)
    ensures
        r == start_decision(gpu_exclusively_held, already_running),
{
    if already_running {
        StartDecision::AlreadyRunning
    } else if gpu_exclusively_held {
        StartDecision::Blocked
    } else {
        StartDecision::Start
    }
}

/// An idle daemon is stopped; a time of zero means never.
pub open spec fn evicts(running: bool, idle_secs: u64, idle_timeout_secs: u64) -> bool {
    running && idle_timeout_secs > 0 && idle_secs >= idle_timeout_secs
}

/// Is the daemon to be stopped for being idle?
pub fn decide_evict(running: bool, idle_secs: u64, idle_timeout_secs: u64) -> (r: bool)
    ensures
        r == evicts(running, idle_secs, idle_timeout_secs),
{
    running && idle_timeout_secs > 0 && idle_secs >= idle_timeout_secs
}

/// What a look at the tracked process showed.
#[derive(Debug, Clone, Copy, PartialEq, Eq, Structural)]
pub enum Liveness {
    /// It has exited.
    Exited,
    /// It is alive.
    Alive,
    /// It could not be told.
    Unknown,
}

/// How the daemon is started.
#[derive(Debug, PartialEq, Eq)]
pub struct SpawnPlan {
    pub bin: String,
    pub args: Vec<String>,
    /// Names and values, in order.
    pub env: Vec<(String, String)>,
}

/// What bringing the daemon up asks for next.
#[derive(Debug, PartialEq, Eq)]
pub enum EnsureStep {
    /// Serve from this address.
    Serve(String),
    /// It cannot be had: why.
    Fail(String),
    /// See whether something answers at this address already.
    ProbePort(String),
    /// Start the process.
    Spawn(SpawnPlan),
    /// Wait for this address to become healthy, for so many seconds.
    AwaitHealth(String, u64),
}

/// The daemon as the proxy knows it: only a process that it started itself counts as running.
#[derive(Debug)]
pub struct DiffusionManager {
    cfg: DiffusionConfig,
    owned: bool,
    ambient_warned: bool,
    last_activity_epoch: u64,
}

/// What a [`DiffusionManager`] says.
pub ghost struct ManagerView {
    pub cfg: DiffusionView,
    /// A process of the proxy's own is tracked.
    pub owned: bool,
    /// The warning about a daemon of somebody else's has been given.
    pub warned: bool,
    pub last_activity: u64,
}

impl View for DiffusionManager {
    type V = ManagerView;

    closed spec fn view(&self) -> ManagerView {
        ManagerView {
            cfg: self.cfg@,
            owned: self.owned,
            warned: self.ambient_warned,
            last_activity: self.last_activity_epoch,
        }
    }
}

/// The address that completions are posted to.
pub open spec fn serving_address(cfg: DiffusionView) -> Seq<char> {
    base_address(cfg) + "/v1/chat/completions"@
}

impl ManagerView {
    /// After a look at the tracked process: one that has exited is forgotten.
    pub open spec fn reaped(self, polled: Liveness) -> ManagerView {
        ManagerView { owned: self.owned && polled != Liveness::Exited, ..self }
    }

    /// After the daemon was used at `now`.
    pub open spec fn touched(self, now: u64) -> ManagerView {
        ManagerView { last_activity: now, ..self }
    }

    /// After the port was probed at `now`.
    pub open spec fn probed(self, serving: bool, now: u64) -> ManagerView {
        if serving {
            ManagerView { warned: true, ..self.touched(now) }
        } else {
            self
        }
    }

    /// After the process was started, or could not be.
    pub open spec fn launched(self, started: bool) -> ManagerView {
        if started {
            ManagerView { owned: true, warned: false, ..self }
        } else {
            self
        }
    }

    /// After the process was killed or given up.
    pub open spec fn stopped(self) -> ManagerView {
        ManagerView { owned: false, ..self }
    }

    /// After the wait for health was over at `now`.
    pub open spec fn awaited(self, healthy: bool, now: u64) -> ManagerView {
        if healthy {
            self.touched(now)
        } else {
            self.stopped()
        }
    }
}

/// The step is to serve from `url`.
pub open spec fn serves_from(step: EnsureStep, url: Seq<char>) -> bool {
    step matches EnsureStep::Serve(u) && u@ == url
}

/// The step is to fail for `why`.
pub open spec fn fails_for(step: EnsureStep, why: Seq<char>) -> bool {
    step matches EnsureStep::Fail(e) && e@ == why
}

/// The environment of the process, by name.
pub open spec fn spawn_env(cfg: DiffusionView) -> Seq<(Seq<char>, Seq<char>)> {
    seq![
        ("DGEM_BIND"@, cfg.bind),
        ("DGEM_HTTP_PORT"@, decimal(cfg.port as nat)),
        ("DGEM_IDLE_TIMEOUT_SECS"@, "0"@),
        ("LD_LIBRARY_PATH"@, cfg.ld_library_path),
    ]
}

/// The plan starts the daemon that `cfg` describes.
pub open spec fn plan_for(plan: SpawnPlan, cfg: DiffusionView) -> bool {
    &&& plan.bin@ == cfg.bin
    &&& views(plan.args@) == seq!["-m"@, cfg.model_path] + cfg.extra_args
    &&& plan.env@.map_values(|p: (String, String)| (p.0@, p.1@)) == spawn_env(cfg)
}

impl DiffusionManager {
    /// No daemon of the proxy's own yet.
    pub fn new(cfg: DiffusionConfig) -> (r: Self)
        ensures
            r@ == (ManagerView { cfg: cfg@, owned: false, warned: false, last_activity: 0 }),
    {
        DiffusionManager { cfg, owned: false, ambient_warned: false, last_activity_epoch: 0 }
    }

    /// The settings.
    pub fn config(&self) -> (r: &DiffusionConfig)
        ensures
            r@ == self@.cfg,
    {
        &self.cfg
    }

    /// The daemon's model.
    pub fn model_id(&self) -> (r: &str)
        ensures
            r@ == self@.cfg.model_id,
    {
        self.cfg.model_id.as_str()
    }

    /// Is `model` the daemon's model?
    pub fn is_diffusion_model(&self, model: &str) -> (r: bool)
        ensures
            r == names_daemon(self@.cfg.model_id, model@),
    {
        is_diffusion_model(&self.cfg, model)
    }

    /// The daemon was used at `now`.
    pub fn touch_activity(&mut self, now: u64)
        ensures
            final(self)@ == old(self)@.touched(now),
    {
        self.last_activity_epoch = now;
    }

    /// Seconds since the daemon was last used.
    pub fn idle_secs(&self, now: u64) -> (r: u64)
        ensures
            r == (if now >= self@.last_activity {
                now - self@.last_activity
            } else {
                0
            }),
    {
        now.saturating_sub(self.last_activity_epoch)
    }

    /// Takes note of a look at the tracked process. One whose state cannot be told stays tracked.
    pub fn reap_dead_child(&mut self, polled: Liveness)
        ensures
            final(self)@ == old(self)@.reaped(polled),
    {
        if polled == Liveness::Exited {
            self.owned = false;
        }
    }

    /// Does a process of the proxy's own run, after a look at it?
    pub fn is_running(&mut self, polled: Liveness) -> (r: bool)
        ensures
            final(self)@ == old(self)@.reaped(polled),
            r == old(self)@.reaped(polled).owned,
    {
        self.reap_dead_child(polled);
        self.owned
    }

    /// The daemon is asked for at `now`, after a look at the tracked process.
    pub fn ensure_running_gated(&mut self, gpu_held: bool, polled: Liveness, now: u64) -> (r:
        EnsureStep)
        ensures
            match start_decision(gpu_held, old(self)@.reaped(polled).owned) {
                StartDecision::AlreadyRunning => {
                    &&& final(self)@ == old(self)@.reaped(polled).touched(now)
                    &&& serves_from(r, serving_address(old(self)@.cfg))
                },
                StartDecision::Blocked => {
                    &&& final(self)@ == old(self)@.reaped(polled)
                    &&& fails_for(
                        r,
                        "diffusion: GPU exclusively held — refusing to start llama-diffusion-daemon"@,
                    )
                },
                StartDecision::Start => {
                    &&& final(self)@ == old(self)@.reaped(polled)
                    &&& (r matches EnsureStep::ProbePort(u) && u@ == base_address(old(self)@.cfg)
                        + "/health"@)
                },
            },
    {
        self.reap_dead_child(polled);
        match decide_start(gpu_held, self.owned) {
            StartDecision::AlreadyRunning => {
                self.touch_activity(now);
                EnsureStep::Serve(self.cfg.chat_completions_url())
            },
            StartDecision::Blocked => EnsureStep::Fail(
                owned("diffusion: GPU exclusively held — refusing to start llama-diffusion-daemon"),
            ),
            StartDecision::Start => EnsureStep::ProbePort(self.cfg.health_url()),
        }
    }

    /// The port was probed at `now`. A daemon of somebody else's that answers is used and not
    /// tracked; the flag says whether to warn of it.
    pub fn port_probed(&mut self, serving: bool, now: u64) -> (r: (EnsureStep, bool))
        ensures
            final(self)@ == old(self)@.probed(serving, now),
            serving ==> serves_from(r.0, serving_address(old(self)@.cfg)) && r.1 == !old(
                self,
            )@.warned,
            !serving ==> (r.0 matches EnsureStep::Spawn(plan) && plan_for(plan, old(self)@.cfg))
                && !r.1,
            r.0 matches EnsureStep::Spawn(plan) ==> {
                &&& plan.bin@ == old(self)@.cfg.bin
                &&& gives(plan.env@, "LD_LIBRARY_PATH"@, old(self)@.cfg.ld_library_path)
                &&& gives(plan.env@, "DGEM_BIND"@, old(self)@.cfg.bind)
                &&& gives(plan.env@, "DGEM_HTTP_PORT"@, decimal(old(self)@.cfg.port as nat))
                &&& gives(plan.env@, "DGEM_IDLE_TIMEOUT_SECS"@, "0"@)
            },
    {
        if serving {
            let warn = !self.ambient_warned;
            self.ambient_warned = true;
            self.touch_activity(now);
            (EnsureStep::Serve(self.cfg.chat_completions_url()), warn)
        } else {
            let plan = self.spawn_plan();
            proof {
                law_process_gets_its_environment(plan, self@.cfg);
            }
            (EnsureStep::Spawn(plan), false)
        }
    }

    fn spawn_plan(&self) -> (r: SpawnPlan)
        ensures
            plan_for(r, self@.cfg),
    {
        let mut args: Vec<String> = Vec::new();
        args.push(owned("-m"));
        args.push(self.cfg.model_path.clone());
        let mut i: usize = 0;
        let ghost extra = views(self.cfg.extra_args@);
        proof {
            assert(views(args@) =~= seq!["-m"@, self.cfg.model_path@] + extra.take(0));
        }
        while i < self.cfg.extra_args.len()
            invariant
                i <= self.cfg.extra_args.len(),
                extra == views(self.cfg.extra_args@),
                views(args@) == seq!["-m"@, self.cfg.model_path@] + extra.take(i as int),
            decreases self.cfg.extra_args.len() - i,
        {
            let ghost had = views(args@);
            args.push(self.cfg.extra_args[i].clone());
            proof {
                assert(extra[i as int] == self.cfg.extra_args@[i as int]@);
                assert(views(args@) =~= had.push(extra[i as int]));
                assert(extra.take(i + 1) =~= extra.take(i as int).push(extra[i as int]));
                assert(views(args@) =~= seq!["-m"@, self.cfg.model_path@] + extra.take(i + 1));
            }
            i = i + 1;
        }
        assert(extra.take(extra.len() as int) =~= extra);
        let mut env: Vec<(String, String)> = Vec::new();
        env.push((owned("DGEM_BIND"), self.cfg.bind.clone()));
        env.push((owned("DGEM_HTTP_PORT"), decimal_of(self.cfg.port as u64)));
        env.push((owned("DGEM_IDLE_TIMEOUT_SECS"), owned("0")));
        env.push((owned("LD_LIBRARY_PATH"), self.cfg.ld_library_path.clone()));
        assert(env@.map_values(|p: (String, String)| (p.0@, p.1@)) =~= spawn_env(self@.cfg));
        SpawnPlan { bin: self.cfg.bin.clone(), args, env }
    }

    /// The process was started, or could not be: why.
    pub fn spawned(&mut self, outcome: Result<(), String>) -> (r: EnsureStep)
        ensures
            final(self)@ == old(self)@.launched(outcome is Ok),
            match outcome {
                Ok(()) => r matches EnsureStep::AwaitHealth(u, secs) && u@ == base_address(
                    old(self)@.cfg,
                ) + "/health"@ && secs == old(self)@.cfg.start_timeout_secs,
                Err(e) => fails_for(
                    r,
                    "diffusion: failed to spawn llama-diffusion-daemon: "@ + e@,
                ),
            },
    {
        match outcome {
            Ok(()) => {
                self.owned = true;
                self.ambient_warned = false;
                EnsureStep::AwaitHealth(self.cfg.health_url(), self.cfg.start_timeout_secs)
            },
            Err(e) => EnsureStep::Fail(
                join("diffusion: failed to spawn llama-diffusion-daemon: ", e.as_str()),
            ),
        }
    }

    /// The wait for health is over at `now`. A process that did not become healthy is given up
    /// and has to be killed.
    pub fn health_awaited(&mut self, healthy: bool, now: u64) -> (r: EnsureStep)
        ensures
            final(self)@ == old(self)@.awaited(healthy, now),
            healthy ==> serves_from(r, serving_address(old(self)@.cfg)),
            !healthy ==> fails_for(
                r,
                "diffusion: llama-diffusion-daemon did not become healthy within "@ + decimal(
                    old(self)@.cfg.start_timeout_secs as nat,
                ) + "s"@,
            ),
    {
        if healthy {
            self.touch_activity(now);
            EnsureStep::Serve(self.cfg.chat_completions_url())
        } else {
            self.owned = false;
            EnsureStep::Fail(
                join3(
                    "diffusion: llama-diffusion-daemon did not become healthy within ",
                    decimal_of(self.cfg.start_timeout_secs).as_str(),
                    "s",
                ),
            )
        }
    }

    /// Stops the daemon. Says whether there is a process to kill.
    pub fn stop(&mut self) -> (r: bool)
        ensures
            final(self)@ == old(self)@.stopped(),
            r == old(self)@.owned,
    {
        let had = self.owned;
        self.owned = false;
        had
    }

    /// Is the daemon to be stopped for being idle at `now`, after a look at the tracked process?
    pub fn idle_eviction_due(&mut self, polled: Liveness, now: u64) -> (r: bool)
        ensures
            final(self)@ == old(self)@.reaped(polled),
            r == evicts(
                old(self)@.reaped(polled).owned,
                if now >= old(self)@.last_activity {
                    (now - old(self)@.last_activity) as u64
                } else {
                    0
                },
                old(self)@.cfg.idle_secs,
            ),
    {
        let running = self.is_running(polled);
        decide_evict(running, self.idle_secs(now), self.cfg.idle_secs)
    }
}

/// One look at a wait for health: `Some(true)` where the daemon is ready, `Some(false)` where the
/// time is up, `None` to look again.
pub fn wait_for_health(ready: bool, time_is_up: bool) -> (r: Option<bool>)
    ensures
        r == (if ready {
            Some(true)
        } else if time_is_up {
            Some(false)
        } else {
            None
        }),
{
    if ready {
        Some(true)
    } else if time_is_up {
        Some(false)
    } else {
        None
    }
}

/// Nothing is started while somebody else holds the GPU, and what runs is served regardless.
pub proof fn law_held_gpu_blocks_a_start(gpu_held: bool, running: bool)
    ensures
        gpu_held && !running ==> start_decision(gpu_held, running) == StartDecision::Blocked,
        running ==> start_decision(gpu_held, running) == StartDecision::AlreadyRunning,
        start_decision(gpu_held, running) == StartDecision::Start ==> !gpu_held && !running,
{
}

/// Only a process that was started here counts as running: a daemon of somebody else's that
/// answers on the port is used and stays unmanaged, and a start that never became healthy leaves
/// nothing behind.
pub proof fn law_only_an_own_process_counts_as_running(
    m: ManagerView,
    polled: Liveness,
    serving: bool,
    started: bool,
    healthy: bool,
    now: u64,
)
    ensures
        m.probed(serving, now).owned == m.owned,
        m.touched(now).owned == m.owned,
        m.reaped(polled).owned ==> m.owned,
        !m.owned && m.launched(started).owned ==> started,
        !m.launched(true).awaited(false, now).owned,
        m.launched(true).awaited(true, now).owned,
        !m.stopped().owned,
        !m.reaped(Liveness::Exited).owned,
        m.owned ==> m.reaped(Liveness::Unknown).owned,
{
}

/// A daemon of somebody else's is warned of once, until a process of the proxy's own is started.
pub proof fn law_ambient_daemon_is_warned_of_once(m: ManagerView, first: u64, second: u64)
    ensures
        m.probed(true, first).warned,
        m.probed(true, first).probed(true, second).warned,
        !m.launched(true).warned,
{
}

/// An idle time of zero never stops the daemon, and what does not run is never stopped.
pub proof fn law_zero_idle_time_never_evicts(running: bool, idle_secs: u64, timeout: u64)
    ensures
        !evicts(running, idle_secs, 0),
        !evicts(false, idle_secs, timeout),
{
}

/// Where nothing is set the default settings hold.
pub proof fn law_unset_daemon_settings_are_the_defaults()
    ensures
        DiffusionAnswers::of_env(Map::empty()).settings() == default_settings(),
{
}

/// An environment gives `value` under `name`, and nothing else under it.
pub open spec fn gives(env: Seq<(String, String)>, name: Seq<char>, value: Seq<char>) -> bool {
    &&& exists|i: int| 0 <= i < env.len() && (#[trigger] env[i]).0@ == name
    &&& forall|i: int| 0 <= i < env.len() && (#[trigger] env[i]).0@ == name ==> env[i].1@ == value
}

/// A started daemon gets, each under its name and once, the configured library path, address and
/// port, and is told never to stop by itself. Nothing else is set for it.
pub proof fn law_process_gets_its_environment(plan: SpawnPlan, cfg: DiffusionView)
    requires
        plan_for(plan, cfg),
    ensures
        gives(plan.env@, "LD_LIBRARY_PATH"@, cfg.ld_library_path),
        gives(plan.env@, "DGEM_BIND"@, cfg.bind),
        gives(plan.env@, "DGEM_HTTP_PORT"@, decimal(cfg.port as nat)),
        gives(plan.env@, "DGEM_IDLE_TIMEOUT_SECS"@, "0"@),
        plan.env@.len() == 4,
{
    let pairs = plan.env@.map_values(|p: (String, String)| (p.0@, p.1@));
    reveal_strlit("DGEM_BIND");
    reveal_strlit("DGEM_HTTP_PORT");
    reveal_strlit("DGEM_IDLE_TIMEOUT_SECS");
    reveal_strlit("LD_LIBRARY_PATH");
    assert(pairs.len() == 4);
    assert forall|i: int| 0 <= i < 4 implies pairs[i] == (
        (#[trigger] plan.env@[i]).0@,
        plan.env@[i].1@,
    ) by {}
    assert("DGEM_BIND"@.len() == 9 && "DGEM_HTTP_PORT"@.len() == 14
        && "DGEM_IDLE_TIMEOUT_SECS"@.len() == 22 && "LD_LIBRARY_PATH"@.len() == 15);
    assert(pairs[0].0 == plan.env@[0].0@ && pairs[1].0 == plan.env@[1].0@);
    assert(pairs[2].0 == plan.env@[2].0@ && pairs[3].0 == plan.env@[3].0@);
}

/// A started daemon is the configured program; it is told the model file first, and then the
/// configured arguments in their order.
pub proof fn law_process_gets_its_arguments(plan: SpawnPlan, cfg: DiffusionView, i: int)
    requires
        plan_for(plan, cfg),
    ensures
        plan.bin@ == cfg.bin,
        plan.args@.len() == cfg.extra_args.len() + 2,
        plan.args@[0]@ == "-m"@,
        plan.args@[1]@ == cfg.model_path,
        0 <= i < cfg.extra_args.len() ==> plan.args@[i + 2]@ == cfg.extra_args[i],
{
    let args = views(plan.args@);
    assert(args.len() == plan.args@.len());
    assert(args[0] == plan.args@[0]@ && args[1] == plan.args@[1]@);
    if 0 <= i < cfg.extra_args.len() {
        assert(args[i + 2] == plan.args@[i + 2]@);
    }
}

/// A setting that is written and not blank is taken, trimmed, each under its own name; any other is
/// the default.
pub proof fn law_daemon_texts_are_set_by_name(env: Map<Seq<char>, Seq<char>>)
    ensures
        ({
            let s = DiffusionAnswers::of_env(env).settings();
            &&& sets(env, "DIFFUSION_MODEL_ID"@, s.model_id, "diffusion-gemma"@)
            &&& sets(
                env,
                "DIFFUSION_DAEMON_BIN"@,
                s.bin,
                "/opt/nvme-scratch/dgem/llama-diffusion/build-vulkan/bin/llama-diffusion-daemon"@,
            )
            &&& sets(
                env,
                "DIFFUSION_MODEL_PATH"@,
                s.model_path,
                "/opt/nvme-scratch/dgem/diffusiongemma-eval/models/diffusiongemma-26B-A4B-it-Q4_K_M.gguf"@,
            )
            &&& sets(
                env,
                "DIFFUSION_LD_LIBRARY_PATH"@,
                s.ld_library_path,
                "/opt/nvme-scratch/dgem/llama-diffusion/build-vulkan/bin"@,
            )
            &&& sets(env, "DIFFUSION_BIND"@, s.bind, "127.0.0.1"@)
        }),
{
}

/// The setting `key` makes `taken`: its trimmed text where it is written and not blank, else the
/// default.
pub open spec fn sets(
    env: Map<Seq<char>, Seq<char>>,
    key: Seq<char>,
    taken: Seq<char>,
    default: Seq<char>,
) -> bool {
    &&& env.contains_key(key) && trim(env[key]).len() > 0 ==> taken == trim(env[key])
    &&& !env.contains_key(key) || trim(env[key]).len() == 0 ==> taken == default
}

/// A number that is written and fits is taken, each under its own name; any other is the default.
/// Arguments are those that are written, where any are.
pub proof fn law_daemon_numbers_are_set_by_name(env: Map<Seq<char>, Seq<char>>)
    ensures
        ({
            let s = DiffusionAnswers::of_env(env).settings();
            &&& sets_number(env, "DIFFUSION_PORT"@, 65535, s.port as nat, 8877)
            &&& sets_number(env, "DIFFUSION_IDLE_SECS"@, u64::MAX as nat, s.idle_secs as nat, 300)
            &&& sets_number(
                env,
                "DIFFUSION_START_TIMEOUT_SECS"@,
                u64::MAX as nat,
                s.start_timeout_secs as nat,
                120,
            )
            &&& env.contains_key("DIFFUSION_EXTRA_ARGS"@) && items(
                env["DIFFUSION_EXTRA_ARGS"@],
                Separator::White,
            ).len() > 0 ==> s.extra_args == items(env["DIFFUSION_EXTRA_ARGS"@], Separator::White)
            &&& !env.contains_key("DIFFUSION_EXTRA_ARGS"@) || items(
                env["DIFFUSION_EXTRA_ARGS"@],
                Separator::White,
            ).len() == 0 ==> s.extra_args == seq![
                "-ngl"@,
                "99"@,
                "-t"@,
                "4"@,
                "--diffusion-eb"@,
                "auto"@,
                "-c"@,
                "8192"@,
                "-ub"@,
                "8192"@,
                "-b"@,
                "8192"@,
            ]
        }),
{
}

/// The setting `key` makes `taken`: the number that its trimmed text writes, up to `max`, else the
/// default.
pub open spec fn sets_number(
    env: Map<Seq<char>, Seq<char>>,
    key: Seq<char>,
    max: nat,
    taken: nat,
    default: nat,
) -> bool {
    &&& env.contains_key(key) && number(trim(env[key]), max) is Some ==> Some(taken) == number(
        trim(env[key]),
        max,
    )
    &&& !env.contains_key(key) || number(trim(env[key]), max) is None ==> taken == default
}

/// What the environment sets is what the process gets: its library path, address, port and model.
pub proof fn law_environment_reaches_the_process(
    env: Map<Seq<char>, Seq<char>>,
    plan: SpawnPlan,
)
    requires
        plan_for(plan, DiffusionAnswers::of_env(env).settings()),
    ensures
        env.contains_key("DIFFUSION_LD_LIBRARY_PATH"@) && trim(
            env["DIFFUSION_LD_LIBRARY_PATH"@],
        ).len() > 0 ==> gives(
            plan.env@,
            "LD_LIBRARY_PATH"@,
            trim(env["DIFFUSION_LD_LIBRARY_PATH"@]),
        ),
        env.contains_key("DIFFUSION_BIND"@) && trim(env["DIFFUSION_BIND"@]).len() > 0 ==> gives(
            plan.env@,
            "DGEM_BIND"@,
            trim(env["DIFFUSION_BIND"@]),
        ),
        env.contains_key("DIFFUSION_MODEL_PATH"@) && trim(env["DIFFUSION_MODEL_PATH"@]).len() > 0
            ==> plan.args@[1]@ == trim(env["DIFFUSION_MODEL_PATH"@]),
        env.contains_key("DIFFUSION_DAEMON_BIN"@) && trim(env["DIFFUSION_DAEMON_BIN"@]).len() > 0
            ==> plan.bin@ == trim(env["DIFFUSION_DAEMON_BIN"@]),
{
    let cfg = DiffusionAnswers::of_env(env).settings();
    law_process_gets_its_environment(plan, cfg);
    law_process_gets_its_arguments(plan, cfg, 0);
    law_daemon_texts_are_set_by_name(env);
}

/// The daemon is reached at the configured address and port, and completions below it.
pub proof fn law_daemon_is_reached_where_it_is_bound(cfg: DiffusionView)
    ensures
        base_address(cfg) == "http://"@ + cfg.bind + ":"@ + decimal(cfg.port as nat),
        serving_address(cfg) == base_address(cfg) + "/v1/chat/completions"@,
{
}

/// A model is the daemon's where its name is, with any tag or none and in any case; and where it is
/// the daemon's, its name up to the tag is that of the setting but for the case.
pub proof fn law_tag_and_case_name_the_same_daemon(
    model_id: Seq<char>,
    name: Seq<char>,
    tag: Seq<char>,
)
    requires
        !name.contains(':'),
    ensures
        names_daemon(model_id, name) <==> lower_ascii(name) == lower_ascii(model_id),
        names_daemon(model_id, name + seq![':'] + tag) <==> lower_ascii(name) == lower_ascii(
            model_id,
        ),
{
    crate::text::law_part_before_a_mark(name, tag, ':');
}

/// With nothing running and nobody on the GPU, the daemon has to be started.
pub proof fn law_free_gpu_allows_a_start()
    ensures
        start_decision(false, false) == StartDecision::Start,
        start_decision(true, false) == StartDecision::Blocked,
        start_decision(false, true) == StartDecision::AlreadyRunning,
        start_decision(true, true) == StartDecision::AlreadyRunning,
{
}

/// A running daemon is stopped from its idle time on and not before.
pub proof fn law_idle_daemon_is_stopped_in_time(idle_secs: u64, timeout: u64)
    requires
        timeout > 0,
    ensures
        evicts(true, idle_secs, timeout) <==> idle_secs >= timeout,
{
}

/// Each event changes what it is about and nothing else: the settings never change, a use is noted
/// at its instant, a look forgets a process only where it has exited, and a failed start changes
/// nothing.
pub proof fn law_daemon_events_change_their_own(
    m: ManagerView,
    polled: Liveness,
    serving: bool,
    started: bool,
    healthy: bool,
    now: u64,
)
    ensures
        m.reaped(polled).cfg == m.cfg,
        m.reaped(polled).last_activity == m.last_activity,
        m.reaped(polled).warned == m.warned,
        polled != Liveness::Exited ==> m.reaped(polled) == m,
        m.touched(now).last_activity == now,
        m.touched(now).cfg == m.cfg,
        m.touched(now).warned == m.warned,
        !serving ==> m.probed(serving, now) == m,
        serving ==> m.probed(serving, now).last_activity == now,
        m.probed(serving, now).cfg == m.cfg,
        !started ==> m.launched(started) == m,
        started ==> m.launched(started).owned,
        m.launched(started).cfg == m.cfg,
        m.launched(started).last_activity == m.last_activity,
        m.stopped().cfg == m.cfg,
        m.stopped().warned == m.warned,
        m.stopped().last_activity == m.last_activity,
        healthy ==> m.awaited(healthy, now).last_activity == now,
        healthy ==> m.awaited(healthy, now).owned == m.owned,
        !healthy ==> !m.awaited(healthy, now).owned,
        !healthy ==> m.awaited(healthy, now).last_activity == m.last_activity,
        m.awaited(healthy, now).cfg == m.cfg,
{
}

/// A step that serves says where, and one that fails says why.
pub proof fn law_steps_say_where_and_why(text: String, url: Seq<char>)
    ensures
        serves_from(EnsureStep::Serve(text), url) <==> text@ == url,
        fails_for(EnsureStep::Fail(text), url) <==> text@ == url,
        !serves_from(EnsureStep::Fail(text), url),
        !serves_from(EnsureStep::ProbePort(text), url),
        !fails_for(EnsureStep::Serve(text), url),
{
}

/// Settings that a getter answers for are asked for by their names: where it always answers as
/// `answer` says, each setting is made from the answer under its own name.
pub proof fn law_getter_is_asked_by_name<F: Fn(&str) -> Option<String>>(
    get: F,
    answer: spec_fn(Seq<char>) -> Option<Seq<char>>,
    a: DiffusionAnswers,
)
    requires
        forall|key: &str, r: Option<String>| #[trigger]
            call_ensures(get, (key,), r) ==> opt_view(r) == answer(key@),
        may_give(get, a),
    ensures
        a.model_id == answer("DIFFUSION_MODEL_ID"@),
        a.bin == answer("DIFFUSION_DAEMON_BIN"@),
        a.model_path == answer("DIFFUSION_MODEL_PATH"@),
        a.ld_library_path == answer("DIFFUSION_LD_LIBRARY_PATH"@),
        a.bind == answer("DIFFUSION_BIND"@),
        a.port == answer("DIFFUSION_PORT"@),
        a.idle_secs == answer("DIFFUSION_IDLE_SECS"@),
        a.start_timeout_secs == answer("DIFFUSION_START_TIMEOUT_SECS"@),
        a.extra_args == answer("DIFFUSION_EXTRA_ARGS"@),
{
}

} // verus!
