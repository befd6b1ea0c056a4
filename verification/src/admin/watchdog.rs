//! When idle mode ends by itself.
//!
//! A deadline ends it, unless a build holds the GPU. A build holds it only for as long as it
//! renews its lease: silence ends idle mode before the deadline, and never before the silence
//! has lasted as long as it was promised.
use vstd::prelude::*;

use crate::admin::idle::{
    manifest_view, ControllerView, IdleController, ManifestView, ResumeManifest, StateView,
};
use crate::env::{positive_or, positive_var, var, var_of};
use crate::gpu_exclusive::{GpuExclusive, GpuView, LockView};
use crate::table::Table;
use crate::text::{
    blank, contains, has, is_blank, items, lower_ascii, lowered, lowered_items_of, owned, views,
    Separator,
};

verus! {

/// Seconds of idle mode after which the watchdog ends it.
pub const DEFAULT_WATCHDOG_SECS: u64 = 3600;

/// Seconds that a drain may take.
pub const DEFAULT_DRAIN_SECS: u64 = 30;

/// What the label of a build's lease contains.
pub const DEFAULT_COMPILER_LEASE_HOLDERS: &'static str = "compiler,build,bld";

/// Seconds of silence after which a holder counts as gone.
pub const DEFAULT_CODER_ACTIVITY_TIMEOUT_SECS: u64 = 900;

/// Seconds that the whole release may take.
pub const DEFAULT_RELEASE_BUDGET_SECS: u64 = 90;

/// Seconds after which a transition in progress counts as stuck.
pub const DEFAULT_STALE_TRANSITION_SECS: u64 = 300;

/// What the label of a coding job's lease contains.
pub const DEFAULT_CODER_ACTIVITY_HOLDERS: &'static str = "coder,assistant";

/// The positive number that the setting `key` writes, or `default`.
pub fn parse_positive_env(env: &Table, key: &str, default: u64) -> (r: u64)
    ensures
        r == positive_or(var(env@, key@), default),
{
    positive_var(env, key, default)
}

/// The silence that `CHORD_IDLE_CODER_ACTIVITY_TIMEOUT_SECS` allows.
pub fn coder_activity_timeout_secs_from_env(env: &Table) -> (r: u64)
    ensures
        r == positive_or(
            var(env@, "CHORD_IDLE_CODER_ACTIVITY_TIMEOUT_SECS"@),
            DEFAULT_CODER_ACTIVITY_TIMEOUT_SECS,
        ),
{
    parse_positive_env(
        env,
        "CHORD_IDLE_CODER_ACTIVITY_TIMEOUT_SECS",
        DEFAULT_CODER_ACTIVITY_TIMEOUT_SECS,
    )
}

/// The duration of idle mode that `CHORD_IDLE_WATCHDOG_SECS` allows.
pub fn watchdog_secs_from_env(env: &Table) -> (r: u64)
    ensures
        r == positive_or(var(env@, "CHORD_IDLE_WATCHDOG_SECS"@), DEFAULT_WATCHDOG_SECS),
{
    parse_positive_env(env, "CHORD_IDLE_WATCHDOG_SECS", DEFAULT_WATCHDOG_SECS)
}

/// The drain that `CHORD_IDLE_DRAIN_SECS` allows.
pub fn drain_secs_from_env(env: &Table) -> (r: u64)
    ensures
        r == positive_or(var(env@, "CHORD_IDLE_DRAIN_SECS"@), DEFAULT_DRAIN_SECS),
{
    parse_positive_env(env, "CHORD_IDLE_DRAIN_SECS", DEFAULT_DRAIN_SECS)
}

/// The release that `CHORD_IDLE_RELEASE_BUDGET_SECS` allows.
pub open spec fn release_budget(env: Map<Seq<char>, Seq<char>>) -> u64 {
    positive_or(var(env, "CHORD_IDLE_RELEASE_BUDGET_SECS"@), DEFAULT_RELEASE_BUDGET_SECS)
}

/// The release that `CHORD_IDLE_RELEASE_BUDGET_SECS` allows.
pub fn release_budget_secs_from_env(env: &Table) -> (r: u64)
    ensures
        r == release_budget(env@),
{
    parse_positive_env(env, "CHORD_IDLE_RELEASE_BUDGET_SECS", DEFAULT_RELEASE_BUDGET_SECS)
}

/// The age at which a transition counts as stuck: the one that was asked for where it lies beyond
/// the release budget, else half as much again as the budget and no less than the default.
pub open spec fn stale_bound(asked: u64, budget: u64) -> u64 {
    if asked > budget {
        asked
    } else {
        let half_more = budget + budget / 2;
        let capped = if half_more > u64::MAX {
            u64::MAX
        } else {
            half_more as u64
        };
        if capped > DEFAULT_STALE_TRANSITION_SECS {
            capped
        } else {
            DEFAULT_STALE_TRANSITION_SECS
        }
    }
}

/// The age at which a transition counts as stuck, from `CHORD_IDLE_STALE_TRANSITION_SECS`.
pub fn stale_transition_secs_from_env(env: &Table) -> (r: u64)
    ensures
        r == stale_bound(
            positive_or(
                var(env@, "CHORD_IDLE_STALE_TRANSITION_SECS"@),
                DEFAULT_STALE_TRANSITION_SECS,
            ),
            release_budget(env@),
        ),
{
    let stale = parse_positive_env(
        env,
        "CHORD_IDLE_STALE_TRANSITION_SECS",
        DEFAULT_STALE_TRANSITION_SECS,
    );
    let budget = release_budget_secs_from_env(env);
    if stale > budget {
        return stale;
    }
    let safe: u64 = budget.saturating_add(budget / 2);
    if safe > DEFAULT_STALE_TRANSITION_SECS {
        safe
    } else {
        DEFAULT_STALE_TRANSITION_SECS
    }
}

/// What the operator is told of an age that does not lie beyond the release budget.
pub const STALE_TRANSITION_CLAMPED: &'static str =
    "CHORD_IDLE_STALE_TRANSITION_SECS ≤ release budget — clamping up to preserve the no-mid-release-admission invariant";

/// The age that was asked for, the release budget, the age that is taken instead, and what the
/// operator is told; nothing where the age that was asked for is taken.
pub fn stale_transition_warning(env: &Table) -> (r: Option<(u64, u64, u64, &'static str)>)
    ensures
        ({
            let asked = positive_or(
                var(env@, "CHORD_IDLE_STALE_TRANSITION_SECS"@),
                DEFAULT_STALE_TRANSITION_SECS,
            );
            let budget = release_budget(env@);
            match r {
                Some(w) => asked <= budget && w.0 == asked && w.1 == budget && w.2 == stale_bound(
                    asked,
                    budget,
                ) && w.3@ == STALE_TRANSITION_CLAMPED@,
                None => asked > budget,
            }
        }),
{
    let asked = parse_positive_env(
        env,
        "CHORD_IDLE_STALE_TRANSITION_SECS",
        DEFAULT_STALE_TRANSITION_SECS,
    );
    let budget = release_budget_secs_from_env(env);
    if asked > budget {
        None
    } else {
        Some((asked, budget, stale_transition_secs_from_env(env), STALE_TRANSITION_CLAMPED))
    }
}

/// A release that keeps to its budget is over before its transition counts as stuck, however the
/// two are set. (A budget of the largest number of seconds there is leaves no room above it.)
pub proof fn law_stuck_lies_beyond_the_budget(asked: u64, budget: u64)
    requires
        budget < u64::MAX,
    ensures
        stale_bound(asked, budget) > budget,
{
}

/// The labels that a setting lists, in lower case; those of `default` where it is missing or
/// blank.
pub open spec fn label_list(value: Option<Seq<char>>, default: Seq<char>) -> Seq<Seq<char>> {
    let listing = match value {
        Some(s) => if is_blank(s) {
            default
        } else {
            s
        },
        None => default,
    };
    items(listing, Separator::Comma).map_values(|t: Seq<char>| lower_ascii(t))
}

fn labels(value: Option<String>, default: &str) -> (r: Vec<String>)
    ensures
        views(r@) == label_list(crate::text::opt_view(value), default@),
{
    let listing = match value {
        Some(s) => if blank(s.as_str()) {
            owned(default)
        } else {
            s
        },
        None => owned(default),
    };
    lowered_items_of(listing.as_str(), Separator::Comma)
}

/// What the label of a build's lease contains, from `CHORD_IDLE_COMPILER_LEASE_HOLDERS`.
pub fn compiler_lease_holders_from_env(env: &Table) -> (r: Vec<String>)
    ensures
        views(r@) == label_list(
            var(env@, "CHORD_IDLE_COMPILER_LEASE_HOLDERS"@),
            DEFAULT_COMPILER_LEASE_HOLDERS@,
        ),
{
    labels(var_of(env, "CHORD_IDLE_COMPILER_LEASE_HOLDERS"), DEFAULT_COMPILER_LEASE_HOLDERS)
}

/// What the label of a coding job's lease contains, from `CHORD_IDLE_CODER_ACTIVITY_HOLDERS`.
pub fn coder_activity_holders_from_env(env: &Table) -> (r: Vec<String>)
    ensures
        views(r@) == label_list(
            var(env@, "CHORD_IDLE_CODER_ACTIVITY_HOLDERS"@),
            DEFAULT_CODER_ACTIVITY_HOLDERS@,
        ),
{
    labels(var_of(env, "CHORD_IDLE_CODER_ACTIVITY_HOLDERS"), DEFAULT_CODER_ACTIVITY_HOLDERS)
}

/// The label contains one of the patterns, whatever the case of the ASCII letters of either. An
/// empty pattern matches nothing.
pub open spec fn label_matches(holder: Seq<char>, patterns: Seq<Seq<char>>) -> bool {
    exists|i: int|
        0 <= i < patterns.len() && (#[trigger] patterns[i]).len() > 0 && contains(
            lower_ascii(holder),
            lower_ascii(patterns[i]),
        )
}

/// The case of ASCII letters decides nothing, neither that of the label nor that of a pattern.
pub proof fn law_case_of_labels_decides_nothing(
    holder: Seq<char>,
    other: Seq<char>,
    patterns: Seq<Seq<char>>,
    others: Seq<Seq<char>>,
)
    requires
        lower_ascii(holder) == lower_ascii(other),
        patterns.len() == others.len(),
        forall|i: int|
            0 <= i < patterns.len() ==> lower_ascii(#[trigger] patterns[i]) == lower_ascii(
                #[trigger] others[i],
            ),
    ensures
        label_matches(holder, patterns) == label_matches(other, others),
{
    assert forall|i: int| 0 <= i < patterns.len() implies (#[trigger] patterns[i]).len()
        == (#[trigger] others[i]).len() by {
        assert(lower_ascii(patterns[i]).len() == lower_ascii(others[i]).len());
    }
    if label_matches(holder, patterns) {
        let i = choose|i: int|
            0 <= i < patterns.len() && (#[trigger] patterns[i]).len() > 0 && contains(
                lower_ascii(holder),
                lower_ascii(patterns[i]),
            );
        assert(others[i].len() > 0);
    }
    if label_matches(other, others) {
        let i = choose|i: int|
            0 <= i < others.len() && (#[trigger] others[i]).len() > 0 && contains(
                lower_ascii(other),
                lower_ascii(others[i]),
            );
        assert(patterns[i].len() > 0);
    }
}

fn matches_any(holder: &str, patterns: &[String]) -> (r: bool)
    ensures
        r == label_matches(holder@, views(patterns@)),
{
    let label = lowered(holder);
    let mut i: usize = 0;
    while i < patterns.len()
        invariant
            i <= patterns.len(),
            label@ == lower_ascii(holder@),
            forall|k: int|
                0 <= k < i ==> !((#[trigger] views(patterns@)[k]).len() > 0 && contains(
                    lower_ascii(holder@),
                    lower_ascii(views(patterns@)[k]),
                )),
        decreases patterns.len() - i,
    {
        assert(views(patterns@)[i as int] == patterns@[i as int]@);
        let pattern = lowered(patterns[i].as_str());
        if !patterns[i].as_str().is_empty() && has(label.as_str(), pattern.as_str()) {
            return true;
        }
        i = i + 1;
    }
    false
}

/// Does `holder` name a build's lease?
pub fn is_compiler_lease(holder: &str, patterns: &[String]) -> (r: bool)
    ensures
        r == label_matches(holder@, views(patterns@)),
{
    matches_any(holder, patterns)
}

/// Does `holder` name a coding job's lease?
pub fn is_coder_activity_holder(holder: &str, patterns: &[String]) -> (r: bool)
    ensures
        r == label_matches(holder@, views(patterns@)),
{
    matches_any(holder, patterns)
}

/// Does a build hold a live lease on the GPU at `now`?
pub fn compiler_lease_held(gpu: &GpuExclusive, env: &Table, now: u64) -> (r: bool)
    ensures
        r == (gpu@.active(now) is Some && label_matches(
            gpu@.active(now)->0.holder,
            label_list(
                var(env@, "CHORD_IDLE_COMPILER_LEASE_HOLDERS"@),
                DEFAULT_COMPILER_LEASE_HOLDERS@,
            ),
        )),
{
    match gpu.active_holder(now) {
        Some(rec) => {
            let patterns = compiler_lease_holders_from_env(env);
            is_compiler_lease(rec.holder.as_str(), patterns.as_slice())
        },
        None => false,
    }
}

/// The view of an optional label.
pub open spec fn label_view(holder: Option<&str>) -> Option<Seq<char>> {
    match holder {
        Some(h) => Some(h@),
        None => None,
    }
}

/// The deadline ends idle mode: it has passed and no build holds the GPU.
pub open spec fn deadline_ends(
    expired: bool,
    holder: Option<Seq<char>>,
    patterns: Seq<Seq<char>>,
) -> bool {
    expired && !(holder is Some && label_matches(holder->0, patterns))
}

/// Does the deadline end idle mode?
pub fn watchdog_should_activate(expired: bool, holder: Option<&str>, patterns: &[String]) -> (r:
    bool)
    ensures
        r == deadline_ends(expired, label_view(holder), views(patterns@)),
{
    if !expired {
        return false;
    }
    match holder {
        Some(h) => !is_compiler_lease(h, patterns),
        None => true,
    }
}

/// The holder has not been heard of for `timeout` seconds. A clock that stepped back reads as
/// just heard of; a holder that was never heard of is silent.
pub open spec fn silent(now: u64, last_heartbeat: Option<u64>, timeout: u64) -> bool {
    match last_heartbeat {
        None => true,
        Some(hb) => (if now >= hb {
            now - hb
        } else {
            0
        }) >= timeout,
    }
}

/// Has the holder not been heard of for `timeout` seconds?
pub fn coder_activity_stale(now: u64, last_heartbeat: Option<u64>, timeout: u64) -> (r: bool)
    ensures
        r == silent(now, last_heartbeat, timeout),
{
    match last_heartbeat {
        None => true,
        Some(hb) => now.saturating_sub(hb) >= timeout,
    }
}

/// The watchdog ends idle mode: the deadline does, or a build or coding job has fallen silent.
pub open spec fn watchdog_ends(
    now: u64,
    expired: bool,
    holder: Option<Seq<char>>,
    last_heartbeat: Option<u64>,
    patterns: Seq<Seq<char>>,
    coder_patterns: Seq<Seq<char>>,
    timeout: u64,
) -> bool {
    ||| deadline_ends(expired, holder, patterns)
    ||| {
        &&& holder matches Some(h) && (label_matches(h, patterns) || label_matches(
            h,
            coder_patterns,
        ))
        &&& silent(now, last_heartbeat, timeout)
    }
}

/// Does the watchdog end idle mode at this tick?
pub fn watchdog_tick_should_activate(
    now: u64,
    deadline_expired: bool,
    holder: Option<&str>,
    holder_last_heartbeat: Option<u64>,
    patterns: &[String],
    coder_activity_patterns: &[String],
    coder_activity_timeout: u64,
) -> (r: bool)
    ensures
        r == watchdog_ends(
            now,
            deadline_expired,
            label_view(holder),
            holder_last_heartbeat,
            views(patterns@),
            views(coder_activity_patterns@),
            coder_activity_timeout,
        ),
{
    if watchdog_should_activate(deadline_expired, holder, patterns) {
        return true;
    }
    let watched = match holder {
        Some(h) => is_compiler_lease(h, patterns) || is_coder_activity_holder(
            h,
            coder_activity_patterns,
        ),
        None => false,
    };
    watched && coder_activity_stale(now, holder_last_heartbeat, coder_activity_timeout)
}

/// The lease that the watchdog looks at: one that has been renewed within the longer of its own
/// time to live and the silence that was promised.
pub open spec fn watched_lease(gpu: GpuView, now: u64, timeout: u64) -> Option<LockView> {
    let ttl = if gpu.ttl > timeout {
        gpu.ttl
    } else {
        timeout
    };
    (GpuView { ttl, ..gpu }).active(now)
}

/// The tick ends the idle episode of `m`.
pub open spec fn tick_ends<G>(
    m: ManifestView<G>,
    gpu: GpuView,
    now: u64,
    patterns: Seq<Seq<char>>,
    coder_patterns: Seq<Seq<char>>,
    timeout: u64,
) -> bool {
    let lease = watched_lease(gpu, now, timeout);
    watchdog_ends(
        now,
        now >= m.watchdog_deadline,
        match lease {
            Some(r) => Some(r.holder),
            None => None,
        },
        match lease {
            Some(r) => Some(r.last_heartbeat),
            None => None,
        },
        patterns,
        coder_patterns,
        timeout,
    )
}

/// The episode that the watchdog ends at this tick, if any.
pub open spec fn due<G>(
    ctl: ControllerView<G>,
    gpu: GpuView,
    now: u64,
    patterns: Seq<Seq<char>>,
    coder_patterns: Seq<Seq<char>>,
    timeout: u64,
) -> Option<u64> {
    match ctl.state.manifest() {
        Some(m) => if tick_ends(m, gpu, now, patterns, coder_patterns, timeout) {
            Some(m.episode)
        } else {
            None
        },
        None => None,
    }
}

/// The episode that the watchdog ends at this tick, if any. Whoever keeps a state file clears it
/// before the tick ([`IdleController::must_clear`]).
pub fn watchdog_due<G: Copy>(
    ctl: &IdleController<G>,
    gpu: &GpuExclusive,
    now: u64,
    patterns: &[String],
    coder_activity_patterns: &[String],
    coder_activity_timeout: u64,
) -> (r: Option<u64>)
    ensures
        r == due(
            ctl@,
            gpu@,
            now,
            views(patterns@),
            views(coder_activity_patterns@),
            coder_activity_timeout,
        ),
{
    let m = match ctl.snapshot() {
        Some(m) => m,
        None => {
            return None;
        },
    };
    let own_ttl: u64 = gpu.ttl();
    let effective_ttl: u64 = if own_ttl > coder_activity_timeout {
        own_ttl
    } else {
        coder_activity_timeout
    };
    let lease = match gpu.snapshot(now) {
        Some((rec, _)) => if rec.is_expired(now, effective_ttl) {
            None
        } else {
            Some(rec)
        },
        None => None,
    };
    let ends = match &lease {
        Some(rec) => watchdog_tick_should_activate(
            now,
            m.watchdog_expired(now),
            Some(rec.holder.as_str()),
            Some(rec.last_heartbeat),
            patterns,
            coder_activity_patterns,
            coder_activity_timeout,
        ),
        None => watchdog_tick_should_activate(
            now,
            m.watchdog_expired(now),
            None,
            None,
            patterns,
            coder_activity_patterns,
            coder_activity_timeout,
        ),
    };
    if ends {
        Some(m.episode)
    } else {
        None
    }
}

/// One tick of the watchdog: where an episode is due, ends that episode and no other. Says what
/// was ended.
pub fn watchdog_tick<G: Copy>(
    ctl: &mut IdleController<G>,
    gpu: &GpuExclusive,
    now: u64,
    patterns: &[String],
    coder_activity_patterns: &[String],
    coder_activity_timeout: u64,
    cleared: bool,
) -> (r: Option<ResumeManifest<G>>)
    ensures
        match due(
            old(ctl)@,
            gpu@,
            now,
            views(patterns@),
            views(coder_activity_patterns@),
            coder_activity_timeout,
        ) {
            Some(episode) => {
                &&& final(ctl)@ == old(ctl)@.exit(Some(episode), cleared, now).0
                &&& match old(ctl)@.exit(Some(episode), cleared, now).1 {
                    Ok(m) => manifest_view(r) == Some(m),
                    Err(_) => r is None,
                }
            },
            None => final(ctl)@ == old(ctl)@ && r is None,
        },
        final(ctl).path() == old(ctl).path(),
{
    let episode = match watchdog_due(
        ctl,
        gpu,
        now,
        patterns,
        coder_activity_patterns,
        coder_activity_timeout,
    ) {
        Some(e) => e,
        None => {
            return None;
        },
    };
    match ctl.begin_activate_for_episode(episode, cleared, now) {
        Ok((manifest, generation)) => {
            ctl.finish_activate(generation);
            Some(manifest)
        },
        Err(_) => None,
    }
}

/// A build that renews its lease is never interrupted: for as long as it was heard of within the
/// promised silence, the watchdog leaves idle mode alone, past any deadline and whatever the
/// lease's own time to live.
pub proof fn law_renewing_build_is_left_alone<G>(
    ctl: ControllerView<G>,
    gpu: GpuView,
    now: u64,
    patterns: Seq<Seq<char>>,
    coder_patterns: Seq<Seq<char>>,
    timeout: u64,
)
    requires
        gpu.lock is Some,
        label_matches(gpu.lock->0.holder, patterns),
        now - gpu.lock->0.last_heartbeat < timeout,
        timeout > 0,
    ensures
        due(ctl, gpu, now, patterns, coder_patterns, timeout) is None,
{
}

/// Silence ends idle mode: once the holder of a build's or coding job's lease has not been heard
/// of for the promised time, the idle episode is due, before any deadline.
pub proof fn law_silence_ends_idle<G>(
    ctl: ControllerView<G>,
    gpu: GpuView,
    now: u64,
    patterns: Seq<Seq<char>>,
    coder_patterns: Seq<Seq<char>>,
    timeout: u64,
)
    requires
        ctl.state is Idle,
        watched_lease(gpu, now, timeout) matches Some(r) && (label_matches(r.holder, patterns)
            || label_matches(r.holder, coder_patterns)) && now - r.last_heartbeat >= timeout,
    ensures
        due(ctl, gpu, now, patterns, coder_patterns, timeout) is Some,
{
}

/// An idle proxy is never left dead: past the deadline, with no build's lease renewed within the
/// promised silence, the episode is due.
pub proof fn law_deadline_ends_idle<G>(
    ctl: ControllerView<G>,
    gpu: GpuView,
    now: u64,
    patterns: Seq<Seq<char>>,
    coder_patterns: Seq<Seq<char>>,
    timeout: u64,
)
    requires
        ctl.state.manifest() matches Some(m) && now >= m.watchdog_deadline,
        gpu.lock matches Some(r) ==> !label_matches(r.holder, patterns) || now - r.last_heartbeat
            >= timeout,
    ensures
        due(ctl, gpu, now, patterns, coder_patterns, timeout) is Some,
{
}

/// Watching coding jobs too can only end idle mode earlier, never keep it longer.
pub proof fn law_coder_patterns_only_end_earlier(
    now: u64,
    expired: bool,
    holder: Option<Seq<char>>,
    last_heartbeat: Option<u64>,
    patterns: Seq<Seq<char>>,
    coder_patterns: Seq<Seq<char>>,
    timeout: u64,
)
    ensures
        watchdog_ends(now, expired, holder, last_heartbeat, patterns, Seq::empty(), timeout)
            ==> watchdog_ends(
            now,
            expired,
            holder,
            last_heartbeat,
            patterns,
            coder_patterns,
            timeout,
        ),
{
}

/// An age that lies beyond the release budget is taken as it is. Any other is raised to half as much
/// again as the budget, and to five minutes at least.
pub proof fn law_stuck_age_is_raised_to_a_safe_one(asked: u64, budget: u64)
    ensures
        asked > budget ==> stale_bound(asked, budget) == asked,
        asked <= budget ==> stale_bound(asked, budget) >= 300,
        asked <= budget && budget + budget / 2 <= u64::MAX ==> stale_bound(asked, budget) >= budget
            + budget / 2,
        asked <= budget ==> stale_bound(asked, budget) == 300 || stale_bound(asked, budget)
            == u64::MAX || stale_bound(asked, budget) == budget + budget / 2,
        asked <= budget && budget + budget / 2 > u64::MAX ==> stale_bound(asked, budget)
            == u64::MAX,
{
}

/// Where nothing is set, idle mode lasts an hour, a drain half a minute, a release a minute and a
/// half, a transition counts as stuck after five minutes, and a quarter of an hour of silence ends
/// idle mode.
pub proof fn law_unset_durations(env: Map<Seq<char>, Seq<char>>)
    ensures
        positive_or(None, DEFAULT_WATCHDOG_SECS) == 3600,
        positive_or(None, DEFAULT_DRAIN_SECS) == 30,
        positive_or(None, DEFAULT_STALE_TRANSITION_SECS) == 300,
        positive_or(None, DEFAULT_CODER_ACTIVITY_TIMEOUT_SECS) == 900,
        !env.contains_key("CHORD_IDLE_RELEASE_BUDGET_SECS"@) ==> release_budget(env) == 90,
{
}

/// A label is matched where it holds a pattern anywhere, in whatever case; and where it is matched,
/// some pattern that is not empty stands in it.
pub proof fn law_label_matches_what_it_holds(
    holder: Seq<char>,
    at: int,
    patterns: Seq<Seq<char>>,
    i: int,
)
    ensures
        0 <= i < patterns.len() && patterns[i].len() > 0 && 0 <= at <= at + patterns[i].len()
            <= holder.len() && lower_ascii(holder.subrange(at, at + patterns[i].len()))
            == lower_ascii(patterns[i]) ==> label_matches(holder, patterns),
        label_matches(holder, patterns) ==> exists|k: int, from: int|
            0 <= k < patterns.len() && patterns[k].len() > 0 && 0 <= from <= from
                + patterns[k].len() <= holder.len() && #[trigger] lower_ascii(
                holder.subrange(from, from + patterns[k].len()),
            ) == lower_ascii(patterns[k]),
        (forall|k: int| 0 <= k < patterns.len() ==> (#[trigger] patterns[k]).len() == 0)
            ==> !label_matches(holder, patterns),
{
    let low = lower_ascii(holder);
    if 0 <= i < patterns.len() && patterns[i].len() > 0 && 0 <= at <= at + patterns[i].len()
        <= holder.len() && lower_ascii(holder.subrange(at, at + patterns[i].len())) == lower_ascii(
        patterns[i],
    ) {
        assert(low.subrange(at, at + patterns[i].len()) =~= lower_ascii(
            holder.subrange(at, at + patterns[i].len()),
        ));
        assert(crate::text::occurs_at(low, lower_ascii(patterns[i]), at));
    }
    if label_matches(holder, patterns) {
        let k = choose|k: int|
            0 <= k < patterns.len() && (#[trigger] patterns[k]).len() > 0 && contains(
                low,
                lower_ascii(patterns[k]),
            );
        let from = choose|from: int| crate::text::occurs_at(low, lower_ascii(patterns[k]), from);
        assert(lower_ascii(holder.subrange(from, from + patterns[k].len())) =~= low.subrange(
            from,
            from + patterns[k].len(),
        ));
    }
}

/// The labels of a setting are those that it lists, in lower case; without a setting, or with a
/// blank one, they are the default's.
pub proof fn law_labels_are_the_listed_ones(
    value: Option<Seq<char>>,
    default: Seq<char>,
    i: int,
)
    ensures
        value is None || is_blank(value->0) ==> label_list(value, default) == label_list(
            Some(default),
            default,
        ),
        value is Some && !is_blank(value->0) ==> label_list(value, default).len() == items(
            value->0,
            Separator::Comma,
        ).len(),
        value is Some && !is_blank(value->0) && 0 <= i < items(value->0, Separator::Comma).len()
            ==> label_list(value, default)[i] == lower_ascii(items(value->0, Separator::Comma)[i]),
{
}

/// The watchdog ends idle mode in exactly two cases. Past the deadline, unless a build holds a lease
/// that it renewed within the longer of the lease's time to live and the promised silence; and,
/// before or after the deadline, when a build or coding job that holds such a lease has been silent
/// for the promised time. It ends the episode there is.
pub proof fn law_watchdog_decides_by_deadline_and_silence<G>(
    ctl: ControllerView<G>,
    m: ManifestView<G>,
    gpu: GpuView,
    now: u64,
    patterns: Seq<Seq<char>>,
    coder_patterns: Seq<Seq<char>>,
    timeout: u64,
)
    requires
        ctl.state == StateView::Idle(m),
    ensures
        ({
            let due = due(ctl, gpu, now, patterns, coder_patterns, timeout);
            &&& due is Some ==> due == Some(m.episode)
            &&& gpu.lock is None ==> (due is Some <==> now >= m.watchdog_deadline)
            &&& gpu.lock matches Some(lease) ==> {
                let quiet = now - lease.last_heartbeat;
                let build = label_matches(lease.holder, patterns);
                let watched = build || label_matches(lease.holder, coder_patterns);
                &&& quiet > gpu.ttl && quiet > timeout ==> (due is Some <==> now
                    >= m.watchdog_deadline)
                &&& quiet <= gpu.ttl || quiet <= timeout ==> (due is Some <==> (now
                    >= m.watchdog_deadline && !build) || (watched && (quiet >= timeout || timeout
                    == 0)))
            }
        }),
{
}

/// A proxy that is in service, or on its way to idle mode, has nothing that the watchdog could end.
pub proof fn law_watchdog_needs_an_episode<G>(
    ctl: ControllerView<G>,
    gpu: GpuView,
    now: u64,
    patterns: Seq<Seq<char>>,
    coder_patterns: Seq<Seq<char>>,
    timeout: u64,
)
    requires
        ctl.state is Active || ctl.state is EnteringIdle,
    ensures
        due(ctl, gpu, now, patterns, coder_patterns, timeout) is None,
{
}

/// The single questions agree with it: the deadline gives way to a build only, and silence is
/// counted from the last time a holder was heard of.
pub proof fn law_deadline_and_silence_apart(
    now: u64,
    holder: Seq<char>,
    heard: u64,
    patterns: Seq<Seq<char>>,
    timeout: u64,
)
    ensures
        !deadline_ends(false, Some(holder), patterns),
        !deadline_ends(false, None, patterns),
        deadline_ends(true, None, patterns),
        deadline_ends(true, Some(holder), patterns) <==> !label_matches(holder, patterns),
        silent(now, None, timeout),
        now >= heard ==> (silent(now, Some(heard), timeout) <==> now - heard >= timeout),
        now < heard ==> (silent(now, Some(heard), timeout) <==> timeout == 0),
{
}

} // verus!
