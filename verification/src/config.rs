//! Settings of the proxy.
use vstd::prelude::*;

use crate::aliases::{configured_aliases, parse_model_aliases};
use crate::decimal::number;
use crate::env::{number_in, number_or, number_var, text_or, text_var, var, var_of};
use crate::table::Table;
use crate::text::{
    blank, chars_of, filled, filled_of, is_blank, items, items_of, join, join3, lower_ascii,
    lowered, opt_view, owned, same, trim, trimmed, views, Separator,
};

verus! {

/// The file `name` in the directory `dir`.
pub open spec fn file_in(dir: Seq<char>, name: Seq<char>) -> Seq<char> {
    if dir.len() > 0 && dir.last() == '/' {
        dir + name
    } else {
        dir + "/"@ + name
    }
}

/// The file `name` in the directory `dir`.
fn file_of(dir: &str, name: &str) -> (r: String)
    ensures
        r@ == file_in(dir@, name@),
{
    let v = chars_of(dir);
    if v.len() > 0 && v[v.len() - 1] == '/' {
        join(dir, name)
    } else {
        join3(dir, "/", name)
    }
}

/// The directory of the files that outlive the process, where one is set.
pub open spec fn state_dir(env: Map<Seq<char>, Seq<char>>) -> Option<Seq<char>> {
    filled(var(env, "CHORD_STATE_DIR"@))
}

/// The file `name` in the state directory, where one is set.
pub open spec fn state_file(env: Map<Seq<char>, Seq<char>>, name: Seq<char>) -> Option<Seq<char>> {
    match state_dir(env) {
        Some(dir) => Some(file_in(dir, name)),
        None => None,
    }
}

/// The file that keeps the GPU lease.
pub open spec fn gpu_state_file(env: Map<Seq<char>, Seq<char>>) -> Option<Seq<char>> {
    state_file(env, "gpu_exclusive_lease.json"@)
}

/// The file that keeps the idle-mode manifest.
pub open spec fn idle_state_file(env: Map<Seq<char>, Seq<char>>) -> Option<Seq<char>> {
    state_file(env, "admin_idle_state.json"@)
}

/// The directory of the files that outlive the process, where one is set.
pub fn chord_state_dir(env: &Table) -> (r: Option<String>)
    ensures
        opt_view(r) == state_dir(env@),
{
    filled_of(var_of(env, "CHORD_STATE_DIR"))
}

fn state_path(env: &Table, name: &str) -> (r: Option<String>)
    ensures
        opt_view(r) == state_file(env@, name@),
{
    match chord_state_dir(env) {
        Some(dir) => Some(file_of(dir.as_str(), name)),
        None => None,
    }
}

/// The file that keeps the GPU lease across restarts.
pub fn gpu_exclusive_state_path(env: &Table) -> (r: Option<String>)
    ensures
        opt_view(r) == gpu_state_file(env@),
{
    state_path(env, "gpu_exclusive_lease.json")
}

/// The file that keeps the sweep sessions across restarts.
pub fn sweep_session_state_path(env: &Table) -> (r: Option<String>)
    ensures
        opt_view(r) == state_file(env@, "sweep_sessions.json"@),
{
    state_path(env, "sweep_sessions.json")
}

/// The file that keeps the idle-mode manifest across restarts.
pub fn admin_idle_state_path(env: &Table) -> (r: Option<String>)
    ensures
        opt_view(r) == idle_state_file(env@),
{
    state_path(env, "admin_idle_state.json")
}

/// The setting `key`, trimmed, where it is set and not blank.
pub open spec fn nonempty(env: Map<Seq<char>, Seq<char>>, key: Seq<char>) -> Option<Seq<char>> {
    filled(var(env, key))
}

fn srv05_env_nonempty(env: &Table, key: &str) -> (r: Option<String>)
    ensures
        opt_view(r) == nonempty(env@, key@),
{
    filled_of(var_of(env, key))
}

/// The counter of free GPU memory, where one is set. None is ever guessed.
pub fn vram_free_sysfs_path(env: &Table) -> (r: Option<String>)
    ensures
        opt_view(r) == nonempty(env@, "CHORD_VRAM_FREE_SYSFS_PATH"@),
{
    srv05_env_nonempty(env, "CHORD_VRAM_FREE_SYSFS_PATH")
}

/// The counter of the GPU's own memory, where one is set.
pub fn vram_total_sysfs_path(env: &Table) -> (r: Option<String>)
    ensures
        opt_view(r) == nonempty(env@, "CHORD_VRAM_TOTAL_SYSFS_PATH"@),
{
    srv05_env_nonempty(env, "CHORD_VRAM_TOTAL_SYSFS_PATH")
}

/// The counter of the system memory that the GPU can map, where one is set.
pub fn gtt_total_sysfs_path(env: &Table) -> (r: Option<String>)
    ensures
        opt_view(r) == nonempty(env@, "CHORD_GTT_TOTAL_SYSFS_PATH"@),
{
    srv05_env_nonempty(env, "CHORD_GTT_TOTAL_SYSFS_PATH")
}

/// The file that mirrors which models are resident, where one is set.
pub fn residency_state_path(env: &Table) -> (r: Option<String>)
    ensures
        opt_view(r) == nonempty(env@, "CHORD_RESIDENCY_STATE_PATH"@),
{
    srv05_env_nonempty(env, "CHORD_RESIDENCY_STATE_PATH")
}

/// How slowly a pinned chat model may load, in seconds, as it is written.
pub fn chat_pin_max_cold_load_s(env: &Table) -> (r: Option<String>)
    ensures
        opt_view(r) == nonempty(env@, "CHORD_CHAT_PIN_MAX_COLD_LOAD_S"@),
{
    srv05_env_nonempty(env, "CHORD_CHAT_PIN_MAX_COLD_LOAD_S")
}

/// Milliseconds that a launch waits for a place.
pub fn residency_wait_threshold_ms(env: &Table) -> (r: u64)
    ensures
        r == number_or(
            nonempty(env@, "CHORD_RESIDENCY_WAIT_THRESHOLD_MS"@),
            u64::MAX as nat,
            30000,
        ),
{
    number_in(srv05_env_nonempty(env, "CHORD_RESIDENCY_WAIT_THRESHOLD_MS"), u64::MAX, 30_000)
}

/// How to tell that the GPU has been released. The two memory sizes are left as they are written.
#[derive(Debug)]
pub struct ReleaseConfig {
    pub baseline_gb: Option<String>,
    pub tolerance_gb: Option<String>,
    pub timeout_ms: u64,
    pub poll_interval_ms: u64,
}

/// How to tell that the GPU has been released, from the environment.
pub fn release_config(env: &Table) -> (r: ReleaseConfig)
    ensures
        opt_view(r.baseline_gb) == nonempty(env@, "CHORD_RELEASE_BASELINE_GB"@),
        opt_view(r.tolerance_gb) == nonempty(env@, "CHORD_RELEASE_TOLERANCE_GB"@),
        r.timeout_ms == number_or(
            nonempty(env@, "CHORD_RELEASE_TIMEOUT_MS"@),
            u64::MAX as nat,
            30000,
        ),
        r.poll_interval_ms == number_or(
            nonempty(env@, "CHORD_RELEASE_POLL_MS"@),
            u64::MAX as nat,
            500,
        ),
{
    ReleaseConfig {
        baseline_gb: srv05_env_nonempty(env, "CHORD_RELEASE_BASELINE_GB"),
        tolerance_gb: srv05_env_nonempty(env, "CHORD_RELEASE_TOLERANCE_GB"),
        timeout_ms: number_in(
            srv05_env_nonempty(env, "CHORD_RELEASE_TIMEOUT_MS"),
            u64::MAX,
            30_000,
        ),
        poll_interval_ms: number_in(srv05_env_nonempty(env, "CHORD_RELEASE_POLL_MS"), u64::MAX, 500),
    }
}

/// The context sizes of a model whose profile names none. The memory size is left as it is
/// written.
#[derive(Debug)]
pub struct ContextDefaults {
    pub base_ctx: u64,
    pub min_ctx: u64,
    pub large_model_gb: Option<String>,
}

/// The context sizes of a model whose profile names none, from the environment.
pub fn swap_context_defaults(env: &Table) -> (r: ContextDefaults)
    ensures
        r.base_ctx == number_or(nonempty(env@, "CHORD_SWAP_BASE_CTX"@), u64::MAX as nat, 32768),
        r.min_ctx == number_or(nonempty(env@, "CHORD_SWAP_MIN_CTX"@), u64::MAX as nat, 8192),
        opt_view(r.large_model_gb) == nonempty(env@, "CHORD_SWAP_LARGE_MODEL_GB"@),
{
    ContextDefaults {
        base_ctx: number_in(srv05_env_nonempty(env, "CHORD_SWAP_BASE_CTX"), u64::MAX, 32768),
        min_ctx: number_in(srv05_env_nonempty(env, "CHORD_SWAP_MIN_CTX"), u64::MAX, 8192),
        large_model_gb: srv05_env_nonempty(env, "CHORD_SWAP_LARGE_MODEL_GB"),
    }
}

/// Daily call limits by role.
#[derive(Debug, Clone, Copy, PartialEq, Eq, Structural)]
pub struct RateLimitConfig {
    pub user_llm_limit: u32,
    pub user_tool_limit: u32,
    pub user_deep_limit: u32,
    pub guest_llm_limit: u32,
    pub guest_tool_limit: u32,
    pub guest_deep_limit: u32,
}

/// The limits that hold where nothing is set.
pub open spec fn default_limits() -> RateLimitConfig {
    RateLimitConfig {
        user_llm_limit: 200,
        user_tool_limit: 500,
        user_deep_limit: 50,
        guest_llm_limit: 20,
        guest_tool_limit: 50,
        guest_deep_limit: 5,
    }
}

/// The limit that the setting `name` writes as it stands, or `default`.
pub open spec fn limit(env: Map<Seq<char>, Seq<char>>, name: Seq<char>, default: u32) -> u32 {
    number_or(var(env, name), u32::MAX as nat, default as nat) as u32
}

/// The limits that an environment sets.
pub open spec fn limits_of(env: Map<Seq<char>, Seq<char>>) -> RateLimitConfig {
    RateLimitConfig {
        user_llm_limit: limit(env, "CHORD_RATE_LLM_USER"@, 200),
        user_tool_limit: limit(env, "CHORD_RATE_TOOL_USER"@, 500),
        user_deep_limit: limit(env, "CHORD_RATE_DEEP_USER"@, 50),
        guest_llm_limit: limit(env, "CHORD_RATE_LLM_GUEST"@, 20),
        guest_tool_limit: limit(env, "CHORD_RATE_TOOL_GUEST"@, 50),
        guest_deep_limit: limit(env, "CHORD_RATE_DEEP_GUEST"@, 5),
    }
}

fn read_u32(env: &Table, name: &str, default: u32) -> (r: u32)
    ensures
        r == limit(env@, name@, default),
{
    number_var(env, name, u32::MAX as u64, default as u64) as u32
}

impl Default for RateLimitConfig {
    fn default() -> (r: Self)
        ensures
            r == default_limits(),
    {
        RateLimitConfig {
            user_llm_limit: 200,
            user_tool_limit: 500,
            user_deep_limit: 50,
            guest_llm_limit: 20,
            guest_tool_limit: 50,
            guest_deep_limit: 5,
        }
    }
}

impl RateLimitConfig {
    /// The limits that an environment sets.
    pub fn from_env(env: &Table) -> (r: Self)
        ensures
            r == limits_of(env@),
    {
        RateLimitConfig {
            user_llm_limit: read_u32(env, "CHORD_RATE_LLM_USER", 200),
            user_tool_limit: read_u32(env, "CHORD_RATE_TOOL_USER", 500),
            user_deep_limit: read_u32(env, "CHORD_RATE_DEEP_USER", 50),
            guest_llm_limit: read_u32(env, "CHORD_RATE_LLM_GUEST", 20),
            guest_tool_limit: read_u32(env, "CHORD_RATE_TOOL_GUEST", 50),
            guest_deep_limit: read_u32(env, "CHORD_RATE_DEEP_GUEST", 5),
        }
    }
}

/// Where nothing is set the default limits hold.
pub proof fn law_unset_limits_are_the_defaults()
    ensures
        limits_of(Map::empty()) == default_limits(),
{
}

/// The hosts that models may be fetched from, as a list names them.
pub fn parse_model_source_allowlist(raw: &str) -> (r: Vec<String>)
    ensures
        views(r@) == items(raw@, Separator::CommaOrBlank),
{
    items_of(raw, Separator::CommaOrBlank)
}

/// The models that are never archived, as a list names them.
pub fn parse_protected_models(raw: &str) -> (r: Vec<String>)
    ensures
        views(r@) == items(raw@, Separator::Comma),
{
    items_of(raw, Separator::Comma)
}

/// The hosts that models may be fetched from. Where none is set there is none: nothing may be
/// fetched.
pub open spec fn allowed_sources(env: Map<Seq<char>, Seq<char>>) -> Seq<Seq<char>> {
    match var(env, "MODEL_SOURCE_ALLOWLIST"@) {
        Some(raw) => items(raw, Separator::CommaOrBlank),
        None => Seq::empty(),
    }
}

/// The hosts that models may be fetched from, from `MODEL_SOURCE_ALLOWLIST`.
pub fn model_source_allowlist(env: &Table) -> (r: Vec<String>)
    ensures
        views(r@) == allowed_sources(env@),
{
    match var_of(env, "MODEL_SOURCE_ALLOWLIST") {
        Some(raw) => parse_model_source_allowlist(raw.as_str()),
        None => {
            let none: Vec<String> = Vec::new();
            assert(views(none@) =~= Seq::<Seq<char>>::empty());
            none
        },
    }
}

/// The bearer token for the tool backend, where one is set.
pub fn mcp_backend_token(env: &Table) -> (r: Option<String>)
    ensures
        opt_view(r) == nonempty(env@, "MCP_BACKEND_TOKEN"@),
{
    srv05_env_nonempty(env, "MCP_BACKEND_TOKEN")
}

/// Runtimes are told to send no telemetry, unless the setting says `false`, `0` or `no` in any
/// case.
pub open spec fn telemetry_off(env: Map<Seq<char>, Seq<char>>) -> bool {
    match var(env, "CHORD_RUNTIME_TELEMETRY_OFF"@) {
        Some(v) => {
            let word = lower_ascii(trim(v));
            !(word == "false"@ || word == "0"@ || word == "no"@)
        },
        None => true,
    }
}

/// Are runtimes told to send no telemetry?
pub fn runtime_telemetry_off(env: &Table) -> (r: bool)
    ensures
        r == telemetry_off(env@),
{
    match var_of(env, "CHORD_RUNTIME_TELEMETRY_OFF") {
        Some(v) => {
            let word = lowered(trimmed(v.as_str()).as_str());
            !(same(word.as_str(), "false") || same(word.as_str(), "0") || same(word.as_str(), "no"))
        },
        None => true,
    }
}

/// The program that a setting names: `default` where it is not set, none where it is blank.
pub open spec fn program(value: Option<Seq<char>>, default: Seq<char>) -> Option<Seq<char>> {
    match value {
        Some(_) => filled(value),
        None => Some(default),
    }
}

fn program_of(env: &Table, name: &str, default: &str) -> (r: Option<String>)
    ensures
        opt_view(r) == program(var(env@, name@), default@),
{
    match var_of(env, name) {
        Some(v) => filled_of(Some(v)),
        None => Some(owned(default)),
    }
}

/// The program that sets up network namespaces.
pub fn ip_bin(env: &Table) -> (r: Option<String>)
    ensures
        opt_view(r) == program(var(env@, "CHORD_IP_BIN"@), "ip"@),
{
    program_of(env, "CHORD_IP_BIN", "ip")
}

/// The program that filters outbound traffic.
pub fn nft_bin(env: &Table) -> (r: Option<String>)
    ensures
        opt_view(r) == program(var(env@, "CHORD_NFT_BIN"@), "nft"@),
{
    program_of(env, "CHORD_NFT_BIN", "nft")
}

/// The address of the language-model backend; a blank one is none.
pub fn normalize_llm_url(raw: Option<String>) -> (r: Option<String>)
    ensures
        opt_view(r) == filled(opt_view(raw)),
{
    filled_of(raw)
}

/// Why the proxy cannot be configured.
#[derive(Debug, PartialEq, Eq)]
pub enum ProxyError {
    Config(String),
}

/// The settings of the proxy.
pub struct Config {
    pub mcp_backend_url: String,
    pub jwt_secret: String,
    pub mcp_backend_token: Option<String>,
    pub tool_timeout_secs: u64,
    pub catalog_cache_secs: u64,
    pub listen_port: u16,
    pub control_port: u16,
    pub rate_limits: RateLimitConfig,
    pub llm_backend_url: Option<String>,
    pub model_aliases: Table,
    pub model_archive_path: String,
    pub model_local_path: String,
    pub model_protected: Vec<String>,
    pub model_pull_timeout_secs: u64,
    pub model_registry_path: String,
    pub model_disk_pressure_percent: u8,
    pub model_sweep_interval_secs: u64,
    pub model_warm_cooldown_hours: u64,
    pub model_archive_copy_timeout_secs: u64,
    pub model_gc_min_age_secs: u64,
    pub model_source_allowlist: Vec<String>,
    pub outbound_proxy: Option<String>,
    pub runtime_telemetry_off: bool,
    pub personal_backend_url: Option<String>,
    pub personal_backend_token: Option<String>,
}

/// The number of seconds, hours or the like that the setting `name` writes, or `default`.
pub open spec fn count_setting(
    env: Map<Seq<char>, Seq<char>>,
    name: Seq<char>,
    default: nat,
) -> nat {
    number_or(var(env, name), u64::MAX as nat, default)
}

/// The models that are protected where nothing is set.
pub const DEFAULT_PROTECTED: &'static str = "lumina-fast,lumina-deep,qwen3-coder:30b,qwen3.6:35b-a3b,qwen3:8b";

/// Requests to the tool backend go out without a token.
pub const MCP_TOKEN_MISSING: &'static str = "MCP_BACKEND_URL is set but MCP_BACKEND_TOKEN is not — outbound MCP requests to the backend are UNAUTHENTICATED (pre-hardening state); set MCP_BACKEND_TOKEN once the backend enforces bearer auth";

/// The list of sources names none.
pub const SOURCES_EMPTY: &'static str = "MODEL_SOURCE_ALLOWLIST is set but empty after parsing — all model pulls will be DENIED (egress fail-closed) until it is configured";

/// The list of sources is not set.
pub const SOURCES_UNSET: &'static str = "MODEL_SOURCE_ALLOWLIST is unset — all model pulls will be DENIED (egress fail-closed) until it is configured; ISO-01 never defaults to allow-all";

/// Requests to the personal backend go out without a token.
pub const PERSONAL_TOKEN_MISSING: &'static str = "PERSONAL_BACKEND_URL is set but PERSONAL_BACKEND_TOKEN is not — outbound requests to terminus_personal will be UNAUTHENTICATED";

/// No model is archived for disuse.
pub const COOLDOWN_DISABLED: &'static str = "MODEL_WARM_COOLDOWN_HOURS=0; cooldown eviction (warm→cold after inactivity) is DISABLED";

/// What is said of a tool backend at `url`.
pub open spec fn mcp_token_warning(url: Seq<char>, token: bool) -> Option<Seq<char>> {
    if !token && !is_blank(url) {
        Some(MCP_TOKEN_MISSING@)
    } else {
        None
    }
}

/// What is said of the sources of models.
pub open spec fn sources_warning(env: Map<Seq<char>, Seq<char>>) -> Option<Seq<char>> {
    if var(env, "MODEL_SOURCE_ALLOWLIST"@) is None {
        Some(SOURCES_UNSET@)
    } else if allowed_sources(env).len() == 0 {
        Some(SOURCES_EMPTY@)
    } else {
        None
    }
}

/// What is said of the personal backend.
pub open spec fn personal_token_warning(url: bool, token: bool) -> Option<Seq<char>> {
    if url && !token {
        Some(PERSONAL_TOKEN_MISSING@)
    } else {
        None
    }
}

/// What is said of the time after which an unused model is archived.
pub open spec fn cooldown_warning(hours: u64) -> Option<Seq<char>> {
    if hours == 0 {
        Some(COOLDOWN_DISABLED@)
    } else {
        None
    }
}

/// What there is to say, if anything.
pub open spec fn told(warning: Option<Seq<char>>) -> Seq<Seq<char>> {
    match warning {
        Some(text) => seq![text],
        None => Seq::empty(),
    }
}

fn tell(warnings: &mut Vec<String>, text: &str)
    ensures
        views(final(warnings)@) == views(old(warnings)@) + seq![text@],
{
    warnings.push(owned(text));
    assert(views(warnings@) =~= views(old(warnings)@) + seq![text@]);
}

impl Config {
    /// The settings of the tool backend and of the two listeners are those of `env`.
    pub open spec fn serves_as(self, env: Map<Seq<char>, Seq<char>>) -> bool {
        &&& var(env, "MCP_BACKEND_URL"@) == Some(self.mcp_backend_url@)
        &&& self.jwt_secret@ == text_or(var(env, "CHORD_JWT_SECRET"@), Seq::empty())
        &&& opt_view(self.mcp_backend_token) == nonempty(env, "MCP_BACKEND_TOKEN"@)
        &&& self.tool_timeout_secs == count_setting(env, "CHORD_TOOL_TIMEOUT_SECS"@, 30)
        &&& self.catalog_cache_secs == count_setting(env, "CHORD_CATALOG_CACHE_SECS"@, 300)
        &&& self.listen_port == number_or(var(env, "CHORD_PROXY_PORT"@), u16::MAX as nat, 9099)
        &&& self.control_port == number_or(var(env, "CHORD_CONTROL_PORT"@), u16::MAX as nat, 8090)
        &&& self.rate_limits == limits_of(env)
        &&& opt_view(self.llm_backend_url) == nonempty(env, "CHORD_LLM_URL"@)
        &&& self.model_aliases@ == configured_aliases(var(env, "CHORD_MODEL_ALIASES"@))
        &&& opt_view(self.personal_backend_url) == nonempty(env, "PERSONAL_BACKEND_URL"@)
        &&& opt_view(self.personal_backend_token) == nonempty(env, "PERSONAL_BACKEND_TOKEN"@)
    }

    /// The settings of the model store are those of `env`.
    pub open spec fn stores_as(self, env: Map<Seq<char>, Seq<char>>) -> bool {
        &&& self.model_archive_path@ == text_or(
            var(env, "MODEL_ARCHIVE_PATH"@),
            "/var/lib/model-archive"@,
        )
        &&& self.model_local_path@ == text_or(var(env, "MODEL_LOCAL_PATH"@), "/opt/ollama-models"@)
        &&& views(self.model_protected@) == items(
            text_or(var(env, "MODEL_PROTECTED"@), DEFAULT_PROTECTED@),
            Separator::Comma,
        )
        &&& self.model_pull_timeout_secs == count_setting(env, "MODEL_PULL_TIMEOUT_SECS"@, 600)
        &&& self.model_registry_path@ == text_or(
            var(env, "MODEL_REGISTRY_PATH"@),
            "<path>/model-registry.json"@,
        )
        &&& self.model_disk_pressure_percent == number_or(
            var(env, "MODEL_DISK_PRESSURE_PERCENT"@),
            u8::MAX as nat,
            80,
        )
        &&& self.model_sweep_interval_secs == count_setting(env, "MODEL_SWEEP_INTERVAL_SECS"@, 1800)
        &&& self.model_warm_cooldown_hours == count_setting(env, "MODEL_WARM_COOLDOWN_HOURS"@, 168)
        &&& self.model_archive_copy_timeout_secs == count_setting(
            env,
            "MODEL_ARCHIVE_COPY_TIMEOUT_SECS"@,
            1800,
        )
        &&& self.model_gc_min_age_secs == count_setting(env, "MODEL_GC_MIN_AGE_SECS"@, 300)
        &&& views(self.model_source_allowlist@) == allowed_sources(env)
        &&& opt_view(self.outbound_proxy) == nonempty(env, "CHORD_OUTBOUND_PROXY"@)
        &&& self.runtime_telemetry_off == telemetry_off(env)
    }

    /// The settings that an environment writes. Only the address of the tool backend has to be
    /// there.
    pub fn from_env(env: &Table) -> (r: Result<Self, ProxyError>)
        ensures
            r is Ok <==> env@.contains_key("MCP_BACKEND_URL"@),
            r matches Ok(c) ==> c.serves_as(env@) && c.stores_as(env@),
            r matches Err(ProxyError::Config(why)) ==> why@ == "MCP_BACKEND_URL env var not set"@,
    {
        let mcp_backend_url = match var_of(env, "MCP_BACKEND_URL") {
            Some(url) => url,
            None => {
                return Err(ProxyError::Config(owned("MCP_BACKEND_URL env var not set")));
            },
        };
        let jwt_secret = match var_of(env, "CHORD_JWT_SECRET") {
            Some(s) => s,
            None => String::new(),
        };
        let max: u64 = u64::MAX;
        let alias_config = parse_model_aliases(var_of(env, "CHORD_MODEL_ALIASES"));
        let protected = text_var(env, "MODEL_PROTECTED", DEFAULT_PROTECTED);
        Ok(
            Config {
                mcp_backend_url,
                jwt_secret,
                mcp_backend_token: mcp_backend_token(env),
                tool_timeout_secs: number_var(env, "CHORD_TOOL_TIMEOUT_SECS", max, 30),
                catalog_cache_secs: number_var(env, "CHORD_CATALOG_CACHE_SECS", max, 300),
                listen_port: number_var(env, "CHORD_PROXY_PORT", u16::MAX as u64, 9099) as u16,
                control_port: number_var(env, "CHORD_CONTROL_PORT", u16::MAX as u64, 8090) as u16,
                rate_limits: RateLimitConfig::from_env(env),
                llm_backend_url: normalize_llm_url(var_of(env, "CHORD_LLM_URL")),
                model_aliases: alias_config.aliases,
                model_archive_path: text_var(env, "MODEL_ARCHIVE_PATH", "/var/lib/model-archive"),
                model_local_path: text_var(env, "MODEL_LOCAL_PATH", "/opt/ollama-models"),
                model_protected: parse_protected_models(protected.as_str()),
                model_pull_timeout_secs: number_var(env, "MODEL_PULL_TIMEOUT_SECS", max, 600),
                model_registry_path: text_var(
                    env,
                    "MODEL_REGISTRY_PATH",
                    "<path>/model-registry.json",
                ),
                model_disk_pressure_percent: number_var(
                    env,
                    "MODEL_DISK_PRESSURE_PERCENT",
                    u8::MAX as u64,
                    80,
                ) as u8,
                model_sweep_interval_secs: number_var(env, "MODEL_SWEEP_INTERVAL_SECS", max, 1800),
                model_warm_cooldown_hours: number_var(env, "MODEL_WARM_COOLDOWN_HOURS", max, 168),
                model_archive_copy_timeout_secs: number_var(
                    env,
                    "MODEL_ARCHIVE_COPY_TIMEOUT_SECS",
                    max,
                    1800,
                ),
                model_gc_min_age_secs: number_var(env, "MODEL_GC_MIN_AGE_SECS", max, 300),
                model_source_allowlist: model_source_allowlist(env),
                outbound_proxy: filled_of(var_of(env, "CHORD_OUTBOUND_PROXY")),
                runtime_telemetry_off: runtime_telemetry_off(env),
                personal_backend_url: normalize_llm_url(var_of(env, "PERSONAL_BACKEND_URL")),
                personal_backend_token: filled_of(var_of(env, "PERSONAL_BACKEND_TOKEN")),
            },
        )
    }

    /// What the operator is told of these settings, which came from `env`: which requests go out
    /// without a token, whether models can be fetched at all, and whether they are ever archived
    /// for disuse. No token is told.
    pub fn warnings(&self, env: &Table) -> (r: Vec<String>)
        ensures
            views(r@) == told(
                mcp_token_warning(self.mcp_backend_url@, self.mcp_backend_token is Some),
            ) + told(sources_warning(env@)) + told(
                personal_token_warning(
                    self.personal_backend_url is Some,
                    self.personal_backend_token is Some,
                ),
            ) + told(cooldown_warning(self.model_warm_cooldown_hours)),
    {
        let mut r: Vec<String> = Vec::new();
        assert(views(r@) =~= Seq::<Seq<char>>::empty());
        if self.mcp_backend_token.is_none() && !blank(self.mcp_backend_url.as_str()) {
            tell(&mut r, MCP_TOKEN_MISSING);
        }
        match var_of(env, "MODEL_SOURCE_ALLOWLIST") {
            Some(raw) => {
                let list = parse_model_source_allowlist(raw.as_str());
                assert(views(list@).len() == list@.len());
                if list.len() == 0 {
                    tell(&mut r, SOURCES_EMPTY);
                }
            },
            None => {
                tell(&mut r, SOURCES_UNSET);
            },
        }
        if self.personal_backend_url.is_some() && self.personal_backend_token.is_none() {
            tell(&mut r, PERSONAL_TOKEN_MISSING);
        }
        if self.model_warm_cooldown_hours == 0 {
            tell(&mut r, COOLDOWN_DISABLED);
        }
        r
    }

    /// Settings that need no environment: the defaults, no protected model, and nothing that
    /// reaches outside.
    pub fn test_default() -> (r: Self)
        ensures
            r.mcp_backend_url@ == "http://mcp.invalid:3200"@,
            r.jwt_secret@ == Seq::<char>::empty(),
            r.mcp_backend_token is None,
            r.tool_timeout_secs == 30,
            r.catalog_cache_secs == 300,
            r.listen_port == 9099,
            r.control_port == 8090,
            r.rate_limits == default_limits(),
            r.llm_backend_url is None,
            r.model_aliases@ == Map::<Seq<char>, Seq<char>>::empty(),
            r.model_protected.len() == 0,
            r.personal_backend_url is None,
            r.personal_backend_token is None,
            r.model_source_allowlist.len() == 0,
            r.outbound_proxy is None,
            r.runtime_telemetry_off,
            r.model_archive_path@ == "/var/lib/model-archive"@,
            r.model_local_path@ == "/opt/ollama-models"@,
            r.model_registry_path@ == "<path>/model-registry.json"@,
            r.model_pull_timeout_secs == 600,
            r.model_disk_pressure_percent == 80,
            r.model_sweep_interval_secs == 1800,
            r.model_warm_cooldown_hours == 168,
            r.model_archive_copy_timeout_secs == 1800,
            r.model_gc_min_age_secs == 300,
    {
        Config {
            mcp_backend_url: owned("http://mcp.invalid:3200"),
            jwt_secret: String::new(),
            mcp_backend_token: None,
            tool_timeout_secs: 30,
            catalog_cache_secs: 300,
            listen_port: 9099,
            control_port: 8090,
            rate_limits: RateLimitConfig::default(),
            llm_backend_url: None,
            model_aliases: Table::new(),
            model_archive_path: owned("/var/lib/model-archive"),
            model_local_path: owned("/opt/ollama-models"),
            model_protected: Vec::new(),
            model_pull_timeout_secs: 600,
            model_registry_path: owned("<path>/model-registry.json"),
            model_disk_pressure_percent: 80,
            model_sweep_interval_secs: 1800,
            model_warm_cooldown_hours: 168,
            model_archive_copy_timeout_secs: 1800,
            model_gc_min_age_secs: 300,
            model_source_allowlist: Vec::new(),
            outbound_proxy: None,
            runtime_telemetry_off: true,
            personal_backend_url: None,
            personal_backend_token: None,
        }
    }
}

/// The setting `key` writes the number `taken` as it stands, up to `max`; else it is the default.
pub open spec fn counts(
    env: Map<Seq<char>, Seq<char>>,
    key: Seq<char>,
    max: nat,
    taken: nat,
    default: nat,
) -> bool {
    &&& env.contains_key(key) && number(env[key], max) is Some ==> Some(taken) == number(
        env[key],
        max,
    )
    &&& !env.contains_key(key) || number(env[key], max) is None ==> taken == default
}

/// The setting `key` says `taken` as it stands; missing, it is the default.
pub open spec fn says(
    env: Map<Seq<char>, Seq<char>>,
    key: Seq<char>,
    taken: Seq<char>,
    default: Seq<char>,
) -> bool {
    &&& env.contains_key(key) ==> taken == env[key]
    &&& !env.contains_key(key) ==> taken == default
}

/// The setting `key` gives `taken`: its trimmed text; missing or blank, it gives none.
pub open spec fn offers(
    env: Map<Seq<char>, Seq<char>>,
    key: Seq<char>,
    taken: Option<String>,
) -> bool {
    &&& taken matches Some(s) ==> env.contains_key(key) && s@ == trim(env[key]) && s@.len() > 0
    &&& taken is None ==> !env.contains_key(key) || trim(env[key]).len() == 0
}

/// What serves requests is set by name: the addresses, the tokens and the ports each by its own
/// setting, and each with its own default.
pub proof fn law_serving_is_set_by_name(c: Config, env: Map<Seq<char>, Seq<char>>)
    requires
        c.serves_as(env),
    ensures
        env.contains_key("MCP_BACKEND_URL"@) && c.mcp_backend_url@ == env["MCP_BACKEND_URL"@],
        says(env, "CHORD_JWT_SECRET"@, c.jwt_secret@, Seq::empty()),
        offers(env, "MCP_BACKEND_TOKEN"@, c.mcp_backend_token),
        counts(
            env,
            "CHORD_TOOL_TIMEOUT_SECS"@,
            u64::MAX as nat,
            c.tool_timeout_secs as nat,
            30,
        ),
        counts(
            env,
            "CHORD_CATALOG_CACHE_SECS"@,
            u64::MAX as nat,
            c.catalog_cache_secs as nat,
            300,
        ),
        counts(env, "CHORD_PROXY_PORT"@, 65535, c.listen_port as nat, 9099),
        counts(env, "CHORD_CONTROL_PORT"@, 65535, c.control_port as nat, 8090),
        offers(env, "CHORD_LLM_URL"@, c.llm_backend_url),
        offers(env, "PERSONAL_BACKEND_URL"@, c.personal_backend_url),
        offers(env, "PERSONAL_BACKEND_TOKEN"@, c.personal_backend_token),
        c.rate_limits == limits_of(env),
{
}

/// The model store is set by name: its paths, its times and its lists each by its own setting, and
/// each with its own default.
pub proof fn law_model_store_is_set_by_name(c: Config, env: Map<Seq<char>, Seq<char>>)
    requires
        c.stores_as(env),
    ensures
        says(env, "MODEL_ARCHIVE_PATH"@, c.model_archive_path@, "/var/lib/model-archive"@),
        says(env, "MODEL_LOCAL_PATH"@, c.model_local_path@, "/opt/ollama-models"@),
        says(env, "MODEL_REGISTRY_PATH"@, c.model_registry_path@, "<path>/model-registry.json"@),
        counts(
            env,
            "MODEL_PULL_TIMEOUT_SECS"@,
            u64::MAX as nat,
            c.model_pull_timeout_secs as nat,
            600,
        ),
        counts(
            env,
            "MODEL_DISK_PRESSURE_PERCENT"@,
            255,
            c.model_disk_pressure_percent as nat,
            80,
        ),
        counts(
            env,
            "MODEL_SWEEP_INTERVAL_SECS"@,
            u64::MAX as nat,
            c.model_sweep_interval_secs as nat,
            1800,
        ),
        counts(
            env,
            "MODEL_WARM_COOLDOWN_HOURS"@,
            u64::MAX as nat,
            c.model_warm_cooldown_hours as nat,
            168,
        ),
        counts(
            env,
            "MODEL_ARCHIVE_COPY_TIMEOUT_SECS"@,
            u64::MAX as nat,
            c.model_archive_copy_timeout_secs as nat,
            1800,
        ),
        counts(
            env,
            "MODEL_GC_MIN_AGE_SECS"@,
            u64::MAX as nat,
            c.model_gc_min_age_secs as nat,
            300,
        ),
        env.contains_key("MODEL_PROTECTED"@) ==> views(c.model_protected@) == items(
            env["MODEL_PROTECTED"@],
            Separator::Comma,
        ),
        !env.contains_key("MODEL_PROTECTED"@) ==> views(c.model_protected@) == items(
            "lumina-fast,lumina-deep,qwen3-coder:30b,qwen3.6:35b-a3b,qwen3:8b"@,
            Separator::Comma,
        ),
        offers(env, "CHORD_OUTBOUND_PROXY"@, c.outbound_proxy),
        views(c.model_source_allowlist@) == allowed_sources(env),
        c.runtime_telemetry_off == telemetry_off(env),
{
}

/// Every limit is set by its own name, and has its own default.
pub proof fn law_limits_are_set_by_name(env: Map<Seq<char>, Seq<char>>)
    ensures
        ({
            let l = limits_of(env);
            let max = u32::MAX as nat;
            &&& counts(env, "CHORD_RATE_LLM_USER"@, max, l.user_llm_limit as nat, 200)
            &&& counts(env, "CHORD_RATE_TOOL_USER"@, max, l.user_tool_limit as nat, 500)
            &&& counts(env, "CHORD_RATE_DEEP_USER"@, max, l.user_deep_limit as nat, 50)
            &&& counts(env, "CHORD_RATE_LLM_GUEST"@, max, l.guest_llm_limit as nat, 20)
            &&& counts(env, "CHORD_RATE_TOOL_GUEST"@, max, l.guest_tool_limit as nat, 50)
            &&& counts(env, "CHORD_RATE_DEEP_GUEST"@, max, l.guest_deep_limit as nat, 5)
        }),
{
}

/// Models may be fetched from the listed hosts and from no other; without a list from none.
pub proof fn law_only_listed_sources_are_allowed(env: Map<Seq<char>, Seq<char>>)
    ensures
        env.contains_key("MODEL_SOURCE_ALLOWLIST"@) ==> allowed_sources(env) == items(
            env["MODEL_SOURCE_ALLOWLIST"@],
            Separator::CommaOrBlank,
        ),
        !env.contains_key("MODEL_SOURCE_ALLOWLIST"@) ==> allowed_sources(env).len() == 0,
{
}

/// Telemetry is off unless one of three words asks for it, in whatever case and with white space
/// around it or not.
pub proof fn law_telemetry_is_off_unless_asked_for(env: Map<Seq<char>, Seq<char>>)
    ensures
        !env.contains_key("CHORD_RUNTIME_TELEMETRY_OFF"@) ==> telemetry_off(env),
        env.contains_key("CHORD_RUNTIME_TELEMETRY_OFF"@) ==> (!telemetry_off(env) <==> seq![
            "false"@,
            "0"@,
            "no"@,
        ].contains(lower_ascii(trim(env["CHORD_RUNTIME_TELEMETRY_OFF"@])))),
{
    let words = seq!["false"@, "0"@, "no"@];
    assert(words[0] == "false"@ && words[1] == "0"@ && words[2] == "no"@);
}

/// What outlives the process stands in the state directory, each thing in a file of its own; without
/// a directory nothing is kept.
pub proof fn law_state_files_stand_in_the_directory(
    env: Map<Seq<char>, Seq<char>>,
    dir: Seq<char>,
    name: Seq<char>,
)
    ensures
        dir.len() == 0 || dir.last() != '/' ==> file_in(dir, name) == dir + "/"@ + name,
        file_in(dir + "/"@, name) == dir + "/"@ + name,
        !env.contains_key("CHORD_STATE_DIR"@) || trim(env["CHORD_STATE_DIR"@]).len() == 0
            ==> state_dir(env) is None && state_file(env, name) is None && gpu_state_file(env)
            is None && idle_state_file(env) is None,
        env.contains_key("CHORD_STATE_DIR"@) && trim(env["CHORD_STATE_DIR"@]).len() > 0 ==> {
            let kept = trim(env["CHORD_STATE_DIR"@]);
            &&& state_dir(env) == Some(kept)
            &&& state_file(env, name) == Some(file_in(kept, name))
            &&& gpu_state_file(env) == Some(file_in(kept, "gpu_exclusive_lease.json"@))
            &&& idle_state_file(env) == Some(file_in(kept, "admin_idle_state.json"@))
        },
{
    reveal_strlit("/");
    assert((dir + "/"@).last() == '/');
}

/// A setting that is written and not blank is given trimmed; any other is none.
pub proof fn law_blank_settings_are_none(env: Map<Seq<char>, Seq<char>>, key: Seq<char>)
    ensures
        env.contains_key(key) && trim(env[key]).len() > 0 ==> nonempty(env, key) == Some(
            trim(env[key]),
        ),
        !env.contains_key(key) || trim(env[key]).len() == 0 ==> nonempty(env, key) is None,
{
}

/// A program that is not set is the usual one; one that is set to nothing is none.
pub proof fn law_programs_can_be_switched_off(value: Seq<char>, default: Seq<char>)
    ensures
        program(None, default) == Some(default),
        trim(value).len() > 0 ==> program(Some(value), default) == Some(trim(value)),
        trim(value).len() == 0 ==> program(Some(value), default) is None,
{
}

/// A backend with an address and without a token is warned of, and one with a token is not; so is a
/// list of sources that allows nothing, and an archiving that never happens.
pub proof fn law_missing_tokens_are_warned_of(
    url: Seq<char>,
    env: Map<Seq<char>, Seq<char>>,
    hours: u64,
)
    ensures
        mcp_token_warning(url, false) is Some <==> trim(url).len() > 0,
        mcp_token_warning(url, true) is None,
        personal_token_warning(true, false) is Some,
        personal_token_warning(true, true) is None,
        personal_token_warning(false, false) is None,
        personal_token_warning(false, true) is None,
        sources_warning(env) is Some <==> allowed_sources(env).len() == 0,
        !env.contains_key("MODEL_SOURCE_ALLOWLIST"@) ==> sources_warning(env) == Some(
            SOURCES_UNSET@,
        ),
        env.contains_key("MODEL_SOURCE_ALLOWLIST"@) && sources_warning(env) is Some
            ==> sources_warning(env) == Some(SOURCES_EMPTY@),
        cooldown_warning(hours) is Some <==> hours == 0,
        told(None) == Seq::<Seq<char>>::empty(),
        told(Some(url)) == seq![url],
{
}

} // verus!
