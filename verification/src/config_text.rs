//! The settings of the proxy as text for its operators. Tokens are named and never shown.
use vstd::prelude::*;

use crate::config::{Config, RateLimitConfig};
use crate::decimal::{decimal, decimal_of};
use crate::table::Table;
use crate::text::{
    contains, join, join3, join_all, joined, law_joined_text_holds_every_part,
    lemma_contains_in_more, opt_view, owned, views,
};

verus! {

/// A text in double quotes with its special characters escaped.
pub uninterp spec fn quoted_text(s: Seq<char>) -> Seq<char>;

/// `format!` of a `&str` with `{:?}`: the text in double quotes, escaped as
/// `str::escape_debug` documents it, a function of the text alone.
#[verifier::external_body]
fn quoted(s: &str) -> (r: String)
    ensures
        r@ == quoted_text(s@),
{
    format!("{:?}", s)
}

/// An optional text.
pub open spec fn optional_text(o: Option<Seq<char>>) -> Seq<char> {
    match o {
        Some(s) => "Some("@ + quoted_text(s) + ")"@,
        None => "None"@,
    }
}

/// An optional secret: whether it is there, and no more.
pub open spec fn secret_text(there: bool) -> Seq<char> {
    optional_text(
        if there {
            Some("***redacted***"@)
        } else {
            None
        },
    )
}

/// A list of texts.
pub open spec fn list_text(v: Seq<Seq<char>>) -> Seq<char> {
    "["@ + joined(v.map_values(|s: Seq<char>| quoted_text(s)), ", "@) + "]"@
}

/// The rows of a table, by their keys.
pub open spec fn row_texts(keys: Seq<Seq<char>>, map: Map<Seq<char>, Seq<char>>) -> Seq<Seq<char>> {
    keys.map_values(|k: Seq<char>| quoted_text(k) + ": "@ + quoted_text(map[k]))
}

/// A table.
pub open spec fn table_text(t: Table) -> Seq<char> {
    "{"@ + joined(row_texts(t.keys(), t@), ", "@) + "}"@
}

/// `true` or `false`.
pub open spec fn truth_text(b: bool) -> Seq<char> {
    if b {
        "true"@
    } else {
        "false"@
    }
}

/// A structure with its fields.
pub open spec fn record_text(name: Seq<char>, fields: Seq<Seq<char>>) -> Seq<char> {
    name + " { "@ + joined(fields, ", "@) + " }"@
}

/// The fields of the call limits.
pub open spec fn limit_fields(c: RateLimitConfig) -> Seq<Seq<char>> {
    seq![
        "user_llm_limit: "@ + decimal(c.user_llm_limit as nat),
        "user_tool_limit: "@ + decimal(c.user_tool_limit as nat),
        "user_deep_limit: "@ + decimal(c.user_deep_limit as nat),
        "guest_llm_limit: "@ + decimal(c.guest_llm_limit as nat),
        "guest_tool_limit: "@ + decimal(c.guest_tool_limit as nat),
        "guest_deep_limit: "@ + decimal(c.guest_deep_limit as nat),
    ]
}

/// The fields of the settings.
pub open spec fn config_fields(c: Config) -> Seq<Seq<char>> {
    seq![
        "mcp_backend_url: "@ + quoted_text(c.mcp_backend_url@),
        "jwt_secret: "@ + quoted_text(c.jwt_secret@),
        "mcp_backend_token: "@ + secret_text(c.mcp_backend_token is Some),
        "tool_timeout_secs: "@ + decimal(c.tool_timeout_secs as nat),
        "catalog_cache_secs: "@ + decimal(c.catalog_cache_secs as nat),
        "listen_port: "@ + decimal(c.listen_port as nat),
        "control_port: "@ + decimal(c.control_port as nat),
        "rate_limits: "@ + record_text("RateLimitConfig"@, limit_fields(c.rate_limits)),
        "llm_backend_url: "@ + optional_text(opt_view(c.llm_backend_url)),
        "model_aliases: "@ + table_text(c.model_aliases),
        "model_archive_path: "@ + quoted_text(c.model_archive_path@),
        "model_local_path: "@ + quoted_text(c.model_local_path@),
        "model_protected: "@ + list_text(views(c.model_protected@)),
        "model_pull_timeout_secs: "@ + decimal(c.model_pull_timeout_secs as nat),
        "model_registry_path: "@ + quoted_text(c.model_registry_path@),
        "model_disk_pressure_percent: "@ + decimal(c.model_disk_pressure_percent as nat),
        "model_sweep_interval_secs: "@ + decimal(c.model_sweep_interval_secs as nat),
        "model_warm_cooldown_hours: "@ + decimal(c.model_warm_cooldown_hours as nat),
        "model_archive_copy_timeout_secs: "@ + decimal(c.model_archive_copy_timeout_secs as nat),
        "model_gc_min_age_secs: "@ + decimal(c.model_gc_min_age_secs as nat),
        "model_source_allowlist: "@ + list_text(views(c.model_source_allowlist@)),
        "outbound_proxy: "@ + optional_text(opt_view(c.outbound_proxy)),
        "runtime_telemetry_off: "@ + truth_text(c.runtime_telemetry_off),
        "personal_backend_url: "@ + optional_text(opt_view(c.personal_backend_url)),
        "personal_backend_token: "@ + secret_text(c.personal_backend_token is Some),
    ]
}

/// The settings as text.
pub open spec fn config_text(c: Config) -> Seq<char> {
    record_text("Config"@, config_fields(c))
}

fn optional(o: &Option<String>) -> (r: String)
    ensures
        r@ == optional_text(opt_view(*o)),
{
    match o {
        Some(s) => join3("Some(", quoted(s.as_str()).as_str(), ")"),
        None => owned("None"),
    }
}

fn secret(o: &Option<String>) -> (r: String)
    ensures
        r@ == secret_text(*o is Some),
{
    match o {
        Some(_) => join3("Some(", quoted("***redacted***").as_str(), ")"),
        None => owned("None"),
    }
}

fn list(v: &Vec<String>) -> (r: String)
    ensures
        r@ == list_text(views(v@)),
{
    let mut parts: Vec<String> = Vec::new();
    let mut i: usize = 0;
    while i < v.len()
        invariant
            i <= v.len(),
            parts.len() == i,
            forall|k: int| 0 <= k < i ==> (#[trigger] parts@[k])@ == quoted_text(v@[k]@),
        decreases v.len() - i,
    {
        parts.push(quoted(v[i].as_str()));
        i = i + 1;
    }
    assert(views(parts@) =~= views(v@).map_values(|s: Seq<char>| quoted_text(s)));
    join3("[", join_all(parts.as_slice(), ", ").as_str(), "]")
}

fn table(t: &Table) -> (r: String)
    ensures
        r@ == table_text(*t),
{
    let keys = t.sorted_keys();
    let mut parts: Vec<String> = Vec::new();
    let mut i: usize = 0;
    while i < keys.len()
        invariant
            i <= keys.len(),
            views(keys@) == t.keys(),
            forall|k: Seq<char>| t.keys().contains(k) <==> t@.contains_key(k),
            parts.len() == i,
            forall|k: int|
                0 <= k < i ==> (#[trigger] parts@[k])@ == quoted_text(keys@[k]@) + ": "@
                    + quoted_text(t@[keys@[k]@]),
        decreases keys.len() - i,
    {
        let key = &keys[i];
        proof {
            assert(views(keys@)[i as int] == key@);
            assert(t.keys().contains(key@));
        }
        let value = match t.get(key.as_str()) {
            Some(v) => v,
            None => String::new(),
        };
        parts.push(
            join3(quoted(key.as_str()).as_str(), ": ", quoted(value.as_str()).as_str()),
        );
        i = i + 1;
    }
    proof {
        let want = row_texts(t.keys(), t@);
        assert(views(keys@).len() == keys@.len());
        assert forall|k: int| 0 <= k < parts@.len() implies views(parts@)[k] == want[k] by {
            assert(views(keys@)[k] == keys@[k]@);
        }
        assert(views(parts@) =~= want);
    }
    join3("{", join_all(parts.as_slice(), ", ").as_str(), "}")
}

fn truth(b: bool) -> (r: &'static str)
    ensures
        r@ == truth_text(b),
{
    if b {
        "true"
    } else {
        "false"
    }
}

fn record(name: &str, fields: &Vec<String>) -> (r: String)
    ensures
        r@ == record_text(name@, views(fields@)),
{
    let mut r: String = owned(name);
    r.append(" { ");
    r.append(join_all(fields.as_slice(), ", ").as_str());
    r.append(" }");
    r
}

fn limits(c: RateLimitConfig) -> (r: String)
    ensures
        r@ == record_text("RateLimitConfig"@, limit_fields(c)),
{
    let mut f: Vec<String> = Vec::new();
    f.push(join("user_llm_limit: ", decimal_of(c.user_llm_limit as u64).as_str()));
    f.push(join("user_tool_limit: ", decimal_of(c.user_tool_limit as u64).as_str()));
    f.push(join("user_deep_limit: ", decimal_of(c.user_deep_limit as u64).as_str()));
    f.push(join("guest_llm_limit: ", decimal_of(c.guest_llm_limit as u64).as_str()));
    f.push(join("guest_tool_limit: ", decimal_of(c.guest_tool_limit as u64).as_str()));
    f.push(join("guest_deep_limit: ", decimal_of(c.guest_deep_limit as u64).as_str()));
    assert(views(f@) =~= limit_fields(c));
    record("RateLimitConfig", &f)
}

impl Config {
    /// The settings as text, with the tokens left out.
    pub fn debug_text(&self) -> (r: String)
        ensures
            r@ == config_text(*self),
    {
        let c = self;
        let mut f: Vec<String> = Vec::new();
        f.push(join("mcp_backend_url: ", quoted(c.mcp_backend_url.as_str()).as_str()));
        f.push(join("jwt_secret: ", quoted(c.jwt_secret.as_str()).as_str()));
        f.push(join("mcp_backend_token: ", secret(&c.mcp_backend_token).as_str()));
        f.push(join("tool_timeout_secs: ", decimal_of(c.tool_timeout_secs).as_str()));
        f.push(join("catalog_cache_secs: ", decimal_of(c.catalog_cache_secs).as_str()));
        f.push(join("listen_port: ", decimal_of(c.listen_port as u64).as_str()));
        f.push(join("control_port: ", decimal_of(c.control_port as u64).as_str()));
        f.push(join("rate_limits: ", limits(c.rate_limits).as_str()));
        f.push(join("llm_backend_url: ", optional(&c.llm_backend_url).as_str()));
        f.push(join("model_aliases: ", table(&c.model_aliases).as_str()));
        f.push(join("model_archive_path: ", quoted(c.model_archive_path.as_str()).as_str()));
        f.push(join("model_local_path: ", quoted(c.model_local_path.as_str()).as_str()));
        f.push(join("model_protected: ", list(&c.model_protected).as_str()));
        f.push(join("model_pull_timeout_secs: ", decimal_of(c.model_pull_timeout_secs).as_str()));
        f.push(join("model_registry_path: ", quoted(c.model_registry_path.as_str()).as_str()));
        f.push(
            join(
                "model_disk_pressure_percent: ",
                decimal_of(c.model_disk_pressure_percent as u64).as_str(),
            ),
        );
        f.push(
            join("model_sweep_interval_secs: ", decimal_of(c.model_sweep_interval_secs).as_str()),
        );
        f.push(
            join("model_warm_cooldown_hours: ", decimal_of(c.model_warm_cooldown_hours).as_str()),
        );
        f.push(
            join(
                "model_archive_copy_timeout_secs: ",
                decimal_of(c.model_archive_copy_timeout_secs).as_str(),
            ),
        );
        f.push(join("model_gc_min_age_secs: ", decimal_of(c.model_gc_min_age_secs).as_str()));
        f.push(join("model_source_allowlist: ", list(&c.model_source_allowlist).as_str()));
        f.push(join("outbound_proxy: ", optional(&c.outbound_proxy).as_str()));
        f.push(join("runtime_telemetry_off: ", truth(c.runtime_telemetry_off)));
        f.push(join("personal_backend_url: ", optional(&c.personal_backend_url).as_str()));
        f.push(join("personal_backend_token: ", secret(&c.personal_backend_token).as_str()));
        assert(views(f@) =~= config_fields(*c));
        record("Config", &f)
    }
}

/// A token replaced where there is one.
pub open spec fn replaced(token: Option<String>, other: String) -> Option<String> {
    match token {
        Some(_) => Some(other),
        None => None,
    }
}

/// The text of the settings says nothing of the tokens but whether they are there: settings that
/// differ in the value of either token alone, or of both, have the same text.
pub proof fn law_tokens_are_never_shown(a: Config, mcp: String, personal: String)
    ensures
        config_text(
            Config { mcp_backend_token: replaced(a.mcp_backend_token, mcp), ..a },
        ) == config_text(a),
        config_text(
            Config { personal_backend_token: replaced(a.personal_backend_token, personal), ..a },
        ) == config_text(a),
        config_text(
            Config {
                mcp_backend_token: replaced(a.mcp_backend_token, mcp),
                personal_backend_token: replaced(a.personal_backend_token, personal),
                ..a
            },
        ) == config_text(a),
{
    let b = Config { mcp_backend_token: replaced(a.mcp_backend_token, mcp), ..a };
    let c = Config { personal_backend_token: replaced(a.personal_backend_token, personal), ..a };
    let d = Config { personal_backend_token: replaced(a.personal_backend_token, personal), ..b };
    assert(config_fields(b) =~= config_fields(a));
    assert(config_fields(c) =~= config_fields(a));
    assert(config_fields(d) =~= config_fields(a));
}

/// Every setting is shown once, under its own name and with its own value; of a token only whether it
/// is there.
pub proof fn law_settings_are_shown_by_name(c: Config)
    ensures
        config_fields(c).len() == 25,
        config_fields(c).contains("mcp_backend_url: "@ + quoted_text(c.mcp_backend_url@)),
        config_fields(c).contains("jwt_secret: "@ + quoted_text(c.jwt_secret@)),
        config_fields(c).contains("mcp_backend_token: "@ + secret_text(c.mcp_backend_token is Some)),
        config_fields(c).contains("tool_timeout_secs: "@ + decimal(c.tool_timeout_secs as nat)),
        config_fields(c).contains("catalog_cache_secs: "@ + decimal(c.catalog_cache_secs as nat)),
        config_fields(c).contains("listen_port: "@ + decimal(c.listen_port as nat)),
        config_fields(c).contains("control_port: "@ + decimal(c.control_port as nat)),
        config_fields(c).contains("rate_limits: "@ + record_text("RateLimitConfig"@, limit_fields(c.rate_limits))),
        config_fields(c).contains("llm_backend_url: "@ + optional_text(opt_view(c.llm_backend_url))),
        config_fields(c).contains("model_aliases: "@ + table_text(c.model_aliases)),
        config_fields(c).contains("model_archive_path: "@ + quoted_text(c.model_archive_path@)),
        config_fields(c).contains("model_local_path: "@ + quoted_text(c.model_local_path@)),
        config_fields(c).contains("model_protected: "@ + list_text(views(c.model_protected@))),
        config_fields(c).contains("model_pull_timeout_secs: "@ + decimal(c.model_pull_timeout_secs as nat)),
        config_fields(c).contains("model_registry_path: "@ + quoted_text(c.model_registry_path@)),
        config_fields(c).contains("model_disk_pressure_percent: "@ + decimal(c.model_disk_pressure_percent as nat)),
        config_fields(c).contains("model_sweep_interval_secs: "@ + decimal(c.model_sweep_interval_secs as nat)),
        config_fields(c).contains("model_warm_cooldown_hours: "@ + decimal(c.model_warm_cooldown_hours as nat)),
        config_fields(c).contains("model_archive_copy_timeout_secs: "@ + decimal(c.model_archive_copy_timeout_secs as nat)),
        config_fields(c).contains("model_gc_min_age_secs: "@ + decimal(c.model_gc_min_age_secs as nat)),
        config_fields(c).contains("model_source_allowlist: "@ + list_text(views(c.model_source_allowlist@))),
        config_fields(c).contains("outbound_proxy: "@ + optional_text(opt_view(c.outbound_proxy))),
        config_fields(c).contains("runtime_telemetry_off: "@ + truth_text(c.runtime_telemetry_off)),
        config_fields(c).contains("personal_backend_url: "@ + optional_text(opt_view(c.personal_backend_url))),
        config_fields(c).contains("personal_backend_token: "@ + secret_text(c.personal_backend_token is Some)),
{
    let f = config_fields(c);
    assert(f[0] == "mcp_backend_url: "@ + quoted_text(c.mcp_backend_url@));
    assert(f[1] == "jwt_secret: "@ + quoted_text(c.jwt_secret@));
    assert(f[2] == "mcp_backend_token: "@ + secret_text(c.mcp_backend_token is Some));
    assert(f[3] == "tool_timeout_secs: "@ + decimal(c.tool_timeout_secs as nat));
    assert(f[4] == "catalog_cache_secs: "@ + decimal(c.catalog_cache_secs as nat));
    assert(f[5] == "listen_port: "@ + decimal(c.listen_port as nat));
    assert(f[6] == "control_port: "@ + decimal(c.control_port as nat));
    assert(f[7] == "rate_limits: "@ + record_text("RateLimitConfig"@, limit_fields(c.rate_limits)));
    assert(f[8] == "llm_backend_url: "@ + optional_text(opt_view(c.llm_backend_url)));
    assert(f[9] == "model_aliases: "@ + table_text(c.model_aliases));
    assert(f[10] == "model_archive_path: "@ + quoted_text(c.model_archive_path@));
    assert(f[11] == "model_local_path: "@ + quoted_text(c.model_local_path@));
    assert(f[12] == "model_protected: "@ + list_text(views(c.model_protected@)));
    assert(f[13] == "model_pull_timeout_secs: "@ + decimal(c.model_pull_timeout_secs as nat));
    assert(f[14] == "model_registry_path: "@ + quoted_text(c.model_registry_path@));
    assert(f[15] == "model_disk_pressure_percent: "@ + decimal(c.model_disk_pressure_percent as nat));
    assert(f[16] == "model_sweep_interval_secs: "@ + decimal(c.model_sweep_interval_secs as nat));
    assert(f[17] == "model_warm_cooldown_hours: "@ + decimal(c.model_warm_cooldown_hours as nat));
    assert(f[18] == "model_archive_copy_timeout_secs: "@ + decimal(c.model_archive_copy_timeout_secs as nat));
    assert(f[19] == "model_gc_min_age_secs: "@ + decimal(c.model_gc_min_age_secs as nat));
    assert(f[20] == "model_source_allowlist: "@ + list_text(views(c.model_source_allowlist@)));
    assert(f[21] == "outbound_proxy: "@ + optional_text(opt_view(c.outbound_proxy)));
    assert(f[22] == "runtime_telemetry_off: "@ + truth_text(c.runtime_telemetry_off));
    assert(f[23] == "personal_backend_url: "@ + optional_text(opt_view(c.personal_backend_url)));
    assert(f[24] == "personal_backend_token: "@ + secret_text(c.personal_backend_token is Some));
}

/// Every limit is shown once, under its own name and with its own value.
pub proof fn law_limits_are_shown_by_name(c: RateLimitConfig)
    ensures
        limit_fields(c).len() == 6,
        limit_fields(c).contains("user_llm_limit: "@ + decimal(c.user_llm_limit as nat)),
        limit_fields(c).contains("user_tool_limit: "@ + decimal(c.user_tool_limit as nat)),
        limit_fields(c).contains("user_deep_limit: "@ + decimal(c.user_deep_limit as nat)),
        limit_fields(c).contains("guest_llm_limit: "@ + decimal(c.guest_llm_limit as nat)),
        limit_fields(c).contains("guest_tool_limit: "@ + decimal(c.guest_tool_limit as nat)),
        limit_fields(c).contains("guest_deep_limit: "@ + decimal(c.guest_deep_limit as nat)),
{
    let f = limit_fields(c);
    assert(f[0] == "user_llm_limit: "@ + decimal(c.user_llm_limit as nat));
    assert(f[1] == "user_tool_limit: "@ + decimal(c.user_tool_limit as nat));
    assert(f[2] == "user_deep_limit: "@ + decimal(c.user_deep_limit as nat));
    assert(f[3] == "guest_llm_limit: "@ + decimal(c.guest_llm_limit as nat));
    assert(f[4] == "guest_tool_limit: "@ + decimal(c.guest_tool_limit as nat));
    assert(f[5] == "guest_deep_limit: "@ + decimal(c.guest_deep_limit as nat));
}

/// The text of the settings holds every one of them.
pub proof fn law_text_holds_every_setting(c: Config, field: Seq<char>)
    requires
        config_fields(c).contains(field),
    ensures
        contains(config_text(c), field),
{
    let fields = config_fields(c);
    let i = choose|i: int| 0 <= i < fields.len() && fields[i] == field;
    law_joined_text_holds_every_part(fields, ", "@, i);
    lemma_contains_in_more("Config"@ + " { "@, joined(fields, ", "@), " }"@, field);
}

/// A secret shows only whether it is there; an optional value shows itself where it is there, and a
/// truth value is shown as what it is.
pub proof fn law_optional_values_are_shown(s: Seq<char>)
    ensures
        secret_text(true) == "Some("@ + quoted_text("***redacted***"@) + ")"@,
        secret_text(false) == "None"@,
        optional_text(Some(s)) == "Some("@ + quoted_text(s) + ")"@,
        optional_text(None) == "None"@,
        truth_text(true) == "true"@,
        truth_text(false) == "false"@,
{
}

/// A list shows all its texts in order, and a table all its rows in the order of their keys, each with
/// its own value.
pub proof fn law_lists_and_tables_are_shown(
    v: Seq<Seq<char>>,
    i: int,
    keys: Seq<Seq<char>>,
    map: Map<Seq<char>, Seq<char>>,
)
    ensures
        0 <= i < v.len() ==> contains(list_text(v), quoted_text(v[i])),
        row_texts(keys, map).len() == keys.len(),
        0 <= i < keys.len() ==> row_texts(keys, map)[i] == quoted_text(keys[i]) + ": "@
            + quoted_text(map[keys[i]]),
{
    if 0 <= i < v.len() {
        let shown = v.map_values(|s: Seq<char>| quoted_text(s));
        law_joined_text_holds_every_part(shown, ", "@, i);
        lemma_contains_in_more("["@, joined(shown, ", "@), "]"@, shown[i]);
    }
}

/// A table shows every row.
pub proof fn law_table_shows_every_row(t: Table, i: int)
    requires
        0 <= i < t.keys().len(),
    ensures
        contains(
            table_text(t),
            quoted_text(t.keys()[i]) + ": "@ + quoted_text(t@[t.keys()[i]]),
        ),
{
    let rows = row_texts(t.keys(), t@);
    law_joined_text_holds_every_part(rows, ", "@, i);
    lemma_contains_in_more("{"@, joined(rows, ", "@), "}"@, rows[i]);
}

} // verus!
