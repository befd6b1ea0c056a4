//! The table of model aliases, read from one hand-edited JSON object.
//!
//! A bad value is never mistaken for an empty table: every result says how the reading went. One
//! bad entry costs that entry alone.
use vstd::prelude::*;

use crate::decimal::{decimal, decimal_of};
use crate::table::Table;
use crate::text::{
    chars_of, contains, filled, filled_of, is_blank, join, join3, join_all, joined,
    law_joined_text_holds_every_part, law_words_in_a_text, lemma_contains_in_more, lemma_regrouped, opt_view, owned,
    starts_with, text_of, trim, trimmed, views,
};

verus! {

/// A member of a JSON document, as far as its kind goes; a string with its text.
#[derive(Debug, PartialEq, Eq)]
pub enum JsonMember {
    Null,
    Boolean,
    Number,
    Text(String),
    Array,
    Object,
}

/// A JSON document, one level deep: the members of an object in the order of their names, or what
/// else it is.
#[derive(Debug, PartialEq, Eq)]
pub enum JsonDoc {
    Object(Vec<(String, JsonMember)>),
    Other(JsonMember),
}

/// What a [`JsonMember`] says.
pub ghost enum MemberView {
    Null,
    Boolean,
    Number,
    Text(Seq<char>),
    Array,
    Object,
}

/// What a [`JsonDoc`] says.
pub ghost enum DocView {
    Object(Seq<(Seq<char>, MemberView)>),
    Other(MemberView),
}

impl View for JsonMember {
    type V = MemberView;

    open spec fn view(&self) -> MemberView {
        match self {
            JsonMember::Null => MemberView::Null,
            JsonMember::Boolean => MemberView::Boolean,
            JsonMember::Number => MemberView::Number,
            JsonMember::Text(s) => MemberView::Text(s@),
            JsonMember::Array => MemberView::Array,
            JsonMember::Object => MemberView::Object,
        }
    }
}

/// What the members of an object say.
pub open spec fn members_view(members: Seq<(String, JsonMember)>) -> Seq<(Seq<char>, MemberView)> {
    members.map_values(|m: (String, JsonMember)| (m.0@, m.1@))
}

impl View for JsonDoc {
    type V = DocView;

    open spec fn view(&self) -> DocView {
        match self {
            JsonDoc::Object(members) => DocView::Object(members_view(members@)),
            JsonDoc::Other(member) => DocView::Other(member@),
        }
    }
}

/// The view of a reading: the document, or what was wrong with the text.
pub open spec fn reading(r: Result<JsonDoc, String>) -> Result<DocView, Seq<char>> {
    match r {
        Ok(doc) => Ok(doc@),
        Err(e) => Err(e@),
    }
}

/// What `serde_json` reads in a text.
pub uninterp spec fn json_reading(text: Seq<char>) -> Result<DocView, Seq<char>>;

/// `serde_json::from_str` into a `Value`: the document, one level deep, or the message of the
/// error with its line and column. Both depend on the text alone.
#[verifier::external_body]
fn read_json(text: &str) -> (r: Result<JsonDoc, String>)
    ensures
        reading(r) == json_reading(text@),
{
    let kind = |v: serde_json::Value| match v {
        serde_json::Value::Null => JsonMember::Null,
        serde_json::Value::Bool(_) => JsonMember::Boolean,
        serde_json::Value::Number(_) => JsonMember::Number,
        serde_json::Value::String(s) => JsonMember::Text(s),
        serde_json::Value::Array(_) => JsonMember::Array,
        serde_json::Value::Object(_) => JsonMember::Object,
    };
    match serde_json::from_str(text) {
        Ok(serde_json::Value::Object(m)) => Ok(JsonDoc::Object(m.into_iter().map(|(k, v)| (k, kind(v))).collect())),
        Ok(other) => Ok(JsonDoc::Other(kind(other))),
        Err(e) => Err(e.to_string()),
    }
}

/// How the reading of the alias table went.
#[derive(Debug, PartialEq, Eq)]
pub enum AliasConfigStatus {
    /// All of it could be used, or nothing was set.
    Clean,
    /// Some entries could not be used; the others are live.
    EntriesDropped { dropped: Vec<String> },
    /// None of it could be used.
    Unparseable { error: String },
}

/// What an [`AliasConfigStatus`] says.
pub ghost enum StatusView {
    Clean,
    EntriesDropped { dropped: Seq<Seq<char>> },
    Unparseable { error: Seq<char> },
}

impl View for AliasConfigStatus {
    type V = StatusView;

    open spec fn view(&self) -> StatusView {
        match self {
            AliasConfigStatus::Clean => StatusView::Clean,
            AliasConfigStatus::EntriesDropped { dropped } => StatusView::EntriesDropped {
                dropped: views(dropped@),
            },
            AliasConfigStatus::Unparseable { error } => StatusView::Unparseable { error: error@ },
        }
    }
}

impl StatusView {
    /// The explanation for the operator, where something is wrong.
    pub open spec fn detail(self) -> Option<Seq<char>> {
        match self {
            StatusView::Clean => None,
            StatusView::EntriesDropped { dropped } => Some(
                "CHORD_MODEL_ALIASES: "@ + decimal(dropped.len()) + " malformed entr"@ + (
                if dropped.len() == 1 {
                    "y was"@
                } else {
                    "ies were"@
                }) + " dropped ("@ + joined(dropped, "; "@)
                    + "); the remaining aliases ARE live"@,
            ),
            StatusView::Unparseable { error } => Some(
                "CHORD_MODEL_ALIASES is not a valid JSON object ("@ + error
                    + ") — ALL model alias rewriting is DISABLED for this process (0 aliases loaded). Every alias (lumina-fast/lumina-deep/lumina-embed/coder-*/…) will MISS and every resident role will report that its alias resolves to no target. This is a CONFIG PARSE failure, NOT a residency/model/backend bug — fix the JSON in the service's environment file and restart. Validate it BEFORE restarting with: `harmony-chord --check-config`"@,
            ),
        }
    }
}

impl AliasConfigStatus {
    /// Is anything wrong?
    pub fn is_degraded(&self) -> (r: bool)
        ensures
            r == !(self@ is Clean),
    {
        match self {
            AliasConfigStatus::Clean => false,
            _ => true,
        }
    }

    /// The explanation for the operator, where something is wrong. It never quotes the value.
    pub fn detail(&self) -> (r: Option<String>)
        ensures
            opt_view(r) == self@.detail(),
    {
        match self {
            AliasConfigStatus::Clean => None,
            AliasConfigStatus::EntriesDropped { dropped } => {
                let mut s: String = owned("CHORD_MODEL_ALIASES: ");
                s.append(decimal_of(dropped.len() as u64).as_str());
                s.append(" malformed entr");
                s.append(
                    if dropped.len() == 1 {
                        "y was"
                    } else {
                        "ies were"
                    },
                );
                s.append(" dropped (");
                s.append(join_all(dropped.as_slice(), "; ").as_str());
                s.append("); the remaining aliases ARE live");
                Some(s)
            },
            AliasConfigStatus::Unparseable { error } => Some(
                join3(
                    "CHORD_MODEL_ALIASES is not a valid JSON object (",
                    error.as_str(),
                    ") — ALL model alias rewriting is DISABLED for this process (0 aliases loaded). Every alias (lumina-fast/lumina-deep/lumina-embed/coder-*/…) will MISS and every resident role will report that its alias resolves to no target. This is a CONFIG PARSE failure, NOT a residency/model/backend bug — fix the JSON in the service's environment file and restart. Validate it BEFORE restarting with: `harmony-chord --check-config`",
                ),
            ),
        }
    }

    /// The same status again.
    pub fn duplicate(&self) -> (r: Self)
        ensures
            r@ == self@,
    {
        match self {
            AliasConfigStatus::Clean => AliasConfigStatus::Clean,
            AliasConfigStatus::EntriesDropped { dropped } => AliasConfigStatus::EntriesDropped {
                dropped: crate::text::copied(dropped.as_slice()),
            },
            AliasConfigStatus::Unparseable { error } => AliasConfigStatus::Unparseable {
                error: error.clone(),
            },
        }
    }
}

/// The alias table and how its reading went.
#[derive(Debug, PartialEq, Eq)]
pub struct AliasConfig {
    pub aliases: Table,
    pub status: AliasConfigStatus,
}

/// How loudly something is to be said.
#[derive(Debug, Clone, Copy, PartialEq, Eq, Structural)]
pub enum LogLevel {
    Warn,
    Error,
}

impl AliasConfig {
    /// The line for the log, where something is wrong: a warning while some aliases are live, an
    /// error when none is. `source` names the reader.
    pub fn log_if_degraded(&self, source: &str) -> (r: Option<(LogLevel, String)>)
        ensures
            r is Some <==> !(self.status@ is Clean),
            r matches Some((level, line)) ==> line@ == source@ + ": "@ + self.status@.detail()->0
                && level == (if self.status@ is Unparseable {
                LogLevel::Error
            } else {
                LogLevel::Warn
            }),
    {
        let level = match &self.status {
            AliasConfigStatus::Unparseable { .. } => LogLevel::Error,
            _ => LogLevel::Warn,
        };
        match self.status.detail() {
            Some(detail) => Some((level, join3(source, ": ", detail.as_str()))),
            None => None,
        }
    }
}

/// How the reading of the live table went, and how many aliases it has; for the health report.
#[derive(Debug)]
pub struct AliasHealth {
    slot: Option<(AliasConfigStatus, usize)>,
}

impl AliasHealth {
    /// What was recorded.
    pub closed spec fn recorded(self) -> Option<(StatusView, nat)> {
        match self.slot {
            Some((status, count)) => Some((status@, count as nat)),
            None => None,
        }
    }

    /// Nothing recorded yet.
    pub fn new() -> (r: Self)
        ensures
            r.recorded() is None,
    {
        AliasHealth { slot: None }
    }
}

/// Records how the reading of `cfg` went. The last record counts.
pub fn record_alias_config_health(health: &mut AliasHealth, cfg: &AliasConfig)
    ensures
        final(health).recorded() == Some((cfg.status@, cfg.aliases.keys().len())),
{
    let count = cfg.aliases.len();
    health.slot = Some((cfg.status.duplicate(), count));
}

/// What was recorded last.
pub fn alias_config_health(health: &AliasHealth) -> (r: Option<(AliasConfigStatus, usize)>)
    ensures
        match r {
            Some((status, count)) => health.recorded() == Some((status@, count as nat)),
            None => health.recorded() is None,
        },
{
    match &health.slot {
        Some((status, count)) => Some((status.duplicate(), *count)),
        None => None,
    }
}

/// The kind of a JSON value, in words.
pub open spec fn kind_text(m: MemberView) -> Seq<char> {
    match m {
        MemberView::Null => "null"@,
        MemberView::Boolean => "a boolean"@,
        MemberView::Number => "a number"@,
        MemberView::Text(_) => "a string"@,
        MemberView::Array => "an array"@,
        MemberView::Object => "an object"@,
    }
}

fn json_kind(m: &JsonMember) -> (r: &'static str)
    ensures
        r@ == kind_text(m@),
{
    match m {
        JsonMember::Null => "null",
        JsonMember::Boolean => "a boolean",
        JsonMember::Number => "a number",
        JsonMember::Text(_) => "a string",
        JsonMember::Array => "an array",
        JsonMember::Object => "an object",
    }
}

/// A name of at most 64 characters as it is, a longer one cut there and marked.
pub open spec fn bounded_name(s: Seq<char>) -> Seq<char> {
    if s.len() <= 64 {
        s
    } else {
        s.take(64) + "…"@
    }
}

fn truncate_for_report(s: &str) -> (r: String)
    ensures
        r@ == bounded_name(s@),
{
    let v = chars_of(s);
    if v.len() <= 64 {
        owned(s)
    } else {
        assert(v@.subrange(0, 64) =~= s@.take(64));
        join(text_of(&v, 0, 64).as_str(), "…")
    }
}

/// Why an entry cannot be used, if it cannot.
pub open spec fn entry_fault(entry: (Seq<char>, MemberView)) -> Option<Seq<char>> {
    let alias = trim(entry.0);
    if alias.len() == 0 {
        Some("\"\": blank alias name"@)
    } else {
        match entry.1 {
            MemberView::Text(target) => if is_blank(target) {
                Some("\""@ + bounded_name(alias) + "\": empty target model"@)
            } else {
                None
            },
            other => Some(
                "\""@ + bounded_name(alias) + "\": target is not a JSON string (found "@
                    + kind_text(other) + ")"@,
            ),
        }
    }
}

/// The aliases of the entries that can be used, trimmed. A later entry of the same name counts.
pub open spec fn usable_aliases(entries: Seq<(Seq<char>, MemberView)>) -> Map<Seq<char>, Seq<char>>
    decreases entries.len(),
{
    if entries.len() == 0 {
        Map::empty()
    } else {
        let head = usable_aliases(entries.drop_last());
        let entry = entries.last();
        if entry_fault(entry) is None {
            head.insert(trim(entry.0), trim(entry.1->Text_0))
        } else {
            head
        }
    }
}

/// Why each of the entries that cannot be used cannot, in order.
pub open spec fn faults(entries: Seq<(Seq<char>, MemberView)>) -> Seq<Seq<char>>
    decreases entries.len(),
{
    if entries.len() == 0 {
        Seq::empty()
    } else {
        let head = faults(entries.drop_last());
        match entry_fault(entries.last()) {
            Some(why) => head.push(why),
            None => head,
        }
    }
}

/// The aliases that a reading yields.
pub open spec fn aliases_in(doc: Result<DocView, Seq<char>>) -> Map<Seq<char>, Seq<char>> {
    match doc {
        Ok(DocView::Object(entries)) => usable_aliases(entries),
        _ => Map::empty(),
    }
}

/// How it went.
pub open spec fn status_of(doc: Result<DocView, Seq<char>>) -> StatusView {
    match doc {
        Err(error) => StatusView::Unparseable { error },
        Ok(DocView::Other(member)) => StatusView::Unparseable {
            error: "expected a JSON object mapping alias → model, found "@ + kind_text(member),
        },
        Ok(DocView::Object(entries)) => if faults(entries).len() == 0 {
            StatusView::Clean
        } else {
            StatusView::EntriesDropped { dropped: faults(entries) }
        },
    }
}

/// The alias table in a document that has been read.
pub fn aliases_from(doc: Result<JsonDoc, String>) -> (r: AliasConfig)
    ensures
        r.aliases@ == aliases_in(reading(doc)),
        r.status@ == status_of(reading(doc)),
{
    let entries = match doc {
        Err(error) => {
            return AliasConfig {
                aliases: Table::new(),
                status: AliasConfigStatus::Unparseable { error },
            };
        },
        Ok(JsonDoc::Other(member)) => {
            let error = join(
                "expected a JSON object mapping alias → model, found ",
                json_kind(&member),
            );
            return AliasConfig {
                aliases: Table::new(),
                status: AliasConfigStatus::Unparseable { error },
            };
        },
        Ok(JsonDoc::Object(entries)) => entries,
    };
    let mut aliases = Table::new();
    let mut dropped: Vec<String> = Vec::new();
    let mut i: usize = 0;
    let ghost all = members_view(entries@);
    proof {
        assert(all.take(0) =~= Seq::<(Seq<char>, MemberView)>::empty());
        assert(views(dropped@) =~= Seq::<Seq<char>>::empty());
    }
    while i < entries.len()
        invariant
            i <= entries.len(),
            all == members_view(entries@),
            aliases@ == usable_aliases(all.take(i as int)),
            views(dropped@) == faults(all.take(i as int)),
        decreases entries.len() - i,
    {
        let entry = &entries[i];
        proof {
            assert(all[i as int] == (entry.0@, entry.1@));
            assert(all.take(i + 1).drop_last() =~= all.take(i as int));
            assert(all.take(i + 1).last() == all[i as int]);
        }
        let ghost before = views(dropped@);
        let alias = trimmed(entry.0.as_str());
        if alias.as_str().is_empty() {
            dropped.push(owned("\"\": blank alias name"));
            assert(views(dropped@) =~= before.push("\"\": blank alias name"@));
        } else {
            let fault = match &entry.1 {
                JsonMember::Text(target) => {
                    let target = trimmed(target.as_str());
                    if target.as_str().is_empty() {
                        let name = truncate_for_report(alias.as_str());
                        Some(join3("\"", name.as_str(), "\": empty target model"))
                    } else {
                        aliases.insert(alias, target);
                        None
                    }
                },
                other => {
                    let mut why: String = owned("\"");
                    why.append(truncate_for_report(alias.as_str()).as_str());
                    why.append("\": target is not a JSON string (found ");
                    why.append(json_kind(other));
                    why.append(")");
                    Some(why)
                },
            };
            match fault {
                Some(why) => {
                    dropped.push(why);
                    assert(views(dropped@) =~= before.push(why@));
                },
                None => {},
            }
        }
        i = i + 1;
    }
    assert(all.take(all.len() as int) =~= all);
    let status = if dropped.len() == 0 {
        AliasConfigStatus::Clean
    } else {
        AliasConfigStatus::EntriesDropped { dropped }
    };
    AliasConfig { aliases, status }
}

/// What the value of the setting reads as; nothing at all where it is missing or blank.
pub open spec fn alias_reading(raw: Option<Seq<char>>) -> Option<Result<DocView, Seq<char>>> {
    match filled(raw) {
        Some(text) => Some(json_reading(text)),
        None => None,
    }
}

/// The aliases that the value of the setting yields.
pub open spec fn configured_aliases(raw: Option<Seq<char>>) -> Map<Seq<char>, Seq<char>> {
    match alias_reading(raw) {
        Some(doc) => aliases_in(doc),
        None => Map::empty(),
    }
}

/// How its reading went.
pub open spec fn configured_status(raw: Option<Seq<char>>) -> StatusView {
    match alias_reading(raw) {
        Some(doc) => status_of(doc),
        None => StatusView::Clean,
    }
}

/// Reads the value of `CHORD_MODEL_ALIASES`.
pub fn parse_model_aliases(raw: Option<String>) -> (r: AliasConfig)
    ensures
        r.aliases@ == configured_aliases(opt_view(raw)),
        r.status@ == configured_status(opt_view(raw)),
{
    match filled_of(raw) {
        None => AliasConfig { aliases: Table::new(), status: AliasConfigStatus::Clean },
        Some(text) => aliases_from(read_json(text.as_str())),
    }
}

/// A value that is no JSON object is never taken for an empty table: no alias is loaded and the
/// status says so.
pub proof fn law_bad_value_is_never_silent(doc: Result<DocView, Seq<char>>)
    ensures
        !(doc matches Ok(DocView::Object(_))) ==> status_of(doc) is Unparseable && aliases_in(doc)
            == Map::<Seq<char>, Seq<char>>::empty(),
        status_of(doc) is Clean ==> (doc matches Ok(DocView::Object(entries)) && faults(
            entries,
        ).len() == 0),
        status_of(doc).detail() is None <==> status_of(doc) is Clean,
{
}

/// One bad entry costs that entry alone: with it or without it the same aliases are loaded, and
/// it is reported.
pub proof fn law_bad_entry_costs_itself_alone(
    before: Seq<(Seq<char>, MemberView)>,
    bad: (Seq<char>, MemberView),
    after: Seq<(Seq<char>, MemberView)>,
)
    requires
        entry_fault(bad) is Some,
    ensures
        usable_aliases(before + seq![bad] + after) == usable_aliases(before + after),
        faults(before + seq![bad] + after).len() == faults(before + after).len() + 1,
        status_of(Ok(DocView::Object(before + seq![bad] + after))) is EntriesDropped,
    decreases after.len(),
{
    if after.len() == 0 {
        assert((before + seq![bad] + after).drop_last() =~= before);
        assert(before + after =~= before);
    } else {
        let rest = after.drop_last();
        law_bad_entry_costs_itself_alone(before, bad, rest);
        assert((before + seq![bad] + after).drop_last() =~= before + seq![bad] + rest);
        assert((before + after).drop_last() =~= before + rest);
        assert((before + seq![bad] + after).last() == after.last());
        assert((before + after).last() == after.last());
    }
}

/// What a loaded alias stands for is never blank, and neither is its name.
pub proof fn law_loaded_aliases_are_filled(entries: Seq<(Seq<char>, MemberView)>, k: Seq<char>)
    requires
        usable_aliases(entries).contains_key(k),
    ensures
        k.len() > 0,
        usable_aliases(entries)[k].len() > 0,
    decreases entries.len(),
{
    if entries.len() > 0 {
        let head = usable_aliases(entries.drop_last());
        if head.contains_key(k) {
            law_loaded_aliases_are_filled(entries.drop_last(), k);
        }
    }
}

/// The list of dropped entries in the report.
pub open spec fn bullet_lines(dropped: Seq<Seq<char>>) -> Seq<Seq<char>> {
    dropped.map_values(|d: Seq<char>| "    - "@ + d)
}

/// The report on a table with those names.
pub open spec fn report_text(names: Seq<Seq<char>>, status: StatusView) -> Seq<char> {
    match status {
        StatusView::Clean => "CHORD_MODEL_ALIASES: OK — "@ + decimal(names.len())
            + " alias(es) loaded: "@ + (if names.len() == 0 {
            "(none configured)"@
        } else {
            joined(names, ", "@)
        }),
        StatusView::EntriesDropped { dropped } => "CHORD_MODEL_ALIASES: DEGRADED — "@ + decimal(
            names.len(),
        ) + " alias(es) would load: "@ + joined(names, ", "@) + "\n  dropped "@ + decimal(
            dropped.len(),
        ) + " malformed entr"@ + (if dropped.len() == 1 {
            "y"@
        } else {
            "ies"@
        }) + ":\n"@ + joined(bullet_lines(dropped), "\n"@)
            + "\n  Fix these before restarting; the listed aliases would NOT resolve."@,
        StatusView::Unparseable { error } => "CHORD_MODEL_ALIASES: INVALID — "@ + error
            + "\n  0 aliases would load: EVERY alias on this host would MISS (lumina-fast/lumina-deep/lumina-embed/coder-*/…) and every resident role would report that its alias resolves to no target.\n  DO NOT restart the service until this is fixed."@,
    }
}

fn bullets(dropped: &[String]) -> (r: Vec<String>)
    ensures
        views(r@) == bullet_lines(views(dropped@)),
{
    let mut r: Vec<String> = Vec::new();
    let mut i: usize = 0;
    while i < dropped.len()
        invariant
            i <= dropped.len(),
            r.len() == i,
            forall|k: int| 0 <= k < i ==> (#[trigger] r@[k])@ == "    - "@ + dropped@[k]@,
        decreases dropped.len() - i,
    {
        r.push(join("    - ", dropped[i].as_str()));
        i = i + 1;
    }
    assert(views(r@) =~= bullet_lines(views(dropped@)));
    r
}

/// The report on a table that has been read, and the exit code: 0 where nothing is wrong.
pub fn report_on(cfg: &AliasConfig) -> (r: (String, i32))
    ensures
        r.0@ == report_text(cfg.aliases.keys(), cfg.status@),
        r.1 == (if cfg.status@ is Clean {
            0int
        } else {
            1int
        }),
        crate::table::ascending(cfg.aliases.keys()),
        forall|k: Seq<char>| cfg.aliases.keys().contains(k) <==> cfg.aliases@.contains_key(k),
{
    let names = cfg.aliases.sorted_keys();
    proof {
        assert(views(names@).len() == names@.len());
    }
    match &cfg.status {
        AliasConfigStatus::Clean => {
            let mut s: String = owned("CHORD_MODEL_ALIASES: OK — ");
            s.append(decimal_of(names.len() as u64).as_str());
            s.append(" alias(es) loaded: ");
            if names.len() == 0 {
                s.append("(none configured)");
            } else {
                s.append(join_all(names.as_slice(), ", ").as_str());
            }
            (s, 0)
        },
        AliasConfigStatus::EntriesDropped { dropped } => {
            let mut s: String = owned("CHORD_MODEL_ALIASES: DEGRADED — ");
            s.append(decimal_of(names.len() as u64).as_str());
            s.append(" alias(es) would load: ");
            s.append(join_all(names.as_slice(), ", ").as_str());
            s.append("\n  dropped ");
            s.append(decimal_of(dropped.len() as u64).as_str());
            s.append(" malformed entr");
            s.append(
                if dropped.len() == 1 {
                    "y"
                } else {
                    "ies"
                },
            );
            s.append(":\n");
            s.append(join_all(bullets(dropped.as_slice()).as_slice(), "\n").as_str());
            s.append("\n  Fix these before restarting; the listed aliases would NOT resolve.");
            (s, 1)
        },
        AliasConfigStatus::Unparseable { error } => {
            let s = join3(
                "CHORD_MODEL_ALIASES: INVALID — ",
                error.as_str(),
                "\n  0 aliases would load: EVERY alias on this host would MISS (lumina-fast/lumina-deep/lumina-embed/coder-*/…) and every resident role would report that its alias resolves to no target.\n  DO NOT restart the service until this is fixed.",
            );
            (s, 1)
        },
    }
}

/// The report that lets an operator check a value before the service is restarted, and the exit
/// code: 0 where nothing is wrong with it.
pub fn check_config_report(raw: Option<String>) -> (r: (String, i32))
    ensures
        r.1 == (if configured_status(opt_view(raw)) is Clean {
            0int
        } else {
            1int
        }),
        exists|names: Seq<Seq<char>>|
            crate::table::ascending(names) && (forall|k: Seq<char>|
                names.contains(k) <==> configured_aliases(opt_view(raw)).contains_key(k))
                && #[trigger] report_text(names, configured_status(opt_view(raw))) == r.0@,
{
    let cfg = parse_model_aliases(raw);
    let ghost names = cfg.aliases.keys();
    let r = report_on(&cfg);
    assert(report_text(names, configured_status(opt_view(raw))) == r.0@);
    r
}

/// What a model name stands for: its alias target, or itself.
pub open spec fn resolved(aliases: Map<Seq<char>, Seq<char>>, model: Seq<char>) -> Seq<char> {
    if aliases.contains_key(model) {
        aliases[model]
    } else {
        model
    }
}

/// What a model name stands for: its alias target, or itself.
pub fn resolve_model_alias(aliases: &Table, model: &str) -> (r: String)
    ensures
        r@ == resolved(aliases@, model@),
{
    match aliases.get(model) {
        Some(target) => target,
        None => owned(model),
    }
}

/// An entry can be used exactly where its name and its target are texts that are not blank.
pub proof fn law_usable_entries(name: Seq<char>, target: Seq<char>, other: MemberView)
    ensures
        entry_fault((name, MemberView::Text(target))) is None <==> trim(name).len() > 0 && trim(
            target,
        ).len() > 0,
        !(other is Text) ==> entry_fault((name, other)) is Some,
        trim(name).len() == 0 ==> entry_fault((name, other)) == Some("\"\": blank alias name"@),
        trim(name).len() > 0 && !(other is Text) ==> entry_fault((name, other)) == Some(
            "\""@ + bounded_name(trim(name)) + "\": target is not a JSON string (found "@
                + kind_text(other) + ")"@,
        ),
        trim(name).len() > 0 && trim(target).len() == 0 ==> entry_fault(
            (name, MemberView::Text(target)),
        ) == Some("\""@ + bounded_name(trim(name)) + "\": empty target model"@),
{
}

/// A usable entry makes its trimmed name stand for its trimmed target, whatever was there before, and
/// changes no other name; what cannot be used is told and changes nothing.
pub proof fn law_entries_are_loaded_one_by_one(
    before: Seq<(Seq<char>, MemberView)>,
    name: Seq<char>,
    target: Seq<char>,
    bad: (Seq<char>, MemberView),
)
    ensures
        usable_aliases(Seq::empty()) == Map::<Seq<char>, Seq<char>>::empty(),
        faults(Seq::empty()) == Seq::<Seq<char>>::empty(),
        trim(name).len() > 0 && trim(target).len() > 0 ==> usable_aliases(
            before.push((name, MemberView::Text(target))),
        ) == usable_aliases(before).insert(trim(name), trim(target)) && faults(
            before.push((name, MemberView::Text(target))),
        ) == faults(before),
        entry_fault(bad) is Some ==> usable_aliases(before.push(bad)) == usable_aliases(before)
            && faults(before.push(bad)) == faults(before).push(entry_fault(bad)->0),
{
    let good = (name, MemberView::Text(target));
    assert(before.push(good).drop_last() =~= before);
    assert(before.push(bad).drop_last() =~= before);
}

/// An object gives its usable entries and tells of the others; what is no object gives nothing and
/// says what it is; what is no document gives nothing and says why.
pub proof fn law_reading_of_the_table(
    entries: Seq<(Seq<char>, MemberView)>,
    member: MemberView,
    error: Seq<char>,
)
    ensures
        aliases_in(Ok(DocView::Object(entries))) == usable_aliases(entries),
        faults(entries).len() == 0 ==> status_of(Ok(DocView::Object(entries))) is Clean,
        faults(entries).len() > 0 ==> status_of(Ok(DocView::Object(entries))) == (
        StatusView::EntriesDropped { dropped: faults(entries) }),
        aliases_in(Ok(DocView::Other(member))) == Map::<Seq<char>, Seq<char>>::empty(),
        status_of(Ok(DocView::Other(member))) == (StatusView::Unparseable {
            error: "expected a JSON object mapping alias → model, found "@ + kind_text(member),
        }),
        aliases_in(Err(error)) == Map::<Seq<char>, Seq<char>>::empty(),
        status_of(Err(error)) == (StatusView::Unparseable { error }),
{
}

/// A setting that is missing or blank loads nothing and is nothing wrong; any other is read as its
/// trimmed text says.
pub proof fn law_blank_setting_is_an_empty_table(raw: Seq<char>)
    ensures
        configured_aliases(None) == Map::<Seq<char>, Seq<char>>::empty(),
        configured_status(None) is Clean,
        trim(raw).len() == 0 ==> configured_aliases(Some(raw)) == Map::<Seq<char>, Seq<char>>::empty()
            && configured_status(Some(raw)) is Clean,
        trim(raw).len() > 0 ==> configured_aliases(Some(raw)) == aliases_in(json_reading(trim(raw)))
            && configured_status(Some(raw)) == status_of(json_reading(trim(raw))),
{
}

/// A name of up to 64 characters is told whole; of a longer one its first 64 are, and a mark.
pub proof fn law_long_names_are_cut(s: Seq<char>)
    ensures
        s.len() <= 64 ==> bounded_name(s) == s,
        s.len() > 64 ==> bounded_name(s).len() == 65 && bounded_name(s).take(64) == s.take(64),
{
    reveal_strlit("…");
    if s.len() > 64 {
        assert(bounded_name(s).take(64) =~= s.take(64));
    }
}

/// A name stands for its alias' target where there is one, and else for itself.
pub proof fn law_aliases_resolve(aliases: Map<Seq<char>, Seq<char>>, model: Seq<char>)
    ensures
        aliases.contains_key(model) ==> resolved(aliases, model) == aliases[model],
        !aliases.contains_key(model) ==> resolved(aliases, model) == model,
{
}

/// The kinds of values are told apart.
pub proof fn law_kinds_are_told_apart(text: Seq<char>)
    ensures
        kind_text(MemberView::Null) == "null"@,
        kind_text(MemberView::Boolean) == "a boolean"@,
        kind_text(MemberView::Number) == "a number"@,
        kind_text(MemberView::Text(text)) == "a string"@,
        kind_text(MemberView::Array) == "an array"@,
        kind_text(MemberView::Object) == "an object"@,
{
}

/// The report on a table without fault counts the aliases and names every one.
pub proof fn law_report_names_every_alias(names: Seq<Seq<char>>, i: int)
    ensures
        0 <= i < names.len() ==> contains(report_text(names, StatusView::Clean), names[i]),
        names.len() == 0 ==> contains(
            report_text(names, StatusView::Clean),
            "(none configured)"@,
        ),
        starts_with(
            report_text(names, StatusView::Clean),
            "CHORD_MODEL_ALIASES: OK — "@ + decimal(names.len()),
        ),
{
    let none = Seq::<char>::empty();
    let ok = "CHORD_MODEL_ALIASES: OK — "@ + decimal(names.len());
    let loaded = " alias(es) loaded: "@;
    let shown = if names.len() == 0 {
        "(none configured)"@
    } else {
        joined(names, ", "@)
    };
    let clean = report_text(names, StatusView::Clean);
    assert(clean == ok + loaded + shown);
    lemma_regrouped(ok, loaded, shown);
    law_words_in_a_text(none, ok, loaded + shown, none);
    assert(ok + loaded + shown + none =~= clean);
    law_words_in_a_text(ok + loaded, shown, none, none);
    if 0 <= i < names.len() {
        law_joined_text_holds_every_part(names, ", "@, i);
        lemma_contains_in_more(ok + loaded, shown, none, names[i]);
    }
}

/// The report on a table with faults counts and names the aliases that would load, and lists every
/// entry that would not.
#[verifier::spinoff_prover]
pub proof fn law_report_lists_what_is_dropped(
    names: Seq<Seq<char>>,
    dropped: Seq<Seq<char>>,
    i: int,
)
    ensures
        0 <= i < names.len() ==> contains(
            report_text(names, StatusView::EntriesDropped { dropped }),
            names[i],
        ),
        0 <= i < dropped.len() ==> contains(
            report_text(names, StatusView::EntriesDropped { dropped }),
            "    - "@ + dropped[i],
        ),
        starts_with(
            report_text(names, StatusView::EntriesDropped { dropped }),
            "CHORD_MODEL_ALIASES: DEGRADED — "@ + decimal(names.len()),
        ),
        contains(
            report_text(names, StatusView::EntriesDropped { dropped }),
            "\n  dropped "@ + decimal(dropped.len()) + " malformed entr"@ + (if dropped.len() == 1 {
                "y"@
            } else {
                "ies"@
            }) + ":\n"@,
        ),
{
    let none = Seq::<char>::empty();
    let head = "CHORD_MODEL_ALIASES: DEGRADED — "@ + decimal(names.len());
    let would = " alias(es) would load: "@;
    let listed = joined(names, ", "@);
    let first = head + would + listed;
    let gone = "\n  dropped "@;
    let number = decimal(dropped.len());
    let entries = " malformed entr"@;
    let ending = if dropped.len() == 1 {
        "y"@
    } else {
        "ies"@
    };
    let colon = ":\n"@;
    let count = gone + number + entries + ending + colon;
    let bullets = joined(bullet_lines(dropped), "\n"@);
    let advice = "\n  Fix these before restarting; the listed aliases would NOT resolve."@;
    let degraded = report_text(names, StatusView::EntriesDropped { dropped });
    assert(degraded == first + gone + number + entries + ending + colon + bullets + advice);
    lemma_regrouped(first, gone, number);
    lemma_regrouped(first, gone + number, entries);
    lemma_regrouped(first, gone + number + entries, ending);
    lemma_regrouped(first, gone + number + entries + ending, colon);
    assert(degraded == first + count + bullets + advice);
    if 0 <= i < dropped.len() {
        let lines = bullet_lines(dropped);
        law_joined_text_holds_every_part(lines, "\n"@, i);
        lemma_contains_in_more(first + count, bullets, advice, lines[i]);
    }
    lemma_regrouped(first + count, bullets, advice);
    law_words_in_a_text(first, count, bullets + advice, none);
    lemma_regrouped(first, count, bullets + advice);
    let rest = count + (bullets + advice);
    assert(degraded == head + would + listed + rest);
    if 0 <= i < names.len() {
        law_joined_text_holds_every_part(names, ", "@, i);
        lemma_contains_in_more(head + would, listed, rest, names[i]);
    }
    lemma_regrouped(head, would, listed);
    lemma_regrouped(head, would + listed, rest);
    law_words_in_a_text(none, head, would + listed + rest, none);
}

/// The report on a value that cannot be used gives the reason.
pub proof fn law_report_gives_the_reason(names: Seq<Seq<char>>, error: Seq<char>)
    ensures
        contains(report_text(names, StatusView::Unparseable { error }), error),
        starts_with(
            report_text(names, StatusView::Unparseable { error }),
            "CHORD_MODEL_ALIASES: INVALID — "@ + error,
        ),
{
    let start = "CHORD_MODEL_ALIASES: INVALID — "@;
    let end = "\n  0 aliases would load: EVERY alias on this host would MISS (lumina-fast/lumina-deep/lumina-embed/coder-*/…) and every resident role would report that its alias resolves to no target.\n  DO NOT restart the service until this is fixed."@;
    let none = Seq::<char>::empty();
    assert(report_text(names, StatusView::Unparseable { error }) == start + error + end);
    law_words_in_a_text(start, error, end, none);
    law_words_in_a_text(none, start + error, end, none);
}

/// Where nothing is wrong there is nothing to explain. Where entries were dropped the explanation
/// counts them, in the singular for one and in the plural for several, and lists them; where nothing
/// could be used it gives the reason and says that rewriting is off.
pub proof fn law_explanation_fits_what_is_wrong(
    one: Seq<char>,
    several: Seq<Seq<char>>,
    error: Seq<char>,
)
    requires
        several.len() > 1,
    ensures
        StatusView::Clean.detail() is None,
        (StatusView::EntriesDropped { dropped: seq![one] }).detail() == Some(
            "CHORD_MODEL_ALIASES: "@ + decimal(1) + " malformed entr"@ + "y was"@ + " dropped ("@
                + joined(seq![one], "; "@) + "); the remaining aliases ARE live"@,
        ),
        (StatusView::EntriesDropped { dropped: several }).detail() == Some(
            "CHORD_MODEL_ALIASES: "@ + decimal(several.len()) + " malformed entr"@ + "ies were"@
                + " dropped ("@ + joined(several, "; "@) + "); the remaining aliases ARE live"@,
        ),
        ({
            let text = (StatusView::Unparseable { error }).detail();
            &&& text is Some
            &&& starts_with(
                text->0,
                "CHORD_MODEL_ALIASES is not a valid JSON object ("@ + error,
            )
            &&& contains(text->0, error)
        }),
{
    let lead = "CHORD_MODEL_ALIASES is not a valid JSON object ("@;
    let tail = ") — ALL model alias rewriting is DISABLED for this process (0 aliases loaded). Every alias (lumina-fast/lumina-deep/lumina-embed/coder-*/…) will MISS and every resident role will report that its alias resolves to no target. This is a CONFIG PARSE failure, NOT a residency/model/backend bug — fix the JSON in the service's environment file and restart. Validate it BEFORE restarting with: `harmony-chord --check-config`"@;
    let none = Seq::<char>::empty();
    assert((StatusView::Unparseable { error }).detail() == Some(lead + error + tail));
    assert(none + lead + error + tail =~= lead + error + tail);
    law_words_in_a_text(lead, error, tail, lead + error + tail);
    law_words_in_a_text(none, lead + error, tail, lead + error + tail);
}

} // verus!
