//! The model-tier control interface: what the records say, and how each request is answered.
use vstd::prelude::*;

use crate::table::{
    lemma_precedes_irreflexive, lemma_precedes_total, lemma_precedes_transitive, precedes, standing,
    Standing,
};
use crate::text::{blank, is_blank, join, join3, listed, lists, opt_view, owned, same};

pub mod ingest;
pub mod routes;

verus! {

/// Where a model is kept.
#[derive(Debug, Clone, Copy, PartialEq, Eq, Structural)]
pub enum StorageTier {
    /// Loaded.
    Hot,
    /// On the local disk.
    Warm,
    /// In the archive.
    Cold,
}

/// What is known of one model.
#[derive(Debug, PartialEq, Eq)]
pub struct ModelRecord {
    pub name: String,
    pub tier: StorageTier,
    pub size_bytes: u64,
    pub local_path: Option<String>,
    pub archive_path: Option<String>,
    pub last_requested: Option<i64>,
    pub last_loaded: Option<i64>,
    pub protected: bool,
    pub managed_by: String,
}

/// A record as it is published.
#[derive(Debug, PartialEq, Eq)]
pub struct ModelView {
    pub name: String,
    pub tier: String,
    pub size_bytes: u64,
    pub local_path: Option<String>,
    pub archive_path: Option<String>,
    pub last_requested: Option<i64>,
    pub last_loaded: Option<i64>,
    pub protected: bool,
    pub managed_by: String,
    pub supports_thinking: bool,
}

/// A request that is refused: the status and the message.
#[derive(Debug, PartialEq, Eq)]
pub struct ErrorReply {
    pub status: u16,
    pub error: String,
}

/// The reply refuses with a status and a message.
pub open spec fn refusal(r: ErrorReply, status: u16, error: Seq<char>) -> bool {
    r.status == status && r.error@ == error
}

/// Refuses with a status and a message.
pub fn error_response(status: u16, message: &str) -> (r: ErrorReply)
    ensures
        refusal(r, status, message@),
{
    ErrorReply { status, error: owned(message) }
}

/// The name of a tier.
pub open spec fn tier_name(tier: StorageTier) -> Seq<char> {
    match tier {
        StorageTier::Hot => "hot"@,
        StorageTier::Warm => "warm"@,
        StorageTier::Cold => "cold"@,
    }
}

/// The name of a tier.
pub fn tier_str(tier: &StorageTier) -> (r: &'static str)
    ensures
        r@ == tier_name(*tier),
{
    match tier {
        StorageTier::Hot => "hot",
        StorageTier::Warm => "warm",
        StorageTier::Cold => "cold",
    }
}

/// The view shows the record.
pub open spec fn shows(v: ModelView, r: ModelRecord, thinking: bool) -> bool {
    &&& v.name@ == r.name@
    &&& v.tier@ == tier_name(r.tier)
    &&& v.size_bytes == r.size_bytes
    &&& opt_view(v.local_path) == opt_view(r.local_path)
    &&& opt_view(v.archive_path) == opt_view(r.archive_path)
    &&& v.last_requested == r.last_requested
    &&& v.last_loaded == r.last_loaded
    &&& v.protected == r.protected
    &&& v.managed_by@ == r.managed_by@
    &&& v.supports_thinking == thinking
}

/// A copy of an optional text.
pub(crate) fn maybe_copy(o: &Option<String>) -> (r: Option<String>)
    ensures
        opt_view(r) == opt_view(*o),
{
    match o {
        Some(s) => Some(s.clone()),
        None => None,
    }
}

impl ModelView {
    /// The view of a record alone, which says nothing of thinking.
    pub fn from(r: &ModelRecord) -> (v: ModelView)
        ensures
            shows(v, *r, false),
    {
        ModelView {
            name: r.name.clone(),
            tier: owned(tier_str(&r.tier)),
            size_bytes: r.size_bytes,
            local_path: maybe_copy(&r.local_path),
            archive_path: maybe_copy(&r.archive_path),
            last_requested: r.last_requested,
            last_loaded: r.last_loaded,
            protected: r.protected,
            managed_by: r.managed_by.clone(),
            supports_thinking: false,
        }
    }
}

/// The view of a record whose model can think, or cannot.
pub fn model_view_with_capability(r: &ModelRecord, thinking_available: bool) -> (v: ModelView)
    ensures
        shows(v, *r, thinking_available),
{
    let mut v = ModelView::from(r);
    v.supports_thinking = thinking_available;
    v
}

/// The position behind all entries that a name does not precede, in a list in order of names.
pub open spec fn name_place(sorted: Seq<(ModelRecord, bool)>, name: Seq<char>) -> int
    decreases sorted.len(),
{
    if sorted.len() == 0 || !precedes(name, sorted.last().0.name@) {
        sorted.len() as int
    } else {
        name_place(sorted.drop_last(), name)
    }
}

/// The records in the order of their names, each with whether its model can think.
pub open spec fn by_name(records: Seq<(ModelRecord, bool)>) -> Seq<(ModelRecord, bool)>
    decreases records.len(),
{
    if records.len() == 0 {
        Seq::empty()
    } else {
        let head = by_name(records.drop_last());
        head.insert(name_place(head, records.last().0.name@), records.last())
    }
}

proof fn lemma_name_place(sorted: Seq<(ModelRecord, bool)>, name: Seq<char>)
    ensures
        0 <= name_place(sorted, name) <= sorted.len(),
        name_place(sorted, name) > 0 ==> !precedes(
            name,
            sorted[name_place(sorted, name) - 1].0.name@,
        ),
        forall|i: int|
            name_place(sorted, name) <= i < sorted.len() ==> precedes(
                name,
                (#[trigger] sorted[i]).0.name@,
            ),
    decreases sorted.len(),
{
    if sorted.len() > 0 && precedes(name, sorted.last().0.name@) {
        let rest = sorted.drop_last();
        lemma_name_place(rest, name);
        assert forall|i: int| name_place(sorted, name) <= i < sorted.len() implies precedes(
            name,
            (#[trigger] sorted[i]).0.name@,
        ) by {
            if i < rest.len() {
                assert(rest[i] == sorted[i]);
            }
        }
        if name_place(sorted, name) > 0 {
            assert(rest[name_place(sorted, name) - 1] == sorted[name_place(sorted, name) - 1]);
        }
    }
}

/// No entry stands behind one that it precedes.
pub open spec fn names_ascend(records: Seq<(ModelRecord, bool)>) -> bool {
    forall|i: int, j: int|
        0 <= i < j < records.len() ==> !precedes(
            (#[trigger] records[j]).0.name@,
            (#[trigger] records[i]).0.name@,
        )
}

proof fn lemma_not_before(a: Seq<char>, b: Seq<char>, c: Seq<char>)
    requires
        !precedes(b, a),
        !precedes(c, b),
    ensures
        !precedes(c, a),
{
    if precedes(c, a) {
        lemma_precedes_total(b, c);
        if b != c {
            lemma_precedes_transitive(b, c, a);
        }
    }
}

proof fn lemma_before_is_one_way(a: Seq<char>, b: Seq<char>)
    requires
        precedes(a, b),
    ensures
        !precedes(b, a),
{
    if precedes(b, a) {
        lemma_precedes_transitive(a, b, a);
        lemma_precedes_irreflexive(a);
    }
}

proof fn lemma_put_in_place(head: Seq<(ModelRecord, bool)>, x: (ModelRecord, bool))
    requires
        names_ascend(head),
    ensures
        names_ascend(head.insert(name_place(head, x.0.name@), x)),
{
    let at = name_place(head, x.0.name@);
    let all = head.insert(at, x);
    lemma_name_place(head, x.0.name@);
    assert forall|i: int, j: int| 0 <= i < j < all.len() implies !precedes(
        (#[trigger] all[j]).0.name@,
        (#[trigger] all[i]).0.name@,
    ) by {
        if j == at {
            assert(all[i] == head[i]);
            if i < at - 1 {
                assert(!precedes(head[at - 1].0.name@, head[i].0.name@));
                lemma_not_before(head[i].0.name@, head[at - 1].0.name@, x.0.name@);
            }
        } else if i == at {
            assert(all[j] == head[j - 1]);
            lemma_before_is_one_way(x.0.name@, head[j - 1].0.name@);
        } else {
            let a = if i < at {
                i
            } else {
                i - 1
            };
            let b = if j < at {
                j
            } else {
                j - 1
            };
            assert(all[i] == head[a]);
            assert(all[j] == head[b]);
        }
    }
}

/// The list in the order of names holds the same records, and no name stands behind one that it
/// precedes.
pub proof fn law_list_is_in_order_of_names(records: Seq<(ModelRecord, bool)>)
    ensures
        names_ascend(by_name(records)),
        by_name(records).len() == records.len(),
        by_name(records).to_multiset() == records.to_multiset(),
    decreases records.len(),
{
    if records.len() == 0 {
        assert(by_name(records) =~= records);
    } else {
        let rest = records.drop_last();
        let head = by_name(rest);
        let x = records.last();
        law_list_is_in_order_of_names(rest);
        lemma_put_in_place(head, x);
        lemma_name_place(head, x.0.name@);
        broadcast use vstd::seq_lib::group_to_multiset_ensures;

        vstd::seq_lib::to_multiset_insert(head, name_place(head, x.0.name@), x);
        assert(records =~= rest.push(x));
    }
}

/// The answer to a request for all models.
#[derive(Debug, PartialEq, Eq)]
pub struct ModelList {
    pub models: Vec<ModelView>,
    pub count: usize,
}

/// Lists all models in the order of their names.
pub fn list_models(records: &[(ModelRecord, bool)]) -> (r: ModelList)
    ensures
        r.count == r.models@.len(),
        r.models@.len() == by_name(records@).len(),
        forall|i: int|
            0 <= i < r.models@.len() ==> shows(
                #[trigger] r.models@[i],
                by_name(records@)[i].0,
                by_name(records@)[i].1,
            ),
{
    let mut models: Vec<ModelView> = Vec::new();
    let mut i: usize = 0;
    assert(records@.take(0) =~= Seq::empty());
    while i < records.len()
        invariant
            i <= records.len(),
            models@.len() == by_name(records@.take(i as int)).len(),
            forall|k: int|
                0 <= k < models@.len() ==> shows(
                    #[trigger] models@[k],
                    by_name(records@.take(i as int))[k].0,
                    by_name(records@.take(i as int))[k].1,
                ),
        decreases records.len() - i,
    {
        let ghost head = by_name(records@.take(i as int));
        let ghost x = records@[i as int];
        let ghost held = models@;
        let view = model_view_with_capability(&records[i].0, records[i].1);
        let mut at: usize = models.len();
        proof {
            assert(head.take(at as int) =~= head);
        }
        let mut moving = true;
        while at > 0 && moving
            invariant
                at <= models.len(),
                models@ == held,
                models@.len() == head.len(),
                view.name@ == x.0.name@,
                forall|k: int|
                    0 <= k < models@.len() ==> shows(
                        #[trigger] models@[k],
                        head[k].0,
                        head[k].1,
                    ),
                name_place(head, x.0.name@) == name_place(head.take(at as int), x.0.name@),
                !moving ==> at == name_place(head, x.0.name@),
            decreases
                at,
                if moving {
                    1int
                } else {
                    0int
                },
        {
            assert(head.take(at as int).last() == head[at - 1]);
            assert(head.take(at as int).drop_last() =~= head.take(at - 1));
            assert(shows(models@[at - 1], head[at - 1].0, head[at - 1].1));
            match standing(view.name.as_str(), models[at - 1].name.as_str()) {
                Standing::Before => {
                    at = at - 1;
                },
                Standing::Same => {
                    proof {
                        lemma_precedes_irreflexive(x.0.name@);
                    }
                    moving = false;
                },
                Standing::After => {
                    proof {
                        if precedes(x.0.name@, head[at - 1].0.name@) {
                            lemma_precedes_transitive(
                                x.0.name@,
                                head[at - 1].0.name@,
                                x.0.name@,
                            );
                            lemma_precedes_irreflexive(x.0.name@);
                        }
                    }
                    moving = false;
                },
            }
        }
        assert(at == name_place(head, x.0.name@));
        models.insert(at, view);
        proof {
            assert(records@.take(i + 1).drop_last() =~= records@.take(i as int));
            assert(records@.take(i + 1).last() == x);
            let all = by_name(records@.take(i + 1));
            assert(all == head.insert(at as int, x));
            assert forall|k: int| 0 <= k < models@.len() implies shows(
                #[trigger] models@[k],
                all[k].0,
                all[k].1,
            ) by {
                if k < at {
                    assert(models@[k] == held[k]);
                } else if k > at {
                    assert(models@[k] == held[k - 1]);
                }
            }
        }
        i = i + 1;
    }
    assert(records@.take(records@.len() as int) =~= records@);
    let count: usize = models.len();
    ModelList { models, count }
}

/// The record of that name: the first, where there is one.
pub open spec fn record_of(records: Seq<ModelRecord>, name: Seq<char>) -> Option<int>
    decreases records.len(),
{
    if records.len() == 0 {
        None
    } else if records[0].name@ == name {
        Some(0)
    } else {
        match record_of(records.skip(1), name) {
            Some(i) => Some(i + 1),
            None => None,
        }
    }
}

proof fn lemma_record_of(records: Seq<ModelRecord>, name: Seq<char>)
    ensures
        match record_of(records, name) {
            Some(i) => 0 <= i < records.len() && records[i].name@ == name && forall|k: int|
                0 <= k < i ==> (#[trigger] records[k]).name@ != name,
            None => forall|k: int|
                0 <= k < records.len() ==> (#[trigger] records[k]).name@ != name,
        },
    decreases records.len(),
{
    if records.len() > 0 && records[0].name@ != name {
        let rest = records.skip(1);
        lemma_record_of(rest, name);
        match record_of(rest, name) {
            Some(i) => {
                assert(rest[i] == records[i + 1]);
                assert forall|k: int| 0 <= k < i + 1 implies (#[trigger] records[k]).name@
                    != name by {
                    if k > 0 {
                        assert(rest[k - 1] == records[k]);
                    }
                }
            },
            None => {
                assert forall|k: int| 0 <= k < records.len() implies (#[trigger] records[k]).name@
                    != name by {
                    if k > 0 {
                        assert(rest[k - 1] == records[k]);
                    }
                }
            },
        }
    }
}

/// Finds the record of that name.
pub fn find_record(records: &[ModelRecord], name: &str) -> (r: Option<usize>)
    ensures
        match (r, record_of(records@, name@)) {
            (Some(i), Some(k)) => i == k && i < records@.len() && records@[i as int].name@ == name@,
            (None, None) => true,
            _ => false,
        },
{
    proof {
        lemma_record_of(records@, name@);
    }
    let mut i: usize = 0;
    while i < records.len()
        invariant
            i <= records.len(),
            forall|k: int| 0 <= k < i ==> (#[trigger] records@[k]).name@ != name@,
        decreases records.len() - i,
    {
        if same(records[i].name.as_str(), name) {
            proof {
                lemma_record_of(records@, name@);
            }
            return Some(i);
        }
        i = i + 1;
    }
    proof {
        lemma_record_of(records@, name@);
    }
    None
}

/// The reply to a request for a model that nobody knows.
pub open spec fn unknown_model_text(name: Seq<char>) -> Seq<char> {
    "unknown model: "@ + name
}

fn unknown_model(name: &str) -> (r: ErrorReply)
    ensures
        refusal(r, 404, unknown_model_text(name@)),
{
    error_response(404, join("unknown model: ", name).as_str())
}

/// One model. `thinking_available` says whether it can think.
pub fn get_model(records: &[ModelRecord], thinking_available: bool, name: &str) -> (r: Result<
    ModelView,
    ErrorReply,
>)
    ensures
        match record_of(records@, name@) {
            Some(i) => r matches Ok(v) && shows(v, records@[i], thinking_available),
            None => r matches Err(e) && refusal(e, 404, unknown_model_text(name@)),
        },
{
    match find_record(records, name) {
        Some(i) => Ok(model_view_with_capability(&records[i], thinking_available)),
        None => Err(unknown_model(name)),
    }
}

/// A record is protected by its own flag or by the configured names.
pub open spec fn shields(record: ModelRecord, names: Seq<String>) -> bool {
    record.protected || lists(names, record.name@)
}

/// Is the record protected?
pub fn is_protected(record: &ModelRecord, names: &[String]) -> (r: bool)
    ensures
        r == shields(*record, names@),
{
    record.protected || listed(names, record.name.as_str())
}

/// Why a protected model is not archived.
pub open spec fn protected_text(name: Seq<char>) -> Seq<char> {
    "model "@ + name + " is protected and cannot be archived; unprotect it first"@
}

fn protected_refusal(name: &str) -> (r: ErrorReply)
    ensures
        refusal(r, 403, protected_text(name@)),
{
    error_response(
        403,
        join3("model ", name, " is protected and cannot be archived; unprotect it first").as_str(),
    )
}

/// Is a request to archive a model refused before anything is done?
pub fn archive_model(records: &[ModelRecord], names: &[String], name: &str) -> (r: Option<
    ErrorReply,
>)
    ensures
        match record_of(records@, name@) {
            None => r matches Some(e) && refusal(e, 404, unknown_model_text(name@)),
            Some(i) => if records@[i].tier == StorageTier::Hot {
                r matches Some(e) && refusal(e, 409, "model is currently loaded, unload first"@)
            } else if shields(records@[i], names@) {
                r matches Some(e) && refusal(e, 403, protected_text(name@))
            } else {
                r is None
            },
        },
{
    match find_record(records, name) {
        None => Some(unknown_model(name)),
        Some(i) => {
            if records[i].tier == StorageTier::Hot {
                Some(error_response(409, "model is currently loaded, unload first"))
            } else if is_protected(&records[i], names) {
                Some(protected_refusal(name))
            } else {
                None
            }
        },
    }
}

/// Why a model could not be moved to the archive.
#[derive(Debug, PartialEq, Eq)]
pub enum EvictError {
    UnknownModel,
    Protected,
    NotWarm,
    /// It took too long: the message.
    Timeout(String),
    /// Something else: the message.
    Other(String),
}

/// A model that was archived.
#[derive(Debug, PartialEq, Eq)]
pub struct Archived {
    pub model: String,
    pub freed_bytes: u64,
}

/// The reply once the model was moved to the archive, or was not.
pub fn archived(name: &str, outcome: Result<u64, EvictError>) -> (r: Result<Archived, ErrorReply>)
    ensures
        match outcome {
            Ok(freed) => r matches Ok(a) && a.model@ == name@ && a.freed_bytes == freed,
            Err(EvictError::UnknownModel) => r matches Err(e) && refusal(
                e,
                404,
                unknown_model_text(name@),
            ),
            Err(EvictError::Protected) => r matches Err(e) && refusal(e, 403, protected_text(name@)),
            Err(EvictError::NotWarm) => r matches Err(e) && refusal(
                e,
                409,
                "model "@ + name@ + " is not warm; only warm models can be archived"@,
            ),
            Err(EvictError::Timeout(m)) => r matches Err(e) && refusal(e, 504, m@),
            Err(EvictError::Other(m)) => r matches Err(e) && refusal(e, 500, m@),
        },
{
    match outcome {
        Ok(freed_bytes) => Ok(Archived { model: owned(name), freed_bytes }),
        Err(EvictError::UnknownModel) => Err(unknown_model(name)),
        Err(EvictError::Protected) => Err(protected_refusal(name)),
        Err(EvictError::NotWarm) => Err(
            error_response(
                409,
                join3("model ", name, " is not warm; only warm models can be archived").as_str(),
            ),
        ),
        Err(EvictError::Timeout(m)) => Err(error_response(504, m.as_str())),
        Err(EvictError::Other(m)) => Err(error_response(500, m.as_str())),
    }
}

/// Why a model could not be brought to the local disk.
#[derive(Debug, PartialEq, Eq)]
pub enum PullError {
    UnknownModel,
    MissingArchive,
    /// The disk is too full: the message.
    InsufficientDiskSpace(String),
    /// Something else: the message.
    Other(String),
}

/// Is a request to pull a model refused before anything is done?
pub fn pull_model(records: &[ModelRecord], name: &str) -> (r: Option<ErrorReply>)
    ensures
        match record_of(records@, name@) {
            None => r matches Some(e) && refusal(e, 404, unknown_model_text(name@)),
            Some(_) => r is None,
        },
{
    match find_record(records, name) {
        None => Some(unknown_model(name)),
        Some(_) => None,
    }
}

/// The reply once the model was pulled, or was not; the name of the model that is warm now.
pub fn pulled(name: &str, outcome: Result<(), PullError>) -> (r: Result<String, ErrorReply>)
    ensures
        match outcome {
            Ok(()) => r matches Ok(m) && m@ == name@,
            Err(PullError::UnknownModel) => r matches Err(e) && refusal(
                e,
                404,
                unknown_model_text(name@),
            ),
            Err(PullError::MissingArchive) => r matches Err(e) && refusal(
                e,
                404,
                "model "@ + name@ + " is not present in the archive"@,
            ),
            Err(PullError::InsufficientDiskSpace(m)) => r matches Err(e) && refusal(e, 507, m@),
            Err(PullError::Other(m)) => r matches Err(e) && refusal(e, 500, m@),
        },
{
    match outcome {
        Ok(()) => Ok(owned(name)),
        Err(PullError::UnknownModel) => Err(unknown_model(name)),
        Err(PullError::MissingArchive) => Err(
            error_response(
                404,
                join3("model ", name, " is not present in the archive").as_str(),
            ),
        ),
        Err(PullError::InsufficientDiskSpace(m)) => Err(error_response(507, m.as_str())),
        Err(PullError::Other(m)) => Err(error_response(500, m.as_str())),
    }
}

/// The protection that a query asks for.
#[derive(Debug, Clone, Copy, PartialEq, Eq, Structural)]
pub struct ProtectQuery {
    pub protected: Option<bool>,
}

/// The protection that a body asks for.
#[derive(Debug, Clone, Copy, PartialEq, Eq, Structural)]
pub struct ProtectBody {
    pub protected: Option<bool>,
}

impl Default for ProtectQuery {
    fn default() -> (r: Self)
        ensures
            r.protected is None,
    {
        ProtectQuery { protected: None }
    }
}

impl Default for ProtectBody {
    fn default() -> (r: Self)
        ensures
            r.protected is None,
    {
        ProtectBody { protected: None }
    }
}

/// The flag that is asked for: the query's, else the body's, else the opposite of what it is.
pub open spec fn asked_flag(
    query: ProtectQuery,
    body: Option<ProtectBody>,
    current: bool,
) -> bool {
    match query.protected {
        Some(b) => b,
        None => match body {
            Some(ProtectBody { protected: Some(b) }) => b,
            _ => !current,
        },
    }
}

/// The answer to a request to protect a model.
#[derive(Debug, PartialEq, Eq)]
pub struct Protection {
    pub model: String,
    /// Whether the model is protected, by its flag or by the configured names.
    pub protected: bool,
    /// The flag that was set.
    pub flag: bool,
}

/// Sets or flips the protection of a model.
pub fn protect_model(
    records: &mut Vec<ModelRecord>,
    names: &[String],
    name: &str,
    query: ProtectQuery,
    body: Option<ProtectBody>,
) -> (r: Result<Protection, ErrorReply>)
    ensures
        match record_of(old(records)@, name@) {
            None => final(records)@ == old(records)@ && (r matches Err(e) && refusal(
                e,
                404,
                unknown_model_text(name@),
            )),
            Some(i) => {
                let flag = asked_flag(query, body, old(records)@[i].protected);
                &&& final(records)@ == old(records)@.update(
                    i,
                    (ModelRecord { protected: flag, ..old(records)@[i] }),
                )
                &&& (r matches Ok(p) && p.model@ == name@ && p.flag == flag && p.protected == (flag
                    || lists(names@, name@)))
            },
        },
{
    let at = match find_record(records.as_slice(), name) {
        None => {
            return Err(unknown_model(name));
        },
        Some(i) => i,
    };
    let current = records[at].protected;
    let flag = match query.protected {
        Some(b) => b,
        None => match body {
            Some(ProtectBody { protected: Some(b) }) => b,
            _ => !current,
        },
    };
    let ghost held = records@;
    let mut record = records.remove(at);
    record.protected = flag;
    let protected = is_protected(&record, names);
    records.insert(at, record);
    assert(records@ =~= held.update(at as int, record));
    Ok(Protection { model: owned(name), protected, flag })
}

/// The use of a disk.
#[derive(Debug, Clone, Copy, PartialEq, Eq, Structural)]
pub struct DiskUsage {
    pub available: bool,
    pub total_bytes: Option<u64>,
    pub free_bytes: Option<u64>,
    pub used_bytes: Option<u64>,
}

/// The use of the local disk and of the archive.
#[derive(Debug, Clone, Copy, PartialEq, Eq, Structural)]
pub struct StorageView {
    pub local: DiskUsage,
    pub archive: DiskUsage,
}

/// The use of a disk from what was probed: what is used is what is not free, where both are known.
pub fn disk_usage(available: bool, total: Option<u64>, free: Option<u64>) -> (r: DiskUsage)
    ensures
        r.available == available,
        r.total_bytes == total,
        r.free_bytes == free,
        r.used_bytes == (match (total, free) {
            (Some(t), Some(f)) => Some(
                if t >= f {
                    (t - f) as u64
                } else {
                    0
                },
            ),
            _ => None,
        }),
{
    let used: Option<u64> = match (total, free) {
        (Some(t), Some(f)) => Some(t.saturating_sub(f)),
        _ => None,
    };
    DiskUsage { available, total_bytes: total, free_bytes: free, used_bytes: used }
}

/// The summary of the two disks. An archive that is not there says so and counts no bytes; what
/// was probed of a local disk is told as it is.
pub fn storage_summary(local: DiskUsage, archive: DiskUsage) -> (r: StorageView)
    ensures
        r.local == local,
        r.archive == (if archive.available {
            archive
        } else {
            DiskUsage {
                available: false,
                total_bytes: None,
                free_bytes: None,
                used_bytes: None,
            }
        }),
{
    let archive = if archive.available {
        archive
    } else {
        disk_usage(false, None, None)
    };
    StorageView { local, archive }
}

/// How many models each tier holds.
#[derive(Debug, Clone, Copy, PartialEq, Eq, Structural)]
pub struct TierCounts {
    pub hot: usize,
    pub warm: usize,
    pub cold: usize,
}

/// How many records are of a tier.
pub open spec fn tier_total(records: Seq<ModelRecord>, tier: StorageTier) -> nat
    decreases records.len(),
{
    if records.len() == 0 {
        0
    } else {
        tier_total(records.drop_last(), tier) + if records.last().tier == tier {
            1nat
        } else {
            0nat
        }
    }
}

/// The counts of the records.
pub open spec fn counts_of(records: Seq<ModelRecord>, c: TierCounts) -> bool {
    &&& c.hot == tier_total(records, StorageTier::Hot)
    &&& c.warm == tier_total(records, StorageTier::Warm)
    &&& c.cold == tier_total(records, StorageTier::Cold)
}

/// Every record is counted once.
pub proof fn law_every_record_has_one_tier(records: Seq<ModelRecord>)
    ensures
        tier_total(records, StorageTier::Hot) + tier_total(records, StorageTier::Warm)
            + tier_total(records, StorageTier::Cold) == records.len(),
    decreases records.len(),
{
    if records.len() > 0 {
        law_every_record_has_one_tier(records.drop_last());
    }
}

/// Counts the records of each tier.
pub fn tier_counts(records: &[ModelRecord]) -> (r: TierCounts)
    ensures
        counts_of(records@, r),
{
    let mut c = TierCounts { hot: 0, warm: 0, cold: 0 };
    let mut i: usize = 0;
    assert(records@.take(0) =~= Seq::empty());
    while i < records.len()
        invariant
            i <= records.len(),
            counts_of(records@.take(i as int), c),
        decreases records.len() - i,
    {
        assert(records@.take(i + 1).drop_last() =~= records@.take(i as int));
        proof {
            law_every_record_has_one_tier(records@.take(i as int));
        }
        match records[i].tier {
            StorageTier::Hot => {
                c.hot = c.hot + 1;
            },
            StorageTier::Warm => {
                c.warm = c.warm + 1;
            },
            StorageTier::Cold => {
                c.cold = c.cold + 1;
            },
        }
        i = i + 1;
    }
    assert(records@.take(records@.len() as int) =~= records@);
    c
}

/// The answer to a request to reconcile the records with the disk.
#[derive(Debug, Clone, Copy, PartialEq, Eq, Structural)]
pub struct Reconciled {
    pub persisted: bool,
    pub before: TierCounts,
    pub after: TierCounts,
}

/// The reply once the disk was scanned and the records follow it, or the scan failed. `after` are
/// the records that the scan left.
pub fn trigger_reconcile(
    before: TierCounts,
    after: Result<&[ModelRecord], String>,
    persisted: bool,
) -> (r: Result<Reconciled, ErrorReply>)
    ensures
        match after {
            Ok(records) => r matches Ok(d) && d.persisted == persisted && d.before == before
                && counts_of(records@, d.after),
            Err(m) => r matches Err(e) && refusal(e, 500, "reconcile scan failed: "@ + m@),
        },
{
    match after {
        Ok(records) => Ok(Reconciled { persisted, before, after: tier_counts(records) }),
        Err(m) => Err(error_response(500, join("reconcile scan failed: ", m.as_str()).as_str())),
    }
}

/// The registration of a sweep's queue.
#[derive(Debug, PartialEq, Eq)]
pub struct SweepSessionRegisterBody {
    pub session_id: String,
    pub queue: Vec<String>,
}

/// The keys of a sweep that are done.
#[derive(Debug, PartialEq, Eq)]
pub struct SweepSessionAdvanceBody {
    pub keys: Vec<String>,
}

/// Is the registration of a sweep's queue refused?
pub fn sweep_session_register(body: &SweepSessionRegisterBody) -> (r: Option<ErrorReply>)
    ensures
        if is_blank(body.session_id@) {
            r matches Some(e) && refusal(e, 400, "session_id is required"@)
        } else {
            r is None
        },
{
    if blank(body.session_id.as_str()) {
        Some(error_response(400, "session_id is required"))
    } else {
        None
    }
}

/// The reply to a request for a sweep that nobody registered.
pub fn unknown_sweep_session(id: &str) -> (r: ErrorReply)
    ensures
        refusal(r, 404, "unknown sweep session: "@ + id@),
{
    error_response(404, join("unknown sweep session: ", id).as_str())
}

/// A refusal is of its own status and its own message.
pub proof fn law_refusals_say_what_they_are(r: ErrorReply, status: u16, error: Seq<char>)
    ensures
        refusal(r, r.status, r.error@),
        status != r.status ==> !refusal(r, status, error),
        error != r.error@ ==> !refusal(r, status, error),
{
}

/// Every tier has a name of its own.
pub proof fn law_tiers_have_names_of_their_own(a: StorageTier, b: StorageTier)
    ensures
        tier_name(StorageTier::Hot) == "hot"@,
        tier_name(StorageTier::Warm) == "warm"@,
        tier_name(StorageTier::Cold) == "cold"@,
        tier_name(a) == tier_name(b) <==> a == b,
{
    reveal_strlit("hot");
    reveal_strlit("warm");
    reveal_strlit("cold");
    assert("hot"@[0] == 'h' && "warm"@[0] == 'w' && "cold"@[0] == 'c');
}

/// A view shows its record and nothing else: every field under its own name, the tier in words, and
/// the thinking as it was given.
pub proof fn law_view_shows_every_field(v: ModelView, r: ModelRecord, thinking: bool)
    requires
        shows(v, r, thinking),
    ensures
        v.name@ == r.name@,
        r.tier == StorageTier::Hot ==> v.tier@ == "hot"@,
        r.tier == StorageTier::Warm ==> v.tier@ == "warm"@,
        r.tier == StorageTier::Cold ==> v.tier@ == "cold"@,
        v.size_bytes == r.size_bytes,
        opt_view(v.local_path) == opt_view(r.local_path),
        opt_view(v.archive_path) == opt_view(r.archive_path),
        v.last_requested == r.last_requested,
        v.last_loaded == r.last_loaded,
        v.protected == r.protected,
        v.managed_by@ == r.managed_by@,
        v.supports_thinking == thinking,
{
}

/// Records of one name are listed in the order in which they came.
pub proof fn law_equal_names_keep_their_order(records: Seq<(ModelRecord, bool)>, name: Seq<char>)
    ensures
        by_name(records).filter(|r: (ModelRecord, bool)| r.0.name@ == name) == records.filter(
            |r: (ModelRecord, bool)| r.0.name@ == name,
        ),
    decreases records.len(),
{
    reveal(Seq::filter);
    let of_name = |r: (ModelRecord, bool)| r.0.name@ == name;
    if records.len() > 0 {
        let item = records.last();
        let head = by_name(records.drop_last());
        law_equal_names_keep_their_order(records.drop_last(), name);
        lemma_name_place(head, item.0.name@);
        let at = name_place(head, item.0.name@);
        let front = head.take(at);
        let back = head.skip(at);
        assert(head =~= front + back);
        assert(head.insert(at, item) =~= front.push(item) + back);
        Seq::filter_distributes_over_add(front, back, of_name);
        Seq::filter_distributes_over_add(front.push(item), back, of_name);
        assert(front.push(item).drop_last() =~= front);
        if item.0.name@ == name {
            lemma_precedes_irreflexive(name);
            assert forall|i: int| 0 <= i < back.len() implies !of_name(#[trigger] back[i]) by {
                assert(precedes(name, head[at + i].0.name@));
            }
            crate::order::lemma_filter_none(back, of_name);
            assert(front.filter(of_name) + back.filter(of_name) =~= front.filter(of_name));
        }
    }
}

/// The list is in dictionary order: no later name precedes an earlier one.
pub proof fn law_listed_names_never_fall(records: Seq<(ModelRecord, bool)>, i: int, j: int)
    requires
        0 <= i < j < by_name(records).len(),
    ensures
        !precedes(by_name(records)[j].0.name@, by_name(records)[i].0.name@),
{
    law_list_is_in_order_of_names(records);
}

/// A record is found by its name: the first of that name, and none where no record has it.
pub proof fn law_records_are_found_by_name(records: Seq<ModelRecord>, name: Seq<char>, k: int)
    requires
        0 <= k <= records.len(),
        forall|i: int| 0 <= i < k ==> (#[trigger] records[i]).name@ != name,
    ensures
        k < records.len() && records[k].name@ == name ==> record_of(records, name) == Some(k),
        k == records.len() ==> record_of(records, name) is None,
{
    lemma_record_of(records, name);
    if let Some(i) = record_of(records, name) {
        if i > k {
            assert(records[k].name@ != name);
        }
    } else if k < records.len() {
        assert(records[k].name@ != name);
    }
}

/// A model is protected by its own flag, and by its name where the settings list it; either is
/// enough and nothing else protects it.
pub proof fn law_flag_or_name_protects(record: ModelRecord, names: Seq<String>, i: int)
    ensures
        record.protected ==> shields(record, names),
        0 <= i < names.len() && names[i]@ == record.name@ ==> shields(record, names),
        !record.protected && (forall|k: int|
            0 <= k < names.len() ==> (#[trigger] names[k])@ != record.name@) ==> !shields(
            record,
            names,
        ),
{
}

/// The messages name the model that was asked for.
pub proof fn law_messages_name_the_model(name: Seq<char>)
    ensures
        unknown_model_text(name) == "unknown model: "@ + name,
        protected_text(name) == "model "@ + name
            + " is protected and cannot be archived; unprotect it first"@,
{
}

/// The query decides before the body, the body where the query says nothing, and where neither says
/// anything the flag is turned around.
pub proof fn law_protection_is_asked_for(
    query: ProtectQuery,
    body: Option<ProtectBody>,
    current: bool,
)
    ensures
        query.protected is Some ==> asked_flag(query, body, current) == query.protected->0,
        query.protected is None && body is Some && body->0.protected is Some ==> asked_flag(
            query,
            body,
            current,
        ) == body->0.protected->0,
        query.protected is None && (body is None || body->0.protected is None) ==> asked_flag(
            query,
            body,
            current,
        ) == !current,
{
}

/// Every record counts once, for its own tier.
pub proof fn law_records_count_for_their_tier(
    before: Seq<ModelRecord>,
    r: ModelRecord,
    tier: StorageTier,
)
    ensures
        tier_total(Seq::empty(), tier) == 0,
        r.tier == tier ==> tier_total(before.push(r), tier) == tier_total(before, tier) + 1,
        r.tier != tier ==> tier_total(before.push(r), tier) == tier_total(before, tier),
{
    assert(before.push(r).drop_last() =~= before);
}

/// The counts are those of the three tiers, each in its own place.
pub proof fn law_counts_are_of_their_tier(records: Seq<ModelRecord>, c: TierCounts)
    requires
        counts_of(records, c),
    ensures
        c.hot == records.filter(|r: ModelRecord| r.tier == StorageTier::Hot).len(),
        c.warm == records.filter(|r: ModelRecord| r.tier == StorageTier::Warm).len(),
        c.cold == records.filter(|r: ModelRecord| r.tier == StorageTier::Cold).len(),
{
    lemma_total_is_of_the_tier(records, StorageTier::Hot);
    lemma_total_is_of_the_tier(records, StorageTier::Warm);
    lemma_total_is_of_the_tier(records, StorageTier::Cold);
    assert((|r: ModelRecord| r.tier == StorageTier::Hot) =~= (|r: ModelRecord|
        r.tier == StorageTier::Hot));
}

proof fn lemma_total_is_of_the_tier(records: Seq<ModelRecord>, tier: StorageTier)
    ensures
        tier_total(records, tier) == records.filter(|r: ModelRecord| r.tier == tier).len(),
    decreases records.len(),
{
    reveal(Seq::filter);
    if records.len() > 0 {
        lemma_total_is_of_the_tier(records.drop_last(), tier);
    }
}

} // verus!
