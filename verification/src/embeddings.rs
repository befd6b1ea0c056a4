//! Embeddings: the local backend first, the remote one where it fails, and never a vector of the
//! wrong shape.
use vstd::prelude::*;

use crate::decimal::{decimal, decimal_of};
use crate::env::{number_in, number_or, var, var_of};
use crate::json::{numbers_in, numbers_of, Json};
use crate::order::{in_order, insert_in_order, law_in_order_sorts, place, ranks_ascend};
use crate::table::Table;
use crate::text::{
    filled, filled_of, items, items_of, join, join3, opt_view, owned, trim, trim_end_slashes, views,
    without_end_slashes, Separator,
};

verus! {

/// Where embeddings come from and what they have to look like.
#[derive(Debug)]
pub struct EmbeddingsConfig {
    /// The local backend, where there is one.
    pub local_url: Option<String>,
    /// What is asked of the local backend.
    pub local_model: String,
    /// What is asked of the remote backend.
    pub fallback_model: String,
    /// The remote backend.
    pub fallback_base_url: String,
    /// The length of every vector.
    pub dim: usize,
    /// The most inputs of one request.
    pub max_batch: usize,
    /// Seconds that a backend may take.
    pub request_timeout_secs: u64,
}

fn non_empty_env(env: &Table, key: &str) -> (r: Option<String>)
    ensures
        opt_view(r) == filled(var(env@, key@)),
{
    filled_of(var_of(env, key))
}

/// A setting, trimmed, or `default` where it is missing or blank.
pub open spec fn filled_or(value: Option<Seq<char>>, default: Seq<char>) -> Seq<char> {
    match filled(value) {
        Some(s) => s,
        None => default,
    }
}

fn filled_var(env: &Table, key: &str, default: &str) -> (r: String)
    ensures
        r@ == filled_or(var(env@, key@), default@),
{
    match non_empty_env(env, key) {
        Some(s) => s,
        None => owned(default),
    }
}

impl EmbeddingsConfig {
    /// The settings that an environment writes.
    pub fn from_env(env: &Table) -> (r: Self)
        ensures
            opt_view(r.local_url) == filled(var(env@, "EMBED_LOCAL_URL"@)),
            r.local_model@ == filled_or(var(env@, "EMBED_LOCAL_MODEL"@), "qwen3-embedding"@),
            r.fallback_model@ == filled_or(
                var(env@, "EMBED_FALLBACK_MODEL"@),
                "qwen/qwen3-embedding"@,
            ),
            r.fallback_base_url@ == filled_or(
                var(env@, "EMBED_FALLBACK_BASE_URL"@),
                "https://openrouter.ai/api/v1"@,
            ),
            r.dim == number_or(filled(var(env@, "EMBED_DIM"@)), usize::MAX as nat, 1024),
            r.max_batch == number_or(
                filled(var(env@, "EMBED_MAX_BATCH_SIZE"@)),
                usize::MAX as nat,
                256,
            ),
            r.request_timeout_secs == number_or(
                filled(var(env@, "EMBED_TIMEOUT_SECS"@)),
                u64::MAX as nat,
                30,
            ),
    {
        let most: u64 = usize::MAX as u64;
        EmbeddingsConfig {
            local_url: non_empty_env(env, "EMBED_LOCAL_URL"),
            local_model: filled_var(env, "EMBED_LOCAL_MODEL", "qwen3-embedding"),
            fallback_model: filled_var(env, "EMBED_FALLBACK_MODEL", "qwen/qwen3-embedding"),
            fallback_base_url: filled_var(
                env,
                "EMBED_FALLBACK_BASE_URL",
                "https://openrouter.ai/api/v1",
            ),
            dim: number_in(non_empty_env(env, "EMBED_DIM"), most, 1024) as usize,
            max_batch: number_in(non_empty_env(env, "EMBED_MAX_BATCH_SIZE"), most, 256) as usize,
            request_timeout_secs: number_in(non_empty_env(env, "EMBED_TIMEOUT_SECS"), u64::MAX, 30),
        }
    }

    /// Settings with those two backends that need no environment.
    pub fn test_default(local_url: Option<String>, fallback_base_url: String) -> (r: Self)
        ensures
            r.local_url == local_url,
            r.fallback_base_url == fallback_base_url,
            r.local_model@ == "qwen3-embedding"@,
            r.fallback_model@ == "qwen/qwen3-embedding"@,
            r.dim == 1024,
            r.max_batch == 256,
            r.request_timeout_secs == 5,
    {
        EmbeddingsConfig {
            local_url,
            local_model: owned("qwen3-embedding"),
            fallback_model: owned("qwen/qwen3-embedding"),
            fallback_base_url,
            dim: 1024,
            max_batch: 256,
            request_timeout_secs: 5,
        }
    }
}

/// The key of the remote backend, where one is set.
pub fn openrouter_api_key(env: &Table) -> (r: Option<String>)
    ensures
        opt_view(r) == filled(var(env@, "OPENROUTER_API_KEY"@)),
{
    non_empty_env(env, "OPENROUTER_API_KEY")
}

/// One input or several.
#[derive(Debug, PartialEq, Eq)]
pub enum EmbeddingsInput {
    One(String),
    Many(Vec<String>),
}

impl EmbeddingsInput {
    /// The inputs in order.
    pub open spec fn texts(self) -> Seq<Seq<char>> {
        match self {
            EmbeddingsInput::One(s) => seq![s@],
            EmbeddingsInput::Many(v) => views(v@),
        }
    }

    /// The inputs in order.
    pub fn into_vec(self) -> (r: Vec<String>)
        ensures
            views(r@) == self.texts(),
    {
        match self {
            EmbeddingsInput::One(s) => {
                let mut v: Vec<String> = Vec::new();
                v.push(s);
                assert(views(v@) =~= seq![s@]);
                v
            },
            EmbeddingsInput::Many(v) => v,
        }
    }
}

/// A request for embeddings. The model that it names is not honoured.
#[derive(Debug)]
pub struct EmbeddingsRequest {
    pub input: EmbeddingsInput,
    pub model: Option<String>,
}

/// One embedding in a response. `N` is a number as the backends deliver it.
#[derive(Debug)]
pub struct EmbeddingObject<N> {
    pub object: &'static str,
    pub embedding: Vec<N>,
    pub index: usize,
}

/// An estimate of the tokens of a request.
#[derive(Debug, Clone, Copy, PartialEq, Eq, Structural)]
pub struct EmbeddingsUsage {
    pub prompt_tokens: usize,
    pub total_tokens: usize,
}

/// A response.
#[derive(Debug)]
pub struct EmbeddingsResponse<N> {
    pub object: &'static str,
    pub data: Vec<EmbeddingObject<N>>,
    pub model: String,
    pub usage: EmbeddingsUsage,
}

/// Why there are no embeddings.
#[derive(Debug, PartialEq, Eq)]
pub enum EmbeddingsError {
    EmptyInput,
    BatchTooLarge { max: usize, got: usize },
    BothBackendsFailed { local: String, fallback: String },
}

/// The body of an error response.
#[derive(Debug, PartialEq, Eq)]
pub struct EmbeddingsErrorBody {
    pub error: String,
    pub local: Option<String>,
    pub fallback: Option<String>,
}

impl EmbeddingsError {
    /// The HTTP status: the caller's fault, or the backends'.
    pub fn status(&self) -> (r: u16)
        ensures
            r == (if self is BothBackendsFailed {
                502int
            } else {
                400int
            }),
    {
        match self {
            EmbeddingsError::BothBackendsFailed { .. } => 502,
            _ => 400,
        }
    }

    /// The body of the response. It holds no input and no key.
    pub fn to_json(&self) -> (r: EmbeddingsErrorBody)
        ensures
            match *self {
                EmbeddingsError::EmptyInput => {
                    &&& r.error@ == "input must not be empty"@
                    &&& r.local is None
                    &&& r.fallback is None
                },
                EmbeddingsError::BatchTooLarge { max, got } => {
                    &&& r.error@ == "batch too large: "@ + decimal(got as nat)
                        + " inputs exceeds max "@ + decimal(max as nat)
                    &&& r.local is None
                    &&& r.fallback is None
                },
                EmbeddingsError::BothBackendsFailed { local, fallback } => {
                    &&& r.error@
                        == "embeddings unavailable: both local and fallback backends failed"@
                    &&& opt_view(r.local) == Some(local@)
                    &&& opt_view(r.fallback) == Some(fallback@)
                },
            },
    {
        match self {
            EmbeddingsError::EmptyInput => EmbeddingsErrorBody {
                error: owned("input must not be empty"),
                local: None,
                fallback: None,
            },
            EmbeddingsError::BatchTooLarge { max, got } => {
                let mut error: String = owned("batch too large: ");
                error.append(decimal_of(*got as u64).as_str());
                error.append(" inputs exceeds max ");
                error.append(decimal_of(*max as u64).as_str());
                EmbeddingsErrorBody { error, local: None, fallback: None }
            },
            EmbeddingsError::BothBackendsFailed { local, fallback } => EmbeddingsErrorBody {
                error: owned("embeddings unavailable: both local and fallback backends failed"),
                local: Some(local.clone()),
                fallback: Some(fallback.clone()),
            },
        }
    }
}

/// The views of a list of vectors.
pub open spec fn vectors_view<N>(v: Seq<Vec<N>>) -> Seq<Seq<N>> {
    v.map_values(|x: Vec<N>| x@)
}

/// The rank of an item of `data`: the index that it names, or its own position.
pub open spec fn item_rank<N>(item: Json<N>, position: nat) -> u64 {
    match item.member_whole("index"@) {
        Some(v) => (v as usize) as u64,
        None => position as u64,
    }
}

/// The ranked vectors of the items of `data`; none where an item has no vector.
pub open spec fn ranked_items<N>(data: Seq<Json<N>>) -> Option<Seq<(u64, Seq<N>)>>
    decreases data.len(),
{
    if data.len() == 0 {
        Some(Seq::empty())
    } else {
        match (
            ranked_items(data.drop_last()),
            data.last().member_elements("embedding"@),
        ) {
            (Some(head), Some(e)) => Some(
                head.push((item_rank(data.last(), (data.len() - 1) as nat), numbers_in(e))),
            ),
            _ => None,
        }
    }
}

/// The vectors of ranked items.
pub open spec fn unranked<N>(items: Seq<(u64, Seq<N>)>) -> Seq<Seq<N>> {
    items.map_values(|x: (u64, Seq<N>)| x.1)
}

/// The vectors of the entries of `embeddings`; none where an entry is no array.
pub open spec fn listed_vectors<N>(entries: Seq<Json<N>>) -> Option<Seq<Seq<N>>>
    decreases entries.len(),
{
    if entries.len() == 0 {
        Some(Seq::empty())
    } else {
        match (listed_vectors(entries.drop_last()), entries.last().elements()) {
            (Some(head), Some(e)) => Some(head.push(numbers_in(e))),
            _ => None,
        }
    }
}

/// The vectors in the body of a backend's response, in the order of the inputs: `data` with an
/// index to each, `embeddings` in order, or a single `embedding` where one input was sent.
pub open spec fn body_vectors<N>(body: Json<N>, expected: nat) -> Result<Seq<Seq<N>>, Seq<char>> {
    if let Some(data) = body.member_elements("data"@) {
        match ranked_items(data) {
            Some(items) => Ok(unranked(in_order(items))),
            None => Err("response 'data' item missing 'embedding' array"@),
        }
    } else if let Some(entries) = body.member_elements("embeddings"@) {
        match listed_vectors(entries) {
            Some(v) => Ok(v),
            None => Err("malformed 'embeddings' entry"@),
        }
    } else if let Some(e) = body.member_elements("embedding"@) {
        if expected == 1 {
            Ok(seq![numbers_in(e)])
        } else {
            Err("backend returned a single 'embedding' field for a multi-input batch"@)
        }
    } else {
        Err("unrecognized embeddings response shape (no data/embeddings/embedding field)"@)
    }
}

/// The view of vectors, or of why there are none.
pub open spec fn vectors_result<N>(r: Result<Vec<Vec<N>>, String>) -> Result<
    Seq<Seq<N>>,
    Seq<char>,
> {
    match r {
        Ok(v) => Ok(vectors_view(v@)),
        Err(e) => Err(e@),
    }
}

/// The views of ranked vectors.
pub open spec fn ranked_view<N>(v: Seq<(u64, Vec<N>)>) -> Seq<(u64, Seq<N>)> {
    v.map_values(|x: (u64, Vec<N>)| (x.0, x.1@))
}

proof fn lemma_place_of_view<N>(v: Seq<(u64, Vec<N>)>, rank: u64)
    ensures
        place(v, rank) == place(ranked_view(v), rank),
    decreases v.len(),
{
    if v.len() > 0 {
        lemma_place_of_view(v.drop_last(), rank);
        assert(ranked_view(v).drop_last() =~= ranked_view(v.drop_last()));
        assert(ranked_view(v).last().0 == v.last().0);
    }
}

proof fn lemma_missing_stays_missing<N>(data: Seq<Json<N>>, k: int)
    requires
        0 <= k <= data.len(),
        ranked_items(data.take(k)) is None,
    ensures
        ranked_items(data) is None,
    decreases data.len() - k,
{
    if k == data.len() {
        assert(data.take(k) =~= data);
    } else {
        assert(data.take(k + 1).drop_last() =~= data.take(k));
        lemma_missing_stays_missing(data, k + 1);
    }
}

proof fn lemma_malformed_stays_malformed<N>(entries: Seq<Json<N>>, k: int)
    requires
        0 <= k <= entries.len(),
        listed_vectors(entries.take(k)) is None,
    ensures
        listed_vectors(entries) is None,
    decreases entries.len() - k,
{
    if k == entries.len() {
        assert(entries.take(k) =~= entries);
    } else {
        assert(entries.take(k + 1).drop_last() =~= entries.take(k));
        lemma_malformed_stays_malformed(entries, k + 1);
    }
}

fn vectors_by_index<N: Copy>(data: &Vec<Json<N>>) -> (r: Option<Vec<Vec<N>>>)
    ensures
        match ranked_items(data@) {
            Some(items) => r is Some && vectors_view(r->0@) == unranked(in_order(items)),
            None => r is None,
        },
{
    let mut sorted: Vec<(u64, Vec<N>)> = Vec::new();
    let mut i: usize = 0;
    proof {
        assert(data@.take(0) =~= Seq::<Json<N>>::empty());
        assert(ranked_view(sorted@) =~= Seq::<(u64, Seq<N>)>::empty());
    }
    while i < data.len()
        invariant
            i <= data.len(),
            ranked_items(data@.take(i as int)) is Some,
            ranked_view(sorted@) == in_order(ranked_items(data@.take(i as int))->0),
        decreases data.len() - i,
    {
        let item = &data[i];
        let ghost seen = ranked_items(data@.take(i as int))->0;
        proof {
            assert(data@.take(i + 1).drop_last() =~= data@.take(i as int));
            assert(data@.take(i + 1).last() == *item);
        }
        let rank: u64 = match item.get_u64("index") {
            Some(v) => (v as usize) as u64,
            None => i as u64,
        };
        match item.get_array("embedding") {
            None => {
                proof {
                    lemma_missing_stays_missing(data@, i + 1);
                }
                return None;
            },
            Some(e) => {
                let vector = numbers_of(e);
                proof {
                    law_in_order_sorts(seen);
                    assert forall|a: int, b: int| 0 <= a <= b < sorted@.len() implies (
                    #[trigger] sorted@[a]).0 <= (#[trigger] sorted@[b]).0 by {
                        assert(ranked_view(sorted@)[a].0 == sorted@[a].0);
                        assert(ranked_view(sorted@)[b].0 == sorted@[b].0);
                    }
                    assert(ranks_ascend(sorted@));
                    lemma_place_of_view(sorted@, rank);
                    crate::order::lemma_place(sorted@, rank);
                }
                let ghost before = sorted@;
                insert_in_order(&mut sorted, rank, vector);
                proof {
                    let next = seen.push((rank, vector@));
                    assert(ranked_items(data@.take(i + 1)) == Some(next));
                    assert(next.drop_last() =~= seen);
                    assert(ranked_view(sorted@) =~= ranked_view(before).insert(
                        place(before, rank),
                        (rank, vector@),
                    ));
                }
            },
        }
        i = i + 1;
    }
    assert(data@.take(data@.len() as int) =~= data@);
    let ghost done = sorted@;
    let mut r: Vec<Vec<N>> = Vec::new();
    while sorted.len() > 0
        invariant
            sorted@.len() + r@.len() == done.len(),
            sorted@ == done.take(sorted@.len() as int),
            forall|k: int|
                0 <= k < r@.len() ==> (#[trigger] r@[k]) == done[done.len() - 1 - k].1,
        decreases sorted.len(),
    {
        match sorted.pop() {
            Some((_, vector)) => {
                r.push(vector);
            },
            None => {},
        }
    }
    let r = reversed(r);
    proof {
        let items = ranked_items(data@)->0;
        assert forall|k: int| 0 <= k < r@.len() implies vectors_view(r@)[k] == unranked(
            in_order(items),
        )[k] by {
            assert(ranked_view(done)[k] == (done[k].0, done[k].1@));
        }
        assert(vectors_view(r@) =~= unranked(in_order(items)));
    }
    Some(r)
}

fn reversed<T>(v: Vec<T>) -> (r: Vec<T>)
    ensures
        r@.len() == v@.len(),
        forall|k: int| 0 <= k < r@.len() ==> (#[trigger] r@[k]) == v@[v@.len() - 1 - k],
{
    let mut v = v;
    let ghost all = v@;
    let mut r: Vec<T> = Vec::new();
    while v.len() > 0
        invariant
            v@.len() + r@.len() == all.len(),
            v@ == all.take(v@.len() as int),
            forall|k: int| 0 <= k < r@.len() ==> (#[trigger] r@[k]) == all[all.len() - 1 - k],
        decreases v.len(),
    {
        match v.pop() {
            Some(x) => {
                r.push(x);
            },
            None => {},
        }
    }
    r
}

/// The vectors in the body of a backend's response, in the order of the inputs.
pub fn parse_embedding_vectors<N: Copy>(body: &Json<N>, expected_count: usize) -> (r: Result<
    Vec<Vec<N>>,
    String,
>)
    ensures
        vectors_result(r) == body_vectors(*body, expected_count as nat),
{
    if let Some(data) = body.get_array("data") {
        return match vectors_by_index(data) {
            Some(v) => Ok(v),
            None => Err(owned("response 'data' item missing 'embedding' array")),
        };
    }
    if let Some(entries) = body.get_array("embeddings") {
        let mut r: Vec<Vec<N>> = Vec::new();
        let mut i: usize = 0;
        proof {
            assert(entries@.take(0) =~= Seq::<Json<N>>::empty());
            assert(vectors_view(r@) =~= Seq::<Seq<N>>::empty());
        }
        while i < entries.len()
            invariant
                i <= entries.len(),
                body.member_elements("data"@) is None,
                body.member_elements("embeddings"@) == Some(entries@),
                listed_vectors(entries@.take(i as int)) == Some(vectors_view(r@)),
            decreases entries.len() - i,
        {
            proof {
                assert(entries@.take(i + 1).drop_last() =~= entries@.take(i as int));
                assert(entries@.take(i + 1).last() == entries@[i as int]);
            }
            match entries[i].as_array() {
                None => {
                    proof {
                        lemma_malformed_stays_malformed(entries@, i + 1);
                    }
                    return Err(owned("malformed 'embeddings' entry"));
                },
                Some(e) => {
                    let vector = numbers_of(e);
                    let ghost before = vectors_view(r@);
                    r.push(vector);
                    assert(vectors_view(r@) =~= before.push(vector@));
                },
            }
            i = i + 1;
        }
        assert(entries@.take(entries@.len() as int) =~= entries@);
        return Ok(r);
    }
    if let Some(e) = body.get_array("embedding") {
        if expected_count != 1 {
            return Err(
                owned("backend returned a single 'embedding' field for a multi-input batch"),
            );
        }
        let mut r: Vec<Vec<N>> = Vec::new();
        r.push(numbers_of(e));
        assert(vectors_view(r@) =~= seq![numbers_in(e@)]);
        return Ok(r);
    }
    Err(owned("unrecognized embeddings response shape (no data/embeddings/embedding field)"))
}

/// The first vector of another length than `dim`, from position `from` on.
pub open spec fn first_misfit<N>(vectors: Seq<Seq<N>>, dim: nat, from: nat) -> Option<nat>
    decreases vectors.len() - from,
{
    if from >= vectors.len() {
        None
    } else if vectors[from as int].len() != dim {
        Some(from)
    } else {
        first_misfit(vectors, dim, from + 1)
    }
}

/// What is wrong with the lengths of the vectors, if anything.
pub open spec fn dims_fault<N>(vectors: Seq<Seq<N>>, dim: nat) -> Option<Seq<char>> {
    match first_misfit(vectors, dim, 0) {
        Some(i) => Some(
            "embedding at index "@ + decimal(i) + " has dimension "@ + decimal(
                vectors[i as int].len(),
            ) + " (expected "@ + decimal(dim) + ")"@,
        ),
        None => None,
    }
}

/// The view of a check.
pub open spec fn fault_view(r: Result<(), String>) -> Option<Seq<char>> {
    match r {
        Ok(()) => None,
        Err(e) => Some(e@),
    }
}

/// Has every vector the length `dim`?
pub fn assert_dims<N>(vectors: &[Vec<N>], dim: usize) -> (r: Result<(), String>)
    ensures
        fault_view(r) == dims_fault(vectors_view(vectors@), dim as nat),
{
    let ghost all = vectors_view(vectors@);
    let mut i: usize = 0;
    while i < vectors.len()
        invariant
            i <= vectors.len(),
            all == vectors_view(vectors@),
            first_misfit(all, dim as nat, 0) == first_misfit(all, dim as nat, i as nat),
        decreases vectors.len() - i,
    {
        assert(all[i as int] == vectors@[i as int]@);
        if vectors[i].len() != dim {
            let mut e: String = owned("embedding at index ");
            e.append(decimal_of(i as u64).as_str());
            e.append(" has dimension ");
            e.append(decimal_of(vectors[i].len() as u64).as_str());
            e.append(" (expected ");
            e.append(decimal_of(dim as u64).as_str());
            e.append(")");
            return Err(e);
        }
        i = i + 1;
    }
    Ok(())
}

/// What is wrong with a backend's vectors, if anything: one for each input, all of length `dim`.
pub open spec fn output_fault<N>(vectors: Seq<Seq<N>>, expected: nat, dim: nat) -> Option<
    Seq<char>,
> {
    if vectors.len() != expected {
        Some(
            "backend returned "@ + decimal(vectors.len()) + " embeddings for "@ + decimal(expected)
                + " inputs (count mismatch)"@,
        )
    } else {
        dims_fault(vectors, dim)
    }
}

/// Is there exactly one vector for each input, each of length `dim`?
pub fn validate_output<N>(vectors: &[Vec<N>], expected_count: usize, dim: usize) -> (r: Result<
    (),
    String,
>)
    ensures
        fault_view(r) == output_fault(
            vectors_view(vectors@),
            expected_count as nat,
            dim as nat,
        ),
{
    assert(vectors_view(vectors@).len() == vectors@.len());
    if vectors.len() != expected_count {
        let mut e: String = owned("backend returned ");
        e.append(decimal_of(vectors.len() as u64).as_str());
        e.append(" embeddings for ");
        e.append(decimal_of(expected_count as u64).as_str());
        e.append(" inputs (count mismatch)");
        return Err(e);
    }
    assert_dims(vectors, dim)
}

/// What came of asking a backend.
#[derive(Debug)]
pub enum BackendReply<N> {
    /// It could not be asked, or did not answer: why.
    Unreachable(String),
    /// It answered with a status that is none of success.
    Refused(String),
    /// What it answered is no JSON: why.
    NotJson(String),
    /// It answered.
    Body(Json<N>),
}

/// What a reply yields; `side` names the backend in messages.
pub open spec fn reply_vectors<N>(reply: BackendReply<N>, side: Seq<char>, expected: nat) -> Result<
    Seq<Seq<N>>,
    Seq<char>,
> {
    match reply {
        BackendReply::Unreachable(why) => Err(side + " embeddings request failed: "@ + why@),
        BackendReply::Refused(status) => Err(
            side + " embeddings backend returned HTTP "@ + status@,
        ),
        BackendReply::NotJson(why) => Err(side + " embeddings response not JSON: "@ + why@),
        BackendReply::Body(body) => body_vectors(body, expected),
    }
}

fn vectors_of_reply<N: Copy>(reply: BackendReply<N>, side: &str, expected: usize) -> (r: Result<
    Vec<Vec<N>>,
    String,
>)
    ensures
        vectors_result(r) == reply_vectors(reply, side@, expected as nat),
{
    match reply {
        BackendReply::Unreachable(why) => Err(
            join3(side, " embeddings request failed: ", why.as_str()),
        ),
        BackendReply::Refused(status) => Err(
            join3(side, " embeddings backend returned HTTP ", status.as_str()),
        ),
        BackendReply::NotJson(why) => Err(
            join3(side, " embeddings response not JSON: ", why.as_str()),
        ),
        BackendReply::Body(body) => parse_embedding_vectors(&body, expected),
    }
}

/// What is sent to a backend.
#[derive(Debug, PartialEq, Eq)]
pub struct EmbeddingsCall {
    pub url: String,
    pub model: String,
    /// The bearer token, where the backend takes one.
    pub key: Option<String>,
}

/// What is sent to the local backend, if there is one.
pub fn call_local(cfg: &EmbeddingsConfig) -> (r: Result<EmbeddingsCall, String>)
    ensures
        r is Ok <==> cfg.local_url is Some,
        r matches Ok(c) ==> c.url@ == cfg.local_url->0@ && c.model@ == cfg.local_model@
            && c.key is None,
        r matches Err(e) ==> e@ == "EMBED_LOCAL_URL not configured"@,
{
    match &cfg.local_url {
        Some(url) => Ok(
            EmbeddingsCall { url: url.clone(), model: cfg.local_model.clone(), key: None },
        ),
        None => Err(owned("EMBED_LOCAL_URL not configured")),
    }
}

/// What is sent to the remote backend, if there is a key.
pub fn call_openrouter(cfg: &EmbeddingsConfig, api_key: Option<String>) -> (r: Result<
    EmbeddingsCall,
    String,
>)
    ensures
        r is Ok <==> filled(opt_view(api_key)) is Some,
        r matches Ok(c) ==> c.url@ == trim_end_slashes(cfg.fallback_base_url@) + "/embeddings"@
            && c.model@ == cfg.fallback_model@ && opt_view(c.key) == filled(opt_view(api_key)),
        r matches Err(e) ==> e@ == "OPENROUTER_API_KEY not configured"@,
{
    match filled_of(api_key) {
        Some(key) => {
            let base = without_end_slashes(cfg.fallback_base_url.as_str());
            Ok(
                EmbeddingsCall {
                    url: join(base.as_str(), "/embeddings"),
                    model: cfg.fallback_model.clone(),
                    key: Some(key),
                },
            )
        },
        None => Err(owned("OPENROUTER_API_KEY not configured")),
    }
}

/// Which backend served.
#[derive(Debug, Clone, Copy, PartialEq, Eq, Structural)]
pub enum EmbedSource {
    Local,
    Fallback,
}

impl EmbedSource {
    /// Its name.
    pub fn as_str(&self) -> (r: &'static str)
        ensures
            r@ == (match *self {
                EmbedSource::Local => "local"@,
                EmbedSource::Fallback => "fallback"@,
            }),
    {
        match self {
            EmbedSource::Local => "local",
            EmbedSource::Fallback => "fallback",
        }
    }
}

/// Embeddings, and where they came from.
#[derive(Debug)]
pub struct EmbedOutcome<N> {
    pub vectors: Vec<Vec<N>>,
    pub source: EmbedSource,
    pub model: String,
}

/// The answer of one side: vectors of the right shape, or what was wrong.
pub open spec fn side_answer<N>(
    reply: BackendReply<N>,
    side: Seq<char>,
    expected: nat,
    dim: nat,
) -> Result<Seq<Seq<N>>, Seq<char>> {
    match reply_vectors(reply, side, expected) {
        Ok(vectors) => match output_fault(vectors, expected, dim) {
            None => Ok(vectors),
            Some(e) => Err("invalid output: "@ + e),
        },
        Err(e) => Err(e),
    }
}

/// What asking a side yields.
pub open spec fn asked_answer<N>(
    asked: Result<BackendReply<N>, String>,
    side: Seq<char>,
    expected: nat,
    dim: nat,
) -> Result<Seq<Seq<N>>, Seq<char>> {
    match asked {
        Ok(reply) => side_answer(reply, side, expected, dim),
        Err(why) => Err(why@),
    }
}

/// One side of the routing. `asked` is the reply, or why the side could not be asked.
fn side_vectors<N: Copy>(
    asked: Result<BackendReply<N>, String>,
    side: &str,
    expected: usize,
    dim: usize,
) -> (r: Result<Vec<Vec<N>>, String>)
    ensures
        vectors_result(r) == asked_answer(asked, side@, expected as nat, dim as nat),
{
    match asked {
        Err(why) => Err(why),
        Ok(reply) => match vectors_of_reply(reply, side, expected) {
            Ok(vectors) => match validate_output(vectors.as_slice(), expected, dim) {
                Ok(()) => Ok(vectors),
                Err(e) => Err(join("invalid output: ", e.as_str())),
            },
            Err(e) => Err(e),
        },
    }
}

/// The local backend has answered: the embeddings, or why the remote one has to be asked.
pub fn after_local<N: Copy>(
    cfg: &EmbeddingsConfig,
    inputs: usize,
    asked: Result<BackendReply<N>, String>,
) -> (r: Result<EmbedOutcome<N>, String>)
    ensures
        match asked_answer(asked, "local"@, inputs as nat, cfg.dim as nat) {
            Ok(vectors) => r is Ok && vectors_view(r->Ok_0.vectors@) == vectors
                && r->Ok_0.source == EmbedSource::Local && r->Ok_0.model@ == cfg.local_model@,
            Err(e) => r is Err && r->Err_0@ == e,
        },
{
    match side_vectors(asked, "local", inputs, cfg.dim) {
        Ok(vectors) => Ok(
            EmbedOutcome { vectors, source: EmbedSource::Local, model: cfg.local_model.clone() },
        ),
        Err(e) => Err(e),
    }
}

/// The remote backend has answered too: the embeddings, or why there are none.
pub fn after_fallback<N: Copy>(
    cfg: &EmbeddingsConfig,
    inputs: usize,
    local_error: String,
    asked: Result<BackendReply<N>, String>,
) -> (r: Result<EmbedOutcome<N>, EmbeddingsError>)
    ensures
        match asked_answer(asked, "fallback"@, inputs as nat, cfg.dim as nat) {
            Ok(vectors) => r is Ok && vectors_view(r->Ok_0.vectors@) == vectors
                && r->Ok_0.source == EmbedSource::Fallback && r->Ok_0.model@
                == cfg.fallback_model@,
            Err(e) => match r {
                Err(EmbeddingsError::BothBackendsFailed { local, fallback }) => local@
                    == local_error@ && fallback@ == e,
                _ => false,
            },
        },
{
    match side_vectors(asked, "fallback", inputs, cfg.dim) {
        Ok(vectors) => Ok(
            EmbedOutcome {
                vectors,
                source: EmbedSource::Fallback,
                model: cfg.fallback_model.clone(),
            },
        ),
        Err(e) => Err(EmbeddingsError::BothBackendsFailed { local: local_error, fallback: e }),
    }
}

/// The routing of one request, from what each side answered. The remote side's answer counts only
/// where the local one failed.
pub fn route_embeddings<N: Copy>(
    cfg: &EmbeddingsConfig,
    inputs: usize,
    local: Result<BackendReply<N>, String>,
    fallback: Result<BackendReply<N>, String>,
) -> (r: Result<EmbedOutcome<N>, EmbeddingsError>)
    ensures
        match (
            asked_answer(local, "local"@, inputs as nat, cfg.dim as nat),
            asked_answer(fallback, "fallback"@, inputs as nat, cfg.dim as nat),
        ) {
            (Ok(vectors), _) => r is Ok && vectors_view(r->Ok_0.vectors@) == vectors
                && r->Ok_0.source == EmbedSource::Local && r->Ok_0.model@ == cfg.local_model@,
            (Err(_), Ok(vectors)) => r is Ok && vectors_view(r->Ok_0.vectors@) == vectors
                && r->Ok_0.source == EmbedSource::Fallback && r->Ok_0.model@
                == cfg.fallback_model@,
            (Err(l), Err(f)) => match r {
                Err(EmbeddingsError::BothBackendsFailed { local, fallback }) => local@ == l
                    && fallback@ == f,
                _ => false,
            },
        },
{
    match after_local(cfg, inputs, local) {
        Ok(outcome) => Ok(outcome),
        Err(local_error) => after_fallback(cfg, inputs, local_error, fallback),
    }
}

proof fn lemma_no_misfit<N>(vectors: Seq<Seq<N>>, dim: nat, from: nat)
    requires
        first_misfit(vectors, dim, from) is None,
    ensures
        forall|i: int| from <= i < vectors.len() ==> (#[trigger] vectors[i]).len() == dim,
    decreases vectors.len() - from,
{
    if from < vectors.len() {
        lemma_no_misfit(vectors, dim, from + 1);
    }
}

/// No vector of the wrong shape is ever handed out: whichever side served, there is exactly one
/// vector for each input and every one has the length that was set.
pub proof fn law_served_vectors_have_the_right_shape<N>(
    asked: Result<BackendReply<N>, String>,
    side: Seq<char>,
    expected: nat,
    dim: nat,
)
    ensures
        asked_answer(asked, side, expected, dim) matches Ok(vectors) ==> vectors.len() == expected
            && forall|i: int| 0 <= i < vectors.len() ==> (#[trigger] vectors[i]).len() == dim,
{
    if let Ok(vectors) = asked_answer(asked, side, expected, dim) {
        lemma_no_misfit(vectors, dim, 0);
    }
}

/// The vectors of `data` come out by the index that each names, and none is added or lost.
pub proof fn law_vectors_follow_their_index<N>(data: Seq<Json<N>>)
    requires
        ranked_items(data) is Some,
    ensures
        ({
            let items = ranked_items(data)->0;
            &&& ranks_ascend(in_order(items))
            &&& in_order(items).to_multiset() == items.to_multiset()
            &&& in_order(items).len() == items.len()
        }),
{
    law_in_order_sorts(ranked_items(data)->0);
}

/// Every input is empty.
pub open spec fn all_empty(texts: Seq<Seq<char>>) -> bool {
    forall|i: int| 0 <= i < texts.len() ==> (#[trigger] texts[i]).len() == 0
}

/// The inputs of a request, in order, where there is something to embed and not too much.
pub fn validate_inputs(req: EmbeddingsRequest, max_batch: usize) -> (r: Result<
    Vec<String>,
    EmbeddingsError,
>)
    ensures
        match r {
            Ok(v) => views(v@) == req.input.texts() && !all_empty(req.input.texts())
                && req.input.texts().len() <= max_batch,
            Err(EmbeddingsError::EmptyInput) => all_empty(req.input.texts()),
            Err(EmbeddingsError::BatchTooLarge { max, got }) => !all_empty(req.input.texts())
                && max == max_batch && got == req.input.texts().len() && got > max,
            Err(EmbeddingsError::BothBackendsFailed { .. }) => false,
        },
{
    let inputs = req.input.into_vec();
    let ghost texts = views(inputs@);
    let mut i: usize = 0;
    while i < inputs.len() && inputs[i].as_str().is_empty()
        invariant
            i <= inputs.len(),
            texts == views(inputs@),
            forall|k: int| 0 <= k < i ==> (#[trigger] texts[k]).len() == 0,
        decreases inputs.len() - i,
    {
        assert(texts[i as int] == inputs@[i as int]@);
        i = i + 1;
    }
    if i == inputs.len() {
        return Err(EmbeddingsError::EmptyInput);
    }
    assert(texts[i as int] == inputs@[i as int]@);
    if inputs.len() > max_batch {
        return Err(EmbeddingsError::BatchTooLarge { max: max_batch, got: inputs.len() });
    }
    Ok(inputs)
}

/// The words of the inputs, counted.
pub open spec fn word_total(texts: Seq<Seq<char>>) -> nat
    decreases texts.len(),
{
    if texts.len() == 0 {
        0
    } else {
        word_total(texts.drop_last()) + items(texts.last(), Separator::White).len()
    }
}

proof fn lemma_word_total_grows(texts: Seq<Seq<char>>, k: int)
    requires
        0 <= k <= texts.len(),
    ensures
        word_total(texts.take(k)) <= word_total(texts),
    decreases texts.len() - k,
{
    if k == texts.len() {
        assert(texts.take(k) =~= texts);
    } else {
        assert(texts.take(k + 1).drop_last() =~= texts.take(k));
        lemma_word_total_grows(texts, k + 1);
    }
}

/// The response: each vector under the index of its input, and the words of the inputs as an
/// estimate of tokens.
pub fn build_response<N>(inputs: &[String], outcome: EmbedOutcome<N>) -> (r: EmbeddingsResponse<N>)
    requires
        word_total(views(inputs@)) <= usize::MAX,
    ensures
        r.object@ == "list"@,
        r.model@ == outcome.model@,
        r.usage.prompt_tokens == word_total(views(inputs@)),
        r.usage.total_tokens == r.usage.prompt_tokens,
        r.data@.len() == outcome.vectors@.len(),
        forall|i: int|
            0 <= i < r.data@.len() ==> (#[trigger] r.data@[i]).object@ == "embedding"@
                && r.data@[i].index == i && r.data@[i].embedding@ == outcome.vectors@[i]@,
{
    let ghost texts = views(inputs@);
    let mut prompt_tokens: usize = 0;
    let mut i: usize = 0;
    proof {
        assert(texts.take(0) =~= Seq::<Seq<char>>::empty());
    }
    while i < inputs.len()
        invariant
            i <= inputs.len(),
            texts == views(inputs@),
            word_total(texts) <= usize::MAX,
            prompt_tokens == word_total(texts.take(i as int)),
        decreases inputs.len() - i,
    {
        let words = items_of(inputs[i].as_str(), Separator::White);
        proof {
            assert(views(words@).len() == words@.len());
            assert(texts[i as int] == inputs@[i as int]@);
            assert(texts.take(i + 1).drop_last() =~= texts.take(i as int));
            assert(texts.take(i + 1).last() == texts[i as int]);
            lemma_word_total_grows(texts, i + 1);
        }
        prompt_tokens = prompt_tokens + words.len();
        i = i + 1;
    }
    assert(texts.take(texts.len() as int) =~= texts);
    let ghost all = outcome.vectors@;
    let mut backwards = reversed(outcome.vectors);
    let ghost flipped = backwards@;
    let mut data: Vec<EmbeddingObject<N>> = Vec::new();
    while backwards.len() > 0
        invariant
            backwards@.len() + data@.len() == all.len(),
            flipped.len() == all.len(),
            forall|k: int|
                0 <= k < flipped.len() ==> (#[trigger] flipped[k]) == all[all.len() - 1 - k],
            backwards@ == flipped.take(backwards@.len() as int),
            forall|k: int|
                0 <= k < data@.len() ==> (#[trigger] data@[k]).object@ == "embedding"@
                    && data@[k].index == k && data@[k].embedding == all[k],
        decreases backwards.len(),
    {
        let index = data.len();
        match backwards.pop() {
            Some(embedding) => {
                assert(embedding == flipped[all.len() - 1 - index]);
                data.push(EmbeddingObject { object: "embedding", embedding, index });
            },
            None => {},
        }
    }
    EmbeddingsResponse {
        object: "list",
        data,
        model: outcome.model,
        usage: EmbeddingsUsage { prompt_tokens, total_tokens: prompt_tokens },
    }
}

/// A setting counts trimmed, and one that is missing or blank gives way to the default.
pub proof fn law_filled_setting_counts(value: Seq<char>, default: Seq<char>)
    ensures
        trim(value).len() > 0 ==> filled_or(Some(value), default) == trim(value),
        trim(value).len() == 0 ==> filled_or(Some(value), default) == default,
        filled_or(None, default) == default,
{
}

/// One input is one text, and several are as many, each in its place.
pub proof fn law_inputs_keep_their_order(one: String, many: Vec<String>, i: int)
    ensures
        EmbeddingsInput::One(one).texts() == seq![one@],
        EmbeddingsInput::Many(many).texts().len() == many@.len(),
        0 <= i < many@.len() ==> EmbeddingsInput::Many(many).texts()[i] == many@[i]@,
{
}

/// Vectors are seen one by one, each in its place.
pub proof fn law_vectors_are_seen_one_by_one<N>(
    v: Seq<Vec<N>>,
    ranked: Seq<(u64, Seq<N>)>,
    i: int,
)
    ensures
        vectors_view(v).len() == v.len(),
        0 <= i < v.len() ==> vectors_view(v)[i] == v[i]@,
        unranked(ranked).len() == ranked.len(),
        0 <= i < ranked.len() ==> unranked(ranked)[i] == ranked[i].1,
{
}

/// A result is seen as what it is, vectors as vectors and a message as that message.
pub proof fn law_outcomes_are_seen_as_they_are<N>(v: Vec<Vec<N>>, why: String)
    ensures
        vectors_result(Ok::<Vec<Vec<N>>, String>(v)) == Ok::<Seq<Seq<N>>, Seq<char>>(
            vectors_view(v@),
        ),
        vectors_result(Err::<Vec<Vec<N>>, String>(why)) == Err::<Seq<Seq<N>>, Seq<char>>(why@),
        fault_view(Ok(())) is None,
        fault_view(Err(why)) == Some(why@),
{
}

/// An item ranks by the index that it names, and by its position where it names none.
pub proof fn law_items_rank_by_their_index<N>(item: Json<N>, position: nat)
    requires
        position <= u64::MAX,
    ensures
        item.member_whole("index"@) matches Some(v) ==> v <= usize::MAX ==> item_rank(
            item,
            position,
        ) == v,
        item.member_whole("index"@) is None ==> item_rank(item, position) == position,
{
}

/// Items are read one by one: each adds its own vector under its own rank, and an item without a
/// vector spoils them all, wherever it stands.
pub proof fn law_items_are_read_one_by_one<N>(before: Seq<Json<N>>, item: Json<N>)
    ensures
        ranked_items(Seq::<Json<N>>::empty()) == Some(Seq::<(u64, Seq<N>)>::empty()),
        ({
            let e = item.member_elements("embedding"@);
            &&& ranked_items(before) is Some && e is Some ==> ranked_items(before.push(item))
                == Some(
                ranked_items(before)->0.push((item_rank(item, before.len()), numbers_in(e->0))),
            )
            &&& ranked_items(before) is None || e is None ==> ranked_items(before.push(item))
                is None
        }),
{
    assert(before.push(item).drop_last() =~= before);
}

/// Every item of `data` that names a vector gets it through, under its rank.
pub proof fn law_every_vector_gets_through<N>(data: Seq<Json<N>>, i: int)
    requires
        ranked_items(data) is Some,
        0 <= i < data.len(),
    ensures
        ranked_items(data)->0.len() == data.len(),
        data[i].member_elements("embedding"@) is Some,
        ranked_items(data)->0[i] == (
            item_rank(data[i], i as nat),
            numbers_in(data[i].member_elements("embedding"@)->0),
        ),
    decreases data.len(),
{
    assert(ranked_items(data.drop_last()) is Some);
    if data.len() > 1 {
        law_every_vector_gets_through(
            data.drop_last(),
            if i < data.len() - 1 {
                i
            } else {
                0
            },
        );
    } else {
        assert(ranked_items(data.drop_last())->0.len() == 0);
    }
    if i < data.len() - 1 {
        assert(data.drop_last()[i] == data[i]);
    }
}

/// Items that come in the order of their index come out as they came.
pub proof fn law_items_in_order_stay<N>(items: Seq<(u64, Seq<N>)>)
    requires
        ranks_ascend(items),
    ensures
        in_order(items) == items,
    decreases items.len(),
{
    if items.len() > 0 {
        let rest = items.drop_last();
        assert forall|i: int, j: int| 0 <= i <= j < rest.len() implies #[trigger] rest[i].0
            <= #[trigger] rest[j].0 by {
            assert(rest[i] == items[i] && rest[j] == items[j]);
        }
        law_items_in_order_stay(rest);
        if rest.len() > 0 {
            assert(rest.last() == items[rest.len() - 1]);
            assert(items[rest.len() - 1].0 <= items[items.len() - 1].0);
        }
        assert(place(rest, items.last().0) == rest.len());
        assert(rest.insert(rest.len() as int, items.last()) =~= items);
    } else {
        assert(in_order(items) =~= items);
    }
}

/// Entries are read one by one in their order, and an entry that is no array spoils them all.
pub proof fn law_entries_are_read_one_by_one<N>(before: Seq<Json<N>>, entry: Json<N>)
    ensures
        listed_vectors(Seq::<Json<N>>::empty()) == Some(Seq::<Seq<N>>::empty()),
        ({
            let e = entry.elements();
            &&& listed_vectors(before) is Some && e is Some ==> listed_vectors(before.push(entry))
                == Some(listed_vectors(before)->0.push(numbers_in(e->0)))
            &&& listed_vectors(before) is None || e is None ==> listed_vectors(before.push(entry))
                is None
        }),
{
    assert(before.push(entry).drop_last() =~= before);
}

/// A body is read by the first of its three forms: `data` by rank, `embeddings` in order, and a single
/// `embedding` for a single input alone. Each fault has a message of its own.
pub proof fn law_body_is_read_by_its_form<N>(body: Json<N>, expected: nat)
    ensures
        ({
            let data = body.member_elements("data"@);
            let listed = body.member_elements("embeddings"@);
            let single = body.member_elements("embedding"@);
            let r = body_vectors(body, expected);
            &&& data is Some && ranked_items(data->0) is Some ==> r == Ok::<
                Seq<Seq<N>>,
                Seq<char>,
            >(unranked(in_order(ranked_items(data->0)->0)))
            &&& data is Some && ranked_items(data->0) is None ==> r == Err::<
                Seq<Seq<N>>,
                Seq<char>,
            >("response 'data' item missing 'embedding' array"@)
            &&& data is None && listed is Some && listed_vectors(listed->0) is Some ==> r == Ok::<
                Seq<Seq<N>>,
                Seq<char>,
            >(listed_vectors(listed->0)->0)
            &&& data is None && listed is Some && listed_vectors(listed->0) is None ==> r == Err::<
                Seq<Seq<N>>,
                Seq<char>,
            >("malformed 'embeddings' entry"@)
            &&& data is None && listed is None && single is Some && expected == 1 ==> r == Ok::<
                Seq<Seq<N>>,
                Seq<char>,
            >(seq![numbers_in(single->0)])
            &&& data is None && listed is None && single is Some && expected != 1 ==> r == Err::<
                Seq<Seq<N>>,
                Seq<char>,
            >("backend returned a single 'embedding' field for a multi-input batch"@)
            &&& data is None && listed is None && single is None ==> r == Err::<
                Seq<Seq<N>>,
                Seq<char>,
            >("unrecognized embeddings response shape (no data/embeddings/embedding field)"@)
        }),
{
}

/// The first vector of another length is the one that is told of, with its place, its length and the
/// length that it should have; where every length is right nothing is told.
pub proof fn law_first_misfit_is_told<N>(vectors: Seq<Seq<N>>, dim: nat, k: nat)
    requires
        k <= vectors.len(),
        forall|i: int| 0 <= i < k ==> (#[trigger] vectors[i]).len() == dim,
    ensures
        k < vectors.len() && vectors[k as int].len() != dim ==> dims_fault(vectors, dim) == Some(
            "embedding at index "@ + decimal(k) + " has dimension "@ + decimal(
                vectors[k as int].len(),
            ) + " (expected "@ + decimal(dim) + ")"@,
        ),
        k == vectors.len() ==> dims_fault(vectors, dim) is None,
{
    lemma_misfit_lies_behind(vectors, dim, 0, k);
    if k < vectors.len() && vectors[k as int].len() != dim {
        assert(first_misfit(vectors, dim, k) == Some(k));
    }
}

proof fn lemma_misfit_lies_behind<N>(vectors: Seq<Seq<N>>, dim: nat, from: nat, k: nat)
    requires
        from <= k <= vectors.len(),
        forall|i: int| from <= i < k ==> (#[trigger] vectors[i]).len() == dim,
    ensures
        first_misfit(vectors, dim, from) == first_misfit(vectors, dim, k),
    decreases k - from,
{
    if from < k {
        assert(vectors[from as int].len() == dim);
        lemma_misfit_lies_behind(vectors, dim, from + 1, k);
    }
}

/// Vectors are accepted exactly where there is one for each input and all have the right length; a
/// wrong count is told before a wrong length.
pub proof fn law_accepted_vectors<N>(vectors: Seq<Seq<N>>, expected: nat, dim: nat)
    ensures
        output_fault(vectors, expected, dim) is None <==> vectors.len() == expected && forall|
            i: int,
        |
            0 <= i < vectors.len() ==> (#[trigger] vectors[i]).len() == dim,
        vectors.len() != expected ==> output_fault(vectors, expected, dim) == Some(
            "backend returned "@ + decimal(vectors.len()) + " embeddings for "@ + decimal(expected)
                + " inputs (count mismatch)"@,
        ),
        vectors.len() == expected ==> output_fault(vectors, expected, dim) == dims_fault(
            vectors,
            dim,
        ),
{
    if output_fault(vectors, expected, dim) is None {
        lemma_no_misfit(vectors, dim, 0);
    }
    if forall|i: int| 0 <= i < vectors.len() ==> (#[trigger] vectors[i]).len() == dim {
        law_first_misfit_is_told(vectors, dim, vectors.len());
    }
}

/// What kept a backend from answering is told with the backend's side and the reason; a body is read.
pub proof fn law_replies_are_told_apart<N>(why: String, body: Json<N>, side: Seq<char>, expected: nat)
    ensures
        reply_vectors(BackendReply::<N>::Unreachable(why), side, expected) == Err::<
            Seq<Seq<N>>,
            Seq<char>,
        >(side + " embeddings request failed: "@ + why@),
        reply_vectors(BackendReply::<N>::Refused(why), side, expected) == Err::<
            Seq<Seq<N>>,
            Seq<char>,
        >(side + " embeddings backend returned HTTP "@ + why@),
        reply_vectors(BackendReply::<N>::NotJson(why), side, expected) == Err::<
            Seq<Seq<N>>,
            Seq<char>,
        >(side + " embeddings response not JSON: "@ + why@),
        reply_vectors(BackendReply::Body(body), side, expected) == body_vectors(body, expected),
{
}

/// A side serves the vectors of its reply where they are accepted, and else says what was wrong with
/// them; a side that was not asked says why.
pub proof fn law_side_serves_accepted_vectors<N>(
    reply: BackendReply<N>,
    why: String,
    side: Seq<char>,
    expected: nat,
    dim: nat,
)
    ensures
        asked_answer(Err::<BackendReply<N>, String>(why), side, expected, dim) == Err::<
            Seq<Seq<N>>,
            Seq<char>,
        >(why@),
        ({
            let asked = asked_answer(Ok::<BackendReply<N>, String>(reply), side, expected, dim);
            match reply_vectors(reply, side, expected) {
                Err(e) => asked == Err::<Seq<Seq<N>>, Seq<char>>(e),
                Ok(vectors) => {
                    &&& output_fault(vectors, expected, dim) is None ==> asked == Ok::<
                        Seq<Seq<N>>,
                        Seq<char>,
                    >(vectors)
                    &&& output_fault(vectors, expected, dim) matches Some(e) ==> asked == Err::<
                        Seq<Seq<N>>,
                        Seq<char>,
                    >("invalid output: "@ + e)
                },
            }
        }),
{
}

/// There is something to embed where any one text is not empty.
pub proof fn law_one_text_is_enough(texts: Seq<Seq<char>>, i: int)
    ensures
        0 <= i < texts.len() && texts[i].len() > 0 ==> !all_empty(texts),
        texts.len() == 0 ==> all_empty(texts),
        !all_empty(texts) ==> exists|k: int|
            0 <= k < texts.len() && (#[trigger] texts[k]).len() > 0,
{
}

/// Every text counts its words, and no text counts twice.
pub proof fn law_words_of_all_texts_are_counted(before: Seq<Seq<char>>, text: Seq<char>)
    ensures
        word_total(Seq::empty()) == 0,
        word_total(before.push(text)) == word_total(before) + items(text, Separator::White).len(),
{
    assert(before.push(text).drop_last() =~= before);
}

} // verus!
