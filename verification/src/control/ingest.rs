//! Bringing a model from the hub into cold storage.
use vstd::prelude::*;

use crate::control::{
    error_response, find_record, record_of, refusal, ErrorReply, ModelRecord, StorageTier,
};
use crate::json::Json;
use crate::text::{
    contains, has, is_blank, join, join3, listed, lists, lower_ascii, lowered, opt_view, owned,
    same_ignoring_case, trim, trim_end_slashes, trimmed, without_end_slashes,
};

verus! {

/// A tier, as an ingest reports it.
#[derive(Debug, Clone, Copy, PartialEq, Eq, Structural)]
pub enum ModelTier {
    Cold,
    Warm,
    Hot,
}

/// The tier of a record.
pub open spec fn tier_in(tier: StorageTier) -> ModelTier {
    match tier {
        StorageTier::Cold => ModelTier::Cold,
        StorageTier::Warm => ModelTier::Warm,
        StorageTier::Hot => ModelTier::Hot,
    }
}

/// The tier of a record.
pub fn tier_of(rec: &ModelRecord) -> (r: ModelTier)
    ensures
        r == tier_in(rec.tier),
{
    match rec.tier {
        StorageTier::Cold => ModelTier::Cold,
        StorageTier::Warm => ModelTier::Warm,
        StorageTier::Hot => ModelTier::Hot,
    }
}

/// A model that is there already.
#[derive(Debug, PartialEq, Eq)]
pub struct ExistingModel {
    pub name: String,
    pub tier: ModelTier,
}

/// The place of the first candidate that is recorded.
pub open spec fn first_recorded(records: Seq<ModelRecord>, candidates: Seq<String>) -> Option<int>
    decreases candidates.len(),
{
    if candidates.len() == 0 {
        None
    } else {
        match record_of(records, candidates[0]@) {
            Some(i) => Some(i),
            None => first_recorded(records, candidates.skip(1)),
        }
    }
}

/// The first of the candidate names under which the model is recorded already.
pub fn find_existing(records: &[ModelRecord], candidates: &[String]) -> (r: Option<ExistingModel>)
    ensures
        match first_recorded(records@, candidates@) {
            Some(i) => r matches Some(m) && m.name@ == records@[i].name@ && m.tier == tier_in(
                records@[i].tier,
            ),
            None => r is None,
        },
{
    let mut i: usize = 0;
    assert(candidates@.skip(0) =~= candidates@);
    while i < candidates.len()
        invariant
            i <= candidates.len(),
            first_recorded(records@, candidates@) == first_recorded(
                records@,
                candidates@.skip(i as int),
            ),
        decreases candidates.len() - i,
    {
        assert(candidates@.skip(i as int)[0] == candidates@[i as int]);
        assert(candidates@.skip(i as int).skip(1) =~= candidates@.skip(i + 1));
        if let Some(k) = find_record(records, candidates[i].as_str()) {
            return Some(
                ExistingModel { name: records[k].name.clone(), tier: tier_of(&records[k]) },
            );
        }
        i = i + 1;
    }
    None
}

/// What the hub says of a repository.
#[derive(Debug, Clone, Copy, PartialEq, Eq, Structural)]
pub struct HfProbe {
    pub gated: bool,
    pub private: bool,
    pub total_bytes: Option<u64>,
}

/// The address at which the hub describes a repository, with the sizes of its files.
pub fn probe_url(hf_repo: &str) -> (r: String)
    ensures
        r@ == "https://huggingface.co/api/models/"@ + hf_repo@ + "?blobs=true"@,
{
    join3("https://huggingface.co/api/models/", hf_repo, "?blobs=true")
}

/// What a status of the hub leads to.
#[derive(Debug, PartialEq, Eq)]
pub enum ProbeStep {
    /// The repository cannot be read without a credential.
    Restricted(HfProbe),
    /// The hub failed: why.
    Failed(String),
    /// The description can be read.
    ReadBody,
}

/// The hub answered with a status, which reads `text`.
pub fn probe_status(status: u16, text: &str) -> (r: ProbeStep)
    ensures
        if status == 401 || status == 403 {
            r == ProbeStep::Restricted(
                HfProbe { gated: true, private: false, total_bytes: None },
            )
        } else if 200 <= status < 300 {
            r == ProbeStep::ReadBody
        } else {
            r matches ProbeStep::Failed(m) && m@ == "HTTP "@ + text@
        },
{
    if status == 401 || status == 403 {
        ProbeStep::Restricted(HfProbe { gated: true, private: false, total_bytes: None })
    } else if 200 <= status && status < 300 {
        ProbeStep::ReadBody
    } else {
        ProbeStep::Failed(join("HTTP ", text))
    }
}

/// A flag of the description: set by `true`, or by any text but "false".
pub open spec fn flagged<N>(body: Json<N>, name: Seq<char>) -> bool {
    match body.member(name) {
        Some(Json::Bool(b)) => b,
        Some(Json::Text(s)) => lower_ascii(s@) != "false"@,
        _ => false,
    }
}

proof fn lemma_false_is_lower()
    ensures
        lower_ascii("false"@) == "false"@,
{
    reveal_strlit("false");
    assert(lower_ascii("false"@) =~= "false"@);
}

fn flag<N>(body: &Json<N>, name: &str) -> (r: bool)
    ensures
        r == flagged(*body, name@),
{
    proof {
        lemma_false_is_lower();
    }
    match body.get(name) {
        Some(Json::Bool(b)) => *b,
        Some(Json::Text(s)) => !same_ignoring_case(s.as_str(), "false"),
        _ => false,
    }
}

/// The quantisation that a revision selects: trimmed, where it is not blank.
pub open spec fn quant_of(revision: Option<&str>) -> Option<Seq<char>> {
    match revision {
        Some(s) => if is_blank(s@) {
            None
        } else {
            Some(trim(s@))
        },
        None => None,
    }
}

/// The size of a file: its own, else that of the large object behind it.
pub open spec fn file_size<N>(file: Json<N>) -> Option<u64> {
    match file.member_whole("size"@) {
        Some(n) => Some(n),
        None => match file.member("lfs"@) {
            Some(lfs) => lfs.member_whole("size"@),
            None => None,
        },
    }
}

/// A file belongs to the selected quantisation: its name holds the tag, whatever the case of ASCII
/// letters.
pub open spec fn file_counts<N>(file: Json<N>, quant: Seq<char>) -> bool {
    contains(
        lower_ascii(
            match file.member_string("rfilename"@) {
                Some(name) => name,
                None => ""@,
            },
        ),
        lower_ascii(quant),
    )
}

/// The sizes of the files that belong to the selected quantisation, together.
pub open spec fn files_size<N>(files: Seq<Json<N>>, quant: Seq<char>) -> nat
    decreases files.len(),
{
    if files.len() == 0 {
        0
    } else {
        files_size(files.drop_last(), quant) + (if file_counts(files.last(), quant) {
            match file_size(files.last()) {
                Some(n) => n as nat,
                None => 0,
            }
        } else {
            0
        })
    }
}

/// The size of a repository: that of the files of the selected quantisation, else what it says of
/// itself; `None` where neither says anything above zero. Without a selection the files do not
/// count.
pub open spec fn repo_size<N>(body: Json<N>, quant: Option<Seq<char>>) -> Option<nat> {
    let files = match (quant, body.member_elements("siblings"@)) {
        (Some(q), Some(list)) => files_size(list, q),
        _ => 0,
    };
    if files > 0 {
        Some(files)
    } else {
        match body.member_whole("usedStorage"@) {
            Some(n) => if n > 0 {
                Some(n as nat)
            } else {
                None
            },
            None => None,
        }
    }
}

fn size_of_file<N>(file: &Json<N>) -> (r: Option<u64>)
    ensures
        r == file_size(*file),
{
    match file.get_u64("size") {
        Some(n) => Some(n),
        None => match file.get("lfs") {
            Some(lfs) => lfs.get_u64("size"),
            None => None,
        },
    }
}

fn counts_file<N>(file: &Json<N>, quant: &str) -> (r: bool)
    ensures
        r == file_counts(*file, quant@),
{
    let name: &str = match file.get_str("rfilename") {
        Some(name) => name,
        None => "",
    };
    has(lowered(name).as_str(), lowered(quant).as_str())
}

proof fn lemma_files_size_grows<N>(files: Seq<Json<N>>, quant: Seq<char>, i: int)
    requires
        0 <= i <= files.len(),
    ensures
        files_size(files.take(i), quant) <= files_size(files, quant),
    decreases files.len() - i,
{
    if i < files.len() {
        lemma_files_size_grows(files, quant, i + 1);
        assert(files.take(i + 1).drop_last() =~= files.take(i));
    } else {
        assert(files.take(i) =~= files);
    }
}

fn quant_text(revision: Option<&str>) -> (r: Option<String>)
    ensures
        opt_view(r) == quant_of(revision),
{
    match revision {
        Some(s) => {
            let t = trimmed(s);
            if t.as_str().unicode_len() == 0 {
                None
            } else {
                Some(t)
            }
        },
        None => None,
    }
}

/// The sizes of the files that belong to the selected quantisation, together, where that is a
/// machine number.
fn size_of_files<N>(files: &Vec<Json<N>>, quant: &str) -> (r: Option<u64>)
    ensures
        match r {
            Some(n) => n == files_size(files@, quant@),
            None => files_size(files@, quant@) > u64::MAX,
        },
{
    let mut sum: u64 = 0;
    let mut i: usize = 0;
    assert(files@.take(0) =~= Seq::empty());
    while i < files.len()
        invariant
            i <= files.len(),
            sum == files_size(files@.take(i as int), quant@),
        decreases files.len() - i,
    {
        assert(files@.take(i + 1).drop_last() =~= files@.take(i as int));
        if counts_file(&files[i], quant) {
            if let Some(n) = size_of_file(&files[i]) {
                if sum > u64::MAX - n {
                    proof {
                        lemma_files_size_grows(files@, quant@, i + 1);
                    }
                    return None;
                }
                sum = sum + n;
            }
        }
        i = i + 1;
    }
    assert(files@.take(files@.len() as int) =~= files@);
    Some(sum)
}

/// The size of a repository from its description, where that size is a machine number. The
/// revision selects a quantisation, and only its files count.
pub fn hf_repo_size_checked<N>(body: &Json<N>, revision: Option<&str>) -> (r: Result<
    Option<u64>,
    (),
>)
    ensures
        match r {
            Ok(size) => match (size, repo_size(*body, quant_of(revision))) {
                (Some(n), Some(m)) => n == m,
                (None, None) => true,
                _ => false,
            },
            Err(()) => repo_size(*body, quant_of(revision)) matches Some(m) && m > u64::MAX,
        },
{
    if let Some(quant) = quant_text(revision) {
        if let Some(files) = body.get_array("siblings") {
            match size_of_files(files, quant.as_str()) {
                Some(sum) => if sum > 0 {
                    return Ok(Some(sum));
                },
                None => {
                    return Err(());
                },
            }
        }
    }
    match body.get_u64("usedStorage") {
        Some(n) => if n > 0 {
            Ok(Some(n))
        } else {
            Ok(None)
        },
        None => Ok(None),
    }
}

/// The size of a repository from its description. The revision selects a quantisation, and only its
/// files count.
pub fn hf_repo_size_bytes<N>(body: &Json<N>, revision: Option<&str>) -> (r: Option<u64>)
    requires
        repo_size(*body, quant_of(revision)) matches Some(m) ==> m <= u64::MAX,
    ensures
        match (r, repo_size(*body, quant_of(revision))) {
            (Some(n), Some(m)) => n == m,
            (None, None) => true,
            _ => false,
        },
{
    match hf_repo_size_checked(body, revision) {
        Ok(size) => size,
        Err(()) => None,
    }
}

/// What the description of a repository says.
pub fn probe_body<N>(body: &Json<N>, revision: Option<&str>) -> (r: HfProbe)
    requires
        repo_size(*body, quant_of(revision)) matches Some(m) ==> m <= u64::MAX,
    ensures
        r.gated == flagged(*body, "gated"@),
        r.private == flagged(*body, "private"@),
        match (r.total_bytes, repo_size(*body, quant_of(revision))) {
            (Some(n), Some(m)) => n == m,
            (None, None) => true,
            _ => false,
        },
{
    HfProbe {
        gated: flag(body, "gated"),
        private: flag(body, "private"),
        total_bytes: hf_repo_size_bytes(body, revision),
    }
}

/// Where the model server is asked to pull a model.
pub fn pull_url(ollama_url: Option<&str>) -> (r: Result<String, String>)
    ensures
        match ollama_url {
            Some(base) => r matches Ok(u) && u@ == trim_end_slashes(base@) + "/api/pull"@,
            None => r matches Err(e) && e@ == "OLLAMA_URL is not configured"@,
        },
{
    match ollama_url {
        Some(base) => Ok(join(without_end_slashes(base).as_str(), "/api/pull")),
        None => Err(owned("OLLAMA_URL is not configured")),
    }
}

/// What came of asking the model server to pull a model.
#[derive(Debug, PartialEq, Eq)]
pub enum PullAnswer {
    /// It took too long.
    TimedOut,
    /// It could not be asked: why.
    Failed(String),
    /// It answered with a status, which reads so.
    Status(u16, String),
}

/// Was the model pulled?
pub fn pull_warm(answer: PullAnswer) -> (r: Result<(), String>)
    ensures
        match answer {
            PullAnswer::TimedOut => r matches Err(e) && e@ == "ollama pull timed out"@,
            PullAnswer::Failed(why) => r matches Err(e) && e@ == "ollama pull request error: "@
                + why@,
            PullAnswer::Status(status, text) => if 200 <= status < 300 {
                r is Ok
            } else {
                r matches Err(e) && e@ == "ollama pull returned HTTP "@ + text@
            },
        },
{
    match answer {
        PullAnswer::TimedOut => Err(owned("ollama pull timed out")),
        PullAnswer::Failed(why) => Err(join("ollama pull request error: ", why.as_str())),
        PullAnswer::Status(status, text) => {
            if 200 <= status && status < 300 {
                Ok(())
            } else {
                Err(join("ollama pull returned HTTP ", text.as_str()))
            }
        },
    }
}

/// A model that has come to rest in cold storage.
#[derive(Debug, PartialEq, Eq)]
pub struct ColdLanded {
    pub registry_name: String,
    pub archive_path: String,
    pub bytes: u64,
}

/// The first record of a tier under one of the candidate names.
pub open spec fn first_landed(
    records: Seq<ModelRecord>,
    candidates: Seq<String>,
    tier: StorageTier,
) -> Option<int>
    decreases records.len(),
{
    if records.len() == 0 {
        None
    } else if records[0].tier == tier && lists(candidates, records[0].name@) {
        Some(0)
    } else {
        match first_landed(records.skip(1), candidates, tier) {
            Some(i) => Some(i + 1),
            None => None,
        }
    }
}

proof fn lemma_first_landed(records: Seq<ModelRecord>, candidates: Seq<String>, tier: StorageTier)
    ensures
        first_landed(records, candidates, tier) matches Some(i) ==> 0 <= i < records.len()
            && records[i].tier == tier && lists(candidates, records[i].name@),
    decreases records.len(),
{
    if records.len() > 0 {
        lemma_first_landed(records.skip(1), candidates, tier);
    }
}

fn find_landed(records: &[ModelRecord], candidates: &[String], tier: StorageTier) -> (r: Option<
    usize,
>)
    ensures
        match (r, first_landed(records@, candidates@, tier)) {
            (Some(i), Some(k)) => i == k && i < records@.len(),
            (None, None) => true,
            _ => false,
        },
{
    let mut i: usize = 0;
    assert(records@.skip(0) =~= records@);
    while i < records.len()
        invariant
            i <= records.len(),
            match first_landed(records@.skip(i as int), candidates@, tier) {
                Some(k) => first_landed(records@, candidates@, tier) == Some(k + i),
                None => first_landed(records@, candidates@, tier) is None,
            },
        decreases records.len() - i,
    {
        assert(records@.skip(i as int)[0] == records@[i as int]);
        assert(records@.skip(i as int).skip(1) =~= records@.skip(i + 1));
        if records[i].tier == tier && listed(candidates, records[i].name.as_str()) {
            return Some(i);
        }
        i = i + 1;
    }
    None
}

/// The archive path of a record, or the archive's own where it has none.
pub open spec fn path_or_root(path: Option<String>, root: Seq<char>) -> Seq<char> {
    match path {
        Some(p) => p@,
        None => root,
    }
}

/// What bringing a pulled model to rest does next.
#[derive(Debug, PartialEq, Eq)]
pub enum LandStep {
    /// Move this model to the archive.
    Evict(String),
    /// It rests already.
    Landed(ColdLanded),
    /// It cannot be brought to rest: why.
    Failed(String),
}

/// The disk was scanned and the records follow it, or the scan failed. A warm record under one of
/// the candidate names is moved to the archive; a cold one rests there already.
pub fn land_cold(
    scanned: Result<&[ModelRecord], String>,
    candidates: &[String],
    archive_root: &str,
) -> (r: LandStep)
    ensures
        match scanned {
            Err(why) => r matches LandStep::Failed(e) && e@ == "reconcile scan task failed: "@
                + why@,
            Ok(records) => match first_landed(records@, candidates@, StorageTier::Warm) {
                Some(i) => r matches LandStep::Evict(name) && name@ == records@[i].name@,
                None => match first_landed(records@, candidates@, StorageTier::Cold) {
                    Some(i) => r matches LandStep::Landed(l) && l.registry_name@
                        == records@[i].name@ && l.archive_path@ == path_or_root(
                        records@[i].archive_path,
                        archive_root@,
                    ) && l.bytes == records@[i].size_bytes,
                    None => r matches LandStep::Failed(e) && e@
                        == "pulled model not found as warm or cold after reconcile"@,
                },
            },
        },
{
    let records = match scanned {
        Err(why) => {
            return LandStep::Failed(join("reconcile scan task failed: ", why.as_str()));
        },
        Ok(records) => records,
    };
    if let Some(i) = find_landed(records, candidates, StorageTier::Warm) {
        return LandStep::Evict(records[i].name.clone());
    }
    match find_landed(records, candidates, StorageTier::Cold) {
        Some(i) => LandStep::Landed(
            ColdLanded {
                registry_name: records[i].name.clone(),
                archive_path: match &records[i].archive_path {
                    Some(p) => p.clone(),
                    None => owned(archive_root),
                },
                bytes: records[i].size_bytes,
            },
        ),
        None => LandStep::Failed(
            owned("pulled model not found as warm or cold after reconcile"),
        ),
    }
}

/// The model was moved to the archive, freeing so many bytes, or was not. `records` are as they
/// stand now.
pub fn landed(
    records: &[ModelRecord],
    name: &str,
    archive_root: &str,
    evicted: Result<u64, String>,
) -> (r: Result<ColdLanded, String>)
    ensures
        match evicted {
            Err(why) => r matches Err(e) && e@ == why@,
            Ok(freed) => r matches Ok(l) && l.registry_name@ == name@ && l.bytes == freed
                && l.archive_path@ == (match record_of(records@, name@) {
                Some(i) => path_or_root(records@[i].archive_path, archive_root@),
                None => archive_root@,
            }),
        },
{
    match evicted {
        Err(why) => Err(why),
        Ok(bytes) => {
            let archive_path = match find_record(records, name) {
                Some(i) => match &records[i].archive_path {
                    Some(p) => p.clone(),
                    None => owned(archive_root),
                },
                None => owned(archive_root),
            };
            Ok(ColdLanded { registry_name: owned(name), archive_path, bytes })
        },
    }
}

/// A pulled model comes to rest under one of the candidate names, and only a warm or a cold record
/// is touched.
pub proof fn law_landing_touches_only_candidates(
    records: Seq<ModelRecord>,
    candidates: Seq<String>,
)
    ensures
        first_landed(records, candidates, StorageTier::Warm) matches Some(i) ==> lists(
            candidates,
            records[i].name@,
        ) && records[i].tier == StorageTier::Warm,
        first_landed(records, candidates, StorageTier::Cold) matches Some(i) ==> lists(
            candidates,
            records[i].name@,
        ) && records[i].tier == StorageTier::Cold,
{
    lemma_first_landed(records, candidates, StorageTier::Warm);
    lemma_first_landed(records, candidates, StorageTier::Cold);
}

/// What a request to ingest a model leads to.
#[derive(Debug, PartialEq, Eq)]
pub enum IngestGate {
    /// Ingesting is switched off.
    Disabled,
    /// The request is malformed.
    Malformed(ErrorReply),
    /// It is carried out.
    Run,
}

/// The switch comes first: a request is judged only where ingesting is switched on. `fault` is what is
/// wrong with the request.
pub fn ingest_gate(enabled: bool, fault: Option<String>) -> (r: IngestGate)
    ensures
        if !enabled {
            r == IngestGate::Disabled
        } else {
            match fault {
                Some(m) => r matches IngestGate::Malformed(e) && refusal(e, 400, m@),
                None => r == IngestGate::Run,
            }
        },
{
    if !enabled {
        IngestGate::Disabled
    } else {
        match fault {
            Some(m) => IngestGate::Malformed(error_response(400, m.as_str())),
            None => IngestGate::Run,
        }
    }
}

/// The status of a reply: the one that is given, or an internal error where that is no status.
pub fn reply_status(status: u16) -> (r: u16)
    ensures
        r == (if 100 <= status < 1000 {
            status
        } else {
            500
        }),
{
    if 100 <= status && status < 1000 {
        status
    } else {
        500
    }
}

/// A tier is reported as what it is.
pub proof fn law_tiers_are_reported_as_they_are()
    ensures
        tier_in(StorageTier::Cold) == ModelTier::Cold,
        tier_in(StorageTier::Warm) == ModelTier::Warm,
        tier_in(StorageTier::Hot) == ModelTier::Hot,
{
}

/// The candidates are tried in their order: the first that is recorded counts.
pub proof fn law_first_recorded_candidate_counts(
    records: Seq<ModelRecord>,
    candidates: Seq<String>,
    k: int,
)
    requires
        0 <= k <= candidates.len(),
        forall|i: int| 0 <= i < k ==> record_of(records, (#[trigger] candidates[i])@) is None,
    ensures
        k < candidates.len() && record_of(records, candidates[k]@) is Some ==> first_recorded(
            records,
            candidates,
        ) == record_of(records, candidates[k]@),
        k == candidates.len() ==> first_recorded(records, candidates) is None,
    decreases candidates.len(),
{
    if k > 0 {
        assert(record_of(records, candidates[0]@) is None);
        let rest = candidates.skip(1);
        assert forall|i: int| 0 <= i < k - 1 implies record_of(
            records,
            (#[trigger] rest[i])@,
        ) is None by {
            assert(rest[i] == candidates[i + 1]);
        }
        law_first_recorded_candidate_counts(records, rest, k - 1);
    }
}

/// A flag is set by a true value and by any text but the word for false, in whatever case; a missing
/// one, and one of another kind, is not set.
pub proof fn law_flags_of_a_repository<N>(body: Json<N>, name: Seq<char>)
    ensures
        body.member(name) is None ==> !flagged(body, name),
        body.member(name) matches Some(m) ==> {
            &&& m is Bool ==> flagged(body, name) == m->Bool_0
            &&& m is Text ==> (flagged(body, name) <==> lower_ascii(m->Text_0@) != "false"@)
            &&& !(m is Bool) && !(m is Text) ==> !flagged(body, name)
        },
{
}

/// A revision selects a quantisation by its trimmed text, where it is not blank.
pub proof fn law_revision_selects(revision: &str)
    ensures
        trim(revision@).len() > 0 ==> quant_of(Some(revision)) == Some(trim(revision@)),
        trim(revision@).len() == 0 ==> quant_of(Some(revision)) is None,
        quant_of(None) is None,
{
}

/// The size of a file is its own where it has one, else that of the large object behind it.
pub proof fn law_size_of_a_file<N>(file: Json<N>)
    ensures
        file.member_whole("size"@) is Some ==> file_size(file) == file.member_whole("size"@),
        file.member_whole("size"@) is None && file.member("lfs"@) is Some ==> file_size(file)
            == file.member("lfs"@)->0.member_whole("size"@),
        file.member_whole("size"@) is None && file.member("lfs"@) is None ==> file_size(file)
            is None,
{
}

/// A file belongs to a selection where its name holds the tag, in whatever case; one without a name
/// belongs to none.
pub proof fn law_files_of_a_selection<N>(file: Json<N>, quant: Seq<char>)
    ensures
        file.member_string("rfilename"@) matches Some(name) ==> (file_counts(file, quant)
            <==> contains(lower_ascii(name), lower_ascii(quant))),
        file.member_string("rfilename"@) is None && quant.len() > 0 ==> !file_counts(file, quant),
{
    reveal_strlit("");
}

/// The size of a selection is that of its files together: each counts its own size once, and a file
/// of no selection or of no known size counts nothing.
pub proof fn law_selection_is_as_large_as_its_files<N>(
    before: Seq<Json<N>>,
    file: Json<N>,
    quant: Seq<char>,
)
    ensures
        files_size(Seq::<Json<N>>::empty(), quant) == 0,
        file_counts(file, quant) && file_size(file) is Some ==> files_size(
            before.push(file),
            quant,
        ) == files_size(before, quant) + file_size(file)->0,
        !file_counts(file, quant) || file_size(file) is None ==> files_size(
            before.push(file),
            quant,
        ) == files_size(before, quant),
{
    assert(before.push(file).drop_last() =~= before);
}

/// With a selection whose files have a size, the repository is as large as they are. Without one it
/// is as large as it says itself; and where it says nothing, nothing is known.
pub proof fn law_size_of_a_repository<N>(body: Json<N>, quant: Seq<char>)
    ensures
        ({
            let own = body.member_whole("usedStorage"@);
            let own_size = if own is Some && own->0 > 0 {
                Some(own->0 as nat)
            } else {
                None
            };
            let files = body.member_elements("siblings"@);
            &&& repo_size(body, None) == own_size
            &&& files is Some && files_size(files->0, quant) > 0 ==> repo_size(body, Some(quant))
                == Some(files_size(files->0, quant))
            &&& files is None || files_size(files->0, quant) == 0 ==> repo_size(body, Some(quant))
                == own_size
        }),
{
}

/// A pulled model is found by the first record of the tier that has one of its names.
pub proof fn law_first_record_of_the_tier_is_found(
    records: Seq<ModelRecord>,
    candidates: Seq<String>,
    tier: StorageTier,
    k: int,
)
    requires
        0 <= k <= records.len(),
        forall|i: int|
            0 <= i < k ==> (#[trigger] records[i]).tier != tier || !lists(
                candidates,
                records[i].name@,
            ),
    ensures
        k < records.len() && records[k].tier == tier && lists(candidates, records[k].name@)
            ==> first_landed(records, candidates, tier) == Some(k),
        k == records.len() ==> first_landed(records, candidates, tier) is None,
    decreases records.len(),
{
    if k > 0 {
        assert(records[0].tier != tier || !lists(candidates, records[0].name@));
        let rest = records.skip(1);
        assert forall|i: int| 0 <= i < k - 1 implies (#[trigger] rest[i]).tier != tier || !lists(
            candidates,
            rest[i].name@,
        ) by {
            assert(rest[i] == records[i + 1]);
        }
        law_first_record_of_the_tier_is_found(rest, candidates, tier, k - 1);
    }
}

/// A model rests at its own path in the archive, or at the archive's root where it has none.
pub proof fn law_archive_path(path: String, root: Seq<char>)
    ensures
        path_or_root(Some(path), root) == path@,
        path_or_root(None, root) == root,
{
}

} // verus!
