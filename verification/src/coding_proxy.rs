//! Selecting the model for coding work: the ranked candidates are tried in order, and the first one
//! whose backend is healthy serves.
use vstd::prelude::*;

use crate::decimal::{decimal, decimal_of};
use crate::text::{join, join3, law_words_in_a_text, opt_view, owned, same, starts_with};

verus! {

/// A model that was measured for the work at hand, best first in a list of them. `S` is the type of
/// a score.
#[derive(Debug, Clone)]
pub struct CodingCandidate<S> {
    pub model_id: String,
    pub backend_tag: Option<String>,
    pub mem_config: Option<String>,
    pub combined_score: S,
}

/// A backend that serves models.
#[derive(Debug, Clone, PartialEq, Eq)]
pub struct Backend {
    pub name: String,
    pub url: String,
}

/// The backend that a candidate is served by.
#[derive(Debug, Clone, PartialEq, Eq)]
pub struct BackendResolution {
    pub name: String,
    pub url: String,
}

/// The first backend under a key.
pub open spec fn backend_under(backends: Seq<(String, Backend)>, key: Seq<char>) -> Option<Backend>
    decreases backends.len(),
{
    if backends.len() == 0 {
        None
    } else if backends[0].0@ == key {
        Some(backends[0].1)
    } else {
        backend_under(backends.skip(1), key)
    }
}

/// The key of the backend for a tag: the GPU's own, or the one that always runs.
pub open spec fn backend_key(tag: Option<Seq<char>>) -> Seq<char> {
    if tag == Some("gpu"@) {
        "llama-gpu"@
    } else {
        "ollama"@
    }
}

/// The backend of a candidate, where it is configured.
pub open spec fn backend_of<S>(
    candidate: CodingCandidate<S>,
    backends: Seq<(String, Backend)>,
) -> Option<Backend> {
    backend_under(backends, backend_key(opt_view(candidate.backend_tag)))
}

/// The backend of a candidate, where it is configured.
pub fn resolve_backend_for_candidate<S>(
    candidate: &CodingCandidate<S>,
    backends: &[(String, Backend)],
) -> (r: Option<BackendResolution>)
    ensures
        match (r, backend_of(*candidate, backends@)) {
            (Some(found), Some(b)) => found.name@ == b.name@ && found.url@ == b.url@,
            (None, None) => true,
            _ => false,
        },
{
    let key: &str = match &candidate.backend_tag {
        Some(tag) => if same(tag.as_str(), "gpu") {
            "llama-gpu"
        } else {
            "ollama"
        },
        None => "ollama",
    };
    let mut i: usize = 0;
    assert(backends@.skip(0) =~= backends@);
    while i < backends.len()
        invariant
            i <= backends.len(),
            backend_of(*candidate, backends@) == backend_under(backends@.skip(i as int), key@),
        decreases backends.len() - i,
    {
        assert(backends@.skip(i as int)[0] == backends@[i as int]);
        assert(backends@.skip(i as int).skip(1) =~= backends@.skip(i + 1));
        if same(backends[i].0.as_str(), key) {
            return Some(
                BackendResolution {
                    name: backends[i].1.name.clone(),
                    url: backends[i].1.url.clone(),
                },
            );
        }
        i = i + 1;
    }
    None
}

/// What was selected.
#[derive(Debug, Clone)]
pub struct SelectedModel<S> {
    pub model_id: String,
    pub backend: String,
    pub confidence: S,
    pub mem_config: Option<String>,
}

/// The answer of a selection.
#[derive(Debug, Clone)]
pub struct CodingSelectResponse<S> {
    pub selected: SelectedModel<S>,
    /// The selected candidate's place in the ranked list.
    pub fallback_tier: usize,
    pub candidates_considered: usize,
}

/// Why nothing was selected.
#[derive(Debug, Clone, Copy, PartialEq, Eq, Structural)]
pub enum CodingSelectError {
    /// There is no source of measurements.
    NotConfigured,
    /// The source does not answer.
    StoreUnavailable,
    /// Nothing has been measured for this work.
    NoCandidates,
    /// No candidate is healthy.
    AllCandidatesUnavailable { candidates_tried: usize },
}

/// Why the candidates could not be ranked.
#[derive(Debug, Clone, Copy, PartialEq, Eq, Structural)]
pub enum SelectorError {
    /// There is no source of measurements.
    NotConfigured,
    /// The source does not answer.
    StoreUnavailable,
}

/// The message of an error.
pub open spec fn select_error_text(e: CodingSelectError) -> Seq<char> {
    match e {
        CodingSelectError::NotConfigured =>
            "coding-model selection is not configured (no intake DB)"@,
        CodingSelectError::StoreUnavailable =>
            "coding-model selection store is temporarily unavailable"@,
        CodingSelectError::NoCandidates =>
            "no measured coding-model candidates exist yet for this language"@,
        CodingSelectError::AllCandidatesUnavailable { candidates_tried } => "all "@ + decimal(
            candidates_tried as nat,
        )
            + " ranked coding-model candidate(s) failed their health check — refusing to return an unverified selection"@,
    }
}

impl CodingSelectError {
    /// The status of the reply.
    pub fn status(&self) -> (r: u16)
        ensures
            r == 503,
    {
        503
    }

    /// The message of the reply.
    pub fn message(&self) -> (r: String)
        ensures
            r@ == select_error_text(*self),
    {
        match self {
            CodingSelectError::NotConfigured => owned(
                "coding-model selection is not configured (no intake DB)",
            ),
            CodingSelectError::StoreUnavailable => owned(
                "coding-model selection store is temporarily unavailable",
            ),
            CodingSelectError::NoCandidates => owned(
                "no measured coding-model candidates exist yet for this language",
            ),
            CodingSelectError::AllCandidatesUnavailable { candidates_tried } => join3(
                "all ",
                decimal_of(*candidates_tried as u64).as_str(),
                " ranked coding-model candidate(s) failed their health check — refusing to return an unverified selection",
            ),
        }
    }
}

impl From<SelectorError> for CodingSelectError {
    fn from(e: SelectorError) -> (r: Self) {
        match e {
            SelectorError::NotConfigured => CodingSelectError::NotConfigured,
            SelectorError::StoreUnavailable => CodingSelectError::StoreUnavailable,
        }
    }
}

impl vstd::std_specs::convert::FromSpecImpl<SelectorError> for CodingSelectError {
    open spec fn obeys_from_spec() -> bool {
        true
    }

    open spec fn from_spec(e: SelectorError) -> Self {
        match e {
            SelectorError::NotConfigured => CodingSelectError::NotConfigured,
            SelectorError::StoreUnavailable => CodingSelectError::StoreUnavailable,
        }
    }
}

/// The candidate at a place in the list can be asked for its health.
pub open spec fn probeable<S>(
    candidates: Seq<CodingCandidate<S>>,
    backends: Seq<(String, Backend)>,
    tier: int,
) -> bool {
    0 <= tier < candidates.len() && backend_of(candidates[tier], backends) is Some
}

/// The address that tells of the health of the candidate at a place in the list.
pub open spec fn probe_url<S>(
    candidates: Seq<CodingCandidate<S>>,
    backends: Seq<(String, Backend)>,
    tier: int,
) -> Seq<char> {
    backend_of(candidates[tier], backends)->Some_0.url@ + "/health"@
}

/// The first place at `from` or later whose candidate can be asked; the length of the list where
/// there is none.
pub open spec fn next_tier<S>(
    candidates: Seq<CodingCandidate<S>>,
    backends: Seq<(String, Backend)>,
    from: int,
) -> int
    decreases candidates.len() - from,
{
    if from >= candidates.len() {
        candidates.len() as int
    } else if probeable(candidates, backends, from) {
        from
    } else {
        next_tier(candidates, backends, from + 1)
    }
}

/// The answer picks the candidate at a place in the list.
pub open spec fn picks<S>(
    r: CodingSelectResponse<S>,
    candidates: Seq<CodingCandidate<S>>,
    backends: Seq<(String, Backend)>,
    tier: int,
) -> bool {
    &&& probeable(candidates, backends, tier)
    &&& r.selected.model_id@ == candidates[tier].model_id@
    &&& r.selected.backend@ == backend_of(candidates[tier], backends)->Some_0.name@
    &&& r.selected.confidence == candidates[tier].combined_score
    &&& opt_view(r.selected.mem_config) == opt_view(candidates[tier].mem_config)
    &&& r.fallback_tier == tier
    &&& r.candidates_considered == candidates.len()
}

/// Why a list of candidates comes to nothing.
pub open spec fn exhausted<S>(candidates: Seq<CodingCandidate<S>>) -> CodingSelectError {
    if candidates.len() == 0 {
        CodingSelectError::NoCandidates
    } else {
        CodingSelectError::AllCandidatesUnavailable {
            candidates_tried: candidates.len() as usize,
        }
    }
}

/// What a selection does next.
#[derive(Debug, Clone)]
pub enum SelectStep<S> {
    /// Ask this address for the health of the candidate at `tier`.
    Probe { tier: usize, url: String },
    /// This one serves.
    Selected(CodingSelectResponse<S>),
    /// Nothing does.
    Failed(CodingSelectError),
}

/// The step asks for the health of the next candidate at `from` or later, or fails where there is
/// none.
pub open spec fn asks_from<S>(
    step: SelectStep<S>,
    candidates: Seq<CodingCandidate<S>>,
    backends: Seq<(String, Backend)>,
    from: int,
) -> bool {
    let next = next_tier(candidates, backends, from);
    if next < candidates.len() {
        step matches SelectStep::Probe { tier, url } && tier == next && url@ == probe_url(
            candidates,
            backends,
            next,
        )
    } else {
        step == SelectStep::<S>::Failed(exhausted(candidates))
    }
}

proof fn lemma_next_tier<S>(
    candidates: Seq<CodingCandidate<S>>,
    backends: Seq<(String, Backend)>,
    from: int,
)
    requires
        0 <= from,
    ensures
        from < candidates.len() ==> from <= next_tier(candidates, backends, from)
            <= candidates.len(),
        next_tier(candidates, backends, from) < candidates.len() ==> probeable(
            candidates,
            backends,
            next_tier(candidates, backends, from),
        ),
        forall|i: int|
            from <= i < next_tier(candidates, backends, from) ==> !#[trigger] probeable(
                candidates,
                backends,
                i,
            ),
    decreases candidates.len() - from,
{
    if from < candidates.len() && !probeable(candidates, backends, from) {
        lemma_next_tier(candidates, backends, from + 1);
    }
}

fn ask_from<S>(
    candidates: &[CodingCandidate<S>],
    backends: &[(String, Backend)],
    from: usize,
) -> (r: SelectStep<S>)
    ensures
        asks_from(r, candidates@, backends@, from as int),
{
    if candidates.len() == 0 {
        return SelectStep::Failed(CodingSelectError::NoCandidates);
    }
    let mut tier: usize = from;
    while tier < candidates.len()
        invariant
            candidates.len() > 0,
            from >= candidates.len() ==> tier == from,
            from < candidates.len() ==> tier <= candidates.len(),
            next_tier(candidates@, backends@, from as int) == next_tier(
                candidates@,
                backends@,
                tier as int,
            ),
        decreases candidates.len() - tier,
    {
        if let Some(found) = resolve_backend_for_candidate(&candidates[tier], backends) {
            return SelectStep::Probe { tier, url: join(found.url.as_str(), "/health") };
        }
        tier = tier + 1;
    }
    SelectStep::Failed(
        CodingSelectError::AllCandidatesUnavailable { candidates_tried: candidates.len() },
    )
}

/// Starts a selection.
pub fn start_select<S>(
    candidates: &[CodingCandidate<S>],
    backends: &[(String, Backend)],
) -> (r: SelectStep<S>)
    ensures
        asks_from(r, candidates@, backends@, 0),
{
    ask_from(candidates, backends, 0)
}

/// The candidate at `tier` was asked for its health.
pub fn continue_select<S: Copy>(
    candidates: &[CodingCandidate<S>],
    backends: &[(String, Backend)],
    tier: usize,
    healthy: bool,
) -> (r: SelectStep<S>)
    requires
        tier < candidates.len(),
    ensures
        if healthy && probeable(candidates@, backends@, tier as int) {
            r matches SelectStep::Selected(s) && picks(s, candidates@, backends@, tier as int)
        } else {
            asks_from(r, candidates@, backends@, tier + 1)
        },
{
    if healthy {
        if let Some(found) = resolve_backend_for_candidate(&candidates[tier], backends) {
            return SelectStep::Selected(
                CodingSelectResponse {
                    selected: SelectedModel {
                        model_id: candidates[tier].model_id.clone(),
                        backend: found.name,
                        confidence: candidates[tier].combined_score,
                        mem_config: match &candidates[tier].mem_config {
                            Some(m) => Some(m.clone()),
                            None => None,
                        },
                    },
                    fallback_tier: tier,
                    candidates_considered: candidates.len(),
                },
            );
        }
    }
    ask_from(candidates, backends, tier + 1)
}

/// The health checker may answer `up` for an address.
pub open spec fn may_report<H: Fn(&str) -> bool>(health: H, url: Seq<char>, up: bool) -> bool {
    exists|u: &str| #[trigger] call_ensures(health, (u,), up) && u@ == url
}

/// The checker was asked for every candidate before `tier` that can be asked, and reported each
/// down.
pub open spec fn reported_down<S, H: Fn(&str) -> bool>(
    health: H,
    candidates: Seq<CodingCandidate<S>>,
    backends: Seq<(String, Backend)>,
    tier: int,
) -> bool {
    forall|i: int|
        0 <= i < tier && #[trigger] probeable(candidates, backends, i) ==> may_report(
            health,
            probe_url(candidates, backends, i),
            false,
        )
}

/// Walks the ranked candidates and returns the first whose backend `health` reports up. A candidate
/// without a configured backend is passed over.
pub fn select_with_fallback<S: Copy, H: Fn(&str) -> bool>(
    candidates: &[CodingCandidate<S>],
    backends: &[(String, Backend)],
    health: H,
) -> (r: Result<CodingSelectResponse<S>, CodingSelectError>)
    requires
        forall|u: &str| #[trigger] call_requires(health, (u,)),
    ensures
        match r {
            Ok(s) => {
                &&& picks(s, candidates@, backends@, s.fallback_tier as int)
                &&& may_report(
                    health,
                    probe_url(candidates@, backends@, s.fallback_tier as int),
                    true,
                )
                &&& reported_down(health, candidates@, backends@, s.fallback_tier as int)
            },
            Err(e) => {
                &&& e == exhausted(candidates@)
                &&& reported_down(health, candidates@, backends@, candidates@.len() as int)
            },
        },
{
    let mut step = start_select(candidates, backends);
    let mut from: usize = 0;
    loop
        invariant
            forall|u: &str| #[trigger] call_requires(health, (u,)),
            from <= candidates.len(),
            asks_from(step, candidates@, backends@, from as int),
            reported_down(health, candidates@, backends@, from as int),
        decreases candidates.len() - from,
    {
        proof {
            lemma_next_tier(candidates@, backends@, from as int);
        }
        match step {
            SelectStep::Probe { tier, url } => {
                let up = health(url.as_str());
                assert(may_report(health, probe_url(candidates@, backends@, tier as int), up));
                step = continue_select(candidates, backends, tier, up);
                if let SelectStep::Selected(s) = step {
                    return Ok(s);
                }
                from = tier + 1;
            },
            SelectStep::Selected(s) => {
                return Ok(s);
            },
            SelectStep::Failed(e) => {
                return Err(e);
            },
        }
    }
}

/// Where the checker always answers as `up` says, the selected candidate is the first that is up,
/// and there is one exactly where some candidate is up.
pub proof fn law_first_healthy_candidate_serves<S, H: Fn(&str) -> bool>(
    health: H,
    up: spec_fn(Seq<char>) -> bool,
    candidates: Seq<CodingCandidate<S>>,
    backends: Seq<(String, Backend)>,
    tier: int,
)
    requires
        forall|u: &str, b: bool| #[trigger] call_ensures(health, (u,), b) ==> b == up(u@),
        0 <= tier <= candidates.len(),
        reported_down(health, candidates, backends, tier),
    ensures
        forall|i: int|
            0 <= i < tier && #[trigger] probeable(candidates, backends, i) ==> !up(
                probe_url(candidates, backends, i),
            ),
        forall|url: Seq<char>| may_report(health, url, true) ==> #[trigger] up(url),
{
}

/// A candidate that was measured on the GPU is served by the GPU's backend; any other, with another
/// tag or none, by the one that always runs.
pub proof fn law_tag_names_the_backend(tag: Seq<char>)
    ensures
        backend_key(Some("gpu"@)) == "llama-gpu"@,
        tag != "gpu"@ ==> backend_key(Some(tag)) == "ollama"@,
        backend_key(None) == "ollama"@,
{
}

/// A backend is found under its key: the first that stands there, and none where none does.
pub proof fn law_backends_are_found_by_key(
    backends: Seq<(String, Backend)>,
    k: int,
    key: Seq<char>,
)
    requires
        0 <= k <= backends.len(),
        forall|i: int| 0 <= i < k && i < backends.len() ==> (#[trigger] backends[i]).0@ != key,
    ensures
        k < backends.len() && backends[k].0@ == key ==> backend_under(backends, key) == Some(
            backends[k].1,
        ),
        k == backends.len() ==> backend_under(backends, key) is None,
    decreases backends.len(),
{
    if k > 0 {
        assert(backends[0].0@ != key);
        let rest = backends.skip(1);
        assert forall|i: int| 0 <= i < k - 1 && i < rest.len() implies (#[trigger] rest[i]).0@
            != key by {
            assert(rest[i] == backends[i + 1]);
        }
        law_backends_are_found_by_key(rest, k - 1, key);
    }
}

/// A candidate is asked for at the backend of its own tag, below that backend's address.
pub proof fn law_candidate_is_asked_at_its_backend<S>(
    candidates: Seq<CodingCandidate<S>>,
    backends: Seq<(String, Backend)>,
    tier: int,
)
    requires
        0 <= tier < candidates.len(),
    ensures
        ({
            let on_gpu = candidates[tier].backend_tag matches Some(t) && t@ == "gpu"@;
            let found = backend_under(
                backends,
                if on_gpu {
                    "llama-gpu"@
                } else {
                    "ollama"@
                },
            );
            &&& backend_of(candidates[tier], backends) == found
            &&& probeable(candidates, backends, tier) <==> found is Some
            &&& found matches Some(b) ==> probe_url(candidates, backends, tier) == b.url@
                + "/health"@
        }),
{
}

/// The next candidate is the first from there on that can be asked: those before it cannot.
pub proof fn law_next_candidate_is_the_first_that_can_be_asked<S>(
    candidates: Seq<CodingCandidate<S>>,
    backends: Seq<(String, Backend)>,
    from: int,
    at: int,
)
    requires
        0 <= from <= at <= candidates.len(),
        forall|i: int| from <= i < at ==> backend_of(#[trigger] candidates[i], backends) is None,
    ensures
        at < candidates.len() && backend_of(candidates[at], backends) is Some ==> next_tier(
            candidates,
            backends,
            from,
        ) == at,
        at == candidates.len() ==> next_tier(candidates, backends, from) == candidates.len(),
    decreases candidates.len() - from,
{
    if from < at {
        assert(backend_of(candidates[from], backends) is None);
        law_next_candidate_is_the_first_that_can_be_asked(candidates, backends, from + 1, at);
    }
}

/// A step asks for the next candidate that can be asked, at that candidate's own address; where none
/// is left it fails.
pub proof fn law_step_asks_for_the_next<S>(
    step: SelectStep<S>,
    candidates: Seq<CodingCandidate<S>>,
    backends: Seq<(String, Backend)>,
    from: int,
)
    requires
        asks_from(step, candidates, backends, from),
        0 <= from,
    ensures
        ({
            let next = next_tier(candidates, backends, from);
            &&& next < candidates.len() ==> (step matches SelectStep::Probe { tier, url } && tier
                == next && url@ == backend_of(candidates[next], backends)->Some_0.url@
                + "/health"@)
            &&& next >= candidates.len() ==> step is Failed
            &&& !(step is Selected)
        }),
{
}

/// What is picked is that candidate and no other: its model, the name of its backend, its score and
/// its memory settings, with its place in the list and how many there were.
pub proof fn law_pick_tells_of_its_candidate<S>(
    r: CodingSelectResponse<S>,
    candidates: Seq<CodingCandidate<S>>,
    backends: Seq<(String, Backend)>,
    tier: int,
)
    requires
        picks(r, candidates, backends, tier),
    ensures
        0 <= tier < candidates.len(),
        r.selected.model_id@ == candidates[tier].model_id@,
        backend_of(candidates[tier], backends) matches Some(b) && r.selected.backend@ == b.name@,
        r.selected.confidence == candidates[tier].combined_score,
        opt_view(r.selected.mem_config) == opt_view(candidates[tier].mem_config),
        r.fallback_tier == tier,
        r.candidates_considered == candidates.len(),
{
}

/// An empty list says that nothing was measured; any other how many were tried in vain.
pub proof fn law_failure_says_how_many_were_tried<S>(candidates: Seq<CodingCandidate<S>>, n: usize)
    ensures
        candidates.len() == 0 ==> exhausted(candidates) == CodingSelectError::NoCandidates,
        0 < candidates.len() <= usize::MAX ==> (exhausted(candidates)
            matches CodingSelectError::AllCandidatesUnavailable { candidates_tried }
            && candidates_tried == candidates.len()),
        starts_with(
            select_error_text(CodingSelectError::AllCandidatesUnavailable { candidates_tried: n }),
            "all "@ + decimal(n as nat) + " ranked coding-model candidate(s) failed"@,
        ),
{
    reveal_strlit(
        " ranked coding-model candidate(s) failed their health check — refusing to return an unverified selection",
    );
    reveal_strlit(" ranked coding-model candidate(s) failed");
    reveal_strlit(" their health check — refusing to return an unverified selection");
    let lead = "all "@ + decimal(n as nat) + " ranked coding-model candidate(s) failed"@;
    let tail = " their health check — refusing to return an unverified selection"@;
    assert(" ranked coding-model candidate(s) failed"@ + tail
        =~= " ranked coding-model candidate(s) failed their health check — refusing to return an unverified selection"@);
    assert(select_error_text(CodingSelectError::AllCandidatesUnavailable { candidates_tried: n })
        =~= lead + tail);
    law_words_in_a_text(Seq::empty(), lead, tail, Seq::empty());
}

/// Every error has a message of its own, and the one of a selection in vain says how many candidates
/// were tried.
pub proof fn law_errors_have_their_messages(n: usize)
    ensures
        select_error_text(CodingSelectError::NotConfigured)
            == "coding-model selection is not configured (no intake DB)"@,
        select_error_text(CodingSelectError::StoreUnavailable)
            == "coding-model selection store is temporarily unavailable"@,
        select_error_text(CodingSelectError::NoCandidates)
            == "no measured coding-model candidates exist yet for this language"@,
        select_error_text(CodingSelectError::AllCandidatesUnavailable { candidates_tried: n })
            == "all "@ + decimal(n as nat)
            + " ranked coding-model candidate(s) failed their health check — refusing to return an unverified selection"@,
{
}

} // verus!
