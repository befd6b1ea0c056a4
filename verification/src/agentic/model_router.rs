//! The model of an agentic execution: a fast one, and at most one escalation to a deep one.
use vstd::prelude::*;

use crate::agentic::router_classifier::{
    output_class, parse_classification, prompt_route, route_for, ClassView, Route,
    RouterClassification,
};
use crate::env::{number_or, number_var, text_or, text_var, var, var_of};
use crate::table::Table;
use crate::text::{
    begins_with, contains, has, join, lower_ascii, lower_unicode, opt_view, owned, same,
    same_ignoring_case, starts_with, to_lower, trim_end_slashes, trim_start, trimmed_start, views,
    without_end_slashes,
};

verus! {

/// When a context counts as complex.
#[derive(Debug)]
pub struct ComplexityHeuristic {
    /// More tool results than this.
    pub tool_result_count_threshold: usize,
    /// More characters of results than this.
    pub total_chars_threshold: usize,
    /// One of these words in the query, in lower case.
    pub reasoning_words: Vec<String>,
}

/// The words that ask for reasoning.
pub open spec fn reasoning_words() -> Seq<Seq<char>> {
    seq![
        "analyze"@,
        "compare"@,
        "synthesize"@,
        "evaluate"@,
        "explain why"@,
        "reason about"@,
    ]
}

/// What a [`ComplexityHeuristic`] says.
pub ghost struct HeuristicView {
    pub tool_results: usize,
    pub chars: usize,
    pub words: Seq<Seq<char>>,
}

impl View for ComplexityHeuristic {
    type V = HeuristicView;

    open spec fn view(&self) -> HeuristicView {
        HeuristicView {
            tool_results: self.tool_result_count_threshold,
            chars: self.total_chars_threshold,
            words: views(self.reasoning_words@),
        }
    }
}

impl HeuristicView {
    /// The heuristic that holds where nothing else is said.
    pub open spec fn usual() -> HeuristicView {
        HeuristicView { tool_results: 2, chars: 5000, words: reasoning_words() }
    }

    /// One of the words stands in the query, which is in lower case.
    pub open spec fn asks_for_reasoning(self, lower: Seq<char>) -> bool {
        exists|i: int| 0 <= i < self.words.len() && contains(lower, #[trigger] self.words[i])
    }

    /// The context is complex; `lower` is the query in lower case.
    pub open spec fn complex(self, tool_results: usize, chars: usize, lower: Seq<char>) -> bool {
        tool_results > self.tool_results || chars > self.chars || self.asks_for_reasoning(lower)
    }
}

impl Default for ComplexityHeuristic {
    fn default() -> (r: Self)
        ensures
            r@ == HeuristicView::usual(),
    {
        let mut words: Vec<String> = Vec::new();
        words.push(owned("analyze"));
        words.push(owned("compare"));
        words.push(owned("synthesize"));
        words.push(owned("evaluate"));
        words.push(owned("explain why"));
        words.push(owned("reason about"));
        assert(views(words@) =~= reasoning_words());
        ComplexityHeuristic {
            tool_result_count_threshold: 2,
            total_chars_threshold: 5_000,
            reasoning_words: words,
        }
    }
}

impl ComplexityHeuristic {
    /// Is the context complex? `lower` is the query in lower case.
    pub fn assess_lowered(&self, tool_result_count: usize, total_chars: usize, lower: &str) -> (r:
        bool)
        ensures
            r == self@.complex(tool_result_count, total_chars, lower@),
    {
        if tool_result_count > self.tool_result_count_threshold {
            return true;
        }
        if total_chars > self.total_chars_threshold {
            return true;
        }
        let mut i: usize = 0;
        while i < self.reasoning_words.len()
            invariant
                i <= self.reasoning_words.len(),
                forall|k: int| 0 <= k < i ==> !contains(lower@, #[trigger] self@.words[k]),
            decreases self.reasoning_words.len() - i,
        {
            assert(self@.words[i as int] == self.reasoning_words@[i as int]@);
            if has(lower, self.reasoning_words[i].as_str()) {
                return true;
            }
            i = i + 1;
        }
        false
    }

    /// Is the context complex: many tool results, many characters, or a query that asks for
    /// reasoning?
    pub fn assess_complexity(&self, tool_result_count: usize, total_chars: usize, query: &str) -> (r:
        bool)
        ensures
            r == self@.complex(tool_result_count, total_chars, lower_unicode(query@)),
            vstd::utf8::is_ascii_chars(query@) ==> r == self@.complex(
                tool_result_count,
                total_chars,
                lower_ascii(query@),
            ),
    {
        let lower = to_lower(query);
        self.assess_lowered(tool_result_count, total_chars, lower.as_str())
    }
}

/// The model of one execution.
#[derive(Debug)]
pub struct AgenticModelRouter {
    current: String,
    fast_model: String,
    deep_model: String,
    escalated: bool,
    heuristic: ComplexityHeuristic,
}

/// What an [`AgenticModelRouter`] says.
pub ghost struct RouterView {
    pub current: Seq<char>,
    pub fast: Seq<char>,
    pub deep: Seq<char>,
    pub escalated: bool,
    pub heuristic: HeuristicView,
}

impl View for AgenticModelRouter {
    type V = RouterView;

    closed spec fn view(&self) -> RouterView {
        RouterView {
            current: self.current@,
            fast: self.fast_model@,
            deep: self.deep_model@,
            escalated: self.escalated,
            heuristic: self.heuristic@,
        }
    }
}

impl RouterView {
    /// A new execution: on the fast model.
    pub open spec fn started(fast: Seq<char>, deep: Seq<char>) -> RouterView {
        RouterView {
            current: fast,
            fast,
            deep,
            escalated: false,
            heuristic: HeuristicView::usual(),
        }
    }

    /// An escalation is still to be had, and leads somewhere.
    pub open spec fn can_escalate(self) -> bool {
        !self.escalated && self.current != self.deep
    }

    /// After an escalation was asked for.
    pub open spec fn after_escalate(self) -> RouterView {
        RouterView {
            current: if self.can_escalate() {
                self.deep
            } else {
                self.current
            },
            escalated: true,
            ..self
        }
    }

    /// After the deep model was forced.
    pub open spec fn after_force(self) -> RouterView {
        RouterView { current: self.deep, escalated: true, ..self }
    }

    /// An execution that has escalated stands on its deep model.
    pub open spec fn settled(self) -> bool {
        self.escalated ==> self.current == self.deep
    }
}

/// The message asks for the deep model; `lower` is the message without leading white space, in
/// lower case.
pub open spec fn asks_for_deep(lower: Seq<char>) -> bool {
    starts_with(lower, "/deep"@)
}

impl AgenticModelRouter {
    #[verifier::type_invariant]
    spec fn is_settled(self) -> bool {
        self@.settled()
    }

    /// A new execution with the models that `CHORD_FAST_MODEL` and `CHORD_DEEP_MODEL` name.
    pub fn new(env: &Table) -> (r: Self)
        ensures
            r@ == RouterView::started(
                text_or(var(env@, "CHORD_FAST_MODEL"@), "qwen2.5:20b"@),
                text_or(var(env@, "CHORD_DEEP_MODEL"@), "qwen2.5:120b"@),
            ),
    {
        let fast = text_var(env, "CHORD_FAST_MODEL", "qwen2.5:20b");
        let deep = text_var(env, "CHORD_DEEP_MODEL", "qwen2.5:120b");
        AgenticModelRouter::with_models(fast.as_str(), deep.as_str())
    }

    /// A new execution with those two models.
    pub fn with_models(fast_model: &str, deep_model: &str) -> (r: Self)
        ensures
            r@ == RouterView::started(fast_model@, deep_model@),
    {
        AgenticModelRouter {
            current: owned(fast_model),
            fast_model: owned(fast_model),
            deep_model: owned(deep_model),
            escalated: false,
            heuristic: ComplexityHeuristic::default(),
        }
    }

    /// Is the context complex enough for the deep model?
    pub fn should_escalate(&self, tool_result_count: usize, total_chars: usize, query: &str) -> (r:
        bool)
        ensures
            r == self@.heuristic.complex(tool_result_count, total_chars, lower_unicode(query@)),
            vstd::utf8::is_ascii_chars(query@) ==> r == self@.heuristic.complex(
                tool_result_count,
                total_chars,
                lower_ascii(query@),
            ),
    {
        self.heuristic.assess_complexity(tool_result_count, total_chars, query)
    }

    /// Escalates to the deep model, once: the deep model the first time, nothing after that, and
    /// nothing where it is in use already.
    pub fn escalate(&mut self) -> (r: Option<String>)
        ensures
            final(self)@ == old(self)@.after_escalate(),
            final(self)@.current == old(self)@.deep,
            opt_view(r) == (if old(self)@.can_escalate() {
                Some(old(self)@.deep)
            } else {
                None
            }),
    {
        proof {
            use_type_invariant(&*self);
        }
        if self.escalated {
            return None;
        }
        if same(self.current.as_str(), self.deep_model.as_str()) {
            self.escalated = true;
            return None;
        }
        self.current = self.deep_model.clone();
        self.escalated = true;
        Some(self.deep_model.clone())
    }

    /// The model in use.
    pub fn current_model(&self) -> (r: &str)
        ensures
            r@ == self@.current,
    {
        self.current.as_str()
    }

    /// The model that a session starts on.
    pub fn fast_model(&self) -> (r: &str)
        ensures
            r@ == self@.fast,
    {
        self.fast_model.as_str()
    }

    /// The model that a session may go up to.
    pub fn deep_model(&self) -> (r: &str)
        ensures
            r@ == self@.deep,
    {
        self.deep_model.as_str()
    }

    /// Goes straight to the deep model; no escalation is left.
    pub fn force_deep(&mut self)
        ensures
            final(self)@ == old(self)@.after_force(),
    {
        self.current = self.deep_model.clone();
        self.escalated = true;
    }

    /// Does a message, without leading white space and in lower case, ask for the deep model?
    pub fn is_deep_request_lowered(lower: &str) -> (r: bool)
        ensures
            r == asks_for_deep(lower@),
    {
        begins_with(lower, "/deep")
    }

    /// Does the message ask for the deep model, by the prefix `/deep` in any case?
    pub fn is_deep_request(message: &str) -> (r: bool)
        ensures
            r == asks_for_deep(lower_unicode(trim_start(message@))),
            vstd::utf8::is_ascii_chars(trim_start(message@)) ==> r == asks_for_deep(
                lower_ascii(trim_start(message@)),
            ),
    {
        let lower = to_lower(trimmed_start(message).as_str());
        AgenticModelRouter::is_deep_request_lowered(lower.as_str())
    }
}

/// There is at most one escalation: whatever came before, a second one in a row is refused, and so
/// is one after the deep model was forced.
pub proof fn law_at_most_one_escalation(s: RouterView)
    ensures
        !s.after_escalate().can_escalate(),
        !s.after_force().can_escalate(),
        s.after_escalate().after_escalate() == s.after_escalate(),
        s.after_force().after_escalate() == s.after_force(),
        s.after_force().after_force() == s.after_force(),
{
}

/// Every execution that has escalated stands on its deep model: a new one has not escalated, and
/// whatever is asked of a settled one leaves it settled; an escalation that is asked for leaves it
/// on the deep model, whether it was the first or not.
pub proof fn law_escalated_execution_is_deep(s: RouterView, fast: Seq<char>, deep: Seq<char>)
    ensures
        RouterView::started(fast, deep).settled(),
        s.settled() ==> s.after_escalate().settled() && s.after_escalate().current == s.deep,
        s.after_force().settled() && s.after_force().current == s.deep,
{
}

/// An execution is never downgraded: once on the deep model, it stays there.
pub proof fn law_never_downgraded(s: RouterView)
    requires
        s.current == s.deep,
    ensures
        s.after_escalate().current == s.deep,
        s.after_force().current == s.deep,
        s.after_escalate().deep == s.deep,
{
}

/// Milliseconds that the classifier may take.
pub const DEFAULT_DAEMON_TIMEOUT_MS: u64 = 500;

/// Where the classifier listens.
pub const DEFAULT_SUPRA_ROUTER_URL: &'static str = "http://127.0.0.1:8878";

/// Whether the classifier's opinion counts.
#[derive(Debug, Clone, Copy, PartialEq, Eq, Structural)]
pub enum RouterMode {
    /// It is recorded; the heuristic decides.
    Shadow,
    /// It decides.
    Active,
}

/// The mode that a setting names: active only where it says so.
pub open spec fn mode_of(value: Option<Seq<char>>) -> RouterMode {
    if value is Some && lower_ascii(value->0) == lower_ascii("active"@) {
        RouterMode::Active
    } else {
        RouterMode::Shadow
    }
}

impl RouterMode {
    /// The mode that `ROUTER_MODE` names.
    pub fn from_env(env: &Table) -> (r: Self)
        ensures
            r == mode_of(var(env@, "ROUTER_MODE"@)),
    {
        match var_of(env, "ROUTER_MODE") {
            Some(v) => if same_ignoring_case(v.as_str(), "active") {
                RouterMode::Active
            } else {
                RouterMode::Shadow
            },
            None => RouterMode::Shadow,
        }
    }
}

impl Default for RouterMode {
    fn default() -> (r: Self)
        ensures
            r == RouterMode::Shadow,
    {
        RouterMode::Shadow
    }
}

/// What a decision was taken on.
#[derive(Debug, Clone, Copy, PartialEq, Eq, Structural)]
pub enum DecisionSource {
    SupraRouter,
    HeuristicFallback,
}

/// The decision before the first turn.
#[derive(Debug)]
pub struct TurnZeroDecision {
    /// What the heuristic alone says.
    pub heuristic_would_escalate: bool,
    /// What the classifier said, if it said something usable.
    pub hybrid_classification: Option<RouterClassification>,
    /// The route that follows from it.
    pub hybrid_route: Option<Route>,
    pub mode: RouterMode,
    /// What was acted on.
    pub source: DecisionSource,
    /// Whether an escalation was asked for.
    pub acted_escalate: bool,
}

/// The view of an optional classification.
pub open spec fn opt_class(c: Option<RouterClassification>) -> Option<ClassView> {
    match c {
        Some(c) => Some(c@),
        None => None,
    }
}

impl TurnZeroDecision {
    /// The classifier had no opinion, or the same as the heuristic.
    pub open spec fn agree(self) -> bool {
        match self.hybrid_route {
            Some(route) => (route == Route::Big) == self.heuristic_would_escalate,
            None => true,
        }
    }

    /// Had the classifier no opinion, or the same as the heuristic?
    pub fn shadow_actual_agree(&self) -> (r: bool)
        ensures
            r == self.agree(),
    {
        match self.hybrid_route {
            Some(route) => (route == Route::Big) == self.heuristic_would_escalate,
            None => true,
        }
    }
}

/// Whether to escalate, and on what that rests.
pub open spec fn acted_on(heuristic: bool, hybrid: Option<Route>, mode: RouterMode) -> (
    bool,
    DecisionSource,
) {
    if hybrid is Some && mode == RouterMode::Active {
        (hybrid->0 == Route::Big, DecisionSource::SupraRouter)
    } else {
        (heuristic, DecisionSource::HeuristicFallback)
    }
}

/// The classifier of prompts: where it listens and how long it may take.
#[derive(Debug)]
pub struct SupraRouterClient {
    pub base_url: String,
    pub timeout_ms: u64,
}

impl SupraRouterClient {
    /// The classifier that `SUPRA_ROUTER_URL` and `SUPRA_ROUTER_TIMEOUT_MS` name.
    pub fn from_env(env: &Table) -> (r: Self)
        ensures
            r.base_url@ == text_or(var(env@, "SUPRA_ROUTER_URL"@), DEFAULT_SUPRA_ROUTER_URL@),
            r.timeout_ms == number_or(
                var(env@, "SUPRA_ROUTER_TIMEOUT_MS"@),
                u64::MAX as nat,
                DEFAULT_DAEMON_TIMEOUT_MS as nat,
            ),
    {
        SupraRouterClient {
            base_url: text_var(env, "SUPRA_ROUTER_URL", DEFAULT_SUPRA_ROUTER_URL),
            timeout_ms: number_var(
                env,
                "SUPRA_ROUTER_TIMEOUT_MS",
                u64::MAX,
                DEFAULT_DAEMON_TIMEOUT_MS,
            ),
        }
    }

    /// The classifier at that address.
    pub fn with_base_url(base_url: &str, timeout_ms: u64) -> (r: Self)
        ensures
            r.base_url@ == base_url@,
            r.timeout_ms == timeout_ms,
    {
        SupraRouterClient { base_url: owned(base_url), timeout_ms }
    }

    /// Where a prompt is sent.
    pub fn classify_url(&self) -> (r: String)
        ensures
            r@ == trim_end_slashes(self.base_url@) + "/classify"@,
    {
        join(without_end_slashes(self.base_url.as_str()).as_str(), "/classify")
    }
}

/// What the classifier's reply says of the query, if it says something usable.
pub open spec fn reply_class(reply: Option<Seq<char>>) -> Option<ClassView> {
    match reply {
        Some(raw) => output_class(raw),
        None => None,
    }
}

/// The route that the classifier's reply gives to the query, if it gives one.
pub open spec fn turn_route(reply: Option<Seq<char>>, query: Seq<char>) -> Option<Route> {
    match reply_class(reply) {
        Some(c) => Some(prompt_route(query, c)),
        None => None,
    }
}

/// The execution after the decision before the first turn.
pub open spec fn after_turn_zero(s: RouterView, acted_escalate: bool) -> RouterView {
    if acted_escalate {
        s.after_escalate()
    } else {
        s
    }
}

impl AgenticModelRouter {
    /// Acts on the heuristic and the classifier: in active mode with a classification at hand on
    /// the classifier, else on the heuristic.
    pub fn act_on(
        &mut self,
        heuristic_would_escalate: bool,
        hybrid: Option<(Route, RouterClassification)>,
        mode: RouterMode,
    ) -> (r: TurnZeroDecision)
        ensures
            r.heuristic_would_escalate == heuristic_would_escalate,
            r.mode == mode,
            r.hybrid_route == (match hybrid {
                Some((route, _)) => Some(route),
                None => None,
            }),
            opt_class(r.hybrid_classification) == (match hybrid {
                Some((_, c)) => Some(c@),
                None => None,
            }),
            (r.acted_escalate, r.source) == acted_on(
                heuristic_would_escalate,
                r.hybrid_route,
                mode,
            ),
            final(self)@ == after_turn_zero(old(self)@, r.acted_escalate),
            final(self)@.current == (if r.acted_escalate {
                old(self)@.deep
            } else {
                old(self)@.current
            }),
    {
        let (hybrid_route, hybrid_classification) = match hybrid {
            Some((route, c)) => (Some(route), Some(c)),
            None => (None, None),
        };
        let (acted_escalate, source) = match hybrid_route {
            Some(route) => if mode == RouterMode::Active {
                (route == Route::Big, DecisionSource::SupraRouter)
            } else {
                (heuristic_would_escalate, DecisionSource::HeuristicFallback)
            },
            None => (heuristic_would_escalate, DecisionSource::HeuristicFallback),
        };
        if acted_escalate {
            self.escalate();
        }
        TurnZeroDecision {
            heuristic_would_escalate,
            hybrid_classification,
            hybrid_route,
            mode,
            source,
            acted_escalate,
        }
    }

    /// The decision before the first turn. `reply` is what the classifier answered, if it answered.
    pub fn decide_turn_zero(&mut self, reply: Option<String>, mode: RouterMode, query: &str) -> (r:
        TurnZeroDecision)
        ensures
            r.heuristic_would_escalate == old(self)@.heuristic.complex(
                0,
                0,
                lower_unicode(query@),
            ),
            opt_class(r.hybrid_classification) == reply_class(opt_view(reply)),
            r.hybrid_route == turn_route(opt_view(reply), query@),
            r.mode == mode,
            (r.acted_escalate, r.source) == acted_on(
                r.heuristic_would_escalate,
                r.hybrid_route,
                mode,
            ),
            final(self)@ == after_turn_zero(old(self)@, r.acted_escalate),
            final(self)@.current == (if r.acted_escalate {
                old(self)@.deep
            } else {
                old(self)@.current
            }),
    {
        let heuristic_would_escalate = self.heuristic.assess_complexity(0, 0, query);
        let hybrid = match reply {
            Some(raw) => match parse_classification(raw.as_str()) {
                Ok(c) => Some((route_for(query, &c), c)),
                Err(_) => None,
            },
            None => None,
        };
        self.act_on(heuristic_would_escalate, hybrid, mode)
    }
}

/// In shadow mode the classifier changes nothing: what is done is what the heuristic says.
pub proof fn law_shadow_acts_on_the_heuristic(heuristic: bool, hybrid: Option<Route>)
    ensures
        acted_on(heuristic, hybrid, RouterMode::Shadow) == (
            heuristic,
            DecisionSource::HeuristicFallback,
        ),
{
}

/// Without a classification the heuristic decides, in either mode.
pub proof fn law_no_classification_falls_back(heuristic: bool, mode: RouterMode)
    ensures
        acted_on(heuristic, None, mode) == (heuristic, DecisionSource::HeuristicFallback),
{
}

/// Nothing but the word itself, in whatever case, makes the mode active.
pub proof fn law_mode_is_shadow_by_default(value: Option<Seq<char>>)
    ensures
        mode_of(value) == RouterMode::Active <==> value is Some && lower_ascii(value->0)
            == "active"@,
        mode_of(value) != RouterMode::Active ==> mode_of(value) == RouterMode::Shadow,
        value is None ==> mode_of(value) == RouterMode::Shadow,
{
    reveal_strlit("active");
    assert(lower_ascii("active"@) =~= "active"@);
}

/// What is acted on before the first turn decides the model: an escalation leaves the execution on
/// the deep model, and without one it stays where it was. In active mode a usable classification
/// decides by the route of the prompt; else the heuristic does.
pub proof fn law_turn_zero_sets_the_model(
    s: RouterView,
    reply: Option<Seq<char>>,
    mode: RouterMode,
    query: Seq<char>,
)
    requires
        s.settled(),
    ensures
        ({
            let heuristic = s.heuristic.complex(0, 0, lower_unicode(query));
            let class = reply_class(reply);
            let (escalate, source) = acted_on(heuristic, turn_route(reply, query), mode);
            &&& class is Some && mode == RouterMode::Active ==> source
                == DecisionSource::SupraRouter && escalate == (prompt_route(query, class->0)
                == Route::Big)
            &&& !(class is Some && mode == RouterMode::Active) ==> source
                == DecisionSource::HeuristicFallback && escalate == heuristic
            &&& after_turn_zero(s, escalate).current == (if escalate {
                s.deep
            } else {
                s.current
            })
            &&& after_turn_zero(s, escalate).settled()
        }),
{
}

/// Where nothing else is said a context is complex with more than two tool results, with more than
/// five thousand characters, or where the query asks for reasoning by one of six phrases.
pub proof fn law_usual_heuristic(tool_results: usize, chars: usize, lower: Seq<char>)
    ensures
        HeuristicView::usual().complex(tool_results, chars, lower) <==> tool_results > 2 || chars
            > 5000 || contains(lower, "analyze"@) || contains(lower, "compare"@) || contains(
            lower,
            "synthesize"@,
        ) || contains(lower, "evaluate"@) || contains(lower, "explain why"@) || contains(
            lower,
            "reason about"@,
        ),
{
    let words = HeuristicView::usual().words;
    assert(words.len() == 6);
    assert(words[0] == "analyze"@ && words[1] == "compare"@ && words[2] == "synthesize"@
        && words[3] == "evaluate"@ && words[4] == "explain why"@ && words[5] == "reason about"@);
    if HeuristicView::usual().asks_for_reasoning(lower) {
        let i = choose|i: int| 0 <= i < words.len() && contains(lower, #[trigger] words[i]);
        assert(0 <= i < 6);
    }
}

/// Each of the three signs is enough for a complex context, beyond its own threshold, and without
/// any of them it is not complex.
pub proof fn law_signs_of_a_complex_context(
    h: HeuristicView,
    tool_results: usize,
    chars: usize,
    lower: Seq<char>,
    i: int,
)
    ensures
        tool_results > h.tool_results ==> h.complex(tool_results, chars, lower),
        chars > h.chars ==> h.complex(tool_results, chars, lower),
        0 <= i < h.words.len() && contains(lower, h.words[i]) ==> h.complex(
            tool_results,
            chars,
            lower,
        ),
        tool_results <= h.tool_results && chars <= h.chars && (forall|k: int|
            0 <= k < h.words.len() ==> !contains(lower, #[trigger] h.words[k])) ==> !h.complex(
            tool_results,
            chars,
            lower,
        ),
{
}

/// An execution starts on its fast model, may go up to its deep one, and judges by the usual
/// heuristic; its models never change.
pub proof fn law_execution_keeps_its_models(s: RouterView, fast: Seq<char>, deep: Seq<char>)
    ensures
        ({
            let new = RouterView::started(fast, deep);
            &&& new.current == fast
            &&& new.fast == fast
            &&& new.deep == deep
            &&& !new.escalated
            &&& new.can_escalate() <==> fast != deep
            &&& new.heuristic == HeuristicView::usual()
        }),
        s.after_escalate().fast == s.fast,
        s.after_escalate().deep == s.deep,
        s.after_escalate().heuristic == s.heuristic,
        s.after_escalate().escalated,
        s.after_force().fast == s.fast,
        s.after_force().deep == s.deep,
        s.after_force().heuristic == s.heuristic,
        s.after_force().escalated,
        s.after_force().current == s.deep,
{
}

/// An escalation is to be had exactly once, and only where it leads to another model.
pub proof fn law_escalation_leads_to_the_deep_model(s: RouterView)
    ensures
        s.can_escalate() <==> !s.escalated && s.current != s.deep,
        s.can_escalate() ==> s.after_escalate().current == s.deep,
        !s.can_escalate() ==> s.after_escalate().current == s.current,
        s.settled() <==> !s.escalated || s.current == s.deep,
{
}

/// A message asks for the deep model where it begins with the command, whatever follows.
pub proof fn law_command_asks_for_the_deep_model(rest: Seq<char>, lower: Seq<char>)
    ensures
        asks_for_deep("/deep"@ + rest),
        asks_for_deep(lower) ==> exists|tail: Seq<char>| lower == #[trigger] ("/deep"@ + tail),
{
    crate::text::law_words_in_a_text(Seq::empty(), "/deep"@, rest, lower);
    if asks_for_deep(lower) {
        assert(lower == "/deep"@ + lower.skip("/deep"@.len() as int));
    }
}

/// In active mode a route decides: the big one escalates, the small one does not, whatever the
/// heuristic says.
pub proof fn law_active_route_decides(heuristic: bool, route: Route)
    ensures
        acted_on(heuristic, Some(route), RouterMode::Active) == (
            route == Route::Big,
            DecisionSource::SupraRouter,
        ),
        acted_on(heuristic, Some(route), RouterMode::Shadow) == (
            heuristic,
            DecisionSource::HeuristicFallback,
        ),
{
}

/// The classifier and the heuristic agree where there is no route, or where it is the big one
/// exactly as the heuristic would escalate.
pub proof fn law_agreement(d: TurnZeroDecision)
    ensures
        d.hybrid_route is None ==> d.agree(),
        d.hybrid_route == Some(Route::Big) ==> d.agree() == d.heuristic_would_escalate,
        d.hybrid_route == Some(Route::Small) ==> d.agree() == !d.heuristic_would_escalate,
{
}

/// A reply that cannot be used gives no route, and none is given without a reply; a usable one gives
/// the route of its classification for the query.
pub proof fn law_reply_gives_the_route(raw: Seq<char>, query: Seq<char>)
    ensures
        reply_class(None) is None,
        turn_route(None, query) is None,
        reply_class(Some(raw)) == output_class(raw),
        output_class(raw) is None ==> turn_route(Some(raw), query) is None,
        output_class(raw) is Some ==> turn_route(Some(raw), query) == Some(
            prompt_route(query, output_class(raw)->0),
        ),
{
}

/// Where nothing is set the classifier listens on the host itself and has half a second.
pub proof fn law_unset_classifier(env: Map<Seq<char>, Seq<char>>)
    requires
        !env.contains_key("SUPRA_ROUTER_URL"@),
        !env.contains_key("SUPRA_ROUTER_TIMEOUT_MS"@),
    ensures
        text_or(var(env, "SUPRA_ROUTER_URL"@), DEFAULT_SUPRA_ROUTER_URL@)
            == "http://127.0.0.1:8878"@,
        number_or(
            var(env, "SUPRA_ROUTER_TIMEOUT_MS"@),
            u64::MAX as nat,
            DEFAULT_DAEMON_TIMEOUT_MS as nat,
        ) == 500,
{
}

} // verus!
