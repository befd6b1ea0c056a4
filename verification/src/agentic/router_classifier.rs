//! What the routing classifier said, and the route that follows from it.
//!
//! Only three fields of the classifier's output count: the complexity and the two flags. The route
//! is computed from them here; a route in the output is never read. What lacks one of the three is
//! unavailable, never guessed.
use vstd::prelude::*;

use crate::decimal::{number, parse_up_to};
use crate::text::{
    begins_with, blank, contains, filled, filled_of, has, has_char, is_blank, lower_unicode,
    opt_view, same, starts_with, to_lower, trim, trimmed,
};

verus! {

/// The text of the first group of a regular expression's first match in a text, if any.
pub uninterp spec fn first_group(pattern: Seq<char>, text: Seq<char>) -> Option<Seq<char>>;

/// `regex::Regex::new`, `captures` and `get`: the first group of the leftmost match of `pattern`
/// in `text`. There is none where the pattern is no regular expression, nothing matches, or the
/// group took no part. A function of the two texts alone.
#[verifier::external_body]
fn regex_first_group(pattern: &str, text: &str) -> (r: Option<String>)
    ensures
        opt_view(r) == first_group(pattern@, text@),
{
    regex::Regex::new(pattern).ok()?.captures(text)?.get(1).map(|m| m.as_str().to_string())
}

/// A regular expression matches somewhere in a text.
pub uninterp spec fn regex_matches(pattern: Seq<char>, text: Seq<char>) -> bool;

/// `regex::Regex::new` and `is_match`: whether `pattern` matches somewhere in `text`. What is no
/// regular expression matches nothing. A function of the two texts alone.
#[verifier::external_body]
fn regex_is_match(pattern: &str, text: &str) -> (r: bool)
    ensures
        r == regex_matches(pattern@, text@),
{
    regex::Regex::new(pattern).is_ok_and(|re| re.is_match(text))
}

/// The complexity behind its label.
pub const COMPLEXITY_LABELED: &'static str = r"(?i)complexity\D{0,4}(\d{1,2})";

/// A complexity out of five, wherever it stands.
pub const COMPLEXITY_BARE: &'static str = r"\b([1-5])\s*/\s*5\b";

/// The mathematics flag.
pub const MATH: &'static str = r"(?i)\bmath\D{0,4}(true|false|yes|no)\b";

/// The code flag.
pub const CODE: &'static str = r"(?i)\bcode\D{0,4}(true|false|yes|no)\b";

/// The domain.
pub const DOMAIN: &'static str = r"(?i)domain\s*:?\s*\|?\s*([A-Za-z0-9_\-. ]{1,40})";

/// One binary operation on two numbers, and nothing else.
pub const TRIVIAL_ARITHMETIC: &'static str =
    r"^\s*-?\d+(\.\d+)?\s*[+\-*/]\s*-?\d+(\.\d+)?\s*$";

/// From this complexity on, the big model.
pub const BIG_MODEL_COMPLEXITY_THRESHOLD: u8 = 3;

/// The least complexity.
pub const MIN_COMPLEXITY: u8 = 1;

/// The greatest complexity.
pub const MAX_COMPLEXITY: u8 = 5;

/// The longest code, in bytes, that can be trivial.
pub const TRIVIAL_CODE_MAX_LEN: usize = 80;

/// Which model.
#[derive(Debug, Clone, Copy, PartialEq, Eq, Structural)]
pub enum Route {
    Small,
    Big,
}

/// What the classifier said of a prompt.
#[derive(Debug, PartialEq, Eq)]
pub struct RouterClassification {
    /// From 1 to 5.
    pub complexity: u8,
    pub math: bool,
    pub code: bool,
    /// For the log; nothing is decided by it.
    pub raw_domain: Option<String>,
}

/// What a [`RouterClassification`] says.
pub ghost struct ClassView {
    pub complexity: u8,
    pub math: bool,
    pub code: bool,
    pub raw_domain: Option<Seq<char>>,
}

impl View for RouterClassification {
    type V = ClassView;

    open spec fn view(&self) -> ClassView {
        ClassView {
            complexity: self.complexity,
            math: self.math,
            code: self.code,
            raw_domain: opt_view(self.raw_domain),
        }
    }
}

/// Why there is no classification.
#[derive(Debug, Clone, Copy, PartialEq, Eq, Structural)]
pub enum ClassificationError {
    Unavailable,
}

/// The view of a parsing.
pub open spec fn class_view(r: Result<RouterClassification, ClassificationError>) -> Option<
    ClassView,
> {
    match r {
        Ok(c) => Some(c@),
        Err(_) => None,
    }
}

/// What was found in the classifier's output, field by field.
#[derive(Debug)]
pub struct RouterFields {
    pub labeled_complexity: Option<String>,
    pub bare_complexity: Option<String>,
    pub math: Option<String>,
    pub code: Option<String>,
    pub domain: Option<String>,
}

/// The word means yes.
pub open spec fn says_yes(word: Seq<char>) -> bool {
    lower_unicode(word) == "true"@ || lower_unicode(word) == "yes"@
}

fn parse_bool_token(tok: &str) -> (r: bool)
    ensures
        r == says_yes(tok@),
{
    let word = to_lower(tok);
    same(word.as_str(), "true") || same(word.as_str(), "yes")
}

/// The complexity that was written: behind its label, else out of five. Up to 255.
pub open spec fn written_complexity(
    labeled: Option<Seq<char>>,
    bare: Option<Seq<char>>,
) -> Option<u8> {
    if labeled is Some && number(labeled->0, u32::MAX as nat) is Some {
        let n = number(labeled->0, u32::MAX as nat)->0;
        Some(
            if n > u8::MAX {
                u8::MAX
            } else {
                n as u8
            },
        )
    } else if bare is Some && number(bare->0, u8::MAX as nat) is Some {
        Some(number(bare->0, u8::MAX as nat)->0 as u8)
    } else {
        None
    }
}

fn extract_complexity(labeled: &Option<String>, bare: &Option<String>) -> (r: Option<u8>)
    ensures
        r == written_complexity(opt_view(*labeled), opt_view(*bare)),
{
    if let Some(text) = labeled {
        if let Some(n) = parse_up_to(text.as_str(), u32::MAX as u64) {
            if n > u8::MAX as u64 {
                return Some(u8::MAX);
            }
            return Some(n as u8);
        }
    }
    match bare {
        Some(text) => match parse_up_to(text.as_str(), u8::MAX as u64) {
            Some(n) => Some(n as u8),
            None => None,
        },
        None => None,
    }
}

/// `n` brought into the range of complexities.
pub open spec fn clamped(n: u8) -> u8 {
    if n < MIN_COMPLEXITY {
        MIN_COMPLEXITY
    } else if n > MAX_COMPLEXITY {
        MAX_COMPLEXITY
    } else {
        n
    }
}

/// The classification in the fields that were found. All three that count have to be there.
pub open spec fn fields_class(f: RouterFields) -> Option<ClassView> {
    let complexity = written_complexity(
        opt_view(f.labeled_complexity),
        opt_view(f.bare_complexity),
    );
    if complexity is Some && f.math is Some && f.code is Some {
        Some(
            ClassView {
                complexity: clamped(complexity->0),
                math: says_yes(f.math->0@),
                code: says_yes(f.code->0@),
                raw_domain: filled(opt_view(f.domain)),
            },
        )
    } else {
        None
    }
}

/// The classification in the fields that were found.
pub fn classification_of(f: RouterFields) -> (r: Result<RouterClassification, ClassificationError>)
    ensures
        class_view(r) == fields_class(f),
{
    let complexity: u8 = match extract_complexity(&f.labeled_complexity, &f.bare_complexity) {
        Some(n) => n,
        None => {
            return Err(ClassificationError::Unavailable);
        },
    };
    let math = match &f.math {
        Some(tok) => parse_bool_token(tok.as_str()),
        None => {
            return Err(ClassificationError::Unavailable);
        },
    };
    let code = match &f.code {
        Some(tok) => parse_bool_token(tok.as_str()),
        None => {
            return Err(ClassificationError::Unavailable);
        },
    };
    let complexity: u8 = if complexity < MIN_COMPLEXITY {
        MIN_COMPLEXITY
    } else if complexity > MAX_COMPLEXITY {
        MAX_COMPLEXITY
    } else {
        complexity
    };
    Ok(RouterClassification { complexity, math, code, raw_domain: filled_of(f.domain) })
}

/// The classification in the classifier's output.
pub open spec fn output_class(raw: Seq<char>) -> Option<ClassView> {
    let t = trim(raw);
    let complexity = written_complexity(
        first_group(COMPLEXITY_LABELED@, t),
        first_group(COMPLEXITY_BARE@, t),
    );
    let math = first_group(MATH@, t);
    let code = first_group(CODE@, t);
    if t.len() > 0 && complexity is Some && math is Some && code is Some {
        Some(
            ClassView {
                complexity: clamped(complexity->0),
                math: says_yes(math->0),
                code: says_yes(code->0),
                raw_domain: filled(first_group(DOMAIN@, t)),
            },
        )
    } else {
        None
    }
}

/// The classification in the classifier's output.
pub fn parse_classification(raw: &str) -> (r: Result<RouterClassification, ClassificationError>)
    ensures
        class_view(r) == output_class(raw@),
{
    let text = trimmed(raw);
    if text.as_str().is_empty() {
        return Err(ClassificationError::Unavailable);
    }
    let f = RouterFields {
        labeled_complexity: regex_first_group(COMPLEXITY_LABELED, text.as_str()),
        bare_complexity: regex_first_group(COMPLEXITY_BARE, text.as_str()),
        math: regex_first_group(MATH, text.as_str()),
        code: regex_first_group(CODE, text.as_str()),
        domain: regex_first_group(DOMAIN, text.as_str()),
    };
    classification_of(f)
}

/// The words of control flow that no trivial code has.
pub open spec fn has_control_flow(lower: Seq<char>) -> bool {
    ||| contains(lower, "if "@)
    ||| contains(lower, "elif "@)
    ||| contains(lower, "else"@)
    ||| contains(lower, "for "@)
    ||| contains(lower, "while "@)
    ||| contains(lower, "class "@)
    ||| contains(lower, "try"@)
    ||| contains(lower, "except"@)
    ||| contains(lower, "match "@)
    ||| contains(lower, "loop"@)
    ||| contains(lower, "switch"@)
}

/// The marks of a one-line function or expression.
pub open spec fn has_code_mark(lower: Seq<char>) -> bool {
    ||| starts_with(lower, "def "@)
    ||| contains(lower, "lambda"@)
    ||| contains(lower, "=>"@)
    ||| contains(lower, "return "@)
    ||| contains(lower, "function "@)
}

/// A trimmed text, with its lower-case form, is one short line of code without control flow.
pub open spec fn one_line_code(text: Seq<char>, lower: Seq<char>) -> bool {
    &&& text.len() > 0
    &&& !text.contains('\n')
    &&& vstd::utf8::encode_utf8(text).len() <= TRIVIAL_CODE_MAX_LEN
    &&& !has_control_flow(lower)
    &&& has_code_mark(lower)
}

/// Is a trimmed text, with its lower-case form, one short line of code without control flow?
pub fn is_one_line_code(text: &str, lower: &str) -> (r: bool)
    ensures
        r == one_line_code(text@, lower@),
{
    if text.is_empty() || has_char(text, '\n') {
        return false;
    }
    if text.as_bytes().len() > TRIVIAL_CODE_MAX_LEN {
        return false;
    }
    if has(lower, "if ") || has(lower, "elif ") || has(lower, "else") || has(lower, "for ") || has(
        lower,
        "while ",
    ) || has(lower, "class ") || has(lower, "try") || has(lower, "except") || has(lower, "match ")
        || has(lower, "loop") || has(lower, "switch") {
        return false;
    }
    begins_with(lower, "def ") || has(lower, "lambda") || has(lower, "=>") || has(lower, "return ")
        || has(lower, "function ")
}

/// The prompt is trivially short code.
pub open spec fn trivial_code(prompt: Seq<char>) -> bool {
    one_line_code(trim(prompt), lower_unicode(trim(prompt)))
}

/// Is the prompt trivially short code?
pub fn is_trivial_code(prompt: &str) -> (r: bool)
    ensures
        r == trivial_code(prompt@),
{
    let text = trimmed(prompt);
    let lower = to_lower(text.as_str());
    is_one_line_code(text.as_str(), lower.as_str())
}

/// The prompt is one arithmetic operation.
pub open spec fn trivial_arithmetic(prompt: Seq<char>) -> bool {
    regex_matches(TRIVIAL_ARITHMETIC@, trim(prompt))
}

/// Is the prompt one arithmetic operation and nothing else?
pub fn is_trivial_arithmetic(prompt: &str) -> (r: bool)
    ensures
        r == trivial_arithmetic(prompt@),
{
    regex_is_match(TRIVIAL_ARITHMETIC, trimmed(prompt).as_str())
}

/// The route of a classification, for a prompt that is or is not trivial arithmetic or code.
pub open spec fn class_route(c: ClassView, arithmetic: bool, one_liner: bool) -> Route {
    let excused = (c.math && arithmetic) || (c.code && one_liner);
    if c.complexity >= BIG_MODEL_COMPLEXITY_THRESHOLD || ((c.math || c.code) && !excused) {
        Route::Big
    } else {
        Route::Small
    }
}

/// The route of a classification, for a prompt that is or is not trivial arithmetic or code.
pub fn route_of(c: &RouterClassification, arithmetic: bool, one_liner: bool) -> (r: Route)
    ensures
        r == class_route(c@, arithmetic, one_liner),
{
    if c.complexity >= BIG_MODEL_COMPLEXITY_THRESHOLD {
        return Route::Big;
    }
    let excused = (c.math && arithmetic) || (c.code && one_liner);
    if (c.math || c.code) && !excused {
        return Route::Big;
    }
    Route::Small
}

/// The route of a classified prompt.
pub open spec fn prompt_route(prompt: Seq<char>, c: ClassView) -> Route {
    class_route(c, trivial_arithmetic(prompt), trivial_code(prompt))
}

/// The route of a classified prompt.
pub fn route_for(prompt: &str, classification: &RouterClassification) -> (r: Route)
    ensures
        r == prompt_route(prompt@, classification@),
{
    let arithmetic = classification.math && is_trivial_arithmetic(prompt);
    let one_liner = classification.code && is_trivial_code(prompt);
    route_of(classification, arithmetic, one_liner)
}

/// A classification always lies in the range of complexities, whatever was written.
pub proof fn law_complexity_is_clamped(raw: Seq<char>)
    ensures
        output_class(raw) matches Some(c) ==> MIN_COMPLEXITY <= c.complexity <= MAX_COMPLEXITY,
{
}

/// A complexity of three or more goes to the big model, however trivial the prompt looks; with no
/// signal at all it is the small one; and a flag can only be excused by the prompt.
pub proof fn law_route_follows_the_signals(c: ClassView, arithmetic: bool, one_liner: bool)
    ensures
        c.complexity >= 3 ==> class_route(c, arithmetic, one_liner) == Route::Big,
        c.complexity < 3 && !c.math && !c.code ==> class_route(c, arithmetic, one_liner)
            == Route::Small,
        (c.math || c.code) && !arithmetic && !one_liner ==> class_route(c, arithmetic, one_liner)
            == Route::Big,
{
}

/// The domain decides nothing.
pub proof fn law_domain_decides_nothing(
    c: ClassView,
    domain: Option<Seq<char>>,
    arithmetic: bool,
    one_liner: bool,
)
    ensures
        class_route(ClassView { raw_domain: domain, ..c }, arithmetic, one_liner) == class_route(
            c,
            arithmetic,
            one_liner,
        ),
{
}

/// An output that is blank is unavailable.
pub proof fn law_blank_output_is_unavailable(raw: Seq<char>)
    requires
        is_blank(raw),
    ensures
        output_class(raw) is None,
{
}

/// Whatever holds a word of control flow, in lower case, is never trivial code: a condition, a loop,
/// a class, a handler, a match.
pub proof fn law_control_flow_is_never_trivial(text: Seq<char>, lower: Seq<char>, word: Seq<char>)
    requires
        seq![
            "if "@,
            "elif "@,
            "else"@,
            "for "@,
            "while "@,
            "class "@,
            "try"@,
            "except"@,
            "match "@,
            "loop"@,
            "switch"@,
        ].contains(word),
        contains(lower, word),
    ensures
        !one_line_code(text, lower),
{
    let words = seq![
        "if "@,
        "elif "@,
        "else"@,
        "for "@,
        "while "@,
        "class "@,
        "try"@,
        "except"@,
        "match "@,
        "loop"@,
        "switch"@,
    ];
    assert(words.len() == 11);
    assert(words[0] == "if "@ && words[1] == "elif "@ && words[2] == "else"@ && words[3] == "for "@ && words[4] == "while "@ && words[5] == "class "@ && words[6] == "try"@ && words[7] == "except"@ && words[8] == "match "@ && words[9] == "loop"@ && words[10] == "switch"@);
    let i = choose|i: int| 0 <= i < words.len() && words[i] == word;
    assert(0 <= i < 11);
}

/// What has more than one line, more than eighty bytes, nothing at all or no mark of a function or
/// expression is not trivial code either.
pub proof fn law_trivial_code_is_one_short_marked_line(text: Seq<char>, lower: Seq<char>)
    requires
        one_line_code(text, lower),
    ensures
        text.len() > 0,
        !text.contains('\n'),
        vstd::utf8::encode_utf8(text).len() <= 80,
        starts_with(lower, "def "@) || contains(lower, "lambda"@) || contains(lower, "=>"@)
            || contains(lower, "return "@) || contains(lower, "function "@),
{
}

/// One short line with a mark of a function or expression and without any control flow is trivial
/// code.
pub proof fn law_short_marked_line_is_trivial(text: Seq<char>, lower: Seq<char>, mark: Seq<char>)
    requires
        text.len() > 0,
        !text.contains('\n'),
        vstd::utf8::encode_utf8(text).len() <= 80,
        !contains(lower, "if "@),
        !contains(lower, "elif "@),
        !contains(lower, "else"@),
        !contains(lower, "for "@),
        !contains(lower, "while "@),
        !contains(lower, "class "@),
        !contains(lower, "try"@),
        !contains(lower, "except"@),
        !contains(lower, "match "@),
        !contains(lower, "loop"@),
        !contains(lower, "switch"@),
        starts_with(lower, "def "@) || (seq!["lambda"@, "=>"@, "return "@, "function "@].contains(mark) && contains(lower, mark)),
    ensures
        one_line_code(text, lower),
{
    if !starts_with(lower, "def "@) {
        let marks = seq!["lambda"@, "=>"@, "return "@, "function "@];
        assert(marks[0] == "lambda"@ && marks[1] == "=>"@ && marks[2] == "return "@ && marks[3] == "function "@);
        let i = choose|i: int| 0 <= i < marks.len() && marks[i] == mark;
        assert(0 <= i < 4);
    }
}

/// A prompt that is flagged as code, is no trivial arithmetic and holds a word of control flow is
/// routed to the big model, however short it is.
pub proof fn law_code_with_control_flow_goes_to_the_big_model(
    prompt: Seq<char>,
    c: ClassView,
    word: Seq<char>,
)
    requires
        c.code,
        !regex_matches(r"^\s*-?\d+(\.\d+)?\s*[+\-*/]\s*-?\d+(\.\d+)?\s*$"@, trim(prompt)),
        seq![
            "if "@,
            "elif "@,
            "else"@,
            "for "@,
            "while "@,
            "class "@,
            "try"@,
            "except"@,
            "match "@,
            "loop"@,
            "switch"@,
        ].contains(word),
        contains(lower_unicode(trim(prompt)), word),
    ensures
        prompt_route(prompt, c) == Route::Big,
{
    law_control_flow_is_never_trivial(trim(prompt), lower_unicode(trim(prompt)), word);
}

/// From a complexity of three on the route is the big model. Below it a flag leads there, unless the
/// prompt excuses it: one arithmetic operation excuses mathematics, one trivial line excuses code,
/// and neither excuses the other.
pub proof fn law_flags_are_excused_by_their_own(c: ClassView, arithmetic: bool, one_liner: bool)
    ensures
        c.complexity >= 3 ==> class_route(c, arithmetic, one_liner) == Route::Big,
        c.complexity < 3 && c.math && !c.code ==> (class_route(c, arithmetic, one_liner)
            == Route::Small <==> arithmetic),
        c.complexity < 3 && c.code && !c.math ==> (class_route(c, arithmetic, one_liner)
            == Route::Small <==> one_liner),
        c.complexity < 3 && c.code && c.math ==> (class_route(c, arithmetic, one_liner)
            == Route::Small <==> arithmetic || one_liner),
        c.complexity < 3 && !c.code && !c.math ==> class_route(c, arithmetic, one_liner)
            == Route::Small,
{
}

/// The route of a prompt looks at the trimmed prompt: whether it is one arithmetic operation, and
/// whether it is trivial code in lower case.
pub proof fn law_route_looks_at_the_trimmed_prompt(prompt: Seq<char>, c: ClassView)
    ensures
        prompt_route(prompt, c) == class_route(
            c,
            regex_matches(
                r"^\s*-?\d+(\.\d+)?\s*[+\-*/]\s*-?\d+(\.\d+)?\s*$"@,
                trim(prompt),
            ),
            one_line_code(trim(prompt), lower_unicode(trim(prompt))),
        ),
        prompt_route(trim(prompt), c) == prompt_route(prompt, c),
{
    crate::text::law_trim_is_idempotent(prompt);
}

/// A word means yes where it is `true` or `yes` in whatever case, and else no.
pub proof fn law_yes_and_no(word: Seq<char>)
    ensures
        lower_unicode(word) == "true"@ ==> says_yes(word),
        lower_unicode(word) == "yes"@ ==> says_yes(word),
        lower_unicode(word) == "false"@ ==> !says_yes(word),
        lower_unicode(word) == "no"@ ==> !says_yes(word),
        says_yes(word) ==> lower_unicode(word) == "true"@ || lower_unicode(word) == "yes"@,
{
    reveal_strlit("true");
    reveal_strlit("yes");
    reveal_strlit("false");
    reveal_strlit("no");
    assert("true"@.len() == 4 && "yes"@.len() == 3 && "false"@.len() == 5 && "no"@.len() == 2);
}

/// A complexity between one and five is kept; what lies outside is brought to the nearer end.
pub proof fn law_complexity_is_kept_in_range(n: u8)
    ensures
        1 <= n <= 5 ==> clamped(n) == n,
        n < 1 ==> clamped(n) == 1,
        n > 5 ==> clamped(n) == 5,
{
}

/// The labelled complexity counts where it can be read; else the one out of five does; else there is
/// none.
pub proof fn law_labelled_complexity_counts_first(
    labeled: Option<Seq<char>>,
    bare: Option<Seq<char>>,
)
    ensures
        ({
            let read = if labeled is Some {
                number(labeled->0, u32::MAX as nat)
            } else {
                None
            };
            &&& read is Some && read->0 <= 255 ==> written_complexity(labeled, bare) == Some(
                read->0 as u8,
            )
            &&& read is Some && read->0 > 255 ==> written_complexity(labeled, bare) == Some(255u8)
            &&& read is None && bare is Some && number(bare->0, 255) is Some
                ==> written_complexity(labeled, bare) == Some(number(bare->0, 255)->0 as u8)
            &&& read is None && (bare is None || number(bare->0, 255) is None)
                ==> written_complexity(labeled, bare) is None
        }),
{
}

/// An output is read by its trimmed text, each field by its own pattern: the complexity and both
/// flags have to be there, and the domain may be.
pub proof fn law_output_is_read_field_by_field(raw: Seq<char>)
    ensures
        ({
            let t = trim(raw);
            let complexity = written_complexity(
                first_group(r"(?i)complexity\D{0,4}(\d{1,2})"@, t),
                first_group(r"\b([1-5])\s*/\s*5\b"@, t),
            );
            let math = first_group(r"(?i)\bmath\D{0,4}(true|false|yes|no)\b"@, t);
            let code = first_group(r"(?i)\bcode\D{0,4}(true|false|yes|no)\b"@, t);
            let domain = first_group(r"(?i)domain\s*:?\s*\|?\s*([A-Za-z0-9_\-. ]{1,40})"@, t);
            &&& output_class(raw) is Some <==> t.len() > 0 && complexity is Some && math is Some
                && code is Some
            &&& output_class(raw) matches Some(c) ==> {
                &&& c.complexity == clamped(complexity->0)
                &&& c.math == says_yes(math->0)
                &&& c.code == says_yes(code->0)
                &&& c.raw_domain == filled(domain)
            }
        }),
{
}

/// What was found field by field is read as the output is: nothing is guessed, and no field stands
/// for another.
pub proof fn law_found_fields_are_not_mixed_up(f: RouterFields)
    ensures
        ({
            let complexity = written_complexity(
                opt_view(f.labeled_complexity),
                opt_view(f.bare_complexity),
            );
            &&& fields_class(f) is Some <==> complexity is Some && f.math is Some && f.code is Some
            &&& fields_class(f) matches Some(c) ==> {
                &&& c.complexity == clamped(complexity->0)
                &&& c.math == says_yes(f.math->0@)
                &&& c.code == says_yes(f.code->0@)
                &&& c.raw_domain == filled(opt_view(f.domain))
            }
        }),
{
}

} // verus!
