use chord_proxy::agentic::router_classifier::{
    classification_of, is_one_line_code, is_trivial_arithmetic, is_trivial_code,
    parse_classification, route_for, route_of, ClassificationError, Route, RouterClassification,
    RouterFields, CODE, COMPLEXITY_BARE, COMPLEXITY_LABELED, DOMAIN, MATH, MAX_COMPLEXITY,
    MIN_COMPLEXITY, TRIVIAL_ARITHMETIC,
};

#[test]
fn test_clean_labeled_output_parses() {
    let raw = "Domain: general | Complexity: 4 | Math: False | Code: False | Route: big | Justification: multi-step reasoning";
    let c = parse_classification(raw).unwrap();
    assert_eq!(c.complexity, 4);
    assert!(!c.math);
    assert!(!c.code);
    assert_eq!(c.raw_domain.as_deref(), Some("general"));
}

#[test]
fn test_route_never_reads_raw_route_field() {
    // Raw Route says "small" but Complexity=5 must still force Big — the
    // parser must not be influenced by the raw Route string at all
    // (it isn't even a field on RouterClassification).
    let raw = "Domain: math | Complexity: 5 | Math: True | Code: False | Route: small | Justification: trust me";
    let c = parse_classification(raw).unwrap();
    assert_eq!(route_for("integrate this differential equation", &c), Route::Big);
}

#[test]
fn test_label_omitted_domain_still_parses_complexity_math_code() {
    // Domain label is dropped, but Complexity/Math/Code labels remain —
    // 11%-garbled-Domain case from the eval.
    let raw = "general/coding | Complexity: 2 | Math: False | Code: True";
    let c = parse_classification(raw).unwrap();
    assert_eq!(c.complexity, 2);
    assert!(!c.math);
    assert!(c.code);
}

#[test]
fn test_bare_complexity_score_without_label() {
    let raw = "3/5 math:no code:yes";
    let c = parse_classification(raw).unwrap();
    assert_eq!(c.complexity, 3);
    assert!(!c.math);
    assert!(c.code);
}

#[test]
fn test_fully_unparseable_returns_unavailable() {
    let raw = "the model rambled about something unrelated with no structure";
    assert_eq!(parse_classification(raw), Err(ClassificationError::Unavailable));
}

#[test]
fn test_empty_string_returns_unavailable() {
    assert_eq!(parse_classification(""), Err(ClassificationError::Unavailable));
}

#[test]
fn test_whitespace_only_returns_unavailable() {
    assert_eq!(parse_classification("   \n\t  "), Err(ClassificationError::Unavailable));
}

#[test]
fn test_partial_fields_returns_unavailable() {
    // Complexity present but Math/Code missing entirely — must fail
    // closed rather than guess.
    let raw = "Complexity: 4 | Domain: general";
    assert_eq!(parse_classification(raw), Err(ClassificationError::Unavailable));
}

#[test]
fn test_out_of_range_complexity_is_clamped_not_propagated() {
    let raw = "Complexity: 9 | Math: True | Code: False";
    let c = parse_classification(raw).unwrap();
    assert_eq!(c.complexity, MAX_COMPLEXITY);
}

#[test]
fn test_zero_complexity_clamped_to_min() {
    let raw = "Complexity: 0 | Math: False | Code: False";
    let c = parse_classification(raw).unwrap();
    assert_eq!(c.complexity, MIN_COMPLEXITY);
}

#[test]
fn test_route_small_when_no_signals() {
    let c = RouterClassification { complexity: 1, math: false, code: false, raw_domain: None };
    assert_eq!(route_for("hello there", &c), Route::Small);
}

#[test]
fn test_route_big_on_high_complexity_alone() {
    let c = RouterClassification { complexity: 3, math: false, code: false, raw_domain: None };
    assert_eq!(route_for("hello there", &c), Route::Big);
}

#[test]
fn test_route_big_on_math_flag_for_nontrivial_prompt() {
    let c = RouterClassification { complexity: 1, math: true, code: false, raw_domain: None };
    assert_eq!(
        route_for("solve the integral of x^2 * sin(x) dx", &c),
        Route::Big
    );
}

#[test]
fn test_route_big_on_code_flag_for_nontrivial_prompt() {
    let c = RouterClassification { complexity: 1, math: false, code: true, raw_domain: None };
    assert_eq!(
        route_for("write a thread-safe LRU cache with eviction callbacks", &c),
        Route::Big
    );
}

#[test]
fn test_trivial_arithmetic_does_not_force_big_model() {
    let c = RouterClassification { complexity: 1, math: true, code: false, raw_domain: None };
    assert_eq!(route_for("12*8", &c), Route::Small);
    assert_eq!(route_for(" 3.5 + 2 ", &c), Route::Small);
    assert_eq!(route_for("-4 / 2", &c), Route::Small);
}

#[test]
fn test_trivial_code_does_not_force_big_model() {
    let c = RouterClassification { complexity: 1, math: false, code: true, raw_domain: None };
    assert_eq!(route_for("def f(x): return x+1", &c), Route::Small);
    assert_eq!(route_for("lambda x: x * 2", &c), Route::Small);
}

#[test]
fn test_trivial_case_still_escalates_on_independent_complexity() {
    // Trivial arithmetic embedded in a complexity>=3 signal must still
    // escalate — the correction only suppresses the Math/Code-alone
    // trigger, not an independently-flagged complex request.
    let c = RouterClassification { complexity: 3, math: true, code: false, raw_domain: None };
    assert_eq!(route_for("12*8", &c), Route::Big);
}

#[test]
fn test_multi_line_code_is_not_considered_trivial() {
    let c = RouterClassification { complexity: 1, math: false, code: true, raw_domain: None };
    assert_eq!(
        route_for("def f(x):\n    return x + 1", &c),
        Route::Big,
        "multi-line snippets are not the confirmed trivial blind spot"
    );
}

#[test]
fn test_control_flow_code_is_not_considered_trivial() {
    let c = RouterClassification { complexity: 1, math: false, code: true, raw_domain: None };
    assert_eq!(
        route_for("def f(x): return x+1 if x > 0 else -x", &c),
        Route::Big
    );
}

#[test]
fn test_multi_term_arithmetic_is_not_trivial() {
    let c = RouterClassification { complexity: 1, math: true, code: false, raw_domain: None };
    // Two operators — outside the "single-operation" definition.
    assert_eq!(route_for("12*8+3", &c), Route::Big);
}

#[test]
fn test_no_hardcoded_infrastructure_values() {
    let src = [COMPLEXITY_LABELED, COMPLEXITY_BARE, MATH, CODE, DOMAIN, TRIVIAL_ARITHMETIC].concat();
    let private_ip_prefix = ["192", "168", "."].concat();
    let org_domain = ["moosenet", ".online"].concat();
    assert!(!src.contains(&private_ip_prefix));
    assert!(!src.contains(&org_domain));
}

fn fields(
    labeled: Option<&str>,
    bare: Option<&str>,
    math: Option<&str>,
    code: Option<&str>,
    domain: Option<&str>,
) -> RouterFields {
    let own = |s: Option<&str>| s.map(|t| t.to_string());
    RouterFields {
        labeled_complexity: own(labeled),
        bare_complexity: own(bare),
        math: own(math),
        code: own(code),
        domain: own(domain),
    }
}

#[test]
fn captured_fields_make_a_classification() {
    let c = classification_of(fields(Some("42"), None, Some("YES"), Some("no"), Some(" a b ")))
        .unwrap();
    assert_eq!(c.complexity, MAX_COMPLEXITY);
    assert!(c.math);
    assert!(!c.code);
    assert_eq!(c.raw_domain.as_deref(), Some("a b"));
    let c = classification_of(fields(None, Some("2"), Some("True"), Some("TRUE"), None)).unwrap();
    assert_eq!(c.complexity, 2);
    assert!(c.code);
    assert_eq!(c.raw_domain, None);
    assert_eq!(
        classification_of(fields(None, None, Some("yes"), Some("yes"), None)),
        Err(ClassificationError::Unavailable)
    );
    assert_eq!(
        classification_of(fields(Some("1"), None, None, Some("yes"), None)),
        Err(ClassificationError::Unavailable)
    );
    assert_eq!(
        classification_of(fields(Some("1"), None, Some("yes"), None, None)),
        Err(ClassificationError::Unavailable)
    );
}

#[test]
fn domain_decides_nothing() {
    let a = RouterClassification { complexity: 2, math: true, code: false, raw_domain: None };
    let b = RouterClassification {
        complexity: 2,
        math: true,
        code: false,
        raw_domain: Some("poetry".to_string()),
    };
    for prompt in ["12*8", "prove it", "def f(x): return x"] {
        assert_eq!(route_for(prompt, &a), route_for(prompt, &b));
    }
}

#[test]
fn triviality_is_judged_on_the_trimmed_prompt() {
    assert!(is_trivial_arithmetic("  7 - 2\n"));
    assert!(!is_trivial_arithmetic("seven"));
    assert!(is_trivial_code("  LAMBDA x: x  "));
    assert!(!is_trivial_code(""));
    let long = format!("lambda x: {}", "x".repeat(80));
    assert!(!is_trivial_code(&long));
    assert!(is_one_line_code("lambda x: x", "lambda x: x"));
    assert!(!is_one_line_code("lambda\nx", "lambda\nx"));
}

#[test]
fn route_follows_its_signals() {
    let c = RouterClassification { complexity: 1, math: true, code: true, raw_domain: None };
    assert_eq!(route_of(&c, true, true), Route::Small);
    // One excuse is enough.
    assert_eq!(route_of(&c, true, false), Route::Small);
    assert_eq!(route_of(&c, false, true), Route::Small);
    assert_eq!(route_of(&c, false, false), Route::Big);
    // An excuse counts only for the flag that it answers.
    let math = RouterClassification { complexity: 1, math: true, code: false, raw_domain: None };
    assert_eq!(route_of(&math, false, true), Route::Big);
}
