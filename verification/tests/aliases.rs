use chord_proxy::aliases::{
    alias_config_health, aliases_from, check_config_report, parse_model_aliases,
    record_alias_config_health, report_on, resolve_model_alias, AliasConfigStatus, AliasHealth,
    JsonDoc, JsonMember, LogLevel,
};
use chord_proxy::table::Table;

#[test]
fn test_parse_model_aliases_valid_json() {
    let cfg = parse_model_aliases(Some(
        r#"{"lumina-fast":"gpt-oss:20b","lumina-deep":"gpt-oss:120b"}"#.into(),
    ));
    let m = &cfg.aliases;
    assert_eq!(m.get("lumina-fast").as_deref(), Some("gpt-oss:20b"));
    assert_eq!(m.get("lumina-deep").as_deref(), Some("gpt-oss:120b"));
    assert_eq!(cfg.status, AliasConfigStatus::Clean);
}

#[test]
fn test_parse_model_aliases_missing_or_blank_is_empty_and_ok() {
    for raw in [None, Some(String::new()), Some("   ".to_string())] {
        let cfg = parse_model_aliases(raw);
        assert!(cfg.aliases.is_empty());
        assert_eq!(cfg.status, AliasConfigStatus::Clean);
        assert!(!cfg.status.is_degraded());
    }
}

#[test]
fn test_wholly_unparseable_json_is_loud_never_a_silent_empty_map() {
    let cfg = parse_model_aliases(Some(r#"{"lumina-fast":"gpt-oss:20b",}"#.into()));
    assert!(cfg.aliases.is_empty());
    assert!(cfg.status.is_degraded(), "must not fail silently");
    let AliasConfigStatus::Unparseable { ref error } = cfg.status else {
        panic!("expected Unparseable, got {:?}", cfg.status);
    };
    assert!(error.contains("line 1"), "no parse position in {error:?}");
    let detail = cfg.status.detail().expect("degraded status must explain itself");
    assert!(detail.contains("CHORD_MODEL_ALIASES"), "must name the env var");
    assert!(
        detail.contains("DISABLED"),
        "must state the blast radius: {detail}"
    );
    assert!(
        detail.contains("NOT a residency"),
        "must point away from resident_set: {detail}"
    );
}

#[test]
fn test_valid_json_that_is_not_an_object_is_unparseable() {
    for raw in [r#"["lumina-fast"]"#, r#""lumina-fast""#, "42", "null"] {
        let cfg = parse_model_aliases(Some(raw.to_string()));
        assert!(cfg.aliases.is_empty());
        assert!(
            matches!(cfg.status, AliasConfigStatus::Unparseable { .. }),
            "{raw} should be Unparseable, got {:?}",
            cfg.status
        );
    }
}

#[test]
fn test_single_malformed_entry_drops_only_that_entry() {
    let cfg = parse_model_aliases(Some(
        r#"{"lumina-fast":"gpt-oss:20b","lumina-embed":123,"lumina-deep":"gpt-oss:120b","coder-fast":"","":"x"}"#
            .into(),
    ));
    assert_eq!(
        cfg.aliases.get("lumina-fast").as_deref(),
        Some("gpt-oss:20b")
    );
    assert_eq!(
        cfg.aliases.get("lumina-deep").as_deref(),
        Some("gpt-oss:120b")
    );
    assert_eq!(cfg.aliases.len(), 2, "only the good entries survive");
    assert!(cfg.aliases.get("lumina-embed").is_none());
    assert!(cfg.aliases.get("coder-fast").is_none());

    let AliasConfigStatus::EntriesDropped { ref dropped } = cfg.status else {
        panic!("expected EntriesDropped, got {:?}", cfg.status);
    };
    assert_eq!(dropped.len(), 3, "dropped: {dropped:?}");
    let joined = dropped.join(" | ");
    assert!(joined.contains("lumina-embed"), "{joined}");
    assert!(joined.contains("coder-fast"), "{joined}");
    assert!(cfg.status.is_degraded());
}

#[test]
fn test_positive_control_realistic_map_parses_every_alias() {
    let cfg = parse_model_aliases(Some(
        r#"{"lumina":"granite4.1","lumina-fast":"granite4.1","lumina-deep":"gpt-oss:120b",
            "lumina-embed":"nomic-embed-text","lumina-search":"granite4.1",
            "coder-fast":"qwen3-coder:30b","coder-deep":"qwen3-coder:30b",
            "laguna":"granite4.1","122b":"gpt-oss:120b","llama":"llama3.1:8b"}"#
            .into(),
    ));
    assert_eq!(cfg.status, AliasConfigStatus::Clean);
    assert!(!cfg.status.is_degraded());
    assert_eq!(cfg.aliases.len(), 10);
    for (alias, target) in [
        ("lumina", "granite4.1"),
        ("lumina-fast", "granite4.1"),
        ("lumina-deep", "gpt-oss:120b"),
        ("lumina-embed", "nomic-embed-text"),
        ("lumina-search", "granite4.1"),
        ("coder-fast", "qwen3-coder:30b"),
        ("coder-deep", "qwen3-coder:30b"),
        ("laguna", "granite4.1"),
        ("122b", "gpt-oss:120b"),
        ("llama", "llama3.1:8b"),
    ] {
        assert_eq!(
            resolve_model_alias(&cfg.aliases, alias),
            target,
            "alias {alias} must resolve"
        );
    }
    assert_eq!(resolve_model_alias(&cfg.aliases, "granite4.1"), "granite4.1");
}

#[test]
fn test_check_config_rejects_a_bad_file_and_accepts_a_good_one() {
    let (good, code) =
        check_config_report(Some(r#"{"lumina-fast":"granite4.1","122b":"gpt-oss:120b"}"#.into()));
    assert_eq!(code, 0, "good config must pass: {good}");
    assert!(good.contains("OK"), "{good}");
    assert!(good.contains("lumina-fast") && good.contains("122b"), "{good}");

    let (bad, code) = check_config_report(Some(r#"{"lumina-fast":"granite4.1",}"#.into()));
    assert_eq!(code, 1, "unparseable config must fail: {bad}");
    assert!(bad.contains("INVALID"), "{bad}");
    assert!(bad.contains("DO NOT restart"), "{bad}");

    let (partial, code) =
        check_config_report(Some(r#"{"lumina-fast":"granite4.1","lumina-embed":123}"#.into()));
    assert_eq!(code, 1, "a dropped entry must also fail the check: {partial}");
    assert!(partial.contains("DEGRADED"), "{partial}");
    assert!(partial.contains("lumina-embed"), "{partial}");
    let (none, code) = check_config_report(None);
    assert_eq!(code, 0, "{none}");
    assert!(none.contains("none configured"), "{none}");
}

#[test]
fn test_alias_entries_are_trimmed() {
    let cfg = parse_model_aliases(Some(r#"{" lumina-fast ":"  granite4.1 "}"#.into()));
    assert_eq!(
        cfg.aliases.get("lumina-fast").as_deref(),
        Some("granite4.1")
    );
    assert_eq!(cfg.status, AliasConfigStatus::Clean);
}

#[test]
fn test_resolve_model_alias_maps_known_passes_through_unknown() {
    let mut m = Table::new();
    m.insert("lumina-fast".to_string(), "gpt-oss:20b".to_string());
    // Known alias is rewritten.
    assert_eq!(resolve_model_alias(&m, "lumina-fast"), "gpt-oss:20b");
    // Unknown / already-real model passes through unchanged.
    assert_eq!(resolve_model_alias(&m, "gpt-oss:120b"), "gpt-oss:120b");
    // Empty alias map is pure pass-through.
    assert_eq!(resolve_model_alias(&Table::new(), "lumina-fast"), "lumina-fast");
}

#[test]
fn health_holds_the_last_reading() {
    let mut health = AliasHealth::new();
    assert!(alias_config_health(&health).is_none());
    record_alias_config_health(&mut health, &parse_model_aliases(Some("{".to_string())));
    let (status, count) = alias_config_health(&health).unwrap();
    assert!(status.is_degraded());
    assert_eq!(count, 0);
    record_alias_config_health(&mut health, &parse_model_aliases(Some(r#"{"a":"b"}"#.to_string())));
    assert_eq!(alias_config_health(&health), Some((AliasConfigStatus::Clean, 1)));
}

#[test]
fn log_line_names_its_source_and_level() {
    let clean = parse_model_aliases(None);
    assert!(clean.log_if_degraded("startup").is_none());
    let broken = parse_model_aliases(Some("{".to_string()));
    let (level, line) = broken.log_if_degraded("startup").unwrap();
    assert_eq!(level, LogLevel::Error);
    assert!(line.starts_with("startup: "));
    let partial = parse_model_aliases(Some(r#"{"a":1}"#.to_string()));
    assert_eq!(partial.log_if_degraded("x").unwrap().0, LogLevel::Warn);
}

#[test]
fn documents_at_hand_are_judged_entry_by_entry() {
    let doc = JsonDoc::Object(vec![
        (" a ".to_string(), JsonMember::Text(" one ".to_string())),
        ("b".to_string(), JsonMember::Null),
        ("c".to_string(), JsonMember::Boolean),
        ("d".to_string(), JsonMember::Array),
        ("e".to_string(), JsonMember::Object),
        ("f".to_string(), JsonMember::Text("  ".to_string())),
    ]);
    let cfg = aliases_from(Ok(doc));
    assert_eq!(cfg.aliases.len(), 1);
    assert_eq!(cfg.aliases.get("a").as_deref(), Some("one"));
    match &cfg.status {
        AliasConfigStatus::EntriesDropped { dropped } => assert_eq!(dropped.len(), 5),
        other => panic!("expected EntriesDropped, got {other:?}"),
    }
    let (text, code) = report_on(&cfg);
    assert_eq!(code, 1);
    assert!(text.contains("DEGRADED"));
    let none = aliases_from(Err("line 1".to_string()));
    assert!(matches!(none.status, AliasConfigStatus::Unparseable { .. }));
}

#[test]
fn repeated_names_take_the_last_value() {
    let cfg = parse_model_aliases(Some(r#"{"a":"x","a":"y"}"#.to_string()));
    assert_eq!(cfg.aliases.get("a").as_deref(), Some("y"));
    let cfg = parse_model_aliases(Some(r#"{"b":"\u0041"}"#.to_string()));
    assert_eq!(cfg.aliases.get("b").as_deref(), Some("A"));
}
