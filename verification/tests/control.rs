use chord_proxy::control::ingest::{
    find_existing, hf_repo_size_bytes, hf_repo_size_checked, ingest_gate, land_cold, landed,
    probe_body, probe_status, probe_url, pull_url, pull_warm, reply_status, HfProbe, IngestGate,
    LandStep, ModelTier, ProbeStep, PullAnswer,
};
use chord_proxy::control::routes::{
    collect_route_facts, credential_present, get_route, omitted_routes, omitted_warning,
    probe_urls, recorded_key, route_ids, route_target, LiveBackend,
};
use chord_proxy::control::{
    archive_model, archived, disk_usage, get_model, is_protected, list_models, protect_model,
    pull_model, pulled, storage_summary, sweep_session_register, tier_counts, tier_str,
    trigger_reconcile, unknown_sweep_session, EvictError, ModelRecord, ModelView, ProtectBody,
    ProtectQuery, PullError, StorageTier, SweepSessionRegisterBody, TierCounts,
};
use chord_proxy::json::{Json, JsonNumber};
use chord_proxy::table::Table;

fn record(name: &str, tier: StorageTier) -> ModelRecord {
    ModelRecord {
        name: name.to_string(),
        tier,
        size_bytes: 100,
        local_path: Some(format!("/local/{name}")),
        archive_path: None,
        last_requested: Some(5),
        last_loaded: None,
        protected: false,
        managed_by: "ollama".to_string(),
    }
}

fn names(v: &[&str]) -> Vec<String> {
    v.iter().map(|s| s.to_string()).collect()
}

fn table(pairs: &[(&str, &str)]) -> Table {
    let mut t = Table::new();
    for (key, value) in pairs {
        t.insert(key.to_string(), value.to_string());
    }
    t
}

#[test]
fn get_models_returns_records() {
    let list = list_models(&[
        (record("beta:1", StorageTier::Warm), false),
        (record("alpha:1", StorageTier::Warm), false),
    ]);
    assert_eq!(list.count, 2);
    let listed: Vec<&str> = list.models.iter().map(|m| m.name.as_str()).collect();
    assert_eq!(listed, vec!["alpha:1", "beta:1"]);
    assert_eq!(list.models[0].tier, "warm");
}

#[test]
fn list_models_reports_supports_thinking_only_for_validated_model() {
    let list = list_models(&[
        (record("alpha:1", StorageTier::Warm), true),
        (record("beta:1", StorageTier::Warm), false),
    ]);
    let alpha = list.models.iter().find(|m| m.name == "alpha:1").unwrap();
    let beta = list.models.iter().find(|m| m.name == "beta:1").unwrap();
    assert!(alpha.supports_thinking);
    assert!(!beta.supports_thinking);
}

#[test]
fn get_model_reports_false_for_unvalidated_thinking_config() {
    let records = vec![record("alpha:1", StorageTier::Warm)];
    let view = get_model(&records, false, "alpha:1").unwrap();
    assert!(!view.supports_thinking);
    assert!(get_model(&records, true, "alpha:1").unwrap().supports_thinking);
    assert!(!ModelView::from(&records[0]).supports_thinking);
}

#[test]
fn get_unknown_model_returns_404() {
    let err = get_model(&[], false, "nope:1").unwrap_err();
    assert_eq!(err.status, 404);
    assert_eq!(err.error, "unknown model: nope:1");
}

#[test]
fn archive_protected_model_returns_403() {
    let records = vec![record("keepme:1", StorageTier::Warm)];
    let protected = names(&["keepme:1"]);
    assert!(is_protected(&records[0], &protected));
    let err = archive_model(&records, &protected, "keepme:1").unwrap();
    assert_eq!(err.status, 403);
    assert!(err.error.contains("protected"));
}

#[test]
fn archive_warm_model_triggers_eviction_to_cold() {
    let records = vec![record("warm:1", StorageTier::Warm)];
    assert!(archive_model(&records, &[], "warm:1").is_none());
    let done = archived("warm:1", Ok(300)).unwrap();
    assert_eq!(done.model, "warm:1");
    assert_eq!(done.freed_bytes, 300);
}

#[test]
fn archive_hot_model_returns_409() {
    let records = vec![record("hotmodel:1", StorageTier::Hot)];
    let err = archive_model(&records, &[], "hotmodel:1").unwrap();
    assert_eq!(err.status, 409);
    assert!(err.error.contains("loaded"));
    // A loaded model is refused as such even where it is protected too.
    let err = archive_model(&records, &names(&["hotmodel:1"]), "hotmodel:1").unwrap();
    assert_eq!(err.status, 409);
    assert_eq!(archive_model(&records, &[], "other").unwrap().status, 404);
}

#[test]
fn archive_failures_have_their_statuses() {
    let status = |e: EvictError| archived("m", Err(e)).unwrap_err();
    assert_eq!(status(EvictError::UnknownModel).status, 404);
    assert_eq!(status(EvictError::Protected).status, 403);
    let not_warm = status(EvictError::NotWarm);
    assert_eq!(not_warm.status, 409);
    assert_eq!(not_warm.error, "model m is not warm; only warm models can be archived");
    let late = status(EvictError::Timeout("too late".to_string()));
    assert_eq!((late.status, late.error.as_str()), (504, "too late"));
    assert_eq!(status(EvictError::Other("x".to_string())).status, 500);
}

#[test]
fn pulls_have_their_statuses() {
    let records = vec![record("m", StorageTier::Cold)];
    assert!(pull_model(&records, "m").is_none());
    assert_eq!(pull_model(&records, "n").unwrap().status, 404);
    assert_eq!(pulled("m", Ok(())).unwrap(), "m");
    assert_eq!(pulled("m", Err(PullError::UnknownModel)).unwrap_err().status, 404);
    let missing = pulled("m", Err(PullError::MissingArchive)).unwrap_err();
    assert_eq!(missing.error, "model m is not present in the archive");
    let full = pulled("m", Err(PullError::InsufficientDiskSpace("full".to_string()))).unwrap_err();
    assert_eq!((full.status, full.error.as_str()), (507, "full"));
    assert_eq!(pulled("m", Err(PullError::Other("x".to_string()))).unwrap_err().status, 500);
}

#[test]
fn protect_toggles_flag() {
    let mut records = vec![record("togg:1", StorageTier::Warm)];
    // No body/query → toggle to true.
    let p = protect_model(&mut records, &[], "togg:1", ProtectQuery::default(), None).unwrap();
    assert!(p.protected);
    assert!(records[0].protected);
    // Explicit ?protected=false → clears it.
    let query = ProtectQuery { protected: Some(false) };
    let p = protect_model(&mut records, &[], "togg:1", query, None).unwrap();
    assert!(!p.flag);
    assert!(!records[0].protected);
}

#[test]
fn protection_takes_the_query_before_the_body_and_the_names_above_all() {
    let mut records = vec![record("a", StorageTier::Warm), record("b", StorageTier::Warm)];
    let body = Some(ProtectBody { protected: Some(true) });
    let query = ProtectQuery { protected: Some(false) };
    let p = protect_model(&mut records, &names(&["b"]), "b", query, body).unwrap();
    assert!(!p.flag);
    assert!(p.protected, "a configured name stays protected");
    let p = protect_model(&mut records, &[], "b", ProtectQuery::default(), body).unwrap();
    assert!(p.flag && p.protected);
    let empty = Some(ProtectBody::default());
    let p = protect_model(&mut records, &[], "b", ProtectQuery::default(), empty).unwrap();
    assert!(!p.flag);
    assert!(!records[0].protected);
    let e = protect_model(&mut records, &[], "zz", ProtectQuery::default(), None).unwrap_err();
    assert_eq!(e.status, 404);
}

#[test]
fn storage_returns_usage_json() {
    let local = disk_usage(true, Some(100), Some(40));
    assert_eq!(local.total_bytes, Some(100));
    assert_eq!(local.free_bytes, Some(40));
    assert_eq!(local.used_bytes, Some(60));
    assert_eq!(disk_usage(true, Some(40), Some(100)).used_bytes, Some(0));
    assert_eq!(disk_usage(false, None, Some(1)).used_bytes, None);
    let view = storage_summary(local, local);
    assert_eq!((view.local, view.archive), (local, local));
}

#[test]
fn an_archive_that_is_not_there_counts_no_bytes() {
    let missing = disk_usage(false, Some(100), Some(40));
    let view = storage_summary(missing, missing);
    assert_eq!(view.local, missing);
    assert!(!view.archive.available);
    assert_eq!(view.archive.total_bytes, None);
    assert_eq!(view.archive.free_bytes, None);
    assert_eq!(view.archive.used_bytes, None);
}

#[test]
fn reconcile_returns_before_after_tier_counts_and_persists() {
    let before = tier_counts(&[]);
    assert_eq!(before, TierCounts { hot: 0, warm: 0, cold: 0 });
    let after = vec![record("fresh:1", StorageTier::Warm)];
    let done = trigger_reconcile(before, Ok(&after), true).unwrap();
    assert_eq!(done.before.warm, 0);
    assert_eq!(done.after.warm, 1);
    assert!(done.persisted);
    let failed = trigger_reconcile(before, Err("join error".to_string()), true).unwrap_err();
    assert_eq!(failed.status, 500);
    assert_eq!(failed.error, "reconcile scan failed: join error");
}

#[test]
fn sweep_sessions_need_an_id() {
    let body = |id: &str| SweepSessionRegisterBody { session_id: id.to_string(), queue: Vec::new() };
    let err = sweep_session_register(&body(" \t")).unwrap();
    assert_eq!((err.status, err.error.as_str()), (400, "session_id is required"));
    assert!(sweep_session_register(&body("s")).is_none());
    let err = unknown_sweep_session("s9");
    assert_eq!((err.status, err.error.as_str()), (404, "unknown sweep session: s9"));
}

#[test]
fn list_order_is_by_name_and_stable() {
    let mut first = record("b", StorageTier::Hot);
    first.size_bytes = 1;
    let mut second = record("b", StorageTier::Cold);
    second.size_bytes = 2;
    let list = list_models(&[
        (first, false),
        (record("c", StorageTier::Warm), false),
        (second, false),
        (record("a", StorageTier::Warm), true),
    ]);
    let sizes: Vec<(&str, u64)> =
        list.models.iter().map(|m| (m.name.as_str(), m.size_bytes)).collect();
    assert_eq!(sizes, vec![("a", 100), ("b", 1), ("b", 2), ("c", 100)]);
    assert_eq!(tier_str(&StorageTier::Hot), "hot");
    assert_eq!(list.models[2].tier, "cold");
}

#[test]
fn counts_cover_every_record() {
    let c = tier_counts(&[
        record("a", StorageTier::Hot),
        record("b", StorageTier::Cold),
        record("c", StorageTier::Cold),
    ]);
    assert_eq!(c, TierCounts { hot: 1, warm: 0, cold: 2 });
}

fn whole(n: u64) -> Json<f64> {
    Json::Number(JsonNumber { unsigned: Some(n), value: n as f64 })
}

fn object(members: Vec<(&str, Json<f64>)>) -> Json<f64> {
    Json::Object(members.into_iter().map(|(k, v)| (k.to_string(), v)).collect())
}

fn file(name: &str, size: u64) -> Json<f64> {
    object(vec![("rfilename", Json::Text(name.to_string())), ("size", whole(size))])
}

fn repo(files: Vec<Json<f64>>) -> Json<f64> {
    object(vec![("siblings", Json::Array(files)), ("usedStorage", whole(999))])
}

#[test]
fn repository_size_counts_the_selected_files() {
    let body = repo(vec![
        file("model-Q4_K_M.gguf", 10),
        file("model-q8_0.gguf", 20),
        object(vec![
            ("rfilename", Json::Text("big-q4_k_m.gguf".to_string())),
            ("lfs", object(vec![("size", whole(5))])),
        ]),
        object(vec![("rfilename", Json::Text("q4_k_m.txt".to_string()))]),
    ]);
    assert_eq!(hf_repo_size_bytes(&body, Some(" q4_K_m ")), Some(15));
    // Nothing is selected: what the repository says of itself.
    assert_eq!(hf_repo_size_bytes(&body, None), Some(999));
    assert_eq!(hf_repo_size_bytes(&body, Some("  ")), Some(999));
    // Nothing matches: what the repository says of itself.
    assert_eq!(hf_repo_size_bytes(&body, Some("fp16")), Some(999));
    assert_eq!(hf_repo_size_bytes(&object(vec![("usedStorage", whole(0))]), None), None);
    assert_eq!(hf_repo_size_bytes(&Json::<f64>::Null, None), None);
    let huge = repo(vec![file("a-q4", u64::MAX), file("b-q4", 1), file("c-q8", 2)]);
    assert_eq!(hf_repo_size_checked(&huge, Some("q4")), Err(()));
    assert_eq!(hf_repo_size_checked(&huge, Some("q8")), Ok(Some(2)));
    assert_eq!(hf_repo_size_checked(&huge, None), Ok(Some(999)));
    assert_eq!(hf_repo_size_checked(&body, Some("q8")), Ok(Some(20)));
}

#[test]
fn probes_tell_gated_from_open() {
    assert_eq!(
        probe_url("org/model"),
        "https://huggingface.co/api/models/org/model?blobs=true"
    );
    let restricted =
        ProbeStep::Restricted(HfProbe { gated: true, private: false, total_bytes: None });
    assert_eq!(probe_status(401, "401 Unauthorized"), restricted);
    assert_eq!(probe_status(403, "403 Forbidden"), restricted);
    assert_eq!(probe_status(200, "200 OK"), ProbeStep::ReadBody);
    assert_eq!(
        probe_status(404, "404 Not Found"),
        ProbeStep::Failed("HTTP 404 Not Found".to_string())
    );
    let body = object(vec![
        ("gated", Json::Text("manual".to_string())),
        ("private", Json::Text("FALSE".to_string())),
        ("usedStorage", whole(7)),
    ]);
    assert_eq!(
        probe_body(&body, None),
        HfProbe { gated: true, private: false, total_bytes: Some(7) }
    );
    let body = object(vec![("gated", Json::Bool(false)), ("private", Json::Bool(true))]);
    assert_eq!(
        probe_body(&body, None),
        HfProbe { gated: false, private: true, total_bytes: None }
    );
}

#[test]
fn pulls_through_the_model_server() {
    assert_eq!(pull_url(Some("http://h/")).unwrap(), "http://h/api/pull");
    assert_eq!(pull_url(None).unwrap_err(), "OLLAMA_URL is not configured");
    assert_eq!(pull_warm(PullAnswer::Status(200, "200 OK".to_string())), Ok(()));
    assert_eq!(
        pull_warm(PullAnswer::Status(500, "500 Oops".to_string())).unwrap_err(),
        "ollama pull returned HTTP 500 Oops"
    );
    assert_eq!(pull_warm(PullAnswer::TimedOut).unwrap_err(), "ollama pull timed out");
    assert_eq!(
        pull_warm(PullAnswer::Failed("refused".to_string())).unwrap_err(),
        "ollama pull request error: refused"
    );
}

#[test]
fn pulled_models_come_to_rest() {
    let candidates = names(&["org/model", "org/model:latest"]);
    let mut cold = record("org/model:latest", StorageTier::Cold);
    cold.archive_path = Some("/archive/m".to_string());
    let warm = record("org/model", StorageTier::Warm);
    match land_cold(Ok(&[cold, warm]), &candidates, "/archive") {
        LandStep::Evict(name) => assert_eq!(name, "org/model"),
        other => panic!("expected Evict, got {other:?}"),
    }
    let mut cold = record("org/model:latest", StorageTier::Cold);
    cold.archive_path = Some("/archive/m".to_string());
    match land_cold(Ok(&[record("other", StorageTier::Warm), cold]), &candidates, "/archive") {
        LandStep::Landed(l) => {
            assert_eq!(l.registry_name, "org/model:latest");
            assert_eq!(l.archive_path, "/archive/m");
            assert_eq!(l.bytes, 100);
        }
        other => panic!("expected Landed, got {other:?}"),
    }
    assert_eq!(
        land_cold(Ok(&[record("org/model", StorageTier::Hot)]), &candidates, "/archive"),
        LandStep::Failed("pulled model not found as warm or cold after reconcile".to_string())
    );
    assert_eq!(
        land_cold(Err("gone".to_string()), &candidates, "/archive"),
        LandStep::Failed("reconcile scan task failed: gone".to_string())
    );
    let records = vec![record("org/model", StorageTier::Cold)];
    let l = landed(&records, "org/model", "/archive", Ok(42)).unwrap();
    assert_eq!((l.archive_path.as_str(), l.bytes), ("/archive", 42));
    assert_eq!(landed(&records, "x", "/a", Err("no".to_string())).unwrap_err(), "no");
}

#[test]
fn existing_models_are_found_by_the_first_candidate() {
    let records = vec![record("b", StorageTier::Hot), record("a", StorageTier::Cold)];
    let found = find_existing(&records, &names(&["x", "a", "b"])).unwrap();
    assert_eq!(found.name, "a");
    assert_eq!(found.tier, ModelTier::Cold);
    assert!(find_existing(&records, &names(&["x"])).is_none());
}

#[test]
fn ingest_disabled_by_default_refuses() {
    assert_eq!(ingest_gate(false, None), IngestGate::Disabled);
}

#[test]
fn ingest_enabled_rejects_malformed_repo_with_400() {
    match ingest_gate(true, Some("not a repo".to_string())) {
        IngestGate::Malformed(e) => assert_eq!(e.status, 400),
        other => panic!("expected Malformed, got {other:?}"),
    }
    assert_eq!(ingest_gate(true, None), IngestGate::Run);
}

#[test]
fn ingest_disabled_refuses_even_malformed_before_validation() {
    assert_eq!(ingest_gate(false, Some("not a repo".to_string())), IngestGate::Disabled);
    assert_eq!(reply_status(403), 403);
    assert_eq!(reply_status(7), 500);
    assert_eq!(reply_status(1000), 500);
}

fn route_shaped(id: &str) -> bool {
    id.chars().all(|c| c.is_ascii_lowercase() || c.is_ascii_digit() || c == '-' || c == '_')
}

#[test]
fn a_route_whose_target_the_registry_never_heard_of_is_a_fault_not_an_available_local_route() {
    let aliases = table(&[("ghost-route", "not-a-model:9")]);
    let ids = route_ids(&aliases, &Table::new(), route_shaped);
    let facts = collect_route_facts(&ids, &Table::new(), &aliases, &names(&["alpha:1"]));
    assert_eq!(facts[0].id, "ghost-route");
    assert!(facts[0].has_target);
    assert!(facts[0].target_key.is_none());
}

#[test]
fn an_untagged_alias_target_resolves_the_same_way_the_chat_hot_path_does() {
    let aliases = table(&[("untagged", "alpha")]);
    let ids = route_ids(&aliases, &Table::new(), route_shaped);
    let facts = collect_route_facts(&ids, &Table::new(), &aliases, &names(&["alpha:latest"]));
    assert_eq!(facts[0].target_key.as_deref(), Some("alpha:latest"));
}

#[test]
fn an_unknown_route_id_is_404_which_is_not_the_same_as_unavailable() {
    let ids = names(&["lumina-fast"]);
    assert_eq!(get_route(&ids, "no-such-route").unwrap().status, 404);
    assert!(get_route(&ids, "lumina-fast").is_none());
}

#[test]
fn an_alias_key_that_is_a_model_reference_is_not_published_as_a_route() {
    let aliases = table(&[("lumina-fast", "alpha:1"), ("alpha:1", "alpha:1")]);
    let ids = route_ids(&aliases, &Table::new(), route_shaped);
    assert_eq!(ids, vec!["lumina-fast".to_string()]);
}

#[test]
fn a_404_does_not_reflect_the_requested_id_back() {
    let e = get_route(&[], "qwen-something-distinctive").unwrap();
    assert_eq!(e.status, 404);
    assert!(!e.error.contains("qwen-something-distinctive"));
    assert_eq!(e.error, "unknown route");
}

#[test]
fn the_runtime_lumina_target_wins_over_the_static_alias_entry() {
    let aliases = table(&[("lumina-fast", "stale:1")]);
    let lumina = table(&[("lumina-fast", "freshly-promoted:1")]);
    assert_eq!(
        route_target(&lumina, &aliases, "lumina-fast").as_deref(),
        Some("freshly-promoted:1")
    );
    let ids = route_ids(&aliases, &lumina, route_shaped);
    let facts = collect_route_facts(&ids, &lumina, &aliases, &names(&["stale:1"]));
    assert!(facts[0].target_key.is_none());
}

#[test]
fn an_exact_registry_key_wins_over_the_latest_normalization() {
    assert_eq!(recorded_key(&names(&["duo:latest", "duo"]), "duo").as_deref(), Some("duo"));
    assert_eq!(recorded_key(&names(&["duo:latest"]), "duo").as_deref(), Some("duo:latest"));
    assert!(recorded_key(&names(&["duo:1:latest"]), "duo:1").is_none());
}

#[test]
fn routes_come_from_both_tables_in_order() {
    let aliases = table(&[("b", "x"), ("d", " ")]);
    let lumina = table(&[("c", "y"), ("b", "z"), ("a", "w")]);
    assert_eq!(route_ids(&aliases, &lumina, |_| true), names(&["a", "b", "c", "d"]));
    assert!(route_target(&lumina, &aliases, "d").is_none());
    assert!(route_target(&lumina, &aliases, "e").is_none());
}

#[test]
fn each_backend_is_probed_once() {
    let b = |remote: bool, on_demand: bool, url: &str| LiveBackend {
        remote,
        on_demand,
        url: url.to_string(),
    };
    let urls = probe_urls(&[
        b(false, false, "http://z"),
        b(true, false, "http://cloud"),
        b(false, true, "http://sleeper"),
        b(false, false, "http://a"),
        b(false, false, "http://z"),
    ]);
    assert_eq!(urls, names(&["http://a", "http://z"]));
}

#[test]
fn blank_credentials_are_none() {
    assert!(credential_present(b" k "));
    assert!(!credential_present(b" \t\r\n\x0c"));
    assert!(!credential_present(b""));
    // A vertical tab is not ASCII white space.
    assert!(credential_present(b"\x0b"));
}

#[test]
fn names_that_are_left_out_are_counted_and_not_told() {
    let aliases = table(&[("lumina-fast", "alpha:1"), ("alpha:1", "alpha:1"), ("b:2", "b:2")]);
    let lumina = table(&[("lumina-fast", "alpha:1"), ("b:2", "c"), ("lumina", "c")]);
    let ids = route_ids(&aliases, &lumina, route_shaped);
    assert_eq!(ids, names(&["lumina", "lumina-fast"]));
    assert_eq!(omitted_routes(&aliases, &lumina, &ids), 2);
    assert_eq!(omitted_routes(&aliases, &lumina, &[]), 4);
    assert_eq!(omitted_routes(&Table::new(), &Table::new(), &ids), 0);
    let (count, text) = omitted_warning(2).unwrap();
    assert_eq!(count, 2);
    assert_eq!(
        text,
        "route catalog: alias keys that are not route names were omitted — a route id must be \
         lowercase alphanumerics/-/_ so it cannot be a model reference"
    );
    assert!(omitted_warning(0).is_none());
}

#[test]
fn a_repository_without_a_selection_says_its_own_size() {
    let body = object(vec![
        ("siblings", Json::Array(vec![file("m-Q4.gguf", 10), file("m-Q8.gguf", 20)])),
        ("usedStorage", whole(99)),
    ]);
    assert_eq!(hf_repo_size_bytes(&body, None), Some(99));
    assert_eq!(hf_repo_size_bytes(&body, Some("q8")), Some(20));
    assert_eq!(probe_body(&body, None).total_bytes, Some(99));
}
