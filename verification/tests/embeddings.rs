use chord_proxy::embeddings::{
    after_fallback, after_local, assert_dims, build_response, call_local, call_openrouter,
    openrouter_api_key, parse_embedding_vectors, route_embeddings, validate_inputs,
    validate_output, BackendReply, EmbedOutcome, EmbedSource, EmbeddingsConfig, EmbeddingsError,
    EmbeddingsInput, EmbeddingsRequest,
};
use chord_proxy::json::{Json, JsonNumber};
use chord_proxy::table::Table;

fn converted(value: &serde_json::Value) -> Json<f64> {
    match value {
        serde_json::Value::Null => Json::Null,
        serde_json::Value::Bool(b) => Json::Bool(*b),
        serde_json::Value::Number(n) => Json::Number(JsonNumber {
            unsigned: n.as_u64(),
            value: n.as_f64().unwrap(),
        }),
        serde_json::Value::String(s) => Json::Text(s.clone()),
        serde_json::Value::Array(a) => Json::Array(a.iter().map(converted).collect()),
        serde_json::Value::Object(o) => {
            Json::Object(o.iter().map(|(k, v)| (k.clone(), converted(v))).collect())
        }
    }
}

fn json(text: &str) -> Json<f64> {
    let value: serde_json::Value = serde_json::from_str(text).unwrap();
    converted(&value)
}

fn number(x: f64) -> Json<f64> {
    Json::Number(JsonNumber { unsigned: None, value: x })
}

fn vector(x: f64, n: usize) -> Json<f64> {
    Json::Array((0..n).map(|_| number(x)).collect())
}

/// `{"embeddings": [..]}` with one vector of `n` times `x`.
fn one_vector(x: f64, n: usize) -> Json<f64> {
    Json::Object(vec![("embeddings".to_string(), Json::Array(vec![vector(x, n)]))])
}

/// `{"data": [..]}` with the given vectors under their indices.
fn indexed(vectors: Vec<(f64, u64)>) -> Json<f64> {
    let data = vectors
        .into_iter()
        .map(|(x, index)| {
            Json::Object(vec![
                ("embedding".to_string(), vector(x, 1024)),
                (
                    "index".to_string(),
                    Json::Number(JsonNumber { unsigned: Some(index), value: index as f64 }),
                ),
            ])
        })
        .collect();
    Json::Object(vec![("data".to_string(), Json::Array(data))])
}

fn inputs(v: &[&str]) -> Vec<String> {
    v.iter().map(|s| s.to_string()).collect()
}

fn many(v: &[&str]) -> EmbeddingsRequest {
    EmbeddingsRequest { input: EmbeddingsInput::Many(inputs(v)), model: None }
}

/// Routes one request: the reply of each backend, where it can be asked at all.
fn routed(
    cfg: &EmbeddingsConfig,
    count: usize,
    local: BackendReply<f64>,
    fallback: BackendReply<f64>,
    key: Option<&str>,
) -> Result<EmbedOutcome<f64>, EmbeddingsError> {
    let local = call_local(cfg).map(|_| local);
    let fallback = call_openrouter(cfg, key.map(|k| k.to_string())).map(|_| fallback);
    route_embeddings(cfg, count, local, fallback)
}

fn with_local() -> EmbeddingsConfig {
    EmbeddingsConfig::test_default(
        Some("http://local.test/embed".to_string()),
        "http://fallback.test".to_string(),
    )
}

fn without_local() -> EmbeddingsConfig {
    EmbeddingsConfig::test_default(None, "http://fallback.test".to_string())
}

fn down() -> BackendReply<f64> {
    BackendReply::Unreachable("connection refused".to_string())
}

#[test]
fn deserialize_string_input() {
    let req = EmbeddingsRequest {
        input: EmbeddingsInput::One("hello world".to_string()),
        model: Some("whatever".to_string()),
    };
    assert_eq!(req.input.into_vec(), vec!["hello world".to_string()]);
}

#[test]
fn deserialize_array_input_preserves_order() {
    assert_eq!(many(&["a", "b", "c"]).input.into_vec(), vec!["a", "b", "c"]);
}

#[test]
fn validate_inputs_rejects_empty() {
    let err = validate_inputs(many(&[]), 256).unwrap_err();
    assert!(matches!(err, EmbeddingsError::EmptyInput));
}

#[test]
fn validate_inputs_rejects_oversized_batch() {
    let many: Vec<String> = (0..10).map(|i| format!("item-{i}")).collect();
    let req = EmbeddingsRequest {
        input: EmbeddingsInput::Many(many),
        model: None,
    };
    let err = validate_inputs(req, 5).unwrap_err();
    match err {
        EmbeddingsError::BatchTooLarge { max, got } => {
            assert_eq!(max, 5);
            assert_eq!(got, 10);
        }
        other => panic!("expected BatchTooLarge, got {other:?}"),
    }
}

#[test]
fn validate_inputs_ok_within_bounds() {
    let ok = validate_inputs(many(&["x", "y"]), 5).unwrap();
    assert_eq!(ok, vec!["x", "y"]);
}

#[test]
fn parse_openai_style_response_sorts_by_index() {
    let body = json(
        r#"{"data": [
            {"object":"embedding","index":1,"embedding":[3.0,4.0]},
            {"object":"embedding","index":0,"embedding":[1.0,2.0]}
        ]}"#,
    );
    let v = parse_embedding_vectors(&body, 2).unwrap();
    assert_eq!(v, vec![vec![1.0, 2.0], vec![3.0, 4.0]]);
}

#[test]
fn parse_ollama_batch_style_response() {
    let body = json(r#"{ "embeddings": [[1.0, 2.0], [3.0, 4.0]] }"#);
    let v = parse_embedding_vectors(&body, 2).unwrap();
    assert_eq!(v, vec![vec![1.0, 2.0], vec![3.0, 4.0]]);
}

#[test]
fn parse_ollama_legacy_single_response() {
    let body = json(r#"{ "embedding": [1.0, 2.0, 3.0] }"#);
    let v = parse_embedding_vectors(&body, 1).unwrap();
    assert_eq!(v, vec![vec![1.0, 2.0, 3.0]]);
}

#[test]
fn parse_legacy_single_response_rejected_for_multi_input() {
    let body = json(r#"{ "embedding": [1.0, 2.0, 3.0] }"#);
    assert!(parse_embedding_vectors(&body, 2).is_err());
}

#[test]
fn parse_unrecognized_shape_errors() {
    let body = json(r#"{ "nonsense": true }"#);
    assert!(parse_embedding_vectors(&body, 1).is_err());
}

#[test]
fn assert_dims_ok() {
    assert!(assert_dims(&[vec![0.0; 1024]], 1024).is_ok());
}

#[test]
fn assert_dims_rejects_mismatch() {
    assert!(assert_dims(&[vec![0.0; 768]], 1024).is_err());
}

#[test]
fn local_success_returns_local_vectors_no_fallback_call() {
    let cfg = with_local();
    assert_eq!(call_local(&cfg).unwrap().url, "http://local.test/embed");
    // The first step alone settles it: the other backend is not asked.
    let outcome = after_local(&cfg, 1, Ok(BackendReply::Body(one_vector(1.0, 1024)))).unwrap();
    assert_eq!(outcome.source, EmbedSource::Local);
    assert_eq!(outcome.vectors, vec![vec![1.0; 1024]]);

    let outcome = routed(
        &cfg,
        1,
        BackendReply::Body(one_vector(1.0, 1024)),
        BackendReply::Body(one_vector(2.0, 1024)),
        Some("sk-test"),
    )
    .unwrap();
    assert_eq!(outcome.source, EmbedSource::Local);
    assert_eq!(outcome.vectors, vec![vec![1.0; 1024]]);
}

#[test]
fn local_unreachable_falls_back_to_openrouter() {
    let cfg = with_local();
    let call = call_openrouter(&cfg, Some("sk-test".to_string())).unwrap();
    assert_eq!(call.url, "http://fallback.test/embeddings");
    assert_eq!(call.key.as_deref(), Some("sk-test"));
    let outcome = routed(
        &cfg,
        1,
        down(),
        BackendReply::Body(indexed(vec![(9.0, 0)])),
        Some("sk-test"),
    )
    .unwrap();
    assert_eq!(outcome.source, EmbedSource::Fallback);
    assert_eq!(outcome.vectors, vec![vec![9.0; 1024]]);
}

#[test]
fn local_404_model_not_pulled_falls_back() {
    let outcome = routed(
        &with_local(),
        1,
        BackendReply::Refused("404 Not Found".to_string()),
        BackendReply::Body(one_vector(5.0, 1024)),
        Some("sk-test"),
    )
    .unwrap();
    assert_eq!(outcome.source, EmbedSource::Fallback);
}

#[test]
fn openrouter_401_surfaces_as_structured_error_when_local_also_down() {
    let err = routed(
        &without_local(),
        1,
        down(),
        BackendReply::Refused("401 Unauthorized".to_string()),
        Some("bad-key"),
    )
    .unwrap_err();
    match err {
        EmbeddingsError::BothBackendsFailed { local, fallback } => {
            assert!(local.contains("not configured"));
            assert!(fallback.contains("401"));
        }
        other => panic!("expected BothBackendsFailed, got {other:?}"),
    }
}

#[test]
fn both_backends_unreachable_yields_structured_error() {
    let err = routed(&with_local(), 1, down(), down(), Some("sk-test")).unwrap_err();
    assert!(matches!(err, EmbeddingsError::BothBackendsFailed { .. }));
}

#[test]
fn wrong_dim_vector_from_local_is_rejected_and_falls_back() {
    let outcome = routed(
        &with_local(),
        1,
        BackendReply::Body(one_vector(0.0, 768)),
        BackendReply::Body(one_vector(0.0, 1024)),
        Some("sk-test"),
    )
    .unwrap();
    assert_eq!(outcome.source, EmbedSource::Fallback);
    assert_eq!(outcome.vectors[0].len(), 1024);
}

#[test]
fn wrong_dim_vector_from_fallback_is_a_hard_failure_never_returned() {
    let err = routed(
        &without_local(),
        1,
        down(),
        BackendReply::Body(one_vector(0.0, 42)),
        Some("sk-test"),
    )
    .unwrap_err();
    match err {
        EmbeddingsError::BothBackendsFailed { fallback, .. } => {
            assert!(fallback.contains("invalid output"));
            assert!(fallback.contains("dimension"));
        }
        other => panic!("expected BothBackendsFailed, got {other:?}"),
    }
}

#[test]
fn validate_output_rejects_too_few_embeddings() {
    let vecs = vec![vec![0.0; 1024]];
    assert!(validate_output(&vecs, 2, 1024).is_err());
}

#[test]
fn validate_output_rejects_too_many_embeddings() {
    let vecs = vec![vec![0.0; 1024], vec![0.0; 1024], vec![0.0; 1024]];
    assert!(validate_output(&vecs, 2, 1024).is_err());
}

#[test]
fn validate_output_accepts_exact_count_and_dim() {
    let vecs = vec![vec![0.0; 1024], vec![0.0; 1024]];
    assert!(validate_output(&vecs, 2, 1024).is_ok());
}

#[test]
fn local_wrong_count_falls_back_to_openrouter() {
    let outcome = routed(
        &with_local(),
        2,
        BackendReply::Body(one_vector(1.0, 1024)),
        BackendReply::Body(indexed(vec![(2.0, 0), (3.0, 1)])),
        Some("sk-test"),
    )
    .unwrap();
    assert_eq!(outcome.source, EmbedSource::Fallback);
    assert_eq!(outcome.vectors.len(), 2);
}

#[test]
fn both_wrong_count_yields_structured_5xx() {
    let err = routed(
        &with_local(),
        2,
        BackendReply::Body(one_vector(1.0, 1024)),
        BackendReply::Body(one_vector(2.0, 1024)),
        Some("sk-test"),
    )
    .unwrap_err();
    assert_eq!(err.status(), 502);
    match err {
        EmbeddingsError::BothBackendsFailed { local, fallback } => {
            assert!(local.contains("count mismatch"));
            assert!(fallback.contains("count mismatch"));
        }
        other => panic!("expected BothBackendsFailed, got {other:?}"),
    }
}

#[test]
fn no_openrouter_key_configured_is_a_clean_failure_not_a_panic() {
    let cfg = EmbeddingsConfig::test_default(None, "https://openrouter.ai/api/v1".to_string());
    let err = routed(&cfg, 1, down(), down(), None).unwrap_err();
    match err {
        EmbeddingsError::BothBackendsFailed { fallback, .. } => {
            assert!(fallback.contains("OPENROUTER_API_KEY"));
        }
        other => panic!("expected BothBackendsFailed, got {other:?}"),
    }
}

#[test]
fn error_json_never_leaks_the_api_key() {
    let err = EmbeddingsError::BothBackendsFailed {
        local: "local down".to_string(),
        fallback: "fallback returned HTTP 401 Unauthorized".to_string(),
    };
    let s = format!("{:?}", err.to_json());
    assert!(!s.contains("sk-"));
    assert!(!s.contains("Bearer"));
}

#[test]
fn build_response_preserves_order_and_shape() {
    let outcome = EmbedOutcome {
        vectors: vec![vec![1.0, 2.0], vec![3.0, 4.0]],
        source: EmbedSource::Local,
        model: "qwen3-embedding".to_string(),
    };
    let resp = build_response(&inputs(&["hello world", "hi"]), outcome);
    assert_eq!(resp.object, "list");
    assert_eq!(resp.data.len(), 2);
    assert_eq!(resp.data[0].index, 0);
    assert_eq!(resp.data[1].index, 1);
    assert_eq!(resp.data[0].embedding, vec![1.0, 2.0]);
    assert_eq!(resp.usage.prompt_tokens, 3); // "hello world" (2) + "hi" (1)
}

#[test]
fn error_bodies_say_what_is_wrong() {
    assert_eq!(EmbeddingsError::EmptyInput.status(), 400);
    assert_eq!(EmbeddingsError::EmptyInput.to_json().error, "input must not be empty");
    let big = EmbeddingsError::BatchTooLarge { max: 5, got: 10 };
    assert_eq!(big.status(), 400);
    assert!(big.to_json().error.starts_with("batch too large: 10"));
}

#[test]
fn settings_come_from_the_environment() {
    let mut env = Table::new();
    env.insert("EMBED_LOCAL_URL".to_string(), " http://h ".to_string());
    env.insert("OPENROUTER_API_KEY".to_string(), "  ".to_string());
    let cfg = EmbeddingsConfig::from_env(&env);
    assert_eq!(cfg.local_url.as_deref(), Some("http://h"));
    assert_eq!(cfg.local_model, "qwen3-embedding");
    assert!(openrouter_api_key(&env).is_none());
}

#[test]
fn replies_that_are_no_json_are_faults() {
    let cfg = without_local();
    let err = after_fallback::<f64>(
        &cfg,
        1,
        "local gone".to_string(),
        Ok(BackendReply::NotJson("eof".to_string())),
    )
    .unwrap_err();
    match err {
        EmbeddingsError::BothBackendsFailed { local, fallback } => {
            assert_eq!(local, "local gone");
            assert!(fallback.contains("eof"));
        }
        other => panic!("expected BothBackendsFailed, got {other:?}"),
    }
    assert_eq!(EmbedSource::Local.as_str(), "local");
    assert_eq!(EmbedSource::Fallback.as_str(), "fallback");
}
