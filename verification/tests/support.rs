use panthersdk::agents::ProviderCfg;
use panthersdk::domain::PantherError;
use panthersdk::providers::{choose_provider, select_providers, ProviderChoice, ProviderFactory};
use panthersdk::runtime::{generate_tests, run_test_suite, TestCase};
use panthersdk::storage::{InMemoryStore, KeyValueStore};
use panthersdk::results_text::{are_results_spelled, is_result_spelled};
use panthersdk::json::Json;
use panthersdk::text::{decimal, signed_decimal};
use panthersdk::validation::{Score, ValidationResult};

fn cfg(ty: &str, base: Option<&str>, model: Option<&str>, key: Option<&str>) -> ProviderCfg {
    ProviderCfg {
        ty: ty.to_string(),
        base_url: base.map(|s| s.to_string()),
        model: model.map(|s| s.to_string()),
        api_key: key.map(|s| s.to_string()),
    }
}

#[test]
fn in_memory_store_roundtrip() {
    let mut s = InMemoryStore::default();
    s.set("k", "v".into()).unwrap();
    assert_eq!(s.get("k").unwrap(), Some("v".into()));
    s.delete("k").unwrap();
    assert_eq!(s.get("k").unwrap(), None);
}

#[test]
fn store_replaces_and_keeps_other_keys() {
    let mut s = InMemoryStore::new();
    s.set("a", "1".into()).unwrap();
    s.set("b", "2".into()).unwrap();
    s.set("a", "3".into()).unwrap();
    assert_eq!(s.get("a").unwrap(), Some("3".into()));
    assert_eq!(s.get("b").unwrap(), Some("2".into()));
    s.delete("missing").unwrap();
    s.delete("a").unwrap();
    assert_eq!(s.get("a").unwrap(), None);
    assert_eq!(s.get("b").unwrap(), Some("2".into()));
    assert_eq!(s.get("").unwrap(), None);
}

#[test]
fn decimal_writes_numbers() {
    assert_eq!(decimal(0), "0");
    assert_eq!(decimal(7), "7");
    assert_eq!(decimal(10), "10");
    assert_eq!(decimal(4096), "4096");
    assert_eq!(decimal(u64::MAX), "18446744073709551615");
}

#[test]
fn suite_runs_every_case() {
    let suite = vec![
        TestCase { input: "a".into(), expected: Some("A".into()) },
        TestCase { input: "b".into(), expected: Some("x".into()) },
        TestCase { input: "c".into(), expected: None },
    ];
    let out = run_test_suite(&suite, |s: &str| s.to_uppercase());
    assert_eq!(out.len(), 3);
    assert_eq!((out[0].index, out[0].passed, out[0].output.as_str()), (0, true, "A"));
    assert_eq!((out[1].index, out[1].passed, out[1].output.as_str()), (1, false, "B"));
    assert_eq!((out[2].index, out[2].passed, out[2].output.as_str()), (2, true, "C"));
    assert!(run_test_suite(&[], |s: &str| s.to_string()).is_empty());
}

#[test]
fn two_cases_are_written_per_example() {
    let out = generate_tests("health", &["dose".to_string(), "risk".to_string()]);
    assert_eq!(
        out,
        vec![
            "[1] health :: dose",
            "[1a] health :: dose?",
            "[2] health :: risk",
            "[2a] health :: risk?",
        ]
    );
    assert!(generate_tests("d", &[]).is_empty());
}

#[test]
fn configurations_select_backends() {
    let cfgs = vec![
        cfg("openai", None, Some("gpt"), Some("key")),
        cfg("openai", Some("http://x"), Some("m"), None),
        cfg("other", Some("http://x"), Some("m"), Some("k")),
        cfg("ollama", Some("http://o"), Some("llama3"), None),
        cfg("ollama", None, Some("llama3"), None),
        cfg("openai", Some("http://own"), Some("m2"), Some("k2")),
    ];
    let picked = select_providers(&cfgs).unwrap();
    assert_eq!(picked.len(), 3);
    assert_eq!(picked[0].0, "openai:gpt");
    match &picked[0].1 {
        ProviderChoice::OpenAi(p) => {
            assert_eq!(p.api_key, "key");
            assert_eq!(p.model, "gpt");
            assert_eq!(p.base_url, "https://api.openai.com");
        },
        _ => panic!("expected an openai backend"),
    }
    assert_eq!(picked[1].0, "ollama:llama3");
    match &picked[1].1 {
        ProviderChoice::Ollama(p) => {
            assert_eq!(p.base_url, "http://o");
            assert_eq!(p.model, "llama3");
        },
        _ => panic!("expected an ollama backend"),
    }
    assert_eq!(picked[2].0, "openai:m2");
    match &picked[2].1 {
        ProviderChoice::OpenAi(p) => assert_eq!(p.base_url, "http://own"),
        _ => panic!("expected an openai backend"),
    }
    assert!(choose_provider(&cfgs[1]).is_none());
    assert!(choose_provider(&cfgs[2]).is_none());
}

#[test]
fn no_selected_backend_is_a_configuration_error() {
    for cfgs in [vec![], vec![cfg("openai", None, None, Some("k")), cfg("x", None, None, None)]] {
        match select_providers(&cfgs) {
            Err(PantherError::Config(m)) => assert_eq!(m, "no providers configured"),
            _ => panic!("expected a configuration error"),
        }
    }
}

#[test]
fn factory_fills_in_defaults() {
    let (label, p) = ProviderFactory::openai("k".into(), None, None);
    assert_eq!(label, "openai:gpt-4o-mini");
    assert_eq!((p.api_key.as_str(), p.base_url.as_str()), ("k", "https://api.openai.com"));
    let (label, p) = ProviderFactory::openai("k".into(), Some("m".into()), Some("b".into()));
    assert_eq!(label, "openai:m");
    assert_eq!(p.base_url, "b");
    let (label, p) = ProviderFactory::ollama(None, None);
    assert_eq!(label, "ollama:llama3");
    assert_eq!(p.base_url, "http://localhost:11434");
    let (label, p) = ProviderFactory::ollama(Some("h".into()), Some("phi".into()));
    assert_eq!((label.as_str(), p.base_url.as_str(), p.model.as_str()), ("ollama:phi", "h", "phi"));
}

#[test]
fn error_detail_is_the_message() {
    assert_eq!(PantherError::Provider("a".into()).detail(), "a");
    assert_eq!(PantherError::InvalidInput("b".into()).detail(), "b");
    assert_eq!(PantherError::Config("c".into()).detail(), "c");
    assert_eq!(PantherError::StageExhausted("d".into()).detail(), "d");
    assert_eq!(PantherError::Provider("a".into()).message(), "provider error: a");
    assert_eq!(PantherError::InvalidInput("b".into()).message(), "invalid input: b");
    assert_eq!(PantherError::Config("c".into()).message(), "configuration error: c");
    assert_eq!(PantherError::StageExhausted("d".into()).message(), "stage exhausted: d");
}

#[test]
fn signed_decimal_writes_whole_numbers() {
    assert_eq!(signed_decimal(0), "0");
    assert_eq!(signed_decimal(42), "42");
    assert_eq!(signed_decimal(-7), "-7");
    assert_eq!(signed_decimal(i64::MAX), "9223372036854775807");
    assert_eq!(signed_decimal(i64::MIN), "-9223372036854775808");
}

#[test]
fn results_are_recognised_in_their_text() {
    let r = ValidationResult {
        provider_name: "a".into(),
        adherence_score: Score { hits: 1, total: 2 },
        missing_terms: vec!["x".into()],
        latency_ms: -3,
        raw_text: "t".into(),
    };
    let good = Json::parse(
        "{\"provider_name\":\"a\",\"adherence_score\":50.0,\"missing_terms\":[\"x\"],\"latency_ms\":-3,\"cost\":null,\"raw_text\":\"t\"}",
    )
    .unwrap();
    assert!(is_result_spelled(&good, &r));
    let float_latency = Json::parse(
        "{\"provider_name\":\"a\",\"adherence_score\":50.0,\"missing_terms\":[\"x\"],\"latency_ms\":-3.0,\"raw_text\":\"t\"}",
    )
    .unwrap();
    assert!(!is_result_spelled(&float_latency, &r));
    assert!(!is_result_spelled(&Json::Null, &r));
    assert!(are_results_spelled(&Json::Array(vec![]), &vec![]));
    assert!(!are_results_spelled(&Json::Array(vec![]), &vec![r.duplicate()]));
    assert!(are_results_spelled(&Json::Array(vec![good]), &vec![r.duplicate()]));
    assert!(!are_results_spelled(&Json::Null, &vec![]));
}
