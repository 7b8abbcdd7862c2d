use panthersdk::clock::{now_ms, Utc};
use panthersdk::domain::{Completion, LlmProvider, PantherError, Prompt};
use panthersdk::validation::{
    elapsed_ms, expected_terms, provider_result, rank_results, score_lowered, score_text,
    Guideline, LLMValidator, Score, ValidationResult,
};

enum Backend {
    Says(String),
    Fails(String),
}

impl LlmProvider for Backend {
    fn generate(&self, _prompt: &Prompt) -> Result<Completion, PantherError> {
        match self {
            Backend::Says(text) => Ok(Completion { text: text.clone(), model: None }),
            Backend::Fails(why) => Err(PantherError::Provider(why.clone())),
        }
    }
}

fn terms(list: &[&str]) -> Vec<String> {
    list.iter().map(|s| s.to_string()).collect()
}

fn guideline(topic: &str, list: &[&str]) -> Guideline {
    Guideline { topic: topic.to_string(), expected_terms: terms(list) }
}

fn result(name: &str, hits: usize, total: usize) -> ValidationResult {
    ValidationResult {
        provider_name: name.to_string(),
        adherence_score: Score { hits, total },
        missing_terms: vec![],
        latency_ms: 0,
        raw_text: String::new(),
    }
}

#[test]
fn three_terms_of_four_score_75() {
    let expected = terms(&["glucose", "insulin", "pancreas", "hba1c"]);
    let (score, missing) = score_text("Glucose and INSULIN and the pancreas", &expected);
    assert_eq!(score, Score { hits: 3, total: 4 });
    assert_eq!(score.basis_points(), 7500);
    assert_eq!(missing, terms(&["hba1c"]));
    assert_eq!(missing.len(), 1);
}

#[test]
fn no_expected_terms_score_100_whatever_the_text() {
    for text in ["", "anything at all", "glucose"] {
        let (score, missing) = score_text(text, &vec![]);
        assert_eq!(score, Score { hits: 1, total: 1 });
        assert_eq!(score.basis_points(), 10000);
        assert!(missing.is_empty());
    }
}

#[test]
fn matching_ignores_case_and_takes_substrings() {
    let expected = terms(&["HbA1c", "gluc", "INSULIN"]);
    let (score, missing) = score_text("hba1c; Glucose", &expected);
    assert_eq!(score, Score { hits: 2, total: 3 });
    assert_eq!(score.basis_points(), 6666);
    assert_eq!(missing, terms(&["INSULIN"]));
}

#[test]
fn nothing_found_scores_zero() {
    let expected = terms(&["a", "b"]);
    let (score, missing) = score_text("xyz", &expected);
    assert_eq!(score, Score { hits: 0, total: 2 });
    assert_eq!(score.basis_points(), 0);
    assert_eq!(missing, expected);
}

#[test]
fn score_lowered_compares_as_given() {
    let given = terms(&["Glucose", "Insulin"]);
    let lower = terms(&["glucose", "insulin"]);
    let (score, missing) = score_lowered("glucose only", &given, &lower);
    assert_eq!(score, Score { hits: 1, total: 2 });
    assert_eq!(missing, terms(&["Insulin"]));
    let (score, missing) = score_lowered("Glucose Insulin", &given, &lower);
    assert_eq!(score, Score { hits: 0, total: 2 });
    assert_eq!(missing, given);
}

#[test]
fn expected_terms_keep_duplicates() {
    let gs = vec![guideline("a", &["x", "y"]), guideline("b", &[]), guideline("c", &["x"])];
    assert_eq!(expected_terms(&gs), terms(&["x", "y", "x"]));
    let (score, missing) = score_text("only y here", &expected_terms(&gs));
    assert_eq!(score, Score { hits: 1, total: 3 });
    assert_eq!(missing, terms(&["x", "x"]));
}

#[test]
fn scores_compare_as_fractions() {
    let half = Score { hits: 1, total: 2 };
    let two_quarters = Score { hits: 2, total: 4 };
    let third = Score { hits: 1, total: 3 };
    assert!(half.is_at_least(&two_quarters));
    assert!(two_quarters.is_at_least(&half));
    assert!(half.is_at_least(&third));
    assert!(!third.is_at_least(&half));
    assert!(Score::full().is_at_least(&half));
    assert!(!Score::zero().is_at_least(&third));
    assert_eq!(Score::zero().basis_points(), 0);
}

#[test]
fn a_failed_backend_becomes_a_result() {
    let expected = terms(&["a", "b"]);
    let r = provider_result(
        "A".to_string(),
        &expected,
        Err(PantherError::Provider("connection refused".into())),
        12,
    );
    assert_eq!(r.provider_name, "A");
    assert_eq!(r.adherence_score, Score { hits: 0, total: 1 });
    assert_eq!(r.adherence_score.basis_points(), 0);
    assert_eq!(r.missing_terms, expected);
    assert_eq!(r.latency_ms, 12);
    assert_eq!(r.raw_text, "error: connection refused");
}

#[test]
fn a_completion_becomes_a_scored_result() {
    let expected = terms(&["a", "b"]);
    let c = Completion { text: "A only".into(), model: Some("m".into()) };
    let r = provider_result("B".to_string(), &expected, Ok(c), -3);
    assert_eq!(r.provider_name, "B");
    assert_eq!(r.adherence_score, Score { hits: 1, total: 2 });
    assert_eq!(r.missing_terms, terms(&["b"]));
    assert_eq!(r.latency_ms, -3);
    assert_eq!(r.raw_text, "A only");
}

#[test]
fn one_failing_backend_does_not_affect_the_other() {
    let gs = vec![guideline("x", &["glucose", "insulin"])];
    let providers = vec![
        ("A".to_string(), Backend::Fails("boom".into())),
        ("B".to_string(), Backend::Says("glucose and insulin".into())),
    ];
    let v = LLMValidator::new(gs, providers);
    let results = v.validate("q").unwrap();
    assert_eq!(results.len(), 2);
    assert_eq!(results[0].provider_name, "B");
    assert_eq!(results[0].adherence_score.basis_points(), 10000);
    assert!(results[0].missing_terms.is_empty());
    assert_eq!(results[0].raw_text, "glucose and insulin");
    assert_eq!(results[1].provider_name, "A");
    assert_eq!(results[1].adherence_score.basis_points(), 0);
    assert!(results[1].raw_text.starts_with("error:"));
    assert_eq!(results[1].raw_text, "error: boom");
    assert_eq!(results[1].missing_terms, terms(&["glucose", "insulin"]));

    let alone = LLMValidator::new(
        vec![guideline("x", &["glucose", "insulin"])],
        vec![("B".to_string(), Backend::Says("glucose and insulin".into()))],
    );
    let only = alone.validate("q").unwrap();
    assert_eq!(only[0].adherence_score, results[0].adherence_score);
    assert_eq!(only[0].missing_terms, results[0].missing_terms);
    assert_eq!(only[0].raw_text, results[0].raw_text);
}

#[test]
fn end_to_end_two_backends_are_ranked() {
    let gs = vec![guideline("x", &["glucose", "insulin"])];
    let providers = vec![
        ("alpha".to_string(), Backend::Says("insulin regulates everything".into())),
        ("beta".to_string(), Backend::Says("glucose is sugar insulin helps".into())),
    ];
    let results = LLMValidator::new(gs, providers).validate("q").unwrap();
    assert_eq!(results.len(), 2);
    assert_eq!(results[0].provider_name, "beta");
    assert_eq!(results[0].adherence_score.basis_points(), 10000);
    assert_eq!(results[1].provider_name, "alpha");
    assert_eq!(results[1].adherence_score.basis_points(), 5000);
    assert_eq!(results[1].missing_terms, terms(&["glucose"]));
}

#[test]
fn no_backend_is_a_configuration_error() {
    let v: LLMValidator<Backend> = LLMValidator::new(vec![guideline("x", &["a"])], vec![]);
    match v.validate("q") {
        Err(PantherError::Config(m)) => assert_eq!(m, "no providers configured"),
        _ => panic!("expected a configuration error"),
    }
}

#[test]
fn collect_keeps_the_order_of_the_backends() {
    let providers = vec![
        ("low".to_string(), Backend::Says("nothing".into())),
        ("high".to_string(), Backend::Says("a".into())),
    ];
    let v = LLMValidator::new(vec![guideline("x", &["a"])], providers);
    let unsorted = v.collect("q");
    assert_eq!(unsorted[0].provider_name, "low");
    assert_eq!(unsorted[1].provider_name, "high");
}

#[test]
fn ranking_is_descending_and_keeps_every_result() {
    let input = vec![
        result("a", 1, 4),
        result("b", 4, 4),
        result("c", 0, 1),
        result("d", 1, 2),
        result("e", 2, 4),
        result("f", 1, 1),
    ];
    let out = rank_results(input);
    assert_eq!(out.len(), 6);
    for w in out.windows(2) {
        assert!(w[0].adherence_score.is_at_least(&w[1].adherence_score));
    }
    let mut names: Vec<&str> = out.iter().map(|r| r.provider_name.as_str()).collect();
    names.sort();
    assert_eq!(names, vec!["a", "b", "c", "d", "e", "f"]);
    assert_eq!(out[5].provider_name, "c");
    assert_eq!(out[4].provider_name, "a");
    assert!(rank_results(vec![]).is_empty());
}

#[test]
fn tied_scores_are_all_returned() {
    let out = rank_results(vec![result("x", 1, 2), result("y", 2, 4), result("z", 3, 6)]);
    let mut names: Vec<&str> = out.iter().map(|r| r.provider_name.as_str()).collect();
    names.sort();
    assert_eq!(names, vec!["x", "y", "z"]);
}

#[test]
fn elapsed_time_saturates() {
    assert_eq!(elapsed_ms(10, 25), 15);
    assert_eq!(elapsed_ms(25, 10), -15);
    assert_eq!(elapsed_ms(i64::MIN, i64::MAX), i64::MAX);
    assert_eq!(elapsed_ms(i64::MAX, i64::MIN), i64::MIN);
    assert_eq!(elapsed_ms(0, 0), 0);
}

#[test]
fn the_clock_reads_a_time_after_2020() {
    assert!(now_ms() > 1_577_836_800_000);
    assert!(Utc::now().timestamp_millis() > 1_577_836_800_000);
}

#[test]
fn duplicates_have_the_same_fields() {
    let r = ValidationResult {
        provider_name: "p".into(),
        adherence_score: Score { hits: 1, total: 3 },
        missing_terms: terms(&["a", "b"]),
        latency_ms: 9,
        raw_text: "raw".into(),
    };
    let d = r.duplicate();
    assert_eq!(d.provider_name, r.provider_name);
    assert_eq!(d.adherence_score, r.adherence_score);
    assert_eq!(d.missing_terms, r.missing_terms);
    assert_eq!(d.latency_ms, r.latency_ms);
    assert_eq!(d.raw_text, r.raw_text);
}
