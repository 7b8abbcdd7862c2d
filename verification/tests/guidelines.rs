use panthersdk::domain::{NullProvider, PantherError};
use panthersdk::guidelines::{parse_guidelines, read_guideline, read_guidelines};
use panthersdk::json::{Json, Member};
use panthersdk::validation::LLMValidator;

#[test]
fn guidelines_are_read_in_order() {
    let text = "[{\"topic\":\"diabetes\",\"expected_terms\":[\"glucose\",\"insulin\"]},\
                {\"expected_terms\":[],\"topic\":\"empty\",\"note\":42}]";
    let gs = parse_guidelines(text).unwrap();
    assert_eq!(gs.len(), 2);
    assert_eq!(gs[0].topic, "diabetes");
    assert_eq!(gs[0].expected_terms, vec!["glucose", "insulin"]);
    assert_eq!(gs[1].topic, "empty");
    assert!(gs[1].expected_terms.is_empty());
    assert!(parse_guidelines("[]").unwrap().is_empty());
}

#[test]
fn what_spells_no_guidelines_is_rejected() {
    let bad = [
        "",
        "{",
        "{}",
        "null",
        "[1]",
        "[{\"topic\":\"t\"}]",
        "[{\"expected_terms\":[]}]",
        "[{\"topic\":1,\"expected_terms\":[]}]",
        "[{\"topic\":\"t\",\"expected_terms\":\"a\"}]",
        "[{\"topic\":\"t\",\"expected_terms\":[\"a\",2]}]",
        "[{\"topic\":\"t\",\"expected_terms\":[]},[]]",
        "[[\"t\"]]",
        "[[\"t\",[],1]]",
        "[[[],\"t\"]]",
        "[[\"t\",[1]]]",
    ];
    for text in bad {
        match parse_guidelines(text) {
            Err(PantherError::InvalidInput(_)) => {},
            _ => panic!("expected {} to be rejected", text),
        }
    }
}

#[test]
fn the_last_of_repeated_keys_counts() {
    let j = Json::Object(vec![
        Member { key: "topic".into(), value: Json::Text("first".into()) },
        Member { key: "expected_terms".into(), value: Json::Array(vec![]) },
        Member { key: "topic".into(), value: Json::Text("second".into()) },
    ]);
    assert_eq!(read_guideline(&j).unwrap().topic, "second");
    let shadowed = Json::Object(vec![
        Member { key: "topic".into(), value: Json::Text("t".into()) },
        Member { key: "expected_terms".into(), value: Json::Array(vec![]) },
        Member { key: "topic".into(), value: Json::Null },
    ]);
    assert!(read_guideline(&shadowed).is_none());
    assert!(read_guidelines(&Json::Array(vec![shadowed])).is_err());
    assert!(read_guidelines(&Json::Null).is_err());
}

#[test]
fn a_validator_is_built_from_json() {
    let v = LLMValidator::from_json_str(
        "[{\"topic\":\"x\",\"expected_terms\":[\"echo\",\"absent\"]}]",
        vec![("null".to_string(), NullProvider)],
    )
    .unwrap();
    let results = v.validate("hello").unwrap();
    assert_eq!(results.len(), 1);
    assert_eq!(results[0].provider_name, "null");
    assert_eq!(results[0].raw_text, "echo: hello");
    assert_eq!(results[0].adherence_score.basis_points(), 5000);
    assert_eq!(results[0].missing_terms, vec!["absent"]);
    assert!(LLMValidator::from_json_str("nope", vec![("n".to_string(), NullProvider)]).is_err());
}

#[test]
fn a_guideline_may_be_spelled_as_a_pair() {
    let gs = parse_guidelines("[[\"x\",[\"a\",\"b\"]],{\"topic\":\"y\",\"expected_terms\":[]}]").unwrap();
    assert_eq!(gs.len(), 2);
    assert_eq!(gs[0].topic, "x");
    assert_eq!(gs[0].expected_terms, vec!["a", "b"]);
    assert_eq!(gs[1].topic, "y");
}
