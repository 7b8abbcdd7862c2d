use panthersdk::attestation::{
    build_input_bundle, compute_proof_at, hash_concat_hex, hash_json, seal_values,
    verify_proof_local, ProofContext,
};
use panthersdk::digest::sha3_512_hex;
use panthersdk::json::{canonicalize, key_at_most, Json, Member};

fn member(key: &str, value: Json) -> Member {
    Member { key: key.to_string(), value }
}

fn num(text: &str) -> Json {
    Json::Number(text.to_string())
}

fn ctx(salt: Option<&str>) -> ProofContext {
    ProofContext { sdk_version: "t".into(), salt: salt.map(|s| s.to_string()) }
}

#[test]
fn sha3_512_of_empty_input_is_the_known_digest() {
    assert_eq!(
        sha3_512_hex(b""),
        "a69f73cca23a9ac5c8b567dc185a756e97c982164fe25859e0d1dcc1475c80a6\
         15b2123af1f5f94c11e3e9402c3ac558f500199d95b6d3e301758586281dcd26"
    );
}

#[test]
fn sha3_512_of_abc_is_the_known_digest() {
    assert_eq!(
        sha3_512_hex(b"abc"),
        "b751850b1a57168a5693cd924b6b096e08f621827444f70d884f5d0240d2712e\
         10e116e9192af3c91a7ec57647e3934057340b4cf408d5a56592f8274eec53f0"
    );
}

#[test]
fn hash_of_null_is_the_digest_of_its_text() {
    assert_eq!(hash_json(&Json::Null), sha3_512_hex(b"null"));
}

#[test]
fn concat_hash_runs_over_the_hex_texts() {
    assert_eq!(hash_concat_hex("ab", "cd"), sha3_512_hex(b"abcd"));
    assert_ne!(hash_concat_hex("ab", "cd"), hash_concat_hex("cd", "ab"));
}

#[test]
fn compact_text_of_each_kind_of_value() {
    assert_eq!(Json::Null.to_bytes(), b"null".to_vec());
    assert_eq!(Json::Bool(true).to_bytes(), b"true".to_vec());
    assert_eq!(Json::Bool(false).to_bytes(), b"false".to_vec());
    assert_eq!(num("-12.5").to_bytes(), b"-12.5".to_vec());
    assert_eq!(Json::Text("hi".into()).to_bytes(), b"\"hi\"".to_vec());
    assert_eq!(Json::Array(vec![]).to_bytes(), b"[]".to_vec());
    assert_eq!(Json::Object(vec![]).to_bytes(), b"{}".to_vec());
    let v = Json::Array(vec![num("1"), Json::Null, Json::Text("x".into())]);
    assert_eq!(v.to_bytes(), b"[1,null,\"x\"]".to_vec());
    let o = Json::Object(vec![member("b", num("2")), member("a", Json::Array(vec![num("1")]))]);
    assert_eq!(o.to_bytes(), b"{\"a\":[1],\"b\":2}".to_vec());
    assert_eq!(num("not a number").to_bytes(), b"null".to_vec());
    assert_eq!(num("1e2").to_bytes(), b"100.0".to_vec());
}

#[test]
fn strings_are_escaped() {
    let s = Json::Text("a\"b\\c\n\r\t\u{8}\u{c}\u{1}\u{1f}/é€".into());
    let expected = "\"a\\\"b\\\\c\\n\\r\\t\\b\\f\\u0001\\u001f/é€\"";
    assert_eq!(s.to_bytes(), expected.as_bytes().to_vec());
}

#[test]
fn canonical_form_orders_keys_at_every_depth() {
    let inner = Json::Object(vec![member("z", num("1")), member("y", num("2"))]);
    let v = Json::Object(vec![
        member("b", Json::Array(vec![inner])),
        member("a", Json::Null),
        member("B", Json::Bool(true)),
    ]);
    assert_eq!(
        v.canonical_bytes(),
        b"{\"B\":true,\"a\":null,\"b\":[{\"y\":2,\"z\":1}]}".to_vec()
    );
    assert_eq!(canonicalize(&v).to_bytes(), v.canonical_bytes());
}

fn keys_and_texts(j: &Json) -> Vec<(String, Vec<u8>)> {
    match j {
        Json::Object(members) => {
            members.iter().map(|m| (m.key.clone(), m.value.to_bytes())).collect()
        },
        _ => panic!("expected an object"),
    }
}

#[test]
fn canonical_form_keeps_equal_keys_in_order() {
    let v = Json::Object(vec![member("k", num("1")), member("a", num("0")), member("k", num("2"))]);
    let c = canonicalize(&v);
    assert_eq!(
        keys_and_texts(&c),
        vec![
            ("a".to_string(), b"0".to_vec()),
            ("k".to_string(), b"1".to_vec()),
            ("k".to_string(), b"2".to_vec()),
        ]
    );
    assert_eq!(v.canonical_bytes(), b"{\"a\":0,\"k\":2}".to_vec());
}

#[test]
fn canonical_form_orders_the_entries_themselves() {
    let inner = Json::Object(vec![member("z", num("1")), member("y", num("2"))]);
    let v = Json::Object(vec![member("b", inner), member("a", Json::Null), member("B", num("3"))]);
    let c = canonicalize(&v);
    let entries = keys_and_texts(&c);
    let keys: Vec<&str> = entries.iter().map(|e| e.0.as_str()).collect();
    assert_eq!(keys, vec!["B", "a", "b"]);
    match &c {
        Json::Object(members) => {
            let nested: Vec<String> = keys_and_texts(&members[2].value).into_iter().map(|e| e.0).collect();
            assert_eq!(nested, vec!["y", "z"]);
        },
        _ => panic!("expected an object"),
    }
}

#[test]
fn key_order_is_by_bytes() {
    assert!(key_at_most("", "a"));
    assert!(key_at_most("a", "a"));
    assert!(key_at_most("a", "ab"));
    assert!(!key_at_most("ab", "a"));
    assert!(key_at_most("Z", "a"));
    assert!(!key_at_most("a", "Z"));
    assert!(key_at_most("z", "é"));
    assert!(!key_at_most("é", "z"));
}

#[test]
fn key_order_does_not_change_the_hash() {
    let ab = Json::Object(vec![member("a", num("1")), member("b", num("2"))]);
    let ba = Json::Object(vec![member("b", num("2")), member("a", num("1"))]);
    assert_eq!(hash_json(&ab), hash_json(&ba));
    assert_eq!(hash_json(&ab), sha3_512_hex(b"{\"a\":1,\"b\":2}"));

    let p = Json::parse("{\"a\":1,\"b\":2}").unwrap();
    let q = Json::parse("{\"b\":2,\"a\":1}").unwrap();
    assert_eq!(hash_json(&p), hash_json(&q));
    assert_eq!(hash_json(&p), hash_json(&ab));
}

#[test]
fn array_order_changes_the_hash() {
    let x = Json::Array(vec![num("1"), num("2")]);
    let y = Json::Array(vec![num("2"), num("1")]);
    assert_ne!(hash_json(&x), hash_json(&y));
    let p = Json::parse("[1,2]").unwrap();
    let q = Json::parse("[2,1]").unwrap();
    assert_ne!(hash_json(&p), hash_json(&q));
}

#[test]
fn parsing_rejects_what_is_not_json() {
    assert!(Json::parse("{").is_none());
    assert!(Json::parse("").is_none());
    assert!(Json::parse("[1,]").is_none());
    assert!(Json::parse("nul").is_none());
    assert_eq!(Json::parse_or_null("{").to_bytes(), b"null".to_vec());
    assert_eq!(Json::parse_or_null(" [ 1 , 2 ] ").to_bytes(), b"[1,2]".to_vec());
}

#[test]
fn text_agrees_with_serde_json() {
    let samples = [
        "null",
        "true",
        "[]",
        "{}",
        "0",
        "-7",
        "18446744073709551615",
        "75.0",
        "66.66666666666667",
        "1e2",
        "1.5e-7",
        "\"plain\"",
        "\"q\\\"b\\\\s\\/n\\nt\\tu\\u0000\\u001f\\u00e9\\ud83d\\ude00\"",
        "[1,[2,[3,{\"k\":[]}]],\"x\"]",
        "{\"b\":{\"d\":1,\"c\":2},\"a\":[{\"z\":null,\"y\":false}],\"\":0}",
        "[{\"provider_name\":\"p\",\"adherence_score\":50.0,\"missing_terms\":[\"glucose\"],\"latency_ms\":3,\"cost\":null,\"raw_text\":\"insulin\"}]",
    ];
    for text in samples {
        let theirs: serde_json::Value = serde_json::from_str(text).unwrap();
        let ours = Json::parse(text).unwrap();
        assert_eq!(ours.to_bytes(), serde_json::to_vec(&theirs).unwrap(), "text of {}", text);
        assert_eq!(ours.canonical_bytes(), serde_json::to_vec(&theirs).unwrap(), "canon of {}", text);
    }
}

#[test]
fn input_hash_is_the_hash_of_the_bundle() {
    let p = compute_proof_at("hello", "[1]", "{\"g\":2}", "[]", &ctx(Some("s")), 0);
    let bundle = b"{\"guidelines\":{\"g\":2},\"prompt\":\"hello\",\"providers\":[1],\"salt\":\"s\"}";
    assert_eq!(p.input_hash, sha3_512_hex(bundle));
    assert_eq!(p.providers_hash, sha3_512_hex(b"[1]"));
    assert_eq!(p.guidelines_hash, sha3_512_hex(b"{\"g\":2}"));
    assert_eq!(p.results_hash, sha3_512_hex(b"[]"));
    let joined = format!("{}{}", p.input_hash, p.results_hash);
    assert_eq!(p.combined_hash, sha3_512_hex(joined.as_bytes()));
    assert!(p.salt_present);

    let q = compute_proof_at("hello", "[1]", "{\"g\":2}", "[]", &ctx(None), 0);
    let bare = b"{\"guidelines\":{\"g\":2},\"prompt\":\"hello\",\"providers\":[1],\"salt\":null}";
    assert_eq!(q.input_hash, sha3_512_hex(bare));
    assert!(!q.salt_present);
}

#[test]
fn malformed_inputs_hash_as_null() {
    let bad = compute_proof_at("p", "{not json", "also not", "]", &ctx(None), 0);
    let null = compute_proof_at("p", "null", "null", "null", &ctx(None), 0);
    assert_eq!(bad.combined_hash, null.combined_hash);
    assert_eq!(bad.providers_hash, sha3_512_hex(b"null"));
}

#[test]
fn identical_inputs_give_identical_hashes() {
    let a = compute_proof_at("p", "[]", "[]", "[1]", &ctx(Some("s")), 1);
    let b = compute_proof_at("p", "[]", "[]", "[1]", &ctx(Some("s")), 999);
    assert_eq!(a.combined_hash, b.combined_hash);
    assert_eq!(a.input_hash, b.input_hash);
    assert_eq!(a.results_hash, b.results_hash);
    let other_version = ProofContext { sdk_version: "other".into(), salt: Some("s".into()) };
    let c = compute_proof_at("p", "[]", "[]", "[1]", &other_version, 1);
    assert_eq!(a.combined_hash, c.combined_hash);
}

#[test]
fn salt_changes_input_and_combined_hash() {
    let a = compute_proof_at("p", "[]", "[]", "[]", &ctx(Some("s1")), 0);
    let b = compute_proof_at("p", "[]", "[]", "[]", &ctx(Some("s2")), 0);
    let c = compute_proof_at("p", "[]", "[]", "[]", &ctx(None), 0);
    assert_ne!(a.input_hash, b.input_hash);
    assert_ne!(a.combined_hash, b.combined_hash);
    assert_ne!(a.input_hash, c.input_hash);
    assert_eq!(a.results_hash, b.results_hash);
    assert!(verify_proof_local(&a, "p", "[]", "[]", "[]", Some("s1".into())));
    assert!(!verify_proof_local(&a, "p", "[]", "[]", "[]", Some("s2".into())));
    assert!(!verify_proof_local(&a, "p", "[]", "[]", "[]", None));
}

#[test]
fn each_result_field_changes_results_and_combined_hash() {
    let base = "[{\"provider_name\":\"p\",\"adherence_score\":50.0,\"missing_terms\":[\"g\"],\"latency_ms\":3,\"cost\":null,\"raw_text\":\"t\"}]";
    let changed = [
        "[{\"provider_name\":\"q\",\"adherence_score\":50.0,\"missing_terms\":[\"g\"],\"latency_ms\":3,\"cost\":null,\"raw_text\":\"t\"}]",
        "[{\"provider_name\":\"p\",\"adherence_score\":51.0,\"missing_terms\":[\"g\"],\"latency_ms\":3,\"cost\":null,\"raw_text\":\"t\"}]",
        "[{\"provider_name\":\"p\",\"adherence_score\":50.0,\"missing_terms\":[\"h\"],\"latency_ms\":3,\"cost\":null,\"raw_text\":\"t\"}]",
        "[{\"provider_name\":\"p\",\"adherence_score\":50.0,\"missing_terms\":[\"g\"],\"latency_ms\":4,\"cost\":null,\"raw_text\":\"t\"}]",
        "[{\"provider_name\":\"p\",\"adherence_score\":50.0,\"missing_terms\":[\"g\"],\"latency_ms\":3,\"cost\":0.1,\"raw_text\":\"t\"}]",
        "[{\"provider_name\":\"p\",\"adherence_score\":50.0,\"missing_terms\":[\"g\"],\"latency_ms\":3,\"cost\":null,\"raw_text\":\"u\"}]",
    ];
    let a = compute_proof_at("p", "[]", "[]", base, &ctx(None), 0);
    for other in changed {
        let b = compute_proof_at("p", "[]", "[]", other, &ctx(None), 0);
        assert_ne!(a.results_hash, b.results_hash);
        assert_ne!(a.combined_hash, b.combined_hash);
        assert_eq!(a.input_hash, b.input_hash);
    }
}

#[test]
fn verification_ignores_time_version_and_salt_flag() {
    let mut p = compute_proof_at("p", "[]", "[]", "[]", &ctx(Some("s")), 5);
    p.timestamp_ms = 77;
    p.sdk_version = "forged".into();
    p.salt_present = false;
    assert!(verify_proof_local(&p, "p", "[]", "[]", "[]", Some("s".into())));
    p.combined_hash.push('0');
    assert!(!verify_proof_local(&p, "p", "[]", "[]", "[]", Some("s".into())));
}

#[test]
fn sealing_values_agrees_with_sealing_their_text() {
    let providers = Json::parse("[{\"b\":1,\"a\":2}]").unwrap();
    let guidelines = Json::Array(vec![]);
    let results = Json::Array(vec![num("3")]);
    let p = seal_values("q", providers, guidelines, &results, &ctx(Some("s")), 9);
    let q = compute_proof_at("q", "[{\"a\":2,\"b\":1}]", "[]", "[3]", &ctx(Some("s")), 9);
    assert_eq!(p.combined_hash, q.combined_hash);
    assert_eq!(p.input_hash, q.input_hash);
    assert_eq!(p.providers_hash, q.providers_hash);
    assert_eq!(p.timestamp_ms, 9);
}

#[test]
fn the_input_bundle_holds_its_four_entries() {
    let b = build_input_bundle("p", num("1"), Json::Null, &Some("s".to_string()));
    assert_eq!(
        keys_and_texts(&b),
        vec![
            ("prompt".to_string(), b"\"p\"".to_vec()),
            ("providers".to_string(), b"1".to_vec()),
            ("guidelines".to_string(), b"null".to_vec()),
            ("salt".to_string(), b"\"s\"".to_vec()),
        ]
    );
    assert_eq!(
        b.to_bytes(),
        b"{\"guidelines\":null,\"prompt\":\"p\",\"providers\":1,\"salt\":\"s\"}".to_vec()
    );
    let c = build_input_bundle("p", num("1"), Json::Null, &None);
    assert_eq!(
        c.canonical_bytes(),
        b"{\"guidelines\":null,\"prompt\":\"p\",\"providers\":1,\"salt\":null}".to_vec()
    );
}

#[test]
fn a_duplicate_has_the_same_text() {
    let v = Json::parse("{\"k\":[1,\"two\",{\"n\":null,\"t\":true}],\"e\":{}}").unwrap();
    assert_eq!(v.duplicate().to_bytes(), v.to_bytes());
}
