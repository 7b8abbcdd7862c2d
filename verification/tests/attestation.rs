use panthersdk::attestation::{compute_proof, compute_proof_at, verify_proof_local, ProofContext};
use panthersdk::domain::{LlmProvider, NullProvider, Prompt};

#[test]
fn null_provider_echoes() {
    let p = NullProvider;
    let out = p.generate(&Prompt { text: "hi".into() }).unwrap();
    assert_eq!(out.text, "echo: hi");
    assert_eq!(out.model.as_deref(), Some("null"));
}

#[test]
fn proof_determinism_and_verify() {
    let prompt = "hello";
    let providers = "[{\"type\":\"ollama\",\"base_url\":\"http://localhost:11434\",\"model\":\"llama3\"}]";
    let guidelines = "[]";
    let results = "[]";
    let ctx = ProofContext { sdk_version: "test".into(), salt: Some("s1".into()) };

    let first = compute_proof(prompt, providers, guidelines, results, &ctx).unwrap();
    let second = compute_proof(prompt, providers, guidelines, results, &ctx).unwrap();
    assert_eq!(first.combined_hash, second.combined_hash);

    assert!(verify_proof_local(&first, prompt, providers, guidelines, results, Some("s1".into())));
    assert!(!verify_proof_local(&first, prompt, providers, guidelines, results, Some("different".into())));
}

#[test]
fn proof_fields_are_set() {
    let ctx = ProofContext { sdk_version: "1.2.3".into(), salt: None };
    let p = compute_proof_at("q", "[]", "[]", "[]", &ctx, 42);
    assert_eq!(p.scheme, "panther-proof-v1");
    assert_eq!(p.timestamp_ms, 42);
    assert_eq!(p.sdk_version, "1.2.3");
    assert!(!p.salt_present);
    assert_eq!(p.input_hash.len(), 128);
    assert_eq!(p.combined_hash.len(), 128);
    assert_eq!(p.guidelines_hash, p.providers_hash);
    assert_eq!(p.guidelines_hash, p.results_hash);
}

#[test]
fn prompt_serializes() {
    let p = Prompt { text: "test".into() };
    let s = String::from_utf8(p.to_json().to_bytes()).unwrap();
    assert!(s.contains("test"));
    assert_eq!(s, "{\"text\":\"test\"}");
}
