//! Deterministic hash attestation of a validation run.

use crate::clock::now_ms;
use crate::digest::{digest_hex, sha3_512_hex};
use crate::domain::PantherError;
use crate::json::{canonical_text, parsed_or_null, Json, JsonModel, Member, member_models};
use vstd::prelude::*;

verus! {

/// What is hashed besides the inputs' text: nothing of it enters a hash
/// but the salt.
#[derive(Debug)]
pub struct ProofContext {
    pub sdk_version: String,
    pub salt: Option<String>,
}

/// The attestation of one validation run.
#[derive(Debug)]
pub struct Proof {
    pub scheme: String,
    pub input_hash: String,
    pub results_hash: String,
    pub combined_hash: String,
    pub guidelines_hash: String,
    pub providers_hash: String,
    pub timestamp_ms: i64,
    pub sdk_version: String,
    pub salt_present: bool,
}

impl Proof {
    /// Each of the five hashes is the hex text of a whole digest: 128
    /// characters.
    pub open spec fn has_full_hashes(self) -> bool {
        &&& self.input_hash@.len() == 128
        &&& self.results_hash@.len() == 128
        &&& self.combined_hash@.len() == 128
        &&& self.guidelines_hash@.len() == 128
        &&& self.providers_hash@.len() == 128
    }
}

/// The characters of an optional string.
pub open spec fn opt_chars(s: Option<String>) -> Option<Seq<char>> {
    match s {
        Some(t) => Some(t@),
        None => None,
    }
}

/// The hash of a JSON value: hex of the SHA3-512 digest of its canonical text.
pub open spec fn json_hash(m: JsonModel) -> Seq<char> {
    digest_hex(canonical_text(m))
}

/// The salt as a JSON value: a string, or `null` where there is none.
pub open spec fn salt_value(salt: Option<Seq<char>>) -> JsonModel {
    match salt {
        Some(s) => JsonModel::Text(s),
        None => JsonModel::Null,
    }
}

/// The object whose hash is the input hash.
pub open spec fn input_bundle(
    prompt: Seq<char>,
    providers: JsonModel,
    guidelines: JsonModel,
    salt: Option<Seq<char>>,
) -> JsonModel {
    JsonModel::Object(
        seq![
            ("prompt"@, JsonModel::Text(prompt)),
            ("providers"@, providers),
            ("guidelines"@, guidelines),
            ("salt"@, salt_value(salt)),
        ],
    )
}

/// The hash of two hex texts: the digest runs over the UTF-8 bytes of the
/// first text followed by those of the second, not over the digests they spell.
pub open spec fn concat_hash(a_hex: Seq<char>, b_hex: Seq<char>) -> Seq<char> {
    digest_hex(vstd::utf8::encode_utf8(a_hex) + vstd::utf8::encode_utf8(b_hex))
}

/// The input hash of a run.
pub open spec fn input_hash_of(
    prompt: Seq<char>,
    providers_json: Seq<char>,
    guidelines_json: Seq<char>,
    salt: Option<Seq<char>>,
) -> Seq<char> {
    json_hash(
        input_bundle(prompt, parsed_or_null(providers_json), parsed_or_null(guidelines_json), salt),
    )
}

/// The results hash of a run.
pub open spec fn results_hash_of(results_json: Seq<char>) -> Seq<char> {
    json_hash(parsed_or_null(results_json))
}

/// The combined hash of a run: the value that identifies the attestation.
pub open spec fn combined_hash_of(
    prompt: Seq<char>,
    providers_json: Seq<char>,
    guidelines_json: Seq<char>,
    results_json: Seq<char>,
    salt: Option<Seq<char>>,
) -> Seq<char> {
    concat_hash(
        input_hash_of(prompt, providers_json, guidelines_json, salt),
        results_hash_of(results_json),
    )
}

/// Whether `p` is the attestation of the given values, issued at
/// `timestamp_ms` under the version `sdk_version`.
pub open spec fn attests(
    p: Proof,
    prompt: Seq<char>,
    providers: JsonModel,
    guidelines: JsonModel,
    results: JsonModel,
    sdk_version: Seq<char>,
    salt: Option<Seq<char>>,
    timestamp_ms: i64,
) -> bool {
    let input_hash = json_hash(input_bundle(prompt, providers, guidelines, salt));
    &&& p.scheme@ == "panther-proof-v1"@
    &&& p.input_hash@ == input_hash
    &&& p.results_hash@ == json_hash(results)
    &&& p.combined_hash@ == concat_hash(input_hash, json_hash(results))
    &&& p.guidelines_hash@ == json_hash(guidelines)
    &&& p.providers_hash@ == json_hash(providers)
    &&& p.timestamp_ms == timestamp_ms
    &&& p.sdk_version@ == sdk_version
    &&& p.salt_present == salt.is_some()
}

/// Whether `p` is the attestation of the given inputs, issued at
/// `timestamp_ms` under the version `sdk_version`. Each of the three
/// texts counts as the JSON value it spells, or as `null` where it spells none.
pub open spec fn is_proof_of(
    p: Proof,
    prompt: Seq<char>,
    providers_json: Seq<char>,
    guidelines_json: Seq<char>,
    results_json: Seq<char>,
    sdk_version: Seq<char>,
    salt: Option<Seq<char>>,
    timestamp_ms: i64,
) -> bool {
    &&& attests(
        p,
        prompt,
        parsed_or_null(providers_json),
        parsed_or_null(guidelines_json),
        parsed_or_null(results_json),
        sdk_version,
        salt,
        timestamp_ms,
    )
    &&& p.input_hash@ == input_hash_of(prompt, providers_json, guidelines_json, salt)
    &&& p.results_hash@ == results_hash_of(results_json)
    &&& p.combined_hash@ == combined_hash_of(
        prompt,
        providers_json,
        guidelines_json,
        results_json,
        salt,
    )
}

/// Hashes a JSON value in canonical form.
pub fn hash_json(value: &Json) -> (hex: String)
    ensures
        hex@ == json_hash(value@),
        hex@.len() == 128,
{
    let bytes = value.canonical_bytes();
    sha3_512_hex(bytes.as_slice())
}

/// Hashes the UTF-8 bytes of `a_hex` followed by those of `b_hex`.
pub fn hash_concat_hex(a_hex: &str, b_hex: &str) -> (hex: String)
    ensures
        hex@ == concat_hash(a_hex@, b_hex@),
        hex@.len() == 128,
{
    let a = a_hex.as_bytes();
    let b = b_hex.as_bytes();
    let mut joined: Vec<u8> = Vec::new();
    let mut i: usize = 0;
    while i < a.len()
        invariant
            i <= a.len(),
            joined@ == a@.take(i as int),
        decreases a.len() - i,
    {
        joined.push(a[i]);
        assert(joined@ =~= a@.take(i as int + 1));
        i += 1;
    }
    assert(a@.take(a.len() as int) =~= a@);
    let mut k: usize = 0;
    while k < b.len()
        invariant
            k <= b.len(),
            joined@ == a@ + b@.take(k as int),
        decreases b.len() - k,
    {
        joined.push(b[k]);
        assert(joined@ =~= a@ + b@.take(k as int + 1));
        k += 1;
    }
    assert(b@.take(b.len() as int) =~= b@);
    sha3_512_hex(joined.as_slice())
}

/// Builds the object whose hash is the input hash.
pub fn build_input_bundle(prompt: &str, providers: Json, guidelines: Json, salt: &Option<String>) -> (j:
    Json)
    ensures
        j@ == input_bundle(prompt@, providers@, guidelines@, opt_chars(*salt)),
{
    let salt_json = match salt {
        Some(s) => Json::Text(s.clone()),
        None => Json::Null,
    };
    let mut members: Vec<Member> = Vec::new();
    members.push(Member { key: "prompt".to_owned(), value: Json::Text(prompt.to_owned()) });
    members.push(Member { key: "providers".to_owned(), value: providers });
    members.push(Member { key: "guidelines".to_owned(), value: guidelines });
    members.push(Member { key: "salt".to_owned(), value: salt_json });
    proof {
        crate::json::lemma_object_model(members);
        assert(member_models(members@) =~= input_bundle(
            prompt@,
            providers@,
            guidelines@,
            opt_chars(*salt),
        )->Object_0);
    }
    Json::Object(members)
}

/// Computes the attestation of a run as issued at `timestamp_ms`.
///
/// Each of the three texts is read as JSON; one that is no JSON counts as
/// `null`.
pub fn compute_proof_at(
    prompt: &str,
    providers_json: &str,
    guidelines_json: &str,
    results_json: &str,
    ctx: &ProofContext,
    timestamp_ms: i64,
) -> (p: Proof)
    ensures
        is_proof_of(
            p,
            prompt@,
            providers_json@,
            guidelines_json@,
            results_json@,
            ctx.sdk_version@,
            opt_chars(ctx.salt),
            timestamp_ms,
        ),
        p.has_full_hashes(),
{
    let providers_val = Json::parse_or_null(providers_json);
    let guidelines_val = Json::parse_or_null(guidelines_json);
    let results_val = Json::parse_or_null(results_json);
    seal_values(prompt, providers_val, guidelines_val, &results_val, ctx, timestamp_ms)
}

/// Computes the attestation of the given values as issued at
/// `timestamp_ms`. The time and the version are carried along and enter
/// no hash.
pub fn seal_values(
    prompt: &str,
    providers: Json,
    guidelines: Json,
    results: &Json,
    ctx: &ProofContext,
    timestamp_ms: i64,
) -> (p: Proof)
    ensures
        attests(
            p,
            prompt@,
            providers@,
            guidelines@,
            results@,
            ctx.sdk_version@,
            opt_chars(ctx.salt),
            timestamp_ms,
        ),
        p.has_full_hashes(),
{
    let providers_hash = hash_json(&providers);
    let guidelines_hash = hash_json(&guidelines);
    let results_hash = hash_json(results);

    let bundle = build_input_bundle(prompt, providers, guidelines, &ctx.salt);
    let input_hash = hash_json(&bundle);
    let combined_hash = hash_concat_hex(input_hash.as_str(), results_hash.as_str());
    Proof {
        scheme: "panther-proof-v1".to_owned(),
        input_hash,
        results_hash,
        combined_hash,
        guidelines_hash,
        providers_hash,
        timestamp_ms,
        sdk_version: ctx.sdk_version.clone(),
        salt_present: ctx.salt.is_some(),
    }
}

/// Computes the attestation of a run, stamped with the current time.
///
/// Never fails. Every field but `timestamp_ms` is fixed by the arguments.
pub fn compute_proof(
    prompt: &str,
    providers_json: &str,
    guidelines_json: &str,
    results_json: &str,
    ctx: &ProofContext,
) -> (r: Result<Proof, PantherError>)
    ensures
        r is Ok,
        is_proof_of(
            r->Ok_0,
            prompt@,
            providers_json@,
            guidelines_json@,
            results_json@,
            ctx.sdk_version@,
            opt_chars(ctx.salt),
            r->Ok_0.timestamp_ms,
        ),
        r->Ok_0.has_full_hashes(),
{
    Ok(compute_proof_at(prompt, providers_json, guidelines_json, results_json, ctx, now_ms()))
}

/// Whether `expected` carries the combined hash of the given inputs.
///
/// Only `combined_hash` is compared: the time, the version and
/// `salt_present` of `expected` are not checked.
pub fn verify_proof_local(
    expected: &Proof,
    prompt: &str,
    providers_json: &str,
    guidelines_json: &str,
    results_json: &str,
    salt: Option<String>,
) -> (ok: bool)
    ensures
        ok == (expected.combined_hash@ == combined_hash_of(
            prompt@,
            providers_json@,
            guidelines_json@,
            results_json@,
            opt_chars(salt),
        )),
{
    let ctx = ProofContext { sdk_version: expected.sdk_version.clone(), salt };
    match compute_proof(prompt, providers_json, guidelines_json, results_json, &ctx) {
        Ok(p) => p.combined_hash == expected.combined_hash,
        Err(_) => false,
    }
}

/// Two attestations of the same inputs carry the same hashes, whenever
/// and under whatever version they were issued.
pub proof fn lemma_proof_deterministic(
    p: Proof,
    q: Proof,
    prompt: Seq<char>,
    providers_json: Seq<char>,
    guidelines_json: Seq<char>,
    results_json: Seq<char>,
    salt: Option<Seq<char>>,
    version_p: Seq<char>,
    version_q: Seq<char>,
    time_p: i64,
    time_q: i64,
)
    requires
        is_proof_of(p, prompt, providers_json, guidelines_json, results_json, version_p, salt, time_p),
        is_proof_of(q, prompt, providers_json, guidelines_json, results_json, version_q, salt, time_q),
    ensures
        p.combined_hash@ == q.combined_hash@,
        p.input_hash@ == q.input_hash@,
        p.results_hash@ == q.results_hash@,
        p.guidelines_hash@ == q.guidelines_hash@,
        p.providers_hash@ == q.providers_hash@,
{
}

/// Two attestations of the same values carry the same hashes, whenever
/// and under whatever version they were issued.
pub proof fn lemma_attestation_deterministic(
    p: Proof,
    q: Proof,
    prompt: Seq<char>,
    providers: JsonModel,
    guidelines: JsonModel,
    results: JsonModel,
    salt: Option<Seq<char>>,
    version_p: Seq<char>,
    version_q: Seq<char>,
    time_p: i64,
    time_q: i64,
)
    requires
        attests(p, prompt, providers, guidelines, results, version_p, salt, time_p),
        attests(q, prompt, providers, guidelines, results, version_q, salt, time_q),
    ensures
        p.combined_hash@ == q.combined_hash@,
        p.input_hash@ == q.input_hash@,
        p.results_hash@ == q.results_hash@,
        p.guidelines_hash@ == q.guidelines_hash@,
        p.providers_hash@ == q.providers_hash@,
{
}

/// Two attestations that differ only in the results attested agree in
/// the input hash, the guidelines hash and the providers hash. Their
/// results hashes differ exactly where the digests of the two results'
/// canonical texts differ.
pub proof fn lemma_results_touch_only_their_hashes(
    p: Proof,
    q: Proof,
    prompt: Seq<char>,
    providers: JsonModel,
    guidelines: JsonModel,
    results_p: JsonModel,
    results_q: JsonModel,
    salt: Option<Seq<char>>,
    version: Seq<char>,
    time: i64,
)
    requires
        attests(p, prompt, providers, guidelines, results_p, version, salt, time),
        attests(q, prompt, providers, guidelines, results_q, version, salt, time),
    ensures
        p.input_hash@ == q.input_hash@,
        p.guidelines_hash@ == q.guidelines_hash@,
        p.providers_hash@ == q.providers_hash@,
        p.results_hash@ != q.results_hash@ <==> crate::digest::sha3_512(canonical_text(results_p))
            != crate::digest::sha3_512(canonical_text(results_q)),
{
    crate::digest::lemma_hash_texts_differ(canonical_text(results_p), canonical_text(results_q));
}

/// The salt enters the input: two different salts give different input
/// bundles, and the two input hashes differ exactly where the digests of
/// the bundles' canonical texts differ.
pub proof fn lemma_salt_enters_the_input(
    prompt: Seq<char>,
    providers: JsonModel,
    guidelines: JsonModel,
    salt_a: Option<Seq<char>>,
    salt_b: Option<Seq<char>>,
)
    requires
        salt_a != salt_b,
    ensures
        input_bundle(prompt, providers, guidelines, salt_a) != input_bundle(
            prompt,
            providers,
            guidelines,
            salt_b,
        ),
        json_hash(input_bundle(prompt, providers, guidelines, salt_a)) != json_hash(
            input_bundle(prompt, providers, guidelines, salt_b),
        ) <==> crate::digest::sha3_512(
            canonical_text(input_bundle(prompt, providers, guidelines, salt_a)),
        ) != crate::digest::sha3_512(
            canonical_text(input_bundle(prompt, providers, guidelines, salt_b)),
        ),
{
    let a = input_bundle(prompt, providers, guidelines, salt_a);
    let b = input_bundle(prompt, providers, guidelines, salt_b);
    assert(a->Object_0[3].1 == salt_value(salt_a));
    assert(b->Object_0[3].1 == salt_value(salt_b));
    assert(salt_value(salt_a) != salt_value(salt_b));
    crate::digest::lemma_hash_texts_differ(canonical_text(a), canonical_text(b));
}

} // verus!
