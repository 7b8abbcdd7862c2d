//! Scoring of completions against guideline terms, and the fan-out over
//! the configured backends.

use crate::clock::now_ms;
use crate::domain::{Completion, LlmProvider, PantherError, Prompt};
use crate::text::{contains_text, join_text, lowercase, occurs_in, to_lower};
use vstd::prelude::*;

verus! {

/// A topic and the terms that an answer on it is expected to contain.
#[derive(Debug)]
pub struct Guideline {
    pub topic: String,
    pub expected_terms: Vec<String>,
}

/// An adherence score as an exact fraction: `hits` of `total` expected
/// terms were found, which is `100 * hits / total` percent.
#[derive(Clone, Copy, Debug, PartialEq, Eq, Structural)]
pub struct Score {
    pub hits: usize,
    pub total: usize,
}

/// The outcome of one backend for one prompt.
#[derive(Debug)]
pub struct ValidationResult {
    pub provider_name: String,
    pub adherence_score: Score,
    pub missing_terms: Vec<String>,
    pub latency_ms: i64,
    pub raw_text: String,
}

/// The characters of each string of a sequence.
pub open spec fn texts(v: Seq<String>) -> Seq<Seq<char>> {
    Seq::new(v.len(), |i: int| v[i]@)
}

impl Score {
    /// A score is a fraction between zero and one with a positive denominator.
    pub open spec fn wf(self) -> bool {
        self.hits <= self.total && self.total > 0
    }

    /// Whether this score is at least `other`, as fractions.
    pub open spec fn at_least(self, other: Score) -> bool {
        self.hits * other.total >= other.hits * self.total
    }

    /// The score in hundredths of a percent, rounded down.
    pub open spec fn spec_basis_points(self) -> int {
        (10000 * self.hits) / (self.total as int)
    }

    /// The full score: every expected term was found, or none was expected.
    pub fn full() -> (s: Score)
        ensures
            s == (Score { hits: 1, total: 1 }),
    {
        Score { hits: 1, total: 1 }
    }

    /// The score of a backend that failed.
    pub fn zero() -> (s: Score)
        ensures
            s == (Score { hits: 0, total: 1 }),
    {
        Score { hits: 0, total: 1 }
    }

    /// Whether this score is at least `other`.
    pub fn is_at_least(&self, other: &Score) -> (r: bool)
        ensures
            r == self.at_least(*other),
    {
        proof {
            assert(self.hits as int * other.total as int <= 0xffff_ffff_ffff_ffff * 0xffff_ffff_ffff_ffff)
                by (nonlinear_arith)
                requires
                    0 <= self.hits as int <= 0xffff_ffff_ffff_ffff,
                    0 <= other.total as int <= 0xffff_ffff_ffff_ffff,
            ;
            assert(other.hits as int * self.total as int <= 0xffff_ffff_ffff_ffff * 0xffff_ffff_ffff_ffff)
                by (nonlinear_arith)
                requires
                    0 <= other.hits as int <= 0xffff_ffff_ffff_ffff,
                    0 <= self.total as int <= 0xffff_ffff_ffff_ffff,
            ;
        }
        let left: u128 = (self.hits as u128) * (other.total as u128);
        let right: u128 = (other.hits as u128) * (self.total as u128);
        left >= right
    }

    /// The score in hundredths of a percent, rounded down: 7500 for three
    /// terms of four.
    pub fn basis_points(&self) -> (r: u64)
        requires
            self.wf(),
        ensures
            r == self.spec_basis_points(),
            r <= 10000,
    {
        proof {
            assert(10000 * self.hits as int / self.total as int <= 10000) by (nonlinear_arith)
                requires
                    0 <= self.hits as int <= self.total as int,
                    self.total as int > 0,
            ;
        }
        let scaled: u128 = 10000u128 * (self.hits as u128);
        let q: u128 = scaled / (self.total as u128);
        q as u64
    }
}

/// If one score is at least a second and that at least a third, the first
/// is at least the third.
pub proof fn lemma_at_least_transitive(a: Score, b: Score, c: Score)
    requires
        a.wf(),
        b.wf(),
        c.wf(),
        a.at_least(b),
        b.at_least(c),
    ensures
        a.at_least(c),
{
    let (an, ad) = (a.hits as int, a.total as int);
    let (bn, bd) = (b.hits as int, b.total as int);
    let (cn, cd) = (c.hits as int, c.total as int);
    assert(an * cd >= cn * ad) by (nonlinear_arith)
        requires
            an * bd >= bn * ad,
            bn * cd >= cn * bd,
            ad > 0,
            bd > 0,
            cd > 0,
            an >= 0,
            bn >= 0,
            cn >= 0,
    ;
}

// ---------------------------------------------------------------------
// Expected terms
// ---------------------------------------------------------------------

/// The expected terms of all guidelines, in order; a term that several
/// guidelines name occurs as often as it is named.
pub open spec fn flatten_terms(guidelines: Seq<Guideline>) -> Seq<Seq<char>>
    decreases guidelines.len(),
{
    if guidelines.len() == 0 {
        Seq::empty()
    } else {
        flatten_terms(guidelines.drop_last()) + texts(guidelines.last().expected_terms@)
    }
}

/// Collects the expected terms of all guidelines.
pub fn expected_terms(guidelines: &Vec<Guideline>) -> (terms: Vec<String>)
    ensures
        texts(terms@) == flatten_terms(guidelines@),
{
    let mut terms: Vec<String> = Vec::new();
    let mut i: usize = 0;
    assert(guidelines@.take(0) =~= Seq::empty());
    assert(texts(terms@) =~= Seq::empty());
    while i < guidelines.len()
        invariant
            i <= guidelines.len(),
            texts(terms@) == flatten_terms(guidelines@.take(i as int)),
        decreases guidelines.len() - i,
    {
        let own = &guidelines[i].expected_terms;
        let ghost base = texts(terms@);
        let mut k: usize = 0;
        assert(texts(terms@) =~= base + texts(own@).take(0));
        while k < own.len()
            invariant
                k <= own.len(),
                texts(terms@) == base + texts(own@).take(k as int),
            decreases own.len() - k,
        {
            let ghost before = terms@;
            terms.push(own[k].clone());
            proof {
                assert(texts(terms@) =~= texts(before).push(own@[k as int]@));
                assert(texts(own@).take(k as int + 1) =~= texts(own@).take(k as int).push(
                    own@[k as int]@,
                ));
                assert(texts(terms@) =~= base + texts(own@).take(k as int + 1));
            }
            k += 1;
        }
        proof {
            assert(texts(own@).take(own.len() as int) =~= texts(own@));
            let next = guidelines@.take(i as int + 1);
            assert(next.drop_last() =~= guidelines@.take(i as int));
            assert(next.last() == guidelines@[i as int]);
        }
        i += 1;
    }
    assert(guidelines@.take(guidelines.len() as int) =~= guidelines@);
    terms
}

// ---------------------------------------------------------------------
// Scoring
// ---------------------------------------------------------------------

/// Of the first `n` terms, those whose needle does not occur in `hay`, in
/// order. `needles[i]` is the text looked for on behalf of `terms[i]`.
pub open spec fn unmatched(
    hay: Seq<char>,
    terms: Seq<Seq<char>>,
    needles: Seq<Seq<char>>,
    n: nat,
) -> Seq<Seq<char>>
    decreases n,
{
    if n == 0 || n > terms.len() || n > needles.len() {
        Seq::empty()
    } else {
        let rest = unmatched(hay, terms, needles, (n - 1) as nat);
        if occurs_in(needles[n - 1], hay) {
            rest
        } else {
            rest.push(terms[n - 1])
        }
    }
}

/// Each term in lower case.
pub open spec fn lowered(terms: Seq<Seq<char>>) -> Seq<Seq<char>> {
    Seq::new(terms.len(), |i: int| lowercase(terms[i]))
}

/// The expected terms that `text` does not contain, compared without
/// regard to case.
pub open spec fn missing_of(text: Seq<char>, terms: Seq<Seq<char>>) -> Seq<Seq<char>> {
    unmatched(lowercase(text), terms, lowered(terms), terms.len())
}

/// The score of a completion that misses `missing` of `total` expected
/// terms: full where nothing is expected, and none where more terms are
/// missing than are expected.
pub open spec fn score_for(missing: nat, total: nat) -> Score {
    if total == 0 {
        Score { hits: 1, total: 1 }
    } else if missing > total {
        Score { hits: 0, total: 1 }
    } else {
        Score { hits: (total - missing) as usize, total: total as usize }
    }
}

proof fn lemma_unmatched_len(hay: Seq<char>, terms: Seq<Seq<char>>, needles: Seq<Seq<char>>, n: nat)
    ensures
        unmatched(hay, terms, needles, n).len() <= n,
    decreases n,
{
    if n == 0 || n > terms.len() || n > needles.len() {
    } else {
        lemma_unmatched_len(hay, terms, needles, (n - 1) as nat);
    }
}

/// Scores a text that is already in lower case against terms whose
/// lower-case forms are given beside them.
pub fn score_lowered(lower_text: &str, terms: &Vec<String>, lower_terms: &Vec<String>) -> (r: (
    Score,
    Vec<String>,
))
    requires
        lower_terms.len() == terms.len(),
    ensures
        texts(r.1@) == unmatched(lower_text@, texts(terms@), texts(lower_terms@), terms.len() as nat),
        r.0 == score_for(r.1@.len(), terms@.len()),
        r.0.wf(),
{
    let ghost t = texts(terms@);
    let ghost l = texts(lower_terms@);
    let mut missing: Vec<String> = Vec::new();
    let mut i: usize = 0;
    assert(texts(missing@) =~= unmatched(lower_text@, t, l, 0));
    while i < terms.len()
        invariant
            i <= terms.len(),
            lower_terms.len() == terms.len(),
            t == texts(terms@),
            l == texts(lower_terms@),
            missing@.len() <= i,
            texts(missing@) == unmatched(lower_text@, t, l, i as nat),
        decreases terms.len() - i,
    {
        if !contains_text(lower_text, lower_terms[i].as_str()) {
            missing.push(terms[i].clone());
        }
        assert(texts(missing@) =~= unmatched(lower_text@, t, l, (i + 1) as nat));
        i += 1;
    }
    let score = if terms.len() == 0 {
        Score::full()
    } else {
        Score { hits: terms.len() - missing.len(), total: terms.len() }
    };
    (score, missing)
}

/// Scores a text against the expected terms: each term is looked for as
/// a substring, without regard to case.
pub fn score_text(text: &str, expected: &Vec<String>) -> (r: (Score, Vec<String>))
    ensures
        texts(r.1@) == missing_of(text@, texts(expected@)),
        r.0 == score_for(r.1@.len(), expected@.len()),
        r.0.wf(),
        expected@.len() == 0 ==> r.0 == (Score { hits: 1, total: 1 }) && r.1@.len() == 0,
{
    let lower = to_lower(text);
    let mut lower_terms: Vec<String> = Vec::new();
    let mut i: usize = 0;
    while i < expected.len()
        invariant
            i <= expected.len(),
            lower_terms@.len() == i,
            forall|k: int| 0 <= k < i ==> (#[trigger] lower_terms@[k])@ == lowercase(expected@[k]@),
        decreases expected.len() - i,
    {
        lower_terms.push(to_lower(expected[i].as_str()));
        i += 1;
    }
    assert(texts(lower_terms@) =~= lowered(texts(expected@)));
    let r = score_lowered(lower.as_str(), expected, &lower_terms);
    proof {
        lemma_unmatched_len(lower@, texts(expected@), texts(lower_terms@), expected.len() as nat);
    }
    r
}


// ---------------------------------------------------------------------
// One backend's result
// ---------------------------------------------------------------------

/// Whether `r` is what scoring the text it carries against `expected` gives.
pub open spec fn is_scored(r: ValidationResult, expected: Seq<Seq<char>>) -> bool {
    &&& texts(r.missing_terms@) == missing_of(r.raw_text@, expected)
    &&& r.adherence_score == score_for(r.missing_terms@.len(), expected.len())
}

/// Whether `r` records a failed backend: no score, every expected term
/// missing, and the failure's message behind the text `error: `.
pub open spec fn is_failed(r: ValidationResult, expected: Seq<Seq<char>>) -> bool {
    &&& r.adherence_score == (Score { hits: 0, total: 1 })
    &&& texts(r.missing_terms@) == expected
    &&& "error: "@.is_prefix_of(r.raw_text@)
}

/// Whether `r` is what the answer or failure `outcome` of the backend
/// labelled `label` turns into.
pub open spec fn made_from(
    r: ValidationResult,
    label: Seq<char>,
    expected: Seq<Seq<char>>,
    outcome: Result<Completion, PantherError>,
) -> bool {
    &&& r.provider_name@ == label
    &&& match outcome {
        Ok(c) => r.raw_text@ == c.text@ && is_scored(r, expected),
        Err(e) => r.raw_text@ == "error: "@ + e.spec_detail()@ && is_failed(r, expected),
    }
}

/// Whether `r` is a result of the backend labelled `label`.
pub open spec fn is_result_for(r: ValidationResult, label: Seq<char>, expected: Seq<Seq<char>>) -> bool {
    &&& r.provider_name@ == label
    &&& r.adherence_score.wf()
    &&& (is_scored(r, expected) || is_failed(r, expected))
}

/// The time between two clock readings, kept within `i64`.
pub open spec fn elapsed(start: i64, end: i64) -> int {
    if end - start > i64::MAX {
        i64::MAX as int
    } else if end - start < i64::MIN {
        i64::MIN as int
    } else {
        end - start
    }
}

/// The time from `start` to `end` in milliseconds, saturating at the
/// bounds of `i64`.
pub fn elapsed_ms(start: i64, end: i64) -> (d: i64)
    ensures
        d == elapsed(start, end),
{
    let wide: i128 = end as i128 - start as i128;
    if wide > i64::MAX as i128 {
        i64::MAX
    } else if wide < i64::MIN as i128 {
        i64::MIN
    } else {
        wide as i64
    }
}

fn copy_terms(terms: &Vec<String>) -> (out: Vec<String>)
    ensures
        texts(out@) == texts(terms@),
{
    let mut out: Vec<String> = Vec::new();
    let mut i: usize = 0;
    while i < terms.len()
        invariant
            i <= terms.len(),
            out@.len() == i,
            forall|k: int| 0 <= k < i ==> (#[trigger] out@[k])@ == terms@[k]@,
        decreases terms.len() - i,
    {
        out.push(terms[i].clone());
        i += 1;
    }
    assert(texts(out@) =~= texts(terms@));
    out
}

/// Turns what one backend returned into its result. A completion is
/// scored; a failure becomes a result with no score, not an error of the batch.
pub fn provider_result(
    label: String,
    expected: &Vec<String>,
    outcome: Result<Completion, PantherError>,
    latency_ms: i64,
) -> (r: ValidationResult)
    ensures
        made_from(r, label@, texts(expected@), outcome),
        r.latency_ms == latency_ms,
        is_result_for(r, label@, texts(expected@)),
{
    match outcome {
        Ok(c) => {
            let (score, missing) = score_text(c.text.as_str(), expected);
            ValidationResult {
                provider_name: label,
                adherence_score: score,
                missing_terms: missing,
                latency_ms,
                raw_text: c.text,
            }
        },
        Err(e) => {
            let raw_text = join_text("error: ", e.detail().as_str());
            assert("error: "@.is_prefix_of(raw_text@)) by {
                assert(raw_text@.subrange(0, "error: "@.len() as int) =~= "error: "@);
            }
            ValidationResult {
                provider_name: label,
                adherence_score: Score::zero(),
                missing_terms: copy_terms(expected),
                latency_ms,
                raw_text,
            }
        },
    }
}

// ---------------------------------------------------------------------
// Ranking
// ---------------------------------------------------------------------

/// Whether the results stand in descending order of score.
pub open spec fn ranked(v: Seq<ValidationResult>) -> bool {
    forall|i: int, j: int|
        0 <= i < j < v.len() ==> (#[trigger] v[i]).adherence_score.at_least(
            (#[trigger] v[j]).adherence_score,
        )
}

/// Whether every result carries a well-formed score.
pub open spec fn all_scores_wf(v: Seq<ValidationResult>) -> bool {
    forall|i: int| 0 <= i < v.len() ==> (#[trigger] v[i]).adherence_score.wf()
}

/// Orders results by descending score. Which of two results with equal
/// scores comes first is not fixed.
pub fn rank_results(results: Vec<ValidationResult>) -> (out: Vec<ValidationResult>)
    requires
        all_scores_wf(results@),
    ensures
        ranked(out@),
        out@.to_multiset() == results@.to_multiset(),
        out@.len() == results@.len(),
{
    broadcast use {
        vstd::seq_lib::to_multiset_insert,
        vstd::seq_lib::to_multiset_remove,
        vstd::seq_lib::to_multiset_contains,
        vstd::seq_lib::to_multiset_len,
    };

    let ghost given = results@;
    let mut rest = results;
    let mut out: Vec<ValidationResult> = Vec::new();
    assert(out@.to_multiset().add(rest@.to_multiset()) =~= given.to_multiset()) by {
        broadcast use vstd::multiset::group_multiset_axioms;

        assert(out@.to_multiset() =~= vstd::multiset::Multiset::empty());
    }
    while rest.len() > 0
        invariant
            ranked(out@),
            all_scores_wf(out@),
            all_scores_wf(rest@),
            out@.to_multiset().add(rest@.to_multiset()) == given.to_multiset(),
            out@.len() + rest@.len() == given.len(),
        decreases rest.len(),
    {
        let ghost rest_before = rest@;
        let ghost before = out@;
        let x = rest.remove(0);
        let mut p: usize = out.len();
        while p > 0 && !out[p - 1].adherence_score.is_at_least(&x.adherence_score)
            invariant
                p <= out.len(),
                out@ == before,
                forall|k: int|
                    p <= k < out.len() ==> !(#[trigger] out@[k]).adherence_score.at_least(
                        x.adherence_score,
                    ),
            decreases p,
        {
            p -= 1;
        }
        out.insert(p, x);
        proof {
            let after = out@;
            assert(x.adherence_score.wf());
            assert forall|i: int, j: int| 0 <= i < j < after.len() implies (#[trigger] after[i]).adherence_score.at_least(
                (#[trigger] after[j]).adherence_score,
            ) by {
                if j < p {
                    assert(after[i] == before[i] && after[j] == before[j]);
                } else if j == p {
                    assert(after[i] == before[i]);
                    if i < p - 1 {
                        lemma_at_least_transitive(
                            before[i].adherence_score,
                            before[p - 1].adherence_score,
                            x.adherence_score,
                        );
                    }
                } else {
                    assert(after[j] == before[j - 1]);
                    if i < p {
                        assert(after[i] == before[i]);
                    } else if i == p {
                        assert(!before[j - 1].adherence_score.at_least(x.adherence_score));
                    } else {
                        assert(after[i] == before[i - 1]);
                    }
                }
            }
            assert forall|i: int| 0 <= i < after.len() implies (#[trigger] after[i]).adherence_score.wf() by {
                if i < p {
                    assert(after[i] == before[i]);
                } else if i > p {
                    assert(after[i] == before[i - 1]);
                }
            }
            assert forall|i: int| 0 <= i < rest@.len() implies (#[trigger] rest@[i]).adherence_score.wf() by {
                assert(rest@[i] == rest_before[i + 1]);
            }
            assert(rest_before[0] == x && rest_before.contains(x));
            vstd::seq_lib::to_multiset_contains(rest_before, x);
            vstd::seq_lib::to_multiset_remove(rest_before, 0);
            vstd::seq_lib::to_multiset_insert(before, p as int, x);
            assert(rest@ == rest_before.remove(0));
            assert(after == before.insert(p as int, x));
            assert(before.to_multiset().insert(x).add(rest_before.to_multiset().remove(x))
                =~= before.to_multiset().add(rest_before.to_multiset())) by {
                broadcast use vstd::multiset::group_multiset_axioms;

            }
        }
    }
    proof {
        broadcast use vstd::multiset::group_multiset_axioms;

        assert(rest@ =~= Seq::empty());
        assert(rest@.to_multiset() =~= vstd::multiset::Multiset::empty());
        assert(out@.to_multiset() =~= given.to_multiset());
    }
    out
}

// ---------------------------------------------------------------------
// Fan-out
// ---------------------------------------------------------------------

/// Validates prompts against guidelines on a set of labelled backends.
pub struct LLMValidator<P: LlmProvider> {
    pub guidelines: Vec<Guideline>,
    pub providers: Vec<(String, P)>,
}

/// Whether `r` is the result of asking the backend `provider`, labelled
/// `label`, for `prompt`: it is made from something that the backend may
/// return for that prompt.
pub open spec fn asked<P: LlmProvider>(
    r: ValidationResult,
    label: Seq<char>,
    provider: P,
    prompt: Seq<char>,
    expected: Seq<Seq<char>>,
) -> bool {
    &&& is_result_for(r, label, expected)
    &&& exists|outcome: Result<Completion, PantherError>| #[trigger]
        made_from(r, label, expected, outcome) && provider.answers(prompt, outcome)
}

/// Whether `unsorted` holds one result per backend, in the order of the
/// backends, each from asking that backend for `prompt` and scoring
/// against `expected`.
pub open spec fn fans_out<P: LlmProvider>(
    unsorted: Seq<ValidationResult>,
    providers: Seq<(String, P)>,
    prompt: Seq<char>,
    expected: Seq<Seq<char>>,
) -> bool {
    &&& unsorted.len() == providers.len()
    &&& forall|i: int|
        0 <= i < unsorted.len() ==> asked(
            #[trigger] unsorted[i],
            providers[i].0@,
            providers[i].1,
            prompt,
            expected,
        )
}

impl<P: LlmProvider> LLMValidator<P> {
    /// A validator for the given guidelines and backends.
    pub fn new(guidelines: Vec<Guideline>, providers: Vec<(String, P)>) -> (v: Self)
        ensures
            v.guidelines == guidelines,
            v.providers == providers,
    {
        LLMValidator { guidelines, providers }
    }

    /// Asks every backend once, in order, and turns each answer or
    /// failure into a result. No backend's failure keeps another from
    /// being asked.
    pub fn collect(&self, input_prompt: &str) -> (unsorted: Vec<ValidationResult>)
        ensures
            fans_out(unsorted@, self.providers@, input_prompt@, flatten_terms(self.guidelines@)),
            all_scores_wf(unsorted@),
    {
        let expected = expected_terms(&self.guidelines);
        let mut unsorted: Vec<ValidationResult> = Vec::new();
        let mut i: usize = 0;
        while i < self.providers.len()
            invariant
                i <= self.providers.len(),
                unsorted@.len() == i,
                texts(expected@) == flatten_terms(self.guidelines@),
                forall|k: int|
                    0 <= k < i ==> asked(
                        #[trigger] unsorted@[k],
                        self.providers@[k].0@,
                        self.providers@[k].1,
                        input_prompt@,
                        texts(expected@),
                    ),
            decreases self.providers.len() - i,
        {
            let prompt = Prompt { text: input_prompt.to_owned() };
            let start = now_ms();
            let outcome = self.providers[i].1.generate(&prompt);
            let end = now_ms();
            let label = self.providers[i].0.clone();
            let ghost answer = outcome;
            let r = provider_result(label, &expected, outcome, elapsed_ms(start, end));
            assert(made_from(r, self.providers@[i as int].0@, texts(expected@), answer)
                && self.providers@[i as int].1.answers(input_prompt@, answer));
            unsorted.push(r);
            i += 1;
        }
        unsorted
    }

    /// Runs the prompt on every backend and returns the results in
    /// descending order of score.
    ///
    /// Fails only where no backend is configured. Otherwise there is one
    /// result per backend, whatever the backends returned.
    pub fn validate(&self, input_prompt: &str) -> (r: Result<Vec<ValidationResult>, PantherError>)
        ensures
            r is Err <==> self.providers@.len() == 0,
            r is Err ==> r->Err_0 is Config && r->Err_0.spec_detail()@ == "no providers configured"@,
            r is Ok ==> {
                &&& r->Ok_0@.len() == self.providers@.len()
                &&& ranked(r->Ok_0@)
                &&& exists|unsorted: Seq<ValidationResult>|
                    #[trigger] fans_out(
                        unsorted,
                        self.providers@,
                        input_prompt@,
                        flatten_terms(self.guidelines@),
                    ) && r->Ok_0@.to_multiset() == unsorted.to_multiset()
            },
    {
        if self.providers.len() == 0 {
            return Err(PantherError::Config("no providers configured".to_owned()));
        }
        let unsorted = self.collect(input_prompt);
        let ghost witness = unsorted@;
        let out = rank_results(unsorted);
        assert(fans_out(witness, self.providers@, input_prompt@, flatten_terms(self.guidelines@)));
        Ok(out)
    }
}


// ---------------------------------------------------------------------
// Values of results
// ---------------------------------------------------------------------

/// The mathematical value of a [`ValidationResult`].
pub struct ResultModel {
    pub provider_name: Seq<char>,
    pub adherence_score: Score,
    pub missing_terms: Seq<Seq<char>>,
    pub latency_ms: i64,
    pub raw_text: Seq<char>,
}

impl View for ValidationResult {
    type V = ResultModel;

    open spec fn view(&self) -> ResultModel {
        ResultModel {
            provider_name: self.provider_name@,
            adherence_score: self.adherence_score,
            missing_terms: texts(self.missing_terms@),
            latency_ms: self.latency_ms,
            raw_text: self.raw_text@,
        }
    }
}

/// The values of a sequence of results.
pub open spec fn result_models(v: Seq<ValidationResult>) -> Seq<ResultModel> {
    Seq::new(v.len(), |i: int| v[i]@)
}

impl ValidationResult {
    /// A copy with the same value.
    pub fn duplicate(&self) -> (r: ValidationResult)
        ensures
            r@ == self@,
    {
        ValidationResult {
            provider_name: self.provider_name.clone(),
            adherence_score: self.adherence_score,
            missing_terms: copy_terms(&self.missing_terms),
            latency_ms: self.latency_ms,
            raw_text: self.raw_text.clone(),
        }
    }
}

/// A copy of each result, in order.
pub fn duplicate_results(v: &Vec<ValidationResult>) -> (r: Vec<ValidationResult>)
    ensures
        result_models(r@) == result_models(v@),
{
    let mut out: Vec<ValidationResult> = Vec::new();
    let mut i: usize = 0;
    while i < v.len()
        invariant
            i <= v.len(),
            out@.len() == i,
            forall|k: int| 0 <= k < i ==> (#[trigger] out@[k])@ == v@[k]@,
        decreases v.len() - i,
    {
        out.push(v[i].duplicate());
        i += 1;
    }
    assert(result_models(out@) =~= result_models(v@));
    out
}

} // verus!
