//! Running a suite of cases through a function, and writing cases out.

use crate::text::{decimal, decimal_text, join_text};
use vstd::prelude::*;

verus! {

/// One case: an input and, where it is known, the output expected for it.
#[derive(Debug)]
pub struct TestCase {
    pub input: String,
    pub expected: Option<String>,
}

/// What running one case gave.
#[derive(Debug)]
pub struct TestResult {
    pub index: usize,
    pub passed: bool,
    pub output: String,
}

/// Whether `r` is what running case `tc`, the case at position `i`,
/// through `runner` may give: the output is one that the runner returns
/// for the input, and the case passes unless another output was expected.
pub open spec fn is_run_of<F: Fn(&str) -> String>(r: TestResult, i: int, tc: TestCase, runner: F) -> bool {
    &&& r.index == i
    &&& exists|input: &str| input@ == tc.input@ && #[trigger] runner.ensures((input,), r.output)
    &&& r.passed == match tc.expected {
        Some(e) => r.output@ == e@,
        None => true,
    }
}

/// Runs every case of the suite through `runner`, in order.
pub fn run_test_suite<F: Fn(&str) -> String>(suite: &[TestCase], runner: F) -> (out: Vec<TestResult>)
    requires
        forall|input: &str| runner.requires((input,)),
    ensures
        out@.len() == suite@.len(),
        forall|i: int| 0 <= i < out@.len() ==> is_run_of(#[trigger] out@[i], i, suite@[i], runner),
{
    let mut out: Vec<TestResult> = Vec::new();
    let mut i: usize = 0;
    while i < suite.len()
        invariant
            i <= suite@.len(),
            out@.len() == i,
            forall|input: &str| runner.requires((input,)),
            forall|k: int| 0 <= k < i ==> is_run_of(#[trigger] out@[k], k, suite@[k], runner),
        decreases suite@.len() - i,
    {
        let tc = &suite[i];
        let input = tc.input.as_str();
        let output = runner(input);
        let passed = match &tc.expected {
            Some(e) => output == *e,
            None => true,
        };
        let r = TestResult { index: i, passed, output };
        assert(runner.ensures((input,), r.output));
        out.push(r);
        i += 1;
    }
    out
}

/// The plain form of the case written for example number `number`.
pub open spec fn case_text(number: nat, domain: Seq<char>, example: Seq<char>) -> Seq<char> {
    "["@ + decimal_text(number) + "] "@ + domain + " :: "@ + example
}

/// The question form of the case written for example number `number`.
pub open spec fn question_text(number: nat, domain: Seq<char>, example: Seq<char>) -> Seq<char> {
    "["@ + decimal_text(number) + "a] "@ + domain + " :: "@ + example + "?"@
}

/// Writes two cases for each example: a plain one and a question,
/// numbered from one.
pub fn generate_tests(domain: &str, examples: &[String]) -> (out: Vec<String>)
    ensures
        out@.len() == 2 * examples@.len(),
        forall|i: int|
            0 <= i < examples@.len() ==> (#[trigger] out@[2 * i])@ == case_text(
                (i + 1) as nat,
                domain@,
                examples@[i]@,
            ) && out@[2 * i + 1]@ == question_text((i + 1) as nat, domain@, examples@[i]@),
{
    let mut out: Vec<String> = Vec::new();
    let mut i: usize = 0;
    while i < examples.len()
        invariant
            i <= examples@.len(),
            out@.len() == 2 * i,
            forall|k: int|
                0 <= k < i ==> (#[trigger] out@[2 * k])@ == case_text(
                    (k + 1) as nat,
                    domain@,
                    examples@[k]@,
                ) && out@[2 * k + 1]@ == question_text((k + 1) as nat, domain@, examples@[k]@),
        decreases examples@.len() - i,
    {
        let number = decimal(i as u64 + 1);
        let example = examples[i].as_str();
        let a = join_text("[", number.as_str());
        let plain_head = join_text(a.as_str(), "] ");
        let asked_head = join_text(a.as_str(), "a] ");
        let plain_domain = join_text(plain_head.as_str(), domain);
        let plain_sep = join_text(plain_domain.as_str(), " :: ");
        let plain = join_text(plain_sep.as_str(), example);
        let asked_domain = join_text(asked_head.as_str(), domain);
        let asked_sep = join_text(asked_domain.as_str(), " :: ");
        let asked_example = join_text(asked_sep.as_str(), example);
        let asked = join_text(asked_example.as_str(), "?");
        out.push(plain);
        out.push(asked);
        i += 1;
    }
    out
}

} // verus!
