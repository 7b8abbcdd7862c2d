//! Whether a JSON text spells a list of validation results.

use crate::guidelines::{all_text, find, lookup, read_terms, text_items};
use crate::json::{item_models, lemma_array_model, lemma_object_model, Json, JsonModel};
use crate::text::{signed_decimal, signed_decimal_text};
use crate::validation::{result_models, texts, ResultModel, ValidationResult};
use vstd::prelude::*;

verus! {

/// Whether a JSON value spells the result `r`: an object that holds the
/// result's name under `provider_name`, its text under `raw_text`, its
/// latency as a whole number under `latency_ms`, its missing terms as an
/// array of strings under `missing_terms`, and a number under
/// `adherence_score`. Which number stands there is not compared, nor are
/// entries under other keys.
pub open spec fn spells_result(m: JsonModel, r: ResultModel) -> bool {
    m matches JsonModel::Object(members) && {
        let n = members.len();
        &&& lookup(members, "provider_name"@, n) == Some(JsonModel::Text(r.provider_name))
        &&& lookup(members, "raw_text"@, n) == Some(JsonModel::Text(r.raw_text))
        &&& lookup(members, "latency_ms"@, n) == Some(
            JsonModel::Number(signed_decimal_text(r.latency_ms as int)),
        )
        &&& lookup(members, "adherence_score"@, n) matches Some(JsonModel::Number(_))
        &&& lookup(members, "missing_terms"@, n) matches Some(JsonModel::Array(terms))
            && all_text(terms) && text_items(terms) == r.missing_terms
    }
}

/// Whether a JSON value spells the results: an array with one item for
/// each result, in order, each spelling its result.
pub open spec fn spells_results(m: JsonModel, results: Seq<ResultModel>) -> bool {
    m matches JsonModel::Array(items) && items.len() == results.len() && forall|i: int|
        0 <= i < items.len() ==> spells_result(#[trigger] items[i], results[i])
}

fn same_terms(a: &Vec<String>, b: &Vec<String>) -> (same: bool)
    ensures
        same == (texts(a@) == texts(b@)),
{
    if a.len() != b.len() {
        assert(texts(a@).len() != texts(b@).len());
        return false;
    }
    let mut i: usize = 0;
    while i < a.len()
        invariant
            i <= a.len(),
            a.len() == b.len(),
            forall|k: int| 0 <= k < i ==> a@[k]@ == b@[k]@,
        decreases a.len() - i,
    {
        if a[i] != b[i] {
            assert(texts(a@)[i as int] != texts(b@)[i as int]);
            return false;
        }
        i += 1;
    }
    assert(texts(a@) =~= texts(b@));
    true
}

/// Whether `j` spells the result `r`.
pub fn is_result_spelled(j: &Json, r: &ValidationResult) -> (ok: bool)
    ensures
        ok == spells_result(j@, r@),
{
    match j {
        Json::Object(members) => {
            proof {
                lemma_object_model(*members);
            }
            let name_ok = match find(members, "provider_name") {
                Some(Json::Text(t)) => *t == r.provider_name,
                _ => false,
            };
            let text_ok = match find(members, "raw_text") {
                Some(Json::Text(t)) => *t == r.raw_text,
                _ => false,
            };
            let latency_ok = match find(members, "latency_ms") {
                Some(Json::Number(n)) => *n == signed_decimal(r.latency_ms),
                _ => false,
            };
            let score_ok = match find(members, "adherence_score") {
                Some(Json::Number(_)) => true,
                _ => false,
            };
            let terms_ok = match find(members, "missing_terms") {
                Some(Json::Array(items)) => {
                    proof {
                        lemma_array_model(*items);
                    }
                    match read_terms(items) {
                        Some(terms) => same_terms(&terms, &r.missing_terms),
                        None => false,
                    }
                },
                _ => false,
            };
            name_ok && text_ok && latency_ok && score_ok && terms_ok
        },
        _ => false,
    }
}

/// Whether `j` spells the results, each in its place.
pub fn are_results_spelled(j: &Json, results: &Vec<ValidationResult>) -> (ok: bool)
    ensures
        ok == spells_results(j@, result_models(results@)),
{
    match j {
        Json::Array(items) => {
            proof {
                lemma_array_model(*items);
            }
            if items.len() != results.len() {
                return false;
            }
            let mut i: usize = 0;
            while i < items.len()
                invariant
                    i <= items.len(),
                    items.len() == results.len(),
                    j@ == JsonModel::Array(item_models(items@)),
                    forall|k: int|
                        0 <= k < i ==> spells_result(
                            #[trigger] item_models(items@)[k],
                            result_models(results@)[k],
                        ),
                decreases items.len() - i,
            {
                if !is_result_spelled(&items[i], &results[i]) {
                    assert(!spells_result(j@->Array_0[i as int], result_models(results@)[i as int]));
                    return false;
                }
                i += 1;
            }
            true
        },
        _ => false,
    }
}

} // verus!
