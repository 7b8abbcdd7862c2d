//! Reading guideline sets from JSON.

use crate::domain::{LlmProvider, PantherError};
use crate::json::{
    item_models, lemma_array_model, lemma_object_model, member_models, parsed, Json, JsonModel,
    Member,
};
use crate::validation::{texts, Guideline, LLMValidator};
use vstd::prelude::*;

verus! {

/// The value under `key` among the first `n` entries of an object; where
/// the key occurs more than once, the last occurrence counts.
pub open spec fn lookup(members: Seq<(Seq<char>, JsonModel)>, key: Seq<char>, n: nat) -> Option<
    JsonModel,
>
    decreases n,
{
    if n == 0 || n > members.len() {
        None
    } else if members[n - 1].0 == key {
        Some(members[n - 1].1)
    } else {
        lookup(members, key, (n - 1) as nat)
    }
}

/// Whether every item is a string.
pub open spec fn all_text(items: Seq<JsonModel>) -> bool {
    forall|i: int| 0 <= i < items.len() ==> (#[trigger] items[i]) is Text
}

/// The strings of an array of strings.
pub open spec fn text_items(items: Seq<JsonModel>) -> Seq<Seq<char>> {
    Seq::new(items.len(), |i: int| items[i]->Text_0)
}

/// A guideline as a value: its topic and its expected terms.
pub struct GuidelineModel {
    pub topic: Seq<char>,
    pub expected_terms: Seq<Seq<char>>,
}

impl View for Guideline {
    type V = GuidelineModel;

    open spec fn view(&self) -> GuidelineModel {
        GuidelineModel { topic: self.topic@, expected_terms: texts(self.expected_terms@) }
    }
}

/// The values of a sequence of guidelines.
pub open spec fn guideline_models(v: Seq<Guideline>) -> Seq<GuidelineModel> {
    Seq::new(v.len(), |i: int| v[i]@)
}

/// Whether a JSON value spells a guideline as an object: with a string
/// under `topic` and an array of strings under `expected_terms`. Entries
/// under other keys do not matter.
pub open spec fn spells_guideline_object(m: JsonModel) -> bool {
    m matches JsonModel::Object(members) && lookup(members, "topic"@, members.len()) matches Some(
        JsonModel::Text(_),
    ) && lookup(members, "expected_terms"@, members.len()) matches Some(JsonModel::Array(items))
        && all_text(items)
}

/// Whether a JSON value spells a guideline as a pair: an array of
/// exactly two items, the topic as a string and the expected terms as an
/// array of strings.
pub open spec fn spells_guideline_pair(m: JsonModel) -> bool {
    &&& m is Array
    &&& m->Array_0.len() == 2
    &&& m->Array_0[0] is Text
    &&& m->Array_0[1] is Array
    &&& all_text(m->Array_0[1]->Array_0)
}

/// Whether a JSON value spells a guideline, as an object or as a pair.
pub open spec fn spells_guideline(m: JsonModel) -> bool {
    spells_guideline_object(m) || spells_guideline_pair(m)
}

/// The guideline that a JSON value spells.
pub open spec fn guideline_of(m: JsonModel) -> GuidelineModel
    recommends
        spells_guideline(m),
{
    if m is Object {
        let members = m->Object_0;
        GuidelineModel {
            topic: lookup(members, "topic"@, members.len())->Some_0->Text_0,
            expected_terms: text_items(
                lookup(members, "expected_terms"@, members.len())->Some_0->Array_0,
            ),
        }
    } else {
        let items = m->Array_0;
        GuidelineModel {
            topic: items[0]->Text_0,
            expected_terms: text_items(items[1]->Array_0),
        }
    }
}

/// Whether a JSON value spells a set of guidelines: an array of which
/// every item spells a guideline.
pub open spec fn spells_guidelines(m: JsonModel) -> bool {
    m matches JsonModel::Array(items) && forall|i: int|
        0 <= i < items.len() ==> spells_guideline(#[trigger] items[i])
}

/// The guidelines that a JSON value spells, in order.
pub open spec fn guidelines_of(m: JsonModel) -> Seq<GuidelineModel>
    recommends
        spells_guidelines(m),
{
    let items = m->Array_0;
    Seq::new(items.len(), |i: int| guideline_of(items[i]))
}

pub(crate) fn find<'a>(members: &'a Vec<Member>, key: &str) -> (r: Option<&'a Json>)
    ensures
        match r {
            Some(j) => lookup(member_models(members@), key@, members@.len()) == Some(j@),
            None => lookup(member_models(members@), key@, members@.len()) is None,
        },
{
    let wanted = key.to_owned();
    let mut n: usize = members.len();
    while n > 0
        invariant
            n <= members.len(),
            wanted@ == key@,
            lookup(member_models(members@), key@, members@.len()) == lookup(
                member_models(members@),
                key@,
                n as nat,
            ),
        decreases n,
    {
        if members[n - 1].key == wanted {
            return Some(&members[n - 1].value);
        }
        n -= 1;
    }
    None
}

pub(crate) fn read_terms(items: &Vec<Json>) -> (r: Option<Vec<String>>)
    ensures
        r.is_some() == all_text(item_models(items@)),
        r.is_some() ==> texts(r->Some_0@) == text_items(item_models(items@)),
{
    let mut out: Vec<String> = Vec::new();
    let mut i: usize = 0;
    while i < items.len()
        invariant
            i <= items.len(),
            out@.len() == i,
            forall|k: int| 0 <= k < i ==> (#[trigger] item_models(items@)[k]) is Text,
            forall|k: int| 0 <= k < i ==> (#[trigger] out@[k])@ == item_models(items@)[k]->Text_0,
        decreases items.len() - i,
    {
        match &items[i] {
            Json::Text(s) => {
                out.push(s.clone());
            },
            _ => {
                assert(!(item_models(items@)[i as int] is Text));
                return None;
            },
        }
        i += 1;
    }
    assert(texts(out@) =~= text_items(item_models(items@)));
    Some(out)
}

/// Reads one guideline from a JSON value, spelled as an object or as a
/// pair. Where an object holds a key more than once, the last occurrence
/// counts; a value read from text never does.
pub fn read_guideline(j: &Json) -> (r: Option<Guideline>)
    ensures
        r.is_some() == spells_guideline(j@),
        r.is_some() ==> r->Some_0@ == guideline_of(j@),
{
    match j {
        Json::Object(members) => {
            proof {
                lemma_object_model(*members);
            }
            let topic = match find(members, "topic") {
                Some(Json::Text(t)) => t.clone(),
                _ => {
                    return None;
                },
            };
            let expected_terms = match find(members, "expected_terms") {
                Some(Json::Array(items)) => {
                    proof {
                        lemma_array_model(*items);
                    }
                    match read_terms(items) {
                        Some(terms) => terms,
                        None => {
                            return None;
                        },
                    }
                },
                _ => {
                    return None;
                },
            };
            Some(Guideline { topic, expected_terms })
        },
        Json::Array(items) => {
            proof {
                lemma_array_model(*items);
            }
            if items.len() != 2 {
                return None;
            }
            let topic = match &items[0] {
                Json::Text(t) => t.clone(),
                _ => {
                    return None;
                },
            };
            let expected_terms = match &items[1] {
                Json::Array(terms) => {
                    proof {
                        lemma_array_model(*terms);
                    }
                    match read_terms(terms) {
                        Some(terms) => terms,
                        None => {
                            return None;
                        },
                    }
                },
                _ => {
                    return None;
                },
            };
            Some(Guideline { topic, expected_terms })
        },
        _ => None,
    }
}

/// Reads a set of guidelines from a JSON value.
///
/// Fails where the value is no array or one of its items spells no guideline.
pub fn read_guidelines(j: &Json) -> (r: Result<Vec<Guideline>, PantherError>)
    ensures
        r is Ok <==> spells_guidelines(j@),
        r is Ok ==> guideline_models(r->Ok_0@) == guidelines_of(j@),
        r is Err ==> r->Err_0 is InvalidInput,
{
    match j {
        Json::Array(items) => {
            proof {
                lemma_array_model(*items);
            }
            let mut out: Vec<Guideline> = Vec::new();
            let mut i: usize = 0;
            while i < items.len()
                invariant
                    i <= items.len(),
                    out@.len() == i,
                    j@ == JsonModel::Array(item_models(items@)),
                    forall|k: int| 0 <= k < i ==> spells_guideline(#[trigger] item_models(items@)[k]),
                    forall|k: int|
                        0 <= k < i ==> (#[trigger] out@[k])@ == guideline_of(item_models(items@)[k]),
                decreases items.len() - i,
            {
                match read_guideline(&items[i]) {
                    Some(g) => {
                        out.push(g);
                    },
                    None => {
                        assert(!spells_guideline(j@->Array_0[i as int]));
                        return Err(
                            PantherError::InvalidInput("guidelines: not a guideline".to_owned()),
                        );
                    },
                }
                i += 1;
            }
            assert(guideline_models(out@) =~= guidelines_of(j@));
            Ok(out)
        },
        _ => Err(PantherError::InvalidInput("guidelines: not an array".to_owned())),
    }
}

/// Reads a set of guidelines from JSON text.
///
/// Fails where the text is no JSON or spells no set of guidelines.
pub fn parse_guidelines(text: &str) -> (r: Result<Vec<Guideline>, PantherError>)
    ensures
        r is Ok <==> parsed(text@) is Some && spells_guidelines(parsed(text@)->Some_0),
        r is Ok ==> guideline_models(r->Ok_0@) == guidelines_of(parsed(text@)->Some_0),
        r is Err ==> r->Err_0 is InvalidInput,
{
    match Json::parse(text) {
        Some(j) => read_guidelines(&j),
        None => Err(PantherError::InvalidInput("guidelines: not JSON".to_owned())),
    }
}

impl<P: LlmProvider> LLMValidator<P> {
    /// A validator for the guidelines that `json` spells.
    ///
    /// Fails where the text is no JSON or spells no set of guidelines.
    pub fn from_json_str(json: &str, providers: Vec<(String, P)>) -> (r: Result<Self, PantherError>)
        ensures
            r is Ok <==> parsed(json@) is Some && spells_guidelines(parsed(json@)->Some_0),
            r is Ok ==> r->Ok_0.providers == providers && guideline_models(r->Ok_0.guidelines@)
                == guidelines_of(parsed(json@)->Some_0),
            r is Err ==> r->Err_0 is InvalidInput,
    {
        match parse_guidelines(json) {
            Ok(guidelines) => Ok(LLMValidator { guidelines, providers }),
            Err(e) => Err(e),
        }
    }
}

} // verus!
