//! JSON values, their canonical form and their compact text.

use vstd::prelude::*;

verus! {

/// A JSON value. Numbers are held as their decimal text. Where the
/// value is written out, a number whose text is no JSON number counts as
/// `null`, and of the entries of an object that share a key the last counts.
#[derive(Debug)]
pub enum Json {
    Null,
    Bool(bool),
    Number(String),
    Text(String),
    Array(Vec<Json>),
    Object(Vec<Member>),
}

/// One `key: value` entry of a JSON object.
#[derive(Debug)]
pub struct Member {
    pub key: String,
    pub value: Json,
}

/// The mathematical value of a [`Json`].
pub enum JsonModel {
    Null,
    Bool(bool),
    Number(Seq<char>),
    Text(Seq<char>),
    Array(Seq<JsonModel>),
    Object(Seq<(Seq<char>, JsonModel)>),
}

pub open spec fn model_of(j: Json) -> JsonModel
    decreases j,
{
    match j {
        Json::Null => JsonModel::Null,
        Json::Bool(b) => JsonModel::Bool(b),
        Json::Number(n) => JsonModel::Number(n@),
        Json::Text(s) => JsonModel::Text(s@),
        Json::Array(items) => JsonModel::Array(
            Seq::new(
                items.len() as nat,
                |i: int|
                    if 0 <= i < items.len() {
                        model_of(items[i])
                    } else {
                        JsonModel::Null
                    },
            ),
        ),
        Json::Object(members) => JsonModel::Object(
            Seq::new(
                members.len() as nat,
                |i: int|
                    if 0 <= i < members.len() {
                        (members[i].key@, model_of(members[i].value))
                    } else {
                        (Seq::empty(), JsonModel::Null)
                    },
            ),
        ),
    }
}

impl View for Json {
    type V = JsonModel;

    open spec fn view(&self) -> JsonModel {
        model_of(*self)
    }
}


/// The entries of an object, each as its key's characters and its value's model.
pub open spec fn member_models(members: Seq<Member>) -> Seq<(Seq<char>, JsonModel)> {
    Seq::new(members.len(), |i: int| (members[i].key@, model_of(members[i].value)))
}

/// The models of an array's items.
pub open spec fn item_models(items: Seq<Json>) -> Seq<JsonModel> {
    Seq::new(items.len(), |i: int| model_of(items[i]))
}

/// The value of an object is the object of its entries' values.
pub proof fn lemma_object_model(members: Vec<Member>)
    ensures
        model_of(Json::Object(members)) == JsonModel::Object(member_models(members@)),
{
    assert(model_of(Json::Object(members))->Object_0 =~= member_models(members@));
}

/// The value of an array is the array of its items' values.
pub proof fn lemma_array_model(items: Vec<Json>)
    ensures
        model_of(Json::Array(items)) == JsonModel::Array(item_models(items@)),
{
    assert(model_of(Json::Array(items))->Array_0 =~= item_models(items@));
}

// ---------------------------------------------------------------------
// Key order
// ---------------------------------------------------------------------

/// Lexicographic order on byte strings; a proper prefix comes first.
pub open spec fn bytes_le(a: Seq<u8>, b: Seq<u8>) -> bool
    decreases a.len(),
{
    if a.len() == 0 {
        true
    } else if b.len() == 0 {
        false
    } else if a[0] != b[0] {
        a[0] < b[0]
    } else {
        bytes_le(a.drop_first(), b.drop_first())
    }
}

/// Order of object keys: lexicographic on their UTF-8 bytes.
pub open spec fn key_le(a: Seq<char>, b: Seq<char>) -> bool {
    bytes_le(vstd::utf8::encode_utf8(a), vstd::utf8::encode_utf8(b))
}

/// Whether key `a` sorts at or before key `b`.
#[verifier::loop_isolation(false)]
pub fn key_at_most(a: &str, b: &str) -> (r: bool)
    ensures
        r == key_le(a@, b@),
{
    let x = a.as_bytes();
    let y = b.as_bytes();
    let mut i: usize = 0;
    assert(x@.skip(0) =~= x@ && y@.skip(0) =~= y@);
    while i < x.len() && i < y.len()
        invariant
            i <= x.len(),
            i <= y.len(),
            bytes_le(x@, y@) == bytes_le(x@.skip(i as int), y@.skip(i as int)),
        decreases x.len() - i,
    {
        assert(x@.skip(i as int).drop_first() =~= x@.skip(i as int + 1));
        assert(y@.skip(i as int).drop_first() =~= y@.skip(i as int + 1));
        if x[i] != y[i] {
            return x[i] < y[i];
        }
        i += 1;
    }
    x.len() <= y.len()
}

// ---------------------------------------------------------------------
// Canonical form
// ---------------------------------------------------------------------

/// Puts `m` into a sequence ordered by key, behind every entry whose key
/// is at most its own.
pub open spec fn insert_member(
    sorted: Seq<(Seq<char>, JsonModel)>,
    m: (Seq<char>, JsonModel),
) -> Seq<(Seq<char>, JsonModel)>
    decreases sorted.len(),
{
    if sorted.len() == 0 {
        seq![m]
    } else if key_le(sorted.last().0, m.0) {
        sorted.push(m)
    } else {
        insert_member(sorted.drop_last(), m).push(sorted.last())
    }
}

/// The entries ordered by key; entries with equal keys keep their order.
pub open spec fn sort_members(members: Seq<(Seq<char>, JsonModel)>) -> Seq<(Seq<char>, JsonModel)>
    decreases members.len(),
{
    if members.len() == 0 {
        members
    } else {
        insert_member(sort_members(members.drop_last()), members.last())
    }
}

/// The canonical form of a value: in every object, at every depth, the
/// entries are ordered by key. Arrays keep the order of their items.
pub open spec fn canonical(m: JsonModel) -> JsonModel
    decreases m,
{
    match m {
        JsonModel::Array(items) => JsonModel::Array(canonical_items(items)),
        JsonModel::Object(members) => JsonModel::Object(sort_members(canonical_values(members))),
        _ => m,
    }
}

/// The items of an array, each in canonical form, in the order given.
pub open spec fn canonical_items(items: Seq<JsonModel>) -> Seq<JsonModel>
    decreases items,
{
    Seq::new(
        items.len(),
        |i: int|
            if 0 <= i < items.len() {
                canonical(items[i])
            } else {
                JsonModel::Null
            },
    )
}

/// The entries of an object with each value in canonical form, in the
/// order given.
pub open spec fn canonical_values(members: Seq<(Seq<char>, JsonModel)>) -> Seq<
    (Seq<char>, JsonModel),
>
    decreases members,
{
    Seq::new(
        members.len(),
        |i: int|
            if 0 <= i < members.len() {
                (members[i].0, canonical(members[i].1))
            } else {
                (Seq::empty(), JsonModel::Null)
            },
    )
}

proof fn lemma_insert_position(
    sorted: Seq<(Seq<char>, JsonModel)>,
    m: (Seq<char>, JsonModel),
    p: int,
)
    requires
        0 <= p <= sorted.len(),
        p > 0 ==> key_le(sorted[p - 1].0, m.0),
        forall|k: int| p <= k < sorted.len() ==> !key_le(#[trigger] sorted[k].0, m.0),
    ensures
        insert_member(sorted, m) == sorted.insert(p, m),
    decreases sorted.len(),
{
    if sorted.len() == 0 {
        assert(seq![m] =~= sorted.insert(p, m));
    } else if p == sorted.len() {
        assert(sorted.push(m) =~= sorted.insert(p, m));
    } else {
        let front = sorted.drop_last();
        lemma_insert_position(front, m, p);
        assert(front.insert(p, m).push(sorted.last()) =~= sorted.insert(p, m));
    }
}

/// Returns the canonical form of `j`.
#[verifier::loop_isolation(false)]
pub fn canonicalize(j: &Json) -> (r: Json)
    ensures
        r@ == canonical(j@),
    decreases j,
{
    match j {
        Json::Null => Json::Null,
        Json::Bool(b) => Json::Bool(*b),
        Json::Number(n) => Json::Number(n.clone()),
        Json::Text(s) => Json::Text(s.clone()),
        Json::Array(items) => {
            let mut out: Vec<Json> = Vec::new();
            let mut i: usize = 0;
            while i < items.len()
                invariant
                    i <= items.len(),
                    out@.len() == i,
                    forall|k: int| 0 <= k < i ==> model_of(#[trigger] out@[k]) == canonical(model_of(items@[k])),
                decreases items.len() - i,
            {
                let c = canonicalize(&items[i]);
                out.push(c);
                i += 1;
            }
            proof {
                lemma_array_model(out);
                lemma_array_model(*items);
                assert(item_models(out@) =~= canonical_items(item_models(items@)));
            }
            Json::Array(out)
        },
        Json::Object(members) => {
            let ghost given = member_models(members@);
            let ghost wanted = canonical_values(given);
            let mut out: Vec<Member> = Vec::new();
            let mut i: usize = 0;
            proof {
                assert(wanted.take(0) =~= Seq::empty());
                assert(member_models(out@) =~= Seq::empty());
            }
            while i < members.len()
                invariant
                    i <= members.len(),
                    member_models(out@) == sort_members(wanted.take(i as int)),
                decreases members.len() - i,
            {
                let value = canonicalize(&members[i].value);
                let key = members[i].key.clone();
                let ghost before = out@;
                let ghost entry = (key@, model_of(value));
                let mut p: usize = out.len();
                while p > 0 && !key_at_most(out[p - 1].key.as_str(), key.as_str())
                    invariant
                        p <= out.len(),
                        out@ == before,
                        forall|k: int| p <= k < out.len() ==> !key_le(#[trigger] out@[k].key@, key@),
                    decreases p,
                {
                    p -= 1;
                }
                out.insert(p, Member { key, value });
                proof {
                    let models = member_models(before);
                    assert forall|k: int| p <= k < models.len() implies !key_le(
                        #[trigger] models[k].0,
                        entry.0,
                    ) by {
                        assert(models[k].0 == before[k].key@);
                    }
                    lemma_insert_position(models, entry, p as int);
                    assert(member_models(out@) =~= models.insert(p as int, entry));
                    assert(wanted.take(i as int + 1).drop_last() =~= wanted.take(i as int));
                    assert(wanted.take(i as int + 1).last() == entry);
                }
                i += 1;
            }
            proof {
                assert(wanted.take(members.len() as int) =~= wanted);
                lemma_object_model(out);
                lemma_object_model(*members);
            }
            Json::Object(out)
        },
    }
}


// ---------------------------------------------------------------------
// Compact text
// ---------------------------------------------------------------------

/// The compact JSON text of a value as `serde_json` writes it: no white
/// space, strings escaped, the entries of an object in the order of their
/// keys. The writer is not verified; this name stands for its result,
/// which depends on the value alone.
pub uninterp spec fn json_text(m: JsonModel) -> Seq<u8>;

/// The canonical text of a value: the compact text of its canonical form.
pub open spec fn canonical_text(m: JsonModel) -> Seq<u8> {
    json_text(canonical(m))
}

/// A copy of a value.
#[verifier::loop_isolation(false)]
pub fn duplicate_json(j: &Json) -> (r: Json)
    ensures
        r@ == j@,
    decreases j,
{
    match j {
        Json::Null => Json::Null,
        Json::Bool(b) => Json::Bool(*b),
        Json::Number(n) => Json::Number(n.clone()),
        Json::Text(s) => Json::Text(s.clone()),
        Json::Array(items) => {
            let mut out: Vec<Json> = Vec::new();
            let mut i: usize = 0;
            while i < items.len()
                invariant
                    i <= items.len(),
                    out@.len() == i,
                    forall|k: int| 0 <= k < i ==> model_of(#[trigger] out@[k]) == model_of(items@[k]),
                decreases items.len() - i,
            {
                out.push(duplicate_json(&items[i]));
                i += 1;
            }
            proof {
                lemma_array_model(out);
                lemma_array_model(*items);
                assert(item_models(out@) =~= item_models(items@));
            }
            Json::Array(out)
        },
        Json::Object(members) => {
            let mut out: Vec<Member> = Vec::new();
            let mut i: usize = 0;
            while i < members.len()
                invariant
                    i <= members.len(),
                    out@.len() == i,
                    forall|k: int|
                        0 <= k < i ==> (#[trigger] out@[k]).key@ == members@[k].key@ && model_of(
                            out@[k].value,
                        ) == model_of(members@[k].value),
                decreases members.len() - i,
            {
                let value = duplicate_json(&members[i].value);
                out.push(Member { key: members[i].key.clone(), value });
                i += 1;
            }
            proof {
                lemma_object_model(out);
                lemma_object_model(*members);
                assert(member_models(out@) =~= member_models(members@));
            }
            Json::Object(out)
        },
    }
}

impl Json {
    /// A copy with the same value.
    pub fn duplicate(&self) -> (r: Json)
        ensures
            r@ == self@,
    {
        duplicate_json(self)
    }

    /// The compact JSON text of this value.
    pub fn to_bytes(&self) -> (out: Vec<u8>)
        ensures
            out@ == json_text(self@),
    {
        write_text(self)
    }

    /// The canonical JSON text of this value: its entries ordered by key
    /// at every depth, written without white space.
    pub fn canonical_bytes(&self) -> (out: Vec<u8>)
        ensures
            out@ == canonical_text(self@),
    {
        canonicalize(self).to_bytes()
    }
}


// ---------------------------------------------------------------------
// Parsing
// ---------------------------------------------------------------------

/// Makes `serde_json::Value` known as an opaque type.
#[verifier::external_type_specification]
#[verifier::external_body]
pub struct ExValue(serde_json::Value);

/// The value that `serde_json` reads from a text, or `None` where it
/// rejects the text. The parser is not verified; this name stands for its
/// result, which depends on the text alone.
pub uninterp spec fn parsed(text: Seq<char>) -> Option<JsonModel>;

/// No object of the value, at any depth, holds a key twice.
pub open spec fn keys_distinct(m: JsonModel) -> bool
    decreases m,
{
    match m {
        JsonModel::Array(items) => forall|i: int|
            0 <= i < items.len() ==> keys_distinct(#[trigger] items[i]),
        JsonModel::Object(members) => {
            &&& forall|i: int, j: int|
                0 <= i < j < members.len() ==> (#[trigger] members[i]).0 != (
                #[trigger] members[j]).0
            &&& forall|i: int|
                0 <= i < members.len() ==> keys_distinct((#[trigger] members[i]).1)
        },
        _ => true,
    }
}

/// Trusted: copies a `serde_json::Value` into a [`Json`], variant by
/// variant; a number is taken as the text that `Number`'s `Display` gives.
/// Nothing is claimed of the result.
#[verifier::external_body]
fn from_value(v: &serde_json::Value) -> Json {
    match v {
        serde_json::Value::Null => Json::Null,
        serde_json::Value::Bool(b) => Json::Bool(*b),
        serde_json::Value::Number(n) => Json::Number(n.to_string()),
        serde_json::Value::String(s) => Json::Text(s.clone()),
        serde_json::Value::Array(a) => Json::Array(a.iter().map(from_value).collect()),
        serde_json::Value::Object(m) => Json::Object(
            m.iter().map(|(k, x)| Member { key: k.clone(), value: from_value(x) }).collect(),
        ),
    }
}

/// Trusted: calls `serde_json::from_str` for a `serde_json::Value` and
/// copies what it returns. The contract names the result and says that
/// no object of it holds a key twice: the objects of a
/// `serde_json::Value` are maps.
#[verifier::external_body]
fn parse_text(text: &str) -> (r: Option<Json>)
    ensures
        match r {
            Some(j) => parsed(text@) == Some(j@) && keys_distinct(j@),
            None => parsed(text@) is None,
        },
{
    match serde_json::from_str::<serde_json::Value>(text) {
        Ok(v) => Some(from_value(&v)),
        Err(_) => None,
    }
}

/// Trusted: copies a [`Json`] into a `serde_json::Value`, variant by
/// variant. A number is read from its text by `serde_json::from_str` and
/// counts as `null` where that rejects the text; of entries with the same
/// key the map keeps the last. Nothing is claimed of the result.
#[verifier::external_body]
fn to_value(j: &Json) -> serde_json::Value {
    match j {
        Json::Null => serde_json::Value::Null,
        Json::Bool(b) => serde_json::Value::Bool(*b),
        Json::Number(n) => match serde_json::from_str::<serde_json::Number>(n) {
            Ok(x) => serde_json::Value::Number(x),
            Err(_) => serde_json::Value::Null,
        },
        Json::Text(s) => serde_json::Value::String(s.clone()),
        Json::Array(a) => serde_json::Value::Array(a.iter().map(to_value).collect()),
        Json::Object(m) => serde_json::Value::Object(
            m.iter().map(|e| (e.key.clone(), to_value(&e.value))).collect(),
        ),
    }
}

/// Trusted: calls `serde_json::to_vec` on the copy that `to_value` makes
/// of the value; writing a `serde_json::Value` to a vector does not
/// fail. The contract only names the result.
#[verifier::external_body]
fn write_text(j: &Json) -> (out: Vec<u8>)
    ensures
        out@ == json_text(j@),
{
    serde_json::to_vec(&to_value(j)).unwrap_or_default()
}

/// What a text stands for where a value is wanted whatever the text
/// holds: the value read from it, or `null` where it is no JSON.
pub open spec fn parsed_or_null(text: Seq<char>) -> JsonModel {
    match parsed(text) {
        Some(m) => m,
        None => JsonModel::Null,
    }
}

impl Json {
    /// Reads a JSON text. `None` where the text is not JSON. No object
    /// of the value read holds a key twice.
    pub fn parse(text: &str) -> (r: Option<Json>)
        ensures
            match r {
                Some(j) => parsed(text@) == Some(j@) && keys_distinct(j@),
                None => parsed(text@) is None,
            },
    {
        parse_text(text)
    }

    /// Reads a JSON text; a text that is not JSON reads as `null`.
    pub fn parse_or_null(text: &str) -> (j: Json)
        ensures
            j@ == parsed_or_null(text@),
            keys_distinct(j@),
    {
        match parse_text(text) {
            Some(j) => j,
            None => Json::Null,
        }
    }
}

} // verus!
