//! Laws of the key order and of the canonical form: an object's
//! canonical form does not depend on the order in which its entries are given.

use crate::json::{
    bytes_le, canonical, canonical_text, canonical_values, insert_member, key_le, sort_members,
    JsonModel,
};
use vstd::prelude::*;

verus! {

/// Whether `x` is one of the entries.
pub open spec fn holds_entry(s: Seq<(Seq<char>, JsonModel)>, x: (Seq<char>, JsonModel)) -> bool {
    exists|i: int| 0 <= i < s.len() && #[trigger] s[i] == x
}

/// Whether two sequences hold the same entries, in whatever order.
pub open spec fn same_entries(
    a: Seq<(Seq<char>, JsonModel)>,
    b: Seq<(Seq<char>, JsonModel)>,
) -> bool {
    forall|x: (Seq<char>, JsonModel)|
        #![trigger holds_entry(a, x)]
        #![trigger holds_entry(b, x)]
        holds_entry(a, x) <==> holds_entry(b, x)
}

/// No key occurs twice.
pub open spec fn distinct_keys(s: Seq<(Seq<char>, JsonModel)>) -> bool {
    forall|i: int, j: int| 0 <= i < j < s.len() ==> (#[trigger] s[i]).0 != (#[trigger] s[j]).0
}

/// The entries stand in the order of their keys.
pub open spec fn ordered(s: Seq<(Seq<char>, JsonModel)>) -> bool {
    forall|i: int, j: int|
        0 <= i < j < s.len() ==> key_le((#[trigger] s[i]).0, (#[trigger] s[j]).0)
}

/// Of two byte strings one comes at or before the other.
pub proof fn lemma_bytes_total(a: Seq<u8>, b: Seq<u8>)
    ensures
        bytes_le(a, b) || bytes_le(b, a),
    decreases a.len(),
{
    if a.len() > 0 && b.len() > 0 && a[0] == b[0] {
        lemma_bytes_total(a.drop_first(), b.drop_first());
    }
}

/// Two byte strings that each come at or before the other are equal.
pub proof fn lemma_bytes_antisymmetric(a: Seq<u8>, b: Seq<u8>)
    requires
        bytes_le(a, b),
        bytes_le(b, a),
    ensures
        a == b,
    decreases a.len(),
{
    if a.len() == 0 {
        assert(a =~= b);
    } else {
        lemma_bytes_antisymmetric(a.drop_first(), b.drop_first());
        assert forall|i: int| 0 <= i < a.len() implies a[i] == b[i] by {
            if i > 0 {
                assert(a[i] == a.drop_first()[i - 1]);
                assert(b[i] == b.drop_first()[i - 1]);
            }
        }
        assert(a.len() == a.drop_first().len() + 1 && b.len() == b.drop_first().len() + 1);
        assert(a =~= b);
    }
}

/// The order on byte strings is transitive.
pub proof fn lemma_bytes_transitive(a: Seq<u8>, b: Seq<u8>, c: Seq<u8>)
    requires
        bytes_le(a, b),
        bytes_le(b, c),
    ensures
        bytes_le(a, c),
    decreases a.len(),
{
    if a.len() > 0 && a[0] == b[0] && b[0] == c[0] {
        lemma_bytes_transitive(a.drop_first(), b.drop_first(), c.drop_first());
    }
}

/// The key order is a total order: any two keys compare, keys that
/// compare both ways are the same key, and the order is transitive.
pub proof fn lemma_key_order(a: Seq<char>, b: Seq<char>, c: Seq<char>)
    ensures
        key_le(a, b) || key_le(b, a),
        key_le(a, b) && key_le(b, a) ==> a == b,
        key_le(a, b) && key_le(b, c) ==> key_le(a, c),
        key_le(a, a),
{
    let (x, y, z) = (
        vstd::utf8::encode_utf8(a),
        vstd::utf8::encode_utf8(b),
        vstd::utf8::encode_utf8(c),
    );
    lemma_bytes_total(x, y);
    lemma_bytes_total(x, x);
    if key_le(a, b) && key_le(b, a) {
        lemma_bytes_antisymmetric(x, y);
        vstd::utf8::encode_utf8_decode_utf8(a);
        vstd::utf8::encode_utf8_decode_utf8(b);
    }
    if key_le(a, b) && key_le(b, c) {
        lemma_bytes_transitive(x, y, z);
    }
}

/// Putting an entry with a new key into ordered entries keeps them
/// ordered, and adds that entry and no other.
pub proof fn lemma_insert_member(s: Seq<(Seq<char>, JsonModel)>, m: (Seq<char>, JsonModel))
    requires
        ordered(s),
        distinct_keys(s),
        forall|i: int| 0 <= i < s.len() ==> (#[trigger] s[i]).0 != m.0,
    ensures
        ordered(insert_member(s, m)),
        distinct_keys(insert_member(s, m)),
        insert_member(s, m).len() == s.len() + 1,
        forall|x: (Seq<char>, JsonModel)|
            #![trigger holds_entry(insert_member(s, m), x)]
            #![trigger holds_entry(s, x)]
            holds_entry(insert_member(s, m), x) <==> (x == m || holds_entry(s, x)),
    decreases s.len(),
{
    let r = insert_member(s, m);
    if s.len() == 0 {
        assert(r[0] == m);
        assert forall|x: (Seq<char>, JsonModel)| holds_entry(r, x) <==> (x == m || holds_entry(
            s,
            x,
        )) by {
            if x == m {
                assert(r[0] == x);
            }
        }
    } else if key_le(s.last().0, m.0) {
        let n = s.len() as int;
        assert forall|i: int, j: int| 0 <= i < j < r.len() implies key_le(
            (#[trigger] r[i]).0,
            (#[trigger] r[j]).0,
        ) by {
            if j == n {
                assert(r[i] == s[i]);
                if i < n - 1 {
                    assert(key_le(s[i].0, s[n - 1].0));
                    lemma_key_order(s[i].0, s[n - 1].0, m.0);
                }
            } else {
                assert(r[i] == s[i] && r[j] == s[j]);
            }
        }
        assert forall|i: int, j: int| 0 <= i < j < r.len() implies (#[trigger] r[i]).0 != (
        #[trigger] r[j]).0 by {
            assert(r[i] == s[i]);
            if j < n {
                assert(r[j] == s[j]);
            }
        }
        assert forall|x: (Seq<char>, JsonModel)| holds_entry(r, x) <==> (x == m || holds_entry(
            s,
            x,
        )) by {
            if holds_entry(r, x) {
                let i = choose|i: int| 0 <= i < r.len() && #[trigger] r[i] == x;
                if i < n {
                    assert(s[i] == x);
                }
            }
            if x == m {
                assert(r[n] == x);
            }
            if holds_entry(s, x) {
                let i = choose|i: int| 0 <= i < s.len() && #[trigger] s[i] == x;
                assert(r[i] == x);
            }
        }
    } else {
        let front = s.drop_last();
        let last = s.last();
        let r0 = insert_member(front, m);
        let n = s.len() as int;
        assert forall|i: int, j: int| 0 <= i < j < front.len() implies key_le(
            (#[trigger] front[i]).0,
            (#[trigger] front[j]).0,
        ) by {
            assert(front[i] == s[i] && front[j] == s[j]);
        }
        assert forall|i: int, j: int| 0 <= i < j < front.len() implies (#[trigger] front[i]).0 != (
        #[trigger] front[j]).0 by {
            assert(front[i] == s[i] && front[j] == s[j]);
        }
        assert forall|i: int| 0 <= i < front.len() implies (#[trigger] front[i]).0 != m.0 by {
            assert(front[i] == s[i]);
        }
        lemma_insert_member(front, m);
        lemma_key_order(last.0, m.0, m.0);
        // every entry of `r0` comes before `last` and has another key
        assert forall|i: int| 0 <= i < r0.len() implies key_le((#[trigger] r0[i]).0, last.0)
            && r0[i].0 != last.0 by {
            assert(holds_entry(r0, r0[i]));
            if r0[i] == m {
                assert(s[n - 1].0 != m.0);
            } else {
                assert(holds_entry(front, r0[i]));
                let p = choose|p: int| 0 <= p < front.len() && #[trigger] front[p] == r0[i];
                assert(front[p] == s[p]);
                assert(key_le(s[p].0, s[n - 1].0));
                assert(s[p].0 != s[n - 1].0);
            }
        }
        assert forall|i: int, j: int| 0 <= i < j < r.len() implies key_le(
            (#[trigger] r[i]).0,
            (#[trigger] r[j]).0,
        ) && r[i].0 != r[j].0 by {
            assert(r[i] == r0[i]);
            if j < n {
                assert(r[j] == r0[j]);
            }
        }
        assert forall|x: (Seq<char>, JsonModel)| holds_entry(r, x) <==> (x == m || holds_entry(
            s,
            x,
        )) by {
            if holds_entry(r, x) {
                let i = choose|i: int| 0 <= i < r.len() && #[trigger] r[i] == x;
                if i < n {
                    assert(r0[i] == x);
                    assert(holds_entry(r0, x));
                    if x != m {
                        let p = choose|p: int| 0 <= p < front.len() && #[trigger] front[p] == x;
                        assert(s[p] == x);
                    }
                } else {
                    assert(s[n - 1] == x);
                }
            }
            if x == m {
                assert(holds_entry(r0, x));
                let i = choose|i: int| 0 <= i < r0.len() && #[trigger] r0[i] == x;
                assert(r[i] == x);
            }
            if holds_entry(s, x) {
                let p = choose|p: int| 0 <= p < s.len() && #[trigger] s[p] == x;
                if p < n - 1 {
                    assert(front[p] == x);
                    assert(holds_entry(front, x));
                    assert(holds_entry(r0, x));
                    let i = choose|i: int| 0 <= i < r0.len() && #[trigger] r0[i] == x;
                    assert(r[i] == x);
                } else {
                    assert(r[n] == x);
                }
            }
        }
    }
}

/// Sorting entries of which no two share a key gives the same entries in
/// the order of their keys.
pub proof fn lemma_sort_members(s: Seq<(Seq<char>, JsonModel)>)
    requires
        distinct_keys(s),
    ensures
        ordered(sort_members(s)),
        distinct_keys(sort_members(s)),
        sort_members(s).len() == s.len(),
        same_entries(sort_members(s), s),
    decreases s.len(),
{
    if s.len() > 0 {
        let front = s.drop_last();
        let last = s.last();
        let n = s.len() as int;
        assert forall|i: int, j: int| 0 <= i < j < front.len() implies (#[trigger] front[i]).0 != (
        #[trigger] front[j]).0 by {
            assert(front[i] == s[i] && front[j] == s[j]);
        }
        lemma_sort_members(front);
        let r0 = sort_members(front);
        assert forall|i: int| 0 <= i < r0.len() implies (#[trigger] r0[i]).0 != last.0 by {
            assert(holds_entry(r0, r0[i]));
            assert(holds_entry(front, r0[i]));
            let p = choose|p: int| 0 <= p < front.len() && #[trigger] front[p] == r0[i];
            assert(front[p] == s[p]);
            assert(s[p].0 != s[n - 1].0);
        }
        lemma_insert_member(r0, last);
        let r = sort_members(s);
        assert forall|x: (Seq<char>, JsonModel)| holds_entry(r, x) <==> holds_entry(s, x) by {
            if holds_entry(r, x) && x != last {
                assert(holds_entry(r0, x));
                assert(holds_entry(front, x));
                let p = choose|p: int| 0 <= p < front.len() && #[trigger] front[p] == x;
                assert(s[p] == x);
            }
            if x == last {
                assert(s[n - 1] == x);
            }
            if holds_entry(s, x) && x != last {
                let p = choose|p: int| 0 <= p < s.len() && #[trigger] s[p] == x;
                assert(front[p] == x);
                assert(holds_entry(front, x));
                assert(holds_entry(r0, x));
            }
        }
    }
}

/// Entries in the order of their keys, no key twice, are fixed by which
/// entries they are.
pub proof fn lemma_ordered_unique(s: Seq<(Seq<char>, JsonModel)>, t: Seq<(Seq<char>, JsonModel)>)
    requires
        ordered(s),
        ordered(t),
        distinct_keys(s),
        distinct_keys(t),
        same_entries(s, t),
    ensures
        s == t,
    decreases s.len(),
{
    if s.len() == 0 {
        if t.len() > 0 {
            assert(holds_entry(t, t[0]));
            assert(holds_entry(s, t[0]));
        }
        assert(s =~= t);
    } else {
        let x = s.last();
        assert(s[s.len() - 1] == x);
        assert(holds_entry(s, x));
        assert(holds_entry(t, x));
        let j = choose|j: int| 0 <= j < t.len() && #[trigger] t[j] == x;
        let y = t.last();
        assert(t[t.len() - 1] == y);
        assert(holds_entry(t, y));
        assert(holds_entry(s, y));
        let i = choose|i: int| 0 <= i < s.len() && #[trigger] s[i] == y;
        lemma_key_order(x.0, y.0, x.0);
        if j < t.len() - 1 {
            assert(key_le(t[j].0, t[t.len() - 1].0));
        }
        if i < s.len() - 1 {
            assert(key_le(s[i].0, s[s.len() - 1].0));
        }
        assert(x.0 == y.0);
        if j < t.len() - 1 {
            assert(t[j].0 != t[t.len() - 1].0);
        }
        assert(x == y);
        let sf = s.drop_last();
        let tf = t.drop_last();
        assert forall|a: int, b: int| 0 <= a < b < sf.len() implies key_le(
            (#[trigger] sf[a]).0,
            (#[trigger] sf[b]).0,
        ) && sf[a].0 != sf[b].0 by {
            assert(sf[a] == s[a] && sf[b] == s[b]);
        }
        assert forall|a: int, b: int| 0 <= a < b < tf.len() implies key_le(
            (#[trigger] tf[a]).0,
            (#[trigger] tf[b]).0,
        ) && tf[a].0 != tf[b].0 by {
            assert(tf[a] == t[a] && tf[b] == t[b]);
        }
        assert forall|z: (Seq<char>, JsonModel)| holds_entry(sf, z) <==> holds_entry(tf, z) by {
            if holds_entry(sf, z) {
                let p = choose|p: int| 0 <= p < sf.len() && #[trigger] sf[p] == z;
                assert(s[p] == z);
                assert(s[p].0 != s[s.len() - 1].0);
                assert(holds_entry(s, z));
                assert(holds_entry(t, z));
                let q = choose|q: int| 0 <= q < t.len() && #[trigger] t[q] == z;
                assert(q < t.len() - 1);
                assert(tf[q] == z);
            }
            if holds_entry(tf, z) {
                let q = choose|q: int| 0 <= q < tf.len() && #[trigger] tf[q] == z;
                assert(t[q] == z);
                assert(t[q].0 != t[t.len() - 1].0);
                assert(holds_entry(t, z));
                assert(holds_entry(s, z));
                let p = choose|p: int| 0 <= p < s.len() && #[trigger] s[p] == z;
                assert(p < s.len() - 1);
                assert(sf[p] == z);
            }
        }
        lemma_ordered_unique(sf, tf);
        assert(s =~= sf.push(x));
        assert(t =~= tf.push(y));
    }
}

/// Two objects that hold the same entries, no key twice, have the same
/// canonical form, and so the same canonical text, in whatever order
/// their entries are given.
pub proof fn lemma_key_order_invariance(
    a: Seq<(Seq<char>, JsonModel)>,
    b: Seq<(Seq<char>, JsonModel)>,
)
    requires
        distinct_keys(a),
        distinct_keys(b),
        same_entries(a, b),
    ensures
        sort_members(a) == sort_members(b),
        canonical(JsonModel::Object(a)) == canonical(JsonModel::Object(b)),
        canonical_text(JsonModel::Object(a)) == canonical_text(JsonModel::Object(b)),
{
    lemma_sort_members(a);
    lemma_sort_members(b);
    lemma_ordered_unique(sort_members(a), sort_members(b));

    let ca = canonical_values(a);
    let cb = canonical_values(b);
    assert forall|i: int, j: int| 0 <= i < j < ca.len() implies (#[trigger] ca[i]).0 != (
    #[trigger] ca[j]).0 by {
        assert(ca[i].0 == a[i].0 && ca[j].0 == a[j].0);
    }
    assert forall|i: int, j: int| 0 <= i < j < cb.len() implies (#[trigger] cb[i]).0 != (
    #[trigger] cb[j]).0 by {
        assert(cb[i].0 == b[i].0 && cb[j].0 == b[j].0);
    }
    assert forall|x: (Seq<char>, JsonModel)| holds_entry(ca, x) <==> holds_entry(cb, x) by {
        if holds_entry(ca, x) {
            let i = choose|i: int| 0 <= i < ca.len() && #[trigger] ca[i] == x;
            assert(holds_entry(a, a[i]));
            assert(holds_entry(b, a[i]));
            let j = choose|j: int| 0 <= j < b.len() && #[trigger] b[j] == a[i];
            assert(cb[j] == x);
        }
        if holds_entry(cb, x) {
            let j = choose|j: int| 0 <= j < cb.len() && #[trigger] cb[j] == x;
            assert(holds_entry(b, b[j]));
            assert(holds_entry(a, b[j]));
            let i = choose|i: int| 0 <= i < a.len() && #[trigger] a[i] == b[j];
            assert(ca[i] == x);
        }
    }
    lemma_sort_members(ca);
    lemma_sort_members(cb);
    lemma_ordered_unique(sort_members(ca), sort_members(cb));
}

/// The canonical form of an array holds the canonical forms of its
/// items in the order in which the array holds them: arrays that differ
/// in the order of their items differ in canonical form wherever the
/// items at a position differ in theirs.
pub proof fn lemma_array_order_is_kept(a: Seq<JsonModel>, b: Seq<JsonModel>)
    ensures
        canonical(JsonModel::Array(a)) is Array,
        canonical(JsonModel::Array(a))->Array_0.len() == a.len(),
        forall|i: int|
            0 <= i < a.len() ==> #[trigger] canonical(JsonModel::Array(a))->Array_0[i]
                == canonical(a[i]),
        (a.len() != b.len() || exists|i: int|
            0 <= i < a.len() && #[trigger] canonical(a[i]) != canonical(b[i])) ==> canonical(
            JsonModel::Array(a),
        ) != canonical(JsonModel::Array(b)),
{
    let ca = canonical(JsonModel::Array(a))->Array_0;
    let cb = canonical(JsonModel::Array(b))->Array_0;
    assert(ca.len() == a.len() && cb.len() == b.len());
    if a.len() == b.len() && exists|i: int|
        0 <= i < a.len() && #[trigger] canonical(a[i]) != canonical(b[i]) {
        let i = choose|i: int| 0 <= i < a.len() && #[trigger] canonical(a[i]) != canonical(b[i]);
        assert(ca[i] == canonical(a[i]));
        assert(cb[i] == canonical(b[i]));
    }
}

/// What was read from text does not depend on the order in which the
/// text gives the entries of an object: two objects without a repeated
/// key, as every object read from text is, have the same canonical form
/// where they hold the same entries.
pub proof fn lemma_read_objects_are_order_free(
    a: Seq<(Seq<char>, JsonModel)>,
    b: Seq<(Seq<char>, JsonModel)>,
)
    requires
        crate::json::keys_distinct(JsonModel::Object(a)),
        crate::json::keys_distinct(JsonModel::Object(b)),
        same_entries(a, b),
    ensures
        canonical(JsonModel::Object(a)) == canonical(JsonModel::Object(b)),
        canonical_text(JsonModel::Object(a)) == canonical_text(JsonModel::Object(b)),
{
    lemma_key_order_invariance(a, b);
}

} // verus!
