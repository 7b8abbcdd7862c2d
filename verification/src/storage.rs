//! A key-value store held in memory.

use crate::domain::PantherError;
use vstd::prelude::*;

verus! {

/// A store of text values under text keys. Implementations decide where
/// the values live; the library claims nothing of them.
pub trait KeyValueStore {
    fn get(&self, key: &str) -> Result<Option<String>, PantherError>;

    fn set(&mut self, key: &str, value: String) -> Result<(), PantherError>;

    fn delete(&mut self, key: &str) -> Result<(), PantherError>;
}

/// No key occurs twice among the entries.
pub open spec fn unique_keys(s: Seq<(String, String)>) -> bool {
    forall|i: int, j: int| 0 <= i < j < s.len() ==> (#[trigger] s[i]).0@ != (#[trigger] s[j]).0@
}

/// Whether an entry stands under `key`.
pub open spec fn has_key(s: Seq<(String, String)>, key: Seq<char>) -> bool {
    exists|i: int| 0 <= i < s.len() && (#[trigger] s[i]).0@ == key
}

/// The value of an entry under `key`.
pub open spec fn value_under(s: Seq<(String, String)>, key: Seq<char>) -> Seq<char> {
    let i = choose|i: int| 0 <= i < s.len() && (#[trigger] s[i]).0@ == key;
    s[i].1@
}

/// The entries as a map from keys to values.
pub open spec fn as_map(s: Seq<(String, String)>) -> Map<Seq<char>, Seq<char>> {
    Map::new(|k: Seq<char>| has_key(s, k), |k: Seq<char>| value_under(s, k))
}

proof fn lemma_entry(s: Seq<(String, String)>, i: int)
    requires
        unique_keys(s),
        0 <= i < s.len(),
    ensures
        has_key(s, s[i].0@),
        value_under(s, s[i].0@) == s[i].1@,
{
    let k = s[i].0@;
    let j = choose|j: int| 0 <= j < s.len() && (#[trigger] s[j]).0@ == k;
    assert(j == i);
}

fn position(entries: &Vec<(String, String)>, key: &str) -> (p: Option<usize>)
    ensures
        match p {
            Some(i) => i < entries@.len() && entries@[i as int].0@ == key@,
            None => !has_key(entries@, key@),
        },
{
    let wanted = key.to_owned();
    let mut i: usize = 0;
    while i < entries.len()
        invariant
            i <= entries.len(),
            wanted@ == key@,
            forall|k: int| 0 <= k < i ==> (#[trigger] entries@[k]).0@ != key@,
        decreases entries.len() - i,
    {
        if entries[i].0 == wanted {
            return Some(i);
        }
        i += 1;
    }
    None
}

proof fn lemma_remove(s: Seq<(String, String)>, i: int)
    requires
        unique_keys(s),
        0 <= i < s.len(),
    ensures
        unique_keys(s.remove(i)),
        !has_key(s.remove(i), s[i].0@),
        as_map(s.remove(i)) == as_map(s).remove(s[i].0@),
{
    let after = s.remove(i);
    let key = s[i].0@;
    assert forall|k: Seq<char>| has_key(after, k) == (k != key && has_key(s, k)) by {
        if has_key(after, k) {
            let b = choose|b: int| 0 <= b < after.len() && (#[trigger] after[b]).0@ == k;
            if b < i {
                assert(s[b].0@ == k);
            } else {
                assert(s[b + 1].0@ == k);
            }
        }
        if has_key(s, k) && k != key {
            let a = choose|a: int| 0 <= a < s.len() && (#[trigger] s[a]).0@ == k;
            if a < i {
                assert(after[a].0@ == k);
            } else {
                assert(after[a - 1].0@ == k);
            }
        }
    }
    assert forall|k: Seq<char>| has_key(after, k) implies value_under(after, k) == value_under(
        s,
        k,
    ) by {
        let b = choose|b: int| 0 <= b < after.len() && (#[trigger] after[b]).0@ == k;
        lemma_entry(after, b);
        if b < i {
            lemma_entry(s, b);
        } else {
            lemma_entry(s, b + 1);
        }
    }
    assert(as_map(after) =~= as_map(s).remove(key));
}

proof fn lemma_push(s: Seq<(String, String)>, e: (String, String))
    requires
        unique_keys(s),
        !has_key(s, e.0@),
    ensures
        unique_keys(s.push(e)),
        as_map(s.push(e)) == as_map(s).insert(e.0@, e.1@),
{
    let after = s.push(e);
    assert forall|i: int, j: int| 0 <= i < j < after.len() implies (#[trigger] after[i]).0@ != (
    #[trigger] after[j]).0@ by {
        if j == s.len() {
            assert(s[i].0@ != e.0@);
        }
    }
    assert forall|k: Seq<char>| has_key(after, k) == (k == e.0@ || has_key(s, k)) by {
        if has_key(after, k) && k != e.0@ {
            let b = choose|b: int| 0 <= b < after.len() && (#[trigger] after[b]).0@ == k;
            assert(s[b].0@ == k);
        }
        if has_key(s, k) {
            let a = choose|a: int| 0 <= a < s.len() && (#[trigger] s[a]).0@ == k;
            assert(after[a].0@ == k);
        }
        if k == e.0@ {
            assert(after[s.len() as int].0@ == k);
        }
    }
    assert forall|k: Seq<char>| has_key(after, k) implies value_under(after, k) == (if k == e.0@ {
        e.1@
    } else {
        value_under(s, k)
    }) by {
        let b = choose|b: int| 0 <= b < after.len() && (#[trigger] after[b]).0@ == k;
        lemma_entry(after, b);
        if k != e.0@ {
            lemma_entry(s, b);
        }
    }
    assert(as_map(after) =~= as_map(s).insert(e.0@, e.1@));
}

/// A copy of the entries, without the one at `skip` where that is a position.
fn copy_without(entries: &Vec<(String, String)>, skip: Option<usize>) -> (out: Vec<(String, String)>)
    ensures
        out@ == match skip {
            Some(i) => if i < entries@.len() {
                entries@.remove(i as int)
            } else {
                entries@
            },
            None => entries@,
        },
{
    let mut out: Vec<(String, String)> = Vec::new();
    let mut k: usize = 0;
    let drop: usize = match skip {
        Some(i) => i,
        None => entries.len(),
    };
    while k < entries.len()
        invariant
            k <= entries.len(),
            out@.len() == if k <= drop {
                k as int
            } else {
                k - 1
            },
            forall|j: int| 0 <= j < out@.len() && j < drop ==> out@[j] == entries@[j],
            forall|j: int| 0 <= j < out@.len() && j >= drop ==> out@[j] == entries@[j + 1],
        decreases entries.len() - k,
    {
        if k != drop {
            out.push((entries[k].0.clone(), entries[k].1.clone()));
        }
        k += 1;
    }
    proof {
        if drop < entries@.len() {
            assert(out@ =~= entries@.remove(drop as int));
        } else {
            assert(out@ =~= entries@);
        }
    }
    out
}

fn with_entry(entries: &Vec<(String, String)>, key: &str, value: String) -> (out: Vec<
    (String, String),
>)
    requires
        unique_keys(entries@),
    ensures
        unique_keys(out@),
        as_map(out@) == as_map(entries@).insert(key@, value@),
{
    let found = position(entries, key);
    let mut out = copy_without(entries, found);
    let e = (key.to_owned(), value);
    proof {
        match found {
            Some(i) => {
                lemma_remove(entries@, i as int);
            },
            None => {},
        }
        lemma_push(out@, e);
        assert(as_map(out@.push(e)) =~= as_map(entries@).insert(key@, value@));
    }
    out.push(e);
    out
}

fn without_key(entries: &Vec<(String, String)>, key: &str) -> (out: Vec<(String, String)>)
    requires
        unique_keys(entries@),
    ensures
        unique_keys(out@),
        as_map(out@) == as_map(entries@).remove(key@),
{
    let found = position(entries, key);
    let out = copy_without(entries, found);
    proof {
        match found {
            Some(i) => {
                lemma_remove(entries@, i as int);
            },
            None => {
                assert(as_map(entries@) =~= as_map(entries@).remove(key@));
            },
        }
    }
    out
}

/// A store that keeps its entries in memory.
pub struct InMemoryStore {
    entries: Vec<(String, String)>,
}

impl InMemoryStore {
    #[verifier::type_invariant]
    spec fn no_key_twice(self) -> bool {
        unique_keys(self.entries@)
    }

    /// What the store holds, as a map from keys to values.
    pub closed spec fn contents(self) -> Map<Seq<char>, Seq<char>> {
        as_map(self.entries@)
    }

    /// An empty store.
    pub fn new() -> (s: InMemoryStore)
        ensures
            s.contents() == Map::<Seq<char>, Seq<char>>::empty(),
    {
        let s = InMemoryStore { entries: Vec::new() };
        assert(s.contents() =~= Map::<Seq<char>, Seq<char>>::empty());
        s
    }
}

impl Default for InMemoryStore {
    fn default() -> (s: InMemoryStore)
        ensures
            s.contents() == Map::<Seq<char>, Seq<char>>::empty(),
    {
        InMemoryStore::new()
    }
}

impl KeyValueStore for InMemoryStore {
    /// The value under `key`, or `None` where there is none. Never fails.
    fn get(&self, key: &str) -> (r: Result<Option<String>, PantherError>)
        ensures
            r is Ok,
            r->Ok_0.is_some() == self.contents().contains_key(key@),
            r->Ok_0.is_some() ==> r->Ok_0->Some_0@ == self.contents()[key@],
    {
        proof {
            use_type_invariant(self);
        }
        match position(&self.entries, key) {
            Some(i) => {
                proof {
                    lemma_entry(self.entries@, i as int);
                }
                Ok(Some(self.entries[i].1.clone()))
            },
            None => Ok(None),
        }
    }

    /// Puts `value` under `key`, in place of what was there. Never fails.
    fn set(&mut self, key: &str, value: String) -> (r: Result<(), PantherError>)
        ensures
            r is Ok,
            final(self).contents() == old(self).contents().insert(key@, value@),
    {
        proof {
            use_type_invariant(&*self);
        }
        self.entries = with_entry(&self.entries, key, value);
        Ok(())
    }

    /// Removes what is under `key`, if anything. Never fails.
    fn delete(&mut self, key: &str) -> (r: Result<(), PantherError>)
        ensures
            r is Ok,
            final(self).contents() == old(self).contents().remove(key@),
    {
        proof {
            use_type_invariant(&*self);
        }
        self.entries = without_key(&self.entries, key);
        Ok(())
    }
}

} // verus!
