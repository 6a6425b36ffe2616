//! An insertion-ordered map from text keys to values.
//!
//! The map is a vector of entries in which no key occurs twice. Its abstract
//! value is the sequence of `(key, value)` pairs in insertion order
//! ([`StrMap::pairs`]); the finite map that the pairs denote is its view.

use vstd::prelude::*;
use vstd::string::*;

verus! {

/// The text of a key, as contracts see it.
pub type Key = Seq<char>;

/// No key occurs twice in `s`.
pub open spec fn distinct_keys<V>(s: Seq<(Key, V)>) -> bool {
    forall|i: int, j: int| 0 <= i < j < s.len() ==> (#[trigger] s[i]).0 != (#[trigger] s[j]).0
}

/// Some pair of `s` has the key `k`.
pub open spec fn has_key<V>(s: Seq<(Key, V)>, k: Key) -> bool {
    exists|i: int| 0 <= i < s.len() && (#[trigger] s[i]).0 == k
}

/// An index at which `k` stands in `s`; the only one when the keys are distinct.
pub open spec fn index_of<V>(s: Seq<(Key, V)>, k: Key) -> int {
    choose|i: int| 0 <= i < s.len() && (#[trigger] s[i]).0 == k
}

/// The finite map that a sequence of pairs with distinct keys denotes.
pub open spec fn as_map<V>(s: Seq<(Key, V)>) -> Map<Key, V> {
    Map::new(|k: Key| has_key(s, k), |k: Key| s[index_of(s, k)].1)
}

/// The pairs of `s` with the value under `k` replaced, or with `(k, v)` appended
/// where `k` is new.
pub open spec fn put<V>(s: Seq<(Key, V)>, k: Key, v: V) -> Seq<(Key, V)> {
    if has_key(s, k) {
        s.update(index_of(s, k), (k, v))
    } else {
        s.push((k, v))
    }
}

/// The pairs of `s` without the one under `k`.
pub open spec fn without<V>(s: Seq<(Key, V)>, k: Key) -> Seq<(Key, V)> {
    if has_key(s, k) {
        s.remove(index_of(s, k))
    } else {
        s
    }
}

/// Where the keys are distinct, a key stands at exactly one index.
pub proof fn lemma_index_of<V>(s: Seq<(Key, V)>, i: int)
    requires
        distinct_keys(s),
        0 <= i < s.len(),
    ensures
        has_key(s, s[i].0),
        index_of(s, s[i].0) == i,
{
    let k = s[i].0;
    let j = index_of(s, k);
    assert(0 <= j < s.len() && s[j].0 == k);
    if j < i {
        assert(s[j].0 != s[i].0);
    } else if i < j {
        assert(s[i].0 != s[j].0);
    }
}

/// `put` keeps the keys distinct and denotes `Map::insert`.
pub proof fn lemma_put<V>(s: Seq<(Key, V)>, k: Key, v: V)
    requires
        distinct_keys(s),
    ensures
        distinct_keys(put(s, k, v)),
        as_map(put(s, k, v)) == as_map(s).insert(k, v),
        put(s, k, v).len() == if has_key(s, k) { s.len() } else { s.len() + 1 },
{
    let t = put(s, k, v);
    if has_key(s, k) {
        let p = index_of(s, k);
        assert(0 <= p < s.len() && s[p].0 == k);
        assert forall|i: int, j: int| 0 <= i < j < t.len() implies (#[trigger] t[i]).0 != (
        #[trigger] t[j]).0 by {
            assert(t[i].0 == s[i].0 && t[j].0 == s[j].0);
        }
        assert forall|q: Key| has_key(t, q) == (q == k || has_key(s, q)) by {
            if has_key(t, q) {
                let i = index_of(t, q);
                assert(t[i].0 == s[i].0);
            }
            if has_key(s, q) {
                let i = index_of(s, q);
                assert(t[i].0 == q);
            }
            if q == k {
                assert(t[p].0 == k);
            }
        }
        assert forall|q: Key| has_key(t, q) implies #[trigger] as_map(t)[q] == as_map(s).insert(
            k,
            v,
        )[q] by {
            let i = index_of(t, q);
            assert(0 <= i < t.len() && t[i].0 == q);
            assert(s[i].0 == q);
            lemma_index_of(s, i);
        }
    } else {
        assert forall|i: int, j: int| 0 <= i < j < t.len() implies (#[trigger] t[i]).0 != (
        #[trigger] t[j]).0 by {
            if j < s.len() {
                assert(t[i] == s[i] && t[j] == s[j]);
            } else {
                assert(t[i] == s[i]);
                assert(t[j].0 == k);
            }
        }
        assert forall|q: Key| has_key(t, q) == (q == k || has_key(s, q)) by {
            if has_key(t, q) {
                let i = index_of(t, q);
                if i < s.len() {
                    assert(s[i].0 == q);
                }
            }
            if has_key(s, q) {
                let i = index_of(s, q);
                assert(t[i].0 == q);
            }
            if q == k {
                assert(t[s.len() as int].0 == k);
            }
        }
        assert forall|q: Key| has_key(t, q) implies #[trigger] as_map(t)[q] == as_map(s).insert(
            k,
            v,
        )[q] by {
            let i = index_of(t, q);
            assert(0 <= i < t.len() && t[i].0 == q);
            if i < s.len() {
                assert(s[i] == t[i]);
                lemma_index_of(s, i);
            }
        }
    }
    assert(as_map(t).dom() =~= as_map(s).insert(k, v).dom());
    assert(as_map(t) =~= as_map(s).insert(k, v));
}

/// `without` keeps the keys distinct and denotes `Map::remove`.
pub proof fn lemma_without<V>(s: Seq<(Key, V)>, k: Key)
    requires
        distinct_keys(s),
    ensures
        distinct_keys(without(s, k)),
        as_map(without(s, k)) == as_map(s).remove(k),
        !has_key(without(s, k), k),
{
    let t = without(s, k);
    if has_key(s, k) {
        let p = index_of(s, k);
        assert(0 <= p < s.len() && s[p].0 == k);
        assert forall|i: int| 0 <= i < t.len() implies #[trigger] t[i] == s[if i < p {
            i
        } else {
            i + 1
        }] by {}
        assert forall|i: int, j: int| 0 <= i < j < t.len() implies (#[trigger] t[i]).0 != (
        #[trigger] t[j]).0 by {
            let a = if i < p { i } else { i + 1 };
            let b = if j < p { j } else { j + 1 };
            assert(t[i] == s[a] && t[j] == s[b]);
        }
        assert forall|q: Key| has_key(t, q) == (q != k && has_key(s, q)) by {
            if has_key(t, q) {
                let i = index_of(t, q);
                let a = if i < p { i } else { i + 1 };
                assert(t[i] == s[a]);
                if a < p {
                    assert(s[a].0 != s[p].0);
                } else {
                    assert(s[p].0 != s[a].0);
                }
            }
            if q != k && has_key(s, q) {
                let a = index_of(s, q);
                let i = if a < p { a } else { a - 1 };
                assert(t[i] == s[a]);
            }
        }
        assert forall|q: Key| has_key(t, q) implies #[trigger] as_map(t)[q] == as_map(s).remove(
            k,
        )[q] by {
            let i = index_of(t, q);
            let a = if i < p { i } else { i + 1 };
            assert(t[i] == s[a]);
            lemma_index_of(s, a);
        }
        assert(as_map(t).dom() =~= as_map(s).remove(k).dom());
        assert(as_map(t) =~= as_map(s).remove(k));
    } else {
        assert(as_map(t) =~= as_map(s).remove(k));
    }
}

/// Whether two texts are the same.
pub fn same_text(a: &str, b: &str) -> (r: bool)
    ensures
        r == (a@ == b@),
{
    a.to_owned() == b.to_owned()
}

struct Entry<V> {
    key: String,
    value: V,
}

/// A map from text keys to values that remembers the order of insertion.
pub struct StrMap<V> {
    entries: Vec<Entry<V>>,
}

impl<V> View for StrMap<V> {
    type V = Map<Key, V>;

    closed spec fn view(&self) -> Map<Key, V> {
        as_map(self.pairs())
    }
}

impl<V> StrMap<V> {
    /// The `(key, value)` pairs in insertion order.
    pub closed spec fn pairs(&self) -> Seq<(Key, V)> {
        self.entries@.map_values(|e: Entry<V>| (e.key@, e.value))
    }

    /// No key occurs twice.
    pub open spec fn wf(&self) -> bool {
        distinct_keys(self.pairs())
    }

    /// The view is the map that the pairs denote.
    pub proof fn lemma_view(&self)
        ensures
            self@ == as_map(self.pairs()),
    {
    }

    pub fn new() -> (m: Self)
        ensures
            m.wf(),
            m.pairs() == Seq::<(Key, V)>::empty(),
            m@ == Map::<Key, V>::empty(),
    {
        let m = StrMap { entries: Vec::new() };
        assert(m.pairs() =~= Seq::<(Key, V)>::empty());
        assert(m@ =~= Map::<Key, V>::empty());
        m
    }

    pub fn len(&self) -> (n: usize)
        ensures
            n == self.pairs().len(),
    {
        self.entries.len()
    }

    /// The index under which `key` stands, if it is present.
    pub fn find(&self, key: &str) -> (r: Option<usize>)
        requires
            self.wf(),
        ensures
            match r {
                Some(i) => has_key(self.pairs(), key@) && i == index_of(self.pairs(), key@),
                None => !has_key(self.pairs(), key@),
            },
            r is Some == self@.contains_key(key@),
    {
        let mut i: usize = 0;
        while i < self.entries.len()
            invariant
                self.wf(),
                i <= self.entries.len(),
                forall|j: int| 0 <= j < i ==> (#[trigger] self.pairs()[j]).0 != key@,
            decreases self.entries.len() - i,
        {
            if same_text(self.entries[i].key.as_str(), key) {
                proof {
                    assert(self.pairs()[i as int].0 == key@);
                    lemma_index_of(self.pairs(), i as int);
                }
                return Some(i);
            }
            i += 1;
        }
        None
    }

    pub fn contains_key(&self, key: &str) -> (r: bool)
        requires
            self.wf(),
        ensures
            r == self@.contains_key(key@),
            r == has_key(self.pairs(), key@),
    {
        self.find(key).is_some()
    }

    pub fn get(&self, key: &str) -> (r: Option<&V>)
        requires
            self.wf(),
        ensures
            match r {
                Some(v) => self@.contains_key(key@) && *v == self@[key@],
                None => !self@.contains_key(key@),
            },
    {
        match self.find(key) {
            Some(i) => Some(&self.entries[i].value),
            None => None,
        }
    }

    /// The key at position `i` of the insertion order.
    pub fn key_at(&self, i: usize) -> (k: &String)
        requires
            i < self.pairs().len(),
        ensures
            k@ == self.pairs()[i as int].0,
    {
        &self.entries[i].key
    }

    /// The value at position `i` of the insertion order.
    pub fn value_at(&self, i: usize) -> (v: &V)
        requires
            i < self.pairs().len(),
        ensures
            *v == self.pairs()[i as int].1,
    {
        &self.entries[i].value
    }

    /// Replaces the value at position `i`, keeping its key and place.
    pub fn set_value_at(&mut self, i: usize, value: V)
        requires
            old(self).wf(),
            i < old(self).pairs().len(),
        ensures
            final(self).wf(),
            final(self).pairs() == old(self).pairs().update(
                i as int,
                (old(self).pairs()[i as int].0, value),
            ),
            final(self).pairs() == put(old(self).pairs(), old(self).pairs()[i as int].0, value),
            final(self)@ == old(self)@.insert(old(self).pairs()[i as int].0, value),
    {
        let ghost s = self.pairs();
        self.entries[i].value = value;
        proof {
            let k = s[i as int].0;
            lemma_index_of(s, i as int);
            assert(self.pairs() =~= s.update(i as int, (k, value)));
            lemma_put(s, k, value);
        }
    }

    /// Stores `value` under `key`: in place of the old value where the key is
    /// present, at the end of the order where it is new.
    pub fn insert(&mut self, key: String, value: V)
        requires
            old(self).wf(),
        ensures
            final(self).wf(),
            final(self).pairs() == put(old(self).pairs(), key@, value),
            final(self)@ == old(self)@.insert(key@, value),
    {
        let ghost s = self.pairs();
        proof {
            lemma_put(s, key@, value);
        }
        match self.find(key.as_str()) {
            Some(i) => {
                self.entries[i].value = value;
                assert(self.pairs() =~= s.update(i as int, (key@, value)));
            },
            None => {
                self.entries.push(Entry { key, value });
                assert(self.pairs() =~= s.push((key@, value)));
            },
        }
    }

    /// Takes the entry under `key` out, and returns its value if there was one.
    pub fn remove(&mut self, key: &str) -> (r: Option<V>)
        requires
            old(self).wf(),
        ensures
            final(self).wf(),
            final(self).pairs() == without(old(self).pairs(), key@),
            final(self)@ == old(self)@.remove(key@),
            match r {
                Some(v) => old(self)@.contains_key(key@) && v == old(self)@[key@],
                None => !old(self)@.contains_key(key@),
            },
    {
        let ghost s = self.pairs();
        proof {
            lemma_without(s, key@);
        }
        match self.find(key) {
            Some(i) => {
                let e = self.entries.remove(i);
                assert(self.pairs() =~= s.remove(i as int));
                Some(e.value)
            },
            None => None,
        }
    }
}

} // verus!
