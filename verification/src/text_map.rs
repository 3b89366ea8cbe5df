//! A map from texts to values that keeps its entries in the order of the keys.

use vstd::prelude::*;
use crate::text::{
    lemma_text_lt_asymmetric, lemma_text_lt_irreflexive, lemma_text_lt_total,
    lemma_text_lt_transitive, lt, same, text_lt,
};

verus! {

/// Entries in strictly increasing order of their keys.
pub open spec fn ordered<V>(entries: Seq<(Seq<char>, V)>) -> bool {
    forall|i: int, j: int|
        0 <= i < j < entries.len() ==> text_lt(#[trigger] entries[i].0, #[trigger] entries[j].0)
}

/// Whether an entry has the key `key`.
pub open spec fn has_key<V>(entries: Seq<(Seq<char>, V)>, key: Seq<char>) -> bool {
    exists|i: int| 0 <= i < entries.len() && (#[trigger] entries[i]).0 == key
}

/// The index of an entry with the key `key`.
pub open spec fn key_index<V>(entries: Seq<(Seq<char>, V)>, key: Seq<char>) -> int {
    choose|i: int| 0 <= i < entries.len() && (#[trigger] entries[i]).0 == key
}

/// What the entries map each key to.
pub open spec fn map_of<V>(entries: Seq<(Seq<char>, V)>) -> Map<Seq<char>, V> {
    Map::new(|k: Seq<char>| has_key(entries, k), |k: Seq<char>| entries[key_index(entries, k)].1)
}

/// The value under `key`, where there is one.
pub open spec fn lookup<V>(entries: Seq<(Seq<char>, V)>, key: Seq<char>) -> Option<V> {
    if has_key(entries, key) {
        Some(map_of(entries)[key])
    } else {
        None
    }
}

/// The keys, in order.
pub open spec fn keys_of<V>(entries: Seq<(Seq<char>, V)>) -> Seq<Seq<char>> {
    entries.map_values(|e: (Seq<char>, V)| e.0)
}

/// In ordered entries a key stands at one index only.
pub proof fn lemma_key_at<V>(entries: Seq<(Seq<char>, V)>, i: int)
    requires
        ordered(entries),
        0 <= i < entries.len(),
    ensures
        has_key(entries, entries[i].0),
        key_index(entries, entries[i].0) == i,
        lookup(entries, entries[i].0) == Some(entries[i].1),
{
    let k = key_index(entries, entries[i].0);
    assert(entries[i].0 == entries[i].0);
    assert(has_key(entries, entries[i].0));
    if k < i {
        lemma_text_lt_irreflexive(entries[i].0);
        assert(text_lt(entries[k].0, entries[i].0));
    } else if i < k {
        lemma_text_lt_irreflexive(entries[i].0);
        assert(text_lt(entries[i].0, entries[k].0));
    }
}

/// Ordered entries are determined by what they map each key to.
pub proof fn lemma_entries_from_map<V>(a: Seq<(Seq<char>, V)>, b: Seq<(Seq<char>, V)>)
    requires
        ordered(a),
        ordered(b),
        map_of(a) == map_of(b),
    ensures
        a == b,
    decreases a.len(),
{
    assert forall|k: Seq<char>| has_key(a, k) == has_key(b, k) by {
        assert(map_of(a).dom().contains(k) <==> has_key(a, k));
        assert(map_of(b).dom().contains(k) <==> has_key(b, k));
    }
    if a.len() == 0 {
        if b.len() > 0 {
            lemma_key_at(b, 0);
            assert(has_key(a, b[0].0));
        }
        assert(a =~= b);
    } else {
        let n = a.len() - 1;
        lemma_key_at(a, n);
        let kb = key_index(b, a[n].0);
        assert(has_key(b, a[n].0));
        let m = b.len() - 1;
        lemma_key_at(b, m);
        assert(has_key(a, b[m].0));
        let ka = key_index(a, b[m].0);
        if kb < m {
            assert(text_lt(b[kb].0, b[m].0));
            if ka < n {
                assert(text_lt(a[ka].0, a[n].0));
                lemma_text_lt_asymmetric(a[n].0, b[m].0);
            } else {
                lemma_text_lt_irreflexive(a[n].0);
            }
        }
        assert(kb == m);
        assert(a[n].0 == b[m].0);
        assert(map_of(a)[a[n].0] == a[n].1);
        assert(map_of(b)[b[m].0] == b[m].1);
        let a1 = a.drop_last();
        let b1 = b.drop_last();
        assert(ordered(a1)) by {
            assert forall|i: int, j: int| 0 <= i < j < a1.len() implies text_lt(
                #[trigger] a1[i].0,
                #[trigger] a1[j].0,
            ) by {
                assert(text_lt(a[i].0, a[j].0));
            }
        }
        assert(ordered(b1)) by {
            assert forall|i: int, j: int| 0 <= i < j < b1.len() implies text_lt(
                #[trigger] b1[i].0,
                #[trigger] b1[j].0,
            ) by {
                assert(text_lt(b[i].0, b[j].0));
            }
        }
        lemma_drop_last(a);
        lemma_drop_last(b);
        lemma_entries_from_map(a1, b1);
        assert(a =~= a1.push(a[n]));
        assert(b =~= b1.push(b[m]));
    }
}

/// Without its last entry, an ordered row of entries maps what it did but
/// the last key.
proof fn lemma_drop_last<V>(a: Seq<(Seq<char>, V)>)
    requires
        ordered(a),
        a.len() > 0,
    ensures
        map_of(a.drop_last()) == map_of(a).remove(a.last().0),
{
    let a1 = a.drop_last();
    assert(ordered(a1)) by {
        assert forall|i: int, j: int| 0 <= i < j < a1.len() implies text_lt(
            #[trigger] a1[i].0,
            #[trigger] a1[j].0,
        ) by {
            assert(text_lt(a[i].0, a[j].0));
        }
    }
    lemma_text_lt_irreflexive(a.last().0);
    assert forall|k: Seq<char>| has_key(a1, k) == (has_key(a, k) && k != a.last().0) by {
        if has_key(a1, k) {
            let i = key_index(a1, k);
            assert(a[i].0 == k);
            assert(text_lt(a[i].0, a[a.len() - 1].0));
        }
        if has_key(a, k) && k != a.last().0 {
            let i = key_index(a, k);
            assert(a1[i].0 == k);
        }
    }
    assert forall|k: Seq<char>| has_key(a1, k) implies map_of(a1)[k] == map_of(a)[k] by {
        let i = key_index(a1, k);
        lemma_key_at(a1, i);
        assert(a[i] == a1[i]);
        lemma_key_at(a, i);
    }
    assert(map_of(a1) =~= map_of(a).remove(a.last().0));
}

/// A map from texts to values, in the order of the keys.
pub struct TextMap<V> {
    entries: Vec<(String, V)>,
}

impl<V> View for TextMap<V> {
    type V = Seq<(Seq<char>, V)>;

    closed spec fn view(&self) -> Seq<(Seq<char>, V)> {
        self.entries@.map_values(|e: (String, V)| (e.0@, e.1))
    }
}

impl<V> TextMap<V> {
    #[verifier::type_invariant]
    spec fn in_order(self) -> bool {
        ordered(self@)
    }

    /// The map without entries.
    pub fn new() -> (r: Self)
        ensures
            r@ == Seq::<(Seq<char>, V)>::empty(),
    {
        let entries: Vec<(String, V)> = Vec::new();
        assert(entries@.map_values(|e: (String, V)| (e.0@, e.1)) =~= Seq::empty());
        TextMap { entries }
    }

    /// The number of entries.
    pub fn len(&self) -> (n: usize)
        ensures
            n == self@.len(),
            ordered(self@),
    {
        proof {
            use_type_invariant(self);
        }
        self.entries.len()
    }

    /// The key of entry `i`.
    pub fn key(&self, i: usize) -> (k: &String)
        requires
            i < self@.len(),
        ensures
            k@ == self@[i as int].0,
    {
        &self.entries[i].0
    }

    /// The value of entry `i`.
    pub fn value(&self, i: usize) -> (v: &V)
        requires
            i < self@.len(),
        ensures
            *v == self@[i as int].1,
    {
        &self.entries[i].1
    }

    /// The index of the first entry whose key is not before `key`.
    fn position(&self, key: &str) -> (p: usize)
        ensures
            p <= self@.len(),
            forall|i: int| 0 <= i < p ==> text_lt(#[trigger] self@[i].0, key@),
            p < self@.len() ==> !text_lt(self@[p as int].0, key@),
    {
        let mut p: usize = 0;
        while p < self.entries.len() && lt(self.entries[p].0.as_str(), key)
            invariant
                p <= self@.len(),
                self@.len() == self.entries@.len(),
                forall|i: int| 0 <= i < p ==> text_lt(#[trigger] self@[i].0, key@),
            decreases self.entries.len() - p,
        {
            p = p + 1;
        }
        p
    }

    /// The value under `key`, where there is one.
    pub fn get(&self, key: &str) -> (r: Option<&V>)
        ensures
            r is Some <==> lookup(self@, key@) is Some,
            r matches Some(v) ==> lookup(self@, key@) == Some(*v),
    {
        proof {
            use_type_invariant(self);
        }
        let p: usize = self.position(key);
        if p < self.entries.len() && same(self.entries[p].0.as_str(), key) {
            proof {
                lemma_key_at(self@, p as int);
            }
            Some(&self.entries[p].1)
        } else {
            proof {
                self.lemma_absent(key@, p as int);
            }
            None
        }
    }

    proof fn lemma_absent(&self, key: Seq<char>, p: int)
        requires
            ordered(self@),
            0 <= p <= self@.len(),
            forall|i: int| 0 <= i < p ==> text_lt(#[trigger] self@[i].0, key),
            p < self@.len() ==> !text_lt(self@[p].0, key),
            p < self@.len() ==> self@[p].0 != key,
        ensures
            !has_key(self@, key),
            forall|i: int| p <= i < self@.len() ==> text_lt(key, #[trigger] self@[i].0),
    {
        lemma_text_lt_irreflexive(key);
        if p < self@.len() {
            lemma_text_lt_total(self@[p].0, key);
        }
        assert forall|i: int| p <= i < self@.len() implies text_lt(key, #[trigger] self@[i].0) by {
            if p < i {
                assert(text_lt(self@[p].0, self@[i].0));
                lemma_text_lt_transitive(key, self@[p].0, self@[i].0);
            }
        }
        if has_key(self@, key) {
            let i = key_index(self@, key);
            assert(self@[i].0 == key);
        }
    }

    /// Puts `value` under `key`, in the place of what was there.
    pub fn insert(&mut self, key: String, value: V)
        ensures
            map_of(final(self)@) == map_of(old(self)@).insert(key@, value),
            ordered(final(self)@),
    {
        proof {
            use_type_invariant(&*self);
        }
        let ghost was = self@;
        let p: usize = self.position(key.as_str());
        let replace = p < self.entries.len() && same(self.entries[p].0.as_str(), key.as_str());
        proof {
            if !replace {
                self.lemma_absent(key@, p as int);
            }
        }
        let mut entries: Vec<(String, V)> = Vec::new();
        std::mem::swap(&mut entries, &mut self.entries);
        let ghost pair = |e: (String, V)| (e.0@, e.1);
        assert(entries@.map_values(pair) =~= was);
        if replace {
            entries.remove(p);
        }
        let ghost rest = entries@.map_values(pair);
        entries.insert(p, (key, value));
        let ghost now = entries@.map_values(pair);
        proof {
            assert(now =~= rest.insert(p as int, (key@, value)));
            if replace {
                assert(rest =~= was.remove(p as int));
                assert(now =~= was.update(p as int, (key@, value)));
            }
            assert(ordered(now)) by {
                assert forall|i: int, j: int| 0 <= i < j < now.len() implies text_lt(
                    #[trigger] now[i].0,
                    #[trigger] now[j].0,
                ) by {
                    if replace {
                        assert(text_lt(was[i].0, was[j].0));
                    } else {
                        if i < p && j < p {
                            assert(text_lt(was[i].0, was[j].0));
                        } else if i < p && j > p {
                            assert(text_lt(was[i].0, was[j - 1].0));
                        } else if i > p {
                            assert(text_lt(was[i - 1].0, was[j - 1].0));
                        }
                    }
                }
            }
            assert forall|k: Seq<char>| has_key(now, k) == (k == key@ || has_key(was, k)) by {
                assert(now[p as int].0 == key@);
                if has_key(was, k) {
                    let i = key_index(was, k);
                    if replace || i < p {
                        assert(now[i].0 == k);
                    } else {
                        assert(now[i + 1].0 == k);
                    }
                }
                if has_key(now, k) && k != key@ {
                    let i = key_index(now, k);
                    if replace || i < p {
                        assert(was[i].0 == k);
                    } else {
                        assert(was[i - 1].0 == k);
                    }
                }
            }
            assert forall|k: Seq<char>| has_key(now, k) implies map_of(now)[k] == map_of(
                was,
            ).insert(key@, value)[k] by {
                let i = key_index(now, k);
                lemma_key_at(now, i);
                lemma_key_at(now, p as int);
                if k != key@ {
                    if replace || i < p {
                        assert(was[i] == now[i]);
                        lemma_key_at(was, i);
                    } else {
                        assert(was[i - 1] == now[i]);
                        lemma_key_at(was, i - 1);
                    }
                }
            }
            assert(map_of(now) =~= map_of(was).insert(key@, value));
        }
        self.entries = entries;
    }

    /// Takes the entry under `key` out, and returns its value.
    pub fn remove(&mut self, key: &str) -> (r: Option<V>)
        ensures
            r == lookup(old(self)@, key@),
            map_of(final(self)@) == map_of(old(self)@).remove(key@),
            ordered(final(self)@),
    {
        proof {
            use_type_invariant(&*self);
        }
        let ghost was = self@;
        let p: usize = self.position(key);
        if !(p < self.entries.len() && same(self.entries[p].0.as_str(), key)) {
            proof {
                self.lemma_absent(key@, p as int);
                assert(map_of(was).remove(key@) =~= map_of(was));
            }
            return None;
        }
        let mut entries: Vec<(String, V)> = Vec::new();
        std::mem::swap(&mut entries, &mut self.entries);
        let ghost pair = |e: (String, V)| (e.0@, e.1);
        assert(entries@.map_values(pair) =~= was);
        let (_, value) = entries.remove(p);
        let ghost now = entries@.map_values(pair);
        proof {
            assert(now =~= was.remove(p as int));
            lemma_key_at(was, p as int);
            assert(ordered(now)) by {
                assert forall|i: int, j: int| 0 <= i < j < now.len() implies text_lt(
                    #[trigger] now[i].0,
                    #[trigger] now[j].0,
                ) by {
                    let a = if i < p { i } else { i + 1 };
                    let b = if j < p { j } else { j + 1 };
                    assert(text_lt(was[a].0, was[b].0));
                }
            }
            assert forall|k: Seq<char>| has_key(now, k) == (k != key@ && has_key(was, k)) by {
                if has_key(now, k) {
                    let i = key_index(now, k);
                    let a = if i < p { i } else { i + 1 };
                    assert(was[a].0 == k);
                    lemma_key_at(was, a);
                }
                if has_key(was, k) && k != key@ {
                    let i = key_index(was, k);
                    if i < p {
                        assert(now[i].0 == k);
                    } else {
                        assert(now[i - 1].0 == k);
                    }
                }
            }
            assert forall|k: Seq<char>| has_key(now, k) implies map_of(now)[k] == map_of(was)[k] by {
                let i = key_index(now, k);
                lemma_key_at(now, i);
                let a = if i < p { i } else { i + 1 };
                assert(was[a] == now[i]);
                lemma_key_at(was, a);
            }
            assert(map_of(now) =~= map_of(was).remove(key@));
        }
        self.entries = entries;
        Some(value)
    }
}

} // verus!
