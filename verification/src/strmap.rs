//! A small string-keyed map that remembers insertion order.
//!
//! Slurm `key=value` output and report sections are keyed by strings and are
//! shown to the user in a stable order; this map keeps the first insertion
//! position of every key, and a later insert of the same key replaces its value
//! in place.

use vstd::prelude::*;

verus! {

/// The value stored under `k` in `es`: the first entry with that key.
pub open spec fn lookup_entry<V>(es: Seq<(Seq<char>, V)>, k: Seq<char>) -> Option<V>
    decreases es.len(),
{
    if es.len() == 0 {
        None
    } else if es[0].0 == k {
        Some(es[0].1)
    } else {
        lookup_entry(es.drop_first(), k)
    }
}

/// `es` after storing `v` under `k`: the first entry with key `k` gets the new
/// value; when there is none, `(k, v)` is appended.
pub open spec fn insert_entry<V>(es: Seq<(Seq<char>, V)>, k: Seq<char>, v: V) -> Seq<(Seq<char>, V)>
    decreases es.len(),
{
    if es.len() == 0 {
        seq![(k, v)]
    } else if es[0].0 == k {
        es.update(0, (k, v))
    } else {
        seq![es[0]] + insert_entry(es.drop_first(), k, v)
    }
}

/// `es` without the first entry with key `k`.
pub open spec fn remove_entry<V>(es: Seq<(Seq<char>, V)>, k: Seq<char>) -> Seq<(Seq<char>, V)>
    decreases es.len(),
{
    if es.len() == 0 {
        es
    } else if es[0].0 == k {
        es.drop_first()
    } else {
        seq![es[0]] + remove_entry(es.drop_first(), k)
    }
}

/// Removing at the first position that holds the key.
pub proof fn lemma_remove_at<V>(es: Seq<(Seq<char>, V)>, k: Seq<char>, i: int)
    requires
        0 <= i < es.len(),
        es[i].0 == k,
        forall|j: int| 0 <= j < i ==> es[j].0 != k,
    ensures
        remove_entry(es, k) == es.remove(i),
    decreases i,
{
    if i > 0 {
        lemma_remove_at(es.drop_first(), k, i - 1);
        assert(seq![es[0]] + es.drop_first().remove(i - 1) =~= es.remove(i));
    }
}

/// Removing an absent key changes nothing.
pub proof fn lemma_remove_absent<V>(es: Seq<(Seq<char>, V)>, k: Seq<char>)
    requires
        forall|j: int| 0 <= j < es.len() ==> es[j].0 != k,
    ensures
        remove_entry(es, k) == es,
    decreases es.len(),
{
    if es.len() > 0 {
        lemma_remove_absent(es.drop_first(), k);
        assert(seq![es[0]] + es.drop_first() =~= es);
    }
}

/// Looking up the key at the first position that holds it gives that entry's value.
pub proof fn lemma_lookup_at<V>(es: Seq<(Seq<char>, V)>, k: Seq<char>, i: int)
    requires
        0 <= i < es.len(),
        es[i].0 == k,
        forall|j: int| 0 <= j < i ==> es[j].0 != k,
    ensures
        lookup_entry(es, k) == Some(es[i].1),
    decreases i,
{
    if i > 0 {
        lemma_lookup_at(es.drop_first(), k, i - 1);
    }
}

/// A key held by no entry is not found.
pub proof fn lemma_lookup_absent<V>(es: Seq<(Seq<char>, V)>, k: Seq<char>)
    requires
        forall|j: int| 0 <= j < es.len() ==> es[j].0 != k,
    ensures
        lookup_entry(es, k) is None,
    decreases es.len(),
{
    if es.len() > 0 {
        lemma_lookup_absent(es.drop_first(), k);
    }
}

/// Inserting at an existing key rewrites the first entry holding it.
pub proof fn lemma_insert_at<V>(es: Seq<(Seq<char>, V)>, k: Seq<char>, v: V, i: int)
    requires
        0 <= i < es.len(),
        es[i].0 == k,
        forall|j: int| 0 <= j < i ==> es[j].0 != k,
    ensures
        insert_entry(es, k, v) == es.update(i, (k, v)),
    decreases i,
{
    if i > 0 {
        lemma_insert_at(es.drop_first(), k, v, i - 1);
        assert(seq![es[0]] + es.drop_first().update(i - 1, (k, v)) =~= es.update(i, (k, v)));
    }
}

/// Inserting a new key appends it.
pub proof fn lemma_insert_absent<V>(es: Seq<(Seq<char>, V)>, k: Seq<char>, v: V)
    requires
        forall|j: int| 0 <= j < es.len() ==> es[j].0 != k,
    ensures
        insert_entry(es, k, v) == es.push((k, v)),
    decreases es.len(),
{
    if es.len() > 0 {
        lemma_insert_absent(es.drop_first(), k, v);
        assert(seq![es[0]] + es.drop_first().push((k, v)) =~= es.push((k, v)));
    }
}

/// After an insert, the inserted key maps to the new value and every other
/// key keeps its value.
pub proof fn lemma_insert_lookup<V>(es: Seq<(Seq<char>, V)>, k: Seq<char>, v: V, q: Seq<char>)
    ensures
        lookup_entry(insert_entry(es, k, v), q) == if q == k {
            Some(v)
        } else {
            lookup_entry(es, q)
        },
    decreases es.len(),
{
    if es.len() > 0 && es[0].0 != k {
        lemma_insert_lookup(es.drop_first(), k, v, q);
        let ins = insert_entry(es, k, v);
        assert(ins[0] == es[0]);
        assert(ins.drop_first() =~= insert_entry(es.drop_first(), k, v));
        if q != es[0].0 {
            assert(lookup_entry(ins, q) == lookup_entry(ins.drop_first(), q));
        }
    } else if es.len() > 0 {
        let ins = es.update(0, (k, v));
        assert(insert_entry(es, k, v) == ins);
        assert(ins.drop_first() =~= es.drop_first());
        if q != k {
            assert(lookup_entry(ins, q) == lookup_entry(ins.drop_first(), q));
            assert(lookup_entry(es, q) == lookup_entry(es.drop_first(), q));
        }
    } else {
        let ins = seq![(k, v)];
        assert(insert_entry(es, k, v) == ins);
        assert(ins.drop_first() =~= Seq::<(Seq<char>, V)>::empty());
        if q != k {
            assert(lookup_entry(ins, q) == lookup_entry(ins.drop_first(), q));
        }
    }
}

/// A string-keyed map that keeps its entries in first-insertion order.
#[derive(Debug)]
pub struct StrMap<V> {
    items: Vec<(String, V)>,
}

impl<V> StrMap<V> {
    /// The entries, keys as character sequences, in order.
    pub closed spec fn entries(&self) -> Seq<(Seq<char>, V)> {
        self.items@.map_values(|e: (String, V)| (e.0@, e.1))
    }

    /// The value stored under `k`.
    pub open spec fn lookup(&self, k: Seq<char>) -> Option<V> {
        lookup_entry(self.entries(), k)
    }

    /// No two entries share a key; every map keeps this.
    #[verifier::type_invariant]
    pub open spec fn wf(self) -> bool {
        keys_unique(self.entries())
    }

    /// An empty map.
    pub fn new() -> (m: Self)
        ensures
            m.entries() == Seq::<(Seq<char>, V)>::empty(),
    {
        let m = StrMap { items: Vec::new() };
        assert(m.entries() =~= Seq::<(Seq<char>, V)>::empty());
        m
    }

    /// Position of the first entry with key `k`, if any.
    fn position(&self, k: &str) -> (r: Option<usize>)
        ensures
            r matches Some(i) ==> i < self.entries().len() && self.entries()[i as int].0 == k@
                && forall|j: int| 0 <= j < i ==> self.entries()[j].0 != k@,
            r is None ==> forall|j: int| 0 <= j < self.entries().len() ==> self.entries()[j].0 != k@,
    {
        let mut i: usize = 0;
        while i < self.items.len()
            invariant
                i <= self.items@.len(),
                self.entries().len() == self.items@.len(),
                forall|j: int| 0 <= j < i ==> self.entries()[j].0 != k@,
            decreases self.items@.len() - i,
        {
            if crate::text::str_eq(self.items[i].0.as_str(), k) {
                return Some(i);
            }
            i = i + 1;
        }
        None
    }

    /// The value stored under `k`.
    pub fn get(&self, k: &str) -> (r: Option<&V>)
        ensures
            r matches Some(v) ==> self.lookup(k@) == Some(*v),
            r is None ==> self.lookup(k@) is None,
    {
        match self.position(k) {
            Some(i) => {
                proof {
                    lemma_lookup_at(self.entries(), k@, i as int);
                }
                Some(&self.items[i].1)
            },
            None => {
                proof {
                    lemma_lookup_absent(self.entries(), k@);
                }
                None
            },
        }
    }

    /// Whether some entry has key `k`.
    pub fn contains_key(&self, k: &str) -> (r: bool)
        ensures
            r == self.lookup(k@) is Some,
    {
        self.get(k).is_some()
    }

    /// Stores `v` under `k`, replacing the value of an existing entry in place.
    pub fn insert(&mut self, k: String, v: V)
        ensures
            final(self).entries() == insert_entry(old(self).entries(), k@, v),
    {
        proof {
            use_type_invariant(&*self);
        }
        let ghost old_entries = self.entries();
        let ghost kv = k@;
        proof {
            lemma_insert_facts(old_entries, kv, v);
        }
        match self.position(k.as_str()) {
            Some(i) => {
                proof {
                    lemma_insert_at(old_entries, kv, v, i as int);
                }
                let mut items: Vec<(String, V)> = Vec::new();
                std::mem::swap(&mut items, &mut self.items);
                items.set(i, (k, v));
                assert(items@.map_values(|e: (String, V)| (e.0@, e.1)) =~= old_entries.update(
                    i as int,
                    (kv, v),
                ));
                self.items = items;
            },
            None => {
                proof {
                    lemma_insert_absent(old_entries, kv, v);
                }
                let mut items: Vec<(String, V)> = Vec::new();
                std::mem::swap(&mut items, &mut self.items);
                items.push((k, v));
                assert(items@.map_values(|e: (String, V)| (e.0@, e.1)) =~= old_entries.push(
                    (kv, v),
                ));
                self.items = items;
            },
        }
    }

    /// Removes the first entry with key `k`; returns whether there was one.
    pub fn remove(&mut self, k: &str) -> (r: bool)
        ensures
            final(self).entries() == remove_entry(old(self).entries(), k@),
            r == old(self).lookup(k@) is Some,
    {
        proof {
            use_type_invariant(&*self);
        }
        let ghost old_entries = self.entries();
        proof {
            lemma_remove_facts(old_entries, k@);
        }
        match self.position(k) {
            Some(i) => {
                proof {
                    lemma_remove_at(old_entries, k@, i as int);
                    lemma_lookup_at(old_entries, k@, i as int);
                }
                let mut items: Vec<(String, V)> = Vec::new();
                std::mem::swap(&mut items, &mut self.items);
                items.remove(i);
                assert(items@.map_values(|e: (String, V)| (e.0@, e.1)) =~= old_entries.remove(i as int));
                self.items = items;
                true
            },
            None => {
                proof {
                    lemma_remove_absent(old_entries, k@);
                    lemma_lookup_absent(old_entries, k@);
                }
                false
            },
        }
    }

    /// The number of entries.
    pub fn len(&self) -> (n: usize)
        ensures
            n == self.entries().len(),
    {
        self.items.len()
    }

    /// Whether the map has no entries.
    pub fn is_empty(&self) -> (r: bool)
        ensures
            r == (self.entries().len() == 0),
    {
        self.items.len() == 0
    }

    /// The key of entry `i`.
    pub fn key_at(&self, i: usize) -> (k: &String)
        requires
            i < self.entries().len(),
        ensures
            k@ == self.entries()[i as int].0,
    {
        &self.items[i].0
    }

    /// The value of entry `i`.
    pub fn value_at(&self, i: usize) -> (v: &V)
        requires
            i < self.entries().len(),
        ensures
            *v == self.entries()[i as int].1,
    {
        &self.items[i].1
    }
}

impl<V: Clone> Clone for StrMap<V> {
    /// A copy with the same keys in the same order, each value cloned.
    fn clone(&self) -> (r: Self)
        ensures
            r.entries().len() == self.entries().len(),
            forall|i: int|
                0 <= i < self.entries().len() ==> #[trigger] r.entries()[i].0 == self.entries()[i].0
                    && cloned::<V>(self.entries()[i].1, r.entries()[i].1),
    {
        proof {
            use_type_invariant(self);
        }
        let mut items: Vec<(String, V)> = Vec::new();
        let mut i: usize = 0;
        while i < self.items.len()
            invariant
                i <= self.items@.len(),
                items@.len() == i,
                forall|j: int|
                    0 <= j < i ==> (#[trigger] items@[j]).0@ == self.items@[j].0@ && cloned::<V>(
                        self.items@[j].1,
                        items@[j].1,
                    ),
            decreases self.items@.len() - i,
        {
            let k = self.items[i].0.clone();
            let v = self.items[i].1.clone();
            items.push((k, v));
            i = i + 1;
        }
        let ghost es = items@.map_values(|e: (String, V)| (e.0@, e.1));
        assert(keys_unique(self.entries()));
        assert forall|a: int, b: int| 0 <= a < b < es.len() implies es[a].0 != es[b].0 by {
            assert(es[a].0 == self.entries()[a].0);
            assert(es[b].0 == self.entries()[b].0);
        }
        StrMap { items }
    }
}

impl<V> Default for StrMap<V> {
    fn default() -> (m: Self)
        ensures
            m.entries() == Seq::<(Seq<char>, V)>::empty(),
    {
        StrMap::new()
    }
}

/// No two entries share a key.
pub open spec fn keys_unique<V>(es: Seq<(Seq<char>, V)>) -> bool {
    forall|i: int, j: int| 0 <= i < j < es.len() ==> es[i].0 != es[j].0
}

/// A key held by some entry is found.
pub proof fn lemma_lookup_held<V>(es: Seq<(Seq<char>, V)>, k: Seq<char>, i: int)
    requires
        0 <= i < es.len(),
        es[i].0 == k,
    ensures
        lookup_entry(es, k) is Some,
    decreases es.len(),
{
    if es[0].0 != k {
        lemma_lookup_held(es.drop_first(), k, i - 1);
    }
}

/// Removing a key: one entry fewer when it is held, every remaining entry
/// was an entry before, other keys are looked up as before, and distinct
/// keys stay distinct with the removed key gone.
pub proof fn lemma_remove_facts<V>(es: Seq<(Seq<char>, V)>, k: Seq<char>)
    ensures
        remove_entry(es, k).len() == if lookup_entry(es, k) is Some {
            es.len() - 1
        } else {
            es.len() as int
        },
        forall|i: int|
            0 <= i < remove_entry(es, k).len() ==> exists|j: int|
                0 <= j < es.len() && #[trigger] remove_entry(es, k)[i] == es[j],
        forall|q: Seq<char>|
            q != k ==> #[trigger] lookup_entry(remove_entry(es, k), q) == lookup_entry(es, q),
        keys_unique(es) ==> keys_unique(remove_entry(es, k)),
        keys_unique(es) ==> forall|i: int|
            0 <= i < remove_entry(es, k).len() ==> #[trigger] remove_entry(es, k)[i].0 != k,
    decreases es.len(),
{
    if es.len() > 0 {
        let r = remove_entry(es, k);
        if es[0].0 == k {
            assert forall|i: int| 0 <= i < r.len() implies exists|j: int|
                0 <= j < es.len() && #[trigger] r[i] == es[j] by {
                assert(r[i] == es[i + 1]);
            }
            assert forall|q: Seq<char>| q != k implies #[trigger] lookup_entry(r, q) == lookup_entry(
                es,
                q,
            ) by {}
            if keys_unique(es) {
                assert forall|i: int| 0 <= i < r.len() implies #[trigger] r[i].0 != k by {
                    assert(r[i] == es[i + 1]);
                }
            }
        } else {
            let t = es.drop_first();
            lemma_remove_facts(t, k);
            let rt = remove_entry(t, k);
            assert(r == seq![es[0]] + rt);
            assert forall|i: int| 0 <= i < r.len() implies exists|j: int|
                0 <= j < es.len() && #[trigger] r[i] == es[j] by {
                if i == 0 {
                    assert(r[0] == es[0]);
                } else {
                    assert(r[i] == rt[i - 1]);
                    let j = choose|j: int| 0 <= j < t.len() && #[trigger] rt[i - 1] == t[j];
                    assert(r[i] == es[j + 1]);
                }
            }
            assert forall|q: Seq<char>| q != k implies #[trigger] lookup_entry(r, q) == lookup_entry(
                es,
                q,
            ) by {
                assert(r[0] == es[0]);
                assert(r.drop_first() =~= rt);
                assert(lookup_entry(rt, q) == lookup_entry(t, q));
            }
            if keys_unique(es) {
                assert(keys_unique(t));
                assert forall|i: int, j: int| 0 <= i < j < r.len() implies r[i].0 != r[j].0 by {
                    assert(r[j] == rt[j - 1]);
                    let b = choose|b: int| 0 <= b < t.len() && #[trigger] rt[j - 1] == t[b];
                    if i == 0 {
                        assert(r[0] == es[0]);
                        assert(t[b] == es[b + 1]);
                    } else {
                        assert(r[i] == rt[i - 1]);
                    }
                }
                assert forall|i: int| 0 <= i < r.len() implies #[trigger] r[i].0 != k by {
                    if i > 0 {
                        assert(r[i] == rt[i - 1]);
                    }
                }
            }
        }
    }
}

/// Inserting: every entry afterwards holds the inserted key or a key held
/// before, and distinct keys stay distinct.
pub proof fn lemma_insert_facts<V>(es: Seq<(Seq<char>, V)>, k: Seq<char>, v: V)
    ensures
        forall|i: int|
            0 <= i < insert_entry(es, k, v).len() ==> #[trigger] insert_entry(es, k, v)[i].0 == k
                || exists|j: int| 0 <= j < es.len() && es[j].0 == insert_entry(es, k, v)[i].0,
        keys_unique(es) ==> keys_unique(insert_entry(es, k, v)),
    decreases es.len(),
{
    if es.len() > 0 {
        let r = insert_entry(es, k, v);
        if es[0].0 == k {
            assert forall|i: int| 0 <= i < r.len() implies #[trigger] r[i].0 == k || exists|j: int|
                0 <= j < es.len() && es[j].0 == r[i].0 by {
                if i > 0 {
                    assert(r[i] == es[i]);
                }
            }
            if keys_unique(es) {
                assert forall|i: int, j: int| 0 <= i < j < r.len() implies r[i].0 != r[j].0 by {
                    assert(r[j] == es[j]);
                    if i > 0 {
                        assert(r[i] == es[i]);
                    }
                }
            }
        } else {
            let t = es.drop_first();
            lemma_insert_facts(t, k, v);
            let rt = insert_entry(t, k, v);
            assert(r == seq![es[0]] + rt);
            assert forall|i: int| 0 <= i < r.len() implies #[trigger] r[i].0 == k || exists|j: int|
                0 <= j < es.len() && es[j].0 == r[i].0 by {
                if i == 0 {
                    assert(es[0].0 == r[0].0);
                } else {
                    assert(r[i] == rt[i - 1]);
                    if rt[i - 1].0 != k {
                        let j = choose|j: int| 0 <= j < t.len() && t[j].0 == rt[i - 1].0;
                        assert(es[j + 1].0 == r[i].0);
                    }
                }
            }
            if keys_unique(es) {
                assert(keys_unique(t));
                assert forall|i: int, j: int| 0 <= i < j < r.len() implies r[i].0 != r[j].0 by {
                    assert(r[j] == rt[j - 1]);
                    if i == 0 {
                        assert(r[0] == es[0]);
                        if rt[j - 1].0 != k {
                            let b = choose|b: int| 0 <= b < t.len() && t[b].0 == rt[j - 1].0;
                            assert(t[b] == es[b + 1]);
                        }
                    } else {
                        assert(r[i] == rt[i - 1]);
                    }
                }
            }
        }
    }
}

// ── Key order ──────────────────────────────────────────────────────────────

/// `a` comes before `b` in character order: lexicographically by code
/// point, a proper prefix first.
pub open spec fn key_lt(a: Seq<char>, b: Seq<char>) -> bool
    decreases a.len(),
{
    if a.len() == 0 {
        b.len() > 0
    } else if b.len() == 0 {
        false
    } else if a[0] != b[0] {
        (a[0] as int) < (b[0] as int)
    } else {
        key_lt(a.drop_first(), b.drop_first())
    }
}

/// Character order is strict and total.
pub proof fn lemma_key_lt_total(a: Seq<char>, b: Seq<char>)
    ensures
        !key_lt(a, a),
        key_lt(a, b) ==> !key_lt(b, a),
        a != b ==> key_lt(a, b) || key_lt(b, a),
    decreases a.len(),
{
    if a.len() > 0 {
        lemma_key_lt_total(a.drop_first(), a.drop_first());
        if b.len() > 0 && a[0] == b[0] {
            lemma_key_lt_total(a.drop_first(), b.drop_first());
            if a != b {
                if a.drop_first() == b.drop_first() {
                    assert(a =~= seq![a[0]] + a.drop_first());
                    assert(b =~= seq![b[0]] + b.drop_first());
                }
            }
        }
    } else if b.len() == 0 {
        assert(a =~= b);
    }
}

/// Character order is transitive.
pub proof fn lemma_key_lt_trans(a: Seq<char>, b: Seq<char>, c: Seq<char>)
    requires
        key_lt(a, b),
        key_lt(b, c),
    ensures
        key_lt(a, c),
    decreases a.len(),
{
    if a.len() > 0 && b.len() > 0 && c.len() > 0 && a[0] == b[0] && b[0] == c[0] {
        lemma_key_lt_trans(a.drop_first(), b.drop_first(), c.drop_first());
    }
}

/// `s` with `x` placed before the first entry whose key comes after its own.
pub open spec fn insert_by_key<V>(s: Seq<(Seq<char>, V)>, x: (Seq<char>, V)) -> Seq<(Seq<char>, V)>
    decreases s.len(),
{
    if s.len() == 0 {
        seq![x]
    } else if key_lt(x.0, s[0].0) {
        seq![x] + s
    } else {
        seq![s[0]] + insert_by_key(s.drop_first(), x)
    }
}

/// The entries in key order (insertion sort).
pub open spec fn sort_by_key<V>(es: Seq<(Seq<char>, V)>) -> Seq<(Seq<char>, V)>
    decreases es.len(),
{
    if es.len() == 0 {
        Seq::empty()
    } else {
        insert_by_key(sort_by_key(es.drop_last()), es.last())
    }
}

/// The keys increase strictly along `s`.
pub open spec fn key_sorted<V>(s: Seq<(Seq<char>, V)>) -> bool {
    forall|i: int, j: int| 0 <= i < j < s.len() ==> key_lt(s[i].0, s[j].0)
}

/// Inserting at the first position whose key comes after the new one.
pub proof fn lemma_insert_by_key_at<V>(s: Seq<(Seq<char>, V)>, x: (Seq<char>, V), p: int)
    requires
        0 <= p <= s.len(),
        forall|q: int| 0 <= q < p ==> !key_lt(x.0, #[trigger] s[q].0),
        p < s.len() ==> key_lt(x.0, s[p].0),
    ensures
        insert_by_key(s, x) == s.insert(p, x),
    decreases s.len(),
{
    if s.len() == 0 {
        assert(s.insert(p, x) =~= seq![x]);
    } else if p == 0 {
        assert(s.insert(0, x) =~= seq![x] + s);
    } else {
        assert(!key_lt(x.0, s[0].0));
        let t = s.drop_first();
        assert forall|q: int| 0 <= q < p - 1 implies !key_lt(x.0, #[trigger] t[q].0) by {
            assert(t[q] == s[q + 1]);
        }
        lemma_insert_by_key_at(t, x, p - 1);
        assert(seq![s[0]] + t.insert(p - 1, x) =~= s.insert(p, x));
    }
}

/// Insertion adds exactly `x`, and keeps the keys increasing when `x`'s key
/// is new.
pub proof fn lemma_insert_by_key<V>(s: Seq<(Seq<char>, V)>, x: (Seq<char>, V))
    ensures
        insert_by_key(s, x).len() == s.len() + 1,
        forall|e: (Seq<char>, V)| #[trigger] insert_by_key(s, x).contains(e) <==> (s.contains(e) || e == x),
        key_sorted(s) && (forall|i: int| 0 <= i < s.len() ==> #[trigger] s[i].0 != x.0) ==> key_sorted(
            insert_by_key(s, x),
        ),
    decreases s.len(),
{
    let r = insert_by_key(s, x);
    if s.len() == 0 {
        assert forall|e: (Seq<char>, V)| #[trigger] r.contains(e) <==> (s.contains(e) || e == x) by {
            if r.contains(e) {
                let k = choose|k: int| 0 <= k < r.len() && r[k] == e;
            }
            if e == x {
                assert(r[0] == x);
            }
        }
    } else if key_lt(x.0, s[0].0) {
        assert forall|e: (Seq<char>, V)| #[trigger] r.contains(e) <==> (s.contains(e) || e == x) by {
            if r.contains(e) {
                let k = choose|k: int| 0 <= k < r.len() && r[k] == e;
                if k > 0 {
                    assert(s[k - 1] == e);
                }
            }
            if s.contains(e) {
                let k = choose|k: int| 0 <= k < s.len() && s[k] == e;
                assert(r[k + 1] == e);
            }
            if e == x {
                assert(r[0] == x);
            }
        }
        if key_sorted(s) {
            assert forall|i: int, j: int| 0 <= i < j < r.len() implies key_lt(r[i].0, r[j].0) by {
                if i == 0 {
                    if j > 1 {
                        lemma_key_lt_trans(x.0, s[0].0, s[j - 1].0);
                    }
                } else {
                    assert(r[i] == s[i - 1] && r[j] == s[j - 1]);
                }
            }
        }
    } else {
        let t = s.drop_first();
        lemma_insert_by_key(t, x);
        let rt = insert_by_key(t, x);
        assert(r == seq![s[0]] + rt);
        assert forall|e: (Seq<char>, V)| #[trigger] r.contains(e) <==> (s.contains(e) || e == x) by {
            if r.contains(e) {
                let k = choose|k: int| 0 <= k < r.len() && r[k] == e;
                if k > 0 {
                    assert(rt[k - 1] == e);
                    assert(rt.contains(e));
                    if t.contains(e) {
                        let m = choose|m: int| 0 <= m < t.len() && t[m] == e;
                        assert(s[m + 1] == e);
                    }
                } else {
                    assert(s[0] == e);
                }
            }
            if s.contains(e) {
                let k = choose|k: int| 0 <= k < s.len() && s[k] == e;
                if k == 0 {
                    assert(r[0] == e);
                } else {
                    assert(t[k - 1] == e);
                    assert(rt.contains(e));
                    let m = choose|m: int| 0 <= m < rt.len() && rt[m] == e;
                    assert(r[m + 1] == e);
                }
            }
            if e == x {
                assert(rt.contains(x));
                let m = choose|m: int| 0 <= m < rt.len() && rt[m] == x;
                assert(r[m + 1] == x);
            }
        }
        if key_sorted(s) && (forall|i: int| 0 <= i < s.len() ==> #[trigger] s[i].0 != x.0) {
            assert(key_sorted(t)) by {
                assert forall|i: int, j: int| 0 <= i < j < t.len() implies key_lt(t[i].0, t[j].0) by {
                    assert(t[i] == s[i + 1] && t[j] == s[j + 1]);
                }
            }
            assert forall|i: int| 0 <= i < t.len() implies #[trigger] t[i].0 != x.0 by {
                assert(t[i] == s[i + 1]);
            }
            lemma_key_lt_total(x.0, s[0].0);
            assert(s[0].0 != x.0);
            assert(key_lt(s[0].0, x.0));
            assert forall|i: int, j: int| 0 <= i < j < r.len() implies key_lt(r[i].0, r[j].0) by {
                if i == 0 {
                    assert(rt.contains(rt[j - 1]));
                    if rt[j - 1] != x {
                        let m = choose|m: int| 0 <= m < t.len() && t[m] == rt[j - 1];
                        assert(s[m + 1] == rt[j - 1]);
                    }
                } else {
                    assert(r[i] == rt[i - 1] && r[j] == rt[j - 1]);
                }
            }
        }
    }
}

/// Sorting keeps exactly the entries, and puts distinct keys in increasing
/// order.
pub proof fn lemma_sort_by_key<V>(es: Seq<(Seq<char>, V)>)
    ensures
        sort_by_key(es).len() == es.len(),
        forall|e: (Seq<char>, V)| #[trigger] sort_by_key(es).contains(e) <==> es.contains(e),
        keys_unique(es) ==> key_sorted(sort_by_key(es)),
    decreases es.len(),
{
    if es.len() > 0 {
        let p = es.drop_last();
        let x = es.last();
        lemma_sort_by_key(p);
        let sp = sort_by_key(p);
        lemma_insert_by_key(sp, x);
        assert forall|e: (Seq<char>, V)| #[trigger] sort_by_key(es).contains(e) <==> es.contains(e) by {
            if p.contains(e) {
                let k = choose|k: int| 0 <= k < p.len() && p[k] == e;
                assert(es[k] == e);
            }
            if es.contains(e) {
                let k = choose|k: int| 0 <= k < es.len() && es[k] == e;
                if k < es.len() - 1 {
                    assert(p[k] == e);
                }
            }
            if e == x {
                assert(es[es.len() - 1] == e);
            }
        }
        if keys_unique(es) {
            assert(keys_unique(p));
            assert forall|i: int| 0 <= i < sp.len() implies #[trigger] sp[i].0 != x.0 by {
                assert(sp.contains(sp[i]));
                let k = choose|k: int| 0 <= k < p.len() && p[k] == sp[i];
                assert(es[k] == sp[i]);
            }
        }
    } else {
        assert forall|e: (Seq<char>, V)| #[trigger] sort_by_key(es).contains(e) <==> es.contains(e) by {}
    }
}

/// Two sequences with increasing keys and the same entries are equal.
pub proof fn lemma_key_sorted_unique<V>(s1: Seq<(Seq<char>, V)>, s2: Seq<(Seq<char>, V)>)
    requires
        key_sorted(s1),
        key_sorted(s2),
        forall|e: (Seq<char>, V)| #[trigger] s1.contains(e) <==> s2.contains(e),
    ensures
        s1 == s2,
    decreases s1.len(),
{
    if s1.len() == 0 {
        if s2.len() > 0 {
            assert(s2.contains(s2[0]));
            assert(s1.contains(s2[0]));
        }
        assert(s1 =~= s2);
    } else {
        assert(s1.contains(s1[0]));
        let j = choose|j: int| 0 <= j < s2.len() && s2[j] == s1[0];
        assert(s2.contains(s2[0]));
        assert(s1.contains(s2[0]));
        let i = choose|i: int| 0 <= i < s1.len() && s1[i] == s2[0];
        if j > 0 {
            lemma_key_lt_total(s1[0].0, s2[0].0);
            if i > 0 {
                assert(key_lt(s1[0].0, s1[i].0));
            }
            assert(false);
        }
        let t1 = s1.drop_first();
        let t2 = s2.drop_first();
        assert forall|e: (Seq<char>, V)| #[trigger] t1.contains(e) <==> t2.contains(e) by {
            if t1.contains(e) {
                let m = choose|m: int| 0 <= m < t1.len() && t1[m] == e;
                assert(s1[m + 1] == e);
                assert(s1.contains(e));
                let n = choose|n: int| 0 <= n < s2.len() && s2[n] == e;
                lemma_key_lt_total(s1[0].0, s1[0].0);
                if n == 0 {
                    assert(key_lt(s1[0].0, s1[m + 1].0));
                }
                assert(t2[n - 1] == e);
            }
            if t2.contains(e) {
                let m = choose|m: int| 0 <= m < t2.len() && t2[m] == e;
                assert(s2[m + 1] == e);
                assert(s2.contains(e));
                assert(s1.contains(e));
                let n = choose|n: int| 0 <= n < s1.len() && s1[n] == e;
                lemma_key_lt_total(s2[0].0, s2[0].0);
                if n == 0 {
                    assert(key_lt(s2[0].0, s2[m + 1].0));
                }
                assert(t1[n - 1] == e);
            }
        }
        assert(key_sorted(t1)) by {
            assert forall|a: int, b: int| 0 <= a < b < t1.len() implies key_lt(t1[a].0, t1[b].0) by {
                assert(t1[a] == s1[a + 1] && t1[b] == s1[b + 1]);
            }
        }
        assert(key_sorted(t2)) by {
            assert forall|a: int, b: int| 0 <= a < b < t2.len() implies key_lt(t2[a].0, t2[b].0) by {
                assert(t2[a] == s2[a + 1] && t2[b] == s2[b + 1]);
            }
        }
        lemma_key_sorted_unique(t1, t2);
        assert(s1 =~= seq![s1[0]] + t1);
        assert(s2 =~= seq![s2[0]] + t2);
    }
}

/// A key found with a value is held by an entry with that value.
pub proof fn lemma_lookup_found<V>(es: Seq<(Seq<char>, V)>, k: Seq<char>)
    ensures
        lookup_entry(es, k) matches Some(v) ==> es.contains((k, v)),
    decreases es.len(),
{
    if es.len() > 0 {
        lemma_lookup_found(es.drop_first(), k);
        if es[0].0 == k {
            assert(es[0] == (k, es[0].1));
        } else if lookup_entry(es, k) is Some {
            let v = lookup_entry(es, k)->0;
            let m = choose|m: int| 0 <= m < es.drop_first().len() && es.drop_first()[m] == (k, v);
            assert(es[m + 1] == (k, v));
        }
    }
}

/// Two entry lists with distinct keys that look up alike hold the same
/// entries.
pub proof fn lemma_same_entries<V>(a: Seq<(Seq<char>, V)>, b: Seq<(Seq<char>, V)>)
    requires
        keys_unique(a),
        keys_unique(b),
        forall|k: Seq<char>| #[trigger] lookup_entry(a, k) == lookup_entry(b, k),
    ensures
        forall|e: (Seq<char>, V)| #[trigger] a.contains(e) <==> b.contains(e),
{
    assert forall|e: (Seq<char>, V)| #[trigger] a.contains(e) implies b.contains(e) by {
        let i = choose|i: int| 0 <= i < a.len() && a[i] == e;
        lemma_lookup_at(a, e.0, i);
        assert(lookup_entry(b, e.0) == Some(e.1));
        lemma_lookup_found(b, e.0);
        assert(e == (e.0, e.1));
    }
    assert forall|e: (Seq<char>, V)| #[trigger] b.contains(e) implies a.contains(e) by {
        let i = choose|i: int| 0 <= i < b.len() && b[i] == e;
        lemma_lookup_at(b, e.0, i);
        assert(lookup_entry(a, e.0) == Some(e.1));
        lemma_lookup_found(a, e.0);
        assert(e == (e.0, e.1));
    }
}

} // verus!
