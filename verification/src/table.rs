//! A map from names to values, kept in the order of its keys.
//!
//! The documents of a store are maps keyed by a name (a package, a peer, a
//! criterion). They are walked in key order when they are written and when
//! errors are gathered, so the order is part of the type: the keys of a
//! well-formed table strictly increase in the order of `str`.

use vstd::prelude::*;
use crate::text::{
    lemma_text_lt_irreflexive, lemma_text_lt_total, lemma_text_lt_transitive, rank, same_text,
    text_lt, Rank,
};

verus! {

#[derive(Clone, Debug, PartialEq, Eq)]
pub struct Table<V> {
    pub keys: Vec<String>,
    pub vals: Vec<V>,
}

/// What a table holds: its keys in order and, at the same positions, the
/// views of its values.
pub struct TableView<VV> {
    pub keys: Seq<Seq<char>>,
    pub vals: Seq<VV>,
}

/// Whether the keys strictly increase.
pub open spec fn keys_ordered(keys: Seq<Seq<char>>) -> bool {
    forall|i: int, j: int| 0 <= i < j < keys.len() ==> text_lt(#[trigger] keys[i], #[trigger] keys[j])
}

impl<VV> TableView<VV> {
    pub open spec fn wf(self) -> bool {
        &&& self.keys.len() == self.vals.len()
        &&& keys_ordered(self.keys)
    }

    pub open spec fn len(self) -> nat {
        self.keys.len()
    }

    pub open spec fn has(self, key: Seq<char>) -> bool {
        self.keys.contains(key)
    }

    /// The value stored under `key`, where the table has that key.
    pub open spec fn at(self, key: Seq<char>) -> VV {
        self.vals[self.keys.index_of(key)]
    }

    pub open spec fn get(self, key: Seq<char>) -> Option<VV> {
        if self.has(key) {
            Some(self.at(key))
        } else {
            None
        }
    }

    pub open spec fn empty() -> Self {
        TableView { keys: Seq::empty(), vals: Seq::empty() }
    }

    /// The number of keys that come before `key` in the order.
    pub open spec fn slot(self, key: Seq<char>) -> int
        decreases self.keys.len(),
    {
        if self.keys.len() == 0 {
            0
        } else if text_lt(self.keys.last(), key) {
            self.keys.len() as int
        } else {
            (TableView { keys: self.keys.drop_last(), vals: self.vals.drop_last() }).slot(key)
        }
    }

    /// The table with `val` stored under `key`, replacing what was there.
    pub open spec fn put(self, key: Seq<char>, val: VV) -> Self {
        if self.has(key) {
            TableView { keys: self.keys, vals: self.vals.update(self.keys.index_of(key), val) }
        } else {
            TableView {
                keys: self.keys.insert(self.slot(key), key),
                vals: self.vals.insert(self.slot(key), val),
            }
        }
    }

    /// The table without `key`.
    pub open spec fn without(self, key: Seq<char>) -> Self {
        if self.has(key) {
            TableView {
                keys: self.keys.remove(self.keys.index_of(key)),
                vals: self.vals.remove(self.keys.index_of(key)),
            }
        } else {
            self
        }
    }
}

/// In an ordered list of keys no key occurs twice.
pub proof fn lemma_ordered_distinct(keys: Seq<Seq<char>>, i: int, j: int)
    requires
        keys_ordered(keys),
        0 <= i < keys.len(),
        0 <= j < keys.len(),
        keys[i] == keys[j],
    ensures
        i == j,
{
    lemma_text_lt_irreflexive(keys[i]);
}

/// In an ordered list, the position found for a key is the position it is at.
pub proof fn lemma_index_of(keys: Seq<Seq<char>>, i: int)
    requires
        keys_ordered(keys),
        0 <= i < keys.len(),
    ensures
        keys.contains(keys[i]),
        keys.index_of(keys[i]) == i,
{
    let k = keys.index_of(keys[i]);
    lemma_ordered_distinct(keys, i, k);
}

/// Where a key is absent, its slot is the first position whose key comes
/// after it.
pub proof fn lemma_slot<VV>(t: TableView<VV>, key: Seq<char>, p: int)
    requires
        t.wf(),
        0 <= p <= t.keys.len(),
        forall|j: int| 0 <= j < p ==> text_lt(#[trigger] t.keys[j], key),
        p < t.keys.len() ==> !text_lt(t.keys[p], key),
    ensures
        t.slot(key) == p,
    decreases t.keys.len(),
{
    if t.keys.len() == 0 {
    } else if text_lt(t.keys.last(), key) {
        if p < t.keys.len() {
            if p < t.keys.len() - 1 {
                lemma_text_lt_transitive(t.keys[p], t.keys.last(), key);
            }
        }
    } else {
        let shorter = TableView { keys: t.keys.drop_last(), vals: t.vals.drop_last() };
        lemma_slot(shorter, key, p);
    }
}

impl<VV> TableView<VV> {
    /// The first `n` entries.
    pub open spec fn first(self, n: int) -> Self {
        TableView { keys: self.keys.take(n), vals: self.vals.take(n) }
    }

    /// The table of the entries for which `f` gives a value, each with that
    /// value, in the same order.
    pub open spec fn select_map<B>(self, f: spec_fn(Seq<char>, VV) -> Option<B>) -> TableView<B>
        decreases self.keys.len(),
    {
        if self.keys.len() == 0 || self.vals.len() != self.keys.len() {
            TableView::empty()
        } else {
            let rest = self.first(self.keys.len() - 1).select_map(f);
            match f(self.keys.last(), self.vals.last()) {
                Some(b) => TableView {
                    keys: rest.keys.push(self.keys.last()),
                    vals: rest.vals.push(b),
                },
                None => rest,
            }
        }
    }

    /// What `select_map` gives for a table that is one entry longer.
    pub proof fn lemma_select_map_step<B>(self, f: spec_fn(Seq<char>, VV) -> Option<B>, n: int)
        requires
            self.keys.len() == self.vals.len(),
            0 <= n < self.keys.len(),
        ensures
            self.first(n + 1).select_map(f) == match f(self.keys[n], self.vals[n]) {
                Some(b) => TableView {
                    keys: self.first(n).select_map(f).keys.push(self.keys[n]),
                    vals: self.first(n).select_map(f).vals.push(b),
                },
                None => self.first(n).select_map(f),
            },
    {
        let longer = self.first(n + 1);
        assert(longer.first(longer.keys.len() - 1).keys =~= self.first(n).keys);
        assert(longer.first(longer.keys.len() - 1).vals =~= self.first(n).vals);
    }

    /// `select_map` keeps the order of the keys, and holds under a key what
    /// `f` gives for the entry of that key.
    pub proof fn lemma_select_map<B>(self, f: spec_fn(Seq<char>, VV) -> Option<B>)
        requires
            self.wf(),
        ensures
            self.select_map(f).wf(),
            forall|k: Seq<char>| #[trigger]
                self.select_map(f).has(k) <==> self.has(k) && f(k, self.at(k)) is Some,
            forall|k: Seq<char>| #[trigger]
                self.select_map(f).has(k) ==> Some(self.select_map(f).at(k)) == f(k, self.at(k)),
        decreases self.keys.len(),
    {
        let out = self.select_map(f);
        if self.keys.len() > 0 {
            let n = self.keys.len() - 1;
            let shorter = self.first(n);
            let rest = shorter.select_map(f);
            shorter.lemma_select_map(f);
            let last = self.keys.last();
            assert forall|k: Seq<char>| shorter.has(k) implies self.has(k) && text_lt(k, last)
                && self.at(k) == shorter.at(k) by {
                let i = shorter.keys.index_of(k);
                assert(self.keys[i] == k);
                lemma_index_of(self.keys, i);
                lemma_index_of(shorter.keys, i);
            }
            assert forall|k: Seq<char>| self.has(k) && k != last implies shorter.has(k) by {
                let i = self.keys.index_of(k);
                assert(shorter.keys[i] == k);
            }
            lemma_index_of(self.keys, n);
            assert(!shorter.has(last)) by {
                if shorter.has(last) {
                    lemma_text_lt_irreflexive(last);
                }
            }
            match f(last, self.vals.last()) {
                Some(b) => {
                    assert forall|i: int, j: int| 0 <= i < j < out.keys.len() implies text_lt(
                        #[trigger] out.keys[i],
                        #[trigger] out.keys[j],
                    ) by {
                        if j == out.keys.len() - 1 {
                            assert(rest.has(rest.keys[i]));
                        }
                    }
                    assert forall|k: Seq<char>| #[trigger]
                        out.has(k) <==> self.has(k) && f(k, self.at(k)) is Some by {
                        if out.has(k) {
                            let i = out.keys.index_of(k);
                            if i < rest.keys.len() {
                                assert(rest.has(rest.keys[i]));
                            }
                        }
                        if self.has(k) && f(k, self.at(k)) is Some {
                            if k == last {
                                assert(out.keys[out.keys.len() - 1] == k);
                            } else {
                                assert(shorter.has(k));
                                assert(shorter.at(k) == self.at(k));
                                assert(rest.has(k));
                                let i = rest.keys.index_of(k);
                                assert(out.keys[i] == k);
                            }
                        }
                    }
                    assert forall|k: Seq<char>| #[trigger] out.has(k) implies Some(out.at(k)) == f(
                        k,
                        self.at(k),
                    ) by {
                        let i = out.keys.index_of(k);
                        lemma_index_of(out.keys, i);
                        if i < rest.keys.len() {
                            assert(rest.has(rest.keys[i]));
                            lemma_index_of(rest.keys, i);
                        }
                    }
                },
                None => {},
            }
        }
    }
}

/// A slot is a position of the table or the position behind its end.
pub proof fn lemma_slot_bounds<VV>(t: TableView<VV>, key: Seq<char>)
    ensures
        0 <= t.slot(key) <= t.keys.len(),
    decreases t.keys.len(),
{
    if t.keys.len() > 0 && !text_lt(t.keys.last(), key) {
        lemma_slot_bounds(
            TableView { keys: t.keys.drop_last(), vals: t.vals.drop_last() },
            key,
        );
    }
}

/// The keys before the slot of `key` come before `key`; the others do not.
pub proof fn lemma_slot_splits<VV>(t: TableView<VV>, key: Seq<char>)
    requires
        t.wf(),
    ensures
        0 <= t.slot(key) <= t.keys.len(),
        forall|j: int| 0 <= j < t.slot(key) ==> text_lt(#[trigger] t.keys[j], key),
        forall|j: int| t.slot(key) <= j < t.keys.len() ==> !text_lt(#[trigger] t.keys[j], key),
    decreases t.keys.len(),
{
    if t.keys.len() > 0 {
        if text_lt(t.keys.last(), key) {
            assert forall|j: int| 0 <= j < t.keys.len() implies text_lt(
                #[trigger] t.keys[j],
                key,
            ) by {
                if j < t.keys.len() - 1 {
                    lemma_text_lt_transitive(t.keys[j], t.keys.last(), key);
                }
            }
        } else {
            let shorter = TableView { keys: t.keys.drop_last(), vals: t.vals.drop_last() };
            lemma_slot_splits(shorter, key);
            assert forall|j: int| 0 <= j < t.slot(key) implies text_lt(
                #[trigger] t.keys[j],
                key,
            ) by {
                assert(shorter.keys[j] == t.keys[j]);
            }
            assert forall|j: int| t.slot(key) <= j < t.keys.len() implies !text_lt(
                #[trigger] t.keys[j],
                key,
            ) by {
                if j < t.keys.len() - 1 {
                    assert(shorter.keys[j] == t.keys[j]);
                }
            }
        }
    }
}

/// `put` keeps the table well-formed, stores the value under the key, and
/// leaves the other keys as they were.
pub proof fn lemma_put<VV>(t: TableView<VV>, key: Seq<char>, val: VV)
    requires
        t.wf(),
    ensures
        t.put(key, val).wf(),
        t.put(key, val).has(key),
        t.put(key, val).at(key) == val,
        forall|k: Seq<char>|
            k != key ==> (#[trigger] t.put(key, val).has(k) <==> t.has(k)),
        forall|k: Seq<char>|
            k != key && t.has(k) ==> #[trigger] t.put(key, val).at(k) == t.at(k),
{
    let after = t.put(key, val);
    if t.has(key) {
        let p = t.keys.index_of(key);
        assert(after.keys[p] == key);
        assert forall|k: Seq<char>| k != key && t.has(k) implies #[trigger] after.at(k) == t.at(
            k,
        ) by {
            let i = t.keys.index_of(k);
        }
    } else {
        lemma_slot_splits(t, key);
        let p = t.slot(key);
        assert forall|a: int, b: int| 0 <= a < b < after.keys.len() implies text_lt(
            #[trigger] after.keys[a],
            #[trigger] after.keys[b],
        ) by {
            if b == p {
            } else if a == p {
                let other = t.keys[b - 1];
                assert(t.keys.contains(other));
                lemma_text_lt_total(key, other);
            } else {
            }
        }
        assert(after.keys[p] == key);
        lemma_index_of(after.keys, p);
        assert forall|k: Seq<char>| k != key implies (#[trigger] after.has(k) <==> t.has(k)) by {
            if after.has(k) {
                let i = after.keys.index_of(k);
                if i < p {
                    assert(t.keys[i] == k);
                } else {
                    assert(t.keys[i - 1] == k);
                }
            }
            if t.has(k) {
                let i = t.keys.index_of(k);
                if i < p {
                    assert(after.keys[i] == k);
                } else {
                    assert(after.keys[i + 1] == k);
                }
            }
        }
        assert forall|k: Seq<char>| k != key && t.has(k) implies #[trigger] after.at(k) == t.at(
            k,
        ) by {
            let i = t.keys.index_of(k);
            lemma_index_of(t.keys, i);
            if i < p {
                assert(after.keys[i] == k);
                lemma_index_of(after.keys, i);
            } else {
                assert(after.keys[i + 1] == k);
                lemma_index_of(after.keys, i + 1);
            }
        }
    }
}

/// After `put`, the table holds the new value and values that it held.
pub proof fn lemma_put_values<VV>(t: TableView<VV>, key: Seq<char>, val: VV)
    requires
        t.keys.len() == t.vals.len(),
    ensures
        forall|k: int|
            0 <= k < t.put(key, val).vals.len() ==> #[trigger] t.put(key, val).vals[k] == val
                || t.vals.contains(t.put(key, val).vals[k]),
{
    lemma_slot_bounds(t, key);
    let after = t.put(key, val);
    assert forall|k: int| 0 <= k < after.vals.len() implies #[trigger] after.vals[k] == val
        || t.vals.contains(after.vals[k]) by {
        if t.has(key) {
            let p = t.keys.index_of(key);
            if k != p {
                assert(after.vals[k] == t.vals[k]);
            }
        } else {
            let p = t.slot(key);
            if k < p {
                assert(after.vals[k] == t.vals[k]);
            } else if k > p {
                assert(after.vals[k] == t.vals[k - 1]);
            }
        }
    }
}

impl<V: DeepView> DeepView for Table<V> {
    type V = TableView<V::V>;

    open spec fn deep_view(&self) -> TableView<V::V> {
        TableView { keys: self.keys.deep_view(), vals: self.vals.deep_view() }
    }
}

impl<V: DeepView> Table<V> {
    /// The keys strictly increase and each has its value.
    pub open spec fn wf(&self) -> bool {
        self.deep_view().wf()
    }

    pub fn new() -> (t: Self)
        ensures
            t.wf(),
            t.deep_view() == TableView::<V::V>::empty(),
    {
        let t = Table { keys: Vec::new(), vals: Vec::new() };
        assert(t.keys.deep_view() =~= Seq::empty());
        assert(t.vals.deep_view() =~= Seq::empty());
        t
    }

    pub fn len(&self) -> (n: usize)
        requires
            self.wf(),
        ensures
            n == self.deep_view().len(),
    {
        self.keys.len()
    }

    pub fn is_empty(&self) -> (r: bool)
        requires
            self.wf(),
        ensures
            r == (self.deep_view().len() == 0),
    {
        self.keys.len() == 0
    }

    /// The key at position `i` in key order.
    pub fn key_at(&self, i: usize) -> (k: &String)
        requires
            self.wf(),
            i < self.deep_view().len(),
        ensures
            k@ == self.deep_view().keys[i as int],
    {
        &self.keys[i]
    }

    /// The value at position `i` in key order.
    pub fn value_at(&self, i: usize) -> (v: &V)
        requires
            self.wf(),
            i < self.deep_view().len(),
        ensures
            v.deep_view() == self.deep_view().vals[i as int],
            *v == self.vals@[i as int],
    {
        &self.vals[i]
    }

    /// The position of `key`, if the table has it.
    pub fn position(&self, key: &str) -> (r: Option<usize>)
        requires
            self.wf(),
        ensures
            r is Some == self.deep_view().has(key@),
            r matches Some(i) ==> i < self.deep_view().len() && self.deep_view().keys[i as int]
                == key@ && self.deep_view().keys.index_of(key@) == i,
    {
        let mut i: usize = 0;
        while i < self.keys.len()
            invariant
                self.wf(),
                i <= self.keys.len(),
                forall|j: int| 0 <= j < i ==> self.keys.deep_view()[j] != key@,
            decreases self.keys.len() - i,
        {
            if same_text(self.keys[i].as_str(), key) {
                proof {
                    lemma_index_of(self.keys.deep_view(), i as int);
                }
                return Some(i);
            }
            i = i + 1;
        }
        None
    }

    pub fn contains_key(&self, key: &str) -> (r: bool)
        requires
            self.wf(),
        ensures
            r == self.deep_view().has(key@),
    {
        self.position(key).is_some()
    }

    /// The value stored under `key`.
    pub fn get(&self, key: &str) -> (r: Option<&V>)
        requires
            self.wf(),
        ensures
            r is Some == self.deep_view().has(key@),
            r matches Some(v) ==> v.deep_view() == self.deep_view().at(key@),
            r.deep_view() == self.deep_view().get(key@),
    {
        match self.position(key) {
            Some(i) => Some(&self.vals[i]),
            None => None,
        }
    }

    /// Stores `val` under `key`, replacing the value that was there.
    pub fn insert(&mut self, key: String, val: V)
        requires
            old(self).wf(),
        ensures
            final(self).wf(),
            final(self).deep_view() == old(self).deep_view().put(key@, val.deep_view()),
    {
        let ghost before = self.deep_view();
        let mut i: usize = 0;
        while i < self.keys.len()
            invariant
                self.deep_view() == before,
                before == old(self).deep_view(),
                before.wf(),
                i <= self.keys.len(),
                forall|j: int| 0 <= j < i ==> text_lt(#[trigger] before.keys[j], key@),
            decreases self.keys.len() - i,
        {
            match rank(self.keys[i].as_str(), key.as_str()) {
                Rank::Before => {
                    i = i + 1;
                },
                Rank::Same => {
                    proof {
                        lemma_index_of(before.keys, i as int);
                    }
                    self.vals.set(i, val);
                    assert(self.vals.deep_view() =~= before.vals.update(i as int, val.deep_view()));
                    assert(self.keys.deep_view() =~= before.keys);
                    assert(before.has(key@));
                    return ;
                },
                Rank::After => {
                    proof {
                        if text_lt(before.keys[i as int], key@) {
                            lemma_text_lt_transitive(key@, before.keys[i as int], key@);
                            lemma_text_lt_irreflexive(key@);
                        }
                        lemma_slot(before, key@, i as int);
                        assert(!before.keys.contains(key@)) by {
                            if before.keys.contains(key@) {
                                let p = before.keys.index_of(key@);
                                lemma_text_lt_irreflexive(key@);
                                if p > i {
                                    lemma_text_lt_transitive(
                                        key@,
                                        before.keys[i as int],
                                        before.keys[p],
                                    );
                                }
                            }
                        }
                        assert forall|a: int, b: int|
                            0 <= a < b < before.keys.len() + 1 implies text_lt(
                            #[trigger] before.keys.insert(i as int, key@)[a],
                            #[trigger] before.keys.insert(i as int, key@)[b],
                        ) by {
                            if a == i && b > i + 1 {
                                lemma_text_lt_transitive(
                                    key@,
                                    before.keys[i as int],
                                    before.keys[b - 1],
                                );
                            }
                        }
                    }
                    self.keys.insert(i, key);
                    self.vals.insert(i, val);
                    assert(self.keys.deep_view() =~= before.keys.insert(i as int, key@));
                    assert(self.vals.deep_view() =~= before.vals.insert(
                        i as int,
                        val.deep_view(),
                    ));
                    return ;
                },
            }
        }
        proof {
            lemma_slot(before, key@, i as int);
            assert(!before.keys.contains(key@)) by {
                if before.keys.contains(key@) {
                    lemma_text_lt_irreflexive(key@);
                }
            }
        }
        self.keys.push(key);
        self.vals.push(val);
        assert(self.keys.deep_view() =~= before.keys.insert(i as int, key@));
        assert(self.vals.deep_view() =~= before.vals.insert(i as int, val.deep_view()));
    }

    /// Takes `key` and its value out of the table.
    pub fn remove(&mut self, key: &str)
        requires
            old(self).wf(),
        ensures
            final(self).wf(),
            final(self).deep_view() == old(self).deep_view().without(key@),
    {
        let ghost before = self.deep_view();
        match self.position(key) {
            Some(i) => {
                self.keys.remove(i);
                self.vals.remove(i);
                assert(self.keys.deep_view() =~= before.keys.remove(i as int));
                assert(self.vals.deep_view() =~= before.vals.remove(i as int));
            },
            None => {},
        }
    }
}

} // verus!
