//! A small map for keys that are compared by what they hold.
//!
//! The entries are kept in the order in which their keys were first put.
//! Where a key occurs more than once, its last entry counts.

use vstd::prelude::*;
use crate::model::{Duplicate, Same};

verus! {

#[derive(Clone, Debug, PartialEq, Eq)]
pub struct Assoc<K, V> {
    pub keys: Vec<K>,
    pub vals: Vec<V>,
}

pub struct AssocView<KV, VV> {
    pub keys: Seq<KV>,
    pub vals: Seq<VV>,
}

impl<KV, VV> AssocView<KV, VV> {
    pub open spec fn wf(self) -> bool {
        self.keys.len() == self.vals.len()
    }

    pub open spec fn empty() -> Self {
        AssocView { keys: Seq::empty(), vals: Seq::empty() }
    }

    /// The first `n` entries.
    pub open spec fn first(self, n: int) -> Self {
        AssocView { keys: self.keys.take(n), vals: self.vals.take(n) }
    }

    /// The value of the last entry with the given key.
    pub open spec fn get(self, key: KV) -> Option<VV>
        decreases self.keys.len(),
    {
        if self.keys.len() == 0 || self.vals.len() != self.keys.len() {
            None
        } else if self.keys.last() == key {
            Some(self.vals.last())
        } else {
            self.first(self.keys.len() - 1).get(key)
        }
    }

    /// The map with the value of the last entry of `key` replaced, where
    /// there is such an entry.
    pub open spec fn replaced(self, key: KV, val: VV) -> Self
        decreases self.keys.len(),
    {
        if self.keys.len() == 0 || self.vals.len() != self.keys.len() {
            self
        } else if self.keys.last() == key {
            AssocView { keys: self.keys, vals: self.vals.update(self.vals.len() - 1, val) }
        } else {
            let before = self.first(self.keys.len() - 1).replaced(key, val);
            AssocView {
                keys: before.keys.push(self.keys.last()),
                vals: before.vals.push(self.vals.last()),
            }
        }
    }

    /// The map with `val` under `key`: in the place of the entry that
    /// counted for the key, or at the end if there was none.
    pub open spec fn put(self, key: KV, val: VV) -> Self {
        if self.get(key) is Some {
            self.replaced(key, val)
        } else {
            AssocView { keys: self.keys.push(key), vals: self.vals.push(val) }
        }
    }

    pub proof fn lemma_replaced(self, key: KV, val: VV, other: KV)
        requires
            self.wf(),
        ensures
            self.replaced(key, val).wf(),
            self.replaced(key, val).keys == self.keys,
            self.replaced(key, val).get(other) == if other == key && self.get(key) is Some {
                Some(val)
            } else {
                self.get(other)
            },
        decreases self.keys.len(),
    {
        if self.keys.len() > 0 {
            let n = self.keys.len() - 1;
            let out = self.replaced(key, val);
            if self.keys.last() == key {
                assert(out.first(n).keys =~= self.first(n).keys);
                assert(out.first(n).vals =~= self.first(n).vals);
            } else {
                self.first(n).lemma_replaced(key, val, other);
                let before = self.first(n).replaced(key, val);
                assert(out.first(n).keys =~= before.keys);
                assert(out.first(n).vals =~= before.vals);
                assert(out.keys =~= self.keys);
            }
        }
    }

    /// After `put`, the key has the value, and the other keys have what
    /// they had.
    pub proof fn lemma_put(self, key: KV, val: VV, other: KV)
        requires
            self.wf(),
        ensures
            self.put(key, val).wf(),
            self.put(key, val).get(other) == if other == key {
                Some(val)
            } else {
                self.get(other)
            },
    {
        if self.get(key) is Some {
            self.lemma_replaced(key, val, other);
        } else {
            let out = self.put(key, val);
            let n = self.keys.len() as int;
            assert(out.first(n).keys =~= self.keys);
            assert(out.first(n).vals =~= self.vals);
            assert(out.first(n) == self);
        }
    }
}

impl<K: DeepView, V: DeepView> DeepView for Assoc<K, V> {
    type V = AssocView<K::V, V::V>;

    open spec fn deep_view(&self) -> AssocView<K::V, V::V> {
        AssocView { keys: self.keys.deep_view(), vals: self.vals.deep_view() }
    }
}

impl<K: Duplicate, V: Duplicate> Duplicate for Assoc<K, V> {
    fn duplicate(&self) -> (r: Self) {
        Assoc { keys: self.keys.duplicate(), vals: self.vals.duplicate() }
    }
}

impl<K: Same + Duplicate, V: DeepView> Assoc<K, V> {
    pub open spec fn wf(&self) -> bool {
        self.deep_view().wf()
    }

    pub fn new() -> (r: Self)
        ensures
            r.wf(),
            r.deep_view() == AssocView::<K::V, V::V>::empty(),
    {
        let r = Assoc { keys: Vec::new(), vals: Vec::new() };
        assert(r.keys.deep_view() =~= Seq::empty());
        assert(r.vals.deep_view() =~= Seq::empty());
        r
    }

    pub fn len(&self) -> (n: usize)
        requires
            self.wf(),
        ensures
            n == self.deep_view().keys.len(),
    {
        self.keys.len()
    }

    /// The position of the entry that counts for `key`.
    pub fn position(&self, key: &K) -> (r: Option<usize>)
        requires
            self.wf(),
        ensures
            r is Some == self.deep_view().get(key.deep_view()) is Some,
            r matches Some(at) ==> at < self.deep_view().keys.len() && self.deep_view().get(
                key.deep_view(),
            ) == Some(self.deep_view().vals[at as int]) && self.vals@[at as int].deep_view()
                == self.deep_view().vals[at as int],
            r matches Some(at) ==> self.deep_view().keys[at as int] == key.deep_view() && forall|
                i: int,
            |
                at < i < self.deep_view().keys.len() ==> self.deep_view().keys[i]
                    != key.deep_view(),
    {
        let ghost all = self.deep_view();
        let mut i: usize = self.keys.len();
        assert(all.first(i as int).keys =~= all.keys);
        assert(all.first(i as int).vals =~= all.vals);
        while i > 0
            invariant
                self.wf(),
                all == self.deep_view(),
                i <= self.keys.len(),
                all.get(key.deep_view()) == all.first(i as int).get(key.deep_view()),
                forall|k: int| i <= k < all.keys.len() ==> all.keys[k] != key.deep_view(),
            decreases i,
        {
            let ghost part = all.first(i as int);
            assert(part.first(part.keys.len() - 1).keys =~= all.first(i - 1).keys);
            assert(part.first(part.keys.len() - 1).vals =~= all.first(i - 1).vals);
            assert(part.keys.last() == all.keys[i - 1]);
            if self.keys[i - 1].same(key) {
                return Some(i - 1);
            }
            i = i - 1;
        }
        None
    }

    /// The value under `key`.
    pub fn get(&self, key: &K) -> (r: Option<&V>)
        requires
            self.wf(),
        ensures
            r.deep_view() == self.deep_view().get(key.deep_view()),
    {
        match self.position(key) {
            Some(at) => Some(&self.vals[at]),
            None => None,
        }
    }

    /// Puts `val` under `key`.
    pub fn insert(&mut self, key: &K, val: V)
        requires
            old(self).wf(),
        ensures
            final(self).wf(),
            final(self).deep_view() == old(self).deep_view().put(key.deep_view(), val.deep_view()),
    {
        let ghost all = self.deep_view();
        let ghost made = val.deep_view();
        match self.position(key) {
            Some(at) => {
                self.vals.set(at, val);
                proof {
                    lemma_replaced_at(all, key.deep_view(), made, at as int);
                    assert(self.deep_view().keys =~= all.keys);
                    assert(self.deep_view().vals =~= all.vals.update(at as int, made));
                }
            },
            None => {
                self.keys.push(key.duplicate());
                self.vals.push(val);
                assert(self.deep_view().keys =~= all.keys.push(key.deep_view()));
                assert(self.deep_view().vals =~= all.vals.push(made));
            },
        }
    }
}

/// Replacing the value of the last entry of a key changes the value at
/// the position of that entry.
pub proof fn lemma_replaced_at<KV, VV>(all: AssocView<KV, VV>, key: KV, val: VV, at: int)
    requires
        all.wf(),
        0 <= at < all.keys.len(),
        all.keys[at] == key,
        forall|i: int| at < i < all.keys.len() ==> all.keys[i] != key,
    ensures
        all.replaced(key, val) == (AssocView { keys: all.keys, vals: all.vals.update(at, val) }),
    decreases all.keys.len(),
{
    let n = all.keys.len() - 1;
    if at < n {
        lemma_replaced_at(all.first(n), key, val, at);
        let before = all.first(n).replaced(key, val);
        assert(before.keys.push(all.keys.last()) =~= all.keys);
        assert(before.vals.push(all.vals.last()) =~= all.vals.update(at, val));
    }
}

} // verus!
