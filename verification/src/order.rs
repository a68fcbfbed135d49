//! The order in which entries are written, and sorting by it.
//!
//! Lists of audits and of exemptions are sorted before a document is
//! written, so that the written form does not depend on the order in which
//! entries were added. The order goes by what the values hold: texts in
//! the order of `str`, numbers by size, lists item by item, records field
//! by field, and semantic versions in the order of `semver`. For all but
//! what holds a version the order is proved to be strict and total.

use vstd::prelude::*;
use crate::format::{
    AuditEntry, AuditEntryView, AuditKind, AuditKindView, ExemptedDependency,
    ExemptedDependencyView,
};
use crate::model::{Duplicate, Same};
use crate::text::{
    lemma_text_lt_irreflexive, lemma_text_lt_total, lemma_text_lt_transitive, rank, text_lt, Rank,
};
use crate::version::{
    semver_precedes, version_before, Version, VersionView, VetVersion, VetVersionView,
};

verus! {

/// A type whose values are ordered by what they hold.
pub trait Ordered: DeepView + Sized {
    /// `a` comes before `b`.
    spec fn before(a: Self::V, b: Self::V) -> bool;

    fn precedes(&self, other: &Self) -> (r: bool)
        ensures
            r == Self::before(self.deep_view(), other.deep_view()),
    ;
}

/// A type whose order is strict and total.
pub trait StrictlyOrdered: Ordered {
    proof fn order_laws(a: Self::V, b: Self::V, c: Self::V)
        ensures
            !(Self::before(a, b) && Self::before(b, a)),
            Self::before(a, b) && Self::before(b, c) ==> Self::before(a, c),
            Self::before(a, b) || Self::before(b, a) || a == b,
    ;
}

impl Ordered for String {
    open spec fn before(a: Seq<char>, b: Seq<char>) -> bool {
        text_lt(a, b)
    }

    fn precedes(&self, other: &Self) -> (r: bool) {
        rank(self.as_str(), other.as_str()) == Rank::Before
    }
}

impl StrictlyOrdered for String {
    proof fn order_laws(a: Seq<char>, b: Seq<char>, c: Seq<char>) {
        lemma_text_lt_total(a, b);
        if text_lt(a, b) && text_lt(b, a) {
            lemma_text_lt_transitive(a, b, a);
            lemma_text_lt_irreflexive(a);
        }
        if text_lt(a, b) && text_lt(b, c) {
            lemma_text_lt_transitive(a, b, c);
        }
    }
}

impl Ordered for u64 {
    open spec fn before(a: u64, b: u64) -> bool {
        a < b
    }

    fn precedes(&self, other: &Self) -> (r: bool) {
        *self < *other
    }
}

impl StrictlyOrdered for u64 {
    proof fn order_laws(a: u64, b: u64, c: u64) {
    }
}

impl Ordered for bool {
    open spec fn before(a: bool, b: bool) -> bool {
        !a && b
    }

    fn precedes(&self, other: &Self) -> (r: bool) {
        !*self && *other
    }
}

impl StrictlyOrdered for bool {
    proof fn order_laws(a: bool, b: bool, c: bool) {
    }
}

impl<T: Ordered> Ordered for Option<T> {
    /// Nothing comes before something.
    open spec fn before(a: Option<T::V>, b: Option<T::V>) -> bool {
        match (a, b) {
            (None, Some(_)) => true,
            (Some(x), Some(y)) => T::before(x, y),
            _ => false,
        }
    }

    fn precedes(&self, other: &Self) -> (r: bool) {
        match (self, other) {
            (None, Some(_)) => true,
            (Some(x), Some(y)) => x.precedes(y),
            _ => false,
        }
    }
}

impl<T: StrictlyOrdered> StrictlyOrdered for Option<T> {
    proof fn order_laws(a: Option<T::V>, b: Option<T::V>, c: Option<T::V>) {
        if let (Some(x), Some(y)) = (a, b) {
            T::order_laws(x, y, x);
            if let Some(z) = c {
                T::order_laws(x, y, z);
            }
        }
    }
}

/// The order of two lists, read from position `i` on: the first position
/// where they differ decides, and a list comes before its extensions.
pub open spec fn list_lt_from<T: Ordered>(a: Seq<T::V>, b: Seq<T::V>, i: int) -> bool
    decreases b.len() - i,
{
    if i < 0 || i >= b.len() {
        false
    } else if i >= a.len() {
        true
    } else if a[i] != b[i] {
        T::before(a[i], b[i])
    } else {
        list_lt_from::<T>(a, b, i + 1)
    }
}

proof fn lemma_list_laws<T: StrictlyOrdered>(a: Seq<T::V>, b: Seq<T::V>, c: Seq<T::V>, i: int)
    requires
        0 <= i <= a.len(),
        i <= b.len(),
        forall|j: int| 0 <= j < i ==> a[j] == b[j],
    ensures
        !(list_lt_from::<T>(a, b, i) && list_lt_from::<T>(b, a, i)),
        list_lt_from::<T>(a, b, i) && list_lt_from::<T>(b, c, i) ==> list_lt_from::<T>(a, c, i),
        list_lt_from::<T>(a, b, i) || list_lt_from::<T>(b, a, i) || a == b,
    decreases a.len() - i,
{
    if i < a.len() && i < b.len() {
        T::order_laws(a[i], b[i], a[i]);
        if i < c.len() {
            T::order_laws(a[i], b[i], c[i]);
        }
        if a[i] == b[i] {
            lemma_list_laws::<T>(a, b, c, i + 1);
        }
    } else if i == a.len() && i == b.len() {
        assert(a =~= b);
    }
}

impl<T: StrictlyOrdered> Ordered for Vec<T> {
    open spec fn before(a: Seq<T::V>, b: Seq<T::V>) -> bool {
        list_lt_from::<T>(a, b, 0)
    }

    fn precedes(&self, other: &Self) -> (r: bool) {
        let mut i: usize = 0;
        while i < self.len() && i < other.len()
            invariant
                i <= self.len(),
                i <= other.len(),
                list_lt_from::<T>(self.deep_view(), other.deep_view(), 0) == list_lt_from::<T>(
                    self.deep_view(),
                    other.deep_view(),
                    i as int,
                ),
            decreases self.len() - i,
        {
            proof {
                T::order_laws(self[i as int].deep_view(), other[i as int].deep_view(), self[i as int].deep_view());
            }
            if self[i].precedes(&other[i]) {
                return true;
            }
            if other[i].precedes(&self[i]) {
                return false;
            }
            i = i + 1;
        }
        i < other.len()
    }
}

impl<T: StrictlyOrdered> StrictlyOrdered for Vec<T> {
    proof fn order_laws(a: Seq<T::V>, b: Seq<T::V>, c: Seq<T::V>) {
        lemma_list_laws::<T>(a, b, c, 0);
    }
}

impl Ordered for Version {
    /// The order of `semver`: by the three numbers, then by the tags.
    open spec fn before(a: VersionView, b: VersionView) -> bool {
        version_before(a, b)
    }

    fn precedes(&self, other: &Self) -> (r: bool) {
        semver_precedes(self, other)
    }
}

impl Ordered for VetVersion {
    /// By the semantic version, then by the revision.
    open spec fn before(a: VetVersionView, b: VetVersionView) -> bool {
        if a.semver != b.semver {
            Version::before(a.semver, b.semver)
        } else {
            Option::<String>::before(a.git_rev, b.git_rev)
        }
    }

    fn precedes(&self, other: &Self) -> (r: bool) {
        if !self.semver.same(&other.semver) {
            self.semver.precedes(&other.semver)
        } else {
            self.git_rev.precedes(&other.git_rev)
        }
    }
}

/// The place of a kind of audit among the kinds.
pub open spec fn kind_index(kind: AuditKindView) -> int {
    match kind {
        AuditKindView::Full { .. } => 0,
        AuditKindView::Delta { .. } => 1,
        AuditKindView::Violation { .. } => 2,
    }
}

impl Ordered for AuditKind {
    /// Full audits, then delta audits, then violations; within a kind, by
    /// the versions or the requirement.
    open spec fn before(a: AuditKindView, b: AuditKindView) -> bool {
        match (a, b) {
            (AuditKindView::Full { version: x }, AuditKindView::Full { version: y }) => VetVersion::before(
                x,
                y,
            ),
            (
                AuditKindView::Delta { from: x, to: p },
                AuditKindView::Delta { from: y, to: q },
            ) => if x != y {
                VetVersion::before(x, y)
            } else {
                VetVersion::before(p, q)
            },
            (
                AuditKindView::Violation { violation: x },
                AuditKindView::Violation { violation: y },
            ) => text_lt(x, y),
            _ => kind_index(a) < kind_index(b),
        }
    }

    fn precedes(&self, other: &Self) -> (r: bool) {
        match (self, other) {
            (AuditKind::Full { version: x }, AuditKind::Full { version: y }) => x.precedes(y),
            (AuditKind::Delta { from: x, to: p }, AuditKind::Delta { from: y, to: q }) => {
                if !x.same(y) {
                    x.precedes(y)
                } else {
                    p.precedes(q)
                }
            },
            (AuditKind::Violation { violation: x }, AuditKind::Violation { violation: y }) => {
                x.precedes(y)
            },
            (AuditKind::Full { .. }, _) => true,
            (AuditKind::Delta { .. }, AuditKind::Violation { .. }) => true,
            _ => false,
        }
    }
}

impl Ordered for AuditEntry {
    /// By the kind, then the criteria, then the authors, then the notes; of
    /// two entries that state the same audit, the one that is not fresh
    /// comes first.
    open spec fn before(a: AuditEntryView, b: AuditEntryView) -> bool {
        if a.kind != b.kind {
            AuditKind::before(a.kind, b.kind)
        } else if a.criteria != b.criteria {
            Vec::<String>::before(a.criteria, b.criteria)
        } else if a.who != b.who {
            Vec::<String>::before(a.who, b.who)
        } else if a.notes != b.notes {
            Option::<String>::before(a.notes, b.notes)
        } else {
            !a.is_fresh_import && b.is_fresh_import
        }
    }

    fn precedes(&self, other: &Self) -> (r: bool) {
        proof {
            let a = self.deep_view();
            let b = other.deep_view();
            Vec::<String>::order_laws(a.criteria, b.criteria, a.criteria);
            Vec::<String>::order_laws(a.who, b.who, a.who);
            Option::<String>::order_laws(a.notes, b.notes, a.notes);
        }
        if !self.kind.same(&other.kind) {
            self.kind.precedes(&other.kind)
        } else if self.criteria.precedes(&other.criteria) {
            true
        } else if other.criteria.precedes(&self.criteria) {
            false
        } else if self.who.precedes(&other.who) {
            true
        } else if other.who.precedes(&self.who) {
            false
        } else if self.notes.precedes(&other.notes) {
            true
        } else if other.notes.precedes(&self.notes) {
            false
        } else {
            !self.is_fresh_import && other.is_fresh_import
        }
    }
}

impl Ordered for ExemptedDependency {
    /// By the version, then the criteria, then whether an audit may be
    /// suggested, then the notes.
    open spec fn before(a: ExemptedDependencyView, b: ExemptedDependencyView) -> bool {
        if a.version != b.version {
            VetVersion::before(a.version, b.version)
        } else if a.criteria != b.criteria {
            Vec::<String>::before(a.criteria, b.criteria)
        } else if a.suggest != b.suggest {
            !a.suggest && b.suggest
        } else {
            Option::<String>::before(a.notes, b.notes)
        }
    }

    fn precedes(&self, other: &Self) -> (r: bool) {
        proof {
            let a = self.deep_view();
            let b = other.deep_view();
            Vec::<String>::order_laws(a.criteria, b.criteria, a.criteria);
        }
        if !self.version.same(&other.version) {
            self.version.precedes(&other.version)
        } else if self.criteria.precedes(&other.criteria) {
            true
        } else if other.criteria.precedes(&self.criteria) {
            false
        } else if self.suggest != other.suggest {
            !self.suggest && other.suggest
        } else {
            self.notes.precedes(&other.notes)
        }
    }
}

/// No item of the list comes before an earlier one.
pub open spec fn is_sorted<T: Ordered>(list: Seq<T::V>) -> bool {
    forall|i: int, j: int| 0 <= i < j < list.len() ==> !T::before(#[trigger] list[j], #[trigger] list[i])
}

/// Where `item` goes in a sorted list: behind the last item that it does
/// not come before.
pub open spec fn place<T: Ordered>(list: Seq<T::V>, item: T::V) -> int
    decreases list.len(),
{
    if list.len() == 0 {
        0
    } else if !T::before(item, list.last()) {
        list.len() as int
    } else {
        place::<T>(list.drop_last(), item)
    }
}

/// The list sorted: its items, each put in its place in turn. Items that
/// hold the same keep their order.
pub open spec fn sorted<T: Ordered>(list: Seq<T::V>) -> Seq<T::V>
    decreases list.len(),
{
    if list.len() == 0 {
        list
    } else {
        let rest = sorted::<T>(list.drop_last());
        rest.insert(place::<T>(rest, list.last()), list.last())
    }
}

proof fn lemma_place<T: Ordered>(list: Seq<T::V>, item: T::V)
    ensures
        0 <= place::<T>(list, item) <= list.len(),
        forall|i: int| place::<T>(list, item) <= i < list.len() ==> T::before(item, #[trigger] list[i]),
        place::<T>(list, item) > 0 ==> !T::before(item, list[place::<T>(list, item) - 1]),
    decreases list.len(),
{
    if list.len() > 0 && T::before(item, list.last()) {
        lemma_place::<T>(list.drop_last(), item);
        assert forall|i: int| place::<T>(list, item) <= i < list.len() implies T::before(
            item,
            #[trigger] list[i],
        ) by {
            if i < list.len() - 1 {
                assert(list.drop_last()[i] == list[i]);
            }
        }
    }
}

/// The sorted list holds the items of the list, each as often as the list
/// holds it, whatever the order is.
pub proof fn law_sorted_list_holds_the_items<T: Ordered>(list: Seq<T::V>)
    ensures
        sorted::<T>(list).to_multiset() == list.to_multiset(),
        sorted::<T>(list).len() == list.len(),
    decreases list.len(),
{
    broadcast use vstd::seq_lib::group_to_multiset_ensures;

    if list.len() > 0 {
        let rest = sorted::<T>(list.drop_last());
        let item = list.last();
        let p = place::<T>(rest, item);
        let out = rest.insert(p, item);
        law_sorted_list_holds_the_items::<T>(list.drop_last());
        lemma_place::<T>(rest, item);
        assert(list =~= list.drop_last().push(item));
        rest.to_multiset_ensures();
        list.drop_last().to_multiset_ensures();
        assert(out.to_multiset() =~= rest.to_multiset().insert(item)) by {
            lemma_insert_multiset(rest, p, item);
        }
    } else {
        assert(sorted::<T>(list) =~= list);
    }
}

/// Where the order is strict and total, the sorted list is in order.
pub proof fn law_sorted_list_is_in_order<T: StrictlyOrdered>(list: Seq<T::V>)
    ensures
        is_sorted::<T>(sorted::<T>(list)),
    decreases list.len(),
{
    if list.len() > 0 {
        let rest = sorted::<T>(list.drop_last());
        let item = list.last();
        let p = place::<T>(rest, item);
        let out = rest.insert(p, item);
        law_sorted_list_is_in_order::<T>(list.drop_last());
        lemma_place::<T>(rest, item);
        assert forall|i: int, j: int| 0 <= i < j < out.len() implies !T::before(
            #[trigger] out[j],
            #[trigger] out[i],
        ) by {
            if j == p {
                // out[i] is an item before the place: it does not come after `item`.
                T::order_laws(item, out[i], rest[p - 1]);
                T::order_laws(rest[p - 1], item, out[i]);
                if i < p - 1 {
                    assert(!T::before(rest[p - 1], rest[i]));
                }
            } else if i == p {
                T::order_laws(item, rest[j - 1], item);
            } else {
                let a = if i < p {
                    i
                } else {
                    i - 1
                };
                let b = if j < p {
                    j
                } else {
                    j - 1
                };
                assert(!T::before(rest[b], rest[a]));
            }
        }
    }
}

proof fn lemma_insert_multiset<A>(list: Seq<A>, at: int, item: A)
    requires
        0 <= at <= list.len(),
    ensures
        list.insert(at, item).to_multiset() == list.to_multiset().insert(item),
{
    broadcast use vstd::seq_lib::group_to_multiset_ensures;

    let front = list.subrange(0, at);
    let back = list.subrange(at, list.len() as int);
    assert(list =~= front + back);
    assert(list.insert(at, item) =~= front.push(item) + back);
    vstd::seq_lib::lemma_multiset_commutative(front, back);
    vstd::seq_lib::lemma_multiset_commutative(front.push(item), back);
    assert(front.push(item).to_multiset() =~= front.to_multiset().insert(item));
    assert(list.insert(at, item).to_multiset() =~= list.to_multiset().insert(item));
}

/// Sorts a list. Items that hold the same keep their order.
pub fn sort<T: Ordered + Duplicate>(list: &Vec<T>) -> (r: Vec<T>)
    ensures
        r.deep_view() == sorted::<T>(list.deep_view()),
{
    let mut out: Vec<T> = Vec::new();
    let mut i: usize = 0;
    assert(out.deep_view() =~= sorted::<T>(list.deep_view().take(0)));
    while i < list.len()
        invariant
            i <= list.len(),
            out.len() == i,
            out.deep_view() == sorted::<T>(list.deep_view().take(i as int)),
        decreases list.len() - i,
    {
        let item = list[i].duplicate();
        let ghost so_far = out.deep_view();
        assert(list.deep_view().take(i + 1).drop_last() =~= list.deep_view().take(i as int));
        assert(list.deep_view().take(i + 1).last() == item.deep_view());
        let mut p: usize = out.len();
        assert(so_far.take(p as int) =~= so_far);
        while p > 0 && item.precedes(&out[p - 1])
            invariant
                p <= out.len(),
                out.deep_view() == so_far,
                place::<T>(so_far, item.deep_view()) == place::<T>(
                    so_far.take(p as int),
                    item.deep_view(),
                ),
            decreases p,
        {
            assert(so_far.take(p as int).drop_last() =~= so_far.take(p - 1));
            assert(so_far.take(p as int).last() == out[p - 1].deep_view());
            p = p - 1;
        }
        proof {
            assert(so_far.take(so_far.len() as int) =~= so_far);
            if p > 0 {
                assert(so_far.take(p as int).last() == out[p - 1].deep_view());
            }
            assert(place::<T>(so_far, item.deep_view()) == p);
        }
        let ghost held = item.deep_view();
        out.insert(p, item);
        assert(out.deep_view() =~= so_far.insert(p as int, held));
        i = i + 1;
    }
    assert(list.deep_view().take(list.len() as int) =~= list.deep_view());
    out
}

} // verus!
