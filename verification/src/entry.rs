//! What audits and wildcard audits have in common when they are imported:
//! a list of criteria and a freshness flag.

use vstd::prelude::*;
use crate::format::{AuditEntry, AuditEntryView, WildcardEntry, WildcardEntryView};
use crate::model::Duplicate;

verus! {

/// An entry of an audits file that can be imported.
pub trait Imported: DeepView + Duplicate + Sized {
    spec fn criteria_of(v: Self::V) -> Seq<Seq<char>>;

    spec fn fresh_of(v: Self::V) -> bool;

    spec fn with_criteria(v: Self::V, criteria: Seq<Seq<char>>) -> Self::V;

    spec fn with_fresh(v: Self::V, fresh: bool) -> Self::V;

    /// How the two parts of an entry can be read and replaced.
    proof fn laws(v: Self::V, criteria: Seq<Seq<char>>, a: bool, b: bool)
        ensures
            Self::criteria_of(Self::with_criteria(v, criteria)) == criteria,
            Self::criteria_of(Self::with_fresh(v, a)) == Self::criteria_of(v),
            Self::fresh_of(Self::with_fresh(v, a)) == a,
            Self::fresh_of(Self::with_criteria(v, criteria)) == Self::fresh_of(v),
            Self::with_fresh(Self::with_fresh(v, a), b) == Self::with_fresh(v, b),
            Self::with_fresh(v, Self::fresh_of(v)) == v,
    ;

    fn criteria(&self) -> (r: &Vec<String>)
        ensures
            r.deep_view() == Self::criteria_of(self.deep_view()),
    ;

    fn is_fresh(&self) -> (r: bool)
        ensures
            r == Self::fresh_of(self.deep_view()),
    ;

    /// The entry with another list of criteria.
    fn replace_criteria(self, criteria: Vec<String>) -> (r: Self)
        ensures
            r.deep_view() == Self::with_criteria(self.deep_view(), criteria.deep_view()),
    ;

    /// The entry with the freshness flag set to `fresh`.
    fn mark(self, fresh: bool) -> (r: Self)
        ensures
            r.deep_view() == Self::with_fresh(self.deep_view(), fresh),
    ;

    /// Whether two entries state the same audit: they agree in everything
    /// but the freshness flag.
    fn same_audit(&self, other: &Self) -> (r: bool)
        ensures
            r == (Self::with_fresh(self.deep_view(), false) == Self::with_fresh(
                other.deep_view(),
                false,
            )),
    ;
}

impl Imported for AuditEntry {
    open spec fn criteria_of(v: AuditEntryView) -> Seq<Seq<char>> {
        v.criteria
    }

    open spec fn fresh_of(v: AuditEntryView) -> bool {
        v.is_fresh_import
    }

    open spec fn with_criteria(v: AuditEntryView, criteria: Seq<Seq<char>>) -> AuditEntryView {
        v.with_criteria(criteria)
    }

    open spec fn with_fresh(v: AuditEntryView, fresh: bool) -> AuditEntryView {
        v.with_fresh(fresh)
    }

    proof fn laws(v: AuditEntryView, criteria: Seq<Seq<char>>, a: bool, b: bool) {
    }

    fn criteria(&self) -> (r: &Vec<String>) {
        &self.criteria
    }

    fn is_fresh(&self) -> (r: bool) {
        self.is_fresh_import
    }

    fn replace_criteria(self, criteria: Vec<String>) -> (r: Self) {
        AuditEntry {
            who: self.who,
            criteria,
            kind: self.kind,
            notes: self.notes,
            is_fresh_import: self.is_fresh_import,
        }
    }

    fn mark(self, fresh: bool) -> (r: Self) {
        AuditEntry {
            who: self.who,
            criteria: self.criteria,
            kind: self.kind,
            notes: self.notes,
            is_fresh_import: fresh,
        }
    }

    fn same_audit(&self, other: &Self) -> (r: bool) {
        self.same_audit_as(other)
    }
}

impl Imported for WildcardEntry {
    open spec fn criteria_of(v: WildcardEntryView) -> Seq<Seq<char>> {
        v.criteria
    }

    open spec fn fresh_of(v: WildcardEntryView) -> bool {
        v.is_fresh_import
    }

    open spec fn with_criteria(v: WildcardEntryView, criteria: Seq<Seq<char>>) -> WildcardEntryView {
        v.with_criteria(criteria)
    }

    open spec fn with_fresh(v: WildcardEntryView, fresh: bool) -> WildcardEntryView {
        v.with_fresh(fresh)
    }

    proof fn laws(v: WildcardEntryView, criteria: Seq<Seq<char>>, a: bool, b: bool) {
    }

    fn criteria(&self) -> (r: &Vec<String>) {
        &self.criteria
    }

    fn is_fresh(&self) -> (r: bool) {
        self.is_fresh_import
    }

    fn replace_criteria(self, criteria: Vec<String>) -> (r: Self) {
        WildcardEntry {
            who: self.who,
            criteria,
            user_id: self.user_id,
            start: self.start,
            end: self.end,
            notes: self.notes,
            is_fresh_import: self.is_fresh_import,
        }
    }

    fn mark(self, fresh: bool) -> (r: Self) {
        WildcardEntry {
            who: self.who,
            criteria: self.criteria,
            user_id: self.user_id,
            start: self.start,
            end: self.end,
            notes: self.notes,
            is_fresh_import: fresh,
        }
    }

    fn same_audit(&self, other: &Self) -> (r: bool) {
        self.same_audit_as(other)
    }
}

/// How many entries of `list` state the audit that `entry` states.
pub open spec fn copies<E: Imported>(list: Seq<E::V>, entry: E::V) -> nat
    decreases list.len(),
{
    if list.len() == 0 {
        0
    } else {
        copies::<E>(list.drop_last(), entry) + if E::with_fresh(list.last(), false)
            == E::with_fresh(entry, false) {
            1nat
        } else {
            0nat
        }
    }
}

/// Whether the entry at position `at` of a fetched list is fresh, given the
/// list that the lock held: the lock holds fewer copies of its audit than
/// the fetch holds before it. So each entry of the lock takes the freshness
/// from one fetched copy of its audit, the earliest first.
pub open spec fn fresh_at<E: Imported>(fetched: Seq<E::V>, prior: Seq<E::V>, at: int) -> bool {
    copies::<E>(fetched.take(at), fetched[at]) >= copies::<E>(prior, fetched[at])
}

/// A fetched list with its freshness flags set against the list that the
/// lock held.
pub open spec fn marked<E: Imported>(fetched: Seq<E::V>, prior: Seq<E::V>) -> Seq<E::V> {
    Seq::new(
        fetched.len(),
        |at: int| E::with_fresh(fetched[at], fresh_at::<E>(fetched, prior, at)),
    )
}

/// Counts the entries of `list[..upto]` that state the audit of `entry`.
pub fn count_copies<E: Imported>(list: &Vec<E>, upto: usize, entry: &E) -> (n: usize)
    requires
        upto <= list.len(),
    ensures
        n == copies::<E>(list.deep_view().take(upto as int), entry.deep_view()),
{
    let mut n: usize = 0;
    let mut i: usize = 0;
    assert(list.deep_view().take(0) =~= Seq::empty());
    while i < upto
        invariant
            i <= upto <= list.len(),
            n <= i,
            n == copies::<E>(list.deep_view().take(i as int), entry.deep_view()),
        decreases upto - i,
    {
        assert(list.deep_view().take(i + 1).drop_last() =~= list.deep_view().take(i as int));
        assert(list.deep_view().take(i + 1).last() == list[i as int].deep_view());
        if list[i].same_audit(entry) {
            n = n + 1;
        }
        i = i + 1;
    }
    n
}

/// Sets the freshness flag of every entry of `fetched` against `prior`.
pub fn mark_fresh<E: Imported>(fetched: &Vec<E>, prior: &Vec<E>) -> (r: Vec<E>)
    ensures
        r.deep_view() == marked::<E>(fetched.deep_view(), prior.deep_view()),
{
    let mut out: Vec<E> = Vec::new();
    let mut at: usize = 0;
    while at < fetched.len()
        invariant
            at <= fetched.len(),
            out.deep_view() == marked::<E>(fetched.deep_view(), prior.deep_view()).take(at as int),
        decreases fetched.len() - at,
    {
        let entry = &fetched[at];
        let before = count_copies(fetched, at, entry);
        assert(prior.deep_view().take(prior.len() as int) =~= prior.deep_view());
        let held = count_copies(prior, prior.len(), entry);
        let ghost so_far = out.deep_view();
        let item = entry.duplicate().mark(before >= held);
        let ghost made = item.deep_view();
        out.push(item);
        assert(out.deep_view() =~= so_far.push(made));
        assert(out.deep_view() =~= marked::<E>(fetched.deep_view(), prior.deep_view()).take(
            at + 1,
        ));
        at = at + 1;
    }
    assert(out.deep_view() =~= marked::<E>(fetched.deep_view(), prior.deep_view()));
    out
}

} // verus!
