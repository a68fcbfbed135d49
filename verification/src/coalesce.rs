//! Doing a piece of work once for all who ask for it at the same time.
//!
//! Fetching a package and computing a diff are slow, and many tasks may ask
//! for the same one at once. Each piece of work has a key. A task that
//! needs the work claims the key: the first claimant is told to start the
//! work, the claimants that come while it runs are told to wait, and once
//! the work has succeeded every claimant is given its result. Work that
//! failed leaves the key idle, so that the next claimant starts it again.
//!
//! The caller keeps the coalescer under its lock and never holds the lock
//! while the work runs.

use vstd::prelude::*;
use crate::assoc::{Assoc, AssocView};
use crate::model::{Duplicate, Same};

verus! {

/// The state of one piece of work.
#[derive(Clone, Debug, PartialEq, Eq)]
pub enum Cell<T> {
    /// Nobody is doing the work.
    Idle,
    /// Somebody has started the work and has not settled it yet.
    Running,
    /// The work has succeeded with this result.
    Ready(T),
}

pub enum CellView<TV> {
    Idle,
    Running,
    Ready(TV),
}

impl<T: DeepView> DeepView for Cell<T> {
    type V = CellView<T::V>;

    open spec fn deep_view(&self) -> CellView<T::V> {
        match self {
            Cell::Idle => CellView::Idle,
            Cell::Running => CellView::Running,
            Cell::Ready(t) => CellView::Ready(t.deep_view()),
        }
    }
}

/// The answer to a claim.
#[derive(Clone, Debug, PartialEq, Eq)]
pub enum Claim<T> {
    /// Do the work, then settle it.
    Start,
    /// The work is running: wait until it is settled, then claim again.
    Wait,
    /// The work is done, with this result.
    Ready(T),
}

pub enum ClaimView<TV> {
    Start,
    Wait,
    Ready(TV),
}

impl<T: DeepView> DeepView for Claim<T> {
    type V = ClaimView<T::V>;

    open spec fn deep_view(&self) -> ClaimView<T::V> {
        match self {
            Claim::Start => ClaimView::Start,
            Claim::Wait => ClaimView::Wait,
            Claim::Ready(t) => ClaimView::Ready(t.deep_view()),
        }
    }
}

/// The states of the pieces of work that have been claimed.
#[derive(Clone, Debug, PartialEq, Eq)]
pub struct Coalescer<K, T> {
    pub cells: Assoc<K, Cell<T>>,
}

pub type Cells<KV, TV> = AssocView<KV, CellView<TV>>;

/// The state of the work with the given key. Work that was never claimed
/// is idle.
pub open spec fn cell_of<KV, TV>(cells: Cells<KV, TV>, key: KV) -> CellView<TV> {
    match cells.get(key) {
        Some(cell) => cell,
        None => CellView::Idle,
    }
}

/// The cells after a claim of `key`.
pub open spec fn after_claim<KV, TV>(cells: Cells<KV, TV>, key: KV) -> Cells<KV, TV> {
    match cell_of(cells, key) {
        CellView::Idle => cells.put(key, CellView::Running),
        _ => cells,
    }
}

/// The answer to a claim of `key`.
pub open spec fn answer_to<KV, TV>(cells: Cells<KV, TV>, key: KV) -> ClaimView<TV> {
    match cell_of(cells, key) {
        CellView::Idle => ClaimView::Start,
        CellView::Running => ClaimView::Wait,
        CellView::Ready(result) => ClaimView::Ready(result),
    }
}

/// The cells after the work of `key` was settled: ready with its result,
/// or idle again if it failed.
pub open spec fn after_settle<KV, TV>(cells: Cells<KV, TV>, key: KV, outcome: Option<TV>) -> Cells<
    KV,
    TV,
> {
    match outcome {
        Some(result) => cells.put(key, CellView::Ready(result)),
        None => cells.put(key, CellView::Idle),
    }
}

impl<K: Same + Duplicate, T: Duplicate> Coalescer<K, T> {
    pub open spec fn wf(&self) -> bool {
        self.cells.wf()
    }

    pub fn new() -> (r: Self)
        ensures
            r.wf(),
            r.cells.deep_view() == Cells::<K::V, T::V>::empty(),
    {
        Coalescer { cells: Assoc::new() }
    }

    /// Claims the work of `key`.
    pub fn claim(&mut self, key: &K) -> (r: Claim<T>)
        requires
            old(self).wf(),
        ensures
            final(self).wf(),
            final(self).cells.deep_view() == after_claim(
                old(self).cells.deep_view(),
                key.deep_view(),
            ),
            r.deep_view() == answer_to(old(self).cells.deep_view(), key.deep_view()),
    {
        match self.cells.get(key) {
            Some(Cell::Ready(result)) => Claim::Ready(result.duplicate()),
            Some(Cell::Running) => Claim::Wait,
            _ => {
                self.cells.insert(key, Cell::Running);
                Claim::Start
            },
        }
    }

    /// Settles the work of `key`: with its result, or with `None` if it
    /// failed.
    pub fn settle(&mut self, key: &K, outcome: Option<T>)
        requires
            old(self).wf(),
        ensures
            final(self).wf(),
            final(self).cells.deep_view() == after_settle(
                old(self).cells.deep_view(),
                key.deep_view(),
                outcome.deep_view(),
            ),
    {
        match outcome {
            Some(result) => self.cells.insert(key, Cell::Ready(result)),
            None => self.cells.insert(key, Cell::Idle),
        }
    }
}

/// What may happen to a coalescer.
pub enum Event<KV, TV> {
    Claim(KV),
    Settle(KV, Option<TV>),
}

/// The cells after one event.
pub open spec fn after_event<KV, TV>(cells: Cells<KV, TV>, event: Event<KV, TV>) -> Cells<KV, TV> {
    match event {
        Event::Claim(key) => after_claim(cells, key),
        Event::Settle(key, outcome) => after_settle(cells, key, outcome),
    }
}

/// The cells after a run of events.
pub open spec fn after_events<KV, TV>(cells: Cells<KV, TV>, events: Seq<Event<KV, TV>>) -> Cells<
    KV,
    TV,
>
    decreases events.len(),
{
    if events.len() == 0 {
        cells
    } else {
        after_events(after_event(cells, events.first()), events.drop_first())
    }
}

/// Work is settled only while it runs: by the one who was told to start
/// it.
pub open spec fn orderly<KV, TV>(cells: Cells<KV, TV>, events: Seq<Event<KV, TV>>) -> bool
    decreases events.len(),
{
    if events.len() == 0 {
        true
    } else {
        &&& events.first() matches Event::Settle(key, _) ==> cell_of(cells, key)
            is Running
        &&& orderly(after_event(cells, events.first()), events.drop_first())
    }
}

/// The work of `key` does not fail in the run.
pub open spec fn unfailing<KV, TV>(events: Seq<Event<KV, TV>>, key: KV) -> bool {
    forall|i: int|
        0 <= i < events.len() ==> !(#[trigger] events[i] matches Event::Settle(k, outcome) && k
            == key && outcome is None)
}

/// How often a claimant of `key` is told to start the work in a run.
pub open spec fn starts<KV, TV>(cells: Cells<KV, TV>, events: Seq<Event<KV, TV>>, key: KV) -> nat
    decreases events.len(),
{
    if events.len() == 0 {
        0
    } else {
        let rest = starts(after_event(cells, events.first()), events.drop_first(), key);
        if events.first() == Event::<KV, TV>::Claim(key) && answer_to(cells, key) is Start {
            rest + 1
        } else {
            rest
        }
    }
}

/// The answers that the claimants of `key` are given in a run.
pub open spec fn answers<KV, TV>(cells: Cells<KV, TV>, events: Seq<Event<KV, TV>>, key: KV) -> Seq<
    ClaimView<TV>,
>
    decreases events.len(),
{
    if events.len() == 0 {
        Seq::empty()
    } else {
        let rest = answers(after_event(cells, events.first()), events.drop_first(), key);
        if events.first() == Event::<KV, TV>::Claim(key) {
            seq![answer_to(cells, key)] + rest
        } else {
            rest
        }
    }
}

/// An event about one key leaves the work of every other key as it was.
pub proof fn lemma_other_key<KV, TV>(cells: Cells<KV, TV>, event: Event<KV, TV>, key: KV)
    requires
        cells.wf(),
        match event {
            Event::Claim(k) => k != key,
            Event::Settle(k, _) => k != key,
        },
    ensures
        after_event(cells, event).wf(),
        cell_of(after_event(cells, event), key) == cell_of(cells, key),
{
    match event {
        Event::Claim(k) => {
            cells.lemma_put(k, CellView::Running, key);
        },
        Event::Settle(k, outcome) => {
            cells.lemma_put(k, CellView::Ready(outcome->0), key);
            cells.lemma_put(k, CellView::Idle, key);
        },
    }
}

/// What an event about a key does to the work of that key.
pub proof fn lemma_same_key<KV, TV>(cells: Cells<KV, TV>, event: Event<KV, TV>, key: KV)
    requires
        cells.wf(),
        match event {
            Event::Claim(k) => k == key,
            Event::Settle(k, _) => k == key,
        },
    ensures
        after_event(cells, event).wf(),
        cell_of(after_event(cells, event), key) == match event {
            Event::Claim(_) => match cell_of(cells, key) {
                CellView::Idle => CellView::Running,
                cell => cell,
            },
            Event::Settle(_, Some(result)) => CellView::Ready(result),
            Event::Settle(_, None) => CellView::Idle,
        },
{
    cells.lemma_put(key, CellView::Running, key);
    cells.lemma_put(key, CellView::Idle, key);
    if let Event::Settle(_, Some(result)) = event {
        cells.lemma_put(key, CellView::Ready(result), key);
    }
}

/// Work is started at most once. In a run of claims and settlements of
/// any keys, in any order, in which the work of `key` does not fail, at
/// most one claimant of `key` is told to start the work; none is, if the
/// work was running or done before the run. So however many tasks fetch
/// one version of a package, or ask for one diff, at the same time, the
/// package is unpacked once and the diff is computed once.
pub proof fn law_work_starts_once<KV, TV>(
    cells: Cells<KV, TV>,
    events: Seq<Event<KV, TV>>,
    key: KV,
)
    requires
        cells.wf(),
        orderly(cells, events),
        unfailing(events, key),
    ensures
        starts(cells, events, key) <= 1,
        !(cell_of(cells, key) is Idle) ==> starts(cells, events, key) == 0,
        !(cell_of(cells, key) is Idle) ==> !(cell_of(after_events(cells, events), key) is Idle),
    decreases events.len(),
{
    if events.len() > 0 {
        let event = events.first();
        let next = after_event(cells, event);
        let about_key = match event {
            Event::Claim(k) => k == key,
            Event::Settle(k, _) => k == key,
        };
        if about_key {
            lemma_same_key(cells, event, key);
        } else {
            lemma_other_key(cells, event, key);
        }
        assert(unfailing(events.drop_first(), key)) by {
            assert forall|i: int| 0 <= i < events.drop_first().len() implies !(
            #[trigger] events.drop_first()[i] matches Event::Settle(k, outcome) && k == key
                && outcome is None) by {
                assert(events.drop_first()[i] == events[i + 1]);
            }
        }
        assert(events[0] == event);
        law_work_starts_once(next, events.drop_first(), key);
    }
}

/// Work that is asked for is started. In a run in which the work of `key`
/// does not fail, and which begins when that work is idle, exactly one
/// claimant of `key` is told to start the work, provided that there is a
/// claimant of `key` at all.
pub proof fn law_work_starts_exactly_once<KV, TV>(
    cells: Cells<KV, TV>,
    events: Seq<Event<KV, TV>>,
    key: KV,
    claimant: int,
)
    requires
        cells.wf(),
        orderly(cells, events),
        unfailing(events, key),
        cell_of(cells, key) is Idle,
        0 <= claimant < events.len(),
        events[claimant] == Event::<KV, TV>::Claim(key),
    ensures
        starts(cells, events, key) == 1,
    decreases events.len(),
{
    let event = events.first();
    let next = after_event(cells, event);
    assert(events[0] == event);
    assert(unfailing(events.drop_first(), key)) by {
        assert forall|i: int| 0 <= i < events.drop_first().len() implies !(
        #[trigger] events.drop_first()[i] matches Event::Settle(k, outcome) && k == key
            && outcome is None) by {
            assert(events.drop_first()[i] == events[i + 1]);
        }
    }
    let about_key = match event {
        Event::Claim(k) => k == key,
        Event::Settle(k, _) => k == key,
    };
    if about_key {
        lemma_same_key(cells, event, key);
        law_work_starts_once(next, events.drop_first(), key);
    } else {
        lemma_other_key(cells, event, key);
        assert(events.drop_first()[claimant - 1] == events[claimant]);
        law_work_starts_exactly_once(next, events.drop_first(), key, claimant - 1);
    }
}

/// Once work is done, every claimant is given its result. In a run of
/// claims and settlements of any keys that begins when the work of `key`
/// is done with `result`, every claimant of `key` is given `result`. So all
/// who fetch one version of a package are given the same directory, and
/// all who ask for one diff the same numbers.
pub proof fn law_result_is_shared<KV, TV>(
    cells: Cells<KV, TV>,
    events: Seq<Event<KV, TV>>,
    key: KV,
    result: TV,
)
    requires
        cells.wf(),
        orderly(cells, events),
        cell_of(cells, key) == CellView::Ready(result),
    ensures
        forall|i: int|
            0 <= i < answers(cells, events, key).len() ==> #[trigger] answers(cells, events, key)[i]
                == ClaimView::Ready(result),
        cell_of(after_events(cells, events), key) == CellView::Ready(result),
    decreases events.len(),
{
    if events.len() > 0 {
        let event = events.first();
        let next = after_event(cells, event);
        let about_key = match event {
            Event::Claim(k) => k == key,
            Event::Settle(k, _) => k == key,
        };
        if about_key {
            lemma_same_key(cells, event, key);
        } else {
            lemma_other_key(cells, event, key);
        }
        law_result_is_shared(next, events.drop_first(), key, result);
        let rest = answers(next, events.drop_first(), key);
        assert forall|i: int| 0 <= i < answers(cells, events, key).len() implies #[trigger] answers(
            cells,
            events,
            key,
        )[i] == ClaimView::Ready(result) by {
            if event == Event::<KV, TV>::Claim(key) {
                if i > 0 {
                    assert(answers(cells, events, key)[i] == rest[i - 1]);
                }
            }
        }
    }
}

/// All claimants are given the same result. In a run of claims and
/// settlements of any keys, in any order, any two claimants of `key` that
/// are given a result are given the same one.
pub proof fn law_claimants_agree<KV, TV>(
    cells: Cells<KV, TV>,
    events: Seq<Event<KV, TV>>,
    key: KV,
    one: int,
    other: int,
)
    requires
        cells.wf(),
        orderly(cells, events),
        0 <= one < answers(cells, events, key).len(),
        0 <= other < answers(cells, events, key).len(),
        answers(cells, events, key)[one] is Ready,
        answers(cells, events, key)[other] is Ready,
    ensures
        answers(cells, events, key)[one] == answers(cells, events, key)[other],
    decreases events.len(),
{
    if let CellView::Ready(result) = cell_of(cells, key) {
        law_result_is_shared(cells, events, key, result);
    } else {
        let event = events.first();
        let next = after_event(cells, event);
        let rest = answers(next, events.drop_first(), key);
        assert(events[0] == event);
        let about_key = match event {
            Event::Claim(k) => k == key,
            Event::Settle(k, _) => k == key,
        };
        if about_key {
            lemma_same_key(cells, event, key);
        } else {
            lemma_other_key(cells, event, key);
        }
        if event == Event::<KV, TV>::Claim(key) {
            assert(answers(cells, events, key)[0] == answer_to(cells, key));
            assert(answers(cells, events, key)[one] == rest[one - 1]);
            assert(answers(cells, events, key)[other] == rest[other - 1]);
            law_claimants_agree(next, events.drop_first(), key, one - 1, other - 1);
        } else {
            law_claimants_agree(next, events.drop_first(), key, one, other);
        }
    }
}

/// While work runs, its claimants wait. A claim of `key` while its work is
/// running is answered with `Wait` and changes nothing.
pub proof fn law_claimants_wait<KV, TV>(cells: Cells<KV, TV>, key: KV)
    requires
        cell_of(cells, key) is Running,
    ensures
        answer_to(cells, key) is Wait,
        after_claim(cells, key) == cells,
{
}

} // verus!
