//! Sets of criteria over a vocabulary, and the translation of a peer's
//! criteria into local ones.
//!
//! A vocabulary is the list of the criteria names that a document knows: the
//! two reserved names first, then the names of its own criteria in key
//! order. A `CriteriaSet` marks names of one vocabulary by their positions.

use vstd::prelude::*;
use crate::format::CriteriaEntry;
use crate::model::Duplicate;
use crate::table::{Table, TableView};
use crate::text::{list_has, same_text};

verus! {

pub const SAFE_TO_RUN: &'static str = "safe-to-run";

pub const SAFE_TO_DEPLOY: &'static str = "safe-to-deploy";

pub open spec fn safe_to_run() -> Seq<char> {
    "safe-to-run"@
}

pub open spec fn safe_to_deploy() -> Seq<char> {
    "safe-to-deploy"@
}

/// Whether `name` is one of the two names that every vocabulary holds.
pub open spec fn is_reserved(name: Seq<char>) -> bool {
    name == safe_to_run() || name == safe_to_deploy()
}

/// The keys that are not reserved names, in their order.
pub open spec fn own_names(keys: Seq<Seq<char>>) -> Seq<Seq<char>> {
    keys.filter(|k: Seq<char>| !is_reserved(k))
}

/// The vocabulary of a document whose criteria table has the given keys.
pub open spec fn vocabulary(keys: Seq<Seq<char>>) -> Seq<Seq<char>> {
    seq![safe_to_run(), safe_to_deploy()] + own_names(keys)
}

/// Whether `name` is known where the criteria table has the given keys.
pub open spec fn is_known(keys: Seq<Seq<char>>, name: Seq<char>) -> bool {
    is_reserved(name) || keys.contains(name)
}

/// The names that `bits` marks, in the order of `names`.
pub open spec fn select(names: Seq<Seq<char>>, bits: Seq<bool>) -> Seq<Seq<char>>
    decreases names.len(),
{
    if names.len() == 0 || bits.len() != names.len() {
        Seq::empty()
    } else if bits.last() {
        select(names.drop_last(), bits.drop_last()).push(names.last())
    } else {
        select(names.drop_last(), bits.drop_last())
    }
}

/// Marking the names that satisfy a predicate selects what the predicate
/// filters.
pub proof fn lemma_select_is_filter(
    names: Seq<Seq<char>>,
    bits: Seq<bool>,
    pred: spec_fn(Seq<char>) -> bool,
)
    requires
        bits.len() == names.len(),
        forall|i: int| 0 <= i < names.len() ==> bits[i] == pred(#[trigger] names[i]),
    ensures
        select(names, bits) == names.filter(pred),
    decreases names.len(),
{
    reveal(Seq::filter);
    if names.len() > 0 {
        lemma_select_is_filter(names.drop_last(), bits.drop_last(), pred);
    }
}

/// The vocabulary holds exactly the known names.
pub proof fn lemma_vocabulary_known(keys: Seq<Seq<char>>, name: Seq<char>)
    ensures
        vocabulary(keys).contains(name) <==> is_known(keys, name),
{
    broadcast use vstd::seq_lib::group_filter_ensures;

    let pred = |k: Seq<char>| !is_reserved(k);
    let voc = vocabulary(keys);
    let own = own_names(keys);
    assert(voc[0] == safe_to_run());
    assert(voc[1] == safe_to_deploy());
    if is_known(keys, name) {
        if !is_reserved(name) {
            let i = keys.index_of(name);
            assert(pred(keys[i]));
            assert(own.contains(keys[i]));
            let j = own.index_of(name);
            assert(voc[j + 2] == name);
        }
    }
    if voc.contains(name) {
        let j = voc.index_of(name);
        if j >= 2 {
            assert(own[j - 2] == name);
            assert(own.contains(name));
            keys.lemma_filter_contains_rev(pred, name);
        }
    }
}

/// A set of criteria of one vocabulary: `bits[i]` tells whether the name at
/// position `i` of the vocabulary is in the set.
#[derive(Clone, Debug, PartialEq, Eq)]
pub struct CriteriaSet {
    pub bits: Vec<bool>,
}

impl View for CriteriaSet {
    type V = Seq<bool>;

    open spec fn view(&self) -> Seq<bool> {
        self.bits@
    }
}

impl CriteriaSet {
    /// The set of `len` positions that marks none.
    pub fn none(len: usize) -> (r: CriteriaSet)
        ensures
            r@.len() == len,
            forall|i: int| 0 <= i < len ==> !r@[i],
    {
        let mut bits: Vec<bool> = Vec::new();
        let mut i: usize = 0;
        while i < len
            invariant
                i <= len,
                bits@.len() == i,
                forall|j: int| 0 <= j < i ==> !bits@[j],
            decreases len - i,
        {
            bits.push(false);
            i = i + 1;
        }
        CriteriaSet { bits }
    }

    /// Adds to `self` what `other` marks.
    pub fn unioned_with(&mut self, other: &CriteriaSet)
        requires
            old(self)@.len() == other@.len(),
        ensures
            final(self)@.len() == old(self)@.len(),
            forall|i: int|
                0 <= i < old(self)@.len() ==> #[trigger] final(self)@[i] == (old(self)@[i]
                    || other@[i]),
    {
        let ghost start = self@;
        let mut i: usize = 0;
        while i < self.bits.len()
            invariant
                i <= self.bits.len(),
                start == old(self)@,
                self@.len() == start.len(),
                self@.len() == other@.len(),
                forall|j: int| 0 <= j < i ==> #[trigger] self@[j] == (start[j] || other@[j]),
                forall|j: int| i <= j < self@.len() ==> #[trigger] self@[j] == start[j],
            decreases self.bits.len() - i,
        {
            if other.bits[i] {
                self.bits.set(i, true);
            }
            i = i + 1;
        }
    }

    /// Whether position `i` is marked.
    pub fn has_criteria(&self, i: usize) -> (r: bool)
        requires
            i < self@.len(),
        ensures
            r == self@[i as int],
    {
        self.bits[i]
    }

    /// The marked positions, in increasing order.
    pub fn indices(&self) -> (r: Vec<usize>)
        ensures
            forall|k: int| 0 <= k < r@.len() ==> r@[k] < self@.len() && self@[r@[k] as int],
            forall|i: int| 0 <= i < self@.len() && self@[i] ==> r@.contains(i as usize),
            forall|a: int, b: int| 0 <= a < b < r@.len() ==> r@[a] < r@[b],
    {
        let mut out: Vec<usize> = Vec::new();
        let mut i: usize = 0;
        while i < self.bits.len()
            invariant
                i <= self.bits.len(),
                forall|k: int| 0 <= k < out@.len() ==> out@[k] < i && self@[out@[k] as int],
                forall|j: int| 0 <= j < i && self@[j] ==> out@.contains(j as usize),
                forall|a: int, b: int| 0 <= a < b < out@.len() ==> out@[a] < out@[b],
            decreases self.bits.len() - i,
        {
            if self.bits[i] {
                let ghost before = out@;
                out.push(i);
                assert(out@[before.len() as int] == i);
                assert forall|j: int| 0 <= j < i + 1 && self@[j] implies out@.contains(
                    j as usize,
                ) by {
                    if j < i {
                        let k = before.index_of(j as usize);
                        assert(out@[k] == j as usize);
                    }
                }
            }
            i = i + 1;
        }
        out
    }
}

/// The vocabulary of one document.
#[derive(Clone, Debug, PartialEq, Eq)]
pub struct CriteriaMapper {
    pub names: Vec<String>,
}

impl View for CriteriaMapper {
    type V = Seq<Seq<char>>;

    open spec fn view(&self) -> Seq<Seq<char>> {
        self.names.deep_view()
    }
}

impl CriteriaMapper {
    /// The mapper of the document whose criteria are `criteria`.
    pub fn new(criteria: &Table<CriteriaEntry>) -> (r: CriteriaMapper)
        requires
            criteria.wf(),
        ensures
            r@ == vocabulary(criteria.deep_view().keys),
    {
        let mut names: Vec<String> = Vec::new();
        names.push(SAFE_TO_RUN.to_owned());
        names.push(SAFE_TO_DEPLOY.to_owned());
        let ghost keys = criteria.deep_view().keys;
        let ghost pred = |k: Seq<char>| !is_reserved(k);
        assert(names.deep_view() =~= seq![safe_to_run(), safe_to_deploy()]);
        assert(keys.take(0).filter(pred) =~= Seq::empty()) by {
            reveal(Seq::filter);
        }
        let mut i: usize = 0;
        while i < criteria.len()
            invariant
                criteria.wf(),
                keys == criteria.deep_view().keys,
                pred == (|k: Seq<char>| !is_reserved(k)),
                i <= criteria.deep_view().len(),
                names.deep_view() == seq![safe_to_run(), safe_to_deploy()] + keys.take(
                    i as int,
                ).filter(pred),
            decreases criteria.deep_view().len() - i,
        {
            let key = criteria.key_at(i);
            let ghost before = names.deep_view();
            assert(keys.take(i + 1).drop_last() =~= keys.take(i as int));
            assert(keys.take(i + 1).last() == keys[i as int]);
            assert(keys.take(i + 1).filter(pred) == if pred(keys[i as int]) {
                keys.take(i as int).filter(pred).push(keys[i as int])
            } else {
                keys.take(i as int).filter(pred)
            }) by {
                reveal(Seq::filter);
            }
            if !same_text(key.as_str(), SAFE_TO_RUN) && !same_text(key.as_str(), SAFE_TO_DEPLOY) {
                names.push(key.clone());
                assert(names.deep_view() =~= before.push(key@));
                assert(names.deep_view() =~= seq![safe_to_run(), safe_to_deploy()] + keys.take(
                    i + 1,
                ).filter(pred));
            }
            i = i + 1;
        }
        assert(keys.take(keys.len() as int) =~= keys);
        CriteriaMapper { names }
    }

    /// How many names the vocabulary holds.
    pub fn len(&self) -> (n: usize)
        ensures
            n == self@.len(),
    {
        self.names.len()
    }

    /// The names of the vocabulary, in its order.
    pub fn all_criteria_names(&self) -> (r: Vec<String>)
        ensures
            r.deep_view() == self@,
    {
        self.names.duplicate()
    }

    /// The name at position `i`.
    pub fn criteria_name(&self, i: usize) -> (r: &String)
        requires
            i < self@.len(),
        ensures
            r@ == self@[i as int],
    {
        &self.names[i]
    }

    /// The empty set of this vocabulary.
    pub fn no_criteria(&self) -> (r: CriteriaSet)
        ensures
            r@.len() == self@.len(),
            forall|i: int| 0 <= i < r@.len() ==> !r@[i],
    {
        CriteriaSet::none(self.names.len())
    }

    /// The set of the names of this vocabulary that `list` holds. A name
    /// that the vocabulary lacks adds nothing.
    pub fn criteria_from_list(&self, list: &Vec<String>) -> (r: CriteriaSet)
        ensures
            r@.len() == self@.len(),
            forall|i: int| 0 <= i < r@.len() ==> r@[i] == list.deep_view().contains(self@[i]),
    {
        let mut bits: Vec<bool> = Vec::new();
        let mut i: usize = 0;
        while i < self.names.len()
            invariant
                i <= self.names.len(),
                bits@.len() == i,
                forall|j: int| 0 <= j < i ==> bits@[j] == list.deep_view().contains(self@[j]),
            decreases self.names.len() - i,
        {
            bits.push(list_has(list, self.names[i].as_str()));
            i = i + 1;
        }
        CriteriaSet { bits }
    }

    /// The names that `set` marks, in the order of the vocabulary.
    pub fn criteria_names(&self, set: &CriteriaSet) -> (r: Vec<String>)
        requires
            set@.len() == self@.len(),
        ensures
            r.deep_view() == select(self@, set@),
    {
        let mut out: Vec<String> = Vec::new();
        let mut i: usize = 0;
        assert(select(self@.take(0), set@.take(0)) =~= Seq::empty());
        while i < self.names.len()
            invariant
                i <= self.names.len(),
                set@.len() == self@.len(),
                out.deep_view() == select(self@.take(i as int), set@.take(i as int)),
            decreases self.names.len() - i,
        {
            let ghost before = out.deep_view();
            assert(self@.take(i + 1).drop_last() =~= self@.take(i as int));
            assert(set@.take(i + 1).drop_last() =~= set@.take(i as int));
            if set.bits[i] {
                out.push(self.names[i].clone());
                assert(out.deep_view() =~= before.push(self@[i as int]));
            }
            i = i + 1;
        }
        assert(self@.take(self@.len() as int) =~= self@);
        assert(set@.take(set@.len() as int) =~= set@);
        out
    }
}

/// The local criteria that the criterion `name` of a peer stands for: what
/// the criteria map gives for it; without an entry there, a reserved name
/// stands for itself and any other name for nothing.
pub open spec fn local_image(map: TableView<Seq<Seq<char>>>, name: Seq<char>) -> Seq<Seq<char>> {
    if map.has(name) {
        map.at(name)
    } else if is_reserved(name) {
        seq![name]
    } else {
        Seq::empty()
    }
}

/// Whether the local criterion `local` is what some criterion of `list`
/// stands for, among those that the peer's vocabulary `foreign` holds.
pub open spec fn reaches(
    foreign: Seq<Seq<char>>,
    map: TableView<Seq<Seq<char>>>,
    list: Seq<Seq<char>>,
    local: Seq<char>,
) -> bool {
    exists|f: Seq<char>|
        foreign.contains(f) && list.contains(f) && #[trigger] local_image(map, f).contains(local)
}

/// The test that `localized` filters the local vocabulary by.
pub open spec fn reached(
    foreign: Seq<Seq<char>>,
    map: TableView<Seq<Seq<char>>>,
    list: Seq<Seq<char>>,
) -> spec_fn(Seq<char>) -> bool {
    |local: Seq<char>| reaches(foreign, map, list, local)
}

/// A list of a peer's criteria in local terms: the local criteria that its
/// members stand for, in the order of the local vocabulary.
pub open spec fn localized(
    local: Seq<Seq<char>>,
    foreign: Seq<Seq<char>>,
    map: TableView<Seq<Seq<char>>>,
    list: Seq<Seq<char>>,
) -> Seq<Seq<char>> {
    local.filter(reached(foreign, map, list))
}

/// Every name of a localized list belongs to the local vocabulary.
pub proof fn lemma_localized_is_local(
    local: Seq<Seq<char>>,
    foreign: Seq<Seq<char>>,
    map: TableView<Seq<Seq<char>>>,
    list: Seq<Seq<char>>,
    name: Seq<char>,
)
    requires
        localized(local, foreign, map, list).contains(name),
    ensures
        local.contains(name),
{
    local.lemma_filter_contains_rev(reached(foreign, map, list), name);
}

/// The translation of one peer's criteria into local ones.
pub struct CriteriaTranslator {
    pub local: CriteriaMapper,
    pub foreign: CriteriaMapper,
    /// For each position of the foreign vocabulary, the local set it stands
    /// for.
    pub images: Vec<CriteriaSet>,
    /// The criteria map that the images were made from.
    pub map: Ghost<TableView<Seq<Seq<char>>>>,
}

impl CriteriaTranslator {
    /// The images are those that the criteria map gives.
    pub open spec fn wf(&self) -> bool {
        &&& self.images@.len() == self.foreign@.len()
        &&& forall|i: int|
            0 <= i < self.images@.len() ==> (#[trigger] self.images@[i])@.len() == self.local@.len()
        &&& forall|i: int, j: int|
            0 <= i < self.images@.len() && 0 <= j < self.local@.len() ==> (
            #[trigger] self.images@[i]@[j]) == local_image(self.map@, self.foreign@[i]).contains(
                self.local@[j],
            )
    }

    /// The translator from the vocabulary of `foreign_criteria` to that of
    /// `local_criteria`, by the criteria map `map`.
    pub fn new(
        local_criteria: &Table<CriteriaEntry>,
        foreign_criteria: &Table<CriteriaEntry>,
        map: &Table<Vec<String>>,
    ) -> (r: CriteriaTranslator)
        requires
            local_criteria.wf(),
            foreign_criteria.wf(),
            map.wf(),
        ensures
            r.wf(),
            r.map@ == map.deep_view(),
            r.local@ == vocabulary(local_criteria.deep_view().keys),
            r.foreign@ == vocabulary(foreign_criteria.deep_view().keys),
    {
        let local = CriteriaMapper::new(local_criteria);
        let foreign = CriteriaMapper::new(foreign_criteria);
        let mut images: Vec<CriteriaSet> = Vec::new();
        let mut i: usize = 0;
        while i < foreign.len()
            invariant
                map.wf(),
                i <= foreign@.len(),
                images@.len() == i,
                forall|k: int| 0 <= k < i ==> (#[trigger] images@[k])@.len() == local@.len(),
                forall|k: int, j: int|
                    0 <= k < i && 0 <= j < local@.len() ==> (#[trigger] images@[k]@[j])
                        == local_image(map.deep_view(), foreign@[k]).contains(local@[j]),
            decreases foreign@.len() - i,
        {
            let name = foreign.criteria_name(i);
            let image = match map.get(name.as_str()) {
                Some(mapped) => local.criteria_from_list(mapped),
                None => {
                    if same_text(name.as_str(), SAFE_TO_DEPLOY) || same_text(
                        name.as_str(),
                        SAFE_TO_RUN,
                    ) {
                        let mut own: Vec<String> = Vec::new();
                        own.push(name.clone());
                        assert(own.deep_view() =~= seq![name@]);
                        local.criteria_from_list(&own)
                    } else {
                        let ghost nothing = Seq::<Seq<char>>::empty();
                        assert(forall|n: Seq<char>| !nothing.contains(n));
                        local.no_criteria()
                    }
                },
            };
            images.push(image);
            i = i + 1;
        }
        CriteriaTranslator { local, foreign, images, map: Ghost(map.deep_view()) }
    }

    /// Rewrites a list of the peer's criteria into local criteria.
    pub fn make_criteria_local(&self, list: &Vec<String>) -> (r: Vec<String>)
        requires
            self.wf(),
        ensures
            r.deep_view() == localized(self.local@, self.foreign@, self.map@, list.deep_view()),
    {
        let foreign_set = self.foreign.criteria_from_list(list);
        let mut local_set = self.local.no_criteria();
        let mut i: usize = 0;
        while i < self.foreign.len()
            invariant
                self.wf(),
                i <= self.foreign@.len(),
                foreign_set@.len() == self.foreign@.len(),
                forall|k: int|
                    0 <= k < foreign_set@.len() ==> foreign_set@[k] == list.deep_view().contains(
                        self.foreign@[k],
                    ),
                local_set@.len() == self.local@.len(),
                forall|j: int|
                    0 <= j < self.local@.len() ==> (#[trigger] local_set@[j] == exists|k: int|
                        0 <= k < i && foreign_set@[k] && #[trigger] self.images@[k]@[j]),
            decreases self.foreign@.len() - i,
        {
            if foreign_set.has_criteria(i) {
                let ghost before = local_set@;
                local_set.unioned_with(&self.images[i]);
                assert forall|j: int| 0 <= j < self.local@.len() implies (
                #[trigger] local_set@[j] == exists|k: int|
                    0 <= k < i + 1 && foreign_set@[k] && #[trigger] self.images@[k]@[j]) by {
                    if before[j] {
                        let k = choose|k: int|
                            0 <= k < i && foreign_set@[k] && #[trigger] self.images@[k]@[j];
                        assert(0 <= k < i + 1 && foreign_set@[k] && self.images@[k]@[j]);
                    }
                    if self.images@[i as int]@[j] {
                        assert(0 <= i < i + 1 && foreign_set@[i as int]
                            && self.images@[i as int]@[j]);
                    }
                }
            }
            i = i + 1;
        }
        let out = self.local.criteria_names(&local_set);
        proof {
            let pred = reached(self.foreign@, self.map@, list.deep_view());
            assert forall|j: int| 0 <= j < self.local@.len() implies local_set@[j] == pred(
                #[trigger] self.local@[j],
            ) by {
                let name = self.local@[j];
                if local_set@[j] {
                    let k = choose|k: int|
                        0 <= k < self.foreign@.len() && foreign_set@[k]
                            && #[trigger] self.images@[k]@[j];
                    let f = self.foreign@[k];
                    assert(self.foreign@.contains(f));
                    assert(local_image(self.map@, f).contains(name));
                }
                if pred(name) {
                    let f = choose|f: Seq<char>|
                        self.foreign@.contains(f) && list.deep_view().contains(f)
                            && #[trigger] local_image(self.map@, f).contains(name);
                    let k = self.foreign@.index_of(f);
                    assert(foreign_set@[k] && self.images@[k]@[j]);
                }
            }
            lemma_select_is_filter(self.local@, local_set@, pred);
        }
        out
    }
}

} // verus!
