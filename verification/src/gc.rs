//! What a collection of garbage takes out of the cache directory.
//!
//! The caller lists the directories and tells the age of the packed
//! packages and the state of the markers. What is to be removed is decided
//! here, in three passes that do not depend on one another.

use vstd::prelude::*;
use crate::model::Duplicate;
use crate::text::{chars_of, list_has, same_text, text_of};

verus! {

/// The names that may stand in the root of the cache.
pub open spec fn is_allowed(name: Seq<char>) -> bool {
    name == "diff-cache.toml"@ || name == "command-history.json"@ || name == "publisher-cache.json"@
        || name == "empty"@ || name == "src"@ || name == "cache"@ || name == ".vet-lock"@
}

/// Whether a name may stand in the root of the cache.
pub fn allowed(name: &str) -> (r: bool)
    ensures
        r == is_allowed(name@),
{
    same_text(name, "diff-cache.toml") || same_text(name, "command-history.json") || same_text(
        name,
        "publisher-cache.json",
    ) || same_text(name, "empty") || same_text(name, "src") || same_text(name, "cache")
        || same_text(name, ".vet-lock")
}

/// The names of a list that a test lets through, in their order.
pub open spec fn chosen(names: Seq<Seq<char>>, test: spec_fn(Seq<char>) -> bool) -> Seq<Seq<char>> {
    names.filter(test)
}

pub open spec fn not_allowed() -> spec_fn(Seq<char>) -> bool {
    |name: Seq<char>| !is_allowed(name)
}

pub open spec fn not_lock() -> spec_fn(Seq<char>) -> bool {
    |name: Seq<char>| name != ".vet-lock"@
}

/// The entries of the root of the cache to remove: those whose names may
/// not stand there.
pub fn gc_root(root_entries: &Vec<String>) -> (r: Vec<String>)
    ensures
        r.deep_view() == chosen(root_entries.deep_view(), not_allowed()),
{
    let ghost all = root_entries.deep_view();
    let ghost test = not_allowed();
    let mut out: Vec<String> = Vec::new();
    assert(out.deep_view() =~= all.take(0).filter(test)) by {
        reveal(Seq::filter);
    }
    let mut i: usize = 0;
    while i < root_entries.len()
        invariant
            all == root_entries.deep_view(),
            test == not_allowed(),
            i <= root_entries.len(),
            out.deep_view() == all.take(i as int).filter(test),
        decreases root_entries.len() - i,
    {
        proof {
            assert(all.take(i + 1).drop_last() =~= all.take(i as int));
            assert(all.take(i + 1).last() == all[i as int]);
            reveal(Seq::filter);
        }
        if !allowed(root_entries[i].as_str()) {
            let ghost so_far = out.deep_view();
            out.push(root_entries[i].clone());
            assert(out.deep_view() =~= so_far.push(all[i as int]));
        }
        i = i + 1;
    }
    assert(all.take(all.len() as int) =~= all);
    out
}

/// The entries of the empty package to remove: all of them.
pub fn gc_empty(empty_entries: &Vec<String>) -> (r: Vec<String>)
    ensures
        r.deep_view() == empty_entries.deep_view(),
{
    empty_entries.duplicate()
}

/// The entries of the root of the cache that a cleaning removes: all but
/// the lock.
pub fn clean_root(root_entries: &Vec<String>) -> (r: Vec<String>)
    ensures
        r.deep_view() == chosen(root_entries.deep_view(), not_lock()),
{
    let ghost all = root_entries.deep_view();
    let ghost test = not_lock();
    let mut out: Vec<String> = Vec::new();
    assert(out.deep_view() =~= all.take(0).filter(test)) by {
        reveal(Seq::filter);
    }
    let mut i: usize = 0;
    while i < root_entries.len()
        invariant
            all == root_entries.deep_view(),
            test == not_lock(),
            i <= root_entries.len(),
            out.deep_view() == all.take(i as int).filter(test),
        decreases root_entries.len() - i,
    {
        proof {
            assert(all.take(i + 1).drop_last() =~= all.take(i as int));
            assert(all.take(i + 1).last() == all[i as int]);
            reveal(Seq::filter);
        }
        if !same_text(root_entries[i].as_str(), ".vet-lock") {
            let ghost so_far = out.deep_view();
            out.push(root_entries[i].clone());
            assert(out.deep_view() =~= so_far.push(all[i as int]));
        }
        i = i + 1;
    }
    assert(all.take(all.len() as int) =~= all);
    out
}

/// An entry of the directory of the packed packages.
#[derive(Clone, Debug, PartialEq, Eq)]
pub struct CacheEntry {
    pub name: String,
    /// How long ago the entry was last changed or used, in nanoseconds;
    /// `None` where that cannot be told.
    pub age: Option<u128>,
}

pub struct CacheEntryView {
    pub name: Seq<char>,
    pub age: Option<u128>,
}

impl DeepView for CacheEntry {
    type V = CacheEntryView;

    open spec fn deep_view(&self) -> CacheEntryView {
        CacheEntryView { name: self.name@, age: self.age }
    }
}

/// An entry of the directory of the unpacked packages.
#[derive(Clone, Debug, PartialEq, Eq)]
pub struct SrcEntry {
    pub name: String,
    /// Whether the entry holds the marker of a finished unpack.
    pub marker_valid: bool,
}

pub struct SrcEntryView {
    pub name: Seq<char>,
    pub marker_valid: bool,
}

impl DeepView for SrcEntry {
    type V = SrcEntryView;

    open spec fn deep_view(&self) -> SrcEntryView {
        SrcEntryView { name: self.name@, marker_valid: self.marker_valid }
    }
}

/// The position of the last dot of a name.
pub open spec fn last_dot(name: Seq<char>, at: int) -> bool {
    &&& 0 <= at < name.len()
    &&& name[at] == '.'
    &&& forall|i: int| at < i < name.len() ==> name[i] != '.'
}

/// The name of the package whose packed form a file name is: what stands
/// before `.crate` at the end of the name, if the name ends so and
/// something stands before it.
pub open spec fn packed_stem(name: Seq<char>) -> Option<Seq<char>> {
    if exists|at: int| last_dot(name, at) {
        let at = choose|at: int| last_dot(name, at);
        if at > 0 && name.subrange(at + 1, name.len() as int) == "crate"@ {
            Some(name.subrange(0, at))
        } else {
            None
        }
    } else {
        None
    }
}

/// The name under which a packed package is kept: none if the file is not
/// the packed form of a package, or if it is known to be older than
/// `max_age`.
pub open spec fn kept_stem(entry: CacheEntryView, max_age: u128) -> Option<Seq<char>> {
    match packed_stem(entry.name) {
        Some(stem) => match entry.age {
            Some(age) => if age > max_age {
                None
            } else {
                Some(stem)
            },
            None => Some(stem),
        },
        None => None,
    }
}

/// The name of the package whose packed form a file name is.
pub fn stem_of(name: &str) -> (r: Option<String>)
    ensures
        r.deep_view() == packed_stem(name@),
{
    let chars = chars_of(name);
    let mut i: usize = chars.len();
    while i > 0 && chars[i - 1] != '.'
        invariant
            i <= chars.len(),
            forall|k: int| i <= k < chars.len() ==> chars@[k] != '.',
        decreases i,
    {
        i = i - 1;
    }
    if i == 0 {
        assert(!exists|at: int| last_dot(name@, at));
        return None;
    }
    let dot = i - 1;
    proof {
        assert(last_dot(name@, dot as int));
        let at = choose|at: int| last_dot(name@, at);
        assert(at == dot);
        reveal_strlit("crate");
    }
    if dot == 0 {
        return None;
    }
    let extension = text_of(&chars, dot + 1, chars.len());
    if same_text(extension.as_str(), "crate") {
        Some(text_of(&chars, 0, dot))
    } else {
        None
    }
}

/// The name under which a packed package is kept, if it is kept.
pub fn should_keep_package(entry: &CacheEntry, max_package_age: u128) -> (r: Option<String>)
    ensures
        r.deep_view() == kept_stem(entry.deep_view(), max_package_age),
{
    let stem = match stem_of(entry.name.as_str()) {
        Some(stem) => stem,
        None => {
            return None;
        },
    };
    match entry.age {
        Some(age) => if age > max_package_age {
            None
        } else {
            Some(stem)
        },
        None => Some(stem),
    }
}

/// The names under which the packed packages of a directory are kept.
pub open spec fn kept_stems(entries: Seq<CacheEntryView>, max_age: u128) -> Seq<Seq<char>>
    decreases entries.len(),
{
    if entries.len() == 0 {
        Seq::empty()
    } else {
        match kept_stem(entries.last(), max_age) {
            Some(stem) => kept_stems(entries.drop_last(), max_age).push(stem),
            None => kept_stems(entries.drop_last(), max_age),
        }
    }
}

/// The names of the packed packages that are removed.
pub open spec fn stale_archives(entries: Seq<CacheEntryView>, max_age: u128) -> Seq<Seq<char>>
    decreases entries.len(),
{
    if entries.len() == 0 {
        Seq::empty()
    } else {
        match kept_stem(entries.last(), max_age) {
            Some(_) => stale_archives(entries.drop_last(), max_age),
            None => stale_archives(entries.drop_last(), max_age).push(entries.last().name),
        }
    }
}

/// Whether an unpacked package stays: its packed form is kept and its
/// marker is right.
pub open spec fn src_stays(kept: Seq<Seq<char>>, entry: SrcEntryView) -> bool {
    kept.contains(entry.name) && entry.marker_valid
}

/// The names of the unpacked packages that are removed.
pub open spec fn stale_sources(kept: Seq<Seq<char>>, entries: Seq<SrcEntryView>) -> Seq<Seq<char>>
    decreases entries.len(),
{
    if entries.len() == 0 {
        Seq::empty()
    } else if src_stays(kept, entries.last()) {
        stale_sources(kept, entries.drop_last())
    } else {
        stale_sources(kept, entries.drop_last()).push(entries.last().name)
    }
}

/// What the pass over the packages removes.
#[derive(Clone, Debug, PartialEq, Eq)]
pub struct PackagesToRemove {
    /// Entries of the directory of the packed packages.
    pub cache: Vec<String>,
    /// Entries of the directory of the unpacked packages.
    pub src: Vec<String>,
}

/// The packed and the unpacked packages to remove: a packed package goes
/// if it is not the packed form of a package or is older than
/// `max_package_age`; an unpacked package goes unless its packed form stays
/// and its marker is right.
pub fn gc_packages(
    cache_entries: &Vec<CacheEntry>,
    src_entries: &Vec<SrcEntry>,
    max_package_age: u128,
) -> (r: PackagesToRemove)
    ensures
        r.cache.deep_view() == stale_archives(cache_entries.deep_view(), max_package_age),
        r.src.deep_view() == stale_sources(
            kept_stems(cache_entries.deep_view(), max_package_age),
            src_entries.deep_view(),
        ),
{
    let ghost packed = cache_entries.deep_view();
    let mut kept_packages: Vec<String> = Vec::new();
    let mut cache: Vec<String> = Vec::new();
    assert(packed.take(0) =~= Seq::empty());
    assert(kept_packages.deep_view() =~= kept_stems(packed.take(0), max_package_age));
    assert(cache.deep_view() =~= stale_archives(packed.take(0), max_package_age));
    let mut i: usize = 0;
    while i < cache_entries.len()
        invariant
            packed == cache_entries.deep_view(),
            i <= cache_entries.len(),
            kept_packages.deep_view() == kept_stems(packed.take(i as int), max_package_age),
            cache.deep_view() == stale_archives(packed.take(i as int), max_package_age),
        decreases cache_entries.len() - i,
    {
        proof {
            assert(packed.take(i + 1).drop_last() =~= packed.take(i as int));
            assert(packed.take(i + 1).last() == packed[i as int]);
        }
        match should_keep_package(&cache_entries[i], max_package_age) {
            Some(to_keep) => {
                let ghost so_far = kept_packages.deep_view();
                let ghost made = to_keep@;
                kept_packages.push(to_keep);
                assert(kept_packages.deep_view() =~= so_far.push(made));
            },
            None => {
                let ghost so_far = cache.deep_view();
                cache.push(cache_entries[i].name.clone());
                assert(cache.deep_view() =~= so_far.push(packed[i as int].name));
            },
        }
        i = i + 1;
    }
    assert(packed.take(packed.len() as int) =~= packed);
    let ghost kept = kept_packages.deep_view();
    let ghost unpacked = src_entries.deep_view();
    let mut src: Vec<String> = Vec::new();
    assert(unpacked.take(0) =~= Seq::empty());
    assert(src.deep_view() =~= stale_sources(kept, unpacked.take(0)));
    let mut j: usize = 0;
    while j < src_entries.len()
        invariant
            kept == kept_packages.deep_view(),
            unpacked == src_entries.deep_view(),
            j <= src_entries.len(),
            src.deep_view() == stale_sources(kept, unpacked.take(j as int)),
        decreases src_entries.len() - j,
    {
        proof {
            assert(unpacked.take(j + 1).drop_last() =~= unpacked.take(j as int));
            assert(unpacked.take(j + 1).last() == unpacked[j as int]);
        }
        let entry = &src_entries[j];
        if !list_has(&kept_packages, entry.name.as_str()) || !entry.marker_valid {
            let ghost so_far = src.deep_view();
            src.push(entry.name.clone());
            assert(src.deep_view() =~= so_far.push(unpacked[j as int].name));
        }
        j = j + 1;
    }
    assert(unpacked.take(unpacked.len() as int) =~= unpacked);
    PackagesToRemove { cache, src }
}

/// After the pass over the root, only allowed names stand in the root. A
/// name of the root that is not removed is an allowed name.
pub proof fn law_root_holds_allowed_names(root_entries: Seq<Seq<char>>, name: Seq<char>)
    requires
        root_entries.contains(name),
        !chosen(root_entries, not_allowed()).contains(name),
    ensures
        is_allowed(name),
{
    broadcast use vstd::seq_lib::group_filter_ensures;

    let at = root_entries.index_of(name);
    if !is_allowed(name) {
        assert(not_allowed()(root_entries[at]));
        assert(chosen(root_entries, not_allowed()).contains(root_entries[at]));
    }
}

proof fn lemma_stale_sources(kept: Seq<Seq<char>>, entries: Seq<SrcEntryView>, at: int)
    requires
        0 <= at < entries.len(),
        !src_stays(kept, entries[at]),
    ensures
        stale_sources(kept, entries).contains(entries[at].name),
    decreases entries.len(),
{
    if at == entries.len() - 1 {
        let out = stale_sources(kept, entries);
        assert(out[out.len() - 1] == entries[at].name);
    } else {
        lemma_stale_sources(kept, entries.drop_last(), at);
        let before = stale_sources(kept, entries.drop_last());
        let p = before.index_of(entries[at].name);
        assert(stale_sources(kept, entries)[p] == entries[at].name);
    }
}

proof fn lemma_stale_archives(entries: Seq<CacheEntryView>, max_age: u128, at: int)
    requires
        0 <= at < entries.len(),
        kept_stem(entries[at], max_age) is None,
    ensures
        stale_archives(entries, max_age).contains(entries[at].name),
    decreases entries.len(),
{
    if at == entries.len() - 1 {
        let out = stale_archives(entries, max_age);
        assert(out[out.len() - 1] == entries[at].name);
    } else {
        lemma_stale_archives(entries.drop_last(), max_age, at);
        let before = stale_archives(entries.drop_last(), max_age);
        let p = before.index_of(entries[at].name);
        assert(stale_archives(entries, max_age)[p] == entries[at].name);
    }
}

proof fn lemma_stale_archive_source(entries: Seq<CacheEntryView>, max_age: u128, name: Seq<char>)
    requires
        stale_archives(entries, max_age).contains(name),
    ensures
        exists|at: int|
            0 <= at < entries.len() && (#[trigger] entries[at]).name == name && kept_stem(
                entries[at],
                max_age,
            ) is None,
    decreases entries.len(),
{
    if entries.len() > 0 {
        let out = stale_archives(entries, max_age);
        let p = out.index_of(name);
        let before = stale_archives(entries.drop_last(), max_age);
        if kept_stem(entries.last(), max_age) is None && p == out.len() - 1 {
            assert(entries[entries.len() - 1].name == name);
        } else {
            assert(before[p] == name);
            lemma_stale_archive_source(entries.drop_last(), max_age, name);
            let at = choose|at: int|
                0 <= at < entries.drop_last().len() && (#[trigger] entries.drop_last()[at]).name
                    == name && kept_stem(entries.drop_last()[at], max_age) is None;
            assert(entries[at] == entries.drop_last()[at]);
        }
    }
}

proof fn lemma_kept_stem_source(entries: Seq<CacheEntryView>, max_age: u128, stem: Seq<char>)
    requires
        kept_stems(entries, max_age).contains(stem),
    ensures
        exists|at: int|
            0 <= at < entries.len() && kept_stem(#[trigger] entries[at], max_age) == Some(stem),
    decreases entries.len(),
{
    if entries.len() > 0 {
        let out = kept_stems(entries, max_age);
        let p = out.index_of(stem);
        let before = kept_stems(entries.drop_last(), max_age);
        if kept_stem(entries.last(), max_age) is Some && p == out.len() - 1 {
            assert(kept_stem(entries[entries.len() - 1], max_age) == Some(stem));
        } else {
            assert(before[p] == stem);
            lemma_kept_stem_source(entries.drop_last(), max_age, stem);
            let at = choose|at: int|
                0 <= at < entries.drop_last().len() && kept_stem(
                    #[trigger] entries.drop_last()[at],
                    max_age,
                ) == Some(stem);
            assert(entries[at] == entries.drop_last()[at]);
        }
    }
}

/// No name occurs twice in the listing of a directory.
pub open spec fn names_distinct(entries: Seq<CacheEntryView>) -> bool {
    forall|i: int, j: int|
        0 <= i < j < entries.len() ==> (#[trigger] entries[i]).name != (#[trigger] entries[j]).name
}

/// After the pass over the packages, every packed package that is left is
/// the packed form of a package and is not known to be older than the age
/// allowed. `at` picks any entry of the directory of the packed packages
/// that is not removed.
pub proof fn law_kept_archives_are_young(entries: Seq<CacheEntryView>, max_age: u128, at: int)
    requires
        0 <= at < entries.len(),
        !stale_archives(entries, max_age).contains(entries[at].name),
    ensures
        packed_stem(entries[at].name) is Some,
        entries[at].age matches Some(age) ==> age <= max_age,
{
    if kept_stem(entries[at], max_age) is None {
        lemma_stale_archives(entries, max_age, at);
    }
}

/// After the pass over the packages, every unpacked package that is left
/// has a right marker, and its packed form is left too: the directory of
/// the packed packages holds, and keeps, the file with the name of the
/// unpacked package and `.crate` behind it. `at` picks any entry of the
/// directory of the unpacked packages that is not removed.
pub proof fn law_kept_sources_have_archives(
    cache_entries: Seq<CacheEntryView>,
    src_entries: Seq<SrcEntryView>,
    max_age: u128,
    at: int,
)
    requires
        names_distinct(cache_entries),
        0 <= at < src_entries.len(),
        !stale_sources(kept_stems(cache_entries, max_age), src_entries).contains(
            src_entries[at].name,
        ),
    ensures
        src_entries[at].marker_valid,
        exists|packed: int|
            0 <= packed < cache_entries.len() && (#[trigger] cache_entries[packed]).name
                == src_entries[at].name + ".crate"@ && !stale_archives(
                cache_entries,
                max_age,
            ).contains(cache_entries[packed].name),
{
    let kept = kept_stems(cache_entries, max_age);
    let name = src_entries[at].name;
    if !src_stays(kept, src_entries[at]) {
        lemma_stale_sources(kept, src_entries, at);
    }
    lemma_kept_stem_source(cache_entries, max_age, name);
    let packed = choose|packed: int|
        0 <= packed < cache_entries.len() && kept_stem(#[trigger] cache_entries[packed], max_age)
            == Some(name);
    let file = cache_entries[packed].name;
    let dot = choose|dot: int| last_dot(file, dot);
    reveal_strlit(".crate");
    reveal_strlit("crate");
    assert(file =~= name + ".crate"@) by {
        let tail = file.subrange(dot + 1, file.len() as int);
        assert(packed_stem(file) == Some(name));
        assert(file.subrange(0, dot) == name);
        assert(tail == "crate"@);
        assert(name.len() == dot);
        assert(tail.len() == 5);
        assert(".crate"@.len() == 6);
        assert(file.len() == dot + 6);
        assert forall|i: int| 0 <= i < file.len() implies file[i] == (name + ".crate"@)[i] by {
            if i < dot {
                assert(file.subrange(0, dot)[i] == file[i]);
            } else if i > dot {
                assert(tail[i - dot - 1] == file[i]);
                assert("crate"@[i - dot - 1] == ".crate"@[i - dot]);
            } else {
                assert(".crate"@[0] == '.');
            }
        }
    }
    if stale_archives(cache_entries, max_age).contains(file) {
        lemma_stale_archive_source(cache_entries, max_age, file);
    }
}

} // verus!
