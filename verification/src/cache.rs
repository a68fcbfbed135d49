//! The cache of fetched packages, of diffs and of what the registry told.
//!
//! The cache is shared by all runs on a machine, one at a time: the caller
//! holds the lock of the cache directory for as long as the `Cache` lives.
//! Inside a run many tasks use the cache at once; the caller keeps it under
//! a lock of its own, which it never holds while a fetch or a diff runs.

use vstd::prelude::*;
use crate::assoc::{Assoc, AssocView};
use crate::coalesce::{after_claim, after_settle, answer_to, Cells, Claim, ClaimView, Coalescer};
use crate::codec::{store_json, StoreJsonError, StoreTomlError};
use crate::diffstat::DiffStat;
use crate::fetch::FetchJob;
use crate::gc::{
    chosen, clean_root, gc_empty, gc_packages, gc_root, kept_stems, not_allowed, not_lock,
    stale_archives, stale_sources, CacheEntry, SrcEntry,
};
use crate::metadata::{checkout_named, locate_local_checkout, Metadata};
use crate::model::Duplicate;
use crate::paths::{
    empty_dir, empty_path, join, joined, CargoRegistry, CACHE_COMMAND_HISTORY, CACHE_DIFF_CACHE,
    CACHE_PUBLISHER_CACHE,
};
use crate::publisher_cache::{PublisherCache, PublisherCacheView};
use crate::table::{lemma_put_values, Table, TableView};
use crate::version::{Delta, DeltaView, VetVersion, VetVersionView};

verus! {

/// How many diffs may be computed at the same time.
pub const MAX_CONCURRENT_DIFFS: usize = 40;

/// `diff-cache.toml`: for each package, the diffs between its versions
/// that were computed.
#[derive(Clone, Debug, PartialEq, Eq)]
pub enum DiffCache {
    V2 { diffs: Table<Assoc<Delta, DiffStat>> },
}

pub type Diffs = TableView<AssocView<DeltaView, DiffStat>>;

impl DeepView for DiffCache {
    type V = Diffs;

    open spec fn deep_view(&self) -> Diffs {
        match self {
            DiffCache::V2 { diffs } => diffs.deep_view(),
        }
    }
}

pub open spec fn diffs_wf(diffs: Diffs) -> bool {
    &&& diffs.wf()
    &&& forall|i: int| 0 <= i < diffs.vals.len() ==> (#[trigger] diffs.vals[i]).wf()
}

/// The diff of a package that the cache holds for a step between versions.
pub open spec fn cached_diff(diffs: Diffs, package: Seq<char>, delta: DeltaView) -> Option<DiffStat> {
    if diffs.has(package) {
        diffs.at(package).get(delta)
    } else {
        None
    }
}

/// The diffs with one more recorded.
pub open spec fn with_diff(diffs: Diffs, package: Seq<char>, delta: DeltaView, stat: DiffStat) -> Diffs {
    diffs.put(
        package,
        (if diffs.has(package) {
            diffs.at(package)
        } else {
            AssocView::empty()
        }).put(delta, stat),
    )
}

impl DiffCache {
    pub open spec fn wf(&self) -> bool {
        diffs_wf(self.deep_view())
    }

    /// A diff cache that holds nothing.
    pub fn new() -> (r: DiffCache)
        ensures
            r.wf(),
            r.deep_view() == Diffs::empty(),
    {
        DiffCache::V2 { diffs: Table::new() }
    }

    /// The diff that the cache holds for a step between versions of a
    /// package.
    pub fn get(&self, package: &str, delta: &Delta) -> (r: Option<DiffStat>)
        requires
            self.wf(),
        ensures
            r == cached_diff(self.deep_view(), package@, delta.deep_view()),
    {
        match self {
            DiffCache::V2 { diffs } => match diffs.get(package) {
                Some(cache) => {
                    proof {
                        let p = diffs.deep_view().keys.index_of(package@);
                        assert(diffs.deep_view().vals[p].wf());
                    }
                    match cache.get(delta) {
                        Some(stat) => Some(*stat),
                        None => None,
                    }
                },
                None => None,
            },
        }
    }

    /// Records the diff of a step between versions of a package.
    pub fn insert(&mut self, package: &str, delta: &Delta, stat: DiffStat)
        requires
            old(self).wf(),
        ensures
            final(self).wf(),
            final(self).deep_view() == with_diff(
                old(self).deep_view(),
                package@,
                delta.deep_view(),
                stat,
            ),
    {
        let ghost before = self.deep_view();
        match self {
            DiffCache::V2 { diffs } => {
                let mut of_package = match diffs.get(package) {
                    Some(cache) => {
                        proof {
                            let p = before.keys.index_of(package@);
                            assert(before.vals[p].wf());
                        }
                        cache.duplicate()
                    },
                    None => Assoc::new(),
                };
                of_package.insert(delta, stat);
                proof {
                    lemma_put_values(before, package@, of_package.deep_view());
                    let after = before.put(package@, of_package.deep_view());
                    assert forall|i: int| 0 <= i < after.vals.len() implies (
                    #[trigger] after.vals[i]).wf() by {
                        if after.vals[i] != of_package.deep_view() {
                            let p = before.vals.index_of(after.vals[i]);
                            assert(before.vals[p].wf());
                        }
                    }
                }
                diffs.insert(package.to_owned(), of_package);
            },
        }
    }
}

/// The last fetch that a user asked for, as the command line keeps it.
#[derive(Clone, Debug, PartialEq, Eq)]
pub struct FetchCommand {
    pub record: String,
}

/// `command-history.json`.
#[derive(Clone, Debug, PartialEq, Eq)]
pub struct CommandHistory {
    pub last_fetch: Option<FetchCommand>,
}

pub open spec fn history_view(history: CommandHistory) -> Option<Seq<char>> {
    match history.last_fetch {
        Some(command) => Some(command.record@),
        None => None,
    }
}

/// The diff that a cache without a directory makes up for a step between
/// versions: one file changed, and as many lines put in or taken out as
/// the squares of the major versions differ, at most what fits.
pub open spec fn mock_diff(delta: DeltaView) -> DiffStat {
    let from_len = match delta.from {
        Some(from) => from.semver.major * from.semver.major,
        None => 0,
    };
    let to_len = delta.to.semver.major * delta.to.semver.major;
    DiffStat {
        files_changed: 1,
        insertions: if to_len > from_len {
            fitting(to_len - from_len)
        } else {
            0
        },
        deletions: if to_len < from_len {
            fitting(from_len - to_len)
        } else {
            0
        },
    }
}

pub open spec fn fitting(n: int) -> u64 {
    if n > u64::MAX {
        u64::MAX
    } else {
        n as u64
    }
}

fn fit(n: u128) -> (r: u64)
    ensures
        r == fitting(n as int),
{
    if n > u64::MAX as u128 {
        u64::MAX
    } else {
        n as u64
    }
}

/// The diff that a cache without a directory makes up.
pub fn mock_diffstat(delta: &Delta) -> (r: DiffStat)
    ensures
        r == mock_diff(delta.deep_view()),
{
    let from_len: u128 = match &delta.from {
        Some(from) => {
            let major = from.semver.major as u128;
            assert(major * major <= u64::MAX * u64::MAX) by (nonlinear_arith)
                requires
                    0 <= major <= u64::MAX,
            ;
            major * major
        },
        None => 0,
    };
    let major = delta.to.semver.major as u128;
    assert(major * major <= u64::MAX * u64::MAX) by (nonlinear_arith)
        requires
            0 <= major <= u64::MAX,
    ;
    let to_len: u128 = major * major;
    DiffStat {
        files_changed: 1,
        insertions: if to_len > from_len {
            fit(to_len - from_len)
        } else {
            0
        },
        deletions: if to_len < from_len {
            fit(from_len - to_len)
        } else {
            0
        },
    }
}

/// How a request for a diff goes on.
#[derive(Clone, Debug, PartialEq, Eq)]
pub enum DiffPlan {
    /// The diff is known.
    Known { stat: DiffStat },
    /// Somebody computes the diff: wait until it is settled, then ask
    /// again.
    Wait,
    /// Compute the diff: fetch the two sides, run the diff, then settle.
    Compute {
        /// The directory of the old side where that is the empty package;
        /// else the old side is the version `from` of the step, fetched.
        empty: Option<String>,
        /// Whether the new side comes from a git checkout, so that changes
        /// to the manifest do not count.
        has_git_rev: bool,
    },
}

pub enum DiffPlanView {
    Known { stat: DiffStat },
    Wait,
    Compute { empty: Option<Seq<char>>, has_git_rev: bool },
}

impl DeepView for DiffPlan {
    type V = DiffPlanView;

    open spec fn deep_view(&self) -> DiffPlanView {
        match self {
            DiffPlan::Known { stat } => DiffPlanView::Known { stat: *stat },
            DiffPlan::Wait => DiffPlanView::Wait,
            DiffPlan::Compute { empty, has_git_rev } => DiffPlanView::Compute {
                empty: empty.deep_view(),
                has_git_rev: *has_git_rev,
            },
        }
    }
}

#[derive(Clone, Debug, PartialEq, Eq)]
pub struct Cache {
    /// The directory of the cache; `None` for a cache that lives in memory
    /// only.
    pub root: Option<String>,
    /// The package registry of the host, if it was found.
    pub cargo_registry: Option<CargoRegistry>,
    pub diff_cache_path: Option<String>,
    pub command_history_path: Option<String>,
    pub publisher_cache_path: Option<String>,
    pub diff_cache: DiffCache,
    pub command_history: CommandHistory,
    pub publisher_cache: PublisherCache,
    /// The fetches of this run, by package and version.
    pub fetched_packages: Coalescer<(String, VetVersion), String>,
    /// The diffs of this run, by package and step.
    pub diffed: Coalescer<(String, Delta), DiffStat>,
}

pub type FetchCells = Cells<(Seq<char>, VetVersionView), Seq<char>>;

pub type DiffCells = Cells<(Seq<char>, DeltaView), DiffStat>;

/// What a flush writes of a document: its text under its path, if the
/// document has a path and the codec could write it.
pub open spec fn flushed<E>(path: Option<String>, made: Result<String, E>) -> Seq<
    (Seq<char>, Seq<char>),
> {
    match (path, made) {
        (Some(p), Ok(text)) => seq![(p@, text@)],
        _ => Seq::empty(),
    }
}

impl Cache {
    pub open spec fn wf(&self) -> bool {
        &&& self.diff_cache.wf()
        &&& self.publisher_cache.wf()
        &&& self.fetched_packages.wf()
        &&& self.diffed.wf()
        &&& self.root is None ==> self.diff_cache_path is None && self.command_history_path is None
            && self.publisher_cache_path is None
    }

    /// Whether the cache has the directory and the paths of its documents
    /// that `other` has.
    pub open spec fn same_paths(&self, other: &Cache) -> bool {
        &&& self.root == other.root
        &&& self.diff_cache_path == other.diff_cache_path
        &&& self.command_history_path == other.command_history_path
        &&& self.publisher_cache_path == other.publisher_cache_path
    }

    /// Whether the cache knows of the host and of the registry what `other`
    /// knows: the registry of the host, the last fetch and the publishers.
    pub open spec fn same_records(&self, other: &Cache) -> bool {
        &&& self.cargo_registry == other.cargo_registry
        &&& self.command_history == other.command_history
        &&& self.publisher_cache == other.publisher_cache
    }

    /// The cache of the directory `root` with the documents that were read
    /// there; a document that was not there or could not be read starts
    /// empty. Without a directory the cache lives in memory only and starts
    /// empty.
    pub fn acquire(
        root: Option<&str>,
        cargo_registry: Option<CargoRegistry>,
        diff_cache: Option<DiffCache>,
        command_history: Option<CommandHistory>,
        publisher_cache: Option<PublisherCache>,
    ) -> (r: Cache)
        requires
            diff_cache matches Some(d) ==> d.wf(),
            publisher_cache matches Some(p) ==> p.wf(),
        ensures
            r.wf(),
            r.cargo_registry == cargo_registry,
            r.fetched_packages.cells.deep_view() == FetchCells::empty(),
            r.diffed.cells.deep_view() == DiffCells::empty(),
            match root {
                None => {
                    &&& r.root is None
                    &&& r.diff_cache.deep_view() == Diffs::empty()
                    &&& r.command_history.last_fetch is None
                    &&& r.publisher_cache.deep_view() == (PublisherCacheView {
                        crates: TableView::empty(),
                        users: Map::empty(),
                    })
                },
                Some(dir) => {
                    &&& r.root.deep_view() == Some(dir@)
                    &&& r.diff_cache_path.deep_view() == Some(joined(dir@, "diff-cache.toml"@))
                    &&& r.command_history_path.deep_view() == Some(
                        joined(dir@, "command-history.json"@),
                    )
                    &&& r.publisher_cache_path.deep_view() == Some(
                        joined(dir@, "publisher-cache.json"@),
                    )
                    &&& r.diff_cache.deep_view() == match diff_cache {
                        Some(d) => d.deep_view(),
                        None => Diffs::empty(),
                    }
                    &&& history_view(r.command_history) == match command_history {
                        Some(h) => history_view(h),
                        None => None,
                    }
                    &&& r.publisher_cache.deep_view() == match publisher_cache {
                        Some(p) => p.deep_view(),
                        None => PublisherCacheView { crates: TableView::empty(), users: Map::empty() },
                    }
                },
            },
    {
        match root {
            None => Cache {
                root: None,
                cargo_registry,
                diff_cache_path: None,
                command_history_path: None,
                publisher_cache_path: None,
                diff_cache: DiffCache::new(),
                command_history: CommandHistory { last_fetch: None },
                publisher_cache: PublisherCache::new(),
                fetched_packages: Coalescer::new(),
                diffed: Coalescer::new(),
            },
            Some(dir) => Cache {
                root: Some(dir.to_owned()),
                cargo_registry,
                diff_cache_path: Some(join(dir, CACHE_DIFF_CACHE)),
                command_history_path: Some(join(dir, CACHE_COMMAND_HISTORY)),
                publisher_cache_path: Some(join(dir, CACHE_PUBLISHER_CACHE)),
                diff_cache: match diff_cache {
                    Some(d) => d,
                    None => DiffCache::new(),
                },
                command_history: match command_history {
                    Some(h) => h,
                    None => CommandHistory { last_fetch: None },
                },
                publisher_cache: match publisher_cache {
                    Some(p) => p,
                    None => PublisherCache::new(),
                },
                fetched_packages: Coalescer::new(),
                diffed: Coalescer::new(),
            },
        }
    }

    /// Whether the registry of the host was found.
    pub fn has_registry(&self) -> (r: bool)
        ensures
            r == self.cargo_registry is Some,
    {
        self.cargo_registry.is_some()
    }

    /// Brings the index of the registry up to date, once in a run. `update`
    /// does the work and tells whether it succeeded. The answer is whether
    /// the index may have changed.
    pub fn ensure_index_up_to_date<U: Fn() -> bool>(&mut self, update: &U) -> (r: bool)
        requires
            update.requires(()),
        ensures
            final(self).same_paths(old(self)),
            final(self).diff_cache == old(self).diff_cache,
            final(self).command_history == old(self).command_history,
            final(self).publisher_cache == old(self).publisher_cache,
            final(self).fetched_packages == old(self).fetched_packages,
            final(self).diffed == old(self).diffed,
            match old(self).cargo_registry {
                None => !r && final(self).cargo_registry is None,
                Some(before) => {
                    &&& final(self).cargo_registry matches Some(after)
                    &&& after.base_dir == before.base_dir
                    &&& after.registry == before.registry
                    &&& after.index_up_to_date
                    &&& if before.index_up_to_date {
                        !r
                    } else {
                        update.ensures((), r)
                    }
                },
            },
    {
        match self.cargo_registry.take() {
            None => false,
            Some(reg) => {
                let fresh = reg.index_up_to_date;
                self.cargo_registry = Some(
                    CargoRegistry {
                        base_dir: reg.base_dir,
                        registry: reg.registry,
                        index_up_to_date: true,
                    },
                );
                if fresh {
                    false
                } else {
                    update()
                }
            },
        }
    }

    /// The last fetch that a user asked for.
    pub fn get_last_fetch(&self) -> (r: Option<FetchCommand>)
        ensures
            match (r, self.command_history.last_fetch) {
                (Some(a), Some(b)) => a.record@ == b.record@,
                (None, None) => true,
                _ => false,
            },
    {
        match &self.command_history.last_fetch {
            Some(command) => Some(FetchCommand { record: command.record.clone() }),
            None => None,
        }
    }

    /// Notes the last fetch that a user asked for.
    pub fn set_last_fetch(&mut self, last_fetch: FetchCommand)
        ensures
            final(self).command_history.last_fetch == Some(last_fetch),
            final(self).root == old(self).root,
            final(self).cargo_registry == old(self).cargo_registry,
            final(self).diff_cache == old(self).diff_cache,
            final(self).publisher_cache == old(self).publisher_cache,
            final(self).fetched_packages == old(self).fetched_packages,
            final(self).diffed == old(self).diffed,
            final(self).diff_cache_path == old(self).diff_cache_path,
            final(self).command_history_path == old(self).command_history_path,
            final(self).publisher_cache_path == old(self).publisher_cache_path,
    {
        self.command_history.last_fetch = Some(last_fetch);
    }

    /// Claims the fetch of a version of a package: the claimant is told to
    /// start the fetch, to wait for it, or where the package is.
    pub fn begin_fetch(&mut self, package: &str, version: &VetVersion) -> (r: Claim<String>)
        requires
            old(self).wf(),
        ensures
            final(self).wf(),
            final(self).fetched_packages.cells.deep_view() == after_claim(
                old(self).fetched_packages.cells.deep_view(),
                (package@, version.deep_view()),
            ),
            r.deep_view() == answer_to(
                old(self).fetched_packages.cells.deep_view(),
                (package@, version.deep_view()),
            ),
            final(self).same_paths(old(self)),
            final(self).same_records(old(self)),
            final(self).diff_cache == old(self).diff_cache,
            final(self).diffed == old(self).diffed,
    {
        let key = (package.to_owned(), version.duplicate());
        self.fetched_packages.claim(&key)
    }

    /// Settles the fetch of a version of a package: with the directory of
    /// the package, or with `None` if the fetch failed.
    pub fn finish_fetch(&mut self, package: &str, version: &VetVersion, outcome: Option<String>)
        requires
            old(self).wf(),
        ensures
            final(self).wf(),
            final(self).fetched_packages.cells.deep_view() == after_settle(
                old(self).fetched_packages.cells.deep_view(),
                (package@, version.deep_view()),
                outcome.deep_view(),
            ),
            final(self).same_paths(old(self)),
            final(self).same_records(old(self)),
            final(self).diff_cache == old(self).diff_cache,
            final(self).diffed == old(self).diffed,
    {
        let key = (package.to_owned(), version.duplicate());
        self.fetched_packages.settle(&key, outcome);
    }

    /// What is to be fetched for a version of a package, and what is known
    /// beforehand.
    pub fn fetch_package(
        &self,
        metadata: &Metadata,
        network: bool,
        package: &str,
        version: &VetVersion,
    ) -> (r: FetchJob)
        requires
            self.root is Some,
            version.git_rev is Some ==> checkout_named(
                metadata.deep_view(),
                package@,
                version.deep_view(),
            ),
        ensures
            r.package@ == package@,
            r.version.deep_view() == version.deep_view(),
            r.root@ == self.root->0@,
            r.network == network,
            r.registry_src.deep_view() == match self.cargo_registry {
                Some(reg) => Some(joined(joined(reg.base_dir@, "src"@), reg.registry@)),
                None => None,
            },
            r.checkout is Some == (version.git_rev is Some && crate::metadata::has_checkout(
                metadata.deep_view(),
                package@,
                version.deep_view(),
            )),
            r.checkout matches Some(dir) ==> exists|at: int|
                #[trigger] crate::metadata::checkout_position(
                    metadata.deep_view(),
                    package@,
                    version.deep_view(),
                    at,
                ) && dir@ == crate::metadata::manifest_dir(metadata.deep_view()[at].manifest_path),
    {
        let root = match &self.root {
            Some(root) => root.clone(),
            None => String::new(),
        };
        FetchJob {
            package: package.to_owned(),
            version: version.duplicate(),
            root,
            registry_src: match &self.cargo_registry {
                Some(reg) => Some(reg.src()),
                None => None,
            },
            network,
            checkout: if version.git_rev.is_some() {
                locate_local_checkout(metadata, package, version)
            } else {
                None
            },
        }
    }

    /// Asks for the diff of a step between versions of a package.
    ///
    /// A diff that the diff cache holds is known. A cache without a
    /// directory makes one up. Else the diff is claimed: it is known if it
    /// was computed in this run, and else the claimant is told to compute
    /// it or to wait for the one who does.
    pub fn fetch_and_diffstat_package(&mut self, package: &str, delta: &Delta) -> (r: DiffPlan)
        requires
            old(self).wf(),
        ensures
            final(self).wf(),
            final(self).same_paths(old(self)),
            final(self).same_records(old(self)),
            final(self).diff_cache == old(self).diff_cache,
            final(self).fetched_packages == old(self).fetched_packages,
            match cached_diff(old(self).diff_cache.deep_view(), package@, delta.deep_view()) {
                Some(stat) => {
                    &&& r.deep_view() == (DiffPlanView::Known { stat })
                    &&& final(self).diffed == old(self).diffed
                },
                None => match old(self).root {
                    None => {
                        &&& r.deep_view() == (DiffPlanView::Known {
                            stat: mock_diff(delta.deep_view()),
                        })
                        &&& final(self).diffed == old(self).diffed
                    },
                    Some(root) => {
                        &&& final(self).diffed.cells.deep_view() == after_claim(
                            old(self).diffed.cells.deep_view(),
                            (package@, delta.deep_view()),
                        )
                        &&& r.deep_view() == match answer_to(
                            old(self).diffed.cells.deep_view(),
                            (package@, delta.deep_view()),
                        ) {
                            ClaimView::Ready(stat) => DiffPlanView::Known { stat },
                            ClaimView::Wait => DiffPlanView::Wait,
                            ClaimView::Start => DiffPlanView::Compute {
                                empty: if delta.from is None {
                                    Some(empty_path(root@))
                                } else {
                                    None
                                },
                                has_git_rev: delta.to.git_rev is Some,
                            },
                        }
                    },
                },
            },
    {
        match self.diff_cache.get(package, delta) {
            Some(stat) => {
                return DiffPlan::Known { stat };
            },
            None => {},
        }
        let empty = match &self.root {
            None => {
                return DiffPlan::Known { stat: mock_diffstat(delta) };
            },
            Some(root) => empty_dir(root.as_str()),
        };
        let key = (package.to_owned(), delta.duplicate());
        match self.diffed.claim(&key) {
            Claim::Ready(stat) => DiffPlan::Known { stat },
            Claim::Wait => DiffPlan::Wait,
            Claim::Start => DiffPlan::Compute {
                empty: if delta.from.is_none() {
                    Some(empty)
                } else {
                    None
                },
                has_git_rev: delta.to.git_rev.is_some(),
            },
        }
    }

    /// Settles the diff of a step between versions of a package: a diff
    /// that was computed is recorded in the diff cache and given to all who
    /// wait for it; after a failure the next to ask computes it again.
    pub fn finish_diff(&mut self, package: &str, delta: &Delta, outcome: Option<DiffStat>)
        requires
            old(self).wf(),
        ensures
            final(self).wf(),
            final(self).same_paths(old(self)),
            final(self).same_records(old(self)),
            final(self).fetched_packages == old(self).fetched_packages,
            final(self).diffed.cells.deep_view() == after_settle(
                old(self).diffed.cells.deep_view(),
                (package@, delta.deep_view()),
                outcome,
            ),
            final(self).diff_cache.deep_view() == match outcome {
                Some(stat) => with_diff(
                    old(self).diff_cache.deep_view(),
                    package@,
                    delta.deep_view(),
                    stat,
                ),
                None => old(self).diff_cache.deep_view(),
            },
    {
        let key = (package.to_owned(), delta.duplicate());
        match outcome {
            Some(stat) => {
                self.diff_cache.insert(package, delta, stat);
            },
            None => {},
        }
        self.diffed.settle(&key, outcome);
    }

    /// What is to be written when the cache is given up: the texts of the
    /// three documents under their paths, as far as the cache has a
    /// directory and the codecs can write them. The documents of the cache
    /// are empty afterwards.
    pub fn flush<
        D: Fn(&DiffCache) -> Result<String, StoreTomlError>,
        H: Fn(&CommandHistory) -> Result<String, StoreJsonError>,
        P: Fn(&PublisherCache) -> Result<String, StoreJsonError>,
    >(&mut self, encode_diffs: &D, encode_history: &H, encode_publishers: &P) -> (r: Vec<
        (String, String),
    >)
        requires
            old(self).wf(),
            forall|d: &DiffCache| encode_diffs.requires((d,)),
            forall|h: &CommandHistory| encode_history.requires((h,)),
            forall|p: &PublisherCache| encode_publishers.requires((p,)),
        ensures
            final(self).wf(),
            final(self).same_paths(old(self)),
            final(self).cargo_registry == old(self).cargo_registry,
            final(self).fetched_packages == old(self).fetched_packages,
            final(self).diffed == old(self).diffed,
            old(self).diff_cache_path is None && old(self).command_history_path is None && old(
                self,
            ).publisher_cache_path is None ==> r.deep_view().len() == 0,
            final(self).diff_cache.deep_view() == Diffs::empty(),
            final(self).command_history.last_fetch is None,
            final(self).publisher_cache.deep_view() == (PublisherCacheView {
                crates: TableView::empty(),
                users: Map::empty(),
            }),
            exists|
                diffs: Result<String, StoreTomlError>,
                history: Result<String, StoreJsonError>,
                publishers: Result<String, StoreJsonError>,
            |
                {
                    &&& #[trigger] encode_diffs.ensures((&old(self).diff_cache,), diffs)
                    &&& #[trigger] encode_history.ensures((&old(self).command_history,), history)
                    &&& #[trigger] encode_publishers.ensures(
                        (&old(self).publisher_cache,),
                        publishers,
                    )
                    &&& r.deep_view() == flushed(old(self).diff_cache_path, diffs) + flushed(
                        old(self).command_history_path,
                        history,
                    ) + flushed(old(self).publisher_cache_path, publishers)
                },
    {
        let mut out: Vec<(String, String)> = Vec::new();
        assert(out.deep_view() =~= Seq::empty());
        let diffs = store_diff_cache(&self.diff_cache, encode_diffs);
        let history = store_command_history(&self.command_history, encode_history);
        let publishers = store_publisher_cache(&self.publisher_cache, encode_publishers);
        let ghost seen = (diffs, history, publishers);
        match (&self.diff_cache_path, diffs) {
            (Some(path), Ok(text)) => {
                out.push((path.clone(), text));
            },
            _ => {},
        }
        assert(out.deep_view() =~= flushed(self.diff_cache_path, seen.0));
        let ghost first = out.deep_view();
        match (&self.command_history_path, history) {
            (Some(path), Ok(text)) => {
                out.push((path.clone(), text));
            },
            _ => {},
        }
        assert(out.deep_view() =~= first + flushed(self.command_history_path, seen.1));
        let ghost second = out.deep_view();
        match (&self.publisher_cache_path, publishers) {
            (Some(path), Ok(text)) => {
                out.push((path.clone(), text));
            },
            _ => {},
        }
        assert(out.deep_view() =~= second + flushed(self.publisher_cache_path, seen.2));
        self.diff_cache = DiffCache::new();
        self.command_history = CommandHistory { last_fetch: None };
        self.publisher_cache = PublisherCache::new();
        out
    }

    /// Empties the cache: its documents are emptied and lose their paths,
    /// so that a later flush writes nothing, and of the entries of its
    /// directory all but the lock are to be removed.
    pub fn clean(&mut self, root_entries: &Vec<String>) -> (r: Vec<String>)
        requires
            old(self).wf(),
            old(self).root is Some,
        ensures
            final(self).wf(),
            final(self).root == old(self).root,
            final(self).cargo_registry == old(self).cargo_registry,
            final(self).fetched_packages == old(self).fetched_packages,
            final(self).diffed == old(self).diffed,
            final(self).diff_cache_path is None,
            final(self).command_history_path is None,
            final(self).publisher_cache_path is None,
            final(self).diff_cache.deep_view() == Diffs::empty(),
            final(self).command_history.last_fetch is None,
            final(self).publisher_cache.deep_view() == (PublisherCacheView {
                crates: TableView::empty(),
                users: Map::empty(),
            }),
            r.deep_view() == chosen(root_entries.deep_view(), not_lock()),
    {
        self.diff_cache_path = None;
        self.command_history_path = None;
        self.publisher_cache_path = None;
        self.command_history = CommandHistory { last_fetch: None };
        self.diff_cache = DiffCache::new();
        self.publisher_cache = PublisherCache::new();
        clean_root(root_entries)
    }

    /// What a collection of garbage removes from the directory of the
    /// cache; nothing for a cache without a directory.
    pub fn gc(
        &self,
        root_entries: &Vec<String>,
        empty_entries: &Vec<String>,
        cache_entries: &Vec<CacheEntry>,
        src_entries: &Vec<SrcEntry>,
        max_package_age: u128,
    ) -> (r: Option<GcPlan>)
        ensures
            r is Some == self.root is Some,
            r matches Some(plan) ==> {
                &&& plan.root.deep_view() == chosen(root_entries.deep_view(), not_allowed())
                &&& plan.empty.deep_view() == empty_entries.deep_view()
                &&& plan.cache.deep_view() == stale_archives(
                    cache_entries.deep_view(),
                    max_package_age,
                )
                &&& plan.src.deep_view() == stale_sources(
                    kept_stems(cache_entries.deep_view(), max_package_age),
                    src_entries.deep_view(),
                )
            },
    {
        if self.root.is_none() {
            return None;
        }
        let packages = gc_packages(cache_entries, src_entries, max_package_age);
        Some(
            GcPlan {
                root: gc_root(root_entries),
                empty: gc_empty(empty_entries),
                cache: packages.cache,
                src: packages.src,
            },
        )
    }
}

/// What a collection of garbage removes, directory by directory.
#[derive(Clone, Debug, PartialEq, Eq)]
pub struct GcPlan {
    /// Entries of the root of the cache.
    pub root: Vec<String>,
    /// Entries of the empty package.
    pub empty: Vec<String>,
    /// Entries of the directory of the packed packages.
    pub cache: Vec<String>,
    /// Entries of the directory of the unpacked packages.
    pub src: Vec<String>,
}

/// The text of `diff-cache.toml`: what the codec makes of the diff cache.
/// This document has no heading.
pub fn store_diff_cache<F: Fn(&DiffCache) -> Result<String, StoreTomlError>>(
    diff_cache: &DiffCache,
    encode: &F,
) -> (r: Result<String, StoreTomlError>)
    requires
        encode.requires((diff_cache,)),
    ensures
        encode.ensures((diff_cache,), r),
{
    encode(diff_cache)
}

/// The text of `command-history.json`: what the codec makes of the command
/// history.
pub fn store_command_history<F: Fn(&CommandHistory) -> Result<String, StoreJsonError>>(
    command_history: &CommandHistory,
    encode: &F,
) -> (r: Result<String, StoreJsonError>)
    requires
        encode.requires((command_history,)),
    ensures
        encode.ensures((command_history,), r),
{
    store_json(encode(command_history))
}

/// The text of `publisher-cache.json`: what the codec makes of the
/// publisher cache.
pub fn store_publisher_cache<F: Fn(&PublisherCache) -> Result<String, StoreJsonError>>(
    publisher_cache: &PublisherCache,
    encode: &F,
) -> (r: Result<String, StoreJsonError>)
    requires
        encode.requires((publisher_cache,)),
    ensures
        encode.ensures((publisher_cache,), r),
{
    store_json(encode(publisher_cache))
}

} // verus!
