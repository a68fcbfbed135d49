use vet_storage::cache::{
    mock_diffstat, Cache, CommandHistory, DiffCache, DiffPlan, FetchCommand,
    MAX_CONCURRENT_DIFFS,
};
use vet_storage::coalesce::{Claim, Coalescer};
use vet_storage::codec::{StoreJsonError, StoreTomlError};
use vet_storage::diffstat::DiffStat;
use vet_storage::fetch::{
    FetchAction, FetchError, FetchEvent, FetchJob, FetchState, FetchStep, UnpackCheckoutError,
    UnpackError,
};
use vet_storage::gc::{gc_packages, gc_root, should_keep_package, stem_of, CacheEntry, SrcEntry};
use vet_storage::metadata::{locate_local_checkout, Metadata, PackageInfo};
use vet_storage::paths::{join, CargoRegistry};
use vet_storage::publisher_cache::PublisherCache;
use vet_storage::version::{Delta, Version, VetVersion};

fn ca_version(major: u64, minor: u64, patch: u64) -> VetVersion {
    VetVersion { semver: Version::new(major, minor, patch), git_rev: None }
}

fn ca_delta() -> Delta {
    Delta { from: Some(ca_version(1, 0, 0)), to: ca_version(1, 0, 1) }
}

fn ca_cache() -> Cache {
    Cache::acquire(Some("/cache"), None, None, None, None)
}

fn ca_names(names: &[&str]) -> Vec<String> {
    names.iter().map(|n| n.to_string()).collect()
}

#[test]
fn ten_requests_for_a_diff_compute_it_once() {
    let mut cache = ca_cache();
    let delta = ca_delta();
    let mut computes = 0;
    let mut waits = 0;
    for _ in 0..10 {
        match cache.fetch_and_diffstat_package("x", &delta) {
            DiffPlan::Compute { empty, has_git_rev } => {
                assert_eq!(empty, None);
                assert!(!has_git_rev);
                computes += 1;
            }
            DiffPlan::Wait => waits += 1,
            DiffPlan::Known { .. } => panic!("the diff is not known yet"),
        }
    }
    assert_eq!(computes, 1);
    assert_eq!(waits, 9);
    let stat = DiffStat { files_changed: 2, insertions: 10, deletions: 3 };
    cache.finish_diff("x", &delta, Some(stat));
    for _ in 0..10 {
        assert_eq!(cache.fetch_and_diffstat_package("x", &delta), DiffPlan::Known { stat });
    }
    match &cache.diff_cache {
        DiffCache::V2 { diffs } => {
            assert_eq!(diffs.len(), 1);
            let of_x = diffs.get("x").unwrap();
            assert_eq!(of_x.len(), 1);
            assert_eq!(of_x.get(&delta), Some(&stat));
        }
    }
}

#[test]
fn a_diff_that_failed_is_computed_again() {
    let mut cache = ca_cache();
    let delta = Delta { from: None, to: VetVersion { semver: Version::new(1, 0, 0), git_rev: Some("abc".to_string()) } };
    assert_eq!(
        cache.fetch_and_diffstat_package("x", &delta),
        DiffPlan::Compute { empty: Some("/cache/empty".to_string()), has_git_rev: true }
    );
    assert_eq!(cache.fetch_and_diffstat_package("x", &delta), DiffPlan::Wait);
    cache.finish_diff("x", &delta, None);
    assert!(matches!(
        cache.fetch_and_diffstat_package("x", &delta),
        DiffPlan::Compute { .. }
    ));
    assert_eq!(cache.diff_cache, DiffCache::new());
}

#[test]
fn a_diff_of_the_diff_cache_is_known() {
    let mut diffs = DiffCache::new();
    let stat = DiffStat { files_changed: 1, insertions: 1, deletions: 1 };
    diffs.insert("x", &ca_delta(), stat);
    diffs.insert("x", &ca_delta(), DiffStat { files_changed: 5, insertions: 6, deletions: 7 });
    diffs.insert("y", &ca_delta(), stat);
    assert_eq!(diffs.get("x", &ca_delta()), Some(DiffStat { files_changed: 5, insertions: 6, deletions: 7 }));
    assert_eq!(diffs.get("z", &ca_delta()), None);
    let mut cache = Cache::acquire(Some("/cache"), None, Some(diffs), None, None);
    assert_eq!(
        cache.fetch_and_diffstat_package("y", &ca_delta()),
        DiffPlan::Known { stat }
    );
    assert_eq!(cache.diff_cache_path, Some("/cache/diff-cache.toml".to_string()));
    assert_eq!(cache.command_history_path, Some("/cache/command-history.json".to_string()));
    assert_eq!(cache.publisher_cache_path, Some("/cache/publisher-cache.json".to_string()));
}

#[test]
fn a_cache_without_a_directory_makes_diffs_up() {
    let mut cache = Cache::acquire(None, None, Some(DiffCache::new()), None, None);
    assert_eq!(cache.root, None);
    assert_eq!(cache.diff_cache_path, None);
    let grow = Delta { from: Some(ca_version(2, 0, 0)), to: ca_version(5, 1, 0) };
    assert_eq!(
        cache.fetch_and_diffstat_package("x", &grow),
        DiffPlan::Known { stat: DiffStat { files_changed: 1, insertions: 21, deletions: 0 } }
    );
    let shrink = Delta { from: Some(ca_version(5, 0, 0)), to: ca_version(2, 1, 0) };
    assert_eq!(mock_diffstat(&shrink), DiffStat { files_changed: 1, insertions: 0, deletions: 21 });
    let new = Delta { from: None, to: ca_version(3, 0, 0) };
    assert_eq!(mock_diffstat(&new), DiffStat { files_changed: 1, insertions: 9, deletions: 0 });
    let same = Delta { from: Some(ca_version(3, 1, 0)), to: ca_version(3, 0, 0) };
    assert_eq!(mock_diffstat(&same), DiffStat { files_changed: 1, insertions: 0, deletions: 0 });
    let huge = Delta { from: None, to: ca_version(u64::MAX, 0, 0) };
    assert_eq!(mock_diffstat(&huge).insertions, u64::MAX);
    assert_eq!(MAX_CONCURRENT_DIFFS, 40);
}

#[test]
fn ten_fetches_of_a_version_start_one_fetch() {
    let mut cache = ca_cache();
    let version = ca_version(1, 2, 3);
    let mut starts = 0;
    let mut waits = 0;
    for i in 0..10 {
        match cache.begin_fetch("libx", &version) {
            Claim::Start => starts += 1,
            Claim::Wait => waits += 1,
            Claim::Ready(_) => panic!("nothing is ready yet"),
        }
        assert_eq!(cache.begin_fetch(&format!("other{i}"), &version), Claim::Start);
    }
    assert_eq!(starts, 1);
    assert_eq!(waits, 9);
    cache.finish_fetch("libx", &version, Some("/cache/src/libx-1.2.3".to_string()));
    for _ in 0..10 {
        assert_eq!(
            cache.begin_fetch("libx", &version),
            Claim::Ready("/cache/src/libx-1.2.3".to_string())
        );
    }
    assert_eq!(cache.begin_fetch("libx", &ca_version(1, 2, 4)), Claim::Start);
    cache.finish_fetch("libx", &ca_version(1, 2, 4), None);
    assert_eq!(cache.begin_fetch("libx", &ca_version(1, 2, 4)), Claim::Start);
}

#[test]
fn a_coalescer_tells_keys_apart() {
    let mut work: Coalescer<String, u64> = Coalescer::new();
    assert_eq!(work.claim(&"a".to_string()), Claim::Start);
    assert_eq!(work.claim(&"b".to_string()), Claim::Start);
    work.settle(&"a".to_string(), Some(1));
    assert_eq!(work.claim(&"a".to_string()), Claim::Ready(1));
    assert_eq!(work.claim(&"b".to_string()), Claim::Wait);
    work.settle(&"b".to_string(), Some(2));
    assert_eq!(work.claim(&"a".to_string()), Claim::Ready(1));
    assert_eq!(work.claim(&"b".to_string()), Claim::Ready(2));
}

fn ca_job(version: VetVersion, registry: bool, network: bool, checkout: Option<&str>) -> FetchJob {
    FetchJob {
        package: "libx".to_string(),
        version,
        root: "/cache".to_string(),
        registry_src: if registry { Some("/cargo/registry/src/index".to_string()) } else { None },
        network,
        checkout: checkout.map(|c| c.to_string()),
    }
}

fn ca_do(state: FetchState, action: FetchAction) -> FetchStep {
    FetchStep::Do { state, action }
}

#[test]
fn a_package_of_the_registry_of_the_host_is_handed_out() {
    let job = ca_job(ca_version(1, 2, 3), true, true, None);
    assert_eq!(
        job.start(),
        ca_do(
            FetchState::CheckRegistry,
            FetchAction::CheckMarker { dir: "/cargo/registry/src/index/libx-1.2.3".to_string() }
        )
    );
    assert_eq!(
        job.next(FetchState::CheckRegistry, FetchEvent::Marker { valid: true }),
        FetchStep::Done { outcome: Ok("/cargo/registry/src/index/libx-1.2.3".to_string()) }
    );
    assert_eq!(
        job.next(FetchState::CheckRegistry, FetchEvent::Marker { valid: false }),
        ca_do(
            FetchState::OpenCached,
            FetchAction::OpenCached { archive: "/cache/cache/libx-1.2.3.crate".to_string() }
        )
    );
}

#[test]
fn a_package_is_downloaded_and_unpacked() {
    let job = ca_job(ca_version(1, 2, 3), false, true, None);
    let archive = "/cache/cache/libx-1.2.3.crate".to_string();
    let dir = "/cache/src/libx-1.2.3".to_string();
    assert_eq!(
        job.start(),
        ca_do(FetchState::OpenCached, FetchAction::OpenCached { archive: archive.clone() })
    );
    assert_eq!(
        job.next(FetchState::OpenCached, FetchEvent::Opened { found: false }),
        ca_do(
            FetchState::Download,
            FetchAction::Download {
                url: "https://crates.io/api/v1/crates/libx/1.2.3/download".to_string(),
                archive: archive.clone(),
            }
        )
    );
    assert_eq!(
        job.next(FetchState::Download, FetchEvent::Downloaded { downloaded: Ok(()) }),
        ca_do(FetchState::OpenDownloaded, FetchAction::OpenDownloaded { archive: archive.clone() })
    );
    assert_eq!(
        job.next(FetchState::OpenDownloaded, FetchEvent::Reopened { reopened: Ok(()) }),
        ca_do(FetchState::CheckUnpacked, FetchAction::CheckMarker { dir: dir.clone() })
    );
    assert_eq!(
        job.next(FetchState::CheckUnpacked, FetchEvent::Marker { valid: false }),
        ca_do(
            FetchState::Unpack,
            FetchAction::Unpack { archive: archive.clone(), dir: dir.clone() }
        )
    );
    assert_eq!(
        job.next(FetchState::Unpack, FetchEvent::Unpacked { unpacked: Ok(()) }),
        FetchStep::Done { outcome: Ok(dir.clone()) }
    );
    assert_eq!(
        job.next(FetchState::OpenCached, FetchEvent::Opened { found: true }),
        ca_do(FetchState::CheckUnpacked, FetchAction::CheckMarker { dir: dir.clone() })
    );
    assert_eq!(
        job.next(FetchState::CheckUnpacked, FetchEvent::Marker { valid: true }),
        FetchStep::Done { outcome: Ok(dir) }
    );
}

#[test]
fn a_fetch_reports_what_went_wrong() {
    let job = ca_job(ca_version(1, 2, 3), false, false, None);
    assert_eq!(
        job.next(FetchState::OpenCached, FetchEvent::Opened { found: false }),
        FetchStep::Done {
            outcome: Err(FetchError::Frozen {
                package: "libx".to_string(),
                version: Version::new(1, 2, 3),
            })
        }
    );
    let job = ca_job(ca_version(1, 2, 3), false, true, None);
    assert_eq!(
        job.next(
            FetchState::Download,
            FetchEvent::Downloaded { downloaded: Err("refused".to_string()) }
        ),
        FetchStep::Done {
            outcome: Err(FetchError::Download {
                url: "https://crates.io/api/v1/crates/libx/1.2.3/download".to_string(),
                message: "refused".to_string(),
            })
        }
    );
    assert_eq!(
        job.next(
            FetchState::OpenDownloaded,
            FetchEvent::Reopened { reopened: Err("gone".to_string()) }
        ),
        FetchStep::Done {
            outcome: Err(FetchError::OpenCached {
                target: "/cache/cache/libx-1.2.3.crate".to_string(),
                message: "gone".to_string(),
            })
        }
    );
    let failure =
        UnpackError::InvalidPaths { entry_path: "../evil".to_string(), prefix: "libx-1.2.3".to_string() };
    assert_eq!(
        job.next(FetchState::Unpack, FetchEvent::Unpacked { unpacked: Err(failure.clone()) }),
        FetchStep::Done {
            outcome: Err(FetchError::Unpack {
                archive: "/cache/cache/libx-1.2.3.crate".to_string(),
                failure,
            })
        }
    );
    let odd = FetchJob { package: "libx".to_string(), ..ca_job(ca_version(1, 2, 3), false, true, None) };
    let odd = FetchJob { package: "li bx".to_string(), ..odd };
    assert!(matches!(
        odd.next(FetchState::OpenCached, FetchEvent::Opened { found: false }),
        FetchStep::Do { state: FetchState::Download, .. }
    ));
}

#[test]
fn a_version_from_a_git_checkout_is_repacked() {
    let version = VetVersion { semver: Version::new(1, 2, 3), git_rev: Some("00ff".to_string()) };
    let dir = "/cache/src/libx-1.2.3.git.00ff".to_string();
    let job = ca_job(version.clone(), true, true, Some("/work/libx"));
    assert_eq!(
        job.start(),
        ca_do(FetchState::CheckRepacked, FetchAction::CheckMarker { dir: dir.clone() })
    );
    assert_eq!(
        job.next(FetchState::CheckRepacked, FetchEvent::Marker { valid: false }),
        ca_do(
            FetchState::RepackCheckout,
            FetchAction::UnpackCheckout { checkout: "/work/libx".to_string(), dir: dir.clone() }
        )
    );
    assert_eq!(
        job.next(FetchState::RepackCheckout, FetchEvent::Repacked { repacked: Ok(()) }),
        FetchStep::Done { outcome: Ok(dir.clone()) }
    );
    assert_eq!(
        job.next(FetchState::CheckRepacked, FetchEvent::Marker { valid: true }),
        FetchStep::Done { outcome: Ok(dir) }
    );
    assert_eq!(
        job.next(
            FetchState::RepackCheckout,
            FetchEvent::Repacked { repacked: Err(UnpackCheckoutError::BadStatus { status: 101 }) }
        ),
        FetchStep::Done {
            outcome: Err(FetchError::UnpackCheckout {
                src: "/work/libx".to_string(),
                error: UnpackCheckoutError::BadStatus { status: 101 },
            })
        }
    );
    let lost = ca_job(version, true, true, None);
    assert_eq!(
        lost.next(FetchState::CheckRepacked, FetchEvent::Marker { valid: false }),
        FetchStep::Done {
            outcome: Err(FetchError::UnknownGitRevision {
                package: "libx".to_string(),
                git_rev: "00ff".to_string(),
            })
        }
    );
}

#[test]
fn the_checkout_of_a_package_is_the_directory_of_its_manifest() {
    let version = VetVersion { semver: Version::new(1, 2, 3), git_rev: Some("00ff".to_string()) };
    let metadata = Metadata {
        packages: vec![
            PackageInfo {
                name: "libx".to_string(),
                version: ca_version(1, 2, 3),
                manifest_path: "/registry/libx/Cargo.toml".to_string(),
                is_third_party: true,
            },
            PackageInfo {
                name: "libx".to_string(),
                version: version.clone(),
                manifest_path: "/work/libx/Cargo.toml".to_string(),
                is_third_party: true,
            },
        ],
    };
    assert_eq!(locate_local_checkout(&metadata, "libx", &version), Some("/work/libx".to_string()));
    assert_eq!(locate_local_checkout(&metadata, "liby", &version), None);
    let cache = Cache::acquire(
        Some("/cache"),
        Some(CargoRegistry {
            base_dir: "/cargo/registry".to_string(),
            registry: "index".to_string(),
            index_up_to_date: false,
        }),
        None,
        None,
        None,
    );
    let job = cache.fetch_package(&metadata, true, "libx", &version);
    assert_eq!(job.checkout, Some("/work/libx".to_string()));
    assert_eq!(job.registry_src, Some("/cargo/registry/src/index".to_string()));
    assert_eq!(job.root, "/cache");
    let plain = cache.fetch_package(&metadata, false, "libx", &ca_version(1, 2, 3));
    assert_eq!(plain.checkout, None);
    assert!(!plain.network);
}

#[test]
fn the_registry_of_the_host_has_two_directories() {
    let registry = CargoRegistry {
        base_dir: "/cargo/registry".to_string(),
        registry: "index.crates.io-6f17d22bba15001f".to_string(),
        index_up_to_date: false,
    };
    assert_eq!(registry.src(), "/cargo/registry/src/index.crates.io-6f17d22bba15001f");
    assert_eq!(registry.cache(), "/cargo/registry/cache/index.crates.io-6f17d22bba15001f");
    assert_eq!(join("", "name"), "name");
    assert_eq!(join("/", "name"), "/name");
    assert_eq!(join("dir/", "name"), "dir/name");
}

#[test]
fn the_index_is_brought_up_to_date_once() {
    let mut cache = Cache::acquire(None, None, None, None, None);
    assert!(!cache.has_registry());
    assert!(!cache.ensure_index_up_to_date(&|| true));
    let mut cache = Cache::acquire(
        None,
        Some(CargoRegistry {
            base_dir: "/cargo/registry".to_string(),
            registry: "index".to_string(),
            index_up_to_date: false,
        }),
        None,
        None,
        None,
    );
    assert!(cache.has_registry());
    assert!(cache.ensure_index_up_to_date(&|| true));
    assert!(!cache.ensure_index_up_to_date(&|| true));
    let mut other = Cache::acquire(
        None,
        Some(CargoRegistry {
            base_dir: "/cargo/registry".to_string(),
            registry: "index".to_string(),
            index_up_to_date: false,
        }),
        None,
        None,
        None,
    );
    assert!(!other.ensure_index_up_to_date(&|| false));
    assert!(other.cargo_registry.as_ref().unwrap().index_up_to_date);
}

#[test]
fn the_last_fetch_is_kept() {
    let mut cache = ca_cache();
    assert_eq!(cache.get_last_fetch(), None);
    cache.set_last_fetch(FetchCommand { record: "inspect libx 1.2.3".to_string() });
    assert_eq!(
        cache.get_last_fetch(),
        Some(FetchCommand { record: "inspect libx 1.2.3".to_string() })
    );
}

#[test]
fn a_flush_writes_what_the_codecs_can_write() {
    let mut cache = Cache::acquire(
        Some("/cache"),
        None,
        None,
        Some(CommandHistory { last_fetch: Some(FetchCommand { record: "last".to_string() }) }),
        None,
    );
    cache.finish_diff("x", &ca_delta(), Some(DiffStat { files_changed: 1, insertions: 2, deletions: 3 }));
    let files = cache.flush(
        &|diffs: &DiffCache| -> Result<String, StoreTomlError> {
            match diffs {
                DiffCache::V2 { diffs } => Ok(format!("diffs of {}", diffs.len())),
            }
        },
        &|_: &CommandHistory| -> Result<String, StoreJsonError> {
            Err(StoreJsonError { message: "no".to_string() })
        },
        &|publishers: &PublisherCache| -> Result<String, StoreJsonError> {
            Ok(format!("users: {}", publishers.users.len()))
        },
    );
    assert_eq!(
        files,
        vec![
            ("/cache/diff-cache.toml".to_string(), "diffs of 1".to_string()),
            ("/cache/publisher-cache.json".to_string(), "users: 0".to_string()),
        ]
    );
    assert_eq!(cache.diff_cache, DiffCache::new());
    assert_eq!(cache.get_last_fetch(), None);
    let mut mock = Cache::acquire(None, None, None, None, None);
    let nothing = mock.flush(
        &|_: &DiffCache| -> Result<String, StoreTomlError> { Ok("d".to_string()) },
        &|_: &CommandHistory| -> Result<String, StoreJsonError> { Ok("h".to_string()) },
        &|_: &PublisherCache| -> Result<String, StoreJsonError> { Ok("p".to_string()) },
    );
    assert!(nothing.is_empty());
}

#[test]
fn a_cleaning_removes_all_but_the_lock() {
    let mut cache = ca_cache();
    cache.set_last_fetch(FetchCommand { record: "last".to_string() });
    cache.finish_diff("x", &ca_delta(), Some(DiffStat { files_changed: 1, insertions: 2, deletions: 3 }));
    let removed = cache.clean(&ca_names(&["src", ".vet-lock", "cache", "stray", "diff-cache.toml"]));
    assert_eq!(removed, ca_names(&["src", "cache", "stray", "diff-cache.toml"]));
    assert_eq!(cache.get_last_fetch(), None);
    assert_eq!(cache.diff_cache, DiffCache::new());
    assert_eq!(cache.root, Some("/cache".to_string()));
    assert_eq!(cache.diff_cache_path, None);
    assert_eq!(cache.command_history_path, None);
    assert_eq!(cache.publisher_cache_path, None);
    let written = cache.flush(
        &|_: &DiffCache| -> Result<String, StoreTomlError> { Ok("d".to_string()) },
        &|_: &CommandHistory| -> Result<String, StoreJsonError> { Ok("h".to_string()) },
        &|_: &PublisherCache| -> Result<String, StoreJsonError> { Ok("p".to_string()) },
    );
    assert!(written.is_empty());
}

#[test]
fn a_diff_leaves_the_other_documents_as_they_were() {
    let mut cache = ca_cache();
    cache.set_last_fetch(FetchCommand { record: "last".to_string() });
    let before = cache.clone();
    cache.finish_diff("x", &ca_delta(), Some(DiffStat { files_changed: 1, insertions: 2, deletions: 3 }));
    let plan = cache.fetch_and_diffstat_package("x", &ca_delta());
    assert_eq!(plan, DiffPlan::Known { stat: DiffStat { files_changed: 1, insertions: 2, deletions: 3 } });
    cache.begin_fetch("x", &ca_version(1, 0, 0));
    cache.finish_fetch("x", &ca_version(1, 0, 0), None);
    assert_eq!(cache.command_history, before.command_history);
    assert_eq!(cache.publisher_cache, before.publisher_cache);
    assert_eq!(cache.cargo_registry, before.cargo_registry);
    assert_eq!(cache.root, before.root);
    assert_eq!(cache.diff_cache_path, before.diff_cache_path);
    assert_eq!(cache.command_history_path, before.command_history_path);
    assert_eq!(cache.publisher_cache_path, before.publisher_cache_path);
}

#[test]
fn a_collection_of_garbage_keeps_what_is_needed() {
    let cache = ca_cache();
    let day: u128 = 86_400_000_000_000;
    let plan = cache
        .gc(
            &ca_names(&[
                "diff-cache.toml",
                "command-history.json",
                "publisher-cache.json",
                "empty",
                "src",
                "cache",
                ".vet-lock",
                "stray.txt",
                "SRC",
            ]),
            &ca_names(&["left-over", "another"]),
            &[
                CacheEntry { name: "young-1.0.0.crate".to_string(), age: Some(day) },
                CacheEntry { name: "old-1.0.0.crate".to_string(), age: Some(30 * day + 1) },
                CacheEntry { name: "edge-1.0.0.crate".to_string(), age: Some(30 * day) },
                CacheEntry { name: "ageless-1.0.0.crate".to_string(), age: None },
                CacheEntry { name: "notes.txt".to_string(), age: Some(0) },
                CacheEntry { name: ".crate".to_string(), age: Some(0) },
                CacheEntry { name: "plain".to_string(), age: Some(0) },
                CacheEntry { name: "broken-1.0.0.crate".to_string(), age: Some(0) },
            ]
            .to_vec(),
            &[
                SrcEntry { name: "young-1.0.0".to_string(), marker_valid: true },
                SrcEntry { name: "old-1.0.0".to_string(), marker_valid: true },
                SrcEntry { name: "edge-1.0.0".to_string(), marker_valid: true },
                SrcEntry { name: "ageless-1.0.0".to_string(), marker_valid: true },
                SrcEntry { name: "broken-1.0.0".to_string(), marker_valid: false },
                SrcEntry { name: "orphan-1.0.0".to_string(), marker_valid: true },
            ]
            .to_vec(),
            30 * day,
        )
        .unwrap();
    assert_eq!(plan.root, ca_names(&["stray.txt", "SRC"]));
    assert_eq!(plan.empty, ca_names(&["left-over", "another"]));
    assert_eq!(plan.cache, ca_names(&["old-1.0.0.crate", "notes.txt", ".crate", "plain"]));
    assert_eq!(plan.src, ca_names(&["old-1.0.0", "broken-1.0.0", "orphan-1.0.0"]));
    let mock = Cache::acquire(None, None, None, None, None);
    assert_eq!(mock.gc(&vec![], &vec![], &vec![], &vec![], day), None);
}

#[test]
fn a_packed_package_is_known_by_its_name() {
    assert_eq!(stem_of("serde-1.0.200.crate"), Some("serde-1.0.200".to_string()));
    assert_eq!(stem_of("serde-1.0.200.tar"), None);
    assert_eq!(stem_of("crate"), None);
    assert_eq!(stem_of(".crate"), None);
    assert_eq!(stem_of("a.crate"), Some("a".to_string()));
    assert_eq!(stem_of("a.b."), None);
    assert_eq!(
        should_keep_package(&CacheEntry { name: "a.crate".to_string(), age: Some(5) }, 5),
        Some("a".to_string())
    );
    assert_eq!(
        should_keep_package(&CacheEntry { name: "a.crate".to_string(), age: Some(6) }, 5),
        None
    );
    assert_eq!(gc_root(&ca_names(&["cache", "x"])), ca_names(&["x"]));
    let removed = gc_packages(&vec![], &vec![SrcEntry { name: "a".to_string(), marker_valid: true }], 0);
    assert_eq!(removed.src, ca_names(&["a"]));
    assert!(removed.cache.is_empty());
}
