use std::cell::RefCell;
use vet_storage::date::{Date, Timestamp};
use vet_storage::format::{
    AuditEntry, AuditKind, AuditsFile, ConfigFile, CratesPublisher, ExemptedDependency,
    ImportsFile, WildcardEntry,
};
use vet_storage::metadata::{Metadata, PackageInfo};
use vet_storage::publisher_cache::{
    PublisherCache, PublisherCacheEntry, PublisherCacheUser, PublisherCacheVersion,
};
use vet_storage::publisher_import::{
    import_publisher_versions, packages_that_matter, records_of, versions_that_matter,
    wildcard_audits_packages,
};
use vet_storage::publishers::{
    exact_version, get_publishers, CratesAPICrate, CratesAPIUser, CratesAPIVersion,
    FetchAuditError,
};
use vet_storage::store::Store;
use vet_storage::version::{Version, VetVersion};

const PUB_DAY: i64 = 86_400;

fn pub_at(secs: i64) -> Timestamp {
    Timestamp { secs, nanos: 0 }
}

fn pub_vet(major: u64, minor: u64, patch: u64) -> VetVersion {
    VetVersion { semver: Version::new(major, minor, patch), git_rev: None }
}

fn pub_cached(version: Version, by: Option<u64>) -> PublisherCacheVersion {
    PublisherCacheVersion { num: version, created_at: pub_at(1_431_648_000), published_by: by }
}

fn pub_cache(last_fetched: i64) -> PublisherCache {
    let mut cache = PublisherCache::new();
    cache.crates.insert(
        "libx".to_string(),
        PublisherCacheEntry {
            last_fetched: pub_at(last_fetched),
            versions: vec![pub_cached(Version::new(1, 0, 0), Some(1))],
        },
    );
    cache.record_user(PublisherCacheUser { id: 1, login: "alice".to_string(), name: None });
    cache
}

fn pub_answer() -> CratesAPICrate {
    CratesAPICrate {
        versions: vec![
            CratesAPIVersion {
                num: Version::new(1, 1, 0),
                created_at: pub_at(1_431_648_000 + PUB_DAY),
                published_by: Some(CratesAPIUser {
                    id: 2,
                    login: "bob".to_string(),
                    name: Some("Bob".to_string()),
                }),
            },
            CratesAPIVersion {
                num: Version::new(1, 0, 0),
                created_at: pub_at(1_431_648_000),
                published_by: Some(CratesAPIUser {
                    id: 1,
                    login: "alice2".to_string(),
                    name: None,
                }),
            },
            CratesAPIVersion {
                num: Version::new(0, 9, 0),
                created_at: pub_at(1_400_000_000),
                published_by: None,
            },
        ],
    }
}

#[test]
fn the_cache_answers_where_it_holds_the_wanted_versions() {
    let mut cache = pub_cache(0);
    let asked = RefCell::new(0);
    let versions = get_publishers(
        &mut cache,
        pub_at(100 * PUB_DAY),
        "libx",
        &vec![Version::new(1, 0, 0)],
        &|_: &str| -> Option<Vec<String>> { panic!("the index is not asked") },
        &|_: &str| -> Result<CratesAPICrate, FetchAuditError> {
            *asked.borrow_mut() += 1;
            Ok(pub_answer())
        },
    )
    .unwrap();
    assert_eq!(versions, vec![pub_cached(Version::new(1, 0, 0), Some(1))]);
    assert_eq!(*asked.borrow(), 0);
    assert_eq!(cache, pub_cache(0));
}

#[test]
fn the_registry_is_asked_about_a_package_that_the_cache_lacks() {
    let mut cache = PublisherCache::new();
    let urls = RefCell::new(Vec::new());
    let now = pub_at(1_700_000_000);
    let versions = get_publishers(
        &mut cache,
        now,
        "libx",
        &vec![],
        &|_: &str| -> Option<Vec<String>> { None },
        &|url: &str| -> Result<CratesAPICrate, FetchAuditError> {
            urls.borrow_mut().push(url.to_string());
            Ok(pub_answer())
        },
    )
    .unwrap();
    assert_eq!(*urls.borrow(), vec!["https://crates.io/api/v1/crates/libx".to_string()]);
    assert_eq!(versions.len(), 3);
    assert_eq!(versions[0].published_by, Some(2));
    assert_eq!(versions[2].published_by, None);
    let entry = cache.crates.get("libx").unwrap();
    assert_eq!(entry.last_fetched, now);
    assert_eq!(entry.versions, versions);
    assert_eq!(
        cache.get_crates_user_info(2),
        Some(PublisherCacheUser { id: 2, login: "bob".to_string(), name: Some("Bob".to_string()) })
    );
    assert_eq!(cache.get_crates_user_info(1).unwrap().login, "alice2");
    assert_eq!(cache.get_crates_user_info(3), None);
}

#[test]
fn a_missing_version_that_the_index_lacks_is_not_asked_for_within_a_day() {
    let wanted = vec![Version::new(1, 0, 0), Version::new(1, 1, 0)];
    let index = |_: &str| -> Option<Vec<String>> {
        Some(vec!["0.9.0".to_string(), "not a version".to_string(), "1.0.0".to_string()])
    };
    let download = |_: &str| -> Result<CratesAPICrate, FetchAuditError> { Ok(pub_answer()) };
    let mut cache = pub_cache(1000);
    let versions = get_publishers(
        &mut cache,
        Timestamp { secs: 1000 + PUB_DAY - 1, nanos: 999_999_999 },
        "libx",
        &wanted,
        &index,
        &download,
    )
    .unwrap();
    assert_eq!(versions.len(), 1);
    assert_eq!(cache, pub_cache(1000));
    let versions =
        get_publishers(&mut cache, pub_at(1000 + PUB_DAY), "libx", &wanted, &index, &download)
            .unwrap();
    assert_eq!(versions.len(), 3);
    assert_eq!(cache.crates.get("libx").unwrap().last_fetched, pub_at(1000 + PUB_DAY));
}

#[test]
fn a_missing_version_that_the_index_knows_is_asked_for() {
    let wanted = vec![Version::new(1, 1, 0)];
    let download = |_: &str| -> Result<CratesAPICrate, FetchAuditError> { Ok(pub_answer()) };
    let mut cache = pub_cache(1000);
    let versions = get_publishers(
        &mut cache,
        pub_at(1001),
        "libx",
        &wanted,
        &|_: &str| -> Option<Vec<String>> { Some(vec!["1.1.0".to_string()]) },
        &download,
    )
    .unwrap();
    assert_eq!(versions.len(), 3);
}

#[test]
fn a_package_that_the_index_does_not_list_is_not_asked_for_within_a_day() {
    let wanted = vec![Version::new(1, 1, 0)];
    let asked = std::cell::Cell::new(0);
    let download = |_: &str| -> Result<CratesAPICrate, FetchAuditError> {
        asked.set(asked.get() + 1);
        Ok(pub_answer())
    };
    let unlisted = |_: &str| -> Option<Vec<String>> { None };
    let mut cache = pub_cache(1000);
    let versions =
        get_publishers(&mut cache, pub_at(1001), "libx", &wanted, &unlisted, &download).unwrap();
    assert_eq!(versions, pub_cache(1000).crates.get("libx").unwrap().versions);
    assert_eq!(cache, pub_cache(1000));
    assert_eq!(asked.get(), 0);
    let versions =
        get_publishers(&mut cache, pub_at(1000 + PUB_DAY), "libx", &wanted, &unlisted, &download)
            .unwrap();
    assert_eq!(versions.len(), 3);
    assert_eq!(asked.get(), 1);
}

#[test]
fn a_failed_download_leaves_the_cache_as_it_was() {
    let mut cache = pub_cache(0);
    let failure = FetchAuditError::Download {
        url: "https://crates.io/api/v1/crates/liby".to_string(),
        message: "offline".to_string(),
    };
    let outcome = get_publishers(
        &mut cache,
        pub_at(5),
        "liby",
        &vec![],
        &|_: &str| -> Option<Vec<String>> { None },
        &|_: &str| -> Result<CratesAPICrate, FetchAuditError> {
            Err(FetchAuditError::Download {
                url: "https://crates.io/api/v1/crates/liby".to_string(),
                message: "offline".to_string(),
            })
        },
    );
    assert_eq!(outcome, Err(failure));
    assert_eq!(cache, pub_cache(0));
}

#[test]
fn a_version_of_the_index_is_found_by_what_it_reads_as() {
    let index: Vec<String> =
        ["0.1.0", "garbage", "1.2.3-rc.1", "1.2.3", "1.2.3+build5", "1.2.3"]
            .iter()
            .map(|v| v.to_string())
            .collect();
    assert_eq!(exact_version(&index, &Version::new(1, 2, 3)), Some(3));
    assert_eq!(exact_version(&index, &Version::new(0, 1, 0)), Some(0));
    assert_eq!(exact_version(&index, &Version::new(2, 0, 0)), None);
    let pre = Version::parse("1.2.3-rc.1").unwrap();
    assert_eq!(pre.major, 1);
    assert_eq!(pre.pre, "rc.1");
    assert_eq!(pre.build, "");
    assert_eq!(exact_version(&index, &pre), Some(2));
    let built = Version::parse("1.2.3+build5").unwrap();
    assert_eq!(built.build, "build5");
    assert_eq!(exact_version(&index, &built), Some(4));
    assert_eq!(Version::parse("1.2"), None);
    assert_eq!(Version::parse("01.2.3"), None);
}

#[test]
fn the_records_of_the_publishers_are_made_from_the_cache() {
    let mut cache = PublisherCache::new();
    cache.record_user(PublisherCacheUser { id: 1, login: "alice".to_string(), name: None });
    cache.record_user(PublisherCacheUser {
        id: 2,
        login: "bob".to_string(),
        name: Some("Bob".to_string()),
    });
    let publishers = vec![
        pub_cached(Version::new(1, 0, 0), Some(1)),
        pub_cached(Version::new(1, 1, 0), None),
        pub_cached(Version::new(1, 2, 0), Some(9)),
        PublisherCacheVersion {
            num: Version::new(1, 3, 0),
            created_at: Timestamp { secs: 1_431_648_000 + PUB_DAY - 1, nanos: 5 },
            published_by: Some(2),
        },
        PublisherCacheVersion {
            num: Version::new(1, 4, 0),
            created_at: Timestamp { secs: i64::MAX, nanos: 0 },
            published_by: Some(2),
        },
    ];
    let records = records_of(&cache, &vec![Version::new(1, 0, 0)], &publishers);
    assert_eq!(
        records,
        vec![
            CratesPublisher {
                version: pub_vet(1, 0, 0),
                user_id: 1,
                user_login: "alice".to_string(),
                user_name: None,
                when: Date { year: 2015, month: 5, day: 15 },
                is_fresh_import: false,
            },
            CratesPublisher {
                version: pub_vet(1, 3, 0),
                user_id: 2,
                user_login: "bob".to_string(),
                user_name: Some("Bob".to_string()),
                when: Date { year: 2015, month: 5, day: 15 },
                is_fresh_import: true,
            },
        ]
    );
}

fn pub_metadata() -> Metadata {
    let package = |name: &str, version: VetVersion, third: bool| PackageInfo {
        name: name.to_string(),
        version,
        manifest_path: format!("/work/{name}/Cargo.toml"),
        is_third_party: third,
    };
    Metadata {
        packages: vec![
            package("libx", pub_vet(1, 1, 0), true),
            package("mine", pub_vet(0, 1, 0), false),
            package("liby", pub_vet(2, 0, 0), true),
            package("libx", pub_vet(1, 0, 0), true),
            package("libz", pub_vet(3, 0, 0), true),
        ],
    }
}

#[test]
fn the_versions_that_matter_are_gathered_once_each() {
    let metadata = pub_metadata();
    let mut config = ConfigFile::new();
    config.exemptions.insert(
        "libx".to_string(),
        vec![
            ExemptedDependency {
                version: pub_vet(0, 5, 0),
                criteria: vec![],
                suggest: true,
                notes: None,
            },
            ExemptedDependency {
                version: pub_vet(1, 0, 0),
                criteria: vec![],
                suggest: true,
                notes: None,
            },
        ],
    );
    let delta = |from: VetVersion, to: VetVersion| AuditEntry {
        who: vec![],
        criteria: vec![],
        kind: AuditKind::Delta { from, to },
        notes: None,
        is_fresh_import: false,
    };
    let mut audits = AuditsFile::new();
    audits.audits.insert(
        "libx".to_string(),
        vec![
            delta(pub_vet(0, 8, 0), pub_vet(1, 0, 0)),
            AuditEntry {
                who: vec![],
                criteria: vec![],
                kind: AuditKind::Full { version: pub_vet(0, 1, 0) },
                notes: None,
                is_fresh_import: false,
            },
        ],
    );
    let mut peer = AuditsFile::new();
    peer.audits.insert("libx".to_string(), vec![delta(pub_vet(0, 9, 0), pub_vet(1, 1, 0))]);
    let mut live = ImportsFile::new();
    live.audits.insert("p".to_string(), peer);
    let mut lock = ImportsFile::new();
    lock.publisher.insert(
        "libx".to_string(),
        vec![CratesPublisher {
            version: pub_vet(0, 7, 0),
            user_id: 1,
            user_login: "alice".to_string(),
            user_name: None,
            when: Date { year: 2015, month: 5, day: 15 },
            is_fresh_import: false,
        }],
    );
    let wanted = versions_that_matter("libx", &metadata, &config, &audits, &lock, &live);
    assert_eq!(
        wanted,
        vec![
            Version::new(1, 1, 0),
            Version::new(1, 0, 0),
            Version::new(0, 8, 0),
            Version::new(0, 9, 0),
            Version::new(0, 5, 0),
            Version::new(0, 7, 0),
        ]
    );
    let relevant: Vec<String> =
        ["libz", "libx", "mine", "gone"].iter().map(|n| n.to_string()).collect();
    assert_eq!(
        packages_that_matter(&metadata, &relevant),
        vec!["libx".to_string(), "libz".to_string()]
    );
}

#[test]
fn the_publishers_are_put_into_the_live_imports() {
    let metadata = pub_metadata();
    let mut cache = PublisherCache::new();
    let mut lock = ImportsFile::new();
    lock.publisher.insert(
        "libx".to_string(),
        vec![CratesPublisher {
            version: pub_vet(1, 0, 0),
            user_id: 1,
            user_login: "alice".to_string(),
            user_name: None,
            when: Date { year: 2015, month: 5, day: 15 },
            is_fresh_import: false,
        }],
    );
    let mut live = ImportsFile::new();
    live.publisher.insert("keep".to_string(), vec![]);
    let asked = RefCell::new(Vec::new());
    import_publisher_versions(
        &metadata,
        &mut cache,
        pub_at(1_700_000_000),
        &vec!["libx".to_string()],
        &ConfigFile::new(),
        &AuditsFile::new(),
        &lock,
        &mut live,
        &|_: &str| -> Option<Vec<String>> { None },
        &|url: &str| -> Result<CratesAPICrate, FetchAuditError> {
            asked.borrow_mut().push(url.to_string());
            Ok(pub_answer())
        },
    )
    .unwrap();
    assert_eq!(*asked.borrow(), vec!["https://crates.io/api/v1/crates/libx".to_string()]);
    assert_eq!(live.publisher.keys, vec!["keep".to_string(), "libx".to_string()]);
    let records = live.publisher.get("libx").unwrap();
    assert_eq!(records.len(), 2);
    assert_eq!(records[0].version, pub_vet(1, 1, 0));
    assert_eq!(records[0].user_login, "bob");
    assert_eq!(records[0].when, Date { year: 2015, month: 5, day: 16 });
    assert!(records[0].is_fresh_import);
    assert_eq!(records[1].version, pub_vet(1, 0, 0));
    assert_eq!(records[1].user_login, "alice2");
    assert!(!records[1].is_fresh_import);
    let mut untouched = ImportsFile::new();
    let failure = import_publisher_versions(
        &metadata,
        &mut PublisherCache::new(),
        pub_at(0),
        &vec!["libx".to_string(), "libz".to_string()],
        &ConfigFile::new(),
        &AuditsFile::new(),
        &lock,
        &mut untouched,
        &|_: &str| -> Option<Vec<String>> { None },
        &|url: &str| -> Result<CratesAPICrate, FetchAuditError> {
            if url.ends_with("libz") {
                Err(FetchAuditError::Download { url: url.to_string(), message: "no".to_string() })
            } else {
                Ok(pub_answer())
            }
        },
    );
    assert!(matches!(failure, Err(FetchAuditError::Download { .. })));
    assert_eq!(untouched, ImportsFile::new());
}

#[test]
fn a_store_looks_up_the_publishers_of_a_package() {
    let metadata = pub_metadata();
    let mut cache = PublisherCache::new();
    let index = |_: &str| -> Option<Vec<String>> { None };
    let download = |_: &str| -> Result<CratesAPICrate, FetchAuditError> { Ok(pub_answer()) };
    let mut store = Store::mock(ConfigFile::new(), AuditsFile::new(), ImportsFile::new());
    let none = store
        .ensure_publisher_versions(&metadata, &mut cache, pub_at(0), &index, Some(&download), "libx")
        .unwrap();
    assert!(none.is_empty());
    assert_eq!(cache, PublisherCache::new());
    store.live_imports = Some(ImportsFile::new());
    let offline: Option<&fn(&str) -> Result<CratesAPICrate, FetchAuditError>> = None;
    let none = store
        .ensure_publisher_versions(&metadata, &mut cache, pub_at(0), &index, offline, "libx")
        .unwrap();
    assert!(none.is_empty());
    assert_eq!(cache, PublisherCache::new());
    assert_eq!(store.live_imports, Some(ImportsFile::new()));
    let found = store
        .ensure_publisher_versions(&metadata, &mut cache, pub_at(0), &index, Some(&download), "libx")
        .unwrap();
    assert_eq!(found.len(), 2);
    assert_eq!(store.publishers().get("libx").unwrap(), &found);
    let absent = store
        .ensure_publisher_versions(&metadata, &mut cache, pub_at(0), &index, Some(&download), "gone")
        .unwrap();
    assert!(absent.is_empty());
}

#[test]
fn the_packages_with_wildcard_audits_are_named_once_each() {
    let wildcard = || WildcardEntry {
        who: vec![],
        criteria: vec![],
        user_id: 1,
        start: Date { year: 2023, month: 1, day: 1 },
        end: Date { year: 2024, month: 1, day: 1 },
        notes: None,
        is_fresh_import: false,
    };
    let mut audits = AuditsFile::new();
    audits.wildcard_audits.insert("libb".to_string(), vec![wildcard()]);
    audits.wildcard_audits.insert("liba".to_string(), vec![wildcard()]);
    let mut peer = AuditsFile::new();
    peer.wildcard_audits.insert("libc".to_string(), vec![wildcard()]);
    peer.wildcard_audits.insert("liba".to_string(), vec![wildcard()]);
    let mut imports = ImportsFile::new();
    imports.audits.insert("p".to_string(), peer);
    imports.publisher.insert("libd".to_string(), vec![]);
    imports.publisher.insert("libb".to_string(), vec![]);
    assert_eq!(
        wildcard_audits_packages(&audits, &imports),
        vec!["liba".to_string(), "libb".to_string(), "libc".to_string(), "libd".to_string()]
    );
    assert!(wildcard_audits_packages(&AuditsFile::new(), &ImportsFile::new()).is_empty());
}
