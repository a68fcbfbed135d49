use vet_storage::codec::{SourceFile, StoreTomlError};
use vet_storage::date::Date;
use vet_storage::format::{
    AuditEntry, AuditKind, AuditsFile, ConfigFile, CriteriaEntry, ExemptedDependency,
    ImportConfig, ImportsFile, PolicyEntry, WildcardEntry,
};
use vet_storage::store::{Document, Store, StoreLock};
use vet_storage::table::Table;
use vet_storage::validate::{check_trimmed_format, StoreValidateError};
use vet_storage::version::{Version, VetVersion};

fn st_version(major: u64, minor: u64, patch: u64) -> VetVersion {
    VetVersion { semver: Version::new(major, minor, patch), git_rev: None }
}

fn st_wildcard(end: Date, criteria: &[&str]) -> WildcardEntry {
    WildcardEntry {
        who: vec![],
        criteria: criteria.iter().map(|c| c.to_string()).collect(),
        user_id: 1,
        start: Date { year: 2023, month: 1, day: 1 },
        end,
        notes: None,
        is_fresh_import: false,
    }
}

fn st_exemption(version: VetVersion, suggest: bool) -> ExemptedDependency {
    ExemptedDependency {
        version,
        criteria: vec!["safe-to-deploy".to_string()],
        suggest,
        notes: None,
    }
}

fn st_encode(document: Document) -> Result<String, StoreTomlError> {
    Ok(match document {
        Document::Config(config) => format!("{:?}\n", config),
        Document::Audits(audits) => format!("{:?}\n", audits),
        Document::Imports(imports) => format!("{:?}\n", imports),
    })
}

fn st_today() -> Date {
    Date { year: 2024, month: 5, day: 1 }
}

#[test]
fn a_wildcard_audit_may_not_end_later_than_a_year_from_today() {
    let mut audits = AuditsFile::new();
    audits.wildcard_audits.insert(
        "libx".to_string(),
        vec![
            st_wildcard(Date { year: 2026, month: 1, day: 1 }, &["safe-to-run"]),
            st_wildcard(Date { year: 2025, month: 5, day: 1 }, &["safe-to-run"]),
            st_wildcard(Date { year: 2025, month: 5, day: 2 }, &["safe-to-run"]),
        ],
    );
    let store = Store::mock(ConfigFile::new(), audits, ImportsFile::new());
    let failure = store.validate(st_today(), false, &st_encode).unwrap_err();
    assert_eq!(
        failure.errors,
        vec![
            StoreValidateError::BadWildcardEndDate {
                date: Date { year: 2026, month: 1, day: 1 },
                max: Date { year: 2025, month: 5, day: 1 },
            },
            StoreValidateError::BadWildcardEndDate {
                date: Date { year: 2025, month: 5, day: 2 },
                max: Date { year: 2025, month: 5, day: 1 },
            },
        ]
    );
}

#[test]
fn a_year_from_the_last_of_february_of_a_leap_year() {
    let mut audits = AuditsFile::new();
    audits.wildcard_audits.insert(
        "libx".to_string(),
        vec![st_wildcard(Date { year: 2025, month: 3, day: 1 }, &["safe-to-run"])],
    );
    let store = Store::mock(ConfigFile::new(), audits, ImportsFile::new());
    let failure =
        store.validate(Date { year: 2024, month: 2, day: 29 }, false, &st_encode).unwrap_err();
    assert_eq!(
        failure.errors,
        vec![StoreValidateError::BadWildcardEndDate {
            date: Date { year: 2025, month: 3, day: 1 },
            max: Date { year: 2025, month: 2, day: 28 },
        }]
    );
}

#[test]
fn an_empty_store_is_valid() {
    let store = Store::create(StoreLock { root: "supply-chain".to_string() });
    assert!(store.lock.is_some());
    assert_eq!(store.config, ConfigFile::new());
    assert_eq!(store.config_src, SourceFile::new_empty("config.toml"));
    assert_eq!(store.audits_src, SourceFile::new_empty("audits.toml"));
    assert_eq!(store.imports_src, SourceFile::new_empty("imports.lock"));
    assert_eq!(store.validate(st_today(), false, &st_encode), Ok(()));
}

#[test]
fn unknown_criteria_are_reported_in_the_order_of_the_documents() {
    let mut config = ConfigFile::new();
    config.exemptions.insert(
        "libe".to_string(),
        vec![ExemptedDependency {
            version: st_version(1, 0, 0),
            criteria: vec!["e-unknown".to_string(), "reviewed".to_string()],
            suggest: true,
            notes: None,
        }],
    );
    let mut dependency_criteria: Table<Vec<String>> = Table::new();
    dependency_criteria.insert("dep".to_string(), vec!["d-unknown".to_string()]);
    config.policy.insert(
        "first-party".to_string(),
        PolicyEntry {
            criteria: Some(vec!["p-unknown".to_string(), "safe-to-run".to_string()]),
            dev_criteria: None,
            dependency_criteria,
        },
    );
    let mut audits = AuditsFile::new();
    audits.criteria.insert(
        "reviewed".to_string(),
        CriteriaEntry {
            description: Some("read".to_string()),
            description_url: None,
            implies: vec!["i-unknown".to_string(), "safe-to-deploy".to_string()],
        },
    );
    audits.audits.insert(
        "liba".to_string(),
        vec![AuditEntry {
            who: vec![],
            criteria: vec!["a-unknown".to_string()],
            kind: AuditKind::Full { version: st_version(1, 0, 0) },
            notes: None,
            is_fresh_import: false,
        }],
    );
    audits.wildcard_audits.insert(
        "libw".to_string(),
        vec![st_wildcard(Date { year: 2030, month: 1, day: 1 }, &["w-unknown"])],
    );
    let store = Store::mock(config, audits, ImportsFile::new());
    let failure = store.validate(st_today(), false, &st_encode).unwrap_err();
    let valid = vec![
        "reviewed".to_string(),
        "safe-to-run".to_string(),
        "safe-to-deploy".to_string(),
    ];
    let invalid = |document: &str, name: &str| StoreValidateError::InvalidCriteria {
        document: document.to_string(),
        invalid: name.to_string(),
        valid_names: valid.clone(),
    };
    assert_eq!(
        failure.errors,
        vec![
            invalid("config.toml", "e-unknown"),
            invalid("config.toml", "p-unknown"),
            invalid("config.toml", "d-unknown"),
            invalid("audits.toml", "i-unknown"),
            invalid("audits.toml", "a-unknown"),
            invalid("audits.toml", "w-unknown"),
            StoreValidateError::BadWildcardEndDate {
                date: Date { year: 2030, month: 1, day: 1 },
                max: Date { year: 2025, month: 5, day: 1 },
            },
        ]
    );
}

#[test]
fn an_imports_lock_that_lacks_a_peer_is_outdated() {
    let mut config = ConfigFile::new();
    config.imports.insert(
        "p".to_string(),
        ImportConfig { url: "https://p.example".to_string(), exclude: vec![], criteria_map: Table::new() },
    );
    let store = Store::mock(config.clone(), AuditsFile::new(), ImportsFile::new());
    assert!(store.imports_lock_outdated());
    assert_eq!(
        store.validate(st_today(), false, &st_encode).unwrap_err().errors,
        vec![StoreValidateError::ImportsLockOutdated]
    );
    let mut lock = ImportsFile::new();
    lock.audits.insert("p".to_string(), AuditsFile::new());
    let store = Store::mock(config.clone(), AuditsFile::new(), lock);
    assert!(!store.imports_lock_outdated());
    let mut live = Store::mock(config, AuditsFile::new(), ImportsFile::new());
    live.live_imports = Some(ImportsFile::new());
    assert!(!live.imports_lock_outdated());
}

#[test]
fn an_imports_lock_that_holds_an_excluded_package_is_outdated() {
    let mut config = ConfigFile::new();
    config.imports.insert(
        "p".to_string(),
        ImportConfig {
            url: "https://p.example".to_string(),
            exclude: vec!["other".to_string(), "libx".to_string()],
            criteria_map: Table::new(),
        },
    );
    let mut held = AuditsFile::new();
    held.audits.insert("libx".to_string(), vec![]);
    let mut lock = ImportsFile::new();
    lock.audits.insert("p".to_string(), held);
    let store = Store::mock(config, AuditsFile::new(), lock);
    assert!(store.imports_lock_outdated());
}

#[test]
fn the_copy_for_suggestions_keeps_the_exemptions_that_may_not_be_suggested() {
    let mut config = ConfigFile::new();
    config.exemptions.insert(
        "liba".to_string(),
        vec![
            st_exemption(st_version(1, 0, 0), true),
            st_exemption(st_version(1, 1, 0), false),
            st_exemption(st_version(1, 2, 0), true),
            st_exemption(st_version(1, 3, 0), false),
        ],
    );
    config.exemptions.insert("libb".to_string(), vec![st_exemption(st_version(2, 0, 0), true)]);
    let mut store = Store::mock(config, AuditsFile::new(), ImportsFile::new());
    store.lock = Some(StoreLock { root: "supply-chain".to_string() });
    let copy = store.clone_for_suggest();
    assert!(copy.lock.is_none());
    assert_eq!(copy.config.exemptions.keys, vec!["liba".to_string(), "libb".to_string()]);
    assert_eq!(
        copy.config.exemptions.get("liba").unwrap(),
        &vec![st_exemption(st_version(1, 1, 0), false), st_exemption(st_version(1, 3, 0), false)]
    );
    assert!(copy.config.exemptions.get("libb").unwrap().is_empty());
    assert_eq!(copy.audits, store.audits);
    assert_eq!(copy.imports, store.imports);
    assert_eq!(store.config.exemptions.get("liba").unwrap().len(), 4);
}

#[test]
fn the_imported_audits_are_the_live_ones_where_there_are_any() {
    let mut lock = ImportsFile::new();
    lock.audits.insert("locked".to_string(), AuditsFile::new());
    lock.publisher.insert("libl".to_string(), vec![]);
    let mut store = Store::mock(ConfigFile::new(), AuditsFile::new(), lock);
    assert_eq!(store.imported_audits().keys, vec!["locked".to_string()]);
    assert_eq!(store.publishers().keys, vec!["libl".to_string()]);
    let mut live = ImportsFile::new();
    live.audits.insert("live".to_string(), AuditsFile::new());
    live.publisher.insert("libv".to_string(), vec![]);
    store.live_imports = Some(live);
    assert_eq!(store.imported_audits().keys, vec!["live".to_string()]);
    assert_eq!(store.publishers().keys, vec!["libv".to_string()]);
}

#[test]
fn a_commit_writes_the_three_documents_in_order() {
    let mut store = Store::create(StoreLock { root: "supply-chain".to_string() });
    store.audits.audits.insert(
        "liba".to_string(),
        vec![
            AuditEntry {
                who: vec![],
                criteria: vec!["safe-to-run".to_string()],
                kind: AuditKind::Full { version: st_version(2, 0, 0) },
                notes: None,
                is_fresh_import: false,
            },
            AuditEntry {
                who: vec![],
                criteria: vec!["safe-to-run".to_string()],
                kind: AuditKind::Full { version: st_version(1, 0, 0) },
                notes: None,
                is_fresh_import: false,
            },
        ],
    );
    let mock = store.mock_commit(&st_encode).unwrap();
    let mut sorted = store.audits.clone();
    sorted.audits.vals[0].reverse();
    let files = store.commit(&st_encode).unwrap();
    assert_eq!(mock, files);
    let names: Vec<&str> = files.iter().map(|f| f.0.as_str()).collect();
    assert_eq!(names, vec!["audits.toml", "config.toml", "imports.lock"]);
    assert_eq!(files[0].1, format!("\n# cargo-vet audits file\n{:?}\n", sorted));
    assert_eq!(files[1].1, format!("\n# cargo-vet config file\n{:?}\n", ConfigFile::new()));
    assert_eq!(files[2].1, format!("\n# cargo-vet imports lock\n{:?}\n", ImportsFile::new()));
}

#[test]
fn a_store_without_a_lock_commits_nothing() {
    let store = Store::mock(ConfigFile::new(), AuditsFile::new(), ImportsFile::new());
    assert_eq!(store.commit(&st_encode), Ok(vec![]));
}

#[test]
fn a_commit_fails_where_the_codec_fails() {
    let store = Store::create(StoreLock { root: "supply-chain".to_string() });
    let failing = |document: Document| -> Result<String, StoreTomlError> {
        match document {
            Document::Config(_) => Err(StoreTomlError { message: "no config".to_string() }),
            _ => Ok(String::new()),
        }
    };
    assert_eq!(
        store.commit(&failing),
        Err(StoreTomlError { message: "no config".to_string() })
    );
}

#[test]
fn a_document_in_another_form_is_badly_formatted() {
    let mut store = Store::mock(ConfigFile::new(), AuditsFile::new(), ImportsFile::new());
    let texts = store.texts(&st_encode);
    let config_text = texts.config.unwrap();
    let audits_text = texts.audits.unwrap();
    let imports_text = texts.imports.unwrap();
    store.config_src = SourceFile::new("config.toml", format!("{}  \n\n", config_text));
    store.audits_src = SourceFile::new("audits.toml", audits_text);
    store.imports_src = SourceFile::new("imports.lock", imports_text.clone());
    assert_eq!(store.validate(st_today(), true, &st_encode), Ok(()));
    store.imports_src = SourceFile::new("imports.lock", "# by hand\n".to_string());
    let failure = store.validate(st_today(), true, &st_encode).unwrap_err();
    let expected = similar::udiff::unified_diff(
        similar::Algorithm::Myers,
        "# by hand\n",
        &imports_text,
        3,
        Some(("old/imports.lock", "new/imports.lock")),
    );
    assert_eq!(failure.errors, vec![StoreValidateError::BadFormat { unified_diff: expected }]);
    assert_eq!(store.validate(st_today(), false, &st_encode), Ok(()));
}

#[test]
fn a_store_is_acquired_once_it_is_valid() {
    let lock = StoreLock { root: "supply-chain".to_string() };
    let store = Store::acquire_offline(
        lock.clone(),
        (SourceFile::new("config.toml", "c".to_string()), ConfigFile::new()),
        (SourceFile::new("audits.toml", "a".to_string()), AuditsFile::new()),
        (SourceFile::new("imports.lock", "i".to_string()), ImportsFile::new()),
        st_today(),
        false,
        &st_encode,
    )
    .unwrap();
    assert_eq!(store.lock, Some(lock.clone()));
    assert_eq!(store.live_imports, None);
    assert_eq!(store.config_src.source, "c");
    let mut audits = AuditsFile::new();
    audits.wildcard_audits.insert(
        "libx".to_string(),
        vec![st_wildcard(Date { year: 2026, month: 1, day: 1 }, &[])],
    );
    let failure = Store::acquire(
        lock,
        (SourceFile::new_empty("config.toml"), ConfigFile::new()),
        (SourceFile::new_empty("audits.toml"), audits),
        (SourceFile::new_empty("imports.lock"), ImportsFile::new()),
        Some(ImportsFile::new()),
        st_today(),
        false,
        &st_encode,
    )
    .unwrap_err();
    assert_eq!(failure.errors.len(), 1);
}

#[test]
fn texts_that_differ_once_trimmed_are_a_fault() {
    let mut errors: Vec<StoreValidateError> = Vec::new();
    check_trimmed_format("audits.toml", "a = 1\n\n", "a = 1\n", "a = 1", "a = 1", &mut errors);
    assert_eq!(errors, vec![]);
    check_trimmed_format("audits.toml", "a = 2\n", "a = 1\n", "a = 2", "a = 1", &mut errors);
    let expected = similar::udiff::unified_diff(
        similar::Algorithm::Myers,
        "a = 2\n",
        "a = 1\n",
        3,
        Some(("old/audits.toml", "new/audits.toml")),
    );
    assert_eq!(errors, vec![StoreValidateError::BadFormat { unified_diff: expected }]);
}
