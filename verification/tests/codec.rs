use std::cell::RefCell;
use vet_storage::codec::{
    audits_for_writing, config_for_writing, load_json, load_toml, store_audits, store_config,
    store_imports, store_json, store_toml, JsonParseError, ParseFailure, SourceFile,
    StoreJsonError, StoreTomlError,
};
use vet_storage::cache::{store_command_history, store_diff_cache, store_publisher_cache, CommandHistory, DiffCache};
use vet_storage::date::Date;
use vet_storage::foreign::{
    foreign_audit_file_to_local, is_known_criteria, parse_imported_audit,
    parse_imported_wildcard_audit, ForeignAuditsFile,
};
use vet_storage::format::{
    AuditEntry, AuditKind, AuditsFile, ConfigFile, CriteriaEntry, ExemptedDependency,
    ImportsFile, WildcardEntry,
};
use vet_storage::import_fetch::{
    description_requests, import_address, read_imported_audits, store_description,
    DescriptionRequest,
};
use vet_storage::order::{sort, Ordered};
use vet_storage::publisher_cache::PublisherCache;
use vet_storage::publishers::FetchAuditError;
use vet_storage::table::Table;
use vet_storage::version::{Version, VetVersion};

fn co_version(major: u64, minor: u64, patch: u64) -> VetVersion {
    VetVersion { semver: Version::new(major, minor, patch), git_rev: None }
}

fn co_audit(kind: AuditKind, criteria: &[&str]) -> AuditEntry {
    AuditEntry {
        who: vec![],
        criteria: criteria.iter().map(|c| c.to_string()).collect(),
        kind,
        notes: None,
        is_fresh_import: false,
    }
}

fn co_full(major: u64, minor: u64, patch: u64, criteria: &[&str]) -> AuditEntry {
    co_audit(AuditKind::Full { version: co_version(major, minor, patch) }, criteria)
}

#[test]
fn a_document_starts_with_its_heading() {
    assert_eq!(store_toml("# heading\n", Ok("a = 1\n".to_string())), Ok("# heading\na = 1\n".to_string()));
    let failure = StoreTomlError { message: "no".to_string() };
    assert_eq!(store_toml("# heading\n", Err(failure.clone())), Err(failure));
    assert_eq!(store_json(Ok("{}".to_string())), Ok("{}".to_string()));
    let body = |text: &str| {
        let text = text.to_string();
        move |_: &ImportsFile| -> Result<String, StoreTomlError> { Ok(text.clone()) }
    };
    assert_eq!(
        store_imports(ImportsFile::new(), body("x")),
        Ok("\n# cargo-vet imports lock\nx".to_string())
    );
    assert_eq!(
        store_audits(AuditsFile::new(), |_: &AuditsFile| -> Result<String, StoreTomlError> {
            Ok("y".to_string())
        }),
        Ok("\n# cargo-vet audits file\ny".to_string())
    );
    assert_eq!(
        store_config(ConfigFile::new(), |_: &ConfigFile| -> Result<String, StoreTomlError> {
            Ok("z".to_string())
        }),
        Ok("\n# cargo-vet config file\nz".to_string())
    );
    assert_eq!(
        store_diff_cache(&DiffCache::new(), &|_: &DiffCache| -> Result<String, StoreTomlError> {
            Ok("d".to_string())
        }),
        Ok("d".to_string())
    );
    assert_eq!(
        store_command_history(
            &CommandHistory { last_fetch: None },
            &|_: &CommandHistory| -> Result<String, StoreJsonError> { Ok("h".to_string()) }
        ),
        Ok("h".to_string())
    );
    assert_eq!(
        store_publisher_cache(
            &PublisherCache::new(),
            &|_: &PublisherCache| -> Result<String, StoreJsonError> {
                Err(StoreJsonError { message: "p".to_string() })
            }
        ),
        Err(StoreJsonError { message: "p".to_string() })
    );
}

#[test]
fn a_failure_to_read_points_into_the_source() {
    let text = "first\nsecond line\nthird";
    let failing = |line_col: Option<(usize, usize)>| {
        move |_: &str| -> Result<u64, ParseFailure> {
            Err(ParseFailure { line_col, message: "bad".to_string() })
        }
    };
    let error = load_toml("audits.toml", text, failing(Some((1, 4)))).unwrap_err();
    assert_eq!(error.source_code, SourceFile::new("audits.toml", text.to_string()));
    assert_eq!(error.message, "bad");
    assert_eq!(error.span, 9);
    let error = load_toml("audits.toml", text, failing(Some((2, 1)))).unwrap_err();
    assert_eq!(error.span, 18);
    let error = load_toml("audits.toml", text, failing(None)).unwrap_err();
    assert_eq!(error.span, 0);
    let error = load_toml("audits.toml", text, failing(Some((9, 9)))).unwrap_err();
    assert_eq!(error.span, text.len());
    let (source, value) =
        load_toml("config.toml", "7", |text: &str| -> Result<u64, ParseFailure> {
            Ok(text.parse().unwrap())
        })
        .unwrap();
    assert_eq!(value, 7);
    assert_eq!(source.source(), "7");
    assert_eq!(source.name, "config.toml");
    assert_eq!(
        load_json("{", |_: &str| -> Result<u64, JsonParseError> {
            Err(JsonParseError { message: "eof".to_string() })
        }),
        Err(JsonParseError { message: "eof".to_string() })
    );
}

#[test]
fn what_is_written_is_read_back() {
    let kept: RefCell<Vec<AuditsFile>> = RefCell::new(Vec::new());
    let encode = |audits: &AuditsFile| -> Result<String, StoreTomlError> {
        kept.borrow_mut().push(audits.clone());
        Ok(format!("document = {}\n", kept.borrow().len() - 1))
    };
    let decode = |text: &str| -> Result<AuditsFile, ParseFailure> {
        let line = text.lines().find(|l| !l.is_empty() && !l.starts_with('#')).unwrap();
        let at: usize = line.trim_start_matches("document = ").parse().unwrap();
        Ok(kept.borrow()[at].clone())
    };
    let mut audits = AuditsFile::new();
    audits.criteria.insert(
        "reviewed".to_string(),
        CriteriaEntry { description: Some("read".to_string()), description_url: None, implies: vec![] },
    );
    audits.audits.insert(
        "libx".to_string(),
        vec![co_full(1, 0, 0, &["safe-to-run"]), co_full(0, 9, 0, &["reviewed"])],
    );
    let written = audits_for_writing(audits.clone());
    let text = store_audits(audits.clone(), &encode).unwrap();
    assert!(text.starts_with("\n# cargo-vet audits file\n"));
    let (source, loaded) = load_toml("audits.toml", &text, &decode).unwrap();
    assert_eq!(source.source, text);
    assert_eq!(loaded, written);
    assert_ne!(loaded, audits);
    assert_eq!(
        loaded.audits.get("libx").unwrap(),
        &vec![co_full(0, 9, 0, &["reviewed"]), co_full(1, 0, 0, &["safe-to-run"])]
    );
    let again = store_audits(loaded.clone(), &encode).unwrap();
    let (_, reloaded) = load_toml("audits.toml", &again, &decode).unwrap();
    assert_eq!(reloaded, loaded);
}

#[test]
fn audits_are_sorted_before_they_are_written() {
    let delta = |from: VetVersion, to: VetVersion| co_audit(AuditKind::Delta { from, to }, &["a"]);
    let violation = |v: &str| co_audit(AuditKind::Violation { violation: v.to_string() }, &["a"]);
    let mut noted = co_full(1, 0, 0, &["a"]);
    noted.notes = Some("note".to_string());
    let mut by_bob = co_full(1, 0, 0, &["a"]);
    by_bob.who = vec!["bob".to_string()];
    let mut pre = co_full(1, 0, 0, &["a"]);
    pre.kind = AuditKind::Full {
        version: VetVersion { semver: Version::parse("1.0.0-rc.1").unwrap(), git_rev: None },
    };
    let mut git = co_full(1, 0, 0, &["a"]);
    git.kind = AuditKind::Full {
        version: VetVersion { semver: Version::new(1, 0, 0), git_rev: Some("ab".to_string()) },
    };
    let unsorted = vec![
        violation("<1.0.0"),
        delta(co_version(1, 0, 0), co_version(1, 5, 0)),
        by_bob.clone(),
        co_full(1, 0, 0, &["a", "b"]),
        co_full(10, 0, 0, &["a"]),
        noted.clone(),
        git.clone(),
        co_full(2, 0, 0, &["a"]),
        delta(co_version(1, 0, 0), co_version(1, 1, 0)),
        co_full(1, 0, 0, &["a"]),
        pre.clone(),
        co_full(1, 0, 0, &["B"]),
        delta(co_version(0, 9, 0), co_version(2, 0, 0)),
    ];
    let expected = vec![
        pre,
        co_full(1, 0, 0, &["B"]),
        co_full(1, 0, 0, &["a"]),
        noted,
        by_bob,
        co_full(1, 0, 0, &["a", "b"]),
        git,
        co_full(2, 0, 0, &["a"]),
        co_full(10, 0, 0, &["a"]),
        delta(co_version(0, 9, 0), co_version(2, 0, 0)),
        delta(co_version(1, 0, 0), co_version(1, 1, 0)),
        delta(co_version(1, 0, 0), co_version(1, 5, 0)),
        violation("<1.0.0"),
    ];
    let sorted = sort(&unsorted);
    assert_eq!(sorted, expected);
    assert_eq!(sort(&sorted), expected);
    for pair in sorted.windows(2) {
        assert!(pair[0].precedes(&pair[1]));
        assert!(!pair[1].precedes(&pair[0]));
    }
    assert_eq!(sort(&Vec::<AuditEntry>::new()), vec![]);
    let mut fresh = co_full(1, 0, 0, &["a"]);
    fresh.is_fresh_import = true;
    assert_eq!(
        sort(&vec![fresh.clone(), co_full(1, 0, 0, &["a"])]),
        vec![co_full(1, 0, 0, &["a"]), fresh]
    );
}

#[test]
fn exemptions_are_sorted_before_they_are_written() {
    let exemption = |version: VetVersion, criteria: &str, suggest: bool| ExemptedDependency {
        version,
        criteria: vec![criteria.to_string()],
        suggest,
        notes: None,
    };
    let mut config = ConfigFile::new();
    config.exemptions.insert(
        "libx".to_string(),
        vec![
            exemption(co_version(2, 0, 0), "a", true),
            exemption(co_version(1, 0, 0), "b", true),
            exemption(co_version(1, 0, 0), "a", true),
            exemption(co_version(1, 0, 0), "a", false),
        ],
    );
    config.exemptions.insert("liby".to_string(), vec![exemption(co_version(1, 0, 0), "a", true)]);
    let written = config_for_writing(config);
    assert_eq!(
        written.exemptions.get("libx").unwrap(),
        &vec![
            exemption(co_version(1, 0, 0), "a", false),
            exemption(co_version(1, 0, 0), "a", true),
            exemption(co_version(1, 0, 0), "b", true),
            exemption(co_version(2, 0, 0), "a", true),
        ]
    );
    assert_eq!(written.exemptions.get("liby").unwrap().len(), 1);
}

fn co_wildcard(criteria: &[&str]) -> WildcardEntry {
    WildcardEntry {
        who: vec![],
        criteria: criteria.iter().map(|c| c.to_string()).collect(),
        user_id: 1,
        start: Date { year: 2023, month: 1, day: 1 },
        end: Date { year: 2024, month: 1, day: 1 },
        notes: None,
        is_fresh_import: false,
    }
}

#[test]
fn what_cannot_be_read_of_a_peer_is_left_out() {
    let mut criteria: Table<Option<CriteriaEntry>> = Table::new();
    criteria.insert(
        "reviewed".to_string(),
        Some(CriteriaEntry {
            description: Some("read".to_string()),
            description_url: None,
            implies: vec!["safe-to-run".to_string(), "newer".to_string(), "fuzzed".to_string()],
        }),
    );
    criteria.insert("newer".to_string(), None);
    criteria.insert("fuzzed".to_string(), Some(CriteriaEntry { description: None, description_url: None, implies: vec![] }));
    criteria.insert("alien".to_string(), None);
    let mut audits: Table<Vec<Option<AuditEntry>>> = Table::new();
    audits.insert(
        "libx".to_string(),
        vec![
            Some(co_full(1, 0, 0, &["reviewed", "newer"])),
            None,
            Some(co_full(1, 1, 0, &["newer"])),
            Some(co_full(1, 2, 0, &["safe-to-deploy"])),
        ],
    );
    audits.insert("liby".to_string(), vec![None, Some(co_full(2, 0, 0, &["alien"]))]);
    audits.insert("libz".to_string(), vec![]);
    let mut wildcard_audits: Table<Vec<Option<WildcardEntry>>> = Table::new();
    wildcard_audits.insert("libx".to_string(), vec![Some(co_wildcard(&["fuzzed", "alien"])), None]);
    wildcard_audits.insert("libw".to_string(), vec![Some(co_wildcard(&[]))]);
    let taken = foreign_audit_file_to_local(&ForeignAuditsFile { criteria, wildcard_audits, audits });
    assert_eq!(taken.ignored_criteria, vec!["alien".to_string(), "newer".to_string()]);
    assert_eq!(
        taken.ignored_audits,
        vec!["libx".to_string(), "libx".to_string(), "liby".to_string(), "liby".to_string(), "libw".to_string(), "libx".to_string()]
    );
    let file = taken.audit_file;
    assert_eq!(file.criteria.keys, vec!["fuzzed".to_string(), "reviewed".to_string()]);
    assert_eq!(
        file.criteria.get("reviewed").unwrap().implies,
        vec!["safe-to-run".to_string(), "fuzzed".to_string()]
    );
    assert_eq!(file.audits.keys, vec!["libx".to_string()]);
    assert_eq!(
        file.audits.get("libx").unwrap(),
        &vec![co_full(1, 0, 0, &["reviewed"]), co_full(1, 2, 0, &["safe-to-deploy"])]
    );
    assert_eq!(file.wildcard_audits.keys, vec!["libx".to_string()]);
    assert_eq!(file.wildcard_audits.get("libx").unwrap(), &vec![co_wildcard(&["fuzzed"])]);
    let valid = vec!["reviewed".to_string()];
    assert!(is_known_criteria(&valid, "reviewed"));
    assert!(is_known_criteria(&valid, "safe-to-run"));
    assert!(is_known_criteria(&[].to_vec(), "safe-to-deploy"));
    assert!(!is_known_criteria(&valid, "Reviewed"));
    assert_eq!(parse_imported_audit(&valid, &None), None);
    assert_eq!(parse_imported_audit(&valid, &Some(co_full(1, 0, 0, &["x"]))), None);
    assert_eq!(
        parse_imported_wildcard_audit(&valid, &Some(co_wildcard(&["x", "reviewed"]))),
        Some(co_wildcard(&["reviewed"]))
    );
}

#[test]
fn the_audits_of_a_peer_are_fetched_step_by_step() {
    assert_eq!(
        import_address("p", "https://peer.example"),
        Ok("https://peer.example/".to_string())
    );
    match import_address("p", "not a url") {
        Err(FetchAuditError::InvalidUrl { import_url, import_name, error }) => {
            assert_eq!(import_url, "not a url");
            assert_eq!(import_name, "p");
            assert!(!error.is_empty());
            assert_ne!(error, "not a url");
        }
        other => panic!("unexpected {other:?}"),
    }
    let decode = |text: &str| -> Result<ForeignAuditsFile, ParseFailure> {
        if text == "good" {
            let mut criteria: Table<Option<CriteriaEntry>> = Table::new();
            criteria.insert("broken".to_string(), None);
            Ok(ForeignAuditsFile { criteria, wildcard_audits: Table::new(), audits: Table::new() })
        } else {
            Err(ParseFailure { line_col: Some((0, 1)), message: "bad".to_string() })
        }
    };
    let taken = read_imported_audits("p", b"good".to_vec(), &decode).unwrap();
    assert_eq!(taken.ignored_criteria, vec!["broken".to_string()]);
    assert_eq!(taken.audit_file, AuditsFile::new());
    assert_eq!(
        read_imported_audits("p", vec![0xff], &decode),
        Err(FetchAuditError::InvalidAuditsText { import_name: "p".to_string() })
    );
    match read_imported_audits("p", b"bad text".to_vec(), &decode) {
        Err(FetchAuditError::Toml { failure }) => {
            assert_eq!(failure.source_code, SourceFile::new("p", "bad text".to_string()));
            assert_eq!(failure.span, 1);
            assert_eq!(failure.message, "bad");
        }
        other => panic!("unexpected {other:?}"),
    }
}

#[test]
fn the_descriptions_of_the_criteria_are_asked_for() {
    let entry = |description: Option<&str>, url: Option<&str>| CriteriaEntry {
        description: description.map(|d| d.to_string()),
        description_url: url.map(|u| u.to_string()),
        implies: vec!["safe-to-run".to_string()],
    };
    let mut file = AuditsFile::new();
    file.criteria.insert("a".to_string(), entry(None, Some("https://peer.example/a.txt")));
    file.criteria.insert("b".to_string(), entry(Some("B"), Some("no url at all")));
    file.criteria.insert("c".to_string(), entry(None, Some("https://peer.example/c")));
    let requests = description_requests("p", &file).unwrap();
    assert_eq!(
        requests,
        vec![
            DescriptionRequest {
                criteria_name: "a".to_string(),
                url: "https://peer.example/a.txt".to_string(),
            },
            DescriptionRequest {
                criteria_name: "c".to_string(),
                url: "https://peer.example/c".to_string(),
            },
        ]
    );
    assert_eq!(store_description(&mut file, &requests[0], "about a".as_bytes().to_vec()), Ok(()));
    assert_eq!(
        file.criteria.get("a").unwrap(),
        &entry(Some("about a"), Some("https://peer.example/a.txt"))
    );
    assert_eq!(
        store_description(&mut file, &requests[1], vec![0xff]),
        Err(FetchAuditError::InvalidText { url: "https://peer.example/c".to_string() })
    );
    assert_eq!(file.criteria.get("c").unwrap().description, None);
    assert_eq!(description_requests("p", &file).unwrap().len(), 1);
    file.criteria.insert("d".to_string(), entry(None, None));
    file.criteria.insert("e".to_string(), entry(None, Some("::")));
    assert_eq!(
        description_requests("p", &file),
        Err(FetchAuditError::MissingCriteriaDescription {
            import_name: "p".to_string(),
            criteria_name: "d".to_string(),
        })
    );
    file.criteria.remove("d");
    match description_requests("p", &file) {
        Err(FetchAuditError::InvalidCriteriaDescriptionUrl { import_name, criteria_name, url, error }) => {
            assert_eq!(import_name, "p");
            assert_eq!(criteria_name, "e");
            assert_eq!(url, "::");
            assert!(!error.is_empty());
        }
        other => panic!("unexpected {other:?}"),
    }
}

fn co_tagged(pre: &str, build: &str) -> Version {
    Version { major: 1, minor: 0, patch: 0, pre: pre.to_string(), build: build.to_string() }
}

#[test]
fn versions_go_in_the_order_of_semantic_versions() {
    let row = [
        co_tagged("alpha", ""),
        co_tagged("alpha.1", ""),
        co_tagged("alpha.9", ""),
        co_tagged("alpha.10", ""),
        co_tagged("alpha.beta", ""),
        co_tagged("beta", ""),
        co_tagged("beta.2", ""),
        co_tagged("beta.11", ""),
        co_tagged("rc.1", ""),
        co_tagged("", ""),
        co_tagged("", "build.9"),
        co_tagged("", "build.10"),
        Version::new(1, 0, 1),
        Version::new(1, 1, 0),
        Version::new(2, 0, 0),
        Version::new(10, 0, 0),
    ];
    for i in 0..row.len() {
        for j in 0..row.len() {
            assert_eq!(row[i].precedes(&row[j]), i < j, "{:?} and {:?}", row[i], row[j]);
        }
    }
    let audits: Vec<AuditEntry> = [3usize, 2, 9, 0]
        .iter()
        .map(|&at| {
            co_audit(
                AuditKind::Full { version: VetVersion { semver: row[at].clone(), git_rev: None } },
                &["a"],
            )
        })
        .collect();
    let sorted = sort(&audits);
    assert_eq!(sorted, vec![audits[3].clone(), audits[1].clone(), audits[0].clone(), audits[2].clone()]);
    let plain = VetVersion { semver: Version::new(1, 0, 0), git_rev: None };
    let git = VetVersion { semver: Version::new(1, 0, 0), git_rev: Some("ab".to_string()) };
    assert!(plain.precedes(&git));
    assert!(!git.precedes(&plain));
    assert!(!plain.precedes(&plain));
}
