use vet_storage::format::{
    AuditEntry, AuditKind, AuditsFile, ConfigFile, CriteriaEntry, ImportConfig, ImportsFile,
    WildcardEntry,
};
use vet_storage::date::Date;
use vet_storage::imports::process_imported_audits;
use vet_storage::table::Table;
use vet_storage::version::{Version, VetVersion};

fn rec_version(major: u64, minor: u64, patch: u64) -> VetVersion {
    VetVersion { semver: Version::new(major, minor, patch), git_rev: None }
}

fn rec_audit(version: VetVersion, criteria: &[&str]) -> AuditEntry {
    AuditEntry {
        who: vec!["Alice <alice@example.com>".to_string()],
        criteria: criteria.iter().map(|c| c.to_string()).collect(),
        kind: AuditKind::Full { version },
        notes: None,
        is_fresh_import: false,
    }
}

fn rec_criterion(description: &str) -> CriteriaEntry {
    CriteriaEntry {
        description: Some(description.to_string()),
        description_url: Some("https://peer.example/strong".to_string()),
        implies: vec!["safe-to-run".to_string()],
    }
}

fn rec_config(exclude: &[&str]) -> ConfigFile {
    let mut criteria_map: Table<Vec<String>> = Table::new();
    criteria_map.insert("strong-reviewed".to_string(), vec!["safe-to-deploy".to_string()]);
    let mut config = ConfigFile::new();
    config.imports.insert(
        "p".to_string(),
        ImportConfig {
            url: "https://peer.example/audits.toml".to_string(),
            exclude: exclude.iter().map(|c| c.to_string()).collect(),
            criteria_map,
        },
    );
    config
}

fn rec_fetched(description: &str) -> AuditsFile {
    let mut file = AuditsFile::new();
    file.criteria.insert("strong-reviewed".to_string(), rec_criterion(description));
    file.audits.insert(
        "libx".to_string(),
        vec![rec_audit(rec_version(1, 2, 3), &["strong-reviewed"])],
    );
    file
}

#[test]
fn reconciliation_marks_a_new_audit_fresh() {
    let local = AuditsFile::new();
    let config = rec_config(&[]);
    let lock = ImportsFile::new();
    let new_lock = process_imported_audits(
        vec![("p".to_string(), rec_fetched("A"))],
        &local,
        &config,
        &lock,
        false,
    )
    .unwrap();
    assert_eq!(new_lock.audits.len(), 1);
    assert!(new_lock.publisher.is_empty());
    let file = new_lock.audits.get("p").unwrap();
    let audits = file.audits.get("libx").unwrap();
    assert_eq!(audits.len(), 1);
    assert_eq!(audits[0].criteria, vec!["safe-to-deploy".to_string()]);
    assert!(audits[0].is_fresh_import);
    assert_eq!(audits[0].kind, AuditKind::Full { version: rec_version(1, 2, 3) });
}

#[test]
fn reconciliation_puts_the_flag_down_for_an_audit_of_the_lock() {
    let local = AuditsFile::new();
    let config = rec_config(&[]);
    let first = process_imported_audits(
        vec![("p".to_string(), rec_fetched("A"))],
        &local,
        &config,
        &ImportsFile::new(),
        false,
    )
    .unwrap();
    let second = process_imported_audits(
        vec![("p".to_string(), rec_fetched("A"))],
        &local,
        &config,
        &first,
        false,
    )
    .unwrap();
    let audits = second.audits.get("p").unwrap().audits.get("libx").unwrap();
    assert_eq!(audits.len(), 1);
    assert_eq!(audits[0].criteria, vec!["safe-to-deploy".to_string()]);
    assert!(!audits[0].is_fresh_import);
}

#[test]
fn reconciliation_is_idempotent_on_a_fetch() {
    let local = AuditsFile::new();
    let config = rec_config(&[]);
    let mut fetched = rec_fetched("A");
    fetched.audits.insert(
        "liby".to_string(),
        vec![
            rec_audit(rec_version(1, 0, 0), &["safe-to-run"]),
            rec_audit(rec_version(1, 0, 0), &["safe-to-run"]),
            rec_audit(rec_version(2, 0, 0), &["strong-reviewed", "safe-to-run"]),
        ],
    );
    let first = process_imported_audits(
        vec![("p".to_string(), fetched.clone())],
        &local,
        &config,
        &ImportsFile::new(),
        false,
    )
    .unwrap();
    let second = process_imported_audits(
        vec![("p".to_string(), fetched.clone())],
        &local,
        &config,
        &first,
        false,
    )
    .unwrap();
    let third = process_imported_audits(
        vec![("p".to_string(), fetched)],
        &local,
        &config,
        &second,
        false,
    )
    .unwrap();
    assert_eq!(second, third);
    assert_eq!(first.audits.keys, second.audits.keys);
    let before = first.audits.get("p").unwrap();
    let after = second.audits.get("p").unwrap();
    assert_eq!(before.criteria, after.criteria);
    assert_eq!(before.audits.keys, after.audits.keys);
    for (old_list, new_list) in before.audits.vals.iter().zip(after.audits.vals.iter()) {
        assert_eq!(old_list.len(), new_list.len());
        for (old_entry, new_entry) in old_list.iter().zip(new_list.iter()) {
            assert!(old_entry.is_fresh_import);
            assert!(!new_entry.is_fresh_import);
            assert!(old_entry.same_audit_as(new_entry));
        }
    }
}

#[test]
fn a_second_copy_of_an_audit_stays_fresh() {
    let local = AuditsFile::new();
    let config = rec_config(&[]);
    let mut lock = ImportsFile::new();
    let mut held = AuditsFile::new();
    held.audits.insert(
        "libx".to_string(),
        vec![rec_audit(rec_version(1, 2, 3), &["safe-to-deploy"])],
    );
    lock.audits.insert("p".to_string(), held);
    let mut fetched = AuditsFile::new();
    fetched.audits.insert(
        "libx".to_string(),
        vec![
            rec_audit(rec_version(1, 2, 3), &["safe-to-deploy"]),
            rec_audit(rec_version(1, 2, 3), &["safe-to-deploy"]),
            rec_audit(rec_version(1, 2, 4), &["safe-to-deploy"]),
        ],
    );
    let new_lock =
        process_imported_audits(vec![("p".to_string(), fetched)], &local, &config, &lock, false)
            .unwrap();
    let audits = new_lock.audits.get("p").unwrap().audits.get("libx").unwrap();
    let flags: Vec<bool> = audits.iter().map(|a| a.is_fresh_import).collect();
    assert_eq!(flags, vec![false, true, true]);
}

#[test]
fn a_changed_description_fails_the_reconciliation() {
    let local = AuditsFile::new();
    let config = rec_config(&[]);
    let first = process_imported_audits(
        vec![("p".to_string(), rec_fetched("A"))],
        &local,
        &config,
        &ImportsFile::new(),
        false,
    )
    .unwrap();
    assert_eq!(
        first.audits.get("p").unwrap().criteria.get("strong-reviewed").unwrap().description,
        Some("A".to_string())
    );
    let failure = process_imported_audits(
        vec![("p".to_string(), rec_fetched("B"))],
        &local,
        &config,
        &first,
        false,
    )
    .unwrap_err();
    assert_eq!(failure.errors.len(), 1);
    assert_eq!(failure.errors[0].import_name, "p");
    assert_eq!(failure.errors[0].criteria_name, "strong-reviewed");
    let expected = similar::udiff::unified_diff(similar::Algorithm::Myers, "A", "B", 5, None);
    assert_eq!(failure.errors[0].unified_diff, expected);
    assert!(failure.errors[0].unified_diff.contains("-A"));
    assert!(failure.errors[0].unified_diff.contains("+B"));
}

#[test]
fn a_changed_description_passes_where_changes_are_allowed() {
    let local = AuditsFile::new();
    let config = rec_config(&[]);
    let first = process_imported_audits(
        vec![("p".to_string(), rec_fetched("A"))],
        &local,
        &config,
        &ImportsFile::new(),
        true,
    )
    .unwrap();
    let second = process_imported_audits(
        vec![("p".to_string(), rec_fetched("B"))],
        &local,
        &config,
        &first,
        true,
    )
    .unwrap();
    let entry = second.audits.get("p").unwrap().criteria.get("strong-reviewed").unwrap();
    assert_eq!(entry.description, Some("B".to_string()));
    assert_eq!(entry.description_url, None);
    assert!(entry.implies.is_empty());
    let audits = second.audits.get("p").unwrap().audits.get("libx").unwrap();
    assert!(!audits[0].is_fresh_import);
}

#[test]
fn imported_criteria_are_local_criteria() {
    let mut local = AuditsFile::new();
    local.criteria.insert(
        "reviewed".to_string(),
        CriteriaEntry { description: Some("read".to_string()), description_url: None, implies: vec![] },
    );
    let mut criteria_map: Table<Vec<String>> = Table::new();
    criteria_map.insert(
        "strong-reviewed".to_string(),
        vec!["reviewed".to_string(), "safe-to-deploy".to_string(), "unknown-here".to_string()],
    );
    criteria_map.insert("safe-to-run".to_string(), vec![]);
    let mut config = ConfigFile::new();
    config.imports.insert(
        "p".to_string(),
        ImportConfig { url: "https://peer.example/a".to_string(), exclude: vec![], criteria_map },
    );
    let mut fetched = AuditsFile::new();
    fetched.criteria.insert("strong-reviewed".to_string(), rec_criterion("A"));
    fetched.criteria.insert("weak".to_string(), rec_criterion("W"));
    fetched.audits.insert(
        "libx".to_string(),
        vec![
            rec_audit(rec_version(1, 0, 0), &["strong-reviewed"]),
            rec_audit(rec_version(1, 0, 1), &["weak", "safe-to-run"]),
            rec_audit(rec_version(1, 0, 2), &["safe-to-deploy", "strong-reviewed"]),
        ],
    );
    fetched.wildcard_audits.insert(
        "libx".to_string(),
        vec![WildcardEntry {
            who: vec![],
            criteria: vec!["strong-reviewed".to_string()],
            user_id: 7,
            start: Date { year: 2023, month: 1, day: 1 },
            end: Date { year: 2024, month: 1, day: 1 },
            notes: None,
            is_fresh_import: false,
        }],
    );
    let new_lock = process_imported_audits(
        vec![("p".to_string(), fetched)],
        &local,
        &config,
        &ImportsFile::new(),
        false,
    )
    .unwrap();
    let file = new_lock.audits.get("p").unwrap();
    let audits = file.audits.get("libx").unwrap();
    assert_eq!(audits[0].criteria, vec!["safe-to-deploy".to_string(), "reviewed".to_string()]);
    assert!(audits[1].criteria.is_empty());
    assert_eq!(audits[2].criteria, vec!["safe-to-deploy".to_string(), "reviewed".to_string()]);
    let wildcard = &file.wildcard_audits.get("libx").unwrap()[0];
    assert_eq!(wildcard.criteria, vec!["safe-to-deploy".to_string(), "reviewed".to_string()]);
    assert!(wildcard.is_fresh_import);
    let vocabulary = ["safe-to-run", "safe-to-deploy", "reviewed"];
    for list in file.audits.vals.iter() {
        for entry in list {
            for name in &entry.criteria {
                assert!(vocabulary.contains(&name.as_str()));
            }
        }
    }
    assert_eq!(file.criteria.keys, vec!["strong-reviewed".to_string()]);
}

#[test]
fn audits_of_excluded_packages_are_left_out() {
    let local = AuditsFile::new();
    let config = rec_config(&["libx"]);
    let mut fetched = rec_fetched("A");
    fetched
        .audits
        .insert("liby".to_string(), vec![rec_audit(rec_version(0, 1, 0), &["safe-to-run"])]);
    let new_lock = process_imported_audits(
        vec![("p".to_string(), fetched)],
        &local,
        &config,
        &ImportsFile::new(),
        false,
    )
    .unwrap();
    let file = new_lock.audits.get("p").unwrap();
    assert!(!file.audits.contains_key("libx"));
    assert_eq!(file.audits.get("liby").unwrap()[0].criteria, vec!["safe-to-run".to_string()]);
}

#[test]
fn the_later_file_of_a_peer_stands() {
    let local = AuditsFile::new();
    let config = rec_config(&[]);
    let mut other = AuditsFile::new();
    other.audits.insert("libz".to_string(), vec![rec_audit(rec_version(3, 0, 0), &["safe-to-run"])]);
    let new_lock = process_imported_audits(
        vec![("p".to_string(), rec_fetched("A")), ("p".to_string(), other)],
        &local,
        &config,
        &ImportsFile::new(),
        false,
    )
    .unwrap();
    assert_eq!(new_lock.audits.len(), 1);
    let file = new_lock.audits.get("p").unwrap();
    assert!(file.audits.contains_key("libz"));
    assert!(!file.audits.contains_key("libx"));
}
