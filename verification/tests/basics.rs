use vet_storage::criteria::{CriteriaMapper, CriteriaSet, CriteriaTranslator};
use vet_storage::date::{Date, Timestamp};
use vet_storage::format::{AuditEntry, AuditKind, CriteriaEntry, WildcardEntry};
use vet_storage::model::{Duplicate, Same};
use vet_storage::paths::dir_name;
use vet_storage::table::Table;
use vet_storage::text::{chars_of, list_has, rank, same_text, text_of, Rank};
use vet_storage::version::{Delta, Version, VetVersion};

fn ba_criteria(names: &[&str]) -> Table<CriteriaEntry> {
    let mut table = Table::new();
    for name in names {
        table.insert(
            name.to_string(),
            CriteriaEntry { description: None, description_url: None, implies: vec![] },
        );
    }
    table
}

fn ba_names(names: &[&str]) -> Vec<String> {
    names.iter().map(|n| n.to_string()).collect()
}

#[test]
fn a_table_keeps_its_keys_in_order() {
    let mut t: Table<u64> = Table::new();
    assert!(t.is_empty());
    t.insert("pear".to_string(), 2);
    t.insert("apple".to_string(), 1);
    t.insert("zebra".to_string(), 3);
    t.insert("Zebra".to_string(), 5);
    t.insert("pear".to_string(), 4);
    t.insert("été".to_string(), 6);
    t.insert("".to_string(), 0);
    t.insert("pea".to_string(), 7);
    assert_eq!(t.len(), 7);
    assert_eq!(t.keys, ba_names(&["", "Zebra", "apple", "pea", "pear", "zebra", "été"]));
    assert_eq!(t.vals, vec![0, 5, 1, 7, 4, 3, 6]);
    assert_eq!(t.key_at(1), "Zebra");
    assert_eq!(t.value_at(4), &4);
    assert_eq!(t.position("pear"), Some(4));
    assert_eq!(t.get("pear"), Some(&4));
    assert_eq!(t.get("plum"), None);
    assert!(t.contains_key("été"));
    t.remove("apple");
    t.remove("absent");
    assert_eq!(t.len(), 6);
    assert!(!t.contains_key("apple"));
    let mut sorted = t.keys.clone();
    sorted.sort();
    assert_eq!(sorted, t.keys);
    assert!(t.same(&t.duplicate()));
}

#[test]
fn texts_are_ranked_as_strings_are() {
    assert_eq!(rank("a", "b"), Rank::Before);
    assert_eq!(rank("b", "a"), Rank::After);
    assert_eq!(rank("a", "a"), Rank::Same);
    assert_eq!(rank("", "a"), Rank::Before);
    assert_eq!(rank("ab", "a"), Rank::After);
    assert_eq!(rank("Z", "a"), Rank::Before);
    assert_eq!(rank("é", "z"), Rank::After);
    assert!(same_text("x", "x"));
    assert!(!same_text("x", "X"));
    assert_eq!(chars_of("héllo"), vec!['h', 'é', 'l', 'l', 'o']);
    assert_eq!(text_of(&chars_of("héllo"), 1, 4), "éll");
    assert!(list_has(&ba_names(&["a", "b"]), "b"));
    assert!(!list_has(&ba_names(&["a", "b"]), "c"));
}

#[test]
fn a_version_is_written_as_semantic_versions_are() {
    assert_eq!(Version::new(1, 2, 3).text(), "1.2.3");
    assert_eq!(Version::new(0, 0, 0).text(), "0.0.0");
    assert_eq!(Version::new(10, 200, 18446744073709551615).text(), "10.200.18446744073709551615");
    let full = Version::parse("1.2.3-alpha.1+build.5").unwrap();
    assert_eq!(full.text(), "1.2.3-alpha.1+build.5");
    assert_eq!(Version::parse("1.0.0+b").unwrap().text(), "1.0.0+b");
    assert_eq!(dir_name("libx", &VetVersion { semver: Version::new(1, 2, 3), git_rev: None }), "libx-1.2.3");
    assert_eq!(
        dir_name(
            "libx",
            &VetVersion { semver: full.clone(), git_rev: Some("0123abc".to_string()) }
        ),
        "libx-1.2.3-alpha.1+build.5.git.0123abc"
    );
    assert!(full.same(&full.duplicate()));
    assert!(!full.same(&Version::new(1, 2, 3)));
    let delta = Delta {
        from: None,
        to: VetVersion { semver: Version::new(1, 0, 0), git_rev: Some("a".to_string()) },
    };
    assert!(delta.same(&delta.duplicate()));
    assert!(!delta.same(&Delta { from: Some(delta.to.duplicate()), to: delta.to.duplicate() }));
}

#[test]
fn a_date_is_a_day_of_the_calendar() {
    assert_eq!(Date::from_ymd(2024, 2, 29), Some(Date { year: 2024, month: 2, day: 29 }));
    assert_eq!(Date::from_ymd(2023, 2, 29), None);
    assert_eq!(Date::from_ymd(1900, 2, 29), None);
    assert_eq!(Date::from_ymd(2000, 2, 29), Some(Date { year: 2000, month: 2, day: 29 }));
    assert_eq!(Date::from_ymd(2024, 4, 31), None);
    assert_eq!(Date::from_ymd(2024, 13, 1), None);
    assert_eq!(Date::from_ymd(2024, 0, 1), None);
    assert_eq!(Date::from_ymd(2024, 1, 0), None);
    assert_eq!(Date::from_ymd(262143, 1, 1), None);
    assert!(Date::from_ymd(-262143, 1, 1).is_some());
    let day = Date { year: 2024, month: 5, day: 1 };
    assert!(Date { year: 2024, month: 5, day: 2 }.is_after(&day));
    assert!(Date { year: 2025, month: 1, day: 1 }.is_after(&day));
    assert!(!day.is_after(&day));
    assert!(!Date { year: 2024, month: 4, day: 30 }.is_after(&day));
    let now = Timestamp { secs: 86_400, nanos: 0 };
    assert!(!now.within_days_of(&Timestamp { secs: 0, nanos: 0 }, 1));
    assert!(now.within_days_of(&Timestamp { secs: 0, nanos: 1 }, 1));
    assert!(now.within_days_of(&Timestamp { secs: 100_000, nanos: 0 }, 1));
    assert!(now.within_days_of(&Timestamp { secs: 0, nanos: 0 }, i64::MAX));
    assert!(!now.within_days_of(&Timestamp { secs: 0, nanos: 0 }, i64::MIN));
    assert!(!Timestamp { secs: i64::MAX, nanos: 0 }
        .within_days_of(&Timestamp { secs: i64::MIN, nanos: 0 }, 1));
}

#[test]
fn a_set_of_criteria_marks_names_of_its_vocabulary() {
    let mapper = CriteriaMapper::new(&ba_criteria(&["reviewed", "fuzzed", "safe-to-run"]));
    assert_eq!(
        mapper.all_criteria_names(),
        ba_names(&["safe-to-run", "safe-to-deploy", "fuzzed", "reviewed"])
    );
    assert_eq!(mapper.len(), 4);
    assert_eq!(mapper.criteria_name(2), "fuzzed");
    let none = mapper.no_criteria();
    assert_eq!(none.bits, vec![false; 4]);
    assert!(mapper.criteria_names(&none).is_empty());
    let mut set = mapper.criteria_from_list(&ba_names(&["reviewed", "unknown", "safe-to-run"]));
    assert_eq!(set.bits, vec![true, false, false, true]);
    assert_eq!(set.indices(), vec![0, 3]);
    assert!(set.has_criteria(3));
    assert!(!set.has_criteria(1));
    assert_eq!(mapper.criteria_names(&set), ba_names(&["safe-to-run", "reviewed"]));
    set.unioned_with(&mapper.criteria_from_list(&ba_names(&["fuzzed", "reviewed"])));
    assert_eq!(set.bits, vec![true, false, true, true]);
    assert_eq!(CriteriaSet::none(2).bits, vec![false, false]);
}

#[test]
fn the_criteria_of_a_peer_are_translated() {
    let mut map: Table<Vec<String>> = Table::new();
    map.insert("strong".to_string(), ba_names(&["reviewed", "safe-to-deploy"]));
    map.insert("safe-to-deploy".to_string(), ba_names(&["reviewed"]));
    map.insert("weak".to_string(), ba_names(&["not-local"]));
    let translator = CriteriaTranslator::new(
        &ba_criteria(&["reviewed"]),
        &ba_criteria(&["strong", "weak", "plain"]),
        &map,
    );
    let local = |list: &[&str]| translator.make_criteria_local(&ba_names(list));
    assert_eq!(local(&["strong"]), ba_names(&["safe-to-deploy", "reviewed"]));
    assert_eq!(local(&["safe-to-deploy"]), ba_names(&["reviewed"]));
    assert_eq!(local(&["safe-to-run"]), ba_names(&["safe-to-run"]));
    assert_eq!(local(&["weak", "plain", "never-heard-of"]), Vec::<String>::new());
    assert_eq!(local(&["safe-to-run", "strong"]), ba_names(&["safe-to-run", "safe-to-deploy", "reviewed"]));
    assert_eq!(local(&[]), Vec::<String>::new());
}

#[test]
fn the_same_audit_is_known_whatever_its_freshness() {
    let audit = AuditEntry {
        who: ba_names(&["alice"]),
        criteria: ba_names(&["safe-to-run"]),
        kind: AuditKind::Violation { violation: "<1.0".to_string() },
        notes: Some("n".to_string()),
        is_fresh_import: false,
    };
    let mut fresh = audit.duplicate();
    fresh.is_fresh_import = true;
    assert!(audit.same_audit_as(&fresh));
    let mut other = audit.duplicate();
    other.notes = None;
    assert!(!audit.same_audit_as(&other));
    let mut other = audit.duplicate();
    other.who = vec![];
    assert!(!audit.same_audit_as(&other));
    let wildcard = WildcardEntry {
        who: vec![],
        criteria: ba_names(&["safe-to-run"]),
        user_id: 1,
        start: Date { year: 2023, month: 1, day: 1 },
        end: Date { year: 2024, month: 1, day: 1 },
        notes: None,
        is_fresh_import: true,
    };
    let mut later = wildcard.duplicate();
    later.is_fresh_import = false;
    assert!(wildcard.same_audit_as(&later));
    later.end = Date { year: 2024, month: 1, day: 2 };
    assert!(!wildcard.same_audit_as(&later));
}
