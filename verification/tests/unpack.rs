use vet_storage::diffstat::{
    diffstat_package, read_counts, read_stated_counts, strip_base, DiffError, DiffStat,
};
use vet_storage::fetch::{UnpackCheckoutError, UnpackError};
use vet_storage::unpack::{admit_entries, admit_entry, lines, starts_with_dir, unpack_checkout, CopyJob};
use vet_storage::words::{parse_number, split};

#[test]
fn an_entry_outside_the_package_is_not_unpacked() {
    assert_eq!(
        admit_entry("../evil", "libx-1.2.3"),
        Err(UnpackError::InvalidPaths {
            entry_path: "../evil".to_string(),
            prefix: "libx-1.2.3".to_string(),
        })
    );
    assert_eq!(admit_entry("libx-1.2.3/src/lib.rs", "libx-1.2.3"), Ok(()));
}

#[test]
fn only_paths_in_the_directory_of_the_package_are_let_in() {
    assert!(starts_with_dir("libx-1.2.3", "libx-1.2.3"));
    assert!(starts_with_dir("libx-1.2.3/", "libx-1.2.3"));
    assert!(starts_with_dir("libx-1.2.3/Cargo.toml", "libx-1.2.3"));
    assert!(!starts_with_dir("libx-1.2.30/Cargo.toml", "libx-1.2.3"));
    assert!(!starts_with_dir("libx-1.2.3x", "libx-1.2.3"));
    assert!(!starts_with_dir("/libx-1.2.3/Cargo.toml", "libx-1.2.3"));
    assert!(!starts_with_dir("./libx-1.2.3/Cargo.toml", "libx-1.2.3"));
    assert!(!starts_with_dir("liby-1.0.0/libx-1.2.3/a", "libx-1.2.3"));
    assert!(!starts_with_dir("", "libx-1.2.3"));
    assert!(!starts_with_dir("libx", "libx-1.2.3"));
}

#[test]
fn an_archive_is_refused_for_its_first_path_outside() {
    let good: Vec<String> =
        ["libx-1.2.3/Cargo.toml", "libx-1.2.3/src/lib.rs"].iter().map(|p| p.to_string()).collect();
    assert_eq!(admit_entries(&good, "libx-1.2.3"), Ok(()));
    assert_eq!(admit_entries(&vec![], "libx-1.2.3"), Ok(()));
    let bad: Vec<String> = ["libx-1.2.3/Cargo.toml", "/etc/passwd", "../evil"]
        .iter()
        .map(|p| p.to_string())
        .collect();
    assert_eq!(
        admit_entries(&bad, "libx-1.2.3"),
        Err(UnpackError::InvalidPaths {
            entry_path: "/etc/passwd".to_string(),
            prefix: "libx-1.2.3".to_string(),
        })
    );
}

#[test]
fn a_text_is_cut_into_its_lines() {
    assert_eq!(lines(""), Vec::<String>::new());
    assert_eq!(lines("a"), vec!["a".to_string()]);
    assert_eq!(lines("a\n"), vec!["a".to_string()]);
    assert_eq!(lines("a\r\nb\n\nc"), vec!["a".to_string(), "b".to_string(), "".to_string(), "c".to_string()]);
    assert_eq!(lines("\n"), vec!["".to_string()]);
    assert_eq!(lines("a\r"), vec!["a\r".to_string()]);
    assert_eq!(lines("a\r\nb\r"), vec!["a".to_string(), "b\r".to_string()]);
    assert_eq!(lines("a\r\n"), vec!["a".to_string()]);
    assert_eq!(lines("\r\n\r"), vec!["".to_string(), "\r".to_string()]);
    assert_eq!(split("a\0b\0", '\0'), vec!["a".to_string(), "b".to_string(), "".to_string()]);
    assert_eq!(split("", '\0'), vec!["".to_string()]);
}

#[test]
fn a_checkout_is_repacked_from_its_listing() {
    let listing = b"Cargo.lock\nCargo.toml\nCargo.toml.orig\nsrc/lib.rs\n.cargo_vcs_info.json\n".to_vec();
    let jobs = unpack_checkout("/work/libx", "/cache/src/libx-1.0.0.git.ab", Some(0), listing).unwrap();
    assert_eq!(
        jobs,
        vec![
            CopyJob {
                target: "Cargo.toml".to_string(),
                from: "/work/libx/Cargo.toml".to_string(),
                to: "/cache/src/libx-1.0.0.git.ab/Cargo.toml".to_string(),
            },
            CopyJob {
                target: "Cargo.toml.orig".to_string(),
                from: "/work/libx/Cargo.toml".to_string(),
                to: "/cache/src/libx-1.0.0.git.ab/Cargo.toml.orig".to_string(),
            },
            CopyJob {
                target: "src/lib.rs".to_string(),
                from: "/work/libx/src/lib.rs".to_string(),
                to: "/cache/src/libx-1.0.0.git.ab/src/lib.rs".to_string(),
            },
        ]
    );
    assert_eq!(
        unpack_checkout("/w", "/u", Some(101), vec![]),
        Err(UnpackCheckoutError::BadStatus { status: 101 })
    );
    assert_eq!(
        unpack_checkout("/w", "/u", None, vec![]),
        Err(UnpackCheckoutError::BadStatus { status: -1 })
    );
    assert_eq!(
        unpack_checkout("/w", "/u", Some(0), vec![0xff, 0xfe]),
        Err(UnpackCheckoutError::BadOutput)
    );
    assert_eq!(unpack_checkout("/w", "/u", Some(0), vec![]), Ok(vec![]));
}

#[test]
fn a_numstat_is_read() {
    let output = "3\t1\t\0/a/libx-1.0.0/src/lib.rs\0/b/libx-1.0.1/src/lib.rs\0\
                  -\t-\t\0/a/libx-1.0.0/logo.png\0/b/libx-1.0.1/logo.png\0\
                  10\t0\t\0/dev/null\0/b/libx-1.0.1/src/new.rs\0\
                  0\t7\t\0/a/libx-1.0.0/src/old.rs\0/dev/null\0\
                  5\t5\t\0/a/libx-1.0.0/Cargo.lock\0/b/libx-1.0.1/Cargo.lock\0\
                  1\t1\t\0/a/libx-1.0.0/.cargo_vcs_info.json\0/b/libx-1.0.1/.cargo_vcs_info.json\0\
                  1\t0\t\0/dev/null\0/b/libx-1.0.1/.cargo-ok\0\
                  2\t2\t\0/a/libx-1.0.0/Cargo.toml\0/b/libx-1.0.1/Cargo.toml\0";
    let (stat, compared) = diffstat_package(
        "/a/libx-1.0.0",
        "/b/libx-1.0.1",
        false,
        Some(1),
        output.as_bytes().to_vec(),
    )
    .unwrap();
    assert_eq!(stat, DiffStat { files_changed: 5, insertions: 15, deletions: 10 });
    assert_eq!(compared.len(), 5);
    assert_eq!(
        compared[2],
        ("/dev/null".to_string(), "/b/libx-1.0.1/src/new.rs".to_string())
    );
    assert_eq!(
        compared[4],
        ("/a/libx-1.0.0/Cargo.toml".to_string(), "/b/libx-1.0.1/Cargo.toml".to_string())
    );
    let (stat, compared) = diffstat_package(
        "/a/libx-1.0.0",
        "/b/libx-1.0.1",
        true,
        Some(1),
        output.as_bytes().to_vec(),
    )
    .unwrap();
    assert_eq!(stat, DiffStat { files_changed: 4, insertions: 13, deletions: 8 });
    assert_eq!(compared.len(), 4);
    let (stat, compared) = diffstat_package("/a", "/b", false, Some(0), vec![]).unwrap();
    assert_eq!(stat, DiffStat { files_changed: 0, insertions: 0, deletions: 0 });
    assert!(compared.is_empty());
}

#[test]
fn a_numstat_that_cannot_be_read_is_an_error() {
    assert_eq!(
        diffstat_package("/a", "/b", false, Some(2), vec![]),
        Err(DiffError::BadStatus { status: 2 })
    );
    assert_eq!(
        diffstat_package("/a", "/b", false, None, vec![]),
        Err(DiffError::BadStatus { status: -1 })
    );
    assert_eq!(
        diffstat_package("/a", "/b", false, Some(0), vec![0xc0]),
        Err(DiffError::BadOutput)
    );
    assert_eq!(
        diffstat_package("/a", "/b", false, Some(1), b"1\t1\t\0/a/x\0/c/x\0".to_vec()),
        Err(DiffError::UnexpectedPath { path: "/c/x".to_string(), base: "/b".to_string() })
    );
    assert_eq!(
        diffstat_package("/a", "/b", false, Some(1), b"1\t1\t\0/c/x\0/dev/null\0".to_vec()),
        Err(DiffError::UnexpectedPath { path: "/c/x".to_string(), base: "/a".to_string() })
    );
    assert_eq!(
        diffstat_package("/a", "/b", false, Some(1), b"1\t1\t\0/dev/null\0/dev/null\0".to_vec()),
        Err(DiffError::InvalidOutput)
    );
    assert_eq!(
        diffstat_package("/a", "/b", false, Some(1), b"one\t1\t\0/a/x\0/b/x\0".to_vec()),
        Err(DiffError::InvalidOutput)
    );
    assert_eq!(
        diffstat_package("/a", "/b", false, Some(1), b"11\0/a/x\0/b/x\0".to_vec()),
        Err(DiffError::InvalidOutput)
    );
    let big = format!("{}\t0\t\0/a/x\0/b/x\0{}\t0\t\0/a/y\0/b/y\0", u64::MAX, 1);
    assert_eq!(
        diffstat_package("/a", "/b", false, Some(1), big.into_bytes()),
        Err(DiffError::InvalidOutput)
    );
}

#[test]
fn the_parts_of_a_numstat_are_read() {
    assert_eq!(read_counts("3\t1\t"), Some((3, 1)));
    assert_eq!(read_counts(" 3\t1 \n"), Some((3, 1)));
    assert_eq!(read_counts("-\t-\t"), Some((0, 0)));
    assert_eq!(read_counts("-\t1"), None);
    assert_eq!(read_counts("3 1"), None);
    assert_eq!(read_counts("3\t1\t2"), None);
    assert_eq!(read_stated_counts("3\t1"), Some((3, 1)));
    assert_eq!(read_stated_counts("-\t-"), Some((0, 0)));
    assert_eq!(read_stated_counts(" 3\t1"), None);
    assert_eq!(read_stated_counts("3\t1\n"), None);
    assert_eq!(parse_number("0"), Some(0));
    assert_eq!(parse_number("+17"), Some(17));
    assert_eq!(parse_number("007"), Some(7));
    assert_eq!(parse_number("18446744073709551615"), Some(u64::MAX));
    assert_eq!(parse_number("18446744073709551616"), None);
    assert_eq!(parse_number(""), None);
    assert_eq!(parse_number("+"), None);
    assert_eq!(parse_number("-1"), None);
    assert_eq!(parse_number("1 "), None);
    assert_eq!(strip_base("/b/x/y", "/b"), Some("x/y".to_string()));
    assert_eq!(strip_base("/b/x/y", "/b/"), Some("x/y".to_string()));
    assert_eq!(strip_base("/b", "/b"), Some("".to_string()));
    assert_eq!(strip_base("/bx/y", "/b"), None);
    assert_eq!(strip_base("/a/x", "/b"), None);
}
