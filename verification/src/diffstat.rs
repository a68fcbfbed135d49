//! Reading what `git diff --numstat -z` printed for two unpacked packages.
//!
//! The output is a run of chunks that end in a NUL character, three for
//! each file that differs: the numbers of the lines put in and taken out,
//! the path on the one side, and the path on the other. A file that exists
//! on one side only has `/dev/null` as its other path, and a binary file
//! has `-` for both numbers.

use vstd::prelude::*;
use vstd::utf8::{decode_utf8, valid_utf8};
use crate::model::Duplicate;
use crate::text::{chars_of, same_text, text_of, utf8_text};
use crate::words::{
    begins_with, ends_with, find_char, first_of, matches_at, number_of, parse_number, pieces,
    split,
};

verus! {

pub const DEV_NULL: &'static str = "/dev/null";

/// How much two versions of a package differ.
#[derive(Clone, Copy, Debug, PartialEq, Eq, Structural)]
pub struct DiffStat {
    pub files_changed: u64,
    pub insertions: u64,
    pub deletions: u64,
}

impl DeepView for DiffStat {
    type V = DiffStat;

    open spec fn deep_view(&self) -> DiffStat {
        *self
    }
}

impl Duplicate for DiffStat {
    fn duplicate(&self) -> (r: Self) {
        *self
    }
}

/// Why a diff could not be made or read.
#[derive(Clone, Debug, PartialEq, Eq)]
pub enum DiffError {
    /// The command could not be run.
    CommandFailed { message: String },
    /// The command ended with a status other than 0 and 1.
    BadStatus { status: i32 },
    /// The output is not UTF-8.
    BadOutput,
    /// A path of the output does not lie under the side it belongs to.
    UnexpectedPath { path: String, base: String },
    /// The output is not what the command prints.
    InvalidOutput,
}

pub enum DiffErrorView {
    CommandFailed { message: Seq<char> },
    BadStatus { status: i32 },
    BadOutput,
    UnexpectedPath { path: Seq<char>, base: Seq<char> },
    InvalidOutput,
}

impl DeepView for DiffError {
    type V = DiffErrorView;

    open spec fn deep_view(&self) -> DiffErrorView {
        match self {
            DiffError::CommandFailed { message } => DiffErrorView::CommandFailed {
                message: message@,
            },
            DiffError::BadStatus { status } => DiffErrorView::BadStatus { status: *status },
            DiffError::BadOutput => DiffErrorView::BadOutput,
            DiffError::UnexpectedPath { path, base } => DiffErrorView::UnexpectedPath {
                path: path@,
                base: base@,
            },
            DiffError::InvalidOutput => DiffErrorView::InvalidOutput,
        }
    }
}

/// What has been counted so far: the sums, and the pairs of paths that
/// were compared.
pub struct Tally {
    pub stat: DiffStat,
    pub compared: Seq<(Seq<char>, Seq<char>)>,
}

pub open spec fn dev_null() -> Seq<char> {
    "/dev/null"@
}

/// The path of a file below a directory: the rest of `path` behind `base`
/// and a slash. The directory itself has the empty path.
pub open spec fn relative_to(path: Seq<char>, base: Seq<char>) -> Option<Seq<char>> {
    if path == base {
        Some(Seq::empty())
    } else if ends_with(base, seq!['/']) && begins_with(path, base) {
        Some(path.subrange(base.len() as int, path.len() as int))
    } else if begins_with(path, base.push('/')) {
        Some(path.subrange(base.len() as int + 1, path.len() as int))
    } else {
        None
    }
}

/// Whether changes to a file with this path in its package are not
/// counted: the lock file and the two files that packaging adds, and for a
/// package from a git checkout the manifest too.
pub open spec fn is_skipped(path: Seq<char>, has_git_rev: bool) -> bool {
    path == "Cargo.lock"@ || path == ".cargo_vcs_info.json"@ || path == ".cargo-ok"@ || (
    has_git_rev && path == "Cargo.toml"@)
}

/// The text with the white space at both ends taken off, as `str::trim`
/// gives it.
pub uninterp spec fn trim_of(text: Seq<char>) -> Seq<char>;

/// The numbers of lines put in and taken out that a text without white
/// space at its ends states: two numbers with a tab between them, or two
/// dashes for a binary file, which counts no lines.
pub open spec fn stated_counts(text: Seq<char>) -> Option<(u64, u64)> {
    if !text.contains('\t') {
        None
    } else {
        let at = choose|at: int| first_of(text, '\t', at);
        let put_in = text.subrange(0, at);
        let taken_out = text.subrange(at + 1, text.len() as int);
        if put_in == seq!['-'] && taken_out == seq!['-'] {
            Some((0u64, 0u64))
        } else {
            match (number_of(put_in), number_of(taken_out)) {
                (Some(a), Some(b)) => Some((a, b)),
                _ => None,
            }
        }
    }
}

/// The numbers of lines put in and taken out that a chunk states, white
/// space at its ends not counted.
pub open spec fn counts_of(changes: Seq<char>) -> Option<(u64, u64)> {
    stated_counts(trim_of(changes))
}

/// The path in its package of the file that an entry is about: that of the
/// new side, or of the old side for a file that was taken away.
pub open spec fn entry_path(
    from: Seq<char>,
    to: Seq<char>,
    version1: Seq<char>,
    version2: Seq<char>,
) -> Result<Seq<char>, DiffErrorView> {
    if to != dev_null() {
        match relative_to(to, version2) {
            Some(path) => Ok(path),
            None => Err(DiffErrorView::UnexpectedPath { path: to, base: version2 }),
        }
    } else if from == dev_null() {
        Err(DiffErrorView::InvalidOutput)
    } else {
        match relative_to(from, version1) {
            Some(path) => Ok(path),
            None => Err(DiffErrorView::UnexpectedPath { path: from, base: version1 }),
        }
    }
}

/// The tally after one entry of the output.
pub open spec fn counted(
    changes: Seq<char>,
    from: Seq<char>,
    to: Seq<char>,
    version1: Seq<char>,
    version2: Seq<char>,
    has_git_rev: bool,
    tally: Tally,
) -> Result<Tally, DiffErrorView> {
    match entry_path(from, to, version1, version2) {
        Err(e) => Err(e),
        Ok(path) => if is_skipped(path, has_git_rev) {
            Ok(tally)
        } else {
            match counts_of(changes) {
                None => Err(DiffErrorView::InvalidOutput),
                Some((put_in, taken_out)) => if tally.stat.files_changed + 1 > u64::MAX
                    || tally.stat.insertions + put_in > u64::MAX || tally.stat.deletions
                    + taken_out > u64::MAX {
                    Err(DiffErrorView::InvalidOutput)
                } else {
                    Ok(
                        Tally {
                            stat: DiffStat {
                                files_changed: (tally.stat.files_changed + 1) as u64,
                                insertions: (tally.stat.insertions + put_in) as u64,
                                deletions: (tally.stat.deletions + taken_out) as u64,
                            },
                            compared: tally.compared.push((from, to)),
                        },
                    )
                },
            }
        },
    }
}

/// The tally of the entries from chunk `at` on. Chunks at the end that do
/// not make an entry are left aside.
pub open spec fn tallied(
    chunks: Seq<Seq<char>>,
    at: int,
    version1: Seq<char>,
    version2: Seq<char>,
    has_git_rev: bool,
    tally: Tally,
) -> Result<Tally, DiffErrorView>
    decreases chunks.len() - at,
{
    if at < 0 || at + 3 > chunks.len() {
        Ok(tally)
    } else {
        match counted(
            chunks[at],
            chunks[at + 1],
            chunks[at + 2],
            version1,
            version2,
            has_git_rev,
            tally,
        ) {
            Err(e) => Err(e),
            Ok(next) => tallied(chunks, at + 3, version1, version2, has_git_rev, next),
        }
    }
}

pub open spec fn empty_tally() -> Tally {
    Tally {
        stat: DiffStat { files_changed: 0, insertions: 0, deletions: 0 },
        compared: Seq::empty(),
    }
}

/// What the output of the command says.
pub open spec fn diffstat_of(
    output: Seq<char>,
    version1: Seq<char>,
    version2: Seq<char>,
    has_git_rev: bool,
) -> Result<Tally, DiffErrorView> {
    tallied(pieces(output, '\0'), 0, version1, version2, has_git_rev, empty_tally())
}

/// What a run of the command says: nothing but the status where that is
/// neither 0 nor 1 (a run without a status counts as -1), nothing where the
/// output is not UTF-8, else what the output says.
pub open spec fn diffstat_of_run(
    status: Option<i32>,
    stdout: Seq<u8>,
    version1: Seq<char>,
    version2: Seq<char>,
    has_git_rev: bool,
) -> Result<Tally, DiffErrorView> {
    let code = match status {
        Some(code) => code,
        None => -1i32,
    };
    if code != 0 && code != 1 {
        Err(DiffErrorView::BadStatus { status: code })
    } else if !valid_utf8(stdout) {
        Err(DiffErrorView::BadOutput)
    } else {
        diffstat_of(decode_utf8(stdout), version1, version2, has_git_rev)
    }
}

/// The path of a file below a directory.
pub fn strip_base(path: &str, base: &str) -> (r: Option<String>)
    ensures
        r.deep_view() == relative_to(path@, base@),
{
    let p = chars_of(path);
    let b = chars_of(base);
    let whole = matches_at(&p, 0, &b);
    if whole && p.len() == b.len() {
        assert(p@.subrange(0, b.len() as int) =~= p@);
        return Some(String::new());
    }
    assert(path@ != base@) by {
        if path@ == base@ {
            assert(p@.subrange(0, b.len() as int) =~= p@);
        }
    }
    let slash_ended = b.len() > 0 && b[b.len() - 1] == '/';
    assert(slash_ended == ends_with(base@, seq!['/'])) by {
        if b.len() > 0 {
            assert(base@.subrange(base@.len() - 1, base@.len() as int) =~= seq![b@[b.len() - 1]]);
            assert(seq![b@[b.len() - 1]][0] == b@[b.len() - 1]);
        }
    }
    if slash_ended && whole {
        return Some(text_of(&p, b.len(), p.len()));
    }
    let ghost with_slash = base@.push('/');
    if whole && p.len() > b.len() && p[b.len()] == '/' {
        assert(p@.subrange(0, b.len() + 1) =~= with_slash);
        return Some(text_of(&p, b.len() + 1, p.len()));
    }
    assert(!begins_with(path@, with_slash)) by {
        if begins_with(path@, with_slash) {
            assert(p@.subrange(0, b.len() as int) =~= p@.subrange(0, b.len() + 1).subrange(
                0,
                b.len() as int,
            ));
            assert(with_slash.subrange(0, b.len() as int) =~= b@);
            assert(p@.subrange(0, b.len() + 1)[b.len() as int] == '/');
        }
    }
    None
}

/// Whether changes to a file with this path in its package are not
/// counted.
pub fn skips(path: &str, has_git_rev: bool) -> (r: bool)
    ensures
        r == is_skipped(path@, has_git_rev),
{
    same_text(path, "Cargo.lock") || same_text(path, ".cargo_vcs_info.json") || same_text(
        path,
        ".cargo-ok",
    ) || (has_git_rev && same_text(path, "Cargo.toml"))
}

/// Reads the numbers of a chunk.
pub fn read_counts(changes: &str) -> (r: Option<(u64, u64)>)
    ensures
        r == counts_of(changes@),
{
    read_stated_counts(trimmed(changes))
}

/// Reads the numbers that a text without white space at its ends states.
pub fn read_stated_counts(trimmed_changes: &str) -> (r: Option<(u64, u64)>)
    ensures
        r == stated_counts(trimmed_changes@),
{
    let text = chars_of(trimmed_changes);
    let at = match find_char(&text, '\t') {
        Some(at) => at,
        None => {
            return None;
        },
    };
    proof {
        let chosen = choose|chosen: int| first_of(text@, '\t', chosen);
        assert(first_of(text@, '\t', at as int));
        assert(chosen == at);
    }
    let put_in = text_of(&text, 0, at);
    let taken_out = text_of(&text, at + 1, text.len());
    proof {
        reveal_strlit("-");
        assert("-"@ =~= seq!['-']);
    }
    if same_text(put_in.as_str(), "-") && same_text(taken_out.as_str(), "-") {
        return Some((0, 0));
    }
    match parse_number(put_in.as_str()) {
        Some(a) => match parse_number(taken_out.as_str()) {
            Some(b) => Some((a, b)),
            None => None,
        },
        None => None,
    }
}

/// Reads what a run of `git diff --numstat -z` on the two directories
/// says: how much they differ, and the pairs of paths that were compared.
pub fn diffstat_package(
    version1: &str,
    version2: &str,
    has_git_rev: bool,
    status: Option<i32>,
    stdout: Vec<u8>,
) -> (r: Result<(DiffStat, Vec<(String, String)>), DiffError>)
    ensures
        match (r, diffstat_of_run(status, stdout@, version1@, version2@, has_git_rev)) {
            (Ok((stat, compared)), Ok(tally)) => stat == tally.stat && compared.deep_view()
                == tally.compared,
            (Err(e), Err(f)) => e.deep_view() == f,
            _ => false,
        },
{
    let code = match status {
        Some(code) => code,
        None => -1,
    };
    if code != 0 && code != 1 {
        return Err(DiffError::BadStatus { status: code });
    }
    let output = match utf8_text(stdout) {
        Some(output) => output,
        None => {
            return Err(DiffError::BadOutput);
        },
    };
    let chunks = split(output.as_str(), '\0');
    let ghost all = chunks.deep_view();
    let ghost goal = tallied(all, 0, version1@, version2@, has_git_rev, empty_tally());
    let mut diffstat = DiffStat { files_changed: 0, insertions: 0, deletions: 0 };
    let mut to_compare: Vec<(String, String)> = Vec::new();
    assert(to_compare.deep_view() =~= Seq::empty());
    let mut i: usize = 0;
    while i < chunks.len() && chunks.len() - i >= 3
        invariant
            all == chunks.deep_view(),
            i <= chunks.len(),
            goal == diffstat_of_run(status, stdout@, version1@, version2@, has_git_rev),
            goal == tallied(
                all,
                i as int,
                version1@,
                version2@,
                has_git_rev,
                Tally { stat: diffstat, compared: to_compare.deep_view() },
            ),
        decreases chunks.len() - i,
    {
        let changes_s = &chunks[i];
        let from_s = &chunks[i + 1];
        let to_s = &chunks[i + 2];
        proof {
            reveal_strlit("/dev/null");
        }
        let found = if !same_text(to_s.as_str(), DEV_NULL) {
            match strip_base(to_s.as_str(), version2) {
                Some(path) => Ok(path),
                None => Err(
                    DiffError::UnexpectedPath { path: to_s.clone(), base: version2.to_owned() },
                ),
            }
        } else if same_text(from_s.as_str(), DEV_NULL) {
            Err(DiffError::InvalidOutput)
        } else {
            match strip_base(from_s.as_str(), version1) {
                Some(path) => Ok(path),
                None => Err(
                    DiffError::UnexpectedPath { path: from_s.clone(), base: version1.to_owned() },
                ),
            }
        };
        let rel_path = match found {
            Ok(path) => path,
            Err(e) => {
                return Err(e);
            },
        };
        proof {
            reveal_strlit("Cargo.lock");
            reveal_strlit(".cargo_vcs_info.json");
            reveal_strlit(".cargo-ok");
            reveal_strlit("Cargo.toml");
        }
        if !skips(rel_path.as_str(), has_git_rev) {
            let (put_in, taken_out) = match read_counts(changes_s.as_str()) {
                Some(counts) => counts,
                None => {
                    return Err(DiffError::InvalidOutput);
                },
            };
            if diffstat.files_changed == u64::MAX || put_in > u64::MAX - diffstat.insertions
                || taken_out > u64::MAX - diffstat.deletions {
                return Err(DiffError::InvalidOutput);
            }
            let ghost so_far = to_compare.deep_view();
            to_compare.push((from_s.clone(), to_s.clone()));
            assert(to_compare.deep_view() =~= so_far.push((from_s@, to_s@)));
            diffstat = DiffStat {
                files_changed: diffstat.files_changed + 1,
                insertions: diffstat.insertions + put_in,
                deletions: diffstat.deletions + taken_out,
            };
        }
        i = i + 3;
    }
    Ok((diffstat, to_compare))
}

/// Calls `str::trim` of the standard library. Claimed of it: the result
/// depends on the text alone.
#[verifier::external_body]
fn trimmed(text: &str) -> (r: &str)
    ensures
        r@ == trim_of(text@),
{
    text.trim()
}

} // verus!
