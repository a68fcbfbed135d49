//! What may be unpacked into the cache, and how a checkout is repacked.

use vstd::prelude::*;
use vstd::utf8::{decode_utf8, valid_utf8};
use crate::fetch::{UnpackCheckoutError, UnpackError};
use crate::paths::{join, joined};
use crate::text::{chars_of, same_text, text_of, utf8_text};
use crate::words::{begins_with, matches_at, pieces, split};

verus! {

/// Whether a path of an archive lies in the directory `prefix`: it is the
/// directory itself or begins with the name of the directory and a slash.
pub open spec fn lies_in(entry_path: Seq<char>, prefix: Seq<char>) -> bool {
    entry_path == prefix || begins_with(entry_path, prefix.push('/'))
}

/// Whether a path of an archive lies in the directory `prefix`.
pub fn starts_with_dir(entry_path: &str, prefix: &str) -> (r: bool)
    ensures
        r == lies_in(entry_path@, prefix@),
{
    let path = chars_of(entry_path);
    let name = chars_of(prefix);
    let begins = matches_at(&path, 0, &name);
    if begins && path.len() == name.len() {
        assert(path@.subrange(0, name.len() as int) =~= path@);
        return true;
    }
    assert(entry_path@ != prefix@) by {
        if entry_path@ == prefix@ {
            assert(path@.subrange(0, name.len() as int) =~= path@);
        }
    }
    let ghost with_slash = prefix@.push('/');
    if begins && path.len() > name.len() && path[name.len()] == '/' {
        assert(path@.subrange(0, name.len() + 1) =~= with_slash);
        return true;
    }
    assert(!begins_with(entry_path@, with_slash)) by {
        if begins_with(entry_path@, with_slash) {
            assert(path@.subrange(0, name.len() as int) =~= path@.subrange(
                0,
                name.len() + 1,
            ).subrange(0, name.len() as int));
            assert(with_slash.subrange(0, name.len() as int) =~= name@);
            assert(path@.subrange(0, name.len() + 1)[name.len() as int] == '/');
        }
    }
    false
}

/// Lets an entry of an archive be unpacked only if its path lies in the
/// directory of the package. The packed form of a package holds nothing
/// else; an entry with another path could overwrite the source of another
/// package.
pub fn admit_entry(entry_path: &str, prefix: &str) -> (r: Result<(), UnpackError>)
    ensures
        r is Ok == lies_in(entry_path@, prefix@),
        r matches Err(e) ==> e matches UnpackError::InvalidPaths { entry_path: path, prefix: dir }
            && path@ == entry_path@ && dir@ == prefix@,
{
    if starts_with_dir(entry_path, prefix) {
        Ok(())
    } else {
        Err(
            UnpackError::InvalidPaths {
                entry_path: entry_path.to_owned(),
                prefix: prefix.to_owned(),
            },
        )
    }
}

/// The position of the first path that does not lie in the directory.
pub open spec fn first_outside(paths: Seq<Seq<char>>, prefix: Seq<char>, at: int) -> bool {
    &&& 0 <= at < paths.len()
    &&& !lies_in(paths[at], prefix)
    &&& forall|i: int| 0 <= i < at ==> lies_in(#[trigger] paths[i], prefix)
}

/// Lets an archive be unpacked only if all its paths lie in the directory
/// of the package; else names the first path that does not.
pub fn admit_entries(entry_paths: &Vec<String>, prefix: &str) -> (r: Result<(), UnpackError>)
    ensures
        r is Ok == forall|i: int|
            0 <= i < entry_paths.len() ==> lies_in(#[trigger] entry_paths.deep_view()[i], prefix@),
        r matches Err(e) ==> e matches UnpackError::InvalidPaths { entry_path: path, prefix: dir }
            && dir@ == prefix@ && exists|at: int|
            first_outside(entry_paths.deep_view(), prefix@, at) && path@
                == #[trigger] entry_paths.deep_view()[at],
{
    let mut i: usize = 0;
    while i < entry_paths.len()
        invariant
            i <= entry_paths.len(),
            forall|k: int| 0 <= k < i ==> lies_in(#[trigger] entry_paths.deep_view()[k], prefix@),
        decreases entry_paths.len() - i,
    {
        match admit_entry(entry_paths[i].as_str(), prefix) {
            Ok(_) => {},
            Err(e) => {
                assert(first_outside(entry_paths.deep_view(), prefix@, i as int));
                return Err(e);
            },
        }
        i = i + 1;
    }
    Ok(())
}

/// A line without the carriage return at its end, if it has one.
pub open spec fn bare_line(line: Seq<char>) -> Seq<char> {
    if line.len() > 0 && line.last() == '\r' {
        line.drop_last()
    } else {
        line
    }
}

/// The lines of a text: its pieces between line feeds, each that a line
/// feed ends without a carriage return before that line feed. A line feed
/// at the end of the text ends the last line and begins no other; a last
/// line that no line feed ends is taken as it is.
pub open spec fn lines_of(text: Seq<char>) -> Seq<Seq<char>> {
    let all = pieces(text, '\n');
    let count = if all.last().len() == 0 {
        all.len() - 1
    } else {
        all.len() as int
    };
    Seq::new(
        count as nat,
        |i: int|
            if i < all.len() - 1 {
                bare_line(all[i])
            } else {
                all[i]
            },
    )
}

/// Cuts a text into its lines.
pub fn lines(text: &str) -> (r: Vec<String>)
    ensures
        r.deep_view() == lines_of(text@),
{
    let all = split(text, '\n');
    proof {
        crate::words::lemma_pieces_nonempty(text@, '\n');
    }
    let last_empty = all[all.len() - 1].as_str().unicode_len() == 0;
    let count = if last_empty {
        all.len() - 1
    } else {
        all.len()
    };
    let ghost goal = lines_of(text@);
    let mut out: Vec<String> = Vec::new();
    let mut i: usize = 0;
    assert(out.deep_view() =~= goal.take(0));
    while i < count
        invariant
            i <= count <= all.len(),
            all.len() > 0,
            count == goal.len(),
            all.deep_view() == pieces(text@, '\n'),
            goal == lines_of(text@),
            out.deep_view() == goal.take(i as int),
        decreases count - i,
    {
        let chars = chars_of(all[i].as_str());
        let end = if i + 1 < all.len() && chars.len() > 0 && chars[chars.len() - 1] == '\r' {
            chars.len() - 1
        } else {
            chars.len()
        };
        let line = text_of(&chars, 0, end);
        assert(all.deep_view()[i as int] == chars@);
        assert(line@ =~= goal[i as int]);
        let ghost so_far = out.deep_view();
        out.push(line);
        assert(out.deep_view() =~= so_far.push(goal[i as int]));
        assert(out.deep_view() =~= goal.take(i + 1));
        i = i + 1;
    }
    assert(out.deep_view() =~= goal);
    out
}

/// A file to copy when a checkout is repacked.
#[derive(Clone, Debug, PartialEq, Eq)]
pub struct CopyJob {
    /// The path in the package, as the packaging tool listed it.
    pub target: String,
    pub from: String,
    pub to: String,
}

pub struct CopyJobView {
    pub target: Seq<char>,
    pub from: Seq<char>,
    pub to: Seq<char>,
}

impl DeepView for CopyJob {
    type V = CopyJobView;

    open spec fn deep_view(&self) -> CopyJobView {
        CopyJobView { target: self.target@, from: self.from@, to: self.to@ }
    }
}

/// Whether a file that the packaging tool lists is left out of a repacked
/// checkout: diffs ignore it anyway.
pub open spec fn is_left_out(target: Seq<char>) -> bool {
    target == "Cargo.lock"@ || target == ".cargo_vcs_info.json"@ || target == ".cargo-ok"@
}

/// The copy that brings a listed file into the repacked checkout. The
/// original of the manifest is the manifest of the checkout.
pub open spec fn copy_of(target: Seq<char>, checkout: Seq<char>, unpack: Seq<char>) -> CopyJobView {
    CopyJobView {
        target,
        from: if target == "Cargo.toml.orig"@ {
            joined(checkout, "Cargo.toml"@)
        } else {
            joined(checkout, target)
        },
        to: joined(unpack, target),
    }
}

/// The copies for the listed files that are not left out, in the order of
/// the list.
pub open spec fn copies_of(targets: Seq<Seq<char>>, checkout: Seq<char>, unpack: Seq<char>) -> Seq<
    CopyJobView,
>
    decreases targets.len(),
{
    if targets.len() == 0 {
        Seq::empty()
    } else if is_left_out(targets.last()) {
        copies_of(targets.drop_last(), checkout, unpack)
    } else {
        copies_of(targets.drop_last(), checkout, unpack).push(
            copy_of(targets.last(), checkout, unpack),
        )
    }
}

pub enum UnpackCheckoutErrorView {
    BadStatus { status: i32 },
    BadOutput,
}

/// What is to be copied to repack a checkout, given how the listing of the
/// packaging tool ended: nothing where the tool failed (a run without a
/// status counts as -1) or printed something that is not UTF-8, else a
/// copy for each line of the listing that is not left out.
pub open spec fn checkout_plan(
    status: Option<i32>,
    stdout: Seq<u8>,
    checkout: Seq<char>,
    unpack: Seq<char>,
) -> Result<Seq<CopyJobView>, UnpackCheckoutErrorView> {
    let code = match status {
        Some(code) => code,
        None => -1i32,
    };
    if code != 0 {
        Err(UnpackCheckoutErrorView::BadStatus { status: code })
    } else if !valid_utf8(stdout) {
        Err(UnpackCheckoutErrorView::BadOutput)
    } else {
        Ok(copies_of(lines_of(decode_utf8(stdout)), checkout, unpack))
    }
}

/// Plans the repacking of a checkout from the listing of the packaging
/// tool. The caller makes the directory, does the copies, passing over
/// files that are listed but not there, and writes the marker.
pub fn unpack_checkout(
    checkout_path: &str,
    unpack_path: &str,
    status: Option<i32>,
    stdout: Vec<u8>,
) -> (r: Result<Vec<CopyJob>, UnpackCheckoutError>)
    ensures
        match (r, checkout_plan(status, stdout@, checkout_path@, unpack_path@)) {
            (Ok(jobs), Ok(plan)) => jobs.deep_view() == plan,
            (
                Err(UnpackCheckoutError::BadStatus { status: a }),
                Err(UnpackCheckoutErrorView::BadStatus { status: b }),
            ) => a == b,
            (Err(UnpackCheckoutError::BadOutput), Err(UnpackCheckoutErrorView::BadOutput)) => true,
            _ => false,
        },
{
    let code = match status {
        Some(code) => code,
        None => -1,
    };
    if code != 0 {
        return Err(UnpackCheckoutError::BadStatus { status: code });
    }
    let listing = match utf8_text(stdout) {
        Some(listing) => listing,
        None => {
            return Err(UnpackCheckoutError::BadOutput);
        },
    };
    let targets = lines(listing.as_str());
    let ghost all = targets.deep_view();
    let mut jobs: Vec<CopyJob> = Vec::new();
    assert(all.take(0) =~= Seq::empty());
    assert(jobs.deep_view() =~= copies_of(all.take(0), checkout_path@, unpack_path@));
    let mut i: usize = 0;
    while i < targets.len()
        invariant
            all == targets.deep_view(),
            i <= targets.len(),
            jobs.deep_view() == copies_of(all.take(i as int), checkout_path@, unpack_path@),
        decreases targets.len() - i,
    {
        proof {
            assert(all.take(i + 1).drop_last() =~= all.take(i as int));
            assert(all.take(i + 1).last() == all[i as int]);
        }
        let target = targets[i].as_str();
        if !(same_text(target, "Cargo.lock") || same_text(target, ".cargo_vcs_info.json")
            || same_text(target, ".cargo-ok")) {
            let from = if same_text(target, "Cargo.toml.orig") {
                join(checkout_path, "Cargo.toml")
            } else {
                join(checkout_path, target)
            };
            let ghost so_far = jobs.deep_view();
            let job = CopyJob { target: target.to_owned(), from, to: join(unpack_path, target) };
            let ghost made = job.deep_view();
            jobs.push(job);
            assert(jobs.deep_view() =~= so_far.push(made));
        }
        i = i + 1;
    }
    assert(all.take(all.len() as int) =~= all);
    Ok(jobs)
}

} // verus!
