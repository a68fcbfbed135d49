//! Package versions: a semantic version, with an optional git revision for
//! packages that do not come from the registry.

use vstd::prelude::*;
use cargo_metadata::semver::{BuildMetadata, Prerelease};
use crate::model::{Duplicate, Same};

verus! {

/// A semantic version. `pre` and `build` hold the text after `-` and after
/// `+`, and are empty where the version has no such part.
#[derive(Clone, Debug, PartialEq, Eq)]
pub struct Version {
    pub major: u64,
    pub minor: u64,
    pub patch: u64,
    pub pre: String,
    pub build: String,
}

pub struct VersionView {
    pub major: u64,
    pub minor: u64,
    pub patch: u64,
    pub pre: Seq<char>,
    pub build: Seq<char>,
}

impl DeepView for Version {
    type V = VersionView;

    open spec fn deep_view(&self) -> VersionView {
        VersionView {
            major: self.major,
            minor: self.minor,
            patch: self.patch,
            pre: self.pre@,
            build: self.build@,
        }
    }
}

pub open spec fn digit_char(d: int) -> char {
    if d == 0 {
        '0'
    } else if d == 1 {
        '1'
    } else if d == 2 {
        '2'
    } else if d == 3 {
        '3'
    } else if d == 4 {
        '4'
    } else if d == 5 {
        '5'
    } else if d == 6 {
        '6'
    } else if d == 7 {
        '7'
    } else if d == 8 {
        '8'
    } else {
        '9'
    }
}

/// The decimal digits of `n`, without leading zeros.
pub open spec fn decimal(n: nat) -> Seq<char>
    decreases n,
{
    if n < 10 {
        seq![digit_char(n as int)]
    } else {
        decimal(n / 10).push(digit_char((n % 10) as int))
    }
}

/// The text of a version: `major.minor.patch`, then `-` and the pre-release
/// tag if there is one, then `+` and the build tag if there is one.
pub open spec fn version_text(v: VersionView) -> Seq<char> {
    decimal(v.major as nat) + seq!['.'] + decimal(v.minor as nat) + seq!['.'] + decimal(
        v.patch as nat,
    ) + (if v.pre.len() > 0 {
        seq!['-'] + v.pre
    } else {
        Seq::empty()
    }) + (if v.build.len() > 0 {
        seq!['+'] + v.build
    } else {
        Seq::empty()
    })
}

fn digit_of(d: u64) -> (c: char)
    requires
        d < 10,
    ensures
        c == digit_char(d as int),
{
    if d == 0 {
        '0'
    } else if d == 1 {
        '1'
    } else if d == 2 {
        '2'
    } else if d == 3 {
        '3'
    } else if d == 4 {
        '4'
    } else if d == 5 {
        '5'
    } else if d == 6 {
        '6'
    } else if d == 7 {
        '7'
    } else if d == 8 {
        '8'
    } else {
        '9'
    }
}

/// Appends the decimal digits of `n` to `out`.
pub fn push_decimal(out: &mut String, n: u64)
    ensures
        final(out)@ == old(out)@ + decimal(n as nat),
    decreases n,
{
    if n >= 10 {
        push_decimal(out, n / 10);
    }
    out.push(digit_of(n % 10));
    assert(out@ =~= old(out)@ + decimal(n as nat));
}

impl Version {
    pub fn new(major: u64, minor: u64, patch: u64) -> (v: Version)
        ensures
            v.deep_view() == (VersionView {
                major,
                minor,
                patch,
                pre: Seq::empty(),
                build: Seq::empty(),
            }),
    {
        Version { major, minor, patch, pre: String::new(), build: String::new() }
    }

    /// Appends the text of the version to `out`.
    pub fn write_to(&self, out: &mut String)
        ensures
            final(out)@ == old(out)@ + version_text(self.deep_view()),
    {
        push_decimal(out, self.major);
        out.push('.');
        push_decimal(out, self.minor);
        out.push('.');
        push_decimal(out, self.patch);
        if self.pre.as_str().unicode_len() > 0 {
            out.push('-');
            out.append(self.pre.as_str());
        }
        if self.build.as_str().unicode_len() > 0 {
            out.push('+');
            out.append(self.build.as_str());
        }
        assert(out@ =~= old(out)@ + version_text(self.deep_view()));
    }

    /// The text of the version.
    pub fn text(&self) -> (r: String)
        ensures
            r@ == version_text(self.deep_view()),
    {
        let mut out = String::new();
        self.write_to(&mut out);
        assert(out@ =~= version_text(self.deep_view()));
        out
    }

    /// Reads a version from its text, by the rules of semantic versioning.
    pub fn parse(text: &str) -> (r: Option<Version>)
        ensures
            r.deep_view() == parsed_version(text@),
    {
        semver_parse(text)
    }
}

impl Duplicate for Version {
    fn duplicate(&self) -> (r: Version) {
        Version {
            major: self.major,
            minor: self.minor,
            patch: self.patch,
            pre: self.pre.clone(),
            build: self.build.clone(),
        }
    }
}

impl Same for Version {
    /// Equality of all five parts.
    fn same(&self, other: &Version) -> (r: bool) {
        self.major == other.major && self.minor == other.minor && self.patch == other.patch
            && self.pre == other.pre && self.build == other.build
    }
}

/// A version of a package: the semantic version and, for a package taken
/// from a git checkout, the revision.
#[derive(Clone, Debug, PartialEq, Eq)]
pub struct VetVersion {
    pub semver: Version,
    pub git_rev: Option<String>,
}

pub struct VetVersionView {
    pub semver: VersionView,
    pub git_rev: Option<Seq<char>>,
}

impl DeepView for VetVersion {
    type V = VetVersionView;

    open spec fn deep_view(&self) -> VetVersionView {
        VetVersionView { semver: self.semver.deep_view(), git_rev: self.git_rev.deep_view() }
    }
}

impl Duplicate for VetVersion {
    fn duplicate(&self) -> (r: VetVersion) {
        VetVersion { semver: self.semver.duplicate(), git_rev: self.git_rev.duplicate() }
    }
}

impl Same for VetVersion {
    fn same(&self, other: &VetVersion) -> (r: bool) {
        self.semver.same(&other.semver) && self.git_rev.same(&other.git_rev)
    }
}

/// A step between two versions of a package. Without `from`, the step
/// starts at the empty package.
#[derive(Clone, Debug, PartialEq, Eq)]
pub struct Delta {
    pub from: Option<VetVersion>,
    pub to: VetVersion,
}

pub struct DeltaView {
    pub from: Option<VetVersionView>,
    pub to: VetVersionView,
}

impl DeepView for Delta {
    type V = DeltaView;

    open spec fn deep_view(&self) -> DeltaView {
        DeltaView { from: self.from.deep_view(), to: self.to.deep_view() }
    }
}

impl Duplicate for Delta {
    fn duplicate(&self) -> (r: Delta) {
        Delta { from: self.from.duplicate(), to: self.to.duplicate() }
    }
}

impl Same for Delta {
    fn same(&self, other: &Delta) -> (r: bool) {
        self.from.same(&other.from) && self.to.same(&other.to)
    }
}

/// What `semver` reads from a text: the version it stands for, or `None`
/// where the text is no semantic version.
pub uninterp spec fn parsed_version(text: Seq<char>) -> Option<VersionView>;

/// Calls `semver::Version::parse`. Claimed of it: the result depends on the
/// text alone.
#[verifier::external_body]
fn semver_parse(text: &str) -> (r: Option<Version>)
    ensures
        r.deep_view() == parsed_version(text@),
{
    cargo_metadata::semver::Version::parse(text).ok().map(
        |v| Version {
            major: v.major,
            minor: v.minor,
            patch: v.patch,
            pre: v.pre.as_str().to_owned(),
            build: v.build.as_str().to_owned(),
        },
    )
}

/// Whether the tags of a version put it before another version with the
/// same three numbers, in the order of `semver`: a pre-release comes before
/// the release, pre-release tags go part by part with numbers by size, and
/// the build tags decide last. A tag that `semver` does not take counts as
/// no tag.
pub uninterp spec fn tags_before(
    pre: Seq<char>,
    build: Seq<char>,
    other_pre: Seq<char>,
    other_build: Seq<char>,
) -> bool;

/// Whether a version comes before another in the order of `semver`: the
/// three numbers decide in turn, and between versions with the same numbers
/// the tags.
pub open spec fn version_before(a: VersionView, b: VersionView) -> bool {
    if a.major != b.major {
        a.major < b.major
    } else if a.minor != b.minor {
        a.minor < b.minor
    } else if a.patch != b.patch {
        a.patch < b.patch
    } else {
        tags_before(a.pre, a.build, b.pre, b.build)
    }
}

/// Calls `<` of `semver::Version`. Claimed of it: the order goes by the
/// major, the minor and the patch number in turn, and where these are the
/// same the result depends on the tags of the two versions alone.
#[verifier::external_body]
pub(crate) fn semver_precedes(a: &Version, b: &Version) -> (r: bool)
    ensures
        r == if a.major != b.major {
            a.major < b.major
        } else if a.minor != b.minor {
            a.minor < b.minor
        } else if a.patch != b.patch {
            a.patch < b.patch
        } else {
            tags_before(a.pre@, a.build@, b.pre@, b.build@)
        },
{
    let mut x = cargo_metadata::semver::Version::new(a.major, a.minor, a.patch);
    let mut y = cargo_metadata::semver::Version::new(b.major, b.minor, b.patch);
    x.pre = Prerelease::new(&a.pre).unwrap_or(Prerelease::EMPTY);
    y.pre = Prerelease::new(&b.pre).unwrap_or(Prerelease::EMPTY);
    x.build = BuildMetadata::new(&a.build).unwrap_or(BuildMetadata::EMPTY);
    y.build = BuildMetadata::new(&b.build).unwrap_or(BuildMetadata::EMPTY);
    x < y
}

} // verus!
