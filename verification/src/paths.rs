//! The names and paths of the cache directory.
//!
//! ```text
//! <root>/.vet-lock              the lock of the cache
//! <root>/diff-cache.toml        the diffs that were computed
//! <root>/command-history.json   the last fetch
//! <root>/publisher-cache.json   what the registry told
//! <root>/empty/                 the empty package
//! <root>/src/<name>-<version>/  unpacked packages
//! <root>/cache/<name>-<version>.crate  packed packages
//! ```

use vstd::prelude::*;
use vstd::string::StringExecFns;
use crate::text::chars_of;
use crate::version::{version_text, VetVersion, VetVersionView};

verus! {

pub const CACHE_DIFF_CACHE: &'static str = "diff-cache.toml";

pub const CACHE_COMMAND_HISTORY: &'static str = "command-history.json";

pub const CACHE_PUBLISHER_CACHE: &'static str = "publisher-cache.json";

pub const CACHE_EMPTY_PACKAGE: &'static str = "empty";

pub const CACHE_REGISTRY_SRC: &'static str = "src";

pub const CACHE_REGISTRY_CACHE: &'static str = "cache";

pub const CACHE_VET_LOCK: &'static str = ".vet-lock";

pub const CARGO_OK_FILE: &'static str = ".cargo-ok";

pub const CARGO_OK_BODY: &'static str = "ok";

/// The path of an entry of a directory: the directory, a slash unless the
/// directory ends in one, and the name. In the empty directory an entry
/// has its name as its path.
pub open spec fn joined(dir: Seq<char>, name: Seq<char>) -> Seq<char> {
    if dir.len() == 0 {
        name
    } else if dir.last() == '/' {
        dir + name
    } else {
        dir + seq!['/'] + name
    }
}

/// The path of an entry of a directory.
pub fn join(dir: &str, name: &str) -> (r: String)
    ensures
        r@ == joined(dir@, name@),
{
    let chars = chars_of(dir);
    if chars.len() == 0 {
        return String::from_str(name);
    }
    proof {
        reveal_strlit("/");
        assert("/"@ =~= seq!['/']);
    }
    if chars[chars.len() - 1] == '/' {
        String::from_str(dir).concat(name)
    } else {
        String::from_str(dir).concat("/").concat(name)
    }
}

/// The name of the directory of an unpacked version of a package:
/// `<name>-<version>`, and for a version from a git checkout
/// `<name>-<version>.git.<revision>`.
pub open spec fn package_dir_name(package: Seq<char>, version: VetVersionView) -> Seq<char> {
    package + seq!['-'] + version_text(version.semver) + match version.git_rev {
        Some(rev) => ".git."@ + rev,
        None => Seq::empty(),
    }
}

/// The name of the directory of an unpacked version of a package.
pub fn dir_name(package: &str, version: &VetVersion) -> (r: String)
    ensures
        r@ == package_dir_name(package@, version.deep_view()),
{
    let mut name = String::from_str(package);
    proof {
        reveal_strlit("-");
        assert("-"@ =~= seq!['-']);
    }
    name.append("-");
    version.semver.write_to(&mut name);
    match &version.git_rev {
        Some(rev) => {
            name.append(".git.");
            name.append(rev.as_str());
        },
        None => {},
    }
    assert(name@ =~= package_dir_name(package@, version.deep_view()));
    name
}

/// The name of the packed form of a version of a package.
pub open spec fn archive_name(dir: Seq<char>) -> Seq<char> {
    dir + ".crate"@
}

/// The directory of a version of a package below the directory of the
/// unpacked packages of a cache.
pub open spec fn unpacked_path(root: Seq<char>, dir: Seq<char>) -> Seq<char> {
    joined(joined(root, "src"@), dir)
}

/// The packed form of a version of a package in a cache.
pub open spec fn archive_path(root: Seq<char>, dir: Seq<char>) -> Seq<char> {
    joined(joined(root, "cache"@), archive_name(dir))
}

/// The empty package of a cache.
pub open spec fn empty_path(root: Seq<char>) -> Seq<char> {
    joined(root, "empty"@)
}

pub fn unpacked_dir(root: &str, dir: &str) -> (r: String)
    ensures
        r@ == unpacked_path(root@, dir@),
{
    join(join(root, CACHE_REGISTRY_SRC).as_str(), dir)
}

pub fn archive_file(root: &str, dir: &str) -> (r: String)
    ensures
        r@ == archive_path(root@, dir@),
{
    let name = String::from_str(dir).concat(".crate");
    join(join(root, CACHE_REGISTRY_CACHE).as_str(), name.as_str())
}

pub fn empty_dir(root: &str) -> (r: String)
    ensures
        r@ == empty_path(root@),
{
    join(root, CACHE_EMPTY_PACKAGE)
}

/// The package registry of the host: where it keeps the packages that it
/// has fetched itself.
#[derive(Clone, Debug, PartialEq, Eq)]
pub struct CargoRegistry {
    /// The directory that all registries share.
    pub base_dir: String,
    /// The name of the registry.
    pub registry: String,
    /// Whether the index is known to be up to date.
    pub index_up_to_date: bool,
}

impl CargoRegistry {
    /// The directory of the unpacked packages of the registry.
    pub fn src(&self) -> (r: String)
        ensures
            r@ == joined(joined(self.base_dir@, "src"@), self.registry@),
    {
        join(join(self.base_dir.as_str(), CACHE_REGISTRY_SRC).as_str(), self.registry.as_str())
    }

    /// The directory of the packed packages of the registry.
    pub fn cache(&self) -> (r: String)
        ensures
            r@ == joined(joined(self.base_dir@, "cache"@), self.registry@),
    {
        join(join(self.base_dir.as_str(), CACHE_REGISTRY_CACHE).as_str(), self.registry.as_str())
    }
}

} // verus!
