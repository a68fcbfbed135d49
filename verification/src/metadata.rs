//! The packages of the build graph, as far as the store needs to know them.

use vstd::prelude::*;
use crate::model::Same;
use crate::text::{chars_of, text_of};
use crate::version::{VetVersion, VetVersionView};

verus! {

pub const CARGO_TOML_FILE: &'static str = "Cargo.toml";

/// One package of the build graph.
#[derive(Clone, Debug, PartialEq, Eq)]
pub struct PackageInfo {
    pub name: String,
    pub version: VetVersion,
    /// The path of the manifest of the package.
    pub manifest_path: String,
    /// Whether the current policy takes the package for a third-party one.
    pub is_third_party: bool,
}

pub struct PackageInfoView {
    pub name: Seq<char>,
    pub version: VetVersionView,
    pub manifest_path: Seq<char>,
    pub is_third_party: bool,
}

impl DeepView for PackageInfo {
    type V = PackageInfoView;

    open spec fn deep_view(&self) -> PackageInfoView {
        PackageInfoView {
            name: self.name@,
            version: self.version.deep_view(),
            manifest_path: self.manifest_path@,
            is_third_party: self.is_third_party,
        }
    }
}

/// The build graph.
#[derive(Clone, Debug, PartialEq, Eq)]
pub struct Metadata {
    pub packages: Vec<PackageInfo>,
}

impl DeepView for Metadata {
    type V = Seq<PackageInfoView>;

    open spec fn deep_view(&self) -> Seq<PackageInfoView> {
        self.packages.deep_view()
    }
}

/// The end of the path of a manifest.
pub open spec fn manifest_suffix() -> Seq<char> {
    "/Cargo.toml"@
}

/// Whether `path` names a file `Cargo.toml` in a directory.
pub open spec fn is_manifest_path(path: Seq<char>) -> bool {
    path.len() >= manifest_suffix().len() && path.subrange(
        path.len() - manifest_suffix().len(),
        path.len() as int,
    ) == manifest_suffix()
}

/// The directory of a manifest.
pub open spec fn manifest_dir(path: Seq<char>) -> Seq<char> {
    path.subrange(0, path.len() - manifest_suffix().len())
}

/// The position of the first package of the graph with the given name and
/// version.
pub open spec fn checkout_position(
    packages: Seq<PackageInfoView>,
    package: Seq<char>,
    version: VetVersionView,
    at: int,
) -> bool {
    &&& 0 <= at < packages.len()
    &&& packages[at].name == package
    &&& packages[at].version == version
    &&& forall|i: int|
        0 <= i < at ==> !((#[trigger] packages[i]).name == package && packages[i].version == version)
}

/// Whether the graph holds a package with the given name and version.
pub open spec fn has_checkout(
    packages: Seq<PackageInfoView>,
    package: Seq<char>,
    version: VetVersionView,
) -> bool {
    exists|i: int|
        0 <= i < packages.len() && (#[trigger] packages[i]).name == package && packages[i].version
            == version
}

/// The manifest of the checkout of a package, if the graph holds one, is
/// a file `Cargo.toml`.
pub open spec fn checkout_named(
    packages: Seq<PackageInfoView>,
    package: Seq<char>,
    version: VetVersionView,
) -> bool {
    forall|at: int| #[trigger]
        checkout_position(packages, package, version, at) ==> is_manifest_path(
            packages[at].manifest_path,
        )
}

/// The directory of the checkout of a package of the build graph: that of
/// the manifest of the first package with the given name and version.
pub fn locate_local_checkout(metadata: &Metadata, package: &str, version: &VetVersion) -> (r: Option<
    String,
>)
    requires
        checkout_named(metadata.deep_view(), package@, version.deep_view()),
    ensures
        r is Some == has_checkout(metadata.deep_view(), package@, version.deep_view()),
        r matches Some(dir) ==> exists|at: int|
            #[trigger] checkout_position(metadata.deep_view(), package@, version.deep_view(), at)
                && dir@ == manifest_dir(metadata.deep_view()[at].manifest_path),
{
    let ghost all = metadata.deep_view();
    let mut i: usize = 0;
    while i < metadata.packages.len()
        invariant
            all == metadata.deep_view(),
            checkout_named(all, package@, version.deep_view()),
            i <= metadata.packages.len(),
            forall|k: int|
                0 <= k < i ==> !((#[trigger] all[k]).name == package@ && all[k].version
                    == version.deep_view()),
        decreases metadata.packages.len() - i,
    {
        let pkg = &metadata.packages[i];
        if crate::text::same_text(pkg.name.as_str(), package) && pkg.version.same(version) {
            proof {
                reveal_strlit("/Cargo.toml");
                assert(checkout_position(all, package@, version.deep_view(), i as int));
                assert(is_manifest_path(all[i as int].manifest_path));
            }
            let path = chars_of(pkg.manifest_path.as_str());
            let dir = text_of(&path, 0, path.len() - 11);
            return Some(dir);
        }
        i = i + 1;
    }
    None
}

} // verus!
