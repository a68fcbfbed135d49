//! Looking up who published the versions that wildcard audits may cover.
//!
//! The registry is asked as rarely as possible. What it told is kept in the
//! publisher cache, and it is asked again only if a version that matters is
//! not in the cache and may have been published since.

use vstd::prelude::*;
use crate::date::{nanos_between, Timestamp, NANOS_PER_SECOND, SECONDS_PER_DAY};
use crate::model::{Duplicate, Same};
use crate::publisher_cache::{
    with_user, PublisherCache, PublisherCacheEntry, PublisherCacheEntryView, PublisherCacheUser,
    PublisherCacheUserView, PublisherCacheVersion, PublisherCacheVersionView, PublisherCacheView,
};
use crate::url::{crate_url, crate_url_text, parse_url, parsed_url};
use crate::version::{parsed_version, Version, VersionView};

verus! {

/// After how many days the registry is asked again about a version that
/// the index does not know.
pub const NONINDEX_VERSION_PUBLISHER_REFRESH_DAYS: i64 = 1;

/// A user as the registry describes it.
#[derive(Clone, Debug, PartialEq, Eq)]
pub struct CratesAPIUser {
    pub id: u64,
    pub login: String,
    pub name: Option<String>,
}

/// A version as the registry describes it.
#[derive(Clone, Debug, PartialEq, Eq)]
pub struct CratesAPIVersion {
    pub num: Version,
    pub created_at: Timestamp,
    pub published_by: Option<CratesAPIUser>,
}

/// What the registry tells about a package.
#[derive(Clone, Debug, PartialEq, Eq)]
pub struct CratesAPICrate {
    pub versions: Vec<CratesAPIVersion>,
}

pub struct CratesAPIVersionView {
    pub num: VersionView,
    pub created_at: Timestamp,
    pub published_by: Option<PublisherCacheUserView>,
}

pub open spec fn api_user_view(user: Option<CratesAPIUser>) -> Option<PublisherCacheUserView> {
    match user {
        Some(u) => Some(PublisherCacheUserView { id: u.id, login: u.login@, name: u.name.deep_view() }),
        None => None,
    }
}

impl DeepView for CratesAPIVersion {
    type V = CratesAPIVersionView;

    open spec fn deep_view(&self) -> CratesAPIVersionView {
        CratesAPIVersionView {
            num: self.num.deep_view(),
            created_at: self.created_at,
            published_by: api_user_view(self.published_by),
        }
    }
}

/// Why the audits or the publishers could not be fetched.
#[derive(Clone, Debug, PartialEq, Eq)]
pub enum FetchAuditError {
    /// The address of a peer is no URL.
    InvalidUrl { import_url: String, import_name: String, error: String },
    /// A criterion of a peer has neither a description nor an address of
    /// one.
    MissingCriteriaDescription { import_name: String, criteria_name: String },
    /// The address of the description of a criterion is no URL.
    InvalidCriteriaDescriptionUrl {
        import_name: String,
        criteria_name: String,
        url: String,
        error: String,
    },
    /// The download failed, or what came is not what was asked for.
    Download { url: String, message: String },
    /// The address of the registry for a package is no URL.
    InvalidCrateUrl { url: String, error: String },
    /// What a peer published is not UTF-8.
    InvalidAuditsText { import_name: String },
    /// What a peer published cannot be read.
    Toml { failure: crate::codec::TomlParseError },
    /// The description of a criterion is not UTF-8.
    InvalidText { url: String },
}

/// The cached version with the given number, if there is one.
pub open spec fn has_version(published: Seq<PublisherCacheVersionView>, version: VersionView) -> bool {
    exists|i: int| 0 <= i < published.len() && (#[trigger] published[i]).num == version
}

/// The test for a version that the cache does not hold.
pub open spec fn is_missing(published: Seq<PublisherCacheVersionView>) -> spec_fn(
    VersionView,
) -> bool {
    |version: VersionView| !has_version(published, version)
}

/// The position of the first version of the index that reads as `target`.
pub open spec fn index_position(index: Seq<Seq<char>>, target: VersionView, at: int) -> bool {
    &&& 0 <= at < index.len()
    &&& parsed_version(index[at]) == Some(target)
    &&& forall|i: int| 0 <= i < at ==> parsed_version(#[trigger] index[i]) != Some(target)
}

/// Whether the index knows the version.
pub open spec fn in_index(index: Seq<Seq<char>>, target: VersionView) -> bool {
    exists|i: int| 0 <= i < index.len() && parsed_version(#[trigger] index[i]) == Some(target)
}

/// Finds a published version in the versions that the index lists for a
/// package: the position of the first one that reads as `target_version`.
pub fn exact_version(this: &Vec<String>, target_version: &Version) -> (r: Option<usize>)
    ensures
        r is Some == in_index(this.deep_view(), target_version.deep_view()),
        r matches Some(at) ==> index_position(
            this.deep_view(),
            target_version.deep_view(),
            at as int,
        ),
{
    let mut i: usize = 0;
    while i < this.len()
        invariant
            i <= this.len(),
            forall|k: int|
                0 <= k < i ==> parsed_version(#[trigger] this.deep_view()[k]) != Some(
                    target_version.deep_view(),
                ),
        decreases this.len() - i,
    {
        match Version::parse(this[i].as_str()) {
            Some(index_ver) => {
                if index_ver.same(target_version) {
                    assert(parsed_version(this.deep_view()[i as int]) == Some(
                        target_version.deep_view(),
                    ));
                    return Some(i);
                }
            },
            None => {},
        }
        i = i + 1;
    }
    None
}

/// Whether the cache holds a version with the given number.
pub fn is_published(published: &Vec<PublisherCacheVersion>, version: &Version) -> (r: bool)
    ensures
        r == has_version(published.deep_view(), version.deep_view()),
{
    let mut i: usize = 0;
    while i < published.len()
        invariant
            i <= published.len(),
            forall|k: int|
                0 <= k < i ==> (#[trigger] published.deep_view()[k]).num != version.deep_view(),
        decreases published.len() - i,
    {
        if published[i].num.same(version) {
            assert(published.deep_view()[i as int].num == version.deep_view());
            return true;
        }
        i = i + 1;
    }
    false
}

/// The wanted versions that the cache does not hold, in their order.
pub fn missing_versions(published: &Vec<PublisherCacheVersion>, versions: &Vec<Version>) -> (r: Vec<
    Version,
>)
    ensures
        r.deep_view() == versions.deep_view().filter(is_missing(published.deep_view())),
{
    let ghost all = versions.deep_view();
    let ghost keep = is_missing(published.deep_view());
    let mut out: Vec<Version> = Vec::new();
    assert(out.deep_view() =~= all.take(0).filter(keep)) by {
        reveal(Seq::filter);
    }
    let mut i: usize = 0;
    while i < versions.len()
        invariant
            all == versions.deep_view(),
            keep == is_missing(published.deep_view()),
            i <= versions.len(),
            out.deep_view() == all.take(i as int).filter(keep),
        decreases versions.len() - i,
    {
        proof {
            assert(all.take(i + 1).drop_last() =~= all.take(i as int));
            assert(all.take(i + 1).last() == all[i as int]);
            reveal(Seq::filter);
        }
        if !is_published(published, &versions[i]) {
            let ghost so_far = out.deep_view();
            out.push(versions[i].duplicate());
            assert(out.deep_view() =~= so_far.push(all[i as int]));
        }
        i = i + 1;
    }
    assert(all.take(all.len() as int) =~= all);
    out
}

/// Whether the index knows none of the versions.
pub fn none_in_index(index: &Vec<String>, versions: &Vec<Version>) -> (r: bool)
    ensures
        r == forall|i: int|
            0 <= i < versions.len() ==> !in_index(
                index.deep_view(),
                #[trigger] versions.deep_view()[i],
            ),
{
    let mut i: usize = 0;
    while i < versions.len()
        invariant
            i <= versions.len(),
            forall|k: int|
                0 <= k < i ==> !in_index(index.deep_view(), #[trigger] versions.deep_view()[k]),
        decreases versions.len() - i,
    {
        if exact_version(index, &versions[i]).is_some() {
            assert(in_index(index.deep_view(), versions.deep_view()[i as int]));
            return false;
        }
        i = i + 1;
    }
    true
}

/// A version of the registry as the cache holds it.
pub open spec fn cached_version(version: CratesAPIVersionView) -> PublisherCacheVersionView {
    PublisherCacheVersionView {
        num: version.num,
        created_at: version.created_at,
        published_by: match version.published_by {
            Some(user) => Some(user.id),
            None => None,
        },
    }
}

/// The versions of the registry as the cache holds them.
pub open spec fn cached_versions(versions: Seq<CratesAPIVersionView>) -> Seq<
    PublisherCacheVersionView,
> {
    Seq::new(versions.len(), |i: int| cached_version(versions[i]))
}

/// The users with the publishers of the versions recorded, in the order of
/// the versions.
pub open spec fn with_publishers(
    users: Map<u64, PublisherCacheUserView>,
    versions: Seq<CratesAPIVersionView>,
) -> Map<u64, PublisherCacheUserView>
    decreases versions.len(),
{
    if versions.len() == 0 {
        users
    } else {
        let before = with_publishers(users, versions.drop_last());
        match versions.last().published_by {
            Some(user) => with_user(before, user),
            None => before,
        }
    }
}

/// The cache after the registry told about a package at the instant `now`.
pub open spec fn updated(
    cache: PublisherCacheView,
    now: Timestamp,
    name: Seq<char>,
    versions: Seq<CratesAPIVersionView>,
) -> PublisherCacheView {
    PublisherCacheView {
        crates: cache.crates.put(
            name,
            PublisherCacheEntryView { last_fetched: now, versions: cached_versions(versions) },
        ),
        users: with_publishers(cache.users, versions),
    }
}

/// Whether the cache was filled for a package less than a day before `now`.
pub open spec fn fetched_lately(entry: PublisherCacheEntryView, now: Timestamp) -> bool {
    nanos_between(entry.last_fetched, now) < NONINDEX_VERSION_PUBLISHER_REFRESH_DAYS
        * SECONDS_PER_DAY * NANOS_PER_SECOND
}

/// Records what the registry told about a package, and gives the versions
/// as the cache holds them.
pub fn record_crate(cache: &mut PublisherCache, now: Timestamp, name: &str, result: CratesAPICrate) -> (r:
    Vec<PublisherCacheVersion>)
    requires
        old(cache).wf(),
    ensures
        final(cache).wf(),
        final(cache).deep_view() == updated(
            old(cache).deep_view(),
            now,
            name@,
            result.versions.deep_view(),
        ),
        r.deep_view() == cached_versions(result.versions.deep_view()),
{
    let ghost before = cache.deep_view();
    let ghost all = result.versions.deep_view();
    let mut versions: Vec<PublisherCacheVersion> = Vec::new();
    assert(all.take(0) =~= Seq::empty());
    assert(versions.deep_view() =~= cached_versions(all).take(0));
    let mut i: usize = 0;
    while i < result.versions.len()
        invariant
            all == result.versions.deep_view(),
            i <= result.versions.len(),
            cache.wf(),
            cache.deep_view().crates == before.crates,
            cache.deep_view().users == with_publishers(before.users, all.take(i as int)),
            versions.deep_view() == cached_versions(all).take(i as int),
        decreases result.versions.len() - i,
    {
        let api_version = &result.versions[i];
        proof {
            assert(all.take(i + 1).drop_last() =~= all.take(i as int));
            assert(all.take(i + 1).last() == all[i as int]);
        }
        let published_by = match &api_version.published_by {
            Some(api_user) => {
                cache.record_user(
                    PublisherCacheUser {
                        id: api_user.id,
                        login: api_user.login.clone(),
                        name: api_user.name.duplicate(),
                    },
                );
                Some(api_user.id)
            },
            None => None,
        };
        let ghost so_far = versions.deep_view();
        let version = PublisherCacheVersion {
            num: api_version.num.duplicate(),
            created_at: api_version.created_at,
            published_by,
        };
        let ghost made = version.deep_view();
        versions.push(version);
        assert(versions.deep_view() =~= so_far.push(made));
        assert(versions.deep_view() =~= cached_versions(all).take(i + 1));
        i = i + 1;
    }
    assert(all.take(all.len() as int) =~= all);
    assert(versions.deep_view() =~= cached_versions(all));
    cache.crates.insert(
        name.to_owned(),
        PublisherCacheEntry { last_fetched: now, versions: versions.duplicate() },
    );
    versions
}

/// What `get_publishers` does once it has decided to ask the registry:
/// `after` and `r` are the cache and the answer after the download of the
/// address of the package.
pub open spec fn asked<D: Fn(&str) -> Result<CratesAPICrate, FetchAuditError>>(
    before: PublisherCacheView,
    now: Timestamp,
    name: Seq<char>,
    download: D,
    after: PublisherCacheView,
    r: Result<Vec<PublisherCacheVersion>, FetchAuditError>,
) -> bool {
    match parsed_url(crate_url(name)) {
        Err(reason) => {
            &&& after == before
            &&& r matches Err(FetchAuditError::InvalidCrateUrl { url, error })
            &&& url@ == crate_url(name)
            &&& error@ == reason
        },
        Ok(address) => exists|url: &str, answer: Result<CratesAPICrate, FetchAuditError>|
            {
                &&& url@ == address
                &&& #[trigger] download.ensures((url,), answer)
                &&& match answer {
                    Ok(found) => {
                        &&& after == updated(before, now, name, found.versions.deep_view())
                        &&& r matches Ok(versions)
                        &&& versions.deep_view() == cached_versions(found.versions.deep_view())
                    },
                    Err(e) => after == before && r == Err::<
                        Vec<PublisherCacheVersion>,
                        FetchAuditError,
                    >(e),
                }
            },
    }
}

/// The cache is left as it was, and the versions that it holds for the
/// package are the answer.
pub open spec fn answered_from_cache(
    before: PublisherCacheView,
    name: Seq<char>,
    after: PublisherCacheView,
    r: Result<Vec<PublisherCacheVersion>, FetchAuditError>,
) -> bool {
    &&& after == before
    &&& r matches Ok(versions)
    &&& versions.deep_view() == before.crates.at(name).versions
}

/// The versions that the index lists for a package: none where it does not
/// list the package.
pub open spec fn listed_in(index: Option<Vec<String>>) -> Seq<Seq<char>> {
    match index {
        Some(listed) => listed.deep_view(),
        None => Seq::empty(),
    }
}

/// What `get_publishers` does.
///
/// If the cache holds the package and all the wanted versions, it answers
/// from the cache. If it holds the package, was filled less than a day
/// ago, and the index lists none of the missing versions, it answers from
/// the cache too: those versions are taken to be unpublished. An index
/// that does not list the package lists none of its versions. Else it asks
/// the registry.
pub open spec fn got<
    Q: Fn(&str) -> Option<Vec<String>>,
    D: Fn(&str) -> Result<CratesAPICrate, FetchAuditError>,
>(
    before: PublisherCacheView,
    now: Timestamp,
    name: &str,
    versions: Seq<VersionView>,
    query_index: Q,
    download: D,
    after: PublisherCacheView,
    r: Result<Vec<PublisherCacheVersion>, FetchAuditError>,
) -> bool {
    if !before.crates.has(name@) {
        asked(before, now, name@, download, after, r)
    } else {
        let entry = before.crates.at(name@);
        let missing = versions.filter(is_missing(entry.versions));
        if missing.len() == 0 {
            answered_from_cache(before, name@, after, r)
        } else if !fetched_lately(entry, now) {
            asked(before, now, name@, download, after, r)
        } else {
            exists|index: Option<Vec<String>>|
                {
                    &&& #[trigger] query_index.ensures((name,), index)
                    &&& if forall|i: int|
                        0 <= i < missing.len() ==> !in_index(
                            listed_in(index),
                            #[trigger] missing[i],
                        ) {
                        answered_from_cache(before, name@, after, r)
                    } else {
                        asked(before, now, name@, download, after, r)
                    }
                }
        }
    }
}

/// Whether a text can be the name of a package of the registry: it holds
/// no slash, so that it is one part of the path of an address.
pub open spec fn plain_name(name: Seq<char>) -> bool {
    !name.contains('/')
}

/// Asks the registry about a package and records the answer.
pub fn ask_registry<D: Fn(&str) -> Result<CratesAPICrate, FetchAuditError>>(
    cache: &mut PublisherCache,
    now: Timestamp,
    name: &str,
    download: &D,
) -> (r: Result<Vec<PublisherCacheVersion>, FetchAuditError>)
    requires
        old(cache).wf(),
        plain_name(name@),
        forall|url: &str| download.requires((url,)),
    ensures
        final(cache).wf(),
        asked(old(cache).deep_view(), now, name@, *download, final(cache).deep_view(), r),
{
    let text = crate_url_text(name);
    let address = match parse_url(text.as_str()) {
        Ok(address) => address,
        Err(error) => {
            return Err(FetchAuditError::InvalidCrateUrl { url: text, error });
        },
    };
    let url = address.as_str();
    let answer = download(url);
    let ghost seen = answer;
    let ghost before = cache.deep_view();
    let r = match answer {
        Ok(found) => Ok(record_crate(cache, now, name, found)),
        Err(e) => Err(e),
    };
    proof {
        assert(url@ == address@);
        assert(download.ensures((url,), seen));
        assert(match seen {
            Ok(found) => {
                &&& cache.deep_view() == updated(before, now, name@, found.versions.deep_view())
                &&& r matches Ok(versions)
                &&& versions.deep_view() == cached_versions(found.versions.deep_view())
            },
            Err(e) => cache.deep_view() == before && r == Err::<
                Vec<PublisherCacheVersion>,
                FetchAuditError,
            >(e),
        });
    }
    r
}

/// Who published the versions of a package: from the cache where that will
/// do, else from the registry.
///
/// `query_index` gives the versions that the local index lists for a
/// package, if it lists the package; `download` fetches what the registry
/// tells at an address.
pub fn get_publishers<
    Q: Fn(&str) -> Option<Vec<String>>,
    D: Fn(&str) -> Result<CratesAPICrate, FetchAuditError>,
>(
    cache: &mut PublisherCache,
    now: Timestamp,
    name: &str,
    versions: &Vec<Version>,
    query_index: &Q,
    download: &D,
) -> (r: Result<Vec<PublisherCacheVersion>, FetchAuditError>)
    requires
        old(cache).wf(),
        plain_name(name@),
        forall|package: &str| query_index.requires((package,)),
        forall|url: &str| download.requires((url,)),
    ensures
        final(cache).wf(),
        got(
            old(cache).deep_view(),
            now,
            name,
            versions.deep_view(),
            *query_index,
            *download,
            final(cache).deep_view(),
            r,
        ),
{
    let ghost before = cache.deep_view();
    match cache.crates.get(name) {
        Some(published) => {
            let missing = missing_versions(&published.versions, versions);
            if missing.len() == 0 {
                return Ok(published.versions.duplicate());
            }
            if now.within_days_of(&published.last_fetched, NONINDEX_VERSION_PUBLISHER_REFRESH_DAYS) {
                let index = query_index(name);
                let ghost seen = index;
                let settled = match &index {
                    Some(listed) => none_in_index(listed, &missing),
                    None => true,
                };
                if settled {
                    let r = Ok(published.versions.duplicate());
                    assert(query_index.ensures((name,), seen) && answered_from_cache(
                        before,
                        name@,
                        cache.deep_view(),
                        r,
                    ));
                    return r;
                }
                let r = ask_registry(cache, now, name, download);
                assert(query_index.ensures((name,), seen) && asked(
                    before,
                    now,
                    name@,
                    *download,
                    cache.deep_view(),
                    r,
                ));
                return r;
            }
        },
        None => {},
    }
    ask_registry(cache, now, name, download)
}

} // verus!
