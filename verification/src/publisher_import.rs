//! Filling the live imports with the publishers of the versions that
//! matter for wildcard audits.

use vstd::prelude::*;
use crate::date::{utc_date, utc_day, Timestamp};
use crate::format::{
    AuditEntry, AuditEntryView, AuditKind, AuditKindView, AuditsFile, AuditsFileView, ConfigFile,
    ConfigFileView, CratesPublisher, CratesPublisherView, ExemptedDependency,
    ExemptedDependencyView, ImportsFile, ImportsFileView,
};
use crate::metadata::{Metadata, PackageInfoView};
use crate::model::{Duplicate, Same};
use crate::publisher_cache::{
    user_of, PublisherCache, PublisherCacheUserView, PublisherCacheVersion,
    PublisherCacheVersionView, PublisherCacheView,
};
use crate::publishers::{get_publishers, got, plain_name, CratesAPICrate, FetchAuditError};
use crate::table::{Table, TableView};
use crate::text::list_has;
use crate::version::{Version, VersionView, VetVersion, VetVersionView};

verus! {

/// `acc` with the items of `items` that it does not hold yet, in their
/// order.
pub open spec fn merged<A>(acc: Seq<A>, items: Seq<A>) -> Seq<A>
    decreases items.len(),
{
    if items.len() == 0 {
        acc
    } else {
        let before = merged(acc, items.drop_last());
        if before.contains(items.last()) {
            before
        } else {
            before.push(items.last())
        }
    }
}

/// Adds to `out` the items that it does not hold yet.
pub fn extend_unique<T: Same + Duplicate>(out: &mut Vec<T>, items: &Vec<T>)
    ensures
        final(out).deep_view() == merged(old(out).deep_view(), items.deep_view()),
{
    let ghost start = out.deep_view();
    let ghost all = items.deep_view();
    assert(all.take(0) =~= Seq::empty());
    let mut i: usize = 0;
    while i < items.len()
        invariant
            all == items.deep_view(),
            i <= items.len(),
            out.deep_view() == merged(start, all.take(i as int)),
        decreases items.len() - i,
    {
        proof {
            assert(all.take(i + 1).drop_last() =~= all.take(i as int));
            assert(all.take(i + 1).last() == all[i as int]);
        }
        let ghost so_far = out.deep_view();
        let mut held = false;
        let mut j: usize = 0;
        while j < out.len() && !held
            invariant
                so_far == out.deep_view(),
                all == items.deep_view(),
                i < items.len(),
                j <= out.len(),
                !held ==> forall|k: int| 0 <= k < j ==> so_far[k] != all[i as int],
                held ==> so_far.contains(all[i as int]),
            decreases out.len() - j + (if held { 0int } else { 1int }),
        {
            if out[j].same(&items[i]) {
                assert(so_far[j as int] == all[i as int]);
                held = true;
            } else {
                j = j + 1;
            }
        }
        if !held {
            out.push(items[i].duplicate());
            assert(out.deep_view() =~= so_far.push(all[i as int]));
        }
        i = i + 1;
    }
    assert(all.take(all.len() as int) =~= all);
}

/// The names of the packages of the graph that are relevant and of a third
/// party, in the order of the graph.
pub open spec fn graph_names(packages: Seq<PackageInfoView>, relevant: Seq<Seq<char>>) -> Seq<
    Seq<char>,
>
    decreases packages.len(),
{
    if packages.len() == 0 {
        Seq::empty()
    } else if relevant.contains(packages.last().name) && packages.last().is_third_party {
        graph_names(packages.drop_last(), relevant).push(packages.last().name)
    } else {
        graph_names(packages.drop_last(), relevant)
    }
}

/// The versions of a package in the graph, where it is of a third party.
pub open spec fn graph_versions(packages: Seq<PackageInfoView>, name: Seq<char>) -> Seq<VersionView>
    decreases packages.len(),
{
    if packages.len() == 0 {
        Seq::empty()
    } else if packages.last().name == name && packages.last().is_third_party {
        graph_versions(packages.drop_last(), name).push(packages.last().version.semver)
    } else {
        graph_versions(packages.drop_last(), name)
    }
}

/// The versions from which the delta audits of a list start.
pub open spec fn delta_origins(audits: Seq<AuditEntryView>) -> Seq<VersionView>
    decreases audits.len(),
{
    if audits.len() == 0 {
        Seq::empty()
    } else {
        match audits.last().kind {
            AuditKindView::Delta { from, to } => delta_origins(audits.drop_last()).push(from.semver),
            _ => delta_origins(audits.drop_last()),
        }
    }
}

/// The list that a table holds for a name, empty if it holds none.
pub open spec fn list_of<V>(t: TableView<Seq<V>>, name: Seq<char>) -> Seq<V> {
    if t.has(name) {
        t.at(name)
    } else {
        Seq::empty()
    }
}

pub open spec fn exempted_versions(list: Seq<ExemptedDependencyView>) -> Seq<VersionView> {
    Seq::new(list.len(), |i: int| list[i].version.semver)
}

pub open spec fn published_versions(list: Seq<CratesPublisherView>) -> Seq<VersionView> {
    Seq::new(list.len(), |i: int| list[i].version.semver)
}

/// `acc` with the versions from which the delta audits of a package start
/// in the files of the peers.
pub open spec fn merged_imported(
    acc: Seq<VersionView>,
    files: Seq<AuditsFileView>,
    name: Seq<char>,
) -> Seq<VersionView>
    decreases files.len(),
{
    if files.len() == 0 {
        acc
    } else {
        merged(
            merged_imported(acc, files.drop_last(), name),
            delta_origins(list_of(files.last().audits, name)),
        )
    }
}

/// The versions of a package that matter, each once: those in the graph,
/// those from which a delta audit starts, locally and at the peers, those
/// that are exempted, and those whose publisher the imports lock holds.
pub open spec fn relevant_versions(
    name: Seq<char>,
    packages: Seq<PackageInfoView>,
    config: ConfigFileView,
    audits: AuditsFileView,
    lock: ImportsFileView,
    live: ImportsFileView,
) -> Seq<VersionView> {
    merged(
        merged(
            merged_imported(
                merged(
                    merged(Seq::empty(), graph_versions(packages, name)),
                    delta_origins(list_of(audits.audits, name)),
                ),
                live.audits.vals,
                name,
            ),
            exempted_versions(list_of(config.exemptions, name)),
        ),
        published_versions(list_of(lock.publisher, name)),
    )
}

fn versions_in_graph(metadata: &Metadata, name: &str) -> (r: Vec<Version>)
    ensures
        r.deep_view() == graph_versions(metadata.deep_view(), name@),
{
    let ghost all = metadata.deep_view();
    let mut out: Vec<Version> = Vec::new();
    assert(all.take(0) =~= Seq::empty());
    assert(out.deep_view() =~= graph_versions(all.take(0), name@));
    let mut i: usize = 0;
    while i < metadata.packages.len()
        invariant
            all == metadata.deep_view(),
            i <= metadata.packages.len(),
            out.deep_view() == graph_versions(all.take(i as int), name@),
        decreases metadata.packages.len() - i,
    {
        proof {
            assert(all.take(i + 1).drop_last() =~= all.take(i as int));
            assert(all.take(i + 1).last() == all[i as int]);
        }
        let pkg = &metadata.packages[i];
        if crate::text::same_text(pkg.name.as_str(), name) && pkg.is_third_party {
            let ghost so_far = out.deep_view();
            out.push(pkg.version.semver.duplicate());
            assert(out.deep_view() =~= so_far.push(all[i as int].version.semver));
        }
        i = i + 1;
    }
    assert(all.take(all.len() as int) =~= all);
    out
}

fn origins_of_deltas(audits: &Vec<AuditEntry>) -> (r: Vec<Version>)
    ensures
        r.deep_view() == delta_origins(audits.deep_view()),
{
    let ghost all = audits.deep_view();
    let mut out: Vec<Version> = Vec::new();
    assert(all.take(0) =~= Seq::empty());
    assert(out.deep_view() =~= delta_origins(all.take(0)));
    let mut i: usize = 0;
    while i < audits.len()
        invariant
            all == audits.deep_view(),
            i <= audits.len(),
            out.deep_view() == delta_origins(all.take(i as int)),
        decreases audits.len() - i,
    {
        proof {
            assert(all.take(i + 1).drop_last() =~= all.take(i as int));
            assert(all.take(i + 1).last() == all[i as int]);
        }
        match &audits[i].kind {
            AuditKind::Delta { from, to } => {
                let ghost so_far = out.deep_view();
                out.push(from.semver.duplicate());
                assert(out.deep_view() =~= so_far.push(from.deep_view().semver));
            },
            _ => {},
        }
        i = i + 1;
    }
    assert(all.take(all.len() as int) =~= all);
    out
}

fn origins_in(audits: &Table<Vec<AuditEntry>>, name: &str) -> (r: Vec<Version>)
    requires
        audits.wf(),
    ensures
        r.deep_view() == delta_origins(list_of(audits.deep_view(), name@)),
{
    match audits.get(name) {
        Some(list) => origins_of_deltas(list),
        None => {
            let out: Vec<Version> = Vec::new();
            assert(out.deep_view() =~= delta_origins(Seq::empty()));
            out
        },
    }
}

fn versions_exempted(exemptions: &Table<Vec<ExemptedDependency>>, name: &str) -> (r: Vec<Version>)
    requires
        exemptions.wf(),
    ensures
        r.deep_view() == exempted_versions(list_of(exemptions.deep_view(), name@)),
{
    let mut out: Vec<Version> = Vec::new();
    match exemptions.get(name) {
        Some(list) => {
            let ghost goal = exempted_versions(list.deep_view());
            let mut i: usize = 0;
            assert(out.deep_view() =~= goal.take(0));
            while i < list.len()
                invariant
                    goal == exempted_versions(list.deep_view()),
                    i <= list.len(),
                    out.deep_view() == goal.take(i as int),
                decreases list.len() - i,
            {
                let ghost so_far = out.deep_view();
                out.push(list[i].version.semver.duplicate());
                assert(out.deep_view() =~= so_far.push(goal[i as int]));
                assert(out.deep_view() =~= goal.take(i + 1));
                i = i + 1;
            }
            assert(out.deep_view() =~= goal);
        },
        None => {
            assert(out.deep_view() =~= exempted_versions(Seq::empty()));
        },
    }
    out
}

fn versions_published(publisher: &Table<Vec<CratesPublisher>>, name: &str) -> (r: Vec<Version>)
    requires
        publisher.wf(),
    ensures
        r.deep_view() == published_versions(list_of(publisher.deep_view(), name@)),
{
    let mut out: Vec<Version> = Vec::new();
    match publisher.get(name) {
        Some(list) => {
            let ghost goal = published_versions(list.deep_view());
            let mut i: usize = 0;
            assert(out.deep_view() =~= goal.take(0));
            while i < list.len()
                invariant
                    goal == published_versions(list.deep_view()),
                    i <= list.len(),
                    out.deep_view() == goal.take(i as int),
                decreases list.len() - i,
            {
                let ghost so_far = out.deep_view();
                out.push(list[i].version.semver.duplicate());
                assert(out.deep_view() =~= so_far.push(goal[i as int]));
                assert(out.deep_view() =~= goal.take(i + 1));
                i = i + 1;
            }
            assert(out.deep_view() =~= goal);
        },
        None => {
            assert(out.deep_view() =~= published_versions(Seq::empty()));
        },
    }
    out
}

/// The versions of a package that matter for wildcard audits.
pub fn versions_that_matter(
    name: &str,
    metadata: &Metadata,
    config_file: &ConfigFile,
    audits_file: &AuditsFile,
    imports_lock: &ImportsFile,
    live_imports: &ImportsFile,
) -> (r: Vec<Version>)
    requires
        config_file.wf(),
        audits_file.wf(),
        imports_lock.wf(),
        live_imports.wf(),
    ensures
        r.deep_view() == relevant_versions(
            name@,
            metadata.deep_view(),
            config_file.deep_view(),
            audits_file.deep_view(),
            imports_lock.deep_view(),
            live_imports.deep_view(),
        ),
{
    let mut versions: Vec<Version> = Vec::new();
    assert(versions.deep_view() =~= Seq::empty());
    extend_unique(&mut versions, &versions_in_graph(metadata, name));
    extend_unique(&mut versions, &origins_in(&audits_file.audits, name));
    let ghost start = versions.deep_view();
    let ghost files = live_imports.deep_view().audits.vals;
    assert(files.take(0) =~= Seq::empty());
    let mut i: usize = 0;
    while i < live_imports.audits.len()
        invariant
            live_imports.wf(),
            files == live_imports.deep_view().audits.vals,
            i <= files.len(),
            versions.deep_view() == merged_imported(start, files.take(i as int), name@),
        decreases files.len() - i,
    {
        proof {
            assert(files.take(i + 1).drop_last() =~= files.take(i as int));
            assert(files.take(i + 1).last() == files[i as int]);
            assert(files[i as int].wf());
        }
        let file = live_imports.audits.value_at(i);
        extend_unique(&mut versions, &origins_in(&file.audits, name));
        i = i + 1;
    }
    assert(files.take(files.len() as int) =~= files);
    extend_unique(&mut versions, &versions_exempted(&config_file.exemptions, name));
    extend_unique(&mut versions, &versions_published(&imports_lock.publisher, name));
    versions
}

/// The names of the relevant packages of the graph, each once.
pub fn packages_that_matter(metadata: &Metadata, relevant_packages: &Vec<String>) -> (r: Vec<String>)
    ensures
        r.deep_view() == merged(
            Seq::empty(),
            graph_names(metadata.deep_view(), relevant_packages.deep_view()),
        ),
{
    let ghost all = metadata.deep_view();
    let ghost relevant = relevant_packages.deep_view();
    let mut names: Vec<String> = Vec::new();
    assert(all.take(0) =~= Seq::empty());
    assert(names.deep_view() =~= graph_names(all.take(0), relevant));
    let mut i: usize = 0;
    while i < metadata.packages.len()
        invariant
            all == metadata.deep_view(),
            relevant == relevant_packages.deep_view(),
            i <= metadata.packages.len(),
            names.deep_view() == graph_names(all.take(i as int), relevant),
        decreases metadata.packages.len() - i,
    {
        proof {
            assert(all.take(i + 1).drop_last() =~= all.take(i as int));
            assert(all.take(i + 1).last() == all[i as int]);
        }
        let pkg = &metadata.packages[i];
        if list_has(relevant_packages, pkg.name.as_str()) && pkg.is_third_party {
            let ghost so_far = names.deep_view();
            names.push(pkg.name.clone());
            assert(names.deep_view() =~= so_far.push(all[i as int].name));
        }
        i = i + 1;
    }
    assert(all.take(all.len() as int) =~= all);
    let mut out: Vec<String> = Vec::new();
    assert(out.deep_view() =~= Seq::empty());
    extend_unique(&mut out, &names);
    out
}

/// The record of the publisher of a version: none if the publisher is not
/// known, if the cache holds no user of that id, or if the day of the
/// publication cannot be told. The record is fresh unless the imports lock
/// held a publisher of the version.
pub open spec fn publisher_record(
    users: Map<u64, PublisherCacheUserView>,
    nonfresh: Seq<VersionView>,
) -> spec_fn(PublisherCacheVersionView) -> Option<CratesPublisherView> {
    |version: PublisherCacheVersionView|
        match version.published_by {
            Some(id) => match user_of(users, id) {
                Some(user) => match utc_day(version.created_at.secs, version.created_at.nanos) {
                    Some(day) => Some(
                        CratesPublisherView {
                            version: VetVersionView { semver: version.num, git_rev: None },
                            user_id: id,
                            user_login: user.login,
                            user_name: user.name,
                            when: day,
                            is_fresh_import: !nonfresh.contains(version.num),
                        },
                    ),
                    None => None,
                },
                None => None,
            },
            None => None,
        }
}

/// The publishers of a table with those of the packages of `found` put in,
/// in the order of `found`.
pub open spec fn with_found(
    publisher: TableView<Seq<CratesPublisherView>>,
    found: Seq<(Seq<char>, Seq<PublisherCacheVersionView>)>,
    users: Map<u64, PublisherCacheUserView>,
    lock: TableView<Seq<CratesPublisherView>>,
) -> TableView<Seq<CratesPublisherView>>
    decreases found.len(),
{
    if found.len() == 0 {
        publisher
    } else {
        let (name, versions) = found.last();
        with_found(publisher, found.drop_last(), users, lock).put(
            name,
            versions.filter_map(publisher_record(users, published_versions(list_of(lock, name)))),
        )
    }
}

/// The records of the publishers of the versions of one package.
pub fn records_of(
    cache: &PublisherCache,
    nonfresh_versions: &Vec<Version>,
    publishers: &Vec<PublisherCacheVersion>,
) -> (r: Vec<CratesPublisher>)
    ensures
        r.deep_view() == publishers.deep_view().filter_map(
            publisher_record(cache.deep_view().users, nonfresh_versions.deep_view()),
        ),
{
    let ghost all = publishers.deep_view();
    let ghost each = publisher_record(cache.deep_view().users, nonfresh_versions.deep_view());
    let mut out: Vec<CratesPublisher> = Vec::new();
    assert(all.take(0) =~= Seq::empty());
    assert(out.deep_view() =~= all.take(0).filter_map(each));
    let mut i: usize = 0;
    while i < publishers.len()
        invariant
            all == publishers.deep_view(),
            each == publisher_record(cache.deep_view().users, nonfresh_versions.deep_view()),
            i <= publishers.len(),
            out.deep_view() == all.take(i as int).filter_map(each),
        decreases publishers.len() - i,
    {
        proof {
            assert(all.take(i + 1).drop_last() =~= all.take(i as int));
            assert(all.take(i + 1).last() == all[i as int]);
        }
        let crates_version = &publishers[i];
        if let Some(user_id) = crates_version.published_by {
            if let Some(user_info) = cache.get_crates_user_info(user_id) {
                if let Some(when) = utc_date(crates_version.created_at) {
                    let mut held = false;
                    let mut j: usize = 0;
                    while j < nonfresh_versions.len() && !held
                        invariant
                            j <= nonfresh_versions.len(),
                            !held ==> forall|k: int|
                                0 <= k < j ==> nonfresh_versions.deep_view()[k]
                                    != crates_version.num.deep_view(),
                            held ==> nonfresh_versions.deep_view().contains(
                                crates_version.num.deep_view(),
                            ),
                        decreases nonfresh_versions.len() - j + (if held { 0int } else { 1int }),
                    {
                        if nonfresh_versions[j].same(&crates_version.num) {
                            assert(nonfresh_versions.deep_view()[j as int]
                                == crates_version.num.deep_view());
                            held = true;
                        } else {
                            j = j + 1;
                        }
                    }
                    let ghost so_far = out.deep_view();
                    let record = CratesPublisher {
                        version: VetVersion { semver: crates_version.num.duplicate(), git_rev: None },
                        user_id,
                        user_login: user_info.login,
                        user_name: user_info.name,
                        when,
                        is_fresh_import: !held,
                    };
                    let ghost made = record.deep_view();
                    out.push(record);
                    assert(out.deep_view() =~= so_far + seq![made]);
                }
            }
        }
        i = i + 1;
    }
    assert(all.take(all.len() as int) =~= all);
    out
}

/// Puts the publishers that were found into the live imports.
pub fn record_publishers(
    relevant_publishers: &Vec<(String, Vec<PublisherCacheVersion>)>,
    cache: &PublisherCache,
    imports_lock: &ImportsFile,
    live_imports: &mut ImportsFile,
)
    requires
        imports_lock.wf(),
        old(live_imports).wf(),
    ensures
        final(live_imports).wf(),
        final(live_imports).deep_view().audits == old(live_imports).deep_view().audits,
        final(live_imports).deep_view().publisher == with_found(
            old(live_imports).deep_view().publisher,
            relevant_publishers.deep_view(),
            cache.deep_view().users,
            imports_lock.deep_view().publisher,
        ),
{
    let ghost start = live_imports.deep_view();
    let ghost found = relevant_publishers.deep_view();
    let ghost users = cache.deep_view().users;
    let ghost lock = imports_lock.deep_view().publisher;
    assert(found.take(0) =~= Seq::empty());
    let mut i: usize = 0;
    while i < relevant_publishers.len()
        invariant
            imports_lock.wf(),
            live_imports.wf(),
            found == relevant_publishers.deep_view(),
            users == cache.deep_view().users,
            lock == imports_lock.deep_view().publisher,
            i <= found.len(),
            live_imports.deep_view().audits == start.audits,
            live_imports.deep_view().publisher == with_found(
                start.publisher,
                found.take(i as int),
                users,
                lock,
            ),
        decreases found.len() - i,
    {
        proof {
            assert(found.take(i + 1).drop_last() =~= found.take(i as int));
            assert(found.take(i + 1).last() == found[i as int]);
        }
        let pkg_name = &relevant_publishers[i].0;
        let publishers = &relevant_publishers[i].1;
        assert(found[i as int] == (pkg_name@, publishers.deep_view()));
        let nonfresh_versions = versions_published(&imports_lock.publisher, pkg_name.as_str());
        let records = records_of(cache, &nonfresh_versions, publishers);
        live_imports.publisher.insert(pkg_name.clone(), records);
        i = i + 1;
    }
    assert(found.take(found.len() as int) =~= found);
}

/// The names under which publishers were found.
pub open spec fn found_names(found: Seq<(Seq<char>, Seq<PublisherCacheVersionView>)>) -> Seq<
    Seq<char>,
> {
    Seq::new(found.len(), |i: int| found[i].0)
}

/// What an import of publishers works on.
pub struct ImportInputs {
    pub packages: Seq<PackageInfoView>,
    pub config: ConfigFileView,
    pub audits: AuditsFileView,
    pub lock: ImportsFileView,
    pub live: ImportsFileView,
}

/// The versions of a package that are handed to the lookup.
pub open spec fn wanted(inputs: ImportInputs, name: Seq<char>) -> Seq<VersionView> {
    relevant_versions(name, inputs.packages, inputs.config, inputs.audits, inputs.lock, inputs.live)
}

/// The lookups for the packages `names`, one after the other, all
/// succeeded: they led the cache from `start` to `end` and gave, for each
/// package, the versions in `found`.
pub open spec fn looked_up<
    Q: Fn(&str) -> Option<Vec<String>>,
    D: Fn(&str) -> Result<CratesAPICrate, FetchAuditError>,
>(
    start: PublisherCacheView,
    now: Timestamp,
    names: Seq<Seq<char>>,
    inputs: ImportInputs,
    query_index: Q,
    download: D,
    end: PublisherCacheView,
    found: Seq<(Seq<char>, Seq<PublisherCacheVersionView>)>,
) -> bool
    decreases names.len(),
{
    if names.len() == 0 {
        end == start && found.len() == 0
    } else {
        &&& found.len() == names.len()
        &&& exists|mid: PublisherCacheView, name: &str, answer: Vec<PublisherCacheVersion>|
            {
                &&& #[trigger] got(
                    mid,
                    now,
                    name,
                    wanted(inputs, names.last()),
                    query_index,
                    download,
                    end,
                    Ok::<Vec<PublisherCacheVersion>, FetchAuditError>(answer),
                )
                &&& looked_up(
                    start,
                    now,
                    names.drop_last(),
                    inputs,
                    query_index,
                    download,
                    mid,
                    found.drop_last(),
                )
                &&& name@ == names.last()
                &&& found.last() == (names.last(), answer.deep_view())
            }
    }
}

/// The lookups for the packages `names` failed: those for the first `at`
/// packages succeeded, and the next one failed with `error` and left the
/// cache at `end`.
pub open spec fn lookup_failed<
    Q: Fn(&str) -> Option<Vec<String>>,
    D: Fn(&str) -> Result<CratesAPICrate, FetchAuditError>,
>(
    start: PublisherCacheView,
    now: Timestamp,
    names: Seq<Seq<char>>,
    inputs: ImportInputs,
    query_index: Q,
    download: D,
    end: PublisherCacheView,
    error: FetchAuditError,
    at: int,
) -> bool {
    &&& 0 <= at < names.len()
    &&& exists|
        mid: PublisherCacheView,
        name: &str,
        found: Seq<(Seq<char>, Seq<PublisherCacheVersionView>)>,
    |
        {
            &&& #[trigger] got(
                mid,
                now,
                name,
                wanted(inputs, names[at]),
                query_index,
                download,
                end,
                Err::<Vec<PublisherCacheVersion>, FetchAuditError>(error),
            )
            &&& #[trigger] looked_up(
                start,
                now,
                names.take(at),
                inputs,
                query_index,
                download,
                mid,
                found,
            )
            &&& name@ == names[at]
        }
}

/// The packages whose publishers an import looks up, in the order of the
/// lookups.
pub open spec fn import_names(packages: Seq<PackageInfoView>, relevant: Seq<Seq<char>>) -> Seq<
    Seq<char>,
> {
    merged(Seq::empty(), graph_names(packages, relevant))
}

/// Every package whose publishers an import looks up is one of the
/// relevant packages.
pub proof fn lemma_import_names_are_relevant(
    packages: Seq<PackageInfoView>,
    relevant: Seq<Seq<char>>,
)
    ensures
        forall|i: int|
            0 <= i < import_names(packages, relevant).len() ==> relevant.contains(
                #[trigger] import_names(packages, relevant)[i],
            ),
{
    lemma_graph_names_are_relevant(packages, relevant);
    lemma_merged_holds_given(Seq::empty(), graph_names(packages, relevant));
    let names = import_names(packages, relevant);
    let listed = graph_names(packages, relevant);
    assert forall|i: int| 0 <= i < names.len() implies relevant.contains(#[trigger] names[i]) by {
        assert(listed.contains(names[i]));
        let at = choose|k: int| 0 <= k < listed.len() && listed[k] == names[i];
        assert(relevant.contains(listed[at]));
    }
}

proof fn lemma_graph_names_are_relevant(packages: Seq<PackageInfoView>, relevant: Seq<Seq<char>>)
    ensures
        forall|i: int|
            0 <= i < graph_names(packages, relevant).len() ==> relevant.contains(
                #[trigger] graph_names(packages, relevant)[i],
            ),
    decreases packages.len(),
{
    if packages.len() > 0 {
        lemma_graph_names_are_relevant(packages.drop_last(), relevant);
        let before = graph_names(packages.drop_last(), relevant);
        let all = graph_names(packages, relevant);
        assert forall|i: int| 0 <= i < all.len() implies relevant.contains(#[trigger] all[i]) by {
            if i < before.len() {
                assert(all[i] == before[i]);
            }
        }
    }
}

proof fn lemma_merged_holds_given<A>(acc: Seq<A>, items: Seq<A>)
    ensures
        forall|i: int|
            0 <= i < merged(acc, items).len() ==> acc.contains(#[trigger] merged(acc, items)[i])
                || items.contains(merged(acc, items)[i]),
    decreases items.len(),
{
    if items.len() > 0 {
        lemma_merged_holds_given(acc, items.drop_last());
        let before = merged(acc, items.drop_last());
        let all = merged(acc, items);
        assert forall|i: int| 0 <= i < all.len() implies acc.contains(#[trigger] all[i])
            || items.contains(all[i]) by {
            if i < before.len() {
                assert(all[i] == before[i]);
                if !acc.contains(before[i]) {
                    let at = choose|k: int|
                        0 <= k < items.drop_last().len() && items.drop_last()[k] == before[i];
                    assert(items[at] == all[i]);
                }
            } else {
                assert(all[i] == items[items.len() - 1]);
            }
        }
    }
}

/// Looks up the publishers of the versions that matter of the relevant
/// packages of the graph, and puts them into the live imports.
///
/// The packages are taken in the order of the graph. The first failure of
/// a lookup ends the import, and the live imports are left as they were.
/// After the last lookup, the publishers that were found are recorded for
/// each package, with what the cache then knows of the users.
pub fn import_publisher_versions<
    Q: Fn(&str) -> Option<Vec<String>>,
    D: Fn(&str) -> Result<CratesAPICrate, FetchAuditError>,
>(
    metadata: &Metadata,
    cache: &mut PublisherCache,
    now: Timestamp,
    relevant_packages: &Vec<String>,
    config_file: &ConfigFile,
    audits_file: &AuditsFile,
    imports_lock: &ImportsFile,
    live_imports: &mut ImportsFile,
    query_index: &Q,
    download: &D,
) -> (r: Result<(), FetchAuditError>)
    requires
        old(cache).wf(),
        config_file.wf(),
        audits_file.wf(),
        imports_lock.wf(),
        old(live_imports).wf(),
        forall|i: int|
            0 <= i < relevant_packages.len() ==> plain_name(
                #[trigger] relevant_packages.deep_view()[i],
            ),
        forall|package: &str| query_index.requires((package,)),
        forall|url: &str| download.requires((url,)),
    ensures
        final(cache).wf(),
        final(live_imports).wf(),
        r matches Err(error) ==> final(live_imports).deep_view() == old(live_imports).deep_view()
            && exists|at: int|
            lookup_failed(
                old(cache).deep_view(),
                now,
                import_names(metadata.deep_view(), relevant_packages.deep_view()),
                inputs_of(metadata, config_file, audits_file, imports_lock, old(live_imports)),
                *query_index,
                *download,
                final(cache).deep_view(),
                error,
                at,
            ),
        r is Ok ==> exists|found: Seq<(Seq<char>, Seq<PublisherCacheVersionView>)>|
            {
                &&& #[trigger] looked_up(
                    old(cache).deep_view(),
                    now,
                    import_names(metadata.deep_view(), relevant_packages.deep_view()),
                    inputs_of(metadata, config_file, audits_file, imports_lock, old(live_imports)),
                    *query_index,
                    *download,
                    final(cache).deep_view(),
                    found,
                )
                &&& found_names(found) == import_names(
                    metadata.deep_view(),
                    relevant_packages.deep_view(),
                )
                &&& final(live_imports).deep_view().audits == old(live_imports).deep_view().audits
                &&& final(live_imports).deep_view().publisher == with_found(
                    old(live_imports).deep_view().publisher,
                    found,
                    final(cache).deep_view().users,
                    imports_lock.deep_view().publisher,
                )
            },
{
    let ghost start = cache.deep_view();
    let ghost inputs = inputs_of(metadata, config_file, audits_file, imports_lock, live_imports);
    let names = packages_that_matter(metadata, relevant_packages);
    proof {
        lemma_import_names_are_relevant(metadata.deep_view(), relevant_packages.deep_view());
        assert forall|k: int| 0 <= k < names.len() implies plain_name(
            #[trigger] names.deep_view()[k],
        ) by {
            let relevant = relevant_packages.deep_view();
            let all = import_names(metadata.deep_view(), relevant);
            assert(names.deep_view()[k] == all[k]);
            assert(relevant.contains(all[k]));
            let at = choose|j: int| 0 <= j < relevant.len() && relevant[j] == names.deep_view()[k];
            assert(plain_name(relevant[at]));
        }
    }
    let mut relevant_publishers: Vec<(String, Vec<PublisherCacheVersion>)> = Vec::new();
    assert(found_names(relevant_publishers.deep_view()) =~= names.deep_view().take(0));
    let mut i: usize = 0;
    while i < names.len()
        invariant
            cache.wf(),
            config_file.wf(),
            audits_file.wf(),
            imports_lock.wf(),
            live_imports.wf(),
            live_imports.deep_view() == old(live_imports).deep_view(),
            forall|package: &str| query_index.requires((package,)),
            forall|url: &str| download.requires((url,)),
            forall|k: int| 0 <= k < names.len() ==> plain_name(#[trigger] names.deep_view()[k]),
            i <= names.len(),
            found_names(relevant_publishers.deep_view()) == names.deep_view().take(i as int),
            names.deep_view() == import_names(
                metadata.deep_view(),
                relevant_packages.deep_view(),
            ),
            inputs == inputs_of(metadata, config_file, audits_file, imports_lock, live_imports),
            start == old(cache).deep_view(),
            looked_up(
                start,
                now,
                names.deep_view().take(i as int),
                inputs,
                *query_index,
                *download,
                cache.deep_view(),
                relevant_publishers.deep_view(),
            ),
        decreases names.len() - i,
    {
        let pkg_name = &names[i];
        let name_text = pkg_name.as_str();
        let ghost mid = cache.deep_view();
        let ghost before = relevant_publishers.deep_view();
        assert(names.deep_view()[i as int] == pkg_name@);
        assert(names.deep_view().take(i + 1).drop_last() =~= names.deep_view().take(i as int));
        assert(names.deep_view().take(i + 1).last() == pkg_name@);
        let versions = versions_that_matter(
            pkg_name.as_str(),
            metadata,
            config_file,
            audits_file,
            imports_lock,
            live_imports,
        );
        let publishers = match get_publishers(
            cache,
            now,
            name_text,
            &versions,
            query_index,
            download,
        ) {
            Ok(publishers) => publishers,
            Err(e) => {
                proof {
                    assert(got(
                        mid,
                        now,
                        name_text,
                        wanted(inputs, names.deep_view()[i as int]),
                        *query_index,
                        *download,
                        cache.deep_view(),
                        Err::<Vec<PublisherCacheVersion>, FetchAuditError>(e),
                    ));
                    assert(lookup_failed(
                        start,
                        now,
                        names.deep_view(),
                        inputs,
                        *query_index,
                        *download,
                        cache.deep_view(),
                        e,
                        i as int,
                    ));
                }
                return Err(e);
            },
        };
        let ghost answer = publishers;
        let ghost so_far = relevant_publishers.deep_view();
        let ghost made = (pkg_name@, publishers.deep_view());
        relevant_publishers.push((pkg_name.clone(), publishers));
        assert(relevant_publishers.deep_view() =~= so_far.push(made));
        proof {
            let found = relevant_publishers.deep_view();
            assert(found.drop_last() =~= before);
            assert(found.last() == made);
            assert(got(
                mid,
                now,
                name_text,
                wanted(inputs, names.deep_view().take(i + 1).last()),
                *query_index,
                *download,
                cache.deep_view(),
                Ok::<Vec<PublisherCacheVersion>, FetchAuditError>(answer),
            ));
            assert(looked_up(
                start,
                now,
                names.deep_view().take(i + 1),
                inputs,
                *query_index,
                *download,
                cache.deep_view(),
                found,
            ));
        }
        assert(found_names(so_far.push(made)) =~= found_names(so_far).push(pkg_name@));
        assert(found_names(relevant_publishers.deep_view()) =~= names.deep_view().take(i + 1));
        i = i + 1;
    }
    assert(names.deep_view().take(names.len() as int) =~= names.deep_view());
    record_publishers(&relevant_publishers, cache, imports_lock, live_imports);
    assert(looked_up(
        start,
        now,
        import_names(metadata.deep_view(), relevant_packages.deep_view()),
        inputs,
        *query_index,
        *download,
        cache.deep_view(),
        relevant_publishers.deep_view(),
    ));
    Ok(())
}

/// What an import of publishers works on, seen from its arguments.
pub open spec fn inputs_of(
    metadata: &Metadata,
    config_file: &ConfigFile,
    audits_file: &AuditsFile,
    imports_lock: &ImportsFile,
    live_imports: &ImportsFile,
) -> ImportInputs {
    ImportInputs {
        packages: metadata.deep_view(),
        config: config_file.deep_view(),
        audits: audits_file.deep_view(),
        lock: imports_lock.deep_view(),
        live: live_imports.deep_view(),
    }
}

/// `acc` with the names of the packages for which the files of the peers
/// hold wildcard audits.
pub open spec fn merged_wildcards(acc: Seq<Seq<char>>, files: Seq<AuditsFileView>) -> Seq<Seq<char>>
    decreases files.len(),
{
    if files.len() == 0 {
        acc
    } else {
        merged(merged_wildcards(acc, files.drop_last()), files.last().wildcard_audits.keys)
    }
}

/// The packages for which publishers matter, each once: those with a local
/// wildcard audit, those with a wildcard audit of a peer, and those whose
/// publishers the imports hold.
pub open spec fn wildcard_packages(audits: AuditsFileView, imports: ImportsFileView) -> Seq<Seq<char>> {
    merged(
        merged_wildcards(merged(Seq::empty(), audits.wildcard_audits.keys), imports.audits.vals),
        imports.publisher.keys,
    )
}

/// The packages for which publishers matter.
pub fn wildcard_audits_packages(audits_file: &AuditsFile, imports_file: &ImportsFile) -> (r: Vec<
    String,
>)
    requires
        audits_file.wf(),
        imports_file.wf(),
    ensures
        r.deep_view() == wildcard_packages(audits_file.deep_view(), imports_file.deep_view()),
{
    let mut names: Vec<String> = Vec::new();
    assert(names.deep_view() =~= Seq::empty());
    extend_unique(&mut names, &audits_file.wildcard_audits.keys);
    let ghost start = names.deep_view();
    let ghost files = imports_file.deep_view().audits.vals;
    assert(files.take(0) =~= Seq::empty());
    let mut i: usize = 0;
    while i < imports_file.audits.len()
        invariant
            imports_file.wf(),
            files == imports_file.deep_view().audits.vals,
            i <= files.len(),
            names.deep_view() == merged_wildcards(start, files.take(i as int)),
        decreases files.len() - i,
    {
        proof {
            assert(files.take(i + 1).drop_last() =~= files.take(i as int));
            assert(files.take(i + 1).last() == files[i as int]);
        }
        extend_unique(&mut names, &imports_file.audits.value_at(i).wildcard_audits.keys);
        i = i + 1;
    }
    assert(files.take(files.len() as int) =~= files);
    extend_unique(&mut names, &imports_file.publisher.keys);
    names
}

} // verus!
