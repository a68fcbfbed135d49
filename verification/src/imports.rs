//! Reconciling the audits fetched from peers with the imports lock.
//!
//! What a peer publishes is written in the peer's own criteria. Before it
//! enters the store, every list of criteria is rewritten into local
//! criteria, the audits of excluded packages are left out, only the
//! criteria that the config maps are kept, and every entry is marked fresh
//! unless the imports lock already held it.

use vstd::prelude::*;
use crate::criteria::{localized, vocabulary, CriteriaTranslator};
use crate::diff::{unified_diff, unified_diff_text, DESCRIPTION_CONTEXT};
use crate::entry::{mark_fresh, marked, Imported};
use crate::format::{
    AuditEntry, AuditEntryView, AuditsFile, AuditsFileView, ConfigFile, CriteriaEntry,
    CriteriaEntryView, ImportConfig, ImportConfigView, ImportsFile, ImportsFileView, WildcardEntry,
};
use crate::model::Duplicate;
use crate::table::{lemma_put_values, Table, TableView};
use crate::text::list_has;

verus! {

/// The description of a criterion that the config maps has changed since
/// the imports lock was written.
#[derive(Clone, Debug, PartialEq, Eq)]
pub struct CriteriaChangeError {
    pub import_name: String,
    pub criteria_name: String,
    /// The unified diff from the old description to the new one.
    pub unified_diff: String,
}

pub struct CriteriaChangeErrorView {
    pub import_name: Seq<char>,
    pub criteria_name: Seq<char>,
    pub unified_diff: Seq<char>,
}

impl DeepView for CriteriaChangeError {
    type V = CriteriaChangeErrorView;

    open spec fn deep_view(&self) -> CriteriaChangeErrorView {
        CriteriaChangeErrorView {
            import_name: self.import_name@,
            criteria_name: self.criteria_name@,
            unified_diff: self.unified_diff@,
        }
    }
}

/// All the changed descriptions that one reconciliation found.
#[derive(Clone, Debug, PartialEq, Eq)]
pub struct CriteriaChangeErrors {
    pub errors: Vec<CriteriaChangeError>,
}

/// The entries of a list, each with its criteria rewritten into local ones.
pub open spec fn localized_list<E: Imported>(
    local: Seq<Seq<char>>,
    foreign: Seq<Seq<char>>,
    map: TableView<Seq<Seq<char>>>,
    list: Seq<E::V>,
) -> Seq<E::V> {
    Seq::new(
        list.len(),
        |i: int| E::with_criteria(list[i], localized(local, foreign, map, E::criteria_of(list[i]))),
    )
}

/// The entries that the lock held for a package.
pub open spec fn prior_entries<V>(prior: Option<TableView<Seq<V>>>, package: Seq<char>) -> Seq<V> {
    match prior {
        Some(t) => if t.has(package) {
            t.at(package)
        } else {
            Seq::empty()
        },
        None => Seq::empty(),
    }
}

/// What is imported of the fetched entries of one package: the entries in
/// local criteria, marked fresh against what the lock held.
pub open spec fn reconciled_list<E: Imported>(
    local: Seq<Seq<char>>,
    foreign: Seq<Seq<char>>,
    map: TableView<Seq<Seq<char>>>,
    fetched: Seq<E::V>,
    prior: Seq<E::V>,
) -> Seq<E::V> {
    marked::<E>(localized_list::<E>(local, foreign, map, fetched), prior)
}

/// What is imported of a table of fetched entries, package by package.
pub open spec fn reconciled_audits<E: Imported>(
    local: Seq<Seq<char>>,
    foreign: Seq<Seq<char>>,
    map: TableView<Seq<Seq<char>>>,
    fetched: TableView<Seq<E::V>>,
    prior: Option<TableView<Seq<E::V>>>,
) -> TableView<Seq<E::V>> {
    TableView {
        keys: fetched.keys,
        vals: Seq::new(
            fetched.keys.len(),
            |i: int|
                reconciled_list::<E>(
                    local,
                    foreign,
                    map,
                    fetched.vals[i],
                    prior_entries(prior, fetched.keys[i]),
                ),
        ),
    }
}

/// Keeps the audits of the packages that are not excluded.
pub open spec fn not_excluded(exclude: Seq<Seq<char>>) -> spec_fn(
    Seq<char>,
    Seq<AuditEntryView>,
) -> Option<Seq<AuditEntryView>> {
    |package: Seq<char>, audits: Seq<AuditEntryView>|
        if exclude.contains(package) {
            None
        } else {
            Some(audits)
        }
}

/// A criterion of a peer as it is imported: its description alone.
pub open spec fn imported_entry(entry: CriteriaEntryView) -> CriteriaEntryView {
    CriteriaEntryView {
        description: entry.description,
        description_url: None,
        implies: Seq::empty(),
    }
}

/// Keeps the criteria that the criteria map names, each with its description
/// alone.
pub open spec fn imported_criterion(map: TableView<Seq<Seq<char>>>) -> spec_fn(
    Seq<char>,
    CriteriaEntryView,
) -> Option<CriteriaEntryView> {
    |name: Seq<char>, entry: CriteriaEntryView|
        if map.has(name) {
            Some(imported_entry(entry))
        } else {
            None
        }
}

pub open spec fn prior_audits(prior: Option<AuditsFileView>) -> Option<
    TableView<Seq<AuditEntryView>>,
> {
    match prior {
        Some(file) => Some(file.audits),
        None => None,
    }
}

pub open spec fn prior_wildcards(prior: Option<AuditsFileView>) -> Option<
    TableView<Seq<crate::format::WildcardEntryView>>,
> {
    match prior {
        Some(file) => Some(file.wildcard_audits),
        None => None,
    }
}

/// What is imported of the file fetched from one peer, given the names of
/// the local criteria, the peer's import config and the file that the lock
/// held for the peer.
pub open spec fn reconciled_file(
    local_keys: Seq<Seq<char>>,
    fetched: AuditsFileView,
    config: ImportConfigView,
    prior: Option<AuditsFileView>,
) -> AuditsFileView {
    let local = vocabulary(local_keys);
    let foreign = vocabulary(fetched.criteria.keys);
    AuditsFileView {
        criteria: fetched.criteria.select_map(imported_criterion(config.criteria_map)),
        wildcard_audits: reconciled_audits::<WildcardEntry>(
            local,
            foreign,
            config.criteria_map,
            fetched.wildcard_audits,
            prior_wildcards(prior),
        ),
        audits: reconciled_audits::<AuditEntry>(
            local,
            foreign,
            config.criteria_map,
            fetched.audits.select_map(not_excluded(config.exclude)),
            prior_audits(prior),
        ),
    }
}

pub open spec fn text_or_empty(text: Option<Seq<char>>) -> Seq<char> {
    match text {
        Some(t) => t,
        None => Seq::empty(),
    }
}

/// The error for a criterion whose description went from `old` to `new`.
pub open spec fn description_change(
    import_name: Seq<char>,
    criteria_name: Seq<char>,
    old_description: Option<Seq<char>>,
    new_description: Option<Seq<char>>,
) -> CriteriaChangeErrorView {
    CriteriaChangeErrorView {
        import_name,
        criteria_name,
        unified_diff: unified_diff_text(
            text_or_empty(old_description),
            text_or_empty(new_description),
            DESCRIPTION_CONTEXT,
            None,
        ),
    }
}

/// The changed descriptions of one peer: for each criterion that the lock
/// held, in key order, an error if the import holds the criterion with
/// another description.
pub open spec fn description_changes(
    import_name: Seq<char>,
    imported: TableView<CriteriaEntryView>,
    prior: TableView<CriteriaEntryView>,
) -> Seq<CriteriaChangeErrorView>
    decreases prior.keys.len(),
{
    if prior.keys.len() == 0 || prior.vals.len() != prior.keys.len() {
        Seq::empty()
    } else {
        let rest = description_changes(import_name, imported, prior.first(prior.keys.len() - 1));
        let name = prior.keys.last();
        if imported.has(name) && imported.at(name).description != prior.vals.last().description {
            rest.push(
                description_change(
                    import_name,
                    name,
                    prior.vals.last().description,
                    imported.at(name).description,
                ),
            )
        } else {
            rest
        }
    }
}

/// The changed descriptions of one fetched file against the lock.
pub open spec fn file_changes(
    import_name: Seq<char>,
    fetched: AuditsFileView,
    config: ImportConfigView,
    prior: Option<AuditsFileView>,
) -> Seq<CriteriaChangeErrorView> {
    match prior {
        Some(file) => description_changes(
            import_name,
            fetched.criteria.select_map(imported_criterion(config.criteria_map)),
            file.criteria,
        ),
        None => Seq::empty(),
    }
}

/// The audits of the new imports lock: each fetched file reconciled, under
/// the name of its peer. Where a name comes twice, the later file stands.
pub open spec fn reconciled(
    fetched: Seq<(Seq<char>, AuditsFileView)>,
    local_keys: Seq<Seq<char>>,
    imports: TableView<ImportConfigView>,
    lock: TableView<AuditsFileView>,
) -> TableView<AuditsFileView>
    decreases fetched.len(),
{
    if fetched.len() == 0 {
        TableView::empty()
    } else {
        let (name, file) = fetched.last();
        reconciled(fetched.drop_last(), local_keys, imports, lock).put(
            name,
            reconciled_file(local_keys, file, imports.at(name), lock.get(name)),
        )
    }
}

/// The changed descriptions of all fetched files, in the order of the
/// fetch.
pub open spec fn criteria_changes(
    fetched: Seq<(Seq<char>, AuditsFileView)>,
    imports: TableView<ImportConfigView>,
    lock: TableView<AuditsFileView>,
) -> Seq<CriteriaChangeErrorView>
    decreases fetched.len(),
{
    if fetched.len() == 0 {
        Seq::empty()
    } else {
        let (name, file) = fetched.last();
        criteria_changes(fetched.drop_last(), imports, lock) + file_changes(
            name,
            file,
            imports.at(name),
            lock.get(name),
        )
    }
}

/// Rewrites the criteria of every entry of `list` into local criteria.
pub fn localize_list<E: Imported>(translator: &CriteriaTranslator, list: &Vec<E>) -> (r: Vec<E>)
    requires
        translator.wf(),
    ensures
        r.deep_view() == localized_list::<E>(
            translator.local@,
            translator.foreign@,
            translator.map@,
            list.deep_view(),
        ),
{
    let ghost goal = localized_list::<E>(
        translator.local@,
        translator.foreign@,
        translator.map@,
        list.deep_view(),
    );
    let mut out: Vec<E> = Vec::new();
    let mut i: usize = 0;
    while i < list.len()
        invariant
            translator.wf(),
            i <= list.len(),
            goal == localized_list::<E>(
                translator.local@,
                translator.foreign@,
                translator.map@,
                list.deep_view(),
            ),
            out.deep_view() == goal.take(i as int),
        decreases list.len() - i,
    {
        let local = translator.make_criteria_local(list[i].criteria());
        let item = list[i].duplicate().replace_criteria(local);
        let ghost so_far = out.deep_view();
        let ghost made = item.deep_view();
        out.push(item);
        assert(out.deep_view() =~= so_far.push(made));
        assert(out.deep_view() =~= goal.take(i + 1));
        i = i + 1;
    }
    assert(out.deep_view() =~= goal);
    out
}

/// Reconciles a table of fetched entries with what the lock held.
pub fn reconcile_audits<E: Imported>(
    translator: &CriteriaTranslator,
    fetched: &Table<Vec<E>>,
    prior: Option<&Table<Vec<E>>>,
) -> (r: Table<Vec<E>>)
    requires
        translator.wf(),
        fetched.wf(),
        prior matches Some(t) ==> t.wf(),
    ensures
        r.wf(),
        r.deep_view() == reconciled_audits::<E>(
            translator.local@,
            translator.foreign@,
            translator.map@,
            fetched.deep_view(),
            prior.deep_view(),
        ),
{
    let ghost goal = reconciled_audits::<E>(
        translator.local@,
        translator.foreign@,
        translator.map@,
        fetched.deep_view(),
        prior.deep_view(),
    );
    let mut vals: Vec<Vec<E>> = Vec::new();
    let nothing: Vec<E> = Vec::new();
    assert(nothing.deep_view() =~= Seq::empty());
    let mut i: usize = 0;
    while i < fetched.len()
        invariant
            translator.wf(),
            fetched.wf(),
            prior matches Some(t) ==> t.wf(),
            nothing.deep_view() == Seq::<E::V>::empty(),
            i <= fetched.deep_view().len(),
            goal == reconciled_audits::<E>(
                translator.local@,
                translator.foreign@,
                translator.map@,
                fetched.deep_view(),
                prior.deep_view(),
            ),
            vals.deep_view() == goal.vals.take(i as int),
        decreases fetched.deep_view().len() - i,
    {
        let package = fetched.key_at(i);
        let local = localize_list(translator, fetched.value_at(i));
        let held: &Vec<E> = match prior {
            Some(t) => match t.get(package.as_str()) {
                Some(list) => list,
                None => &nothing,
            },
            None => &nothing,
        };
        assert(held.deep_view() == prior_entries(prior.deep_view(), package@));
        let list = mark_fresh(&local, held);
        let ghost so_far = vals.deep_view();
        let ghost made = list.deep_view();
        vals.push(list);
        assert(vals.deep_view() =~= so_far.push(made));
        assert(vals.deep_view() =~= goal.vals.take(i + 1));
        i = i + 1;
    }
    assert(vals.deep_view() =~= goal.vals);
    Table { keys: fetched.keys.duplicate(), vals }
}

/// The audits of the packages that `exclude` does not name.
pub fn drop_excluded(audits: &Table<Vec<AuditEntry>>, exclude: &Vec<String>) -> (r: Table<
    Vec<AuditEntry>,
>)
    requires
        audits.wf(),
    ensures
        r.wf(),
        r.deep_view() == audits.deep_view().select_map(not_excluded(exclude.deep_view())),
{
    let ghost all = audits.deep_view();
    let ghost keep = not_excluded(exclude.deep_view());
    let mut out: Table<Vec<AuditEntry>> = Table { keys: Vec::new(), vals: Vec::new() };
    assert(out.deep_view().keys =~= all.first(0).select_map(keep).keys);
    assert(out.deep_view().vals =~= all.first(0).select_map(keep).vals);
    let mut i: usize = 0;
    while i < audits.len()
        invariant
            audits.wf(),
            all == audits.deep_view(),
            keep == not_excluded(exclude.deep_view()),
            i <= all.len(),
            out.deep_view() == all.first(i as int).select_map(keep),
        decreases all.len() - i,
    {
        proof {
            all.lemma_select_map_step(keep, i as int);
        }
        let package = audits.key_at(i);
        if !list_has(exclude, package.as_str()) {
            let ghost so_far = out.deep_view();
            let list = audits.value_at(i).duplicate();
            out.keys.push(package.clone());
            out.vals.push(list);
            assert(out.deep_view().keys =~= so_far.keys.push(all.keys[i as int]));
            assert(out.deep_view().vals =~= so_far.vals.push(all.vals[i as int]));
        }
        i = i + 1;
    }
    proof {
        assert(all.first(all.len() as int).keys =~= all.keys);
        assert(all.first(all.len() as int).vals =~= all.vals);
        all.lemma_select_map(keep);
    }
    out
}

/// The criteria of a peer that the criteria map names, each with its
/// description alone.
pub fn imported_criteria(criteria: &Table<CriteriaEntry>, map: &Table<Vec<String>>) -> (r: Table<
    CriteriaEntry,
>)
    requires
        criteria.wf(),
        map.wf(),
    ensures
        r.wf(),
        r.deep_view() == criteria.deep_view().select_map(imported_criterion(map.deep_view())),
{
    let ghost all = criteria.deep_view();
    let ghost keep = imported_criterion(map.deep_view());
    let mut out: Table<CriteriaEntry> = Table { keys: Vec::new(), vals: Vec::new() };
    assert(out.deep_view().keys =~= all.first(0).select_map(keep).keys);
    assert(out.deep_view().vals =~= all.first(0).select_map(keep).vals);
    let mut i: usize = 0;
    while i < criteria.len()
        invariant
            criteria.wf(),
            map.wf(),
            all == criteria.deep_view(),
            keep == imported_criterion(map.deep_view()),
            i <= all.len(),
            out.deep_view() == all.first(i as int).select_map(keep),
        decreases all.len() - i,
    {
        proof {
            all.lemma_select_map_step(keep, i as int);
        }
        let name = criteria.key_at(i);
        if map.contains_key(name.as_str()) {
            let ghost so_far = out.deep_view();
            let entry = CriteriaEntry {
                description: criteria.value_at(i).description.duplicate(),
                description_url: None,
                implies: Vec::new(),
            };
            assert(entry.implies.deep_view() =~= Seq::empty());
            assert(entry.deep_view() == imported_entry(all.vals[i as int]));
            out.keys.push(name.clone());
            out.vals.push(entry);
            assert(out.deep_view().keys =~= so_far.keys.push(all.keys[i as int]));
            assert(out.deep_view().vals =~= so_far.vals.push(imported_entry(all.vals[i as int])));
        }
        i = i + 1;
    }
    proof {
        assert(all.first(all.len() as int).keys =~= all.keys);
        assert(all.first(all.len() as int).vals =~= all.vals);
        all.lemma_select_map(keep);
    }
    out
}

/// Reconciles the file fetched from one peer with the file that the lock
/// held for it.
pub fn reconcile_file(
    local_criteria: &Table<CriteriaEntry>,
    fetched: &AuditsFile,
    config: &ImportConfig,
    prior: Option<&AuditsFile>,
) -> (r: AuditsFile)
    requires
        local_criteria.wf(),
        fetched.wf(),
        config.criteria_map.wf(),
        prior matches Some(file) ==> file.wf(),
    ensures
        r.wf(),
        r.deep_view() == reconciled_file(
            local_criteria.deep_view().keys,
            fetched.deep_view(),
            config.deep_view(),
            prior.deep_view(),
        ),
{
    let translator = CriteriaTranslator::new(local_criteria, &fetched.criteria, &config.criteria_map);
    let kept = drop_excluded(&fetched.audits, &config.exclude);
    let (held_audits, held_wildcards) = match prior {
        Some(file) => (Some(&file.audits), Some(&file.wildcard_audits)),
        None => (None, None),
    };
    let audits = reconcile_audits(&translator, &kept, held_audits);
    let wildcard_audits = reconcile_audits(&translator, &fetched.wildcard_audits, held_wildcards);
    let criteria = imported_criteria(&fetched.criteria, &config.criteria_map);
    AuditsFile { criteria, wildcard_audits, audits }
}

/// Gathers the changed descriptions of one peer.
pub fn find_description_changes(
    import_name: &String,
    imported: &Table<CriteriaEntry>,
    prior: &Table<CriteriaEntry>,
    found: &mut Vec<CriteriaChangeError>,
)
    requires
        imported.wf(),
        prior.wf(),
    ensures
        final(found).deep_view() == old(found).deep_view() + description_changes(
            import_name@,
            imported.deep_view(),
            prior.deep_view(),
        ),
{
    let ghost start = found.deep_view();
    let ghost held = prior.deep_view();
    let mut i: usize = 0;
    assert(found.deep_view() =~= start + description_changes(
        import_name@,
        imported.deep_view(),
        held.first(0),
    ));
    while i < prior.len()
        invariant
            imported.wf(),
            prior.wf(),
            held == prior.deep_view(),
            i <= held.len(),
            found.deep_view() == start + description_changes(
                import_name@,
                imported.deep_view(),
                held.first(i as int),
            ),
        decreases held.len() - i,
    {
        let name = prior.key_at(i);
        let old_entry = prior.value_at(i);
        proof {
            let longer = held.first(i + 1);
            assert(longer.first(longer.keys.len() - 1).keys =~= held.first(i as int).keys);
            assert(longer.first(longer.keys.len() - 1).vals =~= held.first(i as int).vals);
        }
        match imported.get(name.as_str()) {
            Some(new_entry) => {
                if !crate::model::Same::same(&old_entry.description, &new_entry.description) {
                    let nothing = String::new();
                    let old_text = match &old_entry.description {
                        Some(t) => t,
                        None => &nothing,
                    };
                    let new_text = match &new_entry.description {
                        Some(t) => t,
                        None => &nothing,
                    };
                    let ghost so_far = found.deep_view();
                    let change = CriteriaChangeError {
                        import_name: import_name.clone(),
                        criteria_name: name.clone(),
                        unified_diff: unified_diff(
                            old_text.as_str(),
                            new_text.as_str(),
                            DESCRIPTION_CONTEXT,
                            None,
                        ),
                    };
                    let ghost made = change.deep_view();
                    found.push(change);
                    assert(found.deep_view() =~= so_far.push(made));
                    assert(found.deep_view() =~= start + description_changes(
                        import_name@,
                        imported.deep_view(),
                        held.first(i + 1),
                    ));
                }
            },
            None => {},
        }
        i = i + 1;
    }
    assert(held.first(held.len() as int).keys =~= held.keys);
    assert(held.first(held.len() as int).vals =~= held.vals);
}

pub open spec fn fetched_wf(fetched: Seq<(Seq<char>, AuditsFileView)>) -> bool {
    forall|i: int| 0 <= i < fetched.len() ==> (#[trigger] fetched[i]).1.wf()
}

/// Every fetched file comes from a peer that the config names.
pub open spec fn fetched_configured(
    fetched: Seq<(Seq<char>, AuditsFileView)>,
    imports: TableView<ImportConfigView>,
) -> bool {
    forall|i: int| 0 <= i < fetched.len() ==> imports.has((#[trigger] fetched[i]).0)
}

/// Makes the new imports lock from the files fetched from the peers.
///
/// Fails with the changed descriptions, in the order of the fetch, if
/// changes are not allowed and a criterion that the lock held has another
/// description now. The publishers of the new lock are left empty.
pub fn process_imported_audits(
    fetched_audits: Vec<(String, AuditsFile)>,
    local_audits_file: &AuditsFile,
    config_file: &ConfigFile,
    imports_lock: &ImportsFile,
    allow_criteria_changes: bool,
) -> (r: Result<ImportsFile, CriteriaChangeErrors>)
    requires
        fetched_wf(fetched_audits.deep_view()),
        fetched_configured(fetched_audits.deep_view(), config_file.deep_view().imports),
        local_audits_file.wf(),
        config_file.wf(),
        imports_lock.wf(),
    ensures
        r is Err <==> !allow_criteria_changes && criteria_changes(
            fetched_audits.deep_view(),
            config_file.deep_view().imports,
            imports_lock.deep_view().audits,
        ).len() > 0,
        r matches Ok(imports) ==> imports.wf() && imports.deep_view() == (ImportsFileView {
            publisher: TableView::empty(),
            audits: reconciled(
                fetched_audits.deep_view(),
                local_audits_file.deep_view().criteria.keys,
                config_file.deep_view().imports,
                imports_lock.deep_view().audits,
            ),
        }),
        r matches Err(e) ==> e.errors.deep_view() == criteria_changes(
            fetched_audits.deep_view(),
            config_file.deep_view().imports,
            imports_lock.deep_view().audits,
        ),
{
    let ghost fetched = fetched_audits.deep_view();
    let ghost local_keys = local_audits_file.deep_view().criteria.keys;
    let ghost imports = config_file.deep_view().imports;
    let ghost lock = imports_lock.deep_view().audits;
    let mut new_imports = ImportsFile::new();
    let mut changed_criteria: Vec<CriteriaChangeError> = Vec::new();
    assert(changed_criteria.deep_view() =~= Seq::empty());
    assert(fetched.take(0) =~= Seq::empty());
    let mut i: usize = 0;
    while i < fetched_audits.len()
        invariant
            fetched == fetched_audits.deep_view(),
            local_keys == local_audits_file.deep_view().criteria.keys,
            imports == config_file.deep_view().imports,
            lock == imports_lock.deep_view().audits,
            fetched_wf(fetched),
            fetched_configured(fetched, imports),
            local_audits_file.wf(),
            config_file.wf(),
            imports_lock.wf(),
            i <= fetched.len(),
            new_imports.wf(),
            new_imports.deep_view().publisher == TableView::<
                Seq<crate::format::CratesPublisherView>,
            >::empty(),
            new_imports.deep_view().audits == reconciled(
                fetched.take(i as int),
                local_keys,
                imports,
                lock,
            ),
            allow_criteria_changes ==> changed_criteria.deep_view().len() == 0,
            !allow_criteria_changes ==> changed_criteria.deep_view() == criteria_changes(
                fetched.take(i as int),
                imports,
                lock,
            ),
        decreases fetched.len() - i,
    {
        let import_name = &fetched_audits[i].0;
        let audits_file = &fetched_audits[i].1;
        proof {
            assert(fetched.take(i + 1).drop_last() =~= fetched.take(i as int));
            assert(fetched.take(i + 1).last() == fetched[i as int]);
            assert(fetched[i as int] == (import_name@, audits_file.deep_view()));
            assert(fetched[i as int].1.wf());
            assert(imports.has(fetched[i as int].0));
        }
        let config = match config_file.imports.get(import_name.as_str()) {
            Some(config) => config,
            None => vstd::pervasive::unreached(),
        };
        proof {
            let p = imports.keys.index_of(import_name@);
            assert(imports.vals[p].criteria_map.wf());
        }
        let existing = imports_lock.audits.get(import_name.as_str());
        proof {
            if lock.has(import_name@) {
                let p = lock.keys.index_of(import_name@);
                assert(lock.vals[p].wf());
            }
        }
        let file = reconcile_file(&local_audits_file.criteria, audits_file, config, existing);
        if !allow_criteria_changes {
            match existing {
                Some(existing_audits_file) => {
                    find_description_changes(
                        import_name,
                        &file.criteria,
                        &existing_audits_file.criteria,
                        &mut changed_criteria,
                    );
                },
                None => {
                    assert(changed_criteria.deep_view() + Seq::empty()
                        =~= changed_criteria.deep_view());
                },
            }
        }
        let ghost before = new_imports.deep_view();
        new_imports.audits.insert(import_name.clone(), file);
        proof {
            let after = new_imports.deep_view().audits;
            let made = reconciled_file(
                local_keys,
                audits_file.deep_view(),
                config.deep_view(),
                existing.deep_view(),
            );
            lemma_put_values(before.audits, import_name@, made);
            assert forall|k: int| 0 <= k < after.vals.len() implies (
            #[trigger] after.vals[k]).wf() by {
                if after.vals[k] != made {
                    let p = before.audits.vals.index_of(after.vals[k]);
                    assert(before.audits.vals[p].wf());
                }
            }
        }
        i = i + 1;
    }
    assert(fetched.take(fetched.len() as int) =~= fetched);
    if changed_criteria.len() > 0 {
        return Err(CriteriaChangeErrors { errors: changed_criteria });
    }
    Ok(new_imports)
}

} // verus!
