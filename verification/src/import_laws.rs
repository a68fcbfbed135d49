//! What holds of every reconciliation of imports.

use vstd::prelude::*;
use crate::criteria::{is_known, lemma_localized_is_local, lemma_vocabulary_known, vocabulary};
use crate::entry::{copies, fresh_at, marked, Imported};
use crate::format::{
    AuditEntry, AuditsFileView, CriteriaEntryView, ImportConfigView, WildcardEntry,
};
use crate::imports::{
    criteria_changes, description_changes, fetched_wf, file_changes, imported_criterion,
    localized_list, not_excluded, prior_audits, prior_entries, prior_wildcards, reconciled,
    reconciled_audits, reconciled_file,
};
use crate::table::{lemma_index_of, lemma_put, lemma_put_values, TableView};

verus! {

/// A list with every freshness flag put down.
pub open spec fn plain_list<E: Imported>(list: Seq<E::V>) -> Seq<E::V> {
    Seq::new(list.len(), |i: int| E::with_fresh(list[i], false))
}

/// A table of lists with every freshness flag put down.
pub open spec fn plain_audits<E: Imported>(t: TableView<Seq<E::V>>) -> TableView<Seq<E::V>> {
    TableView { keys: t.keys, vals: Seq::new(t.vals.len(), |i: int| plain_list::<E>(t.vals[i])) }
}

/// An audits file with every freshness flag put down.
pub open spec fn plain_file(file: AuditsFileView) -> AuditsFileView {
    AuditsFileView {
        criteria: file.criteria,
        wildcard_audits: plain_audits::<WildcardEntry>(file.wildcard_audits),
        audits: plain_audits::<AuditEntry>(file.audits),
    }
}

/// The audits of an imports lock with every freshness flag put down.
pub open spec fn settled(t: TableView<AuditsFileView>) -> TableView<AuditsFileView> {
    TableView { keys: t.keys, vals: Seq::new(t.vals.len(), |i: int| plain_file(t.vals[i])) }
}

/// No peer is named twice in the fetch.
pub open spec fn peers_distinct(fetched: Seq<(Seq<char>, AuditsFileView)>) -> bool {
    forall|i: int, j: int|
        0 <= i < j < fetched.len() ==> (#[trigger] fetched[i]).0 != (#[trigger] fetched[j]).0
}

/// A value of the new lock is what was imported of some fetched file.
pub open spec fn is_import(local_keys: Seq<Seq<char>>, file: AuditsFileView) -> bool {
    exists|fetched: AuditsFileView, config: ImportConfigView, prior: Option<AuditsFileView>|
        file == #[trigger] reconciled_file(local_keys, fetched, config, prior)
}

proof fn lemma_values_are_imports(
    fetched: Seq<(Seq<char>, AuditsFileView)>,
    local_keys: Seq<Seq<char>>,
    imports: TableView<ImportConfigView>,
    lock: TableView<AuditsFileView>,
)
    ensures
        reconciled(fetched, local_keys, imports, lock).keys.len() == reconciled(
            fetched,
            local_keys,
            imports,
            lock,
        ).vals.len(),
        forall|p: int|
            0 <= p < reconciled(fetched, local_keys, imports, lock).vals.len() ==> is_import(
                local_keys,
                #[trigger] reconciled(fetched, local_keys, imports, lock).vals[p],
            ),
    decreases fetched.len(),
{
    if fetched.len() > 0 {
        let (name, file) = fetched.last();
        let rest = reconciled(fetched.drop_last(), local_keys, imports, lock);
        lemma_values_are_imports(fetched.drop_last(), local_keys, imports, lock);
        let made = reconciled_file(local_keys, file, imports.at(name), lock.get(name));
        lemma_put_values(rest, name, made);
        crate::table::lemma_slot_bounds(rest, name);
        let out = rest.put(name, made);
        assert forall|p: int| 0 <= p < out.vals.len() implies is_import(
            local_keys,
            #[trigger] out.vals[p],
        ) by {
            if out.vals[p] != made {
                let q = rest.vals.index_of(out.vals[p]);
                assert(is_import(local_keys, rest.vals[q]));
            }
        }
    }
}

/// Every criterion that an imported audit carries is a local criterion:
/// one of the two reserved names or the name of a criterion of the local
/// audits file. `peer`, `package` and `at` pick any audit of the new lock.
pub proof fn law_imported_audits_carry_local_criteria(
    fetched: Seq<(Seq<char>, AuditsFileView)>,
    local_keys: Seq<Seq<char>>,
    imports: TableView<ImportConfigView>,
    lock: TableView<AuditsFileView>,
    peer: int,
    package: int,
    at: int,
    name: Seq<char>,
)
    requires
        0 <= peer < reconciled(fetched, local_keys, imports, lock).vals.len(),
        0 <= package < reconciled(fetched, local_keys, imports, lock).vals[peer].audits.vals.len(),
        0 <= at < reconciled(fetched, local_keys, imports, lock).vals[peer].audits.vals[package].len(),
        reconciled(
            fetched,
            local_keys,
            imports,
            lock,
        ).vals[peer].audits.vals[package][at].criteria.contains(name),
    ensures
        is_known(local_keys, name),
{
    lemma_values_are_imports(fetched, local_keys, imports, lock);
    let file = reconciled(fetched, local_keys, imports, lock).vals[peer];
    let (source, config, prior) = choose|
        source: AuditsFileView,
        config: ImportConfigView,
        prior: Option<AuditsFileView>,
    | file == #[trigger] reconciled_file(local_keys, source, config, prior);
    let kept = source.audits.select_map(not_excluded(config.exclude));
    let local = vocabulary(local_keys);
    let foreign = vocabulary(source.criteria.keys);
    lemma_localized_is_local(
        local,
        foreign,
        config.criteria_map,
        AuditEntry::criteria_of(kept.vals[package][at]),
        name,
    );
    lemma_vocabulary_known(local_keys, name);
}

/// Every criterion that an imported wildcard audit carries is a local
/// criterion. `peer`, `package` and `at` pick any wildcard audit of the new
/// lock.
pub proof fn law_imported_wildcard_audits_carry_local_criteria(
    fetched: Seq<(Seq<char>, AuditsFileView)>,
    local_keys: Seq<Seq<char>>,
    imports: TableView<ImportConfigView>,
    lock: TableView<AuditsFileView>,
    peer: int,
    package: int,
    at: int,
    name: Seq<char>,
)
    requires
        0 <= peer < reconciled(fetched, local_keys, imports, lock).vals.len(),
        0 <= package < reconciled(
            fetched,
            local_keys,
            imports,
            lock,
        ).vals[peer].wildcard_audits.vals.len(),
        0 <= at < reconciled(
            fetched,
            local_keys,
            imports,
            lock,
        ).vals[peer].wildcard_audits.vals[package].len(),
        reconciled(
            fetched,
            local_keys,
            imports,
            lock,
        ).vals[peer].wildcard_audits.vals[package][at].criteria.contains(name),
    ensures
        is_known(local_keys, name),
{
    lemma_values_are_imports(fetched, local_keys, imports, lock);
    let file = reconciled(fetched, local_keys, imports, lock).vals[peer];
    let (source, config, prior) = choose|
        source: AuditsFileView,
        config: ImportConfigView,
        prior: Option<AuditsFileView>,
    | file == #[trigger] reconciled_file(local_keys, source, config, prior);
    let local = vocabulary(local_keys);
    let foreign = vocabulary(source.criteria.keys);
    lemma_localized_is_local(
        local,
        foreign,
        config.criteria_map,
        WildcardEntry::criteria_of(source.wildcard_audits.vals[package][at]),
        name,
    );
    lemma_vocabulary_known(local_keys, name);
}

proof fn lemma_copies_alike<E: Imported>(a: Seq<E::V>, b: Seq<E::V>, entry: E::V)
    requires
        a.len() == b.len(),
        forall|i: int|
            0 <= i < a.len() ==> E::with_fresh(#[trigger] a[i], false) == E::with_fresh(b[i], false),
    ensures
        copies::<E>(a, entry) == copies::<E>(b, entry),
    decreases a.len(),
{
    if a.len() > 0 {
        assert(a.last() == a[a.len() - 1]);
        lemma_copies_alike::<E>(a.drop_last(), b.drop_last(), entry);
    }
}

proof fn lemma_copies_grow<E: Imported>(list: Seq<E::V>, entry: E::V, n: int, m: int)
    requires
        0 <= n <= m <= list.len(),
    ensures
        copies::<E>(list.take(n), entry) <= copies::<E>(list.take(m), entry),
    decreases m - n,
{
    if n < m {
        lemma_copies_grow::<E>(list, entry, n, m - 1);
        assert(list.take(m).drop_last() =~= list.take(m - 1));
    }
}

proof fn lemma_copies_before<E: Imported>(list: Seq<E::V>, at: int)
    requires
        0 <= at < list.len(),
    ensures
        copies::<E>(list.take(at), list[at]) < copies::<E>(list, list[at]),
{
    assert(list.take(at + 1).drop_last() =~= list.take(at));
    assert(list.take(at + 1).last() == list[at]);
    lemma_copies_grow::<E>(list, list[at], at + 1, list.len() as int);
    assert(list.take(list.len() as int) =~= list);
}

/// Marked against its own marking, no entry of a list is fresh.
proof fn lemma_marked_twice<E: Imported>(list: Seq<E::V>, prior: Seq<E::V>)
    ensures
        marked::<E>(list, marked::<E>(list, prior)) == plain_list::<E>(marked::<E>(list, prior)),
{
    let once = marked::<E>(list, prior);
    let twice = marked::<E>(list, once);
    assert forall|i: int| 0 <= i < list.len() implies E::with_fresh(#[trigger] once[i], false)
        == E::with_fresh(list[i], false) by {
        E::laws(list[i], Seq::empty(), fresh_at::<E>(list, prior, i), false);
    }
    assert forall|at: int| 0 <= at < list.len() implies twice[at] == plain_list::<E>(once)[at] by {
        lemma_copies_alike::<E>(once, list, list[at]);
        lemma_copies_before::<E>(list, at);
    }
    assert(twice =~= plain_list::<E>(once));
}

proof fn lemma_audits_twice<E: Imported>(
    local: Seq<Seq<char>>,
    foreign: Seq<Seq<char>>,
    map: TableView<Seq<Seq<char>>>,
    fetched: TableView<Seq<E::V>>,
    prior: Option<TableView<Seq<E::V>>>,
)
    requires
        fetched.wf(),
    ensures
        reconciled_audits::<E>(
            local,
            foreign,
            map,
            fetched,
            Some(reconciled_audits::<E>(local, foreign, map, fetched, prior)),
        ) == plain_audits::<E>(reconciled_audits::<E>(local, foreign, map, fetched, prior)),
{
    let once = reconciled_audits::<E>(local, foreign, map, fetched, prior);
    let twice = reconciled_audits::<E>(local, foreign, map, fetched, Some(once));
    assert forall|i: int| 0 <= i < fetched.keys.len() implies #[trigger] twice.vals[i]
        == plain_audits::<E>(once).vals[i] by {
        lemma_index_of(fetched.keys, i);
        assert(prior_entries(Some(once), fetched.keys[i]) == once.vals[i]);
        lemma_marked_twice::<E>(
            localized_list::<E>(local, foreign, map, fetched.vals[i]),
            prior_entries(prior, fetched.keys[i]),
        );
    }
    assert(twice.vals =~= plain_audits::<E>(once).vals);
}

proof fn lemma_no_changes(import_name: Seq<char>, criteria: TableView<CriteriaEntryView>, n: int)
    requires
        criteria.wf(),
        0 <= n <= criteria.keys.len(),
    ensures
        description_changes(import_name, criteria, criteria.first(n)).len() == 0,
    decreases n,
{
    if n > 0 {
        let held = criteria.first(n);
        lemma_no_changes(import_name, criteria, n - 1);
        assert(held.first(held.keys.len() - 1).keys =~= criteria.first(n - 1).keys);
        assert(held.first(held.keys.len() - 1).vals =~= criteria.first(n - 1).vals);
        lemma_index_of(criteria.keys, n - 1);
    }
}

/// Reconciled against what was imported of it, a fetched file gives the
/// same import with no entry fresh, and no description has changed.
proof fn lemma_file_twice(
    local_keys: Seq<Seq<char>>,
    import_name: Seq<char>,
    fetched: AuditsFileView,
    config: ImportConfigView,
    prior: Option<AuditsFileView>,
)
    requires
        fetched.wf(),
    ensures
        reconciled_file(
            local_keys,
            fetched,
            config,
            Some(reconciled_file(local_keys, fetched, config, prior)),
        ) == plain_file(reconciled_file(local_keys, fetched, config, prior)),
        file_changes(
            import_name,
            fetched,
            config,
            Some(reconciled_file(local_keys, fetched, config, prior)),
        ).len() == 0,
{
    let local = vocabulary(local_keys);
    let foreign = vocabulary(fetched.criteria.keys);
    let kept = fetched.audits.select_map(not_excluded(config.exclude));
    let criteria = fetched.criteria.select_map(imported_criterion(config.criteria_map));
    fetched.audits.lemma_select_map(not_excluded(config.exclude));
    fetched.criteria.lemma_select_map(imported_criterion(config.criteria_map));
    lemma_audits_twice::<AuditEntry>(local, foreign, config.criteria_map, kept, prior_audits(prior));
    lemma_audits_twice::<WildcardEntry>(
        local,
        foreign,
        config.criteria_map,
        fetched.wildcard_audits,
        prior_wildcards(prior),
    );
    lemma_no_changes(import_name, criteria, criteria.keys.len() as int);
    assert(criteria.first(criteria.keys.len() as int).keys =~= criteria.keys);
    assert(criteria.first(criteria.keys.len() as int).vals =~= criteria.vals);
}

proof fn lemma_reconciled_wf(
    fetched: Seq<(Seq<char>, AuditsFileView)>,
    local_keys: Seq<Seq<char>>,
    imports: TableView<ImportConfigView>,
    lock: TableView<AuditsFileView>,
)
    ensures
        reconciled(fetched, local_keys, imports, lock).wf(),
    decreases fetched.len(),
{
    if fetched.len() > 0 {
        let (name, file) = fetched.last();
        lemma_reconciled_wf(fetched.drop_last(), local_keys, imports, lock);
        lemma_put(
            reconciled(fetched.drop_last(), local_keys, imports, lock),
            name,
            reconciled_file(local_keys, file, imports.at(name), lock.get(name)),
        );
    }
}

/// Where no peer is named twice, the new lock holds under the name of a
/// peer what was imported of that peer's file.
proof fn lemma_reconciled_get(
    fetched: Seq<(Seq<char>, AuditsFileView)>,
    local_keys: Seq<Seq<char>>,
    imports: TableView<ImportConfigView>,
    lock: TableView<AuditsFileView>,
    n: int,
)
    requires
        peers_distinct(fetched),
        0 <= n < fetched.len(),
    ensures
        reconciled(fetched, local_keys, imports, lock).get(fetched[n].0) == Some(
            reconciled_file(
                local_keys,
                fetched[n].1,
                imports.at(fetched[n].0),
                lock.get(fetched[n].0),
            ),
        ),
    decreases fetched.len(),
{
    let (name, file) = fetched.last();
    let rest = reconciled(fetched.drop_last(), local_keys, imports, lock);
    lemma_reconciled_wf(fetched.drop_last(), local_keys, imports, lock);
    lemma_put(rest, name, reconciled_file(local_keys, file, imports.at(name), lock.get(name)));
    if n < fetched.len() - 1 {
        assert(fetched.drop_last()[n] == fetched[n]);
        assert(peers_distinct(fetched.drop_last())) by {
            assert forall|i: int, j: int| 0 <= i < j < fetched.drop_last().len() implies (
            #[trigger] fetched.drop_last()[i]).0 != (#[trigger] fetched.drop_last()[j]).0 by {
                assert(fetched.drop_last()[i] == fetched[i]);
                assert(fetched.drop_last()[j] == fetched[j]);
            }
        }
        lemma_reconciled_get(fetched.drop_last(), local_keys, imports, lock, n);
        assert(fetched[n].0 != fetched[fetched.len() - 1].0);
    }
}

proof fn lemma_settled_put(t: TableView<AuditsFileView>, name: Seq<char>, file: AuditsFileView)
    requires
        t.keys.len() == t.vals.len(),
    ensures
        settled(t).put(name, plain_file(file)) == settled(t.put(name, file)),
{
    crate::table::lemma_slot_bounds(t, name);
    let a = settled(t).put(name, plain_file(file));
    let b = settled(t.put(name, file));
    assert(settled(t).slot(name) == t.slot(name)) by {
        lemma_slot_of_keys(settled(t), t, name);
    }
    assert(a.keys =~= b.keys);
    assert(a.vals =~= b.vals);
}

proof fn lemma_slot_of_keys<A, B>(a: TableView<A>, b: TableView<B>, key: Seq<char>)
    requires
        a.keys == b.keys,
    ensures
        a.slot(key) == b.slot(key),
    decreases a.keys.len(),
{
    if a.keys.len() > 0 {
        lemma_slot_of_keys(
            TableView { keys: a.keys.drop_last(), vals: a.vals.drop_last() },
            TableView { keys: b.keys.drop_last(), vals: b.vals.drop_last() },
            key,
        );
    }
}

proof fn lemma_second_run(
    fetched: Seq<(Seq<char>, AuditsFileView)>,
    local_keys: Seq<Seq<char>>,
    imports: TableView<ImportConfigView>,
    lock: TableView<AuditsFileView>,
    n: int,
)
    requires
        fetched_wf(fetched),
        peers_distinct(fetched),
        0 <= n <= fetched.len(),
    ensures
        criteria_changes(
            fetched.take(n),
            imports,
            reconciled(fetched, local_keys, imports, lock),
        ).len() == 0,
        reconciled(
            fetched.take(n),
            local_keys,
            imports,
            reconciled(fetched, local_keys, imports, lock),
        ) == settled(reconciled(fetched.take(n), local_keys, imports, lock)),
    decreases n,
{
    let first = reconciled(fetched, local_keys, imports, lock);
    if n == 0 {
        assert(settled(TableView::<AuditsFileView>::empty()).keys =~= Seq::empty());
        assert(settled(TableView::<AuditsFileView>::empty()).vals =~= Seq::empty());
    } else {
        lemma_second_run(fetched, local_keys, imports, lock, n - 1);
        assert(fetched.take(n).drop_last() =~= fetched.take(n - 1));
        assert(fetched.take(n).last() == fetched[n - 1]);
        let (name, file) = fetched[n - 1];
        assert(fetched[n - 1].1.wf());
        lemma_reconciled_get(fetched, local_keys, imports, lock, n - 1);
        let once = reconciled_file(local_keys, file, imports.at(name), lock.get(name));
        assert(first.get(name) == Some(once));
        lemma_file_twice(local_keys, name, file, imports.at(name), lock.get(name));
        let before = reconciled(fetched.take(n - 1), local_keys, imports, lock);
        lemma_values_are_imports(fetched.take(n - 1), local_keys, imports, lock);
        lemma_settled_put(before, name, once);
    }
}

/// Reconciliation is idempotent. Let the first run make a lock from a fetch
/// that names no peer twice. A second run on the same fetch, against that
/// lock, finds no changed description, and makes the lock of the first run
/// with every freshness flag put down: the same entries, none of them fresh.
pub proof fn law_reconciliation_is_idempotent(
    fetched: Seq<(Seq<char>, AuditsFileView)>,
    local_keys: Seq<Seq<char>>,
    imports: TableView<ImportConfigView>,
    lock: TableView<AuditsFileView>,
)
    requires
        fetched_wf(fetched),
        peers_distinct(fetched),
    ensures
        criteria_changes(
            fetched,
            imports,
            reconciled(fetched, local_keys, imports, lock),
        ).len() == 0,
        reconciled(fetched, local_keys, imports, reconciled(fetched, local_keys, imports, lock))
            == settled(reconciled(fetched, local_keys, imports, lock)),
{
    lemma_second_run(fetched, local_keys, imports, lock, fetched.len() as int);
    assert(fetched.take(fetched.len() as int) =~= fetched);
}

} // verus!
