//! Reading what a peer publishes, entry by entry.
//!
//! A peer may run a later version of the tool and publish entries that this
//! version cannot read. So the file of a peer is read leniently: an entry
//! that could not be read is left out and reported, and names of criteria
//! that the peer's file does not define are taken off the lists, which
//! leaves out an audit whose list becomes empty.

use vstd::prelude::*;
use crate::criteria::{is_known, SAFE_TO_DEPLOY, SAFE_TO_RUN};
use crate::entry::Imported;
use crate::format::{
    AuditEntry, AuditsFile, AuditsFileView, CriteriaEntry, CriteriaEntryView, WildcardEntry,
};
use crate::model::Duplicate;
use crate::table::{Table, TableView};
use crate::text::{list_has, same_text};

verus! {

/// The file of a peer after each entry was read on its own: `None` stands
/// for an entry that could not be read.
#[derive(Clone, Debug, PartialEq, Eq)]
pub struct ForeignAuditsFile {
    pub criteria: Table<Option<CriteriaEntry>>,
    pub wildcard_audits: Table<Vec<Option<WildcardEntry>>>,
    pub audits: Table<Vec<Option<AuditEntry>>>,
}

pub struct ForeignAuditsFileView {
    pub criteria: TableView<Option<CriteriaEntryView>>,
    pub wildcard_audits: TableView<Seq<Option<crate::format::WildcardEntryView>>>,
    pub audits: TableView<Seq<Option<crate::format::AuditEntryView>>>,
}

impl DeepView for ForeignAuditsFile {
    type V = ForeignAuditsFileView;

    open spec fn deep_view(&self) -> ForeignAuditsFileView {
        ForeignAuditsFileView {
            criteria: self.criteria.deep_view(),
            wildcard_audits: self.wildcard_audits.deep_view(),
            audits: self.audits.deep_view(),
        }
    }
}

impl ForeignAuditsFile {
    pub open spec fn wf(&self) -> bool {
        &&& self.criteria.wf()
        &&& self.wildcard_audits.wf()
        &&& self.audits.wf()
    }
}

/// What was taken from the file of a peer, and what was left out.
#[derive(Clone, Debug, PartialEq, Eq)]
pub struct ForeignAuditFileToLocalResult {
    pub audit_file: AuditsFile,
    /// The names of the criteria that could not be read.
    pub ignored_criteria: Vec<String>,
    /// For each audit that was left out, the name of its package.
    pub ignored_audits: Vec<String>,
}

/// The test for a name that is reserved or among `valid`.
pub open spec fn known(valid: Seq<Seq<char>>) -> spec_fn(Seq<char>) -> bool {
    |name: Seq<char>| is_known(valid, name)
}

/// Keeps the criteria that could be read.
pub open spec fn readable() -> spec_fn(Seq<char>, Option<CriteriaEntryView>) -> Option<
    CriteriaEntryView,
> {
    |name: Seq<char>, entry: Option<CriteriaEntryView>| entry
}

/// Marks the criteria that could not be read.
pub open spec fn unreadable() -> spec_fn(Seq<char>, Option<CriteriaEntryView>) -> Option<bool> {
    |name: Seq<char>, entry: Option<CriteriaEntryView>|
        if entry is None {
            Some(true)
        } else {
            None
        }
}

/// Keeps the criteria that could be read, each implying only known names.
pub open spec fn read_criterion(valid: Seq<Seq<char>>) -> spec_fn(
    Seq<char>,
    Option<CriteriaEntryView>,
) -> Option<CriteriaEntryView> {
    |name: Seq<char>, entry: Option<CriteriaEntryView>|
        match entry {
            Some(e) => Some(CriteriaEntryView { implies: e.implies.filter(known(valid)), ..e }),
            None => None,
        }
}

/// An entry as it is taken: with the known names of its criteria, if it
/// could be read and names a known criterion.
pub open spec fn taken<E: Imported>(valid: Seq<Seq<char>>) -> spec_fn(Option<E::V>) -> Option<E::V> {
    |entry: Option<E::V>|
        match entry {
            Some(e) => if E::criteria_of(e).filter(known(valid)).len() == 0 {
                None
            } else {
                Some(E::with_criteria(e, E::criteria_of(e).filter(known(valid))))
            },
            None => None,
        }
}

/// Keeps the packages of which an entry is taken, each with the entries
/// taken.
pub open spec fn taken_of_package<E: Imported>(valid: Seq<Seq<char>>) -> spec_fn(
    Seq<char>,
    Seq<Option<E::V>>,
) -> Option<Seq<E::V>> {
    |package: Seq<char>, entries: Seq<Option<E::V>>|
        if entries.filter_map(taken::<E>(valid)).len() == 0 {
            None
        } else {
            Some(entries.filter_map(taken::<E>(valid)))
        }
}

/// The name of the package, once for each of its entries that is left out.
pub open spec fn left_out_of_package<E: Imported>(
    valid: Seq<Seq<char>>,
    package: Seq<char>,
    entries: Seq<Option<E::V>>,
) -> Seq<Seq<char>>
    decreases entries.len(),
{
    if entries.len() == 0 {
        Seq::empty()
    } else if taken::<E>(valid)(entries.last()) is None {
        left_out_of_package::<E>(valid, package, entries.drop_last()).push(package)
    } else {
        left_out_of_package::<E>(valid, package, entries.drop_last())
    }
}

/// For each entry of the table that is left out, the name of its package,
/// in the order of the table.
pub open spec fn left_out<E: Imported>(
    valid: Seq<Seq<char>>,
    entries: TableView<Seq<Option<E::V>>>,
) -> Seq<Seq<char>>
    decreases entries.keys.len(),
{
    if entries.keys.len() == 0 || entries.vals.len() != entries.keys.len() {
        Seq::empty()
    } else {
        left_out::<E>(valid, entries.first(entries.keys.len() - 1)) + left_out_of_package::<E>(
            valid,
            entries.keys.last(),
            entries.vals.last(),
        )
    }
}

/// The names of the criteria of a peer's file that could be read.
pub open spec fn foreign_valid(file: ForeignAuditsFileView) -> Seq<Seq<char>> {
    file.criteria.select_map(readable()).keys
}

/// What is taken from the file of a peer.
pub open spec fn foreign_to_local(file: ForeignAuditsFileView) -> AuditsFileView {
    let valid = foreign_valid(file);
    AuditsFileView {
        criteria: file.criteria.select_map(read_criterion(valid)),
        wildcard_audits: file.wildcard_audits.select_map(taken_of_package::<WildcardEntry>(valid)),
        audits: file.audits.select_map(taken_of_package::<AuditEntry>(valid)),
    }
}

/// Whether a name is reserved or among the valid names.
pub fn is_known_criteria(valid_criteria: &Vec<String>, criteria_name: &str) -> (r: bool)
    ensures
        r == is_known(valid_criteria.deep_view(), criteria_name@),
{
    same_text(criteria_name, SAFE_TO_RUN) || same_text(criteria_name, SAFE_TO_DEPLOY) || list_has(
        valid_criteria,
        criteria_name,
    )
}

/// The known names of a list, in their order.
pub fn retain_known(valid_criteria: &Vec<String>, list: &Vec<String>) -> (r: Vec<String>)
    ensures
        r.deep_view() == list.deep_view().filter(known(valid_criteria.deep_view())),
{
    let ghost all = list.deep_view();
    let ghost keep = known(valid_criteria.deep_view());
    let mut out: Vec<String> = Vec::new();
    assert(out.deep_view() =~= all.take(0).filter(keep)) by {
        reveal(Seq::filter);
    }
    let mut i: usize = 0;
    while i < list.len()
        invariant
            all == list.deep_view(),
            keep == known(valid_criteria.deep_view()),
            i <= list.len(),
            out.deep_view() == all.take(i as int).filter(keep),
        decreases list.len() - i,
    {
        proof {
            assert(all.take(i + 1).drop_last() =~= all.take(i as int));
            assert(all.take(i + 1).last() == all[i as int]);
            reveal(Seq::filter);
        }
        if is_known_criteria(valid_criteria, list[i].as_str()) {
            let ghost so_far = out.deep_view();
            out.push(list[i].clone());
            assert(out.deep_view() =~= so_far.push(all[i as int]));
        }
        i = i + 1;
    }
    assert(all.take(all.len() as int) =~= all);
    out
}

/// Takes an entry of a peer's file: `None` if it could not be read or
/// names no known criterion.
pub fn parse_imported<E: Imported>(valid_criteria: &Vec<String>, value: &Option<E>) -> (r: Option<E>)
    ensures
        r.deep_view() == taken::<E>(valid_criteria.deep_view())(value.deep_view()),
{
    match value {
        Some(entry) => {
            let criteria = retain_known(valid_criteria, entry.criteria());
            if criteria.len() == 0 {
                None
            } else {
                Some(entry.duplicate().replace_criteria(criteria))
            }
        },
        None => None,
    }
}

/// Takes an audit of a peer's file: `None` if it could not be read or
/// names no known criterion.
pub fn parse_imported_audit(valid_criteria: &Vec<String>, value: &Option<AuditEntry>) -> (r: Option<
    AuditEntry,
>)
    ensures
        r.deep_view() == taken::<AuditEntry>(valid_criteria.deep_view())(value.deep_view()),
{
    parse_imported(valid_criteria, value)
}

/// Takes a wildcard audit of a peer's file: `None` if it could not be read
/// or names no known criterion.
pub fn parse_imported_wildcard_audit(
    valid_criteria: &Vec<String>,
    value: &Option<WildcardEntry>,
) -> (r: Option<WildcardEntry>)
    ensures
        r.deep_view() == taken::<WildcardEntry>(valid_criteria.deep_view())(value.deep_view()),
{
    parse_imported(valid_criteria, value)
}

/// Takes the entries of a table, and adds to `ignored` the package of each
/// entry that is left out.
pub fn take_entries<E: Imported>(
    valid_criteria: &Vec<String>,
    entries: &Table<Vec<Option<E>>>,
    ignored: &mut Vec<String>,
) -> (r: Table<Vec<E>>)
    requires
        entries.wf(),
    ensures
        r.wf(),
        r.deep_view() == entries.deep_view().select_map(
            taken_of_package::<E>(valid_criteria.deep_view()),
        ),
        final(ignored).deep_view() == old(ignored).deep_view() + left_out::<E>(
            valid_criteria.deep_view(),
            entries.deep_view(),
        ),
{
    let ghost valid = valid_criteria.deep_view();
    let ghost all = entries.deep_view();
    let ghost keep = taken_of_package::<E>(valid);
    let ghost each = taken::<E>(valid);
    let ghost start = ignored.deep_view();
    let mut out: Table<Vec<E>> = Table { keys: Vec::new(), vals: Vec::new() };
    assert(out.deep_view().keys =~= all.first(0).select_map(keep).keys);
    assert(out.deep_view().vals =~= all.first(0).select_map(keep).vals);
    assert(ignored.deep_view() =~= start + left_out::<E>(valid, all.first(0)));
    let mut i: usize = 0;
    while i < entries.len()
        invariant
            entries.wf(),
            valid == valid_criteria.deep_view(),
            all == entries.deep_view(),
            keep == taken_of_package::<E>(valid),
            each == taken::<E>(valid),
            i <= all.len(),
            out.deep_view() == all.first(i as int).select_map(keep),
            ignored.deep_view() == start + left_out::<E>(valid, all.first(i as int)),
        decreases all.len() - i,
    {
        let package = entries.key_at(i);
        let raws = entries.value_at(i);
        let ghost list = raws.deep_view();
        let ghost before = ignored.deep_view();
        let mut parsed: Vec<E> = Vec::new();
        assert(parsed.deep_view() =~= list.take(0).filter_map(each));
        assert(ignored.deep_view() =~= before + left_out_of_package::<E>(
            valid,
            package@,
            list.take(0),
        ));
        let mut j: usize = 0;
        while j < raws.len()
            invariant
                valid == valid_criteria.deep_view(),
                each == taken::<E>(valid),
                list == raws.deep_view(),
                j <= raws.len(),
                parsed.deep_view() == list.take(j as int).filter_map(each),
                ignored.deep_view() == before + left_out_of_package::<E>(
                    valid,
                    package@,
                    list.take(j as int),
                ),
            decreases raws.len() - j,
        {
            proof {
                assert(list.take(j + 1).drop_last() =~= list.take(j as int));
                assert(list.take(j + 1).last() == list[j as int]);
            }
            match parse_imported(valid_criteria, &raws[j]) {
                Some(entry) => {
                    let ghost so_far = parsed.deep_view();
                    let ghost made = entry.deep_view();
                    parsed.push(entry);
                    assert(parsed.deep_view() =~= so_far + seq![made]);
                },
                None => {
                    let ghost so_far = ignored.deep_view();
                    ignored.push(package.clone());
                    assert(ignored.deep_view() =~= so_far.push(package@));
                    assert(ignored.deep_view() =~= before + left_out_of_package::<E>(
                        valid,
                        package@,
                        list.take(j + 1),
                    ));
                },
            }
            j = j + 1;
        }
        proof {
            assert(list.take(list.len() as int) =~= list);
            all.lemma_select_map_step(keep, i as int);
            let longer = all.first(i + 1);
            assert(longer.first(longer.keys.len() - 1).keys =~= all.first(i as int).keys);
            assert(longer.first(longer.keys.len() - 1).vals =~= all.first(i as int).vals);
            assert(ignored.deep_view() =~= start + left_out::<E>(valid, all.first(i + 1)));
        }
        if parsed.len() > 0 {
            let ghost so_far = out.deep_view();
            let ghost made = parsed.deep_view();
            out.keys.push(package.clone());
            out.vals.push(parsed);
            assert(out.deep_view().keys =~= so_far.keys.push(all.keys[i as int]));
            assert(out.deep_view().vals =~= so_far.vals.push(made));
        }
        i = i + 1;
    }
    proof {
        assert(all.first(all.len() as int).keys =~= all.keys);
        assert(all.first(all.len() as int).vals =~= all.vals);
        all.lemma_select_map(keep);
    }
    out
}

/// Takes what can be read of the file of a peer.
///
/// The criteria that could be read are kept, each implying only names that
/// are reserved or among them. Of the audits and the wildcard audits, those
/// are kept that could be read and name such a criterion, with those names
/// alone; a package of which nothing is kept is left out.
pub fn foreign_audit_file_to_local(foreign_audit_file: &ForeignAuditsFile) -> (r:
    ForeignAuditFileToLocalResult)
    requires
        foreign_audit_file.wf(),
    ensures
        r.audit_file.wf(),
        r.audit_file.deep_view() == foreign_to_local(foreign_audit_file.deep_view()),
        r.ignored_criteria.deep_view() == foreign_audit_file.deep_view().criteria.select_map(
            unreadable(),
        ).keys,
        r.ignored_audits.deep_view() == left_out::<AuditEntry>(
            foreign_valid(foreign_audit_file.deep_view()),
            foreign_audit_file.deep_view().audits,
        ) + left_out::<WildcardEntry>(
            foreign_valid(foreign_audit_file.deep_view()),
            foreign_audit_file.deep_view().wildcard_audits,
        ),
{
    let ghost all = foreign_audit_file.deep_view().criteria;
    let mut valid_criteria: Vec<String> = Vec::new();
    let mut ignored_criteria: Vec<String> = Vec::new();
    assert(valid_criteria.deep_view() =~= all.first(0).select_map(readable()).keys);
    assert(ignored_criteria.deep_view() =~= all.first(0).select_map(unreadable()).keys);
    let mut i: usize = 0;
    while i < foreign_audit_file.criteria.len()
        invariant
            foreign_audit_file.wf(),
            all == foreign_audit_file.deep_view().criteria,
            i <= all.len(),
            valid_criteria.deep_view() == all.first(i as int).select_map(readable()).keys,
            ignored_criteria.deep_view() == all.first(i as int).select_map(unreadable()).keys,
        decreases all.len() - i,
    {
        proof {
            all.lemma_select_map_step(readable(), i as int);
            all.lemma_select_map_step(unreadable(), i as int);
        }
        let name = foreign_audit_file.criteria.key_at(i);
        if foreign_audit_file.criteria.value_at(i).is_some() {
            let ghost so_far = valid_criteria.deep_view();
            valid_criteria.push(name.clone());
            assert(valid_criteria.deep_view() =~= so_far.push(name@));
        } else {
            let ghost so_far = ignored_criteria.deep_view();
            ignored_criteria.push(name.clone());
            assert(ignored_criteria.deep_view() =~= so_far.push(name@));
        }
        i = i + 1;
    }
    proof {
        assert(all.first(all.len() as int).keys =~= all.keys);
        assert(all.first(all.len() as int).vals =~= all.vals);
    }
    let ghost valid = valid_criteria.deep_view();
    let ghost keep = read_criterion(valid);
    let mut criteria: Table<CriteriaEntry> = Table { keys: Vec::new(), vals: Vec::new() };
    assert(criteria.deep_view().keys =~= all.first(0).select_map(keep).keys);
    assert(criteria.deep_view().vals =~= all.first(0).select_map(keep).vals);
    let mut i: usize = 0;
    while i < foreign_audit_file.criteria.len()
        invariant
            foreign_audit_file.wf(),
            all == foreign_audit_file.deep_view().criteria,
            valid == valid_criteria.deep_view(),
            keep == read_criterion(valid),
            i <= all.len(),
            criteria.deep_view() == all.first(i as int).select_map(keep),
        decreases all.len() - i,
    {
        proof {
            all.lemma_select_map_step(keep, i as int);
        }
        let name = foreign_audit_file.criteria.key_at(i);
        match foreign_audit_file.criteria.value_at(i) {
            Some(entry) => {
                let ghost so_far = criteria.deep_view();
                let read = CriteriaEntry {
                    description: entry.description.duplicate(),
                    description_url: entry.description_url.duplicate(),
                    implies: retain_known(&valid_criteria, &entry.implies),
                };
                let ghost made = read.deep_view();
                criteria.keys.push(name.clone());
                criteria.vals.push(read);
                assert(criteria.deep_view().keys =~= so_far.keys.push(all.keys[i as int]));
                assert(criteria.deep_view().vals =~= so_far.vals.push(made));
            },
            None => {},
        }
        i = i + 1;
    }
    proof {
        assert(all.first(all.len() as int).keys =~= all.keys);
        assert(all.first(all.len() as int).vals =~= all.vals);
        all.lemma_select_map(keep);
    }
    let mut ignored_audits: Vec<String> = Vec::new();
    assert(ignored_audits.deep_view() =~= Seq::empty());
    let audits = take_entries(&valid_criteria, &foreign_audit_file.audits, &mut ignored_audits);
    let wildcard_audits = take_entries(
        &valid_criteria,
        &foreign_audit_file.wildcard_audits,
        &mut ignored_audits,
    );
    assert(ignored_audits.deep_view() =~= left_out::<AuditEntry>(
        valid,
        foreign_audit_file.deep_view().audits,
    ) + left_out::<WildcardEntry>(valid, foreign_audit_file.deep_view().wildcard_audits));
    ForeignAuditFileToLocalResult {
        audit_file: AuditsFile { criteria, wildcard_audits, audits },
        ignored_criteria,
        ignored_audits,
    }
}

} // verus!
