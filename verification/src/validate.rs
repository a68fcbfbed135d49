//! The faults that validation finds in a store, and how they are gathered.
//!
//! Validation does not stop at the first fault. It walks the documents in a
//! fixed order and reports every fault it meets, in that order.

use vstd::prelude::*;
use vstd::string::StringExecFns;
use crate::codec::{StoreTomlError, AUDITS_TOML, CONFIG_TOML};
use crate::criteria::{safe_to_deploy, safe_to_run, SAFE_TO_DEPLOY, SAFE_TO_RUN};
use crate::date::{date_lt, Date};
use crate::diff::{unified_diff, unified_diff_text, FORMAT_CONTEXT};
use crate::format::{
    AuditEntry, AuditEntryView, AuditsFile, AuditsFileView, ConfigFile, ConfigFileView,
    CriteriaEntry, CriteriaEntryView, ExemptedDependency, ExemptedDependencyView, PolicyEntry,
    PolicyEntryView, WildcardEntry, WildcardEntryView,
};
use crate::model::Duplicate;
use crate::table::Table;
use crate::text::list_has;

verus! {

/// One fault of a store.
#[derive(Clone, Debug, PartialEq, Eq)]
pub enum StoreValidateError {
    /// A document names a criterion that is neither reserved nor defined.
    InvalidCriteria { document: String, invalid: String, valid_names: Vec<String> },
    /// A wildcard audit ends later than the latest day allowed.
    BadWildcardEndDate { date: Date, max: Date },
    /// A document is not in the form in which it would be written.
    BadFormat { unified_diff: String },
    /// The imports lock does not match the imports of the config.
    ImportsLockOutdated,
}

pub enum StoreValidateErrorView {
    InvalidCriteria { document: Seq<char>, invalid: Seq<char>, valid_names: Seq<Seq<char>> },
    BadWildcardEndDate { date: Date, max: Date },
    BadFormat { unified_diff: Seq<char> },
    ImportsLockOutdated,
}

impl DeepView for StoreValidateError {
    type V = StoreValidateErrorView;

    open spec fn deep_view(&self) -> StoreValidateErrorView {
        match self {
            StoreValidateError::InvalidCriteria {
                document,
                invalid,
                valid_names,
            } => StoreValidateErrorView::InvalidCriteria {
                document: document@,
                invalid: invalid@,
                valid_names: valid_names.deep_view(),
            },
            StoreValidateError::BadWildcardEndDate {
                date,
                max,
            } => StoreValidateErrorView::BadWildcardEndDate { date: *date, max: *max },
            StoreValidateError::BadFormat { unified_diff } => StoreValidateErrorView::BadFormat {
                unified_diff: unified_diff@,
            },
            StoreValidateError::ImportsLockOutdated => StoreValidateErrorView::ImportsLockOutdated,
        }
    }
}

/// All the faults that one validation found.
#[derive(Clone, Debug, PartialEq, Eq)]
pub struct StoreValidateErrors {
    pub errors: Vec<StoreValidateError>,
}

pub open spec fn config_name() -> Seq<char> {
    "config.toml"@
}

pub open spec fn audits_name() -> Seq<char> {
    "audits.toml"@
}

/// The criteria that the documents may name: those that the audits file
/// defines, then the two reserved names.
pub open spec fn valid_names(keys: Seq<Seq<char>>) -> Seq<Seq<char>> {
    keys + seq![safe_to_run(), safe_to_deploy()]
}

pub open spec fn invalid_criteria(
    document: Seq<char>,
    valid: Seq<Seq<char>>,
    name: Seq<char>,
) -> StoreValidateErrorView {
    StoreValidateErrorView::InvalidCriteria { document, invalid: name, valid_names: valid }
}

/// A fault for each name of `criteria` that is not valid, in the order of
/// the list.
pub open spec fn invalid_in(
    document: Seq<char>,
    valid: Seq<Seq<char>>,
    criteria: Seq<Seq<char>>,
) -> Seq<StoreValidateErrorView>
    decreases criteria.len(),
{
    if criteria.len() == 0 {
        Seq::empty()
    } else if valid.contains(criteria.last()) {
        invalid_in(document, valid, criteria.drop_last())
    } else {
        invalid_in(document, valid, criteria.drop_last()).push(
            invalid_criteria(document, valid, criteria.last()),
        )
    }
}

/// The faults of all items, in the order of the items.
pub open spec fn gather<A>(
    items: Seq<A>,
    faults: spec_fn(A) -> Seq<StoreValidateErrorView>,
) -> Seq<StoreValidateErrorView>
    decreases items.len(),
{
    if items.len() == 0 {
        Seq::empty()
    } else {
        gather(items.drop_last(), faults) + faults(items.last())
    }
}

pub proof fn lemma_gather_step<A>(
    items: Seq<A>,
    faults: spec_fn(A) -> Seq<StoreValidateErrorView>,
    n: int,
)
    requires
        0 <= n < items.len(),
    ensures
        gather(items.take(n + 1), faults) == gather(items.take(n), faults) + faults(items[n]),
{
    assert(items.take(n + 1).drop_last() =~= items.take(n));
}

pub open spec fn listed(list: Option<Seq<Seq<char>>>) -> Seq<Seq<char>> {
    match list {
        Some(l) => l,
        None => Seq::empty(),
    }
}

pub open spec fn exemption_faults(valid: Seq<Seq<char>>) -> spec_fn(ExemptedDependencyView) -> Seq<
    StoreValidateErrorView,
> {
    |e: ExemptedDependencyView| invalid_in(config_name(), valid, e.criteria)
}

pub open spec fn exemptions_faults(valid: Seq<Seq<char>>) -> spec_fn(
    Seq<ExemptedDependencyView>,
) -> Seq<StoreValidateErrorView> {
    |list: Seq<ExemptedDependencyView>| gather(list, exemption_faults(valid))
}

pub open spec fn dependency_faults(valid: Seq<Seq<char>>) -> spec_fn(Seq<Seq<char>>) -> Seq<
    StoreValidateErrorView,
> {
    |criteria: Seq<Seq<char>>| invalid_in(config_name(), valid, criteria)
}

/// The faults of one policy rule: of its criteria, of its criteria for
/// development, then of its criteria for each dependency.
pub open spec fn policy_faults(valid: Seq<Seq<char>>) -> spec_fn(PolicyEntryView) -> Seq<
    StoreValidateErrorView,
> {
    |p: PolicyEntryView|
        invalid_in(config_name(), valid, listed(p.criteria)) + invalid_in(
            config_name(),
            valid,
            listed(p.dev_criteria),
        ) + gather(p.dependency_criteria.vals, dependency_faults(valid))
}

pub open spec fn implies_faults(valid: Seq<Seq<char>>) -> spec_fn(CriteriaEntryView) -> Seq<
    StoreValidateErrorView,
> {
    |c: CriteriaEntryView| invalid_in(audits_name(), valid, c.implies)
}

pub open spec fn audit_faults(valid: Seq<Seq<char>>) -> spec_fn(AuditEntryView) -> Seq<
    StoreValidateErrorView,
> {
    |e: AuditEntryView| invalid_in(audits_name(), valid, e.criteria)
}

pub open spec fn audits_faults(valid: Seq<Seq<char>>) -> spec_fn(Seq<AuditEntryView>) -> Seq<
    StoreValidateErrorView,
> {
    |list: Seq<AuditEntryView>| gather(list, audit_faults(valid))
}

/// The faults of one wildcard audit: of its criteria, then of its end if
/// that is later than `max`.
pub open spec fn wildcard_faults(valid: Seq<Seq<char>>, max: Date) -> spec_fn(
    WildcardEntryView,
) -> Seq<StoreValidateErrorView> {
    |e: WildcardEntryView|
        invalid_in(audits_name(), valid, e.criteria) + if date_lt(max, e.end) {
            seq![StoreValidateErrorView::BadWildcardEndDate { date: e.end, max }]
        } else {
            Seq::empty()
        }
}

pub open spec fn wildcards_faults(valid: Seq<Seq<char>>, max: Date) -> spec_fn(
    Seq<WildcardEntryView>,
) -> Seq<StoreValidateErrorView> {
    |list: Seq<WildcardEntryView>| gather(list, wildcard_faults(valid, max))
}

/// The faults in what the config and the audits file hold: unknown
/// criteria in the exemptions, the policy, the implied criteria, the audits
/// and the wildcard audits, and wildcard audits that end after `max`.
pub open spec fn content_faults(
    config: ConfigFileView,
    audits: AuditsFileView,
    max: Date,
) -> Seq<StoreValidateErrorView> {
    let valid = valid_names(audits.criteria.keys);
    gather(config.exemptions.vals, exemptions_faults(valid)) + gather(
        config.policy.vals,
        policy_faults(valid),
    ) + gather(audits.criteria.vals, implies_faults(valid)) + gather(
        audits.audits.vals,
        audits_faults(valid),
    ) + gather(audits.wildcard_audits.vals, wildcards_faults(valid, max))
}

/// The text of a string with the white space at its end taken off, as
/// `str::trim_end` gives it.
pub uninterp spec fn trim_end_of(text: Seq<char>) -> Seq<char>;

pub open spec fn old_label(name: Seq<char>) -> Seq<char> {
    "old/"@ + name
}

pub open spec fn new_label(name: Seq<char>) -> Seq<char> {
    "new/"@ + name
}

/// The fault of a document with the source `source`, for which `text`
/// would be written: none where the two are the same once the white space
/// at their ends is taken off, which gives `source_end` and `text_end`;
/// else the diff from the source to the text.
pub open spec fn fault_of_texts(
    name: Seq<char>,
    source: Seq<char>,
    text: Seq<char>,
    source_end: Seq<char>,
    text_end: Seq<char>,
) -> Seq<StoreValidateErrorView> {
    if source_end != text_end {
        seq![
            StoreValidateErrorView::BadFormat {
                unified_diff: unified_diff_text(
                    source,
                    text,
                    FORMAT_CONTEXT,
                    Some((old_label(name), new_label(name))),
                ),
            },
        ]
    } else {
        Seq::empty()
    }
}

/// The fault of a document whose source is not the text that would be
/// written, white space at the end not counted. A document that cannot be
/// written has no such fault.
pub open spec fn format_faults(
    name: Seq<char>,
    source: Seq<char>,
    written: Result<String, StoreTomlError>,
) -> Seq<StoreValidateErrorView> {
    match written {
        Ok(text) => fault_of_texts(name, source, text@, trim_end_of(source), trim_end_of(text@)),
        Err(_) => Seq::empty(),
    }
}

/// Where a list has no fault, all its names are valid.
pub proof fn lemma_no_invalid(
    document: Seq<char>,
    valid: Seq<Seq<char>>,
    criteria: Seq<Seq<char>>,
    at: int,
)
    requires
        invalid_in(document, valid, criteria).len() == 0,
        0 <= at < criteria.len(),
    ensures
        valid.contains(criteria[at]),
    decreases criteria.len(),
{
    if at < criteria.len() - 1 {
        assert(criteria.drop_last()[at] == criteria[at]);
        lemma_no_invalid(document, valid, criteria.drop_last(), at);
    }
}

/// Where the items together have no fault, no item has one.
pub proof fn lemma_gather_empty<A>(
    items: Seq<A>,
    faults: spec_fn(A) -> Seq<StoreValidateErrorView>,
    at: int,
)
    requires
        gather(items, faults).len() == 0,
        0 <= at < items.len(),
    ensures
        faults(items[at]).len() == 0,
    decreases items.len(),
{
    if at < items.len() - 1 {
        assert(items.drop_last()[at] == items[at]);
        lemma_gather_empty(items.drop_last(), faults, at);
    }
}

/// In documents without a fault, every audit names only criteria that the
/// audits file defines or that are reserved, and so does every wildcard
/// audit, which also ends no later than `max`. `package` and `at` pick any
/// audit and `name` any of its criteria; `wild_package` and `wild_at` pick
/// any wildcard audit and `wild_name` any of its criteria.
pub proof fn law_valid_documents_name_known_criteria(
    config: ConfigFileView,
    audits: AuditsFileView,
    max: Date,
    package: int,
    at: int,
    name: int,
    wild_package: int,
    wild_at: int,
    wild_name: int,
)
    requires
        content_faults(config, audits, max).len() == 0,
        0 <= package < audits.audits.vals.len(),
        0 <= at < audits.audits.vals[package].len(),
        0 <= name < audits.audits.vals[package][at].criteria.len(),
        0 <= wild_package < audits.wildcard_audits.vals.len(),
        0 <= wild_at < audits.wildcard_audits.vals[wild_package].len(),
        0 <= wild_name < audits.wildcard_audits.vals[wild_package][wild_at].criteria.len(),
    ensures
        valid_names(audits.criteria.keys).contains(audits.audits.vals[package][at].criteria[name]),
        valid_names(audits.criteria.keys).contains(
            audits.wildcard_audits.vals[wild_package][wild_at].criteria[wild_name],
        ),
        !date_lt(max, audits.wildcard_audits.vals[wild_package][wild_at].end),
{
    let valid = valid_names(audits.criteria.keys);
    lemma_gather_empty(audits.audits.vals, audits_faults(valid), package);
    lemma_gather_empty(audits.audits.vals[package], audit_faults(valid), at);
    lemma_no_invalid(audits_name(), valid, audits.audits.vals[package][at].criteria, name);
    lemma_gather_empty(audits.wildcard_audits.vals, wildcards_faults(valid, max), wild_package);
    lemma_gather_empty(
        audits.wildcard_audits.vals[wild_package],
        wildcard_faults(valid, max),
        wild_at,
    );
    let entry = audits.wildcard_audits.vals[wild_package][wild_at];
    lemma_no_invalid(audits_name(), valid, entry.criteria, wild_name);
}

/// The names that the documents may use.
pub fn valid_criteria(audits: &AuditsFile) -> (r: Vec<String>)
    requires
        audits.wf(),
    ensures
        r.deep_view() == valid_names(audits.deep_view().criteria.keys),
{
    let mut names = audits.criteria.keys.duplicate();
    let ghost keys = names.deep_view();
    names.push(SAFE_TO_RUN.to_owned());
    names.push(SAFE_TO_DEPLOY.to_owned());
    assert(names.deep_view() =~= keys + seq![safe_to_run(), safe_to_deploy()]);
    names
}

/// Adds a fault for each name of `criteria` that is not valid.
pub fn check_criteria(
    document: &str,
    valid: &Vec<String>,
    errors: &mut Vec<StoreValidateError>,
    criteria: &Vec<String>,
)
    ensures
        final(errors).deep_view() == old(errors).deep_view() + invalid_in(
            document@,
            valid.deep_view(),
            criteria.deep_view(),
        ),
{
    let ghost start = errors.deep_view();
    let ghost all = criteria.deep_view();
    assert(errors.deep_view() =~= start + invalid_in(document@, valid.deep_view(), all.take(0)));
    let mut i: usize = 0;
    while i < criteria.len()
        invariant
            all == criteria.deep_view(),
            i <= criteria.len(),
            errors.deep_view() == start + invalid_in(
                document@,
                valid.deep_view(),
                all.take(i as int),
            ),
        decreases criteria.len() - i,
    {
        assert(all.take(i + 1).drop_last() =~= all.take(i as int));
        assert(all.take(i + 1).last() == criteria[i as int]@);
        if !list_has(valid, criteria[i].as_str()) {
            let ghost so_far = errors.deep_view();
            let fault = StoreValidateError::InvalidCriteria {
                document: document.to_owned(),
                invalid: criteria[i].clone(),
                valid_names: valid.duplicate(),
            };
            let ghost made = fault.deep_view();
            errors.push(fault);
            assert(errors.deep_view() =~= so_far.push(made));
            assert(errors.deep_view() =~= start + invalid_in(
                document@,
                valid.deep_view(),
                all.take(i + 1),
            ));
        }
        i = i + 1;
    }
    assert(all.take(all.len() as int) =~= all);
}

/// Adds the faults of the exemptions.
pub fn check_exemptions(
    valid: &Vec<String>,
    errors: &mut Vec<StoreValidateError>,
    exemptions: &Table<Vec<ExemptedDependency>>,
)
    requires
        exemptions.wf(),
    ensures
        final(errors).deep_view() == old(errors).deep_view() + gather(
            exemptions.deep_view().vals,
            exemptions_faults(valid.deep_view()),
        ),
{
    let ghost start = errors.deep_view();
    let ghost all = exemptions.deep_view().vals;
    let ghost outer = exemptions_faults(valid.deep_view());
    let ghost inner = exemption_faults(valid.deep_view());
    assert(errors.deep_view() =~= start + gather(all.take(0), outer));
    let mut i: usize = 0;
    while i < exemptions.len()
        invariant
            exemptions.wf(),
            all == exemptions.deep_view().vals,
            outer == exemptions_faults(valid.deep_view()),
            inner == exemption_faults(valid.deep_view()),
            i <= all.len(),
            errors.deep_view() == start + gather(all.take(i as int), outer),
        decreases all.len() - i,
    {
        let entries = exemptions.value_at(i);
        let ghost list = entries.deep_view();
        let ghost before = errors.deep_view();
        assert(errors.deep_view() =~= before + gather(list.take(0), inner));
        let mut j: usize = 0;
        while j < entries.len()
            invariant
                list == entries.deep_view(),
                inner == exemption_faults(valid.deep_view()),
                j <= entries.len(),
                errors.deep_view() == before + gather(list.take(j as int), inner),
            decreases entries.len() - j,
        {
            proof {
                lemma_gather_step(list, inner, j as int);
            }
            let ghost so_far = errors.deep_view();
            check_criteria(CONFIG_TOML, valid, errors, &entries[j].criteria);
            assert(errors.deep_view() =~= before + gather(list.take(j + 1), inner));
            j = j + 1;
        }
        proof {
            assert(list.take(list.len() as int) =~= list);
            lemma_gather_step(all, outer, i as int);
            assert(errors.deep_view() =~= start + gather(all.take(i + 1), outer));
        }
        i = i + 1;
    }
    assert(all.take(all.len() as int) =~= all);
}

/// Adds the faults of the policy rules.
pub fn check_policy(
    valid: &Vec<String>,
    errors: &mut Vec<StoreValidateError>,
    policy: &Table<PolicyEntry>,
)
    requires
        policy.wf(),
        forall|i: int|
            0 <= i < policy.deep_view().vals.len() ==> (
            #[trigger] policy.deep_view().vals[i]).dependency_criteria.wf(),
    ensures
        final(errors).deep_view() == old(errors).deep_view() + gather(
            policy.deep_view().vals,
            policy_faults(valid.deep_view()),
        ),
{
    let ghost start = errors.deep_view();
    let ghost all = policy.deep_view().vals;
    let ghost outer = policy_faults(valid.deep_view());
    let ghost inner = dependency_faults(valid.deep_view());
    let no_criteria: Vec<String> = Vec::new();
    assert(no_criteria.deep_view() =~= Seq::empty());
    assert(errors.deep_view() =~= start + gather(all.take(0), outer));
    let mut i: usize = 0;
    while i < policy.len()
        invariant
            policy.wf(),
            forall|k: int|
                0 <= k < policy.deep_view().vals.len() ==> (
                #[trigger] policy.deep_view().vals[k]).dependency_criteria.wf(),
            all == policy.deep_view().vals,
            outer == policy_faults(valid.deep_view()),
            inner == dependency_faults(valid.deep_view()),
            no_criteria.deep_view() == Seq::<Seq<char>>::empty(),
            i <= all.len(),
            errors.deep_view() == start + gather(all.take(i as int), outer),
        decreases all.len() - i,
    {
        let rule = policy.value_at(i);
        let ghost before = errors.deep_view();
        let criteria = match &rule.criteria {
            Some(list) => list,
            None => &no_criteria,
        };
        check_criteria(CONFIG_TOML, valid, errors, criteria);
        let dev_criteria = match &rule.dev_criteria {
            Some(list) => list,
            None => &no_criteria,
        };
        check_criteria(CONFIG_TOML, valid, errors, dev_criteria);
        let ghost middle = errors.deep_view();
        let ghost deps = rule.dependency_criteria.deep_view().vals;
        assert(all[i as int].dependency_criteria.wf());
        assert(errors.deep_view() =~= middle + gather(deps.take(0), inner));
        let mut j: usize = 0;
        while j < rule.dependency_criteria.len()
            invariant
                rule.dependency_criteria.wf(),
                deps == rule.dependency_criteria.deep_view().vals,
                inner == dependency_faults(valid.deep_view()),
                j <= deps.len(),
                errors.deep_view() == middle + gather(deps.take(j as int), inner),
            decreases deps.len() - j,
        {
            proof {
                lemma_gather_step(deps, inner, j as int);
            }
            check_criteria(CONFIG_TOML, valid, errors, rule.dependency_criteria.value_at(j));
            assert(errors.deep_view() =~= middle + gather(deps.take(j + 1), inner));
            j = j + 1;
        }
        proof {
            assert(deps.take(deps.len() as int) =~= deps);
            lemma_gather_step(all, outer, i as int);
            assert(errors.deep_view() =~= start + gather(all.take(i + 1), outer));
        }
        i = i + 1;
    }
    assert(all.take(all.len() as int) =~= all);
}

/// Adds the faults of the criteria that the audits file defines.
pub fn check_implies(
    valid: &Vec<String>,
    errors: &mut Vec<StoreValidateError>,
    criteria: &Table<CriteriaEntry>,
)
    requires
        criteria.wf(),
    ensures
        final(errors).deep_view() == old(errors).deep_view() + gather(
            criteria.deep_view().vals,
            implies_faults(valid.deep_view()),
        ),
{
    let ghost start = errors.deep_view();
    let ghost all = criteria.deep_view().vals;
    let ghost each = implies_faults(valid.deep_view());
    assert(errors.deep_view() =~= start + gather(all.take(0), each));
    let mut i: usize = 0;
    while i < criteria.len()
        invariant
            criteria.wf(),
            all == criteria.deep_view().vals,
            each == implies_faults(valid.deep_view()),
            i <= all.len(),
            errors.deep_view() == start + gather(all.take(i as int), each),
        decreases all.len() - i,
    {
        proof {
            lemma_gather_step(all, each, i as int);
        }
        check_criteria(AUDITS_TOML, valid, errors, &criteria.value_at(i).implies);
        assert(errors.deep_view() =~= start + gather(all.take(i + 1), each));
        i = i + 1;
    }
    assert(all.take(all.len() as int) =~= all);
}

/// Adds the faults of the audits.
pub fn check_audits(
    valid: &Vec<String>,
    errors: &mut Vec<StoreValidateError>,
    audits: &Table<Vec<AuditEntry>>,
)
    requires
        audits.wf(),
    ensures
        final(errors).deep_view() == old(errors).deep_view() + gather(
            audits.deep_view().vals,
            audits_faults(valid.deep_view()),
        ),
{
    let ghost start = errors.deep_view();
    let ghost all = audits.deep_view().vals;
    let ghost outer = audits_faults(valid.deep_view());
    let ghost inner = audit_faults(valid.deep_view());
    assert(errors.deep_view() =~= start + gather(all.take(0), outer));
    let mut i: usize = 0;
    while i < audits.len()
        invariant
            audits.wf(),
            all == audits.deep_view().vals,
            outer == audits_faults(valid.deep_view()),
            inner == audit_faults(valid.deep_view()),
            i <= all.len(),
            errors.deep_view() == start + gather(all.take(i as int), outer),
        decreases all.len() - i,
    {
        let entries = audits.value_at(i);
        let ghost list = entries.deep_view();
        let ghost before = errors.deep_view();
        assert(errors.deep_view() =~= before + gather(list.take(0), inner));
        let mut j: usize = 0;
        while j < entries.len()
            invariant
                list == entries.deep_view(),
                inner == audit_faults(valid.deep_view()),
                j <= entries.len(),
                errors.deep_view() == before + gather(list.take(j as int), inner),
            decreases entries.len() - j,
        {
            proof {
                lemma_gather_step(list, inner, j as int);
            }
            check_criteria(AUDITS_TOML, valid, errors, &entries[j].criteria);
            assert(errors.deep_view() =~= before + gather(list.take(j + 1), inner));
            j = j + 1;
        }
        proof {
            assert(list.take(list.len() as int) =~= list);
            lemma_gather_step(all, outer, i as int);
            assert(errors.deep_view() =~= start + gather(all.take(i + 1), outer));
        }
        i = i + 1;
    }
    assert(all.take(all.len() as int) =~= all);
}

/// Adds the faults of the wildcard audits.
pub fn check_wildcard_audits(
    valid: &Vec<String>,
    max_end_date: Date,
    errors: &mut Vec<StoreValidateError>,
    audits: &Table<Vec<WildcardEntry>>,
)
    requires
        audits.wf(),
    ensures
        final(errors).deep_view() == old(errors).deep_view() + gather(
            audits.deep_view().vals,
            wildcards_faults(valid.deep_view(), max_end_date),
        ),
{
    let ghost start = errors.deep_view();
    let ghost all = audits.deep_view().vals;
    let ghost outer = wildcards_faults(valid.deep_view(), max_end_date);
    let ghost inner = wildcard_faults(valid.deep_view(), max_end_date);
    assert(errors.deep_view() =~= start + gather(all.take(0), outer));
    let mut i: usize = 0;
    while i < audits.len()
        invariant
            audits.wf(),
            all == audits.deep_view().vals,
            outer == wildcards_faults(valid.deep_view(), max_end_date),
            inner == wildcard_faults(valid.deep_view(), max_end_date),
            i <= all.len(),
            errors.deep_view() == start + gather(all.take(i as int), outer),
        decreases all.len() - i,
    {
        let entries = audits.value_at(i);
        let ghost list = entries.deep_view();
        let ghost before = errors.deep_view();
        assert(errors.deep_view() =~= before + gather(list.take(0), inner));
        let mut j: usize = 0;
        while j < entries.len()
            invariant
                list == entries.deep_view(),
                inner == wildcard_faults(valid.deep_view(), max_end_date),
                j <= entries.len(),
                errors.deep_view() == before + gather(list.take(j as int), inner),
            decreases entries.len() - j,
        {
            proof {
                lemma_gather_step(list, inner, j as int);
            }
            let entry = &entries[j];
            check_criteria(AUDITS_TOML, valid, errors, &entry.criteria);
            if entry.end.is_after(&max_end_date) {
                let ghost so_far = errors.deep_view();
                errors.push(
                    StoreValidateError::BadWildcardEndDate { date: entry.end, max: max_end_date },
                );
                assert(errors.deep_view() =~= so_far.push(
                    StoreValidateErrorView::BadWildcardEndDate {
                        date: entry.end,
                        max: max_end_date,
                    },
                ));
            }
            assert(errors.deep_view() =~= before + gather(list.take(j + 1), inner));
            j = j + 1;
        }
        proof {
            assert(list.take(list.len() as int) =~= list);
            lemma_gather_step(all, outer, i as int);
            assert(errors.deep_view() =~= start + gather(all.take(i + 1), outer));
        }
        i = i + 1;
    }
    assert(all.take(all.len() as int) =~= all);
}

/// Adds the faults in what the config and the audits file hold.
pub fn check_contents(
    config: &ConfigFile,
    audits: &AuditsFile,
    max_end_date: Date,
    errors: &mut Vec<StoreValidateError>,
)
    requires
        config.wf(),
        audits.wf(),
    ensures
        final(errors).deep_view() == old(errors).deep_view() + content_faults(
            config.deep_view(),
            audits.deep_view(),
            max_end_date,
        ),
{
    let valid = valid_criteria(audits);
    check_exemptions(&valid, errors, &config.exemptions);
    check_policy(&valid, errors, &config.policy);
    check_implies(&valid, errors, &audits.criteria);
    check_audits(&valid, errors, &audits.audits);
    check_wildcard_audits(&valid, max_end_date, errors, &audits.wildcard_audits);
    assert(errors.deep_view() =~= old(errors).deep_view() + content_faults(
        config.deep_view(),
        audits.deep_view(),
        max_end_date,
    ));
}

/// Adds the fault of a document with the source `source`, for which
/// `text` would be written, from the two texts with the white space at
/// their ends taken off.
pub fn check_trimmed_format(
    name: &str,
    source: &str,
    text: &str,
    source_end: &str,
    text_end: &str,
    errors: &mut Vec<StoreValidateError>,
)
    ensures
        final(errors).deep_view() == old(errors).deep_view() + fault_of_texts(
            name@,
            source@,
            text@,
            source_end@,
            text_end@,
        ),
{
    if !crate::text::same_text(source_end, text_end) {
        let old_name = String::from_str("old/").concat(name);
        let new_name = String::from_str("new/").concat(name);
        let ghost so_far = errors.deep_view();
        let fault = StoreValidateError::BadFormat {
            unified_diff: unified_diff(
                source,
                text,
                FORMAT_CONTEXT,
                Some((old_name.as_str(), new_name.as_str())),
            ),
        };
        let ghost made = fault.deep_view();
        errors.push(fault);
        assert(errors.deep_view() =~= so_far.push(made));
    } else {
        assert(errors.deep_view() =~= old(errors).deep_view() + Seq::empty());
    }
}

/// Adds the fault of a document whose source is not what would be written.
pub fn check_format(
    name: &str,
    source: &str,
    written: &Result<String, StoreTomlError>,
    errors: &mut Vec<StoreValidateError>,
)
    ensures
        final(errors).deep_view() == old(errors).deep_view() + format_faults(
            name@,
            source@,
            *written,
        ),
{
    match written {
        Ok(text) => {
            check_trimmed_format(
                name,
                source,
                text.as_str(),
                trimmed_end(source),
                trimmed_end(text.as_str()),
                errors,
            );
        },
        Err(_) => {
            assert(errors.deep_view() =~= old(errors).deep_view() + Seq::empty());
        },
    }
}

/// Calls `str::trim_end` of the standard library. Claimed of it: the
/// result depends on the text alone.
#[verifier::external_body]
fn trimmed_end(text: &str) -> (r: &str)
    ensures
        r@ == trim_end_of(text@),
{
    text.trim_end()
}

} // verus!
