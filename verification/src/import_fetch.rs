//! The steps of fetching the audits of a peer.
//!
//! The caller downloads; what to download and what to make of it is
//! decided here. First the file of the peer is fetched from the address in
//! the config and read entry by entry. Then the description of every
//! criterion that came without one is fetched from the address that the
//! criterion names, and stored in the file.

use vstd::prelude::*;
use vstd::utf8::{decode_utf8, valid_utf8};
use crate::codec::{
    offset_of_location, source_offset, ParseFailure, SourceFile, SourceFileView, TomlParseError,
};
use crate::foreign::{
    foreign_audit_file_to_local, foreign_to_local, foreign_valid, left_out, unreadable,
    ForeignAuditFileToLocalResult, ForeignAuditsFile,
};
use crate::format::{AuditEntry, AuditsFile, CriteriaEntry, CriteriaEntryView, WildcardEntry};
use crate::model::Duplicate;
use crate::publishers::FetchAuditError;
use crate::table::TableView;
use crate::text::utf8_text;
use crate::url::{parse_url, parsed_url};

verus! {

/// The address of the audits of a peer, in its normal form.
pub fn import_address(name: &str, url: &str) -> (r: Result<String, FetchAuditError>)
    ensures
        match (r, parsed_url(url@)) {
            (Ok(address), Ok(normal)) => address@ == normal,
            (Err(FetchAuditError::InvalidUrl { import_url, import_name, error }), Err(reason)) => {
                &&& import_url@ == url@
                &&& import_name@ == name@
                &&& error@ == reason
            },
            _ => false,
        },
{
    match parse_url(url) {
        Ok(address) => Ok(address),
        Err(error) => Err(
            FetchAuditError::InvalidUrl {
                import_url: url.to_owned(),
                import_name: name.to_owned(),
                error,
            },
        ),
    }
}

pub open spec fn next_of(n: usize) -> usize {
    if n < usize::MAX {
        (n + 1) as usize
    } else {
        n
    }
}

/// Where the fault of a parse failure lies in what a peer published: the
/// line and the column that the codec named, both counted from 1 here.
pub open spec fn import_fault_offset(source: Seq<char>, line_col: Option<(usize, usize)>) -> usize {
    match line_col {
        Some((line, col)) => offset_of_location(source, next_of(line), next_of(col)),
        None => offset_of_location(source, 1, 1),
    }
}

/// Reads what a peer published, entry by entry, and takes what can be
/// read of it. `decode` reads the text into entries.
pub fn read_imported_audits<F: Fn(&str) -> Result<ForeignAuditsFile, ParseFailure>>(
    name: &str,
    audit_bytes: Vec<u8>,
    decode: &F,
) -> (r: Result<ForeignAuditFileToLocalResult, FetchAuditError>)
    requires
        forall|text: &str| decode.requires((text,)),
        forall|text: &str, file: ForeignAuditsFile|
            decode.ensures((text,), Ok(file)) ==> file.wf(),
    ensures
        !valid_utf8(audit_bytes@) ==> (r matches Err(
            FetchAuditError::InvalidAuditsText { import_name },
        ) && import_name@ == name@),
        valid_utf8(audit_bytes@) ==> exists|text: &str, read: Result<ForeignAuditsFile, ParseFailure>|
            {
                &&& text@ == decode_utf8(audit_bytes@)
                &&& #[trigger] decode.ensures((text,), read)
                &&& match read {
                    Ok(file) => {
                        &&& r matches Ok(taken)
                        &&& taken.audit_file.wf()
                        &&& taken.audit_file.deep_view() == foreign_to_local(file.deep_view())
                        &&& taken.ignored_criteria.deep_view() == file.deep_view().criteria.select_map(
                            unreadable(),
                        ).keys
                        &&& taken.ignored_audits.deep_view() == left_out::<AuditEntry>(
                            foreign_valid(file.deep_view()),
                            file.deep_view().audits,
                        ) + left_out::<WildcardEntry>(
                            foreign_valid(file.deep_view()),
                            file.deep_view().wildcard_audits,
                        )
                    },
                    Err(failure) => {
                        &&& r matches Err(FetchAuditError::Toml { failure: e })
                        &&& e.source_code.deep_view() == (SourceFileView {
                            name: name@,
                            source: text@,
                        })
                        &&& e.span == import_fault_offset(text@, failure.line_col)
                        &&& e.message@ == failure.message@
                    },
                }
            },
{
    let audit_string = match utf8_text(audit_bytes) {
        Some(text) => text,
        None => {
            return Err(FetchAuditError::InvalidAuditsText { import_name: name.to_owned() });
        },
    };
    let text = audit_string.as_str();
    let read = decode(text);
    let ghost seen = read;
    let r = match read {
        Ok(file) => Ok(foreign_audit_file_to_local(&file)),
        Err(failure) => {
            let (line, col) = match failure.line_col {
                Some((line, col)) => (line, col),
                None => (0, 0),
            };
            let line_from_one = if line < usize::MAX {
                line + 1
            } else {
                line
            };
            let col_from_one = if col < usize::MAX {
                col + 1
            } else {
                col
            };
            Err(
                FetchAuditError::Toml {
                    failure: TomlParseError {
                        source_code: SourceFile::new(name, audit_string.clone()),
                        span: source_offset(text, line_from_one, col_from_one),
                        message: failure.message,
                    },
                },
            )
        },
    };
    proof {
        assert(decode.ensures((text,), seen));
        assert(match seen {
            Ok(file) => {
                &&& r matches Ok(taken)
                &&& taken.audit_file.wf()
                &&& taken.audit_file.deep_view() == foreign_to_local(file.deep_view())
                &&& taken.ignored_criteria.deep_view() == file.deep_view().criteria.select_map(
                    unreadable(),
                ).keys
                &&& taken.ignored_audits.deep_view() == left_out::<AuditEntry>(
                    foreign_valid(file.deep_view()),
                    file.deep_view().audits,
                ) + left_out::<WildcardEntry>(
                    foreign_valid(file.deep_view()),
                    file.deep_view().wildcard_audits,
                )
            },
            Err(failure) => {
                &&& r matches Err(FetchAuditError::Toml { failure: e })
                &&& e.source_code.deep_view() == (SourceFileView { name: name@, source: text@ })
                &&& e.span == import_fault_offset(text@, failure.line_col)
                &&& e.message@ == failure.message@
            },
        });
    }
    r
}

/// A description to fetch.
#[derive(Clone, Debug, PartialEq, Eq)]
pub struct DescriptionRequest {
    pub criteria_name: String,
    /// The address of the description, in its normal form.
    pub url: String,
}

pub struct DescriptionRequestView {
    pub criteria_name: Seq<char>,
    pub url: Seq<char>,
}

impl DeepView for DescriptionRequest {
    type V = DescriptionRequestView;

    open spec fn deep_view(&self) -> DescriptionRequestView {
        DescriptionRequestView { criteria_name: self.criteria_name@, url: self.url@ }
    }
}

pub enum DescriptionFault {
    Missing { criteria_name: Seq<char> },
    InvalidUrl { criteria_name: Seq<char>, url: Seq<char>, error: Seq<char> },
}

/// The descriptions to fetch for the first `n` criteria of a file: one for
/// each criterion without a description, from the address that it names.
/// The first criterion that has neither, or whose address is no URL, is a
/// fault.
pub open spec fn requests_of(criteria: TableView<CriteriaEntryView>, n: int) -> Result<
    Seq<DescriptionRequestView>,
    DescriptionFault,
>
    decreases n,
{
    if n <= 0 {
        Ok(Seq::empty())
    } else {
        match requests_of(criteria, n - 1) {
            Err(fault) => Err(fault),
            Ok(before) => {
                let name = criteria.keys[n - 1];
                let entry = criteria.vals[n - 1];
                if entry.description is Some {
                    Ok(before)
                } else {
                    match entry.description_url {
                        None => Err(DescriptionFault::Missing { criteria_name: name }),
                        Some(url) => match parsed_url(url) {
                            Ok(address) => Ok(
                                before.push(
                                    DescriptionRequestView { criteria_name: name, url: address },
                                ),
                            ),
                            Err(reason) => Err(
                                DescriptionFault::InvalidUrl {
                                    criteria_name: name,
                                    url,
                                    error: reason,
                                },
                            ),
                        },
                    }
                }
            },
        }
    }
}

/// Whether an error states a fault of the descriptions of a peer.
pub open spec fn states(error: FetchAuditError, import_name: Seq<char>, fault: DescriptionFault) -> bool {
    match fault {
        DescriptionFault::Missing { criteria_name } => {
            &&& error matches FetchAuditError::MissingCriteriaDescription {
                import_name: peer,
                criteria_name: criterion,
            }
            &&& peer@ == import_name
            &&& criterion@ == criteria_name
        },
        DescriptionFault::InvalidUrl { criteria_name, url, error: reason } => {
            &&& error matches FetchAuditError::InvalidCriteriaDescriptionUrl {
                import_name: peer,
                criteria_name: criterion,
                url: address,
                error: why,
            }
            &&& peer@ == import_name
            &&& criterion@ == criteria_name
            &&& address@ == url
            &&& why@ == reason
        },
    }
}

/// The descriptions to fetch for the criteria of what a peer published.
pub fn description_requests(name: &str, audit_file: &AuditsFile) -> (r: Result<
    Vec<DescriptionRequest>,
    FetchAuditError,
>)
    requires
        audit_file.wf(),
    ensures
        match (
            r,
            requests_of(
                audit_file.deep_view().criteria,
                audit_file.deep_view().criteria.keys.len() as int,
            ),
        ) {
            (Ok(requests), Ok(wanted)) => requests.deep_view() == wanted,
            (Err(error), Err(fault)) => states(error, name@, fault),
            _ => false,
        },
{
    let ghost criteria = audit_file.deep_view().criteria;
    let mut requests: Vec<DescriptionRequest> = Vec::new();
    assert(requests.deep_view() =~= Seq::empty());
    let mut i: usize = 0;
    while i < audit_file.criteria.len()
        invariant
            audit_file.wf(),
            criteria == audit_file.deep_view().criteria,
            i <= criteria.keys.len(),
            requests_of(criteria, i as int) == Ok::<Seq<DescriptionRequestView>, DescriptionFault>(
                requests.deep_view(),
            ),
        decreases criteria.keys.len() - i,
    {
        let criteria_name = audit_file.criteria.key_at(i);
        let criteria_entry = audit_file.criteria.value_at(i);
        if criteria_entry.description.is_none() {
            let url_string = match &criteria_entry.description_url {
                Some(url) => url,
                None => {
                    proof {
                        lemma_fault_stays(criteria, i + 1, criteria.keys.len() as int);
                    }
                    return Err(
                        FetchAuditError::MissingCriteriaDescription {
                            import_name: name.to_owned(),
                            criteria_name: criteria_name.clone(),
                        },
                    );
                },
            };
            match parse_url(url_string.as_str()) {
                Ok(url) => {
                    let ghost so_far = requests.deep_view();
                    let request = DescriptionRequest { criteria_name: criteria_name.clone(), url };
                    let ghost made = request.deep_view();
                    requests.push(request);
                    assert(requests.deep_view() =~= so_far.push(made));
                },
                Err(error) => {
                    proof {
                        lemma_fault_stays(criteria, i + 1, criteria.keys.len() as int);
                    }
                    return Err(
                        FetchAuditError::InvalidCriteriaDescriptionUrl {
                            import_name: name.to_owned(),
                            criteria_name: criteria_name.clone(),
                            url: url_string.clone(),
                            error,
                        },
                    );
                },
            }
        }
        i = i + 1;
    }
    Ok(requests)
}

proof fn lemma_fault_stays(criteria: TableView<CriteriaEntryView>, n: int, m: int)
    requires
        0 <= n <= m,
        requests_of(criteria, n) is Err,
    ensures
        requests_of(criteria, m) == requests_of(criteria, n),
    decreases m - n,
{
    if n < m {
        lemma_fault_stays(criteria, n, m - 1);
    }
}

/// The criteria of a file with the description of one of them stored.
pub open spec fn described(
    criteria: TableView<CriteriaEntryView>,
    name: Seq<char>,
    description: Seq<char>,
) -> TableView<CriteriaEntryView> {
    if criteria.has(name) {
        criteria.put(
            name,
            CriteriaEntryView { description: Some(description), ..criteria.at(name) },
        )
    } else {
        criteria
    }
}

/// Stores the description that was fetched for a criterion. A criterion
/// that the file does not hold is passed over.
pub fn store_description(
    audit_file: &mut AuditsFile,
    request: &DescriptionRequest,
    bytes: Vec<u8>,
) -> (r: Result<(), FetchAuditError>)
    requires
        old(audit_file).wf(),
    ensures
        final(audit_file).wf(),
        final(audit_file).deep_view().audits == old(audit_file).deep_view().audits,
        final(audit_file).deep_view().wildcard_audits == old(
            audit_file,
        ).deep_view().wildcard_audits,
        r is Ok == valid_utf8(bytes@),
        r is Ok ==> final(audit_file).deep_view().criteria == described(
            old(audit_file).deep_view().criteria,
            request.criteria_name@,
            decode_utf8(bytes@),
        ),
        r matches Err(e) ==> {
            &&& final(audit_file).deep_view() == old(audit_file).deep_view()
            &&& e matches FetchAuditError::InvalidText { url }
            &&& url@ == request.url@
        },
{
    let description = match utf8_text(bytes) {
        Some(text) => text,
        None => {
            return Err(FetchAuditError::InvalidText { url: request.url.clone() });
        },
    };
    match audit_file.criteria.get(request.criteria_name.as_str()) {
        Some(entry) => {
            let filled = CriteriaEntry {
                description: Some(description),
                description_url: entry.description_url.duplicate(),
                implies: entry.implies.duplicate(),
            };
            audit_file.criteria.insert(request.criteria_name.clone(), filled);
        },
        None => {},
    }
    Ok(())
}

} // verus!
