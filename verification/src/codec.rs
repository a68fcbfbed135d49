//! Framing of the written documents.
//!
//! The text of a document is made and read by a codec that the caller hands
//! in as a function. What is done around the codec is done here: lists are
//! sorted before a document is written, each document of a store starts
//! with its heading, and a failure to read is turned into an error that
//! points into the source.

use vstd::prelude::*;
use crate::format::{
    AuditEntry, AuditsFile, AuditsFileView, ConfigFile, ConfigFileView, ExemptedDependency,
    ImportsFile,
};
use crate::model::Duplicate;
use crate::order::{sort, sorted};
use crate::table::{Table, TableView};

verus! {

pub const AUDITS_TOML: &'static str = "audits.toml";

pub const CONFIG_TOML: &'static str = "config.toml";

pub const IMPORTS_LOCK: &'static str = "imports.lock";

pub const AUDITS_HEADING: &'static str = "\n# cargo-vet audits file\n";

pub const CONFIG_HEADING: &'static str = "\n# cargo-vet config file\n";

pub const IMPORTS_HEADING: &'static str = "\n# cargo-vet imports lock\n";

/// The text that a document was read from, kept for diagnostics.
#[derive(Clone, Debug, PartialEq, Eq)]
pub struct SourceFile {
    pub name: String,
    pub source: String,
}

pub struct SourceFileView {
    pub name: Seq<char>,
    pub source: Seq<char>,
}

impl DeepView for SourceFile {
    type V = SourceFileView;

    open spec fn deep_view(&self) -> SourceFileView {
        SourceFileView { name: self.name@, source: self.source@ }
    }
}

impl Duplicate for SourceFile {
    fn duplicate(&self) -> (r: Self) {
        SourceFile { name: self.name.clone(), source: self.source.clone() }
    }
}

impl SourceFile {
    pub fn new(name: &str, source: String) -> (r: SourceFile)
        ensures
            r.deep_view() == (SourceFileView { name: name@, source: source@ }),
    {
        SourceFile { name: name.to_owned(), source }
    }

    /// The source of a document that has not been written yet.
    pub fn new_empty(name: &str) -> (r: SourceFile)
        ensures
            r.deep_view() == (SourceFileView { name: name@, source: Seq::empty() }),
    {
        SourceFile { name: name.to_owned(), source: String::new() }
    }

    pub fn source(&self) -> (r: &str)
        ensures
            r@ == self.source@,
    {
        self.source.as_str()
    }
}

/// What a codec reports when it cannot write a document.
#[derive(Clone, Debug, PartialEq, Eq)]
pub struct StoreTomlError {
    pub message: String,
}

/// What a codec reports when it cannot write a cache document.
#[derive(Clone, Debug, PartialEq, Eq)]
pub struct StoreJsonError {
    pub message: String,
}

/// What a codec reports when it cannot read a document: the line and the
/// column of the fault, both counted from 0, where it knows them.
#[derive(Clone, Debug, PartialEq, Eq)]
pub struct ParseFailure {
    pub line_col: Option<(usize, usize)>,
    pub message: String,
}

/// A document that could not be read, with the place of the fault.
#[derive(Clone, Debug, PartialEq, Eq)]
pub struct TomlParseError {
    pub source_code: SourceFile,
    /// The offset of the fault in the source, in bytes.
    pub span: usize,
    pub message: String,
}

/// A cache document that could not be read.
#[derive(Clone, Debug, PartialEq, Eq)]
pub struct JsonParseError {
    pub message: String,
}

/// The line to hand to the offset search for a fault on line `line`:
/// lines are counted from 1 there.
pub open spec fn line_from_one(line: usize) -> usize {
    if line < usize::MAX {
        (line + 1) as usize
    } else {
        line
    }
}

/// Where the fault of a parse failure lies in the source.
pub open spec fn fault_offset(source: Seq<char>, line_col: Option<(usize, usize)>) -> usize {
    match line_col {
        Some((line, col)) => offset_of_location(source, line_from_one(line), col),
        None => offset_of_location(source, 1, 0),
    }
}

/// Reads a document from its text with the codec `decode`.
///
/// Where the codec fails, the error holds the source and the offset of the
/// line and column that the codec named (the start of the text where it
/// named none).
pub fn load_toml<T, F: Fn(&str) -> Result<T, ParseFailure>>(
    file_name: &str,
    text: &str,
    decode: F,
) -> (r: Result<(SourceFile, T), TomlParseError>)
    requires
        decode.requires((text,)),
    ensures
        match r {
            Ok((source, document)) => {
                &&& decode.ensures((text,), Ok(document))
                &&& source.deep_view() == (SourceFileView { name: file_name@, source: text@ })
            },
            Err(e) => {
                &&& exists|failure: ParseFailure|
                    {
                        &&& decode.ensures((text,), Err(failure))
                        &&& e.span == fault_offset(text@, failure.line_col)
                        &&& e.message@ == failure.message@
                    }
                &&& e.source_code.deep_view() == (SourceFileView { name: file_name@, source: text@ })
            },
        },
{
    let source_code = SourceFile::new(file_name, text.to_owned());
    match decode(text) {
        Ok(document) => Ok((source_code, document)),
        Err(failure) => {
            let ghost seen = failure;
            let (line, col) = match failure.line_col {
                Some((line, col)) => (line, col),
                None => (0, 0),
            };
            let from_one = if line < usize::MAX {
                line + 1
            } else {
                line
            };
            let span = source_offset(text, from_one, col);
            let e = TomlParseError { source_code, span, message: failure.message };
            assert(decode.ensures((text,), Err(seen)) && e.span == fault_offset(
                text@,
                seen.line_col,
            ) && e.message@ == seen.message@);
            Err(e)
        },
    }
}

/// A codec reads the text that it wrote of a document, whatever stands
/// before the text as a heading, and finds in it what the document holds.
pub open spec fn reads_back<
    T: DeepView,
    E: Fn(&T) -> Result<String, StoreTomlError>,
    D: Fn(&str) -> Result<T, ParseFailure>,
>(encode: E, decode: D, heading: Seq<char>) -> bool {
    forall|document: &T, body: String, text: &str, read: Result<T, ParseFailure>|
        #![trigger encode.ensures((document,), Ok(body)), decode.ensures((text,), read)]
        encode.ensures((document,), Ok(body)) && text@ == heading + body@ && decode.ensures(
            (text,),
            read,
        ) ==> read is Ok && read->Ok_0.deep_view() == document.deep_view()
}

/// Puts `heading` before the text that the codec made of a document.
pub fn store_toml(heading: &str, document: Result<String, StoreTomlError>) -> (r: Result<
    String,
    StoreTomlError,
>)
    ensures
        match (document, r) {
            (Ok(body), Ok(text)) => text@ == heading@ + body@,
            (Err(e), Err(f)) => e == f,
            _ => false,
        },
{
    match document {
        Ok(body) => {
            let mut text = heading.to_owned();
            text.append(body.as_str());
            Ok(text)
        },
        Err(e) => Err(e),
    }
}

/// Reads a cache document from its text with the codec `decode`.
pub fn load_json<T, F: Fn(&str) -> Result<T, JsonParseError>>(text: &str, decode: F) -> (r: Result<
    T,
    JsonParseError,
>)
    requires
        decode.requires((text,)),
    ensures
        decode.ensures((text,), r),
{
    decode(text)
}

/// The text that the codec made of a cache document, as it is.
pub fn store_json(document: Result<String, StoreJsonError>) -> (r: Result<String, StoreJsonError>)
    ensures
        r == document,
{
    document
}

/// A table of lists with every list sorted.
pub open spec fn lists_sorted<T: crate::order::Ordered>(t: TableView<Seq<T::V>>) -> TableView<
    Seq<T::V>,
> {
    TableView { keys: t.keys, vals: Seq::new(t.vals.len(), |i: int| sorted::<T>(t.vals[i])) }
}

/// Sorts every list of a table.
pub fn sort_lists<T: crate::order::Ordered + Duplicate>(t: &Table<Vec<T>>) -> (r: Table<Vec<T>>)
    requires
        t.wf(),
    ensures
        r.wf(),
        r.deep_view() == lists_sorted::<T>(t.deep_view()),
{
    let mut vals: Vec<Vec<T>> = Vec::new();
    let ghost goal = lists_sorted::<T>(t.deep_view());
    let mut i: usize = 0;
    while i < t.len()
        invariant
            t.wf(),
            goal == lists_sorted::<T>(t.deep_view()),
            i <= t.deep_view().len(),
            vals.deep_view() == goal.vals.take(i as int),
        decreases t.deep_view().len() - i,
    {
        let list = sort(t.value_at(i));
        let ghost so_far = vals.deep_view();
        let ghost made = list.deep_view();
        vals.push(list);
        assert(vals.deep_view() =~= so_far.push(made));
        assert(vals.deep_view() =~= goal.vals.take(i + 1));
        i = i + 1;
    }
    assert(vals.deep_view() =~= goal.vals);
    Table { keys: t.keys.duplicate(), vals }
}

/// An audits file as it is written: the audits of each package sorted.
pub open spec fn audits_as_written(audits: AuditsFileView) -> AuditsFileView {
    AuditsFileView { audits: lists_sorted::<AuditEntry>(audits.audits), ..audits }
}

/// A config as it is written: the exemptions of each package sorted.
pub open spec fn config_as_written(config: ConfigFileView) -> ConfigFileView {
    ConfigFileView { exemptions: lists_sorted::<ExemptedDependency>(config.exemptions), ..config }
}

/// The audits file in the form in which it is written.
pub fn audits_for_writing(audits: AuditsFile) -> (r: AuditsFile)
    requires
        audits.wf(),
    ensures
        r.wf(),
        r.deep_view() == audits_as_written(audits.deep_view()),
{
    let sorted_audits = sort_lists(&audits.audits);
    AuditsFile {
        criteria: audits.criteria,
        wildcard_audits: audits.wildcard_audits,
        audits: sorted_audits,
    }
}

/// The config in the form in which it is written.
pub fn config_for_writing(config: ConfigFile) -> (r: ConfigFile)
    requires
        config.wf(),
    ensures
        r.wf(),
        r.deep_view() == config_as_written(config.deep_view()),
{
    let sorted_exemptions = sort_lists(&config.exemptions);
    ConfigFile {
        default_criteria: config.default_criteria,
        imports: config.imports,
        policy: config.policy,
        exemptions: sorted_exemptions,
    }
}

/// The text of `audits.toml`: the heading, then what the codec makes of
/// the audits file with its audits sorted.
pub fn store_audits<F: Fn(&AuditsFile) -> Result<String, StoreTomlError>>(
    audits: AuditsFile,
    encode: F,
) -> (r: Result<String, StoreTomlError>)
    requires
        audits.wf(),
        forall|a: &AuditsFile| encode.requires((a,)),
    ensures
        exists|written: AuditsFile, made: Result<String, StoreTomlError>|
            {
                &&& written.deep_view() == audits_as_written(audits.deep_view())
                &&& encode.ensures((&written,), made)
                &&& framed(AUDITS_HEADING@, made, r)
            },
{
    let written = audits_for_writing(audits);
    let made = encode(&written);
    let ghost seen = made;
    let r = store_toml(AUDITS_HEADING, made);
    assert(encode.ensures((&written,), seen) && framed(AUDITS_HEADING@, seen, r));
    r
}

/// The text of `config.toml`: the heading, then what the codec makes of
/// the config with its exemptions sorted.
pub fn store_config<F: Fn(&ConfigFile) -> Result<String, StoreTomlError>>(
    config: ConfigFile,
    encode: F,
) -> (r: Result<String, StoreTomlError>)
    requires
        config.wf(),
        forall|a: &ConfigFile| encode.requires((a,)),
    ensures
        exists|written: ConfigFile, made: Result<String, StoreTomlError>|
            {
                &&& written.deep_view() == config_as_written(config.deep_view())
                &&& encode.ensures((&written,), made)
                &&& framed(CONFIG_HEADING@, made, r)
            },
{
    let written = config_for_writing(config);
    let made = encode(&written);
    let ghost seen = made;
    let r = store_toml(CONFIG_HEADING, made);
    assert(encode.ensures((&written,), seen) && framed(CONFIG_HEADING@, seen, r));
    r
}

/// The text of `imports.lock`: the heading, then what the codec makes of
/// the imports lock.
pub fn store_imports<F: Fn(&ImportsFile) -> Result<String, StoreTomlError>>(
    imports: ImportsFile,
    encode: F,
) -> (r: Result<String, StoreTomlError>)
    requires
        forall|a: &ImportsFile| encode.requires((a,)),
    ensures
        exists|made: Result<String, StoreTomlError>|
            {
                &&& encode.ensures((&imports,), made)
                &&& framed(IMPORTS_HEADING@, made, r)
            },
{
    let made = encode(&imports);
    let ghost seen = made;
    let r = store_toml(IMPORTS_HEADING, made);
    assert(encode.ensures((&imports,), seen) && framed(IMPORTS_HEADING@, seen, r));
    r
}

/// What is written of the audits file is read back as it was written:
/// with the audits of each package sorted. Where a codec reads what it
/// wrote, and `stored` is what `store_audits` gave for an audits file and
/// `loaded` what `load_toml` gave for that text, the load succeeded and
/// gave the audits file in the form in which it is written.
pub proof fn law_audits_round_trip<
    E: Fn(&AuditsFile) -> Result<String, StoreTomlError>,
    D: Fn(&str) -> Result<AuditsFile, ParseFailure>,
>(
    encode: E,
    decode: D,
    audits: AuditsFile,
    written: AuditsFile,
    made: Result<String, StoreTomlError>,
    stored: String,
    text: &str,
    read: Result<AuditsFile, ParseFailure>,
)
    requires
        reads_back(encode, decode, AUDITS_HEADING@),
        written.deep_view() == audits_as_written(audits.deep_view()),
        encode.ensures((&written,), made),
        framed(AUDITS_HEADING@, made, Ok(stored)),
        text@ == stored@,
        decode.ensures((text,), read),
    ensures
        read is Ok,
        read->Ok_0.deep_view() == audits_as_written(audits.deep_view()),
{
}

/// What is written of the config is read back as it was written: with the
/// exemptions of each package sorted.
pub proof fn law_config_round_trip<
    E: Fn(&ConfigFile) -> Result<String, StoreTomlError>,
    D: Fn(&str) -> Result<ConfigFile, ParseFailure>,
>(
    encode: E,
    decode: D,
    config: ConfigFile,
    written: ConfigFile,
    made: Result<String, StoreTomlError>,
    stored: String,
    text: &str,
    read: Result<ConfigFile, ParseFailure>,
)
    requires
        reads_back(encode, decode, CONFIG_HEADING@),
        written.deep_view() == config_as_written(config.deep_view()),
        encode.ensures((&written,), made),
        framed(CONFIG_HEADING@, made, Ok(stored)),
        text@ == stored@,
        decode.ensures((text,), read),
    ensures
        read is Ok,
        read->Ok_0.deep_view() == config_as_written(config.deep_view()),
{
}

/// What is written of the imports lock is read back as it was.
pub proof fn law_imports_round_trip<
    E: Fn(&ImportsFile) -> Result<String, StoreTomlError>,
    D: Fn(&str) -> Result<ImportsFile, ParseFailure>,
>(
    encode: E,
    decode: D,
    imports: ImportsFile,
    made: Result<String, StoreTomlError>,
    stored: String,
    text: &str,
    read: Result<ImportsFile, ParseFailure>,
)
    requires
        reads_back(encode, decode, IMPORTS_HEADING@),
        encode.ensures((&imports,), made),
        framed(IMPORTS_HEADING@, made, Ok(stored)),
        text@ == stored@,
        decode.ensures((text,), read),
    ensures
        read is Ok,
        read->Ok_0.deep_view() == imports.deep_view(),
{
}

/// `text` is what the codec made, behind the heading; a failure of the
/// codec is handed on.
pub open spec fn framed(
    heading: Seq<char>,
    made: Result<String, StoreTomlError>,
    text: Result<String, StoreTomlError>,
) -> bool {
    match (made, text) {
        (Ok(body), Ok(t)) => t@ == heading + body@,
        (Err(e), Err(f)) => e == f,
        _ => false,
    }
}

/// The byte offset in `source` of a line and a column, the line counted
/// from 1 and the column from 0, as `miette` finds it.
pub uninterp spec fn offset_of_location(source: Seq<char>, line: usize, col: usize) -> usize;

/// Calls `miette::SourceOffset::from_location`. Claimed of it: the offset
/// depends on the text, the line and the column alone.
#[verifier::external_body]
pub(crate) fn source_offset(source: &str, line: usize, col: usize) -> (r: usize)
    ensures
        r == offset_of_location(source@, line, col),
{
    miette::SourceOffset::from_location(source, line, col).offset()
}

} // verus!
