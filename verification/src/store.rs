//! The store: the three documents, the lock of their directory, and the
//! live imports.
//!
//! A store is changed in memory. Nothing reaches the disk before `commit`
//! hands the texts of the three documents to the caller, who holds the file
//! lock and writes them.

use vstd::prelude::*;
use crate::codec::{
    audits_as_written, audits_for_writing, config_as_written, config_for_writing, framed,
    store_toml, SourceFile, SourceFileView, StoreTomlError, AUDITS_HEADING, AUDITS_TOML,
    CONFIG_HEADING, CONFIG_TOML, IMPORTS_HEADING, IMPORTS_LOCK,
};
use crate::date::{months_after, plus_months, Date, Timestamp, MAX_YEAR};
use crate::format::{
    AuditsFile, AuditsFileView, ConfigFile, ConfigFileView, CratesPublisher, ExemptedDependency,
    ExemptedDependencyView, ImportsFile, ImportsFileView,
};
use crate::metadata::Metadata;
use crate::model::{Duplicate, Same};
use crate::publisher_cache::{PublisherCache, PublisherCacheVersionView};
use crate::publisher_import::{
    import_names, import_publisher_versions, inputs_of, list_of, looked_up, lookup_failed,
    with_found,
};
use crate::publishers::{plain_name, CratesAPICrate, FetchAuditError};
use crate::table::{Table, TableView};
use crate::validate::{
    check_contents, check_format, content_faults, format_faults, StoreValidateError,
    StoreValidateErrorView, StoreValidateErrors,
};

verus! {

/// How many months after today a wildcard audit may end at the latest.
pub const WILDCARD_MONTHS: u32 = 12;

/// The token of the lock on a store: the directory whose `config.toml` the
/// caller holds locked for as long as the token lives.
#[derive(Clone, Debug, PartialEq, Eq)]
pub struct StoreLock {
    pub root: String,
}

/// A document handed to the codec to be written.
#[derive(Clone, Copy, Debug)]
pub enum Document<'a> {
    Config(&'a ConfigFile),
    Audits(&'a AuditsFile),
    Imports(&'a ImportsFile),
}

/// The texts of the three documents of a store, or why the codec could not
/// make one.
#[derive(Debug, PartialEq, Eq)]
pub struct StoreTexts {
    pub config: Result<String, StoreTomlError>,
    pub audits: Result<String, StoreTomlError>,
    pub imports: Result<String, StoreTomlError>,
}

#[derive(Clone, Debug, PartialEq, Eq)]
pub struct Store {
    /// The lock on the directory of the store, if this store holds it.
    pub lock: Option<StoreLock>,
    pub config: ConfigFile,
    pub imports: ImportsFile,
    pub audits: AuditsFile,
    /// What was fetched from the peers in this run, reconciled; `None`
    /// where nothing was fetched.
    pub live_imports: Option<ImportsFile>,
    pub config_src: SourceFile,
    pub imports_src: SourceFile,
    pub audits_src: SourceFile,
}

pub struct StoreView {
    pub lock: Option<Seq<char>>,
    pub config: ConfigFileView,
    pub imports: ImportsFileView,
    pub audits: AuditsFileView,
    pub live_imports: Option<ImportsFileView>,
    pub config_src: SourceFileView,
    pub imports_src: SourceFileView,
    pub audits_src: SourceFileView,
}

pub open spec fn lock_view(lock: Option<StoreLock>) -> Option<Seq<char>> {
    match lock {
        Some(l) => Some(l.root@),
        None => None,
    }
}

impl DeepView for Store {
    type V = StoreView;

    open spec fn deep_view(&self) -> StoreView {
        StoreView {
            lock: lock_view(self.lock),
            config: self.config.deep_view(),
            imports: self.imports.deep_view(),
            audits: self.audits.deep_view(),
            live_imports: self.live_imports.deep_view(),
            config_src: self.config_src.deep_view(),
            imports_src: self.imports_src.deep_view(),
            audits_src: self.audits_src.deep_view(),
        }
    }
}

pub open spec fn imports_name() -> Seq<char> {
    "imports.lock"@
}

/// The source of a document of the given name that has not been written.
pub open spec fn unwritten(name: Seq<char>) -> SourceFileView {
    SourceFileView { name, source: Seq::empty() }
}

/// A store of the given documents that has no sources, no live imports and
/// the given lock.
pub open spec fn fresh_store(
    lock: Option<Seq<char>>,
    config: ConfigFileView,
    audits: AuditsFileView,
    imports: ImportsFileView,
) -> StoreView {
    StoreView {
        lock,
        config,
        imports,
        audits,
        live_imports: None,
        config_src: unwritten(crate::validate::config_name()),
        imports_src: unwritten(imports_name()),
        audits_src: unwritten(crate::validate::audits_name()),
    }
}

/// The exemptions of a package for which no audit may be suggested.
pub open spec fn unsuggested(list: Seq<ExemptedDependencyView>) -> Seq<ExemptedDependencyView> {
    list.filter(|e: ExemptedDependencyView| !e.suggest)
}

/// A config without the exemptions for which an audit may be suggested.
pub open spec fn config_for_suggest(config: ConfigFileView) -> ConfigFileView {
    ConfigFileView {
        exemptions: TableView {
            keys: config.exemptions.keys,
            vals: Seq::new(
                config.exemptions.vals.len(),
                |i: int| unsuggested(config.exemptions.vals[i]),
            ),
        },
        ..config
    }
}

/// Whether the imports lock no longer matches the imports of the config:
/// nothing was fetched in this run, and either the lock does not hold
/// exactly the peers that the config names, or it holds audits of a package
/// that the config excludes for the peer.
pub open spec fn lock_outdated(store: StoreView) -> bool {
    store.live_imports is None && (store.config.imports.keys != store.imports.audits.keys || exists|
        i: int,
        j: int,
    |
        excluded_held(store, i, j))
}

/// The lock holds, for the peer at position `i`, audits of the package
/// that the config excludes for that peer at position `j`.
pub open spec fn excluded_held(store: StoreView, i: int, j: int) -> bool {
    &&& 0 <= i < store.config.imports.vals.len()
    &&& 0 <= j < store.config.imports.vals[i].exclude.len()
    &&& store.imports.audits.vals[i].audits.has(store.config.imports.vals[i].exclude[j])
}

/// The latest day on which a wildcard audit may end, seen from `today`.
pub open spec fn max_end_date(today: Date) -> Date {
    months_after(today, WILDCARD_MONTHS)->0
}

/// All the faults of a store, in the order in which validation reports
/// them: the faults of the contents, then, if the formatting is checked,
/// those of the config, of the audits file and of the imports lock, then
/// the fault of an outdated imports lock.
pub open spec fn store_faults(
    store: StoreView,
    today: Date,
    check_file_formatting: bool,
    texts: StoreTexts,
) -> Seq<StoreValidateErrorView> {
    content_faults(store.config, store.audits, max_end_date(today)) + (if check_file_formatting {
        format_faults(crate::validate::config_name(), store.config_src.source, texts.config)
            + format_faults(crate::validate::audits_name(), store.audits_src.source, texts.audits)
            + format_faults(imports_name(), store.imports_src.source, texts.imports)
    } else {
        Seq::empty()
    }) + (if lock_outdated(store) {
        seq![StoreValidateErrorView::ImportsLockOutdated]
    } else {
        Seq::empty()
    })
}

/// `texts` are what the codec `encode` makes of the three documents in
/// the form in which they are written, each behind its heading.
pub open spec fn written_by<F: Fn(Document) -> Result<String, StoreTomlError>>(
    encode: F,
    store: StoreView,
    texts: StoreTexts,
) -> bool {
    exists|
        config: ConfigFile,
        audits: AuditsFile,
        imports: ImportsFile,
        made_config: Result<String, StoreTomlError>,
        made_audits: Result<String, StoreTomlError>,
        made_imports: Result<String, StoreTomlError>,
    |
        {
            &&& config.deep_view() == config_as_written(store.config)
            &&& audits.deep_view() == audits_as_written(store.audits)
            &&& imports.deep_view() == store.imports
            &&& #[trigger] encode.ensures((Document::Config(&config),), made_config)
            &&& #[trigger] encode.ensures((Document::Audits(&audits),), made_audits)
            &&& #[trigger] encode.ensures((Document::Imports(&imports),), made_imports)
            &&& framed(CONFIG_HEADING@, made_config, texts.config)
            &&& framed(AUDITS_HEADING@, made_audits, texts.audits)
            &&& framed(IMPORTS_HEADING@, made_imports, texts.imports)
        }
}

/// The text of a document, or the failure of the codec, copied.
fn copy_text(text: &Result<String, StoreTomlError>) -> (r: Result<String, StoreTomlError>)
    ensures
        match (text, r) {
            (Ok(a), Ok(b)) => a@ == b@,
            (Err(a), Err(b)) => a.message@ == b.message@,
            _ => false,
        },
{
    match text {
        Ok(t) => Ok(t.clone()),
        Err(e) => Err(StoreTomlError { message: e.message.clone() }),
    }
}

impl Store {
    /// The documents are well-formed.
    pub open spec fn wf(&self) -> bool {
        &&& self.config.wf()
        &&& self.imports.wf()
        &&& self.audits.wf()
        &&& self.live_imports matches Some(live) ==> live.wf()
    }

    /// A new store: three empty documents that have not been written yet,
    /// held under the given lock.
    pub fn create(lock: StoreLock) -> (r: Store)
        ensures
            r.wf(),
            r.deep_view() == fresh_store(
                Some(lock.root@),
                ConfigFileView::empty(),
                AuditsFileView::empty(),
                ImportsFileView::empty(),
            ),
    {
        Store {
            lock: Some(lock),
            config: ConfigFile::new(),
            imports: ImportsFile::new(),
            audits: AuditsFile::new(),
            live_imports: None,
            config_src: SourceFile::new_empty(CONFIG_TOML),
            audits_src: SourceFile::new_empty(AUDITS_TOML),
            imports_src: SourceFile::new_empty(IMPORTS_LOCK),
        }
    }

    /// A store of the given documents that holds no lock.
    pub fn mock(config: ConfigFile, audits: AuditsFile, imports: ImportsFile) -> (r: Store)
        requires
            config.wf(),
            audits.wf(),
            imports.wf(),
        ensures
            r.wf(),
            r.deep_view() == fresh_store(
                None,
                config.deep_view(),
                audits.deep_view(),
                imports.deep_view(),
            ),
    {
        Store {
            lock: None,
            config,
            imports,
            audits,
            live_imports: None,
            config_src: SourceFile::new_empty(CONFIG_TOML),
            audits_src: SourceFile::new_empty(AUDITS_TOML),
            imports_src: SourceFile::new_empty(IMPORTS_LOCK),
        }
    }

    /// The store of the documents that were read under `lock`, with the
    /// live imports if any were fetched, once it has passed validation.
    pub fn acquire<F: Fn(Document) -> Result<String, StoreTomlError>>(
        lock: StoreLock,
        config: (SourceFile, ConfigFile),
        audits: (SourceFile, AuditsFile),
        imports: (SourceFile, ImportsFile),
        live_imports: Option<ImportsFile>,
        today: Date,
        check_file_formatting: bool,
        encode: &F,
    ) -> (r: Result<Store, StoreValidateErrors>)
        requires
            config.1.wf(),
            audits.1.wf(),
            imports.1.wf(),
            live_imports matches Some(live) ==> live.wf(),
            today.valid(),
            today.year < MAX_YEAR,
            forall|d: Document| encode.requires((d,)),
        ensures
            ({
                let store = StoreView {
                    lock: Some(lock.root@),
                    config: config.1.deep_view(),
                    imports: imports.1.deep_view(),
                    audits: audits.1.deep_view(),
                    live_imports: live_imports.deep_view(),
                    config_src: config.0.deep_view(),
                    imports_src: imports.0.deep_view(),
                    audits_src: audits.0.deep_view(),
                };
                match r {
                    Ok(s) => s.wf() && s.deep_view() == store && exists|texts: StoreTexts|
                        validated(*encode, store, today, check_file_formatting, texts, None),
                    Err(e) => exists|texts: StoreTexts|
                        validated(*encode, store, today, check_file_formatting, texts, Some(e)),
                }
            }),
    {
        let store = Store {
            lock: Some(lock),
            config: config.1,
            audits: audits.1,
            imports: imports.1,
            live_imports,
            config_src: config.0,
            audits_src: audits.0,
            imports_src: imports.0,
        };
        let ghost view = store.deep_view();
        let verdict = store.validate(today, check_file_formatting, encode);
        let ghost texts = choose|texts: StoreTexts|
            validated(*encode, view, today, check_file_formatting, texts, failure_of(verdict));
        assert(validated(*encode, view, today, check_file_formatting, texts, failure_of(verdict)));
        let r = match verdict {
            Ok(_) => Ok(store),
            Err(e) => Err(e),
        };
        proof {
            if r is Ok {
                assert(r->Ok_0.wf());
                assert(r->Ok_0.deep_view() == view);
                assert(validated(*encode, view, today, check_file_formatting, texts, None));
            } else {
                assert(validated(
                    *encode,
                    view,
                    today,
                    check_file_formatting,
                    texts,
                    Some(r->Err_0),
                ));
            }
        }
        r
    }

    /// The store of the documents that were read under `lock`, with
    /// nothing fetched, once it has passed validation.
    pub fn acquire_offline<F: Fn(Document) -> Result<String, StoreTomlError>>(
        lock: StoreLock,
        config: (SourceFile, ConfigFile),
        audits: (SourceFile, AuditsFile),
        imports: (SourceFile, ImportsFile),
        today: Date,
        check_file_formatting: bool,
        encode: &F,
    ) -> (r: Result<Store, StoreValidateErrors>)
        requires
            config.1.wf(),
            audits.1.wf(),
            imports.1.wf(),
            today.valid(),
            today.year < MAX_YEAR,
            forall|d: Document| encode.requires((d,)),
        ensures
            ({
                let store = StoreView {
                    lock: Some(lock.root@),
                    config: config.1.deep_view(),
                    imports: imports.1.deep_view(),
                    audits: audits.1.deep_view(),
                    live_imports: None,
                    config_src: config.0.deep_view(),
                    imports_src: imports.0.deep_view(),
                    audits_src: audits.0.deep_view(),
                };
                match r {
                    Ok(s) => s.wf() && s.deep_view() == store && exists|texts: StoreTexts|
                        validated(*encode, store, today, check_file_formatting, texts, None),
                    Err(e) => exists|texts: StoreTexts|
                        validated(*encode, store, today, check_file_formatting, texts, Some(e)),
                }
            }),
    {
        Store::acquire(lock, config, audits, imports, None, today, check_file_formatting, encode)
    }

    /// A copy of the store for finding audits to suggest: it holds no lock,
    /// and of the exemptions only those for which no audit may be
    /// suggested.
    pub fn clone_for_suggest(&self) -> (r: Store)
        requires
            self.wf(),
        ensures
            r.wf(),
            r.deep_view() == (StoreView {
                lock: None,
                config: config_for_suggest(self.deep_view().config),
                ..self.deep_view()
            }),
    {
        let ghost all = self.config.exemptions.deep_view();
        let ghost goal = config_for_suggest(self.deep_view().config).exemptions;
        let mut vals: Vec<Vec<ExemptedDependency>> = Vec::new();
        let mut i: usize = 0;
        while i < self.config.exemptions.len()
            invariant
                self.wf(),
                all == self.config.exemptions.deep_view(),
                goal == config_for_suggest(self.deep_view().config).exemptions,
                i <= all.len(),
                vals.deep_view() == goal.vals.take(i as int),
            decreases all.len() - i,
        {
            let versions = self.config.exemptions.value_at(i);
            let ghost list = versions.deep_view();
            let ghost keep = |e: ExemptedDependencyView| !e.suggest;
            let mut kept: Vec<ExemptedDependency> = Vec::new();
            assert(kept.deep_view() =~= list.take(0).filter(keep)) by {
                reveal(Seq::filter);
            }
            let mut j: usize = 0;
            while j < versions.len()
                invariant
                    list == versions.deep_view(),
                    keep == (|e: ExemptedDependencyView| !e.suggest),
                    j <= versions.len(),
                    kept.deep_view() == list.take(j as int).filter(keep),
                decreases versions.len() - j,
            {
                proof {
                    assert(list.take(j + 1).drop_last() =~= list.take(j as int));
                    assert(list.take(j + 1).last() == list[j as int]);
                    reveal(Seq::filter);
                }
                if !versions[j].suggest {
                    let ghost so_far = kept.deep_view();
                    let item = versions[j].duplicate();
                    kept.push(item);
                    assert(kept.deep_view() =~= so_far.push(list[j as int]));
                }
                j = j + 1;
            }
            assert(list.take(list.len() as int) =~= list);
            let ghost so_far = vals.deep_view();
            let ghost made = kept.deep_view();
            vals.push(kept);
            assert(vals.deep_view() =~= so_far.push(made));
            assert(vals.deep_view() =~= goal.vals.take(i + 1));
            i = i + 1;
        }
        assert(vals.deep_view() =~= goal.vals);
        let config = ConfigFile {
            default_criteria: self.config.default_criteria.clone(),
            imports: self.config.imports.duplicate(),
            policy: self.config.policy.duplicate(),
            exemptions: Table { keys: self.config.exemptions.keys.duplicate(), vals },
        };
        Store {
            lock: None,
            config,
            imports: self.imports.duplicate(),
            audits: self.audits.duplicate(),
            live_imports: self.live_imports.duplicate(),
            config_src: self.config_src.duplicate(),
            audits_src: self.audits_src.duplicate(),
            imports_src: self.imports_src.duplicate(),
        }
    }

    /// The imported audits to work on: those fetched in this run if there
    /// are any, else those of the imports lock.
    pub fn imported_audits(&self) -> (r: &Table<AuditsFile>)
        ensures
            *r == match self.live_imports {
                Some(live) => live.audits,
                None => self.imports.audits,
            },
    {
        match &self.live_imports {
            Some(live_imports) => &live_imports.audits,
            None => &self.imports.audits,
        }
    }

    /// The publishers to work on: those looked up in this run if anything
    /// was fetched, else those of the imports lock.
    pub fn publishers(&self) -> (r: &Table<Vec<CratesPublisher>>)
        ensures
            *r == match self.live_imports {
                Some(live) => live.publisher,
                None => self.imports.publisher,
            },
    {
        match &self.live_imports {
            Some(live_imports) => &live_imports.publisher,
            None => &self.imports.publisher,
        }
    }

    /// The texts of the three documents as the codec writes them.
    pub fn texts<F: Fn(Document) -> Result<String, StoreTomlError>>(&self, encode: &F) -> (r:
        StoreTexts)
        requires
            self.wf(),
            forall|d: Document| encode.requires((d,)),
        ensures
            written_by(*encode, self.deep_view(), r),
    {
        let config = config_for_writing(self.config.duplicate());
        let audits = audits_for_writing(self.audits.duplicate());
        let imports = self.imports.duplicate();
        let made_config = encode(Document::Config(&config));
        let made_audits = encode(Document::Audits(&audits));
        let made_imports = encode(Document::Imports(&imports));
        let ghost seen_config = made_config;
        let ghost seen_audits = made_audits;
        let ghost seen_imports = made_imports;
        let r = StoreTexts {
            config: store_toml(CONFIG_HEADING, made_config),
            audits: store_toml(AUDITS_HEADING, made_audits),
            imports: store_toml(IMPORTS_HEADING, made_imports),
        };
        proof {
            assert(encode.ensures((Document::Config(&config),), seen_config));
            assert(encode.ensures((Document::Audits(&audits),), seen_audits));
            assert(encode.ensures((Document::Imports(&imports),), seen_imports));
            assert(framed(CONFIG_HEADING@, seen_config, r.config));
            assert(framed(AUDITS_HEADING@, seen_audits, r.audits));
            assert(framed(IMPORTS_HEADING@, seen_imports, r.imports));
        }
        r
    }

    /// What is to be written to commit the store: nothing if the store
    /// holds no lock, else the names and the texts of the audits file, the
    /// config and the imports lock, in the order in which they are written.
    /// Fails with the first failure of the codec, in that order.
    pub fn commit<F: Fn(Document) -> Result<String, StoreTomlError>>(self, encode: &F) -> (r: Result<
        Vec<(String, String)>,
        StoreTomlError,
    >)
        requires
            self.wf(),
            forall|d: Document| encode.requires((d,)),
        ensures
            self.lock is None ==> (r matches Ok(files) && files.deep_view().len() == 0),
            self.lock is Some ==> exists|texts: StoreTexts|
                #[trigger] written_by(*encode, self.deep_view(), texts) && committed(texts, r),
    {
        if self.lock.is_none() {
            let nothing: Vec<(String, String)> = Vec::new();
            assert(nothing.deep_view() =~= Seq::empty());
            return Ok(nothing);
        }
        let texts = self.texts(encode);
        let ghost seen = texts;
        let r = Store::files_of(texts);
        assert(written_by(*encode, self.deep_view(), seen) && committed(seen, r));
        r
    }

    /// The three files of a store under their names, in the order in which
    /// a commit writes them, or the first failure in that order.
    pub fn files_of(texts: StoreTexts) -> (r: Result<Vec<(String, String)>, StoreTomlError>)
        ensures
            committed(texts, r),
    {
        let audits = match texts.audits {
            Ok(t) => t,
            Err(e) => {
                return Err(e);
            },
        };
        let config = match texts.config {
            Ok(t) => t,
            Err(e) => {
                return Err(e);
            },
        };
        let imports = match texts.imports {
            Ok(t) => t,
            Err(e) => {
                return Err(e);
            },
        };
        let mut files: Vec<(String, String)> = Vec::new();
        files.push((AUDITS_TOML.to_owned(), audits));
        files.push((CONFIG_TOML.to_owned(), config));
        files.push((IMPORTS_LOCK.to_owned(), imports));
        assert(files.deep_view() =~= seq![
            (crate::validate::audits_name(), audits@),
            (crate::validate::config_name(), config@),
            (imports_name(), imports@),
        ]);
        Ok(files)
    }

    /// The texts of the three documents under their names, as a commit
    /// would write them; the store stays as it is.
    pub fn mock_commit<F: Fn(Document) -> Result<String, StoreTomlError>>(&self, encode: &F) -> (r:
        Result<Vec<(String, String)>, StoreTomlError>)
        requires
            self.wf(),
            forall|d: Document| encode.requires((d,)),
        ensures
            exists|texts: StoreTexts|
                #[trigger] written_by(*encode, self.deep_view(), texts) && committed(texts, r),
    {
        let texts = self.texts(encode);
        let ghost seen = texts;
        let r = Store::files_of(texts);
        assert(written_by(*encode, self.deep_view(), seen) && committed(seen, r));
        r
    }

    /// Makes sure that the live imports hold the publishers of a package,
    /// and gives them. Without a downloader or without live imports nothing
    /// is looked up and no publisher is given.
    pub fn ensure_publisher_versions<
        Q: Fn(&str) -> Option<Vec<String>>,
        D: Fn(&str) -> Result<CratesAPICrate, FetchAuditError>,
    >(
        &mut self,
        metadata: &Metadata,
        cache: &mut PublisherCache,
        now: Timestamp,
        query_index: &Q,
        network: Option<&D>,
        package: &str,
    ) -> (r: Result<Vec<CratesPublisher>, FetchAuditError>)
        requires
            old(self).wf(),
            old(cache).wf(),
            network is Some && old(self).live_imports is Some ==> plain_name(package@),
            forall|name: &str| query_index.requires((name,)),
            network matches Some(download) ==> forall|url: &str| download.requires((url,)),
        ensures
            final(self).wf(),
            final(cache).wf(),
            network is None || old(self).live_imports is None ==> final(cache).deep_view() == old(
                cache,
            ).deep_view(),
            final(self).deep_view() == (StoreView {
                live_imports: final(self).deep_view().live_imports,
                ..old(self).deep_view()
            }),
            network is None || old(self).live_imports is None ==> final(self).deep_view() == old(
                self,
            ).deep_view() && r is Ok && r->Ok_0.deep_view().len() == 0,
            r is Err ==> final(self).deep_view() == old(self).deep_view(),
            network is Some && old(self).live_imports is Some ==> match r {
                Err(error) => exists|at: int|
                    lookup_failed(
                        old(cache).deep_view(),
                        now,
                        import_names(metadata.deep_view(), seq![package@]),
                        inputs_of(
                            metadata,
                            &old(self).config,
                            &old(self).audits,
                            &old(self).imports,
                            &old(self).live_imports->0,
                        ),
                        *query_index,
                        *network->0,
                        final(cache).deep_view(),
                        error,
                        at,
                    ),
                Ok(list) => {
                    &&& final(self).live_imports is Some
                    &&& list.deep_view() == list_of(
                        final(self).deep_view().live_imports->0.publisher,
                        package@,
                    )
                    &&& exists|found: Seq<(Seq<char>, Seq<PublisherCacheVersionView>)>|
                        {
                            &&& #[trigger] looked_up(
                                old(cache).deep_view(),
                                now,
                                import_names(metadata.deep_view(), seq![package@]),
                                inputs_of(
                                    metadata,
                                    &old(self).config,
                                    &old(self).audits,
                                    &old(self).imports,
                                    &old(self).live_imports->0,
                                ),
                                *query_index,
                                *network->0,
                                final(cache).deep_view(),
                                found,
                            )
                            &&& final(self).deep_view().live_imports->0.audits == old(
                                self,
                            ).deep_view().live_imports->0.audits
                            &&& final(self).deep_view().live_imports->0.publisher == with_found(
                                old(self).deep_view().live_imports->0.publisher,
                                found,
                                final(cache).deep_view().users,
                                old(self).deep_view().imports.publisher,
                            )
                        }
                },
            },
    {
        let nothing: Vec<CratesPublisher> = Vec::new();
        assert(nothing.deep_view() =~= Seq::empty());
        let download = match network {
            Some(download) => download,
            None => {
                return Ok(nothing);
            },
        };
        let mut live_imports = match self.live_imports.take() {
            Some(live_imports) => live_imports,
            None => {
                return Ok(nothing);
            },
        };
        let mut relevant: Vec<String> = Vec::new();
        relevant.push(package.to_owned());
        assert(relevant.deep_view() =~= seq![package@]);
        let outcome = import_publisher_versions(
            metadata,
            cache,
            now,
            &relevant,
            &self.config,
            &self.audits,
            &self.imports,
            &mut live_imports,
            query_index,
            download,
        );
        let found = match live_imports.publisher.get(package) {
            Some(list) => list.duplicate(),
            None => nothing,
        };
        self.live_imports = Some(live_imports);
        match outcome {
            Ok(_) => Ok(found),
            Err(e) => Err(e),
        }
    }

    /// Whether the imports lock no longer matches the imports of the
    /// config.
    pub fn imports_lock_outdated(&self) -> (r: bool)
        requires
            self.wf(),
        ensures
            r == lock_outdated(self.deep_view()),
    {
        if self.live_imports.is_some() {
            return false;
        }
        if !self.config.imports.keys.same(&self.imports.audits.keys) {
            return true;
        }
        let ghost config = self.config.deep_view().imports;
        let ghost lock = self.imports.deep_view().audits;
        let mut i: usize = 0;
        while i < self.config.imports.len()
            invariant
                self.wf(),
                config == self.config.deep_view().imports,
                lock == self.imports.deep_view().audits,
                config.keys == lock.keys,
                i <= config.len(),
                self.live_imports is None,
                forall|a: int, b: int| 0 <= a < i ==> !excluded_held(self.deep_view(), a, b),
            decreases config.len() - i,
        {
            let import = self.config.imports.value_at(i);
            let audits_file = self.imports.audits.value_at(i);
            assert(lock.vals[i as int].wf());
            let mut j: usize = 0;
            while j < import.exclude.len()
                invariant
                    self.wf(),
                    config == self.config.deep_view().imports,
                    lock == self.imports.deep_view().audits,
                    i < config.len(),
                    i < lock.len(),
                    import.deep_view() == config.vals[i as int],
                    audits_file.deep_view() == lock.vals[i as int],
                    audits_file.wf(),
                    j <= import.exclude.len(),
                    self.live_imports is None,
                    forall|a: int, b: int| 0 <= a < i ==> !excluded_held(self.deep_view(), a, b),
                    forall|b: int| 0 <= b < j ==> !excluded_held(self.deep_view(), i as int, b),
                decreases import.exclude.len() - j,
            {
                if audits_file.audits.contains_key(import.exclude[j].as_str()) {
                    assert(excluded_held(self.deep_view(), i as int, j as int));
                    return true;
                }
                j = j + 1;
            }
            i = i + 1;
        }
        false
    }

    /// Checks the store. All faults are gathered and reported together.
    pub fn validate<F: Fn(Document) -> Result<String, StoreTomlError>>(
        &self,
        today: Date,
        check_file_formatting: bool,
        encode: &F,
    ) -> (r: Result<(), StoreValidateErrors>)
        requires
            self.wf(),
            today.valid(),
            today.year < MAX_YEAR,
            forall|d: Document| encode.requires((d,)),
        ensures
            exists|texts: StoreTexts|
                validated(
                    *encode,
                    self.deep_view(),
                    today,
                    check_file_formatting,
                    texts,
                    failure_of(r),
                ),
    {
        let max = match plus_months(today, WILDCARD_MONTHS) {
            Some(day) => day,
            None => today,
        };
        let mut errors: Vec<StoreValidateError> = Vec::new();
        assert(errors.deep_view() =~= Seq::empty());
        check_contents(&self.config, &self.audits, max, &mut errors);
        let texts = if check_file_formatting {
            self.texts(encode)
        } else {
            StoreTexts {
                config: Ok(String::new()),
                audits: Ok(String::new()),
                imports: Ok(String::new()),
            }
        };
        if check_file_formatting {
            check_format(CONFIG_TOML, self.config_src.source(), &texts.config, &mut errors);
            check_format(AUDITS_TOML, self.audits_src.source(), &texts.audits, &mut errors);
            check_format(IMPORTS_LOCK, self.imports_src.source(), &texts.imports, &mut errors);
        }
        if self.imports_lock_outdated() {
            let ghost so_far = errors.deep_view();
            errors.push(StoreValidateError::ImportsLockOutdated);
            assert(errors.deep_view() =~= so_far.push(StoreValidateErrorView::ImportsLockOutdated));
        }
        assert(errors.deep_view() =~= store_faults(
            self.deep_view(),
            today,
            check_file_formatting,
            texts,
        ));
        let r = if errors.len() > 0 {
            Err(StoreValidateErrors { errors })
        } else {
            Ok(())
        };
        assert(validated(
            *encode,
            self.deep_view(),
            today,
            check_file_formatting,
            texts,
            failure_of(r),
        ));
        r
    }
}

/// The copy for suggestions holds exactly the exemptions for which no
/// audit may be suggested: an exemption is in the list of a package in the
/// copy if and only if it is in the list of that package in the store and
/// its `suggest` is false. `package` picks any position of the table of
/// exemptions.
pub proof fn law_suggest_copy_keeps_unsuggested(
    config: ConfigFileView,
    package: int,
    exemption: ExemptedDependencyView,
)
    requires
        0 <= package < config.exemptions.vals.len(),
    ensures
        config_for_suggest(config).exemptions.keys == config.exemptions.keys,
        config_for_suggest(config).exemptions.vals[package].contains(exemption) <==> (
        config.exemptions.vals[package].contains(exemption) && !exemption.suggest),
{
    broadcast use vstd::seq_lib::group_filter_ensures;

    let list = config.exemptions.vals[package];
    let keep = |e: ExemptedDependencyView| !e.suggest;
    let kept = list.filter(keep);
    assert(config_for_suggest(config).exemptions.vals[package] == kept);
    if kept.contains(exemption) {
        list.lemma_filter_contains_rev(keep, exemption);
    }
    if list.contains(exemption) && !exemption.suggest {
        let at = list.index_of(exemption);
        assert(keep(list[at]));
        assert(kept.contains(list[at]));
    }
}

/// A store that passes validation is in step with its config: if nothing
/// was fetched in this run, the imports lock holds exactly the peers that
/// the config names, and for no peer audits of a package that the config
/// excludes for it.
pub proof fn law_valid_store_has_current_lock(
    store: StoreView,
    today: Date,
    check_file_formatting: bool,
    texts: StoreTexts,
    peer: int,
    excluded: int,
)
    requires
        store_faults(store, today, check_file_formatting, texts).len() == 0,
        store.live_imports is None,
    ensures
        store.config.imports.keys == store.imports.audits.keys,
        !excluded_held(store, peer, excluded),
{
}

/// The faults that a verdict reports, if it reports any.
pub open spec fn failure_of(r: Result<(), StoreValidateErrors>) -> Option<StoreValidateErrors> {
    match r {
        Ok(_) => None,
        Err(e) => Some(e),
    }
}

/// `failure` is the verdict of validation on a store whose documents the
/// codec writes as `texts`: none if the store has no fault, else all its
/// faults.
pub open spec fn validated<F: Fn(Document) -> Result<String, StoreTomlError>>(
    encode: F,
    store: StoreView,
    today: Date,
    check_file_formatting: bool,
    texts: StoreTexts,
    failure: Option<StoreValidateErrors>,
) -> bool {
    &&& check_file_formatting ==> written_by(encode, store, texts)
    &&& match failure {
        None => store_faults(store, today, check_file_formatting, texts).len() == 0,
        Some(e) => e.errors.deep_view() == store_faults(store, today, check_file_formatting, texts)
            && e.errors.deep_view().len() > 0,
    }
}

/// `files` is what a commit writes of `texts`: the audits file, the config
/// and the imports lock under their names, or the first failure in that
/// order.
pub open spec fn committed(
    texts: StoreTexts,
    files: Result<Vec<(String, String)>, StoreTomlError>,
) -> bool {
    match (texts.audits, texts.config, texts.imports) {
        (Ok(audits), Ok(config), Ok(imports)) => files matches Ok(list) && list.deep_view() == seq![
            (crate::validate::audits_name(), audits@),
            (crate::validate::config_name(), config@),
            (imports_name(), imports@),
        ],
        (Err(e), _, _) => files == Err::<Vec<(String, String)>, StoreTomlError>(e),
        (Ok(_), Err(e), _) => files == Err::<Vec<(String, String)>, StoreTomlError>(e),
        (Ok(_), Ok(_), Err(e)) => files == Err::<Vec<(String, String)>, StoreTomlError>(e),
    }
}

} // verus!
