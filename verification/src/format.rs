//! The documents of a store: the config, the audits, and the imports lock.

use vstd::prelude::*;
use crate::date::Date;
use crate::model::{Duplicate, Same};
use crate::table::{Table, TableView};
use crate::version::{VetVersion, VetVersionView};

verus! {

/// A criterion: what it means, and which other criteria it entails.
#[derive(Clone, Debug, PartialEq, Eq)]
pub struct CriteriaEntry {
    pub description: Option<String>,
    pub description_url: Option<String>,
    pub implies: Vec<String>,
}

pub struct CriteriaEntryView {
    pub description: Option<Seq<char>>,
    pub description_url: Option<Seq<char>>,
    pub implies: Seq<Seq<char>>,
}

impl DeepView for CriteriaEntry {
    type V = CriteriaEntryView;

    open spec fn deep_view(&self) -> CriteriaEntryView {
        CriteriaEntryView {
            description: self.description.deep_view(),
            description_url: self.description_url.deep_view(),
            implies: self.implies.deep_view(),
        }
    }
}

impl Duplicate for CriteriaEntry {
    fn duplicate(&self) -> (r: Self) {
        CriteriaEntry {
            description: self.description.duplicate(),
            description_url: self.description_url.duplicate(),
            implies: self.implies.duplicate(),
        }
    }
}

impl Same for CriteriaEntry {
    fn same(&self, other: &Self) -> (r: bool) {
        self.description.same(&other.description) && self.description_url.same(
            &other.description_url,
        ) && self.implies.same(&other.implies)
    }
}

/// What an audit is about: one version, the step between two versions, or
/// the versions that a requirement names as violating the criteria.
#[derive(Clone, Debug, PartialEq, Eq)]
pub enum AuditKind {
    Full { version: VetVersion },
    Delta { from: VetVersion, to: VetVersion },
    Violation { violation: String },
}

pub enum AuditKindView {
    Full { version: VetVersionView },
    Delta { from: VetVersionView, to: VetVersionView },
    Violation { violation: Seq<char> },
}

impl DeepView for AuditKind {
    type V = AuditKindView;

    open spec fn deep_view(&self) -> AuditKindView {
        match self {
            AuditKind::Full { version } => AuditKindView::Full { version: version.deep_view() },
            AuditKind::Delta { from, to } => AuditKindView::Delta {
                from: from.deep_view(),
                to: to.deep_view(),
            },
            AuditKind::Violation { violation } => AuditKindView::Violation {
                violation: violation@,
            },
        }
    }
}

impl Duplicate for AuditKind {
    fn duplicate(&self) -> (r: Self) {
        match self {
            AuditKind::Full { version } => AuditKind::Full { version: version.duplicate() },
            AuditKind::Delta { from, to } => AuditKind::Delta {
                from: from.duplicate(),
                to: to.duplicate(),
            },
            AuditKind::Violation { violation } => AuditKind::Violation {
                violation: violation.clone(),
            },
        }
    }
}

impl Same for AuditKind {
    fn same(&self, other: &Self) -> (r: bool) {
        match (self, other) {
            (AuditKind::Full { version: a }, AuditKind::Full { version: b }) => a.same(b),
            (AuditKind::Delta { from: a, to: b }, AuditKind::Delta { from: c, to: d }) => a.same(c)
                && b.same(d),
            (AuditKind::Violation { violation: a }, AuditKind::Violation { violation: b }) => *a
                == *b,
            _ => false,
        }
    }
}

/// One audit of a package.
#[derive(Clone, Debug, PartialEq, Eq)]
pub struct AuditEntry {
    pub who: Vec<String>,
    pub criteria: Vec<String>,
    pub kind: AuditKind,
    pub notes: Option<String>,
    /// Set on an imported audit that the imports lock did not hold yet.
    /// It is not part of the written document.
    pub is_fresh_import: bool,
}

pub struct AuditEntryView {
    pub who: Seq<Seq<char>>,
    pub criteria: Seq<Seq<char>>,
    pub kind: AuditKindView,
    pub notes: Option<Seq<char>>,
    pub is_fresh_import: bool,
}

impl AuditEntryView {
    /// The audit itself, with the freshness flag put down.
    pub open spec fn audit(self) -> AuditEntryView {
        AuditEntryView { is_fresh_import: false, ..self }
    }

    pub open spec fn with_criteria(self, criteria: Seq<Seq<char>>) -> AuditEntryView {
        AuditEntryView { criteria, ..self }
    }

    pub open spec fn with_fresh(self, fresh: bool) -> AuditEntryView {
        AuditEntryView { is_fresh_import: fresh, ..self }
    }
}

impl DeepView for AuditEntry {
    type V = AuditEntryView;

    open spec fn deep_view(&self) -> AuditEntryView {
        AuditEntryView {
            who: self.who.deep_view(),
            criteria: self.criteria.deep_view(),
            kind: self.kind.deep_view(),
            notes: self.notes.deep_view(),
            is_fresh_import: self.is_fresh_import,
        }
    }
}

impl Duplicate for AuditEntry {
    fn duplicate(&self) -> (r: Self) {
        AuditEntry {
            who: self.who.duplicate(),
            criteria: self.criteria.duplicate(),
            kind: self.kind.duplicate(),
            notes: self.notes.duplicate(),
            is_fresh_import: self.is_fresh_import,
        }
    }
}

impl AuditEntry {
    /// Whether two entries state the same audit: they agree in everything
    /// but the freshness flag.
    pub fn same_audit_as(&self, other: &AuditEntry) -> (r: bool)
        ensures
            r == (self.deep_view().audit() == other.deep_view().audit()),
    {
        self.who.same(&other.who) && self.criteria.same(&other.criteria) && self.kind.same(
            &other.kind,
        ) && self.notes.same(&other.notes)
    }
}

/// An audit of every version of a package that one user published between
/// two dates.
#[derive(Clone, Debug, PartialEq, Eq)]
pub struct WildcardEntry {
    pub who: Vec<String>,
    pub criteria: Vec<String>,
    pub user_id: u64,
    pub start: Date,
    pub end: Date,
    pub notes: Option<String>,
    /// Set on an imported audit that the imports lock did not hold yet.
    pub is_fresh_import: bool,
}

pub struct WildcardEntryView {
    pub who: Seq<Seq<char>>,
    pub criteria: Seq<Seq<char>>,
    pub user_id: u64,
    pub start: Date,
    pub end: Date,
    pub notes: Option<Seq<char>>,
    pub is_fresh_import: bool,
}

impl WildcardEntryView {
    /// The audit itself, with the freshness flag put down.
    pub open spec fn audit(self) -> WildcardEntryView {
        WildcardEntryView { is_fresh_import: false, ..self }
    }

    pub open spec fn with_criteria(self, criteria: Seq<Seq<char>>) -> WildcardEntryView {
        WildcardEntryView { criteria, ..self }
    }

    pub open spec fn with_fresh(self, fresh: bool) -> WildcardEntryView {
        WildcardEntryView { is_fresh_import: fresh, ..self }
    }
}

impl DeepView for WildcardEntry {
    type V = WildcardEntryView;

    open spec fn deep_view(&self) -> WildcardEntryView {
        WildcardEntryView {
            who: self.who.deep_view(),
            criteria: self.criteria.deep_view(),
            user_id: self.user_id,
            start: self.start,
            end: self.end,
            notes: self.notes.deep_view(),
            is_fresh_import: self.is_fresh_import,
        }
    }
}

impl Duplicate for WildcardEntry {
    fn duplicate(&self) -> (r: Self) {
        WildcardEntry {
            who: self.who.duplicate(),
            criteria: self.criteria.duplicate(),
            user_id: self.user_id,
            start: self.start,
            end: self.end,
            notes: self.notes.duplicate(),
            is_fresh_import: self.is_fresh_import,
        }
    }
}

impl WildcardEntry {
    /// Whether two entries state the same audit: they agree in everything
    /// but the freshness flag.
    pub fn same_audit_as(&self, other: &WildcardEntry) -> (r: bool)
        ensures
            r == (self.deep_view().audit() == other.deep_view().audit()),
    {
        self.who.same(&other.who) && self.criteria.same(&other.criteria) && self.user_id
            == other.user_id && self.start == other.start && self.end == other.end
            && self.notes.same(&other.notes)
    }
}

/// Where the audits of a peer are fetched from, and how they are read.
#[derive(Clone, Debug, PartialEq, Eq)]
pub struct ImportConfig {
    pub url: String,
    /// Packages whose audits are not taken from this peer.
    pub exclude: Vec<String>,
    /// For a criterion of the peer, the local criteria it stands for.
    pub criteria_map: Table<Vec<String>>,
}

pub struct ImportConfigView {
    pub url: Seq<char>,
    pub exclude: Seq<Seq<char>>,
    pub criteria_map: TableView<Seq<Seq<char>>>,
}

impl DeepView for ImportConfig {
    type V = ImportConfigView;

    open spec fn deep_view(&self) -> ImportConfigView {
        ImportConfigView {
            url: self.url@,
            exclude: self.exclude.deep_view(),
            criteria_map: self.criteria_map.deep_view(),
        }
    }
}

impl Duplicate for ImportConfig {
    fn duplicate(&self) -> (r: Self) {
        ImportConfig {
            url: self.url.clone(),
            exclude: self.exclude.duplicate(),
            criteria_map: self.criteria_map.duplicate(),
        }
    }
}

/// The rule for one package of the build graph.
#[derive(Clone, Debug, PartialEq, Eq)]
pub struct PolicyEntry {
    pub criteria: Option<Vec<String>>,
    pub dev_criteria: Option<Vec<String>>,
    /// For a dependency of the package, the criteria asked of it.
    pub dependency_criteria: Table<Vec<String>>,
}

pub struct PolicyEntryView {
    pub criteria: Option<Seq<Seq<char>>>,
    pub dev_criteria: Option<Seq<Seq<char>>>,
    pub dependency_criteria: TableView<Seq<Seq<char>>>,
}

impl DeepView for PolicyEntry {
    type V = PolicyEntryView;

    open spec fn deep_view(&self) -> PolicyEntryView {
        PolicyEntryView {
            criteria: self.criteria.deep_view(),
            dev_criteria: self.dev_criteria.deep_view(),
            dependency_criteria: self.dependency_criteria.deep_view(),
        }
    }
}

impl Duplicate for PolicyEntry {
    fn duplicate(&self) -> (r: Self) {
        PolicyEntry {
            criteria: self.criteria.duplicate(),
            dev_criteria: self.dev_criteria.duplicate(),
            dependency_criteria: self.dependency_criteria.duplicate(),
        }
    }
}

/// A version that is let through without an audit.
#[derive(Clone, Debug, PartialEq, Eq)]
pub struct ExemptedDependency {
    pub version: VetVersion,
    pub criteria: Vec<String>,
    /// Whether an audit of this version may be suggested.
    pub suggest: bool,
    pub notes: Option<String>,
}

pub struct ExemptedDependencyView {
    pub version: VetVersionView,
    pub criteria: Seq<Seq<char>>,
    pub suggest: bool,
    pub notes: Option<Seq<char>>,
}

impl DeepView for ExemptedDependency {
    type V = ExemptedDependencyView;

    open spec fn deep_view(&self) -> ExemptedDependencyView {
        ExemptedDependencyView {
            version: self.version.deep_view(),
            criteria: self.criteria.deep_view(),
            suggest: self.suggest,
            notes: self.notes.deep_view(),
        }
    }
}

impl Duplicate for ExemptedDependency {
    fn duplicate(&self) -> (r: Self) {
        ExemptedDependency {
            version: self.version.duplicate(),
            criteria: self.criteria.duplicate(),
            suggest: self.suggest,
            notes: self.notes.duplicate(),
        }
    }
}

/// `config.toml`.
#[derive(Clone, Debug, PartialEq, Eq)]
pub struct ConfigFile {
    pub default_criteria: String,
    pub imports: Table<ImportConfig>,
    pub policy: Table<PolicyEntry>,
    pub exemptions: Table<Vec<ExemptedDependency>>,
}

pub struct ConfigFileView {
    pub default_criteria: Seq<char>,
    pub imports: TableView<ImportConfigView>,
    pub policy: TableView<PolicyEntryView>,
    pub exemptions: TableView<Seq<ExemptedDependencyView>>,
}

impl ConfigFileView {
    pub open spec fn wf(self) -> bool {
        &&& self.imports.wf()
        &&& self.policy.wf()
        &&& self.exemptions.wf()
        &&& forall|i: int|
            0 <= i < self.imports.vals.len() ==> (#[trigger] self.imports.vals[i]).criteria_map.wf()
        &&& forall|i: int|
            0 <= i < self.policy.vals.len() ==> (
            #[trigger] self.policy.vals[i]).dependency_criteria.wf()
    }

    pub open spec fn empty() -> Self {
        ConfigFileView {
            default_criteria: Seq::empty(),
            imports: TableView::empty(),
            policy: TableView::empty(),
            exemptions: TableView::empty(),
        }
    }
}

impl DeepView for ConfigFile {
    type V = ConfigFileView;

    open spec fn deep_view(&self) -> ConfigFileView {
        ConfigFileView {
            default_criteria: self.default_criteria@,
            imports: self.imports.deep_view(),
            policy: self.policy.deep_view(),
            exemptions: self.exemptions.deep_view(),
        }
    }
}

impl Duplicate for ConfigFile {
    fn duplicate(&self) -> (r: Self) {
        ConfigFile {
            default_criteria: self.default_criteria.clone(),
            imports: self.imports.duplicate(),
            policy: self.policy.duplicate(),
            exemptions: self.exemptions.duplicate(),
        }
    }
}

impl ConfigFile {
    pub open spec fn wf(&self) -> bool {
        self.deep_view().wf()
    }

    /// A config without imports, rules or exemptions.
    pub fn new() -> (r: ConfigFile)
        ensures
            r.wf(),
            r.deep_view() == ConfigFileView::empty(),
    {
        ConfigFile {
            default_criteria: String::new(),
            imports: Table::new(),
            policy: Table::new(),
            exemptions: Table::new(),
        }
    }
}

/// `audits.toml`, and the shape of what a peer publishes.
#[derive(Clone, Debug, PartialEq, Eq)]
pub struct AuditsFile {
    pub criteria: Table<CriteriaEntry>,
    pub wildcard_audits: Table<Vec<WildcardEntry>>,
    pub audits: Table<Vec<AuditEntry>>,
}

pub struct AuditsFileView {
    pub criteria: TableView<CriteriaEntryView>,
    pub wildcard_audits: TableView<Seq<WildcardEntryView>>,
    pub audits: TableView<Seq<AuditEntryView>>,
}

impl AuditsFileView {
    pub open spec fn wf(self) -> bool {
        &&& self.criteria.wf()
        &&& self.wildcard_audits.wf()
        &&& self.audits.wf()
    }

    pub open spec fn empty() -> Self {
        AuditsFileView {
            criteria: TableView::empty(),
            wildcard_audits: TableView::empty(),
            audits: TableView::empty(),
        }
    }
}

impl DeepView for AuditsFile {
    type V = AuditsFileView;

    open spec fn deep_view(&self) -> AuditsFileView {
        AuditsFileView {
            criteria: self.criteria.deep_view(),
            wildcard_audits: self.wildcard_audits.deep_view(),
            audits: self.audits.deep_view(),
        }
    }
}

impl Duplicate for AuditsFile {
    fn duplicate(&self) -> (r: Self) {
        AuditsFile {
            criteria: self.criteria.duplicate(),
            wildcard_audits: self.wildcard_audits.duplicate(),
            audits: self.audits.duplicate(),
        }
    }
}

impl AuditsFile {
    pub open spec fn wf(&self) -> bool {
        self.deep_view().wf()
    }

    /// An audits file without criteria or audits.
    pub fn new() -> (r: AuditsFile)
        ensures
            r.wf(),
            r.deep_view() == AuditsFileView::empty(),
    {
        AuditsFile { criteria: Table::new(), wildcard_audits: Table::new(), audits: Table::new() }
    }
}

/// Who published a version of a package, as the registry tells it.
#[derive(Clone, Debug, PartialEq, Eq)]
pub struct CratesPublisher {
    pub version: VetVersion,
    pub user_id: u64,
    pub user_login: String,
    pub user_name: Option<String>,
    /// The day on which the version was published.
    pub when: Date,
    /// Set on a record that the imports lock did not hold yet.
    pub is_fresh_import: bool,
}

pub struct CratesPublisherView {
    pub version: VetVersionView,
    pub user_id: u64,
    pub user_login: Seq<char>,
    pub user_name: Option<Seq<char>>,
    pub when: Date,
    pub is_fresh_import: bool,
}

impl DeepView for CratesPublisher {
    type V = CratesPublisherView;

    open spec fn deep_view(&self) -> CratesPublisherView {
        CratesPublisherView {
            version: self.version.deep_view(),
            user_id: self.user_id,
            user_login: self.user_login@,
            user_name: self.user_name.deep_view(),
            when: self.when,
            is_fresh_import: self.is_fresh_import,
        }
    }
}

impl Duplicate for CratesPublisher {
    fn duplicate(&self) -> (r: Self) {
        CratesPublisher {
            version: self.version.duplicate(),
            user_id: self.user_id,
            user_login: self.user_login.clone(),
            user_name: self.user_name.duplicate(),
            when: self.when,
            is_fresh_import: self.is_fresh_import,
        }
    }
}

/// `imports.lock`: what was last taken from each peer, in local criteria,
/// and the publishers that were looked up.
#[derive(Clone, Debug, PartialEq, Eq)]
pub struct ImportsFile {
    pub publisher: Table<Vec<CratesPublisher>>,
    pub audits: Table<AuditsFile>,
}

pub struct ImportsFileView {
    pub publisher: TableView<Seq<CratesPublisherView>>,
    pub audits: TableView<AuditsFileView>,
}

impl ImportsFileView {
    pub open spec fn wf(self) -> bool {
        &&& self.publisher.wf()
        &&& self.audits.wf()
        &&& forall|i: int| 0 <= i < self.audits.vals.len() ==> (#[trigger] self.audits.vals[i]).wf()
    }

    pub open spec fn empty() -> Self {
        ImportsFileView { publisher: TableView::empty(), audits: TableView::empty() }
    }
}

impl DeepView for ImportsFile {
    type V = ImportsFileView;

    open spec fn deep_view(&self) -> ImportsFileView {
        ImportsFileView {
            publisher: self.publisher.deep_view(),
            audits: self.audits.deep_view(),
        }
    }
}

impl Duplicate for ImportsFile {
    fn duplicate(&self) -> (r: Self) {
        ImportsFile { publisher: self.publisher.duplicate(), audits: self.audits.duplicate() }
    }
}

impl ImportsFile {
    pub open spec fn wf(&self) -> bool {
        self.deep_view().wf()
    }

    /// An imports lock that holds nothing.
    pub fn new() -> (r: ImportsFile)
        ensures
            r.wf(),
            r.deep_view() == ImportsFileView::empty(),
    {
        ImportsFile { publisher: Table::new(), audits: Table::new() }
    }
}

} // verus!
