//! The store and the cache of a tool that keeps track of which third-party
//! packages of a build have been audited, and to which criteria.
//!
//! The store holds three documents: the config, the audits, and the imports
//! lock, which is what was last taken from the audits of peers. The cache
//! holds fetched packages, diffs between their versions, and what the
//! registry told about their publishers.
//!
//! This crate decides and computes. It does not touch the disk or the
//! network: its callers read, write, download and run other programs, and
//! hand in what they got. Texts of documents are made and read by codecs
//! that the callers hand in as functions.

use vstd::prelude::*;

pub mod assoc;
pub mod cache;
pub mod coalesce;
pub mod codec;
pub mod criteria;
pub mod date;
pub mod diff;
pub mod diffstat;
pub mod entry;
pub mod fetch;
pub mod foreign;
pub mod format;
pub mod gc;
pub mod import_fetch;
pub mod import_laws;
pub mod imports;
pub mod metadata;
pub mod model;
pub mod order;
pub mod paths;
pub mod publisher_cache;
pub mod publisher_import;
pub mod publishers;
pub mod store;
pub mod table;
pub mod text;
pub mod unpack;
pub mod url;
pub mod validate;
pub mod version;
pub mod words;

verus! {

/// The name of the directory of a store in a project.
pub const DEFAULT_STORE: &'static str = "supply-chain";

} // verus!
