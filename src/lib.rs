//! A file-backed personal archive of dated entries and maps of content.
//!
//! The library holds the archive's rules: the ordered-list codec, the lazy
//! attribute cache of entities, the validation of configuration records, the
//! commit protocol, the backup reconciliation and tag search. Every change to
//! the backing container store is expressed as a sequence of [`store::Op`]
//! values that the caller carries out against the store.

pub mod store;
pub mod list;
pub mod cache;
pub mod search;
pub mod archive;
pub mod config;
pub mod record;
pub mod entity;
pub mod entry;
pub mod moc;
pub mod document;
