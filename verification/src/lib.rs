//! A query engine for a structured system log.
//!
//! The engine turns a [`query::Query`] into the log store's native match
//! protocol, walks the store from newest to oldest entry, and projects the
//! requested fields into rows. The store itself is modelled as plain data
//! (see [`store`]), so the whole pipeline — configuration, filter
//! compilation, bounded traversal and full-entry retrieval — is verified.

pub mod boot;
pub mod filter;
pub mod journal;
pub mod journal_controller;
pub mod journal_entries;
pub mod journal_fields;
pub mod laws;
pub mod libsdjournal;
pub mod query;
pub mod query_builder;
pub mod store;
pub mod text;
pub mod unit;
