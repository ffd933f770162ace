//! Turns bank-exported CSV transaction rows into double-entry ledger journal
//! entries, driven by a per-institution configuration: column layout, exclusion
//! predicates, amount sign conventions and ordered regex classification tables.
//!
//! The crate works on already-tokenized rows (sequences of string fields) and
//! an already-loaded configuration; reading files, parsing arguments and
//! writing output belong to the surrounding program.

pub mod bank2ledger;
pub mod dates;
pub mod errors;
pub mod ledger_record;
pub mod patterns;
pub mod settings;
pub mod text;
