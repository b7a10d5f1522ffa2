//! A small todo library: todos have a free-text description and a
//! pending/completed status, live in a collection keyed by unique ids,
//! and are manipulated through four operations (create, list, update
//! status, delete) driven by positional command-line words.
//!
//! The collection semantics are modelled by an in-memory store whose
//! operations carry full contracts; the input words (operation, filter,
//! status, id) are validated by exact parsers that reject anything
//! outside the allowed value sets before any store operation runs.

pub mod command;
pub mod laws;
pub mod store;
pub mod todo;
