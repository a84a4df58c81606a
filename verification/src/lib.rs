//! Core of a service that keeps a local store of approved project
//! submissions ("ships") in step with a remote tabular dataset, and serves
//! the synchronized rows for listing and nearest-neighbor search.
//!
//! The modules here hold the verified logic: field extraction from raw
//! records, string sanitization, date parsing, the store with its
//! insert-or-replace semantics, the sweep state machine, and the search
//! path over stored embeddings. All network and database traffic stays
//! outside, handing this crate plain values.

pub mod date;
pub mod embedding;
pub mod raw;
pub mod search;
pub mod ship;
pub mod store;
pub mod sync;
pub mod text;

pub use text::sanitize;
