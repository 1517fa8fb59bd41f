//! Combinatorial library enumeration: compatibility matching, reaction-result
//! validation, deduplication and size-bounded batching, on plain values.

pub mod adapters;
pub mod aggregate;
pub mod batch;
pub mod binding;
pub mod counter;
pub mod dedup;
pub mod duration;
pub mod error;
pub mod executor;
pub mod filter;
pub mod histogram;
pub mod import;
pub mod label;
pub mod matching;
pub mod select;
pub mod sizing;
pub mod slug;
pub mod standardize;
