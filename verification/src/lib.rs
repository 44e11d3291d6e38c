//! An in-memory cache that reconciles two independent keyed data sources:
//! a one-shot bulk snapshot and a live subscription stream of incremental
//! updates. Snapshot entries are merged with insert-if-absent semantics, so
//! they never clobber a fresher live value; subscription updates always
//! overwrite. Failures of either source are skipped silently: lookups
//! degrade to absence, never to an error.

pub mod cache;
pub mod event;
pub mod laws;

pub use cache::ApplyMode;
pub use cache::StreamCache;
pub use event::SourceEvent;
