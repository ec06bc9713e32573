//! Structural indexing of source repositories: a language-aware extractor
//! that turns raw source text into symbol, import, export and call-graph
//! facts, and an ingestion engine that applies those facts to a property
//! graph with idempotent, batched upserts.

#![verifier::loop_isolation(false)]

pub mod calls;
pub mod classify;
pub mod docs;
pub mod encode;
pub mod enrich;
pub mod exports;
pub mod extract;
pub mod facts;
pub mod imports;
pub mod index;
pub mod keyed;
pub mod lang;
pub mod reads;
pub mod store;
pub mod symbols;
pub mod text;
pub mod tree;
pub mod tsparse;

pub use lang::Language;
pub use lang::detect_language;
