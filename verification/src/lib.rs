//! Hybrid package search with machine-checked contracts.
//!
//! A search combines full-text relevance with vector similarity where an
//! embedding of the query can be had, and returns a ranked, filtered page of
//! package records.
//!
//! - [`score`]: exact rational relevance scores.
//! - [`package`]: the records, the parameters and the results of a search.
//! - [`fusion`] and [`fusion_laws`]: Reciprocal Rank Fusion and what holds
//!   of it.
//! - [`fulltext`] and [`fulltext_laws`]: the full-text adapter, its
//!   substring fallback, and what holds of a fallback answer.
//! - [`vector`]: the vector adapter and the rows of a column store.
//! - [`filter`] and [`page`]: what a search keeps, and which part of it a
//!   caller gets.
//! - [`orchestrator`]: mode selection and the way from candidates to
//!   results.
//! - [`store`] and [`json`]: compressed records and their hydration.
//! - [`bedrock_client`], [`duckdb_client`], [`lancedb_client`] and
//!   [`sqlite_client`]: what each client knows and decides. The connections
//!   and the calls over them are the caller's.
//! - [`backend`], [`params`], [`query_text`], [`text`], [`error`]: what the
//!   others build on.
//!
//! Nothing here reads a file, a socket, a clock or the environment: what
//! comes from outside is handed in as plain values.

pub mod backend;
pub mod bedrock_client;
pub mod duckdb_client;
pub mod error;
pub mod filter;
pub mod fulltext;
pub mod fulltext_laws;
pub mod fusion;
pub mod fusion_laws;
pub mod json;
pub mod lancedb_client;
pub mod orchestrator;
pub mod package;
pub mod page;
pub mod params;
pub mod query_text;
pub mod score;
pub mod sqlite_client;
pub mod store;
pub mod text;
pub mod vector;
