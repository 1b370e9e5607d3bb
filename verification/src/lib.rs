//! Analysis of GraphQL usage in a code base: extraction of the GraphQL
//! documents embedded in tagged templates, and per-field usage counts of a
//! schema over a corpus of operations and fragments.

pub mod digest;
pub mod document;
pub mod fragments;
pub mod lookup;
pub mod parse;
pub mod query_extractor;
pub mod query_log;
pub mod schema_stats;
pub mod schema_text;
pub mod source_module;
pub mod text;
pub mod usage_laws;
pub mod validation;
