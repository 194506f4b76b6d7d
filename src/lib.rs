//! Typed client core for the Space-Track catalog service: a fluent query
//! builder that renders path-based query URLs, and the decisions that turn a
//! response status and decoded rows into results.

mod client;
mod error;
mod format;
mod query;
mod text;



pub use client::{SpaceTrackClient, BASE_URL};
pub use error::Error;
pub use format::Format;
pub use query::{
    accepted_status, base_path, decoding_for, format_suffix, has_format_clause, lemma_clause_order,
    lemma_default_format_suffix, lemma_format_reset, lemma_seg_concat_append,
    lemma_format_reset_single_segment, lemma_single_limit_clause, lemma_single_limit_in_url,
    limit_clause, non_empty, occurs_at, occurs_in, response_route, seg_concat, single, url_of, Decoding,
    QueryBuilder, QueryModel, RAW_PATH_HINT,
};
pub use text::{decimal, starts_with};
