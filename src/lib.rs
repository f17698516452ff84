//! Search-result aggregation: provider payload normalisation, weighted merge,
//! exclusion filtering, cache records and the per-request decision steps.
pub mod cache;
pub mod clock;
pub mod constants;
pub mod exclusions;
pub mod json;
pub mod models;
pub mod options;
pub mod ranking;
pub mod search;
pub mod string_patterns;
pub mod text;
pub mod utils;
