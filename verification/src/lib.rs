//! Query engine and paginator over an in-memory catalog of country records.
//!
//! - `data`: the country record.
//! - `matchers`: the criteria of a search and the decision for one country.
//! - `engine`: one criterion run over the catalog.
//! - `api`: the searches, one function for each.
//! - `query`: the parameters of a request's query string.
//! - `pagination`: pages of a list and the link to the next page.
//! - `pattern`: regular expressions, from the `regex` crate.
//! - `text`, `search`: helpers on characters and sequences.

pub mod api;
pub mod data;
pub mod engine;
pub mod matchers;
pub mod pagination;
pub mod pattern;
pub mod query;
pub mod search;
pub mod text;
