//! The query shapes of the web-search collaborator.

use vstd::prelude::*;

use crate::text::StrMap;

verus! {

/// The optional knobs a search query can carry.
#[derive(Debug, Default)]
pub struct SearchQueryOptions {
    pub answer_count: Option<String>,
    pub cc: Option<String>,
    pub count: Option<String>,
    pub freshness: Option<String>,
    pub mkt: Option<String>,
    pub offset: Option<String>,
    pub promote: Option<String>,
    pub response_filter: Option<String>,
    pub safe_search: Option<String>,
    pub set_lang: Option<String>,
    pub text_decorations: Option<String>,
    pub text_format: Option<String>,
}

/// One outgoing search query.
#[derive(Debug)]
pub struct SearchQuery {
    pub q: String,
    pub options: SearchQueryOptions,
}

/// A configured search-driven step: its input and output templates and
/// the transform evaluated against the result.
#[derive(Debug)]
pub struct ConfigSearchQuery {
    pub input: Option<String>,
    pub output: String,
    pub transform: Option<StrMap>,
    pub query_params: SearchQueryOptions,
}

} // verus!
