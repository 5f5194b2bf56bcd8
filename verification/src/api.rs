//! The request and answer bodies of the HTTP boundary.

use vstd::prelude::*;

verus! {

/// A request to categorize one user message.
#[derive(Debug)]
pub struct CategorizeBody {
    pub message: String,
    pub user: String,
}

/// The category an endpoint was picked by.
#[derive(Debug)]
pub struct CategorizeResponse {
    pub category: String,
}

/// A chat request bound for a task endpoint.
#[derive(Debug)]
pub struct ChatBody {
    pub message: String,
    pub user: String,
}

/// A buffered chat answer.
#[derive(Debug)]
pub struct ChatResponse {
    pub response: String,
}

/// An assistant turn to append to a user's history.
#[derive(Debug)]
pub struct HistoryBody {
    pub message: String,
    pub user: String,
}

} // verus!
