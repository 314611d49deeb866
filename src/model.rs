//! The bodies that callers send and receive.
use vstd::prelude::*;

verus! {

/// The body of a scrape request: the page to fetch and an optional wait,
/// handed to the agent unchanged.
#[derive(Debug, Clone, PartialEq, Eq)]
pub struct ScrapeRequestBody {
    pub url: String,
    pub wait_ms: Option<u32>,
}

/// The body of a request that creates a user.
#[derive(Debug, Clone, PartialEq, Eq)]
pub struct CreateUser {
    pub username: String,
}

/// A user as returned to a caller.
#[derive(Debug, Clone, PartialEq, Eq)]
pub struct User {
    pub id: u64,
    pub username: String,
}

} // verus!
