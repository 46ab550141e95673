//! Structures shared by several endpoint responses.

use vstd::prelude::*;

verus! {

/// Token accounting attached to a response.
#[derive(Debug, Clone)]
pub struct Usage {
    pub prompt_tokens: u64,
    pub completion_tokens: u64,
    pub total_tokens: u64,
}

/// Result of deleting a remote object.
#[derive(Debug, Clone)]
pub struct Delete {
    pub id: String,
    pub object: String,
    pub deleted: bool,
}

} // verus!
