//! Source data models and request/response types.

use vstd::prelude::*;

verus! {

/// Request payload for incrementing a source counter.
#[derive(Debug, Clone)]
pub struct SourceRequest {
    pub source: String,
}

/// Response structure for source data.
#[derive(Debug, Clone)]
pub struct SourceResponse {
    pub id: i64,
    pub name: String,
    pub count: i32,
    pub created_at: String,
    pub updated_at: String,
}

} // verus!
