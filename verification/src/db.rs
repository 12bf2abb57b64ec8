//! What is written to the table of source counters.

use vstd::prelude::*;

verus! {

/// One row of the table of sources: a referrer and how often it was seen.
#[derive(Debug, Clone)]
pub struct SourceRecord {
    pub id: i32,
    pub name: String,
    pub count: i32,
}

/// What to persist for one observation of a source.
#[derive(Debug, Clone)]
pub enum SourceWrite {
    /// No record exists yet: create one with this count.
    Insert { name: String, count: i32 },
    /// The record with this id exists: set its count to this value.
    Update { id: i32, count: i32 },
}

/// Decides how the counter of `source` is incremented, given the record
/// found for it, if any: an existing count grows by one, and a source seen
/// for the first time gets a record with count 1.
pub fn increment_source_in_db(existing: Option<&SourceRecord>, source: &str) -> (write:
    SourceWrite)
    requires
        existing is Some ==> existing->0.count < i32::MAX,
    ensures
        match existing {
            Some(record) => write matches SourceWrite::Update { id, count } && id == record.id
                && count == record.count + 1,
            None => write matches SourceWrite::Insert { name, count } && name@ == source@ && count
                == 1,
        },
{
    match existing {
        Some(record) => SourceWrite::Update { id: record.id, count: record.count + 1 },
        None => SourceWrite::Insert { name: source.to_owned(), count: 1 },
    }
}

} // verus!
