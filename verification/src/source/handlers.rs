//! The answers of the source endpoints, built from what the table holds.

use crate::db::SourceRecord;
use crate::json::{json_int, json_model, json_object, object_insert, object_members, object_new, JsonModel};
use crate::pagination::PaginationParams;
use crate::response::{
    data_envelope, data_envelope_with_metadata, data_response, data_response_with_metadata,
    page_in_reach, Metadata,
};
use vstd::prelude::*;

verus! {

/// Where the list of sources is served.
pub open spec fn sources_link() -> Seq<char> {
    "/secure/source"@
}

/// The counts by name: each name holds the count of the last row of that
/// name.
pub open spec fn sources_members(list: Seq<SourceRecord>) -> Map<Seq<char>, JsonModel>
    decreases list.len(),
{
    if list.len() == 0 {
        Map::empty()
    } else {
        sources_members(list.drop_last()).insert(
            list.last().name@,
            JsonModel::Int(list.last().count as int),
        )
    }
}

/// The document of a list of sources: under `sources`, the counts by name.
pub open spec fn sources_document(list: Seq<SourceRecord>) -> JsonModel {
    JsonModel::Object(
        Map::<Seq<char>, JsonModel>::empty().insert(
            "sources"@,
            JsonModel::Object(sources_members(list)),
        ),
    )
}

/// The document of one counter: the count under the name of the source.
pub open spec fn counter_document(source: Seq<char>, count: int) -> JsonModel {
    JsonModel::Object(Map::<Seq<char>, JsonModel>::empty().insert(source, JsonModel::Int(count)))
}

/// One page of the list of sources.
#[derive(Debug)]
pub struct SourcesPage {
    pub data: serde_json::Value,
    pub metadata: Metadata,
}

impl SourcesPage {
    /// The body of the answer: the data and the metadata in the envelope of
    /// a response.
    pub fn into_body(self) -> (body: serde_json::Value)
        ensures
            json_model(body) == data_envelope_with_metadata(json_model(self.data), self.metadata),
    {
        data_response_with_metadata(self.data, &self.metadata)
    }
}

/// Builds the answer to a request for one page of the sources, from the
/// validated parameters, the number of all sources and the rows of the page.
/// There is no answer for a page that lies beyond the end of the list.
pub fn get_all_sources(params: &PaginationParams, total_count: u32, list: &Vec<SourceRecord>) -> (r:
    Option<SourcesPage>)
    ensures
        r is Some <==> page_in_reach(params.page as int, params.limit as int, total_count as int),
        r is Some ==> json_model(r->0.data) == sources_document(list@) && r->0.metadata.describes(
            params.page,
            params.limit,
            total_count,
            sources_link(),
        ),
{
    let metadata = match Metadata::try_paginated(
        params.page,
        params.limit,
        total_count,
        "/secure/source".to_owned(),
    ) {
        Some(metadata) => metadata,
        None => {
            return None;
        },
    };
    let mut counts = object_new();
    let mut i: usize = 0;
    while i < list.len()
        invariant
            i <= list@.len(),
            object_members(counts) == sources_members(list@.take(i as int)),
        decreases list@.len() - i,
    {
        let row = &list[i];
        object_insert(&mut counts, row.name.clone(), json_int(row.count as i64));
        proof {
            assert(list@.take(i + 1).drop_last() =~= list@.take(i as int));
        }
        i += 1;
    }
    proof {
        assert(list@.take(i as int) =~= list@);
    }
    let mut data = object_new();
    object_insert(&mut data, "sources".to_owned(), json_object(counts));
    Some(SourcesPage { data: json_object(data), metadata })
}

/// Builds the answer to an increment: the envelope of the count that the
/// source has now, under its name.
pub fn increment_source(source: &str, count: i32) -> (body: serde_json::Value)
    ensures
        json_model(body) == data_envelope(counter_document(source@, count as int)),
{
    let mut counter = object_new();
    object_insert(&mut counter, source.to_owned(), json_int(count as i64));
    data_response(json_object(counter))
}

} // verus!
