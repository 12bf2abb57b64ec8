//! Stickers: the pictures of a sticker are kept as a JSON list of texts, and
//! lists of stickers are served by pages.

use crate::error::ApiError;
use crate::json::{is_texts, json_model, texts_from_value, texts_model, texts_to_value};
use crate::pagination::PaginationParams;
use crate::response::{page_in_reach, Metadata};
use vstd::prelude::*;

verus! {

/// Where the list of stickers is served.
pub open spec fn stickers_link() -> Seq<char> {
    "/secure/stickers"@
}

/// `r` is the internal error with `cause`.
pub open spec fn fails_with<T>(r: Result<T, ApiError>, cause: Seq<char>) -> bool {
    r is Err && r->Err_0 is Internal && r->Err_0->Internal_0@ == cause
}

/// The pictures that a decoder gave, or the internal error that says with
/// `context` that it gave none.
pub fn pictures_or<E>(decoded: Result<Vec<String>, E>, context: &str) -> (r: Result<
    Vec<String>,
    ApiError,
>)
    ensures
        decoded is Ok ==> r == Ok::<Vec<String>, ApiError>(decoded->Ok_0),
        decoded is Err ==> fails_with(r, context@),
{
    match decoded {
        Ok(pictures) => Ok(pictures),
        Err(_) => Err(ApiError::internal(context.to_owned())),
    }
}

/// Reads the pictures of a sticker from the JSON document that the table
/// holds. The document must be a list of texts; anything else is an internal
/// error with `context` as its cause.
pub fn parse_pictures(document: serde_json::Value, context: &str) -> (r: Result<
    Vec<String>,
    ApiError,
>)
    ensures
        r is Ok <==> is_texts(json_model(document)),
        r is Ok ==> json_model(document) == texts_model(r->Ok_0@),
        r is Err ==> fails_with(r, context@),
{
    pictures_or(texts_from_value(document), context)
}

/// Writes the pictures of a sticker as the JSON document that the table
/// holds: the list of the texts.
pub fn pictures_document(pictures: &Vec<String>) -> (r: Result<serde_json::Value, ApiError>)
    ensures
        r is Ok,
        json_model(r->Ok_0) == texts_model(pictures@),
{
    match texts_to_value(pictures) {
        Ok(document) => Ok(document),
        Err(_) => Err(ApiError::internal("Failed to serialize pictures to JSON".to_owned())),
    }
}

/// The metadata of one page of the stickers, from the validated parameters
/// and the number of all stickers. There is none for a page that lies beyond
/// the end of the list.
pub fn stickers_metadata(params: &PaginationParams, total_count: u32) -> (m: Option<Metadata>)
    ensures
        m is Some <==> page_in_reach(params.page as int, params.limit as int, total_count as int),
        m is Some ==> m->0.describes(params.page, params.limit, total_count, stickers_link()),
{
    Metadata::try_paginated(params.page, params.limit, total_count, "/secure/stickers".to_owned())
}

} // verus!
