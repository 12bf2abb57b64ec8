//! API key authentication: a request is let through only if its
//! `x-api-key` header holds the configured key.

use crate::header::{header_value_bytes, header_value_to_str, visible_bytes};
use crate::json::{
    json_bool, json_int, json_model, json_object, json_text, object_insert, object_new, JsonModel,
};
use axum::http::header::HeaderValue;
use std::sync::Arc;
use vstd::prelude::*;
use vstd::utf8::encode_utf8;

verus! {

/// Application state containing the API key.
#[derive(Clone)]
pub struct AppState {
    pub api_key: Arc<String>,
}

/// Status of the answer to a request without the right key.
pub const UNAUTHORIZED: u16 = 401;

/// The answer to a request without the right key.
#[derive(Debug)]
pub struct Unauthorized {
    pub status: u16,
    pub body: serde_json::Value,
}

/// The body of the answer to a request without the right key.
pub open spec fn unauthorized_body() -> JsonModel {
    JsonModel::Object(
        Map::<Seq<char>, JsonModel>::empty().insert("status"@, JsonModel::Int(401)).insert(
            "success"@,
            JsonModel::Bool(false),
        ).insert(
            "error"@,
            JsonModel::Object(
                Map::<Seq<char>, JsonModel>::empty().insert(
                    "message"@,
                    JsonModel::Text("Invalid API key"@),
                ),
            ),
        ),
    )
}

/// The header holds the expected key: it is there, it is visible text, and
/// that text is the key.
pub open spec fn key_accepted(header: Option<&HeaderValue>, expected: Seq<char>) -> bool {
    header is Some && visible_bytes(header_value_bytes(*header->0)) && header_value_bytes(
        *header->0,
    ) == encode_utf8(expected)
}

/// Whether the text of the key header is the expected key.
pub fn api_key_matches(provided: Option<&str>, expected: &str) -> (ok: bool)
    ensures
        ok == (provided is Some && provided->0@ == expected@),
{
    match provided {
        Some(key) => crate::text::str_eq(key, expected),
        None => false,
    }
}

/// Decides on a request by its `x-api-key` header, if it has one: the
/// request goes on exactly when the header holds the configured key, and is
/// answered as unauthorized otherwise.
pub fn validate_api_key(state: &AppState, header: Option<&HeaderValue>) -> (r: Result<
    (),
    Unauthorized,
>)
    ensures
        r is Ok <==> key_accepted(header, (*state.api_key)@),
        r is Err ==> r->Err_0.status == 401 && json_model(r->Err_0.body) == unauthorized_body(),
{
    let provided = match header {
        Some(value) => header_value_to_str(value),
        None => None,
    };
    let expected: &String = &state.api_key;
    proof {
        if provided is Some {
            vstd::utf8::encode_utf8_decode_utf8(provided->0@);
            vstd::utf8::encode_utf8_decode_utf8(expected@);
        }
    }
    if api_key_matches(provided, expected.as_str()) {
        Ok(())
    } else {
        let mut error = object_new();
        object_insert(&mut error, "message".to_owned(), json_text("Invalid API key".to_owned()));
        let mut body = object_new();
        object_insert(&mut body, "status".to_owned(), json_int(401));
        object_insert(&mut body, "success".to_owned(), json_bool(false));
        object_insert(&mut body, "error".to_owned(), json_object(error));
        Err(Unauthorized { status: UNAUTHORIZED, body: json_object(body) })
    }
}

} // verus!
