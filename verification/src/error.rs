//! The errors of the public HTTP boundary, each with its status and the
//! message a client is shown.

use crate::json::{json_model, json_object, json_text, object_insert, object_new, JsonModel};
use vstd::prelude::*;

verus! {

/// Why a request failed.
#[derive(Debug, Clone)]
pub enum ApiError {
    /// The input is invalid; holds the detail shown to the client.
    ValidationFailed(String),
    /// The resource does not exist; holds the detail shown to the client.
    NotFound(String),
    /// An internal operation failed; holds the cause, which stays server-side.
    Internal(String),
    /// A database operation failed; holds the cause, which stays server-side.
    Database(String),
}

/// Status of a response to invalid input.
pub const BAD_REQUEST: u16 = 400;

/// Status of a response about a missing resource.
pub const NOT_FOUND: u16 = 404;

/// Status of a response to a failure on the server's side.
pub const INTERNAL_SERVER_ERROR: u16 = 500;

impl ApiError {
    /// The HTTP status of the error.
    pub open spec fn status_spec(self) -> u16 {
        match self {
            ApiError::ValidationFailed(_) => 400,
            ApiError::NotFound(_) => 404,
            ApiError::Internal(_) | ApiError::Database(_) => 500,
        }
    }

    /// The text of the error itself, with its detail or cause.
    pub open spec fn message_spec(self) -> Seq<char> {
        match self {
            ApiError::ValidationFailed(detail) => "validation failed: "@ + detail@,
            ApiError::NotFound(detail) => "resource not found: "@ + detail@,
            ApiError::Internal(cause) => cause@,
            ApiError::Database(_) => "database operation failed"@,
        }
    }

    /// The text a client is shown: the detail of its own mistakes, and a
    /// fixed sentence for failures on the server's side.
    pub open spec fn client_message_spec(self) -> Seq<char> {
        match self {
            ApiError::Internal(_) => "Internal server error"@,
            ApiError::Database(_) => "Database operation failed"@,
            _ => self.message_spec(),
        }
    }

    /// Maps the error to its HTTP status code.
    #[must_use]
    pub fn status_code(&self) -> (code: u16)
        ensures
            code == self.status_spec(),
    {
        match self {
            ApiError::ValidationFailed(_) => BAD_REQUEST,
            ApiError::NotFound(_) => NOT_FOUND,
            ApiError::Internal(_) | ApiError::Database(_) => INTERNAL_SERVER_ERROR,
        }
    }

    /// A validation error with the given detail.
    pub fn validation(msg: String) -> (e: Self)
        ensures
            e == ApiError::ValidationFailed(msg),
    {
        ApiError::ValidationFailed(msg)
    }

    /// A not-found error with the given detail.
    pub fn not_found(msg: String) -> (e: Self)
        ensures
            e == ApiError::NotFound(msg),
    {
        ApiError::NotFound(msg)
    }

    /// An internal error with the given cause.
    pub fn internal(cause: String) -> (e: Self)
        ensures
            e == ApiError::Internal(cause),
    {
        ApiError::Internal(cause)
    }

    /// The text of the error itself.
    pub fn message(&self) -> (text: String)
        ensures
            text@ == self.message_spec(),
    {
        match self {
            ApiError::ValidationFailed(detail) => "validation failed: ".to_owned().concat(
                detail.as_str(),
            ),
            ApiError::NotFound(detail) => "resource not found: ".to_owned().concat(
                detail.as_str(),
            ),
            ApiError::Internal(cause) => cause.clone(),
            ApiError::Database(_) => "database operation failed".to_owned(),
        }
    }

    /// The text a client is shown. Causes of server-side failures never
    /// appear in it.
    pub fn client_message(&self) -> (text: String)
        ensures
            text@ == self.client_message_spec(),
    {
        match self {
            ApiError::Internal(_) => "Internal server error".to_owned(),
            ApiError::Database(_) => "Database operation failed".to_owned(),
            _ => self.message(),
        }
    }
}

/// The body of the answer to a failed request: an object whose only member,
/// `error`, holds the message.
pub open spec fn error_envelope(message: Seq<char>) -> JsonModel {
    JsonModel::Object(
        Map::<Seq<char>, JsonModel>::empty().insert(
            "error"@,
            JsonModel::Object(
                Map::<Seq<char>, JsonModel>::empty().insert("message"@, JsonModel::Text(message)),
            ),
        ),
    )
}

/// The answer to a failed request: its status and its body.
#[derive(Debug)]
pub struct ErrorResponse {
    pub status: u16,
    pub body: serde_json::Value,
}

impl ApiError {
    /// The answer that reports the error to the client: the status of the
    /// error, and a body with the message that the client may see.
    pub fn into_response(self) -> (r: ErrorResponse)
        ensures
            r.status == self.status_spec(),
            json_model(r.body) == error_envelope(self.client_message_spec()),
    {
        let status = self.status_code();
        let mut inner = object_new();
        object_insert(&mut inner, "message".to_owned(), json_text(self.client_message()));
        let mut object = object_new();
        object_insert(&mut object, "error".to_owned(), json_object(inner));
        ErrorResponse { status, body: json_object(object) }
    }
}

/// Result of an API operation.
pub type ApiResult<T> = Result<T, ApiError>;

} // verus!
