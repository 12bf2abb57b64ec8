//! Backend logic for Homebrew bottle-download tracking: the bottle-filename
//! grammar, the project registry, the download counters, the redirect to the
//! release asset and the per-project statistics, together with the
//! pagination and response envelopes shared by the other resources.

pub mod brew;
pub mod config;
pub mod db;
pub mod error;
pub mod header;
pub mod json;
pub mod middlewares;
pub mod pagination;
pub mod response;
pub mod source;
pub mod sticker;
pub mod text;

pub use error::{ApiError, ApiResult};
pub use pagination::PaginationParams;
pub use response::{data_response, data_response_with_metadata, ApiResponse, Metadata};
