use axum::http::header::HeaderValue;
use serde_json::Value;
use std::sync::Arc;
use vps_back::db::{increment_source_in_db, SourceRecord, SourceWrite};
use vps_back::error::ApiError;
use vps_back::middlewares::auth::{api_key_matches, validate_api_key, AppState};
use vps_back::pagination::{default_limit, default_page, PaginationParams};
use vps_back::response::{
    data_response, data_response_with_metadata, metadata_json, total_pages, ApiResponse, Metadata,
};
use vps_back::source::handlers::{get_all_sources, increment_source};
use vps_back::sticker::{parse_pictures, pictures_document, stickers_metadata};
use vps_back::text::{decimal, matches_at, str_eq, to_chars};

fn object(members: Vec<(&str, Value)>) -> Value {
    let mut map = serde_json::Map::new();
    for (key, value) in members {
        map.insert(key.to_string(), value);
    }
    Value::Object(map)
}

#[test]
fn errors_map_to_their_status() {
    assert_eq!(ApiError::validation("bad".to_string()).status_code(), 400);
    assert_eq!(ApiError::not_found("gone".to_string()).status_code(), 404);
    assert_eq!(ApiError::internal("boom".to_string()).status_code(), 500);
    assert_eq!(ApiError::Database("down".to_string()).status_code(), 500);
}

#[test]
fn errors_have_their_text() {
    assert_eq!(ApiError::validation("bad".to_string()).message(), "validation failed: bad");
    assert_eq!(ApiError::not_found("gone".to_string()).message(), "resource not found: gone");
    assert_eq!(ApiError::internal("boom".to_string()).message(), "boom");
    assert_eq!(ApiError::Database("down".to_string()).message(), "database operation failed");
}

#[test]
fn clients_never_see_internal_causes() {
    assert_eq!(ApiError::internal("secret".to_string()).client_message(), "Internal server error");
    assert_eq!(
        ApiError::Database("secret".to_string()).client_message(),
        "Database operation failed"
    );
    assert_eq!(ApiError::validation("bad".to_string()).client_message(), "validation failed: bad");
    assert_eq!(
        ApiError::not_found("gone".to_string()).client_message(),
        "resource not found: gone"
    );
}

#[test]
fn errors_answer_with_status_and_body() {
    let answer = ApiError::not_found("Unknown project: x".to_string()).into_response();
    assert_eq!(answer.status, 404);
    let message = Value::from("resource not found: Unknown project: x");
    assert_eq!(answer.body, object(vec![("error", object(vec![("message", message)]))]));
    let answer = ApiError::internal("disk full".to_string()).into_response();
    assert_eq!(answer.status, 500);
    assert_eq!(answer.body["error"]["message"], Value::from("Internal server error"));
}

#[test]
fn wraps_data_into_the_envelope() {
    let body = data_response(Value::from(5));
    assert_eq!(body, object(vec![("data", Value::from(5))]));
    let body = data_response(Value::Null);
    assert_eq!(body, object(vec![("data", Value::Null)]));
}

#[test]
fn pagination_defaults() {
    assert_eq!(default_page(), 1);
    assert_eq!(default_limit(), 20);
    let params = PaginationParams::default();
    assert_eq!(params.page, 1);
    assert_eq!(params.limit, 20);
    assert_eq!(params.offset(), 0);
    assert_eq!(params.limit_u64(), 20);
}

#[test]
fn offset_skips_the_pages_before() {
    assert_eq!(PaginationParams { page: 3, limit: 20 }.offset(), 40);
    assert_eq!(PaginationParams { page: 1, limit: 100 }.offset(), 0);
    assert_eq!(PaginationParams { page: 0, limit: 100 }.offset(), 0);
    assert_eq!(PaginationParams { page: 7, limit: 0 }.offset(), 0);
    assert_eq!(PaginationParams { page: u32::MAX, limit: 100 }.offset(), 429_496_729_400);
    assert_eq!(PaginationParams { page: 2, limit: u32::MAX }.limit_u64(), 4_294_967_295);
}

#[test]
fn validate_brings_parameters_into_range() {
    let cases = [
        ((0, 0), (1, 20)),
        ((0, 50), (1, 50)),
        ((5, 0), (5, 20)),
        ((5, 100), (5, 100)),
        ((5, 101), (5, 100)),
        ((u32::MAX, u32::MAX), (u32::MAX, 100)),
        ((1, 1), (1, 1)),
    ];
    for ((page, limit), (valid_page, valid_limit)) in cases {
        let mut params = PaginationParams { page, limit };
        params.validate();
        assert_eq!((params.page, params.limit), (valid_page, valid_limit));
        params.validate();
        assert_eq!((params.page, params.limit), (valid_page, valid_limit));
    }
}

#[test]
fn minimal_metadata_is_empty() {
    let m = Metadata::minimal();
    assert_eq!(m.page, None);
    assert_eq!(m.limit, None);
    assert_eq!(m.page_count, None);
    assert_eq!(m.total_pages, None);
    assert_eq!(m.total_count, None);
    assert!(m._links.is_none());
}

#[test]
fn metadata_of_a_first_page() {
    let m = Metadata::paginated(1, 20, 45, "/secure/source".to_string());
    assert_eq!(m.page, Some(1));
    assert_eq!(m.limit, Some(20));
    assert_eq!(m.page_count, Some(20));
    assert_eq!(m.total_pages, Some(3));
    assert_eq!(m.total_count, Some(45));
    let links = m._links.unwrap();
    assert_eq!(links.self_link, "/secure/source");
    assert_eq!(links.next.as_deref(), Some("/secure/source?page=2&limit=20"));
    assert_eq!(links.prev, None);
}

#[test]
fn metadata_of_a_last_page() {
    let m = Metadata::paginated(3, 20, 45, "/secure/stickers".to_string());
    assert_eq!(m.page_count, Some(5));
    assert_eq!(m.total_pages, Some(3));
    let links = m._links.unwrap();
    assert_eq!(links.next, None);
    assert_eq!(links.prev.as_deref(), Some("/secure/stickers?page=2&limit=20"));
}

#[test]
fn metadata_of_a_middle_page() {
    let m = Metadata::paginated(10, 100, 1_000_000, "/l".to_string());
    assert_eq!(m.page_count, Some(100));
    assert_eq!(m.total_pages, Some(10_000));
    let links = m._links.unwrap();
    assert_eq!(links.next.as_deref(), Some("/l?page=11&limit=100"));
    assert_eq!(links.prev.as_deref(), Some("/l?page=9&limit=100"));
}

#[test]
fn metadata_of_an_empty_list() {
    let m = Metadata::paginated(1, 20, 0, "/l".to_string());
    assert_eq!(m.page_count, Some(0));
    assert_eq!(m.total_pages, Some(0));
    let links = m._links.unwrap();
    assert_eq!(links.next, None);
    assert_eq!(links.prev, None);
}

#[test]
fn no_metadata_beyond_the_end() {
    assert!(Metadata::try_paginated(2, 20, 0, "/l".to_string()).is_none());
    assert!(Metadata::try_paginated(0, 20, 0, "/l".to_string()).is_none());
    assert!(Metadata::try_paginated(1, 0, 10, "/l".to_string()).is_none());
    assert!(Metadata::try_paginated(5, 20, 45, "/l".to_string()).is_none());
    assert!(Metadata::try_paginated(u32::MAX, u32::MAX, u32::MAX, "/l".to_string()).is_none());
    let m = Metadata::try_paginated(4, 20, 60, "/l".to_string()).unwrap();
    assert_eq!(m.page_count, Some(0));
    let m = Metadata::try_paginated(0, 20, 45, "/l".to_string()).unwrap();
    assert_eq!(m.page_count, Some(20));
    assert_eq!(m._links.unwrap().next.as_deref(), Some("/l?page=1&limit=20"));
}

#[test]
fn counts_pages() {
    assert_eq!(total_pages(0, 20), 0);
    assert_eq!(total_pages(1, 20), 1);
    assert_eq!(total_pages(20, 20), 1);
    assert_eq!(total_pages(21, 20), 2);
    assert_eq!(total_pages(u32::MAX, 1), u32::MAX);
    assert_eq!(total_pages(u32::MAX, 2), 2_147_483_648);
    assert_eq!(total_pages(u32::MAX, u32::MAX), 1);
}

#[test]
fn responses_carry_data_and_metadata() {
    let plain = ApiResponse::data(7);
    assert!(plain._metadata.is_none());
    assert_eq!(plain.data, 7);
    let full = ApiResponse::with_metadata("x", Metadata::paginated(1, 10, 5, "/l".to_string()));
    assert_eq!(full.data, "x");
    assert_eq!(full._metadata.unwrap().page_count, Some(5));
}

#[test]
fn writes_numbers_in_decimal() {
    assert_eq!(decimal(0), "0");
    assert_eq!(decimal(7), "7");
    assert_eq!(decimal(10), "10");
    assert_eq!(decimal(1905), "1905");
    assert_eq!(decimal(u32::MAX), "4294967295");
}

#[test]
fn compares_strings_by_characters() {
    assert!(str_eq("", ""));
    assert!(str_eq("rona", "rona"));
    assert!(!str_eq("rona", "ron"));
    assert!(!str_eq("rona", "ronb"));
    assert!(str_eq("caf\u{e9}", "caf\u{e9}"));
    assert_eq!(to_chars("a\u{e9}b"), vec!['a', '\u{e9}', 'b']);
    let text = to_chars("bottle");
    assert!(matches_at(&text, 3, &to_chars("tle")));
    assert!(matches_at(&text, 6, &to_chars("")));
    assert!(!matches_at(&text, 7, &to_chars("")));
    assert!(!matches_at(&text, 4, &to_chars("tle")));
    assert!(!matches_at(&text, usize::MAX, &to_chars("b")));
}

#[test]
fn the_right_key_is_let_through() {
    let state = AppState { api_key: Arc::new("s3cret".to_string()) };
    let header = HeaderValue::from_static("s3cret");
    assert!(validate_api_key(&state, Some(&header)).is_ok());
    assert!(api_key_matches(Some("s3cret"), "s3cret"));
}

#[test]
fn any_other_key_is_unauthorized() {
    let state = AppState { api_key: Arc::new("s3cret".to_string()) };
    let wrong = HeaderValue::from_static("s3cret ");
    let opaque = HeaderValue::from_bytes(b"s3cret\xff").unwrap();
    for header in [None, Some(&wrong), Some(&opaque)] {
        let refused = validate_api_key(&state, header).unwrap_err();
        assert_eq!(refused.status, 401);
        let expected = object(vec![
            ("status", Value::from(401)),
            ("success", Value::from(false)),
            ("error", object(vec![("message", Value::from("Invalid API key"))])),
        ]);
        assert_eq!(refused.body, expected);
    }
    assert!(!api_key_matches(None, "s3cret"));
    assert!(!api_key_matches(Some(""), "s3cret"));
}

#[test]
fn a_key_that_is_not_text_never_matches() {
    let state = AppState { api_key: Arc::new("caf\u{e9}".to_string()) };
    let header = HeaderValue::from_str("caf\u{e9}").unwrap();
    assert!(validate_api_key(&state, Some(&header)).is_err());
}

#[test]
fn a_source_is_inserted_or_updated() {
    match increment_source_in_db(None, "newsletter") {
        SourceWrite::Insert { name, count } => {
            assert_eq!(name, "newsletter");
            assert_eq!(count, 1);
        }
        SourceWrite::Update { .. } => panic!("a new source is inserted"),
    }
    let record = SourceRecord { id: 3, name: "newsletter".to_string(), count: 9 };
    match increment_source_in_db(Some(&record), "newsletter") {
        SourceWrite::Update { id, count } => {
            assert_eq!(id, 3);
            assert_eq!(count, 10);
        }
        SourceWrite::Insert { .. } => panic!("a known source is updated"),
    }
}

#[test]
fn lists_a_page_of_sources() {
    let list = vec![
        SourceRecord { id: 1, name: "github".to_string(), count: 4 },
        SourceRecord { id: 2, name: "linkedin".to_string(), count: -1 },
    ];
    let params = PaginationParams { page: 1, limit: 2 };
    let page = get_all_sources(&params, 5, &list).unwrap();
    let counts = object(vec![("github", Value::from(4)), ("linkedin", Value::from(-1))]);
    assert_eq!(page.data, object(vec![("sources", counts)]));
    assert_eq!(page.metadata.total_pages, Some(3));
    assert_eq!(page.metadata.page_count, Some(2));
    let links = page.metadata._links.unwrap();
    assert_eq!(links.self_link, "/secure/source");
    assert_eq!(links.next.as_deref(), Some("/secure/source?page=2&limit=2"));
    assert!(get_all_sources(&PaginationParams { page: 9, limit: 2 }, 5, &list).is_none());
}

#[test]
fn answers_an_increment_with_the_count() {
    let body = increment_source("github", 12);
    assert_eq!(body, object(vec![("data", object(vec![("github", Value::from(12))]))]));
}

#[test]
fn a_page_of_sources_has_its_body() {
    let list = vec![SourceRecord { id: 1, name: "github".to_string(), count: 4 }];
    let params = PaginationParams { page: 2, limit: 1 };
    let body = get_all_sources(&params, 3, &list).unwrap().into_body();
    let links = object(vec![
        ("self", Value::from("/secure/source")),
        ("next", Value::from("/secure/source?page=3&limit=1")),
        ("prev", Value::from("/secure/source?page=1&limit=1")),
    ]);
    let metadata = object(vec![
        ("page", Value::from(2)),
        ("limit", Value::from(1)),
        ("page_count", Value::from(1)),
        ("total_pages", Value::from(3)),
        ("total_count", Value::from(3)),
        ("_links", links),
    ]);
    let data = object(vec![("sources", object(vec![("github", Value::from(4))]))]);
    assert_eq!(body, object(vec![("_metadata", metadata), ("data", data)]));
}

#[test]
fn metadata_leaves_out_what_is_not_set() {
    assert_eq!(metadata_json(&Metadata::minimal()), object(vec![]));
    let last = Metadata::paginated(1, 20, 5, "/l".to_string());
    let document = metadata_json(&last);
    assert_eq!(document["_links"], object(vec![("self", Value::from("/l"))]));
    assert_eq!(document["page_count"], Value::from(5));
    let body = data_response_with_metadata(Value::from("x"), &Metadata::minimal());
    assert_eq!(body, object(vec![("_metadata", object(vec![])), ("data", Value::from("x"))]));
}

#[test]
fn reads_the_pictures_of_a_sticker() {
    let document =
        Value::Array(vec![Value::from("a.png"), Value::from(""), Value::from("caf\u{e9}.jpg")]);
    assert_eq!(parse_pictures(document, "context").unwrap(), vec!["a.png", "", "caf\u{e9}.jpg"]);
    assert!(parse_pictures(Value::Array(Vec::new()), "context").unwrap().is_empty());
}

#[test]
fn refuses_pictures_that_are_no_list_of_texts() {
    let mixed = Value::Array(vec![Value::from("a.png"), Value::from(1)]);
    let nested = Value::Array(vec![Value::Array(vec![Value::from("a.png")])]);
    let documents = [
        Value::Null,
        Value::from("a.png"),
        Value::from(3),
        Value::from(true),
        object(vec![("0", Value::from("a.png"))]),
        mixed,
        nested,
        Value::Array(vec![Value::Null]),
    ];
    for document in documents {
        match parse_pictures(document, "Failed to parse pictures JSON") {
            Err(ApiError::Internal(cause)) => assert_eq!(cause, "Failed to parse pictures JSON"),
            other => panic!("expected an internal error, got {other:?}"),
        }
    }
}

#[test]
fn writes_the_pictures_of_a_sticker() {
    let pictures = vec!["a.png".to_string(), "b.png".to_string()];
    let document = pictures_document(&pictures).unwrap();
    assert_eq!(document, Value::Array(vec![Value::from("a.png"), Value::from("b.png")]));
    assert_eq!(parse_pictures(document, "context").unwrap(), pictures);
    assert_eq!(pictures_document(&Vec::new()).unwrap(), Value::Array(Vec::new()));
}

#[test]
fn pages_of_stickers_have_their_metadata() {
    let params = PaginationParams { page: 2, limit: 20 };
    let m = stickers_metadata(&params, 45).unwrap();
    assert_eq!(m.page_count, Some(20));
    let links = m._links.unwrap();
    assert_eq!(links.self_link, "/secure/stickers");
    assert_eq!(links.next.as_deref(), Some("/secure/stickers?page=3&limit=20"));
    assert_eq!(links.prev.as_deref(), Some("/secure/stickers?page=1&limit=20"));
    assert!(stickers_metadata(&PaginationParams { page: 4, limit: 20 }, 45).is_none());
}
