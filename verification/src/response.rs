//! The response envelope: the data, and for lists the metadata of the page.

use crate::json::{
    json_int, json_model, json_object, json_text, object_insert, object_members, object_new,
    JsonModel,
};
use crate::text::{decimal, decimal_spec, opt_view};
use vstd::prelude::*;

verus! {

/// Links from one page of a list to its neighbours.
#[derive(Debug, Clone)]
pub struct Links {
    pub self_link: String,
    pub next: Option<String>,
    pub prev: Option<String>,
}

/// Metadata of a paginated response.
#[derive(Debug, Clone)]
pub struct Metadata {
    pub page: Option<u32>,
    pub limit: Option<u32>,
    pub page_count: Option<u32>,
    pub total_pages: Option<u32>,
    pub total_count: Option<u32>,
    pub _links: Option<Links>,
}

/// Standard API response.
#[derive(Debug, Clone)]
pub struct ApiResponse<T> {
    pub _metadata: Option<Metadata>,
    pub data: T,
}

/// The number of pages that `total_count` items fill, `limit` to a page,
/// the last one possibly in part.
pub open spec fn total_pages_spec(total_count: int, limit: int) -> int
    recommends
        limit > 0,
{
    if total_count % limit == 0 {
        total_count / limit
    } else {
        total_count / limit + 1
    }
}

/// The number of items on `page`: a full page before the last one, and
/// what is left on the last.
pub open spec fn page_count_spec(page: int, limit: int, total_count: int) -> int {
    if page < total_pages_spec(total_count, limit) {
        limit
    } else {
        total_count - (page - 1) * limit
    }
}

/// The pages for which metadata can be computed: a page before the last
/// one, or a page from 1 on whose items start within the total count.
pub open spec fn page_in_reach(page: int, limit: int, total_count: int) -> bool {
    limit > 0 && (page < total_pages_spec(total_count, limit) || (page >= 1 && (page - 1) * limit
        <= total_count))
}

/// The link to a page of the list at `self_link`.
pub open spec fn link_text(self_link: Seq<char>, page: nat, limit: nat) -> Seq<char> {
    self_link + "?page="@ + decimal_spec(page) + "&limit="@ + decimal_spec(limit)
}

/// The number of pages is the least that holds all items.
pub proof fn lemma_total_pages_is_ceiling(total_count: int, limit: int)
    requires
        total_count >= 0,
        limit > 0,
    ensures
        total_pages_spec(total_count, limit) >= 0,
        total_pages_spec(total_count, limit) * limit >= total_count,
        (total_pages_spec(total_count, limit) - 1) * limit < total_count || total_count == 0,
{
    let q = total_count / limit;
    let r = total_count % limit;
    assert(total_count == q * limit + r && 0 <= r < limit && q >= 0) by (nonlinear_arith)
        requires
            q == total_count / limit,
            r == total_count % limit,
            total_count >= 0,
            limit > 0,
    ;
    assert((q + 1) * limit == q * limit + limit && (q - 1) * limit == q * limit - limit)
        by (nonlinear_arith);
}

/// Computes the number of pages.
pub fn total_pages(total_count: u32, limit: u32) -> (pages: u32)
    requires
        limit > 0,
    ensures
        pages == total_pages_spec(total_count as int, limit as int),
{
    proof {
        let t = total_count as int;
        let l = limit as int;
        assert(t % l != 0 ==> t / l + 1 <= t) by (nonlinear_arith)
            requires
                t >= 0,
                l >= 1,
        ;
    }
    if total_count % limit == 0 {
        total_count / limit
    } else {
        total_count / limit + 1
    }
}

/// Writes the link to a page of the list at `self_link`.
fn page_link(self_link: &str, page: u32, limit: u32) -> (link: String)
    ensures
        link@ == link_text(self_link@, page as nat, limit as nat),
{
    let mut link = self_link.to_owned();
    link.append("?page=");
    link.append(decimal(page).as_str());
    link.append("&limit=");
    link.append(decimal(limit).as_str());
    link
}

impl Metadata {
    /// Metadata of a response that is not paginated: nothing is set.
    #[must_use]
    pub fn minimal() -> (m: Self)
        ensures
            m.page is None,
            m.limit is None,
            m.page_count is None,
            m.total_pages is None,
            m.total_count is None,
            m._links is None,
    {
        Metadata {
            page: None,
            limit: None,
            page_count: None,
            total_pages: None,
            total_count: None,
            _links: None,
        }
    }

    /// `self` is the metadata of `page` of a list of `total_count` items at
    /// `self_link`, `limit` to a page.
    pub open spec fn describes(
        self,
        page: u32,
        limit: u32,
        total_count: u32,
        self_link: Seq<char>,
    ) -> bool {
        let total_pages = total_pages_spec(total_count as int, limit as int);
        &&& self.page == Some(page)
        &&& self.limit == Some(limit)
        &&& self.total_count == Some(total_count)
        &&& self.total_pages is Some && self.total_pages->0 == total_pages
        &&& self.page_count is Some && self.page_count->0 == page_count_spec(
            page as int,
            limit as int,
            total_count as int,
        )
        &&& self._links is Some
        &&& self._links->0.self_link@ == self_link
        &&& opt_view(self._links->0.next) == if page < total_pages {
            Some(link_text(self_link, (page + 1) as nat, limit as nat))
        } else {
            None
        }
        &&& opt_view(self._links->0.prev) == if page > 1 {
            Some(link_text(self_link, (page - 1) as nat, limit as nat))
        } else {
            None
        }
    }

    /// Metadata of one page of a list: the counts, and links to the page
    /// itself and to its neighbours where they exist.
    #[must_use]
    pub fn paginated(page: u32, limit: u32, total_count: u32, self_link: String) -> (m: Self)
        requires
            page_in_reach(page as int, limit as int, total_count as int),
        ensures
            m.describes(page, limit, total_count, self_link@),
    {
        let total_pages: u32 = total_pages(total_count, limit);
        let page_count: u32 = if page < total_pages {
            limit
        } else {
            total_count - (page - 1) * limit
        };
        let next = if page < total_pages {
            Some(page_link(self_link.as_str(), page + 1, limit))
        } else {
            None
        };
        let prev = if page > 1 {
            Some(page_link(self_link.as_str(), page - 1, limit))
        } else {
            None
        };
        Metadata {
            page: Some(page),
            limit: Some(limit),
            page_count: Some(page_count),
            total_pages: Some(total_pages),
            total_count: Some(total_count),
            _links: Some(Links { self_link, next, prev }),
        }
    }
}

impl Metadata {
    /// Metadata of one page of a list, for any page: none for a page that
    /// lies beyond the end of the list or for a limit of zero.
    #[must_use]
    pub fn try_paginated(page: u32, limit: u32, total_count: u32, self_link: String) -> (m: Option<
        Self,
    >)
        ensures
            m is Some <==> page_in_reach(page as int, limit as int, total_count as int),
            m is Some ==> m->0.describes(page, limit, total_count, self_link@),
    {
        if limit == 0 {
            return None;
        }
        let total_pages: u32 = total_pages(total_count, limit);
        if page < total_pages {
            return Some(Metadata::paginated(page, limit, total_count, self_link));
        }
        if page == 0 {
            return None;
        }
        let before: u64 = (page - 1) as u64;
        let wide: u64 = limit as u64;
        assert(before * wide <= 0xffff_ffff * 0xffff_ffff) by (nonlinear_arith)
            requires
                before <= 0xffff_ffff,
                wide <= 0xffff_ffff,
        ;
        assert(before * wide == (page - 1) * limit) by (nonlinear_arith)
            requires
                before == page - 1,
                wide == limit,
        ;
        if before * wide <= total_count as u64 {
            Some(Metadata::paginated(page, limit, total_count, self_link))
        } else {
            None
        }
    }
}

impl<T> ApiResponse<T> {
    /// A response with data only.
    pub fn data(data: T) -> (r: Self)
        ensures
            r._metadata is None,
            r.data == data,
    {
        ApiResponse { _metadata: None, data }
    }

    /// A response with data and metadata.
    pub fn with_metadata(data: T, metadata: Metadata) -> (r: Self)
        ensures
            r._metadata == Some(metadata),
            r.data == data,
    {
        ApiResponse { _metadata: Some(metadata), data }
    }
}

/// The envelope of a document: an object whose only member, `data`, is the
/// document.
pub open spec fn data_envelope(data: JsonModel) -> JsonModel {
    JsonModel::Object(Map::<Seq<char>, JsonModel>::empty().insert("data"@, data))
}

/// Wraps a document into the envelope of a response with data only.
pub fn data_response(data: serde_json::Value) -> (body: serde_json::Value)
    ensures
        json_model(body) == data_envelope(json_model(data)),
{
    let mut object = object_new();
    object_insert(&mut object, "data".to_owned(), data);
    json_object(object)
}

/// `members` with `key` holding the number, if there is one.
pub open spec fn with_number(
    members: Map<Seq<char>, JsonModel>,
    key: Seq<char>,
    number: Option<u32>,
) -> Map<Seq<char>, JsonModel> {
    match number {
        Some(n) => members.insert(key, JsonModel::Int(n as int)),
        None => members,
    }
}

/// `members` with `key` holding the text, if there is one.
pub open spec fn with_text(
    members: Map<Seq<char>, JsonModel>,
    key: Seq<char>,
    text: Option<Seq<char>>,
) -> Map<Seq<char>, JsonModel> {
    match text {
        Some(t) => members.insert(key, JsonModel::Text(t)),
        None => members,
    }
}

/// The document of the links of a page: `self` always, `next` and `prev`
/// where they exist.
pub open spec fn links_model(links: Links) -> JsonModel {
    JsonModel::Object(
        with_text(
            with_text(
                Map::<Seq<char>, JsonModel>::empty().insert(
                    "self"@,
                    JsonModel::Text(links.self_link@),
                ),
                "next"@,
                opt_view(links.next),
            ),
            "prev"@,
            opt_view(links.prev),
        ),
    )
}

/// The numbers of a page's metadata, each under its name if it is set.
pub open spec fn counts_members(metadata: Metadata) -> Map<Seq<char>, JsonModel> {
    with_number(
        with_number(
            with_number(
                with_number(
                    with_number(Map::<Seq<char>, JsonModel>::empty(), "page"@, metadata.page),
                    "limit"@,
                    metadata.limit,
                ),
                "page_count"@,
                metadata.page_count,
            ),
            "total_pages"@,
            metadata.total_pages,
        ),
        "total_count"@,
        metadata.total_count,
    )
}

/// The document of a page's metadata: its numbers, and its links under
/// `_links` if it has any.
pub open spec fn metadata_model(metadata: Metadata) -> JsonModel {
    JsonModel::Object(
        match metadata._links {
            Some(links) => counts_members(metadata).insert("_links"@, links_model(links)),
            None => counts_members(metadata),
        },
    )
}

/// The envelope of a document with metadata: `_metadata` and `data`.
pub open spec fn data_envelope_with_metadata(data: JsonModel, metadata: Metadata) -> JsonModel {
    JsonModel::Object(
        Map::<Seq<char>, JsonModel>::empty().insert("_metadata"@, metadata_model(metadata)).insert(
            "data"@,
            data,
        ),
    )
}

/// Writes a number under `key`, if there is one.
fn insert_number(
    object: &mut serde_json::Map<String, serde_json::Value>,
    key: &str,
    number: Option<u32>,
)
    ensures
        object_members(*final(object)) == with_number(object_members(*old(object)), key@, number),
{
    match number {
        Some(n) => {
            object_insert(object, key.to_owned(), json_int(n as i64));
        },
        None => {},
    }
}

/// Writes a text under `key`, if there is one.
fn insert_text(
    object: &mut serde_json::Map<String, serde_json::Value>,
    key: &str,
    text: &Option<String>,
)
    ensures
        object_members(*final(object)) == with_text(
            object_members(*old(object)),
            key@,
            opt_view(*text),
        ),
{
    match text {
        Some(t) => {
            object_insert(object, key.to_owned(), json_text(t.clone()));
        },
        None => {},
    }
}

/// The JSON document of a page's metadata.
pub fn metadata_json(metadata: &Metadata) -> (value: serde_json::Value)
    ensures
        json_model(value) == metadata_model(*metadata),
{
    let mut object = object_new();
    insert_number(&mut object, "page", metadata.page);
    insert_number(&mut object, "limit", metadata.limit);
    insert_number(&mut object, "page_count", metadata.page_count);
    insert_number(&mut object, "total_pages", metadata.total_pages);
    insert_number(&mut object, "total_count", metadata.total_count);
    match &metadata._links {
        Some(links) => {
            let mut inner = object_new();
            object_insert(&mut inner, "self".to_owned(), json_text(links.self_link.clone()));
            insert_text(&mut inner, "next", &links.next);
            insert_text(&mut inner, "prev", &links.prev);
            object_insert(&mut object, "_links".to_owned(), json_object(inner));
        },
        None => {},
    }
    json_object(object)
}

/// Wraps a document and the metadata of its page into the envelope of a
/// response.
pub fn data_response_with_metadata(data: serde_json::Value, metadata: &Metadata) -> (body:
    serde_json::Value)
    ensures
        json_model(body) == data_envelope_with_metadata(json_model(data), *metadata),
{
    let mut object = object_new();
    object_insert(&mut object, "_metadata".to_owned(), metadata_json(metadata));
    object_insert(&mut object, "data".to_owned(), data);
    json_object(object)
}

} // verus!
