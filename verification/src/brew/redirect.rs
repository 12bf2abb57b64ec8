//! The redirect to the release asset of a tracked bottle.

use crate::error::ApiError;
use crate::header::{
    header_text_ok, header_value_bytes, header_value_from_str, lemma_header_text,
    lemma_header_text_concat,
};
use axum::http::header::{HeaderValue, InvalidHeaderValue};
use vstd::prelude::*;
use vstd::utf8::encode_utf8;

verus! {

/// The address of the release asset `filename` of `version` in `org/repo`.
pub open spec fn redirect_url_spec(
    org: Seq<char>,
    repo: Seq<char>,
    version: Seq<char>,
    filename: Seq<char>,
) -> Seq<char> {
    "https://github.com/"@ + org + "/"@ + repo + "/releases/download/v"@ + version + "/"@
        + filename
}

/// Builds the address of the release asset that a tracked download is sent to.
pub fn redirect_url(org: &str, repo: &str, version: &str, filename: &str) -> (url: String)
    ensures
        url@ == redirect_url_spec(org@, repo@, version@, filename@),
{
    let mut url = "https://github.com/".to_owned();
    url.append(org);
    url.append("/");
    url.append(repo);
    url.append("/releases/download/v");
    url.append(version);
    url.append("/");
    url.append(filename);
    url
}

/// The fixed parts of a release address can stand in a header value, so the
/// address can exactly when its four variable parts can.
pub proof fn lemma_redirect_url_fits(
    org: Seq<char>,
    repo: Seq<char>,
    version: Seq<char>,
    filename: Seq<char>,
)
    ensures
        header_text_ok(redirect_url_spec(org, repo, version, filename)) <==> header_text_ok(org)
            && header_text_ok(repo) && header_text_ok(version) && header_text_ok(filename),
{
    reveal_strlit("https://github.com/");
    reveal_strlit("/");
    reveal_strlit("/releases/download/v");
    let host = "https://github.com/"@;
    let slash = "/"@;
    let path = "/releases/download/v"@;
    assert(header_text_ok(host));
    assert(header_text_ok(slash));
    assert(header_text_ok(path));
    lemma_header_text_concat(host, org);
    lemma_header_text_concat(host + org, slash);
    lemma_header_text_concat(host + org + slash, repo);
    lemma_header_text_concat(host + org + slash + repo, path);
    lemma_header_text_concat(host + org + slash + repo + path, version);
    lemma_header_text_concat(host + org + slash + repo + path + version, slash);
    lemma_header_text_concat(host + org + slash + repo + path + version + slash, filename);
}

/// The outcome of turning an address into a `Location` header, for each
/// answer of the header parser.
pub fn location_from(parsed: Result<HeaderValue, InvalidHeaderValue>) -> (r: Result<
    HeaderValue,
    ApiError,
>)
    ensures
        parsed is Ok ==> r == Ok::<HeaderValue, ApiError>(parsed->Ok_0),
        parsed is Err ==> r is Err && r->Err_0 is Internal && (r->Err_0)->Internal_0@
            == "Failed to build Location header"@,
{
    match parsed {
        Ok(value) => Ok(value),
        Err(_) => Err(ApiError::internal("Failed to build Location header".to_owned())),
    }
}

/// Encodes an address as the value of a `Location` header. This fails, as an
/// internal error, exactly when some character of the address cannot stand in
/// a header value.
pub fn location_header(url: &str) -> (r: Result<HeaderValue, ApiError>)
    ensures
        r is Ok <==> header_text_ok(url@),
        r is Ok ==> header_value_bytes(r->Ok_0) == encode_utf8(url@),
        r is Err ==> r->Err_0 is Internal && (r->Err_0)->Internal_0@
            == "Failed to build Location header"@,
{
    proof {
        lemma_header_text(url@);
    }
    location_from(header_value_from_str(url))
}

} // verus!
