//! Tracking one bottle download: resolve the project, parse the filename,
//! count the download, and redirect to the release asset.

use crate::brew::counter::{recorded, DownloadStore, Triple};
use crate::brew::filename::{
    bottle_suffix, lemma_parse_some_iff, parse_brew_filename, parse_spec,
};
use crate::brew::redirect::{
    lemma_redirect_url_fits, location_header, redirect_url, redirect_url_spec,
};
use crate::brew::registry::{github_org_repo, registry_spec};
use crate::error::{ApiError, ApiResult};
use crate::header::{header_text_ok, header_value_bytes, lemma_header_text_concat};
use axum::http::header::HeaderValue;
use vstd::prelude::*;
use vstd::utf8::encode_utf8;

verus! {

/// Status of a redirect.
pub const FOUND: u16 = 302;

/// What a tracked download refers to, once its project is known and its
/// filename is parsed.
#[derive(Debug, Clone)]
pub struct TrackPlan {
    pub org: &'static str,
    pub repo: &'static str,
    pub version: String,
    pub platform: String,
}

/// The answer to a tracked download: a redirect to the release asset.
#[derive(Debug)]
pub struct Redirect {
    pub status: u16,
    pub location: HeaderValue,
}

/// The detail of the answer to a project that is not listed.
pub open spec fn unknown_project_message(project: Seq<char>) -> Seq<char> {
    "Unknown project: "@ + project
}

/// The detail of the answer to a filename that is no bottle of the project.
pub open spec fn unparsable_message(filename: Seq<char>) -> Seq<char> {
    "Could not parse filename: "@ + filename
}

/// The counter that a request counts towards: none unless the project is
/// listed and the filename is a bottle of it.
pub open spec fn track_key(project: Seq<char>, filename: Seq<char>) -> Option<Triple> {
    if registry_spec(project) is Some {
        match parse_spec(project, filename) {
            Some((version, platform)) => Some((project, version, platform)),
            None => None,
        }
    } else {
        None
    }
}

/// The address that a request is sent on to.
pub open spec fn track_url(project: Seq<char>, filename: Seq<char>) -> Seq<char>
    recommends
        track_key(project, filename) is Some,
{
    match (registry_spec(project), parse_spec(project, filename)) {
        (Some((org, repo)), Some((version, _))) => redirect_url_spec(org, repo, version, filename),
        _ => Seq::empty(),
    }
}

/// `r` is the redirect to `url`, or the internal error that says that `url`
/// cannot stand in a header.
pub open spec fn redirects_to(r: Result<Redirect, ApiError>, url: Seq<char>) -> bool {
    match r {
        Ok(redirect) => header_text_ok(url) && redirect.status == 302 && header_value_bytes(
            redirect.location,
        ) == encode_utf8(url),
        Err(e) => !header_text_ok(url) && e is Internal && e->Internal_0@
            == "Failed to build Location header"@,
    }
}

/// The address of a tracked download can stand in a header exactly when
/// the filename can: nothing else in it comes from the request.
pub proof fn lemma_track_url_fits(project: Seq<char>, filename: Seq<char>)
    requires
        track_key(project, filename) is Some,
    ensures
        header_text_ok(track_url(project, filename)) <==> header_text_ok(filename),
{
    let (org, repo) = registry_spec(project)->0;
    let (version, platform) = parse_spec(project, filename)->0;
    reveal_strlit("rona");
    reveal_strlit("rona-rs");
    reveal_strlit("clean-dev-dirs");
    assert(header_text_ok("rona"@));
    assert(header_text_ok("rona-rs"@));
    assert(header_text_ok("clean-dev-dirs"@));
    lemma_redirect_url_fits(org, repo, version, filename);
    lemma_parse_some_iff(project, filename, version, platform);
    let head = project + seq!['-'];
    lemma_header_text_concat(head, version);
    lemma_header_text_concat(head + version, seq!['.']);
    lemma_header_text_concat(head + version + seq!['.'], platform);
    lemma_header_text_concat(head + version + seq!['.'] + platform, bottle_suffix());
}

/// Resolves a request before anything is counted: an unknown project is not
/// found, and a filename that is no bottle of the project is invalid.
pub fn plan_track(project: &str, filename: &str) -> (r: Result<TrackPlan, ApiError>)
    ensures
        r is Ok <==> track_key(project@, filename@) is Some,
        match r {
            Ok(plan) => Some((plan.org@, plan.repo@)) == registry_spec(project@) && Some(
                (plan.version@, plan.platform@),
            ) == parse_spec(project@, filename@),
            Err(e) => if registry_spec(project@) is None {
                e is NotFound && e->NotFound_0@ == unknown_project_message(project@)
            } else {
                e is ValidationFailed && e->ValidationFailed_0@ == unparsable_message(filename@)
            },
        },
{
    let (org, repo) = match github_org_repo(project) {
        Some(entry) => entry,
        None => {
            return Err(ApiError::not_found("Unknown project: ".to_owned().concat(project)));
        },
    };
    let (version, platform) = match parse_brew_filename(project, filename) {
        Some(parsed) => parsed,
        None => {
            return Err(
                ApiError::validation("Could not parse filename: ".to_owned().concat(filename)),
            );
        },
    };
    Ok(TrackPlan { org, repo, version, platform })
}

/// Answers a request whose download has been counted: the redirect to the
/// release asset, or an internal error if its address cannot stand in a
/// header.
pub fn finish_track(plan: &TrackPlan, filename: &str) -> (r: Result<Redirect, ApiError>)
    ensures
        redirects_to(r, redirect_url_spec(plan.org@, plan.repo@, plan.version@, filename@)),
{
    let url = redirect_url(plan.org, plan.repo, plan.version.as_str(), filename);
    match location_header(url.as_str()) {
        Ok(location) => Ok(Redirect { status: FOUND, location }),
        Err(e) => Err(e),
    }
}

/// Tracks one bottle download against the table and answers with the
/// redirect to the real asset. An unknown project or an unparsable filename
/// is refused before the table is touched; otherwise the download is counted,
/// whether or not the redirect can then be built.
pub fn track_brew_download(store: &mut DownloadStore, project: &str, filename: &str) -> (r:
    ApiResult<Redirect>)
    requires
        old(store).wf(),
        track_key(project@, filename@) is Some ==> old(store).has_room_for(
            track_key(project@, filename@)->0,
        ),
    ensures
        final(store).wf(),
        match track_key(project@, filename@) {
            Some(key) => final(store)@ == recorded(old(store)@, key) && redirects_to(
                r,
                track_url(project@, filename@),
            ) && (r is Ok <==> header_text_ok(filename@)),
            None => final(store).rows() == old(store).rows() && r is Err && if registry_spec(
                project@,
            ) is None {
                r->Err_0 is NotFound && r->Err_0->NotFound_0@ == unknown_project_message(project@)
            } else {
                r->Err_0 is ValidationFailed && r->Err_0->ValidationFailed_0@
                    == unparsable_message(filename@)
            },
        },
{
    let plan = match plan_track(project, filename) {
        Ok(plan) => plan,
        Err(e) => {
            return Err(e);
        },
    };
    store.record_download(project, plan.version.as_str(), plan.platform.as_str());
    proof {
        lemma_track_url_fits(project@, filename@);
    }
    finish_track(&plan, filename)
}

} // verus!
