//! The fixed table of known projects and where their releases are hosted.

use crate::text::str_eq;
use vstd::prelude::*;

verus! {

/// The hosting organisation and repository of each known project.
pub open spec fn registry_spec(project: Seq<char>) -> Option<(Seq<char>, Seq<char>)> {
    if project == "rona"@ {
        Some(("rona-rs"@, "rona"@))
    } else if project == "clean-dev-dirs"@ {
        Some(("clean-dev-dirs"@, "clean-dev-dirs"@))
    } else {
        None
    }
}

/// The characters of a registry entry.
pub open spec fn entry_view(r: Option<(&'static str, &'static str)>) -> Option<
    (Seq<char>, Seq<char>),
> {
    match r {
        Some((org, repo)) => Some((org@, repo@)),
        None => None,
    }
}

/// Returns the GitHub organisation and repository of a known project, or
/// `None` if the project is not listed.
pub fn github_org_repo(project: &str) -> (r: Option<(&'static str, &'static str)>)
    ensures
        entry_view(r) == registry_spec(project@),
{
    if str_eq(project, "rona") {
        Some(("rona-rs", "rona"))
    } else if str_eq(project, "clean-dev-dirs") {
        Some(("clean-dev-dirs", "clean-dev-dirs"))
    } else {
        None
    }
}

} // verus!
