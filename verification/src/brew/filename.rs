//! The bottle-filename grammar: `{project}-{version}.{platform}.bottle.tar.gz`.

use crate::text::{lemma_index_of_last, matches_at, to_chars};
use vstd::prelude::*;

verus! {

/// The fixed ending of every bottle filename.
pub open spec fn bottle_suffix() -> Seq<char> {
    ".bottle.tar.gz"@
}

/// The filename of the bottle of `project` at `version` for `platform`.
pub open spec fn bottle_name(project: Seq<char>, version: Seq<char>, platform: Seq<char>) -> Seq<
    char,
> {
    project + seq!['-'] + version + seq!['.'] + platform + bottle_suffix()
}

/// `filename` is the bottle of `project` at `version` for `platform`, where a
/// platform is a single dot-free segment.
pub open spec fn names_bottle(
    project: Seq<char>,
    filename: Seq<char>,
    version: Seq<char>,
    platform: Seq<char>,
) -> bool {
    filename == bottle_name(project, version, platform) && !platform.contains('.')
}

/// What a filename parses to: strip the suffix, split at the last dot of what
/// is left, and strip `{project}-` from the part before that dot.
pub open spec fn parse_spec(project: Seq<char>, filename: Seq<char>) -> Option<
    (Seq<char>, Seq<char>),
> {
    if !bottle_suffix().is_suffix_of(filename) {
        None
    } else {
        let base = filename.take(filename.len() - bottle_suffix().len());
        match base.index_of_last('.') {
            None => None,
            Some(dot) => {
                let name_version = base.take(dot);
                let prefix = project.push('-');
                if prefix.is_prefix_of(name_version) {
                    Some((name_version.skip(prefix.len() as int), base.skip(dot + 1)))
                } else {
                    None
                }
            },
        }
    }
}

/// The characters of a parse result.
pub open spec fn parsed_view(r: Option<(String, String)>) -> Option<(Seq<char>, Seq<char>)> {
    match r {
        Some((version, platform)) => Some((version@, platform@)),
        None => None,
    }
}

/// A well-formed bottle filename parses back to exactly the version and
/// platform it was built from, whatever the project and the version are, as
/// long as the platform holds no dot.
pub proof fn lemma_parse_round_trip(project: Seq<char>, version: Seq<char>, platform: Seq<char>)
    requires
        !platform.contains('.'),
    ensures
        parse_spec(project, bottle_name(project, version, platform)) == Some((version, platform)),
{
    let suffix = bottle_suffix();
    let filename = bottle_name(project, version, platform);
    let stem = project + seq!['-'] + version + seq!['.'] + platform;
    let dot: int = (project.len() + 1 + version.len()) as int;
    assert(filename == stem + suffix);
    assert(suffix =~= filename.subrange(filename.len() - suffix.len(), filename.len() as int));
    let base = filename.take(filename.len() - suffix.len());
    assert(base =~= stem);
    assert(base[dot] == '.');
    assert forall|j: int| dot < j < base.len() implies base[j] != '.' by {
        assert(base[j] == platform[j - dot - 1]);
    }
    lemma_index_of_last(base, '.', dot);
    let name_version = base.take(dot);
    let prefix = project.push('-');
    assert(prefix =~= name_version.subrange(0, prefix.len() as int));
    assert(name_version.skip(prefix.len() as int) =~= version);
    assert(base.skip(dot + 1) =~= platform);
}

/// A filename parses to `(version, platform)` exactly when it is the bottle
/// name of the project at that version for that dot-free platform.
pub proof fn lemma_parse_some_iff(
    project: Seq<char>,
    filename: Seq<char>,
    version: Seq<char>,
    platform: Seq<char>,
)
    ensures
        parse_spec(project, filename) == Some((version, platform)) <==> names_bottle(
            project,
            filename,
            version,
            platform,
        ),
{
    if names_bottle(project, filename, version, platform) {
        lemma_parse_round_trip(project, version, platform);
    }
    if parse_spec(project, filename) == Some((version, platform)) {
        let suffix = bottle_suffix();
        let base = filename.take(filename.len() - suffix.len());
        base.index_of_last_ensures('.');
        let dot = base.index_of_last('.').unwrap();
        let name_version = base.take(dot);
        let prefix = project.push('-');
        assert(prefix =~= name_version.subrange(0, prefix.len() as int));
        assert(suffix =~= filename.subrange(filename.len() - suffix.len(), filename.len() as int));
        assert(!platform.contains('.')) by {
            if platform.contains('.') {
                let k = choose|k: int| 0 <= k < platform.len() && platform[k] == '.';
                assert(base[dot + 1 + k] == '.');
            }
        }
        assert(filename =~= bottle_name(project, version, platform)) by {
            let built = bottle_name(project, version, platform);
            assert(built.len() == filename.len());
            assert forall|i: int| 0 <= i < filename.len() implies filename[i] == built[i] by {
                if i < prefix.len() {
                    assert(filename[i] == name_version.subrange(0, prefix.len() as int)[i]);
                } else if i < dot {
                    assert(filename[i] == version[i - prefix.len()]);
                } else if i == dot {
                } else if i < base.len() {
                    assert(filename[i] == platform[i - dot - 1]);
                } else {
                    assert(filename[i] == filename.subrange(
                        filename.len() - suffix.len(),
                        filename.len() as int,
                    )[i - base.len()]);
                }
            }
        }
    }
}

/// A filename names at most one version and platform of a project.
pub proof fn lemma_bottle_name_unique(
    project: Seq<char>,
    filename: Seq<char>,
    version_a: Seq<char>,
    platform_a: Seq<char>,
    version_b: Seq<char>,
    platform_b: Seq<char>,
)
    requires
        names_bottle(project, filename, version_a, platform_a),
        names_bottle(project, filename, version_b, platform_b),
    ensures
        version_a == version_b,
        platform_a == platform_b,
{
    lemma_parse_some_iff(project, filename, version_a, platform_a);
    lemma_parse_some_iff(project, filename, version_b, platform_b);
}

/// Parses a bottle filename of `project` into `(version, platform)`.
pub fn parse_brew_filename(project: &str, filename: &str) -> (r: Option<(String, String)>)
    ensures
        parsed_view(r) == parse_spec(project@, filename@),
{
    let f = to_chars(filename);
    let p = to_chars(project);
    let suffix = to_chars(".bottle.tar.gz");
    if suffix.len() > f.len() {
        return None;
    }
    let base_len: usize = f.len() - suffix.len();
    if !matches_at(&f, base_len, &suffix) {
        return None;
    }
    let ghost base = f@.take(base_len as int);
    let mut i: usize = base_len;
    while i > 0 && f[i - 1] != '.'
        invariant
            i <= base_len <= f@.len(),
            forall|j: int| i <= j < base_len ==> f@[j] != '.',
        decreases i,
    {
        i -= 1;
    }
    if i == 0 {
        proof {
            base.index_of_last_ensures('.');
        }
        return None;
    }
    let dot: usize = i - 1;
    proof {
        lemma_index_of_last(base, '.', dot as int);
    }
    if p.len() >= dot {
        return None;
    }
    if !matches_at(&f, 0, &p) || f[p.len()] != '-' {
        assert(!project@.push('-').is_prefix_of(base.take(dot as int))) by {
            if project@.push('-').is_prefix_of(base.take(dot as int)) {
                let q = project@.push('-');
                let nv = base.take(dot as int);
                assert(q =~= nv.subrange(0, q.len() as int));
                assert(q[p@.len() as int] == '-');
                assert(f@.subrange(0, p@.len() as int) =~= p@) by {
                    assert forall|k: int| 0 <= k < p@.len() implies f@[k] == p@[k] by {
                        assert(q[k] == nv.subrange(0, q.len() as int)[k]);
                    }
                }
            }
        }
        return None;
    }
    proof {
        let q = project@.push('-');
        let nv = base.take(dot as int);
        assert(f@.subrange(0, p@.len() as int) == p@);
        assert(q =~= nv.subrange(0, q.len() as int)) by {
            assert forall|k: int| 0 <= k < q.len() implies q[k] == nv.subrange(
                0,
                q.len() as int,
            )[k] by {
                if k < p@.len() {
                    assert(f@.subrange(0, p@.len() as int)[k] == p@[k]);
                }
            }
        }
    }
    let version = filename.substring_char(p.len() + 1, dot).to_owned();
    let platform = filename.substring_char(dot + 1, base_len).to_owned();
    proof {
        let nv = base.take(dot as int);
        assert(version@ =~= nv.skip(project@.len() as int + 1));
        assert(platform@ =~= base.skip(dot + 1));
    }
    Some((version, platform))
}

} // verus!
