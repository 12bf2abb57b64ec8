//! Download statistics: for each project the sum of its counters, and the
//! sum for each of its versions.

use crate::brew::counter::DownloadRecord;
use crate::text::str_eq;
use vstd::prelude::*;

verus! {

/// The downloads of one version of a project, over all platforms.
#[derive(Debug, Clone)]
pub struct VersionStats {
    pub version: String,
    pub count: i64,
}

/// The downloads of one project: in total, and for each version.
#[derive(Debug, Clone)]
pub struct ProjectStats {
    pub project: String,
    pub total: i64,
    pub versions: Vec<VersionStats>,
}

/// What `row` adds to the total of `project`.
pub open spec fn project_share(row: DownloadRecord, project: Seq<char>) -> int {
    if row.project@ == project {
        row.count as int
    } else {
        0
    }
}

/// What `row` adds to the total of `version` of `project`.
pub open spec fn version_share(row: DownloadRecord, project: Seq<char>, version: Seq<char>) -> int {
    if row.project@ == project && row.version@ == version {
        row.count as int
    } else {
        0
    }
}

/// The sum of the counts of the rows of `project`.
pub open spec fn project_total(rows: Seq<DownloadRecord>, project: Seq<char>) -> int
    decreases rows.len(),
{
    if rows.len() == 0 {
        0
    } else {
        project_total(rows.drop_last(), project) + project_share(rows.last(), project)
    }
}

/// The sum of the counts of the rows of `version` of `project`.
pub open spec fn version_total(
    rows: Seq<DownloadRecord>,
    project: Seq<char>,
    version: Seq<char>,
) -> int
    decreases rows.len(),
{
    if rows.len() == 0 {
        0
    } else {
        version_total(rows.drop_last(), project, version) + version_share(
            rows.last(),
            project,
            version,
        )
    }
}

/// `rows[i]` is a row of `project`.
pub open spec fn project_at(rows: Seq<DownloadRecord>, project: Seq<char>, i: int) -> bool {
    0 <= i < rows.len() && rows[i].project@ == project
}

/// `rows[i]` is a row of `version` of `project`.
pub open spec fn version_at(
    rows: Seq<DownloadRecord>,
    project: Seq<char>,
    version: Seq<char>,
    i: int,
) -> bool {
    0 <= i < rows.len() && rows[i].project@ == project && rows[i].version@ == version
}

/// Some row is of `project`.
pub open spec fn has_project(rows: Seq<DownloadRecord>, project: Seq<char>) -> bool {
    exists|i: int| project_at(rows, project, i)
}

/// Some row is of `version` of `project`.
pub open spec fn has_version(
    rows: Seq<DownloadRecord>,
    project: Seq<char>,
    version: Seq<char>,
) -> bool {
    exists|i: int| version_at(rows, project, version, i)
}

/// `versions[a]` is the entry of `version`.
pub open spec fn version_listed(versions: Seq<VersionStats>, version: Seq<char>, a: int) -> bool {
    0 <= a < versions.len() && versions[a].version@ == version
}

/// `stats[a]` is the entry of `project`.
pub open spec fn project_listed(stats: Seq<ProjectStats>, project: Seq<char>, a: int) -> bool {
    0 <= a < stats.len() && stats[a].project@ == project
}

/// `versions` holds one entry for each version of `project` in `rows`, and
/// no other, each with the sum of that version's counts.
pub open spec fn summarises_versions(
    versions: Seq<VersionStats>,
    rows: Seq<DownloadRecord>,
    project: Seq<char>,
) -> bool {
    &&& forall|a: int, b: int|
        0 <= a < b < versions.len() ==> versions[a].version@ != versions[b].version@
    &&& forall|a: int|
        0 <= a < versions.len() ==> has_version(rows, project, (#[trigger] versions[a]).version@)
            && versions[a].count == version_total(rows, project, versions[a].version@)
    &&& forall|version: Seq<char>| #[trigger]
        has_version(rows, project, version) ==> exists|a: int|
            version_listed(versions, version, a)
}

/// `stats` holds one entry for each project in `rows`, and no other, each
/// with the sum of that project's counts and the summary of its versions.
pub open spec fn summarises(stats: Seq<ProjectStats>, rows: Seq<DownloadRecord>) -> bool {
    &&& forall|a: int, b: int| 0 <= a < b < stats.len() ==> stats[a].project@ != stats[b].project@
    &&& forall|a: int|
        0 <= a < stats.len() ==> has_project(rows, (#[trigger] stats[a]).project@) && stats[a].total
            == project_total(rows, stats[a].project@) && summarises_versions(
            stats[a].versions@,
            rows,
            stats[a].project@,
        )
    &&& forall|project: Seq<char>| #[trigger]
        has_project(rows, project) ==> exists|a: int| project_listed(stats, project, a)
}

/// A total is bounded by the number of rows.
pub proof fn lemma_total_bounds(rows: Seq<DownloadRecord>, project: Seq<char>, version: Seq<char>)
    ensures
        -0x8000_0000 * rows.len() <= project_total(rows, project) <= 0x7fff_ffff * rows.len(),
        -0x8000_0000 * rows.len() <= version_total(rows, project, version) <= 0x7fff_ffff
            * rows.len(),
    decreases rows.len(),
{
    if rows.len() > 0 {
        lemma_total_bounds(rows.drop_last(), project, version);
    }
}

/// What is in no row has a total of zero.
pub proof fn lemma_absent_total(rows: Seq<DownloadRecord>, project: Seq<char>, version: Seq<char>)
    ensures
        !has_project(rows, project) ==> project_total(rows, project) == 0,
        !has_version(rows, project, version) ==> version_total(rows, project, version) == 0,
    decreases rows.len(),
{
    if rows.len() > 0 {
        lemma_absent_total(rows.drop_last(), project, version);
        let last = rows.len() - 1;
        if !has_project(rows, project) {
            assert(!project_at(rows, project, last));
            assert forall|i: int| !project_at(rows.drop_last(), project, i) by {
                assert(!project_at(rows, project, i));
            }
        }
        if !has_version(rows, project, version) {
            assert(!version_at(rows, project, version, last));
            assert forall|i: int| !version_at(rows.drop_last(), project, version, i) by {
                assert(!version_at(rows, project, version, i));
            }
        }
    }
}

/// What one more row changes: it adds its count to the totals of its own
/// project and version, and makes them present.
pub proof fn lemma_one_more_row(
    seen: Seq<DownloadRecord>,
    row: DownloadRecord,
    project: Seq<char>,
    version: Seq<char>,
)
    ensures
        project_total(seen.push(row), project) == project_total(seen, project) + project_share(
            row,
            project,
        ),
        version_total(seen.push(row), project, version) == version_total(seen, project, version)
            + version_share(row, project, version),
        has_project(seen.push(row), project) == (has_project(seen, project) || row.project@
            == project),
        has_version(seen.push(row), project, version) == (has_version(seen, project, version) || (
        row.project@ == project && row.version@ == version)),
{
    let after = seen.push(row);
    assert(after.drop_last() =~= seen);
    assert(after.last() == row);
    if has_project(seen, project) {
        let i = choose|i: int| project_at(seen, project, i);
        assert(project_at(after, project, i));
    }
    if row.project@ == project {
        assert(project_at(after, project, seen.len() as int));
    }
    if has_project(after, project) {
        let i = choose|i: int| project_at(after, project, i);
        if i < seen.len() {
            assert(project_at(seen, project, i));
        }
    }
    if has_version(seen, project, version) {
        let i = choose|i: int| version_at(seen, project, version, i);
        assert(version_at(after, project, version, i));
    }
    if row.project@ == project && row.version@ == version {
        assert(version_at(after, project, version, seen.len() as int));
    }
    if has_version(after, project, version) {
        let i = choose|i: int| version_at(after, project, version, i);
        if i < seen.len() {
            assert(version_at(seen, project, version, i));
        }
    }
}

/// Where the entry of `version` is, if there is one.
fn find_version(versions: &Vec<VersionStats>, version: &str) -> (at: Option<usize>)
    ensures
        match at {
            Some(a) => version_listed(versions@, version@, a as int),
            None => forall|a: int| !version_listed(versions@, version@, a),
        },
{
    let mut a: usize = 0;
    while a < versions.len()
        invariant
            a <= versions@.len(),
            forall|b: int| 0 <= b < a ==> !version_listed(versions@, version@, b),
        decreases versions@.len() - a,
    {
        if str_eq(versions[a].version.as_str(), version) {
            return Some(a);
        }
        a += 1;
    }
    None
}

/// Where the entry of `project` is, if there is one.
fn find_project(stats: &Vec<ProjectStats>, project: &str) -> (at: Option<usize>)
    ensures
        match at {
            Some(a) => project_listed(stats@, project@, a as int),
            None => forall|a: int| !project_listed(stats@, project@, a),
        },
{
    let mut a: usize = 0;
    while a < stats.len()
        invariant
            a <= stats@.len(),
            forall|b: int| 0 <= b < a ==> !project_listed(stats@, project@, b),
        decreases stats@.len() - a,
    {
        if str_eq(stats[a].project.as_str(), project) {
            return Some(a);
        }
        a += 1;
    }
    None
}

/// `versions` summarises the versions of `project` in `seen`, with entry `j`
/// standing for `version`, which `seen` need not hold yet.
pub open spec fn version_ready(
    versions: Seq<VersionStats>,
    seen: Seq<DownloadRecord>,
    project: Seq<char>,
    version: Seq<char>,
    j: int,
) -> bool {
    &&& version_listed(versions, version, j)
    &&& forall|a: int, b: int|
        0 <= a < b < versions.len() ==> versions[a].version@ != versions[b].version@
    &&& forall|a: int|
        0 <= a < versions.len() && a != j ==> has_version(
            seen,
            project,
            (#[trigger] versions[a]).version@,
        )
    &&& forall|a: int|
        0 <= a < versions.len() ==> (#[trigger] versions[a]).count == version_total(
            seen,
            project,
            versions[a].version@,
        )
    &&& forall|other: Seq<char>| #[trigger]
        has_version(seen, project, other) ==> exists|a: int| version_listed(versions, other, a)
}

/// `stats` summarises `seen`, with entry `i` standing for `project`, which
/// `seen` need not hold yet.
pub open spec fn project_ready(
    stats: Seq<ProjectStats>,
    seen: Seq<DownloadRecord>,
    project: Seq<char>,
    i: int,
) -> bool {
    &&& project_listed(stats, project, i)
    &&& forall|a: int, b: int| 0 <= a < b < stats.len() ==> stats[a].project@ != stats[b].project@
    &&& forall|a: int|
        0 <= a < stats.len() && a != i ==> has_project(seen, (#[trigger] stats[a]).project@)
    &&& forall|a: int|
        0 <= a < stats.len() ==> (#[trigger] stats[a]).total == project_total(
            seen,
            stats[a].project@,
        ) && summarises_versions(stats[a].versions@, seen, stats[a].project@)
    &&& forall|other: Seq<char>| #[trigger]
        has_project(seen, other) ==> exists|a: int| project_listed(stats, other, a)
}

/// A summary is ready for a version that it lists.
proof fn lemma_version_found(
    versions: Seq<VersionStats>,
    seen: Seq<DownloadRecord>,
    project: Seq<char>,
    version: Seq<char>,
    j: int,
)
    requires
        summarises_versions(versions, seen, project),
        version_listed(versions, version, j),
    ensures
        version_ready(versions, seen, project, version, j),
{
}

/// A summary with a new entry of count zero is ready for the version that it
/// did not list.
proof fn lemma_version_pushed(
    versions: Seq<VersionStats>,
    seen: Seq<DownloadRecord>,
    project: Seq<char>,
    entry: VersionStats,
)
    requires
        summarises_versions(versions, seen, project),
        forall|a: int| !version_listed(versions, entry.version@, a),
        entry.count == 0,
    ensures
        version_ready(versions.push(entry), seen, project, entry.version@, versions.len() as int),
{
    let after = versions.push(entry);
    let j = versions.len() as int;
    lemma_absent_total(seen, project, entry.version@);
    assert(version_listed(after, entry.version@, j));
    assert forall|a: int, b: int| 0 <= a < b < after.len() implies after[a].version@
        != after[b].version@ by {
        if b == j {
            assert(!version_listed(versions, entry.version@, a));
        }
    }
    assert forall|other: Seq<char>| #[trigger] has_version(seen, project, other) implies exists|
        a: int,
    |
        version_listed(after, other, a) by {
        let a = choose|a: int| version_listed(versions, other, a);
        assert(version_listed(after, other, a));
    }
}

/// Adding a row to the entry that is ready for its version gives the
/// summary of the versions with that row.
proof fn lemma_versions_step(
    before: Seq<VersionStats>,
    after: Seq<VersionStats>,
    seen: Seq<DownloadRecord>,
    row: DownloadRecord,
    j: int,
)
    requires
        version_ready(before, seen, row.project@, row.version@, j),
        after.len() == before.len(),
        forall|a: int| 0 <= a < before.len() && a != j ==> after[a] == before[a],
        after[j].version@ == before[j].version@,
        after[j].count == before[j].count + row.count,
    ensures
        summarises_versions(after, seen.push(row), row.project@),
{
    let rows = seen.push(row);
    let project = row.project@;
    assert forall|a: int| 0 <= a < after.len() implies #[trigger] after[a].version@
        == before[a].version@ by {}
    assert forall|a: int| 0 <= a < after.len() implies has_version(
        rows,
        project,
        (#[trigger] after[a]).version@,
    ) && after[a].count == version_total(rows, project, after[a].version@) by {
        lemma_one_more_row(seen, row, project, after[a].version@);
        assert(before[a].count == version_total(seen, project, before[a].version@));
        if a != j {
            assert(has_version(seen, project, before[a].version@));
            assert(before[a].version@ != before[j].version@);
        }
    }
    assert forall|version: Seq<char>| #[trigger] has_version(rows, project, version) implies exists|
        a: int,
    |
        version_listed(after, version, a) by {
        lemma_one_more_row(seen, row, project, version);
        if has_version(seen, project, version) {
            let a = choose|a: int| version_listed(before, version, a);
            assert(version_listed(after, version, a));
        } else {
            assert(version_listed(after, version, j));
        }
    }
}

/// A row of another project leaves the summary of a project's versions as
/// it is.
proof fn lemma_versions_other(
    versions: Seq<VersionStats>,
    seen: Seq<DownloadRecord>,
    row: DownloadRecord,
    project: Seq<char>,
)
    requires
        summarises_versions(versions, seen, project),
        row.project@ != project,
    ensures
        summarises_versions(versions, seen.push(row), project),
{
    let rows = seen.push(row);
    assert forall|a: int| 0 <= a < versions.len() implies has_version(
        rows,
        project,
        (#[trigger] versions[a]).version@,
    ) && versions[a].count == version_total(rows, project, versions[a].version@) by {
        lemma_one_more_row(seen, row, project, versions[a].version@);
    }
    assert forall|version: Seq<char>| #[trigger] has_version(rows, project, version) implies exists|
        a: int,
    |
        version_listed(versions, version, a) by {
        lemma_one_more_row(seen, row, project, version);
    }
}

/// A summary is ready for a project that it lists.
proof fn lemma_project_found(
    stats: Seq<ProjectStats>,
    seen: Seq<DownloadRecord>,
    project: Seq<char>,
    i: int,
)
    requires
        summarises(stats, seen),
        project_listed(stats, project, i),
    ensures
        project_ready(stats, seen, project, i),
{
}

/// A summary with a new, empty entry is ready for the project that it did
/// not list.
proof fn lemma_project_pushed(
    stats: Seq<ProjectStats>,
    seen: Seq<DownloadRecord>,
    entry: ProjectStats,
)
    requires
        summarises(stats, seen),
        forall|a: int| !project_listed(stats, entry.project@, a),
        entry.total == 0,
        entry.versions@.len() == 0,
    ensures
        project_ready(stats.push(entry), seen, entry.project@, stats.len() as int),
{
    let after = stats.push(entry);
    let i = stats.len() as int;
    let project = entry.project@;
    assert(project_listed(after, project, i));
    assert(!has_project(seen, project));
    assert forall|a: int, b: int| 0 <= a < b < after.len() implies after[a].project@
        != after[b].project@ by {
        if b == i {
            assert(!project_listed(stats, project, a));
        }
    }
    assert forall|a: int| 0 <= a < after.len() implies (#[trigger] after[a]).total
        == project_total(seen, after[a].project@) && summarises_versions(
        after[a].versions@,
        seen,
        after[a].project@,
    ) by {
        if a == i {
            assert forall|version: Seq<char>| !has_version(seen, project, version) by {
                if has_version(seen, project, version) {
                    let k = choose|k: int| version_at(seen, project, version, k);
                    assert(project_at(seen, project, k));
                }
            }
            lemma_absent_total(seen, project, project);
        } else {
            assert(after[a] == stats[a]);
        }
    }
    assert forall|other: Seq<char>| #[trigger] has_project(seen, other) implies exists|a: int|
        project_listed(after, other, a) by {
        let a = choose|a: int| project_listed(stats, other, a);
        assert(project_listed(after, other, a));
    }
}

/// Adding a row to the entry that is ready for its project gives the summary
/// of the rows with that row.
proof fn lemma_projects_step(
    before: Seq<ProjectStats>,
    after: Seq<ProjectStats>,
    seen: Seq<DownloadRecord>,
    row: DownloadRecord,
    i: int,
)
    requires
        project_ready(before, seen, row.project@, i),
        after.len() == before.len(),
        forall|a: int| 0 <= a < before.len() && a != i ==> after[a] == before[a],
        after[i].project@ == before[i].project@,
        after[i].total == before[i].total + row.count,
        summarises_versions(after[i].versions@, seen.push(row), row.project@),
    ensures
        summarises(after, seen.push(row)),
{
    let rows = seen.push(row);
    assert forall|a: int| 0 <= a < after.len() implies #[trigger] after[a].project@
        == before[a].project@ by {}
    assert forall|a: int| 0 <= a < after.len() implies has_project(
        rows,
        (#[trigger] after[a]).project@,
    ) && after[a].total == project_total(rows, after[a].project@) && summarises_versions(
        after[a].versions@,
        rows,
        after[a].project@,
    ) by {
        lemma_one_more_row(seen, row, after[a].project@, row.version@);
        assert(before[a].total == project_total(seen, before[a].project@));
        if a != i {
            assert(has_project(seen, before[a].project@));
            assert(before[a].project@ != before[i].project@);
            lemma_versions_other(before[a].versions@, seen, row, before[a].project@);
        }
    }
    assert forall|project: Seq<char>| #[trigger] has_project(rows, project) implies exists|a: int|
        project_listed(after, project, a) by {
        lemma_one_more_row(seen, row, project, row.version@);
        if has_project(seen, project) {
            let a = choose|a: int| project_listed(before, project, a);
            assert(project_listed(after, project, a));
        } else {
            assert(project_listed(after, project, i));
        }
    }
}

/// Takes one more row into a summary.
fn add_row(stats: &mut Vec<ProjectStats>, row: &DownloadRecord, Ghost(seen): Ghost<
    Seq<DownloadRecord>,
>)
    requires
        summarises(old(stats)@, seen),
        seen.len() < u32::MAX,
    ensures
        summarises(final(stats)@, seen.push(*row)),
{
    let i: usize = match find_project(stats, row.project.as_str()) {
        Some(i) => {
            proof {
                lemma_project_found(stats@, seen, row.project@, i as int);
            }
            i
        },
        None => {
            let entry = ProjectStats { project: row.project.clone(), total: 0, versions: Vec::new() };
            proof {
                lemma_project_pushed(stats@, seen, entry);
            }
            stats.push(entry);
            stats.len() - 1
        },
    };
    let ghost ready = stats@;
    let j: usize = match find_version(&stats[i].versions, row.version.as_str()) {
        Some(j) => {
            proof {
                lemma_version_found(stats@[i as int].versions@, seen, row.project@, row.version@, j as int);
            }
            j
        },
        None => {
            let entry = VersionStats { version: row.version.clone(), count: 0 };
            proof {
                lemma_version_pushed(stats@[i as int].versions@, seen, row.project@, entry);
            }
            stats[i].versions.push(entry);
            stats[i].versions.len() - 1
        },
    };
    let ghost listed = stats@[i as int].versions@;
    proof {
        lemma_total_bounds(seen, row.project@, row.version@);
    }
    let count: i64 = row.count as i64;
    stats[i].total = stats[i].total + count;
    stats[i].versions[j].count = stats[i].versions[j].count + count;
    proof {
        lemma_versions_step(listed, stats@[i as int].versions@, seen, *row, j as int);
        lemma_projects_step(ready, stats@, seen, *row, i as int);
    }
}

/// Sums the download counters by project, and within each project by
/// version.
pub fn aggregate(rows: &Vec<DownloadRecord>) -> (stats: Vec<ProjectStats>)
    requires
        rows@.len() <= u32::MAX,
    ensures
        summarises(stats@, rows@),
{
    let mut stats: Vec<ProjectStats> = Vec::new();
    let mut k: usize = 0;
    assert(summarises(stats@, rows@.take(0))) by {
        assert forall|project: Seq<char>| !has_project(rows@.take(0), project) by {
            assert forall|i: int| !project_at(rows@.take(0), project, i) by {}
        }
    }
    while k < rows.len()
        invariant
            k <= rows@.len() <= u32::MAX,
            summarises(stats@, rows@.take(k as int)),
        decreases rows@.len() - k,
    {
        add_row(&mut stats, &rows[k], Ghost(rows@.take(k as int)));
        assert(rows@.take(k as int).push(rows@[k as int]) =~= rows@.take(k + 1));
        k += 1;
    }
    assert(rows@.take(k as int) =~= rows@);
    stats
}

} // verus!
