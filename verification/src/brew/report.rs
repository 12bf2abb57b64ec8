//! The statistics document: a JSON object keyed by project, each project
//! with its totals and one member for each of its versions.

use crate::brew::counter::DownloadRecord;
use crate::brew::stats::{
    aggregate, has_project, has_version, project_listed, project_total, summarises,
    summarises_versions, version_listed, version_total, ProjectStats, VersionStats,
};
use crate::json::{json_int, json_model, json_object, object_insert, object_members, object_new, JsonModel};
use crate::response::{data_envelope, data_response};
use vstd::prelude::*;

verus! {

/// The member of one version: its downloads, and the same number as its
/// installs.
pub open spec fn count_model(count: int) -> JsonModel {
    JsonModel::Object(
        Map::<Seq<char>, JsonModel>::empty().insert("downloads"@, JsonModel::Int(count)).insert(
            "installs"@,
            JsonModel::Int(count),
        ),
    )
}

/// `key` names one of the two totals of a project.
pub open spec fn is_total_key(key: Seq<char>) -> bool {
    key == "total_downloads"@ || key == "total_installs"@
}

/// The members of a project: its two totals, both the sum of all its
/// counts, and under each of its versions the sum of that version's counts. A
/// version that is named like a total takes that total's place.
pub open spec fn project_document(rows: Seq<DownloadRecord>, project: Seq<char>) -> Map<
    Seq<char>,
    JsonModel,
> {
    Map::new(
        |key: Seq<char>| is_total_key(key) || has_version(rows, project, key),
        |key: Seq<char>|
            if has_version(rows, project, key) {
                count_model(version_total(rows, project, key))
            } else {
                JsonModel::Int(project_total(rows, project))
            },
    )
}

/// The members of the statistics document: one object for each project that
/// has a row.
pub open spec fn stats_document(rows: Seq<DownloadRecord>) -> Map<Seq<char>, JsonModel> {
    Map::new(
        |project: Seq<char>| has_project(rows, project),
        |project: Seq<char>| JsonModel::Object(project_document(rows, project)),
    )
}

/// One of the first `n` entries of `versions` is of `key`.
pub open spec fn version_among(versions: Seq<VersionStats>, key: Seq<char>, n: int) -> bool {
    exists|a: int| version_listed(versions, key, a) && a < n
}

/// One of the first `n` entries of `stats` is of `key`.
pub open spec fn project_among(stats: Seq<ProjectStats>, key: Seq<char>, n: int) -> bool {
    exists|a: int| project_listed(stats, key, a) && a < n
}

/// The members of a project once the first `n` of its versions are written.
pub open spec fn project_document_upto(
    rows: Seq<DownloadRecord>,
    project: Seq<char>,
    versions: Seq<VersionStats>,
    n: int,
) -> Map<Seq<char>, JsonModel> {
    Map::new(
        |key: Seq<char>| is_total_key(key) || version_among(versions, key, n),
        |key: Seq<char>|
            if version_among(versions, key, n) {
                count_model(version_total(rows, project, key))
            } else {
                JsonModel::Int(project_total(rows, project))
            },
    )
}

/// The members of the document once the first `n` projects are written.
pub open spec fn stats_document_upto(
    rows: Seq<DownloadRecord>,
    stats: Seq<ProjectStats>,
    n: int,
) -> Map<Seq<char>, JsonModel> {
    Map::new(
        |project: Seq<char>| project_among(stats, project, n),
        |project: Seq<char>| JsonModel::Object(project_document(rows, project)),
    )
}

/// The JSON member of one version.
fn count_json(count: i64) -> (value: serde_json::Value)
    ensures
        json_model(value) == count_model(count as int),
{
    let mut object = object_new();
    object_insert(&mut object, "downloads".to_owned(), json_int(count));
    object_insert(&mut object, "installs".to_owned(), json_int(count));
    json_object(object)
}

/// The JSON object of one project.
fn project_json(entry: &ProjectStats, Ghost(rows): Ghost<Seq<DownloadRecord>>) -> (value:
    serde_json::Value)
    requires
        entry.total == project_total(rows, entry.project@),
        summarises_versions(entry.versions@, rows, entry.project@),
    ensures
        json_model(value) == JsonModel::Object(project_document(rows, entry.project@)),
{
    let ghost project = entry.project@;
    let ghost versions = entry.versions@;
    let mut object = object_new();
    object_insert(&mut object, "total_downloads".to_owned(), json_int(entry.total));
    object_insert(&mut object, "total_installs".to_owned(), json_int(entry.total));
    assert(object_members(object) =~= project_document_upto(rows, project, versions, 0));
    let mut a: usize = 0;
    while a < entry.versions.len()
        invariant
            a <= versions.len(),
            versions == entry.versions@,
            project == entry.project@,
            summarises_versions(versions, rows, project),
            object_members(object) == project_document_upto(rows, project, versions, a as int),
        decreases versions.len() - a,
    {
        let ghost before = object_members(object);
        let version = &entry.versions[a];
        object_insert(&mut object, version.version.clone(), count_json(version.count));
        proof {
            let after = project_document_upto(rows, project, versions, a + 1);
            assert forall|key: Seq<char>|
                version_among(versions, key, a + 1) == (version_among(versions, key, a as int)
                    || key == version.version@) by {
                if version_among(versions, key, a + 1) {
                    let b = choose|b: int| version_listed(versions, key, b) && b < a + 1;
                    if b < a {
                        assert(version_listed(versions, key, b) && b < a);
                    }
                }
                if version_among(versions, key, a as int) {
                    let b = choose|b: int| version_listed(versions, key, b) && b < a;
                    assert(version_listed(versions, key, b) && b < a + 1);
                }
                if key == version.version@ {
                    assert(version_listed(versions, key, a as int) && a < a + 1);
                }
            }
            assert(object_members(object) =~= after);
        }
        a += 1;
    }
    proof {
        assert forall|key: Seq<char>|
            version_among(versions, key, versions.len() as int) == has_version(
                rows,
                project,
                key,
            ) by {
            if version_among(versions, key, versions.len() as int) {
                let b = choose|b: int| version_listed(versions, key, b) && b < versions.len();
                assert(has_version(rows, project, versions[b].version@));
            }
            if has_version(rows, project, key) {
                let b = choose|b: int| version_listed(versions, key, b);
                assert(version_listed(versions, key, b) && b < versions.len());
            }
        }
        assert(object_members(object) =~= project_document(rows, project));
    }
    json_object(object)
}

/// The statistics document of a summary.
fn stats_json(stats: &Vec<ProjectStats>, Ghost(rows): Ghost<Seq<DownloadRecord>>) -> (value:
    serde_json::Value)
    requires
        summarises(stats@, rows),
    ensures
        json_model(value) == JsonModel::Object(stats_document(rows)),
{
    let mut object = object_new();
    assert(object_members(object) =~= stats_document_upto(rows, stats@, 0));
    let mut a: usize = 0;
    while a < stats.len()
        invariant
            a <= stats@.len(),
            summarises(stats@, rows),
            object_members(object) == stats_document_upto(rows, stats@, a as int),
        decreases stats@.len() - a,
    {
        let entry = &stats[a];
        object_insert(&mut object, entry.project.clone(), project_json(entry, Ghost(rows)));
        proof {
            let after = stats_document_upto(rows, stats@, a + 1);
            assert forall|key: Seq<char>|
                project_among(stats@, key, a + 1) == (project_among(stats@, key, a as int) || key
                    == entry.project@) by {
                if project_among(stats@, key, a + 1) {
                    let b = choose|b: int| project_listed(stats@, key, b) && b < a + 1;
                    if b < a {
                        assert(project_listed(stats@, key, b) && b < a);
                    }
                }
                if project_among(stats@, key, a as int) {
                    let b = choose|b: int| project_listed(stats@, key, b) && b < a;
                    assert(project_listed(stats@, key, b) && b < a + 1);
                }
                if key == entry.project@ {
                    assert(project_listed(stats@, key, a as int) && a < a + 1);
                }
            }
            assert(object_members(object) =~= after);
        }
        a += 1;
    }
    proof {
        assert forall|key: Seq<char>|
            project_among(stats@, key, stats@.len() as int) == has_project(rows, key) by {
            if project_among(stats@, key, stats@.len() as int) {
                let b = choose|b: int| project_listed(stats@, key, b) && b < stats@.len();
                assert(has_project(rows, stats@[b].project@));
            }
            if has_project(rows, key) {
                let b = choose|b: int| project_listed(stats@, key, b);
                assert(project_listed(stats@, key, b) && b < stats@.len());
            }
        }
        assert(object_members(object) =~= stats_document(rows));
    }
    json_object(object)
}

/// The statistics of all downloads as a JSON document: an object keyed by
/// project, built from the sums of the rows.
pub fn brew_stats(rows: &Vec<DownloadRecord>) -> (value: serde_json::Value)
    requires
        rows@.len() <= u32::MAX,
    ensures
        json_model(value) == JsonModel::Object(stats_document(rows@)),
{
    let stats = aggregate(rows);
    stats_json(&stats, Ghost(rows@))
}

/// Answers a request for the statistics of all downloads: the statistics
/// document in the envelope of a response.
pub fn get_brew_stats(rows: &Vec<DownloadRecord>) -> (body: serde_json::Value)
    requires
        rows@.len() <= u32::MAX,
    ensures
        json_model(body) == data_envelope(JsonModel::Object(stats_document(rows@))),
{
    data_response(brew_stats(rows))
}

} // verus!
