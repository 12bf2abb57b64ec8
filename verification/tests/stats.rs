use serde_json::Value;
use vps_back::brew::counter::DownloadRecord;
use vps_back::brew::report::brew_stats;
use vps_back::brew::stats::{aggregate, ProjectStats};

fn row(id: i32, project: &str, version: &str, platform: &str, count: i32) -> DownloadRecord {
    DownloadRecord {
        id,
        project: project.to_string(),
        version: version.to_string(),
        platform: platform.to_string(),
        count,
    }
}

fn sample() -> Vec<DownloadRecord> {
    vec![row(1, "A", "1", "x", 3), row(2, "A", "2", "x", 5), row(3, "B", "1", "x", 2)]
}

fn project<'a>(stats: &'a [ProjectStats], name: &str) -> &'a ProjectStats {
    let mut found = stats.iter().filter(|entry| entry.project == name);
    let entry = found.next().expect("the project has an entry");
    assert!(found.next().is_none(), "the project has one entry only");
    entry
}

fn version_count(entry: &ProjectStats, version: &str) -> i64 {
    let mut found = entry.versions.iter().filter(|v| v.version == version);
    let count = found.next().expect("the version has an entry").count;
    assert!(found.next().is_none(), "the version has one entry only");
    count
}

#[test]
fn sums_by_project_and_version() {
    let stats = aggregate(&sample());
    assert_eq!(stats.len(), 2);
    let a = project(&stats, "A");
    assert_eq!(a.total, 8);
    assert_eq!(a.versions.len(), 2);
    assert_eq!(version_count(a, "1"), 3);
    assert_eq!(version_count(a, "2"), 5);
    let b = project(&stats, "B");
    assert_eq!(b.total, 2);
    assert_eq!(b.versions.len(), 1);
    assert_eq!(version_count(b, "1"), 2);
}

#[test]
fn reports_totals_and_versions() {
    let document = brew_stats(&sample());
    assert_eq!(document["A"]["total_downloads"], Value::from(8));
    assert_eq!(document["A"]["total_installs"], Value::from(8));
    assert_eq!(document["A"]["1"]["downloads"], Value::from(3));
    assert_eq!(document["A"]["1"]["installs"], Value::from(3));
    assert_eq!(document["A"]["2"]["downloads"], Value::from(5));
    assert_eq!(document["A"]["2"]["installs"], Value::from(5));
    assert_eq!(document["B"]["total_downloads"], Value::from(2));
    assert_eq!(document["B"]["total_installs"], Value::from(2));
    assert_eq!(document["B"]["1"]["downloads"], Value::from(2));
    assert_eq!(document.as_object().unwrap().len(), 2);
    assert_eq!(document["A"].as_object().unwrap().len(), 4);
    assert_eq!(document["B"].as_object().unwrap().len(), 3);
    assert_eq!(document["A"]["1"].as_object().unwrap().len(), 2);
}

#[test]
fn sums_the_platforms_of_a_version() {
    let rows = vec![
        row(1, "rona", "2.0", "arm64_sequoia", 10),
        row(2, "clean-dev-dirs", "2.0", "arm64_sequoia", 1),
        row(3, "rona", "2.0", "x86_64_linux", 7),
        row(4, "rona", "1.9", "x86_64_linux", 4),
    ];
    let document = brew_stats(&rows);
    assert_eq!(document["rona"]["total_downloads"], Value::from(21));
    assert_eq!(document["rona"]["2.0"]["downloads"], Value::from(17));
    assert_eq!(document["rona"]["1.9"]["installs"], Value::from(4));
    assert_eq!(document["clean-dev-dirs"]["total_installs"], Value::from(1));
    assert_eq!(document["clean-dev-dirs"]["2.0"]["downloads"], Value::from(1));
}

#[test]
fn no_rows_give_an_empty_document() {
    assert!(aggregate(&Vec::new()).is_empty());
    let document = brew_stats(&Vec::new());
    assert_eq!(document, Value::Object(serde_json::Map::new()));
}

#[test]
fn sums_beyond_the_range_of_a_count() {
    let rows = vec![
        row(1, "rona", "1", "a", i32::MAX),
        row(2, "rona", "1", "b", i32::MAX),
        row(3, "rona", "2", "a", i32::MAX),
    ];
    let stats = aggregate(&rows);
    assert_eq!(project(&stats, "rona").total, 3 * i64::from(i32::MAX));
    assert_eq!(version_count(project(&stats, "rona"), "1"), 2 * i64::from(i32::MAX));
    let document = brew_stats(&rows);
    assert_eq!(document["rona"]["total_downloads"], Value::from(6442450941_i64));
}

#[test]
fn a_version_named_like_a_total_takes_its_place() {
    let rows = vec![row(1, "rona", "total_downloads", "a", 3), row(2, "rona", "1", "a", 4)];
    let document = brew_stats(&rows);
    assert_eq!(document["rona"]["total_installs"], Value::from(7));
    assert_eq!(document["rona"]["total_downloads"]["downloads"], Value::from(3));
    assert_eq!(document["rona"]["1"]["downloads"], Value::from(4));
}
