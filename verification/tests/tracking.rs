use vps_back::brew::counter::{upsert_action, DownloadRecord, DownloadStore, UpsertAction};
use vps_back::brew::handlers::{finish_track, plan_track, track_brew_download, TrackPlan};
use vps_back::brew::redirect::{location_header, redirect_url};
use vps_back::error::ApiError;

const BOTTLE: &str = "rona-2.17.7.arm64_sequoia.bottle.tar.gz";

#[test]
fn counts_one_then_two() {
    let mut store = DownloadStore::new();
    assert_eq!(store.record_download("rona", "2.17.7", "arm64_sequoia"), 1);
    assert_eq!(store.record_download("rona", "2.17.7", "arm64_sequoia"), 2);
    assert_eq!(store.count("rona", "2.17.7", "arm64_sequoia"), 2);
    assert_eq!(store.len(), 1);
}

#[test]
fn a_first_download_creates_one_record() {
    let mut store = DownloadStore::new();
    store.record_download("rona", "2.17.7", "arm64_sequoia");
    store.record_download("rona", "2.17.7", "arm64_sequoia");
    let before = store.len();
    assert_eq!(store.record_download("rona", "2.17.7", "ventura"), 1);
    assert_eq!(store.len(), before + 1);
    let created = &store.records()[before];
    assert_eq!(created.project, "rona");
    assert_eq!(created.version, "2.17.7");
    assert_eq!(created.platform, "ventura");
    assert_eq!(created.count, 1);
    assert_eq!(created.id, 2);
    assert_eq!(store.count("rona", "2.17.7", "arm64_sequoia"), 2);
}

#[test]
fn no_download_is_lost() {
    let mut store = DownloadStore::new();
    store.record_download("clean-dev-dirs", "1.0", "ventura");
    for n in 1..=50 {
        assert_eq!(store.record_download("rona", "1.0", "ventura"), n);
    }
    assert_eq!(store.count("rona", "1.0", "ventura"), 50);
    assert_eq!(store.count("clean-dev-dirs", "1.0", "ventura"), 1);
    assert_eq!(store.len(), 2);
}

#[test]
fn a_triple_without_a_record_counts_zero() {
    let mut store = DownloadStore::new();
    assert_eq!(store.count("rona", "1.0", "ventura"), 0);
    assert_eq!(store.find("rona", "1.0", "ventura"), None);
    store.record_download("rona", "1.0", "ventura");
    assert_eq!(store.find("rona", "1.0", "ventura"), Some(0));
    assert_eq!(store.count("rona", "1.0", "sonoma"), 0);
    assert_eq!(store.count("rona", "1.1", "ventura"), 0);
    assert_eq!(store.count("ron", "1.0", "ventura"), 0);
}

#[test]
fn an_existing_record_is_updated_by_one() {
    let record = DownloadRecord {
        id: 7,
        project: "rona".to_string(),
        version: "1.0".to_string(),
        platform: "ventura".to_string(),
        count: 41,
    };
    match upsert_action(Some(&record), "rona", "1.0", "ventura") {
        UpsertAction::Update { id, count } => {
            assert_eq!(id, 7);
            assert_eq!(count, 42);
        }
        UpsertAction::Insert { .. } => panic!("an existing record is updated"),
    }
}

#[test]
fn a_missing_record_is_inserted_with_one() {
    match upsert_action(None, "rona", "1.0", "ventura") {
        UpsertAction::Insert { project, version, platform, count } => {
            assert_eq!(project, "rona");
            assert_eq!(version, "1.0");
            assert_eq!(platform, "ventura");
            assert_eq!(count, 1);
        }
        UpsertAction::Update { .. } => panic!("a missing record is inserted"),
    }
}

#[test]
fn builds_the_release_address() {
    assert_eq!(
        redirect_url("rona-rs", "rona", "2.17.7", BOTTLE),
        "https://github.com/rona-rs/rona/releases/download/v2.17.7/rona-2.17.7.arm64_sequoia.bottle.tar.gz"
    );
    assert_eq!(redirect_url("", "", "", ""), "https://github.com///releases/download/v/");
}

#[test]
fn encodes_an_address_as_a_header() {
    let url = "https://github.com/rona-rs/rona/releases/download/v1/caf\u{e9}\t.tar";
    let value = location_header(url).expect("every byte may stand in a header");
    assert_eq!(value.as_bytes(), url.as_bytes());
}

#[test]
fn refuses_an_address_that_no_header_can_hold() {
    for url in ["https://github.com/a\nb", "a\u{7f}", "\u{0}", "line\r"] {
        match location_header(url) {
            Err(ApiError::Internal(cause)) => assert_eq!(cause, "Failed to build Location header"),
            other => panic!("expected an internal error, got {other:?}"),
        }
    }
}

#[test]
fn tracks_a_download_and_redirects() {
    let mut store = DownloadStore::new();
    let redirect = track_brew_download(&mut store, "rona", BOTTLE).expect("a known bottle");
    assert_eq!(redirect.status, 302);
    assert_eq!(
        redirect.location.to_str().unwrap(),
        "https://github.com/rona-rs/rona/releases/download/v2.17.7/rona-2.17.7.arm64_sequoia.bottle.tar.gz"
    );
    assert_eq!(store.count("rona", "2.17.7", "arm64_sequoia"), 1);
    track_brew_download(&mut store, "rona", BOTTLE).expect("a known bottle");
    assert_eq!(store.count("rona", "2.17.7", "arm64_sequoia"), 2);
    assert_eq!(store.len(), 1);
}

#[test]
fn an_unknown_project_creates_no_record() {
    let mut store = DownloadStore::new();
    store.record_download("rona", "1.0", "ventura");
    match track_brew_download(&mut store, "other", "other-2.17.7.arm64_sequoia.bottle.tar.gz") {
        Err(e) => {
            assert_eq!(e.status_code(), 404);
            assert!(matches!(&e, ApiError::NotFound(detail) if detail == "Unknown project: other"));
            assert_eq!(e.client_message(), "resource not found: Unknown project: other");
        }
        Ok(_) => panic!("an unknown project is not tracked"),
    }
    assert_eq!(store.len(), 1);
    assert_eq!(store.count("other", "2.17.7", "arm64_sequoia"), 0);
    assert_eq!(store.count("rona", "1.0", "ventura"), 1);
}

#[test]
fn an_unparsable_filename_creates_no_record() {
    let mut store = DownloadStore::new();
    match track_brew_download(&mut store, "rona", "rona-2.bottle.tar.gz") {
        Err(e) => {
            assert_eq!(e.status_code(), 400);
            assert!(matches!(
                &e,
                ApiError::ValidationFailed(detail)
                    if detail == "Could not parse filename: rona-2.bottle.tar.gz"
            ));
        }
        Ok(_) => panic!("an unparsable filename is not tracked"),
    }
    assert_eq!(store.len(), 0);
}

#[test]
fn a_download_is_counted_even_if_the_redirect_fails() {
    let mut store = DownloadStore::new();
    match track_brew_download(&mut store, "rona", "rona-1\n0.ventura.bottle.tar.gz") {
        Err(e) => {
            assert_eq!(e.status_code(), 500);
            assert!(matches!(&e, ApiError::Internal(_)));
            assert_eq!(e.client_message(), "Internal server error");
        }
        Ok(_) => panic!("a line feed cannot stand in a header"),
    }
    assert_eq!(store.count("rona", "1\n0", "ventura"), 1);
}

#[test]
fn plans_before_anything_is_counted() {
    let plan = plan_track("clean-dev-dirs", "clean-dev-dirs-0.3.1.x86_64_linux.bottle.tar.gz")
        .expect("a known bottle");
    assert_eq!(plan.org, "clean-dev-dirs");
    assert_eq!(plan.repo, "clean-dev-dirs");
    assert_eq!(plan.version, "0.3.1");
    assert_eq!(plan.platform, "x86_64_linux");
    assert!(matches!(plan_track("nope", BOTTLE), Err(ApiError::NotFound(_))));
    assert!(matches!(
        plan_track("rona", "clean-dev-dirs-0.3.1.x86_64_linux.bottle.tar.gz"),
        Err(ApiError::ValidationFailed(_))
    ));
}

#[test]
fn finishes_with_the_redirect() {
    let plan = TrackPlan {
        org: "rona-rs",
        repo: "rona",
        version: "9.9".to_string(),
        platform: "ventura".to_string(),
    };
    let redirect = finish_track(&plan, "rona-9.9.ventura.bottle.tar.gz").expect("plain text");
    assert_eq!(redirect.status, 302);
    assert_eq!(
        redirect.location.as_bytes(),
        b"https://github.com/rona-rs/rona/releases/download/v9.9/rona-9.9.ventura.bottle.tar.gz"
    );
}
