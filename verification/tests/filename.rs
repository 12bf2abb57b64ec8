use vps_back::brew::filename::parse_brew_filename;
use vps_back::brew::registry::github_org_repo;

fn parsed(project: &str, filename: &str) -> Option<(String, String)> {
    parse_brew_filename(project, filename)
}

fn pair(version: &str, platform: &str) -> Option<(String, String)> {
    Some((version.to_string(), platform.to_string()))
}

#[test]
fn parses_a_rona_bottle() {
    assert_eq!(
        parsed("rona", "rona-2.17.7.arm64_sequoia.bottle.tar.gz"),
        pair("2.17.7", "arm64_sequoia")
    );
}

#[test]
fn rejects_a_bottle_of_another_project() {
    assert_eq!(parsed("rona", "other-2.17.7.arm64_sequoia.bottle.tar.gz"), None);
}

#[test]
fn rejects_a_name_without_a_dot_before_the_suffix() {
    assert_eq!(parsed("rona", "rona-2.bottle.tar.gz"), None);
}

#[test]
fn splits_at_the_last_dot_when_the_platform_is_missing() {
    assert_eq!(parsed("rona", "rona-2.17.7.bottle.tar.gz"), pair("2.17", "7"));
}

#[test]
fn rejects_a_name_without_the_suffix() {
    assert_eq!(parsed("rona", "rona-2.17.7.arm64_sequoia.tar.gz"), None);
    assert_eq!(parsed("rona", "rona-2.17.7.arm64_sequoia.bottle.tar.gz.sig"), None);
    assert_eq!(parsed("rona", ""), None);
    assert_eq!(parsed("rona", ".bottle.tar.gz"), None);
    assert_eq!(parsed("rona", "bottle.tar.gz"), None);
}

#[test]
fn keeps_the_dots_of_a_version() {
    assert_eq!(
        parsed("clean-dev-dirs", "clean-dev-dirs-1.2.3.4-rc.1.x86_64_linux.bottle.tar.gz"),
        pair("1.2.3.4-rc.1", "x86_64_linux")
    );
}

#[test]
fn matches_the_project_prefix_literally() {
    assert_eq!(parsed("rona", "ronax-1.0.arm.bottle.tar.gz"), None);
    assert_eq!(parsed("rona", "Rona-1.0.arm.bottle.tar.gz"), None);
    assert_eq!(parsed("rona", "rona_1.0.arm.bottle.tar.gz"), None);
    assert_eq!(parsed("rona", "rona.arm.bottle.tar.gz"), None);
    assert_eq!(
        parsed("clean-dev", "clean-dev-dirs-1.0.arm.bottle.tar.gz"),
        pair("dirs-1.0", "arm")
    );
    assert_eq!(parsed("clean-dev-dirs", "clean-dev-1.0.arm.bottle.tar.gz"), None);
}

#[test]
fn accepts_empty_parts() {
    assert_eq!(parsed("rona", "rona-.arm.bottle.tar.gz"), pair("", "arm"));
    assert_eq!(parsed("rona", "rona-1.0..bottle.tar.gz"), pair("1.0", ""));
    assert_eq!(parsed("", "-1.0.arm.bottle.tar.gz"), pair("1.0", "arm"));
    assert_eq!(parsed("rona", "rona-..bottle.tar.gz"), pair("", ""));
}

#[test]
fn counts_characters_not_bytes() {
    assert_eq!(
        parsed("caf\u{e9}", "caf\u{e9}-1.\u{4e2d}.\u{1f37a}x.bottle.tar.gz"),
        pair("1.\u{4e2d}", "\u{1f37a}x")
    );
}

#[test]
fn a_built_name_parses_back() {
    let cases = [
        ("rona", "2.17.7", "arm64_sequoia"),
        ("clean-dev-dirs", "0.1.0-beta.2", "x86_64_linux"),
        ("rona", "1.bottle.tar.gz.2", "ventura"),
        ("a.b", "", "all"),
        ("rona", "3", ""),
    ];
    for (project, version, platform) in cases {
        let filename = format!("{project}-{version}.{platform}.bottle.tar.gz");
        assert_eq!(parsed(project, &filename), pair(version, platform));
    }
}

#[test]
fn knows_the_listed_projects() {
    assert_eq!(github_org_repo("rona"), Some(("rona-rs", "rona")));
    assert_eq!(github_org_repo("clean-dev-dirs"), Some(("clean-dev-dirs", "clean-dev-dirs")));
}

#[test]
fn rejects_projects_that_are_not_listed() {
    assert_eq!(github_org_repo("other"), None);
    assert_eq!(github_org_repo(""), None);
    assert_eq!(github_org_repo("Rona"), None);
    assert_eq!(github_org_repo("rona "), None);
    assert_eq!(github_org_repo("rona-rs"), None);
    assert_eq!(github_org_repo("clean-dev"), None);
}
