use autover::annotation::{match_message_to_cmd, resolve_commit};
use autover::command::VersionCmd;
use autover::version::{Identifier, Version};
use autover::version_text::parse_version;

#[test]
fn keywords_resolve_in_priority_order() {
    assert_eq!(match_message_to_cmd("autover-inc-minor autover-inc-major"), Some(VersionCmd::IncMajor));
    assert_eq!(match_message_to_cmd("x autover-inc-minor y"), Some(VersionCmd::IncMinor));
    assert_eq!(
        match_message_to_cmd("autover-inc-patch autover-set-version 1.2.3"),
        Some(VersionCmd::SetVersion("1.2.3".to_string()))
    );
    assert_eq!(
        match_message_to_cmd("autover-clear-prerelease-label autover-set-prerelease-label beta"),
        Some(VersionCmd::SetPrereleaseLabel("beta".to_string()))
    );
    assert_eq!(
        match_message_to_cmd("autover-inc-patch autover-clear-prerelease-label"),
        Some(VersionCmd::ClearPrereleaseLabel)
    );
    assert_eq!(match_message_to_cmd("autover-inc-patch"), Some(VersionCmd::IncPatchManual));
    assert_eq!(match_message_to_cmd("release notes"), None);
    assert_eq!(match_message_to_cmd(""), None);
}

#[test]
fn set_version_captures_the_longest_version_text() {
    assert_eq!(
        match_message_to_cmd("autover-set-version 2.5.0-beta"),
        Some(VersionCmd::SetVersion("2.5.0-beta".to_string()))
    );
    assert_eq!(
        match_message_to_cmd("please autover-set-version 1.2.3-rc.1+meta. now"),
        Some(VersionCmd::SetVersion("1.2.3-rc.1".to_string()))
    );
    assert_eq!(
        match_message_to_cmd("autover-set-version x autover-set-version 10.0.7-"),
        Some(VersionCmd::SetVersion("10.0.7".to_string()))
    );
}

#[test]
fn set_version_without_a_version_falls_through() {
    assert_eq!(match_message_to_cmd("autover-set-version 1.2"), None);
    assert_eq!(
        match_message_to_cmd("autover-set-version 1.2 autover-inc-patch"),
        Some(VersionCmd::IncPatchManual)
    );
}

#[test]
fn prerelease_label_capture_stops_at_other_characters() {
    assert_eq!(
        match_message_to_cmd("autover-set-prerelease-label alpha.2..x"),
        Some(VersionCmd::SetPrereleaseLabel("alpha.2".to_string()))
    );
    assert_eq!(match_message_to_cmd("autover-set-prerelease-label .x"), None);
}

#[test]
fn implicit_commands_follow_parent_count() {
    assert_eq!(resolve_commit(0, &None), None);
    assert_eq!(resolve_commit(1, &None), Some(VersionCmd::IncPatchCommit));
    assert_eq!(resolve_commit(3, &None), Some(VersionCmd::IncPatchMerge));
    assert_eq!(resolve_commit(2, &Some("autover-inc-minor".to_string())), Some(VersionCmd::IncMinor));
    assert_eq!(resolve_commit(2, &Some("hello".to_string())), None);
}

#[test]
fn parse_version_reads_numbers_and_prerelease() {
    assert_eq!(
        parse_version("2.5.0-beta"),
        Some(Version { major: 2, minor: 5, patch: 0, pre: vec![Identifier::AlphaNumeric("beta".to_string())] })
    );
    assert_eq!(
        parse_version("10.20.30-alpha.1.01.0.x-y"),
        Some(Version {
            major: 10,
            minor: 20,
            patch: 30,
            pre: vec![
                Identifier::AlphaNumeric("alpha".to_string()),
                Identifier::Numeric(1),
                Identifier::AlphaNumeric("01".to_string()),
                Identifier::Numeric(0),
                Identifier::AlphaNumeric("x-y".to_string()),
            ],
        })
    );
    assert_eq!(
        parse_version("18446744073709551615.0.0"),
        Some(Version { major: u64::MAX, minor: 0, patch: 0, pre: vec![] })
    );
}

#[test]
fn parse_version_rejects_non_canonical_text() {
    assert_eq!(parse_version("01.2.3"), None);
    assert_eq!(parse_version("1.2"), None);
    assert_eq!(parse_version("1.2.3+build"), None);
    assert_eq!(parse_version("1.2.3-"), None);
    assert_eq!(parse_version("18446744073709551616.0.0"), None);
    assert_eq!(parse_version(""), None);
}
