use autover::command::CountMethod;
use autover::engine::{parse_count_method, CommitInfo, DeriveError};
use autover::version::{Identifier, Version};

fn commit(id: &str, parents: usize, note: Option<&str>) -> CommitInfo {
    CommitInfo { id: id.to_string(), parent_count: parents, note: note.map(|n| n.to_string()) }
}

fn v(major: u64, minor: u64, patch: u64) -> Version {
    Version { major, minor, patch, pre: vec![] }
}

fn single_commit() -> Vec<CommitInfo> {
    vec![commit("root", 0, None)]
}

fn two_commits() -> Vec<CommitInfo> {
    vec![commit("second", 1, None), commit("root", 0, None)]
}

// root, a commit on a side branch, and a merge of that branch back.
fn merge_commit() -> Vec<CommitInfo> {
    vec![commit("merge", 2, None), commit("side", 1, None), commit("root", 0, None)]
}

// A side branch takes a commit from master, then is merged back.
fn updated_from_master() -> Vec<CommitInfo> {
    vec![
        commit("merge-other", 2, None),
        commit("c", 1, None),
        commit("merge-master", 2, None),
        commit("a", 1, None),
        commit("b", 1, None),
        commit("root", 0, None),
    ]
}

fn minor_update() -> Vec<CommitInfo> {
    vec![
        commit("merge-2", 2, None),
        commit("minor", 1, Some("autover-inc-minor")),
        commit("merge-1", 2, None),
        commit("a", 1, None),
        commit("root", 0, None),
    ]
}

fn major_update() -> Vec<CommitInfo> {
    let mut w = vec![commit("merge-3", 2, None), commit("major", 1, Some("autover-inc-major"))];
    w.extend(minor_update());
    w
}

fn manual_patch_after_major_update() -> Vec<CommitInfo> {
    let mut w = vec![commit("merge-4", 2, None), commit("patch", 1, Some("autover-inc-patch"))];
    w.extend(major_update());
    w
}

fn expect(walk: Vec<CommitInfo>, method: CountMethod, expected: Version) {
    assert_eq!(autover::engine::derive(&walk, method), Ok(expected));
}

#[test]
fn single_commit_merge() {
    expect(single_commit(), CountMethod::Merge, v(0, 0, 0));
}

#[test]
fn single_commit_commit() {
    expect(single_commit(), CountMethod::Commit, v(0, 0, 0));
}

#[test]
fn single_commit_manual() {
    expect(single_commit(), CountMethod::Manual, v(0, 0, 0));
}

#[test]
fn two_commits_merge() {
    expect(two_commits(), CountMethod::Merge, v(0, 0, 0));
}

#[test]
fn two_commits_commit() {
    expect(two_commits(), CountMethod::Commit, v(0, 0, 1));
}

#[test]
fn two_commits_manual() {
    expect(two_commits(), CountMethod::Manual, v(0, 0, 0));
}

#[test]
fn merge_commit_merge() {
    expect(merge_commit(), CountMethod::Merge, v(0, 0, 1));
}

#[test]
fn merge_commit_commit() {
    expect(merge_commit(), CountMethod::Commit, v(0, 0, 1));
}

#[test]
fn merge_commit_manual() {
    expect(merge_commit(), CountMethod::Manual, v(0, 0, 0));
}

#[test]
fn updated_from_master_merge() {
    expect(updated_from_master(), CountMethod::Merge, v(0, 0, 2));
}

#[test]
fn updated_from_master_commit() {
    expect(updated_from_master(), CountMethod::Commit, v(0, 0, 3));
}

#[test]
fn updated_from_master_manual() {
    expect(updated_from_master(), CountMethod::Manual, v(0, 0, 0));
}

#[test]
fn minor_update_merge() {
    expect(minor_update(), CountMethod::Merge, v(0, 1, 0));
}

#[test]
fn minor_update_commit() {
    expect(minor_update(), CountMethod::Commit, v(0, 1, 0));
}

#[test]
fn minor_update_manual() {
    expect(minor_update(), CountMethod::Manual, v(0, 1, 0));
}

#[test]
fn major_update_merge() {
    expect(major_update(), CountMethod::Merge, v(1, 0, 0));
}

#[test]
fn major_update_commit() {
    expect(major_update(), CountMethod::Commit, v(1, 0, 0));
}

#[test]
fn major_update_manual() {
    expect(major_update(), CountMethod::Manual, v(1, 0, 0));
}

#[test]
fn manual_patch_after_major_update_merge() {
    expect(manual_patch_after_major_update(), CountMethod::Merge, v(1, 0, 1));
}

#[test]
fn manual_patch_after_major_update_commit() {
    expect(manual_patch_after_major_update(), CountMethod::Commit, v(1, 0, 1));
}

#[test]
fn manual_patch_after_major_update_manual() {
    expect(manual_patch_after_major_update(), CountMethod::Manual, v(1, 0, 1));
}

#[test]
fn derive_twice_gives_the_same_version() {
    let walk = manual_patch_after_major_update();
    assert_eq!(autover::engine::derive(&walk, CountMethod::Merge), autover::engine::derive(&walk, CountMethod::Merge));
}

#[test]
fn chain_of_commits_counts_under_commit_policy() {
    for n in 1..8usize {
        let mut walk = Vec::new();
        for i in (1..n).rev() {
            walk.push(commit(&format!("c{}", i), 1, None));
        }
        walk.push(commit("root", 0, None));
        expect(walk, CountMethod::Commit, v(0, 0, (n - 1) as u64));
    }
}

#[test]
fn suppressed_merge_after_minor_branch() {
    let walk = vec![
        commit("merge", 2, None),
        commit("feature", 1, Some("autover-inc-minor")),
        commit("root", 0, None),
    ];
    expect(walk, CountMethod::Merge, v(0, 1, 0));
}

#[test]
fn two_bumps_then_two_merges_suppress_one() {
    let walk = vec![
        commit("merge-b", 2, None),
        commit("merge-a", 2, None),
        commit("minor-b", 1, Some("autover-inc-minor")),
        commit("minor-a", 1, Some("autover-inc-minor")),
        commit("root", 0, None),
    ];
    expect(walk, CountMethod::Merge, v(0, 2, 1));
}

#[test]
fn set_version_overrides_and_accumulates() {
    let walk = vec![
        commit("minor", 1, Some("autover-inc-minor")),
        commit("set", 1, Some("autover-set-version 2.5.0-beta")),
        commit("c", 1, None),
        commit("root", 0, None),
    ];
    let before = vec![walk[1].clone(), walk[2].clone(), walk[3].clone()];
    let beta = Version {
        major: 2,
        minor: 5,
        patch: 0,
        pre: vec![Identifier::AlphaNumeric("beta".to_string())],
    };
    expect(before, CountMethod::Commit, beta);
    expect(walk, CountMethod::Commit, v(2, 6, 0));
}

#[test]
fn manual_policy_ignores_unannotated_shapes() {
    expect(updated_from_master(), CountMethod::Manual, v(0, 0, 0));
    let mut walk = Vec::new();
    for i in 0..20 {
        walk.push(commit(&format!("m{}", i), 2, None));
        walk.push(commit(&format!("c{}", i), 1, None));
    }
    walk.push(commit("root", 0, None));
    expect(walk, CountMethod::Manual, v(0, 0, 0));
}

#[test]
fn empty_walk_has_no_commits() {
    assert_eq!(autover::engine::derive(&vec![], CountMethod::Merge), Err(DeriveError::NoCommits));
}

#[test]
fn invalid_set_version_names_its_commit() {
    let walk = vec![
        commit("bad", 1, Some("autover-set-version 01.2.3")),
        commit("root", 0, None),
    ];
    assert_eq!(
        autover::engine::derive(&walk, CountMethod::Merge),
        Err(DeriveError::InvalidVersion { commit: "bad".to_string() })
    );
}

#[test]
fn too_large_set_version_is_invalid() {
    let walk = vec![commit("huge", 0, Some("autover-set-version 18446744073709551616.0.0"))];
    assert_eq!(
        autover::engine::derive(&walk, CountMethod::Merge),
        Err(DeriveError::InvalidVersion { commit: "huge".to_string() })
    );
}

#[test]
fn overflowing_bump_names_its_commit() {
    let walk = vec![
        commit("bump", 1, Some("autover-inc-minor")),
        commit("set", 0, Some("autover-set-version 1.18446744073709551615.0")),
    ];
    assert_eq!(
        autover::engine::derive(&walk, CountMethod::Merge),
        Err(DeriveError::Overflow { commit: "bump".to_string() })
    );
}

#[test]
fn annotation_overrides_merge_topology() {
    let walk = vec![
        commit("merge", 2, Some("nothing to see")),
        commit("side", 1, None),
        commit("root", 0, None),
    ];
    expect(walk, CountMethod::Merge, v(0, 0, 0));
}

#[test]
fn prerelease_label_then_clear() {
    let labelled = vec![
        commit("tag", 1, Some("autover-set-prerelease-label rc.1")),
        commit("c", 1, None),
        commit("root", 0, None),
    ];
    let expected = Version {
        major: 0,
        minor: 0,
        patch: 1,
        pre: vec![Identifier::AlphaNumeric("rc.1".to_string())],
    };
    expect(labelled.clone(), CountMethod::Commit, expected);
    let mut cleared = vec![commit("untag", 1, Some("autover-clear-prerelease-label"))];
    cleared.extend(labelled.clone());
    expect(cleared, CountMethod::Merge, v(0, 0, 0));
    let mut bumped = vec![commit("next", 1, None)];
    bumped.extend(labelled);
    expect(bumped, CountMethod::Commit, v(0, 0, 2));
}

#[test]
fn count_method_names() {
    assert_eq!(parse_count_method("merge"), Ok(CountMethod::Merge));
    assert_eq!(parse_count_method("commit"), Ok(CountMethod::Commit));
    assert_eq!(parse_count_method("manual"), Ok(CountMethod::Manual));
    assert_eq!(
        parse_count_method("Merge"),
        Err(DeriveError::InvalidCountMethod { name: "Merge".to_string() })
    );
}
