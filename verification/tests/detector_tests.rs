use cargo_bup::cargo::{GitReference, PackageId};
use cargo_bup::errors::Error;
use cargo_bup::git::{
    complete_check, count_commits_ahead, git_changes, plan_check, CommitId, FileDiff, LineCounts,
};
use cargo_bup::path;
use cargo_bup::registry;

const OLD: &str = "0123456789abcdef0123456789abcdef01234567";
const NEW: &str = "89abcdef0123456789abcdef0123456789abcdef";
const MID1: &str = "1111111111111111111111111111111111111111";
const MID2: &str = "2222222222222222222222222222222222222222";

fn registry_package(version: &str) -> PackageId {
    let text = format!(
        "tool {} (registry+https://github.com/rust-lang/crates.io-index)",
        version
    );
    PackageId::parse(&text).unwrap()
}

#[test]
fn registry_skips_prerelease_unless_allowed() {
    // installed 1.2.0; upstream latest is 1.3.0-beta
    let p = registry_package("1.2.0");
    let latest = Some("1.3.0-beta".to_string());

    let gated = registry::check_update(&p, &latest, false).unwrap();
    assert!(gated.is_none());

    let allowed = registry::check_update(&p, &latest, true).unwrap().unwrap();
    assert_eq!(allowed.version.render(), "1.3.0-beta");
}

#[test]
fn registry_never_downgrades() {
    let p = registry_package("2.0.0");
    let latest = Some("1.9.9".to_string());
    assert!(registry::check_update(&p, &latest, false).unwrap().is_none());
    assert!(registry::check_update(&p, &latest, true).unwrap().is_none());
}

#[test]
fn registry_equal_version_is_no_update() {
    let p = registry_package("1.2.0");
    let latest = Some("1.2.0".to_string());
    assert!(registry::check_update(&p, &latest, true).unwrap().is_none());
}

#[test]
fn registry_reports_newer_release() {
    let p = registry_package("1.2.0");
    let latest = Some("1.2.1".to_string());
    let info = registry::check_update(&p, &latest, false).unwrap().unwrap();
    assert_eq!(info.version.render(), "1.2.1");
}

#[test]
fn registry_errors() {
    let p = registry_package("1.2.0");
    assert_eq!(
        registry::check_update(&p, &None, false).unwrap_err(),
        Error::PackageNotFound
    );
    assert_eq!(
        registry::check_update(&p, &Some("not-a-version".to_string()), false).unwrap_err(),
        Error::InvalidUpstreamVersion
    );
}

#[test]
fn registry_ignores_other_registries() {
    let text = "tool 1.0.0 (registry+https://other.example.com/index)";
    let p = PackageId::parse(text).unwrap();
    // even an absent package is not an error for a registry this engine
    // does not serve
    assert!(registry::check_update(&p, &None, true).unwrap().is_none());
}

#[test]
fn path_detector_follows_the_switch() {
    let p = PackageId::parse("local 0.1.0 (path+file:///srv/x)").unwrap();
    assert!(path::check_update(&p, true).unwrap().is_some());
    assert!(path::check_update(&p, false).unwrap().is_none());
}

#[test]
fn git_plan_skips_tags_and_revs() {
    let precise = Some(OLD.to_string());
    let tag = GitReference::Tag("v1.0".to_string());
    let rev = GitReference::Rev("12ab".to_string());
    assert!(plan_check(&tag, &precise, true).is_none());
    assert!(plan_check(&rev, &precise, true).is_none());
}

#[test]
fn git_plan_needs_enablement_and_a_parsable_pin() {
    let branch = GitReference::Branch("main".to_string());
    assert!(plan_check(&branch, &Some(OLD.to_string()), false).is_none());
    assert!(plan_check(&branch, &None, true).is_none());
    assert!(plan_check(&branch, &Some("locked".to_string()), true).is_none());
    assert!(plan_check(&branch, &Some(OLD.to_string()), true).is_some());
}

#[test]
fn git_plan_builds_branch_refspec() {
    let branch = GitReference::Branch("main".to_string());
    let plan = plan_check(&branch, &Some(OLD.to_string()), true).unwrap();
    assert_eq!(plan.refspec, "+refs/heads/main:refs/remotes/origin/main");
    assert_eq!(plan.target_ref, "refs/remotes/origin/main");
    assert_eq!(plan.label, "branch main");
    assert_eq!(plan.old_commit.to_hex(), OLD);
}

#[test]
fn git_plan_builds_head_refspec() {
    let plan = plan_check(&GitReference::DefaultBranch, &Some(OLD.to_string()), true).unwrap();
    assert_eq!(plan.refspec, "+HEAD:refs/remotes/origin/HEAD");
    assert_eq!(plan.target_ref, "refs/remotes/origin/HEAD");
    assert_eq!(plan.label, "HEAD");
}

#[test]
fn commit_ids_parse_and_render() {
    let c = CommitId::parse(OLD).unwrap();
    assert_eq!(c.to_hex(), OLD);
    let upper = CommitId::parse(&OLD.to_uppercase()).unwrap();
    assert!(c.equals(&upper));
    assert!(CommitId::parse("0123").is_none());
    assert!(CommitId::parse("zz23456789abcdef0123456789abcdef01234567").is_none());
}

#[test]
fn zero_commits_ahead_is_no_update() {
    let old = CommitId::parse(OLD).unwrap();
    // the walk starts at the new tip; old == new means it is found at once
    let ancestry = vec![CommitId::parse(OLD).unwrap()];
    let (count, found) = count_commits_ahead(&ancestry, &old);
    assert_eq!(count, 0);
    assert!(found);

    let files = vec![];
    let (changes, _) = git_changes(&ancestry, &old, &files);
    assert_eq!(changes.commits, 0);

    let plan = plan_check(&GitReference::DefaultBranch, &Some(OLD.to_string()), true).unwrap();
    let new = CommitId::parse(OLD).unwrap();
    assert!(complete_check(plan, new, changes).is_none());
}

#[test]
fn commits_ahead_with_diff_stats() {
    let old = CommitId::parse(OLD).unwrap();
    let ancestry = vec![
        CommitId::parse(NEW).unwrap(),
        CommitId::parse(MID1).unwrap(),
        CommitId::parse(MID2).unwrap(),
        CommitId::parse(OLD).unwrap(),
    ];
    // three files changed: 10 insertions and 2 deletions in all, one file
    // without line counts
    let files = vec![
        FileDiff { line_counts: Some(LineCounts { insertions: 7, deletions: 2 }) },
        FileDiff { line_counts: Some(LineCounts { insertions: 3, deletions: 0 }) },
        FileDiff { line_counts: None },
    ];
    let (changes, found) = git_changes(&ancestry, &old, &files);
    assert!(found);
    assert_eq!(changes.commits, 3);
    assert_eq!(changes.files_changed, 3);
    assert_eq!(changes.insertions, 10);
    assert_eq!(changes.deletions, 2);

    let plan = plan_check(
        &GitReference::Branch("main".to_string()),
        &Some(OLD.to_string()),
        true,
    )
    .unwrap();
    let info = complete_check(plan, CommitId::parse(NEW).unwrap(), changes).unwrap();
    assert_eq!(info.label, "branch main");
    assert_eq!(info.old_commit.to_hex(), OLD);
    assert_eq!(info.new_commit.to_hex(), NEW);
    assert_eq!(info.changes.commits, 3);
}

#[test]
fn missing_pin_in_ancestry_is_flagged() {
    let old = CommitId::parse(OLD).unwrap();
    let ancestry = vec![CommitId::parse(NEW).unwrap(), CommitId::parse(MID1).unwrap()];
    let (count, found) = count_commits_ahead(&ancestry, &old);
    assert_eq!(count, 2);
    assert!(!found);
}
