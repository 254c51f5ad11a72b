use cargo_bup::cargo::{CrateListingV2, InstallInfo, PackageId};
use cargo_bup::collect::{collect_updates, GitObservation, GitFailure, SelectArgs, SourceData};
use cargo_bup::errors::Error;
use cargo_bup::git::{CommitId, FileDiff, LineCounts};

const OLD: &str = "0123456789abcdef0123456789abcdef01234567";
const NEW: &str = "89abcdef0123456789abcdef0123456789abcdef";

fn install_info() -> InstallInfo {
    InstallInfo {
        version_req: None,
        bins: vec!["tool".to_string()],
        features: vec![],
        all_features: false,
        no_default_features: false,
        profile: "release".to_string(),
        target: "x86_64-unknown-linux-gnu".to_string(),
        rustc: "rustc 1.0.0".to_string(),
        extra: vec![],
    }
}

fn listing(texts: &[&str]) -> CrateListingV2 {
    let installs = texts
        .iter()
        .map(|t| (PackageId::parse(t).unwrap(), install_info()))
        .collect();
    let listing = CrateListingV2 { installs };
    assert!(listing.check_wf());
    listing
}

#[test]
fn collector_partitions_by_source_kind() {
    let git_text = format!("gitpkg 0.1.0 (git+https://github.com/u/r#{})", OLD);
    let info = listing(&[
        git_text.as_str(),
        "localpkg 0.2.0 (path+file:///srv/x)",
        "regpkg 1.0.0 (registry+https://github.com/rust-lang/crates.io-index)",
    ]);
    assert!(info.check_sorted());
    let args = SelectArgs { pre: false, git: true, path: true };

    let observation = GitObservation {
        new_commit: CommitId::parse(NEW).unwrap(),
        ancestry: vec![CommitId::parse(NEW).unwrap(), CommitId::parse(OLD).unwrap()],
        files: vec![FileDiff { line_counts: Some(LineCounts { insertions: 4, deletions: 1 }) }],
    };
    let data = vec![
        SourceData::Git { outcome: Some(Ok(observation)) },
        SourceData::Path,
        SourceData::Registry { latest: Some("1.1.0".to_string()) },
    ];

    let out = collect_updates(&info, &data, &args);

    // each package lands in exactly the mapping of its kind
    assert_eq!(out.updates.registry.len(), 1);
    assert_eq!(out.updates.git.len(), 1);
    assert_eq!(out.updates.path.len(), 1);
    assert!(out.failures.is_empty());
    assert!(out.anomalies.is_empty());

    assert_eq!(out.updates.registry[0].0.name, "regpkg");
    assert_eq!(out.updates.registry[0].1.extra.version.render(), "1.1.0");
    assert_eq!(out.updates.git[0].0.name, "gitpkg");
    assert_eq!(out.updates.git[0].1.extra.changes.commits, 1);
    assert_eq!(out.updates.git[0].1.extra.changes.insertions, 4);
    assert_eq!(out.updates.path[0].0.name, "localpkg");
    // the install settings ride along unchanged
    assert_eq!(out.updates.path[0].1.install_info.profile, "release");
}

#[test]
fn collector_accounts_for_every_package() {
    let info = listing(&[
        "absent 1.0.0 (registry+https://github.com/rust-lang/crates.io-index)",
        "current 1.0.0 (registry+https://github.com/rust-lang/crates.io-index)",
        "localpkg 0.2.0 (path+file:///srv/x)",
    ]);
    let args = SelectArgs { pre: false, git: false, path: false };
    let data = vec![
        SourceData::Registry { latest: None },
        SourceData::Registry { latest: Some("1.0.0".to_string()) },
        SourceData::Path,
    ];

    let out = collect_updates(&info, &data, &args);

    // one failed, one had no update, one was disabled: nothing is dropped
    assert!(out.updates.registry.is_empty());
    assert!(out.updates.git.is_empty());
    assert!(out.updates.path.is_empty());
    assert_eq!(out.failures.len(), 1);
    assert_eq!(out.failures[0].0, "absent");
    assert_eq!(out.failures[0].1, Error::PackageNotFound);
}

#[test]
fn collector_skips_disabled_git_and_reports_fetch_failures() {
    let broken_text = format!("broken 0.1.0 (git+https://github.com/u/broken#{})", OLD);
    let skipped_text = format!("skipped 0.1.0 (git+https://github.com/u/skipped#{})", OLD);
    let info = listing(&[broken_text.as_str(), skipped_text.as_str()]);
    let args = SelectArgs { pre: false, git: true, path: false };
    let data = vec![
        SourceData::Git { outcome: Some(Err(GitFailure::Network)) },
        SourceData::Git { outcome: Some(Ok(GitObservation {
            new_commit: CommitId::parse(OLD).unwrap(),
            ancestry: vec![CommitId::parse(OLD).unwrap()],
            files: vec![],
        })) },
    ];

    let out = collect_updates(&info, &data, &args);
    assert!(out.updates.git.is_empty());
    assert_eq!(out.failures.len(), 1);
    assert_eq!(out.failures[0].0, "broken");
    assert_eq!(out.failures[0].1, Error::NetworkFailure);
}

#[test]
fn collector_reports_an_exhausted_walk_as_anomaly() {
    let odd_text = format!("odd 0.1.0 (git+https://github.com/u/odd#{})", OLD);
    let info = listing(&[odd_text.as_str()]);
    let args = SelectArgs { pre: false, git: true, path: false };
    // the pinned commit never shows up in the walk: a forced push or a
    // local commit ahead of the remote
    let data = vec![SourceData::Git { outcome: Some(Ok(GitObservation {
        new_commit: CommitId::parse(NEW).unwrap(),
        ancestry: vec![CommitId::parse(NEW).unwrap()],
        files: vec![],
    })) }];

    let out = collect_updates(&info, &data, &args);
    assert_eq!(out.anomalies, vec!["odd".to_string()]);
    // the update is still reported, with the whole walk as its count
    assert_eq!(out.updates.git.len(), 1);
    assert_eq!(out.updates.git[0].1.extra.changes.commits, 1);
}

#[test]
fn repository_failures_are_attributed() {
    let text = format!("cachey 0.1.0 (git+https://github.com/u/cachey#{})", OLD);
    let info = listing(&[text.as_str()]);
    let args = SelectArgs { pre: false, git: true, path: false };
    let data = vec![SourceData::Git { outcome: Some(Err(GitFailure::Repository)) }];
    let out = collect_updates(&info, &data, &args);
    assert_eq!(out.failures.len(), 1);
    assert_eq!(out.failures[0].1, Error::RepositoryAccessFailure);
}

#[test]
fn an_empty_install_set_yields_empty_results() {
    let info = listing(&[]);
    let args = SelectArgs { pre: true, git: true, path: true };
    let out = collect_updates(&info, &vec![], &args);
    assert!(out.updates.registry.is_empty());
    assert!(out.updates.git.is_empty());
    assert!(out.updates.path.is_empty());
    assert!(out.failures.is_empty());
    assert!(out.anomalies.is_empty());
}

#[test]
fn duplicate_entries_fail_the_sortedness_check() {
    let info = listing(&[
        "tool 1.0.0 (registry+https://github.com/rust-lang/crates.io-index)",
        "tool 1.0.0 (registry+https://github.com/rust-lang/crates.io-index)",
    ]);
    assert!(!info.check_sorted());
}

#[test]
fn tags_and_revs_are_never_checked() {
    let info = listing(&[
        "pinned 0.1.0 (git+https://github.com/u/r?rev=9abc)",
        "tagged 0.1.0 (git+https://github.com/u/r?tag=v1)",
    ]);
    let args = SelectArgs { pre: false, git: true, path: false };
    // no fetch is planned for either, so there is nothing to observe
    let data = vec![
        SourceData::Git { outcome: None },
        SourceData::Git { outcome: None },
    ];
    let out = collect_updates(&info, &data, &args);
    assert!(out.updates.git.is_empty());
    assert!(out.failures.is_empty());
}
