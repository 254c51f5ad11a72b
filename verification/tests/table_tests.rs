use cargo_bup::cargo::{install_args, InstallInfo};
use cargo_bup::git::CommitId;
use cargo_bup::models::{GitChanges, GitInfo, GitTarget};
use cargo_bup::table::{
    display_commit, display_commit_count, display_deletions, display_files_changed,
    display_insertions, display_type, ColorizedVersion, GitTable, RegistryTable,
};
use cargo_bup::version::Version;

const OLD: &str = "0123456789abcdef0123456789abcdef01234567";
const NEW: &str = "89abcdef0123456789abcdef0123456789abcdef";

#[test]
fn colorized_versions() {
    // 1.0.1
    //     ^-- patch only
    assert_eq!(
        "1.0.\x1b[34m1\x1b[39m",
        ColorizedVersion::new(&Version::new(1, 0, 0), &Version::new(1, 0, 1)).render()
    );
    // 1.1.0
    //   ^^^-- minor + patch
    assert_eq!(
        "1.\x1b[32m1.0\x1b[39m",
        ColorizedVersion::new(&Version::new(1, 0, 0), &Version::new(1, 1, 0)).render()
    );
    // 2.0.0
    // ^^^^^-- major + minor + patch
    assert_eq!(
        "\x1b[33m2.0.0\x1b[39m",
        ColorizedVersion::new(&Version::new(1, 0, 0), &Version::new(2, 0, 0)).render()
    );
    // 2.0.0-abc+1
    // ^^^^^ ^^^ ^-- major + minor + path, then pre, then build,
    //               but not the pre/build separators
    assert_eq!(
        "\x1b[33m2.0.0\x1b[39m-\x1b[2mabc\x1b[0m+\x1b[2m1\x1b[0m",
        ColorizedVersion::new(
            &Version::new(1, 0, 0),
            &Version::parse("2.0.0-abc+1").unwrap()
        )
        .render()
    );
}

#[test]
fn zero_zero_versions_highlight_everything() {
    // below 0.1.0 even a patch bump is breaking: all yellow
    assert_eq!(
        "0.0.\x1b[33m2\x1b[39m",
        ColorizedVersion::new(&Version::new(0, 0, 1), &Version::new(0, 0, 2)).render()
    );
    // below 1.0.0 a minor bump is breaking: yellow, patch green
    assert_eq!(
        "0.\x1b[33m2.0\x1b[39m",
        ColorizedVersion::new(&Version::new(0, 1, 0), &Version::new(0, 2, 0)).render()
    );
}

#[test]
fn display_cells() {
    assert_eq!(display_type("branch main"), "\x1b[34mbranch main\x1b[39m");
    assert_eq!(display_commit_count(3), "\x1b[33m3\x1b[39m commits");
    assert_eq!(display_files_changed(7), "\x1b[37m7\x1b[39m files changed");
    assert_eq!(display_insertions(10), "\x1b[32m+10\x1b[39m");
    assert_eq!(display_deletions(2), "\x1b[31m-2\x1b[39m");
    let c = CommitId::parse(OLD).unwrap();
    assert_eq!(display_commit(&c), "\x1b[36m0123456\x1b[39m");
}

#[test]
fn registry_table_rows() {
    let mut table = RegistryTable::new();
    table.add(
        "tool",
        &Version::new(1, 0, 0),
        &Version::new(1, 0, 1),
    );
    assert_eq!(table.0.len(), 1);
    assert_eq!(table.0[0].name, "tool");
    assert_eq!(table.0[0].current, "1.0.0");
    assert_eq!(table.0[0].latest, "1.0.\x1b[34m1\x1b[39m");
}

#[test]
fn git_table_rows() {
    let info = GitInfo {
        label: "HEAD".to_string(),
        old_commit: CommitId::parse(OLD).unwrap(),
        new_commit: CommitId::parse(NEW).unwrap(),
        changes: GitChanges { commits: 2, files_changed: 3, insertions: 10, deletions: 2 },
        target: GitTarget::Default,
    };
    let mut table = GitTable::new();
    table.add("tool", &info);
    assert_eq!(table.0.len(), 1);
    assert_eq!(table.0[0].name, "tool");
    assert_eq!(table.0[0].label, "HEAD");
    assert_eq!(table.0[0].commits, 2);
    assert_eq!(table.0[0].insertions, 10);
}

#[test]
fn install_args_replay_the_settings() {
    let info = InstallInfo {
        version_req: None,
        bins: vec!["a".to_string(), "b".to_string()],
        features: vec!["x".to_string(), "y".to_string()],
        all_features: false,
        no_default_features: true,
        profile: "release".to_string(),
        target: "t".to_string(),
        rustc: "rustc".to_string(),
        extra: vec![],
    };
    assert_eq!(
        install_args(&info),
        vec![
            "--bin".to_string(),
            "a".to_string(),
            "--bin".to_string(),
            "b".to_string(),
            "--features".to_string(),
            "x,y".to_string(),
            "--no-default-features".to_string(),
            "--profile".to_string(),
            "release".to_string(),
        ]
    );

    let all = InstallInfo {
        all_features: true,
        no_default_features: false,
        features: vec![],
        bins: vec![],
        profile: String::new(),
        ..info
    };
    assert_eq!(install_args(&all), vec!["--all-features".to_string()]);
}
