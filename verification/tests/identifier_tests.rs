use cargo_bup::cargo::{GitReference, PackageId, SourceId, SourceKind};
use cargo_bup::errors::Error;
use cargo_bup::urls::url_to_string;

const OLD: &str = "0123456789abcdef0123456789abcdef01234567";

#[test]
fn parse_registry_identifier() {
    let p = PackageId::parse(
        "serde 1.0.100 (registry+https://github.com/rust-lang/crates.io-index)",
    )
    .unwrap();
    assert_eq!(p.name, "serde");
    assert_eq!(p.version.render(), "1.0.100");
    assert!(matches!(p.source_id.kind, SourceKind::Registry));
    assert_eq!(p.source_id.precise, Some("locked".to_string()));
    assert_eq!(
        url_to_string(&p.source_id.url),
        "https://github.com/rust-lang/crates.io-index"
    );
}

#[test]
fn parse_git_identifier_strips_query_and_fragment() {
    let text = format!(
        "tool 0.3.1 (git+https://github.com/user/repo?branch=main#{})",
        OLD
    );
    let p = PackageId::parse(&text).unwrap();
    assert_eq!(p.name, "tool");
    assert_eq!(p.version.render(), "0.3.1");
    match &p.source_id.kind {
        SourceKind::Git(GitReference::Branch(b)) => assert_eq!(b, "main"),
        _ => panic!("expected a branch reference"),
    }
    assert_eq!(p.source_id.precise, Some(OLD.to_string()));
    assert_eq!(url_to_string(&p.source_id.url), "https://github.com/user/repo");
}

#[test]
fn parse_git_reference_kinds() {
    let tag = SourceId::from_url("git+https://example.com/a/b?tag=v1.0").unwrap();
    assert!(matches!(tag.kind, SourceKind::Git(GitReference::Tag(_))));

    let rev = SourceId::from_url("git+https://example.com/a/b?rev=12ab").unwrap();
    assert!(matches!(rev.kind, SourceKind::Git(GitReference::Rev(_))));

    let by_ref = SourceId::from_url("git+https://example.com/a/b?ref=devel").unwrap();
    match by_ref.kind {
        SourceKind::Git(GitReference::Branch(b)) => assert_eq!(b, "devel"),
        _ => panic!("expected a branch reference"),
    }

    let default = SourceId::from_url("git+https://example.com/a/b").unwrap();
    assert!(matches!(default.kind, SourceKind::Git(GitReference::DefaultBranch)));

    // the last recognized query parameter wins
    let last = SourceId::from_url("git+https://example.com/a/b?tag=v1&rev=9c").unwrap();
    assert!(matches!(last.kind, SourceKind::Git(GitReference::Rev(_))));
}

#[test]
fn parse_path_identifier() {
    let p = PackageId::parse("local 0.2.0 (path+file:///home/user/local)").unwrap();
    assert!(matches!(p.source_id.kind, SourceKind::Path));
    assert_eq!(p.source_id.precise, None);
    assert_eq!(url_to_string(&p.source_id.url), "file:///home/user/local");
}

#[test]
fn parse_sparse_identifier_keeps_scheme_prefix() {
    let p = PackageId::parse("thing 1.0.0 (sparse+https://index.example.com/)").unwrap();
    assert!(matches!(p.source_id.kind, SourceKind::Registry));
    assert_eq!(p.source_id.precise, Some("locked".to_string()));
    assert_eq!(url_to_string(&p.source_id.url), "sparse+https://index.example.com/");
    // while its canonical form has the prefix stripped
    assert_eq!(p.source_id.canonical_url.to_text(), "https://index.example.com");
}

#[test]
fn parse_rejects_bad_identifiers() {
    assert_eq!(
        PackageId::parse("just-one-token").unwrap_err(),
        Error::MalformedIdentifier
    );
    assert_eq!(
        PackageId::parse("name only (registry+https://a/b)").unwrap_err(),
        Error::MalformedIdentifier
    );
    assert_eq!(
        PackageId::parse("name 1.2.3 registry+https://a/b").unwrap_err(),
        Error::MalformedIdentifier
    );
    assert_eq!(
        PackageId::parse("name not-semver (registry+https://a/b)").unwrap_err(),
        Error::MalformedIdentifier
    );
    assert_eq!(
        PackageId::parse("name 1.2.3 (svn+https://a/b)").unwrap_err(),
        Error::UnsupportedSourceKind
    );
    assert_eq!(
        PackageId::parse("name 1.2.3 (nosource)").unwrap_err(),
        Error::MalformedIdentifier
    );
    assert_eq!(
        PackageId::parse("name 1.2.3 (git+not a url)").unwrap_err(),
        Error::UnsupportedUrlShape
    );
    // URLs without hierarchical structure are refused by canonicalization
    assert_eq!(
        PackageId::parse("name 1.2.3 (registry+mailto:someone@example.com)").unwrap_err(),
        Error::UnsupportedUrlShape
    );
}

#[test]
fn identifier_round_trip_recovers_name_and_version() {
    let inputs = [
        "serde 1.0.100 (registry+https://github.com/rust-lang/crates.io-index)",
        "tool 0.3.1-rc.2+b5 (git+https://github.com/user/repo)",
        "local 10.20.30 (path+file:///srv/x)",
    ];
    for text in inputs {
        let p = PackageId::parse(text).unwrap();
        let prefix = format!("{} {} (", p.name, p.version.render());
        assert!(text.starts_with(&prefix), "{} does not start with {}", text, prefix);
    }
}

#[test]
fn parse_rejects_empty_name() {
    assert_eq!(
        PackageId::parse(" 1.2.3 (registry+https://a/b)").unwrap_err(),
        Error::MalformedIdentifier
    );
}

#[test]
fn package_order_is_by_name_then_version() {
    let a = PackageId::parse("aaa 1.0.0 (registry+https://github.com/rust-lang/crates.io-index)")
        .unwrap();
    let b = PackageId::parse("bbb 1.0.0 (registry+https://github.com/rust-lang/crates.io-index)")
        .unwrap();
    let a2 = PackageId::parse("aaa 1.2.0 (registry+https://github.com/rust-lang/crates.io-index)")
        .unwrap();
    assert!(a.precedes(&b));
    assert!(!b.precedes(&a));
    assert!(a.precedes(&a2));
    assert!(!a.precedes(&a));
}
