use std::hash::Hasher;

use cargo_bup::git::cache_dir_name;
use cargo_bup::urls::{CanonicalUrl, Url};

fn canon(text: &str) -> CanonicalUrl {
    CanonicalUrl::new(&Url::parse(text).unwrap()).unwrap()
}

#[test]
fn github_urls_canonicalize_to_one_value() {
    // mixed case, a `.git` suffix and a trailing slash all collapse
    let a = canon("https://GitHub.com/Foo/Bar.git/");
    let b = canon("https://github.com/foo/bar");
    assert_eq!(a.to_text(), b.to_text());
    assert_eq!(a.to_text(), "https://github.com/foo/bar");
}

#[test]
fn github_scheme_is_forced_to_https() {
    let c = canon("http://github.com/user/repo");
    assert_eq!(c.to_text(), "https://github.com/user/repo");
}

#[test]
fn non_github_hosts_keep_case_handling_to_the_parser() {
    // the parser lower-cases registered domains; the path is left alone
    let c = canon("https://Example.com/Mixed/Case");
    assert_eq!(c.to_text(), "https://example.com/Mixed/Case");
}

#[test]
fn sparse_prefix_is_stripped() {
    let c = canon("sparse+https://index.crates.io/");
    assert_eq!(c.to_text(), "https://index.crates.io");
}

#[test]
fn canonicalization_is_idempotent_at_runtime() {
    let fixtures = [
        "https://GitHub.com/Foo/Bar.git/",
        "https://example.com/a/b/",
        "sparse+https://index.crates.io/",
        "https://github.com/rust-lang/crates.io-index",
        "ssh://git@github.com/user/repo.git",
        "file:///home/user/project",
    ];
    for text in fixtures {
        let once = canon(text);
        let again = CanonicalUrl::new(&Url::parse(&once.to_text()).unwrap()).unwrap();
        assert_eq!(once.to_text(), again.to_text(), "not idempotent on {}", text);
    }
}

#[test]
fn cannot_be_a_base_urls_are_refused() {
    let u = Url::parse("mailto:someone@example.com").unwrap();
    assert!(CanonicalUrl::new(&u).is_err());
}

#[test]
fn cache_dir_name_is_deterministic_and_collision_free_on_fixtures() {
    let a1 = cache_dir_name(&canon("https://github.com/user/repo.git"));
    let a2 = cache_dir_name(&canon("https://github.com/user/repo"));
    assert_eq!(a1, a2);

    let b = cache_dir_name(&canon("https://github.com/user/other"));
    let c = cache_dir_name(&canon("https://gitlab.com/user/repo"));
    assert_ne!(a1, b);
    assert_ne!(a1, c);
    assert_ne!(b, c);
}

#[test]
fn cache_dir_name_has_ident_and_hash() {
    let name = cache_dir_name(&canon("https://github.com/user/repo.git"));
    assert!(name.starts_with("repo-"));
    let hash = &name["repo-".len()..];
    assert_eq!(hash.len(), 16);
    assert!(hash.chars().all(|c| c.is_ascii_hexdigit() && !c.is_ascii_uppercase()));
}

#[test]
fn cache_dir_name_of_empty_path_uses_the_empty_token() {
    let name = cache_dir_name(&canon("https://example.com/"));
    assert!(name.starts_with("_empty-"), "{}", name);
}

#[test]
fn cache_dir_hash_matches_direct_hashing() {
    // the same scheme computed independently: SipHash-2-4 over the
    // serialization, closed by the 0xff marker, rendered little-endian
    let c = canon("https://github.com/rust-lang/crates.io-index");
    let ser = c.to_text();
    let mut hasher = siphasher::sip::SipHasher24::new();
    hasher.write(ser.as_bytes());
    hasher.write_u8(0xff);
    let mut expected = String::from("crates.io-index-");
    for byte in hasher.finish().to_le_bytes() {
        expected.push_str(&format!("{:02x}", byte));
    }
    assert_eq!(cache_dir_name(&c), expected);
}
