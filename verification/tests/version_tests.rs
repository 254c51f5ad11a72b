use cargo_bup::version::Version;

#[test]
fn parse_plain_version() {
    let v = Version::parse("1.2.3").unwrap();
    assert_eq!(v.major, 1);
    assert_eq!(v.minor, 2);
    assert_eq!(v.patch, 3);
    assert!(v.pre.is_empty());
    assert!(v.build.is_empty());
    assert_eq!(v.render(), "1.2.3");
}

#[test]
fn parse_pre_and_build() {
    let v = Version::parse("2.0.0-abc+1").unwrap();
    assert_eq!(v.major, 2);
    assert_eq!(v.minor, 0);
    assert_eq!(v.patch, 0);
    assert_eq!(v.pre, vec!["abc".to_string()]);
    assert_eq!(v.build, vec!["1".to_string()]);
    assert_eq!(v.render(), "2.0.0-abc+1");
}

#[test]
fn parse_multi_identifier_pre() {
    let v = Version::parse("1.0.0-alpha.1.x-y+exp.sha.5114f85").unwrap();
    assert_eq!(v.pre, vec!["alpha".to_string(), "1".to_string(), "x-y".to_string()]);
    assert_eq!(
        v.build,
        vec!["exp".to_string(), "sha".to_string(), "5114f85".to_string()]
    );
    assert_eq!(v.render(), "1.0.0-alpha.1.x-y+exp.sha.5114f85");
}

#[test]
fn parse_rejects_malformed() {
    assert!(Version::parse("1.2").is_none());
    assert!(Version::parse("1.2.3.4").is_none());
    assert!(Version::parse("01.2.3").is_none());
    assert!(Version::parse("1.02.3").is_none());
    assert!(Version::parse("1.2.3-").is_none());
    assert!(Version::parse("1.2.3-01").is_none());
    assert!(Version::parse("1.2.3-a..b").is_none());
    assert!(Version::parse("1.2.3+").is_none());
    assert!(Version::parse("").is_none());
    assert!(Version::parse("a.b.c").is_none());
    assert!(Version::parse("1.2.3 ").is_none());
}

#[test]
fn parse_u64_bounds() {
    let max = "18446744073709551615.0.0";
    let v = Version::parse(max).unwrap();
    assert_eq!(v.major, u64::MAX);
    assert_eq!(v.render(), max);
    assert!(Version::parse("18446744073709551616.0.0").is_none());
}

#[test]
fn precedence_chain() {
    let chain = [
        "1.0.0-alpha",
        "1.0.0-alpha.1",
        "1.0.0-alpha.beta",
        "1.0.0-beta",
        "1.0.0-beta.2",
        "1.0.0-beta.11",
        "1.0.0-rc.1",
        "1.0.0",
    ];
    for i in 0..chain.len() {
        for j in 0..chain.len() {
            let a = Version::parse(chain[i]).unwrap();
            let b = Version::parse(chain[j]).unwrap();
            assert_eq!(a.precedes(&b), i < j, "{} vs {}", chain[i], chain[j]);
        }
    }
}

#[test]
fn precedence_ignores_build() {
    let a = Version::parse("1.0.0+100").unwrap();
    let b = Version::parse("1.0.0+200").unwrap();
    assert!(!a.precedes(&b));
    assert!(!b.precedes(&a));
    // the total order still separates them deterministically
    assert!(a.total_precedes(&b));
    assert!(!b.total_precedes(&a));
}

#[test]
fn numeric_identifiers_compare_by_value() {
    let a = Version::parse("1.0.0-beta.9").unwrap();
    let b = Version::parse("1.0.0-beta.10").unwrap();
    assert!(a.precedes(&b));
    assert!(!b.precedes(&a));
}

#[test]
fn version_equality() {
    let a = Version::parse("1.2.3-rc.1+build").unwrap();
    let b = Version::parse("1.2.3-rc.1+build").unwrap();
    let c = Version::parse("1.2.3-rc.1").unwrap();
    assert!(a.equals(&b));
    assert!(!a.equals(&c));
}

#[test]
fn new_is_plain_release() {
    let v = Version::new(1, 4, 2);
    assert_eq!(v.render(), "1.4.2");
    assert!(v.pre.is_empty());
    assert!(v.build.is_empty());
}
