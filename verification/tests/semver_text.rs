use oxide_constructs::SemVer;

#[test]
fn parse_accepts_plus_sign_and_leading_zeros() {
    assert_eq!(SemVer::parse("+1.02.003"), Some(SemVer::new(1, 2, 3)));
}

#[test]
fn parse_strips_every_leading_v() {
    assert_eq!(SemVer::parse("vv3.4.5"), Some(SemVer::new(3, 4, 5)));
    assert_eq!(SemVer::parse("V3.4.5"), None);
}

#[test]
fn parse_needs_exactly_three_parts() {
    assert_eq!(SemVer::parse("1.2"), None);
    assert_eq!(SemVer::parse("1.2.3.4"), None);
    assert_eq!(SemVer::parse(""), None);
    assert_eq!(SemVer::parse("1..3"), None);
    assert_eq!(SemVer::parse("1.2."), None);
}

#[test]
fn parse_rejects_bad_numbers() {
    assert_eq!(SemVer::parse("1.2.x"), None);
    assert_eq!(SemVer::parse("-1.0.0"), None);
    assert_eq!(SemVer::parse("+.0.0"), None);
    assert_eq!(SemVer::parse("1.0. 1"), None);
    assert_eq!(SemVer::parse("4294967296.0.0"), None);
    assert_eq!(SemVer::parse("99999999999999999999.0.0"), None);
}

#[test]
fn parse_accepts_the_largest_u32() {
    assert_eq!(SemVer::parse("4294967295.0.7"), Some(SemVer::new(4294967295, 0, 7)));
}

#[test]
fn to_string_writes_major_minor_patch() {
    assert_eq!(SemVer::new(12, 0, 345).to_string(), "12.0.345");
    assert_eq!(SemVer::new(0, 0, 0).to_string(), "0.0.0");
    assert_eq!(SemVer::new(4294967295, 10, 9).to_string(), "4294967295.10.9");
}

#[test]
fn format_then_parse_gives_the_version_back() {
    for v in [SemVer::new(0, 1, 0), SemVer::new(7, 80, 900), SemVer::new(4294967295, 0, 4294967295)] {
        assert_eq!(SemVer::parse(&v.to_string()), Some(v));
    }
}

#[test]
fn leading_v_does_not_change_the_parse() {
    assert_eq!(SemVer::parse("v2.0.1"), SemVer::parse("2.0.1"));
    assert_eq!(SemVer::parse("vx"), SemVer::parse("x"));
}

#[test]
fn compatibility_same_major_and_minor_not_newer() {
    let v = SemVer::new(2, 1, 9);
    assert!(v.is_compatible_with(&SemVer::new(2, 1, 0)));
    assert!(v.is_compatible_with(&SemVer::new(2, 5, 0)));
    assert!(!v.is_compatible_with(&SemVer::new(2, 0, 9)));
    assert!(!v.is_compatible_with(&SemVer::new(1, 9, 9)));
}

#[test]
fn newer_compares_major_then_minor_then_patch() {
    assert!(SemVer::new(2, 0, 0).is_newer_than(&SemVer::new(1, 9, 9)));
    assert!(SemVer::new(1, 3, 0).is_newer_than(&SemVer::new(1, 2, 9)));
    assert!(SemVer::new(1, 2, 4).is_newer_than(&SemVer::new(1, 2, 3)));
    assert!(!SemVer::new(1, 2, 3).is_newer_than(&SemVer::new(1, 2, 3)));
    assert!(!SemVer::new(1, 2, 3).is_newer_than(&SemVer::new(1, 3, 0)));
}
