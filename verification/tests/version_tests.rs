use aer::version::Version;

#[test]
fn parses_dotted_numeric() {
    let v = Version::parse("2.3.1").unwrap();
    assert_eq!(v.parts().clone(), vec![2u64, 3, 1]);
}

#[test]
fn parses_single_component() {
    let v = Version::parse("7").unwrap();
    assert_eq!(v.parts().clone(), vec![7u64]);
}

#[test]
fn parses_multi_digit_components() {
    let v = Version::parse("10.0.19041").unwrap();
    assert_eq!(v.parts().clone(), vec![10u64, 0, 19041]);
}

#[test]
fn rejects_non_version_text() {
    assert!(Version::parse("not-a-version").is_none());
}

#[test]
fn rejects_empty_string() {
    assert!(Version::parse("").is_none());
}

#[test]
fn rejects_empty_components() {
    assert!(Version::parse("1..2").is_none());
    assert!(Version::parse(".1").is_none());
    assert!(Version::parse("1.").is_none());
    assert!(Version::parse(".").is_none());
}

#[test]
fn rejects_stray_characters() {
    assert!(Version::parse("1.2-beta").is_none());
    assert!(Version::parse("v1.2").is_none());
    assert!(Version::parse("1. 2").is_none());
}

#[test]
fn accepts_longest_component() {
    // nineteen digits, the largest component the grammar accepts
    let v = Version::parse("9999999999999999999").unwrap();
    assert_eq!(v.parts().clone(), vec![9999999999999999999u64]);
}

#[test]
fn rejects_overlong_component() {
    // twenty digits
    assert!(Version::parse("99999999999999999990").is_none());
}

#[test]
fn orders_lexicographically() {
    let a = Version::parse("1.2").unwrap();
    let b = Version::parse("1.10").unwrap();
    assert!(a.lt(&b));
    assert!(!b.lt(&a));
}

#[test]
fn prefix_precedes_extension() {
    let a = Version::parse("1.2").unwrap();
    let b = Version::parse("1.2.1").unwrap();
    assert!(a.lt(&b));
    assert!(!b.lt(&a));
}

#[test]
fn equal_versions_are_not_less() {
    let a = Version::parse("3.4.5").unwrap();
    let b = Version::parse("3.4.5").unwrap();
    assert!(!a.lt(&b));
    assert!(!b.lt(&a));
}
