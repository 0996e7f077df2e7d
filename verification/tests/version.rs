use northstar::version::{ParsedSemver, Version, VersionError};

#[test]
fn version() {
    let v1 = Version::parse("1.0.0").unwrap();
    let v2 = Version::parse("2.0.0").unwrap();
    let v3 = Version::parse("3.0.0").unwrap();
    assert!(v2 > v1);
    assert!(v2 < v3);
    let v1_1 = Version::parse("1.1.0").unwrap();
    assert!(v1_1 > v1);
    let v1_1_1 = Version::parse("1.1.1").unwrap();
    assert!(v1_1_1 > v1_1);
}

#[test]
fn version_parse_reads_the_three_components() {
    assert_eq!(Version::parse("12.0.345"), Ok(Version::new(12, 0, 345)));
    assert_eq!(Version::parse("0.0.0"), Ok(Version::default()));
}

#[test]
fn version_parse_rejects_what_is_no_version() {
    assert_eq!(Version::parse(""), Err(VersionError::Malformed));
    assert_eq!(Version::parse("1.0"), Err(VersionError::Malformed));
    assert_eq!(Version::parse("1.0.01"), Err(VersionError::Malformed));
    assert_eq!(Version::parse("1.q.r"), Err(VersionError::Malformed));
    assert_eq!(Version::parse("23456789999999999999.0.0"), Err(VersionError::Malformed));
}

#[test]
fn version_parse_rejects_tags() {
    assert_eq!(Version::parse("1.0.0-alpha"), Err(VersionError::NotThreePart));
    assert_eq!(Version::parse("1.0.0+build5"), Err(VersionError::NotThreePart));
}

#[test]
fn version_from_parsed_fields() {
    let plain = ParsedSemver { major: 1, minor: 2, patch: 3, pre: String::new(), build: String::new() };
    assert_eq!(Version::from_parsed(&plain), Ok(Version::new(1, 2, 3)));
    let tagged = ParsedSemver {
        major: 1,
        minor: 2,
        patch: 3,
        pre: "rc1".to_string(),
        build: String::new(),
    };
    assert_eq!(Version::from_parsed(&tagged), Err(VersionError::NotThreePart));
}

#[test]
fn version_prints_as_three_numbers() {
    assert_eq!(Version::new(0, 1, 0).to_string(), "0.1.0");
    assert_eq!(Version::new(10, 200, 18446744073709551615).to_string(), "10.200.18446744073709551615");
}

#[test]
fn version_order_is_transitive_on_examples() {
    let a = Version::new(1, 9, 9);
    let b = Version::new(2, 0, 0);
    let c = Version::new(2, 0, 1);
    assert!(a < b && b < c && a < c);
    assert!(!(a < a));
    assert!(Version::new(1, 2, 3) >= Version::new(1, 2, 3));
}

#[test]
fn version_requirements() {
    assert!(Version::new(1, 4, 2).matches("^1.0"));
    assert!(!Version::new(2, 0, 0).matches("^1.0"));
    assert!(Version::new(2, 0, 0).matches(">=1.2.3"));
    assert!(Version::new(5, 5, 5).matches("*"));
    assert!(!Version::new(1, 0, 0).matches("not a requirement"));
}
