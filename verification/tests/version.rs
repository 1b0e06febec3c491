use bitforge::version::parse_decimal;
use bitforge::version::parse_semver;
use bitforge::version::parse_version;
use bitforge::version::select_strategy;
use bitforge::version::use_cmake;
use bitforge::version::validate_version_tag;
use bitforge::version::BuildStrategy;

#[test]
fn valid_tags_pass_validation() {
    assert!(validate_version_tag("v25.0").is_ok());
    assert!(validate_version_tag("v0.10.9-rc1").is_ok());
    assert!(validate_version_tag("release_2024.01").is_ok());
    assert!(validate_version_tag("ABCxyz059._-").is_ok());
    assert!(validate_version_tag("").is_ok());
}

#[test]
fn tags_with_other_characters_fail_validation() {
    assert!(validate_version_tag("v25.0; rm -rf /").is_err());
    assert!(validate_version_tag("v25 0").is_err());
    assert!(validate_version_tag("v25.0'").is_err());
    assert!(validate_version_tag("tag$").is_err());
    assert!(validate_version_tag("a/b").is_err());
    assert!(validate_version_tag("café").is_err());
}

#[test]
fn validation_error_names_the_tag() {
    let e = validate_version_tag("bad tag").unwrap_err();
    assert_eq!(
        e.text(),
        "Version tag contains unexpected characters: bad tag"
    );
}

#[test]
fn parse_version_examples() {
    assert_eq!(parse_version("v25.0"), (25, 0));
    assert_eq!(parse_version("25.1"), (25, 1));
    assert_eq!(parse_version("v24.1"), (24, 1));
    assert_eq!(parse_version("vv27.3"), (27, 3));
    assert_eq!(parse_version("25.1abc"), (25, 1));
    assert_eq!(parse_version("garbage"), (0, 0));
    assert_eq!(parse_version(""), (0, 0));
    assert_eq!(parse_version("v25"), (0, 0));
    assert_eq!(parse_version("99999999999.1"), (0, 0));
}

#[test]
fn strategy_follows_the_major_threshold() {
    assert!(use_cmake("v25.0"));
    assert!(use_cmake("v26.1"));
    assert!(!use_cmake("v24.1"));
    assert!(!use_cmake("garbage"));
    assert_eq!(select_strategy("v25.0"), BuildStrategy::Modern);
    assert_eq!(select_strategy("v24.1"), BuildStrategy::Legacy);
    assert_eq!(select_strategy("garbage"), BuildStrategy::Legacy);
}

#[test]
fn parse_semver_examples() {
    assert_eq!(parse_semver("v0.10.9"), (0, 10, 9));
    assert_eq!(parse_semver("1.2"), (1, 2, 0));
    assert_eq!(parse_semver("v27"), (27, 0, 0));
    assert_eq!(parse_semver("garbage"), (0, 0, 0));
    assert_eq!(parse_semver("1.2.3.4"), (1, 2, 3));
    assert_eq!(parse_semver("v1.x.3"), (1, 0, 3));
    assert_eq!(parse_semver(""), (0, 0, 0));
}

#[test]
fn parse_decimal_examples() {
    assert_eq!(parse_decimal("0"), Some(0));
    assert_eq!(parse_decimal("4294967295"), Some(u32::MAX));
    assert_eq!(parse_decimal("4294967296"), None);
    assert_eq!(parse_decimal(""), None);
    assert_eq!(parse_decimal("12a"), None);
    assert_eq!(parse_decimal("007"), Some(7));
}
