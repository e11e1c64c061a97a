use kaseeder::checkversion::VersionChecker;
use std::cmp::Ordering;

#[test]
fn test_version_comparison() {
    assert!(VersionChecker::check_version("1.0.0", "1.0.1").is_ok());
    assert!(VersionChecker::check_version("1.0.1", "1.0.0").is_err());
    assert!(VersionChecker::check_version("1.0.0", "1.0.0").is_ok());
}

#[test]
fn test_protocol_version_check() {
    assert!(VersionChecker::check_protocol_version(5, 4).is_ok());
    assert!(VersionChecker::check_protocol_version(3, 4).is_err());
    assert!(VersionChecker::check_protocol_version(5, 0).is_ok());
}

#[test]
fn test_semantic_version_comparison() {
    let result = VersionChecker::compare_semantic_versions("1.2.3", "1.2.4");
    assert!(result.is_ok());
    assert_eq!(result.unwrap(), Ordering::Less);

    let result = VersionChecker::compare_semantic_versions("2.0.0", "1.9.9");
    assert!(result.is_ok());
    assert_eq!(result.unwrap(), Ordering::Greater);
}

#[test]
fn version_comparison_pads_missing_parts_with_zero() {
    assert_eq!(VersionChecker::compare_semantic_versions("1.2", "1.2.0").unwrap(), Ordering::Equal);
    assert_eq!(VersionChecker::compare_semantic_versions("1.10", "1.9").unwrap(), Ordering::Greater);
}

#[test]
fn version_parse_failure_accepts_peer() {
    assert!(VersionChecker::compare_semantic_versions("abc", "1.0").is_err());
    assert!(VersionChecker::check_version("abc", "1.0").is_ok());
    assert!(VersionChecker::check_version("2.0", "x.y").is_ok());
    assert!(VersionChecker::check_version("", "1.0").is_ok());
}

#[test]
fn protocol_version_upper_bound() {
    assert!(VersionChecker::check_protocol_version(100, 6).is_ok());
    assert!(VersionChecker::check_protocol_version(101, 6).is_err());
    assert!(VersionChecker::check_protocol_version(101, 0).is_ok());
}
