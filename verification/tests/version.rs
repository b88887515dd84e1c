use prek::config::{MinimumVersionError, SemVersion, check_minimum_version};

fn current() -> SemVersion {
    SemVersion::parse("0.2.10").unwrap()
}

#[test]
fn test_minimum_prek_version() {
    let cur = current();
    // An empty minimum version is treated as no minimum version.
    assert!(check_minimum_version("", &cur).unwrap().is_none());
    // A minimum version newer than the running one is refused.
    assert!(check_minimum_version("10.0.0", &cur).is_err());
    assert!(matches!(check_minimum_version("10.0.0", &cur), Err(MinimumVersionError::TooNew(_))));
}

#[test]
fn minimum_version_accepts_older_and_equal() {
    let cur = current();
    assert_eq!(check_minimum_version("0.2.10", &cur).unwrap().as_deref(), Some("0.2.10"));
    assert_eq!(check_minimum_version("0.1.99", &cur).unwrap().as_deref(), Some("0.1.99"));
    assert!(matches!(check_minimum_version("0.2.11", &cur), Err(MinimumVersionError::TooNew(_))));
    assert!(matches!(check_minimum_version("0.3.0-alpha", &cur), Err(MinimumVersionError::TooNew(_))));
    assert_eq!(check_minimum_version("0.2.10-rc.1", &cur).unwrap().as_deref(), Some("0.2.10-rc.1"));
}

#[test]
fn minimum_version_rejects_invalid_text() {
    let cur = current();
    assert!(matches!(check_minimum_version("not a version", &cur), Err(MinimumVersionError::Invalid(_))));
    assert!(matches!(check_minimum_version("1.0", &cur), Err(MinimumVersionError::Invalid(_))));
}

#[test]
fn version_order() {
    let a = SemVersion::parse("1.2.3").unwrap();
    let b = SemVersion::parse("1.10.0").unwrap();
    assert!(b.greater_than(&a));
    assert!(!a.greater_than(&b));
    assert!(!a.greater_than(&SemVersion::parse("1.2.3").unwrap()));
    assert_eq!(a.as_semver().to_string(), "1.2.3");
    assert!(SemVersion::parse("x").is_err());
}

#[test]
fn version_display() {
    assert_eq!(SemVersion::parse("1.2.3").unwrap().to_string(), "1.2.3");
    assert_eq!(SemVersion::parse("0.10.0-rc.1").unwrap().to_string(), "0.10.0-rc.1");
    assert_eq!(SemVersion::parse("2.0.0+build.5").unwrap().to_string(), "2.0.0+build.5");
    assert_eq!(SemVersion::parse("3.1.4-beta+exp.sha").unwrap().to_string(), "3.1.4-beta+exp.sha");
    let v = SemVersion::parse("12.0.7-alpha.2+meta").unwrap();
    assert_eq!(v.to_string(), v.as_semver().to_string());
}

#[test]
fn minimum_version_messages() {
    let cur = current();
    let err = check_minimum_version("10.0.0", &cur).unwrap_err();
    assert_eq!(
        err.message(&cur),
        "Required minimum prek version `10.0.0` is greater than current version `0.2.10`. Please consider updating prek."
    );
    let err = check_minimum_version("1.0", &cur).unwrap_err();
    let expected = semver::Version::parse("1.0").unwrap_err().to_string();
    assert_eq!(err.message(&cur), expected);
}

#[test]
fn parse_errors_carry_semvers_message() {
    let err = SemVersion::parse("1.2").unwrap_err();
    assert_eq!(err.message, semver::Version::parse("1.2").unwrap_err().to_string());
    assert!(!err.message.is_empty());
}
