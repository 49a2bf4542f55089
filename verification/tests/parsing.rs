//! Parsing the feeds' version strings.

use bitbar_version::numeric::parse_u64;
use bitbar_version::parse::{parse_feed_version, parse_release_tag, parse_version, ParseError};

#[test]
fn release_tag_without_leading_v_is_rejected() {
    assert_eq!(parse_release_tag("1.4.2").unwrap_err(), ParseError::NoLeadingV);
}

#[test]
fn release_tag_with_leading_v_parses() {
    let v = parse_release_tag("v1.4.2").unwrap();
    assert_eq!(v.major, 1);
    assert_eq!(v.minor, 4);
    assert_eq!(v.patch, 2);
    assert!(v.pre.is_empty());
}

#[test]
fn release_tag_with_malformed_version_is_rejected() {
    assert_eq!(parse_release_tag("v1.4").unwrap_err(), ParseError::InvalidVersion);
}

#[test]
fn empty_release_tag_is_rejected() {
    assert_eq!(parse_release_tag("").unwrap_err(), ParseError::NoLeadingV);
}

#[test]
fn feed_version_discards_build_suffix() {
    let v = parse_feed_version("1.4.2,abcdef").unwrap();
    assert_eq!(v.major, 1);
    assert_eq!(v.minor, 4);
    assert_eq!(v.patch, 2);
    assert!(v.pre.is_empty());
}

#[test]
fn feed_version_without_comma_is_rejected() {
    assert_eq!(parse_feed_version("1.4.2").unwrap_err(), ParseError::MissingComma);
}

#[test]
fn feed_version_splits_at_first_comma() {
    let v = parse_feed_version("2.1.0,one,two").unwrap();
    assert_eq!(v.major, 2);
    assert_eq!(v.minor, 1);
    assert_eq!(v.patch, 0);
}

#[test]
fn feed_version_with_malformed_head_is_rejected() {
    assert_eq!(parse_feed_version("v1.4.2,abcdef").unwrap_err(), ParseError::InvalidVersion);
}

#[test]
fn version_with_prerelease_and_build_parses() {
    let v = parse_version("1.0.0-alpha.1+build.5").unwrap();
    assert_eq!(v.major, 1);
    assert_eq!(v.minor, 0);
    assert_eq!(v.patch, 0);
    assert_eq!(v.pre, vec!["alpha".to_string(), "1".to_string()]);
    assert_eq!(v.build, "build.5");
}

#[test]
fn malformed_versions_are_rejected() {
    assert_eq!(parse_version("").unwrap_err(), ParseError::InvalidVersion);
    assert_eq!(parse_version("1.2").unwrap_err(), ParseError::InvalidVersion);
    assert_eq!(parse_version("1.2.x").unwrap_err(), ParseError::InvalidVersion);
    assert_eq!(parse_version("01.2.3").unwrap_err(), ParseError::InvalidVersion);
    assert_eq!(parse_version("1.2.3-").unwrap_err(), ParseError::InvalidVersion);
    assert_eq!(parse_version("1.2.3-01").unwrap_err(), ParseError::InvalidVersion);
}

#[test]
fn parse_agrees_with_semver_crate_on_acceptance() {
    let cases = [
        "1.2.3",
        "0.0.0",
        "1.0.0-alpha.beta.1",
        "1.0.0+only.build",
        "1.0.0-x+y",
        "1.2",
        "1.2.3.4",
        "1.2.3-0x",
        "not a version",
    ];
    for s in cases {
        assert_eq!(
            parse_version(s).is_ok(),
            semver::Version::parse(s).is_ok(),
            "acceptance of {s}"
        );
    }
}

#[test]
fn parsed_components_agree_with_semver_crate() {
    for s in ["1.2.3", "4.5.6-rc.1", "7.8.9-a.2+meta", "1.0.0+b"] {
        let mine = parse_version(s).unwrap();
        let theirs = semver::Version::parse(s).unwrap();
        assert_eq!(mine.major, theirs.major);
        assert_eq!(mine.minor, theirs.minor);
        assert_eq!(mine.patch, theirs.patch);
        assert_eq!(mine.pre.join("."), theirs.pre.as_str());
        assert_eq!(mine.build, theirs.build.as_str());
    }
}

#[test]
fn decimal_parsing_matches_std() {
    let cases = [
        "0",
        "5",
        "+5",
        "60",
        "18446744073709551615",
        "18446744073709551616",
        "99999999999999999999999",
        "",
        "+",
        "-1",
        "1.5",
        "5a",
        " 5",
    ];
    for s in cases {
        assert_eq!(parse_u64(s), s.parse::<u64>().ok(), "parsing {s:?}");
    }
}
