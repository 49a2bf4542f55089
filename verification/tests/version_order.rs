//! The precedence order of the library agrees with standard
//! semantic-version precedence, checked against the `semver` crate.

use bitbar_version::ident::Rel;
use bitbar_version::parse::parse_version;
use bitbar_version::version::SemVer;

fn parsed(s: &str) -> SemVer {
    parse_version(s).expect("version must parse")
}

/// The library's three-way comparison of two version strings.
fn lib_cmp(a: &str, b: &str) -> Rel {
    parsed(a).cmp_precedence(&parsed(b))
}

/// The `semver` crate's precedence comparison of the same strings.
fn semver_cmp(a: &str, b: &str) -> std::cmp::Ordering {
    let av = semver::Version::parse(a).expect("version must parse");
    let bv = semver::Version::parse(b).expect("version must parse");
    av.cmp_precedence(&bv)
}

fn agrees(a: &str, b: &str) {
    let got = lib_cmp(a, b);
    let want = match semver_cmp(a, b) {
        std::cmp::Ordering::Less => Rel::Lt,
        std::cmp::Ordering::Equal => Rel::Eq,
        std::cmp::Ordering::Greater => Rel::Gt,
    };
    assert_eq!(got, want, "comparing {a} and {b}");
}

#[test]
fn ordering_agrees_with_semver_crate() {
    let versions = [
        "0.0.0",
        "0.9.9",
        "1.0.0-alpha",
        "1.0.0-alpha.1",
        "1.0.0-alpha.beta",
        "1.0.0-beta",
        "1.0.0-beta.2",
        "1.0.0-beta.11",
        "1.0.0-rc.1",
        "1.0.0",
        "1.0.1",
        "1.1.0",
        "1.2.3+build.7",
        "1.10.1",
        "2.0.0-0",
        "2.0.0-0a",
        "2.0.0--",
        "2.0.0-a-b",
        "2.0.0",
        "10.0.0",
    ];
    for a in versions {
        for b in versions {
            agrees(a, b);
        }
    }
}

#[test]
fn prerelease_sorts_below_release_of_same_triple() {
    assert_eq!(lib_cmp("1.0.0-rc.1", "1.0.0"), Rel::Lt);
    assert_eq!(lib_cmp("1.0.0", "1.0.0-rc.1"), Rel::Gt);
}

#[test]
fn numeric_identifiers_compare_by_value() {
    assert_eq!(lib_cmp("1.0.0-beta.2", "1.0.0-beta.11"), Rel::Lt);
    assert_eq!(lib_cmp("1.0.0-99", "1.0.0-100"), Rel::Lt);
}

#[test]
fn numeric_identifiers_precede_alphanumeric_ones() {
    assert_eq!(lib_cmp("1.0.0-1", "1.0.0-a"), Rel::Lt);
    assert_eq!(lib_cmp("1.0.0-11", "1.0.0-2a"), Rel::Lt);
}

#[test]
fn shorter_identifier_list_precedes_when_prefix_equal() {
    assert_eq!(lib_cmp("1.0.0-alpha", "1.0.0-alpha.1"), Rel::Lt);
}

#[test]
fn build_metadata_never_affects_ordering() {
    assert_eq!(lib_cmp("1.2.3+build1", "1.2.3+build2"), Rel::Eq);
    assert_eq!(lib_cmp("1.2.3+zzz", "1.2.3"), Rel::Eq);
    assert_eq!(lib_cmp("1.2.3+abc", "1.2.4+abc"), Rel::Lt);
    assert_eq!(lib_cmp("1.0.0-alpha+x", "1.0.0-alpha+y"), Rel::Eq);
}

#[test]
fn equality_never_triggers_an_update() {
    let a = parsed("1.4.2");
    let b = parsed("1.4.2");
    assert!(!a.precedes(&b));
    assert!(!b.precedes(&a));
    assert!(a.precedes_or_eq(&b));
}

#[test]
fn huge_numeric_identifiers_compare_by_length_first() {
    // Longer digit strings are larger, even past any machine integer.
    assert_eq!(
        lib_cmp(
            "1.0.0-99999999999999999999999999",
            "1.0.0-100000000000000000000000000"
        ),
        Rel::Lt
    );
}
