use binman::fuzzy_semver::{parse_version_fuzzy, trim_first_char, u64_to_string, Version};

#[test]
fn strict_version_parses() {
    let v = parse_version_fuzzy("1.2.3").unwrap();
    assert_eq!(v.major, 1);
    assert_eq!(v.minor, 2);
    assert_eq!(v.patch, 3);
    assert_eq!(v.pre, "");
    assert_eq!(v.build, "");
}

#[test]
fn v_prefix_resolves_to_same_version() {
    let bare = parse_version_fuzzy("1.2.3").unwrap();
    let prefixed = parse_version_fuzzy("v1.2.3").unwrap();
    assert!(bare == prefixed);
}

#[test]
fn v_prefix_with_prerelease_resolves() {
    let bare = parse_version_fuzzy("2.0.0-alpha.1+build7").unwrap();
    let prefixed = parse_version_fuzzy("v2.0.0-alpha.1+build7").unwrap();
    assert!(bare == prefixed);
    assert_eq!(prefixed.pre, "alpha.1");
    assert_eq!(prefixed.build, "build7");
}

#[test]
fn malformed_version_is_invalid() {
    let e = parse_version_fuzzy("not-a-version").unwrap_err();
    assert_eq!(e.cause, binman::Cause::InvalidVersion);
}

#[test]
fn malformed_after_v_strip_is_invalid() {
    let e = parse_version_fuzzy("vnothing").unwrap_err();
    assert_eq!(e.cause, binman::Cause::InvalidVersion);
}

#[test]
fn double_v_prefix_is_invalid() {
    let e = parse_version_fuzzy("vv1.2.3").unwrap_err();
    assert_eq!(e.cause, binman::Cause::InvalidVersion);
}

#[test]
fn empty_version_is_invalid() {
    let e = parse_version_fuzzy("").unwrap_err();
    assert_eq!(e.cause, binman::Cause::InvalidVersion);
}

#[test]
fn trim_first_char_drops_one() {
    assert_eq!(trim_first_char("v1.0.0"), Some("1.0.0"));
    assert_eq!(trim_first_char("x"), Some(""));
    assert_eq!(trim_first_char(""), None);
}

#[test]
fn precedence_on_numeric_triple() {
    let a = Version::new(1, 0, 0);
    let b = Version::new(1, 0, 1);
    let c = Version::new(2, 0, 0);
    assert!(a.precedes(&b));
    assert!(b.precedes(&c));
    assert!(!b.precedes(&a));
    assert!(!a.precedes(&a));
}

#[test]
fn prerelease_precedes_release() {
    let pre = parse_version_fuzzy("1.0.0-alpha").unwrap();
    let rel = parse_version_fuzzy("1.0.0").unwrap();
    assert!(pre.precedes(&rel));
    assert!(!rel.precedes(&pre));
}

#[test]
fn prerelease_identifier_rules() {
    let alpha = parse_version_fuzzy("1.0.0-alpha").unwrap();
    let alpha_1 = parse_version_fuzzy("1.0.0-alpha.1").unwrap();
    let two = parse_version_fuzzy("1.0.0-2").unwrap();
    let ten = parse_version_fuzzy("1.0.0-10").unwrap();
    // a strict prefix of identifiers comes first
    assert!(alpha.precedes(&alpha_1));
    // numeric identifiers compare numerically, not lexically
    assert!(two.precedes(&ten));
    // numeric identifiers come before alphanumeric ones
    assert!(two.precedes(&alpha));
    assert!(!alpha.precedes(&two));
}

#[test]
fn build_metadata_ignored_in_precedence() {
    let a = parse_version_fuzzy("1.2.3+one").unwrap();
    let b = parse_version_fuzzy("1.2.3+two").unwrap();
    assert!(!a.precedes(&b));
    assert!(!b.precedes(&a));
}

#[test]
fn version_renders_canonically() {
    assert_eq!(Version::new(1, 2, 3).render(), "1.2.3");
    let full = parse_version_fuzzy("10.20.30-alpha.2+b7").unwrap();
    assert_eq!(full.render(), "10.20.30-alpha.2+b7");
    assert_eq!(Version::new(0, 0, 0).render(), "0.0.0");
}

#[test]
fn u64_renders_in_decimal() {
    assert_eq!(u64_to_string(0), "0");
    assert_eq!(u64_to_string(7), "7");
    assert_eq!(u64_to_string(1234567890), "1234567890");
}

#[test]
fn version_equality_compares_all_fields() {
    let a = parse_version_fuzzy("1.2.3-rc.1").unwrap();
    let b = parse_version_fuzzy("v1.2.3-rc.1").unwrap();
    let c = parse_version_fuzzy("1.2.3").unwrap();
    assert!(a == b);
    assert!(a != c);
}
