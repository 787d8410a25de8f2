//! Versions, the constraints on them, and what a record says of a version.

use find_threats::constraints::{
    contains_version_token, element_matches, parse_element, parse_version, split_operator,
    text_mentions_affected_version_range, Comparison, Operator, Version,
};
use find_threats::json::{Json, Numeral, Real};
use find_threats::service_lookup::{
    collect_text_values, contains_standalone_service, get_enrichment_text, match_version,
    normalize_name, threat_matches_service, MatchBasis,
};
use serde_json::Value;

fn float(x: f64) -> Real {
    Real {
        text: serde_json::to_string(&x).unwrap(),
        shown: x.to_string(),
        hundredths: (x * 100.0) as i64,
        thousandths: (x * 1000.0) as i64,
    }
}

fn json_of(v: &Value) -> Json {
    match v {
        Value::Null => Json::Null,
        Value::Bool(b) => Json::Bool(*b),
        Value::Number(n) => Json::Number(Numeral {
            text: n.to_string(),
            real: float(n.as_f64().unwrap()),
            unsigned: n.as_u64(),
        }),
        Value::String(s) => Json::Text(s.clone()),
        Value::Array(a) => Json::Array(a.iter().map(json_of).collect()),
        Value::Object(m) => {
            Json::Object(m.iter().map(|(k, v)| (k.clone(), json_of(v))).collect())
        }
    }
}

fn parse(text: &str) -> Json {
    json_of(&serde_json::from_str(text).unwrap())
}

fn ver(s: &str) -> Version {
    Version::parse(s).unwrap()
}

#[test]
fn version_zero_pads_and_orders() {
    assert_eq!(ver("1.2"), ver("1.2.0"));
    assert!(ver("1.20") > ver("1.2"));
    assert!(ver("1.2.3") < ver("1.2.10"));
    assert!(ver("2.0") > ver("1.999.999"));
    // distro epoch is stripped, not read as a major component
    assert_eq!(ver("1:2.3.4"), ver("2.3.4"));
    // distro revision suffix is dropped to the upstream version
    assert_eq!(ver("1.2.3-4ubuntu5"), ver("1.2.3"));
}

// One affectedVersions element vs a target -> Some(matched)/None(malformed).
fn el(constraint: &str, target: &str) -> Option<bool> {
    element_matches(constraint, &ver(target))
}

#[test]
fn constraint_grammar() {
    // wildcard
    assert_eq!(el("*", "9.9.9"), Some(true));
    // exact
    assert_eq!(el("=1.2.3", "1.2.3"), Some(true));
    assert_eq!(el("=1.2.3", "1.2.4"), Some(false));
    // strictly before (fixed-in semantics): boundary excluded
    assert_eq!(el("<2.4.49", "2.4.48"), Some(true));
    assert_eq!(el("<2.4.49", "2.4.49"), Some(false));
    assert_eq!(el("<2.4.49", "2.4.50"), Some(false));
    // up to and including: boundary included
    assert_eq!(el("<=2.4.48", "2.4.48"), Some(true));
    assert_eq!(el("<=2.4.48", "2.4.49"), Some(false));
    // at-or-after / after
    assert_eq!(el(">=2.0.0", "2.0.0"), Some(true));
    assert_eq!(el(">=2.0.0", "1.9.9"), Some(false));
    assert_eq!(el(">2.0.0", "2.0.0"), Some(false));
    assert_eq!(el(">2.0.0", "2.0.1"), Some(true));
    // compound range: [2.0.0, 2.5.2)
    assert_eq!(el(">=2.0.0 <2.5.2", "2.0.0"), Some(true));
    assert_eq!(el(">=2.0.0 <2.5.2", "2.5.1"), Some(true));
    assert_eq!(el(">=2.0.0 <2.5.2", "2.5.2"), Some(false));
    assert_eq!(el(">=2.0.0 <2.5.2", "1.9.9"), Some(false));
    // compound inclusive range: [3.0.0, 3.4.2]
    assert_eq!(el(">=3.0.0 <=3.4.2", "3.4.2"), Some(true));
    assert_eq!(el(">=3.0.0 <=3.4.2", "3.4.3"), Some(false));
    // component-count mismatch (zero-padded compare)
    assert_eq!(el("<2.5", "2.4.9"), Some(true));
    assert_eq!(el("<2.5", "2.5.0"), Some(false));
    // distro-style target compared against a numeric constraint
    assert_eq!(el("<2.4.49", "2.4.48-1ubuntu0.1"), Some(true));
    // malformed element -> None
    assert_eq!(el("not-a-version", "1.0.0"), None);
    assert_eq!(el("", "1.0.0"), None);
}

fn affects(t: &Json, v: &str) -> bool {
    match_version(t, v).is_some()
}

#[test]
fn threat_matches_version_or_across_array() {
    let t = parse(r#"{ "affectedVersions": [">=2.0.0 <2.5.2", "=3.1.0"] }"#);
    assert_eq!(match_version(&t, "2.3.0"), Some(MatchBasis::Constraint));
    assert!(affects(&t, "3.1.0"));
    assert!(!affects(&t, "2.5.2"));
    assert!(!affects(&t, "4.0.0"));

    let all = parse(r#"{ "affectedVersions": ["*"] }"#);
    assert!(affects(&all, "0.0.1"));

    // fail-closed: a malformed token poisons the whole element
    let poisoned = parse(r#"{ "affectedVersions": [">=2.0.0 garbage"] }"#);
    assert!(!affects(&poisoned, "2.1.0"));
}

#[test]
fn unparseable_target_policy() {
    let wild = parse(r#"{ "affectedVersions": ["*"] }"#);
    assert!(affects(&wild, "not-a-version"));
    let structured = parse(r#"{ "affectedVersions": ["=1.2.3"] }"#);
    assert!(!affects(&structured, "not-a-version"));
    let structured2 = parse(r#"{ "affectedVersions": ["<1.0.0"] }"#);
    assert!(!affects(&structured2, "not-a-version"));
}

#[test]
fn freetext_fallback_basis() {
    // No structured affectedVersions, but the description names the version.
    let t = parse(r#"{ "description": "Affects Foo before 2.0.0 only." }"#);
    assert_eq!(match_version(&t, "1.5.0"), Some(MatchBasis::FreeText));
}

#[test]
fn data_driven_vectors() {
    // (constraint element, target, expected)
    let cases: &[(&str, &str, bool)] = &[
        ("*", "1.2.3", true),
        ("*", "9.9.9-2ubuntu1", true),
        ("=1.2.3", "1.2.3", true),
        ("=1.2.3", "1.2.4", false),
        ("=1.2.3", "1.2.30", false),
        ("=1.2", "1.2.0", true),
        ("=1.2.0", "1.2", true),
        ("<2.4.49", "2.4.48", true),
        ("<2.4.49", "2.4.49", false),
        ("<2.4.49", "2.4.50", false),
        ("<2.4.49", "1.0.0", true),
        ("<=2.4.48", "2.4.48", true),
        ("<=2.4.48", "2.4.49", false),
        ("<=2.4.48", "2.4.47", true),
        (">=2.0.0", "2.0.0", true),
        (">=2.0.0", "1.9.9", false),
        (">=2.0.0", "2.0.1", true),
        (">2.0.0", "2.0.0", false),
        (">2.0.0", "2.0.1", true),
        (">2.0.0", "1.5.0", false),
        (">=2.0.0 <2.5.2", "2.0.0", true),
        (">=2.0.0 <2.5.2", "2.5.1", true),
        (">=2.0.0 <2.5.2", "2.5.2", false),
        (">=2.0.0 <2.5.2", "1.9.9", false),
        (">=3.0.0 <=3.4.2", "3.4.2", true),
        (">=3.0.0 <=3.4.2", "3.4.3", false),
        ("<2.5", "2.4.9", true),
        ("<2.5", "2.5.0", false),
        ("<2.4.49", "2.4.48-1ubuntu0.1", true),
        ("not-a-version", "1.0.0", false), // malformed -> no match
    ];
    for (constraint, version, expected) in cases {
        let got = element_matches(constraint, &ver(version)).unwrap_or(false);
        assert_eq!(got, *expected, "constraint {constraint:?} vs {version:?}");
    }
}

#[test]
fn standalone_service_boundary() {
    assert!(contains_standalone_service("openssh server", "openssh"));
    assert!(contains_standalone_service("affects nginx today", "nginx"));
    assert!(!contains_standalone_service("nginx-ui dashboard", "nginx"));
    assert!(!contains_standalone_service("opensshd", "openssh"));
}

#[test]
fn version_token_anchoring() {
    assert!(contains_version_token("affected 1.2 only", "1.2"));
    assert!(!contains_version_token("affected 1.20 only", "1.2"));
    assert!(!contains_version_token("affected 11.2 only", "1.2"));
    assert!(contains_version_token("ends with 1.2", "1.2"));
}

#[test]
fn versions_compare_three_ways() {
    assert_eq!(ver("1.2").compare(&ver("1.2.0")), Comparison::Equal);
    assert_eq!(ver("1.2").compare(&ver("1.2.1")), Comparison::Less);
    assert_eq!(ver("1.3").compare(&ver("1.2.9")), Comparison::Greater);
}

#[test]
fn a_text_without_digits_is_no_version() {
    assert!(Version::parse("unknown").is_none());
    assert!(parse_version("").is_none());
    assert!(parse_version("v10").is_some());
}

#[test]
fn a_component_beyond_the_limit_saturates() {
    // more than 64 bits
    assert_eq!(ver("1.99999999999999999999.3"), ver("1.18446744073709551615.3"));
    assert!(ver("1.99999999999999999999.3") > ver("1.3"));
}

#[test]
fn the_operator_stands_before_the_version() {
    assert_eq!(split_operator(">=1.0"), (Operator::Ge, "1.0".to_string()));
    assert_eq!(split_operator("<= 1.0"), (Operator::Le, " 1.0".to_string()));
    assert_eq!(split_operator("<1.0"), (Operator::Lt, "1.0".to_string()));
    assert_eq!(split_operator(">1.0"), (Operator::Gt, "1.0".to_string()));
    assert_eq!(split_operator("=1.0"), (Operator::Eq, "1.0".to_string()));
    assert_eq!(split_operator("1.0"), (Operator::Eq, "1.0".to_string()));
}

#[test]
fn an_element_holds_each_of_its_comparators() {
    assert_eq!(parse_element(">=1.0 <2.0").unwrap().len(), 2);
    assert!(parse_element("   ").is_none());
    assert!(parse_element(">=1.0 nonsense").is_none());
}

#[test]
fn affected_ranges_in_prose() {
    let target = ver("2.4.6");
    let says = |text: &str| text_mentions_affected_version_range(text, &target, "2.4.6");
    assert!(says("versions 2.4.0 through 2.4.9 are affected"));
    assert!(says("from 2.0.0 to 2.4.7"));
    assert!(!says("from 2.4.7 to 2.5.0"));
    assert!(says("Versions 2.4.1 - 2.4.7"));
    assert!(!says("versions 2.4.1 to 2.4.5"));
    assert!(says("prior to version 2.4.7"));
    assert!(!says("prior to 2.4.5"));
    assert!(says("before 2.5.0"));
    assert!(!says("before 2.4"));
    assert!(says("up to 2.4.7"));
    assert!(!says("up to 2.4.5"));
    assert!(says("<= 2.4.60"));
    assert!(!says("< 2.4.5"));
    assert!(!says("nothing of the kind"));
    // the version itself, wherever it stands alone
    assert!(says("fixed in 2.4.6"));
    assert!(!says("fixed in 12.4.6"));
    // a bound that equals the version counts only where it is inclusive
    let near = ver("2.4.6-1");
    let near_says = |text: &str| text_mentions_affected_version_range(text, &near, "2.4.6-1");
    assert!(!near_says("before 2.4.6"));
    assert!(near_says("up to 2.4.6"));
}

#[test]
fn texts_of_a_record_are_gathered_in_order() {
    let t = parse(r#"{"a": "one", "b": ["two", {"c": "three"}, 4, null], "d": true}"#);
    assert_eq!(collect_text_values(&t), vec!["one", "two", "three"]);
}

#[test]
fn names_are_compared_in_lower_case() {
    assert_eq!(normalize_name("  OpenSSH "), "openssh");
    assert_eq!(normalize_name(" ÄPFEL "), "äpfel");
    let t = parse(r#"{"title": "Flaw in OpenSSH server", "description": ""}"#);
    assert!(threat_matches_service(&t, " OpenSSH "));
    assert!(!threat_matches_service(&t, "nginx"));
    assert!(threat_matches_service(&parse(r#"{"product": "NGINX"}"#), "nginx"));
    assert!(threat_matches_service(&parse(r#"{"vendorProject": "nginx"}"#), "nginx"));
}

#[test]
fn other_products_of_the_name_are_no_match() {
    let ui = parse(r#"{"product": "n/a", "title": "nginx-ui flaw in nginx"}"#);
    assert!(!threat_matches_service(&ui, "nginx"));
    let both = parse(
        r#"{"product": "n/a", "title": "nginx-ui flaw in nginx", "description": "also NGINX Open Source"}"#,
    );
    assert!(threat_matches_service(&both, "nginx"));
}

#[test]
fn enrichment_text_is_joined_by_lines() {
    assert_eq!(get_enrichment_text(&parse(r#"{"title": "t"}"#)), "");
    let t = parse(r#"{"enrichment": {"a": "One", "b": ["Two", 3]}}"#);
    assert_eq!(get_enrichment_text(&t), "One\nTwo");
}
