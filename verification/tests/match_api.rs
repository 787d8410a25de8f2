//! Queries to the match API, its answers, and the findings that come of them.

use find_threats::api::{
    epss_field, kev_listed, match_to_entry, search_to_entry, severity_rank, MatchHit, MatchResult,
    ThreatEntry, SITE_URL,
};
use find_threats::batch::BatchRun;
use find_threats::http::{ThreatError, BASE_URL};
use find_threats::json::{Json, Numeral, Real};
use find_threats::plan::tier_batch_cap;
use find_threats::query::{batch_request, MatchQuery};
use serde_json::Value;

fn float(x: f64) -> Real {
    Real {
        text: serde_json::to_string(&x).unwrap(),
        shown: x.to_string(),
        hundredths: (x * 100.0) as i64,
        thousandths: (x * 1000.0) as i64,
    }
}

fn json_of(v: &Value) -> Json {
    match v {
        Value::Null => Json::Null,
        Value::Bool(b) => Json::Bool(*b),
        Value::Number(n) => Json::Number(Numeral {
            text: n.to_string(),
            real: float(n.as_f64().unwrap()),
            unsigned: n.as_u64(),
        }),
        Value::String(s) => Json::Text(s.clone()),
        Value::Array(a) => Json::Array(a.iter().map(json_of).collect()),
        Value::Object(m) => {
            Json::Object(m.iter().map(|(k, v)| (k.clone(), json_of(v))).collect())
        }
    }
}

fn value_of(j: &Json) -> Value {
    match j {
        Json::Null => Value::Null,
        Json::Bool(b) => Value::Bool(*b),
        Json::Number(n) => serde_json::from_str(&n.text).unwrap(),
        Json::Text(s) => Value::String(s.clone()),
        Json::Array(a) => Value::Array(a.iter().map(value_of).collect()),
        Json::Object(m) => Value::Object(m.iter().map(|(k, v)| (k.clone(), value_of(v))).collect()),
    }
}

fn parse(text: &str) -> Json {
    json_of(&serde_json::from_str(text).unwrap())
}

fn value(text: &str) -> Value {
    serde_json::from_str(text).unwrap()
}

fn text_of(j: &Json, key: &str) -> Option<String> {
    match j.get(key) {
        None | Some(Json::Null) => None,
        Some(v) => Some(v.as_str().expect("a text").to_string()),
    }
}

fn value_at(j: &Json, key: &str) -> Option<Json> {
    match j.get(key) {
        None | Some(Json::Null) => None,
        Some(v) => Some(v.copy()),
    }
}

fn texts_of(j: &Json, key: &str) -> Vec<String> {
    match j.get_array(key) {
        Some(a) => a.iter().map(|v| v.as_str().expect("a text").to_string()).collect(),
        None => Vec::new(),
    }
}

fn hit_of(j: &Json) -> MatchHit {
    MatchHit {
        cve_id: text_of(j, "cveId"),
        title: text_of(j, "title"),
        severity: text_of(j, "severity"),
        cvss_score: value_at(j, "cvssScore"),
        epss: epss_field(j.get("epss")).expect("an accepted shape"),
        kev: kev_listed(j.get("kev")),
        known_exploits_in_wild: value_at(j, "knownExploitsInWild"),
        match_basis: text_of(j, "matchBasis"),
        matched_range: text_of(j, "matchedRange"),
        published_date: text_of(j, "publishedDate"),
        patch_available: value_at(j, "patchAvailable"),
        confirmed: matches!(j.get("confirmed"), Some(Json::Bool(true))),
        references: match j.get_array("references") {
            Some(a) => a.iter().map(|v| v.copy()).collect(),
            None => Vec::new(),
        },
        slug: text_of(j, "slug"),
        fixed_versions: texts_of(j, "fixedVersions"),
        remediation: text_of(j, "remediation"),
        cwes: texts_of(j, "cwes"),
    }
}

fn results_of(j: &Json) -> Vec<MatchResult> {
    let results = j.get("data").unwrap().get_array("results").unwrap();
    results
        .iter()
        .map(|r| MatchResult {
            matches: match r.get_array("matches") {
                Some(a) => a.iter().map(hit_of).collect(),
                None => Vec::new(),
            },
        })
        .collect()
}

fn shown(x: &Option<Real>) -> Option<&str> {
    x.as_ref().map(|r| r.shown.as_str())
}

#[test]
fn batch_cap_by_tier() {
    assert_eq!(tier_batch_cap(0), 25);
    assert_eq!(tier_batch_cap(15), 25);
    assert_eq!(tier_batch_cap(50), 200);
    assert_eq!(tier_batch_cap(200), 1000);
    assert_eq!(tier_batch_cap(1000), 4000);
}

#[test]
fn match_query_serializes_exactly_one_shape() {
    // purl: only {purl}, never a version field
    let v = value_of(&MatchQuery::purl("pkg:npm/lodash@4.17.20").to_json());
    assert_eq!(v, value(r#"{ "purl": "pkg:npm/lodash@4.17.20" }"#));
    // package: {package:{name,ecosystem}, version}
    let v = value_of(&MatchQuery::package("django", "PyPI", "4.2.0").to_json());
    assert_eq!(
        v,
        value(r#"{ "package": { "name": "django", "ecosystem": "PyPI" }, "version": "4.2.0" }"#)
    );
    // cpe
    let v =
        value_of(&MatchQuery::cpe("cpe:2.3:a:apache:http_server:2.4.48:*:*:*:*:*:*:*").to_json());
    assert_eq!(v, value(r#"{ "cpe": "cpe:2.3:a:apache:http_server:2.4.48:*:*:*:*:*:*:*" }"#));
}

#[test]
fn batch_request_omits_strict_when_false() {
    let q = vec![MatchQuery::purl("pkg:deb/debian/nginx@1.0")];
    let v = value_of(&batch_request(&q, 0, 1, false));
    assert!(v.get("strict").is_none());
    let v = value_of(&batch_request(&q, 0, 1, true));
    assert_eq!(v["strict"], value("true"));
    assert_eq!(v["queries"], value(r#"[{ "purl": "pkg:deb/debian/nginx@1.0" }]"#));
}

#[test]
fn batch_response_deserializes() {
    let raw = parse(
        r#"{ "data": { "results": [
        { "query": {"purl":"x"}, "mode":"purl", "ecosystem":"Debian", "version":"1.0",
          "totalCandidates": 2, "matches": [
            { "cveId":"CVE-2024-1","title":"t","severity":"high","cvssScore":7.5,
              "kev":true,"epss":0.42,"matchBasis":"coordinate","matchedRange":"<2.0","confirmed":true }
        ] },
        { "matches": [] }
    ] } }"#,
    );
    let results = results_of(&raw);
    assert_eq!(results.len(), 2);
    let e = match_to_entry(results.into_iter().next().unwrap().matches.into_iter().next().unwrap());
    assert_eq!(e.cve_id.as_deref(), Some("CVE-2024-1"));
    assert!(e.confirmed && e.kev);
    assert_eq!(e.matched_range.as_deref(), Some("<2.0"));
    assert_eq!(e.match_basis, "coordinate");
}

#[test]
fn search_entry_is_unconfirmed() {
    let t = parse(r#"{ "cveId":"CVE-9","severity":"low","knownExploitsInWild":true }"#);
    let e = search_to_entry(&t);
    assert!(!e.confirmed);
    assert_eq!(e.match_basis, "search-fallback");
    assert!(e.kev);
}

/// A realistic server hit where `epss` and `kev` are OBJECTS (the common live
/// shape).
const REALISTIC_HIT: &str = r#"{
    "id": "abc", "cveId": "CVE-2024-1", "title": "t", "slug": "cve-2024-1",
    "severity": "high", "cvssScore": 7.2, "type": "vulnerability", "source": "nvd",
    "publishedDate": "2024-01-01T00:00:00.000Z",
    "kev": { "addedDate": "2024-02-01", "dueDate": "2024-02-22", "ransomwareUse": "Known" },
    "epss": { "score": 0.42, "percentile": 0.97 },
    "knownExploitsInWild": false,
    "patchAvailable": true,
    "matchBasis": "coordinate",
    "matchedRange": "<4.17.21",
    "matchedCoordinate": "pkg:npm/lodash",
    "confirmed": true
}"#;

#[test]
fn object_shaped_epss_and_kev_decode() {
    // Whole envelope: one result, one object-shaped hit, must decode cleanly.
    let raw = parse(&format!(
        r#"{{ "data": {{ "results": [ {{ "matches": [ {REALISTIC_HIT} ] }} ] }} }}"#
    ));
    let results = results_of(&raw);
    assert_eq!(results.len(), 1);

    let hit = results.into_iter().next().unwrap().matches.into_iter().next().unwrap();
    assert_eq!(shown(&hit.epss()), Some("0.42"));
    assert_eq!(shown(&hit.epss_percentile()), Some("0.97"));
    assert!(hit.kev, "object kev => true");
    assert!(hit.confirmed);
    assert_eq!(hit.match_basis.as_deref(), Some("coordinate"));
    assert_eq!(hit.matched_range.as_deref(), Some("<4.17.21"));

    // And the conversion surfaces publishedDate / patchAvailable. The match
    // path normalizes the date the same way the search path does, so the
    // JSON `publishedDate` has ONE shape ("YYYY-MM-DD", not the raw ISO ts).
    let e = match_to_entry(hit);
    assert_eq!(shown(&e.epss), Some("0.42"));
    assert!(e.kev);
    assert_eq!(e.published_date.as_deref(), Some("2024-01-01"));
    assert_eq!(e.patch_available.as_ref().map(value_of), Some(value("true")));
}

#[test]
fn null_epss_and_kev_decode_to_none_and_false() {
    let raw = parse(
        r#"{
        "cveId": "CVE-2024-2", "severity": "low",
        "epss": null, "kev": null, "matchBasis": "cpe", "matchedRange": "*"
    }"#,
    );
    let hit = hit_of(&raw);
    assert!(hit.epss().is_none());
    assert!(hit.epss_percentile().is_none());
    assert!(!hit.kev, "null kev => false");
    let e = match_to_entry(hit);
    assert!(e.epss.is_none());
    assert!(!e.kev);
}

#[test]
fn absent_epss_and_kev_default() {
    // Neither field present at all.
    let hit = hit_of(&parse(r#"{ "cveId": "CVE-2024-3", "matchBasis": "coordinate" }"#));
    assert!(hit.epss().is_none());
    assert!(!hit.kev);
}

#[test]
fn bare_number_epss_and_bool_kev_defensive() {
    // Defensive: a bare numeric epss and a bare bool kev are still accepted.
    let hit = hit_of(&parse(r#"{ "cveId": "CVE-2024-4", "epss": 0.5, "kev": true }"#));
    assert_eq!(shown(&hit.epss()), Some("0.5"));
    assert!(hit.epss_percentile().is_none());
    assert!(hit.kev, "bool kev => as-is");
}

#[test]
fn search_fallback_reads_object_epss_and_kev() {
    // GET /threats also returns epss + kev as objects; both paths must agree.
    let t = parse(
        r#"{
        "cveId": "CVE-2024-5", "severity": "high",
        "epss": { "score": 0.33, "percentile": 0.9 },
        "kev": { "addedDate": "2024-03-01" }
    }"#,
    );
    let e = search_to_entry(&t);
    assert_eq!(shown(&e.epss), Some("0.33"));
    assert!(e.kev, "object kev in /threats => true");

    // null kev / null epss => false / None.
    let t2 = parse(r#"{ "cveId": "CVE-2024-6", "epss": null, "kev": null }"#);
    let e2 = search_to_entry(&t2);
    assert!(e2.epss.is_none());
    assert!(!e2.kev);
}

#[test]
fn slug_becomes_radar_url_on_match_path() {
    // SITE_URL must equal BASE_URL with the "/api/v1" API path trimmed off.
    assert_eq!(SITE_URL, "https://radar.offseq.com");
    assert_eq!(
        BASE_URL.strip_suffix("/api/v1").unwrap_or(BASE_URL),
        SITE_URL,
        "SITE_URL must track BASE_URL"
    );
    let raw = parse(
        r#"{
        "cveId": "CVE-2021-23337", "slug": "lodash-command-injection-abc123",
        "matchBasis": "coordinate", "confirmed": true
    }"#,
    );
    let hit = hit_of(&raw);
    assert_eq!(hit.slug.as_deref(), Some("lodash-command-injection-abc123"));
    let e = match_to_entry(hit);
    assert_eq!(
        e.radar_url.as_deref(),
        Some("https://radar.offseq.com/threat/lodash-command-injection-abc123")
    );
    // Serializes under the `radarUrl` key.
    let v = value_of(&e.to_json());
    assert_eq!(
        v["radarUrl"].as_str(),
        Some("https://radar.offseq.com/threat/lodash-command-injection-abc123")
    );
}

#[test]
fn absent_slug_yields_no_radar_url() {
    let hit = hit_of(&parse(r#"{ "cveId": "CVE-2024-7", "matchBasis": "coordinate" }"#));
    let e = match_to_entry(hit);
    assert!(e.radar_url.is_none());
    // Skipped from JSON when None.
    let v = value_of(&e.to_json());
    assert!(v.get("radarUrl").is_none());
}

#[test]
fn remediation_fields_decode_and_surface() {
    let raw = parse(
        r#"{
        "cveId": "CVE-2021-23337", "severity": "high", "matchBasis": "coordinate",
        "slug": "lodash-x", "confirmed": true,
        "fixedVersions": ["4.17.21"],
        "remediation": "Upgrade to lodash 4.17.21 or later.",
        "cwes": ["CWE-77"],
        "references": ["https://nvd.nist.gov/vuln/detail/CVE-2021-23337"]
    }"#,
    );
    let hit = hit_of(&raw);
    assert_eq!(hit.fixed_versions, vec!["4.17.21".to_string()]);
    assert_eq!(hit.cwes, vec!["CWE-77".to_string()]);
    let e = match_to_entry(hit);
    assert_eq!(e.fixed_versions, vec!["4.17.21".to_string()]);
    assert_eq!(e.remediation.as_deref(), Some("Upgrade to lodash 4.17.21 or later."));
    assert_eq!(e.cwes, vec!["CWE-77".to_string()]);
    // `references` is populated (server projects it).
    assert_eq!(e.references, vec!["https://nvd.nist.gov/vuln/detail/CVE-2021-23337".to_string()]);
    // Empty / absent remediation fields stay out of the JSON.
    let v = value_of(&e.to_json());
    assert_eq!(v["fixedVersions"], value(r#"["4.17.21"]"#));
    assert_eq!(v["cwes"], value(r#"["CWE-77"]"#));
}

#[test]
fn search_path_reads_slug_and_remediation() {
    let t = parse(
        r#"{
        "cveId": "CVE-2024-8", "slug": "openssl-heartbleed",
        "fixedVersions": ["1.0.1g"], "cwes": ["CWE-125"],
        "remediation": "Upgrade OpenSSL."
    }"#,
    );
    let e = search_to_entry(&t);
    assert_eq!(e.radar_url.as_deref(), Some("https://radar.offseq.com/threat/openssl-heartbleed"));
    assert_eq!(e.fixed_versions, vec!["1.0.1g".to_string()]);
    assert_eq!(e.cwes, vec!["CWE-125".to_string()]);
    assert_eq!(e.remediation.as_deref(), Some("Upgrade OpenSSL."));
}

#[test]
fn an_epss_of_another_shape_is_refused() {
    assert!(epss_field(parse(r#"{"e": "0.5"}"#).get("e")).is_none());
    assert!(epss_field(parse(r#"{"e": {"score": "high"}}"#).get("e")).is_none());
    assert!(epss_field(parse(r#"{"e": [0.5, 0.9]}"#).get("e")).is_none());
    let partial = epss_field(parse(r#"{"e": {"score": null, "percentile": 1}}"#).get("e"));
    let field = partial.unwrap().unwrap();
    assert!(field.score().is_none());
    assert_eq!(shown(&field.percentile()), Some("1"));
    assert!(kev_listed(parse(r#"{"k": "yes"}"#).get("k")));
    assert!(!kev_listed(parse(r#"{"k": false}"#).get("k")));
}

#[test]
fn severities_rank_whatever_their_case() {
    assert_eq!(severity_rank(Some("CRITICAL")), 4);
    assert_eq!(severity_rank(Some("High")), 3);
    assert_eq!(severity_rank(Some("medium")), 2);
    assert_eq!(severity_rank(Some("low")), 1);
    assert_eq!(severity_rank(Some("none")), 0);
    assert_eq!(severity_rank(None), 0);
}

#[test]
fn findings_rank_by_exploit_severity_epss_and_score() {
    let entry = |text: &str| -> ThreatEntry { search_to_entry(&parse(text)) };
    let kev = entry(r#"{"cveId": "A", "severity": "low", "kev": true}"#);
    let high = entry(r#"{"cveId": "B", "severity": "high", "epss": 0.1}"#);
    let higher = entry(r#"{"cveId": "C", "severity": "high", "epss": 0.2}"#);
    let scored = entry(r#"{"cveId": "D", "severity": "high", "epss": 0.2, "cvssScore": "9.8"}"#);
    let numbered = entry(r#"{"cveId": "E", "severity": "high", "epss": 0.2, "cvssScore": 9.8}"#);
    assert!(kev.risk_key().is_higher(&numbered.risk_key()));
    assert!(numbered.risk_key().is_higher(&higher.risk_key()));
    assert!(higher.risk_key().is_higher(&high.risk_key()));
    assert!(!high.risk_key().is_higher(&higher.risk_key()));
    assert_eq!(numbered.risk_key().cvss, 980);
    assert_eq!(scored.risk_key().epss, 200);
}

// ── Batches ──────────────────────────────────────────────────────────────────

#[test]
fn a_batch_goes_out_in_chunks_of_the_tier() {
    let mut run: BatchRun<u32> = BatchRun::new(60);
    assert_eq!(run.next_chunk(0), Some((0, 25)));
    run.absorb(25, Ok(vec![1; 25])).unwrap();
    // the tier is known now
    assert_eq!(run.next_chunk(50), Some((25, 60)));
    run.absorb(35, Ok(vec![2; 35])).unwrap();
    assert_eq!(run.next_chunk(50), None);
    assert_eq!(run.into_results().len(), 60);
}

#[test]
fn a_chunk_that_is_too_large_is_sent_in_smaller_ones() {
    let mut run: BatchRun<u32> = BatchRun::new(10);
    assert_eq!(run.next_chunk(0), Some((0, 10)));
    run.absorb(10, Err(ThreatError::BatchTooLarge(Some(4)))).unwrap();
    assert_eq!(run.next_chunk(0), Some((0, 4)));
    run.absorb(4, Err(ThreatError::BatchTooLarge(None))).unwrap();
    assert_eq!(run.next_chunk(0), Some((0, 2)));
    run.absorb(2, Err(ThreatError::BatchTooLarge(Some(9)))).unwrap();
    assert_eq!(run.next_chunk(0), Some((0, 1)));
    let hard = run.absorb(1, Err(ThreatError::BatchTooLarge(Some(9))));
    assert!(matches!(hard, Err(ThreatError::BatchTooLarge(Some(9)))));
}

#[test]
fn answers_are_as_many_as_queries() {
    let mut run: BatchRun<u32> = BatchRun::new(3);
    let short = run.absorb(3, Ok(vec![1, 2]));
    match short {
        Err(ThreatError::Other(m)) => {
            assert_eq!(m, "match/batch alignment error: sent 3 queries, got 2 results")
        }
        _ => panic!("a short answer is refused"),
    }
    let mut run: BatchRun<u32> = BatchRun::new(3);
    let failed = run.absorb(3, Err(ThreatError::Http("down".to_string())));
    assert!(matches!(failed, Err(ThreatError::Http(m)) if m == "down"));
}
