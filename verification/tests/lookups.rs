//! Lookups of services by name, page by page, and the report that they make.

use find_threats::gate::{FailOn, Severity};
use find_threats::http::ThreatError;
use find_threats::json::{Json, Numeral, Real};
use find_threats::service_findings::{
    lookup_entry, matched_entries, pool_size, run_batch, run_system_lookup, service_assets,
    system_lookups, system_outcome, to_entry, unique_names, BatchResults, Fetched, ServiceEntry,
    SystemInfo,
};
use find_threats::service_lookup::{keep_matching, MatchBasis};
use find_threats::service_report::{fail_triggered, print_summary, services_line};
use find_threats::service_sarif::to_sarif;
use find_threats::services::{make_service, VersionSource};
use find_threats::table::Table;
use find_threats::threat::{
    clean_date, cve_id, filtered_search_params, page_records, refs_to_strings, search_params,
    threat_id, truthy, Pager, Threat,
};
use serde_json::Value;

fn float(x: f64) -> Real {
    Real {
        text: serde_json::to_string(&x).unwrap(),
        shown: x.to_string(),
        hundredths: (x * 100.0) as i64,
        thousandths: (x * 1000.0) as i64,
    }
}

fn json_of(v: &Value) -> Json {
    match v {
        Value::Null => Json::Null,
        Value::Bool(b) => Json::Bool(*b),
        Value::Number(n) => Json::Number(Numeral {
            text: n.to_string(),
            real: float(n.as_f64().unwrap()),
            unsigned: n.as_u64(),
        }),
        Value::String(s) => Json::Text(s.clone()),
        Value::Array(a) => Json::Array(a.iter().map(json_of).collect()),
        Value::Object(m) => {
            Json::Object(m.iter().map(|(k, v)| (k.clone(), json_of(v))).collect())
        }
    }
}

fn value_of(j: &Json) -> Value {
    match j {
        Json::Null => Value::Null,
        Json::Bool(b) => Value::Bool(*b),
        Json::Number(n) => serde_json::from_str(&n.text).unwrap(),
        Json::Text(s) => Value::String(s.clone()),
        Json::Array(a) => Value::Array(a.iter().map(value_of).collect()),
        Json::Object(m) => Value::Object(m.iter().map(|(k, v)| (k.clone(), value_of(v))).collect()),
    }
}

fn threat(text: &str) -> Threat {
    let v: Value = serde_json::from_str(text).unwrap();
    let epss = v.get("epss").and_then(|e| e.as_str()).and_then(|s| s.parse().ok()).map(float);
    Threat { body: json_of(&v), rendered: v.to_string(), epss_text: epss }
}

fn entry(name: &str, version: &str) -> ServiceEntry {
    ServiceEntry { name: name.to_string(), version: version.to_string() }
}

fn strings(v: &[&str]) -> Vec<String> {
    v.iter().map(|s| s.to_string()).collect()
}

// ── Pages ────────────────────────────────────────────────────────────────────

fn page(from: usize, to: usize) -> Vec<Threat> {
    (from..to).map(|i| threat(&format!(r#"{{"_id": "t{i}"}}"#))).collect()
}

#[test]
fn pages_are_read_until_one_is_short() {
    let mut p = Pager::new();
    assert_eq!(p.page(), 1);
    assert!(p.absorb(page(0, 3), 3));
    assert_eq!(p.page(), 2);
    assert!(!p.absorb(page(3, 5), 3));
    assert_eq!(p.into_found().len(), 5);
}

#[test]
fn a_page_with_nothing_new_is_the_last() {
    let mut p = Pager::new();
    assert!(p.absorb(page(0, 3), 3));
    assert!(!p.absorb(page(0, 3), 3));
    assert_eq!(p.into_found().len(), 3);
}

#[test]
fn no_more_than_fifty_pages_are_read() {
    let mut p = Pager::new();
    let mut n: usize = 0;
    while p.absorb(page(n, n + 1), 1) {
        n += 1;
    }
    assert_eq!(p.page(), 50);
    assert_eq!(p.into_found().len(), 50);
}

#[test]
fn a_record_is_known_by_its_first_filled_name() {
    assert_eq!(threat_id(&threat(r#"{"_id": "", "externalId": "x", "cveId": "c"}"#)), "x");
    assert_eq!(threat_id(&threat(r#"{"title": "t"}"#)), "t");
    assert_eq!(threat_id(&threat(r#"{"a": 1}"#)), r#"{"a":1}"#);
    assert_eq!(cve_id(&threat(r#"{"externalId": "x"}"#).body).as_deref(), Some("x"));
}

#[test]
fn what_a_page_is_asked_for() {
    let p = search_params("nginx", 100, 2);
    assert_eq!(
        p,
        vec![
            ("search".to_string(), "nginx".to_string()),
            ("limit".to_string(), "100".to_string()),
            ("page".to_string(), "2".to_string()),
        ]
    );
    let p = filtered_search_params("nginx", 100, 2, Some("high"), None, Some(30));
    assert_eq!(p.len(), 5);
    assert_eq!(p[3], ("severity".to_string(), "high".to_string()));
    assert_eq!(p[4], ("days".to_string(), "30".to_string()));
}

#[test]
fn parts_of_a_record() {
    let t = threat(r#"{"d": "2024-01-01T10:00", "n": 3, "y": "true", "r": [{"url": "u"}, "v", 3]}"#).body;
    assert_eq!(clean_date(t.get("d")), "2024-01-01");
    assert_eq!(clean_date(t.get("n")), "N/A");
    assert_eq!(clean_date(None), "N/A");
    assert!(truthy(t.get("y")));
    assert!(!truthy(t.get("n")));
    assert_eq!(refs_to_strings(t.get_array("r").unwrap()), strings(&["u", "v"]));
    assert_eq!(page_records(&threat(r#"{"data": {"threats": [1, 2]}}"#).body).unwrap().len(), 2);
    assert!(page_records(&threat(r#"{"data": {}}"#).body).is_none());
}

// ── Findings ─────────────────────────────────────────────────────────────────

const NGINX: &str = r#"{"product": "nginx", "cveId": "CVE-1", "severity": "high",
    "epss": "0.25", "knownExploitsInWild": "true", "affectedVersions": ["<1.20"]}"#;

#[test]
fn a_record_becomes_a_finding() {
    let e = to_entry(&threat(NGINX), MatchBasis::Constraint);
    assert_eq!(e.cve_id.as_deref(), Some("CVE-1"));
    assert!(e.kev);
    assert_eq!(e.epss.unwrap().shown, "0.25");
    assert_eq!(e.published_date.as_deref(), Some("N/A"));
    assert_eq!(e.match_basis, MatchBasis::Constraint);
}

#[test]
fn findings_match_the_version_highest_risk_first() {
    let low = r#"{"cveId": "CVE-2", "severity": "low", "affectedVersions": ["*"]}"#;
    let other = r#"{"cveId": "CVE-3", "severity": "critical", "affectedVersions": ["=9"]}"#;
    let found = matched_entries(&vec![threat(low), threat(NGINX), threat(other)], "1.18.0");
    let ids: Vec<&str> = found.iter().map(|e| e.cve_id.as_deref().unwrap()).collect();
    assert_eq!(ids, vec!["CVE-1", "CVE-2"]);
    let kept = keep_matching(vec![threat(low), threat(NGINX)], "nginx");
    assert_eq!(kept.len(), 1);
}

#[test]
fn names_are_looked_up_once() {
    let services = vec![entry("nginx", "1"), entry("ssh", "9"), entry("nginx", "2")];
    assert_eq!(unique_names(&services), strings(&["nginx", "ssh"]));
    assert_eq!(pool_size(0), 1);
    assert_eq!(pool_size(5), 5);
    assert_eq!(pool_size(80), 8);
}

#[test]
fn every_service_has_its_result() {
    let services = vec![entry("nginx", "1.18.0"), entry("nginx", "1.25.0"), entry("ssh", "9")];
    let fetches = vec![
        ("nginx".to_string(), Fetched::Found(vec![threat(NGINX)])),
        ("ssh".to_string(), Fetched::Failed(ThreatError::Other("boom".to_string()))),
    ];
    let o = run_batch(&services, fetches).ok().unwrap();
    assert_eq!(o.results.get("nginx@1.18.0").unwrap().len(), 1);
    assert!(o.results.get("nginx@1.25.0").unwrap().is_empty());
    assert!(o.results.get("ssh@9").unwrap().is_empty());
    assert_eq!(o.errors.get("ssh").map(|s| s.as_str()), Some("boom"));
    let refused = vec![
        ("nginx".to_string(), Fetched::Failed(ThreatError::RateLimitExceeded("spent".to_string()))),
        ("ssh".to_string(), Fetched::Skipped),
    ];
    let r = run_batch(&services, refused);
    assert!(matches!(r, Err(ThreatError::RateLimitExceeded(m)) if m == "spent"));
}

#[test]
fn the_system_is_looked_up_by_its_parts() {
    let info = SystemInfo {
        kernel_name: "freebsd".to_string(),
        kernel_version: "14.0".to_string(),
        distro_name: "freebsd".to_string(),
        distro_version: "14.0".to_string(),
    };
    let parts = system_lookups(&info);
    assert_eq!(parts.len(), 1);
    let all = r#"{"cveId": "CVE-9", "affectedVersions": ["*"]}"#;
    let found = run_system_lookup(&parts, &vec![vec![threat(all)]]);
    assert_eq!(found.get("freebsd@14.0").unwrap().len(), 1);
}

// ── The report ───────────────────────────────────────────────────────────────

fn report() -> BatchResults {
    let known = Some((None, "1.18.0".to_string(), VersionSource::Probe));
    let service = make_service("nginx", "/usr/sbin/nginx", Some(1), known)
        .unwrap()
        .expose(strings(&["0.0.0.0:80"]));
    let asked = lookup_entry(&service);
    assert_eq!((asked.name.as_str(), asked.version.as_str()), ("nginx", "1.18.0"));
    let mut services = Table::new();
    services.insert("nginx@1.18.0".to_string(), matched_entries(&vec![threat(NGINX)], "1.18.0"));
    let mut system = Table::new();
    system.insert("linux@6".to_string(), matched_entries(&vec![threat(NGINX)], "1.18.0"));
    BatchResults {
        services,
        assets: service_assets(&vec![service]),
        system: Some(system),
        errors: Table::new(),
    }
}

#[test]
fn the_summary_of_the_services() {
    let r = report();
    assert_eq!(r.total_vulns(), 2);
    assert_eq!(
        print_summary(&r, false),
        strings(&[
            "\nVulnerability summary (highest risk first):",
            "\n  nginx@1.18.0 — 1 finding(s)  [EXPOSED 0.0.0.0:80]",
            "      HIGH  CVE-1 [KEV]  ",
            "\n1 finding(s) across 1 service(s); 1 exposed, 1 known-exploited.",
        ])
    );
    let v = value_of(&r.to_json());
    assert_eq!(v["services"]["nginx@1.18.0"][0]["cveId"].as_str(), Some("CVE-1"));
    assert_eq!(v["assets"]["nginx@1.18.0"]["exposed"].as_bool(), Some(true));
}

#[test]
fn the_gate_of_the_services() {
    let r = report();
    assert!(fail_triggered(&r, FailOn::Kev, None));
    assert!(fail_triggered(&r, FailOn::High, None));
    assert!(!fail_triggered(&r, FailOn::Critical, None));
    assert!(fail_triggered(&r, FailOn::Exposed, Some(Severity::High)));
    assert!(fail_triggered(&r, FailOn::Exposed, Some(Severity::Critical)));
    assert!(fail_triggered(&r, FailOn::Any, Some(Severity::Critical)));
}

#[test]
fn the_services_as_sarif() {
    let v = value_of(&to_sarif(&report()));
    let run = &v["runs"][0];
    assert_eq!(run["tool"]["driver"]["rules"].as_array().unwrap().len(), 1);
    let results = run["results"].as_array().unwrap();
    assert_eq!(results.len(), 2);
    let place = |r: &Value| {
        r["locations"][0]["logicalLocations"][0]["fullyQualifiedName"].as_str().unwrap().to_string()
    };
    assert_eq!(place(&results[0]), "nginx@1.18.0");
    assert_eq!(place(&results[1]), "linux@6");
    assert_eq!(results[0]["properties"]["matchBasis"].as_str(), Some("constraint"));
    let finding = report().services.get("nginx@1.18.0").unwrap()[0].to_finding();
    assert!(finding.confirmed && finding.radar_url.is_none());
}

#[test]
fn only_a_refusal_of_the_system_lookup_ends_the_run() {
    let found = system_outcome(Ok(report().system.unwrap())).unwrap().unwrap();
    assert_eq!(found.key(0), "linux@6");
    let failed = system_outcome(Err(ThreatError::Http("down".to_string())));
    assert!(matches!(failed, Ok(None)));
    let refused = system_outcome(Err(ThreatError::RateLimitExceeded("spent".to_string())));
    assert!(matches!(refused, Err(ThreatError::RateLimitExceeded(m)) if m == "spent"));
}

#[test]
fn the_services_are_counted() {
    assert_eq!(services_line(&Vec::new()), "Found 0 service(s)");
    let known = || Some((None, "1".to_string(), VersionSource::Probe));
    let hidden = make_service("a", "/a", Some(1), known()).unwrap();
    let open = make_service("b", "/b", Some(2), known()).unwrap().expose(strings(&["0.0.0.0:80"]));
    assert_eq!(services_line(&vec![hidden, open]), "Found 2 service(s), 1 network-exposed");
}
