//! Assets, the plan of a scan, its outcome, and the reports that are made of it.

use find_threats::api::{
    epss_field, kev_listed, match_to_entry, search_to_entry, MatchHit, MatchResult, ThreatEntry,
};
use find_threats::asset::{
    collect_assets, dedup_and_merge, for_scope, merge_into, service_to_asset, Asset, Collector,
    Discovery, Ecosystem, OsPackageCollector, Runtime, RunningServiceCollector, ScanScope, Source,
};
use find_threats::ending::{failed_ending, reported_ending, Ending};
use find_threats::gate::{
    asset_allowed, asset_infos, expand_tilde, fail_triggered, glob_fits_text, glob_match,
    keep_allowed, output_path, severity_floor, FailOn, Severity,
};
use find_threats::host::{LinuxDistro, OsType};
use find_threats::http::ThreatError;
use find_threats::inventory::InstalledPkg;
use find_threats::json::{Json, Numeral, Real};
use find_threats::net::Reachability;
use find_threats::order::sort_ranked;
use find_threats::purl::{build_purl, pct, to_match_query};
use find_threats::report::{cve_groups, AssetInfo, BatchResults, CveGroup, Meta};
use find_threats::sarif::{level, security_severity, to_sarif};
use find_threats::scan::{dedup_by_cve, next_search, plan_scan, run_scan, ScanPlan, Searched};
use find_threats::services::{make_service, VersionSource};
use find_threats::summary::{found_line, paint, print_summary, quota_warning, sev_label, total_line};
use find_threats::table::Table;
use serde_json::Value;

fn float(x: f64) -> Real {
    Real {
        text: serde_json::to_string(&x).unwrap(),
        shown: x.to_string(),
        hundredths: (x * 100.0) as i64,
        thousandths: (x * 1000.0) as i64,
    }
}

fn json_of(v: &Value) -> Json {
    match v {
        Value::Null => Json::Null,
        Value::Bool(b) => Json::Bool(*b),
        Value::Number(n) => Json::Number(Numeral {
            text: n.to_string(),
            real: float(n.as_f64().unwrap()),
            unsigned: n.as_u64(),
        }),
        Value::String(s) => Json::Text(s.clone()),
        Value::Array(a) => Json::Array(a.iter().map(json_of).collect()),
        Value::Object(m) => {
            Json::Object(m.iter().map(|(k, v)| (k.clone(), json_of(v))).collect())
        }
    }
}

fn value_of(j: &Json) -> Value {
    match j {
        Json::Null => Value::Null,
        Json::Bool(b) => Value::Bool(*b),
        Json::Number(n) => serde_json::from_str(&n.text).unwrap(),
        Json::Text(s) => Value::String(s.clone()),
        Json::Array(a) => Value::Array(a.iter().map(value_of).collect()),
        Json::Object(m) => Value::Object(m.iter().map(|(k, v)| (k.clone(), value_of(v))).collect()),
    }
}

fn parse(text: &str) -> Json {
    json_of(&serde_json::from_str(text).unwrap())
}

fn strings(v: &[&str]) -> Vec<String> {
    v.iter().map(|s| s.to_string()).collect()
}

fn hit(text: &str) -> MatchHit {
    let j = parse(text);
    let text_of = |key: &str| j.get_str(key).map(|s| s.to_string());
    MatchHit {
        cve_id: text_of("cveId"),
        title: text_of("title"),
        severity: text_of("severity"),
        cvss_score: j.get("cvssScore").map(|v| v.copy()),
        epss: epss_field(j.get("epss")).unwrap(),
        kev: kev_listed(j.get("kev")),
        known_exploits_in_wild: None,
        match_basis: text_of("matchBasis"),
        matched_range: text_of("matchedRange"),
        published_date: None,
        patch_available: None,
        confirmed: matches!(j.get("confirmed"), Some(Json::Bool(true))),
        references: Vec::new(),
        slug: text_of("slug"),
        fixed_versions: Vec::new(),
        remediation: text_of("remediation"),
        cwes: Vec::new(),
    }
}

fn no_infos() -> Table<AssetInfo> {
    Table::new()
}

fn results_of(services: Table<Vec<ThreatEntry>>) -> BatchResults {
    BatchResults {
        meta: Meta::default(),
        services,
        by_cve: Table::new(),
        assets: no_infos(),
        unconfirmed: Table::new(),
        errors: Table::new(),
    }
}

// ── Assets ───────────────────────────────────────────────────────────────────

fn pkg_asset(name: &str, ver: &str) -> Asset {
    Asset {
        ecosystem: Ecosystem::Deb,
        name: name.into(),
        pkg_name: None,
        version: ver.into(),
        sources: vec![Source::PackageDb],
        locations: vec![],
        runtime: None,
        cpe: None,
    }
}

fn debian() -> OsType {
    OsType::Linux(LinuxDistro::Debian)
}

#[test]
fn keys_normalize() {
    // No resolved package name → fall back to the normalized service alias.
    let a = pkg_asset("ssh", "9.6");
    assert_eq!(a.coordinate_name(), "openssh");
    assert_eq!(a.report_key(), "openssh@9.6");
}

#[test]
fn resolved_package_name_is_the_coordinate() {
    // A running unit "ssh" resolved to the real package "openssh-server".
    let mut a = pkg_asset("ssh", "1:9.6p1-3");
    a.pkg_name = Some("openssh-server".into());
    assert_eq!(a.coordinate_name(), "openssh-server");
    assert_eq!(a.report_key(), "openssh-server@1:9.6p1-3");
    let purl = build_purl(&a, &debian(), None).unwrap();
    assert!(purl.starts_with("pkg:deb/debian/openssh-server@1:9.6p1-3"), "{purl}");
}

#[test]
fn merge_preserves_runtime_and_unions_sources() {
    let running = Asset {
        ecosystem: Ecosystem::Deb,
        name: "nginx".into(),
        pkg_name: None,
        version: "1.24.0".into(),
        sources: vec![Source::Probe],
        locations: vec!["/usr/sbin/nginx".into()],
        runtime: Some(Runtime {
            pid: Some(7),
            listeners: vec!["tcp 0.0.0.0:443".into()],
            reachability: Reachability::Public,
            exposed: true,
        }),
        cpe: None,
    };
    let installed = pkg_asset("nginx", "1.24.0");
    let merged = dedup_and_merge(vec![installed, running]);
    assert_eq!(merged.len(), 1, "same coordinate collapses to one asset");
    let a = &merged[0];
    assert!(a.runtime.as_ref().unwrap().exposed, "runtime/exposure preserved");
    assert!(a.sources.contains(&Source::PackageDb) && a.sources.contains(&Source::Probe));
    assert_eq!(a.version_source_label(), "package-db");
}

#[test]
fn merging_unites_and_is_done_once() {
    let at = |place: &str, reach: Option<Reachability>| {
        let mut a = pkg_asset("nginx", "1");
        a.locations = strings(&[place]);
        a.runtime = reach.map(|reachability| Runtime {
            pid: None,
            listeners: strings(&[place]),
            reachability,
            exposed: false,
        });
        a
    };
    let merged = dedup_and_merge(vec![
        at("/a", None),
        pkg_asset("apache2", "1"),
        at("/b", Some(Reachability::Private)),
        at("/a", Some(Reachability::Loopback)),
        at("/c", Some(Reachability::Private)),
    ]);
    let told = |v: &Vec<Asset>| -> Vec<(String, Vec<String>, Option<Vec<String>>)> {
        v.iter()
            .map(|a| {
                let listeners = a.runtime.as_ref().map(|r| r.listeners.clone());
                (a.report_key(), a.locations.clone(), listeners)
            })
            .collect()
    };
    let once = told(&merged);
    assert_eq!(
        once,
        vec![
            ("apache@1".to_string(), Vec::new(), None),
            ("nginx@1".to_string(), strings(&["/a", "/b", "/c"]), Some(strings(&["/b"]))),
        ]
    );
    assert_eq!(told(&dedup_and_merge(merged)), once);
}

#[test]
fn merged_assets_have_keys_of_their_own() {
    let merged = dedup_and_merge(vec![
        pkg_asset("nginx", "1"),
        pkg_asset("nginx", "1"),
        pkg_asset("nginx", "2"),
        pkg_asset("apache2", "1"),
    ]);
    let mut keys: Vec<String> = merged.iter().map(|a| a.report_key()).collect();
    let n: usize = keys.len();
    keys.sort();
    keys.dedup();
    assert_eq!(keys.len(), n);
    assert_eq!(n, 3);
    let mut a = pkg_asset("x", "1");
    let mut b = pkg_asset("x", "1");
    a.locations = strings(&["/a", "/b"]);
    b.locations = strings(&["/b", "/c"]);
    merge_into(&mut a, b);
    assert_eq!(a.locations, strings(&["/a", "/b", "/c"]));
}

#[test]
fn collectors_make_assets() {
    let known = Some((Some("nginx".to_string()), "1.0".to_string(), VersionSource::PackageDb));
    let service = make_service("web", "/usr/sbin/nginx", Some(3), known).unwrap();
    let a = service_to_asset(service.clone(), Ecosystem::for_os(&debian()));
    assert_eq!(a.ecosystem, Ecosystem::Deb);
    assert_eq!((a.name.as_str(), a.pkg_name.as_deref()), ("web", Some("nginx")));
    assert_eq!(a.locations, strings(&["/usr/sbin/nginx"]));
    let running = RunningServiceCollector { services: vec![service] };
    assert_eq!(running.name(), "running-services");
    assert_eq!(running.collect(&debian()).len(), 1);
    let installed = OsPackageCollector {
        packages: vec![InstalledPkg { name: "bash".into(), version: "5".into(), tool: "dpkg" }],
    };
    let found = installed.collect(&debian());
    assert_eq!(found[0].pkg_name.as_deref(), Some("bash"));
    assert!(found[0].runtime.is_none());
    assert_eq!(collect_assets(vec![found, vec![pkg_asset("x", "1")]]).len(), 2);
}

#[test]
fn scopes_and_what_they_find() {
    assert!(for_scope(ScanScope::Running).contains(&Discovery::RunningServices));
    assert!(!for_scope(ScanScope::Running).contains(&Discovery::OsPackages));
    assert!(for_scope(ScanScope::All).contains(&Discovery::OsPackages));
}

// ── Package URLs ─────────────────────────────────────────────────────────────

fn linux(d: LinuxDistro) -> OsType {
    OsType::Linux(d)
}

fn asset_eco(eco: Ecosystem, name: &str, ver: &str) -> Asset {
    Asset {
        ecosystem: eco,
        name: name.into(),
        pkg_name: Some(name.into()),
        version: ver.into(),
        sources: vec![Source::PackageDb],
        locations: vec![],
        runtime: None,
        cpe: None,
    }
}

#[test]
fn purl_deb_keeps_full_version() {
    let a = asset_eco(Ecosystem::Deb, "OpenSSL", "1.1.1f-1ubuntu2.16");
    let p = build_purl(&a, &linux(LinuxDistro::Ubuntu), None).unwrap();
    assert!(p.starts_with("pkg:deb/ubuntu/openssl@1.1.1f-1ubuntu2.16"), "{p}");
}

#[test]
fn purl_deb_encodes_plus() {
    let a = asset_eco(Ecosystem::Deb, "nginx", "1.18.0-6+deb11u3");
    let p = build_purl(&a, &linux(LinuxDistro::Debian), None).unwrap();
    assert!(p.starts_with("pkg:deb/debian/nginx@1.18.0-6%2Bdeb11u3"), "{p}");
}

#[test]
fn purl_rpm_case_and_evr() {
    let a = asset_eco(Ecosystem::Rpm, "NetworkManager", "1:1.42.2-1.el9");
    let p = build_purl(&a, &linux(LinuxDistro::Rhel), None).unwrap();
    assert!(p.starts_with("pkg:rpm/redhat/NetworkManager@1:1.42.2-1.el9"), "{p}");
}

#[test]
fn purl_apk_arch_brew_and_bsd() {
    let alpine = asset_eco(Ecosystem::Alpine, "musl", "1.2.5-r0");
    assert!(build_purl(&alpine, &linux(LinuxDistro::Alpine), None)
        .unwrap()
        .starts_with("pkg:apk/alpine/musl@1.2.5-r0"));
    let arch = asset_eco(Ecosystem::Arch, "nginx", "1.27.0-1");
    assert!(build_purl(&arch, &linux(LinuxDistro::Arch), None)
        .unwrap()
        .starts_with("pkg:pacman/arch/nginx@1.27.0-1"));
    let brew = asset_eco(Ecosystem::Homebrew, "openssl@3", "3.3.2");
    assert_eq!(
        build_purl(&brew, &OsType::MacOs, None).unwrap(),
        "pkg:brew/openssl%403@3.3.2"
    );
    let bsd = asset_eco(Ecosystem::FreeBsdPkg, "nginx", "1.27.0");
    assert_eq!(build_purl(&bsd, &OsType::FreeBsd, None), None);
}

#[test]
fn pct_encoding() {
    assert_eq!(pct("a+b@c d"), "a%2Bb%40c%20d");
    assert_eq!(pct("1.2.3-4ubuntu5"), "1.2.3-4ubuntu5");
}

#[test]
fn purls_name_the_release() {
    let deb = asset_eco(Ecosystem::Deb, "nginx", "1.18.0");
    let p = build_purl(&deb, &debian(), Some("VERSION_CODENAME=bookworm\nVERSION_ID=\"12\"\n")).unwrap();
    assert!(p.contains("bookworm") || p.contains("12"), "{p}");
    assert_eq!(pct("100%"), "100%25");
    let named = asset_eco(Ecosystem::Npm, "@scope/pkg", "1.0.0");
    let q = to_match_query(&named, &OsType::MacOs, None);
    assert!(q.is_some());
    let mut with_cpe = asset_eco(Ecosystem::WinApp, "Git", "2.43.0");
    with_cpe.cpe = Some("cpe:2.3:a:x:y:1:*:*:*:*:*:*:*".into());
    let v = value_of(&to_match_query(&with_cpe, &OsType::MacOs, None).unwrap().to_json());
    assert_eq!(v["cpe"].as_str(), Some("cpe:2.3:a:x:y:1:*:*:*:*:*:*:*"));
    assert!(to_match_query(&asset_eco(Ecosystem::WinApp, "Git", "1"), &OsType::MacOs, None).is_none());
}

#[test]
fn a_purl_tells_versions_apart() {
    let purl = |name: &str, version: &str| {
        build_purl(&asset_eco(Ecosystem::Rpm, name, version), &linux(LinuxDistro::Rhel), None).unwrap()
    };
    assert_ne!(purl("a@b", "1"), purl("a", "b@1"));
    assert_ne!(purl("a", "1+2"), purl("a", "1%2B2"));
    assert_ne!(purl("a", "1:1-1"), purl("a", "1-1"));
}

// ── Scans ────────────────────────────────────────────────────────────────────

#[test]
fn dedup_keeps_highest_risk_per_cve() {
    // Two rows for the same CVE on one coordinate (e.g. two affected ranges):
    // a low-severity, non-KEV instance and a high-severity KEV instance, plus
    // a distinct CVE. The bucket is risk-sorted then deduped.
    let mk = |cve: &str, sev: &str, kev: bool, range: &str| {
        match_to_entry(hit(&format!(
            r#"{{ "cveId": "{cve}", "severity": "{sev}", "kev": {kev},
                "matchBasis": "coordinate", "matchedRange": "{range}", "confirmed": true }}"#
        )))
    };
    let mut v = sort_ranked(vec![
        mk("CVE-2024-1", "low", false, "<1.0"),
        mk("CVE-2024-1", "critical", true, "<2.0"),
        mk("CVE-2024-2", "medium", false, "<3.0"),
    ]);
    dedup_by_cve(&mut v);
    assert_eq!(v.len(), 2, "duplicate CVE collapsed");
    let kept = v.iter().find(|e| e.cve_id.as_deref() == Some("CVE-2024-1")).unwrap();
    // The surviving instance is the highest-risk one (KEV / critical).
    assert!(kept.kev);
    assert_eq!(kept.severity.as_deref(), Some("critical"));
    assert_eq!(kept.matched_range.as_deref(), Some("<2.0"));
}

#[test]
fn dedup_keeps_entries_without_cve_id() {
    let mut v = vec![
        match_to_entry(hit(r#"{ "matchBasis": "coordinate" }"#)),
        match_to_entry(hit(r#"{ "matchBasis": "coordinate" }"#)),
    ];
    dedup_by_cve(&mut v);
    assert_eq!(v.len(), 2, "id-less entries are never collapsed");
}

fn plan_of_three() -> ScanPlan {
    let assets = vec![
        asset_eco(Ecosystem::Deb, "nginx", "1.18.0"),
        asset_eco(Ecosystem::FreeBsdPkg, "zsh", "5"),
        asset_eco(Ecosystem::FreeBsdPkg, "zsh", "6"),
    ];
    plan_scan(&assets, &debian(), None)
}

#[test]
fn every_asset_is_asked_for_once() {
    let plan = plan_of_three();
    assert_eq!(plan.queries.len(), 1);
    assert_eq!(plan.query_keys, strings(&["nginx@1.18.0"]));
    assert_eq!(plan.fallback.len(), 1);
    assert_eq!(plan.fallback.key(0), "zsh");
    assert_eq!(plan.fallback.value(0), &strings(&["zsh@5", "zsh@6"]));
}

#[test]
fn a_scan_sorts_findings_into_buckets() {
    let plan = plan_of_three();
    let answers = vec![MatchResult {
        matches: vec![
            hit(r#"{"cveId": "CVE-1", "severity": "low", "confirmed": true}"#),
            hit(r#"{"cveId": "CVE-2", "severity": "high", "confirmed": true}"#),
            hit(r#"{"cveId": "CVE-2", "severity": "high", "confirmed": true, "kev": true}"#),
            hit(r#"{"cveId": "CVE-3", "severity": "high", "confirmed": false}"#),
        ],
    }];
    let replies: Vec<Searched> =
        vec![Ok(vec![parse(r#"{"cveId": "CVE-4", "severity": "critical"}"#)])];
    let o = run_scan(&plan, answers, replies, severity_floor(Some(Severity::Medium))).ok().unwrap();
    let confirmed = o.results.get("nginx@1.18.0").unwrap();
    let ids: Vec<&str> = confirmed.iter().map(|e| e.cve_id.as_deref().unwrap()).collect();
    assert_eq!(ids, vec!["CVE-2"]);
    assert!(confirmed[0].kev);
    assert_eq!(o.unconfirmed.get("nginx@1.18.0").unwrap().len(), 1);
    assert_eq!(o.unconfirmed.get("zsh@5").unwrap().len(), 1);
    assert_eq!(o.unconfirmed.get("zsh@6").unwrap().len(), 1);
    assert!(o.errors.is_empty());
}

#[test]
fn unconfirmed_hits_leave_the_confirmed_findings() {
    let confirmed = r#"{"cveId": "CVE-2", "severity": "high", "confirmed": true}"#;
    let other = r#"{"cveId": "CVE-3", "severity": "critical", "confirmed": false}"#;
    let plain = vec![MatchResult { matches: vec![hit(confirmed)] }];
    let mixed = vec![MatchResult { matches: vec![hit(other), hit(confirmed), hit(other)] }];
    let a = run_scan(&plan_of_three(), plain, Vec::new(), 0).ok().unwrap();
    let b = run_scan(&plan_of_three(), mixed, Vec::new(), 0).ok().unwrap();
    for o in [&a, &b] {
        assert_eq!(o.results.len(), 1);
        let found = o.results.get("nginx@1.18.0").unwrap();
        assert_eq!(found.len(), 1);
        assert_eq!(found[0].cve_id.as_deref(), Some("CVE-2"));
    }
    assert!(a.unconfirmed.is_empty());
    assert_eq!(b.unconfirmed.len(), 1);
}

#[test]
fn a_search_that_fails_is_an_error_of_its_own() {
    let failed: Vec<Searched> = vec![Err(ThreatError::Other("boom".to_string()))];
    let o = run_scan(&plan_of_three(), Vec::new(), failed, 0).ok().unwrap();
    assert_eq!(o.errors.get("zsh").map(|s| s.as_str()), Some("boom"));
    let limited: Vec<Searched> = vec![Err(ThreatError::RateLimitExceeded("spent".to_string()))];
    let r = run_scan(&plan_of_three(), Vec::new(), limited, 0);
    assert!(matches!(r, Err(ThreatError::RateLimitExceeded(m)) if m == "spent"));
}

#[test]
fn the_first_refusal_ends_the_scan() {
    let plan = plan_scan(
        &vec![
            asset_eco(Ecosystem::FreeBsdPkg, "a", "1"),
            asset_eco(Ecosystem::FreeBsdPkg, "b", "1"),
            asset_eco(Ecosystem::FreeBsdPkg, "c", "1"),
        ],
        &OsType::FreeBsd,
        None,
    );
    let replies: Vec<Searched> = vec![
        Err(ThreatError::Http("down".to_string())),
        Err(ThreatError::RateLimitExceeded("first".to_string())),
        Err(ThreatError::RateLimitExceeded("second".to_string())),
    ];
    let r = run_scan(&plan, Vec::new(), replies, 0);
    assert!(matches!(r, Err(ThreatError::RateLimitExceeded(m)) if m == "first"));
    let replies: Vec<Searched> = vec![
        Err(ThreatError::Http("down".to_string())),
        Ok(Vec::new()),
        Err(ThreatError::Other("odd".to_string())),
    ];
    let o = run_scan(&plan, Vec::new(), replies, 0).ok().unwrap();
    assert_eq!(o.errors.get("a").map(|s| s.as_str()), Some("HTTP error: down"));
    assert!(o.errors.get("b").is_none());
    assert_eq!(o.errors.get("c").map(|s| s.as_str()), Some("odd"));
}

#[test]
fn searches_stop_at_a_refusal() {
    let plan = plan_scan(
        &vec![
            asset_eco(Ecosystem::FreeBsdPkg, "b", "1"),
            asset_eco(Ecosystem::FreeBsdPkg, "a", "1"),
        ],
        &OsType::FreeBsd,
        None,
    );
    let mut replies: Vec<Searched> = Vec::new();
    assert_eq!(next_search(&plan, &replies), Some("a"));
    replies.push(Err(ThreatError::Http("down".to_string())));
    assert_eq!(next_search(&plan, &replies), Some("b"));
    replies.push(Ok(Vec::new()));
    assert_eq!(next_search(&plan, &replies), None);
    let refused: Vec<Searched> = vec![Err(ThreatError::RateLimitExceeded("spent".to_string()))];
    assert_eq!(next_search(&plan, &refused), None);
}

#[test]
fn exit_codes_of_a_run() {
    let codes = |e: ThreatError| failed_ending(&e).code();
    assert_eq!(reported_ending(false).code(), 0);
    assert_eq!(codes(ThreatError::Other("x".to_string())), 1);
    assert_eq!(codes(ThreatError::BatchTooLarge(None)), 1);
    assert_eq!(Ending::NoKey.code(), 2);
    assert_eq!(Ending::UnsupportedOs.code(), 3);
    assert_eq!(codes(ThreatError::RateLimitExceeded("x".to_string())), 4);
    assert_eq!(reported_ending(true).code(), 5);
}

// ── Gates ────────────────────────────────────────────────────────────────────

#[test]
fn glob_matching() {
    assert!(glob_match("nginx", "nginx"));
    assert!(!glob_match("nginx", "nginx-ui"));
    assert!(glob_match("*sql*", "postgresql"));
    assert!(glob_match("postgres*", "postgresql"));
    assert!(glob_match("*.service", "ssh.service"));
    assert!(!glob_match("ngin?", "nginx")); // no '?' support, treated literally
    // include/exclude over an asset's names (display + coordinate)
    let none: Vec<String> = Vec::new();
    assert!(asset_allowed(&strings(&["nginx"]), &none, &strings(&["sshd"])));
    assert!(!asset_allowed(&strings(&["sshd"]), &none, &strings(&["ssh*"])));
    assert!(asset_allowed(&strings(&["nginx"]), &strings(&["ngin*"]), &none));
    assert!(!asset_allowed(&strings(&["redis"]), &strings(&["ngin*"]), &none));
    // a unit "ssh" whose package is "openssh-server": excluded via either name
    let both = strings(&["ssh", "openssh-server"]);
    assert!(!asset_allowed(&both, &none, &strings(&["openssh*"])));
    assert!(asset_allowed(&both, &strings(&["openssh*"]), &none));
}

#[test]
fn globs_fit_from_end_to_end() {
    assert!(glob_fits_text("a*b*c", "a-b-b-c"));
    assert!(!glob_fits_text("a*b*c", "a-c"));
    assert!(glob_fits_text("*", ""));
    assert!(glob_fits_text("**", "x"));
    assert!(!glob_fits_text("a*a", "a"));
    assert!(glob_match("NGINX*", "nginx-full"));
    assert!(!glob_fits_text("", "x"));
    assert!(glob_fits_text("", ""));
}

#[test]
fn allowed_assets_are_kept() {
    let mut ssh = pkg_asset("ssh", "9");
    ssh.pkg_name = Some("openssh-server".into());
    let kept = keep_allowed(vec![ssh, pkg_asset("nginx", "1")], &Vec::new(), &strings(&["openssh*"]));
    assert_eq!(kept.len(), 1);
    assert_eq!(kept[0].name, "nginx");
}

fn exposed_nginx() -> BatchResults {
    let mut services: Table<Vec<ThreatEntry>> = Table::new();
    services.insert(
        "nginx@1".to_string(),
        vec![search_to_entry(&parse(r#"{"cveId": "CVE-1", "severity": "medium", "title": "t"}"#))],
    );
    let mut r = results_of(services);
    let mut a = pkg_asset("nginx", "1");
    a.runtime = Some(Runtime {
        pid: None,
        listeners: strings(&["tcp 0.0.0.0:80"]),
        reachability: Reachability::Public,
        exposed: true,
    });
    r.assets = asset_infos(&vec![a]);
    r
}

#[test]
fn gates_by_severity_exploit_and_exposure() {
    let r = exposed_nginx();
    assert!(fail_triggered(&r, FailOn::Any, None));
    assert!(fail_triggered(&r, FailOn::Medium, None));
    assert!(!fail_triggered(&r, FailOn::High, None));
    assert!(!fail_triggered(&r, FailOn::Critical, None));
    assert!(fail_triggered(&r, FailOn::Low, None));
    assert!(!fail_triggered(&r, FailOn::Kev, None));
    assert!(fail_triggered(&r, FailOn::Exposed, None));
    assert!(fail_triggered(&r, FailOn::Exposed, Some(Severity::High)));
    assert!(fail_triggered(&r, FailOn::Any, Some(Severity::High)));
    assert!(!fail_triggered(&results_of(Table::new()), FailOn::Any, None));
    assert_eq!(severity_floor(None), 0);
    assert_eq!(severity_floor(Some(Severity::Critical)), 4);
    assert_eq!(Severity::High.as_api(), "high");
}

#[test]
fn an_exploited_finding_fails_under_any_floor() {
    let mut services: Table<Vec<ThreatEntry>> = Table::new();
    let e = search_to_entry(&parse(r#"{"cveId": "CVE-1", "severity": "low", "kev": {}}"#));
    assert!(e.kev);
    services.insert("a@1".to_string(), vec![e]);
    let r = results_of(services);
    assert!(fail_triggered(&r, FailOn::Any, Some(Severity::High)));
    assert!(fail_triggered(&r, FailOn::Kev, Some(Severity::High)));
    assert!(!fail_triggered(&r, FailOn::Exposed, None));
    assert!(!fail_triggered(&r, FailOn::Medium, None));
}

#[test]
fn paths_of_the_report() {
    assert_eq!(expand_tilde("~/x", Some("/home/me")), "/home/me/x");
    assert_eq!(expand_tilde("~/x", None), "~/x");
    assert_eq!(expand_tilde("/x", Some("/home/me")), "/x");
    assert_eq!(output_path(Some("  \n"), None), "/tmp/threats.json");
    assert_eq!(output_path(None, None), "/tmp/threats.json");
    assert_eq!(output_path(Some(" ~/r.json\n"), Some("/h")), "/h/r.json");
}

// ── Reports ──────────────────────────────────────────────────────────────────

#[test]
fn sarif_is_valid_json_with_runs() {
    let mut services: Table<Vec<ThreatEntry>> = Table::new();
    let mut e = search_to_entry(&parse(
        r#"{ "cveId": "CVE-2024-0001", "title": "x", "severity": "high",
             "kev": true, "references": ["https://e/1"] }"#,
    ));
    e.match_basis = "constraint".to_string();
    services.insert("nginx@1.24.0".to_string(), vec![e]);
    let v = value_of(&to_sarif(&results_of(services)));
    assert_eq!(v["version"].as_str(), Some("2.1.0"));
    assert_eq!(v["runs"][0]["results"][0]["ruleId"].as_str(), Some("CVE-2024-0001"));
    assert_eq!(v["runs"][0]["results"][0]["level"].as_str(), Some("error"));
}

#[test]
fn sarif_rules_carry_the_highest_score() {
    let entry = |score: &str| {
        search_to_entry(&parse(&format!(
            r#"{{"cveId": "CVE-1", "title": "t", "severity": "medium", "cvssScore": {score}}}"#
        )))
    };
    assert_eq!(security_severity(&entry("5.4")).unwrap().shown, "5.4");
    let mut services: Table<Vec<ThreatEntry>> = Table::new();
    services.insert("a@1".to_string(), vec![entry("5.4")]);
    services.insert("b@1".to_string(), vec![entry("9.1")]);
    let v = value_of(&to_sarif(&results_of(services)));
    let rules = v["runs"][0]["tool"]["driver"]["rules"].as_array().unwrap();
    assert_eq!(rules.len(), 1);
    assert_eq!(rules[0]["properties"]["security-severity"].as_str(), Some("9.1"));
    assert_eq!(v["runs"][0]["results"].as_array().unwrap().len(), 2);
    let mut close: Table<Vec<ThreatEntry>> = Table::new();
    close.insert("a@1".to_string(), vec![entry("9.801")]);
    close.insert("b@1".to_string(), vec![entry("9.809")]);
    close.insert("c@1".to_string(), vec![entry("9.8")]);
    let v = value_of(&to_sarif(&results_of(close)));
    let rule = &v["runs"][0]["tool"]["driver"]["rules"][0];
    assert_eq!(rule["properties"]["security-severity"].as_str(), Some("9.809"));
    assert_eq!(level(Some("medium")), "warning");
    assert_eq!(level(Some("low")), "note");
    assert_eq!(level(None), "note");
}

#[test]
fn findings_are_grouped_by_cve() {
    let entry = |sev: &str| {
        search_to_entry(&parse(&format!(r#"{{"cveId": "CVE-1", "severity": "{sev}"}}"#)))
    };
    let mut services: Table<Vec<ThreatEntry>> = Table::new();
    services.insert("b@1".to_string(), vec![entry("high")]);
    services.insert("a@1".to_string(), vec![entry("low"), search_to_entry(&parse("{}"))]);
    let groups: Table<CveGroup> = cve_groups(&services);
    assert_eq!(groups.len(), 1);
    assert_eq!(groups.value(0).assets, strings(&["a@1", "b@1"]));
    let mut r = results_of(services);
    r.compute_cve_groups();
    assert_eq!(r.by_cve.len(), 1);
    assert_eq!(r.total_vulns(), 3);
    let v = value_of(&r.to_json());
    assert_eq!(v["services"]["a@1"].as_array().unwrap().len(), 2);
    assert_eq!(v["meta"]["tool"].as_str(), Some("threat-finder"));
}

#[test]
fn the_summary_of_an_exposed_asset() {
    let lines = print_summary(&exposed_nginx(), false);
    assert_eq!(
        lines,
        strings(&[
            "\nVulnerability summary (highest risk first):",
            "\n  nginx@1 — 1 finding(s)  [PUBLIC tcp 0.0.0.0:80]",
            "      MED   CVE-1  t",
            "\n1 confirmed finding(s) across 1 asset(s); 1 exposed, 0 known-exploited.",
        ])
    );
    assert!(print_summary(&results_of(Table::new()), true).is_empty());
}

#[test]
fn exposed_assets_stand_first_in_the_summary() {
    let mut r = exposed_nginx();
    let entry = || search_to_entry(&parse(r#"{"cveId": "CVE-7", "severity": "low"}"#));
    r.services.insert("a@1".to_string(), vec![entry(), entry(), entry()]);
    let lines = print_summary(&r, false);
    let heads: Vec<&String> = lines.iter().filter(|l| l.contains("finding(s)  [")).collect();
    assert_eq!(heads.len(), 1);
    let place = |key: &str| lines.iter().position(|l| l.contains(key)).unwrap();
    assert!(place("nginx@") < place("a@1 "));
}

#[test]
fn the_highest_risk_stands_first_in_the_summary() {
    let entry = |text: &str| search_to_entry(&parse(text));
    let mut services: Table<Vec<ThreatEntry>> = Table::new();
    let low = || entry(r#"{"cveId": "CVE-7", "severity": "low"}"#);
    services.insert("many@1".to_string(), vec![low(), low(), low()]);
    services.insert("two@1".to_string(), vec![low(), low()]);
    services.insert("kev@1".to_string(), vec![entry(r#"{"severity": "low", "kev": {}}"#)]);
    services.insert("top@1".to_string(), vec![entry(r#"{"severity": "critical"}"#)]);
    let lines = print_summary(&results_of(services), false);
    let heads: Vec<&str> = lines
        .iter()
        .filter(|l| l.contains(" finding(s)") && l.starts_with("\n  "))
        .map(|l| l.trim().split(' ').next().unwrap())
        .collect();
    assert_eq!(heads, vec!["kev@1", "top@1", "many@1", "two@1"]);
}

#[test]
fn the_summary_is_coloured_and_cut() {
    let mut found: Vec<ThreatEntry> = Vec::new();
    for i in 0..7 {
        found.push(search_to_entry(&parse(&format!(
            r#"{{"cveId": "CVE-{i}", "severity": "critical", "kev": true, "slug": "s",
                "fixedVersions": ["2", "3"], "remediation": "Upgrade."}}"#
        ))));
    }
    let mut services: Table<Vec<ThreatEntry>> = Table::new();
    services.insert("x@1".to_string(), found);
    let mut r = results_of(services);
    r.unconfirmed.insert("y@1".to_string(), vec![search_to_entry(&parse("{}"))]);
    let lines = print_summary(&r, true);
    assert_eq!(lines[1], "\n  \u{1b}[1;36mx@1\u{1b}[0m — 7 finding(s)");
    assert_eq!(
        lines[2],
        "      \u{1b}[1;31mCRIT\u{1b}[0m  CVE-0 \u{1b}[1;31m[KEV]\u{1b}[0m    \u{1b}[32m→ fix: 2, 3\u{1b}[0m"
    );
    assert_eq!(lines[3], "            \u{1b}[4;34mhttps://radar.offseq.com/threat/s\u{1b}[0m");
    assert_eq!(lines[4], "            \u{1b}[2mUpgrade.\u{1b}[0m");
    assert!(lines.contains(&"      … and 2 more".to_string()));
    assert_eq!(
        lines[lines.len() - 1],
        "\u{1b}[2m1 coordinate-unconfirmed finding(s) for triage (see \"unconfirmed\" in the report).\u{1b}[0m"
    );
}

#[test]
fn lines_of_the_console() {
    assert_eq!(paint("x", "31", true), "\u{1b}[31mx\u{1b}[0m");
    assert_eq!(paint("x", "31", false), "x");
    assert_eq!(sev_label(None, false), "UNK ");
    assert_eq!(sev_label(Some("Low"), false), "LOW ");
    assert_eq!(total_line(1), "Found 1 vulnerability.");
    assert_eq!(total_line(0), "Found 0 vulnerabilities.");
    assert!(quota_warning(ScanScope::All, 15).is_none());
    assert!(quota_warning(ScanScope::All, 16).is_some());
    assert!(quota_warning(ScanScope::Running, 16).is_none());
    assert!(!found_line(&vec![pkg_asset("x", "1")], ScanScope::All).is_empty());
}
