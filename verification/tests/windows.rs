//! Windows: the system itself, its applications, services and updates, and CPEs.

use find_threats::asset::{Asset, Collector, Ecosystem, Source};
use find_threats::cpe::{
    build_to_feature, clean_app_name, cpe_for_app, cpe_for_os, escape_cpe, is_locale,
    is_trailing_noise, lookup_alias, prefix_word_match, win_os_product,
};
use find_threats::host::{OsType, WinOs};
use find_threats::net::Reachability;
use find_threats::windows::{
    app_asset, detect_win_os, json_payload, lang_asset, os_asset, parse_appx, parse_choco_list,
    parse_dotnet_tools, parse_json_array, parse_npm_list, parse_pip_list, parse_registry_apps,
    parse_scoop_export, sanitize_version, scoop_entries, strip_ansi, winos_from_cv, NamedVersion,
    WinCurrentVersion,
};
use find_threats::windows_scripts::{
    APPX_SCRIPT, DETECT_OS_SCRIPT, LISTENERS_SCRIPT, MISSING_UPDATES_SCRIPT, REGISTRY_APPS_SCRIPT,
    SERVICES_SCRIPT, WINGET_SCRIPT,
};
use find_threats::windows_services::{
    build_service_assets, collect_windows, gather_missing_updates, msrc_rank, parse_missing_updates, parse_netstat,
    running_services, KbField, WinListener, WinService, WindowsCollector, WuaUpdate,
};
use find_threats::winget::{has_readable_rows, parse_winget_list};
use serde_json::Value;

// ── Readers of the JSON that the scripts print ───────────────────────────────

fn text(v: &Value, key: &str) -> Option<String> {
    v.get(key).and_then(|x| x.as_str()).map(|s| s.to_string())
}

fn named(v: &Value, name: &str, version: &str) -> NamedVersion {
    NamedVersion { name: text(v, name), version: text(v, version) }
}

fn entries(raw: &str, name: &str, version: &str) -> Vec<NamedVersion> {
    let payload = match json_payload(raw) {
        Some(p) => p,
        None => return Vec::new(),
    };
    let value: Value = match serde_json::from_str(&payload) {
        Ok(v) => v,
        Err(_) => return Vec::new(),
    };
    let many = value.as_array().map(|a| a.iter().map(|v| named(v, name, version)).collect());
    let one = if value.is_object() { Some(named(&value, name, version)) } else { None };
    parse_json_array(many, one)
}

fn scoop(raw: &str) -> Vec<Asset> {
    let value: Value = serde_json::from_str(raw).unwrap();
    let list = |v: &Value| -> Option<Vec<NamedVersion>> {
        v.as_array().map(|a| a.iter().map(|x| named(x, "Name", "Version")).collect())
    };
    let apps = value.get("apps").and_then(list);
    let bare = list(&value);
    parse_scoop_export(&scoop_entries(apps, bare))
}

fn npm(raw: &str) -> Vec<Asset> {
    let value: Value = match serde_json::from_str(raw) {
        Ok(v) => v,
        Err(_) => return Vec::new(),
    };
    let mut found: Vec<NamedVersion> = Vec::new();
    if let Some(deps) = value.get("dependencies").and_then(|d| d.as_object()) {
        for (name, dep) in deps {
            found.push(NamedVersion { name: Some(name.clone()), version: text(dep, "version") });
        }
    }
    parse_npm_list(&found)
}

fn updates(raw: &str) -> Vec<WuaUpdate> {
    let value: Value = serde_json::from_str(raw).unwrap();
    value
        .as_array()
        .unwrap()
        .iter()
        .map(|v| WuaUpdate {
            title: text(v, "Title"),
            kbs: match v.get("KBs") {
                Some(Value::String(s)) => KbField::One(s.clone()),
                Some(Value::Array(a)) => {
                    KbField::Many(a.iter().map(|x| x.as_str().unwrap().to_string()).collect())
                }
                _ => KbField::Missing,
            },
            severity: text(v, "Severity"),
        })
        .collect()
}

// ── The system ───────────────────────────────────────────────────────────────

#[test]
fn detects_win11_fixing_productname_lie() {
    let cv = WinCurrentVersion {
        product_name: Some("Windows 10 Pro".into()),
        display_version: Some("23H2".into()),
        current_build: Some("22631".into()),
        ubr: Some(3155),
        edition_id: Some("Professional".into()),
        installation_type: Some("Client".into()),
        arch: Some("AMD64".into()),
        ..Default::default()
    };
    let w = winos_from_cv(cv);
    assert_eq!(w.product, "windows_11_23h2");
    assert_eq!(w.display_name, "Windows 11 Pro");
    assert_eq!(w.version_string(), "10.0.22631.3155");
    assert_eq!(w.arch, "x64");
    assert!(!w.is_server);
}

#[test]
fn detects_server_from_installation_type() {
    let cv = WinCurrentVersion {
        product_name: Some("Windows Server 2022 Datacenter".into()),
        display_version: Some("21H2".into()),
        current_build: Some("20348".into()),
        ubr: Some(2227),
        edition_id: Some("ServerDatacenter".into()),
        installation_type: Some("Server".into()),
        arch: Some("AMD64".into()),
        ..Default::default()
    };
    let w = winos_from_cv(cv);
    assert!(w.is_server);
    assert_eq!(w.product, "windows_server_2022");
    assert_eq!(
        cpe_for_os(&w),
        "cpe:2.3:o:microsoft:windows_server_2022:10.0.20348.2227:*:*:*:*:*:x64:*"
    );
}

#[test]
fn a_system_that_tells_nothing() {
    let w = detect_win_os(None);
    assert_eq!(w.build, 0);
    assert!(!w.is_server);
    let a = os_asset(&winos_from_cv(WinCurrentVersion {
        current_build: Some("22631".into()),
        ubr: Some(1),
        ..Default::default()
    }));
    assert_eq!(a.ecosystem, Ecosystem::WindowsOs);
    assert_eq!(a.version, "10.0.22631.1");
    assert!(a.cpe.is_some());
}

// ── Applications ─────────────────────────────────────────────────────────────

#[test]
fn registry_apps_alias_and_search_fallback() {
    let raw = r#"[
      {"DisplayName":"Google Chrome","DisplayVersion":"120.0.6099.130"},
      {"DisplayName":"7-Zip 23.01 (x64)","DisplayVersion":"23.01"},
      {"DisplayName":"Contoso LOB App","DisplayVersion":"1.2.3"}
    ]"#;
    let assets = parse_registry_apps(&entries(raw, "DisplayName", "DisplayVersion"));
    assert_eq!(assets.len(), 3);
    let chrome = assets.iter().find(|a| a.name == "Google Chrome").unwrap();
    assert_eq!(
        chrome.cpe.as_deref(),
        Some("cpe:2.3:a:google:chrome:120.0.6099.130:*:*:*:*:*:*:*")
    );
    let zip = assets.iter().find(|a| a.name == "7-Zip").unwrap();
    assert_eq!(zip.cpe.as_deref(), Some("cpe:2.3:a:7-zip:7-zip:23.01:*:*:*:*:*:*:*"));
    // Unmapped app: no CPE, but still present for the ?search= fallback.
    let lob = assets.iter().find(|a| a.name == "Contoso LOB App").unwrap();
    assert!(lob.cpe.is_none());
}

#[test]
fn registry_single_object_is_tolerated() {
    // PowerShell 5.1 emits a lone item as an object, not a 1-element array.
    let raw = r#"{"DisplayName":"Wireshark","DisplayVersion":"4.2.0"}"#;
    let assets = parse_registry_apps(&entries(raw, "DisplayName", "DisplayVersion"));
    assert_eq!(assets.len(), 1);
    assert_eq!(
        assets[0].cpe.as_deref(),
        Some("cpe:2.3:a:wireshark:wireshark:4.2.0:*:*:*:*:*:*:*")
    );
}

#[test]
fn winget_list_columns_parsed() {
    let out = "\
Name                 Id                        Version      Available  Source
-------------------------------------------------------------------------------
Mozilla Firefox      Mozilla.Firefox           121.0        122.0      winget
7-Zip                7zip.7zip                 23.01                   winget
Some Tool…           Vendor.SomeTool           1.0.0                   winget";
    assert!(has_readable_rows(out));
    let assets = parse_winget_list(out);
    let ff = assets.iter().find(|a| a.name == "Mozilla Firefox").unwrap();
    assert_eq!(ff.version, "121.0");
    assert_eq!(ff.cpe.as_deref(), Some("cpe:2.3:a:mozilla:firefox:121.0:*:*:*:*:*:*:*"));
    let zip = assets.iter().find(|a| a.name == "7-Zip").unwrap();
    assert_eq!(zip.version, "23.01");
}

#[test]
fn appx_uses_last_segment() {
    let raw = r#"[{"Name":"Microsoft.WindowsTerminal","Version":"1.18.0"}]"#;
    let assets = parse_appx(&entries(raw, "Name", "Version"));
    assert_eq!(assets[0].name, "WindowsTerminal");
    assert_eq!(assets[0].version, "1.18.0");
}

#[test]
fn choco_pipe_format() {
    let out = "googlechrome|120.0.6099.130\nvlc|3.0.20\n7zip|23.1.0";
    let assets = parse_choco_list(out);
    assert_eq!(assets.len(), 3);
    let vlc = assets.iter().find(|a| a.name == "vlc").unwrap();
    assert_eq!(
        vlc.cpe.as_deref(),
        Some("cpe:2.3:a:videolan:vlc_media_player:3.0.20:*:*:*:*:*:*:*")
    );
}

#[test]
fn scoop_both_export_shapes() {
    let new_form =
        r#"{"apps":[{"Name":"git","Version":"2.43.0"},{"Name":"curl","Version":"8.5.0"}]}"#;
    assert_eq!(scoop(new_form).len(), 2);
    let old_form = r#"[{"Name":"git","Version":"2.43.0"}]"#;
    assert_eq!(scoop(old_form).len(), 1);
}

#[test]
fn npm_global_to_purl() {
    let out = r#"{"dependencies":{"npm":{"version":"10.2.3"},"typescript":{"version":"5.3.3"}}}"#;
    let assets = npm(out);
    assert_eq!(assets.len(), 2);
    let ts = assets.iter().find(|a| a.name == "typescript").unwrap();
    assert_eq!(ts.ecosystem, Ecosystem::Npm);
    assert!(ts.cpe.is_none());
}

#[test]
fn pip_json_to_pypi() {
    let out = r#"[{"name":"Django","version":"4.2.0"},{"name":"requests","version":"2.31.0"}]"#;
    let assets = parse_pip_list(&entries(out, "name", "version"));
    assert_eq!(assets.len(), 2);
    assert_eq!(assets[0].ecosystem, Ecosystem::PyPI);
}

#[test]
fn dotnet_tools_columns() {
    let out = "\
Package Id      Version      Commands
------------------------------------------
dotnet-ef       8.0.0        dotnet-ef
nbgv            3.6.133      nbgv";
    let assets = parse_dotnet_tools(out);
    assert_eq!(assets.len(), 2);
    assert_eq!(assets[0].name, "dotnet-ef");
    assert_eq!(assets[0].ecosystem, Ecosystem::NuGet);
}

#[test]
fn empty_and_null_payloads_are_safe() {
    assert!(parse_registry_apps(&entries("", "DisplayName", "DisplayVersion")).is_empty());
    assert!(parse_registry_apps(&entries("null", "DisplayName", "DisplayVersion")).is_empty());
    assert!(npm("not json").is_empty());
    assert!(parse_winget_list("").is_empty());
}

#[test]
fn assets_of_applications() {
    let a = app_asset(Ecosystem::WinApp, "Git version 2.43.0", "2.43.0 (x)", "scoop").unwrap();
    assert_eq!((a.name.as_str(), a.version.as_str()), ("Git", "2.43.0"));
    assert_eq!(a.sources, vec![Source::PackageDb]);
    assert!(app_asset(Ecosystem::WinApp, "   ", "1.0", "scoop").is_none());
    let l = lang_asset(Ecosystem::Npm, "npm", "10.2.3");
    assert_eq!((l.name.as_str(), l.pkg_name.as_deref()), ("npm", Some("npm")));
}

#[test]
fn a_table_without_a_heading_lists_nothing() {
    assert!(has_readable_rows("no table at all"));
    assert!(parse_winget_list("no table at all").is_empty());
    // columns out of order, and no row that reaches the names
    let short = "Version Name\n------------\n1.0\n";
    assert!(has_readable_rows(short));
    assert!(parse_winget_list(short).is_empty());
    assert!(!has_readable_rows("Version Name\n1.0     tool\n"));
}

// ── Services ─────────────────────────────────────────────────────────────────

fn listener(address: &str, port: u32, pid: u32) -> WinListener {
    WinListener {
        local_address: Some(address.to_string()),
        local_port: Some(port),
        owning_process: Some(pid),
    }
}

fn web_and_shared() -> Vec<WinService> {
    vec![
        WinService {
            name: Some("W3SVC".into()),
            display: Some("World Wide Web Publishing Service".into()),
            exe: Some(r"C:\Windows\System32\inetsrv\w3wp.exe".into()),
            pid: Some(1234),
            version: Some("10.0.0".into()),
        },
        WinService {
            name: Some("SharedSvc".into()),
            display: Some("Some Shared Svc".into()),
            exe: Some(r"C:\Windows\System32\svchost.exe".into()),
            pid: Some(900),
            version: None,
        },
    ]
}

#[test]
fn service_exposure_joins_by_pid_and_skips_svchost() {
    let services = web_and_shared();
    let listeners = vec![listener("0.0.0.0", 443, 1234), listener("::", 80, 900)];
    let assets = build_service_assets(&services, &listeners);
    // svchost is dropped.
    assert_eq!(assets.len(), 1);
    let web = &assets[0];
    let rt = web.runtime.as_ref().unwrap();
    assert!(rt.exposed);
    assert_eq!(rt.reachability, Reachability::Public);
    assert!(rt.listeners.iter().any(|l| l.contains("443")));
}

#[test]
fn netstat_stands_in_for_the_listeners() {
    let out = "  TCP    127.0.0.1:8080   0.0.0.0:0   LISTENING   1234\n";
    let found = running_services(&web_and_shared(), Vec::new(), Some(out));
    let rt = found[0].runtime.as_ref().unwrap();
    assert_eq!(rt.reachability, Reachability::Loopback);
    let listed = running_services(&web_and_shared(), vec![listener("0.0.0.0", 1, 1234)], Some(out));
    assert_eq!(listed[0].runtime.as_ref().unwrap().reachability, Reachability::Public);
}

#[test]
fn netstat_fallback_parsed() {
    let out = "\
Active Connections

  Proto  Local Address          Foreign Address        State           PID
  TCP    0.0.0.0:135            0.0.0.0:0              LISTENING       1234
  TCP    [::]:445               [::]:0                LISTENING       4
  TCP    192.168.1.5:50012      93.184.216.34:443     ESTABLISHED     5678
  UDP    0.0.0.0:5353           *:*                                   900";
    let l = parse_netstat(out);
    // Only the two TCP LISTENING rows.
    assert_eq!(l.len(), 2);
    assert_eq!(l[0].local_port, Some(135));
    assert_eq!(l[0].owning_process, Some(1234));
    assert_eq!(l[1].local_address.as_deref(), Some("::"));
    assert_eq!(l[1].local_port, Some(445));
}

#[test]
fn only_a_full_scan_lists_applications() {
    let w = detect_win_os(None);
    let app = || vec![lang_asset(Ecosystem::Npm, "npm", "1")];
    assert_eq!(collect_windows(&w, false, app(), app(), app()).len(), 2);
    assert_eq!(collect_windows(&w, true, app(), app(), app()).len(), 4);
    let c = WindowsCollector { full: true, services: app(), apps: app(), packages: Vec::new() };
    assert_eq!(c.collect(&OsType::Windows(detect_win_os(None))).len(), 3);
    let c = WindowsCollector { full: true, services: app(), apps: app(), packages: Vec::new() };
    assert!(c.collect(&OsType::MacOs).is_empty());
}

// ── Updates ──────────────────────────────────────────────────────────────────

#[test]
fn missing_updates_parsed_and_ranked() {
    let raw = r#"[
      {"Title":"2024-01 Cumulative Update","KBs":["5034441"],"Severity":"Important"},
      {"Title":"Critical Security Update","KBs":"5034123","Severity":"Critical"},
      {"Title":"Defender Update","KBs":[],"Severity":""}
    ]"#;
    let ups = parse_missing_updates(updates(raw));
    assert_eq!(ups.len(), 3);
    // Critical sorts first; the scalar KB string is normalized to a vec.
    assert_eq!(ups[0].severity, "Critical");
    assert_eq!(ups[0].kbs, vec!["5034123".to_string()]);
    assert_eq!(ups[1].kbs, vec!["5034441".to_string()]);
}

#[test]
fn updates_of_one_rank_keep_their_order() {
    let raw = r#"[
      {"Title":"a","KBs":null,"Severity":"Low"},
      {"Title":"b","KBs":"","Severity":"low"},
      {"Title":"c","Severity":"Moderate"}
    ]"#;
    let ups = parse_missing_updates(updates(raw));
    let titles: Vec<&str> = ups.iter().map(|u| u.title.as_str()).collect();
    assert_eq!(titles, vec!["c", "a", "b"]);
    assert!(ups[0].kbs.is_empty() && ups[1].kbs.is_empty());
    assert_eq!(ups[2].kbs, vec!["".to_string()]);
    assert!(msrc_rank("critical") > msrc_rank("Important"));
    assert_eq!(msrc_rank(""), msrc_rank("unheard of"));
}

#[test]
fn no_updates_where_the_script_did_not_run() {
    assert!(gather_missing_updates(None).is_empty());
    let found = updates(r#"[{"Title":"a"},{"Severity":"Critical"},{"Title":"b","Severity":"Low"}]"#);
    let titles: Vec<String> =
        gather_missing_updates(Some(found)).into_iter().map(|u| u.title).collect();
    assert_eq!(titles, vec!["b", "a"]);
}

// ── Texts ────────────────────────────────────────────────────────────────────

#[test]
fn version_sanitization() {
    assert_eq!(sanitize_version("10.0.19041.1 (WinBuild.160101.0800)"), "10.0.19041.1");
    assert_eq!(sanitize_version("6,0,0,0"), "6.0.0.0");
    assert_eq!(sanitize_version("  3.0.20  "), "3.0.20");
    assert_eq!(sanitize_version("23.01"), "23.01");
    assert_eq!(sanitize_version("1.2.3-rc1"), "1.2.3-rc1");
    // No numeric prefix → returned trimmed, unmangled.
    assert_eq!(sanitize_version("unknown"), "unknown");
}

#[test]
fn a_version_without_a_number_is_only_trimmed() {
    assert_eq!(sanitize_version(" unknown build "), "unknown build");
    assert_eq!(sanitize_version("a,b c"), "a,b c");
    assert_eq!(sanitize_version("  "), "");
    assert_eq!(sanitize_version("-1.2- x"), "1.2");
}

#[test]
fn ansi_is_stripped() {
    let s = "\u{1b}[2K\u{1b}[31mName\u{1b}[0m\r\nfoo";
    assert_eq!(strip_ansi(s), "Name\nfoo");
}

#[test]
fn commands_to_the_console_are_stripped() {
    assert_eq!(strip_ansi("\u{1b}]0;t\u{7}x"), "x");
    assert_eq!(strip_ansi("a\u{1b}]0;t\u{1b}\\x"), "ax");
    assert_eq!(strip_ansi("a\u{1b}]8;;u\u{1b}b\u{7}c\u{1b}]0;t"), "ac");
    assert_eq!(strip_ansi("x\u{1b}[1;31my\r"), "xy");
}

#[test]
fn the_payload_without_space() {
    assert_eq!(json_payload(" [1]\n").as_deref(), Some("[1]"));
    assert_eq!(json_payload(""), None);
    assert_eq!(json_payload("null"), None);
}

#[test]
fn scripts_are_nonempty() {
    for s in [
        DETECT_OS_SCRIPT,
        REGISTRY_APPS_SCRIPT,
        WINGET_SCRIPT,
        APPX_SCRIPT,
        SERVICES_SCRIPT,
        LISTENERS_SCRIPT,
        MISSING_UPDATES_SCRIPT,
    ] {
        assert!(!s.is_empty());
    }
}

// ── CPEs ─────────────────────────────────────────────────────────────────────

#[test]
fn escapes_formatted_string_specials() {
    assert_eq!(escape_cpe("notepad++"), "notepad\\+\\+");
    assert_eq!(escape_cpe("node.js"), "node.js");
    assert_eq!(escape_cpe("7-zip"), "7-zip");
    assert_eq!(escape_cpe("vlc media player"), "vlc_media_player");
    assert_eq!(escape_cpe("a:b/c@d"), "a\\:b\\/c\\@d");
}

#[test]
fn cleans_display_names() {
    assert_eq!(clean_app_name("7-Zip 23.01 (x64)"), "7-Zip");
    assert_eq!(clean_app_name("Mozilla Firefox (x64 en-US)"), "Mozilla Firefox");
    assert_eq!(clean_app_name("Python 3.12.1 (64-bit)"), "Python");
    assert_eq!(clean_app_name("Google Chrome"), "Google Chrome");
    assert_eq!(clean_app_name("Microsoft Visual Studio Code"), "Microsoft Visual Studio Code");
    assert_eq!(clean_app_name("Git version 2.43.0"), "Git");
    assert_eq!(clean_app_name("VLC media player 3.0.20"), "VLC media player");
}

#[test]
fn only_brackets_at_the_end_are_dropped() {
    assert_eq!(clean_app_name("Contoso (Beta) Suite"), "Contoso (Beta) Suite");
    assert_eq!(clean_app_name("Contoso (Beta) Suite 2.1 (x64) (KB123)"), "Contoso (Beta) Suite");
    assert_eq!(clean_app_name("Contoso (x64) - 14.38"), "Contoso");
    assert_eq!(clean_app_name("Contoso(x64)"), "Contoso");
    assert_eq!(clean_app_name("Contoso (a (b) c)"), "Contoso");
    assert_eq!(clean_app_name("Contoso (not closed"), "Contoso");
    assert_eq!(clean_app_name("Contoso a) b"), "Contoso a) b");
    assert_eq!(clean_app_name(" 1.2  x64 "), "1.2 x64");
    assert_eq!(clean_app_name("(x64)"), "");
}

#[test]
fn app_cpe_from_alias() {
    assert_eq!(
        cpe_for_app("Google Chrome", "120.0.6099.130"),
        Some("cpe:2.3:a:google:chrome:120.0.6099.130:*:*:*:*:*:*:*".into())
    );
    assert_eq!(
        cpe_for_app("Notepad++", "8.6.2"),
        Some("cpe:2.3:a:notepad-plus-plus:notepad\\+\\+:8.6.2:*:*:*:*:*:*:*".into())
    );
    assert_eq!(
        cpe_for_app("7-Zip", "23.01"),
        Some("cpe:2.3:a:7-zip:7-zip:23.01:*:*:*:*:*:*:*".into())
    );
    // Empty version → ANY in the version field.
    assert_eq!(
        cpe_for_app("Wireshark", ""),
        Some("cpe:2.3:a:wireshark:wireshark:*:*:*:*:*:*:*:*".into())
    );
}

fn parts_of(cpe: &str) -> Vec<String> {
    let mut parts = vec![String::new()];
    let mut escapes = false;
    for c in cpe.chars() {
        if c == ':' && !escapes {
            parts.push(String::new());
        } else {
            parts.last_mut().unwrap().push(c);
        }
        escapes = c == '\\' && !escapes;
    }
    parts
}

#[test]
fn a_cpe_has_thirteen_parts() {
    let parts = parts_of(&cpe_for_app("Notepad++", "8:6\\:B *").unwrap());
    assert_eq!(parts.len(), 13);
    assert_eq!(parts[4], "notepad\\+\\+");
    assert_eq!(parts[5], "8\\:6\\\\\\:b_\\*");
    assert_eq!(parts[12], "*");
    assert_eq!(parts_of(&cpe_for_app("Notepad++", "  ").unwrap())[5], "*");
    let os = WinOs { product: "a:b".to_string(), arch: "x64".to_string(), ..WinOs::default() };
    let parts = parts_of(&cpe_for_os(&os));
    assert_eq!(parts.len(), 13);
    assert_eq!(parts[4], "a\\:b");
    assert_eq!(parts[11], "x64");
}

#[test]
fn cleaning_a_name_twice_changes_nothing() {
    for raw in ["7-Zip 23.01 (x64)", " Git  version 2.43.0", "x64 1.2", "Contoso (Beta) Suite 1.0", ""] {
        let once = clean_app_name(raw);
        assert_eq!(clean_app_name(&once), once);
    }
}

#[test]
fn unmapped_app_returns_none() {
    assert_eq!(cpe_for_app("Some Internal LOB Tool", "1.0"), None);
    // Word boundary: a more specific product must not be shadowed by "git".
    assert_eq!(cpe_for_app("GitHub Desktop", "3.3.6"), None);
}

#[test]
fn longest_alias_wins() {
    // "Mozilla Firefox ESR" must beat the "Mozilla Firefox" prefix.
    assert_eq!(
        cpe_for_app("Mozilla Firefox ESR", "115.6.0"),
        Some("cpe:2.3:a:mozilla:firefox_esr:115.6.0:*:*:*:*:*:*:*".into())
    );
}

#[test]
fn os_product_tokens() {
    assert_eq!(win_os_product(22631, false, "23H2"), "windows_11_23h2");
    assert_eq!(win_os_product(19045, false, "22H2"), "windows_10_22h2");
    assert_eq!(win_os_product(19045, false, ""), "windows_10_22h2"); // build fallback
    assert_eq!(win_os_product(20348, true, ""), "windows_server_2022");
    assert_eq!(win_os_product(17763, true, ""), "windows_server_2019");
    assert_eq!(win_os_product(26100, true, ""), "windows_server_2025");
    assert_eq!(win_os_product(22000, false, ""), "windows_11_21h2");
}

#[test]
fn os_cpe_full_string() {
    let w = WinOs {
        product: "windows_11_23h2".into(),
        display_name: "Windows 11 Pro".into(),
        feature: "23H2".into(),
        build: 22631,
        ubr: 3155,
        is_server: false,
        edition: "Professional".into(),
        arch: "x64".into(),
    };
    assert_eq!(
        cpe_for_os(&w),
        "cpe:2.3:o:microsoft:windows_11_23h2:10.0.22631.3155:*:*:*:*:*:x64:*"
    );
}

#[test]
fn aliases_match_whole_words() {
    assert!(prefix_word_match("git for windows", "git"));
    assert!(!prefix_word_match("github", "git"));
    assert!(prefix_word_match("git", "git"));
    assert_eq!(lookup_alias("Google Chrome"), Some(("google", "chrome")));
    assert!(is_locale("en-US"));
    assert!(!is_locale("english"));
    assert!(is_trailing_noise("(x64)"));
    assert!(is_trailing_noise("2.43.0"));
    assert!(!is_trailing_noise("Code"));
    assert_eq!(build_to_feature(19045), "22h2");
}
