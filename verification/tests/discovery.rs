//! What runs on a host: its services, their versions and the sockets they listen on.

use find_threats::host::{
    detect_linux_distro, detect_os, gather_system_info, os_label, os_release_field,
    parse_linux_distro_version, DistroMarkers, LinuxDistro, OsType,
};
use find_threats::net::{
    any_endpoint_is_exposed, endpoint_host, endpoint_is_exposed, endpoint_reachability,
    format_ipv4, format_ipv6, parse_ipv4, parse_ipv6, parse_proc_addr, widest_reach, Reachability,
};
use find_threats::probe::{
    extract_version, looks_like_real_version, may_run, probe_version, version_flags, Run,
};
use find_threats::scanners::{
    binary_basename, friendly_label, launchd_exe, launchd_name, macos_relevant_path,
    parse_enabled, parse_launchctl_running, parse_started, parse_svcs_online,
    parse_sysvinit_running, says_running, scan_services, smf_absolute, smf_command, smf_display,
    Scanner,
};
use find_threats::services::{
    active_service, binary_candidates, daemon_alias, enrich_exposure, exec_start_path,
    first_present, live_pid, make_service, normalize_service_name, resolve_binary, resolve_exe,
    service_from_name, strip_instance, systemd_paths, unit_entry, version_for_binary,
    VersionSource,
};
use find_threats::sockets::{
    linux_listeners, linux_tcp_listeners, listening_endpoints, lsof_listeners, lsof_names,
    lsof_tcp_listeners, proc_socket_inodes, ProcTables,
};
use std::path::Path;

fn strings(v: &[&str]) -> Vec<String> {
    v.iter().map(|s| s.to_string()).collect()
}

// ── Services ─────────────────────────────────────────────────────────────────

#[test]
fn main_friendly_label_extraction() {
    assert_eq!(friendly_label("homebrew.mxcl.postgresql").as_deref(), Some("postgresql"));
    assert_eq!(friendly_label("org.postgresql.postgres").as_deref(), Some("postgres"));
    assert_eq!(friendly_label("com.apple.WindowServer").as_deref(), Some("WindowServer"));
}

#[test]
fn engine_friendly_label_extraction() {
    assert_eq!(friendly_label("homebrew.mxcl.postgresql").as_deref(), Some("postgresql"));
    assert_eq!(friendly_label("org.postgresql.postgres").as_deref(), Some("postgres"));
    assert_eq!(friendly_label("com.apple.WindowServer").as_deref(), Some("WindowServer"));
}

#[test]
fn main_strip_instance_and_normalize() {
    assert_eq!(strip_instance("postgresql@15-main"), "postgresql");
    assert_eq!(strip_instance("nginx"), "nginx");
    assert_eq!(normalize_service_name("ssh"), "openssh");
    assert_eq!(normalize_service_name(&strip_instance("ssh@foo")), "openssh");
}

#[test]
fn engine_strip_instance_and_normalize() {
    assert_eq!(strip_instance("postgresql@15-main"), "postgresql");
    assert_eq!(strip_instance("nginx"), "nginx");
    assert_eq!(normalize_service_name("ssh"), "openssh");
    assert_eq!(normalize_service_name(&strip_instance("ssh@foo")), "openssh");
}

fn resolve(name: &str) -> Option<String> {
    let path_env = "/usr/local/bin:relative:/usr/bin:/bin";
    let there: Vec<bool> =
        binary_candidates(name, path_env).iter().map(|p| Path::new(p).is_file()).collect();
    resolve_binary(name, path_env, &there)
}

#[test]
fn main_resolve_binary_finds_real_tool_and_rejects_garbage() {
    // `sh` exists in /bin on every unix
    let sh = resolve("sh").expect("sh should resolve");
    assert!(sh.starts_with('/') && Path::new(&sh).is_file());
    assert_eq!(resolve("definitely-not-a-real-binary-xyz"), None);
}

#[test]
fn engine_resolve_binary_finds_real_tool_and_rejects_garbage() {
    let sh = resolve("sh").expect("sh should resolve");
    assert!(sh.starts_with('/') && Path::new(&sh).is_file());
    assert_eq!(resolve("definitely-not-a-real-binary-xyz"), None);
}

#[test]
fn main_run_timed_refuses_non_absolute() {
    // bare name must be refused (PATH-hijack guard), even though `sh` exists
    assert!(!may_run("sh", true));
}

#[test]
fn engine_run_timed_refuses_non_absolute() {
    assert!(!may_run("sh", true));
    assert!(!may_run("/bin/sh", false));
    assert!(may_run("/bin/sh", true));
}

#[test]
fn parse_launchctl_fixture() {
    let out = "PID\tStatus\tLabel\n\
               653\t0\thomebrew.mxcl.nginx\n\
               -\t0\tcom.example.stopped\n\
               42\t0\tcom.apple.something\n\
               88\t0\torg.postgresql.postgres\n";
    assert_eq!(
        parse_launchctl_running(out),
        vec![
            ("homebrew.mxcl.nginx".to_string(), "653".to_string()),
            ("org.postgresql.postgres".to_string(), "88".to_string()),
        ]
    );
}

#[test]
fn parse_sysvinit_fixture() {
    let out = " [ + ]  ssh\n [ - ]  cups\n nginx        [ started ]\n [ ? ]  weird\n";
    assert_eq!(parse_sysvinit_running(out), vec!["ssh".to_string(), "nginx".to_string()]);
}

#[test]
fn parse_svcs_fixture() {
    let out = "online\tsvc:/network/ssh:default\n\
               disabled\tsvc:/network/telnet:default\n\
               online\tsvc:/system/system-log:default\n";
    assert_eq!(
        parse_svcs_online(out),
        vec![
            "svc:/network/ssh:default".to_string(),
            "svc:/system/system-log:default".to_string(),
        ]
    );
}

#[test]
fn candidates_stand_in_the_safe_directories_first() {
    let found = binary_candidates("ssh", "bin:/opt/x/bin");
    assert!(found.iter().all(|p| p.starts_with('/')));
    assert_eq!(found[0], format!("{}/sshd", found[0].rsplit_once('/').unwrap().0));
    let n: usize = found.len();
    assert_eq!(found[n - 2], "/opt/x/bin/sshd");
    assert_eq!(found[n - 1], "/opt/x/bin/sshdd");
    assert_eq!(binary_candidates("/usr/sbin/nginx -g x", ""), strings(&["/usr/sbin/nginx"]));
    assert!(binary_candidates("dir/", "").is_empty());
    assert_eq!(daemon_alias("ssh"), "sshd");
    assert_eq!(daemon_alias("nginx"), "nginx");
}

#[test]
fn the_first_path_that_is_there() {
    let paths = strings(&["/a", "/b", "/c"]);
    assert_eq!(first_present(&paths, &vec![false, true, true]).as_deref(), Some("/b"));
    assert_eq!(first_present(&paths, &vec![false, false, false]), None);
}

#[test]
fn a_version_is_taken_from_the_package_first() {
    let owner = Some(("nginx".to_string(), "1.22.1-9".to_string()));
    let known = version_for_binary(owner, Some("1.0".to_string())).unwrap();
    assert_eq!(known, (Some("nginx".to_string()), "1.22.1-9".to_string(), VersionSource::PackageDb));
    let probed = version_for_binary(None, Some("1.0".to_string())).unwrap();
    assert_eq!(probed, (None, "1.0".to_string(), VersionSource::Probe));
    assert!(version_for_binary(None, None).is_none());
}

#[test]
fn services_are_exposed_by_what_they_listen_on() {
    let known = || Some((None, "1.0".to_string(), VersionSource::Probe));
    let mut found = vec![
        make_service("a", "/bin/a", Some(7), known()).unwrap(),
        service_from_name("b", Some("/bin/b"), known()).unwrap(),
    ];
    assert!(make_service("a", "/bin/a", None, None).is_none());
    assert!(service_from_name("b", None, known()).is_none());
    enrich_exposure(&mut found, vec![strings(&["tcp 0.0.0.0:80", "tcp 127.0.0.1:81"]), Vec::new()]);
    assert!(found[0].exposed);
    assert_eq!(found[0].reach, Reachability::Public);
    assert_eq!(found[0].listeners, strings(&["tcp 0.0.0.0:80", "tcp 127.0.0.1:81"]));
    assert!(!found[1].exposed);
    assert_eq!(found[1].reach, Reachability::Closed);
}

#[test]
fn systemd_units() {
    assert_eq!(active_service("nginx.service", "active").as_deref(), Some("nginx"));
    assert_eq!(active_service("nginx.service", "inactive"), None);
    assert_eq!(active_service("nginx.socket", "active"), None);
    assert_eq!(live_pid(Some(0)), None);
    assert_eq!(live_pid(Some(12)), Some(12));
    assert_eq!(
        exec_start_path(r#"a(sasbttttuii) 1 "/usr/sbin/nginx" 3 "/usr/sbin/nginx" "-g""#).as_deref(),
        Some("/usr/sbin/nginx")
    );
    assert_eq!(exec_start_path("nothing here"), None);
    assert!(systemd_paths("systemd-journald.service").iter().all(|p| p.starts_with('/')));
    assert_eq!(
        resolve_exe("nginx.service", Some(12), Some("/usr/sbin/nginx (deleted)"), None, None),
        Some(("/usr/sbin/nginx".to_string(), Some(12)))
    );
    assert_eq!(
        resolve_exe("nginx.service", None, None, Some("/usr/sbin/nginx"), None),
        Some(("/usr/sbin/nginx".to_string(), None))
    );
    assert!(unit_entry("x", "/bin/true", None).is_none());
    assert_eq!(unit_entry("x", "/bin/x", Some(3)).unwrap().pid, Some(3));
}

#[test]
fn other_service_managers() {
    assert!(macos_relevant_path("/opt/homebrew/bin/nginx"));
    assert!(macos_relevant_path("/usr/local/bin/nginx"));
    assert!(!macos_relevant_path("/usr/sbin/sshd"));
    assert!(!macos_relevant_path("/System/Library/x"));
    assert_eq!(binary_basename("/usr/sbin/nginx"), "nginx");
    assert_eq!(launchd_exe(" /opt/homebrew/bin/nginx\n").as_deref(), Some("/opt/homebrew/bin/nginx"));
    assert_eq!(launchd_exe("nginx"), None);
    assert_eq!(launchd_name(Some("f".to_string()), "a.b", "/bin/x"), "f");
    assert_eq!(launchd_name(None, "a.b", "/bin/x"), "b");
    assert_eq!(parse_enabled("/etc/rc.d/sshd\n/etc/rc.d/cron\n\n"), strings(&["sshd", "cron"]));
    assert!(says_running("nginx is Running as pid 3."));
    assert!(!says_running("nginx is stopped"));
    assert_eq!(parse_started(" sshd \n\nhttpd\n"), strings(&["sshd", "httpd"]));
    assert_eq!(smf_absolute("start /lib/svc/method/sshd x").as_deref(), Some("/lib/svc/method/sshd"));
    assert_eq!(smf_absolute("start"), None);
    assert_eq!(smf_command("sshd start"), "sshd");
    assert_eq!(smf_command(""), "");
    assert_eq!(smf_display("svc:/network/ssh:default"), "ssh");
}

#[test]
fn each_system_has_its_scanner() {
    let linux = OsType::Linux(LinuxDistro::Debian);
    assert_eq!(scan_services(&linux, 3), Scanner::Systemd);
    assert_eq!(scan_services(&linux, 0), Scanner::SysvInit);
    assert_eq!(scan_services(&OsType::MacOs, 0), Scanner::Launchctl);
    assert_eq!(scan_services(&OsType::OpenBsd, 0), Scanner::OpenBsd);
    assert_eq!(scan_services(&OsType::Solaris, 0), Scanner::Smf);
    assert_eq!(scan_services(&OsType::Unsupported("x".to_string()), 0), Scanner::Unsupported);
}

// ── Versions that programs print ─────────────────────────────────────────────

#[test]
fn versions_that_programs_print() {
    assert_eq!(extract_version("nginx version: nginx/1.22.1\n").as_deref(), Some("1.22.1"));
    assert_eq!(extract_version("error: bad\nfoo v2.3.4-rc1\n").as_deref(), Some("2.3.4-rc1"));
    assert_eq!(extract_version("Copyright 2.0 me\n"), None);
    assert_eq!(extract_version("no digits"), None);
    assert!(!looks_like_real_version(""));
    assert!(!looks_like_real_version("2024"));
    assert!(looks_like_real_version("2101"));
    assert!(looks_like_real_version("2024.1"));
}

#[test]
fn what_a_run_tells() {
    let run = |success: bool, stdout: &str, stderr: &str| {
        Some(Run { success, stdout: stdout.to_string(), stderr: stderr.to_string() })
    };
    assert_eq!(probe_version("/bin/foo", &run(true, "foo 1.2", "9.9")).as_deref(), Some("1.2"));
    assert_eq!(probe_version("/bin/foo", &run(true, "", "foo 9.9")).as_deref(), Some("9.9"));
    assert_eq!(probe_version("/bin/foo", &run(false, "foo 1.2", "foo 9.9")).as_deref(), Some("9.9"));
    assert_eq!(probe_version("/bin/foo", &run(false, "foo 1.2", "bar 9.9")), None);
    assert_eq!(probe_version("/bin/foo", &None), None);
    assert_eq!(version_flags(), strings(&["--version", "-V", "-v", "version"]));
}

// ── Sockets ──────────────────────────────────────────────────────────────────

#[test]
fn endpoint_exposure_classification() {
    assert!(endpoint_is_exposed("0.0.0.0:443"));
    assert!(endpoint_is_exposed("[::]:443"));
    assert!(endpoint_is_exposed("192.168.1.5:22"));
    assert!(!endpoint_is_exposed("127.0.0.1:8080"));
    assert!(!endpoint_is_exposed("[::1]:631"));
}

#[test]
fn reachability_classification() {
    assert_eq!(endpoint_reachability("tcp 0.0.0.0:443"), Reachability::Public);
    assert_eq!(endpoint_reachability("[::]:443"), Reachability::Public);
    assert_eq!(endpoint_reachability("203.0.113.5:22"), Reachability::Public);
    assert_eq!(endpoint_reachability("192.168.1.5:22"), Reachability::Private);
    assert_eq!(endpoint_reachability("10.0.0.9:5432"), Reachability::Private);
    assert_eq!(endpoint_reachability("udp 100.64.0.1:53"), Reachability::Private);
    assert_eq!(endpoint_reachability("127.0.0.1:8080"), Reachability::Loopback);
    assert_eq!(endpoint_reachability("[::1]:631"), Reachability::Loopback);
    // IPv4-mapped IPv6 must classify by the embedded v4 (not fall to Public).
    assert_eq!(endpoint_reachability("[::ffff:127.0.0.1]:8080"), Reachability::Loopback);
    assert_eq!(endpoint_reachability("[::ffff:192.168.1.1]:443"), Reachability::Private);
    assert_eq!(endpoint_reachability("[::ffff:203.0.113.5]:443"), Reachability::Public);
    assert!(
        Reachability::Public > Reachability::Private
            && Reachability::Private > Reachability::Loopback
            && Reachability::Loopback > Reachability::Closed
    );
}

#[test]
fn main_proc_addr_parsing() {
    // little-endian hex 0100007F = 127.0.0.1, port 0x1F90 = 8080
    assert_eq!(parse_proc_addr("0100007F:1F90", false).as_deref(), Some("127.0.0.1:8080"));
    // 0.0.0.0:443
    assert_eq!(parse_proc_addr("00000000:01BB", false).as_deref(), Some("0.0.0.0:443"));
}

#[test]
fn engine_proc_addr_parsing() {
    assert_eq!(parse_proc_addr("0100007F:1F90", false).as_deref(), Some("127.0.0.1:8080"));
    assert_eq!(parse_proc_addr("00000000:01BB", false).as_deref(), Some("0.0.0.0:443"));
}

#[test]
fn proc_addresses_of_the_sixth_version() {
    assert_eq!(
        parse_proc_addr("00000000000000000000000001000000:0277", true).as_deref(),
        Some("[::1]:631")
    );
    assert_eq!(
        parse_proc_addr("0000000000000000FFFF00000100007F:1F90", true).as_deref(),
        Some("[::ffff:127.0.0.1]:8080")
    );
    assert_eq!(parse_proc_addr("0100007F:1F90", true), None);
    assert_eq!(parse_proc_addr("0100007F", false), None);
    assert_eq!(parse_proc_addr("xyz:1F90", false), None);
}

#[test]
fn addresses_are_read_and_written() {
    assert_eq!(parse_ipv4("192.168.1.5"), Some(vec![192, 168, 1, 5]));
    assert_eq!(parse_ipv4("192.168.1.256"), None);
    assert_eq!(parse_ipv4("192.168.1"), None);
    assert_eq!(parse_ipv4("01.2.3.4"), None);
    assert_eq!(format_ipv4(&vec![10, 0, 0, 9]), "10.0.0.9");
    assert_eq!(parse_ipv6("2001:db8::1"), Some(vec![0x2001, 0xdb8, 0, 0, 0, 0, 0, 1]));
    assert_eq!(parse_ipv6("::"), Some(vec![0, 0, 0, 0, 0, 0, 0, 0]));
    assert_eq!(parse_ipv6("1::2::3"), None);
    assert_eq!(format_ipv6(&vec![0x2001, 0xdb8, 0, 0, 1, 0, 0, 1]), "2001:db8::1:0:0:1");
    assert_eq!(endpoint_host("tcp [fe80::1%eth0]:22"), "fe80::1%eth0");
    assert_eq!(endpoint_reachability("[fe80::1]:22"), Reachability::Private);
    // an address that cannot be read counts as reachable from anywhere
    assert_eq!(endpoint_reachability("[fe80::1%eth0]:22"), Reachability::Public);
}

#[test]
fn addresses_that_are_accepted_and_refused() {
    let accepted: &[(&str, [u16; 8], &str)] = &[
        ("1::", [1, 0, 0, 0, 0, 0, 0, 0], "1::"),
        ("1:2:3:4:5:6:7:8", [1, 2, 3, 4, 5, 6, 7, 8], "1:2:3:4:5:6:7:8"),
        ("::ffff:1.2.3.4", [0, 0, 0, 0, 0, 0xffff, 0x102, 0x304], "::ffff:1.2.3.4"),
        ("64:ff9b::1.2.3.4", [0x64, 0xff9b, 0, 0, 0, 0, 0x102, 0x304], "64:ff9b::102:304"),
        ("1:0:0:2::3", [1, 0, 0, 2, 0, 0, 0, 3], "1:0:0:2::3"),
        ("0:0:1:0:0:0:1:1", [0, 0, 1, 0, 0, 0, 1, 1], "0:0:1::1:1"),
        ("1:2:3:4:5:6:7::", [1, 2, 3, 4, 5, 6, 7, 0], "1:2:3:4:5:6:7:0"),
        ("::2:3:4:5:6:7:8", [0, 2, 3, 4, 5, 6, 7, 8], "0:2:3:4:5:6:7:8"),
    ];
    for (text, groups, canonical) in accepted {
        assert_eq!(parse_ipv6(text), Some(groups.to_vec()), "{text}");
        assert_eq!(format_ipv6(&groups.to_vec()), *canonical);
    }
    for text in [
        "1.2.3", "1.2.3.4.5", "1:2:3", "1:2:3:4:5:6:7:8:9", ":1", "1:", "g::", "12345::",
        "1.2.3.4::", "::1.2.3.4:5", "00001::", "::1.2.3.256", "", ":", ":::",
    ] {
        assert_eq!(parse_ipv6(text), None, "{text}");
        assert_eq!(parse_ipv4(text), None, "{text}");
    }
}

#[test]
fn written_addresses_are_read_back() {
    for o in [[0_u8, 0, 0, 0], [127, 0, 0, 1], [10, 20, 30, 255]] {
        assert_eq!(parse_ipv4(&format_ipv4(&o.to_vec())), Some(o.to_vec()));
    }
    for g in [
        [0_u16, 0, 0, 0, 0, 0, 0, 0],
        [0, 0, 0, 0, 0, 0, 0, 1],
        [1, 0, 0, 1, 0, 0, 0, 1],
        [0, 0, 0, 0, 0, 0xffff, 0x0a01, 0x0203],
        [0xfe80, 0, 1, 0, 0, 0, 0, 0],
        [0xffff, 1, 2, 3, 4, 5, 6, 7],
    ] {
        assert_eq!(parse_ipv6(&format_ipv6(&g.to_vec())), Some(g.to_vec()));
    }
}

#[test]
fn an_endpoint_of_the_tables_reaches_as_far_as_its_address() {
    let reach = |addr: &str, v6: bool| {
        let ep = parse_proc_addr(addr, v6).unwrap();
        endpoint_reachability(&format!("udp {ep}"))
    };
    assert_eq!(reach("0100007F:1F90", false), Reachability::Loopback);
    assert_eq!(reach("0100A8C0:0016", false), Reachability::Private);
    assert_eq!(reach("00000000:0016", false), Reachability::Public);
    assert_eq!(reach("00000000000000000000000000000000:0016", true), Reachability::Public);
    assert_eq!(reach("00000000000000000000000001000000:0016", true), Reachability::Loopback);
    assert_eq!(reach("0000000000000000FFFF00000100A8C0:0016", true), Reachability::Private);
    assert_eq!(reach("000080FE000000000000000001000000:0016", true), Reachability::Private);
}

#[test]
fn the_widest_endpoint_decides() {
    let eps = strings(&["tcp 127.0.0.1:80", "udp 10.0.0.1:53"]);
    assert_eq!(widest_reach(&eps), Reachability::Private);
    assert_eq!(widest_reach(&Vec::new()), Reachability::Closed);
    assert!(any_endpoint_is_exposed(&eps));
    assert!(!any_endpoint_is_exposed(&strings(&["127.0.0.1:80"])));
    assert_eq!(Reachability::Public.as_str(), "public");
    assert!(!Reachability::Loopback.exposed());
}

#[test]
fn sockets_of_a_process() {
    let inodes = proc_socket_inodes(&strings(&["socket:[101]", "/dev/null", "socket:[102]", "pipe:[103]"]));
    assert_eq!(inodes, strings(&["101", "102"]));
    let tcp = "  sl  local_address rem_address   st tx_queue rx_queue tr tm->when retrnsmt   uid  timeout inode\n\
               0: 0100007F:1F90 00000000:0000 0A 00000000:00000000 00:00000000 00000000  0 0 101 1\n\
               1: 00000000:01BB 00000000:0000 01 00000000:00000000 00:00000000 00000000  0 0 102 1\n\
               2: 00000000:0016 00000000:0000 0A 00000000:00000000 00:00000000 00000000  0 0 999 1\n";
    let udp = "header\n\
               0: 00000000:0035 00000000:0000 07 00000000:00000000 00:00000000 00000000  0 0 102 1\n\
               1: 00000000:0036 0100007F:0001 07 00000000:00000000 00:00000000 00000000  0 0 102 1\n";
    let tables = ProcTables {
        tcp: Some(tcp.to_string()),
        tcp6: None,
        udp: Some(udp.to_string()),
        udp6: None,
    };
    assert_eq!(linux_listeners(&inodes, &tables), strings(&["tcp 127.0.0.1:8080", "udp 0.0.0.0:53"]));
    assert!(linux_listeners(&Vec::new(), &tables).is_empty());
    assert_eq!(linux_tcp_listeners(&inodes, &tables.tcp, &None), strings(&["127.0.0.1:8080"]));
}

#[test]
fn sockets_that_lsof_lists() {
    let out = "p42\nn*:80\nn127.0.0.1:81->1.2.3.4:9\nnpipe\n";
    assert_eq!(lsof_names(Some(out)), strings(&["*:80"]));
    assert!(lsof_names(None).is_empty());
    assert_eq!(lsof_listeners(Some(out), Some("n*:53\n")), strings(&["tcp *:80", "udp *:53"]));
    let table = "COMMAND PID USER FD TYPE DEVICE SIZE NODE NAME\n\
                 nginx 42 root 6u IPv4 0x1 0t0 TCP *:80(LISTEN)\n\
                 nginx 42 root 7u IPv4 0x1 0t0 TCP 127.0.0.1:81\n\
                 nginx 42 root 8u IPv4 0x1 0t0 TCP nothing\n";
    assert_eq!(lsof_tcp_listeners(Some(table)), strings(&["*:80", "127.0.0.1:81"]));
}

#[test]
fn endpoints_stand_in_order_once() {
    assert_eq!(
        listening_endpoints(strings(&["tcp b:2", "tcp a:1", "tcp b:2"])),
        strings(&["tcp a:1", "tcp b:2"])
    );
}

// ── The system ───────────────────────────────────────────────────────────────

#[test]
fn distributions() {
    let none = DistroMarkers { debian: false, fedora: false, arch: false, alpine: false };
    let of = |release: &str| detect_linux_distro(Some(release), none);
    assert!(matches!(of("NAME=x\nID=ubuntu\nID_LIKE=debian\n"), LinuxDistro::Ubuntu));
    assert!(matches!(of("ID=\"Rocky\"\nID_LIKE=\"rhel fedora\"\n"), LinuxDistro::Fedora));
    assert!(matches!(of("ID=void\n"), LinuxDistro::Unknown(s) if s == "void"));
    let marked = DistroMarkers { debian: false, fedora: true, arch: true, alpine: false };
    assert!(matches!(detect_linux_distro(None, marked), LinuxDistro::Fedora));
    assert!(matches!(detect_linux_distro(None, none), LinuxDistro::Unknown(s) if s == "unknown"));
}

#[test]
fn systems() {
    assert!(matches!(detect_os("macos", LinuxDistro::Arch), OsType::MacOs));
    assert!(matches!(detect_os("linux", LinuxDistro::Arch), OsType::Linux(LinuxDistro::Arch)));
    assert!(matches!(detect_os("haiku", LinuxDistro::Arch), OsType::Unsupported(s) if s == "haiku"));
    assert_eq!(os_label(&OsType::Linux(LinuxDistro::Arch)), "Linux (arch)");
    assert_eq!(os_label(&OsType::DragonFlyBsd), "DragonFly BSD");
    assert_eq!(
        parse_linux_distro_version(&LinuxDistro::Debian, "ID=debian\nVERSION_ID=\"12\"\n"),
        ("debian".to_string(), "12".to_string())
    );
    let release = "VERSION_CODENAME=\"bookworm\"\nVERSION_ID=\n";
    assert_eq!(os_release_field(release, "VERSION_CODENAME").as_deref(), Some("bookworm"));
    assert_eq!(os_release_field(release, "VERSION_ID"), None);
}

#[test]
fn facts_of_a_system() {
    let f = gather_system_info(&OsType::MacOs, Some("23.1.0\n"), Some(" 14.1\n"), "").unwrap();
    assert_eq!((f.kernel_name.as_str(), f.kernel_version.as_str()), ("darwin", "23.1.0"));
    assert_eq!((f.distro_name.as_str(), f.distro_version.as_str()), ("macos", "14.1"));
    assert!(gather_system_info(&OsType::MacOs, Some(" \n"), None, "").is_none());
    assert!(gather_system_info(&OsType::Unsupported("x".to_string()), Some("1"), None, "").is_none());
}
