//! Packages: what owns a file, and what is installed.

use find_threats::host::{LinuxDistro, OsType};
use find_threats::inventory::{
    inventory_tool, list_installed, parse_apk_list, parse_brew_list, parse_dpkg_list,
    parse_pacman_list, parse_pkg_info_list, parse_pkg_query_list, parse_rpm_list, InventoryTool,
};
use find_threats::package_version::{
    apk_version, dpkg_owner_before_colon, dpkg_version, freebsd_pkg_version, package_version,
    pacman_version, pkg_info_version, rpm_version, version_from_output,
};
use find_threats::packages::{
    apk_of, atom_split, atom_version, dpkg_of, dpkg_owner_name, freebsd_of, homebrew_formula,
    homebrew_of, homebrew_version, owner_from_output, package_managers, package_of, pacman_of,
    pkg_info_of, rpm_of, split_at_hyphen, take_last_cut, PackageManager,
};

fn pair(a: &str, b: &str) -> (String, String) {
    (a.to_string(), b.to_string())
}

#[test]
fn main_atom_version_extraction() {
    assert_eq!(atom_version("nginx-1.26.2-r0").as_deref(), Some("1.26.2"));
    assert_eq!(atom_version("nginx-1.26.2nb1").as_deref(), Some("1.26.2nb1"));
    assert_eq!(atom_version("openssl-3.0.7").as_deref(), Some("3.0.7"));
    assert_eq!(atom_version("no-version-here"), None);
}

#[test]
fn engine_atom_version_extraction() {
    assert_eq!(atom_version("nginx-1.26.2-r0").as_deref(), Some("1.26.2"));
    assert_eq!(atom_version("nginx-1.26.2nb1").as_deref(), Some("1.26.2nb1"));
    assert_eq!(atom_version("openssl-3.0.7").as_deref(), Some("3.0.7"));
    assert_eq!(atom_version("no-version-here"), None);
}

#[test]
fn main_homebrew_version_from_cellar_path() {
    let p = "/opt/homebrew/Cellar/nginx/1.27.0/bin/nginx";
    assert_eq!(homebrew_version(p).as_deref(), Some("1.27.0"));
    assert_eq!(homebrew_formula(None), None); // the path leads nowhere
    assert_eq!(homebrew_version("/usr/sbin/sshd"), None);
}

#[test]
fn engine_homebrew_version_from_cellar_path() {
    let p = "/opt/homebrew/Cellar/nginx/1.27.0/bin/nginx";
    assert_eq!(homebrew_version(p).as_deref(), Some("1.27.0"));
    assert_eq!(homebrew_formula(None), None); // the path leads nowhere
    assert_eq!(homebrew_version("/usr/sbin/sshd"), None);
}

#[test]
fn dpkg_parse() {
    let out = "ii \topenssl\t3.0.11-1~deb12u2\tamd64\n\
               rc \toldpkg\t1.0\tamd64\n\
               ii \tnginx\t1.22.1-9\tall\n";
    assert_eq!(
        parse_dpkg_list(out),
        vec![pair("openssl", "3.0.11-1~deb12u2"), pair("nginx", "1.22.1-9")]
    );
}

#[test]
fn rpm_parse() {
    let out = "openssl\t1\t3.0.7\t18.el9\tx86_64\n\
               gpg-pubkey\t(none)\tfd431d51\t4ae0493b\t(none)\n\
               httpd\t(none)\t2.4.57\t5.el9\tx86_64\n\
               basesystem\t(none)\t11\t(none)\tnoarch\n";
    assert_eq!(
        parse_rpm_list(out),
        vec![
            pair("openssl", "1:3.0.7-18.el9"),
            pair("httpd", "2.4.57-5.el9"),
            // literal "(none)" release must not leak into the EVR
            pair("basesystem", "11"),
        ]
    );
}

#[test]
fn pacman_parse() {
    assert_eq!(
        parse_pacman_list("nginx 1.27.0-1\nopenssl 3.3.2-1\n"),
        vec![pair("nginx", "1.27.0-1"), pair("openssl", "3.3.2-1")]
    );
}

#[test]
fn apk_and_pkginfo_atoms() {
    assert_eq!(
        parse_apk_list("nginx-1.26.2-r0\nmusl-1.2.5-r0\n"),
        vec![pair("nginx", "1.26.2-r0"), pair("musl", "1.2.5-r0")]
    );
    assert_eq!(
        parse_pkg_info_list("nginx-1.26.2 web server\nbash-5.2.15nb1 shell\n"),
        vec![pair("nginx", "1.26.2"), pair("bash", "5.2.15nb1")]
    );
    // name with an embedded numeric segment splits at the LAST version run
    assert_eq!(parse_pkg_info_list("gtk-3-3.24.0 toolkit\n"), vec![pair("gtk-3", "3.24.0")]);
}

#[test]
fn dpkg_owner_name_handles_multiarch_and_diversions() {
    // Plain owner line.
    assert_eq!(dpkg_owner_name("nginx: /usr/sbin/nginx").as_deref(), Some("nginx"));
    // Multiarch name carries a `:arch` suffix; split on the LAST ": " so the
    // architecture qualifier is NOT mistaken for the field separator.
    assert_eq!(
        dpkg_owner_name("libssl3:amd64: /usr/lib/x86_64-linux-gnu/libssl.so.3").as_deref(),
        Some("libssl3:amd64")
    );
    // Multiple owners: the first comma-listed package wins.
    assert_eq!(dpkg_owner_name("pkg-a, pkg-b: /shared/path").as_deref(), Some("pkg-a"));
    // Diversion preamble lines are skipped in favor of the real owner.
    let out = "diversion by libc6 from: /lib/x.so\n\
               diversion by libc6 to: /lib/x.so.usr-is-merged\n\
               libc6:amd64: /lib/x.so\n";
    assert_eq!(dpkg_owner_name(out).as_deref(), Some("libc6:amd64"));
}

#[test]
fn brew_multi_version() {
    assert_eq!(
        parse_brew_list("openssl@3 3.3.1 3.3.2\nnginx 1.27.0\n"),
        vec![
            pair("openssl@3", "3.3.1"),
            pair("openssl@3", "3.3.2"),
            pair("nginx", "1.27.0")
        ]
    );
}

#[test]
fn atoms_split_at_the_last_version() {
    assert_eq!(atom_split(" gtk-3-3.24.0 "), Some(pair("gtk-3", "3.24.0")));
    assert_eq!(atom_split("bash"), None);
    assert_eq!(atom_split("-1.0"), None);
    let cuts = vec![pair("gtk", "-3-3.24.0"), pair("gtk-3", "-3.24.0")];
    assert_eq!(take_last_cut(cuts), Some(pair("gtk-3", "-3.24.0")));
    assert_eq!(take_last_cut(Vec::new()), None);
    assert_eq!(split_at_hyphen(Some(pair(" a ", "- 1 "))), Some(pair("a", "1")));
    assert_eq!(split_at_hyphen(Some(pair("a", "-"))), None);
    assert_eq!(split_at_hyphen(Some(pair("a", ""))), None);
}

#[test]
fn owners_of_each_package_manager() {
    assert_eq!(dpkg_of("nginx: /usr/sbin/nginx", " 1.22.1-9\n"), Some(pair("nginx", "1.22.1-9")));
    assert_eq!(dpkg_of("nginx: /usr/sbin/nginx", " \n"), None);
    assert_eq!(rpm_of("openssl\t1\t3.0.7\t18.el9\n"), Some(pair("openssl", "1:3.0.7-18.el9")));
    assert_eq!(pacman_of("/usr/bin/nginx is owned by nginx 1.27.0-1\n"), Some(pair("nginx", "1.27.0-1")));
    assert_eq!(apk_of("/usr/sbin/nginx is owned by nginx-1.26.2-r0\n"), Some(pair("nginx", "1.26.2-r0")));
    assert_eq!(
        homebrew_of("/opt/homebrew/Cellar/nginx/1.27.0/bin/nginx"),
        Some(pair("nginx", "1.27.0"))
    );
    assert_eq!(homebrew_of("/usr/sbin/sshd"), None);
    assert_eq!(freebsd_of("nginx-1.26.2_1,3\n"), Some(pair("nginx", "1.26.2_1,3")));
    assert_eq!(pkg_info_of("openssl-3.0.7\n"), Some(pair("openssl", "3.0.7")));
}

#[test]
fn versions_alone_of_each_package_manager() {
    assert_eq!(dpkg_owner_before_colon("libssl3:amd64: /usr/lib/x").as_deref(), Some("libssl3"));
    assert_eq!(dpkg_version("nginx: /usr/sbin/nginx", "1.22.1-9\n").as_deref(), Some("1.22.1-9"));
    assert_eq!(rpm_version("3.0.7\n").as_deref(), Some("3.0.7"));
    assert_eq!(pacman_version("x is owned by nginx 1.27.0-1\n").as_deref(), Some("1.27.0-1"));
    assert_eq!(apk_version("x is owned by nginx-1.26.2-r0\n").as_deref(), Some("1.26.2"));
    assert_eq!(freebsd_pkg_version("nginx-1.26.2\n").as_deref(), Some("1.26.2"));
    assert_eq!(pkg_info_version("openssl-3.0.7\n").as_deref(), Some("3.0.7"));
    assert_eq!(pkg_info_version("openssl\n"), None);
}

#[test]
fn the_first_version_that_is_told() {
    let told = |m: PackageManager, out: &str| version_from_output(m, out, "2.0");
    assert_eq!(told(PackageManager::Dpkg, "nginx: /usr/sbin/nginx").as_deref(), Some("2.0"));
    assert_eq!(told(PackageManager::Rpm, "file is not owned by any package\n"), None);
    assert_eq!(told(PackageManager::Rpm, "1.0\n").as_deref(), Some("1.0"));
    assert_eq!(
        told(PackageManager::Homebrew, "/opt/homebrew/Cellar/nginx/1.27.0/bin/nginx").as_deref(),
        Some("1.27.0")
    );
    assert_eq!(told(PackageManager::PkgInfo, "nginx-1.26.2: /x").as_deref(), Some("1.26.2"));
    let answers = vec![None, Some("1".to_string()), Some("2".to_string())];
    assert_eq!(package_version(&answers).as_deref(), Some("1"));
    assert_eq!(package_version(&vec![None]), None);
}

#[test]
fn the_first_answer_is_the_owner() {
    let answers = vec![None, Some(pair("a", "1")), Some(pair("b", "2"))];
    assert_eq!(package_of(&answers), Some(pair("a", "1")));
    assert_eq!(package_of(&vec![None, None]), None);
    assert_eq!(package_of(&Vec::new()), None);
}

#[test]
fn package_managers_of_a_system() {
    assert_eq!(
        package_managers(&OsType::Linux(LinuxDistro::Debian)),
        vec![PackageManager::Dpkg]
    );
    assert_eq!(package_managers(&OsType::MacOs), vec![PackageManager::Homebrew]);
    assert_eq!(package_managers(&OsType::Solaris), vec![]);
    assert_eq!(
        owner_from_output(PackageManager::Dpkg, "nginx: /usr/sbin/nginx", "1.0"),
        Some(pair("nginx", "1.0"))
    );
}

#[test]
fn inventory_of_a_system() {
    let debian = OsType::Linux(LinuxDistro::Debian);
    assert_eq!(inventory_tool(&debian), Some(InventoryTool::Dpkg));
    assert_eq!(inventory_tool(&OsType::NetBsd), Some(InventoryTool::PkgInfo));
    assert_eq!(inventory_tool(&OsType::OpenBsd), Some(InventoryTool::PkgInfoQuiet));
    assert_eq!(inventory_tool(&OsType::Solaris), None);
    let found = list_installed(&debian, Some("ii \tnginx\t1.22.1-9\tall\n"));
    assert_eq!(found.len(), 1);
    assert_eq!((found[0].name.as_str(), found[0].version.as_str(), found[0].tool), ("nginx", "1.22.1-9", "dpkg"));
    assert!(list_installed(&debian, None).is_empty());
    assert!(list_installed(&OsType::Solaris, Some("nginx 1.0")).is_empty());
    assert_eq!(parse_pkg_query_list("nginx 1.26.2\nalone\n"), vec![pair("nginx", "1.26.2")]);
}
