//! Which services run on a host, what is known of them, and what is found of them by name.

use vstd::prelude::*;

use crate::host::{LinuxDistroView, OsTypeView};
use crate::http::error_text;
use crate::json::JsonView;
use crate::list::{filtered_items_are_those_that_map, with_new};
use crate::net::{leaves_host, reach_of, some_leaves_host, widest, widest_is_an_upper_bound, Reachability};
use crate::number::number;
use crate::order::{precedes, ranked_is_permutation};
use crate::packages::filled;
use crate::pattern::group_text;
use crate::risk::outranks;
use crate::scanners::{
    enabled_line, enabled_names, first_absolute, is_third_party, later_lines, launchctl_line, launchctl_services,
    launchd_binary, launchd_name_of, online_services, scanner_of, started_names, svcs_line, sysvinit_line, Scanner,
};
use crate::service_findings::{
    affecting, asset_with, entry_of, failures, findings_for, found_records, lookup_of, rate_refusal, risk_of,
    service_key, service_results, severity_of, system_parts, AssetInfoView, FetchedView, Fetches, ServiceEntryView,
    SystemInfo, ThreatEntry, ThreatEntryView,
};
use crate::service_lookup::{basis_of, MatchBasis};
use crate::services::{
    absolute_ones, active_unit, candidates_of, command_word, daemon_of, does_nothing, exposed_services, first_there,
    if_absolute, in_dirs, product_name, provenance, running_pid, safe_path_dirs, search_dirs, service_of, start_path,
    unit_exe, with_listeners, ServiceInfoView, VersionSource,
};
use crate::split::{cut_last, pieces, text_lines, words};
use crate::table::{lookup, lookup_after_put};
use crate::text::{has_prefix, has_suffix, lowercase, occurs, place, trimmed, trimmed_of, without_suffixes, CharSet};
use crate::threat::ThreatView;

verus! {

// ── What is known of a service ───────────────────────────────────────────────

/// The version of a service is that of the package that owns its binary; only where none does is
/// it what the binary tells, and where neither is known there is no service to look up.
pub proof fn the_package_tells_the_version_first(
    name: Seq<char>,
    exe: Seq<char>,
    pid: Option<u32>,
    pkg: Seq<char>,
    version: Seq<char>,
    probed: Option<Seq<char>>,
)
    ensures
        service_of(name, exe, pid, provenance(Some((pkg, version)), probed)) matches Some(s)
            && s.pkg_name == Some(pkg) && s.version == version && s.source
            == VersionSource::PackageDb,
        probed matches Some(v) ==> (service_of(name, exe, pid, provenance(None, probed)) matches Some(
            s,
        ) && s.pkg_name is None && s.version == v && s.source == VersionSource::Probe),
        probed is None ==> service_of(name, exe, pid, provenance(None, probed)) is None,
        service_of(name, exe, pid, provenance(Some((pkg, version)), probed)) matches Some(s)
            && s.name == name && s.exe == exe && s.pid == pid && !s.exposed && s.listeners.len() == 0,
{
}

/// A service is exposed exactly where one of the endpoints of its process is, and reaches as far as
/// the widest of them; one whose process is not known is not.
pub proof fn a_service_reaches_as_far_as_its_endpoints(s: ServiceInfoView, eps: Seq<Seq<char>>, i: int)
    requires
        !s.exposed,
        0 <= i < eps.len(),
    ensures
        s.pid is Some ==> with_listeners(s, eps).listeners == eps,
        s.pid is Some && (reach_of(eps[i]) == Reachability::Public || reach_of(eps[i])
            == Reachability::Private) ==> with_listeners(s, eps).exposed,
        s.pid is Some ==> with_listeners(s, eps).reach.degree() >= reach_of(eps[i]).degree(),
        (forall|k: int|
            0 <= k < eps.len() ==> reach_of(#[trigger] eps[k]) == Reachability::Loopback)
            ==> !with_listeners(s, eps).exposed,
        s.pid is None ==> with_listeners(s, eps) == s,
        with_listeners(s, eps).name == s.name && with_listeners(s, eps).version == s.version
            && with_listeners(s, eps).exe == s.exe && with_listeners(s, eps).pid == s.pid
            && with_listeners(s, eps).pkg_name == s.pkg_name,
{
    widest_is_an_upper_bound(eps, i);
    let k = choose|k: int| 0 <= k < eps.len() && widest(eps) == reach_of(#[trigger] eps[k]);
    assert(widest(eps) == reach_of(eps[k]));
}

/// A service without endpoints is not exposed, and each service has its own endpoints.
pub proof fn services_have_their_own_endpoints(
    services: Seq<ServiceInfoView>,
    eps: Seq<Seq<Seq<char>>>,
    i: int,
)
    requires
        0 <= i < services.len(),
        services.len() == eps.len(),
    ensures
        exposed_services(services, eps).len() == services.len(),
        exposed_services(services, eps)[i] == with_listeners(services[i], eps[i]),
        services[i].pid is Some && eps[i].len() == 0 ==> !exposed_services(services, eps)[i].exposed
            && exposed_services(services, eps)[i].reach == Reachability::Closed,
{
}

/// An endpoint leaves the host unless its host is one of the loopback, by name or by number.
pub proof fn loopback_endpoints_stay_on_the_host(ep: Seq<char>, host: Seq<char>)
    requires
        host == trimmed_of(
            match cut_last(ep, ":"@) {
                Some((h, _)) => h,
                None => ep,
            },
            CharSet::Either('[', ']'),
        ),
    ensures
        leaves_host(ep) <==> host != "::1"@ && host != "localhost"@ && !has_prefix(host, "127."@),
{
    reveal_strlit("127.0.0.1");
    reveal_strlit("127.");
    assert("127.0.0.1"@.take(4) =~= "127."@);
}

/// A service leaves the host where one of its endpoints does.
pub proof fn one_endpoint_leaves_the_host(eps: Seq<Seq<char>>, i: int)
    ensures
        0 <= i < eps.len() && leaves_host(eps[i]) ==> some_leaves_host(eps),
        eps.len() == 0 ==> !some_leaves_host(eps),
{
}

// ── Units of systemd ─────────────────────────────────────────────────────────

/// The units that are looked at are the services that are active.
pub proof fn active_services_are_units(name: Seq<char>, state: Seq<char>)
    ensures
        active_unit(name, state) is Some <==> state == "active"@ && has_suffix(name, ".service"@),
        active_unit(name, state) matches Some(u) ==> u == without_suffixes(name, ".service"@),
{
}

/// The binary of a unit is the one that its process runs; else the one that it is started by, else
/// the one that is installed for it.
pub proof fn the_binary_of_a_unit_is_the_one_that_runs(
    unit: Seq<char>,
    pid: u32,
    link: Seq<char>,
    started: Option<Seq<char>>,
    installed: Option<Seq<char>>,
)
    ensures
        pid > 0 && has_prefix(without_suffixes(link, " (deleted)"@), "/"@) ==> unit_exe(
            unit,
            Some(pid),
            Some(link),
            started,
            installed,
        ) == Some(without_suffixes(link, " (deleted)"@)),
        started is Some ==> unit_exe(unit, None, Some(link), started, installed) == started
            && unit_exe(unit, Some(pid), None, started, installed) == started && unit_exe(
            unit,
            Some(0),
            Some(link),
            started,
            installed,
        ) == started,
        started is None && installed is Some ==> unit_exe(unit, None, Some(link), started, installed)
            == installed,
        started is None && installed is None && !has_prefix(unit, "systemd-"@) ==> unit_exe(
            unit,
            None,
            Some(link),
            started,
            installed,
        ) is None,
        running_pid(Some(pid)) == (if pid > 0 {
            Some(pid)
        } else {
            None
        }),
        running_pid(None) is None,
{
}

/// A unit whose binary only reports success or failure is passed over.
pub proof fn units_that_do_nothing_are_passed_over(exe: Seq<char>)
    ensures
        does_nothing(exe) <==> pieces(exe, CharSet::Is('/')).last() == "true"@ || pieces(
            exe,
            CharSet::Is('/'),
        ).last() == "false"@,
{
}

/// The path that a unit is started by is the one in its command.
pub proof fn a_command_gives_its_path(groups: Option<Seq<Option<Seq<char>>>>, p: Seq<char>)
    ensures
        group_text(groups, 1) == Some(p) ==> start_path(groups) == Some("/"@ + p),
        group_text(groups, 1) is None ==> start_path(groups) is None,
{
}

// ── Binaries by name ─────────────────────────────────────────────────────────

proof fn lemma_in_dirs(dirs: Seq<Seq<char>>, base: Seq<char>, i: int)
    requires
        0 <= i < dirs.len(),
    ensures
        in_dirs(dirs, base).contains(dirs[i] + "/"@ + base),
        in_dirs(dirs, base).contains(dirs[i] + "/"@ + (base + "d"@)),
    decreases dirs.len(),
{
    let d = dirs.drop_last();
    let a = in_dirs(d, base);
    let b = seq![dirs.last() + "/"@ + base, dirs.last() + "/"@ + (base + "d"@)];
    let all = a + b;
    if i < d.len() {
        lemma_in_dirs(d, base, i);
        assert(d[i] == dirs[i]);
        let k = choose|k: int| 0 <= k < a.len() && a[k] == dirs[i] + "/"@ + base;
        assert(all[k] == dirs[i] + "/"@ + base);
        let m = choose|m: int| 0 <= m < a.len() && a[m] == dirs[i] + "/"@ + (base + "d"@);
        assert(all[m] == dirs[i] + "/"@ + (base + "d"@));
    } else {
        assert(b[0] == dirs[i] + "/"@ + base);
        assert(b[1] == dirs[i] + "/"@ + (base + "d"@));
        assert(all[a.len() as int] == b[0]);
        assert(all[a.len() as int + 1] == b[1]);
    }
}

/// A binary is looked for by its name and by its name as a daemon in the usual directories, and in
/// those of the search path that are absolute, after them.
pub proof fn a_binary_is_looked_for_in_each_directory(
    name: Seq<char>,
    path_env: Seq<char>,
    base: Seq<char>,
    dir: Seq<char>,
)
    requires
        !has_prefix(command_word(name), "/"@),
        base == daemon_of(pieces(command_word(name), CharSet::Is('/')).last()),
        base.len() > 0,
        dir == "/usr/sbin"@ || dir == "/usr/bin"@ || dir == "/sbin"@ || dir == "/bin"@ || dir
            == "/usr/local/sbin"@ || dir == "/usr/local/bin"@ || (pieces(
            path_env,
            CharSet::Is(':'),
        ).contains(dir) && has_prefix(dir, "/"@)),
    ensures
        candidates_of(name, path_env).contains(dir + "/"@ + base),
        candidates_of(name, path_env).contains(dir + "/"@ + (base + "d"@)),
{
    let safe = safe_path_dirs();
    let ds = pieces(path_env, CharSet::Is(':'));
    let more = absolute_ones(ds);
    let all = search_dirs(path_env);
    let f = |d: Seq<char>| if_absolute(d);
    filtered_items_are_those_that_map(ds, f, dir);
    assert(safe[0] == "/usr/local/sbin"@ && safe[1] == "/usr/local/bin"@ && safe[2] == "/usr/sbin"@
        && safe[3] == "/usr/bin"@ && safe[4] == "/sbin"@ && safe[5] == "/bin"@);
    assert(all.contains(dir)) by {
        if ds.contains(dir) && has_prefix(dir, "/"@) {
            let i = choose|i: int| 0 <= i < ds.len() && ds[i] == dir;
            assert(f(ds[i]) == Some(dir));
            assert(more.contains(dir));
            let k = choose|k: int| 0 <= k < more.len() && more[k] == dir;
            assert(all[safe.len() + k] == dir);
        } else {
            assert(all[0] == safe[0] && all[1] == safe[1] && all[2] == safe[2] && all[3] == safe[3]
                && all[4] == safe[4] && all[5] == safe[5]);
        }
    }
    let i = choose|i: int| 0 <= i < all.len() && all[i] == dir;
    lemma_in_dirs(all, base, i);
}

/// A binary that is named with its whole path is looked for there alone.
pub proof fn a_whole_path_is_looked_for_alone(name: Seq<char>, path_env: Seq<char>)
    requires
        has_prefix(command_word(name), "/"@),
    ensures
        candidates_of(name, path_env) == seq![command_word(name)],
        words(name).len() > 0 ==> command_word(name) == words(name)[0],
{
}

/// The first binary that is there is taken.
pub proof fn the_first_binary_that_is_there_is_taken(
    paths: Seq<Seq<char>>,
    there: Seq<bool>,
    i: int,
)
    requires
        paths.len() == there.len(),
    ensures
        (0 <= i < paths.len() && there[i] && forall|k: int| 0 <= k < i ==> !#[trigger] there[k])
            ==> first_there(paths, there) == Some(paths[i]),
        (forall|k: int| 0 <= k < there.len() ==> !#[trigger] there[k]) ==> first_there(paths, there)
            is None,
    decreases paths.len(),
{
    if paths.len() > 0 && !there[0] {
        let p = paths.skip(1);
        let t = there.skip(1);
        the_first_binary_that_is_there_is_taken(p, t, i - 1);
        if 0 < i < paths.len() {
            assert(p[i - 1] == paths[i] && t[i - 1] == there[i]);
            if forall|k: int| 0 <= k < i ==> !#[trigger] there[k] {
                assert forall|k: int| 0 <= k < i - 1 implies !#[trigger] t[k] by {
                    assert(t[k] == there[k + 1]);
                }
            }
        }
        if forall|k: int| 0 <= k < there.len() ==> !#[trigger] there[k] {
            assert forall|k: int| 0 <= k < t.len() implies !#[trigger] t[k] by {
                assert(t[k] == there[k + 1]);
            }
        }
    }
}

/// The daemon of a service goes by its name, but for that of SSH.
pub proof fn a_daemon_goes_by_its_service(s: Seq<char>)
    ensures
        daemon_of("ssh"@) == "sshd"@,
        s != "ssh"@ ==> daemon_of(s) == s,
{
}

// ── Services of other systems ────────────────────────────────────────────────

/// Each operating system is scanned by its own means: Linux by systemd where that has units, and
/// else by its init scripts.
pub proof fn each_system_is_scanned_by_its_means(d: LinuxDistroView, units: int, name: Seq<char>)
    ensures
        units > 0 ==> scanner_of(OsTypeView::Linux(d), units) == Scanner::Systemd,
        units <= 0 ==> scanner_of(OsTypeView::Linux(d), units) == Scanner::SysvInit,
        scanner_of(OsTypeView::MacOs, units) == Scanner::Launchctl,
        scanner_of(OsTypeView::FreeBsd, units) == Scanner::BsdRc,
        scanner_of(OsTypeView::DragonFlyBsd, units) == Scanner::BsdRc,
        scanner_of(OsTypeView::OpenBsd, units) == Scanner::OpenBsd,
        scanner_of(OsTypeView::NetBsd, units) == Scanner::NetBsd,
        scanner_of(OsTypeView::Solaris, units) == Scanner::Smf,
        scanner_of(OsTypeView::Illumos, units) == Scanner::Smf,
        scanner_of(OsTypeView::Unsupported(name), units) == Scanner::Unsupported,
{
}

/// The services of SMF that run are those that are online.
pub proof fn online_services_run(ls: Seq<Seq<char>>, x: Seq<char>)
    ensures
        online_services(ls).contains(x) <==> exists|i: int|
            0 <= i < ls.len() && words(#[trigger] ls[i]).len() >= 2 && words(ls[i])[0] == "online"@
                && words(ls[i])[1] == x,
{
    let f = |l: Seq<char>| svcs_line(l);
    filtered_items_are_those_that_map(ls, f, x);
    if online_services(ls).contains(x) {
        let i = choose|i: int| 0 <= i < ls.len() && f(#[trigger] ls[i]) == Some(x);
        assert(words(ls[i])[0] == "online"@);
    }
    if exists|i: int|
        0 <= i < ls.len() && words(#[trigger] ls[i]).len() >= 2 && words(ls[i])[0] == "online"@
            && words(ls[i])[1] == x {
        let i = choose|i: int|
            0 <= i < ls.len() && words(#[trigger] ls[i]).len() >= 2 && words(ls[i])[0] == "online"@
                && words(ls[i])[1] == x;
        assert(f(ls[i]) == Some(x));
    }
}

/// The services of launchd that are looked at run, and are not of the system itself.
pub proof fn third_party_services_of_launchd_run(ls: Seq<Seq<char>>, label: Seq<char>, pid: Seq<char>)
    ensures
        launchctl_services(ls).contains((label, pid)) <==> label.len() > 0 && number(
            pid,
            10,
            u32::MAX as nat,
        ) is Some && !has_prefix(label, "com.apple."@) && exists|i: int|
            0 <= i < ls.len() && pieces(#[trigger] ls[i], CharSet::Is('\t')).len() >= 3 && trimmed(
                pieces(ls[i], CharSet::Is('\t'))[0],
            ) == pid && trimmed(pieces(ls[i], CharSet::Is('\t'))[2]) == label,
{
    let x = (label, pid);
    let f = |l: Seq<char>| launchctl_line(l);
    filtered_items_are_those_that_map(ls, f, x);
    if launchctl_services(ls).contains(x) {
        let i = choose|i: int| 0 <= i < ls.len() && f(#[trigger] ls[i]) == Some(x);
        assert(pieces(ls[i], CharSet::Is('\t')).len() >= 3);
    }
    if label.len() > 0 && number(pid, 10, u32::MAX as nat) is Some && !has_prefix(
        label,
        "com.apple."@,
    ) && exists|i: int|
        0 <= i < ls.len() && pieces(#[trigger] ls[i], CharSet::Is('\t')).len() >= 3 && trimmed(
            pieces(ls[i], CharSet::Is('\t'))[0],
        ) == pid && trimmed(pieces(ls[i], CharSet::Is('\t'))[2]) == label {
        let i = choose|i: int|
            0 <= i < ls.len() && pieces(#[trigger] ls[i], CharSet::Is('\t')).len() >= 3 && trimmed(
                pieces(ls[i], CharSet::Is('\t'))[0],
            ) == pid && trimmed(pieces(ls[i], CharSet::Is('\t'))[2]) == label;
        assert(f(ls[i]) == Some(x));
    }
}

/// A binary of the system itself is passed over on macOS, and one under the directories for other
/// software is not.
pub proof fn binaries_of_the_system_are_passed_over(exe: Seq<char>)
    ensures
        has_prefix(exe, "/opt/"@) || has_prefix(exe, "/usr/local/"@) || has_prefix(
            exe,
            "/Applications/"@,
        ) || has_prefix(exe, "/Library/"@) ==> is_third_party(exe),
        (has_prefix(exe, "/System/"@) || has_prefix(exe, "/bin/"@) || has_prefix(exe, "/sbin/"@))
            ==> !is_third_party(exe),
        has_prefix(exe, "/usr/"@) && !has_prefix(exe, "/usr/local/"@) ==> !is_third_party(exe),
        launchd_binary(exe) is Some ==> is_third_party(trimmed(exe)) && launchd_binary(exe) == Some(
            trimmed(exe),
        ),
        has_prefix(trimmed(exe), "/"@) && is_third_party(trimmed(exe)) ==> launchd_binary(exe)
            == Some(trimmed(exe)),
{
    reveal_strlit("/System/");
    reveal_strlit("/bin/");
    reveal_strlit("/sbin/");
    reveal_strlit("/usr/");
    assert("/System/"@[1] == 'S' && "/bin/"@[1] == 'b' && "/sbin/"@[1] == 's' && "/usr/"@[1] == 'u');
    lemma_other_directory(exe, "/System/"@);
    lemma_other_directory(exe, "/bin/"@);
    lemma_other_directory(exe, "/sbin/"@);
    lemma_other_directory(exe, "/usr/"@);
}

proof fn lemma_other_directory(exe: Seq<char>, p: Seq<char>)
    requires
        p == "/System/"@ || p == "/bin/"@ || p == "/sbin/"@ || p == "/usr/"@,
    ensures
        has_prefix(exe, p) ==> !has_prefix(exe, "/opt/"@) && !has_prefix(exe, "/Applications/"@)
            && !has_prefix(exe, "/Library/"@) && (p != "/usr/"@ ==> !has_prefix(
            exe,
            "/usr/local/"@,
        )),
{
    reveal_strlit("/System/");
    reveal_strlit("/bin/");
    reveal_strlit("/sbin/");
    reveal_strlit("/usr/");
    reveal_strlit("/opt/");
    reveal_strlit("/Applications/");
    reveal_strlit("/Library/");
    reveal_strlit("/usr/local/");
    if has_prefix(exe, p) {
        assert(exe[1] == p[1]) by {
            assert(exe.take(p.len() as int)[1] == p[1]);
        }
        if has_prefix(exe, "/opt/"@) {
            assert(exe.take("/opt/"@.len() as int)[1] == 'o');
        }
        if has_prefix(exe, "/Applications/"@) {
            assert(exe.take("/Applications/"@.len() as int)[1] == 'A');
        }
        if has_prefix(exe, "/Library/"@) {
            assert(exe.take("/Library/"@.len() as int)[1] == 'L');
        }
        if has_prefix(exe, "/usr/local/"@) {
            assert(exe.take("/usr/local/"@.len() as int)[1] == 'u');
        }
    }
}

/// A service of launchd goes by its formula, or else by the last part of its label.
pub proof fn a_service_of_launchd_goes_by_its_formula(f: Seq<char>, label: Seq<char>, exe: Seq<char>)
    ensures
        launchd_name_of(Some(f), label, exe) == f,
        trimmed(pieces(label, CharSet::Is('.')).last()).len() > 0 ==> launchd_name_of(None, label, exe)
            == trimmed(pieces(label, CharSet::Is('.')).last()),
        trimmed(pieces(label, CharSet::Is('.')).last()).len() == 0 ==> launchd_name_of(
            None,
            label,
            exe,
        ) == pieces(exe, CharSet::Is('/')).last(),
{
}

/// The services that init scripts say are running are those behind a plus sign, and those that are
/// said to be started.
pub proof fn started_services_of_init_scripts_run(l: Seq<char>)
    ensures
        ({
            let t = trimmed(l);
            &&& !has_prefix(t, "[ + ]"@) && !occurs(t, "started"@) ==> sysvinit_line(l) is None
            &&& !has_prefix(t, "[ + ]"@) && occurs(t, "started"@) && place(t, "["@) is Some
                ==> sysvinit_line(l) == filled(t.take(place(t, "["@)->0))
            &&& !has_prefix(t, "[ + ]"@) && place(t, "["@) is None ==> sysvinit_line(l) is None
        }),
{
}

/// The enabled services of the BSDs go by the last part of the path of their script, and those that
/// are started by the line that names them.
pub proof fn services_of_the_bsds_are_named(ls: Seq<Seq<char>>, x: Seq<char>)
    ensures
        enabled_names(ls).contains(x) <==> x.len() > 0 && exists|i: int|
            0 <= i < ls.len() && pieces(trimmed(#[trigger] ls[i]), CharSet::Is('/')).last() == x,
        started_names(ls).contains(x) <==> x.len() > 0 && exists|i: int|
            0 <= i < ls.len() && trimmed(#[trigger] ls[i]) == x,
{
    let f = |l: Seq<char>| enabled_line(l);
    let g = |l: Seq<char>| filled(l);
    filtered_items_are_those_that_map(ls, f, x);
    filtered_items_are_those_that_map(ls, g, x);
    if enabled_names(ls).contains(x) {
        let i = choose|i: int| 0 <= i < ls.len() && f(#[trigger] ls[i]) == Some(x);
        assert(pieces(trimmed(ls[i]), CharSet::Is('/')).last() == x);
    }
    if x.len() > 0 && exists|i: int|
        0 <= i < ls.len() && pieces(trimmed(#[trigger] ls[i]), CharSet::Is('/')).last() == x {
        let i = choose|i: int|
            0 <= i < ls.len() && pieces(trimmed(#[trigger] ls[i]), CharSet::Is('/')).last() == x;
        assert(f(ls[i]) == Some(x));
    }
    if started_names(ls).contains(x) {
        let i = choose|i: int| 0 <= i < ls.len() && g(#[trigger] ls[i]) == Some(x);
        assert(trimmed(ls[i]) == x);
    }
    if x.len() > 0 && exists|i: int| 0 <= i < ls.len() && trimmed(#[trigger] ls[i]) == x {
        let i = choose|i: int| 0 <= i < ls.len() && trimmed(#[trigger] ls[i]) == x;
        assert(g(ls[i]) == Some(x));
    }
}

/// The first absolute path among the words of a command is its binary.
pub proof fn the_first_absolute_path_is_the_binary(w: Seq<Seq<char>>, i: int)
    ensures
        (0 <= i < w.len() && has_prefix(w[i], "/"@) && forall|k: int|
            0 <= k < i ==> !has_prefix(#[trigger] w[k], "/"@)) ==> first_absolute(w) == Some(w[i]),
        (forall|k: int| 0 <= k < w.len() ==> !has_prefix(#[trigger] w[k], "/"@)) ==> first_absolute(
            w,
        ) is None,
    decreases w.len(),
{
    if w.len() > 0 && !has_prefix(w[0], "/"@) {
        let r = w.skip(1);
        the_first_absolute_path_is_the_binary(r, i - 1);
        if 0 < i < w.len() {
            assert(r[i - 1] == w[i]);
            if forall|k: int| 0 <= k < i ==> !has_prefix(#[trigger] w[k], "/"@) {
                assert forall|k: int| 0 <= k < i - 1 implies !has_prefix(#[trigger] r[k], "/"@) by {
                    assert(r[k] == w[k + 1]);
                }
            }
        }
        if forall|k: int| 0 <= k < w.len() ==> !has_prefix(#[trigger] w[k], "/"@) {
            assert forall|k: int| 0 <= k < r.len() implies !has_prefix(#[trigger] r[k], "/"@) by {
                assert(r[k] == w[k + 1]);
            }
        }
    }
}

/// The heading of a list is none of its lines.
pub proof fn the_heading_is_no_line(s: Seq<char>, i: int)
    requires
        1 <= i < text_lines(s).len(),
    ensures
        later_lines(s).len() == text_lines(s).len() - 1,
        later_lines(s)[i - 1] == text_lines(s)[i],
{
}

// ── Findings by name ─────────────────────────────────────────────────────────

/// Every record that affects the version makes a finding, and no other does.
pub proof fn records_that_affect_the_version_are_found(
    ts: Seq<ThreatView>,
    version: Seq<char>,
    i: int,
    x: ThreatEntryView,
)
    ensures
        0 <= i < ts.len() && basis_of(ts[i].body, version) is Some ==> findings_for(
            ts,
            version,
        ).contains(entry_of(ts[i], basis_of(ts[i].body, version)->0)),
        findings_for(ts, version).contains(x) ==> exists|k: int|
            0 <= k < ts.len() && basis_of((#[trigger] ts[k]).body, version) is Some && x == entry_of(
                ts[k],
                basis_of(ts[k].body, version)->0,
            ),
        findings_for(ts, version).len() <= ts.len(),
{
    broadcast use vstd::seq_lib::group_to_multiset_ensures;

    let all = affecting(ts, version);
    let f = findings_for(ts, version);
    ranked_is_permutation::<ThreatEntry>(all);
    lemma_affecting(ts, version, i, x);
    assert(f.to_multiset().len() == f.len() && all.to_multiset().len() == all.len());
    assert(f.contains(x) <==> f.to_multiset().count(x) > 0);
    assert(all.contains(x) <==> all.to_multiset().count(x) > 0);
    if 0 <= i < ts.len() && basis_of(ts[i].body, version) is Some {
        let e = entry_of(ts[i], basis_of(ts[i].body, version)->0);
        assert(all.to_multiset().count(e) > 0);
        assert(f.to_multiset().count(e) > 0);
    }
}

proof fn lemma_affecting(ts: Seq<ThreatView>, version: Seq<char>, i: int, x: ThreatEntryView)
    ensures
        0 <= i < ts.len() && basis_of(ts[i].body, version) is Some ==> affecting(
            ts,
            version,
        ).contains(entry_of(ts[i], basis_of(ts[i].body, version)->0)),
        affecting(ts, version).contains(x) ==> exists|k: int|
            0 <= k < ts.len() && basis_of((#[trigger] ts[k]).body, version) is Some && x == entry_of(
                ts[k],
                basis_of(ts[k].body, version)->0,
            ),
        affecting(ts, version).len() <= ts.len(),
    decreases ts.len(),
{
    if ts.len() > 0 {
        let d = ts.drop_last();
        lemma_affecting(d, version, i, x);
        let a = affecting(ts, version);
        let b = affecting(d, version);
        if 0 <= i < ts.len() && basis_of(ts[i].body, version) is Some {
            let e = entry_of(ts[i], basis_of(ts[i].body, version)->0);
            if i < d.len() {
                assert(d[i] == ts[i]);
                let k = choose|k: int| 0 <= k < b.len() && b[k] == e;
                assert(a[k] == e);
            } else {
                assert(a[a.len() - 1] == e);
            }
        }
        if a.contains(x) {
            let k = choose|k: int| 0 <= k < a.len() && a[k] == x;
            if k < b.len() {
                assert(b[k] == x);
                let m = choose|m: int|
                    0 <= m < d.len() && basis_of((#[trigger] d[m]).body, version) is Some && x
                        == entry_of(d[m], basis_of(d[m].body, version)->0);
                assert(ts[m] == d[m]);
            } else {
                assert(ts[ts.len() - 1] == ts.last());
            }
        }
    }
}

/// A finding by name keeps what its record says, and how it was found.
pub proof fn a_finding_by_name_keeps_what_the_record_says(t: ThreatView, basis: MatchBasis)
    ensures
        ({
            let e = entry_of(t, basis);
            &&& e.match_basis == basis
            &&& t.body.member_text("cveId"@) is Some ==> e.cve_id == t.body.member_text("cveId"@)
            &&& e.title == t.body.member_text("title"@)
            &&& e.severity == t.body.member_text("severity"@)
            &&& e.cvss_score == t.body.member("cvssScore"@)
            &&& e.affected_versions == t.body.member("affectedVersions"@)
            &&& t.body.member("knownExploitsInWild"@) == Some(JsonView::Bool(true)) ==> e.kev
            &&& t.body.member("knownExploitsInWild"@) == Some(JsonView::Text("true"@)) ==> e.kev
            &&& t.body.member("knownExploitsInWild"@) is None ==> !e.kev
            &&& t.body.member("knownExploitsInWild"@) == Some(JsonView::Bool(false)) ==> !e.kev
            &&& t.body.member("epss"@) matches Some(JsonView::Number(n)) ==> e.epss == Some(n.real)
            &&& t.body.member("epss"@) is None ==> e.epss is None
        }),
{
}

/// Of two findings by name the one that is known to be exploited is the higher risk, then the one
/// with the higher severity, whatever its case.
pub proof fn the_higher_risk_by_name_comes_first(a: ThreatEntryView, b: ThreatEntryView)
    ensures
        a.kev && !b.kev ==> outranks(risk_of(a), risk_of(b)) && !outranks(risk_of(b), risk_of(a)),
        a.kev == b.kev && severity_of(a.severity) > severity_of(b.severity) ==> outranks(
            risk_of(a),
            risk_of(b),
        ) && !outranks(risk_of(b), risk_of(a)),
{
}

/// The severities of findings by name are ranked, whatever their case.
pub proof fn severities_by_name_are_ranked(s: Seq<char>, t: Seq<char>)
    ensures
        lowercase(s) == "critical"@ && lowercase(t) == "high"@ ==> severity_of(Some(s)) > severity_of(
            Some(t),
        ),
        lowercase(s) == "high"@ && lowercase(t) == "medium"@ ==> severity_of(Some(s)) > severity_of(
            Some(t),
        ),
        lowercase(s) == "medium"@ && lowercase(t) == "low"@ ==> severity_of(Some(s)) > severity_of(
            Some(t),
        ),
        lowercase(s) == "low"@ ==> severity_of(Some(s)) > severity_of(None),
        lowercase(s) == lowercase(t) ==> severity_of(Some(s)) == severity_of(Some(t)),
        lowercase(s) != "critical"@ && lowercase(s) != "high"@ && lowercase(s) != "medium"@
            && lowercase(s) != "low"@ ==> severity_of(Some(s)) == severity_of(None),
{
    reveal_strlit("critical");
    reveal_strlit("high");
    reveal_strlit("medium");
    reveal_strlit("low");
    assert("critical"@.len() == 8 && "high"@.len() == 4 && "medium"@.len() == 6 && "low"@.len() == 3);
}

/// The findings of a service are those that the records of its name make for its version; a service
/// for whose name nothing was found has none.
pub proof fn a_service_has_the_findings_of_its_version(
    services: Seq<ServiceEntryView>,
    records: Seq<(Seq<char>, Seq<ThreatView>)>,
    i: int,
)
    requires
        0 <= i < services.len(),
        forall|k: int|
            0 <= k < services.len() ==> service_key(#[trigger] services[k]) == service_key(
                services[i],
            ) ==> services[k] == services[i],
    ensures
        lookup(records, services[i].name) matches Some(ts) ==> lookup(
            service_results(services, records),
            service_key(services[i]),
        ) == Some(findings_for(ts, services[i].version)),
        lookup(records, services[i].name) is None ==> lookup(
            service_results(services, records),
            service_key(services[i]),
        ) == Some(Seq::<ThreatEntryView>::empty()),
    decreases services.len(),
{
    let d = services.drop_last();
    let s = services.last();
    assert(s == services[services.len() - 1]);
    let found = match lookup(records, s.name) {
        Some(ts) => findings_for(ts, s.version),
        None => Seq::empty(),
    };
    lookup_after_put(
        service_results(d, records),
        service_key(s),
        found,
        service_key(services[i]),
    );
    if service_key(s) != service_key(services[i]) {
        assert(d[i] == services[i]);
        assert forall|k: int| 0 <= k < d.len() implies service_key(#[trigger] d[k]) == service_key(
            d[i],
        ) ==> d[k] == d[i] by {
            assert(d[k] == services[k]);
        }
        a_service_has_the_findings_of_its_version(d, records, i);
    }
}

/// A lookup that was refused for the rate ends the run, and only that does; the others that failed
/// are told.
pub proof fn a_refused_lookup_ends_the_run(fetches: Fetches, i: int)
    ensures
        rate_refusal(fetches) is Some <==> exists|k: int|
            0 <= k < fetches.len() && ((#[trigger] fetches[k]).1 matches FetchedView::Failed(e) && e
                is RateLimitExceeded),
    decreases fetches.len(),
{
    if fetches.len() > 0 {
        let d = fetches.drop_last();
        a_refused_lookup_ends_the_run(d, i);
        if rate_refusal(d) is Some {
            let k = choose|k: int|
                0 <= k < d.len() && ((#[trigger] d[k]).1 matches FetchedView::Failed(e) && e
                    is RateLimitExceeded);
            assert(fetches[k] == d[k]);
        }
        if exists|k: int|
            0 <= k < fetches.len() && ((#[trigger] fetches[k]).1 matches FetchedView::Failed(e) && e
                is RateLimitExceeded) {
            let k = choose|k: int|
                0 <= k < fetches.len() && ((#[trigger] fetches[k]).1 matches FetchedView::Failed(e)
                    && e is RateLimitExceeded);
            if k < d.len() {
                assert(d[k] == fetches[k]);
            }
        }
        if rate_refusal(fetches) is Some && rate_refusal(d) is None {
            assert(fetches[fetches.len() - 1] == fetches.last());
        }
    }
}

/// What a lookup found is found by its name, and what one that failed says is told by its name.
pub proof fn lookups_are_kept_by_their_names(fetches: Fetches, i: int)
    requires
        0 <= i < fetches.len(),
        forall|k: int|
            0 <= k < fetches.len() && k != i ==> (#[trigger] fetches[k]).0 != fetches[i].0,
    ensures
        fetches[i].1 matches FetchedView::Found(ts) ==> lookup(found_records(fetches), fetches[i].0)
            == Some(ts),
        fetches[i].1 matches FetchedView::Failed(e) ==> lookup(failures(fetches), fetches[i].0)
            == Some(error_text(e)),
    decreases fetches.len(),
{
    let d = fetches.drop_last();
    let last = fetches.last();
    if let FetchedView::Found(ts) = last.1 {
        lookup_after_put(found_records(d), last.0, ts, fetches[i].0);
    }
    if let FetchedView::Failed(e) = last.1 {
        lookup_after_put(failures(d), last.0, error_text(e), fetches[i].0);
    }
    if i < d.len() {
        assert(fetches[fetches.len() - 1].0 != fetches[i].0);
        assert(d[i] == fetches[i]);
        assert forall|k: int| 0 <= k < d.len() && k != i implies (#[trigger] d[k]).0 != d[i].0 by {
            assert(d[k] == fetches[k]);
        }
        lookups_are_kept_by_their_names(d, i);
    }
}

/// The system is looked up by its kernel and by its distribution, each where its version is known,
/// and once where they are one.
pub proof fn the_system_is_looked_up_by_its_parts(info: SystemInfo)
    ensures
        ({
            let kernel = ServiceEntryView {
                name: info.kernel_name@,
                version: info.kernel_version@,
            };
            let distro = ServiceEntryView {
                name: info.distro_name@,
                version: info.distro_version@,
            };
            let k = kernel.name.len() > 0 && kernel.version.len() > 0;
            let d = distro.name.len() > 0 && distro.version.len() > 0;
            &&& k ==> system_parts(info).contains(kernel)
            &&& d && kernel.name != distro.name ==> system_parts(info).contains(distro)
            &&& !k && d ==> system_parts(info) == seq![distro]
            &&& !k && !d ==> system_parts(info).len() == 0
            &&& k && kernel.name == distro.name ==> system_parts(info) == seq![kernel]
        }),
{
    let p = system_parts(info);
    if p.len() > 0 {
        assert(p.contains(p[0]));
    }
    if p.len() > 1 {
        assert(p.contains(p[1]));
    }
}

/// A service is looked up by its product, without the instance, and by its version.
pub proof fn a_service_is_looked_up_by_its_product(s: ServiceInfoView)
    ensures
        lookup_of(s).version == s.version,
        lookup_of(s).name == product_name(pieces(s.name, CharSet::Is('@'))[0]),
        service_key(lookup_of(s)) == lookup_of(s).name + "@"@ + s.version,
{
}

/// Of several services that are one asset that asset is exposed where one of them is, and has the
/// endpoints of each.
pub proof fn an_asset_is_exposed_where_one_of_its_services_is(
    a: AssetInfoView,
    s: ServiceInfoView,
    x: Seq<char>,
)
    ensures
        asset_with(Some(a), s).exposed <==> a.exposed || s.exposed,
        asset_with(None, s).exposed == s.exposed,
        asset_with(None, s).exe == s.exe && asset_with(None, s).version == s.version,
        asset_with(Some(a), s).exe == a.exe && asset_with(Some(a), s).version == a.version,
        asset_with(Some(a), s).listeners.contains(x) <==> a.listeners.contains(x)
            || s.listeners.contains(x),
        asset_with(None, s).listeners.contains(x) <==> s.listeners.contains(x),
{
    new_texts_are_put_behind(a.listeners, s.listeners, x);
    new_texts_are_put_behind(Seq::<Seq<char>>::empty(), s.listeners, x);
}

/// Of two lists of texts each text of either is in what they make, and no other.
pub proof fn new_texts_are_put_behind(a: Seq<Seq<char>>, b: Seq<Seq<char>>, x: Seq<char>)
    ensures
        with_new(a, b).contains(x) <==> a.contains(x) || b.contains(x),
    decreases b.len(),
{
    if b.len() > 0 {
        let d = b.drop_last();
        new_texts_are_put_behind(a, d, x);
        let before = with_new(a, d);
        let all = with_new(a, b);
        if before.contains(x) {
            let k = choose|k: int| 0 <= k < before.len() && before[k] == x;
            assert(all[k] == x);
        }
        if b.contains(x) && !d.contains(x) {
            let k = choose|k: int| 0 <= k < b.len() && b[k] == x;
            if k < d.len() {
                assert(d[k] == x);
            }
            assert(x == b.last());
            if !before.contains(x) {
                assert(all[all.len() - 1] == x);
            }
        }
        if all.contains(x) && !before.contains(x) {
            let k = choose|k: int| 0 <= k < all.len() && all[k] == x;
            if k < before.len() {
                assert(before[k] == x);
            }
            assert(b[b.len() - 1] == x);
        }
        if d.contains(x) {
            let k = choose|k: int| 0 <= k < d.len() && d[k] == x;
            assert(b[k] == x);
        }
    }
}

/// Of two findings by name that are alike in severity the one with the higher EPSS is the higher risk,
/// then the one with the higher CVSS, then the one with the later id.
pub proof fn alike_risks_by_name_go_by_epss_cvss_and_id(a: ThreatEntryView, b: ThreatEntryView)
    requires
        a.kev == b.kev,
        severity_of(a.severity) == severity_of(b.severity),
    ensures
        (a.epss matches Some(x) && b.epss matches Some(y) && x.thousandths > y.thousandths)
            ==> outranks(risk_of(a), risk_of(b)),
        a.epss == b.epss && (a.cvss_score matches Some(JsonView::Number(m)) && b.cvss_score
            matches Some(JsonView::Number(n)) && m.real.hundredths > n.real.hundredths) ==> outranks(
            risk_of(a),
            risk_of(b),
        ),
        a.epss == b.epss && a.cvss_score == b.cvss_score && (a.cve_id matches Some(i) && b.cve_id
            matches Some(j)) ==> (outranks(risk_of(a), risk_of(b)) <==> precedes(
            b.cve_id->0,
            a.cve_id->0,
        )),
{
}

} // verus!
