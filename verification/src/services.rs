//! The services that run on the host, as its service managers list them.

use vstd::prelude::*;

use crate::list::{push_text, take_first};
use crate::net::{reach_of, widest, widest_is_an_upper_bound, widest_reach, Reachability};
use crate::order::{precedes, text_precedes, Ranked};
use crate::pattern::{captures, group, group_text, groups_of};
use crate::split::{first_of, first_piece, last_piece, nth, pieces, split, split_whitespace, words};
use crate::text::{
    concat2, concat3, ends_with, has_prefix, has_suffix, opt_pair_view, opt_str_view, opt_view, own, same,
    starts_with, strip_suffixes, views, without_suffixes, CharSet,
};

verus! {

// ── Services ─────────────────────────────────────────────────────────────────

/// Where a version is known from.
#[derive(Debug, Clone, Copy, PartialEq, Eq, Structural)]
pub enum VersionSource {
    PackageDb,
    Probe,
}

impl VersionSource {
    pub open spec fn name(self) -> Seq<char> {
        match self {
            VersionSource::PackageDb => "package-db"@,
            VersionSource::Probe => "probe"@,
        }
    }

    pub fn as_str(self) -> (r: &'static str)
        ensures
            r@ == self.name(),
    {
        match self {
            VersionSource::PackageDb => "package-db",
            VersionSource::Probe => "probe",
        }
    }
}

/// A service that runs.
#[derive(Debug, Clone)]
pub struct ServiceInfo {
    pub name: String,
    /// The package that owns the binary, where the package database knows it.
    pub pkg_name: Option<String>,
    pub version: String,
    pub exe: String,
    pub pid: Option<u32>,
    pub source: VersionSource,
    pub listeners: Vec<String>,
    pub reach: Reachability,
    pub exposed: bool,
}

pub struct ServiceInfoView {
    pub name: Seq<char>,
    pub pkg_name: Option<Seq<char>>,
    pub version: Seq<char>,
    pub exe: Seq<char>,
    pub pid: Option<u32>,
    pub source: VersionSource,
    pub listeners: Seq<Seq<char>>,
    pub reach: Reachability,
    pub exposed: bool,
}

impl DeepView for ServiceInfo {
    type V = ServiceInfoView;

    open spec fn deep_view(&self) -> ServiceInfoView {
        ServiceInfoView {
            name: self.name@,
            pkg_name: opt_view(self.pkg_name),
            version: self.version@,
            exe: self.exe@,
            pid: self.pid,
            source: self.source,
            listeners: views(self.listeners@),
            reach: self.reach,
            exposed: self.exposed,
        }
    }
}

/// Services rank by name.
impl Ranked for ServiceInfo {
    open spec fn before(a: ServiceInfoView, b: ServiceInfoView) -> bool {
        precedes(a.name, b.name)
    }

    proof fn rank_is_order(a: ServiceInfoView, b: ServiceInfoView, c: ServiceInfoView) {
        <String as Ranked>::rank_is_order(a.name, b.name, c.name);
    }

    fn ranks_before(&self, other: &Self) -> (r: bool) {
        text_precedes(self.name.as_str(), other.name.as_str())
    }
}

/// What is known of a binary: the owning package, where there is one, the version
/// and its source.
pub type Provenance = (Option<String>, String, VersionSource);

pub type ProvenanceView = (Option<Seq<char>>, Seq<char>, VersionSource);

pub open spec fn provenance_view(p: Option<Provenance>) -> Option<ProvenanceView> {
    match p {
        Some((name, version, source)) => Some((opt_view(name), version@, source)),
        None => None,
    }
}

/// The package database decides; what the binary says of itself is the fallback,
/// and names no package.
pub open spec fn provenance(
    owner: Option<(Seq<char>, Seq<char>)>,
    probed: Option<Seq<char>>,
) -> Option<ProvenanceView> {
    match owner {
        Some((name, version)) => Some((Some(name), version, VersionSource::PackageDb)),
        None => match probed {
            Some(version) => Some((None, version, VersionSource::Probe)),
            None => None,
        },
    }
}

/// What is known of a binary, from the package that owns it and from the version
/// that it reported.
pub fn version_for_binary(owner: Option<(String, String)>, probed: Option<String>) -> (r: Option<
    Provenance,
>)
    ensures
        provenance_view(r) == provenance(opt_pair_view(owner), opt_view(probed)),
{
    match owner {
        Some((name, version)) => Some((Some(name), version, VersionSource::PackageDb)),
        None => match probed {
            Some(version) => Some((None, version, VersionSource::Probe)),
            None => None,
        },
    }
}

/// A service whose binary has a known version. Nothing is known of its sockets yet.
pub open spec fn service_of(
    name: Seq<char>,
    exe: Seq<char>,
    pid: Option<u32>,
    known: Option<ProvenanceView>,
) -> Option<ServiceInfoView> {
    match known {
        Some((pkg_name, version, source)) => Some(
            ServiceInfoView {
                name,
                pkg_name,
                version,
                exe,
                pid,
                source,
                listeners: Seq::empty(),
                reach: Reachability::Closed,
                exposed: false,
            },
        ),
        None => None,
    }
}

pub open spec fn opt_service_view(s: Option<ServiceInfo>) -> Option<ServiceInfoView> {
    match s {
        Some(s) => Some(s.deep_view()),
        None => None,
    }
}

/// The service `name`, where the version of its binary is known.
pub fn make_service(name: &str, exe: &str, pid: Option<u32>, known: Option<Provenance>) -> (r:
    Option<ServiceInfo>)
    ensures
        opt_service_view(r) == service_of(name@, exe@, pid, provenance_view(known)),
{
    match known {
        Some((pkg_name, version, source)) => {
            let listeners: Vec<String> = Vec::new();
            assert(views(listeners@) =~= Seq::<Seq<char>>::empty());
            Some(
                ServiceInfo {
                    name: own(name),
                    pkg_name,
                    version,
                    exe: own(exe),
                    pid,
                    source,
                    listeners,
                    reach: Reachability::Closed,
                    exposed: false,
                },
            )
        },
        None => None,
    }
}

/// The service that goes by `display_name`, where its binary was found.
pub fn service_from_name(display_name: &str, exe: Option<&str>, known: Option<Provenance>) -> (r:
    Option<ServiceInfo>)
    ensures
        opt_service_view(r) == (match opt_str_view(exe) {
            Some(e) => service_of(display_name@, e, None, provenance_view(known)),
            None => None,
        }),
{
    match exe {
        Some(e) => make_service(display_name, e, None, known),
        None => None,
    }
}

// ── Sockets of a service ─────────────────────────────────────────────────────

/// A service with the endpoints that its process listens on. A service without a
/// process stays as it is.
pub open spec fn with_listeners(s: ServiceInfoView, eps: Seq<Seq<char>>) -> ServiceInfoView {
    if s.pid is None {
        s
    } else {
        ServiceInfoView {
            listeners: eps,
            reach: widest(eps),
            exposed: widest(eps).is_exposed(),
            ..s
        }
    }
}

pub open spec fn lists_of_views(v: Seq<Vec<String>>) -> Seq<Seq<Seq<char>>> {
    Seq::new(v.len(), |i: int| views(v[i]@))
}

/// Each service with its endpoints.
pub open spec fn exposed_services(
    services: Seq<ServiceInfoView>,
    eps: Seq<Seq<Seq<char>>>,
) -> Seq<ServiceInfoView> {
    Seq::new(services.len(), |i: int| with_listeners(services[i], eps[i]))
}

impl ServiceInfo {
    /// Records the endpoints that the process of the service listens on.
    pub fn expose(self, eps: Vec<String>) -> (r: ServiceInfo)
        ensures
            r.deep_view() == with_listeners(self.deep_view(), views(eps@)),
    {
        match self.pid {
            Some(_) => {
                let reach = widest_reach(&eps);
                ServiceInfo {
                    name: self.name,
                    pkg_name: self.pkg_name,
                    version: self.version,
                    exe: self.exe,
                    pid: self.pid,
                    source: self.source,
                    listeners: eps,
                    reach,
                    exposed: reach.exposed(),
                }
            },
            None => self,
        }
    }
}

/// Records for each service the endpoints that its process listens on, given in
/// the order of the services.
pub fn enrich_exposure(services: &mut Vec<ServiceInfo>, eps: Vec<Vec<String>>)
    requires
        old(services)@.len() == eps@.len(),
    ensures
        final(services).deep_view() == exposed_services(
            old(services).deep_view(),
            lists_of_views(eps@),
        ),
{
    let ghost before = services.deep_view();
    let ghost all = lists_of_views(eps@);
    let mut out: Vec<ServiceInfo> = Vec::new();
    let mut eps_left = eps;
    let n: usize = services.len();
    let mut i: usize = 0;
    assert(services.deep_view().len() == services@.len());
    assert(services.deep_view() =~= before.skip(0));
    assert(lists_of_views(eps_left@) =~= all.skip(0));
    assert(out.deep_view() =~= exposed_services(before, all).take(0));
    while i < n
        invariant
            i <= n,
            n == before.len(),
            n == all.len(),
            services@.len() == n - i,
            eps_left@.len() == n - i,
            services.deep_view() == before.skip(i as int),
            lists_of_views(eps_left@) == all.skip(i as int),
            out.deep_view() == exposed_services(before, all).take(i as int),
        decreases n - i,
    {
        let ghost made = out.deep_view();
        let ghost eps_before = eps_left@;
        let s = take_first(services);
        let e = eps_left.remove(0);
        proof {
            assert(before.skip(i as int).skip(1) =~= before.skip(i + 1));
            assert(lists_of_views(eps_left@) =~= lists_of_views(eps_before).skip(1));
            assert(all.skip(i as int).skip(1) =~= all.skip(i + 1));
            assert(lists_of_views(eps_before)[0] == views(e@));
        }
        let x = s.expose(e);
        out.push(x);
        assert(out.deep_view() =~= made.push(x.deep_view()));
        assert(exposed_services(before, all).take(i + 1) =~= exposed_services(before, all).take(
            i as int,
        ).push(x.deep_view()));
        i += 1;
    }
    assert(exposed_services(before, all).take(n as int) =~= exposed_services(before, all));
    *services = out;
}

/// A service is exposed exactly where one of its endpoints can be reached from
/// another host.
pub proof fn exposed_by_an_endpoint(s: ServiceInfoView, eps: Seq<Seq<char>>)
    requires
        s.pid is Some,
    ensures
        with_listeners(s, eps).exposed <==> exists|i: int|
            0 <= i < eps.len() && reach_of(#[trigger] eps[i]).is_exposed(),
{
    let w = widest(eps);
    if eps.len() > 0 {
        widest_is_an_upper_bound(eps, 0);
        let k = choose|k: int| 0 <= k < eps.len() && w == reach_of(#[trigger] eps[k]);
        if w.is_exposed() {
            assert(reach_of(eps[k]).is_exposed());
        }
        assert forall|i: int|
            0 <= i < eps.len() && reach_of(#[trigger] eps[i]).is_exposed() implies w.is_exposed() by {
            widest_is_an_upper_bound(eps, i);
        }
    }
}

// ── systemd ──────────────────────────────────────────────────────────────────

/// A unit and the binary that it runs.
pub struct UnitEntry {
    pub name: String,
    pub exe: String,
    pub pid: Option<u32>,
}

/// The first absolute path between quotation marks.
pub const EXECSTART_PATTERN: &'static str = r#""/([^"]+)""#;

/// The path that the groups of a match give.
pub open spec fn start_path(groups: Option<Seq<Option<Seq<char>>>>) -> Option<Seq<char>> {
    match group_text(groups, 1) {
        Some(p) => Some("/"@ + p),
        None => None,
    }
}

/// The path that the groups of a match of `EXECSTART_PATTERN` give.
pub fn path_of_start_groups(groups: &Option<Vec<Option<String>>>) -> (r: Option<String>)
    ensures
        opt_view(r) == start_path(groups.deep_view()),
{
    match group(groups, 1) {
        Some(p) => Some(concat2("/", p)),
        None => None,
    }
}

/// The binary in the `ExecStart` property of a unit, as written out.
pub fn exec_start_path(raw: &str) -> (r: Option<String>)
    ensures
        opt_view(r) == start_path(groups_of(EXECSTART_PATTERN@, raw@)),
{
    let groups = captures(EXECSTART_PATTERN, raw);
    path_of_start_groups(&groups)
}

/// The name of a unit that is an active service.
pub open spec fn active_unit(name: Seq<char>, state: Seq<char>) -> Option<Seq<char>> {
    if state == "active"@ && has_suffix(name, ".service"@) {
        Some(without_suffixes(name, ".service"@))
    } else {
        None
    }
}

/// The name of a unit that is an active service.
pub fn active_service(name: &str, state: &str) -> (r: Option<String>)
    ensures
        opt_view(r) == active_unit(name@, state@),
{
    if same(state, "active") && ends_with(name, ".service") {
        Some(strip_suffixes(name, ".service"))
    } else {
        None
    }
}

/// Units that run once and keep no process.
pub open spec fn is_one_shot(unit: Seq<char>) -> bool {
    ||| unit == "systemd-journal-flush"@
    ||| unit == "systemd-tmpfiles-setup"@
    ||| unit == "systemd-tmpfiles-setup-dev"@
    ||| unit == "systemd-tmpfiles-setup-dev-early"@
    ||| unit == "systemd-udev-trigger"@
    ||| unit == "systemd-update-utmp"@
    ||| unit == "systemd-user-sessions"@
    ||| unit == "systemd-remount-fs"@
    ||| unit == "systemd-random-seed"@
    ||| unit == "systemd-binfmt"@
    ||| unit == "systemd-modules-load"@
    ||| unit == "systemd-sysctl"@
}

fn one_shot(unit: &str) -> (r: bool)
    ensures
        r == is_one_shot(unit@),
{
    same(unit, "systemd-journal-flush") || same(unit, "systemd-tmpfiles-setup") || same(
        unit,
        "systemd-tmpfiles-setup-dev",
    ) || same(unit, "systemd-tmpfiles-setup-dev-early") || same(unit, "systemd-udev-trigger")
        || same(unit, "systemd-update-utmp") || same(unit, "systemd-user-sessions") || same(
        unit,
        "systemd-remount-fs",
    ) || same(unit, "systemd-random-seed") || same(unit, "systemd-binfmt") || same(
        unit,
        "systemd-modules-load",
    ) || same(unit, "systemd-sysctl")
}

/// The main process of a unit: a unit without one reports zero.
pub open spec fn running_pid(main_pid: Option<u32>) -> Option<u32> {
    match main_pid {
        Some(p) => if p > 0 {
            Some(p)
        } else {
            None
        },
        None => None,
    }
}

/// The main process of a unit.
pub fn live_pid(main_pid: Option<u32>) -> (r: Option<u32>)
    ensures
        r == running_pid(main_pid),
{
    match main_pid {
        Some(p) => if p > 0 {
            Some(p)
        } else {
            None
        },
        None => None,
    }
}

/// The binary of a process, from the link `/proc/<pid>/exe`. A binary that was
/// replaced while it ran is marked as deleted.
pub open spec fn linked_exe(link: Seq<char>) -> Option<Seq<char>> {
    let path = without_suffixes(link, " (deleted)"@);
    if has_prefix(path, "/"@) {
        Some(path)
    } else {
        None
    }
}

/// Where systemd keeps binaries of its own.
pub open spec fn systemd_places(unit: Seq<char>) -> Seq<Seq<char>> {
    seq!["/usr/lib/systemd/"@ + unit, "/lib/systemd/"@ + unit]
}

/// The paths under which systemd may keep a binary of the unit's name.
pub fn systemd_paths(unit: &str) -> (r: Vec<String>)
    ensures
        views(r@) == systemd_places(unit@),
{
    let r = vec![concat2("/usr/lib/systemd/", unit), concat2("/lib/systemd/", unit)];
    assert(views(r@) =~= systemd_places(unit@));
    r
}

/// The binary of a unit: that of its process, else the one that it starts, else
/// one that systemd keeps under its name, else systemd itself.
pub open spec fn unit_exe(
    unit: Seq<char>,
    main_pid: Option<u32>,
    link: Option<Seq<char>>,
    started: Option<Seq<char>>,
    installed: Option<Seq<char>>,
) -> Option<Seq<char>> {
    let linked = match link {
        Some(l) => if running_pid(main_pid) is Some {
            linked_exe(l)
        } else {
            None
        },
        None => None,
    };
    if linked is Some {
        linked
    } else if started is Some {
        started
    } else if installed is Some {
        installed
    } else if !is_one_shot(unit) && has_prefix(unit, "systemd-"@) {
        Some("/usr/lib/systemd/systemd"@)
    } else {
        None
    }
}

/// The binary of a unit and its main process. `link` is where `/proc/<pid>/exe`
/// leads; `started` is the binary that the unit starts and `installed` the one that
/// systemd keeps under its name, each where it exists.
pub fn resolve_exe(
    unit: &str,
    main_pid: Option<u32>,
    link: Option<&str>,
    started: Option<&str>,
    installed: Option<&str>,
) -> (r: Option<(String, Option<u32>)>)
    ensures
        match unit_exe(
            unit@,
            main_pid,
            opt_str_view(link),
            opt_str_view(started),
            opt_str_view(installed),
        ) {
            Some(exe) => r matches Some((e, p)) && e@ == exe && p == running_pid(main_pid),
            None => r is None,
        },
{
    let pid = live_pid(main_pid);
    if pid.is_some() {
        if let Some(l) = link {
            let path = strip_suffixes(l, " (deleted)");
            if starts_with(path.as_str(), "/") {
                return Some((path, pid));
            }
        }
    }
    if let Some(s) = started {
        return Some((own(s), pid));
    }
    if let Some(s) = installed {
        return Some((own(s), pid));
    }
    if !one_shot(unit) && starts_with(unit, "systemd-") {
        return Some((own("/usr/lib/systemd/systemd"), pid));
    }
    None
}

/// Whether a binary is one that only reports success or failure.
pub open spec fn does_nothing(exe: Seq<char>) -> bool {
    let base = pieces(exe, CharSet::Is('/')).last();
    base == "true"@ || base == "false"@
}

/// The entry of a unit, unless its binary only reports success or failure.
pub fn unit_entry(name: &str, exe: &str, pid: Option<u32>) -> (r: Option<UnitEntry>)
    ensures
        match r {
            Some(u) => !does_nothing(exe@) && u.name@ == name@ && u.exe@ == exe@ && u.pid == pid,
            None => does_nothing(exe@),
        },
{
    let base = last_piece(exe, CharSet::Is('/'));
    if same(base.as_str(), "true") || same(base.as_str(), "false") {
        None
    } else {
        Some(UnitEntry { name: own(name), exe: own(exe), pid })
    }
}

// ── Names and binaries ───────────────────────────────────────────────────────

/// The product that a service belongs to.
pub open spec fn product_name(name: Seq<char>) -> Seq<char> {
    if name == "ssh"@ {
        "openssh"@
    } else if name == "apache2"@ || name == "httpd"@ {
        "apache"@
    } else if name == "mariadb"@ {
        "mysql"@
    } else if name == "postgres"@ {
        "postgresql"@
    } else {
        name
    }
}

/// The product that a service belongs to.
pub fn normalize_service_name(name: &str) -> (r: String)
    ensures
        r@ == product_name(name@),
{
    if same(name, "ssh") {
        own("openssh")
    } else if same(name, "apache2") || same(name, "httpd") {
        own("apache")
    } else if same(name, "mariadb") {
        own("mysql")
    } else if same(name, "postgres") {
        own("postgresql")
    } else {
        own(name)
    }
}

/// The name of a unit without its instance.
pub fn strip_instance(name: &str) -> (r: String)
    ensures
        r@ == pieces(name@, CharSet::Is('@'))[0],
{
    first_piece(name, CharSet::Is('@'))
}

/// The binary of a service that goes by another name.
pub open spec fn daemon_of(service: Seq<char>) -> Seq<char> {
    if service == "ssh"@ {
        "sshd"@
    } else {
        service
    }
}

/// The binary of a service that goes by another name.
pub fn daemon_alias(service: &str) -> (r: String)
    ensures
        r@ == daemon_of(service@),
{
    if same(service, "ssh") {
        own("sshd")
    } else {
        own(service)
    }
}

/// The directories that are always searched for binaries.
pub open spec fn safe_path_dirs() -> Seq<Seq<char>> {
    seq![
        "/usr/local/sbin"@,
        "/usr/local/bin"@,
        "/usr/sbin"@,
        "/usr/bin"@,
        "/sbin"@,
        "/bin"@,
        "/opt/homebrew/bin"@,
        "/opt/homebrew/sbin"@,
        "/usr/pkg/sbin"@,
        "/usr/pkg/bin"@,
    ]
}

fn safe_dirs() -> (r: Vec<String>)
    ensures
        views(r@) == safe_path_dirs(),
{
    let r = vec![
        own("/usr/local/sbin"),
        own("/usr/local/bin"),
        own("/usr/sbin"),
        own("/usr/bin"),
        own("/sbin"),
        own("/bin"),
        own("/opt/homebrew/bin"),
        own("/opt/homebrew/sbin"),
        own("/usr/pkg/sbin"),
        own("/usr/pkg/bin"),
    ];
    assert(views(r@) =~= safe_path_dirs());
    r
}

pub open spec fn if_absolute(d: Seq<char>) -> Option<Seq<char>> {
    if has_prefix(d, "/"@) {
        Some(d)
    } else {
        None
    }
}

/// The absolute ones of the paths.
pub open spec fn absolute_ones(ds: Seq<Seq<char>>) -> Seq<Seq<char>> {
    ds.filter_map(|d: Seq<char>| if_absolute(d))
}

/// The directories to search, given the search path of the environment.
pub open spec fn search_dirs(path_env: Seq<char>) -> Seq<Seq<char>> {
    safe_path_dirs() + absolute_ones(pieces(path_env, CharSet::Is(':')))
}

/// The binary and the daemon of that name, directory by directory.
pub open spec fn in_dirs(dirs: Seq<Seq<char>>, base: Seq<char>) -> Seq<Seq<char>>
    decreases dirs.len(),
{
    if dirs.len() == 0 {
        Seq::empty()
    } else {
        in_dirs(dirs.drop_last(), base) + seq![
            dirs.last() + "/"@ + base,
            dirs.last() + "/"@ + (base + "d"@),
        ]
    }
}

/// The first word of a command; the command where it has none.
pub open spec fn command_word(name: Seq<char>) -> Seq<char> {
    match first_of(words(name)) {
        Some(w) => w,
        None => name,
    }
}

/// The paths at which the binary of a service is looked for, in order.
pub open spec fn candidates_of(name: Seq<char>, path_env: Seq<char>) -> Seq<Seq<char>> {
    let first = command_word(name);
    let base = daemon_of(pieces(first, CharSet::Is('/')).last());
    if has_prefix(first, "/"@) {
        seq![first]
    } else if base.len() == 0 {
        Seq::empty()
    } else {
        in_dirs(search_dirs(path_env), base)
    }
}

fn search_path(path_env: &str) -> (r: Vec<String>)
    ensures
        views(r@) == search_dirs(path_env@),
{
    let mut dirs = safe_dirs();
    let entries = split(path_env, CharSet::Is(':'));
    let ghost q = views(entries@);
    let mut i: usize = 0;
    assert(views(dirs@) =~= safe_path_dirs() + absolute_ones(q.take(0)));
    while i < entries.len()
        invariant
            i <= entries@.len(),
            q == views(entries@),
            views(dirs@) == safe_path_dirs() + absolute_ones(q.take(i as int)),
        decreases entries@.len() - i,
    {
        proof {
            assert(q.take(i + 1).drop_last() =~= q.take(i as int));
            assert(q.take(i + 1).last() == entries@[i as int]@);
        }
        let d = if starts_with(entries[i].as_str(), "/") {
            Some(entries[i].clone())
        } else {
            None
        };
        push_text(&mut dirs, d);
        assert(views(dirs@) =~= safe_path_dirs() + absolute_ones(q.take(i + 1)));
        i += 1;
    }
    assert(q.take(q.len() as int) =~= q);
    dirs
}

/// The paths at which the binary of a service is looked for, in order: an absolute
/// path stands for itself; another name is looked for in the usual directories and
/// in the absolute ones of the search path.
pub fn binary_candidates(name: &str, path_env: &str) -> (r: Vec<String>)
    ensures
        views(r@) == candidates_of(name@, path_env@),
{
    let w = split_whitespace(name);
    let first = match nth(&w, 0) {
        Some(f) => own(f),
        None => own(name),
    };
    if starts_with(first.as_str(), "/") {
        let r = vec![first];
        assert(views(r@) =~= seq![command_word(name@)]);
        return r;
    }
    let tail = last_piece(first.as_str(), CharSet::Is('/'));
    let base = daemon_alias(tail.as_str());
    let mut out: Vec<String> = Vec::new();
    assert(views(out@) =~= Seq::<Seq<char>>::empty());
    if base.as_str().is_empty() {
        return out;
    }
    let daemon = concat2(base.as_str(), "d");
    let dirs = search_path(path_env);
    let ghost q = views(dirs@);
    let mut i: usize = 0;
    while i < dirs.len()
        invariant
            i <= dirs@.len(),
            q == views(dirs@),
            daemon@ == base@ + "d"@,
            views(out@) == in_dirs(q.take(i as int), base@),
        decreases dirs@.len() - i,
    {
        let ghost before = views(out@);
        proof {
            assert(q.take(i + 1).drop_last() =~= q.take(i as int));
            assert(q.take(i + 1).last() == dirs@[i as int]@);
        }
        out.push(concat3(dirs[i].as_str(), "/", base.as_str()));
        out.push(concat3(dirs[i].as_str(), "/", daemon.as_str()));
        assert(views(out@) =~= before + seq![
            q[i as int] + "/"@ + base@,
            q[i as int] + "/"@ + daemon@,
        ]);
        i += 1;
    }
    assert(q.take(q.len() as int) =~= q);
    out
}

/// The first of the paths that is there.
pub open spec fn first_there(paths: Seq<Seq<char>>, there: Seq<bool>) -> Option<Seq<char>>
    decreases paths.len(),
{
    if paths.len() == 0 || there.len() == 0 {
        None
    } else if there[0] {
        Some(paths[0])
    } else {
        first_there(paths.skip(1), there.skip(1))
    }
}

/// The first of the paths that is there; `there` says it of each path.
pub fn first_present(paths: &Vec<String>, there: &Vec<bool>) -> (r: Option<String>)
    ensures
        opt_view(r) == first_there(views(paths@), there@),
{
    let ghost q = views(paths@);
    let mut i: usize = 0;
    assert(q.skip(0) =~= q);
    assert(there@.skip(0) =~= there@);
    while i < paths.len() && i < there.len()
        invariant
            i <= paths@.len(),
            i <= there@.len(),
            q == views(paths@),
            first_there(q, there@) == first_there(q.skip(i as int), there@.skip(i as int)),
        decreases paths@.len() - i,
    {
        proof {
            assert(q.skip(i as int).skip(1) =~= q.skip(i + 1));
            assert(there@.skip(i as int).skip(1) =~= there@.skip(i + 1));
        }
        if there[i] {
            return Some(paths[i].clone());
        }
        i += 1;
    }
    None
}

/// The binary of a service: the first of its candidates that is a file; `there`
/// says it of each candidate.
pub fn resolve_binary(name: &str, path_env: &str, there: &Vec<bool>) -> (r: Option<String>)
    ensures
        opt_view(r) == first_there(candidates_of(name@, path_env@), there@),
{
    let paths = binary_candidates(name, path_env);
    first_present(&paths, there)
}

proof fn lemma_in_dirs_absolute(dirs: Seq<Seq<char>>, base: Seq<char>, i: int)
    requires
        forall|k: int| 0 <= k < dirs.len() ==> has_prefix(#[trigger] dirs[k], "/"@),
        0 <= i < in_dirs(dirs, base).len(),
    ensures
        has_prefix(in_dirs(dirs, base)[i], "/"@),
    decreases dirs.len(),
{
    reveal_strlit("/");
    if dirs.len() > 0 {
        let d = dirs.drop_last();
        let before = in_dirs(d, base);
        assert(has_prefix(dirs[dirs.len() - 1], "/"@));
        assert(dirs.last()[0] == '/') by {
            assert(dirs.last().take(1)[0] == '/');
        }
        if i < before.len() {
            assert forall|k: int| 0 <= k < d.len() implies has_prefix(#[trigger] d[k], "/"@) by {
                assert(d[k] == dirs[k]);
            }
            lemma_in_dirs_absolute(d, base, i);
        } else {
            let x = in_dirs(dirs, base)[i];
            assert(x[0] == '/');
            assert(x.take(1) =~= "/"@);
        }
    }
}

proof fn lemma_absolute_ones(ds: Seq<Seq<char>>, k: int)
    requires
        0 <= k < absolute_ones(ds).len(),
    ensures
        has_prefix(absolute_ones(ds)[k], "/"@),
    decreases ds.len(),
{
    reveal(Seq::filter_map);
    if ds.len() > 0 {
        let before = absolute_ones(ds.drop_last());
        if k < before.len() {
            lemma_absolute_ones(ds.drop_last(), k);
        }
    }
}

/// Only absolute paths are ever candidates for the binary of a service, whatever
/// the name and the search path are.
pub proof fn candidates_are_absolute(name: Seq<char>, path_env: Seq<char>, i: int)
    requires
        0 <= i < candidates_of(name, path_env).len(),
    ensures
        has_prefix(candidates_of(name, path_env)[i], "/"@),
{
    let first = command_word(name);
    if !has_prefix(first, "/"@) {
        let base = daemon_of(pieces(first, CharSet::Is('/')).last());
        let dirs = search_dirs(path_env);
        let own_dirs = absolute_ones(pieces(path_env, CharSet::Is(':')));
        assert forall|k: int| 0 <= k < dirs.len() implies has_prefix(#[trigger] dirs[k], "/"@) by {
            reveal_strlit("/");
            reveal_strlit("/usr/local/sbin");
            reveal_strlit("/usr/local/bin");
            reveal_strlit("/usr/sbin");
            reveal_strlit("/usr/bin");
            reveal_strlit("/sbin");
            reveal_strlit("/bin");
            reveal_strlit("/opt/homebrew/bin");
            reveal_strlit("/opt/homebrew/sbin");
            reveal_strlit("/usr/pkg/sbin");
            reveal_strlit("/usr/pkg/bin");
            if k < 10 {
                assert(dirs[k] == safe_path_dirs()[k]);
                assert(dirs[k].take(1) =~= "/"@);
            } else {
                assert(dirs[k] == own_dirs[k - 10]);
                lemma_absolute_ones(pieces(path_env, CharSet::Is(':')), k - 10);
            }
        }
        lemma_in_dirs_absolute(dirs, base, i);
    }
}

} // verus!
