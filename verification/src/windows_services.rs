//! The services of a Windows host, its assets, and the updates that it lacks.

use vstd::prelude::*;

use crate::asset::{append_assets, Asset, AssetView, Collector, Ecosystem, Runtime, RuntimeView, Source};
use crate::cpe::{app_name, clean_app_name, cpe_for_app};
use crate::host::{OsType, OsTypeView, WinOs, WinOsView};
use crate::list::{push_text, take_first};
use crate::net::{widest, widest_reach};
use crate::number::{decimal, number, parse_u32, to_decimal};
use crate::order::{ranked, sort_ranked, Ranked};
use crate::split::{
    cut_last, first_piece, last_piece, lines, pieces, rsplit_once, split_whitespace, text_lines, words,
};
use crate::text::{
    ascii_lower, concat3, concat4, contains_char, eq_ignore_ascii_case, lowercase, opt_str_view, opt_view, or_empty,
    own, same, to_lowercase, trim, trim_end_matches, trim_start_matches, trimmed, trimmed_end, trimmed_start, views,
    CharSet,
};
use crate::windows::{
    cpe_of, no_texts, one_source, one_text, os_asset, plain_version, push_asset, sanitize_version, string_or_nothing,
    text_or_nothing, windows_asset,
};

verus! {

// ── Sockets ──────────────────────────────────────────────────────────────────

/// A socket that listens.
#[derive(Debug)]
pub struct WinListener {
    pub local_address: Option<String>,
    pub local_port: Option<u32>,
    pub owning_process: Option<u32>,
}

pub struct WinListenerView {
    pub local_address: Option<Seq<char>>,
    pub local_port: Option<u32>,
    pub owning_process: Option<u32>,
}

impl DeepView for WinListener {
    type V = WinListenerView;

    open spec fn deep_view(&self) -> WinListenerView {
        WinListenerView {
            local_address: opt_view(self.local_address),
            local_port: self.local_port,
            owning_process: self.owning_process,
        }
    }
}

pub open spec fn same_word(a: Seq<char>, b: Seq<char>) -> bool {
    ascii_lower(a) == ascii_lower(b)
}

/// The socket on a line of `netstat -ano`: only sockets of TCP that listen count.
pub open spec fn netstat_line(l: Seq<char>) -> Option<WinListenerView> {
    let c = words(l);
    if c.len() < 5 || !same_word(c[0], "TCP"@) || !same_word(c[3], "LISTENING"@) {
        None
    } else {
        match number(c[4], 10, u32::MAX as nat) {
            None => None,
            Some(pid) => match cut_last(c[1], ":"@) {
                None => None,
                Some((host, port)) => match number(port, 10, u32::MAX as nat) {
                    None => None,
                    Some(p) => Some(
                        WinListenerView {
                            local_address: Some(
                                trimmed_end(
                                    trimmed_start(host, CharSet::Is('[')),
                                    CharSet::Is(']'),
                                ),
                            ),
                            local_port: Some(p as u32),
                            owning_process: Some(pid as u32),
                        },
                    ),
                },
            },
        }
    }
}

pub open spec fn netstat_listeners(ls: Seq<Seq<char>>) -> Seq<WinListenerView> {
    ls.filter_map(|l: Seq<char>| netstat_line(l))
}

fn parse_netstat_line(l: &str) -> (r: Option<WinListener>)
    ensures
        r.deep_view() == netstat_line(l@),
{
    let c = split_whitespace(l);
    let ghost q = views(c@);
    if c.len() < 5 {
        return None;
    }
    assert(q[0] == c@[0]@ && q[1] == c@[1]@ && q[3] == c@[3]@ && q[4] == c@[4]@);
    if !eq_ignore_ascii_case(c[0].as_str(), "TCP") || !eq_ignore_ascii_case(
        c[3].as_str(),
        "LISTENING",
    ) {
        return None;
    }
    match parse_u32(c[4].as_str()) {
        None => None,
        Some(pid) => match rsplit_once(c[1].as_str(), ":") {
            None => None,
            Some((host, port)) => match parse_u32(port.as_str()) {
                None => None,
                Some(p) => {
                    let h = trim_start_matches(host.as_str(), CharSet::Is('['));
                    let h = trim_end_matches(h.as_str(), CharSet::Is(']'));
                    Some(
                        WinListener {
                            local_address: Some(h),
                            local_port: Some(p),
                            owning_process: Some(pid),
                        },
                    )
                },
            },
        },
    }
}

/// The sockets that `netstat -ano` prints.
pub fn parse_netstat(out: &str) -> (r: Vec<WinListener>)
    ensures
        r.deep_view() == netstat_listeners(text_lines(out@)),
{
    let ls = lines(out);
    let ghost q = views(ls@);
    let mut r: Vec<WinListener> = Vec::new();
    let mut i: usize = 0;
    assert(r.deep_view() =~= netstat_listeners(q.take(0)));
    while i < ls.len()
        invariant
            i <= ls@.len(),
            q == views(ls@),
            r.deep_view() == netstat_listeners(q.take(i as int)),
        decreases ls@.len() - i,
    {
        let ghost before = r.deep_view();
        assert(q.take(i + 1).drop_last() =~= q.take(i as int));
        assert(q.take(i + 1).last() == ls@[i as int]@);
        if let Some(x) = parse_netstat_line(ls[i].as_str()) {
            r.push(x);
            assert(r.deep_view() =~= before + seq![x.deep_view()]);
        }
        i += 1;
    }
    assert(q.take(q.len() as int) =~= q);
    r
}

/// An address and a port as an endpoint. An address of IPv6 loses its zone and
/// stands in brackets.
pub open spec fn endpoint(addr: Seq<char>, port: u32) -> Seq<char> {
    let a = pieces(addr, CharSet::Is('%'))[0];
    if a.contains(':') {
        "["@ + a + "]:"@ + decimal(port as nat)
    } else {
        a + ":"@ + decimal(port as nat)
    }
}

/// The endpoint of a socket of the process.
pub open spec fn endpoint_of(l: WinListenerView, pid: u32) -> Option<Seq<char>> {
    match (l.local_address, l.local_port, l.owning_process) {
        (Some(addr), Some(port), Some(p)) => if p == pid {
            Some(endpoint(addr, port))
        } else {
            None
        },
        _ => None,
    }
}

/// The endpoints of the process.
pub open spec fn endpoints_of(ls: Seq<WinListenerView>, pid: u32) -> Seq<Seq<char>> {
    ls.filter_map(|l: WinListenerView| endpoint_of(l, pid))
}

fn write_endpoint(addr: &str, port: u32) -> (r: String)
    ensures
        r@ == endpoint(addr@, port),
{
    let a = first_piece(addr, CharSet::Is('%'));
    let p = to_decimal(port as u64);
    if contains_char(a.as_str(), ':') {
        concat4("[", a.as_str(), "]:", p.as_str())
    } else {
        concat3(a.as_str(), ":", p.as_str())
    }
}

fn listeners_of(ls: &Vec<WinListener>, pid: u32) -> (r: Vec<String>)
    ensures
        views(r@) == endpoints_of(ls.deep_view(), pid),
{
    let ghost q = ls.deep_view();
    let mut r: Vec<String> = Vec::new();
    let mut i: usize = 0;
    assert(views(r@) =~= endpoints_of(q.take(0), pid));
    while i < ls.len()
        invariant
            i <= ls@.len(),
            q == ls.deep_view(),
            views(r@) == endpoints_of(q.take(i as int), pid),
        decreases ls@.len() - i,
    {
        assert(q.take(i + 1).drop_last() =~= q.take(i as int));
        assert(q.take(i + 1).last() == ls@[i as int].deep_view());
        if let (Some(addr), Some(port), Some(p)) = (
            &ls[i].local_address,
            ls[i].local_port,
            ls[i].owning_process,
        ) {
            if p == pid {
                let ep = write_endpoint(addr.as_str(), port);
                push_text(&mut r, Some(ep));
            }
        }
        i += 1;
    }
    assert(q.take(q.len() as int) =~= q);
    r
}

// ── Services ─────────────────────────────────────────────────────────────────

/// A service that runs.
#[derive(Debug)]
pub struct WinService {
    pub name: Option<String>,
    pub display: Option<String>,
    pub exe: Option<String>,
    pub pid: Option<u32>,
    pub version: Option<String>,
}

pub struct WinServiceView {
    pub name: Option<Seq<char>>,
    pub display: Option<Seq<char>>,
    pub exe: Option<Seq<char>>,
    pub pid: Option<u32>,
    pub version: Option<Seq<char>>,
}

impl DeepView for WinService {
    type V = WinServiceView;

    open spec fn deep_view(&self) -> WinServiceView {
        WinServiceView {
            name: opt_view(self.name),
            display: opt_view(self.display),
            exe: opt_view(self.exe),
            pid: self.pid,
            version: opt_view(self.version),
        }
    }
}

/// What a service is called: its display name, or else its name.
pub open spec fn called(s: WinServiceView) -> Seq<char> {
    match s.display {
        Some(d) => if trimmed(d).len() > 0 {
            d
        } else {
            or_empty(s.name)
        },
        None => or_empty(s.name),
    }
}

/// Whether a binary is the shared host of services of the system.
pub open spec fn is_shared_host(exe: Seq<char>) -> bool {
    lowercase(pieces(exe, CharSet::Either('\\', '/')).last()) == "svchost.exe"@
}

/// A service as an asset. Those of the shared host are the system's own, and those
/// without a name are left out.
pub open spec fn service_asset_of(s: WinServiceView, ls: Seq<WinListenerView>) -> Option<AssetView> {
    let exe = or_empty(s.exe);
    let display = called(s);
    let name = app_name(display);
    if is_shared_host(exe) || trimmed(display).len() == 0 || name.len() == 0 {
        None
    } else {
        let listeners = match s.pid {
            Some(p) => endpoints_of(ls, p),
            None => Seq::empty(),
        };
        let version = plain_version(or_empty(s.version));
        Some(
            AssetView {
                ecosystem: Ecosystem::WinApp,
                name,
                pkg_name: Some(name),
                version,
                sources: seq![Source::Probe],
                locations: if exe.len() == 0 {
                    Seq::empty()
                } else {
                    seq![exe]
                },
                runtime: Some(
                    RuntimeView {
                        pid: s.pid,
                        listeners,
                        reachability: widest(listeners),
                        exposed: widest(listeners).is_exposed(),
                    },
                ),
                cpe: cpe_of(name, version),
            },
        )
    }
}

pub open spec fn service_assets_of(
    services: Seq<WinServiceView>,
    ls: Seq<WinListenerView>,
) -> Seq<AssetView> {
    services.filter_map(|s: WinServiceView| service_asset_of(s, ls))
}

fn build_service_asset(s: &WinService, ls: &Vec<WinListener>) -> (r: Option<Asset>)
    ensures
        r.deep_view() == service_asset_of(s.deep_view(), ls.deep_view()),
{
    let exe = text_or_nothing(&s.exe);
    let base = last_piece(exe, CharSet::Either('\\', '/'));
    let base = to_lowercase(base.as_str());
    if same(base.as_str(), "svchost.exe") {
        return None;
    }
    let by_name = text_or_nothing(&s.name);
    let display = match &s.display {
        Some(d) => {
            let t = trim(d.as_str());
            if t.as_str().is_empty() {
                by_name
            } else {
                d.as_str()
            }
        },
        None => by_name,
    };
    let t = trim(display);
    if t.as_str().is_empty() {
        return None;
    }
    let name = clean_app_name(display);
    if name.as_str().is_empty() {
        return None;
    }
    let listeners = match s.pid {
        Some(p) => listeners_of(ls, p),
        None => no_texts(),
    };
    let reach = widest_reach(&listeners);
    let version = sanitize_version(text_or_nothing(&s.version));
    let cpe = cpe_for_app(name.as_str(), version.as_str());
    let locations = if exe.is_empty() {
        no_texts()
    } else {
        one_text(own(exe))
    };
    Some(
        Asset {
            ecosystem: Ecosystem::WinApp,
            name: name.clone(),
            pkg_name: Some(name),
            version,
            sources: one_source(Source::Probe),
            locations,
            runtime: Some(
                Runtime { pid: s.pid, listeners, reachability: reach, exposed: reach.exposed() },
            ),
            cpe,
        },
    )
}

/// The services as assets, with the sockets of their processes.
pub fn build_service_assets(services: &Vec<WinService>, listeners: &Vec<WinListener>) -> (r: Vec<
    Asset,
>)
    ensures
        r.deep_view() == service_assets_of(services.deep_view(), listeners.deep_view()),
{
    let ghost q = services.deep_view();
    let ghost ls = listeners.deep_view();
    let mut out: Vec<Asset> = Vec::new();
    let mut i: usize = 0;
    assert(out.deep_view() =~= service_assets_of(q.take(0), ls));
    while i < services.len()
        invariant
            i <= services@.len(),
            q == services.deep_view(),
            ls == listeners.deep_view(),
            out.deep_view() == service_assets_of(q.take(i as int), ls),
        decreases services@.len() - i,
    {
        assert(q.take(i + 1).drop_last() =~= q.take(i as int));
        assert(q.take(i + 1).last() == services@[i as int].deep_view());
        let a = build_service_asset(&services[i], listeners);
        push_asset(&mut out, a);
        i += 1;
    }
    assert(q.take(q.len() as int) =~= q);
    out
}

/// The sockets that are used: those that were listed, or else those that `netstat`
/// prints, which is on every system.
pub open spec fn known_listeners(
    listed: Seq<WinListenerView>,
    netstat: Option<Seq<char>>,
) -> Seq<WinListenerView> {
    if listed.len() > 0 {
        listed
    } else {
        match netstat {
            Some(out) => netstat_listeners(text_lines(out)),
            None => listed,
        }
    }
}

/// The services that run, as assets.
pub fn running_services(
    services: &Vec<WinService>,
    listed: Vec<WinListener>,
    netstat: Option<&str>,
) -> (r: Vec<Asset>)
    ensures
        r.deep_view() == service_assets_of(
            services.deep_view(),
            known_listeners(listed.deep_view(), opt_str_view(netstat)),
        ),
{
    assert(listed.deep_view().len() == listed@.len());
    let listeners = if listed.len() > 0 {
        listed
    } else {
        match netstat {
            Some(out) => parse_netstat(out),
            None => listed,
        }
    };
    build_service_assets(services, &listeners)
}

// ── All the assets ───────────────────────────────────────────────────────────

/// The assets of a Windows host: Windows and the services always, what is installed
/// in a full scan.
pub open spec fn windows_assets(
    w: WinOsView,
    full: bool,
    services: Seq<AssetView>,
    apps: Seq<AssetView>,
    packages: Seq<AssetView>,
) -> Seq<AssetView> {
    let always = seq![windows_asset(w)] + services;
    if full {
        always + apps + packages
    } else {
        always
    }
}

/// The assets of a Windows host.
pub fn collect_windows(
    w: &WinOs,
    full: bool,
    services: Vec<Asset>,
    apps: Vec<Asset>,
    packages: Vec<Asset>,
) -> (r: Vec<Asset>)
    ensures
        r.deep_view() == windows_assets(
            w.deep_view(),
            full,
            services.deep_view(),
            apps.deep_view(),
            packages.deep_view(),
        ),
{
    let a = os_asset(w);
    let mut out = vec![a];
    assert(out.deep_view() =~= seq![windows_asset(w.deep_view())]);
    append_assets(&mut out, services);
    if full {
        append_assets(&mut out, apps);
        append_assets(&mut out, packages);
    }
    out
}

/// What is found on Windows: the services, and in a full scan the applications and
/// the packages of language managers. It finds nothing on another system.
pub struct WindowsCollector {
    pub full: bool,
    pub services: Vec<Asset>,
    pub apps: Vec<Asset>,
    pub packages: Vec<Asset>,
}

impl Collector for WindowsCollector {
    open spec fn found(&self, os: OsTypeView) -> Seq<AssetView> {
        match os {
            OsTypeView::Windows(w) => windows_assets(
                w,
                self.full,
                self.services.deep_view(),
                self.apps.deep_view(),
                self.packages.deep_view(),
            ),
            _ => Seq::empty(),
        }
    }

    open spec fn called(&self) -> Seq<char> {
        "windows"@
    }

    fn name(&self) -> (r: &'static str) {
        "windows"
    }

    fn collect(self, os: &OsType) -> (r: Vec<Asset>) {
        match os {
            OsType::Windows(w) => collect_windows(
                w,
                self.full,
                self.services,
                self.apps,
                self.packages,
            ),
            _ => {
                let none: Vec<Asset> = Vec::new();
                assert(none.deep_view() =~= Seq::<AssetView>::empty());
                none
            },
        }
    }
}

// ── Updates ──────────────────────────────────────────────────────────────────

/// An update that is not installed.
#[derive(Debug, Clone, PartialEq, Eq)]
pub struct WinUpdate {
    pub title: String,
    pub kbs: Vec<String>,
    pub severity: String,
}

pub struct WinUpdateView {
    pub title: Seq<char>,
    pub kbs: Seq<Seq<char>>,
    pub severity: Seq<char>,
}

impl DeepView for WinUpdate {
    type V = WinUpdateView;

    open spec fn deep_view(&self) -> WinUpdateView {
        WinUpdateView { title: self.title@, kbs: views(self.kbs@), severity: self.severity@ }
    }
}

/// The articles of an update, which are printed as nothing, as one text or as a
/// list.
#[derive(Debug)]
pub enum KbField {
    Missing,
    One(String),
    Many(Vec<String>),
}

pub open spec fn articles(k: KbField) -> Seq<Seq<char>> {
    match k {
        KbField::Missing => Seq::empty(),
        KbField::One(s) => seq![s@],
        KbField::Many(v) => views(v@),
    }
}

impl KbField {
    /// The articles of the update.
    pub fn into_vec(self) -> (r: Vec<String>)
        ensures
            views(r@) == articles(self),
    {
        match self {
            KbField::Missing => no_texts(),
            KbField::One(s) => one_text(s),
            KbField::Many(v) => v,
        }
    }
}

/// An update as it is printed.
#[derive(Debug)]
pub struct WuaUpdate {
    pub title: Option<String>,
    pub kbs: KbField,
    pub severity: Option<String>,
}

pub struct WuaUpdateView {
    pub title: Option<Seq<char>>,
    pub kbs: Seq<Seq<char>>,
    pub severity: Option<Seq<char>>,
}

impl DeepView for WuaUpdate {
    type V = WuaUpdateView;

    open spec fn deep_view(&self) -> WuaUpdateView {
        WuaUpdateView {
            title: opt_view(self.title),
            kbs: articles(self.kbs),
            severity: opt_view(self.severity),
        }
    }
}

/// The rank of a severity in lower case.
pub open spec fn rank_of_lower(lower: Seq<char>) -> u8 {
    if lower == "critical"@ {
        4
    } else if lower == "important"@ {
        3
    } else if lower == "moderate"@ {
        2
    } else if lower == "low"@ {
        1
    } else {
        0
    }
}

/// The rank of the severity of an update, in whatever case it is written.
pub fn msrc_rank(sev: &str) -> (r: u8)
    ensures
        r == rank_of_lower(lowercase(sev@)),
{
    let lower = to_lowercase(sev);
    if same(lower.as_str(), "critical") {
        4
    } else if same(lower.as_str(), "important") {
        3
    } else if same(lower.as_str(), "moderate") {
        2
    } else if same(lower.as_str(), "low") {
        1
    } else {
        0
    }
}

/// Updates rank by severity, the most severe first.
impl Ranked for WinUpdate {
    open spec fn before(a: WinUpdateView, b: WinUpdateView) -> bool {
        rank_of_lower(lowercase(a.severity)) > rank_of_lower(lowercase(b.severity))
    }

    proof fn rank_is_order(a: WinUpdateView, b: WinUpdateView, c: WinUpdateView) {
    }

    fn ranks_before(&self, other: &Self) -> (r: bool) {
        msrc_rank(self.severity.as_str()) > msrc_rank(other.severity.as_str())
    }
}

pub open spec fn titled(u: WuaUpdateView) -> Option<WinUpdateView> {
    match u.title {
        Some(title) => Some(
            WinUpdateView { title, kbs: u.kbs, severity: or_empty(u.severity) },
        ),
        None => None,
    }
}

/// The updates that have a title.
pub open spec fn titled_updates(us: Seq<WuaUpdateView>) -> Seq<WinUpdateView> {
    us.filter_map(|u: WuaUpdateView| titled(u))
}

/// The updates that are not installed, the most severe first. Updates without a
/// title are left out.
pub fn parse_missing_updates(entries: Vec<WuaUpdate>) -> (r: Vec<WinUpdate>)
    ensures
        r.deep_view() == ranked::<WinUpdate>(titled_updates(entries.deep_view())),
{
    let ghost q = entries.deep_view();
    let mut rest = entries;
    let n: usize = rest.len();
    let mut out: Vec<WinUpdate> = Vec::new();
    let mut i: usize = 0;
    assert(rest.deep_view() =~= q.skip(0));
    assert(out.deep_view() =~= titled_updates(q.take(0)));
    while i < n
        invariant
            i <= n,
            n == q.len(),
            rest.deep_view() == q.skip(i as int),
            out.deep_view() == titled_updates(q.take(i as int)),
        decreases n - i,
    {
        let ghost before = out.deep_view();
        assert(rest.deep_view().len() == rest@.len());
        let u = take_first(&mut rest);
        proof {
            assert(q.skip(i as int).skip(1) =~= q.skip(i + 1));
            assert(q.take(i + 1).drop_last() =~= q.take(i as int));
            assert(q.take(i + 1).last() == u.deep_view());
        }
        if let Some(title) = u.title {
            let x = WinUpdate {
                title,
                kbs: u.kbs.into_vec(),
                severity: string_or_nothing(u.severity),
            };
            out.push(x);
            assert(out.deep_view() =~= before + seq![x.deep_view()]);
        }
        i += 1;
    }
    assert(q.take(n as int) =~= q);
    sort_ranked(out)
}

/// The updates that are not installed, from what the script found; none where it did
/// not run.
pub fn gather_missing_updates(found: Option<Vec<WuaUpdate>>) -> (r: Vec<WinUpdate>)
    ensures
        r.deep_view() == (match found {
            Some(entries) => ranked::<WinUpdate>(titled_updates(entries.deep_view())),
            None => Seq::empty(),
        }),
{
    match found {
        Some(entries) => parse_missing_updates(entries),
        None => {
            let none: Vec<WinUpdate> = Vec::new();
            assert(none.deep_view() =~= Seq::<WinUpdateView>::empty());
            none
        },
    }
}

} // verus!
