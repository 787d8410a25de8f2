//! Assets: what a scan finds on the host, whichever way it finds it.

use vstd::prelude::*;

use crate::host::{LinuxDistro, LinuxDistroView, OsType, OsTypeView};
use crate::inventory::{InstalledPkg, InstalledPkgView};
use crate::list::{push_new, take_first, with_new};
use crate::net::Reachability;
use crate::services::{
    normalize_service_name, product_name, strip_instance, ServiceInfo, ServiceInfoView, VersionSource,
};
use crate::split::pieces;
use crate::table::{lookup, put, Table};
use crate::text::{concat3, copy_opt_string, copy_strings, opt_view, views, CharSet};

verus! {

// ── Ecosystems ───────────────────────────────────────────────────────────────

/// The package world that an asset belongs to.
#[derive(Debug, Clone, Copy, PartialEq, Eq, Hash, Structural)]
pub enum Ecosystem {
    Deb,
    Rpm,
    Arch,
    Alpine,
    Homebrew,
    FreeBsdPkg,
    OpenBsdPkg,
    NetBsdPkg,
    /// Packages of language managers.
    Npm,
    PyPI,
    NuGet,
    /// An application on Windows.
    WinApp,
    /// Windows itself.
    WindowsOs,
    Generic,
}

/// The ecosystem of the packages of an operating system.
pub open spec fn ecosystem_of(os: OsTypeView) -> Ecosystem {
    match os {
        OsTypeView::Linux(d) => match d {
            LinuxDistroView::Debian => Ecosystem::Deb,
            LinuxDistroView::Ubuntu => Ecosystem::Deb,
            LinuxDistroView::Kali => Ecosystem::Deb,
            LinuxDistroView::Fedora => Ecosystem::Rpm,
            LinuxDistroView::Rhel => Ecosystem::Rpm,
            LinuxDistroView::CentOs => Ecosystem::Rpm,
            LinuxDistroView::OpenSuse => Ecosystem::Rpm,
            LinuxDistroView::Arch => Ecosystem::Arch,
            LinuxDistroView::Alpine => Ecosystem::Alpine,
            _ => Ecosystem::Generic,
        },
        OsTypeView::MacOs => Ecosystem::Homebrew,
        OsTypeView::FreeBsd => Ecosystem::FreeBsdPkg,
        OsTypeView::DragonFlyBsd => Ecosystem::FreeBsdPkg,
        OsTypeView::OpenBsd => Ecosystem::OpenBsdPkg,
        OsTypeView::NetBsd => Ecosystem::NetBsdPkg,
        OsTypeView::Windows(_) => Ecosystem::WinApp,
        _ => Ecosystem::Generic,
    }
}

impl Ecosystem {
    /// The ecosystem of the packages of an operating system.
    pub fn for_os(os: &OsType) -> (r: Ecosystem)
        ensures
            r == ecosystem_of(os.deep_view()),
    {
        match os {
            OsType::Linux(d) => match d {
                LinuxDistro::Debian => Ecosystem::Deb,
                LinuxDistro::Ubuntu => Ecosystem::Deb,
                LinuxDistro::Kali => Ecosystem::Deb,
                LinuxDistro::Fedora => Ecosystem::Rpm,
                LinuxDistro::Rhel => Ecosystem::Rpm,
                LinuxDistro::CentOs => Ecosystem::Rpm,
                LinuxDistro::OpenSuse => Ecosystem::Rpm,
                LinuxDistro::Arch => Ecosystem::Arch,
                LinuxDistro::Alpine => Ecosystem::Alpine,
                _ => Ecosystem::Generic,
            },
            OsType::MacOs => Ecosystem::Homebrew,
            OsType::FreeBsd => Ecosystem::FreeBsdPkg,
            OsType::DragonFlyBsd => Ecosystem::FreeBsdPkg,
            OsType::OpenBsd => Ecosystem::OpenBsdPkg,
            OsType::NetBsd => Ecosystem::NetBsdPkg,
            OsType::Windows(_) => Ecosystem::WinApp,
            _ => Ecosystem::Generic,
        }
    }
}

/// Where the version of an asset is known from.
#[derive(Debug, Clone, Copy, PartialEq, Eq, Structural)]
pub enum Source {
    PackageDb,
    Probe,
}

impl Source {
    pub open spec fn name(self) -> Seq<char> {
        match self {
            Source::PackageDb => "package-db"@,
            Source::Probe => "probe"@,
        }
    }

    pub fn label(self) -> (r: &'static str)
        ensures
            r@ == self.name(),
    {
        match self {
            Source::PackageDb => "package-db",
            Source::Probe => "probe",
        }
    }
}

// ── Assets ───────────────────────────────────────────────────────────────────

/// The process of an asset that runs.
#[derive(Debug, Clone)]
pub struct Runtime {
    pub pid: Option<u32>,
    pub listeners: Vec<String>,
    pub reachability: Reachability,
    pub exposed: bool,
}

pub struct RuntimeView {
    pub pid: Option<u32>,
    pub listeners: Seq<Seq<char>>,
    pub reachability: Reachability,
    pub exposed: bool,
}

impl DeepView for Runtime {
    type V = RuntimeView;

    open spec fn deep_view(&self) -> RuntimeView {
        RuntimeView {
            pid: self.pid,
            listeners: views(self.listeners@),
            reachability: self.reachability,
            exposed: self.exposed,
        }
    }
}

impl Runtime {
    /// A copy.
    pub fn copy(&self) -> (r: Runtime)
        ensures
            r.deep_view() == self.deep_view(),
    {
        Runtime {
            pid: self.pid,
            listeners: copy_strings(&self.listeners),
            reachability: self.reachability,
            exposed: self.exposed,
        }
    }
}

/// A piece of software with its version.
#[derive(Debug, Clone)]
pub struct Asset {
    pub ecosystem: Ecosystem,
    /// The name of the service or of the package.
    pub name: String,
    /// The package that owns it, where it is known.
    pub pkg_name: Option<String>,
    pub version: String,
    pub sources: Vec<Source>,
    pub locations: Vec<String>,
    pub runtime: Option<Runtime>,
    /// Its CPE, where one is known.
    pub cpe: Option<String>,
}

#[verifier::ext_equal]
pub struct AssetView {
    pub ecosystem: Ecosystem,
    pub name: Seq<char>,
    pub pkg_name: Option<Seq<char>>,
    pub version: Seq<char>,
    pub sources: Seq<Source>,
    pub locations: Seq<Seq<char>>,
    pub runtime: Option<RuntimeView>,
    pub cpe: Option<Seq<char>>,
}

impl DeepView for Asset {
    type V = AssetView;

    open spec fn deep_view(&self) -> AssetView {
        AssetView {
            ecosystem: self.ecosystem,
            name: self.name@,
            pkg_name: opt_view(self.pkg_name),
            version: self.version@,
            sources: self.sources@,
            locations: views(self.locations@),
            runtime: self.runtime.deep_view(),
            cpe: opt_view(self.cpe),
        }
    }
}

impl AssetView {
    /// The name of the asset as a coordinate: its package, or else the product that
    /// its service belongs to.
    pub open spec fn coordinate(self) -> Seq<char> {
        match self.pkg_name {
            Some(n) => n,
            None => product_name(pieces(self.name, CharSet::Is('@'))[0]),
        }
    }

    /// What the asset is reported by.
    pub open spec fn key(self) -> Seq<char> {
        self.coordinate() + "@"@ + self.version
    }
}

fn copy_sources(v: &Vec<Source>) -> (r: Vec<Source>)
    ensures
        r@ == v@,
{
    let mut out: Vec<Source> = Vec::new();
    let mut i: usize = 0;
    while i < v.len()
        invariant
            i <= v@.len(),
            out@ == v@.take(i as int),
        decreases v@.len() - i,
    {
        out.push(v[i]);
        assert(v@.take(i + 1) =~= v@.take(i as int).push(v@[i as int]));
        i += 1;
    }
    assert(v@.take(v@.len() as int) =~= v@);
    out
}

fn has_source(v: &Vec<Source>, x: Source) -> (r: bool)
    ensures
        r == v@.contains(x),
{
    let mut i: usize = 0;
    while i < v.len()
        invariant
            i <= v@.len(),
            forall|k: int| 0 <= k < i ==> v@[k] != x,
        decreases v@.len() - i,
    {
        if v[i] == x {
            assert(v@[i as int] == x);
            return true;
        }
        i += 1;
    }
    false
}

impl Asset {
    /// The name of the asset as a coordinate, in queries and in the report alike.
    pub fn coordinate_name(&self) -> (r: String)
        ensures
            r@ == self.deep_view().coordinate(),
    {
        match &self.pkg_name {
            Some(n) => n.clone(),
            None => {
                let bare = strip_instance(self.name.as_str());
                normalize_service_name(bare.as_str())
            },
        }
    }

    /// What is searched for where the asset has no coordinate.
    pub fn lookup_key(&self) -> (r: String)
        ensures
            r@ == self.deep_view().coordinate(),
    {
        self.coordinate_name()
    }

    /// What the asset is reported by: its name and version.
    pub fn report_key(&self) -> (r: String)
        ensures
            r@ == self.deep_view().key(),
    {
        let name = self.coordinate_name();
        concat3(name.as_str(), "@", self.version.as_str())
    }

    /// Where the version is known from: the package database, where it is among
    /// the sources.
    pub fn version_source_label(&self) -> (r: &'static str)
        ensures
            r@ == source_label(self.deep_view().sources),
    {
        if has_source(&self.sources, Source::PackageDb) {
            "package-db"
        } else {
            "probe"
        }
    }

    /// A copy.
    pub fn copy(&self) -> (r: Asset)
        ensures
            r.deep_view() == self.deep_view(),
    {
        Asset {
            ecosystem: self.ecosystem,
            name: self.name.clone(),
            pkg_name: copy_opt_string(&self.pkg_name),
            version: self.version.clone(),
            sources: copy_sources(&self.sources),
            locations: copy_strings(&self.locations),
            runtime: match &self.runtime {
                Some(x) => Some(x.copy()),
                None => None,
            },
            cpe: copy_opt_string(&self.cpe),
        }
    }
}

/// Where a version is known from: the package database, where it is among the sources.
pub open spec fn source_label(sources: Seq<Source>) -> Seq<char> {
    if sources.contains(Source::PackageDb) {
        "package-db"@
    } else {
        "probe"@
    }
}

// ── Merging ──────────────────────────────────────────────────────────────────

/// The sources of `a`, and those of `b` that are not among them, each once.
pub open spec fn with_sources(a: Seq<Source>, b: Seq<Source>) -> Seq<Source>
    decreases b.len(),
{
    if b.len() == 0 {
        a
    } else {
        let before = with_sources(a, b.drop_last());
        if before.contains(b.last()) {
            before
        } else {
            before.push(b.last())
        }
    }
}

/// The process of two assets that are one: the one that can be reached further, the
/// first where neither can.
pub open spec fn richer(d: Option<RuntimeView>, s: Option<RuntimeView>) -> Option<RuntimeView> {
    match d {
        None => s,
        Some(a) => match s {
            Some(b) => if b.reachability.degree() > a.reachability.degree() {
                s
            } else {
                d
            },
            None => d,
        },
    }
}

/// Two assets that are one.
pub open spec fn merged(d: AssetView, s: AssetView) -> AssetView {
    AssetView {
        sources: with_sources(d.sources, s.sources),
        locations: with_new(d.locations, s.locations),
        runtime: richer(d.runtime, s.runtime),
        ..d
    }
}

fn push_sources(a: &mut Vec<Source>, b: &Vec<Source>)
    ensures
        final(a)@ == with_sources(old(a)@, b@),
{
    let ghost start = a@;
    let mut i: usize = 0;
    assert(b@.take(0) =~= Seq::<Source>::empty());
    while i < b.len()
        invariant
            i <= b@.len(),
            a@ == with_sources(start, b@.take(i as int)),
        decreases b@.len() - i,
    {
        proof {
            assert(b@.take(i + 1).drop_last() =~= b@.take(i as int));
            assert(b@.take(i + 1).last() == b@[i as int]);
        }
        if !has_source(a, b[i]) {
            a.push(b[i]);
        }
        i += 1;
    }
    assert(b@.take(b@.len() as int) =~= b@);
}

/// Merges the asset `src` into the asset `dst`, which is the same one.
pub fn merge_into(dst: &mut Asset, src: Asset)
    ensures
        final(dst).deep_view() == merged(old(dst).deep_view(), src.deep_view()),
{
    push_sources(&mut dst.sources, &src.sources);
    push_new(&mut dst.locations, &src.locations);
    let replaces = match (&dst.runtime, &src.runtime) {
        (None, Some(_)) => true,
        (Some(d), Some(s)) => s.reachability.level() > d.reachability.level(),
        _ => false,
    };
    if replaces {
        dst.runtime = src.runtime;
    }
}

/// The assets by their keys, those of one key merged.
pub open spec fn merged_by_key(assets: Seq<AssetView>) -> Seq<(Seq<char>, AssetView)>
    decreases assets.len(),
{
    if assets.len() == 0 {
        Seq::empty()
    } else {
        let before = merged_by_key(assets.drop_last());
        let a = assets.last();
        put(
            before,
            a.key(),
            match lookup(before, a.key()) {
                Some(d) => merged(d, a),
                None => a,
            },
        )
    }
}

/// The values of a table, in the order of its keys.
pub open spec fn values_of<A>(m: Seq<(Seq<char>, A)>) -> Seq<A> {
    Seq::new(m.len(), |i: int| m[i].1)
}

/// The values of a table, in the order of its keys.
pub fn into_values<V: DeepView>(t: Table<V>) -> (r: Vec<V>)
    ensures
        r.deep_view() == values_of(t.deep_view()),
{
    let ghost m = t.deep_view();
    let mut rest = t.into_entries();
    let n: usize = rest.len();
    let mut out: Vec<V> = Vec::new();
    let mut i: usize = 0;
    assert(rest.deep_view() =~= m.skip(0));
    assert(out.deep_view() =~= values_of(m).take(0));
    while i < n
        invariant
            i <= n,
            n == m.len(),
            rest.deep_view() == m.skip(i as int),
            out.deep_view() == values_of(m).take(i as int),
        decreases n - i,
    {
        let ghost before = out.deep_view();
        assert(rest.deep_view().len() == rest@.len());
        let (_, v) = take_first(&mut rest);
        proof {
            assert(m.skip(i as int).skip(1) =~= m.skip(i + 1));
            assert(v.deep_view() == m[i as int].1);
        }
        out.push(v);
        assert(out.deep_view() =~= before.push(m[i as int].1));
        assert(values_of(m).take(i + 1) =~= values_of(m).take(i as int).push(m[i as int].1));
        i += 1;
    }
    assert(values_of(m).take(n as int) =~= values_of(m));
    out
}

/// Merges the assets that share a key, so that a package that backs a running
/// process is one asset with it. The assets come out in the order of their keys.
pub fn dedup_and_merge(assets: Vec<Asset>) -> (r: Vec<Asset>)
    ensures
        r.deep_view() == values_of(merged_by_key(assets.deep_view())),
{
    let ghost all = assets.deep_view();
    let n: usize = assets.len();
    let mut rest = assets;
    let mut map: Table<Asset> = Table::new();
    let mut i: usize = 0;
    assert(map.deep_view() =~= merged_by_key(all.take(0)));
    assert(rest.deep_view() =~= all.skip(0));
    while i < n
        invariant
            i <= n,
            n == all.len(),
            rest.deep_view() == all.skip(i as int),
            map.well_formed(),
            map.deep_view() == merged_by_key(all.take(i as int)),
        decreases n - i,
    {
        assert(rest.deep_view().len() == rest@.len());
        let a = take_first(&mut rest);
        proof {
            assert(all.skip(i as int).skip(1) =~= all.skip(i + 1));
            assert(all.take(i + 1).drop_last() =~= all.take(i as int));
        }
        let key = a.report_key();
        let merged_asset = match map.get(key.as_str()) {
            Some(existing) => {
                let mut d = existing.copy();
                merge_into(&mut d, a);
                d
            },
            None => a,
        };
        map.insert(key, merged_asset);
        i += 1;
    }
    assert(all.take(n as int) =~= all);
    into_values(map)
}

// ── Collectors ───────────────────────────────────────────────────────────────

/// A way in which assets are found, with what it found.
pub trait Collector: Sized {
    /// The assets that it makes of what it found.
    spec fn found(&self, os: OsTypeView) -> Seq<AssetView>;

    spec fn called(&self) -> Seq<char>;

    fn name(&self) -> (r: &'static str)
        ensures
            r@ == self.called(),
    ;

    fn collect(self, os: &OsType) -> (r: Vec<Asset>)
        ensures
            r.deep_view() == self.found(os.deep_view()),
    ;
}

/// The asset that a service is.
pub open spec fn service_asset(s: ServiceInfoView, eco: Ecosystem) -> AssetView {
    AssetView {
        ecosystem: eco,
        name: s.name,
        pkg_name: s.pkg_name,
        version: s.version,
        sources: seq![
            match s.source {
                VersionSource::PackageDb => Source::PackageDb,
                VersionSource::Probe => Source::Probe,
            },
        ],
        locations: seq![s.exe],
        runtime: Some(
            RuntimeView {
                pid: s.pid,
                listeners: s.listeners,
                reachability: s.reach,
                exposed: s.exposed,
            },
        ),
        cpe: None,
    }
}

/// The asset that a service is.
pub fn service_to_asset(s: ServiceInfo, eco: Ecosystem) -> (r: Asset)
    ensures
        r.deep_view() == service_asset(s.deep_view(), eco),
{
    let src = match s.source {
        VersionSource::PackageDb => Source::PackageDb,
        VersionSource::Probe => Source::Probe,
    };
    let locations = vec![s.exe];
    assert(views(locations@) =~= seq![s.exe@]);
    let sources = vec![src];
    assert(sources@ =~= seq![src]);
    Asset {
        ecosystem: eco,
        name: s.name,
        pkg_name: s.pkg_name,
        version: s.version,
        sources,
        locations,
        runtime: Some(
            Runtime {
                pid: s.pid,
                listeners: s.listeners,
                reachability: s.reach,
                exposed: s.exposed,
            },
        ),
        cpe: None,
    }
}

/// The services that run, with their sockets.
pub struct RunningServiceCollector {
    pub services: Vec<ServiceInfo>,
}

impl Collector for RunningServiceCollector {
    open spec fn found(&self, os: OsTypeView) -> Seq<AssetView> {
        let s = self.services.deep_view();
        Seq::new(s.len(), |i: int| service_asset(s[i], ecosystem_of(os)))
    }

    open spec fn called(&self) -> Seq<char> {
        "running-services"@
    }

    fn name(&self) -> (r: &'static str) {
        "running-services"
    }

    fn collect(self, os: &OsType) -> (r: Vec<Asset>) {
        let ghost all = self.found(os.deep_view());
        let ghost s = self.services.deep_view();
        let eco = Ecosystem::for_os(os);
        let mut rest = self.services;
        let n: usize = rest.len();
        let mut out: Vec<Asset> = Vec::new();
        let mut i: usize = 0;
        assert(rest.deep_view() =~= s.skip(0));
        assert(out.deep_view() =~= all.take(0));
        while i < n
            invariant
                i <= n,
                n == s.len(),
                all == Seq::new(s.len(), |k: int| service_asset(s[k], eco)),
                rest.deep_view() == s.skip(i as int),
                out.deep_view() == all.take(i as int),
            decreases n - i,
        {
            let ghost before = out.deep_view();
            assert(rest.deep_view().len() == rest@.len());
            let x = take_first(&mut rest);
            assert(s.skip(i as int).skip(1) =~= s.skip(i + 1));
            out.push(service_to_asset(x, eco));
            assert(out.deep_view() =~= before.push(all[i as int]));
            assert(all.take(i + 1) =~= all.take(i as int).push(all[i as int]));
            i += 1;
        }
        assert(all.take(n as int) =~= all);
        out
    }
}

/// The asset that an installed package is. Nothing says that it runs.
pub open spec fn package_asset(p: InstalledPkgView, eco: Ecosystem) -> AssetView {
    AssetView {
        ecosystem: eco,
        name: p.name,
        pkg_name: Some(p.name),
        version: p.version,
        sources: seq![Source::PackageDb],
        locations: Seq::empty(),
        runtime: None,
        cpe: None,
    }
}

fn package_to_asset(p: InstalledPkg, eco: Ecosystem) -> (r: Asset)
    ensures
        r.deep_view() == package_asset(p.deep_view(), eco),
{
    let locations: Vec<String> = Vec::new();
    assert(views(locations@) =~= Seq::<Seq<char>>::empty());
    let sources = vec![Source::PackageDb];
    assert(sources@ =~= seq![Source::PackageDb]);
    Asset {
        ecosystem: eco,
        name: p.name.clone(),
        pkg_name: Some(p.name),
        version: p.version,
        sources,
        locations,
        runtime: None,
        cpe: None,
    }
}

/// Every installed package.
pub struct OsPackageCollector {
    pub packages: Vec<InstalledPkg>,
}

impl Collector for OsPackageCollector {
    open spec fn found(&self, os: OsTypeView) -> Seq<AssetView> {
        let p = self.packages.deep_view();
        Seq::new(p.len(), |i: int| package_asset(p[i], ecosystem_of(os)))
    }

    open spec fn called(&self) -> Seq<char> {
        "os-packages"@
    }

    fn name(&self) -> (r: &'static str) {
        "os-packages"
    }

    fn collect(self, os: &OsType) -> (r: Vec<Asset>) {
        let ghost all = self.found(os.deep_view());
        let ghost s = self.packages.deep_view();
        let eco = Ecosystem::for_os(os);
        let mut rest = self.packages;
        let n: usize = rest.len();
        let mut out: Vec<Asset> = Vec::new();
        let mut i: usize = 0;
        assert(rest.deep_view() =~= s.skip(0));
        assert(out.deep_view() =~= all.take(0));
        while i < n
            invariant
                i <= n,
                n == s.len(),
                all == Seq::new(s.len(), |k: int| package_asset(s[k], eco)),
                rest.deep_view() == s.skip(i as int),
                out.deep_view() == all.take(i as int),
            decreases n - i,
        {
            let ghost before = out.deep_view();
            assert(rest.deep_view().len() == rest@.len());
            let x = take_first(&mut rest);
            assert(s.skip(i as int).skip(1) =~= s.skip(i + 1));
            out.push(package_to_asset(x, eco));
            assert(out.deep_view() =~= before.push(all[i as int]));
            assert(all.take(i + 1) =~= all.take(i as int).push(all[i as int]));
            i += 1;
        }
        assert(all.take(n as int) =~= all);
        out
    }
}

/// What a scan covers.
#[derive(Debug, Clone, Copy, PartialEq, Eq, Structural)]
pub enum ScanScope {
    /// The services that run.
    Running,
    /// The services that run, and every installed package.
    All,
}

/// A way to find assets.
#[derive(Debug, Clone, Copy, PartialEq, Eq, Structural)]
pub enum Discovery {
    RunningServices,
    OsPackages,
    /// On Windows alone: all that is installed, or only Windows and the services.
    Windows { full: bool },
}

/// The ways to find the assets of a scope, in order.
pub open spec fn discoveries(scope: ScanScope) -> Seq<Discovery> {
    match scope {
        ScanScope::Running => seq![Discovery::RunningServices, Discovery::Windows { full: false }],
        ScanScope::All => seq![
            Discovery::RunningServices,
            Discovery::OsPackages,
            Discovery::Windows { full: true },
        ],
    }
}

/// The ways to find the assets of a scope, in order.
pub fn for_scope(scope: ScanScope) -> (r: Vec<Discovery>)
    ensures
        r@ == discoveries(scope),
{
    let full = scope == ScanScope::All;
    let mut r = vec![Discovery::RunningServices];
    if full {
        r.push(Discovery::OsPackages);
    }
    r.push(Discovery::Windows { full });
    assert(r@ =~= discoveries(scope));
    r
}

pub open spec fn asset_lists(v: Seq<Vec<Asset>>) -> Seq<Seq<AssetView>> {
    Seq::new(v.len(), |i: int| v[i].deep_view())
}

/// All the assets, list by list.
pub open spec fn all_assets(lists: Seq<Seq<AssetView>>) -> Seq<AssetView>
    decreases lists.len(),
{
    if lists.len() == 0 {
        Seq::empty()
    } else {
        all_assets(lists.drop_last()) + lists.last()
    }
}

pub(crate) fn append_assets(out: &mut Vec<Asset>, more: Vec<Asset>)
    ensures
        final(out).deep_view() == old(out).deep_view() + more.deep_view(),
{
    let ghost before = out.deep_view();
    let ghost m = more.deep_view();
    let mut rest = more;
    let n: usize = rest.len();
    let mut i: usize = 0;
    assert(rest.deep_view() =~= m.skip(0));
    assert(before + m.take(0) =~= before);
    while i < n
        invariant
            i <= n,
            n == m.len(),
            rest.deep_view() == m.skip(i as int),
            out.deep_view() == before + m.take(i as int),
        decreases n - i,
    {
        let ghost mid = out.deep_view();
        assert(rest.deep_view().len() == rest@.len());
        let x = take_first(&mut rest);
        assert(m.skip(i as int).skip(1) =~= m.skip(i + 1));
        out.push(x);
        assert(out.deep_view() =~= mid.push(m[i as int]));
        assert(before + m.take(i + 1) =~= (before + m.take(i as int)).push(m[i as int]));
        i += 1;
    }
    assert(m.take(n as int) =~= m);
}

/// All the assets, in the order of the collectors that found them.
pub fn collect_assets(lists: Vec<Vec<Asset>>) -> (r: Vec<Asset>)
    ensures
        r.deep_view() == all_assets(asset_lists(lists@)),
{
    let ghost all = asset_lists(lists@);
    let mut rest = lists;
    let n: usize = rest.len();
    let mut out: Vec<Asset> = Vec::new();
    let mut i: usize = 0;
    assert(asset_lists(rest@) =~= all.skip(0));
    assert(out.deep_view() =~= all_assets(all.take(0)));
    while i < n
        invariant
            i <= n,
            n == all.len(),
            rest@.len() == n - i,
            asset_lists(rest@) == all.skip(i as int),
            out.deep_view() == all_assets(all.take(i as int)),
        decreases n - i,
    {
        let ghost before = rest@;
        let l = rest.remove(0);
        proof {
            assert(asset_lists(rest@) =~= asset_lists(before).skip(1));
            assert(all.skip(i as int).skip(1) =~= all.skip(i + 1));
            assert(asset_lists(before)[0] == l.deep_view());
            assert(all.take(i + 1).drop_last() =~= all.take(i as int));
            assert(all.take(i + 1).last() == l.deep_view());
        }
        append_assets(&mut out, l);
        i += 1;
    }
    assert(all.take(n as int) =~= all);
    out
}

} // verus!
