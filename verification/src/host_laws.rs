//! What is known of a host, of the assets on it, and of which of them are scanned.

use vstd::prelude::*;

use crate::asset::{
    all_assets, discoveries, ecosystem_of, package_asset, service_asset, AssetView, Discovery, Ecosystem, ScanScope,
    Source,
};
use crate::gate::{allowed_ones, chosen_path, expanded, glob_fits, info_of, infos_of, is_allowed, key_is_exposed};
use crate::host::{
    distro_name, distro_named, distro_of, field_on_line, label_of, line_after, os_named, plain_release_field,
    release_field, system_facts, unquoted_line, DistroMarkers, LinuxDistroView, OsTypeView,
};
use crate::inventory::{tool_of, InstalledPkgView, InventoryTool};
use crate::packages::{managers_of, PackageManager};
use crate::purl::{asset_purl, field_of};
use crate::purl_laws::{purl_begins, the_namespace_names_the_distribution};
use crate::services::{ServiceInfoView, VersionSource};
use crate::split::{pieces, text_lines};
use crate::table::{lookup, lookup_after_put};
use crate::text::{has_prefix, lowercase, occurs, trimmed, CharSet};
use crate::text_laws::{prefixes_and_suffixes_come_off, trimming_takes_off_what_is_around};

verus! {

// ── The operating system ─────────────────────────────────────────────────────

/// An operating system is known by its name, and one with another name is not supported.
pub proof fn an_operating_system_is_known_by_its_name(name: Seq<char>, d: LinuxDistroView)
    ensures
        os_named("linux"@, d) == OsTypeView::Linux(d),
        os_named("macos"@, d) is MacOs,
        os_named("freebsd"@, d) is FreeBsd,
        os_named("openbsd"@, d) is OpenBsd,
        os_named("netbsd"@, d) is NetBsd,
        os_named("dragonfly"@, d) is DragonFlyBsd,
        os_named("solaris"@, d) is Solaris,
        os_named("illumos"@, d) is Illumos,
        name != "linux"@ && name != "macos"@ && name != "freebsd"@ && name != "openbsd"@ && name
            != "netbsd"@ && name != "dragonfly"@ && name != "solaris"@ && name != "illumos"@
            ==> os_named(name, d) == OsTypeView::Unsupported(name),
{
    reveal_strlit("linux");
    reveal_strlit("macos");
    reveal_strlit("freebsd");
    reveal_strlit("openbsd");
    reveal_strlit("netbsd");
    reveal_strlit("dragonfly");
    reveal_strlit("solaris");
    reveal_strlit("illumos");
    assert("linux"@[0] == 'l' && "macos"@[0] == 'm');
    assert("freebsd"@[0] == 'f' && "openbsd"@[0] == 'o' && "solaris"@[0] == 's' && "illumos"@[0]
        == 'i');
    assert("netbsd"@[0] == 'n' && "dragonfly"@[0] == 'd');
}

/// A distribution is known by its name in the release file, where no other is named there.
pub proof fn a_distribution_is_known_by_its_name(s: Seq<char>)
    ensures
        distro_named(s) == Some(LinuxDistroView::Kali) <==> occurs(s, "kali"@),
        !occurs(s, "kali"@) ==> (distro_named(s) == Some(LinuxDistroView::Ubuntu) <==> occurs(
            s,
            "ubuntu"@,
        )),
        !occurs(s, "kali"@) && !occurs(s, "ubuntu"@) ==> (distro_named(s) == Some(
            LinuxDistroView::Debian,
        ) <==> occurs(s, "debian"@)),
        !occurs(s, "kali"@) && !occurs(s, "ubuntu"@) && !occurs(s, "debian"@) ==> {
            &&& distro_named(s) == Some(LinuxDistroView::Fedora) <==> occurs(s, "fedora"@)
            &&& !occurs(s, "fedora"@) ==> {
                &&& distro_named(s) == Some(LinuxDistroView::Rhel) <==> occurs(s, "rhel"@) || occurs(
                    s,
                    "redhat"@,
                )
                &&& !occurs(s, "rhel"@) && !occurs(s, "redhat"@) ==> {
                    &&& distro_named(s) == Some(LinuxDistroView::CentOs) <==> occurs(s, "centos"@)
                    &&& !occurs(s, "centos"@) ==> {
                        &&& distro_named(s) == Some(LinuxDistroView::Arch) <==> occurs(s, "arch"@)
                        &&& !occurs(s, "arch"@) ==> {
                            &&& distro_named(s) == Some(LinuxDistroView::Alpine) <==> occurs(
                                s,
                                "alpine"@,
                            )
                            &&& !occurs(s, "alpine"@) ==> (distro_named(s) == Some(
                                LinuxDistroView::OpenSuse,
                            ) <==> occurs(s, "suse"@))
                        }
                    }
                }
            }
        },
{
}

/// The id in the release file decides, then what the distribution is like; only without a release
/// file do the other files decide.
pub proof fn the_release_file_comes_first(content: Seq<char>, m: DistroMarkers, n: DistroMarkers)
    ensures
        distro_of(Some(content), m) == distro_of(Some(content), n),
        distro_named(plain_release_field(content, "ID="@)) matches Some(d) ==> distro_of(
            Some(content),
            m,
        ) == d,
        distro_named(plain_release_field(content, "ID="@)) is None ==> (distro_named(
            plain_release_field(content, "ID_LIKE="@),
        ) matches Some(d) ==> distro_of(Some(content), m) == d),
        m.debian ==> distro_of(None, m) is Debian,
        !m.debian && m.fedora ==> distro_of(None, m) is Fedora,
        !m.debian && !m.fedora && m.arch ==> distro_of(None, m) is Arch,
        !m.debian && !m.fedora && !m.arch && m.alpine ==> distro_of(None, m) is Alpine,
        !m.debian && !m.fedora && !m.arch && !m.alpine ==> distro_of(None, m) is Unknown,
{
}

/// A field of the release file is the value on the first line that gives it, without quotes.
pub proof fn the_first_line_with_a_key_decides(ls: Seq<Seq<char>>, key: Seq<char>, i: int, v: Seq<char>)
    requires
        0 <= i < ls.len(),
        ls[i] == key + v,
        forall|k: int| 0 <= k < i ==> !has_prefix(#[trigger] ls[k], key),
    ensures
        line_after(ls, key) == Some(v),
    decreases i,
{
    if i == 0 {
        prefixes_and_suffixes_come_off(key, v);
    } else {
        let rest = ls.skip(1);
        assert(!has_prefix(ls[0], key));
        assert(rest[i - 1] == ls[i]);
        assert forall|k: int| 0 <= k < i - 1 implies !has_prefix(#[trigger] rest[k], key) by {
            assert(rest[k] == ls[k + 1]);
        }
        the_first_line_with_a_key_decides(rest, key, i - 1, v);
    }
}

/// Whether a text is a value that quotes can be put around.
pub open spec fn is_plain_value(v: Seq<char>) -> bool {
    &&& v.len() > 0
    &&& v[0] != '"' && v[v.len() - 1] != '"'
    &&& !CharSet::Space.has(v[0]) && !CharSet::Space.has(v[v.len() - 1])
}

/// A line of the release file gives its field, with quotes around the value or without; an empty
/// value gives none.
pub proof fn a_line_gives_its_field(key: Seq<char>, v: Seq<char>)
    requires
        is_plain_value(v),
    ensures
        field_on_line(key + "="@ + v, key) == Some(v),
        field_on_line(key + "="@ + (seq!['"'] + v + seq!['"']), key) == Some(v),
        forall|content: Seq<char>|
            #![trigger unquoted_line(content, key)]
            line_after(text_lines(content), key) == Some(v) || line_after(text_lines(content), key)
                == Some(seq!['"'] + v + seq!['"']) ==> unquoted_line(content, key) == Some(v),
{
    reveal_strlit("=");
    let quoted = seq!['"'] + v + seq!['"'];
    let none = Seq::<char>::empty();
    let q = CharSet::Is('"');
    assert(key + "="@ + v =~= key + ("="@ + v));
    assert(key + "="@ + quoted =~= key + ("="@ + quoted));
    prefixes_and_suffixes_come_off(key, "="@ + v);
    prefixes_and_suffixes_come_off("="@, v);
    prefixes_and_suffixes_come_off(key, "="@ + quoted);
    prefixes_and_suffixes_come_off("="@, quoted);
    trimming_takes_off_what_is_around(none, v, none, CharSet::Space);
    trimming_takes_off_what_is_around(none, v, none, q);
    assert(quoted[0] == '"' && quoted[quoted.len() - 1] == '"');
    assert(!CharSet::Space.has('"'));
    trimming_takes_off_what_is_around(none, quoted, none, CharSet::Space);
    trimming_takes_off_what_is_around(seq!['"'], v, seq!['"'], q);
}

/// The field that a coordinate names is the first of that name with a value.
pub proof fn the_first_field_with_a_value_decides(
    ls: Seq<Seq<char>>,
    key: Seq<char>,
    i: int,
    v: Seq<char>,
)
    requires
        0 <= i < ls.len(),
        field_on_line(ls[i], key) == Some(v),
        forall|k: int| 0 <= k < i ==> field_on_line(#[trigger] ls[k], key) is None,
    ensures
        release_field(ls, key) == Some(v),
    decreases i,
{
    if i > 0 {
        let rest = ls.skip(1);
        assert(field_on_line(ls[0], key) is None);
        assert(rest[i - 1] == ls[i]);
        assert forall|k: int| 0 <= k < i - 1 implies field_on_line(#[trigger] rest[k], key) is None by {
            assert(rest[k] == ls[k + 1]);
        }
        the_first_field_with_a_value_decides(rest, key, i - 1, v);
    }
}

/// The fields that the coordinates name are read from the release file, and there are none where
/// that could not be read.
pub proof fn fields_are_read_from_the_release_file(content: Seq<char>, key: Seq<char>)
    ensures
        field_of(Some(content), key) == release_field(text_lines(content), key),
        field_of(None, key) is None,
{
}

// ── Ecosystems ───────────────────────────────────────────────────────────────

/// What an operating system is taken for is one thing to all: the ecosystem of its packages, the
/// tool that lists them, and the database that is asked for the owner of a file.
pub proof fn the_package_world_of_an_operating_system_is_one(os: OsTypeView)
    ensures
        ecosystem_of(os) == Ecosystem::Deb <==> tool_of(os) == Some(InventoryTool::Dpkg),
        ecosystem_of(os) == Ecosystem::Deb <==> managers_of(os) == seq![PackageManager::Dpkg],
        ecosystem_of(os) == Ecosystem::Rpm <==> tool_of(os) == Some(InventoryTool::Rpm),
        ecosystem_of(os) == Ecosystem::Rpm <==> managers_of(os) == seq![PackageManager::Rpm],
        ecosystem_of(os) == Ecosystem::Arch <==> tool_of(os) == Some(InventoryTool::Pacman),
        ecosystem_of(os) == Ecosystem::Arch <==> managers_of(os) == seq![PackageManager::Pacman],
        ecosystem_of(os) == Ecosystem::Alpine <==> tool_of(os) == Some(InventoryTool::Apk),
        ecosystem_of(os) == Ecosystem::Alpine <==> managers_of(os) == seq![PackageManager::Apk],
        ecosystem_of(os) == Ecosystem::Homebrew <==> tool_of(os) == Some(InventoryTool::Brew),
        ecosystem_of(os) == Ecosystem::Homebrew <==> managers_of(os) == seq![
            PackageManager::Homebrew,
        ],
        ecosystem_of(os) == Ecosystem::FreeBsdPkg <==> tool_of(os) == Some(InventoryTool::Pkg),
        ecosystem_of(os) == Ecosystem::FreeBsdPkg <==> managers_of(os) == seq![
            PackageManager::FreeBsdPkg,
        ],
        ecosystem_of(os) == Ecosystem::OpenBsdPkg <==> tool_of(os) == Some(
            InventoryTool::PkgInfoQuiet,
        ),
        ecosystem_of(os) == Ecosystem::OpenBsdPkg <==> managers_of(os) == seq![
            PackageManager::PkgInfo,
        ],
        ecosystem_of(os) == Ecosystem::NetBsdPkg <==> tool_of(os) == Some(InventoryTool::PkgInfo),
        ecosystem_of(os) == Ecosystem::NetBsdPkg ==> managers_of(os) == seq![
            PackageManager::PkgInfoFile,
        ],
        ecosystem_of(os) == Ecosystem::WinApp <==> os is Windows,
{
    let m = managers_of(os);
    if m.len() > 0 {
        assert(m[0] == m[0]);
    }
    assert(seq![PackageManager::Dpkg][0] == PackageManager::Dpkg);
    assert(seq![PackageManager::Rpm][0] == PackageManager::Rpm);
    assert(seq![PackageManager::Pacman][0] == PackageManager::Pacman);
    assert(seq![PackageManager::Apk][0] == PackageManager::Apk);
    assert(seq![PackageManager::Homebrew][0] == PackageManager::Homebrew);
    assert(seq![PackageManager::FreeBsdPkg][0] == PackageManager::FreeBsdPkg);
    assert(seq![PackageManager::PkgInfo][0] == PackageManager::PkgInfo);
    assert(seq![PackageManager::PkgInfoFile][0] == PackageManager::PkgInfoFile);
}

/// On a distribution whose database is not known, each of those for Linux is asked in turn.
pub proof fn an_unknown_distribution_is_asked_everywhere(d: LinuxDistroView)
    requires
        d is Gentoo || d is NixOs || d is Unknown,
    ensures
        managers_of(OsTypeView::Linux(d)).contains(PackageManager::Dpkg),
        managers_of(OsTypeView::Linux(d)).contains(PackageManager::Rpm),
        managers_of(OsTypeView::Linux(d)).contains(PackageManager::Pacman),
        managers_of(OsTypeView::Linux(d)).contains(PackageManager::Apk),
{
    let m = managers_of(OsTypeView::Linux(d));
    assert(m[0] == PackageManager::Dpkg && m[1] == PackageManager::Rpm && m[2]
        == PackageManager::Pacman && m[3] == PackageManager::Apk);
}

/// The packages of an operating system are asked for by the package URLs of that system.
pub proof fn packages_of_a_system_have_its_purls(
    a: AssetView,
    os: OsTypeView,
    release: Option<Seq<char>>,
)
    requires
        a.ecosystem == ecosystem_of(os),
    ensures
        os == OsTypeView::Linux(LinuxDistroView::Debian) ==> purl_begins(
            a,
            os,
            release,
            "pkg:deb/debian/"@,
        ),
        os == OsTypeView::Linux(LinuxDistroView::Ubuntu) ==> purl_begins(
            a,
            os,
            release,
            "pkg:deb/ubuntu/"@,
        ),
        os == OsTypeView::Linux(LinuxDistroView::Kali) ==> purl_begins(
            a,
            os,
            release,
            "pkg:deb/kali/"@,
        ),
        os == OsTypeView::Linux(LinuxDistroView::Fedora) ==> purl_begins(
            a,
            os,
            release,
            "pkg:rpm/fedora/"@,
        ),
        os == OsTypeView::Linux(LinuxDistroView::Rhel) ==> purl_begins(
            a,
            os,
            release,
            "pkg:rpm/redhat/"@,
        ),
        os == OsTypeView::Linux(LinuxDistroView::CentOs) ==> purl_begins(
            a,
            os,
            release,
            "pkg:rpm/centos/"@,
        ),
        os == OsTypeView::Linux(LinuxDistroView::OpenSuse) ==> purl_begins(
            a,
            os,
            release,
            "pkg:rpm/opensuse/"@,
        ),
        os == OsTypeView::Linux(LinuxDistroView::Arch) ==> purl_begins(
            a,
            os,
            release,
            "pkg:pacman/arch/"@,
        ),
        os == OsTypeView::Linux(LinuxDistroView::Alpine) ==> purl_begins(
            a,
            os,
            release,
            "pkg:apk/alpine/"@,
        ),
        os is MacOs ==> purl_begins(a, os, release, "pkg:brew/"@),
        os is FreeBsd || os is DragonFlyBsd || os is OpenBsd || os is NetBsd || os is Windows
            ==> asset_purl(a, os, release) is None,
{
    the_namespace_names_the_distribution(a, os, release);
}

// ── Assets ───────────────────────────────────────────────────────────────────

/// The asset of a service has the name, the package and the version of the service, and its
/// process is exposed as far as the service is.
pub proof fn the_asset_of_a_service_is_the_service(s: ServiceInfoView, eco: Ecosystem)
    ensures
        ({
            let a = service_asset(s, eco);
            &&& a.ecosystem == eco
            &&& a.name == s.name && a.pkg_name == s.pkg_name && a.version == s.version
            &&& a.locations == seq![s.exe]
            &&& a.runtime matches Some(r) && r.pid == s.pid && r.listeners == s.listeners
                && r.reachability == s.reach && r.exposed == s.exposed
            &&& a.sources.contains(Source::PackageDb) <==> s.source == VersionSource::PackageDb
            &&& a.sources.contains(Source::Probe) <==> s.source == VersionSource::Probe
            &&& a.sources.len() == 1
        }),
{
    let a = service_asset(s, eco);
    match s.source {
        VersionSource::PackageDb => {
            assert(a.sources[0] == Source::PackageDb);
        },
        VersionSource::Probe => {
            assert(a.sources[0] == Source::Probe);
        },
    }
}

/// The asset of an installed package has the name and the version of the package, and no process.
pub proof fn the_asset_of_a_package_is_the_package(p: InstalledPkgView, eco: Ecosystem)
    ensures
        ({
            let a = package_asset(p, eco);
            &&& a.ecosystem == eco
            &&& a.coordinate() == p.name && a.version == p.version
            &&& a.runtime is None && a.locations.len() == 0
            &&& a.sources == seq![Source::PackageDb]
        }),
{
}

/// An asset goes by the package that owns it where one does; else by its service, without the
/// instance, or by the product that the service is known by. It is reported by that and its
/// version.
pub proof fn an_asset_goes_by_its_package(a: AssetView)
    ensures
        a.pkg_name matches Some(n) ==> a.coordinate() == n,
        a.pkg_name is None ==> ({
            let s = pieces(a.name, CharSet::Is('@'))[0];
            &&& s == "ssh"@ ==> a.coordinate() == "openssh"@
            &&& s == "apache2"@ || s == "httpd"@ ==> a.coordinate() == "apache"@
            &&& s == "mariadb"@ ==> a.coordinate() == "mysql"@
            &&& s == "postgres"@ ==> a.coordinate() == "postgresql"@
            &&& s != "ssh"@ && s != "apache2"@ && s != "httpd"@ && s != "mariadb"@ && s
                != "postgres"@ ==> a.coordinate() == s
        }),
        a.key() == a.coordinate() + seq!['@'] + a.version,
{
    reveal_strlit("ssh");
    reveal_strlit("apache2");
    reveal_strlit("httpd");
    reveal_strlit("mariadb");
    reveal_strlit("postgres");
    reveal_strlit("@");
    assert("@"@ =~= seq!['@']);
    assert("ssh"@[0] == 's' && "apache2"@[0] == 'a' && "httpd"@[0] == 'h' && "mariadb"@[0] == 'm'
        && "postgres"@[0] == 'p');
}

/// A scan looks at the services that run, and at the installed packages only where all is to be
/// scanned.
pub proof fn a_scan_covers_its_scope(scope: ScanScope)
    ensures
        discoveries(scope).contains(Discovery::RunningServices),
        discoveries(scope).contains(Discovery::OsPackages) <==> scope == ScanScope::All,
        discoveries(scope).contains(Discovery::Windows { full: true }) <==> scope == ScanScope::All,
        discoveries(scope).contains(Discovery::Windows { full: false }) <==> scope
            == ScanScope::Running,
{
    let d = discoveries(scope);
    assert(d[0] == Discovery::RunningServices);
    if scope == ScanScope::All {
        assert(d[1] == Discovery::OsPackages);
        assert(d[2] == Discovery::Windows { full: true });
    } else {
        assert(d[1] == Discovery::Windows { full: false });
    }
}

/// All that was found is collected, and nothing else.
pub proof fn all_that_was_found_is_collected(lists: Seq<Seq<AssetView>>, a: AssetView)
    ensures
        all_assets(lists).contains(a) <==> exists|i: int|
            0 <= i < lists.len() && (#[trigger] lists[i]).contains(a),
    decreases lists.len(),
{
    if lists.len() > 0 {
        let d = lists.drop_last();
        all_that_was_found_is_collected(d, a);
        let x = all_assets(d);
        let y = lists.last();
        let all = x + y;
        if all.contains(a) {
            let k = choose|k: int| 0 <= k < all.len() && all[k] == a;
            if k < x.len() {
                assert(x[k] == a);
                let i = choose|i: int| 0 <= i < d.len() && (#[trigger] d[i]).contains(a);
                assert(lists[i] == d[i]);
            } else {
                assert(y[k - x.len()] == a);
                assert(lists[lists.len() - 1].contains(a));
            }
        }
        if exists|i: int| 0 <= i < lists.len() && (#[trigger] lists[i]).contains(a) {
            let i = choose|i: int| 0 <= i < lists.len() && (#[trigger] lists[i]).contains(a);
            if i < d.len() {
                assert(d[i] == lists[i]);
                let k = choose|k: int| 0 <= k < x.len() && x[k] == a;
                assert(all[k] == a);
            } else {
                let k = choose|k: int| 0 <= k < y.len() && y[k] == a;
                assert(all[x.len() + k] == a);
            }
        }
    }
}

// ── Which assets are scanned ─────────────────────────────────────────────────

/// An asset with a name that is excluded is not scanned, whatever is included; any other is
/// scanned where nothing or one of its names is included. The case of names and globs does not
/// matter.
pub proof fn excluded_assets_are_not_scanned(
    names: Seq<Seq<char>>,
    only: Seq<Seq<char>>,
    never: Seq<Seq<char>>,
)
    ensures
        (exists|i: int, j: int|
            0 <= i < never.len() && 0 <= j < names.len() && glob_fits(
                lowercase(#[trigger] never[i]),
                lowercase(#[trigger] names[j]),
            )) ==> !is_allowed(names, only, never),
        is_allowed(names, only, never) && only.len() > 0 ==> exists|i: int, j: int|
            0 <= i < only.len() && 0 <= j < names.len() && glob_fits(
                lowercase(#[trigger] only[i]),
                lowercase(#[trigger] names[j]),
            ),
        never.len() == 0 && only.len() == 0 ==> is_allowed(names, only, never),
        (exists|i: int, j: int|
            0 <= i < only.len() && 0 <= j < names.len() && glob_fits(
                lowercase(#[trigger] only[i]),
                lowercase(#[trigger] names[j]),
            )) && never.len() == 0 ==> is_allowed(names, only, never),
{
}

/// Of the assets those that are allowed by their name or their coordinate are scanned, and no
/// others.
pub proof fn allowed_assets_are_scanned(
    assets: Seq<AssetView>,
    only: Seq<Seq<char>>,
    never: Seq<Seq<char>>,
    a: AssetView,
)
    ensures
        allowed_ones(assets, only, never).contains(a) <==> assets.contains(a) && is_allowed(
            seq![a.name, a.coordinate()],
            only,
            never,
        ),
        only.len() == 0 && never.len() == 0 ==> allowed_ones(assets, only, never) == assets,
    decreases assets.len(),
{
    if assets.len() > 0 {
        let d = assets.drop_last();
        allowed_assets_are_scanned(d, only, never, a);
        let x = allowed_ones(assets, only, never);
        let y = allowed_ones(d, only, never);
        if x.contains(a) {
            let k = choose|k: int| 0 <= k < x.len() && x[k] == a;
            if k < y.len() {
                assert(y[k] == a);
                let i = choose|i: int| 0 <= i < d.len() && d[i] == a;
                assert(assets[i] == a);
            } else {
                assert(assets[assets.len() - 1] == a);
            }
        }
        if assets.contains(a) && is_allowed(seq![a.name, a.coordinate()], only, never) {
            let i = choose|i: int| 0 <= i < assets.len() && assets[i] == a;
            if i < d.len() {
                assert(d[i] == a);
                let k = choose|k: int| 0 <= k < y.len() && y[k] == a;
                assert(x[k] == a);
            } else {
                assert(x[x.len() - 1] == a);
            }
        }
        assert(d.push(assets.last()) =~= assets);
    }
}

// ── What is reported of an asset ─────────────────────────────────────────────

/// What is reported of an asset is where it is, its version, and how far its process can be
/// reached; an asset without a process is not exposed.
pub proof fn what_is_reported_of_an_asset(a: AssetView)
    ensures
        info_of(a).version == a.version,
        a.locations.len() > 0 ==> info_of(a).exe == a.locations[0],
        a.locations.len() == 0 ==> info_of(a).exe.len() == 0,
        a.runtime matches Some(r) ==> info_of(a).exposed == r.exposed && info_of(a).listeners
            == r.listeners && info_of(a).reachability == r.reachability.name(),
        a.runtime is None ==> !info_of(a).exposed && info_of(a).listeners.len() == 0 && info_of(
            a,
        ).reachability == "none"@,
        info_of(a).version_source == "package-db"@ <==> a.sources.contains(Source::PackageDb),
        !a.sources.contains(Source::PackageDb) ==> info_of(a).version_source == "probe"@,
{
    reveal_strlit("package-db");
    reveal_strlit("probe");
    assert("package-db"@.len() != "probe"@.len());
}

/// Each asset whose key is its own is found by it with what is reported of it.
pub proof fn an_asset_is_found_by_its_key(assets: Seq<AssetView>, i: int)
    requires
        0 <= i < assets.len(),
        forall|k: int|
            0 <= k < assets.len() && k != i ==> (#[trigger] assets[k]).key() != assets[i].key(),
    ensures
        lookup(infos_of(assets), assets[i].key()) == Some(info_of(assets[i])),
        key_is_exposed(infos_of(assets), assets[i].key()) <==> (assets[i].runtime matches Some(r)
            && r.exposed),
    decreases assets.len(),
{
    let d = assets.drop_last();
    let key = assets[i].key();
    lookup_after_put(infos_of(d), assets.last().key(), info_of(assets.last()), key);
    if i < d.len() {
        assert(d[i] == assets[i]);
        assert forall|k: int| 0 <= k < d.len() && k != i implies (#[trigger] d[k]).key()
            != d[i].key() by {
            assert(d[k] == assets[k]);
        }
        an_asset_is_found_by_its_key(d, i);
        assert(assets[assets.len() - 1].key() != key);
    }
}

/// An asset that is not there is not exposed.
pub proof fn no_asset_is_made_up(assets: Seq<AssetView>, key: Seq<char>)
    requires
        forall|k: int| 0 <= k < assets.len() ==> (#[trigger] assets[k]).key() != key,
    ensures
        lookup(infos_of(assets), key) is None,
        !key_is_exposed(infos_of(assets), key),
    decreases assets.len(),
{
    if assets.len() > 0 {
        let d = assets.drop_last();
        assert forall|k: int| 0 <= k < d.len() implies (#[trigger] d[k]).key() != key by {
            assert(d[k] == assets[k]);
        }
        no_asset_is_made_up(d, key);
        assert(assets[assets.len() - 1].key() != key);
        lookup_after_put(infos_of(d), assets.last().key(), info_of(assets.last()), key);
    }
}

// ── Where the report goes ────────────────────────────────────────────────────

/// The report goes to the path that was typed, with the home directory for a tilde; without one
/// it goes to the usual place.
pub proof fn the_report_goes_where_it_was_told(l: Seq<char>, rest: Seq<char>, home: Seq<char>)
    ensures
        expanded("~/"@ + rest, Some(home)) == home + "/"@ + rest,
        !has_prefix(l, "~/"@) ==> expanded(l, Some(home)) == l && expanded(l, None) == l,
        trimmed(l).len() > 0 && !has_prefix(trimmed(l), "~/"@) ==> chosen_path(Some(l), Some(home))
            == trimmed(l),
        trimmed(l).len() == 0 ==> chosen_path(Some(l), Some(home)) == "/tmp/threats.json"@,
        chosen_path(None, Some(home)) == "/tmp/threats.json"@,
{
    prefixes_and_suffixes_come_off("~/"@, rest);
}

// ── What the system is called ────────────────────────────────────────────────

/// A distribution goes by the name that its release file has for it; one that is not known by the
/// name that it told.
pub proof fn a_distribution_goes_by_its_name(d: LinuxDistroView)
    ensures
        d == LinuxDistroView::Debian ==> distro_name(d) == "debian"@,
        d == LinuxDistroView::Ubuntu ==> distro_name(d) == "ubuntu"@,
        d == LinuxDistroView::Kali ==> distro_name(d) == "kali"@,
        d == LinuxDistroView::Fedora ==> distro_name(d) == "fedora"@,
        d == LinuxDistroView::Rhel ==> distro_name(d) == "rhel"@,
        d == LinuxDistroView::CentOs ==> distro_name(d) == "centos"@,
        d == LinuxDistroView::Arch ==> distro_name(d) == "arch"@,
        d == LinuxDistroView::Alpine ==> distro_name(d) == "alpine"@,
        d == LinuxDistroView::OpenSuse ==> distro_name(d) == "opensuse"@,
        d == LinuxDistroView::Gentoo ==> distro_name(d) == "gentoo"@,
        d == LinuxDistroView::NixOs ==> distro_name(d) == "nixos"@,
        d matches LinuxDistroView::Unknown(s) ==> distro_name(d) == s,
{
}

/// An operating system is told by its proper name: a Linux with that of its distribution, a Windows
/// as it calls itself.
pub proof fn an_operating_system_is_told_by_its_name(d: LinuxDistroView, os: OsTypeView)
    ensures
        label_of(OsTypeView::Linux(d)) == "Linux ("@ + distro_name(d) + ")"@,
        label_of(OsTypeView::MacOs) == "macOS"@,
        label_of(OsTypeView::FreeBsd) == "FreeBSD"@,
        label_of(OsTypeView::OpenBsd) == "OpenBSD"@,
        label_of(OsTypeView::NetBsd) == "NetBSD"@,
        label_of(OsTypeView::DragonFlyBsd) == "DragonFly BSD"@,
        label_of(OsTypeView::Solaris) == "Solaris"@,
        label_of(OsTypeView::Illumos) == "illumos"@,
        os matches OsTypeView::Windows(w) ==> label_of(os) == w.display_name,
        os matches OsTypeView::Unsupported(s) ==> label_of(os) == "Unsupported ("@ + s + ")"@,
{
}

/// What is known of a system is its kernel and its distribution, each with its version: the version
/// of a Linux distribution stands in its release file, that of macOS and Solaris is told apart, and
/// the others are of one piece.
pub proof fn a_system_is_its_kernel_and_its_distribution(
    os: OsTypeView,
    k: Seq<char>,
    v: Option<Seq<char>>,
    release: Seq<char>,
)
    ensures
        system_facts(os, None, v, release) is None,
        trimmed(k).len() == 0 ==> system_facts(os, Some(k), v, release) is None,
        os is Windows || os is Unsupported ==> system_facts(os, Some(k), v, release) is None,
        trimmed(k).len() > 0 && !(os is Windows || os is Unsupported) ==> (system_facts(
            os,
            Some(k),
            v,
            release,
        ) matches Some(f) && {
            &&& f.kernel_version == trimmed(k)
            &&& os matches OsTypeView::Linux(d) ==> f.kernel_name == "linux"@ && f.distro_name
                == distro_name(d) && (unquoted_line(release, "VERSION_ID="@) matches Some(x)
                ==> f.distro_version == x)
            &&& os is MacOs ==> f.kernel_name == "darwin"@ && f.distro_name == "macos"@ && (v
                matches Some(x) ==> f.distro_version == trimmed(x))
            &&& os is Solaris ==> f.kernel_name == "sunos"@ && f.distro_name == "solaris"@ && (v
                matches Some(x) ==> f.distro_version == trimmed(x))
            &&& os is FreeBsd ==> f.kernel_name == "freebsd"@
            &&& os is DragonFlyBsd ==> f.kernel_name == "dragonfly"@
            &&& os is OpenBsd ==> f.kernel_name == "openbsd"@
            &&& os is NetBsd ==> f.kernel_name == "netbsd"@
            &&& os is Illumos ==> f.kernel_name == "illumos"@
            &&& os is FreeBsd || os is DragonFlyBsd || os is OpenBsd || os is NetBsd || os is Illumos
                ==> f.distro_name == f.kernel_name && f.distro_version == f.kernel_version
        }),
{
}

/// Without a home directory a path with a tilde is taken as it stands.
pub proof fn a_tilde_needs_a_home(path: Seq<char>)
    ensures
        expanded(path, None) == path,
{
}

} // verus!
