//! The operating system of the host.

use vstd::prelude::*;

use crate::number::{decimal, to_decimal};
use crate::split::{lines, text_lines};
use crate::text::{
    after_prefix, concat3, concat4, contains, lowercase, occurs, opt_str_view, opt_view, or_empty, own, same,
    strip_prefix, to_lowercase, trim, trim_matches, trimmed, trimmed_of, views, CharSet,
};

verus! {

#[derive(Debug, Clone)]
pub enum LinuxDistro {
    Debian,
    Ubuntu,
    Kali,
    Fedora,
    Rhel,
    CentOs,
    Arch,
    Alpine,
    OpenSuse,
    Gentoo,
    NixOs,
    Unknown(String),
}

pub enum LinuxDistroView {
    Debian,
    Ubuntu,
    Kali,
    Fedora,
    Rhel,
    CentOs,
    Arch,
    Alpine,
    OpenSuse,
    Gentoo,
    NixOs,
    Unknown(Seq<char>),
}

impl DeepView for LinuxDistro {
    type V = LinuxDistroView;

    open spec fn deep_view(&self) -> LinuxDistroView {
        match *self {
            LinuxDistro::Debian => LinuxDistroView::Debian,
            LinuxDistro::Ubuntu => LinuxDistroView::Ubuntu,
            LinuxDistro::Kali => LinuxDistroView::Kali,
            LinuxDistro::Fedora => LinuxDistroView::Fedora,
            LinuxDistro::Rhel => LinuxDistroView::Rhel,
            LinuxDistro::CentOs => LinuxDistroView::CentOs,
            LinuxDistro::Arch => LinuxDistroView::Arch,
            LinuxDistro::Alpine => LinuxDistroView::Alpine,
            LinuxDistro::OpenSuse => LinuxDistroView::OpenSuse,
            LinuxDistro::Gentoo => LinuxDistroView::Gentoo,
            LinuxDistro::NixOs => LinuxDistroView::NixOs,
            LinuxDistro::Unknown(s) => LinuxDistroView::Unknown(s@),
        }
    }
}

/// What identifies a Windows installation.
#[derive(Debug, Clone)]
pub struct WinOs {
    /// The product as CPEs name it.
    pub product: String,
    pub display_name: String,
    /// The feature update.
    pub feature: String,
    pub build: u32,
    /// The revision of the build.
    pub ubr: u32,
    pub is_server: bool,
    pub edition: String,
    pub arch: String,
}

pub struct WinOsView {
    pub product: Seq<char>,
    pub display_name: Seq<char>,
    pub feature: Seq<char>,
    pub build: u32,
    pub ubr: u32,
    pub is_server: bool,
    pub edition: Seq<char>,
    pub arch: Seq<char>,
}

impl DeepView for WinOs {
    type V = WinOsView;

    open spec fn deep_view(&self) -> WinOsView {
        WinOsView {
            product: self.product@,
            display_name: self.display_name@,
            feature: self.feature@,
            build: self.build,
            ubr: self.ubr,
            is_server: self.is_server,
            edition: self.edition@,
            arch: self.arch@,
        }
    }
}

impl Default for WinOs {
    fn default() -> (r: Self)
        ensures
            r.deep_view() == (WinOsView {
                product: Seq::empty(),
                display_name: Seq::empty(),
                feature: Seq::empty(),
                build: 0,
                ubr: 0,
                is_server: false,
                edition: Seq::empty(),
                arch: Seq::empty(),
            }),
    {
        WinOs {
            product: String::new(),
            display_name: String::new(),
            feature: String::new(),
            build: 0,
            ubr: 0,
            is_server: false,
            edition: String::new(),
            arch: String::new(),
        }
    }
}

/// The version of a Windows build.
pub open spec fn windows_version(build: u32, ubr: u32) -> Seq<char> {
    "10.0."@ + decimal(build as nat) + "."@ + decimal(ubr as nat)
}

impl WinOs {
    pub fn version_string(&self) -> (r: String)
        ensures
            r@ == windows_version(self.build, self.ubr),
    {
        let b = to_decimal(self.build as u64);
        let u = to_decimal(self.ubr as u64);
        concat4("10.0.", b.as_str(), ".", u.as_str())
    }
}

#[derive(Debug, Clone)]
pub enum OsType {
    Linux(LinuxDistro),
    MacOs,
    FreeBsd,
    OpenBsd,
    NetBsd,
    DragonFlyBsd,
    Solaris,
    Illumos,
    Windows(WinOs),
    Unsupported(String),
}

pub enum OsTypeView {
    Linux(LinuxDistroView),
    MacOs,
    FreeBsd,
    OpenBsd,
    NetBsd,
    DragonFlyBsd,
    Solaris,
    Illumos,
    Windows(WinOsView),
    Unsupported(Seq<char>),
}

impl DeepView for OsType {
    type V = OsTypeView;

    open spec fn deep_view(&self) -> OsTypeView {
        match *self {
            OsType::Linux(d) => OsTypeView::Linux(d.deep_view()),
            OsType::MacOs => OsTypeView::MacOs,
            OsType::FreeBsd => OsTypeView::FreeBsd,
            OsType::OpenBsd => OsTypeView::OpenBsd,
            OsType::NetBsd => OsTypeView::NetBsd,
            OsType::DragonFlyBsd => OsTypeView::DragonFlyBsd,
            OsType::Solaris => OsTypeView::Solaris,
            OsType::Illumos => OsTypeView::Illumos,
            OsType::Windows(w) => OsTypeView::Windows(w.deep_view()),
            OsType::Unsupported(s) => OsTypeView::Unsupported(s@),
        }
    }
}

// ── Which distribution ───────────────────────────────────────────────────────

/// What follows `key` on the first line that begins with it.
pub open spec fn line_after(ls: Seq<Seq<char>>, key: Seq<char>) -> Option<Seq<char>>
    decreases ls.len(),
{
    if ls.len() == 0 {
        None
    } else {
        match after_prefix(ls[0], key) {
            Some(rest) => Some(rest),
            None => line_after(ls.skip(1), key),
        }
    }
}

/// What follows `key` on the first line that begins with it, without quotes.
pub open spec fn unquoted_line(content: Seq<char>, key: Seq<char>) -> Option<Seq<char>> {
    match line_after(text_lines(content), key) {
        Some(rest) => Some(trimmed_of(rest, CharSet::Is('"'))),
        None => None,
    }
}

fn find_unquoted(content: &str, key: &str) -> (r: Option<String>)
    ensures
        opt_view(r) == unquoted_line(content@, key@),
{
    let ls = lines(content);
    let ghost q = views(ls@);
    let mut i: usize = 0;
    assert(q.skip(0) =~= q);
    while i < ls.len()
        invariant
            i <= ls@.len(),
            q == views(ls@),
            q == text_lines(content@),
            line_after(q, key@) == line_after(q.skip(i as int), key@),
        decreases ls@.len() - i,
    {
        assert(q.skip(i as int)[0] == ls@[i as int]@);
        assert(q.skip(i as int).skip(1) =~= q.skip(i + 1));
        if let Some(rest) = strip_prefix(ls[i].as_str(), key) {
            return Some(trim_matches(rest.as_str(), CharSet::Is('"')));
        }
        i += 1;
    }
    None
}

/// A field of the release file as it is compared; empty where it is not there.
pub open spec fn plain_release_field(content: Seq<char>, key: Seq<char>) -> Seq<char> {
    match unquoted_line(content, key) {
        Some(s) => lowercase(s),
        None => Seq::empty(),
    }
}

fn release_field_lower(content: &str, key: &str) -> (r: String)
    ensures
        r@ == plain_release_field(content@, key@),
{
    match find_unquoted(content, key) {
        Some(s) => to_lowercase(s.as_str()),
        None => String::new(),
    }
}

/// The distribution whose name a text holds; the first of the list decides.
pub open spec fn distro_named(s: Seq<char>) -> Option<LinuxDistroView> {
    if occurs(s, "kali"@) {
        Some(LinuxDistroView::Kali)
    } else if occurs(s, "ubuntu"@) {
        Some(LinuxDistroView::Ubuntu)
    } else if occurs(s, "debian"@) {
        Some(LinuxDistroView::Debian)
    } else if occurs(s, "fedora"@) {
        Some(LinuxDistroView::Fedora)
    } else if occurs(s, "rhel"@) || occurs(s, "redhat"@) {
        Some(LinuxDistroView::Rhel)
    } else if occurs(s, "centos"@) {
        Some(LinuxDistroView::CentOs)
    } else if occurs(s, "arch"@) {
        Some(LinuxDistroView::Arch)
    } else if occurs(s, "alpine"@) {
        Some(LinuxDistroView::Alpine)
    } else if occurs(s, "suse"@) {
        Some(LinuxDistroView::OpenSuse)
    } else if occurs(s, "gentoo"@) {
        Some(LinuxDistroView::Gentoo)
    } else if occurs(s, "nix"@) {
        Some(LinuxDistroView::NixOs)
    } else {
        None
    }
}

/// The distribution whose name a text holds.
pub fn distro_from_name(s: &str) -> (r: Option<LinuxDistro>)
    ensures
        r.deep_view() == distro_named(s@),
{
    if contains(s, "kali") {
        Some(LinuxDistro::Kali)
    } else if contains(s, "ubuntu") {
        Some(LinuxDistro::Ubuntu)
    } else if contains(s, "debian") {
        Some(LinuxDistro::Debian)
    } else if contains(s, "fedora") {
        Some(LinuxDistro::Fedora)
    } else if contains(s, "rhel") || contains(s, "redhat") {
        Some(LinuxDistro::Rhel)
    } else if contains(s, "centos") {
        Some(LinuxDistro::CentOs)
    } else if contains(s, "arch") {
        Some(LinuxDistro::Arch)
    } else if contains(s, "alpine") {
        Some(LinuxDistro::Alpine)
    } else if contains(s, "suse") {
        Some(LinuxDistro::OpenSuse)
    } else if contains(s, "gentoo") {
        Some(LinuxDistro::Gentoo)
    } else if contains(s, "nix") {
        Some(LinuxDistro::NixOs)
    } else {
        None
    }
}

/// Which of the files that tell a distribution are there.
#[derive(Debug, Clone, Copy)]
pub struct DistroMarkers {
    /// `/etc/debian_version`
    pub debian: bool,
    /// `/etc/fedora-release`
    pub fedora: bool,
    /// `/etc/arch-release`
    pub arch: bool,
    /// `/etc/alpine-release`
    pub alpine: bool,
}

/// The distribution of a host: by the `ID` of its release file, or else by the
/// `ID_LIKE`; without that file by the others.
pub open spec fn distro_of(release: Option<Seq<char>>, m: DistroMarkers) -> LinuxDistroView {
    match release {
        Some(content) => match distro_named(plain_release_field(content, "ID="@)) {
            Some(d) => d,
            None => match distro_named(plain_release_field(content, "ID_LIKE="@)) {
                Some(d) => d,
                None => LinuxDistroView::Unknown(plain_release_field(content, "ID="@)),
            },
        },
        None => if m.debian {
            LinuxDistroView::Debian
        } else if m.fedora {
            LinuxDistroView::Fedora
        } else if m.arch {
            LinuxDistroView::Arch
        } else if m.alpine {
            LinuxDistroView::Alpine
        } else {
            LinuxDistroView::Unknown("unknown"@)
        },
    }
}

/// The distribution of a host whose `/etc/os-release` holds `release`.
pub fn detect_linux_distro(release: Option<&str>, markers: DistroMarkers) -> (r: LinuxDistro)
    ensures
        r.deep_view() == distro_of(opt_str_view(release), markers),
{
    match release {
        Some(content) => {
            let id = release_field_lower(content, "ID=");
            if let Some(d) = distro_from_name(id.as_str()) {
                return d;
            }
            let like = release_field_lower(content, "ID_LIKE=");
            if let Some(d) = distro_from_name(like.as_str()) {
                return d;
            }
            LinuxDistro::Unknown(id)
        },
        None => if markers.debian {
            LinuxDistro::Debian
        } else if markers.fedora {
            LinuxDistro::Fedora
        } else if markers.arch {
            LinuxDistro::Arch
        } else if markers.alpine {
            LinuxDistro::Alpine
        } else {
            LinuxDistro::Unknown(own("unknown"))
        },
    }
}

/// The operating system that a target name stands for.
pub open spec fn os_named(name: Seq<char>, distro: LinuxDistroView) -> OsTypeView {
    if name == "linux"@ {
        OsTypeView::Linux(distro)
    } else if name == "macos"@ {
        OsTypeView::MacOs
    } else if name == "freebsd"@ {
        OsTypeView::FreeBsd
    } else if name == "openbsd"@ {
        OsTypeView::OpenBsd
    } else if name == "netbsd"@ {
        OsTypeView::NetBsd
    } else if name == "dragonfly"@ {
        OsTypeView::DragonFlyBsd
    } else if name == "solaris"@ {
        OsTypeView::Solaris
    } else if name == "illumos"@ {
        OsTypeView::Illumos
    } else {
        OsTypeView::Unsupported(name)
    }
}

/// The operating system that a target name stands for; `distro` is used where
/// that is Linux.
pub fn detect_os(name: &str, distro: LinuxDistro) -> (r: OsType)
    ensures
        r.deep_view() == os_named(name@, distro.deep_view()),
{
    if same(name, "linux") {
        OsType::Linux(distro)
    } else if same(name, "macos") {
        OsType::MacOs
    } else if same(name, "freebsd") {
        OsType::FreeBsd
    } else if same(name, "openbsd") {
        OsType::OpenBsd
    } else if same(name, "netbsd") {
        OsType::NetBsd
    } else if same(name, "dragonfly") {
        OsType::DragonFlyBsd
    } else if same(name, "solaris") {
        OsType::Solaris
    } else if same(name, "illumos") {
        OsType::Illumos
    } else {
        OsType::Unsupported(own(name))
    }
}

// ── Names and versions ───────────────────────────────────────────────────────

pub open spec fn distro_name(d: LinuxDistroView) -> Seq<char> {
    match d {
        LinuxDistroView::Ubuntu => "ubuntu"@,
        LinuxDistroView::Debian => "debian"@,
        LinuxDistroView::Kali => "kali"@,
        LinuxDistroView::Fedora => "fedora"@,
        LinuxDistroView::Rhel => "rhel"@,
        LinuxDistroView::CentOs => "centos"@,
        LinuxDistroView::Arch => "arch"@,
        LinuxDistroView::Alpine => "alpine"@,
        LinuxDistroView::OpenSuse => "opensuse"@,
        LinuxDistroView::Gentoo => "gentoo"@,
        LinuxDistroView::NixOs => "nixos"@,
        LinuxDistroView::Unknown(s) => s,
    }
}

/// The name of a distribution, and the `VERSION_ID` of its release file.
pub fn parse_linux_distro_version(distro: &LinuxDistro, release: &str) -> (r: (String, String))
    ensures
        r.0@ == distro_name(distro.deep_view()),
        r.1@ == or_empty(unquoted_line(release@, "VERSION_ID="@)),
{
    let name = match distro {
        LinuxDistro::Ubuntu => own("ubuntu"),
        LinuxDistro::Debian => own("debian"),
        LinuxDistro::Kali => own("kali"),
        LinuxDistro::Fedora => own("fedora"),
        LinuxDistro::Rhel => own("rhel"),
        LinuxDistro::CentOs => own("centos"),
        LinuxDistro::Arch => own("arch"),
        LinuxDistro::Alpine => own("alpine"),
        LinuxDistro::OpenSuse => own("opensuse"),
        LinuxDistro::Gentoo => own("gentoo"),
        LinuxDistro::NixOs => own("nixos"),
        LinuxDistro::Unknown(s) => s.clone(),
    };
    let version = match find_unquoted(release, "VERSION_ID=") {
        Some(v) => v,
        None => String::new(),
    };
    (name, version)
}

/// How an operating system is shown.
pub open spec fn label_of(os: OsTypeView) -> Seq<char> {
    match os {
        OsTypeView::Linux(d) => "Linux ("@ + distro_name(d) + ")"@,
        OsTypeView::MacOs => "macOS"@,
        OsTypeView::FreeBsd => "FreeBSD"@,
        OsTypeView::OpenBsd => "OpenBSD"@,
        OsTypeView::NetBsd => "NetBSD"@,
        OsTypeView::DragonFlyBsd => "DragonFly BSD"@,
        OsTypeView::Solaris => "Solaris"@,
        OsTypeView::Illumos => "illumos"@,
        OsTypeView::Windows(w) => w.display_name,
        OsTypeView::Unsupported(s) => "Unsupported ("@ + s + ")"@,
    }
}

/// How an operating system is shown.
pub fn os_label(os: &OsType) -> (r: String)
    ensures
        r@ == label_of(os.deep_view()),
{
    match os {
        OsType::Linux(d) => {
            let (name, _) = parse_linux_distro_version(d, "");
            concat3("Linux (", name.as_str(), ")")
        },
        OsType::MacOs => own("macOS"),
        OsType::FreeBsd => own("FreeBSD"),
        OsType::OpenBsd => own("OpenBSD"),
        OsType::NetBsd => own("NetBSD"),
        OsType::DragonFlyBsd => own("DragonFly BSD"),
        OsType::Solaris => own("Solaris"),
        OsType::Illumos => own("illumos"),
        OsType::Windows(w) => w.display_name.clone(),
        OsType::Unsupported(s) => concat3("Unsupported (", s.as_str(), ")"),
    }
}

/// The kernel and the distribution of a host.
#[derive(Debug)]
pub struct SystemFacts {
    pub kernel_name: String,
    pub kernel_version: String,
    pub distro_name: String,
    pub distro_version: String,
}

pub struct SystemFactsView {
    pub kernel_name: Seq<char>,
    pub kernel_version: Seq<char>,
    pub distro_name: Seq<char>,
    pub distro_version: Seq<char>,
}

impl DeepView for SystemFacts {
    type V = SystemFactsView;

    open spec fn deep_view(&self) -> SystemFactsView {
        SystemFactsView {
            kernel_name: self.kernel_name@,
            kernel_version: self.kernel_version@,
            distro_name: self.distro_name@,
            distro_version: self.distro_version@,
        }
    }
}

/// The output of a command without white space around it; empty where it failed.
pub open spec fn plain_output(out: Option<Seq<char>>) -> Seq<char> {
    match out {
        Some(s) => trimmed(s),
        None => Seq::empty(),
    }
}

fn output_text(out: Option<&str>) -> (r: String)
    ensures
        r@ == plain_output(opt_str_view(out)),
{
    match out {
        Some(s) => trim(s),
        None => String::new(),
    }
}

/// The facts of a system whose kernel and distribution are one.
pub open spec fn same_facts(name: Seq<char>, version: Seq<char>) -> SystemFactsView {
    SystemFactsView {
        kernel_name: name,
        kernel_version: version,
        distro_name: name,
        distro_version: version,
    }
}

/// What is known of the system: `kernel` is what `uname -r` printed, `version` what
/// `sw_vers -productVersion` (macOS) or `uname -v` (Solaris) printed, and `release`
/// what `/etc/os-release` holds.
pub open spec fn system_facts(
    os: OsTypeView,
    kernel: Option<Seq<char>>,
    version: Option<Seq<char>>,
    release: Seq<char>,
) -> Option<SystemFactsView> {
    let k = plain_output(kernel);
    let v = plain_output(version);
    if k.len() == 0 {
        None
    } else {
        match os {
            OsTypeView::Linux(d) => Some(
                SystemFactsView {
                    kernel_name: "linux"@,
                    kernel_version: k,
                    distro_name: distro_name(d),
                    distro_version: or_empty(unquoted_line(release, "VERSION_ID="@)),
                },
            ),
            OsTypeView::MacOs => Some(
                SystemFactsView {
                    kernel_name: "darwin"@,
                    kernel_version: k,
                    distro_name: "macos"@,
                    distro_version: v,
                },
            ),
            OsTypeView::FreeBsd => Some(same_facts("freebsd"@, k)),
            OsTypeView::DragonFlyBsd => Some(same_facts("dragonfly"@, k)),
            OsTypeView::OpenBsd => Some(same_facts("openbsd"@, k)),
            OsTypeView::NetBsd => Some(same_facts("netbsd"@, k)),
            OsTypeView::Solaris => Some(
                SystemFactsView {
                    kernel_name: "sunos"@,
                    kernel_version: k,
                    distro_name: "solaris"@,
                    distro_version: v,
                },
            ),
            OsTypeView::Illumos => Some(same_facts("illumos"@, k)),
            OsTypeView::Windows(_) => None,
            OsTypeView::Unsupported(_) => None,
        }
    }
}

fn one_name_facts(name: &str, version: String) -> (r: SystemFacts)
    ensures
        r.deep_view() == same_facts(name@, version@),
{
    SystemFacts {
        kernel_name: own(name),
        kernel_version: version.clone(),
        distro_name: own(name),
        distro_version: version,
    }
}

/// What is known of the system, from what the commands printed.
pub fn gather_system_info(
    os: &OsType,
    kernel: Option<&str>,
    version: Option<&str>,
    release: &str,
) -> (r: Option<SystemFacts>)
    ensures
        r.deep_view() == system_facts(
            os.deep_view(),
            opt_str_view(kernel),
            opt_str_view(version),
            release@,
        ),
{
    let k = output_text(kernel);
    if k.as_str().is_empty() {
        return None;
    }
    match os {
        OsType::Linux(distro) => {
            let (distro_name, distro_version) = parse_linux_distro_version(distro, release);
            Some(
                SystemFacts {
                    kernel_name: own("linux"),
                    kernel_version: k,
                    distro_name,
                    distro_version,
                },
            )
        },
        OsType::MacOs => Some(
            SystemFacts {
                kernel_name: own("darwin"),
                kernel_version: k,
                distro_name: own("macos"),
                distro_version: output_text(version),
            },
        ),
        OsType::FreeBsd => Some(one_name_facts("freebsd", k)),
        OsType::DragonFlyBsd => Some(one_name_facts("dragonfly", k)),
        OsType::OpenBsd => Some(one_name_facts("openbsd", k)),
        OsType::NetBsd => Some(one_name_facts("netbsd", k)),
        OsType::Solaris => Some(
            SystemFacts {
                kernel_name: own("sunos"),
                kernel_version: k,
                distro_name: own("solaris"),
                distro_version: output_text(version),
            },
        ),
        OsType::Illumos => Some(one_name_facts("illumos", k)),
        OsType::Windows(_) => None,
        OsType::Unsupported(_) => None,
    }
}

/// The value of the field `key` of a release file: the first that is not empty.
pub open spec fn release_field(ls: Seq<Seq<char>>, key: Seq<char>) -> Option<Seq<char>>
    decreases ls.len(),
{
    if ls.len() == 0 {
        None
    } else {
        match field_on_line(ls[0], key) {
            Some(v) => Some(v),
            None => release_field(ls.skip(1), key),
        }
    }
}

/// The value of the field `key` where the line gives it and it is not empty.
pub open spec fn field_on_line(l: Seq<char>, key: Seq<char>) -> Option<Seq<char>> {
    match after_prefix(l, key) {
        Some(rest) => match after_prefix(rest, "="@) {
            Some(value) => {
                let v = trimmed_of(trimmed(value), CharSet::Is('"'));
                if v.len() == 0 {
                    None
                } else {
                    Some(v)
                }
            },
            None => None,
        },
        None => None,
    }
}

fn read_field(l: &str, key: &str) -> (r: Option<String>)
    ensures
        opt_view(r) == field_on_line(l@, key@),
{
    match strip_prefix(l, key) {
        Some(rest) => match strip_prefix(rest.as_str(), "=") {
            Some(value) => {
                let t = trim(value.as_str());
                let v = trim_matches(t.as_str(), CharSet::Is('"'));
                if v.as_str().is_empty() {
                    None
                } else {
                    Some(v)
                }
            },
            None => None,
        },
        None => None,
    }
}

/// The value of the field `key` of a release file, such as `VERSION_ID`.
pub fn os_release_field(content: &str, key: &str) -> (r: Option<String>)
    ensures
        opt_view(r) == release_field(text_lines(content@), key@),
{
    let ls = lines(content);
    let ghost q = views(ls@);
    let mut i: usize = 0;
    assert(q.skip(0) =~= q);
    while i < ls.len()
        invariant
            i <= ls@.len(),
            q == views(ls@),
            q == text_lines(content@),
            release_field(q, key@) == release_field(q.skip(i as int), key@),
        decreases ls@.len() - i,
    {
        assert(q.skip(i as int)[0] == ls@[i as int]@);
        assert(q.skip(i as int).skip(1) =~= q.skip(i + 1));
        if let Some(v) = read_field(ls[i].as_str(), key) {
            return Some(v);
        }
        i += 1;
    }
    None
}

} // verus!
