//! The packages that are installed, as the package managers list them.

use vstd::prelude::*;

use crate::host::{LinuxDistro, LinuxDistroView, OsType, OsTypeView};
use crate::list::push_pair;
use crate::packages::{atom_of, atom_split, build_evr, evr, first_two_words, or_nothing, two_words, Pair};
use crate::split::{first_of, lines, nth, nth_of, pieces, split, split_whitespace, text_lines, words};
use crate::text::{chars_of, opt_pair_view, opt_str_view, pair_views, same, trim, trimmed, views, CharSet};

verus! {

/// The package on a line of `dpkg-query -W`: status, name and version between
/// tabs. Only packages whose status says that they are installed count.
pub open spec fn dpkg_line(l: Seq<char>) -> Option<Pair> {
    let c = pieces(l, CharSet::Is('\t'));
    if c.len() >= 3 && c[0].len() >= 2 && c[0][1] == 'i' && c[1].len() > 0 && c[2].len() > 0 {
        Some((c[1], c[2]))
    } else {
        None
    }
}

/// The package on a line of `rpm -qa`: name, epoch, version and release between
/// tabs. Keys are no packages.
pub open spec fn rpm_line(l: Seq<char>) -> Option<Pair> {
    let c = pieces(l, CharSet::Is('\t'));
    if c.len() >= 3 && c[0] != "gpg-pubkey"@ && c[0].len() > 0 && c[2].len() > 0 {
        Some((c[0], evr(c[1], c[2], or_nothing(nth_of(c, 3)))))
    } else {
        None
    }
}

/// The package on a line of `pkg_info`: the first word.
pub open spec fn pkg_info_line(l: Seq<char>) -> Option<Pair> {
    match first_of(words(l)) {
        Some(atom) => atom_of(atom),
        None => None,
    }
}

/// The packages on a line of `brew list --versions`: a name, and each of its
/// versions.
pub open spec fn brew_line(l: Seq<char>) -> Seq<Pair> {
    let w = words(l);
    if w.len() == 0 {
        Seq::empty()
    } else {
        Seq::new((w.len() - 1) as nat, |i: int| (w[0], w[i + 1]))
    }
}

pub open spec fn dpkg_packages(ls: Seq<Seq<char>>) -> Seq<Pair> {
    ls.filter_map(|l: Seq<char>| dpkg_line(l))
}

pub open spec fn rpm_packages(ls: Seq<Seq<char>>) -> Seq<Pair> {
    ls.filter_map(|l: Seq<char>| rpm_line(l))
}

pub open spec fn word_pairs(ls: Seq<Seq<char>>) -> Seq<Pair> {
    ls.filter_map(|l: Seq<char>| two_words(l))
}

pub open spec fn apk_packages(ls: Seq<Seq<char>>) -> Seq<Pair> {
    ls.filter_map(|l: Seq<char>| atom_of(trimmed(l)))
}

pub open spec fn pkg_info_packages(ls: Seq<Seq<char>>) -> Seq<Pair> {
    ls.filter_map(|l: Seq<char>| pkg_info_line(l))
}

pub open spec fn brew_packages(ls: Seq<Seq<char>>) -> Seq<Pair>
    decreases ls.len(),
{
    if ls.len() == 0 {
        Seq::empty()
    } else {
        brew_packages(ls.drop_last()) + brew_line(ls.last())
    }
}

fn parse_dpkg_line(l: &str) -> (r: Option<(String, String)>)
    ensures
        opt_pair_view(r) == dpkg_line(l@),
{
    let c = split(l, CharSet::Is('\t'));
    let ghost q = views(c@);
    if c.len() < 3 {
        return None;
    }
    assert(q[0] == c@[0]@ && q[1] == c@[1]@ && q[2] == c@[2]@);
    let status = chars_of(c[0].as_str());
    if status.len() < 2 || status[1] != 'i' || c[1].as_str().is_empty() || c[2].as_str().is_empty() {
        return None;
    }
    Some((c[1].clone(), c[2].clone()))
}

fn parse_rpm_line(l: &str) -> (r: Option<(String, String)>)
    ensures
        opt_pair_view(r) == rpm_line(l@),
{
    let c = split(l, CharSet::Is('\t'));
    let ghost q = views(c@);
    if c.len() < 3 {
        return None;
    }
    assert(q[0] == c@[0]@ && q[1] == c@[1]@ && q[2] == c@[2]@);
    if same(c[0].as_str(), "gpg-pubkey") || c[0].as_str().is_empty() || c[2].as_str().is_empty() {
        return None;
    }
    let empty = String::new();
    let release = match nth(&c, 3) {
        Some(x) => x,
        None => empty.as_str(),
    };
    let e = build_evr(c[1].as_str(), c[2].as_str(), release);
    Some((c[0].clone(), e))
}

/// The packages that `dpkg-query -W` lists.
pub fn parse_dpkg_list(out: &str) -> (r: Vec<(String, String)>)
    ensures
        pair_views(r@) == dpkg_packages(text_lines(out@)),
{
    let ls = lines(out);
    let ghost q = views(ls@);
    let mut v: Vec<(String, String)> = Vec::new();
    let mut i: usize = 0;
    assert(pair_views(v@) =~= dpkg_packages(q.take(0)));
    while i < ls.len()
        invariant
            i <= ls@.len(),
            q == views(ls@),
            pair_views(v@) == dpkg_packages(q.take(i as int)),
        decreases ls@.len() - i,
    {
        assert(q.take(i + 1).drop_last() =~= q.take(i as int));
        assert(q.take(i + 1).last() == ls@[i as int]@);
        push_pair(&mut v, parse_dpkg_line(ls[i].as_str()));
        i += 1;
    }
    assert(q.take(q.len() as int) =~= q);
    v
}

/// The packages that `rpm -qa` lists.
pub fn parse_rpm_list(out: &str) -> (r: Vec<(String, String)>)
    ensures
        pair_views(r@) == rpm_packages(text_lines(out@)),
{
    let ls = lines(out);
    let ghost q = views(ls@);
    let mut v: Vec<(String, String)> = Vec::new();
    let mut i: usize = 0;
    assert(pair_views(v@) =~= rpm_packages(q.take(0)));
    while i < ls.len()
        invariant
            i <= ls@.len(),
            q == views(ls@),
            pair_views(v@) == rpm_packages(q.take(i as int)),
        decreases ls@.len() - i,
    {
        assert(q.take(i + 1).drop_last() =~= q.take(i as int));
        assert(q.take(i + 1).last() == ls@[i as int]@);
        push_pair(&mut v, parse_rpm_line(ls[i].as_str()));
        i += 1;
    }
    assert(q.take(q.len() as int) =~= q);
    v
}

/// The packages that `pacman -Q` lists.
pub fn parse_pacman_list(out: &str) -> (r: Vec<(String, String)>)
    ensures
        pair_views(r@) == word_pairs(text_lines(out@)),
{
    let ls = lines(out);
    let ghost q = views(ls@);
    let mut v: Vec<(String, String)> = Vec::new();
    let mut i: usize = 0;
    assert(pair_views(v@) =~= word_pairs(q.take(0)));
    while i < ls.len()
        invariant
            i <= ls@.len(),
            q == views(ls@),
            pair_views(v@) == word_pairs(q.take(i as int)),
        decreases ls@.len() - i,
    {
        assert(q.take(i + 1).drop_last() =~= q.take(i as int));
        assert(q.take(i + 1).last() == ls@[i as int]@);
        push_pair(&mut v, first_two_words(ls[i].as_str()));
        i += 1;
    }
    assert(q.take(q.len() as int) =~= q);
    v
}

/// The packages that `apk info -v` lists.
pub fn parse_apk_list(out: &str) -> (r: Vec<(String, String)>)
    ensures
        pair_views(r@) == apk_packages(text_lines(out@)),
{
    let ls = lines(out);
    let ghost q = views(ls@);
    let mut v: Vec<(String, String)> = Vec::new();
    let mut i: usize = 0;
    assert(pair_views(v@) =~= apk_packages(q.take(0)));
    while i < ls.len()
        invariant
            i <= ls@.len(),
            q == views(ls@),
            pair_views(v@) == apk_packages(q.take(i as int)),
        decreases ls@.len() - i,
    {
        assert(q.take(i + 1).drop_last() =~= q.take(i as int));
        assert(q.take(i + 1).last() == ls@[i as int]@);
        let t = trim(ls[i].as_str());
        push_pair(&mut v, atom_split(t.as_str()));
        i += 1;
    }
    assert(q.take(q.len() as int) =~= q);
    v
}

/// The packages that `brew list --versions` lists, each version for itself.
pub fn parse_brew_list(out: &str) -> (r: Vec<(String, String)>)
    ensures
        pair_views(r@) == brew_packages(text_lines(out@)),
{
    let ls = lines(out);
    let ghost q = views(ls@);
    let mut v: Vec<(String, String)> = Vec::new();
    let mut i: usize = 0;
    assert(pair_views(v@) =~= brew_packages(q.take(0)));
    while i < ls.len()
        invariant
            i <= ls@.len(),
            q == views(ls@),
            pair_views(v@) == brew_packages(q.take(i as int)),
        decreases ls@.len() - i,
    {
        assert(q.take(i + 1).drop_last() =~= q.take(i as int));
        assert(q.take(i + 1).last() == ls@[i as int]@);
        let w = split_whitespace(ls[i].as_str());
        let ghost ws = views(w@);
        let ghost before = pair_views(v@);
        let ghost all = brew_line(ls@[i as int]@);
        if w.len() > 0 {
            let mut k: usize = 1;
            assert(before + all.take(0) =~= before);
            while k < w.len()
                invariant
                    1 <= k <= w@.len(),
                    ws == views(w@),
                    all.len() == ws.len() - 1,
                    forall|j: int| 0 <= j < all.len() ==> #[trigger] all[j] == (ws[0], ws[j + 1]),
                    pair_views(v@) == before + all.take(k - 1),
                decreases w@.len() - k,
            {
                let ghost mid = pair_views(v@);
                v.push((w[0].clone(), w[k].clone()));
                proof {
                    assert(all[k - 1] == (ws[0], ws[k as int]));
                    assert(pair_views(v@) =~= mid.push(all[k - 1]));
                    assert(all.take(k as int) =~= all.take(k - 1).push(all[k - 1]));
                    assert(before + all.take(k as int) =~= (before + all.take(k - 1)).push(all[k - 1]));
                }
                k += 1;
            }
            assert(all.take(all.len() as int) =~= all);
        } else {
            assert(before + all =~= before);
        }
        i += 1;
    }
    assert(q.take(q.len() as int) =~= q);
    v
}

/// The packages that FreeBSD's `pkg query '%n %v'` lists.
pub fn parse_pkg_query_list(out: &str) -> (r: Vec<(String, String)>)
    ensures
        pair_views(r@) == word_pairs(text_lines(out@)),
{
    parse_pacman_list(out)
}

/// The packages that `pkg_info` lists.
pub fn parse_pkg_info_list(out: &str) -> (r: Vec<(String, String)>)
    ensures
        pair_views(r@) == pkg_info_packages(text_lines(out@)),
{
    let ls = lines(out);
    let ghost q = views(ls@);
    let mut v: Vec<(String, String)> = Vec::new();
    let mut i: usize = 0;
    assert(pair_views(v@) =~= pkg_info_packages(q.take(0)));
    while i < ls.len()
        invariant
            i <= ls@.len(),
            q == views(ls@),
            pair_views(v@) == pkg_info_packages(q.take(i as int)),
        decreases ls@.len() - i,
    {
        assert(q.take(i + 1).drop_last() =~= q.take(i as int));
        assert(q.take(i + 1).last() == ls@[i as int]@);
        let w = split_whitespace(ls[i].as_str());
        match nth(&w, 0) {
            Some(atom) => {
                push_pair(&mut v, atom_split(atom));
            },
            None => {},
        }
        i += 1;
    }
    assert(q.take(q.len() as int) =~= q);
    v
}

/// A package that is installed, and the tool that listed it.
#[derive(Debug, Clone)]
pub struct InstalledPkg {
    pub name: String,
    pub version: String,
    pub tool: &'static str,
}

pub struct InstalledPkgView {
    pub name: Seq<char>,
    pub version: Seq<char>,
    pub tool: Seq<char>,
}

impl DeepView for InstalledPkg {
    type V = InstalledPkgView;

    open spec fn deep_view(&self) -> InstalledPkgView {
        InstalledPkgView { name: self.name@, version: self.version@, tool: self.tool@ }
    }
}

/// The packages as what the tool listed.
pub open spec fn listed_by(tool: Seq<char>, p: Seq<Pair>) -> Seq<InstalledPkgView> {
    Seq::new(p.len(), |i: int| InstalledPkgView { name: p[i].0, version: p[i].1, tool })
}

fn tagged(tool: &'static str, pairs: Vec<(String, String)>) -> (r: Vec<InstalledPkg>)
    ensures
        r.deep_view() == listed_by(tool@, pair_views(pairs@)),
{
    let mut out: Vec<InstalledPkg> = Vec::new();
    let mut i: usize = 0;
    while i < pairs.len()
        invariant
            i <= pairs@.len(),
            out@.len() == i,
            forall|k: int|
                0 <= k < i ==> (#[trigger] out@[k]).deep_view() == (InstalledPkgView {
                    name: pairs@[k].0@,
                    version: pairs@[k].1@,
                    tool: tool@,
                }),
        decreases pairs@.len() - i,
    {
        out.push(
            InstalledPkg { name: pairs[i].0.clone(), version: pairs[i].1.clone(), tool },
        );
        i += 1;
    }
    assert(out.deep_view() =~= listed_by(tool@, pair_views(pairs@)));
    out
}

/// The tools that list the packages of a system.
#[derive(Debug, Clone, Copy, PartialEq, Eq, Structural)]
pub enum InventoryTool {
    Dpkg,
    Rpm,
    Pacman,
    Apk,
    Brew,
    Pkg,
    /// `pkg_info -q`
    PkgInfoQuiet,
    /// `pkg_info`
    PkgInfo,
}

/// The tool that lists the packages of a system, where one is known.
pub open spec fn tool_of(os: OsTypeView) -> Option<InventoryTool> {
    match os {
        OsTypeView::Linux(d) => match d {
            LinuxDistroView::Debian | LinuxDistroView::Ubuntu | LinuxDistroView::Kali => Some(
                InventoryTool::Dpkg,
            ),
            LinuxDistroView::Fedora | LinuxDistroView::Rhel | LinuxDistroView::CentOs
            | LinuxDistroView::OpenSuse => Some(InventoryTool::Rpm),
            LinuxDistroView::Arch => Some(InventoryTool::Pacman),
            LinuxDistroView::Alpine => Some(InventoryTool::Apk),
            _ => None,
        },
        OsTypeView::MacOs => Some(InventoryTool::Brew),
        OsTypeView::FreeBsd | OsTypeView::DragonFlyBsd => Some(InventoryTool::Pkg),
        OsTypeView::OpenBsd => Some(InventoryTool::PkgInfoQuiet),
        OsTypeView::NetBsd => Some(InventoryTool::PkgInfo),
        _ => None,
    }
}

/// The tool that lists the packages of a system, where one is known.
pub fn inventory_tool(os: &OsType) -> (r: Option<InventoryTool>)
    ensures
        r == tool_of(os.deep_view()),
{
    match os {
        OsType::Linux(d) => match d {
            LinuxDistro::Debian | LinuxDistro::Ubuntu | LinuxDistro::Kali => Some(
                InventoryTool::Dpkg,
            ),
            LinuxDistro::Fedora | LinuxDistro::Rhel | LinuxDistro::CentOs | LinuxDistro::OpenSuse => Some(
                InventoryTool::Rpm,
            ),
            LinuxDistro::Arch => Some(InventoryTool::Pacman),
            LinuxDistro::Alpine => Some(InventoryTool::Apk),
            _ => None,
        },
        OsType::MacOs => Some(InventoryTool::Brew),
        OsType::FreeBsd | OsType::DragonFlyBsd => Some(InventoryTool::Pkg),
        OsType::OpenBsd => Some(InventoryTool::PkgInfoQuiet),
        OsType::NetBsd => Some(InventoryTool::PkgInfo),
        _ => None,
    }
}

/// The packages that a tool printed.
pub open spec fn printed_packages(tool: InventoryTool, out: Seq<char>) -> Seq<InstalledPkgView> {
    let ls = text_lines(out);
    match tool {
        InventoryTool::Dpkg => listed_by("dpkg"@, dpkg_packages(ls)),
        InventoryTool::Rpm => listed_by("rpm"@, rpm_packages(ls)),
        InventoryTool::Pacman => listed_by("pacman"@, word_pairs(ls)),
        InventoryTool::Apk => listed_by("apk"@, apk_packages(ls)),
        InventoryTool::Brew => listed_by("brew"@, brew_packages(ls)),
        InventoryTool::Pkg => listed_by("pkg"@, word_pairs(ls)),
        InventoryTool::PkgInfoQuiet | InventoryTool::PkgInfo => listed_by(
            "pkg_info"@,
            pkg_info_packages(ls),
        ),
    }
}

/// The packages of a system whose tool printed `out`; none where no tool is known
/// or it failed.
pub open spec fn installed_packages(os: OsTypeView, out: Option<Seq<char>>) -> Seq<
    InstalledPkgView,
> {
    match (tool_of(os), out) {
        (Some(tool), Some(text)) => printed_packages(tool, text),
        _ => Seq::empty(),
    }
}

/// The packages of a system whose tool printed `out`.
pub fn list_installed(os: &OsType, out: Option<&str>) -> (r: Vec<InstalledPkg>)
    ensures
        r.deep_view() == installed_packages(os.deep_view(), opt_str_view(out)),
{
    let none: Vec<InstalledPkg> = Vec::new();
    assert(none.deep_view() =~= Seq::<InstalledPkgView>::empty());
    match (inventory_tool(os), out) {
        (Some(tool), Some(text)) => match tool {
            InventoryTool::Dpkg => tagged("dpkg", parse_dpkg_list(text)),
            InventoryTool::Rpm => tagged("rpm", parse_rpm_list(text)),
            InventoryTool::Pacman => tagged("pacman", parse_pacman_list(text)),
            InventoryTool::Apk => tagged("apk", parse_apk_list(text)),
            InventoryTool::Brew => tagged("brew", parse_brew_list(text)),
            InventoryTool::Pkg => tagged("pkg", parse_pkg_query_list(text)),
            InventoryTool::PkgInfoQuiet => tagged("pkg_info", parse_pkg_info_list(text)),
            InventoryTool::PkgInfo => tagged("pkg_info", parse_pkg_info_list(text)),
        },
        _ => none,
    }
}

} // verus!
