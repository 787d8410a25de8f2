//! What the package database of a host prints: the package that owns a file, and
//! the packages that are installed.

use vstd::prelude::*;

use crate::host::{LinuxDistro, LinuxDistroView, OsType, OsTypeView};
use crate::pattern::{captures, cut_at_matches, group, group_text, groups_of, match_cuts};
use crate::split::{
    cut, cut_last, first_of, first_piece, lines, nth, nth_of, pieces, rsplit_once, second_piece, split, split_once,
    split_second, split_whitespace, text_lines, words,
};
use crate::text::{
    concat3, contains, has_prefix, lowercase, occurs, opt_pair_view, opt_view, own, own_opt, pair_views, same,
    skip_chars, starts_with, to_lowercase, trim, trimmed, views, CharSet,
};

verus! {

/// A hyphen and a version behind it, in the name of a package with its version.
pub const ATOM_PATTERN: &'static str = r"-(\d[0-9A-Za-z.+~]*)";

pub type Pair = (Seq<char>, Seq<char>);

// ── A name and a version in one ──────────────────────────────────────────────

/// The first version in an atom such as `nginx-1.26.2-r0`, up to the next hyphen.
pub open spec fn atom_version_of(atom: Seq<char>) -> Option<Seq<char>> {
    group_text(groups_of(ATOM_PATTERN@, trimmed(atom)), 1)
}

/// The first version in an atom such as `nginx-1.26.2-r0`, up to the next hyphen.
pub fn atom_version(atom: &str) -> (r: Option<String>)
    ensures
        opt_view(r) == atom_version_of(atom@),
{
    let t = trim(atom);
    let groups = captures(ATOM_PATTERN, t.as_str());
    own_opt(group(&groups, 1))
}

/// The name and the version that meet at a hyphen, where neither is empty.
pub open spec fn parts_at_hyphen(parts: Option<Pair>) -> Option<Pair> {
    match parts {
        Some((before, from)) => if from.len() == 0 {
            None
        } else {
            let name = trimmed(before);
            let version = trimmed(from.skip(1));
            if name.len() == 0 || version.len() == 0 {
                None
            } else {
                Some((name, version))
            }
        },
        None => None,
    }
}

/// The last of the cuts of a text, where there is one.
pub open spec fn last_cut(cuts: Seq<Pair>) -> Option<Pair> {
    if cuts.len() == 0 {
        None
    } else {
        Some(cuts.last())
    }
}

/// The last of the cuts of a text, where there is one.
pub fn take_last_cut(cuts: Vec<(String, String)>) -> (r: Option<(String, String)>)
    ensures
        opt_pair_view(r) == last_cut(pair_views(cuts@)),
{
    let mut rest = cuts;
    let ghost all = pair_views(rest@);
    assert(all.len() == rest@.len());
    if rest.len() == 0 {
        return None;
    }
    assert(all.last() == (rest@.last().0@, rest@.last().1@));
    rest.pop()
}

/// The name and the whole version of an atom. The last hyphen before a digit is
/// where they meet, since a name can hold numbers too.
pub open spec fn atom_of(atom: Seq<char>) -> Option<Pair> {
    parts_at_hyphen(last_cut(match_cuts(ATOM_PATTERN@, trimmed(atom))))
}

/// The name and the version that meet at a hyphen, where neither is empty.
pub fn split_at_hyphen(parts: Option<(String, String)>) -> (r: Option<(String, String)>)
    ensures
        opt_pair_view(r) == parts_at_hyphen(opt_pair_view(parts)),
{
    match parts {
        Some((before, from)) => {
            if from.as_str().is_empty() {
                return None;
            }
            let name = trim(before.as_str());
            let rest = skip_chars(from.as_str(), 1);
            let version = trim(rest.as_str());
            if name.as_str().is_empty() || version.as_str().is_empty() {
                None
            } else {
                Some((name, version))
            }
        },
        None => None,
    }
}

/// The name and the whole version of an atom.
pub fn atom_split(atom: &str) -> (r: Option<(String, String)>)
    ensures
        opt_pair_view(r) == atom_of(atom@),
{
    let t = trim(atom);
    split_at_hyphen(take_last_cut(cut_at_matches(ATOM_PATTERN, t.as_str())))
}

// ── The package that owns a file ─────────────────────────────────────────────

/// Whether a line tells of a diversion and not of an owner.
pub open spec fn is_diversion(l: Seq<char>) -> bool {
    has_prefix(l, "diversion by "@) || has_prefix(l, "local diversion "@)
}

/// What stands before the last `: ` on the first line that has it and is no
/// diversion.
pub open spec fn owners_on_lines(ls: Seq<Seq<char>>) -> Option<Seq<char>>
    decreases ls.len(),
{
    if ls.len() == 0 {
        None
    } else if is_diversion(ls[0]) {
        owners_on_lines(ls.skip(1))
    } else {
        match cut_last(ls[0], ": "@) {
            Some((names, _)) => Some(names),
            None => owners_on_lines(ls.skip(1)),
        }
    }
}

/// A text without white space around it, where something is left.
pub open spec fn filled(s: Seq<char>) -> Option<Seq<char>> {
    if trimmed(s).len() == 0 {
        None
    } else {
        Some(trimmed(s))
    }
}

/// The owner that `dpkg-query -S` names: the first of the names before the path.
/// A name can hold a colon (`libssl3:amd64`).
pub open spec fn dpkg_owner(out: Seq<char>) -> Option<Seq<char>> {
    match owners_on_lines(text_lines(out)) {
        Some(names) => filled(pieces(names, CharSet::Is(','))[0]),
        None => None,
    }
}

fn find_owners(out: &str) -> (r: Option<String>)
    ensures
        opt_view(r) == owners_on_lines(text_lines(out@)),
{
    let ls = lines(out);
    let ghost q = views(ls@);
    let mut i: usize = 0;
    assert(q.skip(0) =~= q);
    while i < ls.len()
        invariant
            i <= ls@.len(),
            q == views(ls@),
            q == text_lines(out@),
            owners_on_lines(q) == owners_on_lines(q.skip(i as int)),
        decreases ls@.len() - i,
    {
        assert(q.skip(i as int)[0] == ls@[i as int]@);
        assert(q.skip(i as int).skip(1) =~= q.skip(i + 1));
        let l = ls[i].as_str();
        if !(starts_with(l, "diversion by ") || starts_with(l, "local diversion ")) {
            if let Some((names, _)) = rsplit_once(l, ": ") {
                return Some(names);
            }
        }
        i += 1;
    }
    None
}

pub(crate) fn trim_filled(s: &str) -> (r: Option<String>)
    ensures
        opt_view(r) == filled(s@),
{
    let t = trim(s);
    if t.as_str().is_empty() {
        None
    } else {
        Some(t)
    }
}

/// The owner that `dpkg-query -S` names.
pub fn dpkg_owner_name(out: &str) -> (r: Option<String>)
    ensures
        opt_view(r) == dpkg_owner(out@),
{
    match find_owners(out) {
        Some(names) => {
            let first = first_piece(names.as_str(), CharSet::Is(','));
            trim_filled(first.as_str())
        },
        None => None,
    }
}

/// The package and the version: what `dpkg-query -S` printed, and what
/// `dpkg-query -W` printed of the owner.
pub open spec fn dpkg_package(owner: Seq<char>, version: Seq<char>) -> Option<Pair> {
    match (dpkg_owner(owner), filled(version)) {
        (Some(pkg), Some(ver)) => Some((pkg, ver)),
        _ => None,
    }
}

/// The package and the version that `dpkg-query` prints of an owner.
pub fn dpkg_of(owner: &str, version: &str) -> (r: Option<(String, String)>)
    ensures
        opt_pair_view(r) == dpkg_package(owner@, version@),
{
    match dpkg_owner_name(owner) {
        Some(pkg) => match trim_filled(version) {
            Some(ver) => Some((pkg, ver)),
            None => None,
        },
        None => None,
    }
}

/// A part of an RPM version that is given.
pub open spec fn is_given(s: Seq<char>) -> bool {
    s.len() > 0 && s != "(none)"@
}

/// `[epoch:]version[-release]`.
pub open spec fn evr(epoch: Seq<char>, version: Seq<char>, release: Seq<char>) -> Seq<char> {
    let v = if is_given(epoch) {
        epoch + ":"@ + version
    } else {
        version
    };
    if is_given(release) {
        v + "-"@ + release
    } else {
        v
    }
}

pub(crate) fn build_evr(epoch: &str, version: &str, release: &str) -> (r: String)
    ensures
        r@ == evr(epoch@, version@, release@),
{
    let v = if !epoch.is_empty() && !same(epoch, "(none)") {
        concat3(epoch, ":", version)
    } else {
        own(version)
    };
    if !release.is_empty() && !same(release, "(none)") {
        concat3(v.as_str(), "-", release)
    } else {
        v
    }
}

pub open spec fn or_nothing(s: Option<Seq<char>>) -> Seq<char> {
    match s {
        Some(x) => x,
        None => Seq::empty(),
    }
}

/// The package and the version on the first line that `rpm -qf` prints: name,
/// epoch, version and release between tabs.
pub open spec fn rpm_package(out: Seq<char>) -> Option<Pair> {
    match first_of(text_lines(out)) {
        Some(line) => {
            let c = pieces(line, CharSet::Is('\t'));
            if occurs(lowercase(line), "not owned"@) {
                None
            } else {
                match nth_of(c, 2) {
                    Some(version) => {
                        let name = trimmed(c[0]);
                        let v = trimmed(version);
                        if name.len() == 0 || v.len() == 0 {
                            None
                        } else {
                            Some(
                                (
                                    name,
                                    evr(
                                        trimmed(c[1]),
                                        v,
                                        trimmed(or_nothing(nth_of(c, 3))),
                                    ),
                                ),
                            )
                        }
                    },
                    None => None,
                }
            }
        },
        None => None,
    }
}

fn text_or<'a>(s: Option<&'a str>, default: &'a str) -> (r: &'a str)
    ensures
        r@ == (match s {
            Some(x) => x@,
            None => default@,
        }),
{
    match s {
        Some(x) => x,
        None => default,
    }
}

/// The package and the version on the first line that `rpm -qf` prints.
pub fn rpm_of(out: &str) -> (r: Option<(String, String)>)
    ensures
        opt_pair_view(r) == rpm_package(out@),
{
    let ls = lines(out);
    match nth(&ls, 0) {
        Some(line) => {
            let lower = to_lowercase(line);
            if contains(lower.as_str(), "not owned") {
                return None;
            }
            let c = split(line, CharSet::Is('\t'));
            let ghost q = views(c@);
            match nth(&c, 2) {
                Some(version) => {
                    assert(q[0] == c@[0]@ && q[1] == c@[1]@);
                    let name = trim(c[0].as_str());
                    let v = trim(version);
                    if name.as_str().is_empty() || v.as_str().is_empty() {
                        return None;
                    }
                    let epoch = trim(c[1].as_str());
                    let empty = String::new();
                    let release = trim(text_or(nth(&c, 3), empty.as_str()));
                    let e = build_evr(epoch.as_str(), v.as_str(), release.as_str());
                    Some((name, e))
                },
                None => None,
            }
        },
        None => None,
    }
}

/// The first two words.
pub open spec fn two_words(s: Seq<char>) -> Option<Pair> {
    match (nth_of(words(s), 0), nth_of(words(s), 1)) {
        (Some(a), Some(b)) => Some((a, b)),
        _ => None,
    }
}

/// The first two words.
pub fn first_two_words(s: &str) -> (r: Option<(String, String)>)
    ensures
        opt_pair_view(r) == two_words(s@),
{
    let w = split_whitespace(s);
    match (nth(&w, 0), nth(&w, 1)) {
        (Some(a), Some(b)) => Some((own(a), own(b))),
        _ => None,
    }
}

/// The package and the version that `pacman -Qo` names.
pub open spec fn pacman_package(out: Seq<char>) -> Option<Pair> {
    match second_piece(out, " is owned by "@) {
        Some(after) => two_words(after),
        None => None,
    }
}

/// The package and the version that `pacman -Qo` names.
pub fn pacman_of(out: &str) -> (r: Option<(String, String)>)
    ensures
        opt_pair_view(r) == pacman_package(out@),
{
    match split_second(out, " is owned by ") {
        Some(after) => first_two_words(after.as_str()),
        None => None,
    }
}

/// The package and the version that `apk info -W` names.
pub open spec fn apk_package(out: Seq<char>) -> Option<Pair> {
    match second_piece(out, "owned by "@) {
        Some(atom) => atom_of(trimmed(atom)),
        None => None,
    }
}

/// The package and the version that `apk info -W` names.
pub fn apk_of(out: &str) -> (r: Option<(String, String)>)
    ensures
        opt_pair_view(r) == apk_package(out@),
{
    match split_second(out, "owned by ") {
        Some(atom) => {
            let t = trim(atom.as_str());
            atom_split(t.as_str())
        },
        None => None,
    }
}

/// What follows `/Cellar/` in a path, between slashes.
pub open spec fn cellar_parts(path: Seq<char>) -> Option<Seq<Seq<char>>> {
    match cut(path, "/Cellar/"@) {
        Some((_, rest)) => Some(pieces(rest, CharSet::Is('/'))),
        None => None,
    }
}

/// The formula and the version in the path of a Homebrew binary:
/// `.../Cellar/<name>/<version>/...`.
pub open spec fn homebrew_package(path: Seq<char>) -> Option<Pair> {
    match cellar_parts(path) {
        Some(p) => match (nth_of(p, 0), nth_of(p, 1)) {
            (Some(name), Some(version)) => if name.len() > 0 && version.len() > 0 {
                Some((name, version))
            } else {
                None
            },
            _ => None,
        },
        None => None,
    }
}

/// The formula and the version in the path of a Homebrew binary.
pub fn homebrew_of(path: &str) -> (r: Option<(String, String)>)
    ensures
        opt_pair_view(r) == homebrew_package(path@),
{
    match split_once(path, "/Cellar/") {
        Some((_, rest)) => {
            let p = split(rest.as_str(), CharSet::Is('/'));
            match (nth(&p, 0), nth(&p, 1)) {
                (Some(name), Some(version)) => if !name.is_empty() && !version.is_empty() {
                    Some((own(name), own(version)))
                } else {
                    None
                },
                _ => None,
            }
        },
        None => None,
    }
}

/// The version in the path of a Homebrew binary.
pub fn homebrew_version(path: &str) -> (r: Option<String>)
    ensures
        opt_view(r) == (match homebrew_package(path@) {
            Some((_, v)) => Some(v),
            None => None,
        }),
{
    match homebrew_of(path) {
        Some((_, v)) => Some(v),
        None => None,
    }
}

/// The formula in the path of a Homebrew binary; `path` is the path without links.
pub open spec fn formula_of(path: Seq<char>) -> Option<Seq<char>> {
    match cellar_parts(path) {
        Some(p) => nth_of(p, 0),
        None => None,
    }
}

/// The formula in the path of a Homebrew binary; none where the path could not be
/// followed.
pub fn homebrew_formula(followed: Option<&str>) -> (r: Option<String>)
    ensures
        opt_view(r) == (match followed {
            Some(path) => formula_of(path@),
            None => None,
        }),
{
    match followed {
        Some(path) => match split_once(path, "/Cellar/") {
            Some((_, rest)) => {
                let p = split(rest.as_str(), CharSet::Is('/'));
                own_opt(nth(&p, 0))
            },
            None => None,
        },
        None => None,
    }
}

/// The package and the version that `pkg which -q` names.
pub open spec fn freebsd_package(out: Seq<char>) -> Option<Pair> {
    atom_of(trimmed(out))
}

/// The package and the version that `pkg which -q` names.
pub fn freebsd_of(out: &str) -> (r: Option<(String, String)>)
    ensures
        opt_pair_view(r) == freebsd_package(out@),
{
    let t = trim(out);
    atom_split(t.as_str())
}

/// The package and the version that `pkg_info` names: the first word, before a
/// colon where there is one.
pub open spec fn pkg_info_package(out: Seq<char>) -> Option<Pair> {
    match first_of(words(pieces(out, CharSet::Is(':'))[0])) {
        Some(atom) => atom_of(atom),
        None => None,
    }
}

/// The package and the version that `pkg_info` names.
pub fn pkg_info_of(out: &str) -> (r: Option<(String, String)>)
    ensures
        opt_pair_view(r) == pkg_info_package(out@),
{
    let head = first_piece(out, CharSet::Is(':'));
    let w = split_whitespace(head.as_str());
    match nth(&w, 0) {
        Some(atom) => atom_split(atom),
        None => None,
    }
}

/// The ways to ask for the package that owns a file.
#[derive(Debug, Clone, Copy, PartialEq, Eq, Structural)]
pub enum PackageManager {
    Dpkg,
    Rpm,
    Pacman,
    Apk,
    Homebrew,
    FreeBsdPkg,
    /// `pkg_info -E`
    PkgInfo,
    /// `pkg_info -Fe`
    PkgInfoFile,
}

/// Which databases to ask, one after the other, until one knows the file.
pub open spec fn managers_of(os: OsTypeView) -> Seq<PackageManager> {
    match os {
        OsTypeView::Linux(d) => match d {
            LinuxDistroView::Debian | LinuxDistroView::Ubuntu | LinuxDistroView::Kali => seq![
                PackageManager::Dpkg,
            ],
            LinuxDistroView::Fedora | LinuxDistroView::Rhel | LinuxDistroView::CentOs
            | LinuxDistroView::OpenSuse => seq![PackageManager::Rpm],
            LinuxDistroView::Arch => seq![PackageManager::Pacman],
            LinuxDistroView::Alpine => seq![PackageManager::Apk],
            _ => seq![
                PackageManager::Dpkg,
                PackageManager::Rpm,
                PackageManager::Pacman,
                PackageManager::Apk,
            ],
        },
        OsTypeView::MacOs => seq![PackageManager::Homebrew],
        OsTypeView::FreeBsd | OsTypeView::DragonFlyBsd => seq![PackageManager::FreeBsdPkg],
        OsTypeView::OpenBsd => seq![PackageManager::PkgInfo],
        OsTypeView::NetBsd | OsTypeView::Illumos => seq![PackageManager::PkgInfoFile],
        _ => Seq::empty(),
    }
}

/// Which databases to ask, one after the other, until one knows the file.
pub fn package_managers(os: &OsType) -> (r: Vec<PackageManager>)
    ensures
        r@ == managers_of(os.deep_view()),
{
    let mut v: Vec<PackageManager> = Vec::new();
    match os {
        OsType::Linux(d) => match d {
            LinuxDistro::Debian | LinuxDistro::Ubuntu | LinuxDistro::Kali => {
                v.push(PackageManager::Dpkg);
            },
            LinuxDistro::Fedora | LinuxDistro::Rhel | LinuxDistro::CentOs | LinuxDistro::OpenSuse => {
                v.push(PackageManager::Rpm);
            },
            LinuxDistro::Arch => {
                v.push(PackageManager::Pacman);
            },
            LinuxDistro::Alpine => {
                v.push(PackageManager::Apk);
            },
            _ => {
                v.push(PackageManager::Dpkg);
                v.push(PackageManager::Rpm);
                v.push(PackageManager::Pacman);
                v.push(PackageManager::Apk);
            },
        },
        OsType::MacOs => {
            v.push(PackageManager::Homebrew);
        },
        OsType::FreeBsd | OsType::DragonFlyBsd => {
            v.push(PackageManager::FreeBsdPkg);
        },
        OsType::OpenBsd => {
            v.push(PackageManager::PkgInfo);
        },
        OsType::NetBsd | OsType::Illumos => {
            v.push(PackageManager::PkgInfoFile);
        },
        _ => {},
    }
    assert(v@ =~= managers_of(os.deep_view()));
    v
}

/// What a database answers: `out` is what it printed of the file (the path itself
/// for Homebrew), and `version` what `dpkg-query -W` printed of the owner.
pub open spec fn owner_from(m: PackageManager, out: Seq<char>, version: Seq<char>) -> Option<Pair> {
    match m {
        PackageManager::Dpkg => dpkg_package(out, version),
        PackageManager::Rpm => rpm_package(out),
        PackageManager::Pacman => pacman_package(out),
        PackageManager::Apk => apk_package(out),
        PackageManager::Homebrew => homebrew_package(out),
        PackageManager::FreeBsdPkg => freebsd_package(out),
        PackageManager::PkgInfo | PackageManager::PkgInfoFile => pkg_info_package(out),
    }
}

/// What a database answers.
pub fn owner_from_output(m: PackageManager, out: &str, version: &str) -> (r: Option<
    (String, String),
>)
    ensures
        opt_pair_view(r) == owner_from(m, out@, version@),
{
    match m {
        PackageManager::Dpkg => dpkg_of(out, version),
        PackageManager::Rpm => rpm_of(out),
        PackageManager::Pacman => pacman_of(out),
        PackageManager::Apk => apk_of(out),
        PackageManager::Homebrew => homebrew_of(out),
        PackageManager::FreeBsdPkg => freebsd_of(out),
        PackageManager::PkgInfo | PackageManager::PkgInfoFile => pkg_info_of(out),
    }
}

/// The first answer that there is.
pub open spec fn first_answer<A>(answers: Seq<Option<A>>) -> Option<A>
    decreases answers.len(),
{
    if answers.len() == 0 {
        None
    } else {
        match answers[0] {
            Some(p) => Some(p),
            None => first_answer(answers.skip(1)),
        }
    }
}

pub open spec fn answer_views(v: Seq<Option<(String, String)>>) -> Seq<Option<Pair>> {
    Seq::new(v.len(), |i: int| opt_pair_view(v[i]))
}

/// The package that owns a file and its version: the first answer of the databases
/// that were asked.
pub fn package_of(answers: &Vec<Option<(String, String)>>) -> (r: Option<(String, String)>)
    ensures
        opt_pair_view(r) == first_answer(answer_views(answers@)),
{
    let ghost q = answer_views(answers@);
    let mut i: usize = 0;
    assert(q.skip(0) =~= q);
    while i < answers.len()
        invariant
            i <= answers@.len(),
            q == answer_views(answers@),
            first_answer(q) == first_answer(q.skip(i as int)),
        decreases answers@.len() - i,
    {
        assert(q.skip(i as int)[0] == opt_pair_view(answers@[i as int]));
        assert(q.skip(i as int).skip(1) =~= q.skip(i + 1));
        if let Some((name, version)) = &answers[i] {
            return Some((name.clone(), version.clone()));
        }
        i += 1;
    }
    None
}

} // verus!
