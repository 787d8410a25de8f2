//! The version of the package that owns a file, without the package.

use vstd::prelude::*;

use crate::packages::{
    atom_version, atom_version_of, filled, first_answer, homebrew_package, homebrew_version, trim_filled,
    PackageManager,
};
use crate::split::{
    first_of, first_piece, lines, nth, nth_of, pieces, second_piece, split_second, split_whitespace, text_lines,
    words,
};
use crate::text::{contains, lowercase, occurs, opt_view, own_opt, to_lowercase, trim, trimmed, CharSet};

verus! {

/// The owner that stands before the first colon and comma.
pub open spec fn plain_dpkg_owner(out: Seq<char>) -> Option<Seq<char>> {
    filled(pieces(pieces(out, CharSet::Is(':'))[0], CharSet::Is(','))[0])
}

/// The owner that stands before the first colon and comma of `dpkg-query -S`.
pub fn dpkg_owner_before_colon(out: &str) -> (r: Option<String>)
    ensures
        opt_view(r) == plain_dpkg_owner(out@),
{
    let head = first_piece(out, CharSet::Is(':'));
    let first = first_piece(head.as_str(), CharSet::Is(','));
    trim_filled(first.as_str())
}

/// The version of the owner, where the file has one.
pub open spec fn dpkg_version_of(owner: Seq<char>, version: Seq<char>) -> Option<Seq<char>> {
    match plain_dpkg_owner(owner) {
        Some(_) => filled(version),
        None => None,
    }
}

/// The version of the owner: what `dpkg-query -S` printed of the file, and what
/// `dpkg-query -W` printed of the owner.
pub fn dpkg_version(owner: &str, version: &str) -> (r: Option<String>)
    ensures
        opt_view(r) == dpkg_version_of(owner@, version@),
{
    match dpkg_owner_before_colon(owner) {
        Some(_) => trim_filled(version),
        None => None,
    }
}

/// The version on the first line that `rpm -qf` prints.
pub open spec fn rpm_version_of(out: Seq<char>) -> Option<Seq<char>> {
    match first_of(text_lines(out)) {
        Some(line) => if trimmed(line).len() == 0 || occurs(
            lowercase(trimmed(line)),
            "not owned"@,
        ) {
            None
        } else {
            Some(trimmed(line))
        },
        None => None,
    }
}

/// The version on the first line that `rpm -qf` prints.
pub fn rpm_version(out: &str) -> (r: Option<String>)
    ensures
        opt_view(r) == rpm_version_of(out@),
{
    let ls = lines(out);
    match nth(&ls, 0) {
        Some(line) => {
            let v = trim(line);
            if v.as_str().is_empty() {
                return None;
            }
            let lower = to_lowercase(v.as_str());
            if contains(lower.as_str(), "not owned") {
                None
            } else {
                Some(v)
            }
        },
        None => None,
    }
}

/// The version that `pacman -Qo` names: the second word behind the owner's mark.
pub open spec fn pacman_version_of(out: Seq<char>) -> Option<Seq<char>> {
    match second_piece(out, " is owned by "@) {
        Some(after) => nth_of(words(after), 1),
        None => None,
    }
}

/// The version that `pacman -Qo` names.
pub fn pacman_version(out: &str) -> (r: Option<String>)
    ensures
        opt_view(r) == pacman_version_of(out@),
{
    match split_second(out, " is owned by ") {
        Some(after) => {
            let w = split_whitespace(after.as_str());
            own_opt(nth(&w, 1))
        },
        None => None,
    }
}

/// The version that `apk info -W` names: that of the atom behind the owner's mark.
pub open spec fn apk_version_of(out: Seq<char>) -> Option<Seq<char>> {
    match second_piece(out, "owned by "@) {
        Some(atom) => atom_version_of(atom),
        None => None,
    }
}

/// The version that `apk info -W` names.
pub fn apk_version(out: &str) -> (r: Option<String>)
    ensures
        opt_view(r) == apk_version_of(out@),
{
    match split_second(out, "owned by ") {
        Some(atom) => atom_version(atom.as_str()),
        None => None,
    }
}

/// The version that `pkg which -q` names.
pub fn freebsd_pkg_version(out: &str) -> (r: Option<String>)
    ensures
        opt_view(r) == atom_version_of(out@),
{
    atom_version(out)
}

/// The version that `pkg_info` names, before a colon where there is one.
pub fn pkg_info_version(out: &str) -> (r: Option<String>)
    ensures
        opt_view(r) == atom_version_of(pieces(out@, CharSet::Is(':'))[0]),
{
    let head = first_piece(out, CharSet::Is(':'));
    atom_version(head.as_str())
}

/// The version that a package database tells of a file: by what it printed of the
/// file, and by what it printed of the owner where it is asked for that too. For
/// Homebrew the path itself tells it.
pub open spec fn version_from(m: PackageManager, out: Seq<char>, version: Seq<char>) -> Option<
    Seq<char>,
> {
    match m {
        PackageManager::Dpkg => dpkg_version_of(out, version),
        PackageManager::Rpm => rpm_version_of(out),
        PackageManager::Pacman => pacman_version_of(out),
        PackageManager::Apk => apk_version_of(out),
        PackageManager::Homebrew => match homebrew_package(out) {
            Some((_, v)) => Some(v),
            None => None,
        },
        PackageManager::FreeBsdPkg => atom_version_of(out),
        PackageManager::PkgInfo | PackageManager::PkgInfoFile => atom_version_of(
            pieces(out, CharSet::Is(':'))[0],
        ),
    }
}

/// The version that a package database tells of a file.
pub fn version_from_output(m: PackageManager, out: &str, version: &str) -> (r: Option<String>)
    ensures
        opt_view(r) == version_from(m, out@, version@),
{
    match m {
        PackageManager::Dpkg => dpkg_version(out, version),
        PackageManager::Rpm => rpm_version(out),
        PackageManager::Pacman => pacman_version(out),
        PackageManager::Apk => apk_version(out),
        PackageManager::Homebrew => homebrew_version(out),
        PackageManager::FreeBsdPkg => freebsd_pkg_version(out),
        PackageManager::PkgInfo | PackageManager::PkgInfoFile => pkg_info_version(out),
    }
}

pub open spec fn version_views(v: Seq<Option<String>>) -> Seq<Option<Seq<char>>> {
    Seq::new(v.len(), |i: int| opt_view(v[i]))
}

/// The version of the package that owns a file: the first answer of the databases
/// that were asked.
pub fn package_version(answers: &Vec<Option<String>>) -> (r: Option<String>)
    ensures
        opt_view(r) == first_answer(version_views(answers@)),
{
    let ghost q = version_views(answers@);
    let mut i: usize = 0;
    assert(q.skip(0) =~= q);
    while i < answers.len()
        invariant
            i <= answers@.len(),
            q == version_views(answers@),
            first_answer(q) == first_answer(q.skip(i as int)),
        decreases answers@.len() - i,
    {
        assert(q.skip(i as int)[0] == opt_view(answers@[i as int]));
        assert(q.skip(i as int).skip(1) =~= q.skip(i + 1));
        if let Some(version) = &answers[i] {
            return Some(version.clone());
        }
        i += 1;
    }
    None
}

} // verus!
