//! That the packages that a host has are read as what they are.

use vstd::prelude::*;

use crate::host::{LinuxDistroView, OsTypeView};
use crate::inventory::{
    apk_packages, brew_line, brew_packages, dpkg_line, dpkg_packages, installed_packages, listed_by, pkg_info_line,
    pkg_info_packages, rpm_line, rpm_packages, word_pairs, InstalledPkgView,
};
use crate::list::filtered_items_are_those_that_map;
use crate::number::{decimal, digit_value, written_number_reads_back};
use crate::package_version::{apk_version_of, pacman_version_of, version_from};
use crate::packages::{
    atom_of, atom_version_of, dpkg_owner, dpkg_package, evr, filled, first_answer, homebrew_package, is_diversion,
    last_cut, owner_from, owners_on_lines, pacman_package, parts_at_hyphen, rpm_package, two_words, PackageManager,
    Pair,
};
use crate::probe::{first_version, is_real_version, told_version, version_on_line, Run};
use crate::split::{
    cut, cut_last, free_of, joined, joined_texts_are_the_pieces, pieces, second_piece, text_lines, words,
};
use crate::text::{has_prefix, lowercase, occurs, trimmed, CharSet};

verus! {

// ── Lines of inventories ─────────────────────────────────────────────────────

/// A line of `dpkg-query` gives the package and its whole version if the package is installed,
/// and none if it is not.
pub proof fn a_line_of_dpkg_gives_the_installed_package(
    status: Seq<char>,
    name: Seq<char>,
    version: Seq<char>,
)
    requires
        free_of(status, CharSet::Is('\t')),
        free_of(name, CharSet::Is('\t')),
        free_of(version, CharSet::Is('\t')),
        name.len() > 0,
        version.len() > 0,
        status.len() >= 2,
    ensures
        status[1] == 'i' ==> dpkg_line(joined(seq![status, name, version], seq!['\t'])) == Some(
            (name, version),
        ),
        status[1] != 'i' ==> dpkg_line(joined(seq![status, name, version], seq!['\t'])) is None,
{
    joined_texts_are_the_pieces(seq![status, name, version], '\t');
}

/// A line of `rpm` gives the package and its version with its epoch and its release; the keys that
/// sign packages are none.
pub proof fn a_line_of_rpm_gives_the_package(
    name: Seq<char>,
    epoch: Seq<char>,
    version: Seq<char>,
    release: Seq<char>,
)
    requires
        free_of(name, CharSet::Is('\t')),
        free_of(epoch, CharSet::Is('\t')),
        free_of(version, CharSet::Is('\t')),
        free_of(release, CharSet::Is('\t')),
        name.len() > 0,
        version.len() > 0,
    ensures
        name != "gpg-pubkey"@ ==> rpm_line(joined(seq![name, epoch, version, release], seq!['\t']))
            == Some((name, evr(epoch, version, release))),
        name == "gpg-pubkey"@ ==> rpm_line(joined(seq![name, epoch, version, release], seq!['\t']))
            is None,
{
    joined_texts_are_the_pieces(seq![name, epoch, version, release], '\t');
}

/// The whole version of an RPM package has its epoch in front and its release behind, each where
/// it is given.
pub proof fn a_whole_version_has_epoch_and_release(
    epoch: Seq<char>,
    version: Seq<char>,
    release: Seq<char>,
)
    ensures
        ({
            let e = epoch.len() > 0 && epoch != "(none)"@;
            let r = release.len() > 0 && release != "(none)"@;
            &&& e && r ==> evr(epoch, version, release) == epoch + seq![':'] + version + seq!['-']
                + release
            &&& e && !r ==> evr(epoch, version, release) == epoch + seq![':'] + version
            &&& !e && r ==> evr(epoch, version, release) == version + seq!['-'] + release
            &&& !e && !r ==> evr(epoch, version, release) == version
        }),
{
    reveal_strlit(":");
    reveal_strlit("-");
    assert(":"@ =~= seq![':']);
    assert("-"@ =~= seq!['-']);
}

/// A line with a formula and its versions gives each of them.
pub proof fn a_line_of_brew_gives_each_version(l: Seq<char>, i: int)
    requires
        1 <= i < words(l).len(),
    ensures
        brew_line(l).contains((words(l)[0], words(l)[i])),
        brew_line(l).len() == words(l).len() - 1,
{
    assert(brew_line(l)[i - 1] == (words(l)[0], words(l)[i]));
}

/// The first two words of a line are its first two words, and a line of fewer gives none.
pub proof fn two_words_are_the_first_two(l: Seq<char>)
    ensures
        words(l).len() >= 2 ==> two_words(l) == Some((words(l)[0], words(l)[1])),
        words(l).len() < 2 ==> two_words(l) is None,
{
}

// ── Inventories ──────────────────────────────────────────────────────────────

/// Whether a package with this version is listed by the tool.
pub open spec fn lists(v: Seq<InstalledPkgView>, name: Seq<char>, version: Seq<char>, tool: Seq<char>) -> bool {
    v.contains(InstalledPkgView { name, version, tool })
}

proof fn lemma_listed(tool: Seq<char>, p: Seq<Pair>, name: Seq<char>, version: Seq<char>)
    ensures
        lists(listed_by(tool, p), name, version, tool) <==> p.contains((name, version)),
{
    let v = listed_by(tool, p);
    let x = InstalledPkgView { name, version, tool };
    if v.contains(x) {
        let i = choose|i: int| 0 <= i < v.len() && v[i] == x;
        assert(p[i] == (name, version));
    }
    if p.contains((name, version)) {
        let i = choose|i: int| 0 <= i < p.len() && p[i] == (name, version);
        assert(v[i] == x);
    }
}

/// The packages of a host with Debian packages are those that `dpkg-query` prints as installed:
/// each of them, and no other.
pub proof fn installed_debs_are_listed(
    d: LinuxDistroView,
    out: Seq<char>,
    name: Seq<char>,
    version: Seq<char>,
)
    requires
        d is Debian || d is Ubuntu || d is Kali,
    ensures
        lists(installed_packages(OsTypeView::Linux(d), Some(out)), name, version, "dpkg"@)
            <==> name.len() > 0 && version.len() > 0 && exists|i: int|
            0 <= i < text_lines(out).len() && ({
                let c = pieces(#[trigger] text_lines(out)[i], CharSet::Is('\t'));
                &&& c.len() >= 3
                &&& c[0].len() >= 2 && c[0][1] == 'i'
                &&& c[1] == name && c[2] == version
            }),
{
    let ls = text_lines(out);
    let f = |l: Seq<char>| dpkg_line(l);
    filtered_items_are_those_that_map(ls, f, (name, version));
    lemma_listed("dpkg"@, dpkg_packages(ls), name, version);
    if dpkg_packages(ls).contains((name, version)) {
        let i = choose|i: int| 0 <= i < ls.len() && f(#[trigger] ls[i]) == Some((name, version));
        let c = pieces(ls[i], CharSet::Is('\t'));
        assert(c[1] == name && c[2] == version);
    }
    if name.len() > 0 && version.len() > 0 && exists|i: int|
        0 <= i < ls.len() && ({
            let c = pieces(#[trigger] ls[i], CharSet::Is('\t'));
            c.len() >= 3 && c[0].len() >= 2 && c[0][1] == 'i' && c[1] == name && c[2] == version
        }) {
        let i = choose|i: int|
            0 <= i < ls.len() && ({
                let c = pieces(#[trigger] ls[i], CharSet::Is('\t'));
                c.len() >= 3 && c[0].len() >= 2 && c[0][1] == 'i' && c[1] == name && c[2] == version
            });
        assert(f(ls[i]) == Some((name, version)));
    }
}

/// The packages of a host with RPM packages are those that `rpm` prints.
pub proof fn installed_rpms_are_listed(
    d: LinuxDistroView,
    out: Seq<char>,
    name: Seq<char>,
    version: Seq<char>,
)
    requires
        d is Fedora || d is Rhel || d is CentOs || d is OpenSuse,
    ensures
        lists(installed_packages(OsTypeView::Linux(d), Some(out)), name, version, "rpm"@)
            <==> exists|i: int|
            0 <= i < text_lines(out).len() && rpm_line(#[trigger] text_lines(out)[i]) == Some(
                (name, version),
            ),
{
    let ls = text_lines(out);
    let f = |l: Seq<char>| rpm_line(l);
    filtered_items_are_those_that_map(ls, f, (name, version));
    lemma_listed("rpm"@, rpm_packages(ls), name, version);
    if rpm_packages(ls).contains((name, version)) {
        let i = choose|i: int| 0 <= i < ls.len() && f(#[trigger] ls[i]) == Some((name, version));
        assert(rpm_line(ls[i]) == Some((name, version)));
    }
    if exists|i: int| 0 <= i < ls.len() && rpm_line(#[trigger] ls[i]) == Some((name, version)) {
        let i = choose|i: int| 0 <= i < ls.len() && rpm_line(#[trigger] ls[i]) == Some((name, version));
        assert(f(ls[i]) == Some((name, version)));
    }
}

/// The packages of Arch and of FreeBSD are the first two words of the lines that are printed.
pub proof fn installed_word_pairs_are_listed(
    os: OsTypeView,
    tool: Seq<char>,
    out: Seq<char>,
    name: Seq<char>,
    version: Seq<char>,
)
    requires
        (os == OsTypeView::Linux(LinuxDistroView::Arch) && tool == "pacman"@) || ((os is FreeBsd || os
            is DragonFlyBsd) && tool == "pkg"@),
    ensures
        lists(installed_packages(os, Some(out)), name, version, tool) <==> exists|i: int|
            0 <= i < text_lines(out).len() && words(#[trigger] text_lines(out)[i]).len() >= 2
                && words(text_lines(out)[i])[0] == name && words(text_lines(out)[i])[1] == version,
{
    let ls = text_lines(out);
    let f = |l: Seq<char>| two_words(l);
    filtered_items_are_those_that_map(ls, f, (name, version));
    lemma_listed(tool, word_pairs(ls), name, version);
    if word_pairs(ls).contains((name, version)) {
        let i = choose|i: int| 0 <= i < ls.len() && f(#[trigger] ls[i]) == Some((name, version));
        assert(words(ls[i]).len() >= 2);
    }
    if exists|i: int|
        0 <= i < ls.len() && words(#[trigger] ls[i]).len() >= 2 && words(ls[i])[0] == name && words(
            ls[i],
        )[1] == version {
        let i = choose|i: int|
            0 <= i < ls.len() && words(#[trigger] ls[i]).len() >= 2 && words(ls[i])[0] == name
                && words(ls[i])[1] == version;
        assert(f(ls[i]) == Some((name, version)));
    }
}

/// The packages of Alpine, of OpenBSD and of NetBSD are those whose names and versions are printed
/// in one.
pub proof fn installed_atoms_are_listed(
    out: Seq<char>,
    name: Seq<char>,
    version: Seq<char>,
)
    ensures
        lists(
            installed_packages(OsTypeView::Linux(LinuxDistroView::Alpine), Some(out)),
            name,
            version,
            "apk"@,
        ) <==> exists|i: int|
            0 <= i < text_lines(out).len() && atom_of(trimmed(#[trigger] text_lines(out)[i])) == Some(
                (name, version),
            ),
        lists(installed_packages(OsTypeView::OpenBsd, Some(out)), name, version, "pkg_info"@)
            <==> exists|i: int|
            0 <= i < text_lines(out).len() && words(#[trigger] text_lines(out)[i]).len() > 0
                && atom_of(words(text_lines(out)[i])[0]) == Some((name, version)),
        lists(installed_packages(OsTypeView::NetBsd, Some(out)), name, version, "pkg_info"@)
            <==> lists(
            installed_packages(OsTypeView::OpenBsd, Some(out)),
            name,
            version,
            "pkg_info"@,
        ),
{
    let ls = text_lines(out);
    let x = (name, version);
    let f = |l: Seq<char>| atom_of(trimmed(l));
    let g = |l: Seq<char>| pkg_info_line(l);
    filtered_items_are_those_that_map(ls, f, x);
    filtered_items_are_those_that_map(ls, g, x);
    lemma_listed("apk"@, apk_packages(ls), name, version);
    lemma_listed("pkg_info"@, pkg_info_packages(ls), name, version);
    if apk_packages(ls).contains(x) {
        let i = choose|i: int| 0 <= i < ls.len() && f(#[trigger] ls[i]) == Some(x);
        assert(atom_of(trimmed(ls[i])) == Some(x));
    }
    if exists|i: int| 0 <= i < ls.len() && atom_of(trimmed(#[trigger] ls[i])) == Some(x) {
        let i = choose|i: int| 0 <= i < ls.len() && atom_of(trimmed(#[trigger] ls[i])) == Some(x);
        assert(f(ls[i]) == Some(x));
    }
    if pkg_info_packages(ls).contains(x) {
        let i = choose|i: int| 0 <= i < ls.len() && g(#[trigger] ls[i]) == Some(x);
        assert(words(ls[i]).len() > 0);
    }
    if exists|i: int|
        0 <= i < ls.len() && words(#[trigger] ls[i]).len() > 0 && atom_of(words(ls[i])[0]) == Some(x) {
        let i = choose|i: int|
            0 <= i < ls.len() && words(#[trigger] ls[i]).len() > 0 && atom_of(words(ls[i])[0])
                == Some(x);
        assert(g(ls[i]) == Some(x));
    }
}

proof fn lemma_brew(ls: Seq<Seq<char>>, x: Pair)
    ensures
        brew_packages(ls).contains(x) <==> exists|i: int|
            0 <= i < ls.len() && brew_line(#[trigger] ls[i]).contains(x),
    decreases ls.len(),
{
    if ls.len() > 0 {
        let d = ls.drop_last();
        lemma_brew(d, x);
        let a = brew_packages(d);
        let b = brew_line(ls.last());
        let all = a + b;
        if all.contains(x) {
            let k = choose|k: int| 0 <= k < all.len() && all[k] == x;
            if k < a.len() {
                assert(a[k] == x);
                let i = choose|i: int| 0 <= i < d.len() && brew_line(#[trigger] d[i]).contains(x);
                assert(ls[i] == d[i]);
            } else {
                assert(b[k - a.len()] == x);
                assert(brew_line(ls[ls.len() - 1]).contains(x));
            }
        }
        if exists|i: int| 0 <= i < ls.len() && brew_line(#[trigger] ls[i]).contains(x) {
            let i = choose|i: int| 0 <= i < ls.len() && brew_line(#[trigger] ls[i]).contains(x);
            if i < d.len() {
                assert(d[i] == ls[i]);
                let k = choose|k: int| 0 <= k < a.len() && a[k] == x;
                assert(all[k] == x);
            } else {
                let k = choose|k: int| 0 <= k < b.len() && b[k] == x;
                assert(all[a.len() + k] == x);
            }
        }
    }
}

/// The packages of Homebrew are the formulas that are printed, with each of their versions.
pub proof fn installed_formulas_are_listed(out: Seq<char>, name: Seq<char>, version: Seq<char>)
    ensures
        lists(installed_packages(OsTypeView::MacOs, Some(out)), name, version, "brew"@)
            <==> exists|i: int, k: int|
            0 <= i < text_lines(out).len() && 1 <= k < words(#[trigger] text_lines(out)[i]).len()
                && words(text_lines(out)[i])[0] == name && #[trigger] words(text_lines(out)[i])[k]
                == version,
{
    let ls = text_lines(out);
    let x = (name, version);
    lemma_brew(ls, x);
    lemma_listed("brew"@, brew_packages(ls), name, version);
    if brew_packages(ls).contains(x) {
        let i = choose|i: int| 0 <= i < ls.len() && brew_line(#[trigger] ls[i]).contains(x);
        let b = brew_line(ls[i]);
        let j = choose|j: int| 0 <= j < b.len() && b[j] == x;
        assert(words(ls[i])[j + 1] == version);
    }
    if exists|i: int, k: int|
        0 <= i < ls.len() && 1 <= k < words(#[trigger] ls[i]).len() && words(ls[i])[0] == name
            && #[trigger] words(ls[i])[k] == version {
        let (i, k) = choose|i: int, k: int|
            0 <= i < ls.len() && 1 <= k < words(#[trigger] ls[i]).len() && words(ls[i])[0] == name
                && #[trigger] words(ls[i])[k] == version;
        a_line_of_brew_gives_each_version(ls[i], k);
    }
}

/// A host whose packages could not be listed has none that are known.
pub proof fn no_package_is_made_up(os: OsTypeView)
    ensures
        installed_packages(os, None).len() == 0,
{
}

// ── The owner of a file ──────────────────────────────────────────────────────

/// The name and the version of an atom meet at the hyphen of the last cut, which belongs to
/// neither.
pub proof fn an_atom_is_cut_at_its_last_version(cuts: Seq<Pair>, name: Seq<char>, version: Seq<char>)
    requires
        cuts.len() > 0,
        cuts.last() == (name, seq!['-'] + version),
        trimmed(name).len() > 0,
        trimmed(version).len() > 0,
    ensures
        parts_at_hyphen(last_cut(cuts)) == Some((trimmed(name), trimmed(version))),
{
    assert((seq!['-'] + version).skip(1) =~= version);
}

/// The owner of a file is on the first line of `dpkg-query` that tells of an owner: of the names
/// before the path the first. Diversions are passed over.
pub proof fn the_owner_is_on_the_first_line_that_tells_one(
    ls: Seq<Seq<char>>,
    i: int,
    names: Seq<char>,
    path: Seq<char>,
)
    requires
        0 <= i < ls.len(),
        cut_last(ls[i], ": "@) == Some((names, path)),
        !has_prefix(ls[i], "diversion by "@),
        !has_prefix(ls[i], "local diversion "@),
        forall|k: int|
            0 <= k < i ==> has_prefix(#[trigger] ls[k], "diversion by "@) || has_prefix(
                ls[k],
                "local diversion "@,
            ) || cut_last(ls[k], ": "@) is None,
    ensures
        owners_on_lines(ls) == Some(names),
    decreases i,
{
    if i > 0 {
        let rest = ls.skip(1);
        assert(is_diversion(ls[0]) || cut_last(ls[0], ": "@) is None);
        assert(rest[i - 1] == ls[i]);
        assert forall|k: int| 0 <= k < i - 1 implies has_prefix(#[trigger] rest[k], "diversion by "@)
            || has_prefix(rest[k], "local diversion "@) || cut_last(rest[k], ": "@) is None by {
            assert(rest[k] == ls[k + 1]);
        }
        the_owner_is_on_the_first_line_that_tells_one(rest, i - 1, names, path);
    }
}

/// The package that owns a file is the owner with its version; without either there is none.
pub proof fn the_owner_has_its_version(owner: Seq<char>, version: Seq<char>, names: Seq<char>)
    ensures
        owners_on_lines(text_lines(owner)) == Some(names) ==> dpkg_owner(owner) == filled(
            pieces(names, CharSet::Is(','))[0],
        ),
        dpkg_owner(owner) matches Some(p) ==> (trimmed(version).len() > 0 ==> dpkg_package(
            owner,
            version,
        ) == Some((p, trimmed(version)))),
        trimmed(version).len() == 0 ==> dpkg_package(owner, version) is None,
        dpkg_owner(owner) is None ==> dpkg_package(owner, version) is None,
        trimmed(names).len() > 0 ==> filled(names) == Some(trimmed(names)),
        trimmed(names).len() == 0 ==> filled(names) is None,
{
}

/// What `rpm` prints of a file gives the package that owns it, with its whole version, unless it
/// says that none does.
pub proof fn the_first_line_of_rpm_gives_the_owner(out: Seq<char>, c: Seq<Seq<char>>)
    requires
        text_lines(out).len() > 0,
        pieces(text_lines(out)[0], CharSet::Is('\t')) == c,
    ensures
        occurs(lowercase(text_lines(out)[0]), "not owned"@) ==> rpm_package(out) is None,
        !occurs(lowercase(text_lines(out)[0]), "not owned"@) && c.len() >= 4 && trimmed(c[0]).len()
            > 0 && trimmed(c[2]).len() > 0 ==> rpm_package(out) == Some(
            (trimmed(c[0]), evr(trimmed(c[1]), trimmed(c[2]), trimmed(c[3]))),
        ),
        c.len() < 3 ==> rpm_package(out) is None,
{
}

/// What `pacman` prints of a file gives the owner and its version behind the words that say so.
pub proof fn pacman_names_the_owner(out: Seq<char>, after: Seq<char>)
    requires
        second_piece(out, " is owned by "@) == Some(after),
    ensures
        words(after).len() >= 2 ==> pacman_package(out) == Some((words(after)[0], words(after)[1]))
            && pacman_version_of(out) == Some(words(after)[1]),
        words(after).len() < 2 ==> pacman_package(out) is None && pacman_version_of(out) is None,
{
}

/// A binary of Homebrew lies under the name and the version of its formula.
pub proof fn a_path_of_homebrew_names_the_formula(
    path: Seq<char>,
    before: Seq<char>,
    name: Seq<char>,
    version: Seq<char>,
    rest: Seq<char>,
)
    requires
        cut(path, "/Cellar/"@) == Some((before, joined(seq![name, version, rest], seq!['/']))),
        free_of(name, CharSet::Is('/')),
        free_of(version, CharSet::Is('/')),
        free_of(rest, CharSet::Is('/')),
        name.len() > 0,
        version.len() > 0,
    ensures
        homebrew_package(path) == Some((name, version)),
{
    joined_texts_are_the_pieces(seq![name, version, rest], '/');
}

/// Each database is asked in its own words: the answer of one is read as that of this one.
pub proof fn each_database_is_read_in_its_words(out: Seq<char>, version: Seq<char>)
    ensures
        owner_from(PackageManager::Dpkg, out, version) == dpkg_package(out, version),
        owner_from(PackageManager::Rpm, out, version) == rpm_package(out),
        owner_from(PackageManager::Pacman, out, version) == pacman_package(out),
        owner_from(PackageManager::Homebrew, out, version) == homebrew_package(out),
        owner_from(PackageManager::FreeBsdPkg, out, version) == atom_of(trimmed(out)),
        second_piece(out, "owned by "@) matches Some(a) ==> owner_from(
            PackageManager::Apk,
            out,
            version,
        ) == atom_of(trimmed(a)) && apk_version_of(out) == atom_version_of(a),
        words(pieces(out, CharSet::Is(':'))[0]).len() > 0 ==> owner_from(
            PackageManager::PkgInfo,
            out,
            version,
        ) == atom_of(words(pieces(out, CharSet::Is(':'))[0])[0]),
        owner_from(PackageManager::PkgInfo, out, version) == owner_from(
            PackageManager::PkgInfoFile,
            out,
            version,
        ),
{
}

/// The version of the package that owns a file is that with which the package itself is told,
/// where the database tells both in one way.
pub proof fn a_version_is_that_of_its_package(out: Seq<char>, version: Seq<char>)
    ensures
        owner_from(PackageManager::Pacman, out, version) matches Some((_, v)) ==> version_from(
            PackageManager::Pacman,
            out,
            version,
        ) == Some(v),
        owner_from(PackageManager::Homebrew, out, version) matches Some((_, v)) ==> version_from(
            PackageManager::Homebrew,
            out,
            version,
        ) == Some(v),
        version_from(PackageManager::Dpkg, out, version) matches Some(v) ==> v == trimmed(version),
        trimmed(pieces(pieces(out, CharSet::Is(':'))[0], CharSet::Is(','))[0]).len() > 0 && trimmed(
            version,
        ).len() > 0 ==> version_from(PackageManager::Dpkg, out, version) == Some(trimmed(version)),
        (text_lines(out).len() > 0 && trimmed(text_lines(out)[0]).len() > 0 && !occurs(
            lowercase(trimmed(text_lines(out)[0])),
            "not owned"@,
        )) ==> version_from(PackageManager::Rpm, out, version) == Some(trimmed(text_lines(out)[0])),
        version_from(PackageManager::FreeBsdPkg, out, version) == atom_version_of(out),
{
}

/// The first database that knows the file decides.
pub proof fn the_first_answer_decides<A>(answers: Seq<Option<A>>, i: int, x: A)
    ensures
        (0 <= i < answers.len() && answers[i] == Some(x) && forall|k: int|
            0 <= k < i ==> (#[trigger] answers[k]) is None) ==> first_answer(answers) == Some(x),
        first_answer(answers) is None <==> forall|k: int|
            0 <= k < answers.len() ==> (#[trigger] answers[k]) is None,
    decreases answers.len(),
{
    if answers.len() > 0 {
        let rest = answers.skip(1);
        the_first_answer_decides(rest, i - 1, x);
        if answers[0] is None {
            if 0 < i < answers.len() {
                assert(rest[i - 1] == answers[i]);
                if forall|k: int| 0 <= k < i ==> (#[trigger] answers[k]) is None {
                    assert forall|k: int| 0 <= k < i - 1 implies (#[trigger] rest[k]) is None by {
                        assert(rest[k] == answers[k + 1]);
                    }
                }
            }
            if forall|k: int| 0 <= k < rest.len() ==> (#[trigger] rest[k]) is None {
                assert forall|k: int| 0 <= k < answers.len() implies (#[trigger] answers[k]) is None by {
                    if k > 0 {
                        assert(rest[k - 1] == answers[k]);
                    }
                }
            }
            if forall|k: int| 0 <= k < answers.len() ==> (#[trigger] answers[k]) is None {
                assert forall|k: int| 0 <= k < rest.len() implies (#[trigger] rest[k]) is None by {
                    assert(rest[k] == answers[k + 1]);
                }
            }
        }
    }
}

// ── The version that a binary tells ──────────────────────────────────────────

/// A bare number is a version unless it is a year, and a text with a dot is one.
pub proof fn a_year_is_no_version(n: u32, v: Seq<char>)
    ensures
        is_real_version(decimal(n as nat)) <==> n < 1900 || n > 2100,
        v.contains('.') ==> is_real_version(v),
        !is_real_version(Seq::<char>::empty()),
{
    let w = decimal(n as nat);
    written_number_reads_back(n as nat, 10);
    assert(digit_value(w[0], 10) is Some);
    if v.contains('.') {
        let i = choose|i: int| 0 <= i < v.len() && v[i] == '.';
        assert(digit_value(v[i], 10) is None);
        if v[0] == '+' {
            assert(i > 0);
            assert(v.skip(1)[i - 1] == '.');
        }
    }
}

/// Lines that complain, and notices, give no version.
pub proof fn complaints_give_no_version(l: Seq<char>)
    requires
        occurs(lowercase(l), "invalid"@) || occurs(lowercase(l), "unknown option"@) || occurs(
            lowercase(l),
            "usage:"@,
        ) || occurs(lowercase(l), "error:"@) || occurs(lowercase(l), "must be"@) || occurs(
            lowercase(l),
            "superuser"@,
        ) || occurs(lowercase(l), "permission"@) || occurs(lowercase(l), "copyright"@),
    ensures
        version_on_line(l) is None,
{
}

/// The first line with a version decides, of the first ten that are not blank.
pub proof fn the_first_line_with_a_version_decides(ls: Seq<Seq<char>>, n: int, i: int, v: Seq<char>)
    requires
        0 <= i < ls.len(),
        i < n,
        trimmed(ls[i]).len() > 0,
        version_on_line(trimmed(ls[i])) == Some(v),
        forall|k: int|
            0 <= k < i ==> trimmed(#[trigger] ls[k]).len() == 0 || version_on_line(trimmed(ls[k]))
                is None,
    ensures
        first_version(ls, n) == Some(v),
    decreases i,
{
    if i > 0 {
        let rest = ls.skip(1);
        assert(trimmed(ls[0]).len() == 0 || version_on_line(trimmed(ls[0])) is None);
        assert(rest[i - 1] == ls[i]);
        assert forall|k: int| 0 <= k < i - 1 implies trimmed(#[trigger] rest[k]).len() == 0
            || version_on_line(trimmed(rest[k])) is None by {
            assert(rest[k] == ls[k + 1]);
        }
        if trimmed(ls[0]).len() == 0 {
            the_first_line_with_a_version_decides(rest, n, i - 1, v);
        } else {
            the_first_line_with_a_version_decides(rest, n - 1, i - 1, v);
        }
    }
}

/// A run that succeeded tells the version by its output, or else by its errors; one that failed
/// only where its errors name the binary, and one that was not made tells none.
pub proof fn a_run_tells_by_its_output(exe: Seq<char>, run: Run)
    ensures
        run.success && run.stdout@.len() > 0 ==> told_version(exe, Some(run)) == first_version(
            text_lines(run.stdout@),
            10,
        ),
        run.success && run.stdout@.len() == 0 ==> told_version(exe, Some(run)) == first_version(
            text_lines(run.stderr@),
            10,
        ),
        !run.success && occurs(run.stderr@, pieces(exe, CharSet::Is('/')).last()) ==> told_version(
            exe,
            Some(run),
        ) == first_version(text_lines(run.stderr@), 10),
        !run.success && !occurs(run.stderr@, pieces(exe, CharSet::Is('/')).last()) ==> told_version(
            exe,
            Some(run),
        ) is None,
        told_version(exe, None) is None,
{
}

} // verus!
