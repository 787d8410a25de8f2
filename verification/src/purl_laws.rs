//! What the coordinates of a package tell.

use vstd::prelude::*;

use crate::asset::{AssetView, Ecosystem};
use crate::host::{LinuxDistroView, OsTypeView};
use crate::number::digit_value;
use crate::purl::{
    a_purl_tells_name_and_version, asset_purl, asset_query, encoded, encoded_char, encoding_is_reversible, field_of,
    is_reserved, major_minor, purl_of,
};
use crate::query::MatchQueryView;
use crate::split::{joined, pieces, with_chars_replaced};
use crate::text::{has_prefix, has_suffix, lowercase, CharSet};

verus! {

// ── Encoding ─────────────────────────────────────────────────────────────────

/// A character that has a meaning in a package URL is encoded by a percent sign and two
/// digits that give its code in base 16; any other stays as it is.
pub proof fn reserved_characters_are_encoded_by_their_code(c: char)
    ensures
        is_reserved(c) <==> c == '+' || c == '@' || c == ' ' || c == '?' || c == '#' || c == '%',
        is_reserved(c) ==> encoded_char(c).len() == 3 && encoded_char(c)[0] == '%' && digit_value(
            encoded_char(c)[1],
            16,
        ) == Some((c as nat) / 16) && digit_value(encoded_char(c)[2], 16) == Some((c as nat) % 16),
        !is_reserved(c) ==> encoded_char(c) == seq![c],
{
    reveal_strlit("%2B");
    reveal_strlit("%40");
    reveal_strlit("%20");
    reveal_strlit("%3F");
    reveal_strlit("%23");
    reveal_strlit("%25");
}

/// A text is encoded character by character, and one without a character that has a meaning
/// in a package URL stays as it is.
pub proof fn texts_are_encoded_by_character(a: Seq<char>, b: Seq<char>)
    ensures
        encoded(a + b) == encoded(a) + encoded(b),
        (forall|i: int| 0 <= i < a.len() ==> !is_reserved(#[trigger] a[i])) ==> encoded(a) == a,
    decreases a.len() + b.len(),
{
    if b.len() > 0 {
        texts_are_encoded_by_character(a, b.drop_last());
        assert((a + b).drop_last() =~= a + b.drop_last());
        assert((a + b).last() == b.last());
        assert(encoded(a + b) =~= encoded(a) + encoded(b));
    } else {
        assert(a + b =~= a);
        assert(encoded(a) + encoded(b) =~= encoded(a));
        if a.len() > 0 {
            texts_are_encoded_by_character(a.drop_last(), b);
            if forall|i: int| 0 <= i < a.len() ==> !is_reserved(#[trigger] a[i]) {
                assert forall|i: int| 0 <= i < a.drop_last().len() implies !is_reserved(
                    #[trigger] a.drop_last()[i],
                ) by {
                    assert(a.drop_last()[i] == a[i]);
                }
                assert(!is_reserved(a[a.len() - 1]));
                assert(a.drop_last() + seq![a.last()] =~= a);
            }
        }
    }
}

// ── The kind of a package URL ────────────────────────────────────────────────

/// Whether an asset has a package URL that begins with `head`.
pub open spec fn purl_begins(
    a: AssetView,
    os: OsTypeView,
    release: Option<Seq<char>>,
    head: Seq<char>,
) -> bool {
    asset_purl(a, os, release) matches Some(p) && has_prefix(p, head)
}

proof fn lemma_begins(p: Seq<char>, a: Seq<char>, b: Seq<char>)
    requires
        p == a + b,
    ensures
        has_prefix(p, a),
{
    assert(p.take(a.len() as int) =~= a);
}

/// The namespace of a package URL names the distribution whose package it is.
pub proof fn the_namespace_names_the_distribution(
    a: AssetView,
    os: OsTypeView,
    release: Option<Seq<char>>,
)
    ensures
        a.ecosystem == Ecosystem::Rpm ==> {
            &&& os == OsTypeView::Linux(LinuxDistroView::Fedora) ==> purl_begins(
                a,
                os,
                release,
                "pkg:rpm/fedora/"@,
            )
            &&& os == OsTypeView::Linux(LinuxDistroView::OpenSuse) ==> purl_begins(
                a,
                os,
                release,
                "pkg:rpm/opensuse/"@,
            )
            &&& os == OsTypeView::Linux(LinuxDistroView::CentOs) ==> purl_begins(
                a,
                os,
                release,
                "pkg:rpm/centos/"@,
            )
            &&& os == OsTypeView::Linux(LinuxDistroView::Rhel) ==> purl_begins(
                a,
                os,
                release,
                "pkg:rpm/redhat/"@,
            )
            &&& os != OsTypeView::Linux(LinuxDistroView::Fedora) && os != OsTypeView::Linux(
                LinuxDistroView::OpenSuse,
            ) && os != OsTypeView::Linux(LinuxDistroView::CentOs) ==> purl_begins(
                a,
                os,
                release,
                "pkg:rpm/redhat/"@,
            )
        },
        a.ecosystem == Ecosystem::Deb ==> {
            &&& os == OsTypeView::Linux(LinuxDistroView::Ubuntu) ==> purl_begins(
                a,
                os,
                release,
                "pkg:deb/ubuntu/"@,
            )
            &&& os == OsTypeView::Linux(LinuxDistroView::Kali) ==> purl_begins(
                a,
                os,
                release,
                "pkg:deb/kali/"@,
            )
            &&& os != OsTypeView::Linux(LinuxDistroView::Ubuntu) && os != OsTypeView::Linux(
                LinuxDistroView::Kali,
            ) ==> purl_begins(a, os, release, "pkg:deb/debian/"@)
        },
        a.ecosystem == Ecosystem::Alpine ==> purl_begins(a, os, release, "pkg:apk/alpine/"@),
        a.ecosystem == Ecosystem::Arch ==> purl_begins(a, os, release, "pkg:pacman/arch/"@),
        a.ecosystem == Ecosystem::Homebrew ==> purl_begins(a, os, release, "pkg:brew/"@),
        a.ecosystem == Ecosystem::Npm ==> purl_begins(a, os, release, "pkg:npm/"@),
        a.ecosystem == Ecosystem::PyPI ==> purl_begins(a, os, release, "pkg:pypi/"@),
        a.ecosystem == Ecosystem::NuGet ==> purl_begins(a, os, release, "pkg:nuget/"@),
{
    reveal_strlit("pkg:rpm/");
    reveal_strlit("pkg:rpm/fedora/");
    reveal_strlit("pkg:rpm/opensuse/");
    reveal_strlit("pkg:rpm/centos/");
    reveal_strlit("pkg:rpm/redhat/");
    reveal_strlit("fedora");
    reveal_strlit("opensuse");
    reveal_strlit("centos");
    reveal_strlit("redhat");
    reveal_strlit("pkg:deb/");
    reveal_strlit("pkg:deb/ubuntu/");
    reveal_strlit("pkg:deb/kali/");
    reveal_strlit("pkg:deb/debian/");
    reveal_strlit("ubuntu");
    reveal_strlit("kali");
    reveal_strlit("debian");
    reveal_strlit("/");
    assert("pkg:rpm/"@ + "fedora"@ + "/"@ =~= "pkg:rpm/fedora/"@);
    assert("pkg:rpm/"@ + "opensuse"@ + "/"@ =~= "pkg:rpm/opensuse/"@);
    assert("pkg:rpm/"@ + "centos"@ + "/"@ =~= "pkg:rpm/centos/"@);
    assert("pkg:rpm/"@ + "redhat"@ + "/"@ =~= "pkg:rpm/redhat/"@);
    assert("pkg:deb/"@ + "ubuntu"@ + "/"@ =~= "pkg:deb/ubuntu/"@);
    assert("pkg:deb/"@ + "kali"@ + "/"@ =~= "pkg:deb/kali/"@);
    assert("pkg:deb/"@ + "debian"@ + "/"@ =~= "pkg:deb/debian/"@);
    if let Some(p) = asset_purl(a, os, release) {
        let head = if a.ecosystem == Ecosystem::Rpm {
            if os == OsTypeView::Linux(LinuxDistroView::Fedora) {
                "pkg:rpm/fedora/"@
            } else if os == OsTypeView::Linux(LinuxDistroView::OpenSuse) {
                "pkg:rpm/opensuse/"@
            } else if os == OsTypeView::Linux(LinuxDistroView::CentOs) {
                "pkg:rpm/centos/"@
            } else {
                "pkg:rpm/redhat/"@
            }
        } else if a.ecosystem == Ecosystem::Deb {
            if os == OsTypeView::Linux(LinuxDistroView::Ubuntu) {
                "pkg:deb/ubuntu/"@
            } else if os == OsTypeView::Linux(LinuxDistroView::Kali) {
                "pkg:deb/kali/"@
            } else {
                "pkg:deb/debian/"@
            }
        } else if a.ecosystem == Ecosystem::Alpine {
            "pkg:apk/alpine/"@
        } else if a.ecosystem == Ecosystem::Arch {
            "pkg:pacman/arch/"@
        } else if a.ecosystem == Ecosystem::Homebrew {
            "pkg:brew/"@
        } else if a.ecosystem == Ecosystem::Npm {
            "pkg:npm/"@
        } else if a.ecosystem == Ecosystem::PyPI {
            "pkg:pypi/"@
        } else {
            "pkg:nuget/"@
        };
        assert(p =~= head + p.skip(head.len() as int));
        lemma_begins(p, head, p.skip(head.len() as int));
    }
}

/// A package has a package URL unless it is one of the BSDs, one of Windows, or of no kind that is
/// known.
pub proof fn which_packages_have_a_purl(
    a: AssetView,
    os: OsTypeView,
    release: Option<Seq<char>>,
)
    ensures
        asset_purl(a, os, release) is None <==> (a.ecosystem == Ecosystem::FreeBsdPkg || a.ecosystem
            == Ecosystem::OpenBsdPkg || a.ecosystem == Ecosystem::NetBsdPkg || a.ecosystem
            == Ecosystem::WinApp || a.ecosystem == Ecosystem::WindowsOs || a.ecosystem
            == Ecosystem::Generic),
{
}

/// Whether the operating system is one of the distributions of RPM packages.
pub open spec fn is_rpm_distribution(os: OsTypeView) -> bool {
    ||| os == OsTypeView::Linux(LinuxDistroView::Fedora)
    ||| os == OsTypeView::Linux(LinuxDistroView::OpenSuse)
    ||| os == OsTypeView::Linux(LinuxDistroView::CentOs)
    ||| os == OsTypeView::Linux(LinuxDistroView::Rhel)
}

/// Whether the operating system is one of the distributions of Debian packages.
pub open spec fn is_deb_distribution(os: OsTypeView) -> bool {
    ||| os == OsTypeView::Linux(LinuxDistroView::Debian)
    ||| os == OsTypeView::Linux(LinuxDistroView::Ubuntu)
    ||| os == OsTypeView::Linux(LinuxDistroView::Kali)
}

/// The packages of two distributions have two package URLs, though they have one name and one
/// version.
pub proof fn distributions_have_their_own_purls(
    a: AssetView,
    x: OsTypeView,
    y: OsTypeView,
    r: Option<Seq<char>>,
    s: Option<Seq<char>>,
)
    requires
        x != y,
        (a.ecosystem == Ecosystem::Rpm && is_rpm_distribution(x) && is_rpm_distribution(y)) || (
        a.ecosystem == Ecosystem::Deb && is_deb_distribution(x) && is_deb_distribution(y)),
    ensures
        asset_purl(a, x, r) != asset_purl(a, y, s),
{
    the_namespace_names_the_distribution(a, x, r);
    the_namespace_names_the_distribution(a, y, s);
    reveal_strlit("pkg:rpm/fedora/");
    reveal_strlit("pkg:rpm/opensuse/");
    reveal_strlit("pkg:rpm/centos/");
    reveal_strlit("pkg:rpm/redhat/");
    reveal_strlit("pkg:deb/ubuntu/");
    reveal_strlit("pkg:deb/kali/");
    reveal_strlit("pkg:deb/debian/");
    let p = asset_purl(a, x, r)->0;
    let q = asset_purl(a, y, s)->0;
    assert(p[8] != q[8]) by {
        lemma_char_of_prefix(p, 8);
        lemma_char_of_prefix(q, 8);
    }
}

proof fn lemma_char_of_prefix(p: Seq<char>, i: int)
    ensures
        forall|h: Seq<char>| #[trigger] has_prefix(p, h) && 0 <= i < h.len() ==> p[i] == h[i],
{
    assert forall|h: Seq<char>| #[trigger] has_prefix(p, h) && 0 <= i < h.len() implies p[i]
        == h[i] by {
        assert(p.take(h.len() as int)[i] == h[i]);
    }
}

/// A package URL tells the kind of the package.
pub proof fn a_purl_tells_the_ecosystem(
    a: AssetView,
    b: AssetView,
    x: OsTypeView,
    y: OsTypeView,
    r: Option<Seq<char>>,
    s: Option<Seq<char>>,
)
    requires
        asset_purl(a, x, r) is Some,
        asset_purl(a, x, r) == asset_purl(b, y, s),
    ensures
        a.ecosystem == b.ecosystem,
{
    the_namespace_names_the_distribution(a, x, r);
    the_namespace_names_the_distribution(b, y, s);
    reveal_strlit("pkg:rpm/fedora/");
    reveal_strlit("pkg:rpm/opensuse/");
    reveal_strlit("pkg:rpm/centos/");
    reveal_strlit("pkg:rpm/redhat/");
    reveal_strlit("pkg:deb/ubuntu/");
    reveal_strlit("pkg:deb/kali/");
    reveal_strlit("pkg:deb/debian/");
    reveal_strlit("pkg:apk/alpine/");
    reveal_strlit("pkg:pacman/arch/");
    reveal_strlit("pkg:brew/");
    reveal_strlit("pkg:npm/");
    reveal_strlit("pkg:pypi/");
    reveal_strlit("pkg:nuget/");
    let p = asset_purl(a, x, r)->0;
    lemma_char_of_prefix(p, 4);
    lemma_char_of_prefix(p, 5);
}

// ── The name, the version and the release ────────────────────────────────────

/// A package URL ends in the whole version, behind an at sign, where the release of the system
/// is not known; where it is, only the release can stand behind that.
pub proof fn a_purl_has_the_whole_version(
    a: AssetView,
    os: OsTypeView,
    release: Option<Seq<char>>,
)
    requires
        asset_purl(a, os, release) is Some,
    ensures
        asset_purl(a, os, None) matches Some(p) && has_suffix(p, "@"@ + encoded(a.version))
            && has_prefix(asset_purl(a, os, release)->0, p),
        ({
            let p = asset_purl(a, os, None)->0;
            let rest = asset_purl(a, os, release)->0.skip(p.len() as int);
            rest.len() == 0 || has_prefix(rest, "?distro="@)
        }),
{
    reveal_strlit("?distro=");
    reveal_strlit("?distro=v");
    let p = asset_purl(a, os, None)->0;
    let q = asset_purl(a, os, release)->0;
    let at = "@"@ + encoded(a.version);
    assert(p.skip(p.len() - at.len()) =~= at);
    assert(q.take(p.len() as int) =~= p);
    let rest = q.skip(p.len() as int);
    if rest.len() > 0 {
        assert(rest.take(8) =~= "?distro="@);
    }
}

/// The release that a package URL names is the code name for Debian packages, the
/// distribution and its version for RPM packages, and the first two numbers of the version for
/// Alpine packages; no other package URL names one.
pub proof fn a_purl_names_the_release(a: AssetView, os: OsTypeView, release: Option<Seq<char>>)
    requires
        asset_purl(a, os, release) is Some,
    ensures
        ({
            let p = asset_purl(a, os, None)->0;
            let q = asset_purl(a, os, release)->0;
            let code = field_of(release, "VERSION_CODENAME"@);
            let id = field_of(release, "ID"@);
            let version = field_of(release, "VERSION_ID"@);
            &&& a.ecosystem == Ecosystem::Deb ==> match code {
                Some(c) => q == p + ("?distro="@ + encoded(c)),
                None => q == p,
            }
            &&& a.ecosystem == Ecosystem::Rpm ==> match (id, version) {
                (Some(i), Some(v)) => q == p + ("?distro="@ + encoded(i) + "-"@ + encoded(v)),
                _ => q == p,
            }
            &&& a.ecosystem == Ecosystem::Alpine ==> match version {
                Some(v) => q == p + ("?distro=v"@ + major_minor(v)),
                None => q == p,
            }
            &&& a.ecosystem != Ecosystem::Deb && a.ecosystem != Ecosystem::Rpm && a.ecosystem
                != Ecosystem::Alpine ==> q == p
        }),
{
    let p = asset_purl(a, os, None)->0;
    let q = asset_purl(a, os, release)->0;
    let rest = q.skip(p.len() as int);
    assert(q =~= p + rest);
    if a.ecosystem == Ecosystem::Deb {
        if let Some(c) = field_of(release, "VERSION_CODENAME"@) {
            assert(q =~= p + ("?distro="@ + encoded(c)));
        }
    } else if a.ecosystem == Ecosystem::Rpm {
        if let (Some(i), Some(v)) = (field_of(release, "ID"@), field_of(release, "VERSION_ID"@)) {
            assert(q =~= p + ("?distro="@ + encoded(i) + "-"@ + encoded(v)));
        }
    } else if a.ecosystem == Ecosystem::Alpine {
        if let Some(v) = field_of(release, "VERSION_ID"@) {
            assert(q =~= p + ("?distro=v"@ + major_minor(v)));
        }
    }
    assert(q.len() == p.len() ==> q =~= p);
}

/// A Debian package of one release is told from that of another.
pub proof fn releases_have_their_own_purls(
    a: AssetView,
    os: OsTypeView,
    r: Option<Seq<char>>,
    s: Option<Seq<char>>,
)
    requires
        a.ecosystem == Ecosystem::Deb,
        field_of(r, "VERSION_CODENAME"@) is Some,
        field_of(r, "VERSION_CODENAME"@) != field_of(s, "VERSION_CODENAME"@),
    ensures
        asset_purl(a, os, r) != asset_purl(a, os, s),
{
    a_purl_names_the_release(a, os, r);
    a_purl_names_the_release(a, os, s);
    reveal_strlit("?distro=");
    let p = asset_purl(a, os, None)->0;
    let c = field_of(r, "VERSION_CODENAME"@)->0;
    if let Some(d) = field_of(s, "VERSION_CODENAME"@) {
        let x = p + ("?distro="@ + encoded(c));
        let y = p + ("?distro="@ + encoded(d));
        if x == y {
            assert(x.skip(p.len() as int + 8) =~= encoded(c));
            assert(y.skip(p.len() as int + 8) =~= encoded(d));
            encoding_is_reversible(c, d);
        }
    }
}

/// The first two numbers of a version with dots are the numbers with a dot between; a version
/// of one number stays.
pub proof fn two_numbers_are_kept(p: Seq<Seq<char>>, v: Seq<char>)
    requires
        pieces(v, CharSet::Is('.')) == p,
        p.len() > 0,
    ensures
        p.len() == 1 ==> major_minor(v) == p[0],
        p.len() >= 2 ==> major_minor(v) == p[0] + seq!['.'] + p[1],
{
    reveal_strlit(".");
    reveal_with_fuel(joined, 3);
    assert("."@ =~= seq!['.']);
    if p.len() == 1 {
        assert(p.take(1) =~= seq![p[0]]);
        assert(seq![p[0]].drop_last() =~= Seq::<Seq<char>>::empty());
        assert(major_minor(v) =~= p[0]);
    } else {
        assert(p.take(2) =~= seq![p[0], p[1]]);
        assert(seq![p[0], p[1]].drop_last() =~= seq![p[0]]);
        assert(seq![p[0]].drop_last() =~= Seq::<Seq<char>>::empty());
        assert(major_minor(v) =~= p[0] + seq!['.'] + p[1]);
    }
}

/// The case of a name tells packages apart where the kind of package says so, and not where it
/// does not.
pub proof fn the_case_of_a_name_matters_to_some(
    a: AssetView,
    b: AssetView,
    os: OsTypeView,
    release: Option<Seq<char>>,
)
    requires
        a.ecosystem == b.ecosystem,
        a.version == b.version,
    ensures
        (a.ecosystem == Ecosystem::Deb || a.ecosystem == Ecosystem::Alpine || a.ecosystem
            == Ecosystem::Arch || a.ecosystem == Ecosystem::PyPI) && lowercase(a.coordinate())
            == lowercase(b.coordinate()) ==> asset_purl(a, os, release) == asset_purl(b, os, release),
        (a.ecosystem == Ecosystem::Deb || a.ecosystem == Ecosystem::Alpine || a.ecosystem
            == Ecosystem::Arch) && lowercase(a.coordinate()) != lowercase(b.coordinate())
            ==> asset_purl(a, os, release) != asset_purl(b, os, release),
        (a.ecosystem == Ecosystem::Rpm || a.ecosystem == Ecosystem::Homebrew || a.ecosystem
            == Ecosystem::Npm || a.ecosystem == Ecosystem::NuGet) && a.coordinate()
            != b.coordinate() ==> asset_purl(a, os, release) != asset_purl(b, os, release),
{
    if asset_purl(a, os, release) is Some && asset_purl(a, os, release) == asset_purl(
        b,
        os,
        release,
    ) {
        a_purl_tells_name_and_version(
            a.ecosystem,
            (a.coordinate(), lowercase(a.coordinate()), a.version),
            (b.coordinate(), lowercase(b.coordinate()), b.version),
            os,
            release,
        );
    }
}

/// Names of Python packages that differ in their joiners alone are one name.
pub proof fn joiners_of_python_names_are_one(
    name: Seq<char>,
    lower: Seq<char>,
    other: Seq<char>,
    version: Seq<char>,
    os: OsTypeView,
    release: Option<Seq<char>>,
)
    requires
        lower.len() == other.len(),
        forall|i: int|
            0 <= i < lower.len() ==> #[trigger] lower[i] == other[i] || ((lower[i] == '-' || lower[i]
                == '_' || lower[i] == '.') && (other[i] == '-' || other[i] == '_' || other[i]
                == '.')),
    ensures
        purl_of(Ecosystem::PyPI, name, lower, version, os, release) == purl_of(
            Ecosystem::PyPI,
            name,
            other,
            version,
            os,
            release,
        ),
{
    let set = CharSet::Either('_', '.');
    assert(with_chars_replaced(lower, set, '-') =~= with_chars_replaced(
        other,
        set,
        '-',
    ));
}

// ── What is asked for ────────────────────────────────────────────────────────

/// An asset that has a CPE is asked for by that alone, one without by its package URL, and one
/// with neither is not asked for.
pub proof fn the_strongest_coordinate_is_asked_for(
    a: AssetView,
    os: OsTypeView,
    release: Option<Seq<char>>,
)
    ensures
        a.cpe is Some ==> asset_query(a, os, release) == Some(MatchQueryView::Cpe(a.cpe->0)),
        a.cpe is None && asset_purl(a, os, release) is Some ==> asset_query(a, os, release) == Some(
            MatchQueryView::Purl(asset_purl(a, os, release)->0),
        ),
        asset_query(a, os, release) is None <==> a.cpe is None && asset_purl(a, os, release) is None,
{
}

} // verus!
