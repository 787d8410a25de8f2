//! Package URLs.

use vstd::prelude::*;

use crate::asset::{Asset, AssetView, Ecosystem};
use crate::host::{os_release_field, release_field, LinuxDistro, LinuxDistroView, OsType, OsTypeView};
use crate::query::{MatchQuery, MatchQueryView};
use crate::split::{join_first, joined, pieces, replace_chars, split, text_lines, with_chars_replaced};
use crate::text::{chars_of, concat2, concat3, concat4, lowercase, opt_str_view, opt_view, to_lowercase, CharSet};

verus! {

// ── Encoding ─────────────────────────────────────────────────────────────────

/// Whether a character must be encoded in a part of a package URL.
pub open spec fn is_reserved(c: char) -> bool {
    c == '+' || c == '@' || c == ' ' || c == '?' || c == '#' || c == '%'
}

pub open spec fn encoded_char(c: char) -> Seq<char> {
    if c == '+' {
        "%2B"@
    } else if c == '@' {
        "%40"@
    } else if c == ' ' {
        "%20"@
    } else if c == '?' {
        "%3F"@
    } else if c == '#' {
        "%23"@
    } else if c == '%' {
        "%25"@
    } else {
        seq![c]
    }
}

/// A text as a part of a package URL.
pub open spec fn encoded(s: Seq<char>) -> Seq<char>
    decreases s.len(),
{
    if s.len() == 0 {
        s
    } else {
        encoded(s.drop_last()) + encoded_char(s.last())
    }
}

/// A text as a part of a package URL.
pub fn pct(s: &str) -> (r: String)
    ensures
        r@ == encoded(s@),
{
    let v = chars_of(s);
    let mut o = String::new();
    let mut i: usize = 0;
    assert(o@ =~= encoded(v@.take(0)));
    while i < v.len()
        invariant
            i <= v@.len(),
            o@ == encoded(v@.take(i as int)),
        decreases v@.len() - i,
    {
        let ghost before = o@;
        proof {
            assert(v@.take(i + 1).drop_last() =~= v@.take(i as int));
            assert(v@.take(i + 1).last() == v@[i as int]);
        }
        let c = v[i];
        if c == '+' {
            o.append("%2B");
        } else if c == '@' {
            o.append("%40");
        } else if c == ' ' {
            o.append("%20");
        } else if c == '?' {
            o.append("%3F");
        } else if c == '#' {
            o.append("%23");
        } else if c == '%' {
            o.append("%25");
        } else {
            o.push(c);
        }
        assert(o@ =~= before + encoded_char(c));
        i += 1;
    }
    assert(v@.take(v@.len() as int) =~= v@);
    o
}

proof fn lemma_codes()
    ensures
        forall|c: char|
            is_reserved(c) ==> (#[trigger] encoded_char(c)).len() == 3 && encoded_char(c)[0] == '%',
        forall|c: char|
            !is_reserved(c) ==> (#[trigger] encoded_char(c)).len() == 1 && encoded_char(c)[0] == c,
        forall|c: char, d: char|
            #[trigger] encoded_char(c) == #[trigger] encoded_char(d) ==> c == d,
        forall|c: char, k: int|
            is_reserved(c) && 1 <= k < 3 ==> !is_reserved(#[trigger] encoded_char(c)[k]),
{
    reveal_strlit("%2B");
    reveal_strlit("%40");
    reveal_strlit("%20");
    reveal_strlit("%3F");
    reveal_strlit("%23");
    reveal_strlit("%25");
    assert forall|c: char, d: char| #[trigger]
        encoded_char(c) == #[trigger] encoded_char(d) implies c == d by {
        assert(encoded_char(c).len() == encoded_char(d).len());
        if is_reserved(c) {
            assert(encoded_char(c)[1] == encoded_char(d)[1]);
            assert(encoded_char(c)[2] == encoded_char(d)[2]);
        } else {
            assert(encoded_char(c)[0] == encoded_char(d)[0]);
        }
    }
}

/// In an encoded text no reserved character stands but the one that begins a code.
pub proof fn encoded_has_no_reserved(s: Seq<char>, i: int)
    requires
        0 <= i < encoded(s).len(),
    ensures
        !is_reserved(encoded(s)[i]) || encoded(s)[i] == '%',
    decreases s.len(),
{
    lemma_codes();
    let before = encoded(s.drop_last());
    if i < before.len() {
        encoded_has_no_reserved(s.drop_last(), i);
    } else {
        let c = s.last();
        let k = i - before.len();
        assert(encoded(s)[i] == encoded_char(c)[k]);
        if is_reserved(c) && k > 0 {
            assert(!is_reserved(encoded_char(c)[k]));
        }
    }
}

proof fn lemma_encoded_front(s: Seq<char>)
    requires
        s.len() > 0,
    ensures
        encoded(s) == encoded_char(s[0]) + encoded(s.skip(1)),
    decreases s.len(),
{
    if s.len() == 1 {
        assert(s.drop_last() =~= Seq::<char>::empty());
        assert(s.skip(1) =~= Seq::<char>::empty());
        assert(encoded(s) =~= encoded_char(s[0]) + encoded(s.skip(1)));
    } else {
        lemma_encoded_front(s.drop_last());
        assert(s.drop_last().skip(1) =~= s.skip(1).drop_last());
        assert(encoded(s) =~= encoded_char(s[0]) + encoded(s.skip(1)));
    }
}

/// Two texts that are encoded alike are one text: encoding loses nothing.
pub proof fn encoding_is_reversible(a: Seq<char>, b: Seq<char>)
    requires
        encoded(a) == encoded(b),
    ensures
        a == b,
    decreases a.len(),
{
    lemma_codes();
    if a.len() == 0 {
        if b.len() > 0 {
            lemma_encoded_front(b);
            assert(encoded(b).len() >= encoded_char(b[0]).len());
            assert(is_reserved(b[0]) || !is_reserved(b[0]));
        }
        assert(a =~= b);
    } else if b.len() == 0 {
        lemma_encoded_front(a);
        assert(is_reserved(a[0]) || !is_reserved(a[0]));
    } else {
        lemma_encoded_front(a);
        lemma_encoded_front(b);
        let x = encoded_char(a[0]);
        let y = encoded_char(b[0]);
        let e = encoded(a);
        assert(e[0] == x[0] && e[0] == y[0]);
        assert(x.len() == y.len()) by {
            assert(is_reserved(a[0]) ==> x[0] == '%');
            assert(!is_reserved(a[0]) ==> x[0] == a[0]);
            assert(is_reserved(b[0]) ==> y[0] == '%');
            assert(!is_reserved(b[0]) ==> y[0] == b[0]);
        }
        assert(e.take(x.len() as int) =~= x);
        assert(e.take(x.len() as int) =~= y);
        assert(a[0] == b[0]);
        assert(e.skip(x.len() as int) =~= encoded(a.skip(1)));
        assert(e.skip(x.len() as int) =~= encoded(b.skip(1)));
        encoding_is_reversible(a.skip(1), b.skip(1));
        assert(a =~= seq![a[0]] + a.skip(1));
        assert(b =~= seq![b[0]] + b.skip(1));
    }
}

// ── Package URLs ─────────────────────────────────────────────────────────────

/// The namespace of Debian packages on an operating system.
pub open spec fn deb_vendor(os: OsTypeView) -> Seq<char> {
    match os {
        OsTypeView::Linux(LinuxDistroView::Ubuntu) => "ubuntu"@,
        OsTypeView::Linux(LinuxDistroView::Kali) => "kali"@,
        _ => "debian"@,
    }
}

/// The namespace of RPM packages on an operating system.
pub open spec fn rpm_vendor(os: OsTypeView) -> Seq<char> {
    match os {
        OsTypeView::Linux(LinuxDistroView::Fedora) => "fedora"@,
        OsTypeView::Linux(LinuxDistroView::OpenSuse) => "opensuse"@,
        OsTypeView::Linux(LinuxDistroView::CentOs) => "centos"@,
        _ => "redhat"@,
    }
}

fn deb_namespace(os: &OsType) -> (r: &'static str)
    ensures
        r@ == deb_vendor(os.deep_view()),
{
    match os {
        OsType::Linux(LinuxDistro::Ubuntu) => "ubuntu",
        OsType::Linux(LinuxDistro::Kali) => "kali",
        _ => "debian",
    }
}

fn rpm_namespace(os: &OsType) -> (r: &'static str)
    ensures
        r@ == rpm_vendor(os.deep_view()),
{
    match os {
        OsType::Linux(LinuxDistro::Fedora) => "fedora",
        OsType::Linux(LinuxDistro::OpenSuse) => "opensuse",
        OsType::Linux(LinuxDistro::CentOs) => "centos",
        _ => "redhat",
    }
}

/// A field of the release file, where it could be read.
pub open spec fn field_of(release: Option<Seq<char>>, key: Seq<char>) -> Option<Seq<char>> {
    match release {
        Some(content) => release_field(text_lines(content), key),
        None => None,
    }
}

fn read_release(release: Option<&str>, key: &str) -> (r: Option<String>)
    ensures
        opt_view(r) == field_of(opt_str_view(release), key@),
{
    match release {
        Some(content) => os_release_field(content, key),
        None => None,
    }
}

/// The first two numbers of a version.
pub open spec fn major_minor(v: Seq<char>) -> Seq<char> {
    let p = pieces(v, CharSet::Is('.'));
    joined(p.take(if p.len() < 2 {
        p.len() as int
    } else {
        2
    }), "."@)
}

fn first_two_numbers(v: &str) -> (r: String)
    ensures
        r@ == major_minor(v@),
{
    let p = split(v, CharSet::Is('.'));
    let n: usize = if p.len() < 2 {
        p.len()
    } else {
        2
    };
    join_first(&p, n, ".")
}

pub open spec fn deb_qualifier(release: Option<Seq<char>>) -> Seq<char> {
    match field_of(release, "VERSION_CODENAME"@) {
        Some(c) => "?distro="@ + encoded(c),
        None => Seq::empty(),
    }
}

pub open spec fn rpm_qualifier(release: Option<Seq<char>>) -> Seq<char> {
    match field_of(release, "ID"@) {
        Some(id) => match field_of(release, "VERSION_ID"@) {
            Some(rel) => "?distro="@ + encoded(id) + "-"@ + encoded(rel),
            None => Seq::empty(),
        },
        None => Seq::empty(),
    }
}

pub open spec fn apk_qualifier(release: Option<Seq<char>>) -> Seq<char> {
    match field_of(release, "VERSION_ID"@) {
        Some(v) => "?distro=v"@ + major_minor(v),
        None => Seq::empty(),
    }
}

/// The package URL of a package: of its kind, with its whole version, and with the
/// distribution where packages are compared by its rules. `lower` is the name in
/// lower case, for the kinds in which names have no case.
pub open spec fn purl_of(
    eco: Ecosystem,
    name: Seq<char>,
    lower: Seq<char>,
    version: Seq<char>,
    os: OsTypeView,
    release: Option<Seq<char>>,
) -> Option<Seq<char>> {
    let at = "@"@ + encoded(version);
    match eco {
        Ecosystem::Deb => Some(
            "pkg:deb/"@ + deb_vendor(os) + "/"@ + encoded(lower) + at + deb_qualifier(release),
        ),
        Ecosystem::Rpm => Some(
            "pkg:rpm/"@ + rpm_vendor(os) + "/"@ + encoded(name) + at + rpm_qualifier(release),
        ),
        Ecosystem::Alpine => Some(
            "pkg:apk/alpine/"@ + encoded(lower) + at + apk_qualifier(release),
        ),
        Ecosystem::Arch => Some("pkg:pacman/arch/"@ + encoded(lower) + at),
        Ecosystem::Homebrew => Some("pkg:brew/"@ + encoded(name) + at),
        Ecosystem::Npm => Some("pkg:npm/"@ + encoded(name) + at),
        Ecosystem::PyPI => Some(
            "pkg:pypi/"@ + encoded(with_chars_replaced(lower, CharSet::Either('_', '.'), '-')) + at,
        ),
        Ecosystem::NuGet => Some("pkg:nuget/"@ + encoded(name) + at),
        _ => None,
    }
}

fn with_version(head: &str, name: &str, version: &str) -> (r: String)
    ensures
        r@ == head@ + encoded(name@) + ("@"@ + encoded(version@)),
{
    let n = pct(name);
    let v = pct(version);
    let r = concat4(head, n.as_str(), "@", v.as_str());
    assert(r@ =~= head@ + encoded(name@) + ("@"@ + encoded(version@)));
    r
}

fn qualify_deb(release: Option<&str>) -> (r: String)
    ensures
        r@ == deb_qualifier(opt_str_view(release)),
{
    match read_release(release, "VERSION_CODENAME") {
        Some(c) => {
            let e = pct(c.as_str());
            concat2("?distro=", e.as_str())
        },
        None => String::new(),
    }
}

fn qualify_rpm(release: Option<&str>) -> (r: String)
    ensures
        r@ == rpm_qualifier(opt_str_view(release)),
{
    match read_release(release, "ID") {
        Some(id) => match read_release(release, "VERSION_ID") {
            Some(rel) => {
                let a = pct(id.as_str());
                let b = pct(rel.as_str());
                concat4("?distro=", a.as_str(), "-", b.as_str())
            },
            None => String::new(),
        },
        None => String::new(),
    }
}

fn qualify_apk(release: Option<&str>) -> (r: String)
    ensures
        r@ == apk_qualifier(opt_str_view(release)),
{
    match read_release(release, "VERSION_ID") {
        Some(v) => {
            let mm = first_two_numbers(v.as_str());
            concat2("?distro=v", mm.as_str())
        },
        None => String::new(),
    }
}

/// The package URL of a package whose name is given as it is and in lower case;
/// none for a kind that has no package URLs.
pub fn purl_for(
    eco: Ecosystem,
    name: &str,
    lower: &str,
    version: &str,
    os: &OsType,
    release: Option<&str>,
) -> (r: Option<String>)
    ensures
        opt_view(r) == purl_of(
            eco,
            name@,
            lower@,
            version@,
            os.deep_view(),
            opt_str_view(release),
        ),
{
    match eco {
        Ecosystem::Deb => {
            let head = concat3("pkg:deb/", deb_namespace(os), "/");
            let p = with_version(head.as_str(), lower, version);
            let q = qualify_deb(release);
            Some(concat2(p.as_str(), q.as_str()))
        },
        Ecosystem::Rpm => {
            let head = concat3("pkg:rpm/", rpm_namespace(os), "/");
            let p = with_version(head.as_str(), name, version);
            let q = qualify_rpm(release);
            Some(concat2(p.as_str(), q.as_str()))
        },
        Ecosystem::Alpine => {
            let p = with_version("pkg:apk/alpine/", lower, version);
            let q = qualify_apk(release);
            Some(concat2(p.as_str(), q.as_str()))
        },
        Ecosystem::Arch => Some(with_version("pkg:pacman/arch/", lower, version)),
        Ecosystem::Homebrew => Some(with_version("pkg:brew/", name, version)),
        Ecosystem::Npm => Some(with_version("pkg:npm/", name, version)),
        Ecosystem::PyPI => {
            let plain = replace_chars(lower, CharSet::Either('_', '.'), '-');
            Some(with_version("pkg:pypi/", plain.as_str(), version))
        },
        Ecosystem::NuGet => Some(with_version("pkg:nuget/", name, version)),
        _ => None,
    }
}

/// The package URL of an asset.
pub open spec fn asset_purl(a: AssetView, os: OsTypeView, release: Option<Seq<char>>) -> Option<
    Seq<char>,
> {
    purl_of(a.ecosystem, a.coordinate(), lowercase(a.coordinate()), a.version, os, release)
}

/// The package URL of an asset, given the release file of the system where it could
/// be read.
pub fn build_purl(a: &Asset, os: &OsType, release: Option<&str>) -> (r: Option<String>)
    ensures
        opt_view(r) == asset_purl(a.deep_view(), os.deep_view(), opt_str_view(release)),
{
    let name = a.coordinate_name();
    let lower = to_lowercase(name.as_str());
    purl_for(a.ecosystem, name.as_str(), lower.as_str(), a.version.as_str(), os, release)
}

/// The query for an asset: its CPE, or else its package URL.
pub open spec fn asset_query(a: AssetView, os: OsTypeView, release: Option<Seq<char>>) -> Option<
    MatchQueryView,
> {
    match a.cpe {
        Some(c) => Some(MatchQueryView::Cpe(c)),
        None => match asset_purl(a, os, release) {
            Some(p) => Some(MatchQueryView::Purl(p)),
            None => None,
        },
    }
}

/// The query for an asset: its CPE, or else its package URL; none where it has
/// neither, so that it is searched for by name.
pub fn to_match_query(a: &Asset, os: &OsType, release: Option<&str>) -> (r: Option<MatchQuery>)
    ensures
        match r {
            Some(q) => asset_query(a.deep_view(), os.deep_view(), opt_str_view(release)) == Some(
                q.deep_view(),
            ),
            None => asset_query(a.deep_view(), os.deep_view(), opt_str_view(release)) is None,
        },
{
    match &a.cpe {
        Some(c) => Some(MatchQuery::cpe(c.as_str())),
        None => match build_purl(a, os, release) {
            Some(p) => Some(MatchQuery::purl(p.as_str())),
            None => None,
        },
    }
}

// ── What a package URL tells ─────────────────────────────────────────────────

/// What stands before the name in a package URL.
spec fn purl_head(eco: Ecosystem, os: OsTypeView) -> Seq<char> {
    match eco {
        Ecosystem::Deb => "pkg:deb/"@ + deb_vendor(os) + "/"@,
        Ecosystem::Rpm => "pkg:rpm/"@ + rpm_vendor(os) + "/"@,
        Ecosystem::Alpine => "pkg:apk/alpine/"@,
        Ecosystem::Arch => "pkg:pacman/arch/"@,
        Ecosystem::Homebrew => "pkg:brew/"@,
        Ecosystem::Npm => "pkg:npm/"@,
        Ecosystem::PyPI => "pkg:pypi/"@,
        Ecosystem::NuGet => "pkg:nuget/"@,
        _ => Seq::empty(),
    }
}

/// What stands behind the version in a package URL.
spec fn purl_qualifier(eco: Ecosystem, release: Option<Seq<char>>) -> Seq<char> {
    match eco {
        Ecosystem::Deb => deb_qualifier(release),
        Ecosystem::Rpm => rpm_qualifier(release),
        Ecosystem::Alpine => apk_qualifier(release),
        _ => Seq::empty(),
    }
}

/// The name as a package URL has it: in small letters where the case of a name does not
/// matter, with one joiner where the kind of joiner does not.
pub open spec fn purl_name(eco: Ecosystem, name: Seq<char>, lower: Seq<char>) -> Seq<char> {
    match eco {
        Ecosystem::Deb | Ecosystem::Alpine | Ecosystem::Arch => lower,
        Ecosystem::PyPI => with_chars_replaced(lower, CharSet::Either('_', '.'), '-'),
        _ => name,
    }
}

spec fn without_mark(s: Seq<char>) -> bool {
    forall|i: int| 0 <= i < s.len() ==> #[trigger] s[i] != '@'
}

proof fn lemma_head_without_mark(eco: Ecosystem, os: OsTypeView)
    ensures
        without_mark(purl_head(eco, os)),
{
    reveal_strlit("pkg:deb/");
    reveal_strlit("pkg:rpm/");
    reveal_strlit("pkg:apk/alpine/");
    reveal_strlit("pkg:pacman/arch/");
    reveal_strlit("pkg:brew/");
    reveal_strlit("pkg:npm/");
    reveal_strlit("pkg:pypi/");
    reveal_strlit("pkg:nuget/");
    reveal_strlit("/");
    reveal_strlit("ubuntu");
    reveal_strlit("kali");
    reveal_strlit("debian");
    reveal_strlit("fedora");
    reveal_strlit("opensuse");
    reveal_strlit("centos");
    reveal_strlit("redhat");
}

proof fn lemma_mark_cuts(a: Seq<char>, t: Seq<char>, b: Seq<char>, u: Seq<char>)
    requires
        without_mark(a),
        without_mark(b),
        a + seq!['@'] + t == b + seq!['@'] + u,
    ensures
        a == b,
        t == u,
{
    let s = a + seq!['@'] + t;
    let r = b + seq!['@'] + u;
    assert(s[a.len() as int] == '@');
    assert(r[b.len() as int] == '@');
    if a.len() < b.len() {
        assert(r[a.len() as int] == b[a.len() as int]);
    } else if b.len() < a.len() {
        assert(s[b.len() as int] == a[b.len() as int]);
    }
    assert(s.take(a.len() as int) =~= a);
    assert(r.take(b.len() as int) =~= b);
    assert(s.skip(a.len() as int + 1) =~= t);
    assert(r.skip(b.len() as int + 1) =~= u);
}

proof fn lemma_purl_parts(
    eco: Ecosystem,
    name: Seq<char>,
    lower: Seq<char>,
    version: Seq<char>,
    os: OsTypeView,
    release: Option<Seq<char>>,
)
    requires
        purl_of(eco, name, lower, version, os, release) is Some,
    ensures
        purl_of(eco, name, lower, version, os, release)->0 == purl_head(eco, os) + encoded(
            purl_name(eco, name, lower),
        ) + seq!['@'] + (encoded(version) + purl_qualifier(eco, release)),
        without_mark(purl_head(eco, os) + encoded(purl_name(eco, name, lower))),
{
    reveal_strlit("@");
    assert("@"@ =~= seq!['@']);
    let head = purl_head(eco, os);
    let x = purl_name(eco, name, lower);
    assert(purl_of(eco, name, lower, version, os, release)->0 =~= head + encoded(x) + seq!['@'] + (
    encoded(version) + purl_qualifier(eco, release)));
    lemma_head_without_mark(eco, os);
    let a = head + encoded(x);
    assert forall|i: int| 0 <= i < a.len() implies #[trigger] a[i] != '@' by {
        if i < head.len() {
            assert(a[i] == head[i]);
        } else {
            encoded_has_no_reserved(x, i - head.len());
        }
    }
}

/// A package URL is an exact coordinate: on one system, the packages of an ecosystem
/// that have one package URL have one name, as package URLs have it, and one version,
/// with every epoch and revision in it.
pub proof fn a_purl_tells_name_and_version(
    eco: Ecosystem,
    a: (Seq<char>, Seq<char>, Seq<char>),
    b: (Seq<char>, Seq<char>, Seq<char>),
    os: OsTypeView,
    release: Option<Seq<char>>,
)
    requires
        purl_of(eco, a.0, a.1, a.2, os, release) is Some,
        purl_of(eco, a.0, a.1, a.2, os, release) == purl_of(eco, b.0, b.1, b.2, os, release),
    ensures
        purl_name(eco, a.0, a.1) == purl_name(eco, b.0, b.1),
        a.2 == b.2,
{
    let head = purl_head(eco, os);
    let q = purl_qualifier(eco, release);
    let x = purl_name(eco, a.0, a.1);
    let y = purl_name(eco, b.0, b.1);
    lemma_purl_parts(eco, a.0, a.1, a.2, os, release);
    lemma_purl_parts(eco, b.0, b.1, b.2, os, release);
    lemma_mark_cuts(head + encoded(x), encoded(a.2) + q, head + encoded(y), encoded(b.2) + q);
    assert((head + encoded(x)).skip(head.len() as int) =~= encoded(x));
    assert((head + encoded(y)).skip(head.len() as int) =~= encoded(y));
    encoding_is_reversible(x, y);
    let n = encoded(a.2).len();
    assert((encoded(a.2) + q).take(n as int) =~= encoded(a.2));
    assert((encoded(b.2) + q).take(n as int) =~= encoded(b.2));
    encoding_is_reversible(a.2, b.2);
}

} // verus!
