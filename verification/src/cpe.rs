//! CPE names for Windows and for the applications on it.

use vstd::prelude::*;

use crate::host::{windows_version, WinOs, WinOsView};
use crate::split::{join_first, joined, pieces, split, split_whitespace, words};
use crate::text::{
    alphanumeric, char_is_alphanumeric, char_is_digit, char_is_letter, char_is_space, chars_before, chars_of, concat2,
    concat3, concat4, concat5, has_prefix, is_digit, is_letter, is_space, lowercase, own, same, starts_with,
    to_lowercase, trim, trim_matches, trimmed, trimmed_of, views, CharSet,
};

verus! {

// ── Escaping ─────────────────────────────────────────────────────────────────

/// Whether a character stands for itself in a CPE.
pub open spec fn is_plain(c: char) -> bool {
    is_letter(c) || is_digit(c) || c == '_' || c == '-' || c == '.'
}

pub open spec fn escaped_char(c: char) -> Seq<char> {
    if c == ' ' {
        seq!['_']
    } else if is_plain(c) {
        seq![c]
    } else {
        seq!['\\', c]
    }
}

/// A value as a CPE writes it: blanks become underscores, and what is not plain
/// stands behind a backslash.
pub open spec fn escaped(s: Seq<char>) -> Seq<char>
    decreases s.len(),
{
    if s.len() == 0 {
        s
    } else {
        escaped(s.drop_last()) + escaped_char(s.last())
    }
}

/// A value as a CPE writes it.
pub fn escape_cpe(value: &str) -> (r: String)
    ensures
        r@ == escaped(value@),
{
    let v = chars_of(value);
    let mut out = String::new();
    let mut i: usize = 0;
    assert(out@ =~= escaped(v@.take(0)));
    while i < v.len()
        invariant
            i <= v@.len(),
            out@ == escaped(v@.take(i as int)),
        decreases v@.len() - i,
    {
        let ghost before = out@;
        proof {
            assert(v@.take(i + 1).drop_last() =~= v@.take(i as int));
            assert(v@.take(i + 1).last() == v@[i as int]);
        }
        let c = v[i];
        if c == ' ' {
            out.push('_');
        } else if char_is_letter(c) || char_is_digit(c) || c == '_' || c == '-' || c == '.' {
            out.push(c);
        } else {
            out.push('\\');
            out.push(c);
        }
        assert(out@ =~= before + escaped_char(c));
        i += 1;
    }
    assert(v@.take(v@.len() as int) =~= v@);
    out
}

/// In an escaped value every character is plain, or is a backslash, or stands
/// behind one: nothing in it can be taken for a wildcard or for a separator.
pub proof fn escaped_has_no_bare_special(s: Seq<char>, i: int)
    requires
        0 <= i < escaped(s).len(),
    ensures
        ({
            let e = escaped(s);
            is_plain(e[i]) || e[i] == '\\' || (i > 0 && e[i - 1] == '\\')
        }),
    decreases s.len(),
{
    let before = escaped(s.drop_last());
    if i < before.len() {
        escaped_has_no_bare_special(s.drop_last(), i);
    }
}

// ── Applications ─────────────────────────────────────────────────────────────

/// A product that is known by the first words of its display name.
#[derive(Debug, Clone, Copy)]
pub struct Alias {
    pub key: &'static str,
    pub vendor: &'static str,
    pub product: &'static str,
}

/// The first words of a display name, the vendor and the product.
pub type AliasView = (Seq<char>, Seq<char>, Seq<char>);

pub open spec fn alias_views(v: Seq<Alias>) -> Seq<AliasView> {
    Seq::new(v.len(), |i: int| (v[i].key@, v[i].vendor@, v[i].product@))
}

/// The products whose vendors and names are known.
#[verifier::opaque]
pub open spec fn known_products() -> Seq<AliasView> {
    seq![
        ("google chrome"@, "google"@, "chrome"@),
        ("mozilla firefox esr"@, "mozilla"@, "firefox_esr"@),
        ("mozilla firefox"@, "mozilla"@, "firefox"@),
        ("mozilla thunderbird"@, "mozilla"@, "thunderbird"@),
        ("microsoft edge"@, "microsoft"@, "edge_chromium"@),
        ("microsoft visual studio code"@, "microsoft"@, "visual_studio_code"@),
        ("visual studio code"@, "microsoft"@, "visual_studio_code"@),
        ("microsoft office"@, "microsoft"@, "office"@),
        ("microsoft teams"@, "microsoft"@, "teams"@),
        ("notepad++"@, "notepad-plus-plus"@, "notepad++"@),
        ("7-zip"@, "7-zip"@, "7-zip"@),
        ("winrar"@, "rarlab"@, "winrar"@),
        ("adobe acrobat reader"@, "adobe"@, "acrobat_reader_dc"@),
        ("adobe acrobat"@, "adobe"@, "acrobat_dc"@),
        ("oracle vm virtualbox"@, "oracle"@, "vm_virtualbox"@),
        ("virtualbox"@, "oracle"@, "vm_virtualbox"@),
        ("java"@, "oracle"@, "java_se"@),
        ("python"@, "python"@, "python"@),
        ("node.js"@, "nodejs"@, "node.js"@),
        ("nodejs"@, "nodejs"@, "node.js"@),
        ("git"@, "git-scm"@, "git"@),
        ("vlc media player"@, "videolan"@, "vlc_media_player"@),
        ("vlc"@, "videolan"@, "vlc_media_player"@),
        ("wireshark"@, "wireshark"@, "wireshark"@),
        ("openssl"@, "openssl"@, "openssl"@),
        ("openvpn"@, "openvpn"@, "openvpn"@),
        ("putty"@, "putty"@, "putty"@),
        ("filezilla"@, "filezilla-project"@, "filezilla_client"@),
        ("apache tomcat"@, "apache"@, "tomcat"@),
        ("nginx"@, "nginx"@, "nginx"@),
        ("zoom"@, "zoom"@, "meetings"@),
        ("docker desktop"@, "docker"@, "desktop"@),
        ("curl"@, "curl"@, "curl"@),
        ("gimp"@, "gimp"@, "gimp"@),
        ("audacity"@, "audacityteam"@, "audacity"@),
        ("postgresql"@, "postgresql"@, "postgresql"@),
        ("mysql"@, "oracle"@, "mysql"@),
        ("mariadb"@, "mariadb"@, "mariadb"@),
        ("php"@, "php"@, "php"@),
        ("teamviewer"@, "teamviewer"@, "teamviewer"@),
        ("foxit reader"@, "foxit"@, "reader"@),
        ("foxit pdf reader"@, "foxit"@, "pdf_reader"@),
        ("greenshot"@, "greenshot"@, "greenshot"@),
    ]
}

#[verifier::rlimit(60)]
fn aliases() -> (r: Vec<Alias>)
    ensures
        alias_views(r@) == known_products(),
{
    let r = vec![
        Alias { key: "google chrome", vendor: "google", product: "chrome" },
        Alias { key: "mozilla firefox esr", vendor: "mozilla", product: "firefox_esr" },
        Alias { key: "mozilla firefox", vendor: "mozilla", product: "firefox" },
        Alias { key: "mozilla thunderbird", vendor: "mozilla", product: "thunderbird" },
        Alias { key: "microsoft edge", vendor: "microsoft", product: "edge_chromium" },
        Alias { key: "microsoft visual studio code", vendor: "microsoft", product: "visual_studio_code" },
        Alias { key: "visual studio code", vendor: "microsoft", product: "visual_studio_code" },
        Alias { key: "microsoft office", vendor: "microsoft", product: "office" },
        Alias { key: "microsoft teams", vendor: "microsoft", product: "teams" },
        Alias { key: "notepad++", vendor: "notepad-plus-plus", product: "notepad++" },
        Alias { key: "7-zip", vendor: "7-zip", product: "7-zip" },
        Alias { key: "winrar", vendor: "rarlab", product: "winrar" },
        Alias { key: "adobe acrobat reader", vendor: "adobe", product: "acrobat_reader_dc" },
        Alias { key: "adobe acrobat", vendor: "adobe", product: "acrobat_dc" },
        Alias { key: "oracle vm virtualbox", vendor: "oracle", product: "vm_virtualbox" },
        Alias { key: "virtualbox", vendor: "oracle", product: "vm_virtualbox" },
        Alias { key: "java", vendor: "oracle", product: "java_se" },
        Alias { key: "python", vendor: "python", product: "python" },
        Alias { key: "node.js", vendor: "nodejs", product: "node.js" },
        Alias { key: "nodejs", vendor: "nodejs", product: "node.js" },
        Alias { key: "git", vendor: "git-scm", product: "git" },
        Alias { key: "vlc media player", vendor: "videolan", product: "vlc_media_player" },
        Alias { key: "vlc", vendor: "videolan", product: "vlc_media_player" },
        Alias { key: "wireshark", vendor: "wireshark", product: "wireshark" },
        Alias { key: "openssl", vendor: "openssl", product: "openssl" },
        Alias { key: "openvpn", vendor: "openvpn", product: "openvpn" },
        Alias { key: "putty", vendor: "putty", product: "putty" },
        Alias { key: "filezilla", vendor: "filezilla-project", product: "filezilla_client" },
        Alias { key: "apache tomcat", vendor: "apache", product: "tomcat" },
        Alias { key: "nginx", vendor: "nginx", product: "nginx" },
        Alias { key: "zoom", vendor: "zoom", product: "meetings" },
        Alias { key: "docker desktop", vendor: "docker", product: "desktop" },
        Alias { key: "curl", vendor: "curl", product: "curl" },
        Alias { key: "gimp", vendor: "gimp", product: "gimp" },
        Alias { key: "audacity", vendor: "audacityteam", product: "audacity" },
        Alias { key: "postgresql", vendor: "postgresql", product: "postgresql" },
        Alias { key: "mysql", vendor: "oracle", product: "mysql" },
        Alias { key: "mariadb", vendor: "mariadb", product: "mariadb" },
        Alias { key: "php", vendor: "php", product: "php" },
        Alias { key: "teamviewer", vendor: "teamviewer", product: "teamviewer" },
        Alias { key: "foxit reader", vendor: "foxit", product: "reader" },
        Alias { key: "foxit pdf reader", vendor: "foxit", product: "pdf_reader" },
        Alias { key: "greenshot", vendor: "greenshot", product: "greenshot" },
    ];
    proof {
        reveal(known_products);
        assert(alias_views(r@) =~= known_products());
    }
    r
}

/// Whether the name begins with the key, and the key ends where a word of the name
/// does.
pub open spec fn begins_with_words(name: Seq<char>, key: Seq<char>) -> bool {
    has_prefix(name, key) && (name.len() == key.len() || !alphanumeric(name[key.len() as int]))
}

/// Whether the name begins with the key, and the key ends where a word of the name
/// does.
pub fn prefix_word_match(name: &str, key: &str) -> (r: bool)
    ensures
        r == begins_with_words(name@, key@),
{
    if !starts_with(name, key) {
        return false;
    }
    let n = chars_of(name);
    let k = chars_of(key);
    if n.len() == k.len() {
        return true;
    }
    !char_is_alphanumeric(n[k.len()])
}

/// The product with the longest key that the name begins with; the first of those
/// with equally long keys.
pub open spec fn best_alias(all: Seq<AliasView>, name: Seq<char>) -> Option<AliasView>
    decreases all.len(),
{
    if all.len() == 0 {
        None
    } else {
        let before = best_alias(all.drop_last(), name);
        if begins_with_words(name, all.last().0) && match before {
            Some(b) => all.last().0.len() > b.0.len(),
            None => true,
        } {
            Some(all.last())
        } else {
            before
        }
    }
}

/// The vendor and the product behind a name in lower case.
pub open spec fn product_behind(name: Seq<char>) -> Option<(Seq<char>, Seq<char>)> {
    if name.len() == 0 {
        None
    } else {
        match best_alias(known_products(), name) {
            Some(a) => Some((a.1, a.2)),
            None => None,
        }
    }
}

pub open spec fn opt_strs(p: Option<(&str, &str)>) -> Option<(Seq<char>, Seq<char>)> {
    match p {
        Some((a, b)) => Some((a@, b@)),
        None => None,
    }
}

/// The vendor and the product behind a name in lower case.
pub fn alias_for(name: &str) -> (r: Option<(&'static str, &'static str)>)
    ensures
        opt_strs(r) == product_behind(name@),
{
    if name.is_empty() {
        return None;
    }
    let all = aliases();
    let ghost q = alias_views(all@);
    let mut best: Option<Alias> = None;
    let mut i: usize = 0;
    assert(best_alias(q.take(0), name@) is None);
    while i < all.len()
        invariant
            i <= all@.len(),
            q == alias_views(all@),
            best_alias(q.take(i as int), name@) == (match best {
                Some(b) => Some((b.key@, b.vendor@, b.product@)),
                None => None,
            }),
        decreases all@.len() - i,
    {
        proof {
            assert(q.take(i + 1).drop_last() =~= q.take(i as int));
            assert(q.take(i + 1).last() == q[i as int]);
        }
        let a = all[i];
        if prefix_word_match(name, a.key) {
            let longer = match best {
                Some(b) => a.key.unicode_len() > b.key.unicode_len(),
                None => true,
            };
            if longer {
                best = Some(a);
            }
        }
        i += 1;
    }
    assert(q.take(q.len() as int) =~= q);
    match best {
        Some(b) => Some((b.vendor, b.product)),
        None => None,
    }
}

/// The vendor and the product behind a display name, in whatever case it is
/// written.
pub fn lookup_alias(clean_name: &str) -> (r: Option<(&'static str, &'static str)>)
    ensures
        opt_strs(r) == product_behind(lowercase(trimmed(clean_name@))),
{
    let t = trim(clean_name);
    let name = to_lowercase(t.as_str());
    alias_for(name.as_str())
}

proof fn lemma_best_alias(all: Seq<AliasView>, name: Seq<char>, i: int)
    requires
        0 <= i < all.len(),
        begins_with_words(name, all[i].0),
    ensures
        best_alias(all, name) matches Some(b) && begins_with_words(name, b.0) && all[i].0.len()
            <= b.0.len(),
    decreases all.len(),
{
    let d = all.drop_last();
    if i < d.len() {
        assert(d[i] == all[i]);
        lemma_best_alias(d, name, i);
    } else if best_alias(d, name) is Some {
        lemma_best_member(d, name);
    }
}

proof fn lemma_best_member(all: Seq<AliasView>, name: Seq<char>)
    requires
        best_alias(all, name) is Some,
    ensures
        all.contains(best_alias(all, name)->0),
        begins_with_words(name, (best_alias(all, name)->0).0),
    decreases all.len(),
{
    let d = all.drop_last();
    let b = best_alias(all, name)->0;
    if best_alias(d, name) == Some(b) {
        lemma_best_member(d, name);
        let k = choose|k: int| 0 <= k < d.len() && d[k] == b;
        assert(all[k] == b);
    } else {
        assert(all[all.len() - 1] == b);
    }
}

/// Among the known products whose keys a name begins with, the one with the longest
/// key is taken; a name that begins with none of the keys is not mapped.
pub proof fn longest_key_decides(name: Seq<char>)
    requires
        name.len() > 0,
    ensures
        match product_behind(name) {
            Some((vendor, product)) => exists|i: int|
                0 <= i < known_products().len() && begins_with_words(
                    name,
                    (#[trigger] known_products()[i]).0,
                ) && known_products()[i].1 == vendor && known_products()[i].2 == product && forall|
                    j: int,
                |
                    0 <= j < known_products().len() && begins_with_words(
                        name,
                        (#[trigger] known_products()[j]).0,
                    ) ==> known_products()[j].0.len() <= known_products()[i].0.len(),
            None => forall|j: int|
                0 <= j < known_products().len() ==> !begins_with_words(
                    name,
                    (#[trigger] known_products()[j]).0,
                ),
        },
{
    let all = known_products();
    assert forall|j: int|
        0 <= j < all.len() && begins_with_words(name, (#[trigger] all[j]).0) implies best_alias(
        all,
        name,
    ) is Some && all[j].0.len() <= (best_alias(all, name)->0).0.len() by {
        lemma_best_alias(all, name, j);
    }
    if best_alias(all, name) is Some {
        lemma_best_member(all, name);
        let i = choose|i: int| 0 <= i < all.len() && all[i] == best_alias(all, name)->0;
        assert(begins_with_words(name, all[i].0));
    }
}

/// The CPE of an application, given the vendor, the product and the version as they
/// are written in it.
pub open spec fn app_cpe(vendor: Seq<char>, product: Seq<char>, version: Seq<char>) -> Seq<char> {
    "cpe:2.3:a:"@ + escaped(vendor) + ":"@ + escaped(product) + ":"@ + version
        + ":*:*:*:*:*:*:*"@
}

/// A version in a CPE; any version where none is known.
pub open spec fn cpe_version(version: Seq<char>) -> Seq<char> {
    if trimmed(version).len() == 0 {
        "*"@
    } else {
        escaped(lowercase(version))
    }
}

/// The CPE of an application whose vendor and product are given.
pub fn cpe_of_product(vendor: &str, product: &str, version: &str) -> (r: String)
    ensures
        r@ == app_cpe(vendor@, product@, cpe_version(version@)),
{
    let v = escape_cpe(vendor);
    let p = escape_cpe(product);
    let t = trim(version);
    let ver = if t.as_str().is_empty() {
        own("*")
    } else {
        let lower = to_lowercase(version);
        escape_cpe(lower.as_str())
    };
    let head = concat5("cpe:2.3:a:", v.as_str(), ":", p.as_str(), ":");
    concat3(head.as_str(), ver.as_str(), ":*:*:*:*:*:*:*")
}

/// The CPE of an application, where its display name is known. No CPE is guessed.
pub fn cpe_for_app(clean_name: &str, version: &str) -> (r: Option<String>)
    ensures
        match product_behind(lowercase(trimmed(clean_name@))) {
            Some((vendor, product)) => r matches Some(c) && c@ == app_cpe(
                vendor,
                product,
                cpe_version(version@),
            ),
            None => r is None,
        },
{
    match lookup_alias(clean_name) {
        Some((vendor, product)) => Some(cpe_of_product(vendor, product, version)),
        None => None,
    }
}

// ── The operating system ─────────────────────────────────────────────────────

/// The CPE of an installation of Windows.
pub open spec fn os_cpe(w: WinOsView) -> Seq<char> {
    let product = if w.product.len() > 0 {
        w.product
    } else if w.is_server {
        "windows_server"@
    } else {
        "windows"@
    };
    let hw = if w.arch.len() == 0 {
        "*"@
    } else {
        w.arch
    };
    "cpe:2.3:o:microsoft:"@ + escaped(product) + ":"@ + escaped(windows_version(w.build, w.ubr))
        + ":*:*:*:*:*:"@ + escaped(hw) + ":*"@
}

/// The CPE of an installation of Windows.
pub fn cpe_for_os(w: &WinOs) -> (r: String)
    ensures
        r@ == os_cpe(w.deep_view()),
{
    let product = if !w.product.as_str().is_empty() {
        escape_cpe(w.product.as_str())
    } else if w.is_server {
        escape_cpe("windows_server")
    } else {
        escape_cpe("windows")
    };
    let version = w.version_string();
    let version = escape_cpe(version.as_str());
    let hw = if w.arch.as_str().is_empty() {
        escape_cpe("*")
    } else {
        escape_cpe(w.arch.as_str())
    };
    let head = concat4("cpe:2.3:o:microsoft:", product.as_str(), ":", version.as_str());
    concat4(head.as_str(), ":*:*:*:*:*:", hw.as_str(), ":*")
}

/// The feature update of a build.
pub open spec fn feature_of(build: u32) -> Seq<char> {
    if build == 26100 {
        "24h2"@
    } else if build == 22631 {
        "23h2"@
    } else if build == 22621 {
        "22h2"@
    } else if build == 22000 {
        "21h2"@
    } else if build == 19045 {
        "22h2"@
    } else if build == 19044 {
        "21h2"@
    } else if build == 19043 {
        "21h1"@
    } else if build == 19042 {
        "20h2"@
    } else if build == 19041 {
        "2004"@
    } else if build == 18363 {
        "1909"@
    } else if build == 18362 {
        "1903"@
    } else if build == 17763 {
        "1809"@
    } else if build == 17134 {
        "1803"@
    } else if build == 16299 {
        "1709"@
    } else if build == 15063 {
        "1703"@
    } else if build == 14393 {
        "1607"@
    } else if build == 10240 {
        "1507"@
    } else {
        ""@
    }
}

/// The feature update of a build; nothing where it is not known.
pub fn build_to_feature(build: u32) -> (r: &'static str)
    ensures
        r@ == feature_of(build),
{
    match build {
        26100 => "24h2",
        22631 => "23h2",
        22621 => "22h2",
        22000 => "21h2",
        19045 => "22h2",
        19044 => "21h2",
        19043 => "21h1",
        19042 => "20h2",
        19041 => "2004",
        18363 => "1909",
        18362 => "1903",
        17763 => "1809",
        17134 => "1803",
        16299 => "1709",
        15063 => "1703",
        14393 => "1607",
        10240 => "1507",
        _ => "",
    }
}

/// The product of a server, by its build.
pub open spec fn server_product(build: u32) -> Seq<char> {
    if build >= 26100 {
        "windows_server_2025"@
    } else if build == 25398 {
        "windows_server_2022_23h2"@
    } else if build >= 20348 {
        "windows_server_2022"@
    } else if build >= 17763 {
        "windows_server_2019"@
    } else if build >= 14393 {
        "windows_server_2016"@
    } else if build >= 9600 {
        "windows_server_2012"@
    } else {
        "windows_server"@
    }
}

/// The product of an installation of Windows, as CPEs name it.
pub open spec fn windows_product(build: u32, is_server: bool, feature: Seq<char>) -> Seq<char> {
    if is_server {
        server_product(build)
    } else {
        let major = if build >= 22000 {
            "11"@
        } else {
            "10"@
        };
        let suffix = if trimmed(feature).len() > 0 {
            lowercase(trimmed(feature))
        } else {
            feature_of(build)
        };
        if suffix.len() == 0 {
            "windows_"@ + major
        } else {
            "windows_"@ + major + "_"@ + suffix
        }
    }
}

/// The product of an installation of Windows: by the build for a server, else with
/// the feature update, as reported or by the build.
pub fn win_os_product(build: u32, is_server: bool, feature: &str) -> (r: String)
    ensures
        r@ == windows_product(build, is_server, feature@),
{
    if is_server {
        let token = if build >= 26100 {
            "windows_server_2025"
        } else if build == 25398 {
            "windows_server_2022_23h2"
        } else if build >= 20348 {
            "windows_server_2022"
        } else if build >= 17763 {
            "windows_server_2019"
        } else if build >= 14393 {
            "windows_server_2016"
        } else if build >= 9600 {
            "windows_server_2012"
        } else {
            "windows_server"
        };
        return own(token);
    }
    let major = if build >= 22000 {
        "11"
    } else {
        "10"
    };
    let t = trim(feature);
    let suffix = if !t.as_str().is_empty() {
        to_lowercase(t.as_str())
    } else {
        own(build_to_feature(build))
    };
    if suffix.as_str().is_empty() {
        concat2("windows_", major)
    } else {
        concat4("windows_", major, "_", suffix.as_str())
    }
}

// ── Display names ────────────────────────────────────────────────────────────

pub open spec fn all_letters(s: Seq<char>) -> bool {
    forall|i: int| 0 <= i < s.len() ==> is_letter(#[trigger] s[i])
}

/// Whether a text is a language, alone or with a region.
pub open spec fn is_locale_text(s: Seq<char>) -> bool {
    let p = pieces(s, CharSet::Is('-'));
    ||| p.len() == 1 && p[0].len() == 2 && all_letters(p[0])
    ||| p.len() == 2 && p[0].len() == 2 && p[1].len() == 2 && all_letters(p[0]) && all_letters(p[1])
}

fn two_letters(s: &str) -> (r: bool)
    ensures
        r == (s@.len() == 2 && all_letters(s@)),
{
    let v = chars_of(s);
    v.len() == 2 && char_is_letter(v[0]) && char_is_letter(v[1])
}

/// Whether a text is a language, alone or with a region.
pub fn is_locale(s: &str) -> (r: bool)
    ensures
        r == is_locale_text(s@),
{
    let p = split(s, CharSet::Is('-'));
    let ghost q = views(p@);
    if p.len() == 1 {
        assert(q[0] == p@[0]@);
        two_letters(p[0].as_str())
    } else if p.len() == 2 {
        assert(q[0] == p@[0]@ && q[1] == p@[1]@);
        two_letters(p[0].as_str()) && two_letters(p[1].as_str())
    } else {
        false
    }
}

/// Whether a text is a number with dots, hyphens and underscores.
pub open spec fn is_version_text(t: Seq<char>) -> bool {
    t.len() > 0 && is_digit(t[0]) && forall|i: int|
        0 <= i < t.len() ==> is_digit(#[trigger] t[i]) || t[i] == '.' || t[i] == '-' || t[i] == '_'
}

fn looks_like_version(t: &str) -> (r: bool)
    ensures
        r == is_version_text(t@),
{
    let v = chars_of(t);
    if v.len() == 0 || !char_is_digit(v[0]) {
        return false;
    }
    let mut i: usize = 0;
    while i < v.len()
        invariant
            i <= v@.len(),
            v@ == t@,
            forall|k: int|
                0 <= k < i ==> is_digit(#[trigger] v@[k]) || v@[k] == '.' || v@[k] == '-' || v@[k]
                    == '_',
        decreases v@.len() - i,
    {
        let c = v[i];
        if !(char_is_digit(c) || c == '.' || c == '-' || c == '_') {
            assert(!is_digit(t@[i as int]));
            return false;
        }
        i += 1;
    }
    true
}

/// Whether a word in lower case says nothing of the product.
pub open spec fn is_noise_word(lower: Seq<char>) -> bool {
    ||| lower == "x64"@
    ||| lower == "x86"@
    ||| lower == "x86_64"@
    ||| lower == "amd64"@
    ||| lower == "arm64"@
    ||| lower == "aarch64"@
    ||| lower == "32-bit"@
    ||| lower == "64-bit"@
    ||| lower == "win32"@
    ||| lower == "win64"@
    ||| lower == "edition"@
    ||| lower == "version"@
    ||| lower == "setup"@
    ||| lower == "installer"@
    ||| lower == "update"@
    ||| lower == "lts"@
    ||| lower == "stable"@
    ||| is_locale_text(lower)
}

fn noise_word(lower: &str) -> (r: bool)
    ensures
        r == is_noise_word(lower@),
{
    same(lower, "x64") || same(lower, "x86") || same(lower, "x86_64") || same(lower, "amd64")
        || same(lower, "arm64") || same(lower, "aarch64") || same(lower, "32-bit") || same(
        lower,
        "64-bit",
    ) || same(lower, "win32") || same(lower, "win64") || same(lower, "edition") || same(
        lower,
        "version",
    ) || same(lower, "setup") || same(lower, "installer") || same(lower, "update") || same(
        lower,
        "lts",
    ) || same(lower, "stable") || is_locale(lower)
}

/// Whether a word that was trimmed says nothing of the product, given the word in
/// lower case.
pub open spec fn is_noise_of(t: Seq<char>, lower: Seq<char>) -> bool {
    ||| t.len() == 0
    ||| is_version_text(t)
    ||| lower.len() >= 2 && lower[0] == 'v' && is_digit(lower[1])
    ||| is_noise_word(lower)
}

/// Whether a word that was trimmed says nothing of the product, given the word in
/// lower case.
pub fn noise_of(t: &str, lower: &str) -> (r: bool)
    ensures
        r == is_noise_of(t@, lower@),
{
    if t.is_empty() || looks_like_version(t) {
        return true;
    }
    let v = chars_of(lower);
    if v.len() >= 2 && v[0] == 'v' && char_is_digit(v[1]) {
        return true;
    }
    noise_word(lower)
}

/// Whether a word at the end of a display name says nothing of the product.
pub open spec fn is_noise(tok: Seq<char>) -> bool {
    let t = trimmed_of(tok, CharSet::NotAlphanumeric);
    is_noise_of(t, lowercase(t))
}

/// Whether a word at the end of a display name says nothing of the product: a
/// version, an architecture, a language, or a word such as `setup`.
pub fn is_trailing_noise(tok: &str) -> (r: bool)
    ensures
        r == is_noise(tok@),
{
    let t = trim_matches(tok, CharSet::NotAlphanumeric);
    let lower = to_lowercase(t.as_str());
    noise_of(t.as_str(), lower.as_str())
}

/// The words without those at the end that say nothing of the product.
pub open spec fn without_noise(w: Seq<Seq<char>>) -> Seq<Seq<char>>
    decreases w.len(),
{
    if w.len() > 0 && is_noise(w.last()) {
        without_noise(w.drop_last())
    } else {
        w
    }
}

/// How many brackets are open behind a text.
pub open spec fn open_brackets(s: Seq<char>) -> nat
    decreases s.len(),
{
    if s.len() == 0 {
        0
    } else {
        let before = open_brackets(s.drop_last());
        if s.last() == '(' {
            before + 1
        } else if s.last() == ')' && before > 0 {
            (before - 1) as nat
        } else {
            before
        }
    }
}

/// Whether nothing but white space stands outside the brackets of a text. A bracket that
/// is not closed goes to the end.
pub open spec fn is_bracketed(s: Seq<char>) -> bool {
    forall|k: int|
        0 <= k < s.len() && open_brackets(#[trigger] s.take(k)) == 0 ==> s[k] == '(' || is_space(
            s[k],
        )
}

/// Where the bracketed suffix of a text begins, from the place `i` on: at the first
/// bracket behind which everything stands in brackets.
pub open spec fn suffix_from(s: Seq<char>, i: int) -> Option<int>
    decreases s.len() - i,
{
    if i < 0 || i >= s.len() {
        None
    } else if s[i] == '(' && is_bracketed(s.skip(i)) {
        Some(i)
    } else {
        suffix_from(s, i + 1)
    }
}

/// A display name without what stands in brackets at its end.
pub open spec fn before_bracket(raw: Seq<char>) -> Seq<char> {
    let s = trimmed(raw);
    match suffix_from(s, 0) {
        Some(i) => trimmed(s.take(i)),
        None => s,
    }
}

fn all_in_brackets(v: &Vec<char>, from: usize) -> (r: bool)
    requires
        from <= v@.len(),
    ensures
        r == is_bracketed(v@.skip(from as int)),
{
    let ghost t = v@.skip(from as int);
    let mut open: usize = 0;
    let mut i: usize = from;
    assert(open_brackets(t.take(0)) == 0);
    while i < v.len()
        invariant
            from <= i <= v@.len(),
            t == v@.skip(from as int),
            open <= i - from,
            open == open_brackets(t.take(i - from)),
            forall|k: int|
                0 <= k < i - from && open_brackets(#[trigger] t.take(k)) == 0 ==> t[k] == '('
                    || is_space(t[k]),
        decreases v@.len() - i,
    {
        let c = v[i];
        proof {
            assert(t[i - from] == c);
            assert(t.take(i - from + 1).drop_last() =~= t.take(i - from));
            assert(t.take(i - from + 1).last() == c);
        }
        if open == 0 && c != '(' && !char_is_space(c) {
            assert(open_brackets(t.take(i - from)) == 0);
            return false;
        }
        if c == '(' {
            open += 1;
        } else if c == ')' && open > 0 {
            open -= 1;
        }
        i += 1;
    }
    true
}

fn find_suffix(v: &Vec<char>) -> (r: Option<usize>)
    ensures
        match r {
            Some(i) => i < v@.len() && suffix_from(v@, 0) == Some(i as int),
            None => suffix_from(v@, 0) is None,
        },
{
    let mut i: usize = 0;
    while i < v.len()
        invariant
            i <= v@.len(),
            suffix_from(v@, 0) == suffix_from(v@, i as int),
        decreases v@.len() - i,
    {
        if v[i] == '(' && all_in_brackets(v, i) {
            return Some(i);
        }
        i += 1;
    }
    None
}

/// The name of a product, from a display name. One of noise alone stays as it is.
pub open spec fn app_name(raw: Seq<char>) -> Seq<char> {
    let w = words(before_bracket(raw));
    let kept = without_noise(w);
    trimmed(joined(if kept.len() == 0 {
        w
    } else {
        kept
    }, " "@))
}

/// The name of a product, from a display name: without what stands in brackets at its
/// end, and without the words at the end that say nothing of the product. The words
/// before them stay, whether they stand in brackets or not.
pub fn clean_app_name(raw: &str) -> (r: String)
    ensures
        r@ == app_name(raw@),
{
    let s = trim(raw);
    let v = chars_of(s.as_str());
    let s = match find_suffix(&v) {
        Some(i) => {
            let head = chars_before(s.as_str(), i);
            trim(head.as_str())
        },
        None => s,
    };
    let tokens = split_whitespace(s.as_str());
    let ghost w = views(tokens@);
    let mut end: usize = tokens.len();
    assert(w.take(w.len() as int) =~= w);
    while end > 0 && is_trailing_noise(tokens[end - 1].as_str())
        invariant
            end <= tokens@.len(),
            w == views(tokens@),
            without_noise(w) == without_noise(w.take(end as int)),
        decreases end,
    {
        assert(w.take(end as int).drop_last() =~= w.take(end - 1));
        assert(w.take(end as int).last() == tokens@[end - 1]@);
        end -= 1;
    }
    proof {
        if end > 0 {
            assert(w.take(end as int).last() == tokens@[end - 1]@);
        }
        assert(without_noise(w) == w.take(end as int));
    }
    let kept: usize = if end == 0 {
        tokens.len()
    } else {
        end
    };
    let name = join_first(&tokens, kept, " ");
    trim(name.as_str())
}

} // verus!
