//! What is read of a Windows host.

use vstd::prelude::*;

use crate::asset::{AssetView, Ecosystem, Source};
use crate::cpe::{app_name, windows_product};
use crate::host::WinOsView;
use crate::list::filtered_items_are_those_that_map;
use crate::net::{reach_of, widest, widest_is_an_upper_bound};
use crate::number::{decimal, digit_value, number, written_number_reads_back};
use crate::split::{
    all_words, cut, cut_last, free_of, is_word, joined, joined_texts_are_the_pieces, joined_texts_are_the_pieces_at,
    joined_words_are_the_words, joined_words_are_trimmed, pieces, text_lines, words,
};
use crate::text::{
    ascii_lower, has_prefix, has_suffix, is_digit, lowercase, occurs, occurs_at, or_empty, place, trimmed,
    trimmed_end, trimmed_of, trimmed_start, uppercase, CharSet,
};
use crate::text_laws::{a_text_is_cut_at_the_mark, trimming_takes_off_what_is_around};
use crate::windows::{
    application, appx_asset, appx_assets, arch_of, build_of, choco_assets, choco_line, display_name_of, dotnet_line,
    entry_asset, entry_assets, is_rule, is_server_of, is_version_char, language_asset, package_of, packages_of,
    payload_of, plain_version, version_run, version_word, windows_asset, NamedVersionView,
};
use crate::windows_services::{
    called, endpoint, endpoint_of, endpoints_of, is_shared_host, known_listeners, netstat_line, netstat_listeners,
    rank_of_lower, service_asset_of, service_assets_of, titled, titled_updates, windows_assets, WinListenerView,
    WinServiceView, WinUpdateView, WuaUpdateView,
};

verus! {

// ── Versions ─────────────────────────────────────────────────────────────────

proof fn lemma_version_run(v: Seq<char>)
    requires
        forall|i: int| 0 <= i < v.len() ==> is_version_char(#[trigger] v[i]),
    ensures
        version_run(v) == v,
    decreases v.len(),
{
    if v.len() > 0 {
        let t = v.skip(1);
        assert forall|i: int| 0 <= i < t.len() implies is_version_char(#[trigger] t[i]) by {
            assert(t[i] == v[i + 1]);
        }
        lemma_version_run(t);
        assert(seq![v[0]] + t =~= v);
    }
}

proof fn lemma_version_is_kept(v: Seq<char>)
    requires
        v.len() > 0,
        is_digit(v[0]),
        forall|i: int| 0 <= i < v.len() ==> is_version_char(#[trigger] v[i]),
        !CharSet::Joiners.has(v[v.len() - 1]),
    ensures
        trimmed_of(version_run(v), CharSet::Joiners) == v,
{
    let none = Seq::<char>::empty();
    lemma_version_run(v);
    trimming_takes_off_what_is_around(none, v, none, CharSet::Joiners);
}

/// A version is the first word of what was told, up to what is no part of a version. Commas between
/// its numbers are points.
pub proof fn a_version_is_the_first_word(w: Seq<Seq<char>>)
    requires
        all_words(w),
        w.len() > 0,
        is_digit(w[0][0]),
    ensures
        (forall|i: int| 0 <= i < w[0].len() ==> is_version_char(#[trigger] w[0][i]))
            && !CharSet::Joiners.has(w[0][w[0].len() - 1]) ==> plain_version(joined(w, seq![' ']))
            == w[0],
        (forall|i: int| 0 <= i < w[0].len() ==> is_digit(#[trigger] w[0][i]) || w[0][i] == ',')
            && is_digit(w[0][w[0].len() - 1]) ==> plain_version(joined(w, seq![' '])) == Seq::new(
            w[0].len(),
            |i: int|
                if w[0][i] == ',' {
                    '.'
                } else {
                    w[0][i]
                },
        ),
{
    let raw = joined(w, seq![' ']);
    let v = w[0];
    joined_words_are_the_words(w);
    assert(is_word(w[0]));
    assert(words(raw)[0] == v);
    if (forall|i: int| 0 <= i < v.len() ==> is_version_char(#[trigger] v[i]))
        && !CharSet::Joiners.has(v[v.len() - 1]) {
        assert(!v.contains(',')) by {
            if v.contains(',') {
                let i = choose|i: int| 0 <= i < v.len() && v[i] == ',';
                assert(is_version_char(v[i]));
            }
        }
        lemma_version_is_kept(v);
    }
    if (forall|i: int| 0 <= i < v.len() ==> is_digit(#[trigger] v[i]) || v[i] == ',') && is_digit(
        v[v.len() - 1],
    ) {
        let p = Seq::new(
            v.len(),
            |i: int|
                if v[i] == ',' {
                    '.'
                } else {
                    v[i]
                },
        );
        assert(!v.contains('.')) by {
            if v.contains('.') {
                let i = choose|i: int| 0 <= i < v.len() && v[i] == '.';
                assert(is_digit(v[i]) || v[i] == ',');
            }
        }
        assert(version_word(raw) =~= p) by {
            if !v.contains(',') {
                assert forall|i: int| 0 <= i < v.len() implies v[i] == p[i] by {}
                assert(v =~= p);
            }
        }
        assert forall|i: int| 0 <= i < p.len() implies is_version_char(#[trigger] p[i]) by {
            assert(is_digit(v[i]) || v[i] == ',');
        }
        lemma_version_is_kept(p);
    }
}

/// A version begins with a digit, or it is what was told without the white space around it.
pub proof fn a_version_begins_with_a_digit(raw: Seq<char>)
    ensures
        plain_version(raw) == trimmed(raw) || (plain_version(raw).len() > 0 && is_digit(
            plain_version(raw)[0],
        )),
        words(raw).len() == 0 ==> plain_version(raw) == trimmed(raw),
{
    if words(raw).len() == 0 {
        assert(version_word(raw).len() == 0);
        assert(version_run(version_word(raw)).len() == 0);
    }
}

/// A host that answered nothing, or null, told nothing.
pub proof fn nothing_and_null_tell_nothing(raw: Seq<char>)
    ensures
        payload_of(raw) is None <==> trimmed(raw).len() == 0 || trimmed(raw) == "null"@,
        payload_of(raw) matches Some(t) ==> t == trimmed(raw),
{
}

// ── The system ───────────────────────────────────────────────────────────────

/// The number of a build is the number that was told of it.
pub proof fn a_build_is_its_number(n: u32)
    ensures
        build_of(Some(decimal(n as nat))) == n,
        build_of(None) == 0,
{
    let s = decimal(n as nat);
    let none = Seq::<char>::empty();
    written_number_reads_back(n as nat, 10);
    assert(digit_value(s[0], 10) is Some);
    assert(digit_value(s[s.len() - 1], 10) is Some);
    trimming_takes_off_what_is_around(none, s, none, CharSet::Space);
}

/// A server is one by the kind of its installation, however that is written, or by its edition.
pub proof fn a_server_is_known(install: Seq<char>, other: Seq<char>, edition: Seq<char>)
    ensures
        is_server_of("Server"@, edition),
        is_server_of("Server Core"@, edition),
        ascii_lower(install) == ascii_lower(other) ==> is_server_of(install, edition)
            == is_server_of(other, edition),
        has_prefix(lowercase(edition), "server"@) ==> is_server_of(install, edition),
        !has_prefix(lowercase(edition), "server"@) ==> !is_server_of("Client"@, edition),
{
    reveal_strlit("Client");
    reveal_strlit("Server");
    reveal_strlit("Server Core");
    assert(ascii_lower("Client"@)[0] != ascii_lower("Server"@)[0]);
    assert(ascii_lower("Client"@).len() != ascii_lower("Server Core"@).len());
}

/// The names of the processors.
pub proof fn processors_have_their_names(arch: Seq<char>)
    ensures
        uppercase(arch) == "AMD64"@ ==> arch_of(arch) == "x64"@,
        uppercase(arch) == "ARM64"@ ==> arch_of(arch) == "arm64"@,
        uppercase(arch) == "X86"@ ==> arch_of(arch) == "x86"@,
        arch_of(arch) != ""@ ==> uppercase(arch) == "AMD64"@ || uppercase(arch) == "ARM64"@
            || uppercase(arch) == "X86"@,
{
    reveal_strlit("AMD64");
    reveal_strlit("ARM64");
    reveal_strlit("X86");
    reveal_strlit("");
    reveal_strlit("x64");
    reveal_strlit("arm64");
    reveal_strlit("x86");
    assert("AMD64"@[1] != "ARM64"@[1]);
    assert("AMD64"@.len() != "X86"@.len());
    assert("ARM64"@.len() != "X86"@.len());
}

/// A client that calls itself Windows 10 is Windows 11 from the build on with which that came; what
/// stands behind the name is kept. No other name is changed, and none is left empty.
pub proof fn windows_eleven_goes_by_its_name(rest: Seq<char>, name: Seq<char>, build: u32, server: bool)
    ensures
        build >= 22000 ==> display_name_of("Windows 10"@ + rest, build, false) == "Windows 11"@ + rest,
        build < 22000 ==> display_name_of("Windows 10"@ + rest, build, false) == "Windows 10"@ + rest,
        display_name_of("Windows 10"@ + rest, build, true) == "Windows 10"@ + rest,
        name.len() > 0 && !has_prefix(name, "Windows 10"@) ==> display_name_of(name, build, server)
            == name,
        display_name_of(Seq::empty(), build, true) == "Windows Server"@,
        display_name_of(Seq::empty(), build, false) == "Windows"@,
{
    reveal_strlit("Windows 10");
    reveal_strlit("Windows 11");
    let p = "Windows 10"@;
    let s = p + rest;
    assert(s.take(p.len() as int) =~= p);
    assert(s.subrange(0, p.len() as int) =~= p);
    assert(occurs_at(s, p, 0));
    a_text_is_cut_at_the_mark(s, p);
    assert(place(s, p) == Some(0int));
    assert(s.take(0) + "Windows 11"@ + s.skip(p.len() as int) =~= "Windows 11"@ + rest);
}

/// A client of the builds from 22000 on is Windows 11, one of a lower build Windows 10; a server is
/// neither.
pub proof fn a_build_tells_the_product(build: u32, feature: Seq<char>)
    ensures
        build >= 22000 ==> has_prefix(windows_product(build, false, feature), "windows_11"@),
        build < 22000 ==> has_prefix(windows_product(build, false, feature), "windows_10"@),
        has_prefix(windows_product(build, true, feature), "windows_server"@),
        trimmed(feature).len() > 0 && lowercase(trimmed(feature)).len() > 0 ==> has_suffix(
            windows_product(build, false, feature),
            "_"@ + lowercase(trimmed(feature)),
        ),
{
    reveal_strlit("windows_");
    reveal_strlit("10");
    reveal_strlit("11");
    reveal_strlit("windows_10");
    reveal_strlit("windows_11");
    reveal_strlit("_");
    reveal_strlit("windows_server");
    reveal_strlit("windows_server_2025");
    reveal_strlit("windows_server_2022_23h2");
    reveal_strlit("windows_server_2022");
    reveal_strlit("windows_server_2019");
    reveal_strlit("windows_server_2016");
    reveal_strlit("windows_server_2012");
    assert("windows_"@ + "10"@ =~= "windows_10"@);
    assert("windows_"@ + "11"@ =~= "windows_11"@);
    let c = windows_product(build, false, feature);
    let s = windows_product(build, true, feature);
    let p = if build >= 22000 {
        "windows_11"@
    } else {
        "windows_10"@
    };
    assert(c.take(10) =~= p);
    assert(s.take(14) =~= "windows_server"@);
    if trimmed(feature).len() > 0 && lowercase(trimmed(feature)).len() > 0 {
        let t = "_"@ + lowercase(trimmed(feature));
        assert(c.skip(c.len() - t.len()) =~= t);
    }
}

/// The system is an asset of its own, under the name it goes by and with its full version.
pub proof fn the_system_is_an_asset(w: WinOsView)
    ensures
        windows_asset(w).ecosystem == Ecosystem::WindowsOs,
        windows_asset(w).name == w.display_name,
        windows_asset(w).pkg_name == Some(w.display_name),
        windows_asset(w).version == "10.0."@ + decimal(w.build as nat) + "."@ + decimal(w.ubr as nat),
        windows_asset(w).sources == seq![Source::PackageDb],
        windows_asset(w).runtime is None,
        windows_asset(w).cpe is Some,
{
}

// ── Applications and packages ────────────────────────────────────────────────

/// An application goes by its plain name and its plain version; one without a name is passed over.
pub proof fn an_application_goes_by_its_plain_name(
    eco: Ecosystem,
    name: Seq<char>,
    version: Seq<char>,
    tag: Seq<char>,
)
    ensures
        application(eco, name, version, tag) is Some <==> app_name(name).len() > 0,
        application(eco, name, version, tag) matches Some(a) ==> a.ecosystem == eco && a.name
            == app_name(name) && a.pkg_name == Some(app_name(name)) && a.version == plain_version(
            version,
        ) && a.locations == seq![tag] && a.sources == seq![Source::PackageDb] && a.runtime is None,
{
}

/// Each entry of the registry with a name is an application, and there is no other.
pub proof fn registry_entries_are_applications(
    es: Seq<NamedVersionView>,
    tag: Seq<char>,
    i: int,
    a: AssetView,
)
    requires
        0 <= i < es.len(),
    ensures
        es[i].name matches Some(n) ==> (application(
            Ecosystem::WinApp,
            n,
            or_empty(es[i].version),
            tag,
        ) matches Some(x) ==> entry_assets(es, tag).contains(x)),
        entry_assets(es, tag).contains(a) ==> exists|k: int|
            0 <= k < es.len() && (#[trigger] es[k]).name is Some && application(
                Ecosystem::WinApp,
                es[k].name->0,
                or_empty(es[k].version),
                tag,
            ) == Some(a),
{
    let f = |e: NamedVersionView| entry_asset(e, tag);
    filtered_items_are_those_that_map(es, f, a);
    if let Some(n) = es[i].name {
        if let Some(x) = application(Ecosystem::WinApp, n, or_empty(es[i].version), tag) {
            filtered_items_are_those_that_map(es, f, x);
            assert(f(es[i]) == Some(x));
        }
    }
    if entry_assets(es, tag).contains(a) {
        let k = choose|k: int| 0 <= k < es.len() && f(#[trigger] es[k]) == Some(a);
        assert(es[k].name is Some);
    }
}

/// An app of the store goes by what stands behind the last point of its name.
pub proof fn store_apps_go_by_their_last_name(
    es: Seq<NamedVersionView>,
    i: int,
    p: Seq<Seq<char>>,
    a: AssetView,
)
    requires
        0 <= i < es.len(),
        p.len() > 0,
        forall|k: int| 0 <= k < p.len() ==> free_of(#[trigger] p[k], CharSet::Is('.')),
        es[i].name == Some(joined(p, seq!['.'])),
        application(Ecosystem::WinApp, p[p.len() - 1], or_empty(es[i].version), "appx"@) == Some(a),
    ensures
        appx_assets(es).contains(a),
{
    let f = |e: NamedVersionView| appx_asset(e);
    joined_texts_are_the_pieces(p, '.');
    assert(pieces(joined(p, seq!['.']), CharSet::Is('.')) == p);
    filtered_items_are_those_that_map(es, f, a);
    assert(f(es[i]) == Some(a));
}

/// A line of what Chocolatey installed is a name and a version with a bar between them; no other
/// line is one.
pub proof fn chocolatey_lines_have_a_bar(
    ls: Seq<Seq<char>>,
    i: int,
    name: Seq<char>,
    version: Seq<char>,
)
    requires
        0 <= i < ls.len(),
        ls[i] == name + seq!['|'] + version,
        !name.contains('|'),
    ensures
        choco_line(ls[i]) == application(
            Ecosystem::WinApp,
            trimmed(name),
            trimmed(version),
            "chocolatey"@,
        ),
        choco_line(ls[i]) matches Some(a) ==> choco_assets(ls).contains(a),
        choco_line(name) is None,
{
    reveal_strlit("|");
    let s = ls[i];
    let bar = "|"@;
    let n = name.len() as int;
    assert(bar =~= seq!['|']);
    assert(s.subrange(n, n + 1) =~= bar);
    assert(occurs_at(s, bar, n));
    a_text_is_cut_at_the_mark(s, bar);
    let (x, y) = cut(s, bar)->0;
    if x.len() < n {
        assert(s[x.len() as int] == '|') by {
            assert((x + bar + y)[x.len() as int] == bar[0]);
        }
        assert(name[x.len() as int] == '|');
    }
    assert(x.len() == n);
    assert(x =~= name) by {
        assert(s.take(n) =~= name);
        assert((x + bar + y).take(n) =~= x);
    }
    assert(y =~= version) by {
        assert(s.skip(n + 1) =~= version);
        assert((x + bar + y).skip(n + 1) =~= y);
    }
    a_text_is_cut_at_the_mark(name, bar);
    if occurs(name, bar) {
        let k = choose|k: int| occurs_at(name, bar, k);
        assert(name.subrange(k, k + 1)[0] == name[k]);
    }
    let f = |l: Seq<char>| choco_line(l);
    if let Some(a) = choco_line(s) {
        filtered_items_are_those_that_map(ls, f, a);
        assert(f(ls[i]) == Some(a));
    }
}

/// A package of a language is told by name and version; one without either is passed over.
pub proof fn packages_have_a_name_and_a_version(
    es: Seq<NamedVersionView>,
    eco: Ecosystem,
    a: AssetView,
)
    ensures
        packages_of(es, eco).contains(a) <==> a == language_asset(eco, a.name, a.version)
            && es.contains((NamedVersionView { name: Some(a.name), version: Some(a.version) })),
        language_asset(eco, a.name, a.version).name == a.name,
        language_asset(eco, a.name, a.version).version == a.version,
        language_asset(eco, a.name, a.version).ecosystem == eco,
        language_asset(eco, a.name, a.version).pkg_name == Some(a.name),
        language_asset(eco, a.name, a.version).cpe is None,
{
    let f = |e: NamedVersionView| package_of(e, eco);
    filtered_items_are_those_that_map(es, f, a);
    let e = NamedVersionView { name: Some(a.name), version: Some(a.version) };
    if packages_of(es, eco).contains(a) {
        let k = choose|k: int| 0 <= k < es.len() && f(#[trigger] es[k]) == Some(a);
        assert(es[k] == e);
    }
    if a == language_asset(eco, a.name, a.version) && es.contains(e) {
        let k = choose|k: int| 0 <= k < es.len() && es[k] == e;
        assert(f(es[k]) == Some(a));
    }
}

/// A line of the tools of .NET is a package with its version; the heading and the rule below it are
/// none.
pub proof fn dotnet_lines_are_packages(w: Seq<Seq<char>>)
    requires
        all_words(w),
    ensures
        ({
            let l = joined(w, seq![' ']);
            &&& w.len() < 2 || has_prefix(l, "Package Id"@) || is_rule(l) ==> dotnet_line(l) is None
            &&& w.len() >= 2 && !has_prefix(l, "Package Id"@) && !is_rule(l) ==> dotnet_line(l)
                == Some(language_asset(Ecosystem::NuGet, w[0], w[1]))
        }),
{
    let l = joined(w, seq![' ']);
    joined_words_are_the_words(w);
    joined_words_are_trimmed(w);
    if w.len() > 0 {
        lemma_trimmed_has_no_end(l);
    } else {
        assert(trimmed_end(l, CharSet::Space).len() == 0);
    }
}

proof fn lemma_shrinks(s: Seq<char>, set: CharSet)
    ensures
        trimmed_end(s, set).len() <= s.len(),
        s.len() > 0 && set.has(s.last()) ==> trimmed_end(s, set).len() < s.len(),
        trimmed_start(s, set).len() <= s.len(),
    decreases s.len(),
{
    if s.len() > 0 {
        lemma_shrinks(s.drop_last(), set);
        lemma_shrinks(s.skip(1), set);
    }
}

proof fn lemma_trimmed_has_no_end(s: Seq<char>)
    requires
        trimmed(s) == s,
    ensures
        trimmed_end(s, CharSet::Space) == s,
{
    let t = trimmed_start(s, CharSet::Space);
    lemma_shrinks(s, CharSet::Space);
    lemma_shrinks(t, CharSet::Space);
    if s.len() > 0 && CharSet::Space.has(s[0]) {
        lemma_shrinks(s.skip(1), CharSet::Space);
    }
}

// ── Listeners ────────────────────────────────────────────────────────────────

proof fn lemma_decimal_has_no_colon(n: nat)
    ensures
        !decimal(n).contains(':'),
        decimal(n).len() > 0,
        n <= u32::MAX ==> number(decimal(n), 10, u32::MAX as nat) == Some(n),
{
    written_number_reads_back(n, 10);
    if decimal(n).contains(':') {
        let i = choose|i: int| 0 <= i < decimal(n).len() && decimal(n)[i] == ':';
        assert(digit_value(decimal(n)[i], 10) is Some);
    }
    assert(digit_value(decimal(n)[0], 10) is Some);
}

proof fn lemma_cut_at_the_last_colon(h: Seq<char>, d: Seq<char>)
    requires
        !d.contains(':'),
    ensures
        cut_last(h + seq![':'] + d, ":"@) == Some((h, d)),
{
    reveal_strlit(":");
    let colon = ":"@;
    let s = h + seq![':'] + d;
    let k = h.len() as int;
    assert(colon =~= seq![':']);
    assert(s.subrange(k, k + 1) =~= colon);
    assert(occurs_at(s, colon, k));
    a_text_is_cut_at_the_mark(s, colon);
    let (a, b) = cut_last(s, colon)->0;
    let j = a.len() as int;
    assert(j >= k);
    if j > k {
        assert((a + colon + b)[j] == ':');
        assert(d[j - k - 1] == s[j]);
    }
    assert(a =~= h) by {
        assert((a + colon + b).take(k) =~= a);
        assert(s.take(k) =~= h);
    }
    assert(b =~= d) by {
        assert((a + colon + b).skip(k + 1) =~= b);
        assert(s.skip(k + 1) =~= d);
    }
}

proof fn lemma_brackets_come_off(host: Seq<char>)
    requires
        host.len() > 0,
        host[0] != '[',
        host[host.len() - 1] != ']',
    ensures
        trimmed_end(
            trimmed_start(seq!['['] + host + seq![']'], CharSet::Is('[')),
            CharSet::Is(']'),
        ) == host,
{
    let a = seq!['['] + host + seq![']'];
    let b = host + seq![']'];
    assert(a[0] == '[');
    assert(a.skip(1) =~= b);
    assert(b[0] == host[0]);
    assert(trimmed_start(b, CharSet::Is('[')) == b);
    assert(trimmed_start(a, CharSet::Is('[')) == b);
    assert(b.last() == ']');
    assert(b.drop_last() =~= host);
    assert(trimmed_end(host, CharSet::Is(']')) == host);
}

/// A line of the sockets tells a listener where it is of TCP and in the state of listening: its
/// address without brackets, its port and its process. No other line tells one.
pub proof fn listening_lines_tell_listeners(w: Seq<Seq<char>>, host: Seq<char>, port: u32, pid: u32)
    requires
        all_words(w),
        w.len() >= 5,
        host.len() > 0,
        host[0] != '[',
        host[host.len() - 1] != ']',
        w[1] == host + seq![':'] + decimal(port as nat) || w[1] == seq!['['] + host + seq![']', ':']
            + decimal(port as nat),
        w[4] == decimal(pid as nat),
    ensures
        ascii_lower(w[0]) == ascii_lower("TCP"@) && ascii_lower(w[3]) == ascii_lower("LISTENING"@)
            ==> netstat_line(joined(w, seq![' '])) == Some(
            WinListenerView {
                local_address: Some(host),
                local_port: Some(port),
                owning_process: Some(pid),
            },
        ),
        ascii_lower(w[0]) != ascii_lower("TCP"@) ==> netstat_line(joined(w, seq![' '])) is None,
        ascii_lower(w[3]) != ascii_lower("LISTENING"@) ==> netstat_line(joined(w, seq![' '])) is None,
{
    joined_words_are_the_words(w);
    lemma_decimal_has_no_colon(port as nat);
    lemma_decimal_has_no_colon(pid as nat);
    let d = decimal(port as nat);
    let bare = trimmed_end(trimmed_start(host, CharSet::Is('[')), CharSet::Is(']'));
    assert(bare == host);
    if w[1] == host + seq![':'] + d {
        lemma_cut_at_the_last_colon(host, d);
    } else {
        let h = seq!['['] + host + seq![']'];
        assert(w[1] =~= h + seq![':'] + d);
        lemma_cut_at_the_last_colon(h, d);
        lemma_brackets_come_off(host);
    }
}

/// Every line with a listener counts.
pub proof fn listeners_are_those_of_the_lines(ls: Seq<Seq<char>>, x: WinListenerView)
    ensures
        netstat_listeners(ls).contains(x) <==> exists|i: int|
            0 <= i < ls.len() && netstat_line(#[trigger] ls[i]) == Some(x),
{
    let f = |l: Seq<char>| netstat_line(l);
    filtered_items_are_those_that_map(ls, f, x);
    if netstat_listeners(ls).contains(x) {
        let i = choose|i: int| 0 <= i < ls.len() && f(#[trigger] ls[i]) == Some(x);
        assert(netstat_line(ls[i]) == Some(x));
    }
    if exists|i: int| 0 <= i < ls.len() && netstat_line(#[trigger] ls[i]) == Some(x) {
        let i = choose|i: int| 0 <= i < ls.len() && netstat_line(#[trigger] ls[i]) == Some(x);
        assert(f(ls[i]) == Some(x));
    }
}

/// An endpoint is the address and the port. An address with colons stands in brackets, and the zone
/// of an address is left off.
pub proof fn an_endpoint_is_an_address_and_a_port(a: Seq<char>, zone: Seq<char>, port: u32)
    requires
        !a.contains('%'),
        !zone.contains('%'),
    ensures
        !a.contains(':') ==> endpoint(a, port) == a + seq![':'] + decimal(port as nat),
        a.contains(':') ==> endpoint(a, port) == seq!['['] + a + seq![']', ':'] + decimal(
            port as nat,
        ),
        endpoint(a + seq!['%'] + zone, port) == endpoint(a, port),
{
    let p = seq![a];
    let q = seq![a, zone];
    let set = CharSet::Is('%');
    assert(free_of(a, set)) by {
        assert forall|i: int| 0 <= i < a.len() implies !set.has(#[trigger] a[i]) by {
            assert(a.contains(a[i]));
        }
    }
    assert(free_of(zone, set)) by {
        assert forall|i: int| 0 <= i < zone.len() implies !set.has(#[trigger] zone[i]) by {
            assert(zone.contains(zone[i]));
        }
    }
    joined_texts_are_the_pieces(p, '%');
    joined_texts_are_the_pieces(q, '%');
    assert(joined(p, seq!['%']) == a);
    assert(q.drop_last() =~= p);
    assert(joined(q, seq!['%']) == a + seq!['%'] + zone);
    reveal_strlit("[");
    reveal_strlit("]:");
    reveal_strlit(":");
    assert("["@ =~= seq!['[']);
    assert("]:"@ =~= seq![']', ':']);
    assert(":"@ =~= seq![':']);
}

/// The endpoints of a process are those of its sockets, and of no other process.
pub proof fn endpoints_are_those_of_the_process(ls: Seq<WinListenerView>, pid: u32, x: Seq<char>)
    ensures
        endpoints_of(ls, pid).contains(x) <==> exists|i: int|
            0 <= i < ls.len() && (#[trigger] ls[i]).owning_process == Some(pid)
                && ls[i].local_address is Some && ls[i].local_port is Some && x == endpoint(
                ls[i].local_address->0,
                ls[i].local_port->0,
            ),
{
    let f = |l: WinListenerView| endpoint_of(l, pid);
    filtered_items_are_those_that_map(ls, f, x);
    if endpoints_of(ls, pid).contains(x) {
        let i = choose|i: int| 0 <= i < ls.len() && f(#[trigger] ls[i]) == Some(x);
        assert(ls[i].owning_process == Some(pid));
    }
    if exists|i: int|
        0 <= i < ls.len() && (#[trigger] ls[i]).owning_process == Some(pid)
            && ls[i].local_address is Some && ls[i].local_port is Some && x == endpoint(
            ls[i].local_address->0,
            ls[i].local_port->0,
        ) {
        let i = choose|i: int|
            0 <= i < ls.len() && (#[trigger] ls[i]).owning_process == Some(pid)
                && ls[i].local_address is Some && ls[i].local_port is Some && x == endpoint(
                ls[i].local_address->0,
                ls[i].local_port->0,
            );
        assert(f(ls[i]) == Some(x));
    }
}

/// The listeners that the host listed are taken; only where it listed none are the lines of the
/// sockets read.
pub proof fn listed_listeners_come_first(listed: Seq<WinListenerView>, out: Seq<char>)
    ensures
        listed.len() > 0 ==> known_listeners(listed, Some(out)) == listed,
        listed.len() == 0 ==> known_listeners(listed, Some(out)) == netstat_listeners(text_lines(out)),
        known_listeners(listed, None) == listed,
{
}

// ── Services ─────────────────────────────────────────────────────────────────

/// A service goes by the name it displays, or by its own where it displays none.
pub proof fn a_service_goes_by_what_it_displays(s: WinServiceView)
    ensures
        s.display matches Some(d) ==> (trimmed(d).len() > 0 ==> called(s) == d),
        s.display is None || trimmed(s.display->0).len() == 0 ==> called(s) == or_empty(s.name),
{
}

/// A service is an asset, unless it runs in the host that services share or has no name. It is
/// exposed where one of the endpoints of its process leaves the host.
pub proof fn a_service_is_exposed_by_its_endpoints(
    s: WinServiceView,
    ls: Seq<WinListenerView>,
    i: int,
)
    ensures
        service_asset_of(s, ls) is Some <==> !is_shared_host(or_empty(s.exe)) && trimmed(
            called(s),
        ).len() > 0 && app_name(called(s)).len() > 0,
        service_asset_of(s, ls) matches Some(a) ==> {
            &&& a.ecosystem == Ecosystem::WinApp
            &&& a.name == app_name(called(s))
            &&& a.version == plain_version(or_empty(s.version))
            &&& a.sources == seq![Source::Probe]
            &&& a.runtime matches Some(r)
            &&& r.pid == s.pid
            &&& (s.pid is None ==> r.listeners.len() == 0 && !r.exposed)
            &&& (s.pid matches Some(p) ==> r.listeners == endpoints_of(ls, p))
            &&& (0 <= i < r.listeners.len() && reach_of(r.listeners[i]).is_exposed() ==> r.exposed)
            &&& (r.exposed ==> exists|k: int|
                0 <= k < r.listeners.len() && reach_of(#[trigger] r.listeners[k]).is_exposed())
            &&& (s.exe matches Some(e) ==> (e.len() > 0 ==> a.locations == seq![e]))
        },
{
    if let Some(a) = service_asset_of(s, ls) {
        let r = a.runtime->0;
        if 0 <= i < r.listeners.len() {
            widest_is_an_upper_bound(r.listeners, i);
        }
        if r.exposed {
            assert(r.listeners.len() > 0);
            widest_is_an_upper_bound(r.listeners, 0);
            let k = choose|k: int|
                0 <= k < r.listeners.len() && widest(r.listeners) == reach_of(
                    #[trigger] r.listeners[k],
                );
            assert(widest(r.listeners) == reach_of(r.listeners[k]));
        }
    }
}

/// The shared host is known by the name of its file, wherever that stands.
pub proof fn the_shared_host_is_known_by_its_file(p: Seq<Seq<char>>)
    requires
        p.len() > 0,
        forall|k: int| 0 <= k < p.len() ==> free_of(#[trigger] p[k], CharSet::Either('\\', '/')),
    ensures
        is_shared_host(joined(p, seq!['\\'])) <==> lowercase(p[p.len() - 1]) == "svchost.exe"@,
        is_shared_host(joined(p, seq!['/'])) <==> lowercase(p[p.len() - 1]) == "svchost.exe"@,
{
    joined_texts_are_the_pieces_at(p, '\\', CharSet::Either('\\', '/'));
    joined_texts_are_the_pieces_at(p, '/', CharSet::Either('\\', '/'));
}

/// Each service that is an asset counts, and nothing else.
pub proof fn service_assets_are_those_of_the_services(
    services: Seq<WinServiceView>,
    ls: Seq<WinListenerView>,
    a: AssetView,
)
    ensures
        service_assets_of(services, ls).contains(a) <==> exists|i: int|
            0 <= i < services.len() && service_asset_of(#[trigger] services[i], ls) == Some(a),
{
    let f = |s: WinServiceView| service_asset_of(s, ls);
    filtered_items_are_those_that_map(services, f, a);
    if service_assets_of(services, ls).contains(a) {
        let i = choose|i: int| 0 <= i < services.len() && f(#[trigger] services[i]) == Some(a);
        assert(service_asset_of(services[i], ls) == Some(a));
    }
    if exists|i: int|
        0 <= i < services.len() && service_asset_of(#[trigger] services[i], ls) == Some(a) {
        let i = choose|i: int|
            0 <= i < services.len() && service_asset_of(#[trigger] services[i], ls) == Some(a);
        assert(f(services[i]) == Some(a));
    }
}

/// The system and its services are always scanned; what is only installed is where all is.
pub proof fn what_is_installed_is_scanned_where_all_is(
    w: WinOsView,
    services: Seq<AssetView>,
    apps: Seq<AssetView>,
    packages: Seq<AssetView>,
    a: AssetView,
)
    ensures
        windows_assets(w, false, services, apps, packages).contains(a) <==> a == windows_asset(w)
            || services.contains(a),
        windows_assets(w, true, services, apps, packages).contains(a) <==> a == windows_asset(w)
            || services.contains(a) || apps.contains(a) || packages.contains(a),
{
    let some = windows_assets(w, false, services, apps, packages);
    let all = windows_assets(w, true, services, apps, packages);
    let n = 1 + services.len();
    assert(some[0] == windows_asset(w));
    assert(all[0] == windows_asset(w));
    if services.contains(a) {
        let i = choose|i: int| 0 <= i < services.len() && services[i] == a;
        assert(some[1 + i] == a && all[1 + i] == a);
    }
    if apps.contains(a) {
        let i = choose|i: int| 0 <= i < apps.len() && apps[i] == a;
        assert(all[n + i] == a);
    }
    if packages.contains(a) {
        let i = choose|i: int| 0 <= i < packages.len() && packages[i] == a;
        assert(all[n + apps.len() + i] == a);
    }
    if some.contains(a) {
        let i = choose|i: int| 0 <= i < some.len() && some[i] == a;
        assert(i == 0 || services[i - 1] == a);
    }
    if all.contains(a) {
        let i = choose|i: int| 0 <= i < all.len() && all[i] == a;
        if 0 < i < n {
            assert(services[i - 1] == a);
        } else if n <= i < n + apps.len() {
            assert(apps[i - n] == a);
        } else if i > 0 {
            assert(packages[i - n - apps.len()] == a);
        }
    }
}

// ── Updates ──────────────────────────────────────────────────────────────────

/// The severities of updates are ranked; what is none of them is below.
pub proof fn updates_are_ranked(other: Seq<char>)
    ensures
        rank_of_lower("critical"@) > rank_of_lower("important"@),
        rank_of_lower("important"@) > rank_of_lower("moderate"@),
        rank_of_lower("moderate"@) > rank_of_lower("low"@),
        rank_of_lower("low"@) > rank_of_lower(""@),
        other != "critical"@ && other != "important"@ && other != "moderate"@ && other != "low"@
            ==> rank_of_lower(other) == rank_of_lower(""@),
{
    reveal_strlit("critical");
    reveal_strlit("important");
    reveal_strlit("moderate");
    reveal_strlit("low");
    reveal_strlit("");
    assert("critical"@[0] == 'c' && "important"@[0] == 'i' && "moderate"@[0] == 'm' && "low"@[0]
        == 'l');
    assert(""@.len() == 0);
}

/// Each update with a title counts, with its articles and its severity.
pub proof fn updates_with_a_title_count(us: Seq<WuaUpdateView>, u: WinUpdateView)
    ensures
        titled_updates(us).contains(u) <==> exists|i: int|
            0 <= i < us.len() && (#[trigger] us[i]).title == Some(u.title) && us[i].kbs == u.kbs
                && or_empty(us[i].severity) == u.severity,
{
    let f = |x: WuaUpdateView| titled(x);
    filtered_items_are_those_that_map(us, f, u);
    if titled_updates(us).contains(u) {
        let i = choose|i: int| 0 <= i < us.len() && f(#[trigger] us[i]) == Some(u);
        assert(us[i].title == Some(u.title));
    }
    if exists|i: int|
        0 <= i < us.len() && (#[trigger] us[i]).title == Some(u.title) && us[i].kbs == u.kbs
            && or_empty(us[i].severity) == u.severity {
        let i = choose|i: int|
            0 <= i < us.len() && (#[trigger] us[i]).title == Some(u.title) && us[i].kbs == u.kbs
                && or_empty(us[i].severity) == u.severity;
        assert(f(us[i]) == Some(u));
    }
}

} // verus!
