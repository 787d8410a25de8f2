//! What products are called.

use vstd::prelude::*;

use crate::cpe::{
    app_cpe, app_name, before_bracket, cpe_version, escaped, escaped_char, feature_of, is_locale_text, is_noise,
    is_noise_word, is_version_text, open_brackets, os_cpe, server_product, suffix_from, windows_product,
    without_noise,
};
use crate::host::{windows_version, WinOsView};
use crate::split::{
    all_words, free_of, is_word, joined, joined_texts_are_the_pieces, joined_words_are_the_words,
    joined_words_are_trimmed, lemma_pieces_nonempty, pieces, words,
};
use crate::text::{
    has_prefix, has_suffix, is_digit, is_letter, is_space, lowercase, trimmed, trimmed_end, trimmed_of, trimmed_start,
    CharSet,
};
use crate::text_laws::trimming_takes_off_what_is_around;

verus! {

// ── Names of CPE ─────────────────────────────────────────────────────────────

/// A text is escaped character by character: letters, digits, points, hyphens and underscores stand
/// as they are, a blank is an underscore, and any other character has a backslash before it.
pub proof fn characters_are_escaped_one_by_one(a: Seq<char>, c: char, b: Seq<char>)
    ensures
        escaped(a + b) == escaped(a) + escaped(b),
        is_letter(c) || is_digit(c) || c == '.' || c == '-' || c == '_' ==> escaped(seq![c]) == seq![c],
        escaped(seq![' ']) == seq!['_'],
        !(is_letter(c) || is_digit(c) || c == '.' || c == '-' || c == '_' || c == ' ') ==> escaped(
            seq![c],
        ) == seq!['\\', c],
    decreases b.len(),
{
    reveal_with_fuel(escaped, 2);
    let none = Seq::<char>::empty();
    assert(seq![c].drop_last() =~= none);
    assert(seq![' '].drop_last() =~= none);
    assert(escaped(none) == none);
    assert(none + escaped_char(c) =~= escaped_char(c));
    assert(none + escaped_char(' ') =~= escaped_char(' '));
    if b.len() == 0 {
        assert(a + b =~= a);
        assert(escaped(a) + escaped(b) =~= escaped(a));
    } else {
        characters_are_escaped_one_by_one(a, c, b.drop_last());
        assert((a + b).drop_last() =~= a + b.drop_last());
        assert((a + b).last() == b.last());
        assert(escaped(a) + escaped(b) =~= escaped(a) + escaped(b.drop_last())
            + escaped_char(b.last()));
    }
}

/// The name of an application is made of its vendor, its product and its version.
pub proof fn an_application_is_named_by_vendor_product_and_version(
    vendor: Seq<char>,
    product: Seq<char>,
    version: Seq<char>,
)
    ensures
        has_prefix(
            app_cpe(vendor, product, version),
            "cpe:2.3:a:"@ + escaped(vendor) + ":"@ + escaped(product) + ":"@ + version,
        ),
        has_suffix(app_cpe(vendor, product, version), ":*:*:*:*:*:*:*"@),
        app_cpe(vendor, product, version).len() == ("cpe:2.3:a:"@ + escaped(vendor) + ":"@ + escaped(
            product,
        ) + ":"@ + version).len() + ":*:*:*:*:*:*:*"@.len(),
        trimmed(version).len() == 0 ==> cpe_version(version) == "*"@,
        trimmed(version).len() > 0 ==> cpe_version(version) == escaped(lowercase(version)),
{
    let s = app_cpe(vendor, product, version);
    let p = "cpe:2.3:a:"@ + escaped(vendor) + ":"@ + escaped(product) + ":"@ + version;
    let t = ":*:*:*:*:*:*:*"@;
    assert(s =~= p + t);
    assert(s.take(p.len() as int) =~= p);
    assert(s.skip(s.len() - t.len()) =~= t);
}

/// The name of a Windows is made of its product, its full version and its processor. Where the
/// product or the processor is not known, what is known stands for it.
pub proof fn a_windows_is_named_by_product_version_and_processor(w: WinOsView)
    ensures
        w.product.len() > 0 ==> has_prefix(
            os_cpe(w),
            "cpe:2.3:o:microsoft:"@ + escaped(w.product) + ":"@ + escaped(
                windows_version(w.build, w.ubr),
            ),
        ),
        w.product.len() == 0 && w.is_server ==> has_prefix(
            os_cpe(w),
            "cpe:2.3:o:microsoft:"@ + escaped("windows_server"@) + ":"@ + escaped(
                windows_version(w.build, w.ubr),
            ),
        ),
        w.product.len() == 0 && !w.is_server ==> has_prefix(
            os_cpe(w),
            "cpe:2.3:o:microsoft:"@ + escaped("windows"@) + ":"@ + escaped(
                windows_version(w.build, w.ubr),
            ),
        ),
        w.arch.len() > 0 ==> has_suffix(os_cpe(w), ":*:*:*:*:*:"@ + escaped(w.arch) + ":*"@),
        w.arch.len() == 0 ==> has_suffix(os_cpe(w), ":*:*:*:*:*:"@ + escaped("*"@) + ":*"@),
{
    let product = if w.product.len() > 0 {
        w.product
    } else if w.is_server {
        "windows_server"@
    } else {
        "windows"@
    };
    let hw = if w.arch.len() == 0 {
        "*"@
    } else {
        w.arch
    };
    let s = os_cpe(w);
    let p = "cpe:2.3:o:microsoft:"@ + escaped(product) + ":"@ + escaped(
        windows_version(w.build, w.ubr),
    );
    let t = ":*:*:*:*:*:"@ + escaped(hw) + ":*"@;
    assert(s =~= p + t);
    assert(s.take(p.len() as int) =~= p);
    assert(s.skip(s.len() - t.len()) =~= t);
}

// ── Builds of Windows ────────────────────────────────────────────────────────

/// The feature update of a client is that of its build; one that the client tells is taken instead.
pub proof fn a_build_tells_its_feature_update(build: u32)
    ensures
        build == 10240 ==> feature_of(build) == "1507"@,
        build == 14393 ==> feature_of(build) == "1607"@,
        build == 15063 ==> feature_of(build) == "1703"@,
        build == 16299 ==> feature_of(build) == "1709"@,
        build == 17134 ==> feature_of(build) == "1803"@,
        build == 17763 ==> feature_of(build) == "1809"@,
        build == 18362 ==> feature_of(build) == "1903"@,
        build == 18363 ==> feature_of(build) == "1909"@,
        build == 19041 ==> feature_of(build) == "2004"@,
        build == 19042 ==> feature_of(build) == "20h2"@,
        build == 19043 ==> feature_of(build) == "21h1"@,
        build == 19044 || build == 22000 ==> feature_of(build) == "21h2"@,
        build == 19045 || build == 22621 ==> feature_of(build) == "22h2"@,
        build == 22631 ==> feature_of(build) == "23h2"@,
        build == 26100 ==> feature_of(build) == "24h2"@,
        feature_of(build).len() > 0 ==> feature_of(build).len() == 4,
        feature_of(build).len() > 0 ==> has_suffix(
            windows_product(build, false, Seq::empty()),
            "_"@ + feature_of(build),
        ),
        feature_of(build).len() == 0 && build >= 22000 ==> windows_product(build, false, Seq::empty())
            == "windows_11"@,
        feature_of(build).len() == 0 && build < 22000 ==> windows_product(build, false, Seq::empty())
            == "windows_10"@,
{
    reveal_strlit("");
    reveal_strlit("1507");
    reveal_strlit("1607");
    reveal_strlit("1703");
    reveal_strlit("1709");
    reveal_strlit("1803");
    reveal_strlit("1809");
    reveal_strlit("1903");
    reveal_strlit("1909");
    reveal_strlit("2004");
    reveal_strlit("20h2");
    reveal_strlit("21h1");
    reveal_strlit("21h2");
    reveal_strlit("22h2");
    reveal_strlit("23h2");
    reveal_strlit("24h2");
    reveal_strlit("windows_");
    reveal_strlit("10");
    reveal_strlit("11");
    reveal_strlit("windows_10");
    reveal_strlit("windows_11");
    assert("windows_"@ + "10"@ =~= "windows_10"@);
    assert("windows_"@ + "11"@ =~= "windows_11"@);
    assert(trimmed(Seq::<char>::empty()).len() == 0);
    let c = windows_product(build, false, Seq::empty());
    let t = "_"@ + feature_of(build);
    if feature_of(build).len() > 0 {
        assert(c.skip(c.len() - t.len()) =~= t);
    }
}

/// A server is of the latest release whose first build it reaches.
pub proof fn a_server_is_of_its_release(build: u32)
    ensures
        26100 <= build ==> server_product(build) == "windows_server_2025"@,
        20348 <= build < 26100 && build != 25398 ==> server_product(build) == "windows_server_2022"@,
        build == 25398 ==> server_product(build) == "windows_server_2022_23h2"@,
        17763 <= build < 20348 ==> server_product(build) == "windows_server_2019"@,
        14393 <= build < 17763 ==> server_product(build) == "windows_server_2016"@,
        9600 <= build < 14393 ==> server_product(build) == "windows_server_2012"@,
        build < 9600 ==> server_product(build) == "windows_server"@,
{
}

// ── Names of applications ────────────────────────────────────────────────────

proof fn lemma_no_suffix(s: Seq<char>, i: int)
    requires
        !s.contains('('),
        0 <= i,
    ensures
        suffix_from(s, i) is None,
    decreases s.len() - i,
{
    if i < s.len() {
        assert(s.contains(s[i]));
        lemma_no_suffix(s, i + 1);
    }
}

proof fn lemma_name_without_bracket(w: Seq<Seq<char>>)
    requires
        all_words(w),
        !joined(w, seq![' ']).contains('('),
    ensures
        words(before_bracket(joined(w, seq![' ']))) == w,
{
    let s = joined(w, seq![' ']);
    joined_words_are_the_words(w);
    joined_words_are_trimmed(w);
    lemma_no_suffix(s, 0);
}

/// Words at the end of a name that are no part of it are left off; where nothing would be left, all
/// of the name stays.
pub proof fn noise_at_the_end_of_a_name_is_left_off(w: Seq<Seq<char>>, t: Seq<char>)
    requires
        all_words(w),
        is_word(t),
        w.len() > 0,
        !joined(w.push(t), seq![' ']).contains('('),
        !joined(w, seq![' ']).contains('('),
    ensures
        is_noise(t) && !is_noise(w[w.len() - 1]) ==> app_name(joined(w.push(t), seq![' '])) == joined(
            w,
            seq![' '],
        ),
        !is_noise(t) ==> app_name(joined(w.push(t), seq![' '])) == joined(w.push(t), seq![' ']),
        is_noise(t) && without_noise(w).len() > 0 ==> app_name(joined(w.push(t), seq![' ']))
            == app_name(joined(w, seq![' '])),
{
    let v = w.push(t);
    assert(all_words(v)) by {
        assert forall|i: int| 0 <= i < v.len() implies is_word(#[trigger] v[i]) by {
            if i < w.len() {
                assert(v[i] == w[i]);
            }
        }
    }
    reveal_strlit(" ");
    assert(" "@ =~= seq![' ']);
    lemma_name_without_bracket(w);
    lemma_name_without_bracket(v);
    joined_words_are_trimmed(w);
    joined_words_are_trimmed(v);
    assert(v.drop_last() =~= w);
    assert(v.last() == t);
    reveal_with_fuel(without_noise, 3);
}

proof fn lemma_brackets(x: Seq<char>, k: int)
    requires
        !x.contains('('),
        !x.contains(')'),
        0 < k <= x.len() + 1,
    ensures
        open_brackets((seq!['('] + x + seq![')']).take(k)) == 1,
    decreases k,
{
    let s = seq!['('] + x + seq![')'];
    let t = s.take(k);
    assert(t.drop_last() =~= s.take(k - 1));
    assert(t.last() == s[k - 1]);
    if k == 1 {
        assert(s.take(0) =~= Seq::<char>::empty());
        assert(open_brackets(s.take(0)) == 0);
    } else {
        lemma_brackets(x, k - 1);
        assert(s[k - 1] == x[k - 2]);
        assert(x.contains(x[k - 2]));
    }
}

proof fn lemma_suffix(s: Seq<char>, x: Seq<char>, i: int)
    requires
        !s.contains('('),
        !x.contains('('),
        !x.contains(')'),
        0 <= i <= s.len(),
    ensures
        suffix_from(s + (seq!['('] + x + seq![')']), i) == Some(s.len() as int),
    decreases s.len() - i,
{
    let b = seq!['('] + x + seq![')'];
    let t = s + b;
    if i < s.len() {
        assert(t[i] == s[i]);
        assert(s.contains(s[i]));
        lemma_suffix(s, x, i + 1);
    } else {
        assert(t[i] == '(');
        assert(t.skip(i) =~= b);
        assert forall|k: int|
            0 <= k < b.len() && open_brackets(#[trigger] b.take(k)) == 0 implies b[k] == '('
            || is_space(b[k]) by {
            if k > 0 {
                lemma_brackets(x, k);
            }
        }
    }
}

/// What stands in brackets behind a name is no part of it.
pub proof fn what_stands_in_brackets_is_left_off(w: Seq<Seq<char>>, x: Seq<char>)
    requires
        all_words(w),
        w.len() > 0,
        !joined(w, seq![' ']).contains('('),
        !x.contains('('),
        !x.contains(')'),
    ensures
        app_name(joined(w, seq![' ']) + seq![' '] + (seq!['('] + x + seq![')'])) == app_name(
            joined(w, seq![' ']),
        ),
{
    let n = joined(w, seq![' ']);
    let s = n + seq![' '];
    let b = seq!['('] + x + seq![')'];
    let raw = s + b;
    let none = Seq::<char>::empty();
    joined_words_are_trimmed(w);
    lemma_name_without_bracket(w);
    assert(!s.contains('(')) by {
        if s.contains('(') {
            let i = choose|i: int| 0 <= i < s.len() && s[i] == '(';
            assert(i < n.len());
            assert(n[i] == '(');
        }
    }
    lemma_ends_are_no_space(n);
    assert(raw[0] == n[0]);
    assert(raw[raw.len() - 1] == ')');
    trimming_takes_off_what_is_around(none, raw, none, CharSet::Space);
    lemma_suffix(s, x, 0);
    assert(raw.take(s.len() as int) =~= s);
    trimming_takes_off_what_is_around(none, n, seq![' '], CharSet::Space);
    assert(none + n + seq![' '] =~= s);
    lemma_no_suffix(n, 0);
    assert(before_bracket(raw) == n);
    assert(before_bracket(n) == n);
}

proof fn lemma_shrinks(s: Seq<char>)
    ensures
        trimmed_end(s, CharSet::Space).len() <= s.len(),
        s.len() > 0 && is_space(s.last()) ==> trimmed_end(s, CharSet::Space).len() < s.len(),
        trimmed_start(s, CharSet::Space).len() <= s.len(),
        s.len() > 0 && is_space(s[0]) ==> trimmed_start(s, CharSet::Space).len() < s.len(),
    decreases s.len(),
{
    if s.len() > 0 {
        lemma_shrinks(s.drop_last());
        lemma_shrinks(s.skip(1));
    }
}

proof fn lemma_ends_are_no_space(s: Seq<char>)
    requires
        trimmed(s) == s,
        s.len() > 0,
    ensures
        !is_space(s[0]),
        !is_space(s[s.len() - 1]),
{
    let t = trimmed_start(s, CharSet::Space);
    lemma_shrinks(s);
    lemma_shrinks(t);
}

/// A version is no part of a name, nor are the words for a processor, a language or a setup.
pub proof fn versions_and_processors_are_noise(t: Seq<char>, tok: Seq<char>)
    requires
        t == trimmed_of(tok, CharSet::NotAlphanumeric),
    ensures
        t.len() == 0 ==> is_noise(tok),
        t.len() > 0 && (forall|i: int|
            0 <= i < t.len() ==> is_digit(#[trigger] t[i]) || t[i] == '.') && is_digit(t[0])
            ==> is_noise(tok),
        lowercase(t).len() >= 2 && lowercase(t)[0] == 'v' && is_digit(lowercase(t)[1]) ==> is_noise(
            tok,
        ),
        lowercase(t) == "x64"@ || lowercase(t) == "x86"@ || lowercase(t) == "x86_64"@ || lowercase(t)
            == "amd64"@ || lowercase(t) == "arm64"@ || lowercase(t) == "aarch64"@ ==> is_noise(tok),
        lowercase(t) == "32-bit"@ || lowercase(t) == "64-bit"@ || lowercase(t) == "win32"@
            || lowercase(t) == "win64"@ ==> is_noise(tok),
        lowercase(t) == "edition"@ || lowercase(t) == "version"@ || lowercase(t) == "setup"@
            || lowercase(t) == "installer"@ || lowercase(t) == "update"@ || lowercase(t) == "lts"@
            || lowercase(t) == "stable"@ ==> is_noise(tok),
        lowercase(t).len() == 2 && is_letter(lowercase(t)[0]) && is_letter(lowercase(t)[1])
            ==> is_noise(tok),
        t.len() > 0 && is_letter(t[0]) && lowercase(t).len() > 9 && !is_digit(lowercase(t)[1])
            ==> !is_noise(tok),
{
    let l = lowercase(t);
    if t.len() > 0 && (forall|i: int|
        0 <= i < t.len() ==> is_digit(#[trigger] t[i]) || t[i] == '.') && is_digit(t[0]) {
        assert(is_version_text(t));
    }
    if l.len() == 2 && is_letter(l[0]) && is_letter(l[1]) {
        let p = seq![l];
        assert(free_of(l, CharSet::Is('-'))) by {
            assert forall|i: int| 0 <= i < l.len() implies !CharSet::Is('-').has(#[trigger] l[i]) by {
                assert(i == 0 || i == 1);
            }
        }
        joined_texts_are_the_pieces(p, '-');
        assert(joined(p, seq!['-']) == l);
        assert(is_locale_text(l));
    }
    if t.len() > 0 && is_letter(t[0]) && l.len() > 9 && !is_digit(l[1]) {
        lemma_noise_words_are_short(l);
    }
}

proof fn lemma_noise_words_are_short(l: Seq<char>)
    requires
        l.len() > 9,
    ensures
        !is_noise_word(l),
{
    reveal_strlit("x64");
    reveal_strlit("x86");
    reveal_strlit("x86_64");
    reveal_strlit("amd64");
    reveal_strlit("arm64");
    reveal_strlit("aarch64");
    reveal_strlit("32-bit");
    reveal_strlit("64-bit");
    reveal_strlit("win32");
    reveal_strlit("win64");
    reveal_strlit("edition");
    reveal_strlit("version");
    reveal_strlit("setup");
    reveal_strlit("installer");
    reveal_strlit("update");
    reveal_strlit("lts");
    reveal_strlit("stable");
    let p = pieces(l, CharSet::Is('-'));
    lemma_pieces_add_up(l);
}

spec fn summed(p: Seq<Seq<char>>) -> nat
    decreases p.len(),
{
    if p.len() == 0 {
        0
    } else {
        summed(p.drop_last()) + p.last().len()
    }
}

proof fn lemma_pieces_add_up(l: Seq<char>)
    ensures
        summed(pieces(l, CharSet::Is('-'))) + pieces(l, CharSet::Is('-')).len() == l.len() + 1,
        pieces(l, CharSet::Is('-')).len() == 1 ==> pieces(l, CharSet::Is('-'))[0].len() == l.len(),
        pieces(l, CharSet::Is('-')).len() == 2 ==> pieces(l, CharSet::Is('-'))[0].len() + pieces(
            l,
            CharSet::Is('-'),
        )[1].len() + 1 == l.len(),
    decreases l.len(),
{
    reveal_with_fuel(summed, 4);
    let p = pieces(l, CharSet::Is('-'));
    if l.len() > 0 {
        let q = pieces(l.drop_last(), CharSet::Is('-'));
        lemma_pieces_add_up(l.drop_last());
        lemma_pieces_nonempty(l.drop_last(), CharSet::Is('-'));
        assert(q.push(Seq::empty()).drop_last() =~= q);
        assert(q.drop_last().push(q.last().push(l.last())).drop_last() =~= q.drop_last());
    }
    if p.len() == 1 {
        assert(summed(p) == p[0].len());
    }
    if p.len() == 2 {
        assert(p.drop_last().last() == p[0]);
        assert(summed(p) == p[0].len() + p[1].len());
    }
}

} // verus!
