//! What holds of every CPE and of every name that is cleaned.

use vstd::prelude::*;

use crate::cpe::{
    app_cpe, app_name, before_bracket, cpe_version, escaped, escaped_char, is_noise, os_cpe, product_behind,
    suffix_from, without_noise,
};
use crate::host::{windows_version, WinOsView};
use crate::split::{
    all_words, is_word, joined, joined_words_are_the_words, joined_words_are_trimmed, trimming_keeps_characters,
    trimming_keeps_words, words, words_are_words, words_keep_characters,
};
use crate::text::{lowercase, trimmed};
use crate::windows::cpe_of;

verus! {

// ── The parts of a CPE ───────────────────────────────────────────────────────

/// Whether a text ends with a backslash that escapes what follows.
pub open spec fn ends_escaping(s: Seq<char>) -> bool
    decreases s.len(),
{
    s.len() > 0 && s.last() == '\\' && !ends_escaping(s.drop_last())
}

/// The parts of a CPE: what stands between the colons that are not escaped.
pub open spec fn cpe_parts(s: Seq<char>) -> Seq<Seq<char>>
    decreases s.len(),
{
    if s.len() == 0 {
        seq![Seq::empty()]
    } else {
        let before = cpe_parts(s.drop_last());
        if s.last() == ':' && !ends_escaping(s.drop_last()) {
            before.push(Seq::empty())
        } else {
            before.drop_last().push(before.last().push(s.last()))
        }
    }
}

/// Whether a text has no colon that is not escaped, and escapes nothing behind it.
pub open spec fn is_part(x: Seq<char>) -> bool {
    &&& !ends_escaping(x)
    &&& forall|i: int| 0 <= i < x.len() && #[trigger] x[i] == ':' ==> ends_escaping(x.take(i))
}

proof fn lemma_parts_nonempty(s: Seq<char>)
    ensures
        cpe_parts(s).len() >= 1,
    decreases s.len(),
{
    if s.len() > 0 {
        lemma_parts_nonempty(s.drop_last());
    }
}

proof fn lemma_escape_goes_on(a: Seq<char>, x: Seq<char>)
    requires
        !ends_escaping(a),
    ensures
        ends_escaping(a + x) == ends_escaping(x),
    decreases x.len(),
{
    if x.len() == 0 {
        assert(a + x =~= a);
    } else {
        lemma_escape_goes_on(a, x.drop_last());
        assert((a + x).drop_last() =~= a + x.drop_last());
        assert((a + x).last() == x.last());
    }
}

proof fn lemma_text_goes_to_the_last_part(a: Seq<char>, x: Seq<char>)
    requires
        !ends_escaping(a),
        forall|i: int| 0 <= i < x.len() && #[trigger] x[i] == ':' ==> ends_escaping(x.take(i)),
    ensures
        cpe_parts(a + x) == cpe_parts(a).drop_last().push(cpe_parts(a).last() + x),
    decreases x.len(),
{
    lemma_parts_nonempty(a);
    let p = cpe_parts(a);
    if x.len() == 0 {
        assert(a + x =~= a);
        assert(p.last() + x =~= p.last());
        assert(p.drop_last().push(p.last()) =~= p);
    } else {
        let y = x.drop_last();
        assert forall|i: int| 0 <= i < y.len() && #[trigger] y[i] == ':' implies ends_escaping(
            y.take(i),
        ) by {
            assert(x[i] == ':');
            assert(y.take(i) =~= x.take(i));
        }
        lemma_text_goes_to_the_last_part(a, y);
        lemma_escape_goes_on(a, y);
        assert((a + x).drop_last() =~= a + y);
        assert((a + x).last() == x.last());
        assert(x.take(x.len() - 1) =~= y);
        assert(x[x.len() - 1] == x.last());
        let q = p.drop_last().push(p.last() + y);
        assert(q.drop_last() =~= p.drop_last());
        assert((p.last() + y).push(x.last()) =~= p.last() + x);
    }
}

/// Parts that are joined by colons are the parts of what they make.
pub proof fn joined_parts_are_the_parts(p: Seq<Seq<char>>)
    requires
        p.len() >= 1,
        forall|i: int| 0 <= i < p.len() ==> is_part(#[trigger] p[i]),
    ensures
        cpe_parts(joined(p, seq![':'])) == p,
        !ends_escaping(joined(p, seq![':'])),
    decreases p.len(),
{
    let e = Seq::<char>::empty();
    let last = p[p.len() - 1];
    assert(is_part(last));
    if p.len() == 1 {
        lemma_text_goes_to_the_last_part(e, last);
        assert(e + last =~= last);
        assert(cpe_parts(e).drop_last().push(cpe_parts(e).last() + last) =~= p);
    } else {
        let d = p.drop_last();
        assert forall|i: int| 0 <= i < d.len() implies is_part(#[trigger] d[i]) by {
            assert(d[i] == p[i]);
        }
        joined_parts_are_the_parts(d);
        let t = joined(d, seq![':']);
        let u = t + seq![':'];
        assert(u.drop_last() =~= t);
        assert(u.last() == ':');
        assert(cpe_parts(u) == d.push(e));
        assert(!ends_escaping(u));
        lemma_text_goes_to_the_last_part(u, last);
        lemma_escape_goes_on(u, last);
        assert(d.push(e).drop_last() =~= d);
        assert(e + last =~= last);
        assert(d.push(last) =~= p);
    }
}

proof fn lemma_backslash_escapes()
    ensures
        ends_escaping(seq!['\\']),
{
    assert(seq!['\\'].drop_last() =~= Seq::<char>::empty());
    assert(!ends_escaping(Seq::<char>::empty()));
}

/// An escaped value is one part, whatever it holds.
pub proof fn an_escaped_value_is_one_part(v: Seq<char>)
    ensures
        is_part(escaped(v)),
    decreases v.len(),
{
    if v.len() > 0 {
        let a = escaped(v.drop_last());
        let c = v.last();
        let x = escaped_char(c);
        let s = a + x;
        an_escaped_value_is_one_part(v.drop_last());
        assert(!ends_escaping(x)) by {
            if x.len() == 2 {
                assert(x.drop_last() =~= seq!['\\']);
                lemma_backslash_escapes();
            }
        }
        lemma_escape_goes_on(a, x);
        assert forall|i: int| 0 <= i < s.len() && #[trigger] s[i] == ':' implies ends_escaping(
            s.take(i),
        ) by {
            if i < a.len() {
                assert(a[i] == ':');
                assert(s.take(i) =~= a.take(i));
            } else {
                assert(s[i] == x[i - a.len()]);
                assert(i == a.len() + 1 && x.len() == 2);
                assert(s.take(i) =~= a + seq!['\\']);
                lemma_backslash_escapes();
                lemma_escape_goes_on(a, seq!['\\']);
            }
        }
    }
}

proof fn lemma_plain_part(x: Seq<char>)
    requires
        forall|i: int| 0 <= i < x.len() ==> #[trigger] x[i] != ':' && x[i] != '\\',
    ensures
        is_part(x),
{
    if x.len() > 0 {
        assert(x[x.len() - 1] != '\\');
    }
}

proof fn lemma_literal_parts()
    ensures
        is_part("cpe"@),
        is_part("2.3"@),
        is_part("a"@),
        is_part("o"@),
        is_part("microsoft"@),
        is_part("*"@),
{
    reveal_strlit("cpe");
    reveal_strlit("2.3");
    reveal_strlit("a");
    reveal_strlit("o");
    reveal_strlit("microsoft");
    reveal_strlit("*");
    lemma_plain_part("cpe"@);
    lemma_plain_part("2.3"@);
    lemma_plain_part("a"@);
    lemma_plain_part("o"@);
    lemma_plain_part("microsoft"@);
    lemma_plain_part("*"@);
}

/// The parts of the CPE of an application.
pub open spec fn app_parts(vendor: Seq<char>, product: Seq<char>, version: Seq<char>) -> Seq<
    Seq<char>,
> {
    seq![
        "cpe"@,
        "2.3"@,
        "a"@,
        escaped(vendor),
        escaped(product),
        version,
        "*"@,
        "*"@,
        "*"@,
        "*"@,
        "*"@,
        "*"@,
        "*"@,
    ]
}

/// The parts of the CPE of an installation of Windows.
pub open spec fn os_parts(product: Seq<char>, version: Seq<char>, hw: Seq<char>) -> Seq<Seq<char>> {
    seq![
        "cpe"@,
        "2.3"@,
        "o"@,
        "microsoft"@,
        escaped(product),
        escaped(version),
        "*"@,
        "*"@,
        "*"@,
        "*"@,
        "*"@,
        escaped(hw),
        "*"@,
    ]
}

proof fn lemma_app_cpe_is_joined(vendor: Seq<char>, product: Seq<char>, version: Seq<char>)
    ensures
        app_cpe(vendor, product, version) == joined(app_parts(vendor, product, version), seq![':']),
{
    reveal_strlit("cpe:2.3:a:");
    reveal_strlit(":");
    reveal_strlit(":*:*:*:*:*:*:*");
    reveal_strlit("cpe");
    reveal_strlit("2.3");
    reveal_strlit("a");
    reveal_strlit("*");
    let p = app_parts(vendor, product, version);
    let c = seq![':'];
    lemma_joined_step(p, 12);
    lemma_joined_step(p, 11);
    lemma_joined_step(p, 10);
    lemma_joined_step(p, 9);
    lemma_joined_step(p, 8);
    lemma_joined_step(p, 7);
    lemma_joined_step(p, 6);
    lemma_joined_step(p, 5);
    lemma_joined_step(p, 4);
    lemma_joined_step(p, 3);
    lemma_joined_step(p, 2);
    lemma_joined_step(p, 1);
    assert(p.take(1) =~= seq![p[0]]);
    assert(p.take(13) =~= p);
    let head = joined(p.take(3), c);
    assert(head + c =~= "cpe:2.3:a:"@);
    let mid = joined(p.take(6), c);
    assert(mid =~= "cpe:2.3:a:"@ + escaped(vendor) + ":"@ + escaped(product) + ":"@ + version);
    assert(joined(p, c) =~= mid + ":*:*:*:*:*:*:*"@);
}

proof fn lemma_joined_step(p: Seq<Seq<char>>, n: int)
    requires
        1 <= n < p.len(),
    ensures
        joined(p.take(n + 1), seq![':']) == joined(p.take(n), seq![':']) + seq![':'] + p[n],
{
    assert(p.take(n + 1).drop_last() =~= p.take(n));
}

proof fn lemma_os_cpe_is_joined(product: Seq<char>, version: Seq<char>, hw: Seq<char>)
    ensures
        "cpe:2.3:o:microsoft:"@ + escaped(product) + ":"@ + escaped(version) + ":*:*:*:*:*:"@
            + escaped(hw) + ":*"@ == joined(os_parts(product, version, hw), seq![':']),
{
    reveal_strlit("cpe:2.3:o:microsoft:");
    reveal_strlit(":");
    reveal_strlit(":*:*:*:*:*:");
    reveal_strlit(":*");
    reveal_strlit("cpe");
    reveal_strlit("2.3");
    reveal_strlit("o");
    reveal_strlit("microsoft");
    reveal_strlit("*");
    let p = os_parts(product, version, hw);
    let c = seq![':'];
    lemma_joined_step(p, 12);
    lemma_joined_step(p, 11);
    lemma_joined_step(p, 10);
    lemma_joined_step(p, 9);
    lemma_joined_step(p, 8);
    lemma_joined_step(p, 7);
    lemma_joined_step(p, 6);
    lemma_joined_step(p, 5);
    lemma_joined_step(p, 4);
    lemma_joined_step(p, 3);
    lemma_joined_step(p, 2);
    lemma_joined_step(p, 1);
    assert(p.take(1) =~= seq![p[0]]);
    assert(p.take(13) =~= p);
    assert(joined(p.take(4), c) + c =~= "cpe:2.3:o:microsoft:"@);
    let mid = joined(p.take(6), c);
    assert(mid =~= "cpe:2.3:o:microsoft:"@ + escaped(product) + ":"@ + escaped(version));
    assert(joined(p.take(11), c) + c =~= mid + ":*:*:*:*:*:"@);
    assert(joined(p, c) =~= mid + ":*:*:*:*:*:"@ + escaped(hw) + ":*"@);
}

/// The CPE of an application splits at the colons that are not escaped into thirteen
/// parts: vendor, product and version stand in their places, whatever characters they
/// hold, and a version that is not known is any version.
pub proof fn an_app_cpe_has_its_parts(vendor: Seq<char>, product: Seq<char>, version: Seq<char>)
    ensures
        cpe_parts(app_cpe(vendor, product, cpe_version(version))) == app_parts(
            vendor,
            product,
            cpe_version(version),
        ),
        app_parts(vendor, product, cpe_version(version)).len() == 13,
        cpe_version(version) == (if trimmed(version).len() == 0 {
            "*"@
        } else {
            escaped(lowercase(version))
        }),
{
    let p = app_parts(vendor, product, cpe_version(version));
    lemma_app_cpe_is_joined(vendor, product, cpe_version(version));
    lemma_literal_parts();
    an_escaped_value_is_one_part(vendor);
    an_escaped_value_is_one_part(product);
    an_escaped_value_is_one_part(lowercase(version));
    assert forall|i: int| 0 <= i < p.len() implies is_part(#[trigger] p[i]) by {
        assert(i <= 2 || i == 3 || i == 4 || i == 5 || p[i] == "*"@);
    }
    joined_parts_are_the_parts(p);
}

/// The CPE of Windows splits into thirteen parts in the same way.
pub proof fn an_os_cpe_has_its_parts(w: WinOsView)
    ensures
        ({
            let p = cpe_parts(os_cpe(w));
            &&& p.len() == 13
            &&& p[3] == "microsoft"@
            &&& p[5] == escaped(windows_version(w.build, w.ubr))
            &&& w.product.len() > 0 ==> p[4] == escaped(w.product)
            &&& w.arch.len() > 0 ==> p[11] == escaped(w.arch)
        }),
{
    let product = if w.product.len() > 0 {
        w.product
    } else if w.is_server {
        "windows_server"@
    } else {
        "windows"@
    };
    let hw = if w.arch.len() == 0 {
        "*"@
    } else {
        w.arch
    };
    let version = windows_version(w.build, w.ubr);
    let p = os_parts(product, version, hw);
    lemma_os_cpe_is_joined(product, version, hw);
    lemma_literal_parts();
    an_escaped_value_is_one_part(product);
    an_escaped_value_is_one_part(version);
    an_escaped_value_is_one_part(hw);
    assert forall|i: int| 0 <= i < p.len() implies is_part(#[trigger] p[i]) by {
        assert(i <= 3 || i == 4 || i == 5 || i == 11 || p[i] == "*"@);
    }
    joined_parts_are_the_parts(p);
}

/// Whether an application has a CPE rests on its name alone, and so do vendor and product
/// in it.
pub proof fn the_name_decides_vendor_and_product(name: Seq<char>, a: Seq<char>, b: Seq<char>)
    ensures
        cpe_of(name, a) is Some <==> cpe_of(name, b) is Some,
        cpe_of(name, a) is Some ==> {
            let x = cpe_parts(cpe_of(name, a)->0);
            let y = cpe_parts(cpe_of(name, b)->0);
            x.len() == 13 && y.len() == 13 && x[3] == y[3] && x[4] == y[4]
        },
{
    if let Some((vendor, product)) = product_behind(lowercase(trimmed(name))) {
        an_app_cpe_has_its_parts(vendor, product, a);
        an_app_cpe_has_its_parts(vendor, product, b);
    }
}

// ── Names ────────────────────────────────────────────────────────────────────

proof fn lemma_without_noise(w: Seq<Seq<char>>)
    ensures
        ({
            let n = without_noise(w).len();
            &&& n <= w.len()
            &&& without_noise(w) == w.take(n as int)
            &&& forall|j: int| n <= j < w.len() ==> is_noise(#[trigger] w[j])
            &&& n > 0 ==> !is_noise(w[n - 1])
        }),
    decreases w.len(),
{
    if w.len() > 0 && is_noise(w.last()) {
        let d = w.drop_last();
        lemma_without_noise(d);
        let n = without_noise(d).len();
        assert(d.take(n as int) =~= w.take(n as int));
        assert forall|j: int| n <= j < w.len() implies is_noise(#[trigger] w[j]) by {
            if j < d.len() {
                assert(d[j] == w[j]);
            }
        }
    } else {
        assert(w.take(w.len() as int) =~= w);
    }
}

/// The words of a name that are kept: those before the noise at the end, or all of them
/// where there is nothing else.
pub open spec fn kept_words(w: Seq<Seq<char>>) -> Seq<Seq<char>> {
    if without_noise(w).len() == 0 {
        w
    } else {
        without_noise(w)
    }
}

proof fn lemma_name_is_joined(raw: Seq<char>)
    ensures
        app_name(raw) == joined(kept_words(words(before_bracket(raw))), seq![' ']),
        all_words(kept_words(words(before_bracket(raw)))),
{
    let w = words(before_bracket(raw));
    words_are_words(before_bracket(raw));
    lemma_without_noise(w);
    let k = kept_words(w);
    assert forall|i: int| 0 <= i < k.len() implies is_word(#[trigger] k[i]) by {
        assert(k[i] == w[i]);
    }
    joined_words_are_trimmed(k);
    reveal_strlit(" ");
    assert(" "@ =~= seq![' ']);
}

/// A name without brackets at its end keeps the words before the noise: all words behind
/// them are noise, and the last of them is not, unless every word of the name is noise, in
/// which case all of them stay.
pub proof fn a_name_keeps_the_words_before_the_noise(raw: Seq<char>)
    requires
        suffix_from(trimmed(raw), 0) is None,
    ensures
        ({
            let w = words(raw);
            let n = without_noise(w).len();
            &&& app_name(raw) == joined(
                w.take(
                    if n == 0 {
                        w.len() as int
                    } else {
                        n as int
                    },
                ),
                seq![' '],
            )
            &&& n <= w.len()
            &&& forall|j: int| n <= j < w.len() ==> is_noise(#[trigger] w[j])
            &&& n > 0 ==> !is_noise(w[n - 1])
            &&& w.len() > 0 ==> app_name(raw).len() > 0
        }),
{
    let w = words(raw);
    trimming_keeps_words(raw);
    lemma_name_is_joined(raw);
    lemma_without_noise(w);
    joined_words_are_trimmed(kept_words(w));
    assert(w.take(w.len() as int) =~= w);
}

/// Cleaning a name twice changes nothing, unless the noise that was dropped stood behind
/// a bracket.
pub proof fn cleaning_twice_changes_nothing(raw: Seq<char>)
    requires
        suffix_from(app_name(raw), 0) is None,
    ensures
        app_name(app_name(raw)) == app_name(raw),
{
    let w = words(before_bracket(raw));
    let k = kept_words(w);
    let r = app_name(raw);
    lemma_name_is_joined(raw);
    joined_words_are_trimmed(k);
    joined_words_are_the_words(k);
    lemma_without_noise(w);
    assert(before_bracket(r) == r);
    assert(words(r) == k);
    if without_noise(w).len() > 0 {
        assert(!is_noise(k.last()));
        assert(without_noise(k) == k);
    }
    lemma_name_is_joined(r);
}

proof fn lemma_no_suffix_without_bracket(s: Seq<char>, i: int)
    requires
        !s.contains('('),
    ensures
        suffix_from(s, i) is None,
    decreases s.len() - i,
{
    if 0 <= i < s.len() {
        assert(s.contains(s[i]));
        lemma_no_suffix_without_bracket(s, i + 1);
    }
}

proof fn lemma_joined_characters(w: Seq<Seq<char>>, c: char)
    requires
        c != ' ',
        forall|i: int| 0 <= i < w.len() ==> !(#[trigger] w[i]).contains(c),
    ensures
        !joined(w, seq![' ']).contains(c),
    decreases w.len(),
{
    let s = joined(w, seq![' ']);
    if w.len() > 1 {
        let d = w.drop_last();
        assert forall|i: int| 0 <= i < d.len() implies !(#[trigger] d[i]).contains(c) by {
            assert(d[i] == w[i]);
        }
        lemma_joined_characters(d, c);
        let a = joined(d, seq![' ']);
        let last = w[w.len() - 1];
        assert(!last.contains(c));
        if s.contains(c) {
            let i = choose|i: int| 0 <= i < s.len() && s[i] == c;
            if i < a.len() {
                assert(a[i] == c);
            } else if i > a.len() {
                assert(last[i - a.len() - 1] == c);
            }
        }
    } else if w.len() == 1 {
        assert(!w[0].contains(c));
    }
}

/// A name without a bracket is clean once it was cleaned.
pub proof fn a_name_without_brackets_is_cleaned_once(raw: Seq<char>)
    requires
        !raw.contains('('),
    ensures
        suffix_from(trimmed(raw), 0) is None,
        app_name(app_name(raw)) == app_name(raw),
{
    trimming_keeps_characters(raw, '(');
    lemma_no_suffix_without_bracket(trimmed(raw), 0);
    let w = words(before_bracket(raw));
    lemma_name_is_joined(raw);
    lemma_without_noise(w);
    words_keep_characters(before_bracket(raw), '(');
    let k = kept_words(w);
    assert forall|i: int| 0 <= i < k.len() implies !(#[trigger] k[i]).contains('(') by {
        assert(k[i] == w[i]);
    }
    lemma_joined_characters(k, '(');
    lemma_no_suffix_without_bracket(app_name(raw), 0);
    cleaning_twice_changes_nothing(raw);
}

} // verus!
