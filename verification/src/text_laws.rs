//! What trimming, cutting and reading lines leave of a text.

use vstd::prelude::*;

use crate::order::precedes;
use crate::split::{
    chomped_all, cut, cut_last, free_of, joined, joined_texts_are_the_pieces, last_place_to, pieces, second_piece,
    text_lines, with_chars_replaced, with_first_replaced,
};
use crate::table::{lookup_after_put, put_behind, values_at};
use crate::text::{
    after_prefix, ascii_lower, ascii_upper, before_suffix, byte_count, first_chars, is_lower, is_upper,
    lemma_place_from, occurs, occurs_at, place, trimmed_end, trimmed_of, trimmed_start, CharSet,
};

verus! {

// ── Trimming ─────────────────────────────────────────────────────────────────

proof fn lemma_trimmed_start(a: Seq<char>, s: Seq<char>, set: CharSet)
    requires
        forall|i: int| 0 <= i < a.len() ==> set.has(#[trigger] a[i]),
        s.len() > 0 ==> !set.has(s[0]),
    ensures
        trimmed_start(a + s, set) == s,
    decreases a.len(),
{
    if a.len() == 0 {
        assert(a + s =~= s);
    } else {
        assert((a + s)[0] == a[0]);
        assert((a + s).skip(1) =~= a.skip(1) + s);
        assert forall|i: int| 0 <= i < a.skip(1).len() implies set.has(#[trigger] a.skip(1)[i]) by {
            assert(a.skip(1)[i] == a[i + 1]);
        }
        lemma_trimmed_start(a.skip(1), s, set);
    }
}

proof fn lemma_trimmed_end(s: Seq<char>, b: Seq<char>, set: CharSet)
    requires
        forall|i: int| 0 <= i < b.len() ==> set.has(#[trigger] b[i]),
        s.len() > 0 ==> !set.has(s[s.len() - 1]),
    ensures
        trimmed_end(s + b, set) == s,
    decreases b.len(),
{
    if b.len() == 0 {
        assert(s + b =~= s);
    } else {
        assert((s + b).last() == b[b.len() - 1]);
        assert((s + b).drop_last() =~= s + b.drop_last());
        assert forall|i: int| 0 <= i < b.drop_last().len() implies set.has(
            #[trigger] b.drop_last()[i],
        ) by {
            assert(b.drop_last()[i] == b[i]);
        }
        lemma_trimmed_end(s, b.drop_last(), set);
    }
}

/// Trimming takes off what is around a text, and no more than that.
pub proof fn trimming_takes_off_what_is_around(
    a: Seq<char>,
    s: Seq<char>,
    b: Seq<char>,
    set: CharSet,
)
    requires
        s.len() > 0,
        !set.has(s[0]),
        !set.has(s[s.len() - 1]),
        forall|i: int| 0 <= i < a.len() ==> set.has(#[trigger] a[i]),
        forall|i: int| 0 <= i < b.len() ==> set.has(#[trigger] b[i]),
    ensures
        trimmed_of(a + s + b, set) == s,
        trimmed_of(s, set) == s,
{
    assert(a + s + b =~= a + (s + b));
    assert((s + b)[0] == s[0]);
    lemma_trimmed_start(a, s + b, set);
    lemma_trimmed_end(s, b, set);
    let none = Seq::<char>::empty();
    lemma_trimmed_start(none, s, set);
    lemma_trimmed_end(s, none, set);
    assert(none + s =~= s);
    assert(s + none =~= s);
}

/// A text of nothing but what is trimmed is trimmed to nothing.
pub proof fn nothing_is_left_of_what_is_trimmed(a: Seq<char>, set: CharSet)
    requires
        forall|i: int| 0 <= i < a.len() ==> set.has(#[trigger] a[i]),
    ensures
        trimmed_of(a, set).len() == 0,
{
    let none = Seq::<char>::empty();
    lemma_trimmed_start(a, none, set);
    assert(a + none =~= a);
}

// ── Prefixes and suffixes ────────────────────────────────────────────────────

/// What stands behind a prefix, or before a suffix, is what it was put to.
pub proof fn prefixes_and_suffixes_come_off(p: Seq<char>, s: Seq<char>)
    ensures
        after_prefix(p + s, p) == Some(s),
        before_suffix(s + p, p) == Some(s),
        after_prefix(s, p) matches Some(rest) ==> s == p + rest,
        before_suffix(s, p) matches Some(rest) ==> s == rest + p,
{
    assert((p + s).take(p.len() as int) =~= p);
    assert((p + s).skip(p.len() as int) =~= s);
    let n = s.len() as int;
    assert((s + p).skip((s + p).len() - p.len()) =~= p);
    assert((s + p).take((s + p).len() - p.len()) =~= s);
    if let Some(rest) = after_prefix(s, p) {
        assert(s =~= p + rest);
    }
    if let Some(rest) = before_suffix(s, p) {
        assert(s =~= rest + p);
    }
}

// ── Cutting ──────────────────────────────────────────────────────────────────

/// A text is cut at the first place where the mark stands, or at the last: the parts make up
/// the text with the mark between them. A text without the mark is not cut.
pub proof fn a_text_is_cut_at_the_mark(s: Seq<char>, p: Seq<char>)
    ensures
        cut(s, p) is Some <==> occurs(s, p),
        cut(s, p) matches Some((a, b)) ==> s == a + p + b && forall|k: int|
            0 <= k < a.len() ==> !occurs_at(s, p, k),
        cut_last(s, p) matches Some((a, b)) ==> s == a + p + b && forall|k: int|
            a.len() < k ==> !occurs_at(s, p, k),
        p.len() <= s.len() ==> (cut_last(s, p) is Some <==> occurs(s, p)),
{
    lemma_place_from(s, p, 0);
    if let Some((a, b)) = cut(s, p) {
        let k = place(s, p)->0;
        assert(s =~= a + p + b) by {
            assert(s.subrange(k, k + p.len()) == p);
            assert(s =~= s.take(k) + s.subrange(k, k + p.len()) + s.skip(k + p.len()));
        }
        assert(occurs_at(s, p, k));
    }
    if occurs(s, p) {
        let i = choose|i: int| occurs_at(s, p, i);
        assert(occurs_at(s, p, i));
    }
    lemma_last_place(s, p, s.len() - p.len());
    if let Some((a, b)) = cut_last(s, p) {
        let k = last_place_to(s, p, s.len() - p.len())->0;
        assert(s =~= a + p + b) by {
            assert(s.subrange(k, k + p.len()) == p);
            assert(s =~= s.take(k) + s.subrange(k, k + p.len()) + s.skip(k + p.len()));
        }
        assert(occurs_at(s, p, k));
    }
}

proof fn lemma_last_place(s: Seq<char>, p: Seq<char>, i: int)
    ensures
        match last_place_to(s, p, i) {
            Some(k) => 0 <= k <= i && occurs_at(s, p, k) && forall|m: int|
                k < m <= i ==> !occurs_at(s, p, m),
            None => forall|m: int| m <= i ==> !occurs_at(s, p, m),
        },
    decreases i + 1,
{
    if i >= 0 && !occurs_at(s, p, i) {
        lemma_last_place(s, p, i - 1);
    }
}

/// What stands between the first two marks of a text is its second piece.
pub proof fn the_second_piece_is_behind_the_first_mark(s: Seq<char>, p: Seq<char>)
    ensures
        second_piece(s, p) is Some <==> occurs(s, p),
        cut(s, p) matches Some((a, rest)) ==> (cut(rest, p) is None ==> second_piece(s, p) == Some(
            rest,
        )) && (cut(rest, p) is Some ==> second_piece(s, p) == Some((cut(rest, p)->0).0)),
{
    a_text_is_cut_at_the_mark(s, p);
}

// ── Replacing ────────────────────────────────────────────────────────────────

/// Replacing characters changes those that are replaced, and no other.
pub proof fn only_the_characters_of_the_set_are_replaced(
    s: Seq<char>,
    set: CharSet,
    to: char,
    i: int,
)
    requires
        0 <= i < s.len(),
    ensures
        with_chars_replaced(s, set, to).len() == s.len(),
        set.has(s[i]) ==> with_chars_replaced(s, set, to)[i] == to,
        !set.has(s[i]) ==> with_chars_replaced(s, set, to)[i] == s[i],
{
}

/// Replacing a text that does not stand in another leaves that as it is; where it stands, only
/// its first place changes.
pub proof fn only_the_first_place_is_replaced(s: Seq<char>, from: Seq<char>, to: Seq<char>)
    ensures
        !occurs(s, from) ==> with_first_replaced(s, from, to) == s,
        cut(s, from) matches Some((a, b)) ==> with_first_replaced(s, from, to) == a + to + b,
{
    a_text_is_cut_at_the_mark(s, from);
}

// ── Case ─────────────────────────────────────────────────────────────────────

/// Making letters small leaves no capital, and changes nothing that has none.
pub proof fn small_letters_have_no_capital(s: Seq<char>, i: int)
    requires
        0 <= i < s.len(),
    ensures
        ascii_lower(s).len() == s.len(),
        !is_upper(ascii_lower(s)[i]),
        !is_upper(s[i]) ==> ascii_lower(s)[i] == s[i],
        is_upper(s[i]) ==> ascii_lower(s)[i] as u32 == s[i] as u32 + 32,
        ascii_upper(s).len() == s.len(),
        !is_lower(ascii_upper(s)[i]),
        !is_lower(s[i]) ==> ascii_upper(s)[i] == s[i],
        ascii_lower(ascii_lower(s)) == ascii_lower(s),
{
    assert(ascii_lower(ascii_lower(s)) =~= ascii_lower(s));
}

/// The start of a text is that of so many characters, or the text where it has no more.
pub proof fn the_start_of_a_text_is_its_start(s: Seq<char>, n: int)
    requires
        0 <= n,
    ensures
        s.len() <= n ==> first_chars(s, n) == s,
        s.len() > n ==> first_chars(s, n) == s.take(n),
{
    assert(s.take(s.len() as int) =~= s);
}

/// A text has no fewer bytes than characters, and as many where each is of ASCII.
pub proof fn bytes_are_no_fewer_than_characters(s: Seq<char>)
    ensures
        s.len() <= byte_count(s) <= 4 * s.len(),
        (forall|i: int| 0 <= i < s.len() ==> (#[trigger] s[i] as u32) < 128) ==> byte_count(s)
            == s.len(),
    decreases s.len(),
{
    if s.len() > 0 {
        bytes_are_no_fewer_than_characters(s.drop_last());
        if forall|i: int| 0 <= i < s.len() ==> (#[trigger] s[i] as u32) < 128 {
            assert forall|i: int| 0 <= i < s.drop_last().len() implies (
            #[trigger] s.drop_last()[i] as u32) < 128 by {
                assert(s.drop_last()[i] == s[i]);
            }
            assert((s[s.len() - 1] as u32) < 128);
        }
    }
}

// ── Lines ────────────────────────────────────────────────────────────────────

/// The lines of a text that is made of lines are those lines, whether the last of them ends in a
/// line feed or not.
pub proof fn the_lines_of_joined_lines_are_the_lines(p: Seq<Seq<char>>)
    requires
        p.len() > 0,
        p.last().len() > 0,
        forall|i: int|
            0 <= i < p.len() ==> free_of(#[trigger] p[i], CharSet::Is('\n')) && free_of(
                p[i],
                CharSet::Is('\r'),
            ),
    ensures
        text_lines(joined(p, seq!['\n'])) == p,
        text_lines(joined(p, seq!['\n']) + seq!['\n']) == p,
{
    joined_texts_are_the_pieces(p, '\n');
    let d = p.drop_last();
    assert(chomped_all(d) =~= d) by {
        assert forall|i: int| 0 <= i < d.len() implies chomped_all(d)[i] == d[i] by {
            assert(d[i] == p[i]);
            assert(free_of(p[i], CharSet::Is('\r')));
            if d[i].len() > 0 {
                assert(!CharSet::Is('\r').has(d[i][d[i].len() - 1]));
            }
        }
    }
    assert(d.push(p.last()) =~= p);
    let s = joined(p, seq!['\n']);
    let t = s + seq!['\n'];
    assert(t.drop_last() =~= s);
    assert(t.last() == '\n');
    assert(pieces(t, CharSet::Is('\n')) == p.push(Seq::<char>::empty()));
    assert(p.push(Seq::<char>::empty()).drop_last() =~= p);
    assert(chomped_all(p) =~= p) by {
        assert forall|i: int| 0 <= i < p.len() implies chomped_all(p)[i] == p[i] by {
            assert(free_of(p[i], CharSet::Is('\r')));
            if p[i].len() > 0 {
                assert(!CharSet::Is('\r').has(p[i][p[i].len() - 1]));
            }
        }
    }
}

// ── Order ────────────────────────────────────────────────────────────────────

/// Of two texts that begin alike the one with the lower character where they first differ comes first,
/// and a text comes before those that go on from it.
pub proof fn the_first_difference_decides(p: Seq<char>, x: Seq<char>, y: Seq<char>)
    ensures
        x.len() > 0 && y.len() > 0 && (x[0] as int) < (y[0] as int) ==> precedes(p + x, p + y)
            && !precedes(p + y, p + x),
        x.len() > 0 ==> precedes(p, p + x) && !precedes(p + x, p),
        !precedes(p, p),
    decreases p.len(),
{
    if p.len() == 0 {
        assert(p + x =~= x);
        assert(p + y =~= y);
    } else {
        let q = p.skip(1);
        the_first_difference_decides(q, x, y);
        assert((p + x)[0] == p[0] && (p + y)[0] == p[0]);
        assert((p + x).skip(1) =~= q + x);
        assert((p + y).skip(1) =~= q + y);
    }
}

/// What is put behind what a key has stands behind it, and the other keys have what they had.
pub proof fn what_is_put_behind_stands_behind<A>(
    m: Seq<(Seq<char>, Seq<A>)>,
    k: Seq<char>,
    x: A,
    other: Seq<char>,
)
    ensures
        values_at(put_behind(m, k, x), k) == values_at(m, k).push(x),
        other != k ==> values_at(put_behind(m, k, x), other) == values_at(m, other),
{
    lookup_after_put(m, k, values_at(m, k).push(x), k);
    lookup_after_put(m, k, values_at(m, k).push(x), other);
}

} // verus!
