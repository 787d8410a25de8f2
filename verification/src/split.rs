//! Taking texts apart and putting them together.

use vstd::prelude::*;

use crate::text::{
    char_count, chars_before, chars_of, concat2, find, is_space, occurs_at, opt_pair_view, opt_str_view, opt_view,
    own, place, skip_chars, starts_with, string_of, trimmed, trimmed_end, trimmed_start, views, CharSet,
};

verus! {

// ── Pieces between separators ────────────────────────────────────────────────

/// The pieces of `s` between the characters of `set`: one more than there are
/// such characters.
pub open spec fn pieces(s: Seq<char>, set: CharSet) -> Seq<Seq<char>>
    decreases s.len(),
{
    if s.len() == 0 {
        seq![Seq::empty()]
    } else {
        let before = pieces(s.drop_last(), set);
        if set.has(s.last()) {
            before.push(Seq::empty())
        } else {
            before.drop_last().push(before.last().push(s.last()))
        }
    }
}

/// There is at least one piece.
pub proof fn lemma_pieces_nonempty(s: Seq<char>, set: CharSet)
    ensures
        pieces(s, set).len() >= 1,
    decreases s.len(),
{
    if s.len() > 0 {
        lemma_pieces_nonempty(s.drop_last(), set);
    }
}

/// The texts among `p` that hold a character.
pub open spec fn nonempty(p: Seq<Seq<char>>) -> Seq<Seq<char>>
    decreases p.len(),
{
    if p.len() == 0 {
        p
    } else if p.last().len() > 0 {
        nonempty(p.drop_last()).push(p.last())
    } else {
        nonempty(p.drop_last())
    }
}

/// The runs of characters between white space.
pub open spec fn words(s: Seq<char>) -> Seq<Seq<char>> {
    nonempty(pieces(s, CharSet::Space))
}

/// The first of a list of texts, where there is one.
pub open spec fn first_of(p: Seq<Seq<char>>) -> Option<Seq<char>> {
    nth_of(p, 0)
}

/// The text at the place `i` of a list, where there is one.
pub open spec fn nth_of(p: Seq<Seq<char>>, i: int) -> Option<Seq<char>> {
    if 0 <= i < p.len() {
        Some(p[i])
    } else {
        None
    }
}

/// The pieces of `s` between the characters of `set`.
pub fn split(s: &str, set: CharSet) -> (r: Vec<String>)
    ensures
        views(r@) == pieces(s@, set),
        r@.len() >= 1,
{
    let v = chars_of(s);
    let mut done: Vec<String> = Vec::new();
    let mut cur = String::new();
    let mut i: usize = 0;
    assert(pieces(s@.take(0), set) =~= views(done@).push(cur@));
    while i < v.len()
        invariant
            i <= v@.len(),
            v@ == s@,
            pieces(s@.take(i as int), set) == views(done@).push(cur@),
        decreases v@.len() - i,
    {
        let c = v[i];
        let ghost before = views(done@);
        proof {
            assert(s@.take(i + 1).drop_last() =~= s@.take(i as int));
            assert(before.push(cur@).drop_last() =~= before);
        }
        if set.contains(c) {
            done.push(cur);
            cur = String::new();
            assert(views(done@) =~= before.push(done@.last()@));
        } else {
            cur.push(c);
        }
        i += 1;
    }
    assert(s@.take(s@.len() as int) =~= s@);
    let ghost before = views(done@);
    let ghost last = cur@;
    done.push(cur);
    assert(views(done@) =~= before.push(last));
    done
}

/// The runs of characters between white space.
pub fn split_whitespace(s: &str) -> (r: Vec<String>)
    ensures
        views(r@) == words(s@),
{
    let all = split(s, CharSet::Space);
    let mut out: Vec<String> = Vec::new();
    let mut i: usize = 0;
    let ghost p = views(all@);
    assert(views(out@) =~= nonempty(p.take(0)));
    while i < all.len()
        invariant
            i <= all@.len(),
            p == views(all@),
            views(out@) == nonempty(p.take(i as int)),
        decreases all@.len() - i,
    {
        let ghost before = views(out@);
        proof {
            assert(p.take(i + 1).drop_last() =~= p.take(i as int));
            assert(p.take(i + 1).last() == all@[i as int]@);
        }
        if !all[i].as_str().is_empty() {
            out.push(all[i].clone());
            assert(views(out@) =~= before.push(all@[i as int]@));
        }
        i += 1;
    }
    assert(p.take(p.len() as int) =~= p);
    out
}

/// The text at the place `i`, where there is one.
pub fn nth<'a>(v: &'a Vec<String>, i: usize) -> (r: Option<&'a str>)
    ensures
        opt_str_view(r) == nth_of(views(v@), i as int),
{
    if i < v.len() {
        Some(v[i].as_str())
    } else {
        None
    }
}

/// The piece before the first character of `set`.
pub fn first_piece(s: &str, set: CharSet) -> (r: String)
    ensures
        r@ == pieces(s@, set)[0],
{
    let p = split(s, set);
    assert(views(p@)[0] == p@[0]@);
    p[0].clone()
}

/// The piece behind the last character of `set`.
pub fn last_piece(s: &str, set: CharSet) -> (r: String)
    ensures
        r@ == pieces(s@, set).last(),
{
    let p = split(s, set);
    assert(views(p@).last() == p@[p@.len() - 1]@);
    p[p.len() - 1].clone()
}

// ── Lines ────────────────────────────────────────────────────────────────────

/// A line that ended in a line feed, without a carriage return before it.
pub open spec fn chomped(l: Seq<char>) -> Seq<char> {
    if l.len() > 0 && l.last() == '\r' {
        l.drop_last()
    } else {
        l
    }
}

/// The first `n` of the pieces, each as a line that ended in a line feed.
pub open spec fn chomped_all(p: Seq<Seq<char>>) -> Seq<Seq<char>> {
    Seq::new(p.len(), |i: int| chomped(p[i]))
}

/// The lines of a text. A line feed ends a line, together with a carriage return
/// before it; what follows the last line feed is a line where it is not empty.
pub open spec fn text_lines(s: Seq<char>) -> Seq<Seq<char>> {
    let p = pieces(s, CharSet::Is('\n'));
    let ended = chomped_all(p.drop_last());
    if p.last().len() == 0 {
        ended
    } else {
        ended.push(p.last())
    }
}

fn chomp(l: &str) -> (r: String)
    ensures
        r@ == chomped(l@),
{
    let v = chars_of(l);
    if v.len() > 0 && v[v.len() - 1] == '\r' {
        let r = string_of(&v, 0, v.len() - 1);
        assert(r@ =~= l@.drop_last());
        r
    } else {
        own(l)
    }
}

/// The lines of a text.
pub fn lines(s: &str) -> (r: Vec<String>)
    ensures
        views(r@) == text_lines(s@),
{
    let all = split(s, CharSet::Is('\n'));
    let ghost p = views(all@);
    let mut out: Vec<String> = Vec::new();
    let mut i: usize = 0;
    let n: usize = all.len() - 1;
    while i < n
        invariant
            i <= n,
            n == all@.len() - 1,
            p == views(all@),
            views(out@) =~= chomped_all(p.take(i as int)),
        decreases n - i,
    {
        let ghost before = views(out@);
        out.push(chomp(all[i].as_str()));
        assert(views(out@) =~= before.push(chomped(p[i as int])));
        assert(chomped_all(p.take(i + 1)) =~= chomped_all(p.take(i as int)).push(
            chomped(p[i as int]),
        ));
        i += 1;
    }
    assert(p.take(n as int) =~= p.drop_last());
    if !all[n].as_str().is_empty() {
        let ghost before = views(out@);
        out.push(all[n].clone());
        assert(views(out@) =~= before.push(p.last()));
    }
    out
}

// ── Cutting in two ───────────────────────────────────────────────────────────

/// The texts before and behind the first occurrence of `p`.
pub open spec fn cut(s: Seq<char>, p: Seq<char>) -> Option<(Seq<char>, Seq<char>)> {
    match place(s, p) {
        Some(k) => Some((s.take(k), s.skip(k + p.len()))),
        None => None,
    }
}

/// The last place up to `i` at which `p` stands in `s`.
pub open spec fn last_place_to(s: Seq<char>, p: Seq<char>, i: int) -> Option<int>
    decreases i + 1,
{
    if i < 0 {
        None
    } else if occurs_at(s, p, i) {
        Some(i)
    } else {
        last_place_to(s, p, i - 1)
    }
}

/// The texts before and behind the last occurrence of `p`.
pub open spec fn cut_last(s: Seq<char>, p: Seq<char>) -> Option<(Seq<char>, Seq<char>)> {
    match last_place_to(s, p, s.len() - p.len()) {
        Some(k) => Some((s.take(k), s.skip(k + p.len()))),
        None => None,
    }
}

/// The text between the first and the second occurrence of `p`, or to the end
/// where there is no second.
pub open spec fn second_piece(s: Seq<char>, p: Seq<char>) -> Option<Seq<char>> {
    match cut(s, p) {
        Some((_, rest)) => match cut(rest, p) {
            Some((mid, _)) => Some(mid),
            None => Some(rest),
        },
        None => None,
    }
}

/// Cuts at the first occurrence of `p`.
pub fn split_once(s: &str, p: &str) -> (r: Option<(String, String)>)
    ensures
        opt_pair_view(r) == cut(s@, p@),
{
    match find(s, p) {
        Some(k) => {
            let n = char_count(p);
            let m = char_count(s);
            Some((chars_before(s, k), skip_chars(s, k + n)))
        },
        None => None,
    }
}

/// Cuts at the last occurrence of `p`.
pub fn rsplit_once(s: &str, p: &str) -> (r: Option<(String, String)>)
    ensures
        opt_pair_view(r) == cut_last(s@, p@),
{
    let n = char_count(p);
    let m = char_count(s);
    if n > m {
        return None;
    }
    let mut i: usize = m - n;
    loop
        invariant
            i <= m - n,
            n == p@.len(),
            m == s@.len(),
            n <= m,
            last_place_to(s@, p@, s@.len() - p@.len()) == last_place_to(s@, p@, i as int),
        decreases i,
    {
        let tail = skip_chars(s, i);
        assert(tail@.take(n as int) =~= s@.subrange(i as int, i + n));
        if starts_with(tail.as_str(), p) {
            return Some((chars_before(s, i), skip_chars(s, i + n)));
        }
        if i == 0 {
            assert(last_place_to(s@, p@, -1) is None);
            return None;
        }
        i -= 1;
    }
}

/// The text between the first and the second occurrence of `p`.
pub fn split_second(s: &str, p: &str) -> (r: Option<String>)
    ensures
        opt_view(r) == second_piece(s@, p@),
{
    match split_once(s, p) {
        Some((_, rest)) => match split_once(rest.as_str(), p) {
            Some((mid, _)) => Some(mid),
            None => Some(rest),
        },
        None => None,
    }
}

// ── Joining and replacing ────────────────────────────────────────────────────

/// The texts one behind the other, with `sep` between them.
pub open spec fn joined(p: Seq<Seq<char>>, sep: Seq<char>) -> Seq<char>
    decreases p.len(),
{
    if p.len() == 0 {
        Seq::empty()
    } else if p.len() == 1 {
        p[0]
    } else {
        joined(p.drop_last(), sep) + sep + p.last()
    }
}

/// Joins the first `n` texts.
pub fn join_first(p: &Vec<String>, n: usize, sep: &str) -> (r: String)
    requires
        n <= p@.len(),
    ensures
        r@ == joined(views(p@).take(n as int), sep@),
{
    let mut out = String::new();
    let mut i: usize = 0;
    let ghost q = views(p@);
    while i < n
        invariant
            i <= n <= p@.len(),
            q == views(p@),
            out@ == joined(q.take(i as int), sep@),
        decreases n - i,
    {
        proof {
            assert(q.take(i + 1).drop_last() =~= q.take(i as int));
            assert(q.take(i + 1).last() == p@[i as int]@);
        }
        if i > 0 {
            out.append(sep);
        }
        out.append(p[i].as_str());
        assert(i == 0 ==> out@ =~= p@[0]@);
        i += 1;
    }
    out
}

/// Joins the texts with `sep` between them.
pub fn join(p: &Vec<String>, sep: &str) -> (r: String)
    ensures
        r@ == joined(views(p@), sep@),
{
    assert(views(p@).take(p@.len() as int) =~= views(p@));
    join_first(p, p.len(), sep)
}

/// The text with each character of `set` replaced by `to`.
pub open spec fn with_chars_replaced(s: Seq<char>, set: CharSet, to: char) -> Seq<char> {
    Seq::new(
        s.len(),
        |i: int|
            if set.has(s[i]) {
                to
            } else {
                s[i]
            },
    )
}

pub fn replace_chars(s: &str, set: CharSet, to: char) -> (r: String)
    ensures
        r@ == with_chars_replaced(s@, set, to),
{
    let v = chars_of(s);
    let mut out = String::new();
    let mut i: usize = 0;
    let ghost w = with_chars_replaced(s@, set, to);
    while i < v.len()
        invariant
            i <= v@.len(),
            v@ == s@,
            w == with_chars_replaced(s@, set, to),
            out@ == w.take(i as int),
        decreases v@.len() - i,
    {
        if set.contains(v[i]) {
            out.push(to);
        } else {
            out.push(v[i]);
        }
        i += 1;
        assert(w.take(i as int) =~= w.take(i - 1).push(w[i - 1]));
    }
    assert(w.take(s@.len() as int) =~= w);
    out
}

/// The text with the first occurrence of `from` replaced by `to`.
pub open spec fn with_first_replaced(s: Seq<char>, from: Seq<char>, to: Seq<char>) -> Seq<char> {
    match cut(s, from) {
        Some((a, b)) => a + to + b,
        None => s,
    }
}

pub fn replace_first(s: &str, from: &str, to: &str) -> (r: String)
    ensures
        r@ == with_first_replaced(s@, from@, to@),
{
    match split_once(s, from) {
        Some((a, b)) => {
            let x = concat2(a.as_str(), to);
            concat2(x.as_str(), b.as_str())
        },
        None => own(s),
    }
}

// ── Joining and splitting ────────────────────────────────────────────────────

/// Whether no character of `set` stands in the text.
pub open spec fn free_of(s: Seq<char>, set: CharSet) -> bool {
    forall|i: int| 0 <= i < s.len() ==> !set.has(#[trigger] s[i])
}

/// No piece of a text holds a character that it is split at.
pub proof fn pieces_are_free(s: Seq<char>, set: CharSet)
    ensures
        forall|i: int| 0 <= i < pieces(s, set).len() ==> free_of(#[trigger] pieces(s, set)[i], set),
    decreases s.len(),
{
    if s.len() > 0 {
        pieces_are_free(s.drop_last(), set);
        lemma_pieces_nonempty(s.drop_last(), set);
        let before = pieces(s.drop_last(), set);
        let p = pieces(s, set);
        assert(free_of(before.last(), set));
        assert forall|i: int| 0 <= i < p.len() implies free_of(#[trigger] p[i], set) by {
            if i < before.len() - 1 {
                assert(p[i] == before[i]);
            }
        }
    }
}

proof fn lemma_free_text_goes_to_the_last_piece(a: Seq<char>, x: Seq<char>, set: CharSet)
    requires
        free_of(x, set),
    ensures
        pieces(a + x, set) == pieces(a, set).drop_last().push(pieces(a, set).last() + x),
    decreases x.len(),
{
    lemma_pieces_nonempty(a, set);
    let p = pieces(a, set);
    if x.len() == 0 {
        assert(a + x =~= a);
        assert(p.last() + x =~= p.last());
        assert(p.drop_last().push(p.last()) =~= p);
    } else {
        let y = x.drop_last();
        assert(free_of(y, set)) by {
            assert forall|i: int| 0 <= i < y.len() implies !set.has(#[trigger] y[i]) by {
                assert(y[i] == x[i]);
            }
        }
        lemma_free_text_goes_to_the_last_piece(a, y, set);
        assert((a + x).drop_last() =~= a + y);
        assert((a + x).last() == x.last());
        assert(!set.has(x[x.len() - 1]));
        let q = p.drop_last().push(p.last() + y);
        assert(q.drop_last() =~= p.drop_last());
        assert((p.last() + y).push(x.last()) =~= p.last() + x);
    }
}

/// Texts that hold no character of `set` are the pieces of what they make when they are
/// joined by one of its characters.
pub proof fn joined_texts_are_the_pieces_at(p: Seq<Seq<char>>, c: char, set: CharSet)
    requires
        p.len() >= 1,
        set.has(c),
        forall|i: int| 0 <= i < p.len() ==> free_of(#[trigger] p[i], set),
    ensures
        pieces(joined(p, seq![c]), set) == p,
    decreases p.len(),
{
    let s = joined(p, seq![c]);
    if p.len() == 1 {
        lemma_free_text_goes_to_the_last_piece(Seq::empty(), p[0], set);
        assert(Seq::<char>::empty() + p[0] =~= p[0]);
        let one = pieces(Seq::<char>::empty(), set);
        assert(one =~= seq![Seq::<char>::empty()]);
        assert(one.drop_last().push(one.last() + p[0]) =~= p);
    } else {
        let d = p.drop_last();
        let t = joined(d, seq![c]);
        joined_texts_are_the_pieces_at(d, c, set);
        let u = t + seq![c];
        assert(u.drop_last() =~= t);
        assert(u.last() == c);
        assert(pieces(u, set) == d.push(Seq::<char>::empty()));
        assert(free_of(p[p.len() - 1], set));
        lemma_free_text_goes_to_the_last_piece(u, p.last(), set);
        assert(d.push(Seq::<char>::empty()).drop_last() =~= d);
        assert(Seq::<char>::empty() + p.last() =~= p.last());
        assert(d.push(p.last()) =~= p);
    }
}

/// Texts that hold no separator are the pieces of what they make when they are
/// joined by it.
pub proof fn joined_texts_are_the_pieces(p: Seq<Seq<char>>, c: char)
    requires
        p.len() >= 1,
        forall|i: int| 0 <= i < p.len() ==> free_of(#[trigger] p[i], CharSet::Is(c)),
    ensures
        pieces(joined(p, seq![c]), CharSet::Is(c)) == p,
{
    joined_texts_are_the_pieces_at(p, c, CharSet::Is(c));
}

/// A character that separates nothing stands in one of the pieces.
pub proof fn lemma_character_is_in_a_piece(s: Seq<char>, set: CharSet, i: int)
    requires
        0 <= i < s.len(),
        !set.has(s[i]),
    ensures
        exists|k: int|
            0 <= k < pieces(s, set).len() && (#[trigger] pieces(s, set)[k]).contains(s[i]),
    decreases s.len(),
{
    let before = pieces(s.drop_last(), set);
    let p = pieces(s, set);
    lemma_pieces_nonempty(s.drop_last(), set);
    if i == s.len() - 1 {
        let t = before.last().push(s.last());
        assert(t[t.len() - 1] == s[i]);
        assert(p[p.len() - 1] == t);
    } else {
        lemma_character_is_in_a_piece(s.drop_last(), set, i);
        let k = choose|k: int| 0 <= k < before.len() && (#[trigger] before[k]).contains(s[i]);
        if set.has(s.last()) || k < before.len() - 1 {
            assert(p[k] == before[k]);
        } else {
            let t = before.last().push(s.last());
            let j = choose|j: int| 0 <= j < before[k].len() && before[k][j] == s[i];
            assert(t[j] == s[i]);
            assert(p[k] == t);
        }
    }
}

// ── Words ────────────────────────────────────────────────────────────────────

/// Whether a text is one word.
pub open spec fn is_word(s: Seq<char>) -> bool {
    s.len() > 0 && free_of(s, CharSet::Space)
}

/// Whether each of the texts is one word.
pub open spec fn all_words(w: Seq<Seq<char>>) -> bool {
    forall|i: int| 0 <= i < w.len() ==> is_word(#[trigger] w[i])
}

proof fn lemma_nonempty_members(p: Seq<Seq<char>>)
    ensures
        forall|i: int|
            0 <= i < nonempty(p).len() ==> (#[trigger] nonempty(p)[i]).len() > 0 && p.contains(
                nonempty(p)[i],
            ),
    decreases p.len(),
{
    if p.len() > 0 {
        let d = p.drop_last();
        lemma_nonempty_members(d);
        let n = nonempty(p);
        assert forall|i: int| 0 <= i < n.len() implies (#[trigger] n[i]).len() > 0 && p.contains(
            n[i],
        ) by {
            if i < nonempty(d).len() {
                assert(n[i] == nonempty(d)[i]);
                let k = choose|k: int| 0 <= k < d.len() && d[k] == n[i];
                assert(p[k] == n[i]);
            } else {
                assert(p[p.len() - 1] == n[i]);
            }
        }
    }
}

/// The words of a text hold a character each, and no white space.
pub proof fn words_are_words(s: Seq<char>)
    ensures
        all_words(words(s)),
{
    let p = pieces(s, CharSet::Space);
    lemma_nonempty_members(p);
    pieces_are_free(s, CharSet::Space);
    assert forall|i: int| 0 <= i < words(s).len() implies is_word(#[trigger] words(s)[i]) by {
        let k = choose|k: int| 0 <= k < p.len() && p[k] == words(s)[i];
        assert(free_of(p[k], CharSet::Space));
    }
}

proof fn lemma_nonempty_of_words(w: Seq<Seq<char>>)
    requires
        all_words(w),
    ensures
        nonempty(w) == w,
    decreases w.len(),
{
    if w.len() > 0 {
        let d = w.drop_last();
        assert(all_words(d)) by {
            assert forall|i: int| 0 <= i < d.len() implies is_word(#[trigger] d[i]) by {
                assert(d[i] == w[i]);
            }
        }
        lemma_nonempty_of_words(d);
        assert(is_word(w[w.len() - 1]));
        assert(d.push(w.last()) =~= w);
    }
}

/// Words that are joined by blanks are the words of what they make.
pub proof fn joined_words_are_the_words(w: Seq<Seq<char>>)
    requires
        all_words(w),
    ensures
        words(joined(w, seq![' '])) == w,
{
    if w.len() == 0 {
        assert(pieces(Seq::<char>::empty(), CharSet::Space) =~= seq![Seq::<char>::empty()]);
        assert(seq![Seq::<char>::empty()].drop_last() =~= w);
        assert(nonempty(seq![Seq::<char>::empty()]) == nonempty(w));
    } else {
        assert forall|i: int| 0 <= i < w.len() implies free_of(#[trigger] w[i], CharSet::Space) by {
            assert(is_word(w[i]));
        }
        joined_texts_are_the_pieces_at(w, ' ', CharSet::Space);
        lemma_nonempty_of_words(w);
    }
}

/// Nothing is trimmed off words that are joined.
pub proof fn joined_words_are_trimmed(w: Seq<Seq<char>>)
    requires
        all_words(w),
    ensures
        trimmed(joined(w, seq![' '])) == joined(w, seq![' ']),
        w.len() > 0 ==> joined(w, seq![' ']).len() > 0,
{
    lemma_joined_ends(w);
}

proof fn lemma_joined_ends(w: Seq<Seq<char>>)
    requires
        all_words(w),
    ensures
        w.len() > 0 ==> ({
            let s = joined(w, seq![' ']);
            s.len() > 0 && !is_space(s[0]) && !is_space(s[s.len() - 1])
        }),
    decreases w.len(),
{
    if w.len() > 0 {
        let last = w[w.len() - 1];
        assert(is_word(last));
        assert(!CharSet::Space.has(last[0]));
        assert(!CharSet::Space.has(last[last.len() - 1]));
        if w.len() > 1 {
            let d = w.drop_last();
            assert(all_words(d)) by {
                assert forall|i: int| 0 <= i < d.len() implies is_word(#[trigger] d[i]) by {
                    assert(d[i] == w[i]);
                }
            }
            lemma_joined_ends(d);
            let s = joined(w, seq![' ']);
            assert(s[0] == joined(d, seq![' '])[0]);
            assert(s[s.len() - 1] == last[last.len() - 1]);
        }
    }
}

proof fn lemma_space_in_front(c: char, x: Seq<char>)
    requires
        is_space(c),
    ensures
        pieces(seq![c] + x, CharSet::Space) == seq![Seq::<char>::empty()] + pieces(x, CharSet::Space),
    decreases x.len(),
{
    let set = CharSet::Space;
    let s = seq![c] + x;
    let e = Seq::<char>::empty();
    if x.len() == 0 {
        assert(s.drop_last() =~= e);
        assert(s.last() == c);
        assert(pieces(e, set) =~= seq![e]);
        assert(pieces(s, set) =~= seq![e] + pieces(x, set)) by {
            assert(x =~= e);
        }
    } else {
        let y = x.drop_last();
        lemma_space_in_front(c, y);
        lemma_pieces_nonempty(y, set);
        assert(s.drop_last() =~= seq![c] + y);
        assert(s.last() == x.last());
        let p = pieces(y, set);
        let q = seq![e] + p;
        assert(q.last() == p.last());
        assert(pieces(s, set) =~= seq![e] + pieces(x, set));
    }
}

proof fn lemma_empty_in_front(p: Seq<Seq<char>>)
    ensures
        nonempty(seq![Seq::<char>::empty()] + p) == nonempty(p),
    decreases p.len(),
{
    let q = seq![Seq::<char>::empty()] + p;
    if p.len() == 0 {
        assert(q.drop_last() =~= p);
    } else {
        lemma_empty_in_front(p.drop_last());
        assert(q.drop_last() =~= seq![Seq::<char>::empty()] + p.drop_last());
        assert(q.last() == p.last());
    }
}

proof fn lemma_trimmed_start_keeps_words(s: Seq<char>)
    ensures
        words(trimmed_start(s, CharSet::Space)) == words(s),
    decreases s.len(),
{
    if s.len() > 0 && CharSet::Space.has(s[0]) {
        lemma_trimmed_start_keeps_words(s.skip(1));
        lemma_space_in_front(s[0], s.skip(1));
        lemma_empty_in_front(pieces(s.skip(1), CharSet::Space));
        assert(seq![s[0]] + s.skip(1) =~= s);
    }
}

proof fn lemma_trimmed_end_keeps_words(s: Seq<char>)
    ensures
        words(trimmed_end(s, CharSet::Space)) == words(s),
    decreases s.len(),
{
    if s.len() > 0 && CharSet::Space.has(s.last()) {
        lemma_trimmed_end_keeps_words(s.drop_last());
        let p = pieces(s.drop_last(), CharSet::Space);
        assert(p.push(Seq::empty()).drop_last() =~= p);
    }
}

/// Trimming white space off a text leaves its words.
pub proof fn trimming_keeps_words(s: Seq<char>)
    ensures
        words(trimmed(s)) == words(s),
{
    lemma_trimmed_start_keeps_words(s);
    lemma_trimmed_end_keeps_words(trimmed_start(s, CharSet::Space));
}

/// Trimming brings no character into a text.
pub proof fn trimming_keeps_characters(s: Seq<char>, c: char)
    requires
        !s.contains(c),
    ensures
        !trimmed(s).contains(c),
{
    lemma_trimmed_start_characters(s, c);
    lemma_trimmed_end_characters(trimmed_start(s, CharSet::Space), c);
}

proof fn lemma_trimmed_start_characters(s: Seq<char>, c: char)
    requires
        !s.contains(c),
    ensures
        !trimmed_start(s, CharSet::Space).contains(c),
    decreases s.len(),
{
    if s.len() > 0 && CharSet::Space.has(s[0]) {
        let t = s.skip(1);
        if t.contains(c) {
            let i = choose|i: int| 0 <= i < t.len() && t[i] == c;
            assert(s[i + 1] == c);
        }
        lemma_trimmed_start_characters(t, c);
    }
}

proof fn lemma_trimmed_end_characters(s: Seq<char>, c: char)
    requires
        !s.contains(c),
    ensures
        !trimmed_end(s, CharSet::Space).contains(c),
    decreases s.len(),
{
    if s.len() > 0 && CharSet::Space.has(s.last()) {
        let t = s.drop_last();
        if t.contains(c) {
            let i = choose|i: int| 0 <= i < t.len() && t[i] == c;
            assert(s[i] == c);
        }
        lemma_trimmed_end_characters(t, c);
    }
}

proof fn lemma_pieces_characters(s: Seq<char>, set: CharSet, c: char)
    requires
        !s.contains(c),
    ensures
        forall|i: int| 0 <= i < pieces(s, set).len() ==> !(#[trigger] pieces(s, set)[i]).contains(c),
    decreases s.len(),
{
    if s.len() > 0 {
        let d = s.drop_last();
        if d.contains(c) {
            let i = choose|i: int| 0 <= i < d.len() && d[i] == c;
            assert(s[i] == c);
        }
        lemma_pieces_characters(d, set, c);
        lemma_pieces_nonempty(d, set);
        let before = pieces(d, set);
        let p = pieces(s, set);
        assert(s[s.len() - 1] != c);
        assert forall|i: int| 0 <= i < p.len() implies !(#[trigger] p[i]).contains(c) by {
            if i < before.len() - 1 {
                assert(p[i] == before[i]);
            } else if !set.has(s.last()) {
                let b = before[before.len() - 1];
                assert(!b.contains(c));
                if p[i].contains(c) {
                    let k = choose|k: int| 0 <= k < p[i].len() && p[i][k] == c;
                    assert(p[i] == b.push(s.last()));
                    assert(b[k] == c);
                }
            } else if i == before.len() - 1 {
                assert(p[i] == before[i]);
            }
        }
    }
}

/// The words of a text hold only characters of it.
pub proof fn words_keep_characters(s: Seq<char>, c: char)
    requires
        !s.contains(c),
    ensures
        forall|i: int| 0 <= i < words(s).len() ==> !(#[trigger] words(s)[i]).contains(c),
{
    let p = pieces(s, CharSet::Space);
    lemma_pieces_characters(s, CharSet::Space, c);
    lemma_nonempty_members(p);
    assert forall|i: int| 0 <= i < words(s).len() implies !(#[trigger] words(s)[i]).contains(c) by {
        let k = choose|k: int| 0 <= k < p.len() && p[k] == words(s)[i];
        assert(!p[k].contains(c));
    }
}

} // verus!
