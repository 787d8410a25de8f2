//! What is read of the table that winget prints.

use vstd::prelude::*;

use crate::asset::{AssetView, Ecosystem};
use crate::list::filtered_items_are_those_that_map;
use crate::split::{all_words, is_word, joined, joined_words_are_the_words};
use crate::text::{lemma_place_from, occurs, occurs_at, place, trimmed, trimmed_end, CharSet};
use crate::text_laws::trimming_takes_off_what_is_around;
use crate::windows::{application, is_rule};
use crate::winget::{cell, columns_of, filled_lines, header_place, is_header, row_asset, row_assets, ColumnsView};

verus! {

/// The heading is the first line with the words for a name and a version; the table is read from
/// there.
pub proof fn the_heading_is_the_first_line_with_its_words(ls: Seq<Seq<char>>, i: int)
    requires
        0 <= i <= ls.len(),
    ensures
        match header_place(ls, i) {
            Some(h) => i <= h < ls.len() && occurs(ls[h], "Name"@) && occurs(ls[h], "Version"@)
                && forall|k: int|
                i <= k < h ==> !(occurs(#[trigger] ls[k], "Name"@) && occurs(ls[k], "Version"@)),
            None => forall|k: int|
                i <= k < ls.len() ==> !(occurs(#[trigger] ls[k], "Name"@) && occurs(
                    ls[k],
                    "Version"@,
                )),
        },
    decreases ls.len() - i,
{
    if i < ls.len() && !is_header(ls[i]) {
        the_heading_is_the_first_line_with_its_words(ls, i + 1);
    }
}

/// The columns begin where their words stand in the heading. That of the names ends where that of the
/// identifiers begins, or where that of the versions does.
pub proof fn columns_begin_below_their_words(h: Seq<char>)
    requires
        occurs(h, "Name"@),
        occurs(h, "Version"@),
    ensures
        ({
            let c = columns_of(h);
            &&& occurs_at(h, "Name"@, c.name) && forall|k: int|
                0 <= k < c.name ==> !occurs_at(h, "Name"@, k)
            &&& occurs_at(h, "Version"@, c.version) && forall|k: int|
                0 <= k < c.version ==> !occurs_at(h, "Version"@, k)
            &&& !occurs(h, "Id"@) ==> c.name_end == c.version
            &&& place(h, "Id"@) matches Some(k) ==> (k > c.name ==> c.name_end == k && occurs_at(
                h,
                "Id"@,
                c.name_end,
            )) && (k <= c.name ==> c.name_end == c.version)
        }),
{
    lemma_place_from(h, "Name"@, 0);
    lemma_place_from(h, "Version"@, 0);
    lemma_place_from(h, "Id"@, 0);
    let i = choose|i: int| occurs_at(h, "Name"@, i);
    let j = choose|j: int| occurs_at(h, "Version"@, j);
    assert(occurs_at(h, "Name"@, i) && occurs_at(h, "Version"@, j));
    if !occurs(h, "Id"@) {
        if let Some(k) = place(h, "Id"@) {
            assert(occurs_at(h, "Id"@, k));
        }
    }
}

/// A cell is what stands in its column, without the white space around it; one that begins behind the
/// end of the row is empty.
pub proof fn a_cell_is_what_stands_in_its_column(
    a: Seq<char>,
    gap: Seq<char>,
    s: Seq<char>,
    pad: Seq<char>,
    b: Seq<char>,
)
    requires
        s.len() > 0,
        !CharSet::Space.has(s[0]),
        !CharSet::Space.has(s[s.len() - 1]),
        s[s.len() - 1] != '\u{2026}',
        forall|i: int| 0 <= i < gap.len() ==> CharSet::Space.has(#[trigger] gap[i]),
        forall|i: int| 0 <= i < pad.len() ==> CharSet::Space.has(#[trigger] pad[i]),
    ensures
        cell(
            a + (gap + s + pad) + b,
            a.len() as int,
            (a.len() + gap.len() + s.len() + pad.len()) as int,
        ) == s,
        cell(
            a + (gap + s + seq!['\u{2026}'] + pad) + b,
            a.len() as int,
            (a.len() + gap.len() + s.len() + 1 + pad.len()) as int,
        ) == s,
        forall|from: int, to: int| from >= a.len() ==> (#[trigger] cell(a, from, to)).len() == 0,
{
    let none = Seq::<char>::empty();
    let dots = CharSet::Is('\u{2026}');
    let from = a.len() as int;
    let x = gap + s + pad;
    let row = a + x + b;
    assert(row.subrange(from, from + x.len()) =~= x);
    trimming_takes_off_what_is_around(gap, s, pad, CharSet::Space);
    assert(trimmed_end(s, dots) == s);
    let t = s + seq!['\u{2026}'];
    let y = gap + t + pad;
    let other = a + (gap + s + seq!['\u{2026}'] + pad) + b;
    assert(gap + s + seq!['\u{2026}'] + pad =~= y);
    assert(other.subrange(from, from + y.len()) =~= y);
    trimming_takes_off_what_is_around(gap, t, pad, CharSet::Space);
    assert(t.last() == '\u{2026}');
    assert(t.drop_last() =~= s);
    assert(trimmed_end(t, dots) == s);
    trimming_takes_off_what_is_around(none, s, none, CharSet::Space);
}

/// A row is an application by the name and the first word of the version in its cells; the rule below
/// the heading is none, nor is a row without either.
pub proof fn a_row_is_an_application(row: Seq<char>, c: ColumnsView, w: Seq<Seq<char>>)
    requires
        all_words(w),
        cell(row, c.version, c.version + 24) == joined(w, seq![' ']),
        w.len() > 0 ==> w[0] != "Version"@,
    ensures
        is_rule(row) ==> row_asset(row, c) is None,
        w.len() == 0 ==> row_asset(row, c) is None,
        cell(row, c.name, c.name_end).len() == 0 ==> row_asset(row, c) is None,
        !is_rule(row) && w.len() > 0 && cell(row, c.name, c.name_end).len() > 0 ==> row_asset(row, c)
            == application(Ecosystem::WinApp, cell(row, c.name, c.name_end), w[0], "winget"@),
{
    joined_words_are_the_words(w);
    if w.len() > 0 {
        assert(is_word(w[0]));
    }
}

/// Each row that is an application counts, and nothing else.
pub proof fn applications_are_those_of_the_rows(rows: Seq<Seq<char>>, c: ColumnsView, a: AssetView)
    ensures
        row_assets(rows, c).contains(a) <==> exists|i: int|
            0 <= i < rows.len() && row_asset(#[trigger] rows[i], c) == Some(a),
{
    let f = |l: Seq<char>| row_asset(l, c);
    filtered_items_are_those_that_map(rows, f, a);
    if row_assets(rows, c).contains(a) {
        let i = choose|i: int| 0 <= i < rows.len() && f(#[trigger] rows[i]) == Some(a);
        assert(row_asset(rows[i], c) == Some(a));
    }
    if exists|i: int| 0 <= i < rows.len() && row_asset(#[trigger] rows[i], c) == Some(a) {
        let i = choose|i: int| 0 <= i < rows.len() && row_asset(#[trigger] rows[i], c) == Some(a);
        assert(f(rows[i]) == Some(a));
    }
}

/// The lines of the table are those that are not blank.
pub proof fn blank_lines_are_no_rows(ls: Seq<Seq<char>>, l: Seq<char>)
    ensures
        filled_lines(ls).contains(l) <==> ls.contains(l) && trimmed(l).len() > 0,
        trimmed(l).len() == 0 ==> filled_lines(ls.push(l)) == filled_lines(ls),
        trimmed(l).len() > 0 ==> filled_lines(ls.push(l)) == filled_lines(ls).push(l),
    decreases ls.len(),
{
    assert(ls.push(l).drop_last() =~= ls);
    if ls.len() > 0 {
        let d = ls.drop_last();
        let x = ls.last();
        let f = filled_lines(d);
        blank_lines_are_no_rows(d, l);
        if ls.contains(l) {
            let i = choose|i: int| 0 <= i < ls.len() && ls[i] == l;
            if i < d.len() {
                assert(d[i] == l);
            }
        }
        if d.contains(l) {
            let i = choose|i: int| 0 <= i < d.len() && d[i] == l;
            assert(ls[i] == l);
        }
        if trimmed(x).len() > 0 {
            let g = f.push(x);
            if f.contains(l) {
                let i = choose|i: int| 0 <= i < f.len() && f[i] == l;
                assert(g[i] == l);
            }
            if g.contains(l) {
                let i = choose|i: int| 0 <= i < g.len() && g[i] == l;
                if i < f.len() {
                    assert(f[i] == l);
                } else {
                    assert(ls[ls.len() - 1] == l);
                }
            }
            if l == x {
                assert(g[f.len() as int] == l);
            }
        }
    }
}

} // verus!
