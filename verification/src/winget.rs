//! The table that `winget list` prints.

use vstd::prelude::*;

use crate::asset::{Asset, AssetView, Ecosystem};
use crate::split::{first_of, lines, nth, split_whitespace, text_lines, words};
use crate::text::{
    char_count, chars_of, contains, find, occurs, or_empty, own, place, same, string_of, trim, trim_end_matches,
    trimmed, trimmed_end, views, CharSet,
};
use crate::windows::{app_asset, application, is_rule, push_asset, rules_off, strip_ansi, stripped};

verus! {

/// How wide the column of the versions is taken to be.
pub const VERSION_WIDTH: usize = 24;

/// The lines of the table that are not blank.
pub open spec fn filled_lines(ls: Seq<Seq<char>>) -> Seq<Seq<char>>
    decreases ls.len(),
{
    if ls.len() == 0 {
        ls
    } else if trimmed(ls.last()).len() > 0 {
        filled_lines(ls.drop_last()).push(ls.last())
    } else {
        filled_lines(ls.drop_last())
    }
}

/// Whether a line holds the headings.
pub open spec fn is_header(l: Seq<char>) -> bool {
    occurs(l, "Name"@) && occurs(l, "Version"@)
}

/// The place of the headings among the lines.
pub open spec fn header_place(ls: Seq<Seq<char>>, i: int) -> Option<int>
    decreases ls.len() - i,
{
    if i < 0 || i >= ls.len() {
        None
    } else if is_header(ls[i]) {
        Some(i)
    } else {
        header_place(ls, i + 1)
    }
}

/// Where the columns of the table begin; a name ends where the next column begins.
pub struct Columns {
    pub name: usize,
    pub name_end: usize,
    pub version: usize,
}

pub struct ColumnsView {
    pub name: int,
    pub name_end: int,
    pub version: int,
}

impl DeepView for Columns {
    type V = ColumnsView;

    open spec fn deep_view(&self) -> ColumnsView {
        ColumnsView {
            name: self.name as int,
            name_end: self.name_end as int,
            version: self.version as int,
        }
    }
}

/// Where a heading stands.
pub open spec fn heading(header: Seq<char>, h: Seq<char>) -> int {
    match place(header, h) {
        Some(i) => i,
        None => 0,
    }
}

/// Where the columns of the table begin, by its headings.
pub open spec fn columns_of(header: Seq<char>) -> ColumnsView {
    let name = heading(header, "Name"@);
    let version = heading(header, "Version"@);
    ColumnsView {
        name,
        name_end: if heading(header, "Id"@) > name {
            heading(header, "Id"@)
        } else {
            version
        },
        version,
    }
}

/// What a row has from the place `from` to the place `to`, without blanks and
/// without the mark of a cut.
pub open spec fn cell(row: Seq<char>, from: int, to: int) -> Seq<char> {
    let end = if to < row.len() {
        to
    } else {
        row.len() as int
    };
    if from >= row.len() {
        Seq::empty()
    } else {
        trimmed(trimmed_end(trimmed(row.subrange(from, end)), CharSet::Is('\u{2026}')))
    }
}

/// The application on a row.
pub open spec fn row_asset(row: Seq<char>, c: ColumnsView) -> Option<AssetView> {
    let name = cell(row, c.name, c.name_end);
    let version = or_empty(
        first_of(words(cell(row, c.version, c.version + VERSION_WIDTH))),
    );
    if is_rule(row) || name.len() == 0 || version.len() == 0 || version == "Version"@ {
        None
    } else {
        application(Ecosystem::WinApp, name, version, "winget"@)
    }
}

pub open spec fn row_assets(rows: Seq<Seq<char>>, c: ColumnsView) -> Seq<AssetView> {
    rows.filter_map(|l: Seq<char>| row_asset(l, c))
}

/// The lines of the table, without control sequences and blank lines.
pub open spec fn table_lines(out: Seq<char>) -> Seq<Seq<char>> {
    filled_lines(text_lines(stripped(out)))
}

fn fill_lines(out: &str) -> (r: Vec<String>)
    ensures
        views(r@) == table_lines(out@),
{
    let cleaned = strip_ansi(out);
    let ls = lines(cleaned.as_str());
    let ghost q = views(ls@);
    let mut r: Vec<String> = Vec::new();
    let mut i: usize = 0;
    assert(views(r@) =~= filled_lines(q.take(0)));
    while i < ls.len()
        invariant
            i <= ls@.len(),
            q == views(ls@),
            views(r@) == filled_lines(q.take(i as int)),
        decreases ls@.len() - i,
    {
        let ghost before = views(r@);
        proof {
            assert(q.take(i + 1).drop_last() =~= q.take(i as int));
            assert(q.take(i + 1).last() == ls@[i as int]@);
        }
        let t = trim(ls[i].as_str());
        if !t.as_str().is_empty() {
            r.push(ls[i].clone());
            assert(views(r@) =~= before.push(ls@[i as int]@));
        }
        i += 1;
    }
    assert(q.take(q.len() as int) =~= q);
    r
}

fn find_header(ls: &Vec<String>) -> (r: Option<usize>)
    ensures
        match r {
            Some(i) => i < ls@.len() && header_place(views(ls@), 0) == Some(i as int),
            None => header_place(views(ls@), 0) is None,
        },
{
    let ghost q = views(ls@);
    let mut i: usize = 0;
    while i < ls.len()
        invariant
            i <= ls@.len(),
            q == views(ls@),
            header_place(q, 0) == header_place(q, i as int),
        decreases ls@.len() - i,
    {
        if contains(ls[i].as_str(), "Name") && contains(ls[i].as_str(), "Version") {
            return Some(i);
        }
        i += 1;
    }
    None
}

fn find_heading(header: &str, h: &str) -> (r: usize)
    ensures
        r == heading(header@, h@),
{
    match find(header, h) {
        Some(i) => i,
        None => 0,
    }
}

fn find_columns(header: &str) -> (r: Columns)
    ensures
        r.deep_view() == columns_of(header@),
{
    let name: usize = find_heading(header, "Name");
    let version: usize = find_heading(header, "Version");
    let id: usize = find_heading(header, "Id");
    let name_end: usize = if id > name {
        id
    } else {
        version
    };
    Columns { name, name_end, version }
}

/// Whether the name on a row ends behind where it begins. On a row that does not reach
/// the column of the names, and on one that only rules off, there is no name to end.
pub open spec fn row_is_readable(row: Seq<char>, c: ColumnsView) -> bool {
    c.name <= c.name_end || is_rule(row) || row.len() <= c.name
}

/// Whether the names on all rows below the headings end behind where they begin.
pub open spec fn is_readable(out: Seq<char>) -> bool {
    let ls = table_lines(out);
    match header_place(ls, 0) {
        Some(h) => forall|k: int|
            h < k < ls.len() ==> row_is_readable(#[trigger] ls[k], columns_of(ls[h])),
        None => true,
    }
}

/// Whether the names on all rows below the headings end behind where they begin.
pub fn has_readable_rows(out: &str) -> (r: bool)
    ensures
        r == is_readable(out@),
{
    let ls = fill_lines(out);
    let ghost all = views(ls@);
    match find_header(&ls) {
        Some(h) => {
            let c = find_columns(ls[h].as_str());
            if c.name <= c.name_end {
                return true;
            }
            let mut i: usize = h + 1;
            while i < ls.len()
                invariant
                    h < i <= ls@.len(),
                    all == views(ls@),
                    all == table_lines(out@),
                    header_place(all, 0) == Some(h as int),
                    c.deep_view() == columns_of(all[h as int]),
                    c.name > c.name_end,
                    forall|k: int| h < k < i ==> row_is_readable(#[trigger] all[k], c.deep_view()),
                decreases ls@.len() - i,
            {
                assert(all[i as int] == ls@[i as int]@);
                if !rules_off(ls[i].as_str()) && char_count(ls[i].as_str()) > c.name {
                    assert(!row_is_readable(all[i as int], c.deep_view()));
                    return false;
                }
                i += 1;
            }
            true
        },
        None => true,
    }
}

fn read_cell(row: &Vec<char>, from: usize, to: usize) -> (r: String)
    requires
        from <= to || row@.len() <= from,
    ensures
        r@ == cell(row@, from as int, to as int),
{
    if from >= row.len() {
        return String::new();
    }
    let end: usize = if to < row.len() {
        to
    } else {
        row.len()
    };
    let s = string_of(row, from, end);
    let s = trim(s.as_str());
    let s = trim_end_matches(s.as_str(), CharSet::Is('\u{2026}'));
    trim(s.as_str())
}

fn version_end(from: usize, row: usize) -> (r: usize)
    ensures
        from <= r,
        from + VERSION_WIDTH <= row ==> r == from + VERSION_WIDTH,
        from + VERSION_WIDTH > row && from <= row ==> r >= row,
{
    if from <= usize::MAX - VERSION_WIDTH {
        from + VERSION_WIDTH
    } else {
        usize::MAX
    }
}

fn read_row(row: &str, c: &Columns) -> (r: Option<Asset>)
    requires
        row_is_readable(row@, c.deep_view()),
    ensures
        r.deep_view() == row_asset(row@, c.deep_view()),
{
    if rules_off(row) {
        return None;
    }
    let v = chars_of(row);
    let name = read_cell(&v, c.name, c.name_end);
    let end: usize = version_end(c.version, v.len());
    let found = read_cell(&v, c.version, end);
    assert(found@ == cell(row@, c.version as int, c.version + VERSION_WIDTH));
    let w = split_whitespace(found.as_str());
    let version = match nth(&w, 0) {
        Some(f) => own(f),
        None => String::new(),
    };
    if name.as_str().is_empty() || version.as_str().is_empty() || same(
        version.as_str(),
        "Version",
    ) {
        None
    } else {
        app_asset(Ecosystem::WinApp, name.as_str(), version.as_str(), "winget")
    }
}

/// The applications that `winget list` prints: those on the rows below the headings,
/// column by column. The columns are found by the headings, so that a column that is
/// missing shifts nothing.
pub fn parse_winget_list(out: &str) -> (r: Vec<Asset>)
    requires
        is_readable(out@),
    ensures
        match header_place(table_lines(out@), 0) {
            Some(h) => r.deep_view() == row_assets(
                table_lines(out@).skip(h + 1),
                columns_of(table_lines(out@)[h]),
            ),
            None => r.deep_view() == Seq::<AssetView>::empty(),
        },
{
    let ls = fill_lines(out);
    let ghost all = views(ls@);
    let mut assets: Vec<Asset> = Vec::new();
    match find_header(&ls) {
        Some(h) => {
            let c = find_columns(ls[h].as_str());
            let ghost rows = all.skip(h + 1);
            let n: usize = ls.len();
            let mut i: usize = h + 1;
            assert(assets.deep_view() =~= row_assets(rows.take(0), c.deep_view()));
            while i < n
                invariant
                    h < i <= n,
                    n == ls@.len(),
                    all == views(ls@),
                    rows == all.skip(h + 1),
                    forall|k: int|
                        h < k < all.len() ==> row_is_readable(#[trigger] all[k], c.deep_view()),
                    assets.deep_view() == row_assets(rows.take(i - h - 1), c.deep_view()),
                decreases n - i,
            {
                proof {
                    assert(rows.take(i - h).drop_last() =~= rows.take(i - h - 1));
                    assert(rows.take(i - h).last() == ls@[i as int]@);
                }
                assert(row_is_readable(all[i as int], c.deep_view()));
                let a = read_row(ls[i].as_str(), &c);
                push_asset(&mut assets, a);
                i += 1;
            }
            assert(rows.take(rows.len() as int) =~= rows);
        },
        None => {
            assert(assets.deep_view() =~= Seq::<AssetView>::empty());
        },
    }
    assets
}

} // verus!
