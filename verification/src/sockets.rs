//! The sockets that a process listens on.

use vstd::prelude::*;

use crate::list::{has_text, push_text};
use crate::net::{parse_proc_addr, proc_endpoint};
use crate::order::{
    in_rank_order, lemma_precedes_total, lemma_precedes_transitive, precedes, ranked, ranked_is_in_order,
    ranked_is_permutation, sort_ranked, Ranked,
};
use crate::report::strictly_ordered;
use crate::split::{lines, split_whitespace, text_lines, words};
use crate::text::{
    after_prefix, before_suffix, concat2, contains, contains_char, ends_with, has_suffix, occurs, opt_str_view,
    opt_view, same, strip_prefix, strip_suffix, strip_suffixes, trim, trimmed, views, without_suffixes,
};

verus! {

// ── Linux ────────────────────────────────────────────────────────────────────

/// The inode of the socket that a link under `/proc/<pid>/fd` leads to.
pub open spec fn inode_of(link: Seq<char>) -> Option<Seq<char>> {
    match after_prefix(link, "socket:["@) {
        Some(rest) => before_suffix(rest, "]"@),
        None => None,
    }
}

pub open spec fn inodes_of(links: Seq<Seq<char>>) -> Seq<Seq<char>> {
    links.filter_map(|l: Seq<char>| inode_of(l))
}

/// The inodes of the sockets that the links of a process lead to.
pub fn proc_socket_inodes(links: &Vec<String>) -> (r: Vec<String>)
    ensures
        views(r@) == inodes_of(views(links@)),
{
    let ghost q = views(links@);
    let mut out: Vec<String> = Vec::new();
    let mut i: usize = 0;
    assert(views(out@) =~= inodes_of(q.take(0)));
    while i < links.len()
        invariant
            i <= links@.len(),
            q == views(links@),
            views(out@) == inodes_of(q.take(i as int)),
        decreases links@.len() - i,
    {
        assert(q.take(i + 1).drop_last() =~= q.take(i as int));
        assert(q.take(i + 1).last() == links@[i as int]@);
        let inode = match strip_prefix(links[i].as_str(), "socket:[") {
            Some(rest) => strip_suffix(rest.as_str(), "]"),
            None => None,
        };
        push_text(&mut out, inode);
        i += 1;
    }
    assert(q.take(q.len() as int) =~= q);
    out
}

/// A table of sockets: which protocol it is of, and whether its addresses are IPv6.
#[derive(Debug, Clone, Copy, PartialEq, Eq, Structural)]
pub enum SocketTable {
    Tcp { v6: bool },
    Udp { v6: bool },
}

/// Whether a row of a table is a socket that listens: by its state for TCP, by the
/// lack of a peer for UDP.
pub open spec fn row_listens(table: SocketTable, cols: Seq<Seq<char>>) -> bool {
    match table {
        SocketTable::Tcp { .. } => cols[3] == "0A"@,
        SocketTable::Udp { .. } => has_suffix(cols[2], ":0000"@),
    }
}

pub open spec fn table_is_v6(table: SocketTable) -> bool {
    match table {
        SocketTable::Tcp { v6 } => v6,
        SocketTable::Udp { v6 } => v6,
    }
}

/// The endpoint of a row that listens on a socket of the process, behind `prefix`.
pub open spec fn row_endpoint(
    table: SocketTable,
    prefix: Seq<char>,
    inodes: Seq<Seq<char>>,
    l: Seq<char>,
) -> Option<Seq<char>> {
    let cols = words(l);
    if cols.len() < 10 || !row_listens(table, cols) || !inodes.contains(cols[9]) {
        None
    } else {
        match proc_endpoint(cols[1], table_is_v6(table)) {
            Some(ep) => Some(prefix + ep),
            None => None,
        }
    }
}

/// The endpoints of the rows that listen on a socket of the process.
pub open spec fn rows_endpoints(
    table: SocketTable,
    prefix: Seq<char>,
    inodes: Seq<Seq<char>>,
    rows: Seq<Seq<char>>,
) -> Seq<Seq<char>> {
    rows.filter_map(|l: Seq<char>| row_endpoint(table, prefix, inodes, l))
}

/// The rows of a table: its lines without the headings.
pub open spec fn rows_of(content: Option<Seq<char>>) -> Seq<Seq<char>> {
    match content {
        Some(s) => if text_lines(s).len() == 0 {
            Seq::empty()
        } else {
            text_lines(s).skip(1)
        },
        None => Seq::empty(),
    }
}

/// The endpoints of a table that could be read.
pub open spec fn table_endpoints(
    table: SocketTable,
    prefix: Seq<char>,
    inodes: Seq<Seq<char>>,
    content: Option<Seq<char>>,
) -> Seq<Seq<char>> {
    rows_endpoints(table, prefix, inodes, rows_of(content))
}

fn endpoint_on_row(table: SocketTable, prefix: &str, inodes: &Vec<String>, l: &str) -> (r: Option<
    String,
>)
    ensures
        opt_view(r) == row_endpoint(table, prefix@, views(inodes@), l@),
{
    let cols = split_whitespace(l);
    let ghost q = views(cols@);
    if cols.len() < 10 {
        return None;
    }
    assert(q[1] == cols@[1]@ && q[2] == cols@[2]@ && q[3] == cols@[3]@ && q[9] == cols@[9]@);
    let listens = match table {
        SocketTable::Tcp { .. } => same(cols[3].as_str(), "0A"),
        SocketTable::Udp { .. } => ends_with(cols[2].as_str(), ":0000"),
    };
    if !listens || !has_text(inodes, cols[9].as_str()) {
        return None;
    }
    let v6 = match table {
        SocketTable::Tcp { v6 } => v6,
        SocketTable::Udp { v6 } => v6,
    };
    match parse_proc_addr(cols[1].as_str(), v6) {
        Some(ep) => Some(concat2(prefix, ep.as_str())),
        None => None,
    }
}

fn push_table(
    out: &mut Vec<String>,
    table: SocketTable,
    prefix: &str,
    inodes: &Vec<String>,
    content: &Option<String>,
)
    ensures
        views(final(out)@) == views(old(out)@) + table_endpoints(
            table,
            prefix@,
            views(inodes@),
            opt_view(*content),
        ),
{
    let ghost before = views(out@);
    let ghost ins = views(inodes@);
    let ghost rows = rows_of(opt_view(*content));
    match content {
        Some(s) => {
            let ls = lines(s.as_str());
            let ghost q = views(ls@);
            let mut i: usize = 1;
            assert(before + rows_endpoints(table, prefix@, ins, rows.take(0)) =~= before);
            while i < ls.len()
                invariant
                    1 <= i,
                    i <= ls@.len() || i == 1,
                    q == views(ls@),
                    ins == views(inodes@),
                    rows == (if q.len() == 0 {
                        Seq::empty()
                    } else {
                        q.skip(1)
                    }),
                    views(out@) == before + rows_endpoints(table, prefix@, ins, rows.take(i - 1)),
                decreases ls@.len() - i,
            {
                proof {
                    assert(rows.take(i as int).drop_last() =~= rows.take(i - 1));
                    assert(rows.take(i as int).last() == ls@[i as int]@);
                }
                let ghost mid = views(out@);
                let ep = endpoint_on_row(table, prefix, inodes, ls[i].as_str());
                push_text(out, ep);
                assert(views(out@) =~= before + rows_endpoints(
                    table,
                    prefix@,
                    ins,
                    rows.take(i as int),
                ));
                i += 1;
            }
            assert(rows.take(i - 1) =~= rows);
        },
        None => {
            assert(before + rows_endpoints(table, prefix@, ins, rows) =~= before);
        },
    }
}

/// What the kernel's tables of sockets hold, as far as they could be read.
pub struct ProcTables {
    pub tcp: Option<String>,
    pub tcp6: Option<String>,
    pub udp: Option<String>,
    pub udp6: Option<String>,
}

/// The endpoints that a process with these sockets listens on.
pub open spec fn linux_endpoints(inodes: Seq<Seq<char>>, t: ProcTables) -> Seq<Seq<char>> {
    if inodes.len() == 0 {
        Seq::empty()
    } else {
        table_endpoints(SocketTable::Tcp { v6: false }, "tcp "@, inodes, opt_view(t.tcp))
            + table_endpoints(SocketTable::Tcp { v6: true }, "tcp "@, inodes, opt_view(t.tcp6))
            + table_endpoints(SocketTable::Udp { v6: false }, "udp "@, inodes, opt_view(t.udp))
            + table_endpoints(SocketTable::Udp { v6: true }, "udp "@, inodes, opt_view(t.udp6))
    }
}

/// The endpoints that a process with these sockets listens on.
pub fn linux_listeners(inodes: &Vec<String>, t: &ProcTables) -> (r: Vec<String>)
    ensures
        views(r@) == linux_endpoints(views(inodes@), *t),
{
    let mut out: Vec<String> = Vec::new();
    assert(views(out@) =~= Seq::<Seq<char>>::empty());
    if inodes.len() == 0 {
        return out;
    }
    push_table(&mut out, SocketTable::Tcp { v6: false }, "tcp ", inodes, &t.tcp);
    push_table(&mut out, SocketTable::Tcp { v6: true }, "tcp ", inodes, &t.tcp6);
    push_table(&mut out, SocketTable::Udp { v6: false }, "udp ", inodes, &t.udp);
    push_table(&mut out, SocketTable::Udp { v6: true }, "udp ", inodes, &t.udp6);
    assert(views(out@) =~= linux_endpoints(views(inodes@), *t));
    out
}

/// The TCP endpoints that a process with these sockets listens on, without the
/// protocol.
pub open spec fn linux_tcp_endpoints(
    inodes: Seq<Seq<char>>,
    tcp: Option<Seq<char>>,
    tcp6: Option<Seq<char>>,
) -> Seq<Seq<char>> {
    if inodes.len() == 0 {
        Seq::empty()
    } else {
        table_endpoints(SocketTable::Tcp { v6: false }, ""@, inodes, tcp) + table_endpoints(
            SocketTable::Tcp { v6: true },
            ""@,
            inodes,
            tcp6,
        )
    }
}

/// The TCP endpoints that a process with these sockets listens on, without the
/// protocol.
pub fn linux_tcp_listeners(
    inodes: &Vec<String>,
    tcp: &Option<String>,
    tcp6: &Option<String>,
) -> (r: Vec<String>)
    ensures
        views(r@) == linux_tcp_endpoints(views(inodes@), opt_view(*tcp), opt_view(*tcp6)),
{
    let mut out: Vec<String> = Vec::new();
    assert(views(out@) =~= Seq::<Seq<char>>::empty());
    if inodes.len() == 0 {
        return out;
    }
    push_table(&mut out, SocketTable::Tcp { v6: false }, "", inodes, tcp);
    push_table(&mut out, SocketTable::Tcp { v6: true }, "", inodes, tcp6);
    assert(views(out@) =~= linux_tcp_endpoints(views(inodes@), opt_view(*tcp), opt_view(*tcp6)));
    out
}

// ── lsof ─────────────────────────────────────────────────────────────────────

/// The address on a line of `lsof -Fn`: behind an `n`. A socket with a peer does
/// not listen.
pub open spec fn lsof_name(l: Seq<char>) -> Option<Seq<char>> {
    match after_prefix(l, "n"@) {
        Some(rest) => {
            let s = trimmed(rest);
            if s.contains(':') && !occurs(s, "->"@) {
                Some(s)
            } else {
                None
            }
        },
        None => None,
    }
}

pub open spec fn names_on_lines(ls: Seq<Seq<char>>) -> Seq<Seq<char>> {
    ls.filter_map(|l: Seq<char>| lsof_name(l))
}

/// The addresses that `lsof -Fn` printed; none where it failed.
pub open spec fn lsof_addresses(out: Option<Seq<char>>) -> Seq<Seq<char>> {
    match out {
        Some(s) => names_on_lines(text_lines(s)),
        None => Seq::empty(),
    }
}

/// The addresses that `lsof -Fn` printed.
pub fn lsof_names(out: Option<&str>) -> (r: Vec<String>)
    ensures
        views(r@) == lsof_addresses(opt_str_view(out)),
{
    let mut v: Vec<String> = Vec::new();
    assert(views(v@) =~= Seq::<Seq<char>>::empty());
    match out {
        Some(s) => {
            let ls = lines(s);
            let ghost q = views(ls@);
            let mut i: usize = 0;
            assert(views(v@) =~= names_on_lines(q.take(0)));
            while i < ls.len()
                invariant
                    i <= ls@.len(),
                    q == views(ls@),
                    views(v@) == names_on_lines(q.take(i as int)),
                decreases ls@.len() - i,
            {
                assert(q.take(i + 1).drop_last() =~= q.take(i as int));
                assert(q.take(i + 1).last() == ls@[i as int]@);
                let name = match strip_prefix(ls[i].as_str(), "n") {
                    Some(rest) => {
                        let t = trim(rest.as_str());
                        if contains_char(t.as_str(), ':') && !contains(t.as_str(), "->") {
                            Some(t)
                        } else {
                            None
                        }
                    },
                    None => None,
                };
                push_text(&mut v, name);
                i += 1;
            }
            assert(q.take(q.len() as int) =~= q);
        },
        None => {},
    }
    v
}

/// Each text behind `prefix`.
pub open spec fn all_prefixed(prefix: Seq<char>, v: Seq<Seq<char>>) -> Seq<Seq<char>> {
    Seq::new(v.len(), |i: int| prefix + v[i])
}

fn push_prefixed(out: &mut Vec<String>, prefix: &str, v: &Vec<String>)
    ensures
        views(final(out)@) == views(old(out)@) + all_prefixed(prefix@, views(v@)),
{
    let ghost before = views(out@);
    let ghost all = all_prefixed(prefix@, views(v@));
    let mut i: usize = 0;
    assert(before + all.take(0) =~= before);
    while i < v.len()
        invariant
            i <= v@.len(),
            all == all_prefixed(prefix@, views(v@)),
            views(out@) == before + all.take(i as int),
        decreases v@.len() - i,
    {
        let ghost mid = views(out@);
        out.push(concat2(prefix, v[i].as_str()));
        proof {
            assert(views(out@) =~= mid.push(all[i as int]));
            assert(all.take(i + 1) =~= all.take(i as int).push(all[i as int]));
            assert(before + all.take(i + 1) =~= (before + all.take(i as int)).push(all[i as int]));
        }
        i += 1;
    }
    assert(all.take(all.len() as int) =~= all);
}

/// The endpoints that `lsof` printed of a process, for TCP and for UDP.
pub fn lsof_listeners(tcp: Option<&str>, udp: Option<&str>) -> (r: Vec<String>)
    ensures
        views(r@) == all_prefixed("tcp "@, lsof_addresses(opt_str_view(tcp))) + all_prefixed(
            "udp "@,
            lsof_addresses(opt_str_view(udp)),
        ),
{
    let mut out: Vec<String> = Vec::new();
    assert(views(out@) =~= Seq::<Seq<char>>::empty());
    let t = lsof_names(tcp);
    push_prefixed(&mut out, "tcp ", &t);
    let u = lsof_names(udp);
    push_prefixed(&mut out, "udp ", &u);
    assert(views(out@) =~= all_prefixed("tcp "@, views(t@)) + all_prefixed("udp "@, views(u@)));
    out
}

/// The address on a line of the table that `lsof` prints: the last word.
pub open spec fn lsof_column(l: Seq<char>) -> Option<Seq<char>> {
    let w = words(l);
    if w.len() == 0 {
        None
    } else {
        let s = trimmed(without_suffixes(w.last(), "(LISTEN)"@));
        if s.contains(':') {
            Some(s)
        } else {
            None
        }
    }
}

pub open spec fn columns_on_lines(ls: Seq<Seq<char>>) -> Seq<Seq<char>> {
    ls.filter_map(|l: Seq<char>| lsof_column(l))
}

/// The TCP addresses in the last column of the table that `lsof` prints.
pub fn lsof_tcp_listeners(out: Option<&str>) -> (r: Vec<String>)
    ensures
        views(r@) == columns_on_lines(rows_of(opt_str_view(out))),
{
    let mut v: Vec<String> = Vec::new();
    let ghost rows = rows_of(opt_str_view(out));
    assert(views(v@) =~= columns_on_lines(rows.take(0)));
    match out {
        Some(s) => {
            let ls = lines(s);
            let ghost q = views(ls@);
            let mut i: usize = 1;
            while i < ls.len()
                invariant
                    1 <= i,
                    i <= ls@.len() || i == 1,
                    q == views(ls@),
                    rows == (if q.len() == 0 {
                        Seq::empty()
                    } else {
                        q.skip(1)
                    }),
                    views(v@) == columns_on_lines(rows.take(i - 1)),
                decreases ls@.len() - i,
            {
                proof {
                    assert(rows.take(i as int).drop_last() =~= rows.take(i - 1));
                    assert(rows.take(i as int).last() == ls@[i as int]@);
                }
                let w = split_whitespace(ls[i].as_str());
                if w.len() > 0 {
                    let last: usize = w.len() - 1;
                    assert(views(w@).last() == w@[last as int]@);
                    let stripped = strip_suffixes(w[last].as_str(), "(LISTEN)");
                    let t = trim(stripped.as_str());
                    if contains_char(t.as_str(), ':') {
                        push_text(&mut v, Some(t));
                    }
                }
                i += 1;
            }
            assert(rows.take(i - 1) =~= rows);
        },
        None => {
            assert(rows.take(0) =~= rows);
        },
    }
    v
}

// ── In order, once each ──────────────────────────────────────────────────────

/// The texts without those that equal the one before them.
pub open spec fn without_repeats(s: Seq<Seq<char>>) -> Seq<Seq<char>>
    decreases s.len(),
{
    if s.len() == 0 {
        s
    } else {
        let d = without_repeats(s.drop_last());
        if d.len() > 0 && d.last() == s.last() {
            d
        } else {
            d.push(s.last())
        }
    }
}

/// The endpoints in order, each once.
pub open spec fn in_order_once(eps: Seq<Seq<char>>) -> Seq<Seq<char>> {
    without_repeats(ranked::<String>(eps))
}

fn drop_repeats(v: &Vec<String>) -> (r: Vec<String>)
    ensures
        views(r@) == without_repeats(views(v@)),
{
    let ghost q = views(v@);
    let mut out: Vec<String> = Vec::new();
    let mut i: usize = 0;
    assert(views(out@) =~= without_repeats(q.take(0)));
    while i < v.len()
        invariant
            i <= v@.len(),
            q == views(v@),
            views(out@) == without_repeats(q.take(i as int)),
        decreases v@.len() - i,
    {
        let ghost before = views(out@);
        proof {
            assert(q.take(i + 1).drop_last() =~= q.take(i as int));
            assert(q.take(i + 1).last() == v@[i as int]@);
        }
        let n: usize = out.len();
        if n > 0 {
            assert(before.last() == out@[n - 1]@);
        }
        if !(n > 0 && same(out[n - 1].as_str(), v[i].as_str())) {
            out.push(v[i].clone());
            assert(views(out@) =~= before.push(v@[i as int]@));
        }
        i += 1;
    }
    assert(q.take(q.len() as int) =~= q);
    out
}

/// The endpoints in order, each once.
pub fn listening_endpoints(eps: Vec<String>) -> (r: Vec<String>)
    ensures
        views(r@) == in_order_once(views(eps@)),
{
    assert(eps.deep_view() =~= views(eps@));
    let sorted = sort_ranked(eps);
    assert(sorted.deep_view() =~= views(sorted@));
    drop_repeats(&sorted)
}

proof fn lemma_without_repeats(s: Seq<Seq<char>>)
    requires
        in_rank_order::<String>(s),
    ensures
        ({
            let d = without_repeats(s);
            &&& strictly_ordered(d)
            &&& s.len() > 0 ==> d.len() > 0 && d.last() == s.last()
            &&& forall|x: Seq<char>| d.contains(x) <==> s.contains(x)
        }),
    decreases s.len(),
{
    if s.len() > 0 {
        let p = s.drop_last();
        assert(in_rank_order::<String>(p)) by {
            assert forall|i: int, j: int| 0 <= i < j < p.len() implies !<String as Ranked>::before(
                #[trigger] p[j],
                #[trigger] p[i],
            ) by {
                assert(p[i] == s[i] && p[j] == s[j]);
            }
        }
        lemma_without_repeats(p);
        let d = without_repeats(p);
        let r = without_repeats(s);
        if p.len() > 0 && d.last() != s.last() {
            assert(p.last() == s[s.len() - 2]);
            assert(!<String as Ranked>::before(s[s.len() - 1], s[s.len() - 2]));
            lemma_precedes_total(s.last(), p.last());
            assert(precedes(p.last(), s.last()));
            assert forall|i: int, j: int| 0 <= i < j < r.len() implies precedes(
                #[trigger] r[i],
                #[trigger] r[j],
            ) by {
                if j == d.len() && i < d.len() - 1 {
                    assert(precedes(d[i], d[d.len() - 1]));
                    lemma_precedes_transitive(d[i], d.last(), s.last());
                }
            }
        }
        assert forall|x: Seq<char>| r.contains(x) <==> s.contains(x) by {
            if s.contains(x) {
                let k = choose|k: int| 0 <= k < s.len() && s[k] == x;
                if k < p.len() {
                    assert(p[k] == x);
                    assert(p.contains(x));
                    assert(d.contains(x));
                    let m = choose|m: int| 0 <= m < d.len() && d[m] == x;
                    assert(r[m] == x);
                } else {
                    assert(r[r.len() - 1] == x);
                }
            }
            if r.contains(x) {
                let m = choose|m: int| 0 <= m < r.len() && r[m] == x;
                if m < d.len() {
                    assert(d[m] == x);
                    assert(d.contains(x));
                    assert(p.contains(x));
                    let k = choose|k: int| 0 <= k < p.len() && p[k] == x;
                    assert(s[k] == x);
                } else {
                    assert(s[s.len() - 1] == x);
                }
            }
        }
    }
}

/// The endpoints of a process are listed in order, each of them once, and none is
/// left out or added.
pub proof fn endpoints_are_in_order_once(eps: Seq<Seq<char>>, x: Seq<char>)
    ensures
        strictly_ordered(in_order_once(eps)),
        in_order_once(eps).contains(x) <==> eps.contains(x),
{
    broadcast use vstd::seq_lib::group_to_multiset_ensures;

    let s = ranked::<String>(eps);
    ranked_is_in_order::<String>(eps);
    ranked_is_permutation::<String>(eps);
    lemma_without_repeats(s);
    assert(s.contains(x) <==> s.to_multiset().count(x) > 0);
    assert(eps.contains(x) <==> eps.to_multiset().count(x) > 0);
}

} // verus!
