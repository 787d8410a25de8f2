//! That no socket that a process listens on is missed, and that none is made up.

use vstd::prelude::*;

use crate::list::filtered_items_are_those_that_map;
use crate::net::{
    embedded_v4, host_reach, ipv4_of, ipv6_of, le_bytes, longest_zeros, octet, proc_endpoint, proc_v4, v4_reach,
    v6_reach, wider, zeros_from, Reachability,
};
use crate::number::{
    all_digits, decimal, digit_char, digit_value, digits_value, number, written, written_number_reads_back,
};
use crate::sockets::{
    columns_on_lines, inode_of, inodes_of, linux_endpoints, linux_tcp_endpoints, lsof_addresses, lsof_column,
    lsof_name, row_endpoint, rows_of, table_endpoints, table_is_v6, ProcTables, SocketTable,
};
use crate::split::{text_lines, words};
use crate::text::{after_prefix, has_prefix, has_suffix, is_digit, occurs, opt_view, trimmed, without_suffixes};

verus! {

// ── Linux ────────────────────────────────────────────────────────────────────

/// The sockets of a process are those that its links lead to by `socket:[inode]`.
pub proof fn sockets_are_the_links_to_inodes(links: Seq<Seq<char>>, inode: Seq<char>)
    ensures
        inodes_of(links).contains(inode) <==> exists|i: int|
            0 <= i < links.len() && #[trigger] links[i] == "socket:["@ + inode + "]"@,
{
    let f = |l: Seq<char>| inode_of(l);
    filtered_items_are_those_that_map(links, f, inode);
    reveal_strlit("socket:[");
    reveal_strlit("]");
    assert forall|l: Seq<char>| #[trigger] f(l) == Some(inode) <==> l == "socket:["@ + inode
        + "]"@ by {
        let whole = "socket:["@ + inode + "]"@;
        if f(l) == Some(inode) {
            let rest = after_prefix(l, "socket:["@)->0;
            assert(l =~= l.take(8) + rest);
            assert(rest =~= inode + rest.skip(rest.len() - 1));
            assert(l =~= whole);
        }
        if l == whole {
            assert(l.take(8) =~= "socket:["@);
            assert(l.skip(8) =~= inode + "]"@);
            let rest = inode + "]"@;
            assert(rest.skip(rest.len() - 1) =~= "]"@);
            assert(rest.take(rest.len() - 1) =~= inode);
        }
    }
    if inodes_of(links).contains(inode) {
        let i = choose|i: int| 0 <= i < links.len() && f(#[trigger] links[i]) == Some(inode);
        assert(links[i] == "socket:["@ + inode + "]"@);
    }
    if exists|i: int| 0 <= i < links.len() && #[trigger] links[i] == "socket:["@ + inode + "]"@ {
        let i = choose|i: int|
            0 <= i < links.len() && #[trigger] links[i] == "socket:["@ + inode + "]"@;
        assert(f(links[i]) == Some(inode));
    }
}

/// Whether the line `n` of a table, behind its heading, is of a TCP socket of the process that
/// is in the state of listening, on the endpoint `ep`.
pub open spec fn tcp_socket_listens(
    content: Seq<char>,
    v6: bool,
    inodes: Seq<Seq<char>>,
    n: int,
    ep: Seq<char>,
) -> bool {
    let cols = words(text_lines(content)[n]);
    &&& 1 <= n < text_lines(content).len()
    &&& cols.len() >= 10
    &&& cols[3] == "0A"@
    &&& inodes.contains(cols[9])
    &&& proc_endpoint(cols[1], v6) == Some(ep)
}

/// Whether the line `n` of a table, behind its heading, is of a UDP socket of the process that
/// has no peer, on the endpoint `ep`.
pub open spec fn udp_socket_listens(
    content: Seq<char>,
    v6: bool,
    inodes: Seq<Seq<char>>,
    n: int,
    ep: Seq<char>,
) -> bool {
    let cols = words(text_lines(content)[n]);
    &&& 1 <= n < text_lines(content).len()
    &&& cols.len() >= 10
    &&& has_suffix(cols[2], ":0000"@)
    &&& inodes.contains(cols[9])
    &&& proc_endpoint(cols[1], v6) == Some(ep)
}

/// Whether a table that could be read has a TCP socket of the process that listens on `ep`.
pub open spec fn tcp_table_has(
    content: Option<Seq<char>>,
    v6: bool,
    inodes: Seq<Seq<char>>,
    ep: Seq<char>,
) -> bool {
    content matches Some(s) && exists|n: int| #[trigger] tcp_socket_listens(s, v6, inodes, n, ep)
}

/// Whether a table that could be read has a UDP socket of the process that listens on `ep`.
pub open spec fn udp_table_has(
    content: Option<Seq<char>>,
    v6: bool,
    inodes: Seq<Seq<char>>,
    ep: Seq<char>,
) -> bool {
    content matches Some(s) && exists|n: int| #[trigger] udp_socket_listens(s, v6, inodes, n, ep)
}

proof fn lemma_prefix_is_plain(prefix: Seq<char>, a: Seq<char>, b: Seq<char>)
    requires
        prefix + a == prefix + b,
    ensures
        a == b,
{
    assert((prefix + a).skip(prefix.len() as int) =~= a);
    assert((prefix + b).skip(prefix.len() as int) =~= b);
}

proof fn lemma_tcp_table(
    content: Option<Seq<char>>,
    v6: bool,
    prefix: Seq<char>,
    inodes: Seq<Seq<char>>,
    ep: Seq<char>,
)
    ensures
        table_endpoints(SocketTable::Tcp { v6 }, prefix, inodes, content).contains(prefix + ep)
            <==> tcp_table_has(content, v6, inodes, ep),
{
    let table = SocketTable::Tcp { v6 };
    let rows = rows_of(content);
    let f = |l: Seq<char>| row_endpoint(table, prefix, inodes, l);
    filtered_items_are_those_that_map(rows, f, prefix + ep);
    if exists|i: int| 0 <= i < rows.len() && f(#[trigger] rows[i]) == Some(prefix + ep) {
        let i = choose|i: int| 0 <= i < rows.len() && f(#[trigger] rows[i]) == Some(prefix + ep);
        let s = content->0;
        assert(rows[i] == text_lines(s)[i + 1]);
        lemma_prefix_is_plain(prefix, proc_endpoint(words(rows[i])[1], v6)->0, ep);
        assert(tcp_socket_listens(s, v6, inodes, i + 1, ep));
    }
    if tcp_table_has(content, v6, inodes, ep) {
        let s = content->0;
        let n = choose|n: int| #[trigger] tcp_socket_listens(s, v6, inodes, n, ep);
        assert(rows[n - 1] == text_lines(s)[n]);
        assert(f(rows[n - 1]) == Some(prefix + ep));
    }
}

proof fn lemma_udp_table(
    content: Option<Seq<char>>,
    v6: bool,
    prefix: Seq<char>,
    inodes: Seq<Seq<char>>,
    ep: Seq<char>,
)
    ensures
        table_endpoints(SocketTable::Udp { v6 }, prefix, inodes, content).contains(prefix + ep)
            <==> udp_table_has(content, v6, inodes, ep),
{
    let table = SocketTable::Udp { v6 };
    let rows = rows_of(content);
    let f = |l: Seq<char>| row_endpoint(table, prefix, inodes, l);
    filtered_items_are_those_that_map(rows, f, prefix + ep);
    if exists|i: int| 0 <= i < rows.len() && f(#[trigger] rows[i]) == Some(prefix + ep) {
        let i = choose|i: int| 0 <= i < rows.len() && f(#[trigger] rows[i]) == Some(prefix + ep);
        let s = content->0;
        assert(rows[i] == text_lines(s)[i + 1]);
        lemma_prefix_is_plain(prefix, proc_endpoint(words(rows[i])[1], v6)->0, ep);
        assert(udp_socket_listens(s, v6, inodes, i + 1, ep));
    }
    if udp_table_has(content, v6, inodes, ep) {
        let s = content->0;
        let n = choose|n: int| #[trigger] udp_socket_listens(s, v6, inodes, n, ep);
        assert(rows[n - 1] == text_lines(s)[n]);
        assert(f(rows[n - 1]) == Some(prefix + ep));
    }
}

proof fn lemma_listener_has_prefix(
    table: SocketTable,
    prefix: Seq<char>,
    inodes: Seq<Seq<char>>,
    content: Option<Seq<char>>,
    x: Seq<char>,
)
    requires
        table_endpoints(table, prefix, inodes, content).contains(x),
    ensures
        exists|ep: Seq<char>| x == #[trigger] (prefix + ep),
{
    let rows = rows_of(content);
    let f = |l: Seq<char>| row_endpoint(table, prefix, inodes, l);
    filtered_items_are_those_that_map(rows, f, x);
    let i = choose|i: int| 0 <= i < rows.len() && f(#[trigger] rows[i]) == Some(x);
    let v6 = table_is_v6(table);
    assert(x == prefix + proc_endpoint(words(rows[i])[1], v6)->0);
}

proof fn lemma_sum_contains(a: Seq<Seq<char>>, b: Seq<Seq<char>>, x: Seq<char>)
    ensures
        (a + b).contains(x) <==> a.contains(x) || b.contains(x),
{
    if a.contains(x) {
        let i = choose|i: int| 0 <= i < a.len() && a[i] == x;
        assert((a + b)[i] == x);
    }
    if b.contains(x) {
        let i = choose|i: int| 0 <= i < b.len() && b[i] == x;
        assert((a + b)[a.len() + i] == x);
    }
    if (a + b).contains(x) {
        let i = choose|i: int| 0 <= i < (a + b).len() && (a + b)[i] == x;
        if i < a.len() {
            assert(a[i] == x);
        } else {
            assert(b[i - a.len()] == x);
        }
    }
}

proof fn lemma_no_socket_listens(inodes: Seq<Seq<char>>, content: Option<Seq<char>>, v6: bool, ep: Seq<char>)
    requires
        inodes.len() == 0,
    ensures
        !tcp_table_has(content, v6, inodes, ep),
        !udp_table_has(content, v6, inodes, ep),
{
    if tcp_table_has(content, v6, inodes, ep) {
        let n = choose|n: int| #[trigger] tcp_socket_listens(content->0, v6, inodes, n, ep);
        assert(inodes.contains(words(text_lines(content->0)[n])[9]));
    }
    if udp_table_has(content, v6, inodes, ep) {
        let n = choose|n: int| #[trigger] udp_socket_listens(content->0, v6, inodes, n, ep);
        assert(inodes.contains(words(text_lines(content->0)[n])[9]));
    }
}

/// The listeners of a process are the endpoints of its sockets that listen: those in either
/// table of TCP sockets and those in either table of UDP sockets, each with its protocol in
/// front. None is missed, and there is no other.
pub proof fn listeners_are_the_sockets_that_listen(
    inodes: Seq<Seq<char>>,
    t: ProcTables,
    ep: Seq<char>,
    x: Seq<char>,
)
    ensures
        linux_endpoints(inodes, t).contains("tcp "@ + ep) <==> tcp_table_has(
            opt_view(t.tcp),
            false,
            inodes,
            ep,
        ) || tcp_table_has(opt_view(t.tcp6), true, inodes, ep),
        linux_endpoints(inodes, t).contains("udp "@ + ep) <==> udp_table_has(
            opt_view(t.udp),
            false,
            inodes,
            ep,
        ) || udp_table_has(opt_view(t.udp6), true, inodes, ep),
        linux_endpoints(inodes, t).contains(x) ==> has_prefix(x, "tcp "@) || has_prefix(x, "udp "@),
{
    reveal_strlit("tcp ");
    reveal_strlit("udp ");
    lemma_members_of_the_tables(inodes, t, "tcp "@ + ep);
    lemma_members_of_the_tables(inodes, t, "udp "@ + ep);
    lemma_members_of_the_tables(inodes, t, x);
    lemma_tcp_table(opt_view(t.tcp), false, "tcp "@, inodes, ep);
    lemma_tcp_table(opt_view(t.tcp6), true, "tcp "@, inodes, ep);
    lemma_udp_table(opt_view(t.udp), false, "udp "@, inodes, ep);
    lemma_udp_table(opt_view(t.udp6), true, "udp "@, inodes, ep);
    if inodes.len() == 0 {
        lemma_no_socket_listens(inodes, opt_view(t.tcp), false, ep);
        lemma_no_socket_listens(inodes, opt_view(t.tcp6), true, ep);
        lemma_no_socket_listens(inodes, opt_view(t.udp), false, ep);
        lemma_no_socket_listens(inodes, opt_view(t.udp6), true, ep);
    } else {
        assert(!in_table_of("udp "@, inodes, SocketTable::Udp { v6: false }, t.udp, "tcp "@ + ep)
            && !in_table_of("udp "@, inodes, SocketTable::Udp { v6: true }, t.udp6, "tcp "@ + ep))
            by {
            lemma_other_protocol("udp "@, "tcp "@, inodes, SocketTable::Udp { v6: false }, t.udp, ep);
            lemma_other_protocol("udp "@, "tcp "@, inodes, SocketTable::Udp { v6: true }, t.udp6, ep);
        }
        assert(!in_table_of("tcp "@, inodes, SocketTable::Tcp { v6: false }, t.tcp, "udp "@ + ep)
            && !in_table_of("tcp "@, inodes, SocketTable::Tcp { v6: true }, t.tcp6, "udp "@ + ep))
            by {
            lemma_other_protocol("tcp "@, "udp "@, inodes, SocketTable::Tcp { v6: false }, t.tcp, ep);
            lemma_other_protocol("tcp "@, "udp "@, inodes, SocketTable::Tcp { v6: true }, t.tcp6, ep);
        }
        if linux_endpoints(inodes, t).contains(x) {
            if in_table_of("tcp "@, inodes, SocketTable::Tcp { v6: false }, t.tcp, x) {
                lemma_begins_with_protocol("tcp "@, inodes, SocketTable::Tcp { v6: false }, t.tcp, x);
            } else if in_table_of("tcp "@, inodes, SocketTable::Tcp { v6: true }, t.tcp6, x) {
                lemma_begins_with_protocol("tcp "@, inodes, SocketTable::Tcp { v6: true }, t.tcp6, x);
            } else if in_table_of("udp "@, inodes, SocketTable::Udp { v6: false }, t.udp, x) {
                lemma_begins_with_protocol("udp "@, inodes, SocketTable::Udp { v6: false }, t.udp, x);
            } else {
                lemma_begins_with_protocol("udp "@, inodes, SocketTable::Udp { v6: true }, t.udp6, x);
            }
        }
    }
}

spec fn in_table_of(
    prefix: Seq<char>,
    inodes: Seq<Seq<char>>,
    table: SocketTable,
    content: Option<String>,
    x: Seq<char>,
) -> bool {
    table_endpoints(table, prefix, inodes, opt_view(content)).contains(x)
}

proof fn lemma_begins_with_protocol(
    prefix: Seq<char>,
    inodes: Seq<Seq<char>>,
    table: SocketTable,
    content: Option<String>,
    x: Seq<char>,
)
    requires
        in_table_of(prefix, inodes, table, content, x),
    ensures
        has_prefix(x, prefix),
{
    lemma_listener_has_prefix(table, prefix, inodes, opt_view(content), x);
    let ep = choose|ep: Seq<char>| x == #[trigger] (prefix + ep);
    assert(x.take(prefix.len() as int) =~= prefix);
}

proof fn lemma_other_protocol(
    prefix: Seq<char>,
    other: Seq<char>,
    inodes: Seq<Seq<char>>,
    table: SocketTable,
    content: Option<String>,
    ep: Seq<char>,
)
    requires
        prefix.len() > 0,
        other.len() > 0,
        prefix[0] != other[0],
    ensures
        !in_table_of(prefix, inodes, table, content, other + ep),
{
    if in_table_of(prefix, inodes, table, content, other + ep) {
        lemma_begins_with_protocol(prefix, inodes, table, content, other + ep);
        assert((other + ep).take(prefix.len() as int)[0] == prefix[0]);
    }
}

proof fn lemma_members_of_the_tables(inodes: Seq<Seq<char>>, t: ProcTables, x: Seq<char>)
    ensures
        linux_endpoints(inodes, t).contains(x) <==> inodes.len() > 0 && (in_table_of(
            "tcp "@,
            inodes,
            SocketTable::Tcp { v6: false },
            t.tcp,
            x,
        ) || in_table_of("tcp "@, inodes, SocketTable::Tcp { v6: true }, t.tcp6, x) || in_table_of(
            "udp "@,
            inodes,
            SocketTable::Udp { v6: false },
            t.udp,
            x,
        ) || in_table_of("udp "@, inodes, SocketTable::Udp { v6: true }, t.udp6, x)),
{
    let a = table_endpoints(SocketTable::Tcp { v6: false }, "tcp "@, inodes, opt_view(t.tcp));
    let b = table_endpoints(SocketTable::Tcp { v6: true }, "tcp "@, inodes, opt_view(t.tcp6));
    let c = table_endpoints(SocketTable::Udp { v6: false }, "udp "@, inodes, opt_view(t.udp));
    let d = table_endpoints(SocketTable::Udp { v6: true }, "udp "@, inodes, opt_view(t.udp6));
    lemma_sum_contains(a, b, x);
    lemma_sum_contains(a + b, c, x);
    lemma_sum_contains(a + b + c, d, x);
}

/// Without the protocol, the TCP listeners of a process are the endpoints of its sockets in
/// either table of TCP sockets.
pub proof fn tcp_listeners_are_the_sockets_that_listen(
    inodes: Seq<Seq<char>>,
    tcp: Option<Seq<char>>,
    tcp6: Option<Seq<char>>,
    ep: Seq<char>,
)
    ensures
        linux_tcp_endpoints(inodes, tcp, tcp6).contains(ep) <==> tcp_table_has(
            tcp,
            false,
            inodes,
            ep,
        ) || tcp_table_has(tcp6, true, inodes, ep),
{
    reveal_strlit("");
    assert(""@ + ep =~= ep);
    lemma_tcp_table(tcp, false, ""@, inodes, ep);
    lemma_tcp_table(tcp6, true, ""@, inodes, ep);
    let a = table_endpoints(SocketTable::Tcp { v6: false }, ""@, inodes, tcp);
    let b = table_endpoints(SocketTable::Tcp { v6: true }, ""@, inodes, tcp6);
    lemma_sum_contains(a, b, ep);
    if inodes.len() == 0 {
        lemma_no_socket_listens(inodes, tcp, false, ep);
        lemma_no_socket_listens(inodes, tcp6, true, ep);
    }
}

// ── lsof ─────────────────────────────────────────────────────────────────────

/// The addresses that `lsof` gives field by field are those behind an `n` that have a port and
/// no peer.
pub proof fn lsof_addresses_are_the_names_without_a_peer(out: Seq<char>, x: Seq<char>)
    ensures
        lsof_addresses(Some(out)).contains(x) <==> x.contains(':') && !occurs(x, "->"@) && exists|
            i: int,
        |
            0 <= i < text_lines(out).len() && has_prefix(#[trigger] text_lines(out)[i], "n"@)
                && trimmed(text_lines(out)[i].skip(1)) == x,
        !lsof_addresses(None).contains(x),
{
    reveal_strlit("n");
    let ls = text_lines(out);
    let f = |l: Seq<char>| lsof_name(l);
    filtered_items_are_those_that_map(ls, f, x);
    if lsof_addresses(Some(out)).contains(x) {
        let i = choose|i: int| 0 <= i < ls.len() && f(#[trigger] ls[i]) == Some(x);
        assert(has_prefix(ls[i], "n"@));
    }
    if x.contains(':') && !occurs(x, "->"@) && exists|i: int|
        0 <= i < ls.len() && has_prefix(#[trigger] ls[i], "n"@) && trimmed(ls[i].skip(1)) == x {
        let i = choose|i: int|
            0 <= i < ls.len() && has_prefix(#[trigger] ls[i], "n"@) && trimmed(ls[i].skip(1)) == x;
        assert(f(ls[i]) == Some(x));
    }
}

/// The addresses in the table that `lsof` prints are the last words of its rows that have a
/// port; the heading is no row.
pub proof fn lsof_columns_are_the_last_words(out: Seq<char>, x: Seq<char>)
    ensures
        columns_on_lines(rows_of(Some(out))).contains(x) <==> x.contains(':') && exists|i: int|
            1 <= i < text_lines(out).len() && words(#[trigger] text_lines(out)[i]).len() > 0
                && trimmed(without_suffixes(words(text_lines(out)[i]).last(), "(LISTEN)"@)) == x,
{
    let ls = text_lines(out);
    let rows = rows_of(Some(out));
    let f = |l: Seq<char>| lsof_column(l);
    filtered_items_are_those_that_map(rows, f, x);
    if columns_on_lines(rows).contains(x) {
        let i = choose|i: int| 0 <= i < rows.len() && f(#[trigger] rows[i]) == Some(x);
        assert(rows[i] == ls[i + 1]);
    }
    if x.contains(':') && exists|i: int|
        1 <= i < ls.len() && words(#[trigger] ls[i]).len() > 0 && trimmed(
            without_suffixes(words(ls[i]).last(), "(LISTEN)"@),
        ) == x {
        let i = choose|i: int|
            1 <= i < ls.len() && words(#[trigger] ls[i]).len() > 0 && trimmed(
                without_suffixes(words(ls[i]).last(), "(LISTEN)"@),
            ) == x;
        assert(rows[i - 1] == ls[i]);
        assert(f(rows[i - 1]) == Some(x));
    }
}

// ── Reach ────────────────────────────────────────────────────────────────────

/// The number that an IPv4 address is.
pub open spec fn v4_number(o: Seq<u8>) -> int {
    o[0] * 0x1000000 + o[1] * 0x10000 + o[2] * 0x100 + o[3]
}

/// An IPv4 address is one of the host itself in the block `127.0.0.0/8`, and one of a private
/// network in `10.0.0.0/8`, `172.16.0.0/12`, `192.168.0.0/16`, `169.254.0.0/16` and
/// `100.64.0.0/10`; any other is public, the one that stands for all of them too.
pub proof fn ipv4_blocks_decide_the_reach(o: Seq<u8>)
    requires
        o.len() == 4,
    ensures
        ({
            let n = v4_number(o);
            &&& v4_reach(o) == Reachability::Loopback <==> 0x7f000000 <= n < 0x80000000
            &&& v4_reach(o) == Reachability::Private <==> {
                ||| 0x0a000000 <= n < 0x0b000000
                ||| 0xac100000 <= n < 0xac200000
                ||| 0xc0a80000 <= n < 0xc0a90000
                ||| 0xa9fe0000 <= n < 0xa9ff0000
                ||| 0x64400000 <= n < 0x64800000
            }
            &&& v4_reach(o) != Reachability::Closed
        }),
{
}

/// An IPv6 address is one of the host itself only if it is `::1`, and one of a private network
/// only in `fc00::/7` and `fe80::/10`; any other is public. One with an IPv4 address in it
/// reaches as far as that.
pub proof fn ipv6_blocks_decide_the_reach(g: Seq<u16>, o: Seq<u8>)
    requires
        g.len() == 8,
        o.len() == 4,
    ensures
        ({
            let mapped = g[0] == 0 && g[1] == 0 && g[2] == 0 && g[3] == 0 && g[4] == 0 && g[5]
                == 0xffff;
            let one = g[0] == 0 && g[1] == 0 && g[2] == 0 && g[3] == 0 && g[4] == 0 && g[5] == 0
                && g[6] == 0 && g[7] == 1;
            &&& !mapped ==> (v6_reach(g) == Reachability::Loopback <==> one)
            &&& !mapped ==> (v6_reach(g) == Reachability::Private <==> g[0] / 0x200 == 0x7e || g[0]
                / 0x40 == 0x3fa)
            &&& mapped && g[6] == o[0] * 0x100 + o[1] && g[7] == o[2] * 0x100 + o[3] ==> v6_reach(g)
                == v4_reach(o)
            &&& v6_reach(g) != Reachability::Closed
        }),
{
    let z = seq![0u16, 0, 0, 0, 0, 0, 0, 1];
    assert(z[0] == 0 && z[1] == 0 && z[2] == 0 && z[3] == 0 && z[4] == 0 && z[5] == 0 && z[6] == 0
        && z[7] == 1);
    if g[0] == 0 && g[1] == 0 && g[2] == 0 && g[3] == 0 && g[4] == 0 && g[5] == 0 && g[6] == 0
        && g[7] == 1 {
        assert(g =~= z);
    }
    if g[6] == o[0] * 0x100 + o[1] && g[7] == o[2] * 0x100 + o[3] {
        assert(embedded_v4(g) =~= o);
    }
}

/// What can be reached from another host is what is in a private network or public, and the
/// names of the degrees tell them apart.
pub proof fn what_leaves_the_host_is_exposed(a: Reachability, b: Reachability)
    ensures
        a.is_exposed() <==> a != Reachability::Closed && a != Reachability::Loopback,
        a.is_exposed() && !b.is_exposed() ==> a.degree() > b.degree(),
        Reachability::Closed.degree() < Reachability::Loopback.degree()
            < Reachability::Private.degree() < Reachability::Public.degree(),
        a.name() == b.name() <==> a == b,
        Reachability::Public.name() == "public"@,
        Reachability::Private.name() == "private"@,
        Reachability::Loopback.name() == "loopback"@,
        Reachability::Closed.name() == "none"@,
        wider(a, b) == a || wider(a, b) == b,
        wider(a, b).degree() >= a.degree() && wider(a, b).degree() >= b.degree(),
{
    reveal_strlit("none");
    reveal_strlit("loopback");
    reveal_strlit("private");
    reveal_strlit("public");
    assert("loopback"@[0] != "private"@[0]);
    assert("private"@[1] != "public"@[1]);
}

/// A socket on all addresses is public, and one on the loopback address is not, by number or by
/// name.
pub proof fn wildcard_hosts_are_public(host: Seq<char>)
    ensures
        host == "0.0.0.0"@ || host == "::"@ || host == "*"@ ==> host_reach(host)
            == Reachability::Public,
        host == "127.0.0.1"@ || host == "::1"@ || host == "localhost"@ ==> host_reach(host)
            == Reachability::Loopback,
        host_reach(host) != Reachability::Closed,
{
    reveal_strlit("0.0.0.0");
    reveal_strlit("::");
    reveal_strlit("*");
    reveal_strlit("127.0.0.1");
    reveal_strlit("::1");
    reveal_strlit("localhost");
    assert("localhost"@.len() == 9 && "127.0.0.1"@.len() == 9);
    assert("::1"@.len() == 3 && "::"@.len() == 2);
}

// ── Addresses of the kernel ──────────────────────────────────────────────────

/// The kernel writes an IPv4 address as one number whose lowest byte is the first of the
/// address.
pub proof fn the_first_byte_is_the_lowest(w: nat)
    requires
        w <= u32::MAX,
    ensures
        le_bytes(w).len() == 4,
        le_bytes(w)[0] + le_bytes(w)[1] * 0x100 + le_bytes(w)[2] * 0x10000 + le_bytes(w)[3]
            * 0x1000000 == w,
{
}

/// An IPv4 address of the kernel has eight digits in base 16.
pub proof fn kernel_addresses_have_eight_digits(addr: Seq<char>)
    ensures
        proc_v4(addr) is Some <==> addr.len() == 8 && number(addr, 16, u32::MAX as nat) is Some,
        proc_v4(addr) is Some ==> proc_v4(addr) == Some(le_bytes(number(addr, 16, u32::MAX as nat)->0)),
{
}

/// A host that is no address and goes by no name of the loopback may be reached by all.
pub proof fn a_host_that_is_no_address_is_public(host: Seq<char>)
    ensures
        ipv4_of(host) is None && ipv6_of(host) is None && host != "127.0.0.1"@ && host != "::1"@ && host
            != "localhost"@ ==> host_reach(host) == Reachability::Public,
        host == "localhost"@ ==> host_reach(host) == Reachability::Loopback,
{
    reveal_strlit("localhost");
    reveal_strlit("0.0.0.0");
    reveal_strlit("::");
    reveal_strlit("*");
    assert("localhost"@.len() == 9 && "0.0.0.0"@.len() == 7 && "::"@.len() == 2 && "*"@.len() == 1);
}

proof fn lemma_digit_is_written(c: char)
    requires
        is_digit(c),
    ensures
        digit_value(c, 10) matches Some(d) && digit_char(d) == c,
{
}

proof fn lemma_digits_are_written(s: Seq<char>)
    requires
        s.len() > 0,
        all_digits(s, 10),
        s.len() > 1 ==> s[0] != '0',
        forall|i: int| 0 <= i < s.len() ==> is_digit(#[trigger] s[i]),
    ensures
        decimal(digits_value(s, 10)) == s,
        s.len() > 1 ==> digits_value(s, 10) >= 10,
        s[0] != '0' ==> digits_value(s, 10) > 0,
    decreases s.len(),
{
    reveal_with_fuel(digits_value, 2);
    let d = s.drop_last();
    assert(digit_value(s[s.len() - 1], 10) is Some);
    let x = digit_value(s[s.len() - 1], 10)->0;
    let c = s[s.len() - 1];
    assert(is_digit(c));
    lemma_digit_is_written(c);
    if s.len() == 1 {
        assert(d =~= Seq::<char>::empty());
        assert(seq![s[0]] =~= s);
    } else {
        assert forall|i: int| 0 <= i < d.len() implies digit_value(#[trigger] d[i], 10) is Some by {
            assert(d[i] == s[i]);
        }
        assert forall|i: int| 0 <= i < d.len() implies is_digit(#[trigger] d[i]) by {
            assert(d[i] == s[i]);
        }
        assert(d[0] == s[0]);
        lemma_digits_are_written(d);
        let n = digits_value(d, 10);
        assert((n * 10 + x) / 10 == n && (n * 10 + x) % 10 == x) by (nonlinear_arith)
            requires
                0 <= x < 10,
        ;
        assert(d.push(s[s.len() - 1]) =~= s);
    }
}

/// A part of an IPv4 address is a number below 256, written without a zero before it.
pub proof fn an_octet_is_written_as_its_number(s: Seq<char>, n: u8)
    ensures
        octet(s) == Some(n) <==> s == decimal(n as nat),
{
    if octet(s) == Some(n) {
        assert forall|i: int| 0 <= i < s.len() implies is_digit(#[trigger] s[i]) by {
            assert(digit_value(s[i], 10) is Some);
        }
        lemma_digits_are_written(s);
    }
    if s == decimal(n as nat) {
        lemma_octet(n);
    }
}

proof fn lemma_octet(n: u8)
    ensures
        octet(decimal(n as nat)) == Some(n),
{
    let s = decimal(n as nat);
    written_number_reads_back(n as nat, 10);
    reveal_with_fuel(written, 4);
    assert(s.len() <= 3);
    if s.len() > 1 {
        assert(n > 0);
    }
}

/// In a written IPv6 address the longest run of zeros is left out, and of several that are as long the
/// first.
pub proof fn the_first_longest_run_of_zeros_is_found(g: Seq<u16>, i: int, k: int)
    requires
        0 <= i <= g.len(),
    ensures
        ({
            let (start, len) = longest_zeros(g, i);
            &&& i <= start <= g.len()
            &&& len == zeros_from(g, start)
            &&& i <= k < g.len() ==> zeros_from(g, k) <= len
            &&& i <= k < start ==> zeros_from(g, k) < len
        }),
    decreases g.len() - i,
{
    if i < g.len() {
        the_first_longest_run_of_zeros_is_found(g, i + 1, k);
        the_first_longest_run_of_zeros_is_found(g, i + 1, i + 1);
    }
}

/// A run of zeros is as long as there are zeros behind one another.
pub proof fn a_run_is_of_zeros(g: Seq<u16>, i: int, k: int)
    requires
        0 <= i <= g.len(),
    ensures
        i + zeros_from(g, i) <= g.len(),
        i <= k < i + zeros_from(g, i) ==> g[k] == 0,
        i + zeros_from(g, i) < g.len() ==> g[i + zeros_from(g, i)] != 0,
    decreases g.len() - i,
{
    if i < g.len() && g[i] == 0 {
        a_run_is_of_zeros(g, i + 1, k);
    }
}

} // verus!
