//! That the endpoints of the kernel's tables are taken for what they are: an address
//! that was written is read back as that address, and its reach decides.

use vstd::prelude::*;

use crate::net::{
    colon_groups, embedded_v4, groups_text, hex_group, host_of, host_reach, ipv4_of, ipv4_text, ipv6_of, ipv6_text,
    is_mapped, longest_zeros, octet, plain_groups, proc_endpoint, proc_v4, proc_v6, reach_of, v4_groups, v4_reach,
    v6_reach, without_protocol, zero_groups, zeros_from, Reachability,
};
use crate::number::{all_digits, decimal, digit_value, number, written, written_number_reads_back};
use crate::split::{
    cut, free_of, joined, joined_texts_are_the_pieces, last_place_to, lemma_character_is_in_a_piece, pieces,
};
use crate::text::{lemma_place_from, occurs_at, place, trimmed_end, trimmed_of, trimmed_start, CharSet};

verus! {

// ── IPv4 ─────────────────────────────────────────────────────────────────────

/// Digits are neither dots nor colons nor brackets.
proof fn lemma_digits_are_plain(s: Seq<char>, base: nat)
    requires
        all_digits(s, base),
        base <= 16,
    ensures
        free_of(s, CharSet::Is('.')),
        free_of(s, CharSet::Is(':')),
        free_of(s, CharSet::Either('[', ']')),
{
    assert forall|i: int| 0 <= i < s.len() implies s[i] != '.' && s[i] != ':' && s[i] != '[' && s[i]
        != ']' by {
        assert(digit_value(s[i], base) is Some);
    }
}

proof fn lemma_octet(n: u8)
    ensures
        octet(decimal(n as nat)) == Some(n),
        free_of(decimal(n as nat), CharSet::Is('.')),
{
    let w = decimal(n as nat);
    written_number_reads_back(n as nat, 10);
    lemma_digits_are_plain(w, 10);
    reveal_with_fuel(written, 3);
    assert(w.len() <= 3);
    if n == 0 {
        assert(w.len() == 1);
    }
}

spec fn octet_texts(o: Seq<u8>) -> Seq<Seq<char>> {
    seq![decimal(o[0] as nat), decimal(o[1] as nat), decimal(o[2] as nat), decimal(o[3] as nat)]
}

proof fn lemma_ipv4_text_is_joined(o: Seq<u8>)
    ensures
        ipv4_text(o) == joined(octet_texts(o), seq!['.']),
{
    let t = octet_texts(o);
    reveal_strlit(".");
    assert("."@ =~= seq!['.']);
    assert(t.drop_last() =~= seq![t[0], t[1], t[2]]);
    assert(t.drop_last().drop_last() =~= seq![t[0], t[1]]);
    assert(t.drop_last().drop_last().drop_last() =~= seq![t[0]]);
    reveal_with_fuel(joined, 4);
    assert(ipv4_text(o) =~= joined(t, seq!['.']));
}

/// An IPv4 address that was written is read back as that address.
pub proof fn ipv4_address_reads_back(o: Seq<u8>)
    requires
        o.len() == 4,
    ensures
        ipv4_of(ipv4_text(o)) == Some(o),
{
    let t = octet_texts(o);
    assert forall|i: int| 0 <= i < 4 implies octet(#[trigger] t[i]) == Some(o[i]) && free_of(
        t[i],
        CharSet::Is('.'),
    ) by {
        lemma_octet(o[i]);
    }
    lemma_ipv4_text_is_joined(o);
    joined_texts_are_the_pieces(t, '.');
    assert(seq![o[0], o[1], o[2], o[3]] =~= o);
}

// ── IPv6 ─────────────────────────────────────────────────────────────────────

spec fn group_texts(g: Seq<u16>) -> Seq<Seq<char>> {
    Seq::new(g.len(), |i: int| written(g[i] as nat, 16))
}

proof fn lemma_group(x: u16)
    ensures
        hex_group(written(x as nat, 16)) == Some(x),
        written(x as nat, 16).len() > 0,
        free_of(written(x as nat, 16), CharSet::Is(':')),
        free_of(written(x as nat, 16), CharSet::Is('.')),
        free_of(written(x as nat, 16), CharSet::Either('[', ']')),
{
    let w = written(x as nat, 16);
    written_number_reads_back(x as nat, 16);
    lemma_digits_are_plain(w, 16);
    reveal_with_fuel(written, 4);
    assert(w.len() <= 4);
}

proof fn lemma_plain_groups(g: Seq<u16>)
    ensures
        plain_groups(group_texts(g)) == Some(g),
    decreases g.len(),
{
    if g.len() == 0 {
        assert(plain_groups(group_texts(g))->0 =~= g);
    } else {
        lemma_plain_groups(g.drop_last());
        lemma_group(g.last());
        assert(group_texts(g).drop_last() =~= group_texts(g.drop_last()));
        assert(g.drop_last().push(g.last()) =~= g);
    }
}

/// Texts that are not empty and hold no colon make, joined by colons, a text without
/// two colons in a row and without one at either end.
spec fn colons_stand_alone(s: Seq<char>) -> bool {
    &&& s.len() > 0 ==> s[0] != ':' && s.last() != ':'
    &&& forall|j: int| 0 <= j < s.len() - 1 ==> !(#[trigger] s[j] == ':' && s[j + 1] == ':')
}

proof fn lemma_colons_stand_alone(p: Seq<Seq<char>>)
    requires
        forall|i: int|
            0 <= i < p.len() ==> (#[trigger] p[i]).len() > 0 && free_of(p[i], CharSet::Is(':')),
    ensures
        colons_stand_alone(joined(p, seq![':'])),
        p.len() > 0 ==> joined(p, seq![':']).len() > 0,
    decreases p.len(),
{
    let s = joined(p, seq![':']);
    if p.len() == 1 {
        assert(free_of(p[0], CharSet::Is(':')));
        assert forall|j: int| 0 <= j < s.len() implies #[trigger] s[j] != ':' by {
            assert(!CharSet::Is(':').has(p[0][j]));
        }
    } else if p.len() > 1 {
        let d = p.drop_last();
        let t = joined(d, seq![':']);
        let x = p.last();
        lemma_colons_stand_alone(d);
        assert(x == p[p.len() - 1]);
        assert forall|j: int| 0 <= j < x.len() implies #[trigger] x[j] != ':' by {
            assert(!CharSet::Is(':').has(x[j]));
        }
        assert(s == t + seq![':'] + x);
        assert(s[0] == t[0]);
        assert(s.last() == x[x.len() - 1]);
        assert forall|j: int| 0 <= j < s.len() - 1 implies !(#[trigger] s[j] == ':' && s[j + 1]
            == ':') by {
            if j < t.len() - 1 {
                assert(s[j] == t[j] && s[j + 1] == t[j + 1]);
            } else if j == t.len() - 1 {
                assert(s[j] == t.last());
            } else {
                assert(s[j + 1] == x[j + 1 - t.len() - 1]);
            }
        }
    }
}

proof fn lemma_groups_text(g: Seq<u16>)
    ensures
        groups_text(g) == joined(group_texts(g), seq![':']),
        colons_stand_alone(groups_text(g)),
        g.len() > 0 ==> groups_text(g).len() > 0,
        g.len() == 0 ==> groups_text(g).len() == 0,
        colon_groups(groups_text(g), false) == Some(g),
        colon_groups(groups_text(g), true) == Some(g),
        g.len() > 0 ==> pieces(groups_text(g), CharSet::Is(':')) == group_texts(g),
{
    let t = group_texts(g);
    let s = groups_text(g);
    reveal_strlit(":");
    assert(":"@ =~= seq![':']);
    assert forall|i: int| 0 <= i < t.len() implies (#[trigger] t[i]).len() > 0 && free_of(
        t[i],
        CharSet::Is(':'),
    ) by {
        lemma_group(g[i]);
    }
    lemma_colons_stand_alone(t);
    lemma_plain_groups(g);
    if g.len() == 0 {
        assert(s.len() == 0);
        assert(Seq::<u16>::empty() =~= g);
    } else {
        joined_texts_are_the_pieces(t, ':');
        let x = t.last();
        lemma_group(g.last());
        assert(x == written(g.last() as nat, 16));
        lemma_no_dots_no_ipv4(x);
    }
}

/// A text without a dot is no IPv4 address.
proof fn lemma_no_dots_no_ipv4(x: Seq<char>)
    requires
        free_of(x, CharSet::Is('.')),
    ensures
        ipv4_of(x) is None,
{
    let one = seq![x];
    assert(one[0] == x);
    joined_texts_are_the_pieces(one, '.');
    assert(joined(one, seq!['.']) == x);
}

proof fn lemma_zeros(g: Seq<u16>, i: int)
    requires
        0 <= i <= g.len(),
    ensures
        i + zeros_from(g, i) <= g.len(),
        forall|k: int| i <= k < i + zeros_from(g, i) ==> #[trigger] g[k] == 0,
    decreases g.len() - i,
{
    if i < g.len() && g[i] == 0 {
        lemma_zeros(g, i + 1);
    }
}

proof fn lemma_longest_zeros(g: Seq<u16>, i: int)
    requires
        0 <= i <= g.len(),
    ensures
        i <= longest_zeros(g, i).0,
        longest_zeros(g, i).0 + longest_zeros(g, i).1 <= g.len(),
        forall|k: int|
            longest_zeros(g, i).0 <= k < longest_zeros(g, i).0 + longest_zeros(g, i).1
                ==> #[trigger] g[k] == 0,
    decreases g.len() - i,
{
    lemma_zeros(g, i);
    if i < g.len() {
        lemma_longest_zeros(g, i + 1);
    }
}

/// Where a text is cut at `::`, and that it is not where its colons stand alone.
proof fn lemma_cut_at_double(head: Seq<char>, tail: Seq<char>)
    requires
        colons_stand_alone(head),
    ensures
        cut(head, "::"@) is None,
        cut(head + "::"@ + tail, "::"@) == Some((head, tail)),
{
    let dd = "::"@;
    reveal_strlit("::");
    assert(dd =~= seq![':', ':']);
    lemma_place_from(head, dd, 0);
    if let Some(k) = place(head, dd) {
        assert(head.subrange(k, k + 2)[0] == head[k]);
        assert(head.subrange(k, k + 2)[1] == head[k + 1]);
    }
    let s = head + dd + tail;
    let n = head.len() as int;
    assert(s.subrange(n, n + 2) =~= dd);
    assert(occurs_at(s, dd, n));
    lemma_place_from(s, dd, 0);
    let k = place(s, dd)->0;
    if k < n {
        assert(s.subrange(k, k + 2)[0] == s[k]);
        assert(s.subrange(k, k + 2)[1] == s[k + 1]);
        assert(s[k] == head[k]);
        if k < n - 1 {
            assert(s[k + 1] == head[k + 1]);
        } else {
            assert(head[k] == head.last());
        }
    }
    assert(k == n);
    assert(s.take(n) =~= head);
    assert(s.skip(n + 2) =~= tail);
}

proof fn lemma_mapped_reads_back(g: Seq<u16>)
    requires
        g.len() == 8,
        is_mapped(g),
    ensures
        ipv6_of(ipv6_text(g)) == Some(g),
{
    let o = embedded_v4(g);
    let v4 = ipv4_text(o);
    let marks = "::ffff:"@;
    reveal_strlit("::ffff:");
    reveal_strlit("::");
    reveal_strlit("ffff");
    reveal_strlit(":");
    let tail = "ffff:"@ + v4;
    reveal_strlit("ffff:");
    assert(marks + v4 =~= Seq::<char>::empty() + "::"@ + tail);
    lemma_cut_at_double(Seq::empty(), tail);
    lemma_v4_text_is_plain(o);
    let p = seq!["ffff"@, v4];
    assert(p.drop_last() =~= seq!["ffff"@]);
    reveal_with_fuel(joined, 3);
    assert(joined(p, seq![':']) =~= tail);
    assert(free_of("ffff"@, CharSet::Is(':')));
    assert forall|i: int| 0 <= i < p.len() implies free_of(#[trigger] p[i], CharSet::Is(':')) by {}
    joined_texts_are_the_pieces(p, ':');
    ipv4_address_reads_back(o);
    assert(hex_group("ffff"@) == Some(0xffffu16)) by {
        assert(written(0xffff, 16) =~= "ffff"@) by {
            reveal_with_fuel(written, 4);
        }
        lemma_group(0xffff);
    }
    let one = seq!["ffff"@];
    assert(one.drop_last() =~= Seq::<Seq<char>>::empty());
    reveal_with_fuel(plain_groups, 2);
    assert(plain_groups(one) == Some(seq![0xffffu16])) by {
        assert(Seq::<u16>::empty().push(0xffffu16) =~= seq![0xffffu16]);
    }
    let b = seq![0xffffu16] + v4_groups(o);
    assert(colon_groups(tail, true) == Some(b));
    assert(v4_groups(o) =~= seq![g[6], g[7]]);
    assert(Seq::<u16>::empty() + zero_groups(5) + b =~= g);
}

/// The text of an IPv4 address: digits and dots, and a digit at either end.
proof fn lemma_v4_text_is_plain(o: Seq<u8>)
    ensures
        ipv4_text(o).len() > 0,
        digit_value(ipv4_text(o)[0], 10) is Some,
        digit_value(ipv4_text(o).last(), 10) is Some,
        free_of(ipv4_text(o), CharSet::Is(':')),
        free_of(ipv4_text(o), CharSet::Either('[', ']')),
{
    let t = octet_texts(o);
    reveal_strlit(".");
    assert forall|i: int| 0 <= i < 4 implies (#[trigger] t[i]).len() > 0 && all_digits(t[i], 10)
        && free_of(t[i], CharSet::Is(':')) && free_of(t[i], CharSet::Either('[', ']')) by {
        written_number_reads_back(o[i] as nat, 10);
        lemma_digits_are_plain(t[i], 10);
    }
    let s = ipv4_text(o);
    assert(s == t[0] + "."@ + t[1] + "."@ + t[2] + "."@ + t[3]);
    assert(s[0] == t[0][0]);
    assert(s.last() == t[3][t[3].len() - 1]);
    assert forall|i: int| 0 <= i < s.len() implies s[i] != ':' && s[i] != '[' && s[i] != ']' by {
        let a = t[0].len() as int;
        let b = a + 1 + t[1].len();
        let c = b + 1 + t[2].len();
        if i < a {
            assert(s[i] == t[0][i]);
        } else if i == a {
            assert(s[i] == '.');
        } else if i < b {
            assert(s[i] == t[1][i - a - 1]);
        } else if i == b {
            assert(s[i] == '.');
        } else if i < c {
            assert(s[i] == t[2][i - b - 1]);
        } else if i == c {
            assert(s[i] == '.');
        } else {
            assert(s[i] == t[3][i - c - 1]);
        }
    }
}

/// An IPv6 address that was written, with zeros left out or an IPv4 address within, is
/// read back as that address.
pub proof fn ipv6_address_reads_back(g: Seq<u16>)
    requires
        g.len() == 8,
    ensures
        ipv6_of(ipv6_text(g)) == Some(g),
{
    if is_mapped(g) {
        lemma_mapped_reads_back(g);
    } else {
        let (start, len) = longest_zeros(g, 0);
        lemma_longest_zeros(g, 0);
        if len > 1 {
            let a = g.take(start);
            let b = g.skip(start + len);
            lemma_groups_text(a);
            lemma_groups_text(b);
            lemma_cut_at_double(groups_text(a), groups_text(b));
            assert(a + zero_groups(len) + b =~= g);
        } else {
            lemma_groups_text(g);
            lemma_cut_at_double(groups_text(g), Seq::empty());
        }
    }
}

// ── Endpoints ────────────────────────────────────────────────────────────────

/// The text of an IPv6 address: no brackets, a colon, and no white space or bracket to
/// trim at either end.
proof fn lemma_v6_text_is_plain(g: Seq<u16>)
    requires
        g.len() == 8,
    ensures
        ipv6_text(g).len() > 0,
        free_of(ipv6_text(g), CharSet::Either('[', ']')),
        ipv6_text(g).contains(':'),
{
    let s = ipv6_text(g);
    if is_mapped(g) {
        reveal_strlit("::ffff:");
        let marks = "::ffff:"@;
        let v4 = ipv4_text(embedded_v4(g));
        lemma_v4_text_is_plain(embedded_v4(g));
        assert forall|i: int| 0 <= i < s.len() implies s[i] != '[' && s[i] != ']' by {
            if i < marks.len() {
                assert(s[i] == marks[i]);
            } else {
                assert(s[i] == v4[i - marks.len()]);
            }
        }
        assert(s[0] == ':');
    } else {
        let (start, len) = longest_zeros(g, 0);
        lemma_longest_zeros(g, 0);
        if len > 1 {
            let a = groups_text(g.take(start));
            let b = groups_text(g.skip(start + len));
            reveal_strlit("::");
            lemma_groups_have_no_brackets(g.take(start));
            lemma_groups_have_no_brackets(g.skip(start + len));
            assert forall|i: int| 0 <= i < s.len() implies s[i] != '[' && s[i] != ']' by {
                if i < a.len() {
                    assert(s[i] == a[i]);
                } else if i < a.len() + 2 {
                    assert(s[i] == "::"@[i - a.len()]);
                } else {
                    assert(s[i] == b[i - a.len() - 2]);
                }
            }
            assert(s[a.len() as int] == ':');
        } else {
            lemma_groups_have_no_brackets(g);
            lemma_groups_text(g);
            let p = group_texts(g);
            assert(s == joined(p, seq![':']));
            let t = joined(p.drop_last(), seq![':']);
            assert(s == t + seq![':'] + p.last());
            assert(s[t.len() as int] == ':');
        }
    }
}

proof fn lemma_groups_have_no_brackets(g: Seq<u16>)
    ensures
        free_of(groups_text(g), CharSet::Either('[', ']')),
    decreases g.len(),
{
    lemma_groups_text(g);
    let p = group_texts(g);
    let s = groups_text(g);
    if g.len() > 0 {
        lemma_group(g.last());
        assert(p.last() == written(g.last() as nat, 16));
        if g.len() > 1 {
            let d = g.drop_last();
            lemma_groups_have_no_brackets(d);
            lemma_groups_text(d);
            assert(p.drop_last() =~= group_texts(d));
            let t = groups_text(d);
            let x = p.last();
            assert(s == t + seq![':'] + x);
            assert forall|i: int| 0 <= i < s.len() implies s[i] != '[' && s[i] != ']' by {
                if i < t.len() {
                    assert(s[i] == t[i]);
                } else if i == t.len() {
                    assert(s[i] == ':');
                } else {
                    assert(s[i] == x[i - t.len() - 1]);
                }
            }
        } else {
            assert(s == p[0]);
        }
    }
}

/// A text that holds a colon is no IPv4 address.
proof fn lemma_colon_no_ipv4(s: Seq<char>)
    requires
        s.contains(':'),
    ensures
        ipv4_of(s) is None,
{
    let i = choose|i: int| 0 <= i < s.len() && s[i] == ':';
    lemma_character_is_in_a_piece(s, CharSet::Is('.'), i);
    let p = pieces(s, CharSet::Is('.'));
    let k = choose|k: int| 0 <= k < p.len() && (#[trigger] p[k]).contains(':');
    let j = choose|j: int| 0 <= j < p[k].len() && p[k][j] == ':';
    if octet(p[k]) is Some {
        assert(all_digits(p[k], 10));
        assert(digit_value(p[k][j], 10) is Some);
    }
}

/// Nothing is trimmed off a text that holds none of the characters.
proof fn lemma_nothing_to_trim(s: Seq<char>, set: CharSet)
    requires
        free_of(s, set),
    ensures
        trimmed_of(s, set) == s,
{
    if s.len() > 0 {
        assert(!set.has(s[0]));
        assert(!set.has(s[s.len() - 1]));
    }
}

/// The host of an endpoint stands before the last colon, without its brackets.
proof fn lemma_host(protocol: Seq<char>, host: Seq<char>, port: Seq<char>)
    requires
        protocol == "tcp "@ || protocol == "udp "@,
        free_of(port, CharSet::Is(':')),
    ensures
        host_of(protocol + (host + ":"@ + port)) == trimmed_of(host, CharSet::Either('[', ']')),
{
    let e = host + ":"@ + port;
    let ep = protocol + e;
    reveal_strlit("tcp ");
    reveal_strlit("udp ");
    reveal_strlit(":");
    assert(":"@ =~= seq![':']);
    assert("tcp "@[0] == 't' && "udp "@[0] == 'u');
    assert(ep.skip(4) =~= e);
    assert(ep.take(4) =~= protocol);
    assert(ep[0] == protocol[0]);
    if protocol == "udp "@ {
        assert(ep.take(4)[0] != "tcp "@[0]);
    }
    assert(without_protocol(ep) == e);
    let n = host.len() as int;
    lemma_last_colon(e, n, e.len() - 1);
    assert(e.take(n) =~= host);
}

proof fn lemma_last_colon(e: Seq<char>, n: int, i: int)
    requires
        0 <= n <= i < e.len(),
        e[n] == ':',
        forall|j: int| n < j < e.len() ==> #[trigger] e[j] != ':',
    ensures
        last_place_to(e, seq![':'], i) == Some(n),
    decreases i,
{
    if i == n {
        assert(e.subrange(n, n + 1) =~= seq![':']);
    } else {
        assert(e.subrange(i, i + 1)[0] == e[i]);
        assert(!occurs_at(e, seq![':'], i));
        lemma_last_colon(e, n, i - 1);
    }
}

proof fn lemma_port(p: nat)
    ensures
        free_of(decimal(p), CharSet::Is(':')),
{
    written_number_reads_back(p, 10);
    lemma_digits_are_plain(decimal(p), 10);
}

proof fn lemma_v4_host_reach(o: Seq<u8>)
    requires
        o.len() == 4,
    ensures
        host_reach(ipv4_text(o)) == v4_reach(o),
{
    let s = ipv4_text(o);
    ipv4_address_reads_back(o);
    lemma_v4_text_is_plain(o);
    reveal_strlit("0.0.0.0");
    reveal_strlit("127.0.0.1");
    reveal_strlit("::");
    reveal_strlit("::1");
    reveal_strlit("*");
    reveal_strlit("localhost");
    reveal_strlit(".");
    reveal_with_fuel(written, 3);
    let any = seq![0u8, 0, 0, 0];
    let own = seq![127u8, 0, 0, 1];
    assert(ipv4_text(any) =~= "0.0.0.0"@);
    assert(ipv4_text(own) =~= "127.0.0.1"@);
    ipv4_address_reads_back(any);
    ipv4_address_reads_back(own);
    assert("*"@[0] == '*');
    assert("localhost"@[0] == 'l');
    assert("::"@[0] == ':' && "::1"@[0] == ':');
}

/// The addresses that no and one group are left of.
proof fn lemma_short_addresses()
    ensures
        ipv6_of("::"@) == Some(zero_groups(8)),
        ipv6_of("::1"@) == Some(zero_groups(7).push(1u16)),
{
    let none = Seq::<u16>::empty();
    let one = seq![1u16];
    lemma_groups_text(none);
    lemma_groups_text(one);
    let empty = groups_text(none);
    let unit = groups_text(one);
    assert(unit =~= "1"@) by {
        reveal_strlit("1");
        reveal_with_fuel(joined, 2);
        reveal_with_fuel(written, 2);
        assert(written(1, 16) =~= "1"@);
        assert(group_texts(one)[0] == written(1, 16));
        assert(group_texts(one) =~= seq!["1"@]);
    }
    lemma_cut_at_double(empty, empty);
    lemma_cut_at_double(empty, unit);
    assert(empty + "::"@ + empty =~= "::"@) by {
        assert(empty.len() == 0);
    }
    assert(empty + "::"@ + unit =~= "::1"@) by {
        reveal_strlit("::");
        reveal_strlit("::1");
        reveal_strlit("1");
    }
    assert(none + zero_groups(8) + none =~= zero_groups(8));
    assert(none + zero_groups(7) + one =~= zero_groups(7).push(1u16));
}

/// A text with a colon in it is none of the words for a host, nor a written IPv4
/// address.
proof fn lemma_not_a_word(s: Seq<char>)
    requires
        s.contains(':'),
    ensures
        s != "0.0.0.0"@,
        s != "127.0.0.1"@,
        s != "*"@,
        s != "localhost"@,
{
    reveal_strlit("0.0.0.0");
    reveal_strlit("127.0.0.1");
    reveal_strlit("*");
    reveal_strlit("localhost");
    let c = choose|c: int| 0 <= c < s.len() && s[c] == ':';
    assert(s[c] == ':');
}

proof fn lemma_reach_of_short_addresses()
    ensures
        v6_reach(zero_groups(8)) == Reachability::Public,
        v6_reach(zero_groups(7).push(1u16)) == Reachability::Loopback,
{
    let zero = zero_groups(8);
    let one = zero_groups(7).push(1u16);
    let z = seq![0u16, 0, 0, 0, 0, 0, 0, 1];
    assert(z[7] == 1);
    assert(zero[7] == 0 && zero[5] == 0 && zero[0] == 0);
    assert(one =~= z);
    assert(one[5] == 0);
}

proof fn lemma_reach_of_v6_host(s: Seq<char>, g: Seq<u16>)
    requires
        ipv4_of(s) is None,
        ipv6_of(s) == Some(g),
        s != "0.0.0.0"@,
        s != "127.0.0.1"@,
        s != "*"@,
        s != "localhost"@,
        s == "::"@ ==> v6_reach(g) == Reachability::Public,
        s == "::1"@ ==> v6_reach(g) == Reachability::Loopback,
    ensures
        host_reach(s) == v6_reach(g),
{
    reveal_strlit("::");
    reveal_strlit("::1");
}

proof fn lemma_v6_host_reach(g: Seq<u16>)
    requires
        g.len() == 8,
    ensures
        host_reach(ipv6_text(g)) == v6_reach(g),
{
    let s = ipv6_text(g);
    assert(ipv6_of(s) == Some(g)) by {
        ipv6_address_reads_back(g);
    }
    assert(s.contains(':')) by {
        lemma_v6_text_is_plain(g);
    }
    assert(ipv4_of(s) is None) by {
        lemma_colon_no_ipv4(s);
    }
    assert(s != "0.0.0.0"@ && s != "127.0.0.1"@ && s != "*"@ && s != "localhost"@) by {
        lemma_not_a_word(s);
    }
    assert((s == "::"@ ==> g == zero_groups(8)) && (s == "::1"@ ==> g == zero_groups(7).push(1u16)))
        by {
        lemma_short_addresses();
    }
    lemma_reach_of_short_addresses();
    lemma_reach_of_v6_host(s, g);
}

/// A text without brackets is what is left of it in brackets.
proof fn lemma_brackets_are_trimmed(t: Seq<char>)
    requires
        t.len() > 0,
        free_of(t, CharSet::Either('[', ']')),
    ensures
        trimmed_of(seq!['['] + t + seq![']'], CharSet::Either('[', ']')) == t,
{
    let set = CharSet::Either('[', ']');
    let host = seq!['['] + t + seq![']'];
    let rest = t + seq![']'];
    assert(!set.has(t[0]));
    assert(!set.has(t[t.len() - 1]));
    assert(host.skip(1) =~= rest);
    assert(rest[0] == t[0]);
    assert(rest.drop_last() =~= t);
    assert(trimmed_start(rest, set) == rest);
    assert(trimmed_start(host, set) == trimmed_start(rest, set));
    assert(trimmed_end(t, set) == t);
}

proof fn lemma_v6_endpoint_reach(protocol: Seq<char>, g: Seq<u16>, p: nat)
    requires
        g.len() == 8,
        protocol == "tcp "@ || protocol == "udp "@,
    ensures
        reach_of(protocol + ("["@ + ipv6_text(g) + "]:"@ + decimal(p))) == v6_reach(g),
{
    reveal(reach_of);
    let t = ipv6_text(g);
    let host = seq!['['] + t + seq![']'];
    assert("["@ + t + "]:"@ + decimal(p) =~= host + ":"@ + decimal(p)) by {
        reveal_strlit("[");
        reveal_strlit("]:");
        reveal_strlit(":");
    }
    lemma_port(p);
    lemma_host(protocol, host, decimal(p));
    lemma_v6_text_is_plain(g);
    lemma_brackets_are_trimmed(t);
    lemma_v6_host_reach(g);
}

proof fn lemma_v4_endpoint_reach(protocol: Seq<char>, o: Seq<u8>, p: nat)
    requires
        o.len() == 4,
        protocol == "tcp "@ || protocol == "udp "@,
    ensures
        reach_of(protocol + (ipv4_text(o) + ":"@ + decimal(p))) == v4_reach(o),
{
    reveal(reach_of);
    let t = ipv4_text(o);
    lemma_port(p);
    lemma_host(protocol, t, decimal(p));
    lemma_v4_text_is_plain(o);
    lemma_nothing_to_trim(t, CharSet::Either('[', ']'));
    lemma_v4_host_reach(o);
}

/// The address of an `address:port`.
pub open spec fn address_part(s: Seq<char>) -> Seq<char> {
    match cut(s, ":"@) {
        Some((addr, _)) => addr,
        None => s,
    }
}

proof fn lemma_read_address_lengths(addr: Seq<char>)
    ensures
        proc_v6(addr) matches Some(g) ==> g.len() == 8,
        proc_v4(addr) matches Some(o) ==> o.len() == 4,
{
}

proof fn lemma_v6_entry(s: Seq<char>) -> (r: (Seq<u16>, nat))
    requires
        proc_endpoint(s, true) is Some,
    ensures
        proc_v6(address_part(s)) == Some(r.0),
        r.0.len() == 8,
        proc_endpoint(s, true) == Some("["@ + ipv6_text(r.0) + "]:"@ + decimal(r.1)),
{
    let (addr, port) = cut(s, ":"@)->0;
    lemma_read_address_lengths(addr);
    (proc_v6(addr)->0, number(port, 16, 0xffff)->0)
}

proof fn lemma_v4_entry(s: Seq<char>) -> (r: (Seq<u8>, nat))
    requires
        proc_endpoint(s, false) is Some,
    ensures
        proc_v4(address_part(s)) == Some(r.0),
        r.0.len() == 4,
        proc_endpoint(s, false) == Some(ipv4_text(r.0) + ":"@ + decimal(r.1)),
{
    let (addr, port) = cut(s, ":"@)->0;
    lemma_read_address_lengths(addr);
    (proc_v4(addr)->0, number(port, 16, 0xffff)->0)
}

/// An endpoint that was read from the kernel's tables reaches as far as its address
/// does, for either protocol: what is written down of a socket loses nothing that its
/// exposure rests on.
pub proof fn endpoint_reaches_as_far_as_its_address(s: Seq<char>, v6: bool, protocol: Seq<char>)
    requires
        proc_endpoint(s, v6) is Some,
        protocol == "tcp "@ || protocol == "udp "@,
    ensures
        v6 ==> proc_v6(address_part(s)) is Some && reach_of(protocol + proc_endpoint(s, v6)->0)
            == v6_reach(proc_v6(address_part(s))->0),
        !v6 ==> proc_v4(address_part(s)) is Some && reach_of(protocol + proc_endpoint(s, v6)->0)
            == v4_reach(proc_v4(address_part(s))->0),
{
    if v6 {
        let (g, p) = lemma_v6_entry(s);
        lemma_v6_endpoint_reach(protocol, g, p);
    } else {
        let (o, p) = lemma_v4_entry(s);
        lemma_v4_endpoint_reach(protocol, o, p);
    }
}

/// An IPv4 address that is mapped into IPv6 reaches as far as it does by itself: a
/// service on the loopback or in a private network is not taken for a public one.
pub proof fn mapped_address_reaches_as_far(protocol: Seq<char>, o: Seq<u8>, p: nat)
    requires
        o.len() == 4,
        protocol == "tcp "@ || protocol == "udp "@,
    ensures
        reach_of(protocol + ("["@ + ("::ffff:"@ + ipv4_text(o)) + "]:"@ + decimal(p))) == reach_of(
            protocol + (ipv4_text(o) + ":"@ + decimal(p)),
        ),
{
    let g = seq![
        0u16,
        0,
        0,
        0,
        0,
        0xffff,
        (o[0] * 256 + o[1]) as u16,
        (o[2] * 256 + o[3]) as u16,
    ];
    assert(embedded_v4(g) =~= o);
    assert(ipv6_text(g) == "::ffff:"@ + ipv4_text(o));
    lemma_v6_endpoint_reach(protocol, g, p);
    lemma_v4_endpoint_reach(protocol, o, p);
}

} // verus!
