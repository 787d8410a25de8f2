//! Network addresses, and how far a listening socket can be reached.

use vstd::prelude::*;

use crate::number::{
    all_digits, decimal, digit_value, digits_value, number, parse_number, to_decimal, to_hex, written,
};
use crate::split::{cut, cut_last, join, joined, pieces, rsplit_once, split, split_once};
use crate::text::{
    after_prefix, chars_of, concat2, concat3, concat4, has_prefix, opt_view, own, same, starts_with, string_of,
    strip_prefix, trim_matches, trimmed_of, views, CharSet,
};

verus! {

// ── Addresses as text ────────────────────────────────────────────────────────

/// The number that a text writes: up to `max_digits` digits, at least one, no sign.
pub open spec fn bare_number(s: Seq<char>, base: nat, max_digits: nat, max: nat) -> Option<nat> {
    if 1 <= s.len() <= max_digits && all_digits(s, base) && digits_value(s, base) <= max {
        Some(digits_value(s, base))
    } else {
        None
    }
}

/// One of the four numbers of an IPv4 address: up to three digits, without zeros
/// in front.
pub open spec fn octet(s: Seq<char>) -> Option<u8> {
    if s.len() > 1 && s[0] == '0' {
        None
    } else {
        match bare_number(s, 10, 3, 255) {
            Some(n) => Some(n as u8),
            None => None,
        }
    }
}

/// The numbers of an IPv4 address.
pub open spec fn ipv4_of(s: Seq<char>) -> Option<Seq<u8>> {
    let p = pieces(s, CharSet::Is('.'));
    if p.len() == 4 && octet(p[0]) is Some && octet(p[1]) is Some && octet(p[2]) is Some && octet(
        p[3],
    ) is Some {
        Some(seq![octet(p[0])->0, octet(p[1])->0, octet(p[2])->0, octet(p[3])->0])
    } else {
        None
    }
}

/// One of the groups of an IPv6 address: up to four hexadecimal digits.
pub open spec fn hex_group(s: Seq<char>) -> Option<u16> {
    match bare_number(s, 16, 4, 0xffff) {
        Some(n) => Some(n as u16),
        None => None,
    }
}

/// The two groups that an IPv4 address makes.
pub open spec fn v4_groups(o: Seq<u8>) -> Seq<u16> {
    seq![(o[0] * 256 + o[1]) as u16, (o[2] * 256 + o[3]) as u16]
}

/// The groups that the pieces write.
pub open spec fn plain_groups(p: Seq<Seq<char>>) -> Option<Seq<u16>>
    decreases p.len(),
{
    if p.len() == 0 {
        Some(Seq::empty())
    } else {
        match (plain_groups(p.drop_last()), hex_group(p.last())) {
            (Some(g), Some(x)) => Some(g.push(x)),
            _ => None,
        }
    }
}

/// The groups of a text between colons; the last may be an IPv4 address where
/// `v4` says so. An empty text has none.
pub open spec fn colon_groups(s: Seq<char>, v4: bool) -> Option<Seq<u16>> {
    let p = pieces(s, CharSet::Is(':'));
    if s.len() == 0 {
        Some(Seq::empty())
    } else if v4 && ipv4_of(p.last()) is Some {
        match plain_groups(p.drop_last()) {
            Some(g) => Some(g + v4_groups(ipv4_of(p.last())->0)),
            None => None,
        }
    } else {
        plain_groups(p)
    }
}

/// So many groups of zero.
pub open spec fn zero_groups(n: nat) -> Seq<u16> {
    Seq::new(n, |i: int| 0u16)
}

/// The eight groups of an IPv6 address. `::` stands for the groups that are left
/// out, at least one.
pub open spec fn ipv6_of(s: Seq<char>) -> Option<Seq<u16>> {
    match cut(s, "::"@) {
        Some((head, tail)) => match (colon_groups(head, false), colon_groups(tail, true)) {
            (Some(a), Some(b)) => if a.len() + b.len() <= 7 {
                Some(a + zero_groups((8 - a.len() - b.len()) as nat) + b)
            } else {
                None
            },
            _ => None,
        },
        None => match colon_groups(s, true) {
            Some(g) => if g.len() == 8 {
                Some(g)
            } else {
                None
            },
            None => None,
        },
    }
}

fn parse_bare(s: &str, base: u64, max_digits: usize, max: u64) -> (r: Option<u64>)
    requires
        2 <= base <= 16,
    ensures
        match r {
            Some(n) => bare_number(s@, base as nat, max_digits as nat, max as nat) == Some(
                n as nat,
            ),
            None => bare_number(s@, base as nat, max_digits as nat, max as nat) is None,
        },
{
    let v = chars_of(s);
    if v.len() == 0 || v.len() > max_digits {
        return None;
    }
    if v[0] == '+' {
        assert(digit_value(s@[0], base as nat) is None);
        return None;
    }
    parse_number(s, base, max)
}

fn parse_octet(s: &str) -> (r: Option<u8>)
    ensures
        r == octet(s@),
{
    let v = chars_of(s);
    if v.len() > 1 && v[0] == '0' {
        return None;
    }
    match parse_bare(s, 10, 3, 255) {
        Some(n) => Some(n as u8),
        None => None,
    }
}

/// The numbers of an IPv4 address.
pub fn parse_ipv4(s: &str) -> (r: Option<Vec<u8>>)
    ensures
        match r {
            Some(v) => ipv4_of(s@) == Some(v@) && v@.len() == 4,
            None => ipv4_of(s@) is None,
        },
{
    let p = split(s, CharSet::Is('.'));
    let ghost q = views(p@);
    if p.len() != 4 {
        return None;
    }
    assert(q[0] == p@[0]@ && q[1] == p@[1]@ && q[2] == p@[2]@ && q[3] == p@[3]@);
    match (
        parse_octet(p[0].as_str()),
        parse_octet(p[1].as_str()),
        parse_octet(p[2].as_str()),
        parse_octet(p[3].as_str()),
    ) {
        (Some(a), Some(b), Some(c), Some(d)) => {
            let mut v: Vec<u8> = Vec::new();
            v.push(a);
            v.push(b);
            v.push(c);
            v.push(d);
            assert(v@ =~= seq![a, b, c, d]);
            Some(v)
        },
        _ => None,
    }
}

proof fn lemma_groups_prefix(p: Seq<Seq<char>>, i: int)
    requires
        0 <= i <= p.len(),
        plain_groups(p.take(i)) is None,
    ensures
        plain_groups(p) is None,
    decreases p.len() - i,
{
    if i == p.len() {
        assert(p.take(i) =~= p);
    } else {
        assert(p.take(i + 1).drop_last() =~= p.take(i));
        lemma_groups_prefix(p, i + 1);
    }
}

fn parse_plain_groups(p: &Vec<String>, n: usize) -> (r: Option<Vec<u16>>)
    requires
        n <= p@.len(),
    ensures
        match r {
            Some(v) => plain_groups(views(p@).take(n as int)) == Some(v@),
            None => plain_groups(views(p@).take(n as int)) is None,
        },
{
    let ghost q = views(p@).take(n as int);
    let mut out: Vec<u16> = Vec::new();
    let mut i: usize = 0;
    assert(out@ =~= Seq::<u16>::empty());
    while i < n
        invariant
            i <= n <= p@.len(),
            q == views(p@).take(n as int),
            plain_groups(q.take(i as int)) == Some(out@),
        decreases n - i,
    {
        proof {
            assert(q.take(i + 1).drop_last() =~= q.take(i as int));
            assert(q.take(i + 1).last() == p@[i as int]@);
        }
        match parse_bare(p[i].as_str(), 16, 4, 0xffff) {
            Some(x) => {
                out.push(x as u16);
            },
            None => {
                proof {
                    lemma_groups_prefix(q, i + 1);
                }
                return None;
            },
        }
        i += 1;
    }
    assert(q.take(n as int) =~= q);
    Some(out)
}

fn parse_colon_groups(s: &str, v4: bool) -> (r: Option<Vec<u16>>)
    ensures
        match r {
            Some(v) => colon_groups(s@, v4) == Some(v@),
            None => colon_groups(s@, v4) is None,
        },
{
    if s.is_empty() {
        let none: Vec<u16> = Vec::new();
        assert(none@ =~= Seq::<u16>::empty());
        return Some(none);
    }
    let p = split(s, CharSet::Is(':'));
    let ghost q = views(p@);
    let last: usize = p.len() - 1;
    assert(q.last() == p@[last as int]@);
    assert(q.take(last as int) =~= q.drop_last());
    assert(q.take(p@.len() as int) =~= q);
    if v4 {
        if let Some(o) = parse_ipv4(p[last].as_str()) {
            return match parse_plain_groups(&p, last) {
                Some(g) => {
                    let mut g = g;
                    let ghost g0 = g@;
                    g.push(o[0] as u16 * 256 + o[1] as u16);
                    g.push(o[2] as u16 * 256 + o[3] as u16);
                    assert(g@ =~= g0 + v4_groups(o@));
                    Some(g)
                },
                None => None,
            };
        }
    }
    parse_plain_groups(&p, p.len())
}

/// The eight groups of an IPv6 address.
pub fn parse_ipv6(s: &str) -> (r: Option<Vec<u16>>)
    ensures
        match r {
            Some(v) => ipv6_of(s@) == Some(v@) && v@.len() == 8,
            None => ipv6_of(s@) is None,
        },
{
    match split_once(s, "::") {
        Some((head, tail)) => {
            match (
                parse_colon_groups(head.as_str(), false),
                parse_colon_groups(tail.as_str(), true),
            ) {
                (Some(a), Some(b)) => {
                    if a.len() > 7 || b.len() > 7 - a.len() {
                        return None;
                    }
                    let n: usize = 8 - a.len() - b.len();
                    let ghost a0 = a@;
                    let ghost b0 = b@;
                    let mut out = a;
                    let mut rest = b;
                    let mut i: usize = 0;
                    assert(out@ =~= a0 + zero_groups(0));
                    while i < n
                        invariant
                            i <= n,
                            out@ == a0 + zero_groups(i as nat),
                        decreases n - i,
                    {
                        out.push(0);
                        i += 1;
                        assert(zero_groups(i as nat) =~= zero_groups((i - 1) as nat).push(0));
                        assert(a0 + zero_groups((i - 1) as nat).push(0) =~= (a0 + zero_groups(
                            (i - 1) as nat,
                        )).push(0));
                    }
                    out.append(&mut rest);
                    assert(out@ =~= a0 + zero_groups(n as nat) + b0);
                    Some(out)
                },
                _ => None,
            }
        },
        None => match parse_colon_groups(s, true) {
            Some(g) => if g.len() == 8 {
                Some(g)
            } else {
                None
            },
            None => None,
        },
    }
}

/// The four numbers with dots between them.
pub open spec fn ipv4_text(o: Seq<u8>) -> Seq<char> {
    decimal(o[0] as nat) + "."@ + decimal(o[1] as nat) + "."@ + decimal(o[2] as nat) + "."@
        + decimal(o[3] as nat)
}

pub fn format_ipv4(o: &Vec<u8>) -> (r: String)
    requires
        o@.len() == 4,
    ensures
        r@ == ipv4_text(o@),
{
    let a = to_decimal(o[0] as u64);
    let b = to_decimal(o[1] as u64);
    let c = to_decimal(o[2] as u64);
    let d = to_decimal(o[3] as u64);
    let x = concat4(a.as_str(), ".", b.as_str(), ".");
    concat4(x.as_str(), c.as_str(), ".", d.as_str())
}

/// The groups in small hexadecimal digits, with colons between them.
pub open spec fn groups_text(g: Seq<u16>) -> Seq<char> {
    joined(Seq::new(g.len(), |i: int| written(g[i] as nat, 16)), ":"@)
}

/// How many zeros stand in a row from the place `i` on.
pub open spec fn zeros_from(g: Seq<u16>, i: int) -> nat
    decreases g.len() - i,
{
    if 0 <= i < g.len() && g[i] == 0 {
        1 + zeros_from(g, i + 1)
    } else {
        0
    }
}

/// Where the longest row of zeros from the place `i` on begins, and how long it
/// is; the first where there are several.
pub open spec fn longest_zeros(g: Seq<u16>, i: int) -> (int, nat)
    decreases g.len() - i,
{
    if i >= g.len() {
        (i, 0)
    } else {
        let rest = longest_zeros(g, i + 1);
        if zeros_from(g, i) >= rest.1 {
            (i, zeros_from(g, i))
        } else {
            rest
        }
    }
}

/// Whether the groups are an IPv4 address mapped into IPv6.
pub open spec fn is_mapped(g: Seq<u16>) -> bool {
    g[0] == 0 && g[1] == 0 && g[2] == 0 && g[3] == 0 && g[4] == 0 && g[5] == 0xffff
}

/// The IPv4 address in the last two groups.
pub open spec fn embedded_v4(g: Seq<u16>) -> Seq<u8> {
    seq![
        (g[6] / 256) as u8,
        (g[6] % 256) as u8,
        (g[7] / 256) as u8,
        (g[7] % 256) as u8,
    ]
}

/// An IPv6 address in its short form: the longest row of two zeros or more is
/// left out, and a mapped IPv4 address is written with dots.
pub open spec fn ipv6_text(g: Seq<u16>) -> Seq<char> {
    if is_mapped(g) {
        "::ffff:"@ + ipv4_text(embedded_v4(g))
    } else {
        let (start, len) = longest_zeros(g, 0);
        if len > 1 {
            groups_text(g.take(start)) + "::"@ + groups_text(g.skip(start + len))
        } else {
            groups_text(g)
        }
    }
}

fn format_groups(g: &Vec<u16>, from: usize, to: usize) -> (r: String)
    requires
        from <= to <= g@.len(),
    ensures
        r@ == groups_text(g@.subrange(from as int, to as int)),
{
    let ghost s = g@.subrange(from as int, to as int);
    let mut parts: Vec<String> = Vec::new();
    let mut i: usize = from;
    while i < to
        invariant
            from <= i <= to <= g@.len(),
            s == g@.subrange(from as int, to as int),
            parts@.len() == i - from,
            forall|k: int| 0 <= k < i - from ==> (#[trigger] parts@[k])@ == written(s[k] as nat, 16),
        decreases to - i,
    {
        parts.push(to_hex(g[i] as u64));
        i += 1;
    }
    assert(views(parts@) =~= Seq::new(s.len(), |k: int| written(s[k] as nat, 16)));
    join(&parts, ":")
}

fn find_longest_zeros(g: &Vec<u16>) -> (r: (usize, usize))
    ensures
        (r.0 as int, r.1 as nat) == longest_zeros(g@, 0),
        r.0 + r.1 <= g@.len(),
{
    let mut best: usize = g.len();
    let mut best_len: usize = 0;
    let mut run: usize = 0;
    let mut i: usize = g.len();
    while i > 0
        invariant
            i <= g@.len(),
            run == zeros_from(g@, i as int),
            i + run <= g.len(),
            (best as int, best_len as nat) == longest_zeros(g@, i as int),
            best + best_len <= g@.len(),
        decreases i,
    {
        i -= 1;
        if g[i] == 0 {
            run += 1;
        } else {
            run = 0;
        }
        if run >= best_len {
            best = i;
            best_len = run;
        }
    }
    (best, best_len)
}

fn mapped(g: &Vec<u16>) -> (r: bool)
    requires
        g@.len() == 8,
    ensures
        r == is_mapped(g@),
{
    g[0] == 0 && g[1] == 0 && g[2] == 0 && g[3] == 0 && g[4] == 0 && g[5] == 0xffff
}

fn embedded(g: &Vec<u16>) -> (r: Vec<u8>)
    requires
        g@.len() == 8,
    ensures
        r@ == embedded_v4(g@),
        r@.len() == 4,
{
    let mut o: Vec<u8> = Vec::new();
    o.push((g[6] / 256) as u8);
    o.push((g[6] % 256) as u8);
    o.push((g[7] / 256) as u8);
    o.push((g[7] % 256) as u8);
    assert(o@ =~= embedded_v4(g@));
    o
}

/// An IPv6 address in its short form.
pub fn format_ipv6(g: &Vec<u16>) -> (r: String)
    requires
        g@.len() == 8,
    ensures
        r@ == ipv6_text(g@),
{
    if mapped(g) {
        let o = embedded(g);
        let t = format_ipv4(&o);
        return concat2("::ffff:", t.as_str());
    }
    let (start, len) = find_longest_zeros(g);
    if len > 1 {
        let head = format_groups(g, 0, start);
        let tail = format_groups(g, start + len, g.len());
        assert(g@.subrange(0, start as int) =~= g@.take(start as int));
        assert(g@.subrange(start + len, g@.len() as int) =~= g@.skip(start + len));
        concat3(head.as_str(), "::", tail.as_str())
    } else {
        assert(g@.subrange(0, g@.len() as int) =~= g@);
        format_groups(g, 0, g.len())
    }
}

// ── Addresses of the kernel's tables ─────────────────────────────────────────

/// The bytes of a word, the least significant first.
pub open spec fn le_bytes(w: nat) -> Seq<u8> {
    seq![
        (w % 256) as u8,
        ((w / 256) % 256) as u8,
        ((w / 65536) % 256) as u8,
        ((w / 16777216) % 256) as u8,
    ]
}

/// The two groups that the bytes of a word make.
pub open spec fn word_groups(w: nat) -> Seq<u16> {
    let b = le_bytes(w);
    seq![(b[0] * 256 + b[1]) as u16, (b[2] * 256 + b[3]) as u16]
}

/// The word that the eight hexadecimal digits from the place `8 * k` on write.
pub open spec fn word_at(addr: Seq<char>, k: int) -> Option<nat> {
    number(addr.subrange(8 * k, 8 * k + 8), 16, u32::MAX as nat)
}

/// The address of four words.
pub open spec fn proc_v6(addr: Seq<char>) -> Option<Seq<u16>> {
    if addr.len() == 32 && word_at(addr, 0) is Some && word_at(addr, 1) is Some && word_at(addr, 2)
        is Some && word_at(addr, 3) is Some {
        Some(
            word_groups(word_at(addr, 0)->0) + word_groups(word_at(addr, 1)->0) + word_groups(
                word_at(addr, 2)->0,
            ) + word_groups(word_at(addr, 3)->0),
        )
    } else {
        None
    }
}

/// The address of one word.
pub open spec fn proc_v4(addr: Seq<char>) -> Option<Seq<u8>> {
    match number(addr, 16, u32::MAX as nat) {
        Some(w) => if addr.len() == 8 {
            Some(le_bytes(w))
        } else {
            None
        },
        None => None,
    }
}

/// The endpoint that an `address:port` in hexadecimal digits names.
pub open spec fn proc_endpoint(s: Seq<char>, v6: bool) -> Option<Seq<char>> {
    match cut(s, ":"@) {
        Some((addr, port)) => match number(port, 16, 0xffff) {
            Some(p) => if v6 {
                match proc_v6(addr) {
                    Some(g) => Some("["@ + ipv6_text(g) + "]:"@ + decimal(p)),
                    None => None,
                }
            } else {
                match proc_v4(addr) {
                    Some(o) => Some(ipv4_text(o) + ":"@ + decimal(p)),
                    None => None,
                }
            },
            None => None,
        },
        None => None,
    }
}

fn push_word_groups(out: &mut Vec<u16>, w: u64)
    requires
        w <= u32::MAX,
    ensures
        final(out)@ == old(out)@ + word_groups(w as nat),
{
    let ghost before = out@;
    let a: u16 = (w % 256) as u16;
    let b: u16 = ((w / 256) % 256) as u16;
    let c: u16 = ((w / 65536) % 256) as u16;
    let d: u16 = ((w / 16777216) % 256) as u16;
    out.push(a * 256 + b);
    out.push(c * 256 + d);
    assert(out@ =~= before + word_groups(w as nat));
}

fn parse_word(v: &Vec<char>, from: usize) -> (r: Option<u64>)
    requires
        from + 8 <= v.len(),
    ensures
        match r {
            Some(n) => number(v@.subrange(from as int, from + 8), 16, u32::MAX as nat) == Some(
                n as nat,
            ) && n <= u32::MAX,
            None => number(v@.subrange(from as int, from + 8), 16, u32::MAX as nat) is None,
        },
{
    let s = string_of(v, from, from + 8);
    parse_number(s.as_str(), 16, u32::MAX as u64)
}

/// The endpoint that an `address:port` of the kernel's tables names, the words in
/// hexadecimal digits with their bytes in reverse.
pub fn parse_proc_addr(s: &str, v6: bool) -> (r: Option<String>)
    ensures
        opt_view(r) == proc_endpoint(s@, v6),
{
    match split_once(s, ":") {
        Some((addr, port)) => match parse_number(port.as_str(), 16, 0xffff) {
            Some(p) => {
                let v = chars_of(addr.as_str());
                let port_text = to_decimal(p);
                if v6 {
                    if v.len() != 32 {
                        return None;
                    }
                    match (
                        parse_word(&v, 0),
                        parse_word(&v, 8),
                        parse_word(&v, 16),
                        parse_word(&v, 24),
                    ) {
                        (Some(a), Some(b), Some(c), Some(d)) => {
                            let mut g: Vec<u16> = Vec::new();
                            push_word_groups(&mut g, a);
                            push_word_groups(&mut g, b);
                            push_word_groups(&mut g, c);
                            push_word_groups(&mut g, d);
                            assert(g@ =~= proc_v6(addr@)->0);
                            let t = format_ipv6(&g);
                            Some(concat4("[", t.as_str(), "]:", port_text.as_str()))
                        },
                        _ => None,
                    }
                } else {
                    if v.len() != 8 {
                        return None;
                    }
                    match parse_number(addr.as_str(), 16, u32::MAX as u64) {
                        Some(w) => {
                            let mut o: Vec<u8> = Vec::new();
                            o.push((w % 256) as u8);
                            o.push(((w / 256) % 256) as u8);
                            o.push(((w / 65536) % 256) as u8);
                            o.push(((w / 16777216) % 256) as u8);
                            assert(o@ =~= le_bytes(w as nat));
                            let t = format_ipv4(&o);
                            Some(concat3(t.as_str(), ":", port_text.as_str()))
                        },
                        None => None,
                    }
                }
            },
            None => None,
        },
        None => None,
    }
}

// ── Reachability ─────────────────────────────────────────────────────────────

/// How far a listening socket can be reached, from the least to the most.
#[derive(Debug, Clone, Copy, PartialEq, Eq, PartialOrd, Ord, Structural)]
pub enum Reachability {
    /// It listens on no socket.
    Closed,
    Loopback,
    Private,
    Public,
}

impl DeepView for Reachability {
    type V = Reachability;

    open spec fn deep_view(&self) -> Reachability {
        *self
    }
}

impl Reachability {
    /// The place in the order from the least to the most reachable.
    pub open spec fn degree(self) -> int {
        match self {
            Reachability::Closed => 0,
            Reachability::Loopback => 1,
            Reachability::Private => 2,
            Reachability::Public => 3,
        }
    }

    pub fn level(self) -> (r: u8)
        ensures
            r == self.degree(),
    {
        match self {
            Reachability::Closed => 0,
            Reachability::Loopback => 1,
            Reachability::Private => 2,
            Reachability::Public => 3,
        }
    }

    pub open spec fn name(self) -> Seq<char> {
        match self {
            Reachability::Closed => "none"@,
            Reachability::Loopback => "loopback"@,
            Reachability::Private => "private"@,
            Reachability::Public => "public"@,
        }
    }

    pub fn as_str(self) -> (r: &'static str)
        ensures
            r@ == self.name(),
    {
        match self {
            Reachability::Closed => "none",
            Reachability::Loopback => "loopback",
            Reachability::Private => "private",
            Reachability::Public => "public",
        }
    }

    /// Whether a socket can be reached from another host.
    pub open spec fn is_exposed(self) -> bool {
        self is Private || self is Public
    }

    pub fn exposed(self) -> (r: bool)
        ensures
            r == self.is_exposed(),
    {
        match self {
            Reachability::Private => true,
            Reachability::Public => true,
            _ => false,
        }
    }
}

/// The more reachable of two.
pub open spec fn wider(a: Reachability, b: Reachability) -> Reachability {
    if b.degree() >= a.degree() {
        b
    } else {
        a
    }
}

/// How far an IPv4 address can be reached: loopback, private (with link-local and
/// carrier-grade addresses), or public.
pub open spec fn v4_reach(o: Seq<u8>) -> Reachability {
    if o[0] == 127 {
        Reachability::Loopback
    } else if o[0] == 10 || (o[0] == 172 && 16 <= o[1] <= 31) || (o[0] == 192 && o[1] == 168) || (
    o[0] == 169 && o[1] == 254) || (o[0] == 100 && 64 <= o[1] <= 127) {
        Reachability::Private
    } else {
        Reachability::Public
    }
}

/// How far an IPv6 address can be reached; a mapped IPv4 address as that address.
pub open spec fn v6_reach(g: Seq<u16>) -> Reachability {
    if is_mapped(g) {
        v4_reach(embedded_v4(g))
    } else if g =~= seq![0u16, 0, 0, 0, 0, 0, 0, 1] {
        Reachability::Loopback
    } else if 0xfc00 <= g[0] <= 0xfdff || 0xfe80 <= g[0] <= 0xfebf {
        Reachability::Private
    } else {
        Reachability::Public
    }
}

/// The endpoint without the protocol in front.
pub open spec fn without_protocol(ep: Seq<char>) -> Seq<char> {
    match after_prefix(ep, "tcp "@) {
        Some(rest) => rest,
        None => match after_prefix(ep, "udp "@) {
            Some(rest) => rest,
            None => ep,
        },
    }
}

/// The host of an endpoint: without protocol, port and brackets.
pub open spec fn host_of(ep: Seq<char>) -> Seq<char> {
    let e = without_protocol(ep);
    trimmed_of(
        match cut_last(e, ":"@) {
            Some((host, _)) => host,
            None => e,
        },
        CharSet::Either('[', ']'),
    )
}

/// How far a host can be reached; one that is no address is taken for public.
pub open spec fn host_reach(host: Seq<char>) -> Reachability {
    if host == "0.0.0.0"@ || host == "::"@ || host == "*"@ {
        Reachability::Public
    } else if host == "127.0.0.1"@ || host == "::1"@ || host == "localhost"@ {
        Reachability::Loopback
    } else {
        match ipv4_of(host) {
            Some(o) => v4_reach(o),
            None => match ipv6_of(host) {
                Some(g) => v6_reach(g),
                None => Reachability::Public,
            },
        }
    }
}

/// How far the socket of an endpoint can be reached.
#[verifier::opaque]
pub open spec fn reach_of(ep: Seq<char>) -> Reachability {
    host_reach(host_of(ep))
}

/// The host of an endpoint.
pub fn endpoint_host(ep: &str) -> (r: String)
    ensures
        r@ == host_of(ep@),
{
    let e = match strip_prefix(ep, "tcp ") {
        Some(rest) => rest,
        None => match strip_prefix(ep, "udp ") {
            Some(rest) => rest,
            None => own(ep),
        },
    };
    match rsplit_once(e.as_str(), ":") {
        Some((host, _)) => trim_matches(host.as_str(), CharSet::Either('[', ']')),
        None => trim_matches(e.as_str(), CharSet::Either('[', ']')),
    }
}

fn classify_v4(o: &Vec<u8>) -> (r: Reachability)
    requires
        o@.len() == 4,
    ensures
        r == v4_reach(o@),
{
    if o[0] == 127 {
        Reachability::Loopback
    } else if o[0] == 10 || (o[0] == 172 && 16 <= o[1] && o[1] <= 31) || (o[0] == 192 && o[1]
        == 168) || (o[0] == 169 && o[1] == 254) || (o[0] == 100 && 64 <= o[1] && o[1] <= 127) {
        Reachability::Private
    } else {
        Reachability::Public
    }
}

fn classify_v6(g: &Vec<u16>) -> (r: Reachability)
    requires
        g@.len() == 8,
    ensures
        r == v6_reach(g@),
{
    if mapped(g) {
        let o = embedded(g);
        return classify_v4(&o);
    }
    if g[0] == 0 && g[1] == 0 && g[2] == 0 && g[3] == 0 && g[4] == 0 && g[5] == 0 && g[6] == 0
        && g[7] == 1 {
        assert(g@ =~= seq![0u16, 0, 0, 0, 0, 0, 0, 1]);
        Reachability::Loopback
    } else {
        assert(!(g@ =~= seq![0u16, 0, 0, 0, 0, 0, 0, 1])) by {
            let z = seq![0u16, 0, 0, 0, 0, 0, 0, 1];
            assert(z[0] == 0 && z[1] == 0 && z[2] == 0 && z[3] == 0 && z[4] == 0 && z[5] == 0 && z[6]
                == 0 && z[7] == 1);
        }
        if (0xfc00 <= g[0] && g[0] <= 0xfdff) || (0xfe80 <= g[0] && g[0] <= 0xfebf) {
            Reachability::Private
        } else {
            Reachability::Public
        }
    }
}

/// How far the socket of an endpoint can be reached.
pub fn endpoint_reachability(ep: &str) -> (r: Reachability)
    ensures
        r == reach_of(ep@),
{
    reveal(reach_of);
    let host = endpoint_host(ep);
    let h = host.as_str();
    if same(h, "0.0.0.0") || same(h, "::") || same(h, "*") {
        return Reachability::Public;
    }
    if same(h, "127.0.0.1") || same(h, "::1") || same(h, "localhost") {
        return Reachability::Loopback;
    }
    match parse_ipv4(h) {
        Some(o) => classify_v4(&o),
        None => match parse_ipv6(h) {
            Some(g) => classify_v6(&g),
            None => Reachability::Public,
        },
    }
}

/// The widest reach of the endpoints.
pub open spec fn widest(eps: Seq<Seq<char>>) -> Reachability
    decreases eps.len(),
{
    if eps.len() == 0 {
        Reachability::Closed
    } else {
        wider(widest(eps.drop_last()), reach_of(eps.last()))
    }
}

/// The widest reach of the endpoints.
pub fn widest_reach(eps: &Vec<String>) -> (r: Reachability)
    ensures
        r == widest(views(eps@)),
{
    let ghost q = views(eps@);
    let mut best = Reachability::Closed;
    let mut i: usize = 0;
    while i < eps.len()
        invariant
            i <= eps@.len(),
            q == views(eps@),
            best == widest(q.take(i as int)),
        decreases eps@.len() - i,
    {
        proof {
            assert(q.take(i + 1).drop_last() =~= q.take(i as int));
            assert(q.take(i + 1).last() == eps@[i as int]@);
        }
        let x = endpoint_reachability(eps[i].as_str());
        if x.level() >= best.level() {
            best = x;
        }
        i += 1;
    }
    assert(q.take(q.len() as int) =~= q);
    best
}

/// The widest reach is that of one of the endpoints, and none reaches further.
pub proof fn widest_is_an_upper_bound(eps: Seq<Seq<char>>, i: int)
    requires
        0 <= i < eps.len(),
    ensures
        reach_of(eps[i]).degree() <= widest(eps).degree(),
        exists|k: int| 0 <= k < eps.len() && widest(eps) == reach_of(#[trigger] eps[k]),
    decreases eps.len(),
{
    let d = eps.drop_last();
    if i < d.len() {
        widest_is_an_upper_bound(d, i);
        assert(d[i] == eps[i]);
        let k = choose|k: int| 0 <= k < d.len() && widest(d) == reach_of(#[trigger] d[k]);
        assert(d[k] == eps[k]);
        if widest(eps) == widest(d) {
            assert(widest(eps) == reach_of(eps[k]));
        } else {
            assert(widest(eps) == reach_of(eps[eps.len() - 1]));
        }
    } else {
        if d.len() > 0 {
            widest_is_an_upper_bound(d, 0);
            let k = choose|k: int|
                0 <= k < d.len() && widest(d) == reach_of(#[trigger] d[k]);
            assert(d[k] == eps[k]);
        }
        assert(reach_of(eps.last()).degree() >= 0);
        assert(widest(eps) == reach_of(eps[eps.len() - 1]) || widest(eps) == widest(d));
    }
}

/// Whether an endpoint can be reached from another host: whether its host is not
/// a loopback address.
pub open spec fn leaves_host(ep: Seq<char>) -> bool {
    let host = trimmed_of(
        match cut_last(ep, ":"@) {
            Some((h, _)) => h,
            None => ep,
        },
        CharSet::Either('[', ']'),
    );
    if host == "127.0.0.1"@ || host == "::1"@ || host == "localhost"@ {
        false
    } else {
        !has_prefix(host, "127."@)
    }
}

/// Whether an endpoint can be reached from another host.
pub fn endpoint_is_exposed(ep: &str) -> (r: bool)
    ensures
        r == leaves_host(ep@),
{
    let host = match rsplit_once(ep, ":") {
        Some((h, _)) => trim_matches(h.as_str(), CharSet::Either('[', ']')),
        None => trim_matches(ep, CharSet::Either('[', ']')),
    };
    let h = host.as_str();
    if same(h, "127.0.0.1") || same(h, "::1") || same(h, "localhost") {
        return false;
    }
    !starts_with(h, "127.")
}

/// Whether one of the endpoints can be reached from another host.
pub open spec fn some_leaves_host(eps: Seq<Seq<char>>) -> bool {
    exists|i: int| 0 <= i < eps.len() && leaves_host(#[trigger] eps[i])
}

/// Whether one of the endpoints can be reached from another host.
pub fn any_endpoint_is_exposed(eps: &Vec<String>) -> (r: bool)
    ensures
        r == some_leaves_host(views(eps@)),
{
    let ghost q = views(eps@);
    let mut i: usize = 0;
    while i < eps.len()
        invariant
            i <= eps@.len(),
            q == views(eps@),
            forall|k: int| 0 <= k < i ==> !leaves_host(#[trigger] q[k]),
        decreases eps@.len() - i,
    {
        assert(q[i as int] == eps@[i as int]@);
        if endpoint_is_exposed(eps[i].as_str()) {
            return true;
        }
        i += 1;
    }
    false
}

} // verus!
