//! Decimal fractions as text, and which of them is greater.

use vstd::prelude::*;

use crate::number::{all_digits, digit_value, digits_value};
use crate::split::{lemma_pieces_nonempty, pieces, split};
use crate::text::{char_is_digit, chars_of, is_digit, string_of, views, CharSet};

verus! {

/// Whether a text has a minus in front.
pub open spec fn is_negative(s: Seq<char>) -> bool {
    s.len() > 0 && s[0] == '-'
}

pub open spec fn without_sign(s: Seq<char>) -> Seq<char> {
    if is_negative(s) {
        s.skip(1)
    } else {
        s
    }
}

/// The digits before the point.
pub open spec fn whole_part(s: Seq<char>) -> Seq<char> {
    pieces(without_sign(s), CharSet::Is('.'))[0]
}

/// The digits behind the point.
pub open spec fn fraction_part(s: Seq<char>) -> Seq<char> {
    let p = pieces(without_sign(s), CharSet::Is('.'));
    if p.len() == 2 {
        p[1]
    } else {
        Seq::empty()
    }
}

/// Whether a text is a decimal fraction: digits with at most one point among them, and a
/// minus in front where it is negative.
pub open spec fn is_decimal(s: Seq<char>) -> bool {
    &&& pieces(without_sign(s), CharSet::Is('.')).len() <= 2
    &&& whole_part(s).len() > 0
    &&& all_digits(whole_part(s), 10)
    &&& all_digits(fraction_part(s), 10)
}

pub open spec fn zeros(n: int) -> Seq<char> {
    Seq::new(
        if n < 0 {
            0
        } else {
            n as nat
        },
        |i: int| '0',
    )
}

/// The value of a decimal fraction times ten to the power of `n`, which is no less than
/// the number of its digits behind the point.
pub open spec fn scaled(s: Seq<char>, n: int) -> int {
    let f = fraction_part(s);
    let v = digits_value(whole_part(s) + f + zeros(n - f.len()), 10);
    if is_negative(s) {
        -(v as int)
    } else {
        v as int
    }
}

pub open spec fn longer(a: nat, b: nat) -> int {
    if a < b {
        b as int
    } else {
        a as int
    }
}

/// Whether two texts are decimal fractions, and the first is greater than the second.
pub open spec fn exceeds(a: Seq<char>, b: Seq<char>) -> bool {
    let n = longer(fraction_part(a).len(), fraction_part(b).len());
    is_decimal(a) && is_decimal(b) && scaled(a, n) > scaled(b, n)
}

proof fn lemma_scaled_once_more(s: Seq<char>, n: int)
    requires
        fraction_part(s).len() <= n,
    ensures
        scaled(s, n + 1) == 10 * scaled(s, n),
{
    let f = fraction_part(s);
    let a = whole_part(s) + f + zeros(n - f.len());
    let b = whole_part(s) + f + zeros(n + 1 - f.len());
    assert(b.drop_last() =~= a);
    assert(b.last() == '0');
}

proof fn lemma_scale_decides_nothing(a: Seq<char>, b: Seq<char>, m: int, n: int)
    requires
        longer(fraction_part(a).len(), fraction_part(b).len()) <= m <= n,
    ensures
        scaled(a, m) > scaled(b, m) <==> scaled(a, n) > scaled(b, n),
    decreases n - m,
{
    if m < n {
        lemma_scale_decides_nothing(a, b, m, n - 1);
        lemma_scaled_once_more(a, n - 1);
        lemma_scaled_once_more(b, n - 1);
    }
}

/// Being greater orders the decimal fractions: what does not exceed one does not exceed
/// what exceeds that one.
pub proof fn exceeding_is_an_order(a: Seq<char>, b: Seq<char>, c: Seq<char>)
    ensures
        !exceeds(a, a),
        exceeds(a, b) ==> !exceeds(b, a),
        exceeds(c, b) && !exceeds(a, b) ==> !exceeds(a, c),
{
    let x = fraction_part(a).len();
    let y = fraction_part(b).len();
    let z = fraction_part(c).len();
    let n = longer(longer(x, y) as nat, z);
    lemma_scale_decides_nothing(a, b, longer(x, y), n);
    lemma_scale_decides_nothing(a, c, longer(x, z), n);
    lemma_scale_decides_nothing(c, b, longer(z, y), n);
}

// ── Reading ──────────────────────────────────────────────────────────────────

struct Decimal {
    negative: bool,
    whole: Vec<char>,
    fraction: Vec<char>,
}

fn are_digits(v: &Vec<char>) -> (r: bool)
    ensures
        r == all_digits(v@, 10),
{
    let mut i: usize = 0;
    while i < v.len()
        invariant
            i <= v@.len(),
            forall|k: int| 0 <= k < i ==> digit_value(#[trigger] v@[k], 10) is Some,
        decreases v@.len() - i,
    {
        if !char_is_digit(v[i]) {
            assert(digit_value(v@[i as int], 10) is None);
            return false;
        }
        i += 1;
    }
    true
}

fn read_decimal(s: &str) -> (r: Option<Decimal>)
    ensures
        match r {
            Some(d) => is_decimal(s@) && d.negative == is_negative(s@) && d.whole@ == whole_part(s@)
                && d.fraction@ == fraction_part(s@),
            None => !is_decimal(s@),
        },
{
    let v = chars_of(s);
    let negative = v.len() > 0 && v[0] == '-';
    let from: usize = if negative {
        1
    } else {
        0
    };
    let body = string_of(&v, from, v.len());
    assert(body@ =~= without_sign(s@));
    let p = split(body.as_str(), CharSet::Is('.'));
    let ghost q = views(p@);
    proof {
        lemma_pieces_nonempty(body@, CharSet::Is('.'));
    }
    if p.len() > 2 {
        return None;
    }
    assert(q[0] == p@[0]@);
    let whole = chars_of(p[0].as_str());
    let fraction = if p.len() == 2 {
        assert(q[1] == p@[1]@);
        chars_of(p[1].as_str())
    } else {
        Vec::new()
    };
    assert(fraction@ =~= fraction_part(s@));
    if whole.len() == 0 || !are_digits(&whole) || !are_digits(&fraction) {
        return None;
    }
    Some(Decimal { negative, whole, fraction })
}

// ── Comparing ────────────────────────────────────────────────────────────────

proof fn lemma_zeros_in_front(n: int, x: Seq<char>)
    ensures
        digits_value(zeros(n) + x, 10) == digits_value(x, 10),
    decreases x.len() + longer(n as nat, 0),
{
    let s = zeros(n) + x;
    if x.len() > 0 {
        lemma_zeros_in_front(n, x.drop_last());
        assert(s.drop_last() =~= zeros(n) + x.drop_last());
        assert(s.last() == x.last());
    } else if n > 0 {
        lemma_zeros_in_front(n - 1, x);
        assert(s.drop_last() =~= zeros(n - 1) + x);
        assert(s.last() == '0');
    } else {
        assert(s =~= x);
    }
}

fn push_zeros(v: &mut Vec<char>, n: usize)
    ensures
        final(v)@ == old(v)@ + zeros(n as int),
{
    let ghost before = v@;
    let mut i: usize = 0;
    assert(before + zeros(0) =~= before);
    while i < n
        invariant
            i <= n,
            v@ == before + zeros(i as int),
        decreases n - i,
    {
        v.push('0');
        i += 1;
        assert(v@ =~= before + zeros(i as int));
    }
}

fn push_all(v: &mut Vec<char>, x: &Vec<char>)
    ensures
        final(v)@ == old(v)@ + x@,
{
    let ghost before = v@;
    let mut i: usize = 0;
    assert(before + x@.take(0) =~= before);
    while i < x.len()
        invariant
            i <= x@.len(),
            v@ == before + x@.take(i as int),
        decreases x@.len() - i,
    {
        v.push(x[i]);
        i += 1;
        assert(v@ =~= before + x@.take(i as int));
    }
    assert(x@.take(x@.len() as int) =~= x@);
}

/// The digits of a decimal fraction with `w` of them before the point and `f` behind it.
fn aligned(d: &Decimal, w: usize, f: usize) -> (r: Vec<char>)
    requires
        d.whole@.len() <= w,
        d.fraction@.len() <= f,
        all_digits(d.whole@, 10),
        all_digits(d.fraction@, 10),
    ensures
        r@.len() == w + f,
        all_digits(r@, 10),
        digits_value(r@, 10) == digits_value(
            d.whole@ + d.fraction@ + zeros(f - d.fraction@.len()),
            10,
        ),
{
    let mut r: Vec<char> = Vec::new();
    push_zeros(&mut r, w - d.whole.len());
    push_all(&mut r, &d.whole);
    push_all(&mut r, &d.fraction);
    push_zeros(&mut r, f - d.fraction.len());
    proof {
        let front = zeros(w - d.whole@.len());
        let x = d.whole@ + d.fraction@ + zeros(f - d.fraction@.len());
        assert(r@ =~= front + x);
        lemma_zeros_in_front(w - d.whole@.len(), x);
        assert forall|i: int| 0 <= i < r@.len() implies digit_value(#[trigger] r@[i], 10) is Some by {
            let a = w - d.whole@.len();
            if a <= i < w {
                assert(r@[i] == d.whole@[i - a]);
            } else if w <= i < w + d.fraction@.len() {
                assert(r@[i] == d.fraction@[i - w]);
            } else {
                assert(r@[i] == '0');
            }
        }
    }
    r
}

/// Whether the first of two numbers of equally many digits is the greater one.
fn digits_exceed(a: &Vec<char>, b: &Vec<char>) -> (r: bool)
    requires
        a@.len() == b@.len(),
        all_digits(a@, 10),
        all_digits(b@, 10),
    ensures
        r == (digits_value(a@, 10) > digits_value(b@, 10)),
{
    let mut greater = false;
    let mut less = false;
    let mut i: usize = 0;
    assert(a@.take(0) =~= b@.take(0));
    while i < a.len()
        invariant
            i <= a@.len(),
            a@.len() == b@.len(),
            all_digits(a@, 10),
            all_digits(b@, 10),
            greater == (digits_value(a@.take(i as int), 10) > digits_value(b@.take(i as int), 10)),
            less == (digits_value(a@.take(i as int), 10) < digits_value(b@.take(i as int), 10)),
        decreases a@.len() - i,
    {
        let x: u32 = a[i] as u32;
        let y: u32 = b[i] as u32;
        proof {
            assert(a@.take(i + 1).drop_last() =~= a@.take(i as int));
            assert(b@.take(i + 1).drop_last() =~= b@.take(i as int));
            assert(a@.take(i + 1).last() == a@[i as int]);
            assert(b@.take(i + 1).last() == b@[i as int]);
            assert(digit_value(a@[i as int], 10) is Some);
            assert(digit_value(b@[i as int], 10) is Some);
            assert(is_digit(a@[i as int]) && is_digit(b@[i as int]));
        }
        if !greater && !less {
            greater = x > y;
            less = x < y;
        }
        i += 1;
    }
    assert(a@.take(a@.len() as int) =~= a@);
    assert(b@.take(b@.len() as int) =~= b@);
    greater
}

/// Whether two texts are decimal fractions, and the first is greater than the second.
pub fn decimal_exceeds(a: &str, b: &str) -> (r: bool)
    ensures
        r == exceeds(a@, b@),
{
    let x = match read_decimal(a) {
        Some(d) => d,
        None => {
            return false;
        },
    };
    let y = match read_decimal(b) {
        Some(d) => d,
        None => {
            return false;
        },
    };
    let w: usize = if x.whole.len() < y.whole.len() {
        y.whole.len()
    } else {
        x.whole.len()
    };
    let f: usize = if x.fraction.len() < y.fraction.len() {
        y.fraction.len()
    } else {
        x.fraction.len()
    };
    let p = aligned(&x, w, f);
    let q = aligned(&y, w, f);
    if x.negative && y.negative {
        digits_exceed(&q, &p)
    } else if x.negative {
        false
    } else if y.negative {
        let mut none: Vec<char> = Vec::new();
        push_zeros(&mut none, p.len());
        proof {
            assert(none@ =~= zeros(p@.len() as int) + Seq::<char>::empty());
            lemma_zeros_in_front(p@.len() as int, Seq::empty());
        }
        digits_exceed(&p, &none) || digits_exceed(&q, &none)
    } else {
        digits_exceed(&p, &q)
    }
}

} // verus!
