//! Numbers as text.

use vstd::prelude::*;

use crate::text::{chars_of, is_digit};

verus! {

/// The value of a digit to the base `base`, where `c` is one.
pub open spec fn digit_value(c: char, base: nat) -> Option<nat> {
    let u = c as u32;
    let d: int = if is_digit(c) {
        u - 48
    } else if 97 <= u <= 102 {
        u - 87
    } else if 65 <= u <= 70 {
        u - 55
    } else {
        99
    };
    if d < base {
        Some(d as nat)
    } else {
        None
    }
}

/// Whether every character is a digit to the base `base`.
pub open spec fn all_digits(s: Seq<char>, base: nat) -> bool {
    forall|i: int| 0 <= i < s.len() ==> digit_value(#[trigger] s[i], base) is Some
}

/// The number that the digits write to the base `base`.
pub open spec fn digits_value(s: Seq<char>, base: nat) -> nat
    decreases s.len(),
{
    if s.len() == 0 {
        0
    } else {
        let d = match digit_value(s.last(), base) {
            Some(d) => d,
            None => 0,
        };
        digits_value(s.drop_last(), base) * base + d
    }
}

/// The number up to `max` that a text writes: digits, at least one, with at most
/// one `+` before them.
pub open spec fn number(s: Seq<char>, base: nat, max: nat) -> Option<nat> {
    let body = if s.len() > 0 && s[0] == '+' {
        s.skip(1)
    } else {
        s
    };
    if body.len() > 0 && all_digits(body, base) && digits_value(body, base) <= max {
        Some(digits_value(body, base))
    } else {
        None
    }
}

proof fn lemma_digits_grow(s: Seq<char>, i: int, base: nat)
    requires
        0 <= i <= s.len(),
        base >= 1,
    ensures
        digits_value(s.take(i), base) <= digits_value(s, base),
    decreases s.len() - i,
{
    if i == s.len() {
        assert(s.take(i) =~= s);
    } else {
        lemma_digits_grow(s, i + 1, base);
        assert(s.take(i + 1).drop_last() =~= s.take(i));
        let v = digits_value(s.take(i), base);
        assert(v * base >= v) by (nonlinear_arith)
            requires
                base >= 1,
                v >= 0,
        ;
    }
}

fn value_of_digit(c: char, base: u64) -> (r: Option<u64>)
    ensures
        match r {
            Some(d) => digit_value(c, base as nat) == Some(d as nat),
            None => digit_value(c, base as nat) is None,
        },
{
    let u: u32 = c as u32;
    let d: u32 = if 48 <= u && u <= 57 {
        u - 48
    } else if 97 <= u && u <= 102 {
        u - 87
    } else if 65 <= u && u <= 70 {
        u - 55
    } else {
        99
    };
    if (d as u64) < base {
        Some(d as u64)
    } else {
        None
    }
}

/// The number up to `max` that a text writes to the base `base`.
pub fn parse_number(s: &str, base: u64, max: u64) -> (r: Option<u64>)
    requires
        2 <= base <= 16,
    ensures
        match r {
            Some(n) => number(s@, base as nat, max as nat) == Some(n as nat),
            None => number(s@, base as nat, max as nat) is None,
        },
{
    let v = chars_of(s);
    let start: usize = if v.len() > 0 && v[0] == '+' {
        1
    } else {
        0
    };
    let ghost body = if s@.len() > 0 && s@[0] == '+' {
        s@.skip(1)
    } else {
        s@
    };
    assert(body =~= s@.skip(start as int));
    if start == v.len() {
        return None;
    }
    let mut acc: u64 = 0;
    let mut i: usize = start;
    while i < v.len()
        invariant
            start <= i <= v@.len(),
            v@ == s@,
            2 <= base <= 16,
            body == s@.skip(start as int),
            body.len() > 0,
            number(s@, base as nat, max as nat) == (if all_digits(body, base as nat)
                && digits_value(body, base as nat) <= max {
                Some(digits_value(body, base as nat))
            } else {
                None
            }),
            acc == digits_value(body.take(i - start), base as nat),
            acc <= max,
            forall|j: int|
                0 <= j < i - start ==> digit_value(#[trigger] body[j], base as nat) is Some,
        decreases v@.len() - i,
    {
        assert(body[i - start] == v@[i as int]);
        match value_of_digit(v[i], base) {
            Some(d) => {
                proof {
                    assert(body.take(i - start + 1).drop_last() =~= body.take(i - start));
                    lemma_digits_grow(body, i - start + 1, base as nat);
                    assert(acc * base + d <= 0xffff_ffff_ffff_ffffu64 * 16 + 16) by (nonlinear_arith)
                        requires
                            acc <= 0xffff_ffff_ffff_ffffu64,
                            base <= 16,
                            d < base,
                    ;
                }
                let next: u128 = (acc as u128) * (base as u128) + (d as u128);
                if next > max as u128 {
                    return None;
                }
                acc = next as u64;
            },
            None => {
                return None;
            },
        }
        i += 1;
    }
    assert(body.take(body.len() as int) =~= body);
    Some(acc)
}

/// The number that a text writes in decimal digits, where it fits in 32 bits.
pub fn parse_u32(s: &str) -> (r: Option<u32>)
    ensures
        match r {
            Some(n) => number(s@, 10, u32::MAX as nat) == Some(n as nat),
            None => number(s@, 10, u32::MAX as nat) is None,
        },
{
    match parse_number(s, 10, u32::MAX as u64) {
        Some(n) => {
            assert(n <= u32::MAX);
            Some(n as u32)
        },
        None => None,
    }
}

/// The number that a text writes in decimal digits, where it fits in 64 bits.
pub fn parse_u64(s: &str) -> (r: Option<u64>)
    ensures
        match r {
            Some(n) => number(s@, 10, u64::MAX as nat) == Some(n as nat),
            None => number(s@, 10, u64::MAX as nat) is None,
        },
{
    parse_number(s, 10, u64::MAX)
}

// ── Writing numbers ──────────────────────────────────────────────────────────

/// The digit that stands for `d`.
pub open spec fn digit_char(d: nat) -> char {
    if d < 10 {
        (48 + d) as char
    } else {
        (87 + d) as char
    }
}

/// The digits of `n` to the base `base`, without zeros in front.
pub open spec fn written(n: nat, base: nat) -> Seq<char>
    decreases n,
{
    if n < base || base < 2 {
        seq![digit_char(n)]
    } else {
        proof {
            assert(n / base < n) by (nonlinear_arith)
                requires
                    base >= 2,
                    n >= base,
            ;
        }
        written(n / base, base).push(digit_char(n % base))
    }
}

/// The decimal digits of `n`.
pub open spec fn decimal(n: nat) -> Seq<char> {
    written(n, 10)
}

fn char_of_digit(d: u64) -> (r: char)
    requires
        d < 16,
    ensures
        r == digit_char(d as nat),
{
    if d < 10 {
        (48 + d as u8) as char
    } else {
        (87 + d as u8) as char
    }
}

fn push_number(out: &mut String, n: u64, base: u64)
    requires
        2 <= base <= 16,
    ensures
        final(out)@ == old(out)@ + written(n as nat, base as nat),
    decreases n,
{
    if n < base {
        out.push(char_of_digit(n));
    } else {
        proof {
            assert(n / base < n) by (nonlinear_arith)
                requires
                    base >= 2,
                    n >= base,
            ;
            assert(n % base < base) by (nonlinear_arith)
                requires
                    base >= 2,
            ;
        }
        let ghost before = out@;
        push_number(out, n / base, base);
        out.push(char_of_digit(n % base));
        assert(out@ =~= before + written((n / base) as nat, base as nat).push(
            digit_char((n % base) as nat),
        ));
    }
}

/// Writes `n` in decimal digits.
pub fn to_decimal(n: u64) -> (r: String)
    ensures
        r@ == decimal(n as nat),
{
    let mut out = String::new();
    push_number(&mut out, n, 10);
    assert(out@ =~= decimal(n as nat));
    out
}

/// Writes `n` in small hexadecimal digits.
pub fn to_hex(n: u64) -> (r: String)
    ensures
        r@ == written(n as nat, 16),
{
    let mut out = String::new();
    push_number(&mut out, n, 16);
    assert(out@ =~= written(n as nat, 16));
    out
}

proof fn lemma_digit_char(d: nat, base: nat)
    requires
        d < base <= 16,
    ensures
        digit_value(digit_char(d), base) == Some(d),
        d > 0 ==> digit_char(d) != '0',
{
}

/// What a number is written as is read back as that number, and begins with no zero
/// but for zero itself.
pub proof fn written_number_reads_back(n: nat, base: nat)
    requires
        2 <= base <= 16,
    ensures
        written(n, base).len() >= 1,
        all_digits(written(n, base), base),
        digits_value(written(n, base), base) == n,
        n > 0 ==> written(n, base)[0] != '0',
    decreases n,
{
    reveal_with_fuel(digits_value, 2);
    if n < base {
        lemma_digit_char(n, base);
        assert(written(n, base).drop_last() =~= Seq::<char>::empty());
    } else {
        let q = n / base;
        let d = n % base;
        assert(q < n && q > 0) by (nonlinear_arith)
            requires
                base >= 2,
                n >= base,
                q == n / base,
        ;
        assert(d < base && q * base + d == n) by (nonlinear_arith)
            requires
                base >= 2,
                q == n / base,
                d == n % base,
        ;
        written_number_reads_back(q, base);
        lemma_digit_char(d, base);
        let w = written(n, base);
        assert(w == written(q, base).push(digit_char(d)));
        assert(w.drop_last() =~= written(q, base));
        assert(w[0] == written(q, base)[0]);
    }
}

} // verus!
