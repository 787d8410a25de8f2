//! How written decimals stand to the numbers that they write.

use vstd::prelude::*;

use crate::decimals::{exceeds, fraction_part, is_decimal, scaled, whole_part, zeros};
use crate::number::{all_digits, decimal, digit_value, digits_value, written_number_reads_back};
use crate::split::{free_of, joined, joined_texts_are_the_pieces, pieces};
use crate::text::CharSet;

verus! {

proof fn lemma_digits_are_free(s: Seq<char>)
    requires
        all_digits(s, 10),
    ensures
        free_of(s, CharSet::Is('.')),
        s.len() > 0 ==> s[0] != '-',
{
    assert forall|i: int| 0 <= i < s.len() implies !CharSet::Is('.').has(#[trigger] s[i]) by {
        assert(digit_value(s[i], 10) is Some);
    }
    if s.len() > 0 {
        assert(digit_value(s[0], 10) is Some);
    }
}

proof fn lemma_parts(w: Seq<char>, f: Seq<char>)
    requires
        w.len() > 0,
        all_digits(w, 10),
        all_digits(f, 10),
    ensures
        whole_part(w) == w,
        fraction_part(w).len() == 0,
        is_decimal(w),
        whole_part(w + seq!['.'] + f) == w,
        fraction_part(w + seq!['.'] + f) == f,
        is_decimal(w + seq!['.'] + f),
{
    lemma_digits_are_free(w);
    lemma_digits_are_free(f);
    let p = seq![w];
    let q = seq![w, f];
    joined_texts_are_the_pieces(p, '.');
    joined_texts_are_the_pieces(q, '.');
    assert(joined(p, seq!['.']) == w);
    assert(q.drop_last() =~= p);
    assert(joined(q, seq!['.']) == w + seq!['.'] + f);
    assert((w + seq!['.'] + f)[0] == w[0]);
    assert forall|i: int| 0 <= i < fraction_part(w).len() implies digit_value(
        #[trigger] fraction_part(w)[i],
        10,
    ) is Some by {}
}

/// Of two whole numbers the greater exceeds the other.
pub proof fn the_greater_number_exceeds(a: nat, b: nat)
    ensures
        exceeds(decimal(a), decimal(b)) <==> a > b,
{
    let x = decimal(a);
    let y = decimal(b);
    let none = Seq::<char>::empty();
    written_number_reads_back(a, 10);
    written_number_reads_back(b, 10);
    lemma_parts(x, none);
    lemma_parts(y, none);
    lemma_digits_are_free(x);
    lemma_digits_are_free(y);
    assert(x + fraction_part(x) + zeros(0) =~= x);
    assert(y + fraction_part(y) + zeros(0) =~= y);
}

proof fn lemma_digits_of_both(w: Seq<char>, f: Seq<char>)
    ensures
        digits_value(w + f, 10) == digits_value(w, 10) * pow10(f.len()) + digits_value(f, 10),
    decreases f.len(),
{
    if f.len() == 0 {
        assert(w + f =~= w);
        assert(digits_value(w, 10) * 1 == digits_value(w, 10)) by (nonlinear_arith);
    } else {
        let g = f.drop_last();
        lemma_digits_of_both(w, g);
        assert((w + f).drop_last() =~= w + g);
        assert((w + f).last() == f.last());
        let v = digits_value(w, 10);
        let p = pow10(g.len());
        assert((v * p) * 10 == v * (p * 10)) by (nonlinear_arith);
        assert(g.len() == f.len() - 1);
    }
}

spec fn pow10(n: nat) -> nat
    decreases n,
{
    if n == 0 {
        1
    } else {
        pow10((n - 1) as nat) * 10
    }
}

proof fn lemma_digits_below(f: Seq<char>)
    requires
        all_digits(f, 10),
    ensures
        digits_value(f, 10) < pow10(f.len()),
    decreases f.len(),
{
    if f.len() > 0 {
        let g = f.drop_last();
        assert forall|i: int| 0 <= i < g.len() implies digit_value(#[trigger] g[i], 10) is Some by {
            assert(g[i] == f[i]);
        }
        assert(digit_value(f[f.len() - 1], 10) is Some);
        lemma_digits_below(g);
        assert(g.len() == f.len() - 1);
    }
}

/// Of two decimals with fractions of one length, that with the greater whole exceeds the other; where
/// the wholes are the same, the fractions decide.
pub proof fn the_whole_decides_before_the_fraction(a: nat, f: Seq<char>, b: nat, g: Seq<char>)
    requires
        all_digits(f, 10),
        all_digits(g, 10),
        f.len() == g.len(),
    ensures
        exceeds(decimal(a) + seq!['.'] + f, decimal(b) + seq!['.'] + g) <==> a > b || (a == b
            && digits_value(f, 10) > digits_value(g, 10)),
{
    let x = decimal(a);
    let y = decimal(b);
    written_number_reads_back(a, 10);
    written_number_reads_back(b, 10);
    lemma_parts(x, f);
    lemma_parts(y, g);
    lemma_digits_are_free(x);
    lemma_digits_are_free(y);
    let s = x + seq!['.'] + f;
    let t = y + seq!['.'] + g;
    assert(s[0] == x[0] && t[0] == y[0]);
    assert(x + f + zeros(0) =~= x + f);
    assert(y + g + zeros(0) =~= y + g);
    lemma_digits_of_both(x, f);
    lemma_digits_of_both(y, g);
    lemma_digits_below(f);
    lemma_digits_below(g);
    let p = pow10(f.len());
    let v = digits_value(f, 10);
    let u = digits_value(g, 10);
    assert(a * p + v > b * p + u <==> a > b || (a == b && v > u)) by (nonlinear_arith)
        requires
            v < p,
            u < p,
    ;
}

/// A zero behind a fraction changes nothing, nor does a fraction of zeros.
pub proof fn zeros_behind_a_fraction_change_nothing(a: nat, f: Seq<char>)
    requires
        all_digits(f, 10),
    ensures
        !exceeds(decimal(a) + seq!['.'] + f.push('0'), decimal(a) + seq!['.'] + f),
        !exceeds(decimal(a) + seq!['.'] + f, decimal(a) + seq!['.'] + f.push('0')),
        !exceeds(decimal(a), decimal(a) + seq!['.', '0']),
        !exceeds(decimal(a) + seq!['.', '0'], decimal(a)),
{
    let x = decimal(a);
    let none = Seq::<char>::empty();
    let g = f.push('0');
    let z = seq!['0'];
    written_number_reads_back(a, 10);
    assert forall|i: int| 0 <= i < g.len() implies digit_value(#[trigger] g[i], 10) is Some by {
        if i < f.len() {
            assert(g[i] == f[i]);
        }
    }
    assert(all_digits(z, 10));
    lemma_parts(x, f);
    lemma_parts(x, g);
    lemma_parts(x, z);
    lemma_digits_are_free(x);
    assert(x + seq!['.'] + z =~= x + seq!['.', '0']);
    assert((x + seq!['.'] + f)[0] == x[0]);
    assert((x + seq!['.'] + g)[0] == x[0]);
    assert((x + seq!['.'] + z)[0] == x[0]);
    assert(x + g + zeros(0) =~= x + f + zeros(1));
    assert(x + fraction_part(x) + zeros(1) =~= x + z + zeros(0));
}

/// A decimal below zero is exceeded by every one from zero on that is not zero too; of two below
/// zero that which is nearer to it exceeds the other.
pub proof fn the_sign_turns_the_order(a: nat, b: nat)
    ensures
        exceeds(decimal(a), seq!['-'] + decimal(b)) <==> a > 0 || b > 0,
        !exceeds(seq!['-'] + decimal(b), decimal(a)),
        exceeds(seq!['-'] + decimal(a), seq!['-'] + decimal(b)) <==> a < b,
{
    let x = decimal(a);
    let y = decimal(b);
    let m = seq!['-'] + x;
    let n = seq!['-'] + y;
    let none = Seq::<char>::empty();
    written_number_reads_back(a, 10);
    written_number_reads_back(b, 10);
    lemma_parts(x, none);
    lemma_parts(y, none);
    lemma_digits_are_free(x);
    lemma_digits_are_free(y);
    assert(m.skip(1) =~= x);
    assert(n.skip(1) =~= y);
    assert(pieces(x, CharSet::Is('.')) == pieces(m.skip(1), CharSet::Is('.')));
    assert(pieces(y, CharSet::Is('.')) == pieces(n.skip(1), CharSet::Is('.')));
    assert(whole_part(m) == whole_part(x) && fraction_part(m) == fraction_part(x));
    assert(whole_part(n) == whole_part(y) && fraction_part(n) == fraction_part(y));
    assert(x + fraction_part(x) + zeros(0) =~= x);
    assert(y + fraction_part(y) + zeros(0) =~= y);
    assert(scaled(x, 0) == a && scaled(m, 0) == -a);
    assert(scaled(y, 0) == b && scaled(n, 0) == -b);
}

} // verus!
