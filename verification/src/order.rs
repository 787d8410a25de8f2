//! The order of texts, and sorting by rank.

use vstd::prelude::*;

use crate::list::take_first;
use crate::text::chars_of;

verus! {

// ── The order of texts ───────────────────────────────────────────────────────

/// Whether `a` comes before `b`: at the first character in which they differ it
/// has the smaller one, or `b` goes on where it ends.
pub open spec fn precedes(a: Seq<char>, b: Seq<char>) -> bool
    decreases a.len(),
{
    if b.len() == 0 {
        false
    } else if a.len() == 0 {
        true
    } else if a[0] != b[0] {
        (a[0] as int) < (b[0] as int)
    } else {
        precedes(a.skip(1), b.skip(1))
    }
}

/// No text comes before itself.
pub proof fn lemma_precedes_irreflexive(a: Seq<char>)
    ensures
        !precedes(a, a),
    decreases a.len(),
{
    if a.len() > 0 {
        lemma_precedes_irreflexive(a.skip(1));
    }
}

/// What comes before something that comes before a third comes before the third.
pub proof fn lemma_precedes_transitive(a: Seq<char>, b: Seq<char>, c: Seq<char>)
    requires
        precedes(a, b),
        precedes(b, c),
    ensures
        precedes(a, c),
    decreases a.len(),
{
    if a.len() > 0 && b.len() > 0 && c.len() > 0 && a[0] == b[0] && b[0] == c[0] {
        lemma_precedes_transitive(a.skip(1), b.skip(1), c.skip(1));
    }
}

/// Of two different texts one comes before the other.
pub proof fn lemma_precedes_total(a: Seq<char>, b: Seq<char>)
    ensures
        precedes(a, b) || a == b || precedes(b, a),
    decreases a.len(),
{
    if a.len() == 0 && b.len() == 0 {
        assert(a =~= b);
    } else if a.len() > 0 && b.len() > 0 && a[0] == b[0] {
        lemma_precedes_total(a.skip(1), b.skip(1));
        if a.skip(1) == b.skip(1) {
            assert(a.skip(1).len() == b.skip(1).len());
            assert forall|i: int| 0 <= i < a.len() implies a[i] == b[i] by {
                if i > 0 {
                    assert(a.skip(1)[i - 1] == b.skip(1)[i - 1]);
                }
            }
            assert(a =~= b);
        }
    }
}

/// Not both of two texts come before the other.
pub proof fn lemma_precedes_asymmetric(a: Seq<char>, b: Seq<char>)
    ensures
        !(precedes(a, b) && precedes(b, a)),
{
    if precedes(a, b) && precedes(b, a) {
        lemma_precedes_transitive(a, b, a);
        lemma_precedes_irreflexive(a);
    }
}

fn code(c: char) -> (r: u32)
    ensures
        r as int == c as int,
{
    c as u32
}

/// Whether `a` comes before `b`.
pub fn text_precedes(a: &str, b: &str) -> (r: bool)
    ensures
        r == precedes(a@, b@),
{
    let v = chars_of(a);
    let w = chars_of(b);
    let mut i: usize = 0;
    assert(a@.skip(0) =~= a@);
    assert(b@.skip(0) =~= b@);
    loop
        invariant
            i <= v@.len(),
            i <= w@.len(),
            v@ == a@,
            w@ == b@,
            precedes(a@, b@) == precedes(a@.skip(i as int), b@.skip(i as int)),
        decreases v@.len() - i,
    {
        if i == w.len() {
            return false;
        }
        if i == v.len() {
            return true;
        }
        let c = v[i];
        let d = w[i];
        if c != d {
            return code(c) < code(d);
        }
        assert(a@.skip(i as int).skip(1) =~= a@.skip(i + 1));
        assert(b@.skip(i as int).skip(1) =~= b@.skip(i + 1));
        i += 1;
    }
}

// ── Sorting by rank ──────────────────────────────────────────────────────────

/// A type whose values have a rank among each other.
pub trait Ranked: DeepView + Sized {
    /// Whether `a` ranks before `b`.
    spec fn before(a: Self::V, b: Self::V) -> bool;

    /// The rank orders the values, up to values of one rank.
    proof fn rank_is_order(a: Self::V, b: Self::V, c: Self::V)
        ensures
            !Self::before(a, a),
            Self::before(a, b) ==> !Self::before(b, a),
            !Self::before(a, b) && !Self::before(b, c) ==> !Self::before(a, c),
    ;

    fn ranks_before(&self, other: &Self) -> (r: bool)
        ensures
            r == Self::before(self.deep_view(), other.deep_view()),
    ;
}

/// `s` with `x` put behind the last value that `x` does not rank before.
pub open spec fn inserted<T: Ranked>(s: Seq<T::V>, x: T::V) -> Seq<T::V>
    decreases s.len(),
{
    if s.len() == 0 || !T::before(x, s.last()) {
        s.push(x)
    } else {
        inserted::<T>(s.drop_last(), x).push(s.last())
    }
}

/// The values of `s` by rank; values of one rank stay in the order they had.
pub open spec fn ranked<T: Ranked>(s: Seq<T::V>) -> Seq<T::V>
    decreases s.len(),
{
    if s.len() == 0 {
        s
    } else {
        inserted::<T>(ranked::<T>(s.drop_last()), s.last())
    }
}

/// Whether no value ranks before one that stands in front of it.
pub open spec fn in_rank_order<T: Ranked>(s: Seq<T::V>) -> bool {
    forall|i: int, j: int| 0 <= i < j < s.len() ==> !T::before(#[trigger] s[j], #[trigger] s[i])
}

/// Whether `a` and `b` have one rank.
pub open spec fn same_rank<T: Ranked>(a: T::V, b: T::V) -> bool {
    !T::before(a, b) && !T::before(b, a)
}

/// The values of `s` that have the rank of `x`, in their order.
pub open spec fn of_rank<T: Ranked>(s: Seq<T::V>, x: T::V) -> Seq<T::V>
    decreases s.len(),
{
    if s.len() == 0 {
        s
    } else if same_rank::<T>(s.last(), x) {
        of_rank::<T>(s.drop_last(), x).push(s.last())
    } else {
        of_rank::<T>(s.drop_last(), x)
    }
}

proof fn lemma_inserted_members<T: Ranked>(s: Seq<T::V>, x: T::V, k: int)
    requires
        0 <= k < inserted::<T>(s, x).len(),
    ensures
        inserted::<T>(s, x)[k] == x || s.contains(inserted::<T>(s, x)[k]),
    decreases s.len(),
{
    if s.len() == 0 || !T::before(x, s.last()) {
        if k < s.len() {
            assert(s[k] == inserted::<T>(s, x)[k]);
        }
    } else {
        let r = inserted::<T>(s.drop_last(), x);
        if k < r.len() {
            lemma_inserted_members::<T>(s.drop_last(), x, k);
            if r[k] != x {
                let j = choose|j: int| 0 <= j < s.drop_last().len() && s.drop_last()[j] == r[k];
                assert(s[j] == r[k]);
            }
        } else {
            assert(s[s.len() - 1] == s.last());
        }
    }
}

proof fn lemma_inserted_in_order<T: Ranked>(s: Seq<T::V>, x: T::V)
    requires
        in_rank_order::<T>(s),
    ensures
        in_rank_order::<T>(inserted::<T>(s, x)),
    decreases s.len(),
{
    let r = inserted::<T>(s, x);
    if s.len() == 0 || !T::before(x, s.last()) {
        assert forall|i: int, j: int| 0 <= i < j < r.len() implies !T::before(
            #[trigger] r[j],
            #[trigger] r[i],
        ) by {
            if j == s.len() {
                T::rank_is_order(x, s.last(), s[i]);
                T::rank_is_order(s.last(), s.last(), s.last());
            }
        }
    } else {
        lemma_inserted_in_order::<T>(s.drop_last(), x);
        let q = inserted::<T>(s.drop_last(), x);
        assert forall|i: int, j: int| 0 <= i < j < r.len() implies !T::before(
            #[trigger] r[j],
            #[trigger] r[i],
        ) by {
            if j == q.len() {
                lemma_inserted_members::<T>(s.drop_last(), x, i);
                T::rank_is_order(x, s.last(), x);
                if q[i] != x {
                    let k = choose|k: int|
                        0 <= k < s.drop_last().len() && s.drop_last()[k] == q[i];
                    assert(s[k] == q[i]);
                    assert(!T::before(s[s.len() - 1], s[k]));
                }
            } else {
                assert(q[j] == r[j] && q[i] == r[i]);
            }
        }
    }
}

/// Sorting puts every value behind those that rank before it.
pub proof fn ranked_is_in_order<T: Ranked>(s: Seq<T::V>)
    ensures
        in_rank_order::<T>(ranked::<T>(s)),
    decreases s.len(),
{
    if s.len() > 0 {
        ranked_is_in_order::<T>(s.drop_last());
        lemma_inserted_in_order::<T>(ranked::<T>(s.drop_last()), s.last());
    }
}

proof fn lemma_inserted_multiset<T: Ranked>(s: Seq<T::V>, x: T::V)
    ensures
        inserted::<T>(s, x).to_multiset() == s.to_multiset().insert(x),
    decreases s.len(),
{
    broadcast use vstd::seq_lib::group_to_multiset_ensures;

    if s.len() == 0 || !T::before(x, s.last()) {
    } else {
        lemma_inserted_multiset::<T>(s.drop_last(), x);
        assert(s =~= s.drop_last().push(s.last()));
        assert(inserted::<T>(s, x).to_multiset() =~= s.to_multiset().insert(x));
    }
}

/// Sorting neither adds nor drops a value.
pub proof fn ranked_is_permutation<T: Ranked>(s: Seq<T::V>)
    ensures
        ranked::<T>(s).to_multiset() == s.to_multiset(),
    decreases s.len(),
{
    broadcast use vstd::seq_lib::group_to_multiset_ensures;

    if s.len() > 0 {
        ranked_is_permutation::<T>(s.drop_last());
        lemma_inserted_multiset::<T>(ranked::<T>(s.drop_last()), s.last());
        assert(s =~= s.drop_last().push(s.last()));
    }
}

proof fn lemma_inserted_of_rank<T: Ranked>(s: Seq<T::V>, x: T::V, y: T::V)
    ensures
        of_rank::<T>(inserted::<T>(s, x), y) == (if same_rank::<T>(x, y) {
            of_rank::<T>(s, y).push(x)
        } else {
            of_rank::<T>(s, y)
        }),
    decreases s.len(),
{
    if s.len() == 0 || !T::before(x, s.last()) {
        assert(s.push(x).drop_last() =~= s);
    } else {
        lemma_inserted_of_rank::<T>(s.drop_last(), x, y);
        let q = inserted::<T>(s.drop_last(), x);
        assert(q.push(s.last()).drop_last() =~= q);
        if same_rank::<T>(x, y) {
            T::rank_is_order(s.last(), y, x);
            T::rank_is_order(x, y, s.last());
        }
    }
}

/// Sorting leaves the values of one rank in the order that they had.
pub proof fn ranked_is_stable<T: Ranked>(s: Seq<T::V>, x: T::V)
    ensures
        of_rank::<T>(ranked::<T>(s), x) == of_rank::<T>(s, x),
    decreases s.len(),
{
    if s.len() > 0 {
        ranked_is_stable::<T>(s.drop_last(), x);
        lemma_inserted_of_rank::<T>(ranked::<T>(s.drop_last()), s.last(), x);
    }
}

fn insert_ranked<T: Ranked>(out: &mut Vec<T>, x: T)
    ensures
        final(out).deep_view() == inserted::<T>(old(out).deep_view(), x.deep_view()),
{
    let mut p: usize = out.len();
    let ghost s = out.deep_view();
    let ghost y = x.deep_view();
    assert(s.take(s.len() as int) =~= s);
    assert(inserted::<T>(s, y) =~= inserted::<T>(s, y) + s.skip(s.len() as int));
    while p > 0 && x.ranks_before(&out[p - 1])
        invariant
            p <= out@.len(),
            s == out.deep_view(),
            y == x.deep_view(),
            inserted::<T>(s, y) == inserted::<T>(s.take(p as int), y) + s.skip(p as int),
        decreases p,
    {
        proof {
            assert(s.take(p as int).drop_last() =~= s.take(p - 1));
            assert(s.take(p as int).last() == out@[p - 1].deep_view());
            assert(inserted::<T>(s.take(p - 1), y).push(s[p - 1]) + s.skip(p as int)
                =~= inserted::<T>(s.take(p - 1), y) + s.skip(p - 1));
        }
        p -= 1;
    }
    proof {
        if p > 0 {
            assert(s.take(p as int).last() == out@[p - 1].deep_view());
        }
        assert(inserted::<T>(s.take(p as int), y) == s.take(p as int).push(y));
    }
    out.insert(p, x);
    assert(out.deep_view() =~= s.take(p as int).push(y) + s.skip(p as int));
}

/// Sorts by rank; values of one rank stay in the order they had.
pub fn sort_ranked<T: Ranked>(v: Vec<T>) -> (r: Vec<T>)
    ensures
        r.deep_view() == ranked::<T>(v.deep_view()),
{
    let ghost s = v.deep_view();
    let mut rest = v;
    let mut out: Vec<T> = Vec::new();
    let mut i: usize = 0;
    let n: usize = rest.len();
    assert(out.deep_view() =~= ranked::<T>(s.take(0)));
    assert(rest.deep_view() =~= s.skip(0));
    while i < n
        invariant
            i <= n,
            n == s.len(),
            rest.deep_view() == s.skip(i as int),
            out.deep_view() == ranked::<T>(s.take(i as int)),
        decreases n - i,
    {
        assert(rest.deep_view().len() == rest@.len());
        let x = take_first(&mut rest);
        proof {
            assert(s.skip(i as int).skip(1) =~= s.skip(i + 1));
            assert(s.take(i + 1).drop_last() =~= s.take(i as int));
        }
        insert_ranked(&mut out, x);
        i += 1;
    }
    assert(s.take(n as int) =~= s);
    out
}

impl Ranked for String {
    open spec fn before(a: Seq<char>, b: Seq<char>) -> bool {
        precedes(a, b)
    }

    proof fn rank_is_order(a: Seq<char>, b: Seq<char>, c: Seq<char>) {
        lemma_precedes_irreflexive(a);
        lemma_precedes_asymmetric(a, b);
        lemma_precedes_total(a, b);
        lemma_precedes_total(b, c);
        if precedes(a, c) && !precedes(a, b) && !precedes(b, c) {
            if precedes(b, a) {
                lemma_precedes_transitive(b, a, c);
            }
        }
    }

    fn ranks_before(&self, other: &Self) -> (r: bool) {
        text_precedes(self.as_str(), other.as_str())
    }
}

} // verus!
