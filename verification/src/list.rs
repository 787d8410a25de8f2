//! Lists of values that are moved on one by one.

use vstd::prelude::*;

use crate::text::{opt_pair_view, opt_view, pair_views, same, views};

verus! {

/// Takes the first value out of a list.
pub fn take_first<T: DeepView>(rest: &mut Vec<T>) -> (r: T)
    requires
        old(rest)@.len() > 0,
    ensures
        r.deep_view() == old(rest).deep_view()[0],
        r == old(rest)@[0],
        final(rest)@ == old(rest)@.skip(1),
        final(rest).deep_view() == old(rest).deep_view().skip(1),
{
    let ghost before = rest@;
    let ghost deep = rest.deep_view();
    let r = rest.remove(0);
    assert(rest@ =~= before.skip(1));
    assert(rest.deep_view() =~= deep.skip(1));
    r
}

/// Puts a text behind a list, where there is one.
pub(crate) fn push_text(out: &mut Vec<String>, t: Option<String>)
    ensures
        views(final(out)@) == (match opt_view(t) {
            Some(x) => views(old(out)@) + seq![x],
            None => views(old(out)@),
        }),
{
    let ghost before = views(out@);
    match t {
        Some(s) => {
            out.push(s);
            assert(views(out@) =~= before + seq![s@]);
        },
        None => {},
    }
}

/// Puts a pair behind a list, where there is one.
pub(crate) fn push_pair(out: &mut Vec<(String, String)>, p: Option<(String, String)>)
    ensures
        pair_views(final(out)@) == (match opt_pair_view(p) {
            Some(x) => pair_views(old(out)@) + seq![x],
            None => pair_views(old(out)@),
        }),
{
    let ghost before = pair_views(out@);
    match p {
        Some((a, b)) => {
            out.push((a, b));
            assert(pair_views(out@) =~= before + seq![(a@, b@)]);
        },
        None => {},
    }
}

/// Whether a text is in a list.
pub fn has_text(v: &Vec<String>, x: &str) -> (r: bool)
    ensures
        r == views(v@).contains(x@),
{
    let mut i: usize = 0;
    while i < v.len()
        invariant
            i <= v@.len(),
            forall|k: int| 0 <= k < i ==> v@[k]@ != x@,
        decreases v@.len() - i,
    {
        if same(v[i].as_str(), x) {
            assert(views(v@)[i as int] == x@);
            return true;
        }
        i += 1;
    }
    false
}

/// The texts of `a`, and those of `b` that are not among them, each once.
pub open spec fn with_new(a: Seq<Seq<char>>, b: Seq<Seq<char>>) -> Seq<Seq<char>>
    decreases b.len(),
{
    if b.len() == 0 {
        a
    } else {
        let before = with_new(a, b.drop_last());
        if before.contains(b.last()) {
            before
        } else {
            before.push(b.last())
        }
    }
}

/// Puts the texts of `b` that are not among those of `a` behind them.
pub fn push_new(a: &mut Vec<String>, b: &Vec<String>)
    ensures
        views(final(a)@) == with_new(views(old(a)@), views(b@)),
{
    let ghost start = views(a@);
    let ghost q = views(b@);
    let mut i: usize = 0;
    assert(q.take(0) =~= Seq::<Seq<char>>::empty());
    while i < b.len()
        invariant
            i <= b@.len(),
            q == views(b@),
            views(a@) == with_new(start, q.take(i as int)),
        decreases b@.len() - i,
    {
        let ghost before = views(a@);
        proof {
            assert(q.take(i + 1).drop_last() =~= q.take(i as int));
            assert(q.take(i + 1).last() == b@[i as int]@);
        }
        if !has_text(a, b[i].as_str()) {
            a.push(b[i].clone());
            assert(views(a@) =~= before.push(b@[i as int]@));
        }
        i += 1;
    }
    assert(q.take(q.len() as int) =~= q);
}

/// What is left of a list when its items are mapped is what one of them maps to.
pub proof fn filtered_items_are_those_that_map<A, B>(s: Seq<A>, f: spec_fn(A) -> Option<B>, y: B)
    ensures
        s.filter_map(f).contains(y) <==> exists|i: int|
            0 <= i < s.len() && f(#[trigger] s[i]) == Some(y),
    decreases s.len(),
{
    if s.len() > 0 {
        let d = s.drop_last();
        filtered_items_are_those_that_map(d, f, y);
        let a = s.filter_map(f);
        let b = d.filter_map(f);
        if a.contains(y) {
            let k = choose|k: int| 0 <= k < a.len() && a[k] == y;
            if k < b.len() {
                assert(b[k] == y);
                let i = choose|i: int| 0 <= i < d.len() && f(#[trigger] d[i]) == Some(y);
                assert(s[i] == d[i]);
            } else {
                assert(f(s[s.len() - 1]) == Some(y));
            }
        }
        if exists|i: int| 0 <= i < s.len() && f(#[trigger] s[i]) == Some(y) {
            let i = choose|i: int| 0 <= i < s.len() && f(#[trigger] s[i]) == Some(y);
            if i < d.len() {
                assert(d[i] == s[i]);
                assert(b.contains(y));
                let k = choose|k: int| 0 <= k < b.len() && b[k] == y;
                assert(a[k] == y);
            } else {
                assert(a[a.len() - 1] == y);
            }
        }
    }
}

} // verus!
