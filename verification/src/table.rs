//! Tables in the order of their keys.

use vstd::prelude::*;

use crate::order::{
    lemma_precedes_asymmetric, lemma_precedes_irreflexive, lemma_precedes_total, lemma_precedes_transitive, precedes,
    text_precedes,
};
use crate::text::{own, same};

verus! {

/// Whether each key comes before the keys behind it. No key then stands twice.
pub open spec fn in_key_order<A>(m: Seq<(Seq<char>, A)>) -> bool {
    forall|i: int, j: int|
        0 <= i < j < m.len() ==> precedes((#[trigger] m[i]).0, (#[trigger] m[j]).0)
}

/// The value at the key `k`.
pub open spec fn lookup<A>(m: Seq<(Seq<char>, A)>, k: Seq<char>) -> Option<A>
    decreases m.len(),
{
    if m.len() == 0 {
        None
    } else if m.last().0 == k {
        Some(m.last().1)
    } else {
        lookup(m.drop_last(), k)
    }
}

/// The table with the value `v` at the key `k`, and as it was at the others.
pub open spec fn put<A>(m: Seq<(Seq<char>, A)>, k: Seq<char>, v: A) -> Seq<(Seq<char>, A)>
    decreases m.len(),
{
    if m.len() == 0 {
        seq![(k, v)]
    } else if m.last().0 == k {
        m.drop_last().push((k, v))
    } else if precedes(m.last().0, k) {
        m.push((k, v))
    } else {
        put(m.drop_last(), k, v).push(m.last())
    }
}

/// The values at the key `k`, none where it has no entry.
pub open spec fn values_at<A>(m: Seq<(Seq<char>, Seq<A>)>, k: Seq<char>) -> Seq<A> {
    match lookup(m, k) {
        Some(s) => s,
        None => Seq::empty(),
    }
}

/// The table with `x` put behind the values at the key `k`.
pub open spec fn put_behind<A>(m: Seq<(Seq<char>, Seq<A>)>, k: Seq<char>, x: A) -> Seq<
    (Seq<char>, Seq<A>),
> {
    put(m, k, values_at(m, k).push(x))
}

/// A table has at a key what was last put there, and elsewhere what it had.
pub proof fn lookup_after_put<A>(m: Seq<(Seq<char>, A)>, k: Seq<char>, v: A, j: Seq<char>)
    ensures
        lookup(put(m, k, v), j) == (if j == k {
            Some(v)
        } else {
            lookup(m, j)
        }),
    decreases m.len(),
{
    if m.len() == 0 {
        assert(seq![(k, v)].drop_last() =~= m);
    } else if m.last().0 == k {
        assert(put(m, k, v).drop_last() =~= m.drop_last());
    } else if precedes(m.last().0, k) {
        assert(put(m, k, v).drop_last() =~= m);
    } else {
        lookup_after_put(m.drop_last(), k, v, j);
        assert(put(m, k, v).drop_last() =~= put(m.drop_last(), k, v));
    }
}

proof fn lemma_put_keys<A>(m: Seq<(Seq<char>, A)>, k: Seq<char>, v: A, i: int)
    requires
        0 <= i < put(m, k, v).len(),
    ensures
        put(m, k, v)[i].0 == k || exists|j: int|
            0 <= j < m.len() && (#[trigger] m[j]).0 == put(m, k, v)[i].0,
    decreases m.len(),
{
    let r = put(m, k, v);
    if m.len() == 0 {
    } else if m.last().0 == k || precedes(m.last().0, k) {
        if i < m.len() && r[i].0 != k {
            assert(m[i].0 == r[i].0);
        }
    } else {
        let d = m.drop_last();
        if i < put(d, k, v).len() {
            lemma_put_keys(d, k, v, i);
            if r[i].0 != k {
                let j = choose|j: int| 0 <= j < d.len() && (#[trigger] d[j]).0 == r[i].0;
                assert(m[j].0 == r[i].0);
            }
        } else {
            assert(m[m.len() - 1].0 == r[i].0);
        }
    }
}

/// What a table has at a key is one of its entries.
pub proof fn looked_up_is_an_entry<A>(m: Seq<(Seq<char>, A)>, k: Seq<char>)
    requires
        lookup(m, k) is Some,
    ensures
        exists|i: int| 0 <= i < m.len() && #[trigger] m[i] == (k, lookup(m, k)->0),
    decreases m.len(),
{
    if m.last().0 == k {
        assert(m[m.len() - 1] == (k, lookup(m, k)->0));
    } else {
        let d = m.drop_last();
        looked_up_is_an_entry(d, k);
        let i = choose|i: int| 0 <= i < d.len() && #[trigger] d[i] == (k, lookup(d, k)->0);
        assert(m[i] == (k, lookup(m, k)->0));
    }
}

/// Putting a value keeps the keys in order.
pub proof fn put_keeps_order<A>(m: Seq<(Seq<char>, A)>, k: Seq<char>, v: A)
    requires
        in_key_order(m),
    ensures
        in_key_order(put(m, k, v)),
    decreases m.len(),
{
    let r = put(m, k, v);
    if m.len() == 0 {
    } else if m.last().0 == k {
        assert forall|i: int, j: int| 0 <= i < j < r.len() implies precedes(
            (#[trigger] r[i]).0,
            (#[trigger] r[j]).0,
        ) by {
            assert(r[i].0 == m[i].0 && r[j].0 == m[j].0);
        }
    } else if precedes(m.last().0, k) {
        assert forall|i: int, j: int| 0 <= i < j < r.len() implies precedes(
            (#[trigger] r[i]).0,
            (#[trigger] r[j]).0,
        ) by {
            if j == m.len() && i < m.len() - 1 {
                assert(precedes(m[i].0, m[m.len() - 1].0));
                lemma_precedes_transitive(m[i].0, m.last().0, k);
            }
        }
    } else {
        let d = m.drop_last();
        assert forall|i: int, j: int| 0 <= i < j < d.len() implies precedes(
            (#[trigger] d[i]).0,
            (#[trigger] d[j]).0,
        ) by {
            assert(d[i] == m[i] && d[j] == m[j]);
        }
        put_keeps_order(d, k, v);
        let q = put(d, k, v);
        lemma_precedes_total(k, m.last().0);
        assert forall|i: int, j: int| 0 <= i < j < r.len() implies precedes(
            (#[trigger] r[i]).0,
            (#[trigger] r[j]).0,
        ) by {
            if j == q.len() {
                lemma_put_keys(d, k, v, i);
                if q[i].0 != k {
                    let t = choose|t: int| 0 <= t < d.len() && (#[trigger] d[t]).0 == q[i].0;
                    assert(m[t] == d[t]);
                    assert(precedes(m[t].0, m[m.len() - 1].0));
                }
            } else {
                assert(q[i] == r[i] && q[j] == r[j]);
            }
        }
    }
}

/// In a table in key order the value at the key of an entry is that of the entry.
pub proof fn lookup_of_entry<A>(m: Seq<(Seq<char>, A)>, i: int)
    requires
        in_key_order(m),
        0 <= i < m.len(),
    ensures
        lookup(m, m[i].0) == Some(m[i].1),
    decreases m.len(),
{
    if i < m.len() - 1 {
        let d = m.drop_last();
        lemma_precedes_irreflexive(m[i].0);
        assert(precedes(m[i].0, m[m.len() - 1].0));
        assert(in_key_order(d)) by {
            assert forall|a: int, b: int| 0 <= a < b < d.len() implies precedes(
                (#[trigger] d[a]).0,
                (#[trigger] d[b]).0,
            ) by {
                assert(d[a] == m[a] && d[b] == m[b]);
            }
        }
        lookup_of_entry(d, i);
        assert(d[i] == m[i]);
    }
}

/// A table from texts to values, in the order of the texts.
#[derive(Debug)]
pub struct Table<V> {
    entries: Vec<(String, V)>,
}

impl<V: DeepView> DeepView for Table<V> {
    type V = Seq<(Seq<char>, V::V)>;

    closed spec fn deep_view(&self) -> Seq<(Seq<char>, V::V)> {
        self.entries.deep_view()
    }
}

impl<V: DeepView> Table<V> {
    /// The keys are in order, and none stands twice.
    pub open spec fn well_formed(&self) -> bool {
        in_key_order(self.deep_view())
    }

    pub fn new() -> (r: Self)
        ensures
            r.well_formed(),
            r.deep_view() == Seq::<(Seq<char>, V::V)>::empty(),
    {
        let r = Table { entries: Vec::new() };
        assert(r.deep_view() =~= Seq::<(Seq<char>, V::V)>::empty());
        r
    }

    pub fn len(&self) -> (r: usize)
        ensures
            r == self.deep_view().len(),
    {
        self.entries.len()
    }

    pub fn is_empty(&self) -> (r: bool)
        ensures
            r == (self.deep_view().len() == 0),
    {
        self.entries.len() == 0
    }

    /// The key of the entry at the place `i`.
    pub fn key(&self, i: usize) -> (r: &String)
        requires
            i < self.deep_view().len(),
        ensures
            r@ == self.deep_view()[i as int].0,
    {
        &self.entries[i].0
    }

    /// The value of the entry at the place `i`.
    pub fn value(&self, i: usize) -> (r: &V)
        requires
            i < self.deep_view().len(),
        ensures
            r.deep_view() == self.deep_view()[i as int].1,
    {
        &self.entries[i].1
    }

    /// The value at the key `k`.
    pub fn get(&self, k: &str) -> (r: Option<&V>)
        ensures
            match r {
                Some(v) => lookup(self.deep_view(), k@) == Some(v.deep_view()),
                None => lookup(self.deep_view(), k@) is None,
            },
    {
        let mut p: usize = self.entries.len();
        let ghost s = self.deep_view();
        assert(s.take(s.len() as int) =~= s);
        while p > 0
            invariant
                p <= self.entries@.len(),
                s == self.entries.deep_view(),
                lookup(s, k@) == lookup(s.take(p as int), k@),
            decreases p,
        {
            assert(s.take(p as int).drop_last() =~= s.take(p - 1));
            assert(s.take(p as int).last() == self.entries@[p - 1].deep_view());
            if same(self.entries[p - 1].0.as_str(), k) {
                return Some(&self.entries[p - 1].1);
            }
            p -= 1;
        }
        None
    }

    /// Puts the value `v` at the key `k`, in place of the one that was there.
    pub fn insert(&mut self, k: String, v: V)
        requires
            old(self).well_formed(),
        ensures
            final(self).well_formed(),
            final(self).deep_view() == put(old(self).deep_view(), k@, v.deep_view()),
    {
        let ghost s = self.entries.deep_view();
        let ghost y = v.deep_view();
        let ghost kk = k@;
        proof {
            put_keeps_order(s, kk, y);
            assert(s.take(s.len() as int) =~= s);
            assert(put(s, kk, y) =~= put(s, kk, y) + s.skip(s.len() as int));
        }
        let mut p: usize = self.entries.len();
        while p > 0
            invariant_except_break
                put(s, kk, y) == put(s.take(p as int), kk, y) + s.skip(p as int),
            invariant
                p <= self.entries@.len(),
                s == self.entries.deep_view(),
                s == old(self).deep_view(),
                kk == k@,
                y == v.deep_view(),
                in_key_order(put(s, kk, y)),
            ensures
                p <= self.entries@.len(),
                s == self.entries.deep_view(),
                put(s, kk, y) == s.take(p as int).push((kk, y)) + s.skip(p as int),
            decreases p,
        {
            let ghost t = s.take(p as int);
            assert(t.drop_last() =~= s.take(p - 1));
            assert(t.last() == self.entries@[p - 1].deep_view());
            if same(self.entries[p - 1].0.as_str(), k.as_str()) {
                self.entries.set(p - 1, (k, v));
                assert(self.entries.deep_view() =~= s.take(p - 1).push((kk, y)) + s.skip(p as int));
                return ;
            }
            if text_precedes(self.entries[p - 1].0.as_str(), k.as_str()) {
                break;
            }
            assert(put(s.take(p - 1), kk, y).push(s[p - 1]) + s.skip(p as int) =~= put(
                s.take(p - 1),
                kk,
                y,
            ) + s.skip(p - 1));
            p -= 1;
            if p == 0 {
                assert(s.take(0).push((kk, y)) =~= put(s.take(0), kk, y));
            }
        }
        proof {
            if p == 0 {
                assert(s.take(0).push((kk, y)) =~= put(s.take(0), kk, y));
            }
        }
        self.entries.insert(p, (k, v));
        assert(self.entries.deep_view() =~= s.take(p as int).push((kk, y)) + s.skip(p as int));
    }

    /// The entries in the order of their keys.
    pub fn into_entries(self) -> (r: Vec<(String, V)>)
        ensures
            r.deep_view() == self.deep_view(),
    {
        self.entries
    }

    /// The table whose entries these are.
    pub fn from_entries(entries: Vec<(String, V)>) -> (r: Self)
        requires
            in_key_order(entries.deep_view()),
        ensures
            r.well_formed(),
            r.deep_view() == entries.deep_view(),
    {
        Table { entries }
    }
}

impl<T: DeepView> Table<Vec<T>> {
    /// Puts `x` behind the values at the key `k`.
    pub fn push_at(&mut self, k: &str, x: T)
        requires
            old(self).well_formed(),
        ensures
            final(self).well_formed(),
            final(self).deep_view() == put_behind(old(self).deep_view(), k@, x.deep_view()),
    {
        let ghost s = self.entries.deep_view();
        let mut at: Option<usize> = None;
        let mut p: usize = self.entries.len();
        assert(s.take(s.len() as int) =~= s);
        while p > 0
            invariant_except_break
                p <= self.entries@.len(),
                s == self.entries.deep_view(),
                lookup(s, k@) == lookup(s.take(p as int), k@),
                at is None,
            ensures
                s == self.entries.deep_view(),
                match at {
                    Some(i) => i < self.entries@.len() && s[i as int].0 == k@ && lookup(s, k@)
                        == Some(s[i as int].1),
                    None => lookup(s, k@) is None,
                },
            decreases p,
        {
            assert(s.take(p as int).drop_last() =~= s.take(p - 1));
            assert(s.take(p as int).last() == self.entries@[p - 1].deep_view());
            if same(self.entries[p - 1].0.as_str(), k) {
                at = Some(p - 1);
                break;
            }
            p -= 1;
        }
        match at {
            Some(i) => {
                let ghost y = x.deep_view();
                let mut pair = self.entries.remove(i);
                let ghost before = pair.1.deep_view();
                assert(pair.deep_view() == s[i as int]);
                pair.1.push(x);
                assert(pair.1.deep_view() =~= before.push(y));
                self.entries.insert(i, pair);
                proof {
                    put_at_entry(s, i as int, before.push(y));
                    put_keeps_order(s, k@, before.push(y));
                    assert(self.entries.deep_view() =~= s.update(i as int, (k@, before.push(y))));
                }
            },
            None => {
                let mut v: Vec<T> = Vec::new();
                v.push(x);
                assert(v.deep_view() =~= Seq::<T::V>::empty().push(x.deep_view()));
                self.insert(own(k), v);
            },
        }
    }
}

/// Putting a value at the key of an entry changes that entry alone.
pub proof fn put_at_entry<A>(m: Seq<(Seq<char>, A)>, i: int, v: A)
    requires
        in_key_order(m),
        0 <= i < m.len(),
    ensures
        put(m, m[i].0, v) == m.update(i, (m[i].0, v)),
    decreases m.len(),
{
    let d = m.drop_last();
    if i == m.len() - 1 {
        assert(put(m, m[i].0, v) =~= m.update(i, (m[i].0, v)));
    } else {
        lemma_precedes_irreflexive(m[i].0);
        assert(precedes(m[i].0, m[m.len() - 1].0));
        lemma_precedes_asymmetric(m[i].0, m.last().0);
        assert(in_key_order(d)) by {
            assert forall|a: int, b: int| 0 <= a < b < d.len() implies precedes(
                (#[trigger] d[a]).0,
                (#[trigger] d[b]).0,
            ) by {
                assert(d[a] == m[a] && d[b] == m[b]);
            }
        }
        put_at_entry(d, i, v);
        assert(d[i] == m[i]);
        assert(put(m, m[i].0, v) =~= m.update(i, (m[i].0, v)));
    }
}

} // verus!
