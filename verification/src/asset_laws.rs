//! What holds of every merged list of assets.

use vstd::prelude::*;

use crate::asset::{merged, merged_by_key, values_of, with_sources, AssetView, RuntimeView, Source};
use crate::list::with_new;
use crate::order::{lemma_precedes_irreflexive, precedes};
use crate::table::{in_key_order, looked_up_is_an_entry, lookup, lookup_after_put, lookup_of_entry, put_keeps_order};

verus! {

proof fn lemma_with_sources(a: Seq<Source>, b: Seq<Source>, x: Source)
    ensures
        with_sources(a, b).contains(x) <==> a.contains(x) || b.contains(x),
    decreases b.len(),
{
    if b.len() > 0 {
        let d = b.drop_last();
        let before = with_sources(a, d);
        let all = with_sources(a, b);
        lemma_with_sources(a, d, x);
        if before.contains(x) && !before.contains(b.last()) {
            let k = choose|k: int| 0 <= k < before.len() && before[k] == x;
            assert(all[k] == x);
        }
        if x == b.last() && !before.contains(x) {
            assert(all[all.len() - 1] == x);
        }
        if b.contains(x) && x != b.last() {
            let k = choose|k: int| 0 <= k < b.len() && b[k] == x;
            assert(d[k] == x);
        }
        if d.contains(x) {
            let k = choose|k: int| 0 <= k < d.len() && d[k] == x;
            assert(b[k] == x);
        }
        assert(b[b.len() - 1] == b.last());
    }
}

/// How far the process of an asset can be reached; less than nothing where it does
/// not run.
pub open spec fn runtime_degree(r: Option<RuntimeView>) -> int {
    match r {
        Some(x) => x.reachability.degree(),
        None => -1,
    }
}

proof fn lemma_merged_keys(assets: Seq<AssetView>)
    ensures
        in_key_order(merged_by_key(assets)),
        forall|k: Seq<char>|
            match #[trigger] lookup(merged_by_key(assets), k) {
                Some(d) => d.key() == k,
                None => true,
            },
    decreases assets.len(),
{
    if assets.len() > 0 {
        let before = merged_by_key(assets.drop_last());
        let a = assets.last();
        lemma_merged_keys(assets.drop_last());
        let v = match lookup(before, a.key()) {
            Some(d) => merged(d, a),
            None => a,
        };
        put_keeps_order(before, a.key(), v);
        assert forall|k: Seq<char>|
            match #[trigger] lookup(merged_by_key(assets), k) {
                Some(d) => d.key() == k,
                None => true,
            } by {
            lookup_after_put(before, a.key(), v, k);
        }
    }
}

/// An asset that was found is in the merged list, under its key, with its sources and
/// its places, and with a process that can be reached at least as far as its own: a package
/// that backs an exposed process is reported as exposed.
pub proof fn merging_loses_nothing(assets: Seq<AssetView>, i: int)
    requires
        0 <= i < assets.len(),
    ensures
        match lookup(merged_by_key(assets), assets[i].key()) {
            Some(d) => {
                &&& d.key() == assets[i].key()
                &&& runtime_degree(assets[i].runtime) <= runtime_degree(d.runtime)
                &&& forall|s: Source| assets[i].sources.contains(s) ==> d.sources.contains(s)
                &&& forall|l: Seq<char>|
                    assets[i].locations.contains(l) ==> d.locations.contains(l)
            },
            None => false,
        },
    decreases assets.len(),
{
    let rest = assets.drop_last();
    let before = merged_by_key(rest);
    let a = assets.last();
    let v = match lookup(before, a.key()) {
        Some(d) => merged(d, a),
        None => a,
    };
    lemma_merged_keys(rest);
    lookup_after_put(before, a.key(), v, assets[i].key());
    if i < rest.len() {
        assert(rest[i] == assets[i]);
        merging_loses_nothing(rest, i);
    }
    if let Some(d) = lookup(before, a.key()) {
        assert forall|s: Source| a.sources.contains(s) || d.sources.contains(s) implies v.sources.contains(
        s,
    ) by {
            lemma_with_sources(d.sources, a.sources, s);
        }
        assert forall|l: Seq<char>|
            a.locations.contains(l) || d.locations.contains(l) implies v.locations.contains(l) by {
            lemma_with_new(d.locations, a.locations, l);
        }
    }
}

/// No two assets of a merged list have one key, and they stand in the order of
/// their keys.
pub proof fn merged_assets_have_distinct_keys(assets: Seq<AssetView>, i: int, j: int)
    requires
        0 <= i < j < merged_by_key(assets).len(),
    ensures
        precedes(
            values_of(merged_by_key(assets))[i].key(),
            values_of(merged_by_key(assets))[j].key(),
        ),
{
    let m = merged_by_key(assets);
    lemma_merged_keys(assets);
    lookup_of_entry(m, i);
    lookup_of_entry(m, j);
    assert(lookup(m, m[i].0) == Some(m[i].1));
    assert(lookup(m, m[j].0) == Some(m[j].1));
}

// ── What the assets of one key come to ───────────────────────────────────────

/// The assets with the key `k`, in their order.
pub open spec fn with_key(assets: Seq<AssetView>, k: Seq<char>) -> Seq<AssetView>
    decreases assets.len(),
{
    if assets.len() == 0 {
        assets
    } else {
        let before = with_key(assets.drop_last(), k);
        if assets.last().key() == k {
            before.push(assets.last())
        } else {
            before
        }
    }
}

/// The assets of a list, all merged into the first.
pub open spec fn merged_into_one(g: Seq<AssetView>) -> AssetView
    recommends
        g.len() > 0,
    decreases g.len(),
{
    if g.len() <= 1 {
        g[0]
    } else {
        merged(merged_into_one(g.drop_last()), g.last())
    }
}

/// A merged list has the keys of the assets that were found and no others, and at each key
/// what the assets of that key come to.
pub proof fn assets_are_merged_by_key(assets: Seq<AssetView>, k: Seq<char>)
    ensures
        lookup(merged_by_key(assets), k) == (if with_key(assets, k).len() == 0 {
            None
        } else {
            Some(merged_into_one(with_key(assets, k)))
        }),
    decreases assets.len(),
{
    if assets.len() > 0 {
        let d = assets.drop_last();
        let a = assets.last();
        let before = merged_by_key(d);
        let v = match lookup(before, a.key()) {
            Some(x) => merged(x, a),
            None => a,
        };
        assets_are_merged_by_key(d, k);
        assets_are_merged_by_key(d, a.key());
        lookup_after_put(before, a.key(), v, k);
        if a.key() == k {
            let g = with_key(assets, k);
            assert(g.drop_last() =~= with_key(d, k));
        }
    }
}

/// Whether one of the assets was found by the source.
pub open spec fn some_source(g: Seq<AssetView>, x: Source) -> bool {
    exists|i: int| 0 <= i < g.len() && (#[trigger] g[i]).sources.contains(x)
}

/// Whether one of the assets stands at the place.
pub open spec fn some_location(g: Seq<AssetView>, x: Seq<char>) -> bool {
    exists|i: int| 0 <= i < g.len() && (#[trigger] g[i]).locations.contains(x)
}

/// Whether the process of the asset `i` is the first of those that reach furthest.
pub open spec fn reaches_furthest_first(g: Seq<AssetView>, i: int) -> bool {
    &&& 0 <= i < g.len()
    &&& forall|j: int|
        0 <= j < g.len() ==> runtime_degree((#[trigger] g[j]).runtime) <= runtime_degree(
            g[i].runtime,
        )
    &&& forall|j: int|
        0 <= j < i ==> runtime_degree((#[trigger] g[j]).runtime) < runtime_degree(g[i].runtime)
}

proof fn lemma_with_new(a: Seq<Seq<char>>, b: Seq<Seq<char>>, x: Seq<char>)
    ensures
        with_new(a, b).contains(x) <==> a.contains(x) || b.contains(x),
    decreases b.len(),
{
    if b.len() > 0 {
        let d = b.drop_last();
        let before = with_new(a, d);
        let all = with_new(a, b);
        lemma_with_new(a, d, x);
        if before.contains(x) && !before.contains(b.last()) {
            let k = choose|k: int| 0 <= k < before.len() && before[k] == x;
            assert(all[k] == x);
        }
        if x == b.last() && !before.contains(x) {
            assert(all[all.len() - 1] == x);
        }
        if b.contains(x) && x != b.last() {
            let k = choose|k: int| 0 <= k < b.len() && b[k] == x;
            assert(d[k] == x);
        }
        if d.contains(x) {
            let k = choose|k: int| 0 <= k < d.len() && d[k] == x;
            assert(b[k] == x);
        }
        assert(b[b.len() - 1] == b.last());
    }
}

/// Assets that are merged have the sources and the places of all of them and no others.
pub proof fn merging_unites_sources_and_places(g: Seq<AssetView>, s: Source, l: Seq<char>)
    requires
        g.len() > 0,
    ensures
        merged_into_one(g).sources.contains(s) <==> some_source(g, s),
        merged_into_one(g).locations.contains(l) <==> some_location(g, l),
    decreases g.len(),
{
    let last = g[g.len() - 1];
    if g.len() == 1 {
        if last.sources.contains(s) {
            assert(some_source(g, s));
        }
        if last.locations.contains(l) {
            assert(some_location(g, l));
        }
    } else {
        let d = g.drop_last();
        let m = merged_into_one(d);
        merging_unites_sources_and_places(d, s, l);
        lemma_with_sources(m.sources, last.sources, s);
        lemma_with_new(m.locations, last.locations, l);
        if some_source(d, s) {
            let i = choose|i: int| 0 <= i < d.len() && (#[trigger] d[i]).sources.contains(s);
            assert(g[i].sources.contains(s));
        }
        if some_source(g, s) && !last.sources.contains(s) {
            let i = choose|i: int| 0 <= i < g.len() && (#[trigger] g[i]).sources.contains(s);
            assert(d[i].sources.contains(s));
        }
        if some_location(d, l) {
            let i = choose|i: int| 0 <= i < d.len() && (#[trigger] d[i]).locations.contains(l);
            assert(g[i].locations.contains(l));
        }
        if some_location(g, l) && !last.locations.contains(l) {
            let i = choose|i: int| 0 <= i < g.len() && (#[trigger] g[i]).locations.contains(l);
            assert(d[i].locations.contains(l));
        }
    }
}

/// Assets that are merged have the process of the first of them that reaches furthest, and
/// none only where none of them has one; in all else they are as the first of them.
pub proof fn merging_keeps_the_richest_process(g: Seq<AssetView>)
    requires
        g.len() > 0,
    ensures
        exists|i: int|
            #[trigger] reaches_furthest_first(g, i) && merged_into_one(g).runtime == g[i].runtime,
        merged_into_one(g).runtime is None <==> (forall|j: int|
            0 <= j < g.len() ==> (#[trigger] g[j]).runtime is None),
        merged_into_one(g).ecosystem == g[0].ecosystem,
        merged_into_one(g).name == g[0].name,
        merged_into_one(g).pkg_name == g[0].pkg_name,
        merged_into_one(g).version == g[0].version,
        merged_into_one(g).cpe == g[0].cpe,
    decreases g.len(),
{
    let m = merged_into_one(g);
    if g.len() == 1 {
        assert(reaches_furthest_first(g, 0));
    } else {
        let d = g.drop_last();
        let last = g[g.len() - 1];
        merging_keeps_the_richest_process(d);
        let i = choose|i: int|
            #[trigger] reaches_furthest_first(d, i) && merged_into_one(d).runtime == d[i].runtime;
        assert(d[i] == g[i]);
        assert forall|j: int| 0 <= j < d.len() implies runtime_degree((#[trigger] g[j]).runtime)
            <= runtime_degree(d[i].runtime) by {
            assert(d[j] == g[j]);
        }
        assert forall|j: int| 0 <= j < i implies runtime_degree((#[trigger] g[j]).runtime)
            < runtime_degree(d[i].runtime) by {
            assert(d[j] == g[j]);
        }
        if runtime_degree(last.runtime) > runtime_degree(d[i].runtime) {
            assert(reaches_furthest_first(g, g.len() - 1));
        } else {
            assert(reaches_furthest_first(g, i));
        }
    }
    let i = choose|i: int| #[trigger] reaches_furthest_first(g, i) && m.runtime == g[i].runtime;
    if m.runtime is None {
        assert forall|j: int| 0 <= j < g.len() implies (#[trigger] g[j]).runtime is None by {
            assert(runtime_degree(g[j].runtime) <= runtime_degree(g[i].runtime));
        }
    }
}

// ── Merging twice ────────────────────────────────────────────────────────────

/// Whether the keys of the assets are in order, and none stands twice.
pub open spec fn in_order_of_keys(vs: Seq<AssetView>) -> bool {
    forall|i: int, j: int|
        0 <= i < j < vs.len() ==> precedes((#[trigger] vs[i]).key(), (#[trigger] vs[j]).key())
}

/// Assets whose keys are in order are a merged list as they stand.
pub proof fn assets_in_order_stay(vs: Seq<AssetView>)
    requires
        in_order_of_keys(vs),
    ensures
        merged_by_key(vs) == Seq::new(vs.len(), |i: int| (vs[i].key(), vs[i])),
    decreases vs.len(),
{
    let all = Seq::new(vs.len(), |i: int| (vs[i].key(), vs[i]));
    if vs.len() > 0 {
        let d = vs.drop_last();
        let a = vs.last();
        assert(in_order_of_keys(d)) by {
            assert forall|i: int, j: int| 0 <= i < j < d.len() implies precedes(
                (#[trigger] d[i]).key(),
                (#[trigger] d[j]).key(),
            ) by {
                assert(d[i] == vs[i] && d[j] == vs[j]);
            }
        }
        assets_in_order_stay(d);
        let before = merged_by_key(d);
        if lookup(before, a.key()) is Some {
            looked_up_is_an_entry(before, a.key());
            let i = choose|i: int|
                0 <= i < before.len() && #[trigger] before[i] == (
                    a.key(),
                    lookup(before, a.key())->0,
                );
            assert(precedes(vs[i].key(), vs[vs.len() - 1].key()));
            lemma_precedes_irreflexive(a.key());
        }
        if d.len() > 0 {
            assert(precedes(vs[d.len() - 1].key(), vs[vs.len() - 1].key()));
            lemma_precedes_irreflexive(a.key());
        }
        assert(merged_by_key(vs) =~= all);
    } else {
        assert(merged_by_key(vs) =~= all);
    }
}

/// Merging a merged list changes nothing.
pub proof fn merging_twice_changes_nothing(assets: Seq<AssetView>)
    ensures
        values_of(merged_by_key(values_of(merged_by_key(assets)))) == values_of(
            merged_by_key(assets),
        ),
{
    let vs = values_of(merged_by_key(assets));
    assert(in_order_of_keys(vs)) by {
        assert forall|i: int, j: int| 0 <= i < j < vs.len() implies precedes(
            (#[trigger] vs[i]).key(),
            (#[trigger] vs[j]).key(),
        ) by {
            merged_assets_have_distinct_keys(assets, i, j);
        }
    }
    assets_in_order_stay(vs);
    assert(values_of(merged_by_key(vs)) =~= vs);
}

} // verus!
