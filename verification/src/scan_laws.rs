//! What holds of every scan: nothing that was found is lost, nothing else is reported,
//! and a failure never reads as a clean host.

use vstd::prelude::*;

use crate::api::{hit_entry, rank_of, record_entry, risk_of, MatchHitView, ThreatEntry, ThreatEntryView};
use crate::asset::AssetView;
use crate::gate::{no_severity_passes_an_exploited_finding, some_finding_fails, FailOn};
use crate::host::OsTypeView;
use crate::http::{error_text, ThreatErrorView};
use crate::json::JsonView;
use crate::order::{lemma_precedes_irreflexive, precedes, ranked, ranked_is_in_order, ranked_is_permutation, Ranked};
use crate::purl::asset_query;
use crate::report::AssetInfoView;
use crate::risk::outranks;
use crate::scan::{
    after_searches, answered, bucket, finished, first_per_cve, found_by_queries, has_cve, is_kept, is_refusal,
    kept_records, outcome_of, plan_of, searched, with_entries, with_entries_for, with_hits, Buckets, Found,
    ScanPlanView, SearchState, SearchedView,
};
use crate::table::{in_key_order, looked_up_is_an_entry, lookup, lookup_after_put, put, put_behind, values_at};

verus! {

proof fn lemma_first_member(es: Seq<ThreatEntryView>, k: int)
    requires
        0 <= k < first_per_cve(es).len(),
    ensures
        exists|q: int| 0 <= q < es.len() && first_per_cve(es)[k] == #[trigger] es[q],
    decreases es.len(),
{
    let d = es.drop_last();
    let before = first_per_cve(d);
    if k < before.len() {
        lemma_first_member(d, k);
        let q = choose|q: int| 0 <= q < d.len() && before[k] == #[trigger] d[q];
        assert(es[q] == d[q]);
    } else {
        assert(es[es.len() - 1] == es.last());
    }
}

proof fn lemma_first_of_cve(es: Seq<ThreatEntryView>, p: int)
    requires
        0 <= p < es.len(),
    ensures
        exists|k: int, q: int|
            0 <= k < first_per_cve(es).len() && 0 <= q <= p && #[trigger] first_per_cve(es)[k]
                == #[trigger] es[q] && es[q].cve_id == es[p].cve_id && (es[p].cve_id is None ==> q
                == p),
    decreases es.len(),
{
    let d = es.drop_last();
    let before = first_per_cve(d);
    let all = first_per_cve(es);
    if p < d.len() {
        lemma_first_of_cve(d, p);
        let (k, q) = choose|k: int, q: int|
            0 <= k < before.len() && 0 <= q <= p && #[trigger] before[k] == #[trigger] d[q]
                && d[q].cve_id == d[p].cve_id && (d[p].cve_id is None ==> q == p);
        assert(all[k] == before[k]);
        assert(es[q] == d[q] && es[p] == d[p]);
    } else {
        let e = es.last();
        if e.cve_id is Some && has_cve(before, e.cve_id->0) {
            let k = choose|k: int| 0 <= k < before.len() && (#[trigger] before[k]).cve_id == e.cve_id;
            lemma_first_member(d, k);
            let q = choose|q: int| 0 <= q < d.len() && before[k] == #[trigger] d[q];
            assert(es[q] == d[q]);
            assert(all[k] == es[q]);
        } else {
            assert(all[all.len() - 1] == es[p]);
        }
    }
}

/// Among the findings of an asset no CVE stands twice.
pub proof fn no_cve_stands_twice(es: Seq<ThreatEntryView>, i: int, j: int)
    requires
        0 <= i < j < first_per_cve(es).len(),
        first_per_cve(es)[i].cve_id is Some,
    ensures
        first_per_cve(es)[i].cve_id != first_per_cve(es)[j].cve_id,
    decreases es.len(),
{
    let before = first_per_cve(es.drop_last());
    if j < before.len() {
        no_cve_stands_twice(es.drop_last(), i, j);
    } else if before[i].cve_id == es.last().cve_id {
        assert(has_cve(before, es.last().cve_id->0));
    }
}

/// For every finding of an asset, one of its CVE is reported that is no lower a
/// risk; a finding without a CVE is reported itself.
pub proof fn highest_risk_of_each_cve_is_reported(es: Seq<ThreatEntryView>, i: int)
    requires
        0 <= i < es.len(),
    ensures
        exists|k: int|
            0 <= k < bucket(es).len() && (#[trigger] bucket(es)[k]).cve_id == es[i].cve_id && !outranks(
                risk_of(es[i]),
                risk_of(bucket(es)[k]),
            ),
        es[i].cve_id is None ==> bucket(es).contains(es[i]),
{
    broadcast use vstd::seq_lib::group_to_multiset_ensures;

    let r = ranked::<ThreatEntry>(es);
    ranked_is_in_order::<ThreatEntry>(es);
    ranked_is_permutation::<ThreatEntry>(es);
    assert(es.contains(es[i]));
    assert(r.to_multiset().count(es[i]) > 0);
    assert(r.contains(es[i]));
    let p = choose|p: int| 0 <= p < r.len() && r[p] == es[i];
    lemma_first_of_cve(r, p);
    let (k, q) = choose|k: int, q: int|
        0 <= k < first_per_cve(r).len() && 0 <= q <= p && #[trigger] first_per_cve(r)[k]
            == #[trigger] r[q] && r[q].cve_id == r[p].cve_id && (r[p].cve_id is None ==> q == p);
    assert(bucket(es)[k] == r[q]);
    if q < p {
        assert(!<ThreatEntry as Ranked>::before(r[p], r[q]));
    } else {
        <ThreatEntry as Ranked>::rank_is_order(r[p], r[p], r[p]);
    }
}

/// Whether a finding is among those of an asset.
pub open spec fn holds(m: Buckets, key: Seq<char>, e: ThreatEntryView) -> bool {
    values_at(m, key).contains(e)
}

proof fn lemma_put_behind_holds(m: Buckets, k: Seq<char>, x: ThreatEntryView)
    ensures
        holds(put_behind(m, k, x), k, x),
        forall|key: Seq<char>, e: ThreatEntryView|
            holds(m, key, e) ==> #[trigger] holds(put_behind(m, k, x), key, e),
{
    let v = values_at(m, k).push(x);
    lookup_after_put(m, k, v, k);
    assert(v[v.len() - 1] == x);
    assert forall|key: Seq<char>, e: ThreatEntryView| holds(m, key, e) implies #[trigger] holds(
        put_behind(m, k, x),
        key,
        e,
    ) by {
        lookup_after_put(m, k, v, key);
        if key == k {
            let before = values_at(m, k);
            let i = choose|i: int| 0 <= i < before.len() && before[i] == e;
            assert(v[i] == e);
        }
    }
}

/// Whether all that `a` holds is held by `b` too.
spec fn grows(a: Buckets, b: Buckets) -> bool {
    forall|key: Seq<char>, e: ThreatEntryView| holds(a, key, e) ==> #[trigger] holds(b, key, e)
}

proof fn lemma_hits_grow(f: Found, key: Seq<char>, hits: Seq<MatchHitView>, floor: u8)
    ensures
        grows(f.confirmed, with_hits(f, key, hits, floor).confirmed),
        grows(f.unconfirmed, with_hits(f, key, hits, floor).unconfirmed),
    decreases hits.len(),
{
    if hits.len() > 0 {
        let g = with_hits(f, key, hits.drop_last(), floor);
        lemma_hits_grow(f, key, hits.drop_last(), floor);
        let e = hit_entry(hits.last());
        lemma_put_behind_holds(g.confirmed, key, e);
        lemma_put_behind_holds(g.unconfirmed, key, e);
    }
}

/// The findings of one kind.
spec fn side(f: Found, confirmed: bool) -> Buckets {
    if confirmed {
        f.confirmed
    } else {
        f.unconfirmed
    }
}

proof fn lemma_hit_is_held(f: Found, key: Seq<char>, hits: Seq<MatchHitView>, floor: u8, h: int)
    requires
        0 <= h < hits.len(),
        is_kept(hit_entry(hits[h]), floor),
    ensures
        holds(
            side(with_hits(f, key, hits, floor), hit_entry(hits[h]).confirmed),
            key,
            hit_entry(hits[h]),
        ),
    decreases hits.len(),
{
    let d = hits.drop_last();
    let g = with_hits(f, key, d, floor);
    let e = hit_entry(hits.last());
    lemma_put_behind_holds(g.confirmed, key, e);
    lemma_put_behind_holds(g.unconfirmed, key, e);
    if h < d.len() {
        assert(d[h] == hits[h]);
        lemma_hit_is_held(f, key, d, floor, h);
    }
}

proof fn lemma_query_is_held(
    keys: Seq<Seq<char>>,
    answers: Seq<Seq<MatchHitView>>,
    floor: u8,
    n: nat,
    i: int,
    h: int,
)
    requires
        0 <= i < n,
        0 <= h < answers[i].len(),
        is_kept(hit_entry(answers[i][h]), floor),
    ensures
        holds(
            side(
                found_by_queries(keys, answers, floor, n),
                hit_entry(answers[i][h]).confirmed,
            ),
            keys[i],
            hit_entry(answers[i][h]),
        ),
    decreases n,
{
    let f = found_by_queries(keys, answers, floor, (n - 1) as nat);
    if i == n - 1 {
        lemma_hit_is_held(f, keys[i], answers[i], floor, h);
    } else {
        lemma_query_is_held(keys, answers, floor, (n - 1) as nat, i, h);
        lemma_hits_grow(f, keys[n - 1], answers[n - 1], floor);
    }
}

proof fn lemma_entries_grow(m: Buckets, key: Seq<char>, es: Seq<ThreatEntryView>)
    ensures
        grows(m, with_entries(m, key, es)),
    decreases es.len(),
{
    if es.len() > 0 {
        lemma_entries_grow(m, key, es.drop_last());
        lemma_put_behind_holds(with_entries(m, key, es.drop_last()), key, es.last());
    }
}

proof fn lemma_entries_for_grow(m: Buckets, keys: Seq<Seq<char>>, es: Seq<ThreatEntryView>)
    ensures
        grows(m, with_entries_for(m, keys, es)),
    decreases keys.len(),
{
    if keys.len() > 0 {
        lemma_entries_for_grow(m, keys.drop_last(), es);
        lemma_entries_grow(with_entries_for(m, keys.drop_last(), es), keys.last(), es);
    }
}

proof fn lemma_searches_grow(
    start: Buckets,
    fallback: Seq<(Seq<char>, Seq<Seq<char>>)>,
    replies: Seq<SearchedView>,
    floor: u8,
    n: nat,
)
    ensures
        match after_searches(start, fallback, replies, floor, n) {
            SearchState::Going { unconfirmed, .. } => grows(start, unconfirmed),
            SearchState::Refused(_) => true,
        },
    decreases n,
{
    if n > 0 {
        lemma_searches_grow(start, fallback, replies, floor, (n - 1) as nat);
        match after_searches(start, fallback, replies, floor, (n - 1) as nat) {
            SearchState::Going { unconfirmed, .. } => match replies[n - 1] {
                Ok(records) => {
                    lemma_entries_for_grow(
                        unconfirmed,
                        fallback[n - 1].1,
                        kept_records(records, floor),
                    );
                },
                Err(_) => {},
            },
            SearchState::Refused(_) => {},
        }
    }
}

proof fn lemma_finished_lookup(m: Buckets, key: Seq<char>)
    ensures
        match lookup(m, key) {
            Some(v) => lookup(finished(m), key) == Some(bucket(v)),
            None => lookup(finished(m), key) is None,
        },
    decreases m.len(),
{
    if m.len() > 0 {
        assert(finished(m).drop_last() =~= finished(m.drop_last()));
        lemma_finished_lookup(m.drop_last(), key);
    }
}

/// Whether the findings hold one of the same CVE that is no lower a risk, and that
/// is known to be exploited where `e` is.
pub open spec fn stands_for(b: Seq<ThreatEntryView>, e: ThreatEntryView) -> bool {
    exists|k: int|
        0 <= k < b.len() && (#[trigger] b[k]).cve_id == e.cve_id && !outranks(
            risk_of(e),
            risk_of(b[k]),
        ) && (e.kev ==> b[k].kev)
}

proof fn lemma_held_is_reported(m: Buckets, key: Seq<char>, e: ThreatEntryView)
    requires
        holds(m, key, e),
    ensures
        lookup(finished(m), key) matches Some(b) && stands_for(b, e),
{
    let v = values_at(m, key);
    let p = choose|p: int| 0 <= p < v.len() && v[p] == e;
    lemma_finished_lookup(m, key);
    highest_risk_of_each_cve_is_reported(v, p);
    let b = bucket(v);
    let k = choose|k: int|
        0 <= k < b.len() && (#[trigger] b[k]).cve_id == v[p].cve_id && !outranks(
            risk_of(v[p]),
            risk_of(b[k]),
        );
    assert(lookup(finished(m), key) == Some(b));
    assert(b[k].cve_id == e.cve_id && !outranks(risk_of(e), risk_of(b[k])) && (e.kev
        ==> b[k].kev));
    assert(stands_for(b, e));
}

/// A hit that is known to be exploited, or whose severity is at the floor, is
/// reported for its asset, with the confirmed findings or with the others: the
/// report has for that asset a finding of the same CVE that is no lower a risk, and
/// that is known to be exploited where the hit is. No floor hides an exploited one.
pub proof fn kept_hits_are_reported(
    plan: ScanPlanView,
    answers: Seq<Seq<MatchHitView>>,
    replies: Seq<SearchedView>,
    floor: u8,
    i: int,
    h: int,
)
    requires
        0 <= i < answered(plan.query_keys, answers),
        0 <= h < answers[i].len(),
        hit_entry(answers[i][h]).kev || rank_of(hit_entry(answers[i][h]).severity) >= floor,
    ensures
        match outcome_of(plan, answers, replies, floor) {
            Ok((confirmed, unconfirmed, errors)) => {
                let e = hit_entry(answers[i][h]);
                let m = if e.confirmed {
                    confirmed
                } else {
                    unconfirmed
                };
                lookup(m, plan.query_keys[i]) matches Some(b) && stands_for(b, e)
            },
            Err(_) => true,
        },
{
    let n = answered(plan.query_keys, answers);
    let f = found_by_queries(plan.query_keys, answers, floor, n);
    let e = hit_entry(answers[i][h]);
    lemma_query_is_held(plan.query_keys, answers, floor, n, i, h);
    let s = searched(plan.fallback, replies);
    lemma_searches_grow(f.unconfirmed, plan.fallback, replies, floor, s);
    match after_searches(f.unconfirmed, plan.fallback, replies, floor, s) {
        SearchState::Going { unconfirmed, .. } => {
            if e.confirmed {
                lemma_held_is_reported(f.confirmed, plan.query_keys[i], e);
            } else {
                assert(holds(unconfirmed, plan.query_keys[i], e));
                lemma_held_is_reported(unconfirmed, plan.query_keys[i], e);
            }
        },
        SearchState::Refused(_) => {},
    }
}

/// A confirmed hit that is known to be exploited fails a run on exploited findings and one
/// on any finding, whatever the severity floor is.
pub proof fn no_floor_hides_an_exploited_hit(
    plan: ScanPlanView,
    answers: Seq<Seq<MatchHitView>>,
    replies: Seq<SearchedView>,
    floor: u8,
    assets: Seq<(Seq<char>, AssetInfoView)>,
    i: int,
    h: int,
)
    requires
        0 <= i < answered(plan.query_keys, answers),
        0 <= h < answers[i].len(),
        hit_entry(answers[i][h]).kev,
        hit_entry(answers[i][h]).confirmed,
    ensures
        match outcome_of(plan, answers, replies, floor) {
            Ok((confirmed, _, _)) => some_finding_fails(confirmed, assets, FailOn::Kev)
                && some_finding_fails(confirmed, assets, FailOn::Any),
            Err(_) => true,
        },
{
    kept_hits_are_reported(plan, answers, replies, floor, i, h);
    if let Ok((confirmed, _, _)) = outcome_of(plan, answers, replies, floor) {
        let e = hit_entry(answers[i][h]);
        let key = plan.query_keys[i];
        looked_up_is_an_entry(confirmed, key);
        let b = lookup(confirmed, key)->0;
        let p = choose|p: int| 0 <= p < confirmed.len() && #[trigger] confirmed[p] == (key, b);
        let k = choose|k: int|
            0 <= k < b.len() && (#[trigger] b[k]).cve_id == e.cve_id && !outranks(
                risk_of(e),
                risk_of(b[k]),
            ) && (e.kev ==> b[k].kev);
        assert(confirmed[p].1[k].kev);
        no_severity_passes_an_exploited_finding(confirmed, assets, p, k);
    }
}

proof fn lemma_record_is_kept(records: Seq<JsonView>, floor: u8, r: int)
    requires
        0 <= r < records.len(),
        is_kept(record_entry(records[r]), floor),
    ensures
        kept_records(records, floor).contains(record_entry(records[r])),
    decreases records.len(),
{
    let d = records.drop_last();
    let before = kept_records(d, floor);
    let after = kept_records(records, floor);
    let e = record_entry(records[r]);
    if r < d.len() {
        assert(d[r] == records[r]);
        lemma_record_is_kept(d, floor, r);
        let k = choose|k: int| 0 <= k < before.len() && before[k] == e;
        assert(after[k] == e);
    } else {
        assert(after[after.len() - 1] == e);
    }
}

proof fn lemma_entry_is_held(m: Buckets, key: Seq<char>, es: Seq<ThreatEntryView>, k: int)
    requires
        0 <= k < es.len(),
    ensures
        holds(with_entries(m, key, es), key, es[k]),
    decreases es.len(),
{
    let d = es.drop_last();
    lemma_put_behind_holds(with_entries(m, key, d), key, es.last());
    if k < d.len() {
        assert(d[k] == es[k]);
        lemma_entry_is_held(m, key, d, k);
    }
}

proof fn lemma_entry_is_held_for(
    m: Buckets,
    keys: Seq<Seq<char>>,
    es: Seq<ThreatEntryView>,
    a: int,
    k: int,
)
    requires
        0 <= a < keys.len(),
        0 <= k < es.len(),
    ensures
        holds(with_entries_for(m, keys, es), keys[a], es[k]),
    decreases keys.len(),
{
    let d = keys.drop_last();
    let before = with_entries_for(m, d, es);
    if a < d.len() {
        assert(d[a] == keys[a]);
        lemma_entry_is_held_for(m, d, es, a, k);
        lemma_entries_grow(before, keys.last(), es);
    } else {
        lemma_entry_is_held(before, keys.last(), es, k);
    }
}

proof fn lemma_record_is_held(
    start: Buckets,
    fallback: Seq<(Seq<char>, Seq<Seq<char>>)>,
    replies: Seq<SearchedView>,
    floor: u8,
    n: nat,
    i: int,
    a: int,
    r: int,
)
    requires
        0 <= i < n,
        0 <= a < fallback[i].1.len(),
        replies[i] is Ok,
        0 <= r < replies[i]->Ok_0.len(),
        is_kept(record_entry(replies[i]->Ok_0[r]), floor),
    ensures
        match after_searches(start, fallback, replies, floor, n) {
            SearchState::Going { unconfirmed, .. } => holds(
                unconfirmed,
                fallback[i].1[a],
                record_entry(replies[i]->Ok_0[r]),
            ),
            SearchState::Refused(_) => true,
        },
    decreases n,
{
    match after_searches(start, fallback, replies, floor, (n - 1) as nat) {
        SearchState::Going { unconfirmed, .. } => {
            if i == n - 1 {
                let records = replies[i]->Ok_0;
                let es = kept_records(records, floor);
                lemma_record_is_kept(records, floor, r);
                let k = choose|k: int| 0 <= k < es.len() && es[k] == record_entry(records[r]);
                lemma_entry_is_held_for(unconfirmed, fallback[i].1, es, a, k);
            } else {
                lemma_record_is_held(start, fallback, replies, floor, (n - 1) as nat, i, a, r);
                if let Ok(records) = replies[n - 1] {
                    lemma_entries_for_grow(
                        unconfirmed,
                        fallback[n - 1].1,
                        kept_records(records, floor),
                    );
                }
            }
        },
        SearchState::Refused(_) => {},
    }
}

/// A record that a search found is reported, if it is known to be exploited or its
/// severity is at the floor: every asset that was searched for by that name has, among
/// the findings that are not confirmed, one of the same CVE that is no lower a risk.
pub proof fn kept_records_are_reported(
    plan: ScanPlanView,
    answers: Seq<Seq<MatchHitView>>,
    replies: Seq<SearchedView>,
    floor: u8,
    i: int,
    a: int,
    r: int,
)
    requires
        0 <= i < searched(plan.fallback, replies),
        0 <= a < plan.fallback[i].1.len(),
        replies[i] is Ok,
        0 <= r < replies[i]->Ok_0.len(),
        is_kept(record_entry(replies[i]->Ok_0[r]), floor),
    ensures
        match outcome_of(plan, answers, replies, floor) {
            Ok((_, unconfirmed, _)) => lookup(unconfirmed, plan.fallback[i].1[a]) matches Some(b)
                && stands_for(b, record_entry(replies[i]->Ok_0[r])),
            Err(_) => true,
        },
{
    let n = answered(plan.query_keys, answers);
    let f = found_by_queries(plan.query_keys, answers, floor, n);
    let s = searched(plan.fallback, replies);
    let e = record_entry(replies[i]->Ok_0[r]);
    lemma_record_is_held(f.unconfirmed, plan.fallback, replies, floor, s, i, a, r);
    match after_searches(f.unconfirmed, plan.fallback, replies, floor, s) {
        SearchState::Going { unconfirmed, .. } => {
            lemma_held_is_reported(unconfirmed, plan.fallback[i].1[a], e);
        },
        SearchState::Refused(_) => {},
    }
}

/// Whether the buckets hold only findings that are kept, and of one kind.
pub open spec fn holds_only(m: Buckets, floor: u8, confirmed: bool) -> bool {
    forall|key: Seq<char>, e: ThreatEntryView| #[trigger]
        holds(m, key, e) ==> is_kept(e, floor) && e.confirmed == confirmed
}

proof fn lemma_put_behind_only(m: Buckets, k: Seq<char>, x: ThreatEntryView, floor: u8, confirmed: bool)
    requires
        holds_only(m, floor, confirmed),
        is_kept(x, floor),
        x.confirmed == confirmed,
    ensures
        holds_only(put_behind(m, k, x), floor, confirmed),
{
    let v = values_at(m, k).push(x);
    assert forall|key: Seq<char>, e: ThreatEntryView| #[trigger]
        holds(put_behind(m, k, x), key, e) implies is_kept(e, floor) && e.confirmed == confirmed by {
        lookup_after_put(m, k, v, key);
        if key == k {
            let i = choose|i: int| 0 <= i < v.len() && v[i] == e;
            if i < v.len() - 1 {
                assert(values_at(m, k)[i] == e);
                assert(holds(m, k, e));
            }
        } else {
            assert(holds(m, key, e));
        }
    }
}

proof fn lemma_hits_only(f: Found, key: Seq<char>, hits: Seq<MatchHitView>, floor: u8)
    requires
        holds_only(f.confirmed, floor, true),
        holds_only(f.unconfirmed, floor, false),
    ensures
        holds_only(with_hits(f, key, hits, floor).confirmed, floor, true),
        holds_only(with_hits(f, key, hits, floor).unconfirmed, floor, false),
    decreases hits.len(),
{
    if hits.len() > 0 {
        lemma_hits_only(f, key, hits.drop_last(), floor);
        let g = with_hits(f, key, hits.drop_last(), floor);
        let e = hit_entry(hits.last());
        if is_kept(e, floor) {
            if e.confirmed {
                lemma_put_behind_only(g.confirmed, key, e, floor, true);
            } else {
                lemma_put_behind_only(g.unconfirmed, key, e, floor, false);
            }
        }
    }
}

proof fn lemma_queries_only(
    keys: Seq<Seq<char>>,
    answers: Seq<Seq<MatchHitView>>,
    floor: u8,
    n: nat,
)
    ensures
        holds_only(found_by_queries(keys, answers, floor, n).confirmed, floor, true),
        holds_only(found_by_queries(keys, answers, floor, n).unconfirmed, floor, false),
    decreases n,
{
    if n > 0 {
        lemma_queries_only(keys, answers, floor, (n - 1) as nat);
        lemma_hits_only(
            found_by_queries(keys, answers, floor, (n - 1) as nat),
            keys[n - 1],
            answers[n - 1],
            floor,
        );
    }
}

/// Whether findings of a search may be reported.
spec fn all_kept(es: Seq<ThreatEntryView>, floor: u8) -> bool {
    forall|i: int| 0 <= i < es.len() ==> is_kept(#[trigger] es[i], floor) && !es[i].confirmed
}

proof fn lemma_records_kept(records: Seq<JsonView>, floor: u8)
    ensures
        all_kept(kept_records(records, floor), floor),
    decreases records.len(),
{
    if records.len() > 0 {
        lemma_records_kept(records.drop_last(), floor);
    }
}

proof fn lemma_entries_only(m: Buckets, key: Seq<char>, es: Seq<ThreatEntryView>, floor: u8)
    requires
        holds_only(m, floor, false),
        all_kept(es, floor),
    ensures
        holds_only(with_entries(m, key, es), floor, false),
    decreases es.len(),
{
    if es.len() > 0 {
        let d = es.drop_last();
        assert forall|i: int| 0 <= i < d.len() implies is_kept(#[trigger] d[i], floor)
            && !d[i].confirmed by {
            assert(d[i] == es[i]);
        }
        lemma_entries_only(m, key, d, floor);
        assert(es.last() == es[es.len() - 1]);
        lemma_put_behind_only(with_entries(m, key, d), key, es.last(), floor, false);
    }
}

proof fn lemma_entries_for_only(
    m: Buckets,
    keys: Seq<Seq<char>>,
    es: Seq<ThreatEntryView>,
    floor: u8,
)
    requires
        holds_only(m, floor, false),
        all_kept(es, floor),
    ensures
        holds_only(with_entries_for(m, keys, es), floor, false),
    decreases keys.len(),
{
    if keys.len() > 0 {
        lemma_entries_for_only(m, keys.drop_last(), es, floor);
        lemma_entries_only(with_entries_for(m, keys.drop_last(), es), keys.last(), es, floor);
    }
}

proof fn lemma_searches_only(
    start: Buckets,
    fallback: Seq<(Seq<char>, Seq<Seq<char>>)>,
    replies: Seq<SearchedView>,
    floor: u8,
    n: nat,
)
    requires
        holds_only(start, floor, false),
    ensures
        match after_searches(start, fallback, replies, floor, n) {
            SearchState::Going { unconfirmed, .. } => holds_only(unconfirmed, floor, false),
            SearchState::Refused(_) => true,
        },
    decreases n,
{
    if n > 0 {
        lemma_searches_only(start, fallback, replies, floor, (n - 1) as nat);
        match after_searches(start, fallback, replies, floor, (n - 1) as nat) {
            SearchState::Going { unconfirmed, .. } => match replies[n - 1] {
                Ok(records) => {
                    lemma_records_kept(records, floor);
                    lemma_entries_for_only(
                        unconfirmed,
                        fallback[n - 1].1,
                        kept_records(records, floor),
                        floor,
                    );
                },
                Err(_) => {},
            },
            SearchState::Refused(_) => {},
        }
    }
}

proof fn lemma_bucket_members(es: Seq<ThreatEntryView>, e: ThreatEntryView)
    requires
        bucket(es).contains(e),
    ensures
        es.contains(e),
{
    broadcast use vstd::seq_lib::group_to_multiset_ensures;

    let r = ranked::<ThreatEntry>(es);
    ranked_is_permutation::<ThreatEntry>(es);
    let k = choose|k: int| 0 <= k < bucket(es).len() && bucket(es)[k] == e;
    lemma_first_member(r, k);
    let q = choose|q: int| 0 <= q < r.len() && first_per_cve(r)[k] == #[trigger] r[q];
    assert(r.contains(e)) by {
        assert(r[q] == e);
    }
    assert(r.to_multiset().count(e) > 0);
}

proof fn lemma_finished_only(m: Buckets, floor: u8, confirmed: bool)
    requires
        holds_only(m, floor, confirmed),
    ensures
        holds_only(finished(m), floor, confirmed),
{
    assert forall|key: Seq<char>, e: ThreatEntryView| #[trigger]
        holds(finished(m), key, e) implies is_kept(e, floor) && e.confirmed == confirmed by {
        lemma_finished_lookup(m, key);
        lemma_bucket_members(values_at(m, key), e);
        assert(holds(m, key, e));
    }
}

/// The findings that are reported as confirmed are the confirmed ones, the others
/// are not confirmed, and each of them is at the severity floor or known to be
/// exploited.
pub proof fn only_kept_findings_are_reported(
    plan: ScanPlanView,
    answers: Seq<Seq<MatchHitView>>,
    replies: Seq<SearchedView>,
    floor: u8,
)
    ensures
        match outcome_of(plan, answers, replies, floor) {
            Ok((confirmed, unconfirmed, errors)) => holds_only(confirmed, floor, true)
                && holds_only(unconfirmed, floor, false),
            Err(_) => true,
        },
{
    let n = answered(plan.query_keys, answers);
    let f = found_by_queries(plan.query_keys, answers, floor, n);
    lemma_queries_only(plan.query_keys, answers, floor, n);
    let s = searched(plan.fallback, replies);
    lemma_searches_only(f.unconfirmed, plan.fallback, replies, floor, s);
    lemma_finished_only(f.confirmed, floor, true);
    match after_searches(f.unconfirmed, plan.fallback, replies, floor, s) {
        SearchState::Going { unconfirmed, .. } => {
            lemma_finished_only(unconfirmed, floor, false);
        },
        SearchState::Refused(_) => {},
    }
}

/// The hits whose version is confirmed.
pub open spec fn confirmed_hits(hits: Seq<MatchHitView>) -> Seq<MatchHitView>
    decreases hits.len(),
{
    if hits.len() == 0 {
        hits
    } else {
        let before = confirmed_hits(hits.drop_last());
        if hit_entry(hits.last()).confirmed {
            before.push(hits.last())
        } else {
            before
        }
    }
}

proof fn lemma_confirmed_hits_decide(
    f: Found,
    g: Found,
    key: Seq<char>,
    hits: Seq<MatchHitView>,
    floor: u8,
)
    requires
        f.confirmed == g.confirmed,
    ensures
        with_hits(f, key, hits, floor).confirmed == with_hits(
            g,
            key,
            confirmed_hits(hits),
            floor,
        ).confirmed,
    decreases hits.len(),
{
    if hits.len() > 0 {
        let d = hits.drop_last();
        lemma_confirmed_hits_decide(f, g, key, d, floor);
        if hit_entry(hits.last()).confirmed {
            assert(confirmed_hits(hits).drop_last() =~= confirmed_hits(d));
        }
    }
}

proof fn lemma_confirmed_answers_decide(
    keys: Seq<Seq<char>>,
    a: Seq<Seq<MatchHitView>>,
    b: Seq<Seq<MatchHitView>>,
    floor: u8,
    n: nat,
)
    requires
        forall|i: int| 0 <= i < n ==> confirmed_hits(#[trigger] a[i]) == confirmed_hits(b[i]),
    ensures
        found_by_queries(keys, a, floor, n).confirmed == found_by_queries(
            keys,
            b,
            floor,
            n,
        ).confirmed,
    decreases n,
{
    if n > 0 {
        let m = (n - 1) as nat;
        lemma_confirmed_answers_decide(keys, a, b, floor, m);
        let f = found_by_queries(keys, a, floor, m);
        let g = found_by_queries(keys, b, floor, m);
        assert(confirmed_hits(a[n - 1]) == confirmed_hits(b[n - 1]));
        lemma_confirmed_hits_decide(f, f, keys[n - 1], a[n - 1], floor);
        lemma_confirmed_hits_decide(g, f, keys[n - 1], b[n - 1], floor);
    }
}

/// What is not confirmed decides nothing: two scans whose answers have the same confirmed
/// hits report the same confirmed findings, from which the findings are counted, grouped
/// by CVE and held against `--fail-on`, whatever the other hits and the searches are.
pub proof fn unconfirmed_hits_decide_nothing(
    plan: ScanPlanView,
    a: (Seq<Seq<MatchHitView>>, Seq<SearchedView>),
    b: (Seq<Seq<MatchHitView>>, Seq<SearchedView>),
    floor: u8,
)
    requires
        a.0.len() == b.0.len(),
        forall|i: int|
            0 <= i < a.0.len() ==> confirmed_hits(#[trigger] a.0[i]) == confirmed_hits(b.0[i]),
    ensures
        match (outcome_of(plan, a.0, a.1, floor), outcome_of(plan, b.0, b.1, floor)) {
            (Ok((x, _, _)), Ok((y, _, _))) => x == y,
            _ => true,
        },
{
    lemma_confirmed_answers_decide(
        plan.query_keys,
        a.0,
        b.0,
        floor,
        answered(plan.query_keys, a.0),
    );
}

/// Every asset is asked for: by a query with its key, or by a search for its name that
/// is for its key. There are no more queries than assets.
pub proof fn every_asset_is_asked_for(
    assets: Seq<AssetView>,
    os: OsTypeView,
    release: Option<Seq<char>>,
    i: int,
)
    requires
        0 <= i < assets.len(),
    ensures
        ({
            let p = plan_of(assets, os, release);
            match asset_query(assets[i], os, release) {
                Some(q) => exists|k: int|
                    0 <= k < p.queries.len() && k < p.query_keys.len() && #[trigger] p.queries[k] == q
                        && p.query_keys[k] == assets[i].key(),
                None => values_at(p.fallback, assets[i].coordinate()).contains(assets[i].key()),
            }
        }),
        plan_of(assets, os, release).queries.len() == plan_of(assets, os, release).query_keys.len(),
        plan_of(assets, os, release).queries.len() <= assets.len(),
    decreases assets.len(),
{
    let d = assets.drop_last();
    let p = plan_of(d, os, release);
    let all = plan_of(assets, os, release);
    let a = assets.last();
    if d.len() > 0 {
        every_asset_is_asked_for(d, os, release, 0);
    }
    if i < d.len() {
        every_asset_is_asked_for(d, os, release, i);
        assert(d[i] == assets[i]);
        match asset_query(assets[i], os, release) {
            Some(q) => {
                let k = choose|k: int|
                    0 <= k < p.queries.len() && k < p.query_keys.len() && #[trigger] p.queries[k] == q
                        && p.query_keys[k] == assets[i].key();
                assert(all.queries[k] == q && all.query_keys[k] == assets[i].key());
            },
            None => {
                if asset_query(a, os, release) is None {
                    let v = values_at(p.fallback, a.coordinate());
                    lookup_after_put(
                        p.fallback,
                        a.coordinate(),
                        v.push(a.key()),
                        assets[i].coordinate(),
                    );
                    if a.coordinate() == assets[i].coordinate() {
                        let k = choose|k: int| 0 <= k < v.len() && v[k] == assets[i].key();
                        assert(v.push(a.key())[k] == assets[i].key());
                    }
                }
            },
        }
    } else {
        match asset_query(a, os, release) {
            Some(q) => {
                assert(all.queries[p.queries.len() as int] == q);
            },
            None => {
                let v = values_at(p.fallback, a.coordinate()).push(a.key());
                lookup_after_put(p.fallback, a.coordinate(), v, a.coordinate());
                assert(v[v.len() - 1] == a.key());
            },
        }
    }
}

/// The state of the errors after the first `n` searches: those of the searches that
/// failed, each under its name.
spec fn errors_after(
    fallback: Seq<(Seq<char>, Seq<Seq<char>>)>,
    replies: Seq<SearchedView>,
    s: SearchState,
    n: nat,
) -> bool {
    match s {
        SearchState::Going { errors, .. } => forall|i: int|
            0 <= i < fallback.len() && i < replies.len() ==> lookup(
                errors,
                (#[trigger] fallback[i]).0,
            ) == (match replies[i] {
                Err(e) => if i < n {
                    Some(error_text(e))
                } else {
                    None
                },
                Ok(_) => None,
            }),
        SearchState::Refused(_) => false,
    }
}

proof fn lemma_errors_after(
    start: Buckets,
    fallback: Seq<(Seq<char>, Seq<Seq<char>>)>,
    replies: Seq<SearchedView>,
    floor: u8,
    n: nat,
)
    requires
        in_key_order(fallback),
        n <= fallback.len(),
        n <= replies.len(),
        forall|i: int| 0 <= i < n ==> !is_refusal(#[trigger] replies[i]),
    ensures
        errors_after(fallback, replies, after_searches(start, fallback, replies, floor, n), n),
    decreases n,
{
    if n > 0 {
        let m = (n - 1) as nat;
        lemma_errors_after(start, fallback, replies, floor, m);
        let before = after_searches(start, fallback, replies, floor, m);
        let errors = before->errors;
        let name = fallback[m as int].0;
        assert(!is_refusal(replies[m as int]));
        assert forall|i: int| 0 <= i < fallback.len() && i != m implies (#[trigger] fallback[i]).0
            != name by {
            lemma_precedes_irreflexive(name);
            if i < m {
                assert(precedes(fallback[i].0, fallback[m as int].0));
            } else {
                assert(precedes(fallback[m as int].0, fallback[i].0));
            }
        }
        match replies[m as int] {
            Err(e) => {
                assert forall|i: int| 0 <= i < fallback.len() && i < replies.len() implies lookup(
                    put(errors, name, error_text(e)),
                    (#[trigger] fallback[i]).0,
                ) == (match replies[i] {
                    Err(x) => if i < n {
                        Some(error_text(x))
                    } else {
                        None
                    },
                    Ok(_) => None,
                }) by {
                    lookup_after_put(errors, name, error_text(e), fallback[i].0);
                }
            },
            Ok(_) => {},
        }
    }
}

/// A search that failed is reported under its name with what it failed of, and one
/// that did not fail is not: a failure never reads as a search that found nothing.
pub proof fn failed_searches_are_reported(
    plan: ScanPlanView,
    answers: Seq<Seq<MatchHitView>>,
    replies: Seq<SearchedView>,
    floor: u8,
    i: int,
)
    requires
        in_key_order(plan.fallback),
        0 <= i < searched(plan.fallback, replies),
        forall|j: int|
            0 <= j < searched(plan.fallback, replies) ==> !is_refusal(#[trigger] replies[j]),
    ensures
        match outcome_of(plan, answers, replies, floor) {
            Ok((_, _, errors)) => lookup(errors, plan.fallback[i].0) == (match replies[i] {
                Err(e) => Some(error_text(e)),
                Ok(_) => None,
            }),
            Err(_) => false,
        },
{
    let f = found_by_queries(
        plan.query_keys,
        answers,
        floor,
        answered(plan.query_keys, answers),
    );
    lemma_errors_after(
        f.unconfirmed,
        plan.fallback,
        replies,
        floor,
        searched(plan.fallback, replies),
    );
    assert(plan.fallback[i].0 == plan.fallback[i].0);
}

proof fn lemma_refused_from(
    start: Buckets,
    fallback: Seq<(Seq<char>, Seq<Seq<char>>)>,
    replies: Seq<SearchedView>,
    floor: u8,
    i: int,
    n: nat,
)
    requires
        in_key_order(fallback),
        0 <= i < n,
        n <= fallback.len(),
        n <= replies.len(),
        is_refusal(replies[i]),
        forall|j: int| 0 <= j < i ==> !is_refusal(#[trigger] replies[j]),
    ensures
        after_searches(start, fallback, replies, floor, n) == SearchState::Refused(
            replies[i]->Err_0->RateLimitExceeded_0,
        ),
    decreases n,
{
    if i == n - 1 {
        lemma_errors_after(start, fallback, replies, floor, i as nat);
    } else {
        lemma_refused_from(start, fallback, replies, floor, i, (n - 1) as nat);
    }
}

/// The first search that is refused for the rate ends the scan, with what the server
/// said.
pub proof fn a_refused_search_ends_the_scan(
    plan: ScanPlanView,
    answers: Seq<Seq<MatchHitView>>,
    replies: Seq<SearchedView>,
    floor: u8,
    i: int,
)
    requires
        in_key_order(plan.fallback),
        0 <= i < searched(plan.fallback, replies),
        is_refusal(replies[i]),
        forall|j: int| 0 <= j < i ==> !is_refusal(#[trigger] replies[j]),
    ensures
        outcome_of(plan, answers, replies, floor) matches Err(m) && replies[i] == Err::<
            Seq<JsonView>,
            ThreatErrorView,
        >(ThreatErrorView::RateLimitExceeded(m)),
{
    let f = found_by_queries(
        plan.query_keys,
        answers,
        floor,
        answered(plan.query_keys, answers),
    );
    lemma_refused_from(
        f.unconfirmed,
        plan.fallback,
        replies,
        floor,
        i,
        searched(plan.fallback, replies),
    );
}

} // verus!
