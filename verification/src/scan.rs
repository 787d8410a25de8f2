//! Matching assets against the threats that are known.

use vstd::prelude::*;

use crate::api::{
    hit_entry, match_to_entry, rank_of, record_entry, search_to_entry, MatchHitView, MatchResult, ThreatEntry,
    ThreatEntryView,
};
use crate::asset::{Asset, AssetView};
use crate::host::{OsType, OsTypeView};
use crate::http::{error_text, ThreatError, ThreatErrorView};
use crate::json::{Json, JsonView};
use crate::list::take_first;
use crate::order::{precedes, ranked, sort_ranked};
use crate::purl::{asset_query, to_match_query};
use crate::query::{MatchQuery, MatchQueryView};
use crate::report::BatchOutcome;
use crate::table::{put, put_behind, Table};
use crate::text::{is_some_text, opt_as_str, opt_str_view, views};

verus! {

// ── What to ask for ──────────────────────────────────────────────────────────

/// What is asked for the assets: queries for those that have a coordinate, with the
/// keys of their assets, and searches by name for the others.
pub struct ScanPlan {
    pub queries: Vec<MatchQuery>,
    pub query_keys: Vec<String>,
    /// The keys of the assets that a search is for, by what is searched for.
    pub fallback: Table<Vec<String>>,
}

#[verifier::ext_equal]
pub struct ScanPlanView {
    pub queries: Seq<MatchQueryView>,
    pub query_keys: Seq<Seq<char>>,
    pub fallback: Seq<(Seq<char>, Seq<Seq<char>>)>,
}

impl DeepView for ScanPlan {
    type V = ScanPlanView;

    open spec fn deep_view(&self) -> ScanPlanView {
        ScanPlanView {
            queries: self.queries.deep_view(),
            query_keys: views(self.query_keys@),
            fallback: self.fallback.deep_view(),
        }
    }
}

impl ScanPlan {
    /// There is one key for each query.
    pub open spec fn well_formed(&self) -> bool {
        self.queries@.len() == self.query_keys@.len() && self.fallback.well_formed()
    }
}

/// What is asked for the assets, in their order.
pub open spec fn plan_of(
    assets: Seq<AssetView>,
    os: OsTypeView,
    release: Option<Seq<char>>,
) -> ScanPlanView
    decreases assets.len(),
{
    if assets.len() == 0 {
        ScanPlanView { queries: Seq::empty(), query_keys: Seq::empty(), fallback: Seq::empty() }
    } else {
        let p = plan_of(assets.drop_last(), os, release);
        let a = assets.last();
        match asset_query(a, os, release) {
            Some(q) => ScanPlanView {
                queries: p.queries.push(q),
                query_keys: p.query_keys.push(a.key()),
                fallback: p.fallback,
            },
            None => ScanPlanView {
                fallback: put_behind(p.fallback, a.coordinate(), a.key()),
                ..p
            },
        }
    }
}

/// What is asked for the assets, given the release file of the system where it
/// could be read.
pub fn plan_scan(assets: &Vec<Asset>, os: &OsType, release: Option<&str>) -> (r: ScanPlan)
    ensures
        r.well_formed(),
        r.deep_view() == plan_of(assets.deep_view(), os.deep_view(), opt_str_view(release)),
{
    let ghost all = assets.deep_view();
    let ghost o = os.deep_view();
    let ghost rel = opt_str_view(release);
    let mut queries: Vec<MatchQuery> = Vec::new();
    let mut query_keys: Vec<String> = Vec::new();
    let mut fallback: Table<Vec<String>> = Table::new();
    let mut i: usize = 0;
    assert(queries.deep_view() =~= plan_of(all.take(0), o, rel).queries);
    assert(views(query_keys@) =~= plan_of(all.take(0), o, rel).query_keys);
    while i < assets.len()
        invariant
            i <= assets@.len(),
            all == assets.deep_view(),
            o == os.deep_view(),
            rel == opt_str_view(release),
            queries@.len() == query_keys@.len(),
            fallback.well_formed(),
            queries.deep_view() == plan_of(all.take(i as int), o, rel).queries,
            views(query_keys@) == plan_of(all.take(i as int), o, rel).query_keys,
            fallback.deep_view() == plan_of(all.take(i as int), o, rel).fallback,
        decreases assets@.len() - i,
    {
        let ghost qs = queries.deep_view();
        let ghost ks = views(query_keys@);
        let a = &assets[i];
        proof {
            assert(all.take(i + 1).drop_last() =~= all.take(i as int));
            assert(all.take(i + 1).last() == a.deep_view());
        }
        let key = a.report_key();
        match to_match_query(a, os, release) {
            Some(q) => {
                queries.push(q);
                query_keys.push(key);
                assert(queries.deep_view() =~= qs.push(q.deep_view()));
                assert(views(query_keys@) =~= ks.push(key@));
            },
            None => {
                let name = a.lookup_key();
                fallback.push_at(name.as_str(), key);
            },
        }
        i += 1;
    }
    assert(all.take(all.len() as int) =~= all);
    ScanPlan { queries, query_keys, fallback }
}

// ── Findings by asset ────────────────────────────────────────────────────────

pub type Buckets = Seq<(Seq<char>, Seq<ThreatEntryView>)>;

/// Whether a finding is kept under a severity floor. One that is known to be
/// exploited always is.
pub open spec fn is_kept(e: ThreatEntryView, floor: u8) -> bool {
    e.kev || rank_of(e.severity) >= floor
}

fn keeps(e: &ThreatEntry, floor: u8) -> (r: bool)
    ensures
        r == is_kept(e.deep_view(), floor),
{
    e.kev || e.severity_rank() >= floor
}

/// The confirmed and the unconfirmed findings so far, by the keys of their assets.
pub struct Found {
    pub confirmed: Buckets,
    pub unconfirmed: Buckets,
}

/// The findings with what one hit adds to those of an asset.
pub open spec fn with_hit(f: Found, key: Seq<char>, hit: MatchHitView, floor: u8) -> Found {
    let e = hit_entry(hit);
    if !is_kept(e, floor) {
        f
    } else if e.confirmed {
        Found { confirmed: put_behind(f.confirmed, key, e), ..f }
    } else {
        Found { unconfirmed: put_behind(f.unconfirmed, key, e), ..f }
    }
}

/// The findings with what the hits of an asset add.
pub open spec fn with_hits(f: Found, key: Seq<char>, hits: Seq<MatchHitView>, floor: u8) -> Found
    decreases hits.len(),
{
    if hits.len() == 0 {
        f
    } else {
        with_hit(with_hits(f, key, hits.drop_last(), floor), key, hits.last(), floor)
    }
}

/// The findings that the answers to the first `n` queries make.
pub open spec fn found_by_queries(
    keys: Seq<Seq<char>>,
    answers: Seq<Seq<MatchHitView>>,
    floor: u8,
    n: nat,
) -> Found
    decreases n,
{
    if n == 0 {
        Found { confirmed: Seq::empty(), unconfirmed: Seq::empty() }
    } else {
        with_hits(
            found_by_queries(keys, answers, floor, (n - 1) as nat),
            keys[n - 1],
            answers[n - 1],
            floor,
        )
    }
}

/// How many queries have an answer.
pub open spec fn answered(keys: Seq<Seq<char>>, answers: Seq<Seq<MatchHitView>>) -> nat {
    if keys.len() < answers.len() {
        keys.len()
    } else {
        answers.len()
    }
}

/// The findings that the records of a search make.
pub open spec fn kept_records(records: Seq<JsonView>, floor: u8) -> Seq<ThreatEntryView>
    decreases records.len(),
{
    if records.len() == 0 {
        Seq::empty()
    } else {
        let before = kept_records(records.drop_last(), floor);
        let e = record_entry(records.last());
        if is_kept(e, floor) {
            before.push(e)
        } else {
            before
        }
    }
}

/// The buckets with the findings put behind those of one asset.
pub open spec fn with_entries(m: Buckets, key: Seq<char>, es: Seq<ThreatEntryView>) -> Buckets
    decreases es.len(),
{
    if es.len() == 0 {
        m
    } else {
        put_behind(with_entries(m, key, es.drop_last()), key, es.last())
    }
}

/// The buckets with the findings put behind those of each asset.
pub open spec fn with_entries_for(
    m: Buckets,
    keys: Seq<Seq<char>>,
    es: Seq<ThreatEntryView>,
) -> Buckets
    decreases keys.len(),
{
    if keys.len() == 0 {
        m
    } else {
        with_entries(with_entries_for(m, keys.drop_last(), es), keys.last(), es)
    }
}

/// What a search came to.
pub type Searched = Result<Vec<Json>, ThreatError>;

pub type SearchedView = Result<Seq<JsonView>, ThreatErrorView>;

pub open spec fn searched_view(s: Searched) -> SearchedView {
    match s {
        Ok(v) => Ok(v.deep_view()),
        Err(e) => Err(e.deep_view()),
    }
}

pub open spec fn searched_views(v: Seq<Searched>) -> Seq<SearchedView> {
    Seq::new(v.len(), |i: int| searched_view(v[i]))
}

/// The unconfirmed findings and the failures so far, or the refusal that ends the
/// scan.
pub enum SearchState {
    Going { unconfirmed: Buckets, errors: Seq<(Seq<char>, Seq<char>)> },
    Refused(Seq<char>),
}

/// The state after one search.
pub open spec fn after_search(
    s: SearchState,
    name: Seq<char>,
    keys: Seq<Seq<char>>,
    reply: SearchedView,
    floor: u8,
) -> SearchState {
    match s {
        SearchState::Refused(m) => s,
        SearchState::Going { unconfirmed, errors } => match reply {
            Ok(records) => SearchState::Going {
                unconfirmed: with_entries_for(unconfirmed, keys, kept_records(records, floor)),
                errors,
            },
            Err(ThreatErrorView::RateLimitExceeded(m)) => SearchState::Refused(m),
            Err(e) => SearchState::Going {
                unconfirmed,
                errors: put(errors, name, error_text(e)),
            },
        },
    }
}

/// The state after the first `n` searches.
pub open spec fn after_searches(
    start: Buckets,
    fallback: Seq<(Seq<char>, Seq<Seq<char>>)>,
    replies: Seq<SearchedView>,
    floor: u8,
    n: nat,
) -> SearchState
    decreases n,
{
    if n == 0 {
        SearchState::Going { unconfirmed: start, errors: Seq::empty() }
    } else {
        after_search(
            after_searches(start, fallback, replies, floor, (n - 1) as nat),
            fallback[n - 1].0,
            fallback[n - 1].1,
            replies[n - 1],
            floor,
        )
    }
}

/// Whether a search was refused for the rate.
pub open spec fn is_refusal(reply: SearchedView) -> bool {
    reply matches Err(ThreatErrorView::RateLimitExceeded(_))
}

/// The search that is still to be made: the next of the plan, none after a refusal.
pub open spec fn search_ahead(
    fallback: Seq<(Seq<char>, Seq<Seq<char>>)>,
    replies: Seq<SearchedView>,
) -> Option<Seq<char>> {
    if replies.len() >= fallback.len() || exists|i: int|
        0 <= i < replies.len() && is_refusal(#[trigger] replies[i]) {
        None
    } else {
        Some(fallback[replies.len() as int].0)
    }
}

/// What is still to be searched for, after the searches that `replies` answered.
pub fn next_search<'a>(plan: &'a ScanPlan, replies: &Vec<Searched>) -> (r: Option<&'a str>)
    ensures
        opt_str_view(r) == search_ahead(plan.deep_view().fallback, searched_views(replies@)),
{
    let ghost reps = searched_views(replies@);
    if replies.len() >= plan.fallback.len() {
        return None;
    }
    let mut i: usize = 0;
    while i < replies.len()
        invariant
            i <= replies@.len(),
            reps == searched_views(replies@),
            forall|k: int| 0 <= k < i ==> !is_refusal(#[trigger] reps[k]),
        decreases replies@.len() - i,
    {
        assert(reps[i as int] == searched_view(replies@[i as int]));
        if let Err(ThreatError::RateLimitExceeded(_)) = &replies[i] {
            assert(is_refusal(reps[i as int]));
            return None;
        }
        i += 1;
    }
    Some(plan.fallback.key(replies.len()).as_str())
}

/// How many searches were made.
pub open spec fn searched(
    fallback: Seq<(Seq<char>, Seq<Seq<char>>)>,
    replies: Seq<SearchedView>,
) -> nat {
    if fallback.len() < replies.len() {
        fallback.len()
    } else {
        replies.len()
    }
}

// ── One finding for each CVE ─────────────────────────────────────────────────

/// Whether one of the findings is of the CVE.
pub open spec fn has_cve(es: Seq<ThreatEntryView>, cve: Seq<char>) -> bool {
    exists|i: int| 0 <= i < es.len() && (#[trigger] es[i]).cve_id == Some(cve)
}

/// The first finding of each CVE, and every finding that has none.
pub open spec fn first_per_cve(es: Seq<ThreatEntryView>) -> Seq<ThreatEntryView>
    decreases es.len(),
{
    if es.len() == 0 {
        es
    } else {
        let before = first_per_cve(es.drop_last());
        match es.last().cve_id {
            Some(id) => if has_cve(before, id) {
                before
            } else {
                before.push(es.last())
            },
            None => before.push(es.last()),
        }
    }
}

fn holds_cve(es: &Vec<ThreatEntry>, cve: &str) -> (r: bool)
    ensures
        r == has_cve(es.deep_view(), cve@),
{
    let ghost q = es.deep_view();
    let mut i: usize = 0;
    while i < es.len()
        invariant
            i <= es@.len(),
            q == es.deep_view(),
            forall|k: int| 0 <= k < i ==> (#[trigger] q[k]).cve_id != Some(cve@),
        decreases es@.len() - i,
    {
        assert(q[i as int] == es@[i as int].deep_view());
        if is_some_text(opt_as_str(&es[i].cve_id), cve) {
            return true;
        }
        i += 1;
    }
    false
}

/// Keeps the first finding of each CVE, and every finding that has none.
pub fn dedup_by_cve(entries: &mut Vec<ThreatEntry>)
    ensures
        final(entries).deep_view() == first_per_cve(old(entries).deep_view()),
{
    let ghost all = entries.deep_view();
    let n: usize = entries.len();
    let mut out: Vec<ThreatEntry> = Vec::new();
    let mut i: usize = 0;
    assert(out.deep_view() =~= first_per_cve(all.take(0)));
    assert(entries.deep_view() =~= all.skip(0));
    while i < n
        invariant
            i <= n,
            n == all.len(),
            entries.deep_view() == all.skip(i as int),
            out.deep_view() == first_per_cve(all.take(i as int)),
        decreases n - i,
    {
        let ghost before = out.deep_view();
        assert(entries.deep_view().len() == entries@.len());
        let e = take_first(entries);
        proof {
            assert(all.skip(i as int).skip(1) =~= all.skip(i + 1));
            assert(all.take(i + 1).drop_last() =~= all.take(i as int));
            assert(all.take(i + 1).last() == e.deep_view());
        }
        let known = match &e.cve_id {
            Some(id) => holds_cve(&out, id.as_str()),
            None => false,
        };
        if !known {
            out.push(e);
            assert(out.deep_view() =~= before.push(e.deep_view()));
        }
        i += 1;
    }
    assert(all.take(n as int) =~= all);
    *entries = out;
}

/// The findings of an asset as they are reported: the highest risk first, one for
/// each CVE.
pub open spec fn bucket(es: Seq<ThreatEntryView>) -> Seq<ThreatEntryView> {
    first_per_cve(ranked::<ThreatEntry>(es))
}

/// The buckets as they are reported.
pub open spec fn finished(m: Buckets) -> Buckets {
    Seq::new(m.len(), |i: int| (m[i].0, bucket(m[i].1)))
}

fn finish(t: Table<Vec<ThreatEntry>>) -> (r: Table<Vec<ThreatEntry>>)
    requires
        t.well_formed(),
    ensures
        r.well_formed(),
        r.deep_view() == finished(t.deep_view()),
{
    let ghost m = t.deep_view();
    let mut rest = t.into_entries();
    let n: usize = rest.len();
    let mut out: Vec<(String, Vec<ThreatEntry>)> = Vec::new();
    let mut i: usize = 0;
    assert(rest.deep_view() =~= m.skip(0));
    assert(out.deep_view() =~= finished(m).take(0));
    while i < n
        invariant
            i <= n,
            n == m.len(),
            rest.deep_view() == m.skip(i as int),
            out.deep_view() == finished(m).take(i as int),
        decreases n - i,
    {
        let ghost before = out.deep_view();
        assert(rest.deep_view().len() == rest@.len());
        let (key, entries) = take_first(&mut rest);
        proof {
            assert(m.skip(i as int).skip(1) =~= m.skip(i + 1));
            assert(key@ == m[i as int].0);
            assert(entries.deep_view() == m[i as int].1);
        }
        let mut es = sort_ranked(entries);
        dedup_by_cve(&mut es);
        out.push((key, es));
        assert(out.deep_view() =~= before.push((key@, es.deep_view())));
        assert(finished(m).take(i + 1) =~= finished(m).take(i as int).push(finished(m)[i as int]));
        i += 1;
    }
    assert(finished(m).take(n as int) =~= finished(m));
    proof {
        assert forall|a: int, b: int| 0 <= a < b < finished(m).len() implies precedes(
            (#[trigger] finished(m)[a]).0,
            (#[trigger] finished(m)[b]).0,
        ) by {
            assert(m[a].0 == finished(m)[a].0 && m[b].0 == finished(m)[b].0);
        }
    }
    Table::from_entries(out)
}

// ── The scan ─────────────────────────────────────────────────────────────────

fn absorb_hits(
    confirmed: &mut Table<Vec<ThreatEntry>>,
    unconfirmed: &mut Table<Vec<ThreatEntry>>,
    key: &str,
    result: MatchResult,
    floor: u8,
)
    requires
        old(confirmed).well_formed(),
        old(unconfirmed).well_formed(),
    ensures
        final(confirmed).well_formed(),
        final(unconfirmed).well_formed(),
        final(confirmed).deep_view() == with_hits(
            Found {
                confirmed: old(confirmed).deep_view(),
                unconfirmed: old(unconfirmed).deep_view(),
            },
            key@,
            result.deep_view(),
            floor,
        ).confirmed,
        final(unconfirmed).deep_view() == with_hits(
            Found {
                confirmed: old(confirmed).deep_view(),
                unconfirmed: old(unconfirmed).deep_view(),
            },
            key@,
            result.deep_view(),
            floor,
        ).unconfirmed,
{
    let ghost start = Found {
        confirmed: confirmed.deep_view(),
        unconfirmed: unconfirmed.deep_view(),
    };
    let ghost hits = result.deep_view();
    let mut rest = result.matches;
    let n: usize = rest.len();
    let mut i: usize = 0;
    assert(rest.deep_view() =~= hits.skip(0));
    assert(hits.take(0) =~= Seq::<MatchHitView>::empty());
    while i < n
        invariant
            i <= n,
            n == hits.len(),
            rest.deep_view() == hits.skip(i as int),
            confirmed.well_formed(),
            unconfirmed.well_formed(),
            confirmed.deep_view() == with_hits(start, key@, hits.take(i as int), floor).confirmed,
            unconfirmed.deep_view() == with_hits(
                start,
                key@,
                hits.take(i as int),
                floor,
            ).unconfirmed,
        decreases n - i,
    {
        assert(rest.deep_view().len() == rest@.len());
        let hit = take_first(&mut rest);
        proof {
            assert(hits.skip(i as int).skip(1) =~= hits.skip(i + 1));
            assert(hits.take(i + 1).drop_last() =~= hits.take(i as int));
            assert(hits.take(i + 1).last() == hit.deep_view());
        }
        let e = match_to_entry(hit);
        if keeps(&e, floor) {
            if e.confirmed {
                confirmed.push_at(key, e);
            } else {
                unconfirmed.push_at(key, e);
            }
        }
        i += 1;
    }
    assert(hits.take(n as int) =~= hits);
}

fn keep_records(records: &Vec<Json>, floor: u8) -> (r: Vec<ThreatEntry>)
    ensures
        r.deep_view() == kept_records(records.deep_view(), floor),
{
    let ghost q = records.deep_view();
    let mut out: Vec<ThreatEntry> = Vec::new();
    let mut i: usize = 0;
    assert(out.deep_view() =~= kept_records(q.take(0), floor));
    while i < records.len()
        invariant
            i <= records@.len(),
            q == records.deep_view(),
            out.deep_view() == kept_records(q.take(i as int), floor),
        decreases records@.len() - i,
    {
        let ghost before = out.deep_view();
        proof {
            assert(q.take(i + 1).drop_last() =~= q.take(i as int));
            assert(q.take(i + 1).last() == records@[i as int].deep_view());
        }
        let e = search_to_entry(&records[i]);
        if keeps(&e, floor) {
            out.push(e);
            assert(out.deep_view() =~= before.push(e.deep_view()));
        }
        i += 1;
    }
    assert(q.take(q.len() as int) =~= q);
    out
}

fn absorb_entries(t: &mut Table<Vec<ThreatEntry>>, keys: &Vec<String>, es: &Vec<ThreatEntry>)
    requires
        old(t).well_formed(),
    ensures
        final(t).well_formed(),
        final(t).deep_view() == with_entries_for(
            old(t).deep_view(),
            views(keys@),
            es.deep_view(),
        ),
{
    let ghost start = t.deep_view();
    let ghost ks = views(keys@);
    let ghost q = es.deep_view();
    let mut i: usize = 0;
    assert(ks.take(0) =~= Seq::<Seq<char>>::empty());
    while i < keys.len()
        invariant
            i <= keys@.len(),
            ks == views(keys@),
            q == es.deep_view(),
            t.well_formed(),
            t.deep_view() == with_entries_for(start, ks.take(i as int), q),
        decreases keys@.len() - i,
    {
        let ghost before = t.deep_view();
        proof {
            assert(ks.take(i + 1).drop_last() =~= ks.take(i as int));
            assert(ks.take(i + 1).last() == keys@[i as int]@);
            assert(q.take(0) =~= Seq::<ThreatEntryView>::empty());
        }
        let mut k: usize = 0;
        while k < es.len()
            invariant
                i < keys@.len(),
                k <= es@.len(),
                q == es.deep_view(),
                t.well_formed(),
                t.deep_view() == with_entries(before, keys@[i as int]@, q.take(k as int)),
            decreases es@.len() - k,
        {
            proof {
                assert(q.take(k + 1).drop_last() =~= q.take(k as int));
                assert(q.take(k + 1).last() == es@[k as int].deep_view());
            }
            t.push_at(keys[i].as_str(), es[k].copy());
            k += 1;
        }
        assert(q.take(q.len() as int) =~= q);
        i += 1;
    }
    assert(ks.take(ks.len() as int) =~= ks);
}

/// What a scan came to, from the answers to its queries and to its searches, in the
/// order of the plan; a refusal of a search for the rate ends the scan. Findings
/// below the severity floor are left out, unless they are known to be exploited.
pub open spec fn outcome_of(
    plan: ScanPlanView,
    answers: Seq<Seq<MatchHitView>>,
    replies: Seq<SearchedView>,
    floor: u8,
) -> Result<(Buckets, Buckets, Seq<(Seq<char>, Seq<char>)>), Seq<char>> {
    let f = found_by_queries(
        plan.query_keys,
        answers,
        floor,
        answered(plan.query_keys, answers),
    );
    match after_searches(
        f.unconfirmed,
        plan.fallback,
        replies,
        floor,
        searched(plan.fallback, replies),
    ) {
        SearchState::Refused(m) => Err(m),
        SearchState::Going { unconfirmed, errors } => Ok(
            (finished(f.confirmed), finished(unconfirmed), errors),
        ),
    }
}

/// What a scan came to, from the answers to its queries and to its searches.
pub fn run_scan(
    plan: &ScanPlan,
    answers: Vec<MatchResult>,
    replies: Vec<Searched>,
    floor: u8,
) -> (r: Result<BatchOutcome, ThreatError>)
    requires
        plan.well_formed(),
    ensures
        match outcome_of(
            plan.deep_view(),
            answers.deep_view(),
            searched_views(replies@),
            floor,
        ) {
            Ok((confirmed, unconfirmed, errors)) => r matches Ok(o) && o.results.well_formed()
                && o.unconfirmed.well_formed() && o.errors.well_formed() && o.results.deep_view()
                == confirmed && o.unconfirmed.deep_view() == unconfirmed && o.errors.deep_view()
                == errors,
            Err(m) => r matches Err(e) && e.deep_view() == ThreatErrorView::RateLimitExceeded(m),
        },
{
    let ghost keys = views(plan.query_keys@);
    let ghost fallback = plan.fallback.deep_view();
    let ghost ans = answers.deep_view();
    let ghost reps = searched_views(replies@);
    let mut confirmed: Table<Vec<ThreatEntry>> = Table::new();
    let mut unconfirmed: Table<Vec<ThreatEntry>> = Table::new();
    let mut errors: Table<String> = Table::new();
    let n: usize = if plan.query_keys.len() < answers.len() {
        plan.query_keys.len()
    } else {
        answers.len()
    };
    let mut rest = answers;
    let mut i: usize = 0;
    assert(rest.deep_view() =~= ans.skip(0));
    assert(n == answered(keys, ans));
    while i < n
        invariant
            i <= n,
            n <= keys.len(),
            n <= ans.len(),
            keys == views(plan.query_keys@),
            rest.deep_view() == ans.skip(i as int),
            confirmed.well_formed(),
            unconfirmed.well_formed(),
            confirmed.deep_view() == found_by_queries(keys, ans, floor, i as nat).confirmed,
            unconfirmed.deep_view() == found_by_queries(keys, ans, floor, i as nat).unconfirmed,
        decreases n - i,
    {
        assert(rest.deep_view().len() == rest@.len());
        let result = take_first(&mut rest);
        assert(ans.skip(i as int).skip(1) =~= ans.skip(i + 1));
        absorb_hits(
            &mut confirmed,
            &mut unconfirmed,
            plan.query_keys[i].as_str(),
            result,
            floor,
        );
        i += 1;
    }
    let ghost start = unconfirmed.deep_view();
    let m: usize = if plan.fallback.len() < replies.len() {
        plan.fallback.len()
    } else {
        replies.len()
    };
    let mut left = replies;
    let mut j: usize = 0;
    assert(searched_views(left@) =~= reps.skip(0));
    assert(m == searched(fallback, reps));
    while j < m
        invariant
            j <= m,
            m <= fallback.len(),
            m <= reps.len(),
            m == searched(fallback, reps),
            fallback == plan.fallback.deep_view(),
            keys == plan.deep_view().query_keys,
            start == found_by_queries(keys, ans, floor, answered(keys, ans)).unconfirmed,
            ans == answers.deep_view(),
            reps == searched_views(replies@),
            left@.len() == reps.len() - j,
            searched_views(left@) == reps.skip(j as int),
            unconfirmed.well_formed(),
            errors.well_formed(),
            after_searches(start, fallback, reps, floor, j as nat) == (SearchState::Going {
                unconfirmed: unconfirmed.deep_view(),
                errors: errors.deep_view(),
            }),
        decreases m - j,
    {
        let ghost before = left@;
        let reply = left.remove(0);
        proof {
            assert(searched_views(left@) =~= searched_views(before).skip(1));
            assert(reps.skip(j as int).skip(1) =~= reps.skip(j + 1));
            assert(searched_views(before)[0] == searched_view(reply));
        }
        let name = plan.fallback.key(j);
        let keys_of_name = plan.fallback.value(j);
        assert(keys_of_name.deep_view() =~= views(keys_of_name@));
        match reply {
            Ok(records) => {
                let es = keep_records(&records, floor);
                absorb_entries(&mut unconfirmed, keys_of_name, &es);
            },
            Err(ThreatError::RateLimitExceeded(msg)) => {
                proof {
                    lemma_refusal_stays(start, fallback, reps, floor, (j + 1) as nat, m as nat);
                }
                return Err(ThreatError::RateLimitExceeded(msg));
            },
            Err(e) => {
                errors.insert(name.clone(), e.message());
            },
        }
        j += 1;
    }
    let results = finish(confirmed);
    let unconfirmed = finish(unconfirmed);
    Ok(BatchOutcome { results, unconfirmed, errors })
}

proof fn lemma_refusal_stays(
    start: Buckets,
    fallback: Seq<(Seq<char>, Seq<Seq<char>>)>,
    replies: Seq<SearchedView>,
    floor: u8,
    j: nat,
    n: nat,
)
    requires
        j <= n,
        after_searches(start, fallback, replies, floor, j) is Refused,
    ensures
        after_searches(start, fallback, replies, floor, n) == after_searches(
            start,
            fallback,
            replies,
            floor,
            j,
        ),
    decreases n,
{
    if j < n {
        lemma_refusal_stays(start, fallback, replies, floor, j, (n - 1) as nat);
    }
}

} // verus!
