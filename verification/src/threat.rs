//! Threat records as the API sends them, and reading them page by page.

use vstd::prelude::*;

use crate::json::{opt_json, Json, JsonView, Real, RealView};
use crate::list::{has_text, take_first};
use crate::number::{decimal, to_decimal};
use crate::split::{first_piece, pieces};
use crate::text::{opt_str_view, opt_view, own, own_opt, pair_views, same, views, CharSet};

verus! {

/// A page that holds nothing new ends the reading, and so does this page.
pub const MAX_PAGES: u32 = 50;

/// A threat record: its JSON, how that is printed, and the number that its `epss`
/// member writes where that is a text.
pub struct Threat {
    pub body: Json,
    pub rendered: String,
    pub epss_text: Option<Real>,
}

pub struct ThreatView {
    pub body: JsonView,
    pub rendered: Seq<char>,
    pub epss_text: Option<RealView>,
}

impl DeepView for Threat {
    type V = ThreatView;

    open spec fn deep_view(&self) -> ThreatView {
        ThreatView {
            body: self.body.deep_view(),
            rendered: self.rendered@,
            epss_text: self.epss_text.deep_view(),
        }
    }
}

// ── Reading members ──────────────────────────────────────────────────────────

/// The text of the member `k`, where there is one and it is not empty.
pub open spec fn filled_member(body: JsonView, k: Seq<char>) -> Option<Seq<char>> {
    match body.member_text(k) {
        Some(s) => if s.len() > 0 {
            Some(s)
        } else {
            None
        },
        None => None,
    }
}

/// What a record is told apart by: the first of its names that is not empty, or
/// else all that it holds.
pub open spec fn id_of(t: ThreatView) -> Seq<char> {
    match filled_member(t.body, "_id"@) {
        Some(s) => s,
        None => match filled_member(t.body, "externalId"@) {
            Some(s) => s,
            None => match filled_member(t.body, "cveId"@) {
                Some(s) => s,
                None => match filled_member(t.body, "slug"@) {
                    Some(s) => s,
                    None => match filled_member(t.body, "title"@) {
                        Some(s) => s,
                        None => t.rendered,
                    },
                },
            },
        },
    }
}

fn filled(body: &Json, k: &str) -> (r: Option<String>)
    ensures
        opt_view(r) == filled_member(body.deep_view(), k@),
{
    match body.get_str(k) {
        Some(s) => if s.is_empty() {
            None
        } else {
            Some(own(s))
        },
        None => None,
    }
}

/// What a record is told apart by.
pub fn threat_id(t: &Threat) -> (r: String)
    ensures
        r@ == id_of(t.deep_view()),
{
    if let Some(s) = filled(&t.body, "_id") {
        return s;
    }
    if let Some(s) = filled(&t.body, "externalId") {
        return s;
    }
    if let Some(s) = filled(&t.body, "cveId") {
        return s;
    }
    if let Some(s) = filled(&t.body, "slug") {
        return s;
    }
    if let Some(s) = filled(&t.body, "title") {
        return s;
    }
    t.rendered.clone()
}

/// The date of a time stamp: what stands before the first `T`.
pub open spec fn date_part(s: Seq<char>) -> Seq<char> {
    pieces(s, CharSet::Is('T'))[0]
}

/// The date of a time stamp, or `N/A` where the value is no text.
pub open spec fn date_of(v: Option<JsonView>) -> Seq<char> {
    match v {
        Some(j) => match j.text() {
            Some(s) => date_part(s),
            None => "N/A"@,
        },
        None => "N/A"@,
    }
}

/// The date of a time stamp, or `N/A` where the value is no text.
pub fn clean_date(value: Option<&Json>) -> (r: String)
    ensures
        r@ == date_of(opt_json(value)),
{
    match value {
        Some(j) => match j.as_str() {
            Some(s) => first_piece(s, CharSet::Is('T')),
            None => own("N/A"),
        },
        None => own("N/A"),
    }
}

/// What an error reply says: its `message`, or else its `error`.
pub open spec fn message_of(body: JsonView) -> Option<Seq<char>> {
    match body.member("message"@) {
        Some(v) => v.text(),
        None => body.member_text("error"@),
    }
}

/// What an error reply says: its `message`, or else its `error`.
pub fn error_message(body: &Json) -> (r: Option<String>)
    ensures
        opt_view(r) == message_of(body.deep_view()),
{
    let found = match body.get("message") {
        Some(v) => v.as_str(),
        None => body.get_str("error"),
    };
    match found {
        Some(s) => Some(own(s)),
        None => None,
    }
}

/// The records of a page.
pub open spec fn records_of(data: JsonView) -> Option<Seq<JsonView>> {
    match data.member("data"@) {
        Some(d) => d.member_items("threats"@),
        None => None,
    }
}

/// The records of a page.
pub fn page_records(data: &Json) -> (r: Option<&Vec<Json>>)
    ensures
        match r {
            Some(v) => records_of(data.deep_view()) == Some(v.deep_view()),
            None => records_of(data.deep_view()) is None,
        },
{
    match data.get("data") {
        Some(d) => d.get_array("threats"),
        None => None,
    }
}

/// Whether a value says yes: `true`, or the text of it.
pub open spec fn says_yes(v: Option<JsonView>) -> bool {
    match v {
        Some(JsonView::Bool(b)) => b,
        Some(JsonView::Text(s)) => s == "true"@,
        _ => false,
    }
}

/// Whether a value says yes: `true`, or the text of it.
pub fn truthy(v: Option<&Json>) -> (r: bool)
    ensures
        r == says_yes(opt_json(v)),
{
    match v {
        Some(Json::Bool(b)) => *b,
        Some(Json::Text(s)) => same(s.as_str(), "true"),
        _ => false,
    }
}

/// The address of a reference: the value itself, or its `url`.
pub open spec fn reference_text(j: JsonView) -> Option<Seq<char>> {
    match j.text() {
        Some(s) => Some(s),
        None => j.member_text("url"@),
    }
}

/// The addresses of the references that have one.
pub open spec fn reference_texts(items: Seq<JsonView>) -> Seq<Seq<char>> {
    items.filter_map(|j: JsonView| reference_text(j))
}

/// The addresses of the references that have one.
pub fn refs_to_strings(refs: &Vec<Json>) -> (r: Vec<String>)
    ensures
        views(r@) == reference_texts(refs.deep_view()),
{
    let ghost items = refs.deep_view();
    let mut out: Vec<String> = Vec::new();
    let mut i: usize = 0;
    assert(views(out@) =~= reference_texts(items.take(0)));
    while i < refs.len()
        invariant
            i <= refs@.len(),
            items == refs.deep_view(),
            views(out@) == reference_texts(items.take(i as int)),
        decreases refs@.len() - i,
    {
        let ghost before = views(out@);
        proof {
            assert(items.take(i + 1).drop_last() =~= items.take(i as int));
            assert(items.take(i + 1).last() == refs@[i as int].deep_view());
        }
        let found = match refs[i].as_str() {
            Some(s) => Some(s),
            None => refs[i].get_str("url"),
        };
        if let Some(s) = found {
            out.push(own(s));
            assert(views(out@) =~= before + seq![s@]);
        }
        i += 1;
    }
    assert(items.take(items.len() as int) =~= items);
    out
}

/// The CVE id of a record: its `cveId`, or else its `externalId`.
pub open spec fn cve_of(t: JsonView) -> Option<Seq<char>> {
    match t.member("cveId"@) {
        Some(v) => v.text(),
        None => t.member_text("externalId"@),
    }
}

/// The CVE id of a record: its `cveId`, or else its `externalId`.
pub fn cve_id(t: &Json) -> (r: Option<String>)
    ensures
        opt_view(r) == cve_of(t.deep_view()),
{
    match t.get("cveId") {
        Some(v) => own_opt(v.as_str()),
        None => own_opt(t.get_str("externalId")),
    }
}

// ── Page by page ─────────────────────────────────────────────────────────────

pub open spec fn ids_of(ts: Seq<ThreatView>) -> Seq<Seq<char>> {
    Seq::new(ts.len(), |i: int| id_of(ts[i]))
}

/// The records of `ts` whose id neither is in `seen` nor came before in `ts`.
pub open spec fn fresh(seen: Seq<Seq<char>>, ts: Seq<ThreatView>) -> Seq<ThreatView>
    decreases ts.len(),
{
    if ts.len() == 0 {
        ts
    } else {
        let before = fresh(seen, ts.drop_last());
        let id = id_of(ts.last());
        if (seen + ids_of(before)).contains(id) {
            before
        } else {
            before.push(ts.last())
        }
    }
}

/// The records found so far, and the page to ask for.
pub struct Pager {
    found: Vec<Threat>,
    seen: Vec<String>,
    page: u32,
}

pub struct PagerView {
    pub found: Seq<ThreatView>,
    pub page: u32,
}

impl DeepView for Pager {
    type V = PagerView;

    closed spec fn deep_view(&self) -> PagerView {
        PagerView { found: self.found.deep_view(), page: self.page }
    }
}

/// Whether there is another page to ask for once `page` has brought `len` records
/// of which `added` were new: not after a page that is not full, nor after one
/// with nothing new, nor after the last page that is asked for.
pub open spec fn goes_on(page: u32, limit: nat, len: nat, added: nat) -> bool {
    len > 0 && len >= limit && added > 0 && page < MAX_PAGES
}

/// The state after a page.
pub open spec fn after_page(p: PagerView, ts: Seq<ThreatView>, limit: nat) -> PagerView {
    let new = fresh(ids_of(p.found), ts);
    PagerView {
        found: p.found + new,
        page: if goes_on(p.page, limit, ts.len(), new.len()) {
            (p.page + 1) as u32
        } else {
            p.page
        },
    }
}

impl Pager {
    /// The ids that were seen are those of the records found, and no record was
    /// taken twice.
    pub closed spec fn well_formed(&self) -> bool {
        &&& views(self.seen@) == ids_of(self.found.deep_view())
        &&& ids_of(self.found.deep_view()).no_duplicates()
        &&& 1 <= self.page <= MAX_PAGES
    }

    pub fn new() -> (r: Pager)
        ensures
            r.well_formed(),
            r.deep_view() == (PagerView { found: Seq::empty(), page: 1 }),
    {
        let r = Pager { found: Vec::new(), seen: Vec::new(), page: 1 };
        assert(r.found.deep_view() =~= Seq::<ThreatView>::empty());
        assert(views(r.seen@) =~= ids_of(r.found.deep_view()));
        r
    }

    /// The page to ask for.
    pub fn page(&self) -> (r: u32)
        ensures
            r == self.deep_view().page,
    {
        self.page
    }

    /// Takes in a page; the answer is whether to ask for another.
    pub fn absorb(&mut self, threats: Vec<Threat>, limit: usize) -> (more: bool)
        requires
            old(self).well_formed(),
        ensures
            final(self).well_formed(),
            final(self).deep_view() == after_page(
                old(self).deep_view(),
                threats.deep_view(),
                limit as nat,
            ),
            more == goes_on(
                old(self).deep_view().page,
                limit as nat,
                threats@.len(),
                fresh(ids_of(old(self).deep_view().found), threats.deep_view()).len(),
            ),
    {
        let ghost base = self.found.deep_view();
        let ghost ts = threats.deep_view();
        let n: usize = threats.len();
        let mut rest = threats;
        let mut added: usize = 0;
        let mut i: usize = 0;
        assert(base + fresh(ids_of(base), ts.take(0)) =~= base);
        assert(rest.deep_view() =~= ts.skip(0));
        while i < n
            invariant
                i <= n,
                n == ts.len(),
                rest.deep_view() == ts.skip(i as int),
                self.found.deep_view() == base + fresh(ids_of(base), ts.take(i as int)),
                added == fresh(ids_of(base), ts.take(i as int)).len(),
                added <= i,
                self.page == old(self).page,
                self.well_formed(),
            decreases n - i,
        {
            assert(rest.deep_view().len() == rest@.len());
            let t = take_first(&mut rest);
            let ghost f = fresh(ids_of(base), ts.take(i as int));
            proof {
                assert(ts.skip(i as int).skip(1) =~= ts.skip(i + 1));
                assert(ts.take(i + 1).drop_last() =~= ts.take(i as int));
                assert(ids_of(base) + ids_of(f) =~= ids_of(base + f));
            }
            let id = threat_id(&t);
            if !has_text(&self.seen, id.as_str()) {
                let ghost found0 = self.found.deep_view();
                let ghost seen0 = views(self.seen@);
                let ghost tv = t.deep_view();
                let ghost idv = id@;
                self.seen.push(id);
                self.found.push(t);
                added += 1;
                proof {
                    assert(self.found.deep_view() =~= found0.push(tv));
                    assert(views(self.seen@) =~= seen0.push(idv));
                    assert(ids_of(found0.push(tv)) =~= ids_of(found0).push(idv));
                    assert(ids_of(found0.push(tv)).no_duplicates());
                    assert(base + f.push(tv) =~= (base + f).push(tv));
                }
            }
            i += 1;
        }
        assert(ts.take(n as int) =~= ts);
        if n == 0 || n < limit || added == 0 || self.page >= MAX_PAGES {
            false
        } else {
            self.page = self.page + 1;
            true
        }
    }

    /// The records that were found.
    pub fn into_found(self) -> (r: Vec<Threat>)
        ensures
            r.deep_view() == self.deep_view().found,
    {
        self.found
    }
}

/// No record is taken twice, whatever pages come.
pub proof fn fresh_has_no_duplicates(seen: Seq<Seq<char>>, ts: Seq<ThreatView>)
    requires
        seen.no_duplicates(),
    ensures
        (seen + ids_of(fresh(seen, ts))).no_duplicates(),
    decreases ts.len(),
{
    if ts.len() == 0 {
        assert(seen + ids_of(fresh(seen, ts)) =~= seen);
    } else {
        fresh_has_no_duplicates(seen, ts.drop_last());
        let before = fresh(seen, ts.drop_last());
        let all = seen + ids_of(before);
        if !all.contains(id_of(ts.last())) {
            assert(seen + ids_of(before.push(ts.last())) =~= all.push(id_of(ts.last())));
        }
    }
}

/// A server that sends the same page again is asked no further.
pub proof fn a_repeated_page_ends_the_reading(p: PagerView, ts: Seq<ThreatView>, limit: nat)
    requires
        forall|i: int| 0 <= i < ts.len() ==> ids_of(p.found).contains(#[trigger] id_of(ts[i])),
    ensures
        after_page(p, ts, limit) == p,
        !goes_on(p.page, limit, ts.len(), fresh(ids_of(p.found), ts).len()),
{
    lemma_nothing_fresh(ids_of(p.found), ts);
    assert(p.found + Seq::<ThreatView>::empty() =~= p.found);
}

proof fn lemma_nothing_fresh(seen: Seq<Seq<char>>, ts: Seq<ThreatView>)
    requires
        forall|i: int| 0 <= i < ts.len() ==> seen.contains(#[trigger] id_of(ts[i])),
    ensures
        fresh(seen, ts) == Seq::<ThreatView>::empty(),
    decreases ts.len(),
{
    if ts.len() > 0 {
        let d = ts.drop_last();
        assert forall|i: int| 0 <= i < d.len() implies seen.contains(#[trigger] id_of(d[i])) by {
            assert(d[i] == ts[i]);
        }
        lemma_nothing_fresh(seen, d);
        assert(seen.contains(id_of(ts[ts.len() - 1])));
        assert(seen + ids_of(fresh(seen, d)) =~= seen);
    }
}

// ── Queries ──────────────────────────────────────────────────────────────────

/// The query of a search for a service, one page of it.
pub open spec fn search_query(service: Seq<char>, limit: nat, page: nat) -> Seq<
    (Seq<char>, Seq<char>),
> {
    seq![
        ("search"@, service),
        ("limit"@, decimal(limit)),
        ("page"@, decimal(page)),
    ]
}

/// The query with a parameter more, where there is a value for it.
pub open spec fn with_param(
    q: Seq<(Seq<char>, Seq<char>)>,
    name: Seq<char>,
    value: Option<Seq<char>>,
) -> Seq<(Seq<char>, Seq<char>)> {
    match value {
        Some(v) => q.push((name, v)),
        None => q,
    }
}

/// The query of a search for a service, one page of it.
pub fn search_params(service: &str, limit: usize, page: u32) -> (r: Vec<(String, String)>)
    ensures
        pair_views(r@) == search_query(service@, limit as nat, page as nat),
{
    let mut q: Vec<(String, String)> = Vec::new();
    q.push((own("search"), own(service)));
    q.push((own("limit"), to_decimal(limit as u64)));
    q.push((own("page"), to_decimal(page as u64)));
    assert(pair_views(q@) =~= search_query(service@, limit as nat, page as nat));
    q
}

fn push_param(q: &mut Vec<(String, String)>, name: &str, value: Option<&str>)
    ensures
        pair_views(final(q)@) == with_param(pair_views(old(q)@), name@, opt_str_view(value)),
{
    let ghost before = pair_views(q@);
    if let Some(v) = value {
        q.push((own(name), own(v)));
        assert(pair_views(q@) =~= before.push((name@, v@)));
    }
}

/// The query of a search for a service, with the filters that are set.
pub fn filtered_search_params(
    service: &str,
    limit: usize,
    page: u32,
    severity: Option<&str>,
    threat_type: Option<&str>,
    days: Option<u32>,
) -> (r: Vec<(String, String)>)
    ensures
        pair_views(r@) == with_param(
            with_param(
                with_param(
                    search_query(service@, limit as nat, page as nat),
                    "severity"@,
                    opt_str_view(severity),
                ),
                "type"@,
                opt_str_view(threat_type),
            ),
            "days"@,
            match days {
                Some(d) => Some(decimal(d as nat)),
                None => None,
            },
        ),
{
    let mut q = search_params(service, limit, page);
    push_param(&mut q, "severity", severity);
    push_param(&mut q, "type", threat_type);
    match days {
        Some(d) => {
            let text = to_decimal(d as u64);
            push_param(&mut q, "days", Some(text.as_str()));
        },
        None => {},
    }
    q
}

} // verus!
