//! The findings of looking services up by name.

use vstd::prelude::*;

use crate::api::{
    copy_opt_json, copy_opt_real, cvss_hundredths, cvss_in_hundredths, epss_in_thousandths, epss_thousandths,
    string_or_empty,
};
use crate::http::{error_text, ThreatError, ThreatErrorView};
use crate::json::{copy_opt, Json, JsonView, Real, RealView};
use crate::list::{has_text, push_new, take_first, with_new};
use crate::order::{ranked, ranked_is_in_order, ranked_is_permutation, sort_ranked, Ranked};
use crate::report::{count_entries, count_findings};
use crate::risk::{outranks, outranks_is_order, RiskKey, RiskKeyView};
use crate::service_lookup::{basis_of, match_version, MatchBasis};
use crate::services::{normalize_service_name, product_name, strip_instance, ServiceInfo, ServiceInfoView};
use crate::split::pieces;
use crate::table::{in_key_order, lookup, lookup_after_put, put, put_keeps_order, Table};
use crate::text::{
    concat3, copy_opt_string, copy_strings, lowercase, opt_view, or_empty, own, own_opt, same, to_lowercase, views,
    CharSet,
};
use crate::threat::{
    clean_date, cve_id, cve_of, date_of, reference_texts, refs_to_strings, says_yes, truthy, Threat, ThreatView,
};

verus! {

// ── Findings ─────────────────────────────────────────────────────────────────

/// A threat that affects the version of a service.
#[derive(Debug)]
pub struct ThreatEntry {
    pub cve_id: Option<String>,
    pub title: Option<String>,
    pub severity: Option<String>,
    pub cvss_score: Option<Json>,
    pub cvss_vector: Option<String>,
    pub epss: Option<Real>,
    /// Known to be exploited.
    pub kev: bool,
    pub published_date: Option<String>,
    pub affected_versions: Option<Json>,
    pub patch_available: Option<Json>,
    pub references: Vec<String>,
    /// What shows that the version is affected.
    pub match_basis: MatchBasis,
}

#[verifier::ext_equal]
pub struct ThreatEntryView {
    pub cve_id: Option<Seq<char>>,
    pub title: Option<Seq<char>>,
    pub severity: Option<Seq<char>>,
    pub cvss_score: Option<JsonView>,
    pub cvss_vector: Option<Seq<char>>,
    pub epss: Option<RealView>,
    pub kev: bool,
    pub published_date: Option<Seq<char>>,
    pub affected_versions: Option<JsonView>,
    pub patch_available: Option<JsonView>,
    pub references: Seq<Seq<char>>,
    pub match_basis: MatchBasis,
}

impl DeepView for ThreatEntry {
    type V = ThreatEntryView;

    open spec fn deep_view(&self) -> ThreatEntryView {
        ThreatEntryView {
            cve_id: opt_view(self.cve_id),
            title: opt_view(self.title),
            severity: opt_view(self.severity),
            cvss_score: self.cvss_score.deep_view(),
            cvss_vector: opt_view(self.cvss_vector),
            epss: self.epss.deep_view(),
            kev: self.kev,
            published_date: opt_view(self.published_date),
            affected_versions: self.affected_versions.deep_view(),
            patch_available: self.patch_available.deep_view(),
            references: views(self.references@),
            match_basis: self.match_basis,
        }
    }
}

impl Clone for ThreatEntry {
    fn clone(&self) -> (r: Self)
        ensures
            r.deep_view() == self.deep_view(),
    {
        ThreatEntry {
            cve_id: copy_opt_string(&self.cve_id),
            title: copy_opt_string(&self.title),
            severity: copy_opt_string(&self.severity),
            cvss_score: copy_opt_json(&self.cvss_score),
            cvss_vector: copy_opt_string(&self.cvss_vector),
            epss: copy_opt_real(&self.epss),
            kev: self.kev,
            published_date: copy_opt_string(&self.published_date),
            affected_versions: copy_opt_json(&self.affected_versions),
            patch_available: copy_opt_json(&self.patch_available),
            references: copy_strings(&self.references),
            match_basis: self.match_basis,
        }
    }
}

/// The rank of a severity, in whatever case it is written.
pub open spec fn severity_of(sev: Option<Seq<char>>) -> u8 {
    match sev {
        Some(s) => {
            let lower = lowercase(s);
            if lower == "critical"@ {
                4
            } else if lower == "high"@ {
                3
            } else if lower == "medium"@ {
                2
            } else if lower == "low"@ {
                1
            } else {
                0
            }
        },
        None => 0,
    }
}

/// What a finding is ranked by.
pub open spec fn risk_of(e: ThreatEntryView) -> RiskKeyView {
    RiskKeyView {
        kev: e.kev,
        severity: severity_of(e.severity),
        epss: epss_thousandths(e.epss),
        cvss: cvss_hundredths(e.cvss_score),
        cve: or_empty(e.cve_id),
    }
}

impl ThreatEntry {
    /// The rank of the severity.
    pub fn severity_rank(&self) -> (r: u8)
        ensures
            r == severity_of(self.deep_view().severity),
    {
        match &self.severity {
            Some(s) => {
                let lower = to_lowercase(s.as_str());
                if same(lower.as_str(), "critical") {
                    4
                } else if same(lower.as_str(), "high") {
                    3
                } else if same(lower.as_str(), "medium") {
                    2
                } else if same(lower.as_str(), "low") {
                    1
                } else {
                    0
                }
            },
            None => 0,
        }
    }

    /// What the finding is ranked by: the highest risk first.
    pub fn risk_key(&self) -> (r: RiskKey)
        ensures
            r.deep_view() == risk_of(self.deep_view()),
    {
        RiskKey {
            kev: self.kev,
            severity: self.severity_rank(),
            epss: epss_in_thousandths(&self.epss),
            cvss: cvss_in_hundredths(&self.cvss_score),
            cve: string_or_empty(&self.cve_id),
        }
    }
}

impl Ranked for ThreatEntry {
    open spec fn before(a: ThreatEntryView, b: ThreatEntryView) -> bool {
        outranks(risk_of(a), risk_of(b))
    }

    proof fn rank_is_order(a: ThreatEntryView, b: ThreatEntryView, c: ThreatEntryView) {
        outranks_is_order(risk_of(a), risk_of(b), risk_of(c));
    }

    fn ranks_before(&self, other: &Self) -> (r: bool) {
        let a = self.risk_key();
        let b = other.risk_key();
        a.is_higher(&b)
    }
}

/// The EPSS of a record: a number, or a text that writes one.
pub open spec fn epss_of(t: ThreatView) -> Option<RealView> {
    match t.body.member("epss"@) {
        Some(v) => match v.as_float() {
            Some(x) => Some(x),
            None => if v.text() is Some {
                t.epss_text
            } else {
                None
            },
        },
        None => None,
    }
}

/// The finding that a record makes.
pub open spec fn entry_of(t: ThreatView, basis: MatchBasis) -> ThreatEntryView {
    let b = t.body;
    ThreatEntryView {
        cve_id: cve_of(b),
        title: b.member_text("title"@),
        severity: b.member_text("severity"@),
        cvss_score: b.member("cvssScore"@),
        cvss_vector: b.member_text("cvssVector"@),
        epss: epss_of(t),
        kev: says_yes(b.member("knownExploitsInWild"@)),
        published_date: Some(date_of(b.member("publishedDate"@))),
        affected_versions: b.member("affectedVersions"@),
        patch_available: b.member("patchAvailable"@),
        references: match b.member_items("references"@) {
            Some(items) => reference_texts(items),
            None => Seq::empty(),
        },
        match_basis: basis,
    }
}

fn epss_in(t: &Threat) -> (r: Option<Real>)
    ensures
        r.deep_view() == epss_of(t.deep_view()),
{
    match t.body.get("epss") {
        Some(v) => match v.as_real() {
            Some(x) => Some(x),
            None => match v.as_str() {
                Some(_) => match &t.epss_text {
                    Some(x) => Some(x.copy()),
                    None => None,
                },
                None => None,
            },
        },
        None => None,
    }
}

/// The finding that a record makes.
pub fn to_entry(t: &Threat, basis: MatchBasis) -> (r: ThreatEntry)
    ensures
        r.deep_view() == entry_of(t.deep_view(), basis),
{
    let b = &t.body;
    let references = match b.get_array("references") {
        Some(arr) => refs_to_strings(arr),
        None => {
            let none: Vec<String> = Vec::new();
            assert(views(none@) =~= Seq::<Seq<char>>::empty());
            none
        },
    };
    ThreatEntry {
        cve_id: cve_id(b),
        title: own_opt(b.get_str("title")),
        severity: own_opt(b.get_str("severity")),
        cvss_score: copy_opt(b.get("cvssScore")),
        cvss_vector: own_opt(b.get_str("cvssVector")),
        epss: epss_in(t),
        kev: truthy(b.get("knownExploitsInWild")),
        published_date: Some(clean_date(b.get("publishedDate"))),
        affected_versions: copy_opt(b.get("affectedVersions")),
        patch_available: copy_opt(b.get("patchAvailable")),
        references,
        match_basis: basis,
    }
}

/// The findings for a version, in the order of the records.
pub open spec fn affecting(ts: Seq<ThreatView>, version: Seq<char>) -> Seq<ThreatEntryView>
    decreases ts.len(),
{
    if ts.len() == 0 {
        Seq::empty()
    } else {
        let before = affecting(ts.drop_last(), version);
        match basis_of(ts.last().body, version) {
            Some(basis) => before.push(entry_of(ts.last(), basis)),
            None => before,
        }
    }
}

/// The findings for a version, the highest risk first.
pub open spec fn findings_for(ts: Seq<ThreatView>, version: Seq<char>) -> Seq<ThreatEntryView> {
    ranked::<ThreatEntry>(affecting(ts, version))
}

/// The records that affect a version, as findings, the highest risk first.
pub fn matched_entries(threats: &Vec<Threat>, version: &str) -> (r: Vec<ThreatEntry>)
    ensures
        r.deep_view() == findings_for(threats.deep_view(), version@),
{
    let ghost ts = threats.deep_view();
    let mut out: Vec<ThreatEntry> = Vec::new();
    let mut i: usize = 0;
    assert(out.deep_view() =~= affecting(ts.take(0), version@));
    while i < threats.len()
        invariant
            i <= threats@.len(),
            ts == threats.deep_view(),
            out.deep_view() == affecting(ts.take(i as int), version@),
        decreases threats@.len() - i,
    {
        let ghost before = out.deep_view();
        proof {
            assert(ts.take(i + 1).drop_last() =~= ts.take(i as int));
            assert(ts.take(i + 1).last() == threats@[i as int].deep_view());
        }
        if let Some(basis) = match_version(&threats[i].body, version) {
            let e = to_entry(&threats[i], basis);
            out.push(e);
            assert(out.deep_view() =~= before.push(e.deep_view()));
        }
        i += 1;
    }
    assert(ts.take(ts.len() as int) =~= ts);
    sort_ranked(out)
}

proof fn lemma_affecting_member(ts: Seq<ThreatView>, version: Seq<char>, k: int)
    requires
        0 <= k < affecting(ts, version).len(),
    ensures
        exists|i: int|
            0 <= i < ts.len() && basis_of((#[trigger] ts[i]).body, version) is Some && affecting(
                ts,
                version,
            )[k] == entry_of(ts[i], basis_of(ts[i].body, version)->0),
    decreases ts.len(),
{
    let d = ts.drop_last();
    let before = affecting(d, version);
    if k < before.len() {
        lemma_affecting_member(d, version, k);
        let i = choose|i: int|
            0 <= i < d.len() && basis_of((#[trigger] d[i]).body, version) is Some && before[k]
                == entry_of(d[i], basis_of(d[i].body, version)->0);
        assert(ts[i] == d[i]);
    } else {
        assert(ts[ts.len() - 1] == ts.last());
    }
}

/// The findings for a version stand highest risk first, and each is made by a
/// record that affects that version.
pub proof fn findings_are_matches_by_risk(ts: Seq<ThreatView>, version: Seq<char>, i: int, j: int)
    requires
        0 <= i < j < findings_for(ts, version).len(),
    ensures
        !outranks(
            risk_of(findings_for(ts, version)[j]),
            risk_of(findings_for(ts, version)[i]),
        ),
        exists|k: int|
            0 <= k < ts.len() && basis_of((#[trigger] ts[k]).body, version) is Some && findings_for(
                ts,
                version,
            )[i] == entry_of(ts[k], basis_of(ts[k].body, version)->0),
{
    broadcast use vstd::seq_lib::group_to_multiset_ensures;

    let all = affecting(ts, version);
    let f = findings_for(ts, version);
    ranked_is_in_order::<ThreatEntry>(all);
    ranked_is_permutation::<ThreatEntry>(all);
    assert(!<ThreatEntry as Ranked>::before(f[j], f[i]));
    assert(f.to_multiset().count(f[i]) > 0) by {
        assert(f.contains(f[i]));
    }
    assert(all.contains(f[i]));
    let k = choose|k: int| 0 <= k < all.len() && all[k] == f[i];
    lemma_affecting_member(ts, version, k);
}

// ── A batch of services ──────────────────────────────────────────────────────

/// A service to look up.
#[derive(Debug)]
pub struct ServiceEntry {
    pub name: String,
    pub version: String,
}

pub struct ServiceEntryView {
    pub name: Seq<char>,
    pub version: Seq<char>,
}

impl DeepView for ServiceEntry {
    type V = ServiceEntryView;

    open spec fn deep_view(&self) -> ServiceEntryView {
        ServiceEntryView { name: self.name@, version: self.version@ }
    }
}

/// The names of the services, each where it stands first.
pub open spec fn distinct_names(services: Seq<ServiceEntryView>) -> Seq<Seq<char>>
    decreases services.len(),
{
    if services.len() == 0 {
        Seq::empty()
    } else {
        let before = distinct_names(services.drop_last());
        if before.contains(services.last().name) {
            before
        } else {
            before.push(services.last().name)
        }
    }
}

/// The names to ask for: each once, in the order in which they first stand.
pub fn unique_names(services: &Vec<ServiceEntry>) -> (r: Vec<String>)
    ensures
        views(r@) == distinct_names(services.deep_view()),
{
    let ghost s = services.deep_view();
    let mut out: Vec<String> = Vec::new();
    let mut i: usize = 0;
    assert(views(out@) =~= distinct_names(s.take(0)));
    while i < services.len()
        invariant
            i <= services@.len(),
            s == services.deep_view(),
            views(out@) == distinct_names(s.take(i as int)),
        decreases services@.len() - i,
    {
        let ghost before = views(out@);
        proof {
            assert(s.take(i + 1).drop_last() =~= s.take(i as int));
            assert(s.take(i + 1).last() == services@[i as int].deep_view());
        }
        if !has_text(&out, services[i].name.as_str()) {
            out.push(services[i].name.clone());
            assert(views(out@) =~= before.push(services@[i as int].name@));
        }
        i += 1;
    }
    assert(s.take(s.len() as int) =~= s);
    out
}

/// Each name is asked for once, and every service's name is asked for.
pub proof fn each_name_is_asked_once(services: Seq<ServiceEntryView>)
    ensures
        distinct_names(services).no_duplicates(),
        forall|i: int|
            0 <= i < services.len() ==> distinct_names(services).contains(
                (#[trigger] services[i]).name,
            ),
    decreases services.len(),
{
    if services.len() > 0 {
        let d = services.drop_last();
        each_name_is_asked_once(d);
        let before = distinct_names(d);
        let all = distinct_names(services);
        assert forall|i: int| 0 <= i < services.len() implies all.contains(
            (#[trigger] services[i]).name,
        ) by {
            if i < d.len() {
                assert(d[i] == services[i]);
                let k = choose|k: int| 0 <= k < before.len() && before[k] == services[i].name;
                assert(all[k] == services[i].name);
            } else if !before.contains(services.last().name) {
                assert(all[all.len() - 1] == services[i].name);
            }
        }
    }
}

/// How many lookups run at a time: one per name, but no more than the API bears.
pub open spec fn pool_of(names: nat) -> nat {
    if names < 1 {
        1
    } else if names > 8 {
        8
    } else {
        names
    }
}

/// How many lookups run at a time: one per name, but no more than the API bears.
pub fn pool_size(names: usize) -> (r: usize)
    ensures
        r == pool_of(names as nat),
{
    if names < 1 {
        1
    } else if names > 8 {
        8
    } else {
        names
    }
}

/// What became of the lookup of a name.
pub enum Fetched {
    /// It was not made, as another had been refused already.
    Skipped,
    Found(Vec<Threat>),
    Failed(ThreatError),
}

pub enum FetchedView {
    Skipped,
    Found(Seq<ThreatView>),
    Failed(ThreatErrorView),
}

impl DeepView for Fetched {
    type V = FetchedView;

    open spec fn deep_view(&self) -> FetchedView {
        match *self {
            Fetched::Skipped => FetchedView::Skipped,
            Fetched::Found(ts) => FetchedView::Found(ts.deep_view()),
            Fetched::Failed(e) => FetchedView::Failed(e.deep_view()),
        }
    }
}

pub type Fetches = Seq<(Seq<char>, FetchedView)>;

/// The records that were found, by name.
pub open spec fn found_records(fetches: Fetches) -> Seq<(Seq<char>, Seq<ThreatView>)>
    decreases fetches.len(),
{
    if fetches.len() == 0 {
        Seq::empty()
    } else {
        let before = found_records(fetches.drop_last());
        match fetches.last().1 {
            FetchedView::Found(ts) => put(before, fetches.last().0, ts),
            _ => before,
        }
    }
}

/// What the lookups that failed said, by name.
pub open spec fn failures(fetches: Fetches) -> Seq<(Seq<char>, Seq<char>)>
    decreases fetches.len(),
{
    if fetches.len() == 0 {
        Seq::empty()
    } else {
        let before = failures(fetches.drop_last());
        match fetches.last().1 {
            FetchedView::Failed(e) => put(before, fetches.last().0, error_text(e)),
            _ => before,
        }
    }
}

/// What the last refusal for the rate said.
pub open spec fn rate_refusal(fetches: Fetches) -> Option<Seq<char>>
    decreases fetches.len(),
{
    if fetches.len() == 0 {
        None
    } else {
        match fetches.last().1 {
            FetchedView::Failed(ThreatErrorView::RateLimitExceeded(m)) => Some(m),
            _ => rate_refusal(fetches.drop_last()),
        }
    }
}

/// The key of a service: its name and version.
pub open spec fn service_key(s: ServiceEntryView) -> Seq<char> {
    s.name + "@"@ + s.version
}

/// The findings of each service; none where nothing was found for its name.
pub open spec fn service_results(
    services: Seq<ServiceEntryView>,
    records: Seq<(Seq<char>, Seq<ThreatView>)>,
) -> Seq<(Seq<char>, Seq<ThreatEntryView>)>
    decreases services.len(),
{
    if services.len() == 0 {
        Seq::empty()
    } else {
        let s = services.last();
        put(
            service_results(services.drop_last(), records),
            service_key(s),
            match lookup(records, s.name) {
                Some(ts) => findings_for(ts, s.version),
                None => Seq::empty(),
            },
        )
    }
}

/// What a batch of lookups came to.
pub struct BatchOutcome {
    pub results: Table<Vec<ThreatEntry>>,
    pub errors: Table<String>,
}

struct Gathered {
    records: Table<Vec<Threat>>,
    errors: Table<String>,
    refusal: Option<String>,
}

fn gather(fetches: Vec<(String, Fetched)>) -> (r: Gathered)
    ensures
        r.records.well_formed(),
        r.errors.well_formed(),
        r.records.deep_view() == found_records(fetches.deep_view()),
        r.errors.deep_view() == failures(fetches.deep_view()),
        opt_view(r.refusal) == rate_refusal(fetches.deep_view()),
{
    let ghost f = fetches.deep_view();
    let n: usize = fetches.len();
    let mut rest = fetches;
    let mut records: Table<Vec<Threat>> = Table::new();
    let mut errors: Table<String> = Table::new();
    let mut refusal: Option<String> = None;
    let mut i: usize = 0;
    assert(f.take(0) =~= Seq::<(Seq<char>, FetchedView)>::empty());
    assert(rest.deep_view() =~= f.skip(0));
    while i < n
        invariant
            i <= n,
            n == f.len(),
            rest.deep_view() == f.skip(i as int),
            records.well_formed(),
            errors.well_formed(),
            records.deep_view() == found_records(f.take(i as int)),
            errors.deep_view() == failures(f.take(i as int)),
            opt_view(refusal) == rate_refusal(f.take(i as int)),
        decreases n - i,
    {
        assert(rest.deep_view().len() == rest@.len());
        let (name, outcome) = take_first(&mut rest);
        proof {
            assert(f.skip(i as int).skip(1) =~= f.skip(i + 1));
            assert(f.take(i + 1).drop_last() =~= f.take(i as int));
            assert(f.take(i + 1).last() == f[i as int]);
        }
        match outcome {
            Fetched::Skipped => {},
            Fetched::Found(ts) => {
                records.insert(name, ts);
            },
            Fetched::Failed(e) => {
                errors.insert(name, e.message());
                if let ThreatError::RateLimitExceeded(m) = e {
                    refusal = Some(m);
                }
            },
        }
        i += 1;
    }
    assert(f.take(n as int) =~= f);
    Gathered { records, errors, refusal }
}

fn results_for(services: &Vec<ServiceEntry>, records: &Table<Vec<Threat>>) -> (r: Table<
    Vec<ThreatEntry>,
>)
    ensures
        r.well_formed(),
        r.deep_view() == service_results(services.deep_view(), records.deep_view()),
{
    let ghost s = services.deep_view();
    let ghost m = records.deep_view();
    let mut out: Table<Vec<ThreatEntry>> = Table::new();
    let mut i: usize = 0;
    assert(out.deep_view() =~= service_results(s.take(0), m));
    while i < services.len()
        invariant
            i <= services@.len(),
            s == services.deep_view(),
            m == records.deep_view(),
            out.well_formed(),
            out.deep_view() == service_results(s.take(i as int), m),
        decreases services@.len() - i,
    {
        proof {
            assert(s.take(i + 1).drop_last() =~= s.take(i as int));
            assert(s.take(i + 1).last() == services@[i as int].deep_view());
        }
        let entry = &services[i];
        let key = concat3(entry.name.as_str(), "@", entry.version.as_str());
        let found = match records.get(entry.name.as_str()) {
            Some(ts) => matched_entries(ts, entry.version.as_str()),
            None => {
                let none: Vec<ThreatEntry> = Vec::new();
                assert(none.deep_view() =~= Seq::<ThreatEntryView>::empty());
                none
            },
        };
        out.insert(key, found);
        i += 1;
    }
    assert(s.take(s.len() as int) =~= s);
    out
}

/// What the lookups of the services' names came to: an error where one was refused
/// for the rate, else the findings of each service and what the failed ones said.
/// Each lookup was made once for its name; the versions are told apart here.
pub fn run_batch(services: &Vec<ServiceEntry>, fetches: Vec<(String, Fetched)>) -> (r: Result<
    BatchOutcome,
    ThreatError,
>)
    ensures
        match r {
            Ok(o) => {
                &&& rate_refusal(fetches.deep_view()) is None
                &&& o.results.well_formed()
                &&& o.errors.well_formed()
                &&& o.results.deep_view() == service_results(
                    services.deep_view(),
                    found_records(fetches.deep_view()),
                )
                &&& o.errors.deep_view() == failures(fetches.deep_view())
            },
            Err(e) => rate_refusal(fetches.deep_view()) is Some && e.deep_view()
                == ThreatErrorView::RateLimitExceeded(rate_refusal(fetches.deep_view())->0),
        },
{
    let g = gather(fetches);
    match g.refusal {
        Some(m) => Err(ThreatError::RateLimitExceeded(m)),
        None => Ok(
            BatchOutcome { results: results_for(services, &g.records), errors: g.errors },
        ),
    }
}

/// Every service of a batch has an entry in its results, so that a service without
/// findings can be told from one that was not looked up.
pub proof fn every_service_has_a_result(
    services: Seq<ServiceEntryView>,
    records: Seq<(Seq<char>, Seq<ThreatView>)>,
    i: int,
)
    requires
        0 <= i < services.len(),
    ensures
        lookup(service_results(services, records), service_key(services[i])) is Some,
    decreases services.len(),
{
    let d = services.drop_last();
    let s = services.last();
    let found = match lookup(records, s.name) {
        Some(ts) => findings_for(ts, s.version),
        None => Seq::empty(),
    };
    lemma_results_ordered(d, records);
    lookup_after_put(service_results(d, records), service_key(s), found, service_key(services[i]));
    if i < d.len() {
        every_service_has_a_result(d, records, i);
        assert(d[i] == services[i]);
    }
}

proof fn lemma_results_ordered(
    services: Seq<ServiceEntryView>,
    records: Seq<(Seq<char>, Seq<ThreatView>)>,
)
    ensures
        in_key_order(service_results(services, records)),
    decreases services.len(),
{
    if services.len() > 0 {
        let s = services.last();
        lemma_results_ordered(services.drop_last(), records);
        put_keeps_order(
            service_results(services.drop_last(), records),
            service_key(s),
            match lookup(records, s.name) {
                Some(ts) => findings_for(ts, s.version),
                None => Seq::empty(),
            },
        );
    }
}

// ── The system itself ────────────────────────────────────────────────────────

/// The kernel and the distribution.
#[derive(Debug)]
pub struct SystemInfo {
    pub kernel_name: String,
    pub kernel_version: String,
    pub distro_name: String,
    pub distro_version: String,
}

/// What is looked up of the system: the kernel and the distribution, each where
/// its name and version are known; the distribution only where it has another
/// name.
pub open spec fn system_parts(info: SystemInfo) -> Seq<ServiceEntryView> {
    let kernel = ServiceEntryView { name: info.kernel_name@, version: info.kernel_version@ };
    let distro = ServiceEntryView { name: info.distro_name@, version: info.distro_version@ };
    let has_kernel = kernel.name.len() > 0 && kernel.version.len() > 0;
    let has_distro = distro.name.len() > 0 && distro.version.len() > 0 && !(has_kernel
        && distro.name == kernel.name);
    if has_kernel && has_distro {
        seq![kernel, distro]
    } else if has_kernel {
        seq![kernel]
    } else if has_distro {
        seq![distro]
    } else {
        Seq::empty()
    }
}

/// What is looked up of the system.
pub fn system_lookups(info: &SystemInfo) -> (r: Vec<ServiceEntry>)
    ensures
        r.deep_view() == system_parts(*info),
{
    let mut out: Vec<ServiceEntry> = Vec::new();
    let has_kernel = !info.kernel_name.as_str().is_empty()
        && !info.kernel_version.as_str().is_empty();
    if has_kernel {
        out.push(
            ServiceEntry {
                name: info.kernel_name.clone(),
                version: info.kernel_version.clone(),
            },
        );
    }
    if !info.distro_name.as_str().is_empty() && !info.distro_version.as_str().is_empty() && !(
    has_kernel && same(info.distro_name.as_str(), info.kernel_name.as_str())) {
        out.push(
            ServiceEntry {
                name: info.distro_name.clone(),
                version: info.distro_version.clone(),
            },
        );
    }
    assert(out.deep_view() =~= system_parts(*info));
    out
}

pub open spec fn record_lists(v: Seq<Vec<Threat>>) -> Seq<Seq<ThreatView>> {
    Seq::new(v.len(), |i: int| v[i].deep_view())
}

/// The findings of each part of the system.
pub open spec fn system_results(
    parts: Seq<ServiceEntryView>,
    records: Seq<Seq<ThreatView>>,
) -> Seq<(Seq<char>, Seq<ThreatEntryView>)>
    decreases parts.len(),
{
    if parts.len() == 0 || parts.len() != records.len() {
        Seq::empty()
    } else {
        put(
            system_results(parts.drop_last(), records.drop_last()),
            service_key(parts.last()),
            findings_for(records.last(), parts.last().version),
        )
    }
}

/// The findings of the parts of the system, given the records that were found for
/// each of them.
pub fn run_system_lookup(parts: &Vec<ServiceEntry>, records: &Vec<Vec<Threat>>) -> (r: Table<
    Vec<ThreatEntry>,
>)
    requires
        parts@.len() == records@.len(),
    ensures
        r.well_formed(),
        r.deep_view() == system_results(parts.deep_view(), record_lists(records@)),
{
    let ghost p = parts.deep_view();
    let ghost m = record_lists(records@);
    let mut out: Table<Vec<ThreatEntry>> = Table::new();
    let mut i: usize = 0;
    assert(out.deep_view() =~= system_results(p.take(0), m.take(0)));
    while i < parts.len()
        invariant
            i <= parts@.len(),
            parts@.len() == records@.len(),
            p == parts.deep_view(),
            m == record_lists(records@),
            out.well_formed(),
            out.deep_view() == system_results(p.take(i as int), m.take(i as int)),
        decreases parts@.len() - i,
    {
        proof {
            assert(p.take(i + 1).drop_last() =~= p.take(i as int));
            assert(p.take(i + 1).last() == parts@[i as int].deep_view());
            assert(m.take(i + 1).drop_last() =~= m.take(i as int));
            assert(m.take(i + 1).last() == records@[i as int].deep_view());
        }
        let part = &parts[i];
        let key = concat3(part.name.as_str(), "@", part.version.as_str());
        out.insert(key, matched_entries(&records[i], part.version.as_str()));
        i += 1;
    }
    assert(p.take(p.len() as int) =~= p);
    assert(m.take(m.len() as int) =~= m);
    out
}

// ── The report ───────────────────────────────────────────────────────────────

/// What is known of a service besides its findings.
#[derive(Debug)]
pub struct AssetInfo {
    pub exe: String,
    pub version: String,
    pub version_source: String,
    pub exposed: bool,
    pub listeners: Vec<String>,
}

pub struct AssetInfoView {
    pub exe: Seq<char>,
    pub version: Seq<char>,
    pub version_source: Seq<char>,
    pub exposed: bool,
    pub listeners: Seq<Seq<char>>,
}

impl DeepView for AssetInfo {
    type V = AssetInfoView;

    open spec fn deep_view(&self) -> AssetInfoView {
        AssetInfoView {
            exe: self.exe@,
            version: self.version@,
            version_source: self.version_source@,
            exposed: self.exposed,
            listeners: views(self.listeners@),
        }
    }
}

/// What is looked up for a service: the product that it belongs to.
pub open spec fn lookup_of(s: ServiceInfoView) -> ServiceEntryView {
    ServiceEntryView {
        name: product_name(pieces(s.name, CharSet::Is('@'))[0]),
        version: s.version,
    }
}

/// What is looked up for a service.
pub fn lookup_entry(s: &ServiceInfo) -> (r: ServiceEntry)
    ensures
        r.deep_view() == lookup_of(s.deep_view()),
{
    let bare = strip_instance(s.name.as_str());
    ServiceEntry { name: normalize_service_name(bare.as_str()), version: s.version.clone() }
}

/// An asset with one more service that stands for it: exposed where one of its
/// services is, and listening wherever one of them does.
pub open spec fn asset_with(before: Option<AssetInfoView>, s: ServiceInfoView) -> AssetInfoView {
    match before {
        Some(a) => AssetInfoView {
            exposed: a.exposed || s.exposed,
            listeners: with_new(a.listeners, s.listeners),
            ..a
        },
        None => AssetInfoView {
            exe: s.exe,
            version: s.version,
            version_source: s.source.name(),
            exposed: s.exposed,
            listeners: with_new(Seq::empty(), s.listeners),
        },
    }
}

/// The assets that the services stand for.
pub open spec fn assets_of(services: Seq<ServiceInfoView>) -> Seq<(Seq<char>, AssetInfoView)>
    decreases services.len(),
{
    if services.len() == 0 {
        Seq::empty()
    } else {
        let before = assets_of(services.drop_last());
        let s = services.last();
        let key = service_key(lookup_of(s));
        put(before, key, asset_with(lookup(before, key), s))
    }
}

fn join_asset(before: Option<&AssetInfo>, s: &ServiceInfo) -> (r: AssetInfo)
    ensures
        r.deep_view() == asset_with(
            match before {
                Some(a) => Some(a.deep_view()),
                None => None,
            },
            s.deep_view(),
        ),
{
    match before {
        Some(a) => {
            let mut listeners = copy_strings(&a.listeners);
            push_new(&mut listeners, &s.listeners);
            AssetInfo {
                exe: a.exe.clone(),
                version: a.version.clone(),
                version_source: a.version_source.clone(),
                exposed: a.exposed || s.exposed,
                listeners,
            }
        },
        None => {
            let mut listeners: Vec<String> = Vec::new();
            assert(views(listeners@) =~= Seq::<Seq<char>>::empty());
            push_new(&mut listeners, &s.listeners);
            AssetInfo {
                exe: s.exe.clone(),
                version: s.version.clone(),
                version_source: own(s.source.as_str()),
                exposed: s.exposed,
                listeners,
            }
        },
    }
}

/// The assets that the services stand for, by the keys of their findings.
pub fn service_assets(services: &Vec<ServiceInfo>) -> (r: Table<AssetInfo>)
    ensures
        r.well_formed(),
        r.deep_view() == assets_of(services.deep_view()),
{
    let ghost s = services.deep_view();
    let mut out: Table<AssetInfo> = Table::new();
    let mut i: usize = 0;
    assert(out.deep_view() =~= assets_of(s.take(0)));
    while i < services.len()
        invariant
            i <= services@.len(),
            s == services.deep_view(),
            out.well_formed(),
            out.deep_view() == assets_of(s.take(i as int)),
        decreases services@.len() - i,
    {
        proof {
            assert(s.take(i + 1).drop_last() =~= s.take(i as int));
            assert(s.take(i + 1).last() == services@[i as int].deep_view());
        }
        let e = lookup_entry(&services[i]);
        let key = concat3(e.name.as_str(), "@", e.version.as_str());
        let a = join_asset(out.get(key.as_str()), &services[i]);
        out.insert(key, a);
        i += 1;
    }
    assert(s.take(s.len() as int) =~= s);
    out
}

/// What a run makes of the lookup of the system: a refusal for the rate ends the run, and
/// after any other failure the report has no findings of the system.
pub fn system_outcome(r: Result<Table<Vec<ThreatEntry>>, ThreatError>) -> (o: Result<
    Option<Table<Vec<ThreatEntry>>>,
    ThreatError,
>)
    ensures
        match r {
            Ok(t) => o matches Ok(Some(x)) && x == t,
            Err(ThreatError::RateLimitExceeded(m)) => o matches Err(
                ThreatError::RateLimitExceeded(n),
            ) && n == m,
            Err(_) => o matches Ok(None),
        },
{
    match r {
        Ok(t) => Ok(Some(t)),
        Err(ThreatError::RateLimitExceeded(m)) => Err(ThreatError::RateLimitExceeded(m)),
        Err(_) => Ok(None),
    }
}

/// The report of a batch: the findings of the services and of the system, what is
/// known of the assets, and what the failed lookups said.
#[derive(Debug)]
pub struct BatchResults {
    pub services: Table<Vec<ThreatEntry>>,
    pub assets: Table<AssetInfo>,
    pub system: Option<Table<Vec<ThreatEntry>>>,
    pub errors: Table<String>,
}

/// The number of findings of the services and of the system.
pub open spec fn all_findings(r: BatchResults) -> nat {
    count_findings(r.services.deep_view()) + match r.system {
        Some(t) => count_findings(t.deep_view()),
        None => 0,
    }
}

impl BatchResults {
    pub open spec fn well_formed(&self) -> bool {
        &&& self.services.well_formed()
        &&& self.assets.well_formed()
        &&& self.errors.well_formed()
        &&& match self.system {
            Some(t) => t.well_formed(),
            None => true,
        }
    }

    /// The number of findings of the services and of the system.
    pub fn total_vulns(&self) -> (r: usize)
        requires
            all_findings(*self) <= usize::MAX,
        ensures
            r == all_findings(*self),
    {
        let services: usize = count_entries(&self.services);
        let system: usize = match &self.system {
            Some(t) => count_entries(t),
            None => 0,
        };
        services + system
    }
}

} // verus!
