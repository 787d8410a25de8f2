//! The report of a scan.

use vstd::prelude::*;

use crate::api::{copy_opt_real, rank_of, severity_rank, TOOL, TOOL_VERSION, ThreatEntry, ThreatEntryView};
use crate::json::{
    array, no_members, object, opt_text, opt_value, push_member, push_opt_member, real_number, real_value, text,
    text_array, text_items, text_or_null, value_or_null, with_member, Json, JsonView, Numeral, NumeralView, Real,
    RealView,
};
use crate::list::has_text;
use crate::number::{decimal, to_decimal};
use crate::order::{lemma_precedes_transitive, precedes};
use crate::table::{in_key_order, lookup, lookup_after_put, put, Table};
use crate::text::{copy_opt_string, copy_strings, opt_as_str, opt_view, own, views};

verus! {

/// What is known of an asset: where its version came from, and how far the
/// sockets that it listens on can be reached.
#[derive(Debug)]
pub struct AssetInfo {
    pub exe: String,
    pub version: String,
    pub version_source: String,
    pub exposed: bool,
    pub reachability: String,
    pub listeners: Vec<String>,
}

pub struct AssetInfoView {
    pub exe: Seq<char>,
    pub version: Seq<char>,
    pub version_source: Seq<char>,
    pub exposed: bool,
    pub reachability: Seq<char>,
    pub listeners: Seq<Seq<char>>,
}

impl DeepView for AssetInfo {
    type V = AssetInfoView;

    open spec fn deep_view(&self) -> AssetInfoView {
        AssetInfoView {
            exe: self.exe@,
            version: self.version@,
            version_source: self.version_source@,
            exposed: self.exposed,
            reachability: self.reachability@,
            listeners: views(self.listeners@),
        }
    }
}

/// What made the report. There is no time in it, so that two reports can be
/// compared.
#[derive(Debug)]
pub struct Meta {
    pub tool: &'static str,
    pub version: &'static str,
    pub schema_version: u32,
}

impl Default for Meta {
    fn default() -> (r: Self)
        ensures
            r.tool@ == TOOL@,
            r.version@ == TOOL_VERSION@,
            r.schema_version == 1,
    {
        Meta { tool: TOOL, version: TOOL_VERSION, schema_version: 1 }
    }
}

/// One CVE with every asset that it affects.
#[derive(Debug)]
pub struct CveGroup {
    pub severity: Option<String>,
    pub kev: bool,
    pub epss: Option<Real>,
    pub title: Option<String>,
    pub assets: Vec<String>,
}

pub struct CveGroupView {
    pub severity: Option<Seq<char>>,
    pub kev: bool,
    pub epss: Option<RealView>,
    pub title: Option<Seq<char>>,
    pub assets: Seq<Seq<char>>,
}

impl DeepView for CveGroup {
    type V = CveGroupView;

    open spec fn deep_view(&self) -> CveGroupView {
        CveGroupView {
            severity: opt_view(self.severity),
            kev: self.kev,
            epss: self.epss.deep_view(),
            title: opt_view(self.title),
            assets: views(self.assets@),
        }
    }
}

pub type Findings = Seq<(Seq<char>, Seq<ThreatEntryView>)>;

pub type Groups = Seq<(Seq<char>, CveGroupView)>;

/// What a scan found.
pub struct BatchOutcome {
    pub results: Table<Vec<ThreatEntry>>,
    pub unconfirmed: Table<Vec<ThreatEntry>>,
    pub errors: Table<String>,
}

/// The report: the confirmed findings by asset and by CVE, what is known of the
/// assets, the findings whose version is not confirmed, and the lookups that
/// failed.
#[derive(Debug)]
pub struct BatchResults {
    pub meta: Meta,
    pub services: Table<Vec<ThreatEntry>>,
    pub by_cve: Table<CveGroup>,
    pub assets: Table<AssetInfo>,
    pub unconfirmed: Table<Vec<ThreatEntry>>,
    pub errors: Table<String>,
}

/// The number of findings.
pub open spec fn count_findings<A>(m: Seq<(Seq<char>, Seq<A>)>) -> nat
    decreases m.len(),
{
    if m.len() == 0 {
        0
    } else {
        count_findings(m.drop_last()) + m.last().1.len()
    }
}

proof fn lemma_count_grows<A>(m: Seq<(Seq<char>, Seq<A>)>, i: int)
    requires
        0 <= i <= m.len(),
    ensures
        count_findings(m.take(i)) <= count_findings(m),
    decreases m.len() - i,
{
    if i == m.len() {
        assert(m.take(i) =~= m);
    } else {
        lemma_count_grows(m, i + 1);
        assert(m.take(i + 1).drop_last() =~= m.take(i));
    }
}

/// The number of findings in a table.
pub fn count_entries<T: DeepView>(t: &Table<Vec<T>>) -> (r: usize)
    requires
        count_findings(t.deep_view()) <= usize::MAX,
    ensures
        r == count_findings(t.deep_view()),
{
    let ghost m = t.deep_view();
    let mut total: usize = 0;
    let mut i: usize = 0;
    while i < t.len()
        invariant
            i <= m.len(),
            m == t.deep_view(),
            count_findings(m) <= usize::MAX,
            total == count_findings(m.take(i as int)),
        decreases m.len() - i,
    {
        let n: usize = t.value(i).len();
        proof {
            assert(m.take(i + 1).drop_last() =~= m.take(i as int));
            assert(m[i as int].1.len() == n);
            lemma_count_grows(m, i + 1);
        }
        total += n;
        i += 1;
    }
    assert(m.take(m.len() as int) =~= m);
    total
}

// ── By CVE ───────────────────────────────────────────────────────────────────

/// The group of a CVE with the finding `t` of the asset `key` taken in.
pub open spec fn joined_group(before: Option<CveGroupView>, key: Seq<char>, t: ThreatEntryView) -> CveGroupView {
    let g = match before {
        Some(g) => g,
        None => CveGroupView {
            severity: t.severity,
            kev: t.kev,
            epss: t.epss,
            title: t.title,
            assets: Seq::empty(),
        },
    };
    CveGroupView {
        severity: if rank_of(t.severity) > rank_of(g.severity) {
            t.severity
        } else {
            g.severity
        },
        kev: g.kev || t.kev,
        epss: g.epss,
        title: g.title,
        assets: if g.assets.contains(key) {
            g.assets
        } else {
            g.assets.push(key)
        },
    }
}

/// The groups with a finding taken in. One without a CVE belongs to no group.
pub open spec fn with_finding(groups: Groups, key: Seq<char>, t: ThreatEntryView) -> Groups {
    match t.cve_id {
        Some(cve) => put(groups, cve, joined_group(lookup(groups, cve), key, t)),
        None => groups,
    }
}

pub open spec fn with_findings(groups: Groups, key: Seq<char>, ts: Seq<ThreatEntryView>) -> Groups
    decreases ts.len(),
{
    if ts.len() == 0 {
        groups
    } else {
        with_finding(with_findings(groups, key, ts.drop_last()), key, ts.last())
    }
}

/// The findings by CVE: each CVE with the assets that it affects, the worst of its
/// severities, and whether it is known to be exploited.
pub open spec fn groups_by_cve(services: Findings) -> Groups
    decreases services.len(),
{
    if services.len() == 0 {
        Seq::empty()
    } else {
        with_findings(
            groups_by_cve(services.drop_last()),
            services.last().0,
            services.last().1,
        )
    }
}

fn join_group(before: Option<&CveGroup>, key: &str, t: &ThreatEntry) -> (r: CveGroup)
    ensures
        r.deep_view() == joined_group(
            match before {
                Some(g) => Some(g.deep_view()),
                None => None,
            },
            key@,
            t.deep_view(),
        ),
{
    match before {
        Some(g) => {
            let mut assets = copy_strings(&g.assets);
            let ghost a = views(assets@);
            if !has_text(&assets, key) {
                assets.push(own(key));
                assert(views(assets@) =~= a.push(key@));
            }
            let severity = if t.severity_rank() > severity_rank(opt_as_str(&g.severity)) {
                copy_opt_string(&t.severity)
            } else {
                copy_opt_string(&g.severity)
            };
            CveGroup {
                severity,
                kev: g.kev || t.kev,
                epss: copy_opt_real(&g.epss),
                title: copy_opt_string(&g.title),
                assets,
            }
        },
        None => {
            let mut assets: Vec<String> = Vec::new();
            assets.push(own(key));
            assert(views(assets@) =~= Seq::<Seq<char>>::empty().push(key@));
            CveGroup {
                severity: copy_opt_string(&t.severity),
                kev: t.kev,
                epss: copy_opt_real(&t.epss),
                title: copy_opt_string(&t.title),
                assets,
            }
        },
    }
}

impl BatchResults {
    pub open spec fn well_formed(&self) -> bool {
        &&& self.services.well_formed()
        &&& self.by_cve.well_formed()
        &&& self.assets.well_formed()
        &&& self.unconfirmed.well_formed()
        &&& self.errors.well_formed()
    }

    /// The number of confirmed findings.
    pub fn total_vulns(&self) -> (r: usize)
        requires
            count_findings(self.services.deep_view()) <= usize::MAX,
        ensures
            r == count_findings(self.services.deep_view()),
    {
        count_entries(&self.services)
    }

    /// Groups the confirmed findings by CVE.
    pub fn compute_cve_groups(&mut self)
        requires
            old(self).well_formed(),
        ensures
            final(self).well_formed(),
            final(self).by_cve.deep_view() == groups_by_cve(old(self).services.deep_view()),
            final(self).services == old(self).services,
            final(self).assets == old(self).assets,
            final(self).unconfirmed == old(self).unconfirmed,
            final(self).errors == old(self).errors,
            final(self).meta == old(self).meta,
    {
        let groups = cve_groups(&self.services);
        self.by_cve = groups;
    }
}

/// The findings by CVE.
pub fn cve_groups(services: &Table<Vec<ThreatEntry>>) -> (r: Table<CveGroup>)
    ensures
        r.well_formed(),
        r.deep_view() == groups_by_cve(services.deep_view()),
{
    let mut groups: Table<CveGroup> = Table::new();
    let ghost m = services.deep_view();
    let mut i: usize = 0;
    assert(groups.deep_view() =~= groups_by_cve(m.take(0)));
    while i < services.len()
        invariant
            i <= m.len(),
            m == services.deep_view(),
            groups.well_formed(),
            groups.deep_view() == groups_by_cve(m.take(i as int)),
        decreases m.len() - i,
    {
        let ghost before = groups.deep_view();
        let key = services.key(i);
        let entries = services.value(i);
        let ghost ts = entries.deep_view();
        let mut k: usize = 0;
        assert(ts.take(0) =~= Seq::<ThreatEntryView>::empty());
        while k < entries.len()
            invariant
                k <= entries@.len(),
                ts == entries.deep_view(),
                groups.well_formed(),
                groups.deep_view() == with_findings(before, key@, ts.take(k as int)),
            decreases entries@.len() - k,
        {
            let t = &entries[k];
            proof {
                assert(ts.take(k + 1).drop_last() =~= ts.take(k as int));
                assert(ts.take(k + 1).last() == t.deep_view());
            }
            if let Some(cve) = &t.cve_id {
                let g = join_group(groups.get(cve.as_str()), key.as_str(), t);
                groups.insert(cve.clone(), g);
            }
            k += 1;
        }
        proof {
            assert(ts.take(ts.len() as int) =~= ts);
            assert(m.take(i + 1).drop_last() =~= m.take(i as int));
            assert(m.take(i + 1).last() == m[i as int]);
        }
        i += 1;
    }
    assert(m.take(m.len() as int) =~= m);
    groups
}

/// Whether the texts are in order, and none stands twice.
pub open spec fn strictly_ordered(s: Seq<Seq<char>>) -> bool {
    forall|i: int, j: int| 0 <= i < j < s.len() ==> precedes(#[trigger] s[i], #[trigger] s[j])
}

/// Whether every group lists its assets in order, each at most once, and none that
/// comes after `bound`.
pub open spec fn groups_ordered_to(groups: Groups, bound: Seq<char>) -> bool {
    forall|c: Seq<char>|
        match #[trigger] lookup(groups, c) {
            Some(g) => strictly_ordered(g.assets) && forall|i: int|
                0 <= i < g.assets.len() ==> #[trigger] g.assets[i] == bound || precedes(
                    g.assets[i],
                    bound,
                ),
            None => true,
        }
}

proof fn lemma_findings_ordered(groups: Groups, key: Seq<char>, ts: Seq<ThreatEntryView>)
    requires
        groups_ordered_to(groups, key),
    ensures
        groups_ordered_to(with_findings(groups, key, ts), key),
    decreases ts.len(),
{
    if ts.len() > 0 {
        lemma_findings_ordered(groups, key, ts.drop_last());
        let b = with_findings(groups, key, ts.drop_last());
        let t = ts.last();
        if let Some(cve) = t.cve_id {
            let g = joined_group(lookup(b, cve), key, t);
            assert forall|c: Seq<char>|
                match #[trigger] lookup(put(b, cve, g), c) {
                    Some(g) => strictly_ordered(g.assets) && forall|i: int|
                        0 <= i < g.assets.len() ==> #[trigger] g.assets[i] == key || precedes(
                            g.assets[i],
                            key,
                        ),
                    None => true,
                } by {
                lookup_after_put(b, cve, g, c);
                if c == cve {
                    match lookup(b, cve) {
                        Some(o) => {
                            assert(strictly_ordered(o.assets));
                            if !o.assets.contains(key) {
                                assert forall|i: int, j: int|
                                    0 <= i < j < g.assets.len() implies precedes(
                                    #[trigger] g.assets[i],
                                    #[trigger] g.assets[j],
                                ) by {
                                    if j == o.assets.len() {
                                        assert(g.assets[i] == o.assets[i]);
                                        assert(o.assets[i] != key);
                                    } else {
                                        assert(g.assets[i] == o.assets[i] && g.assets[j]
                                            == o.assets[j]);
                                    }
                                }
                            }
                        },
                        None => {},
                    }
                } else {
                    assert(lookup(put(b, cve, g), c) == lookup(b, c));
                }
            }
        }
    }
}

/// Whether the group of a finding's CVE lists the asset `key`, and is no less severe and
/// no less known to be exploited than the finding is.
pub open spec fn takes_in(groups: Groups, key: Seq<char>, t: ThreatEntryView) -> bool {
    t.cve_id matches Some(cve) ==> {
        &&& lookup(groups, cve) matches Some(g)
        &&& g.assets.contains(key)
        &&& rank_of(t.severity) <= rank_of(g.severity)
        &&& t.kev ==> g.kev
    }
}

proof fn lemma_finding_is_taken_in(
    groups: Groups,
    key: Seq<char>,
    t: ThreatEntryView,
    key0: Seq<char>,
    t0: ThreatEntryView,
)
    ensures
        takes_in(with_finding(groups, key, t), key, t),
        takes_in(groups, key0, t0) ==> takes_in(with_finding(groups, key, t), key0, t0),
{
    if let Some(cve) = t.cve_id {
        let before = lookup(groups, cve);
        let g = joined_group(before, key, t);
        lookup_after_put(groups, cve, g, cve);
        assert(g.assets.contains(key)) by {
            if before is None || !before->0.assets.contains(key) {
                assert(g.assets[g.assets.len() - 1] == key);
            }
        }
        if let Some(cve0) = t0.cve_id {
            lookup_after_put(groups, cve, g, cve0);
            if takes_in(groups, key0, t0) && cve0 == cve {
                let o = before->0;
                let i = choose|i: int| 0 <= i < o.assets.len() && o.assets[i] == key0;
                assert(g.assets[i] == key0);
            }
        }
    }
}

proof fn lemma_findings_are_taken_in(
    groups: Groups,
    key: Seq<char>,
    ts: Seq<ThreatEntryView>,
    key0: Seq<char>,
    t0: ThreatEntryView,
)
    ensures
        takes_in(groups, key0, t0) ==> takes_in(with_findings(groups, key, ts), key0, t0),
        forall|k: int|
            0 <= k < ts.len() ==> takes_in(with_findings(groups, key, ts), key, #[trigger] ts[k]),
    decreases ts.len(),
{
    if ts.len() > 0 {
        let d = ts.drop_last();
        let before = with_findings(groups, key, d);
        lemma_findings_are_taken_in(groups, key, d, key0, t0);
        lemma_finding_is_taken_in(before, key, ts.last(), key0, t0);
        assert forall|k: int| 0 <= k < ts.len() implies takes_in(
            with_findings(groups, key, ts),
            key,
            #[trigger] ts[k],
        ) by {
            lemma_finding_is_taken_in(before, key, ts.last(), key, ts[k]);
            if k < d.len() {
                assert(d[k] == ts[k]);
            }
        }
    }
}

/// Every confirmed finding of a CVE is rolled up: the group of that CVE lists its asset,
/// and is no less severe and no less known to be exploited.
pub proof fn every_finding_is_in_its_group(services: Findings, i: int, k: int)
    requires
        0 <= i < services.len(),
        0 <= k < services[i].1.len(),
    ensures
        takes_in(groups_by_cve(services), services[i].0, services[i].1[k]),
    decreases services.len(),
{
    let d = services.drop_last();
    let last = services.last();
    lemma_findings_are_taken_in(groups_by_cve(d), last.0, last.1, services[i].0, services[i].1[k]);
    if i < d.len() {
        assert(d[i] == services[i]);
        every_finding_is_in_its_group(d, i, k);
    }
}

/// Whether one of the findings of the asset is of the CVE.
pub open spec fn is_affected(services: Findings, key: Seq<char>, cve: Seq<char>) -> bool {
    exists|i: int|
        0 <= i < services.len() && (#[trigger] services[i]).0 == key && names_cve(
            services[i].1,
            cve,
        )
}

pub open spec fn names_cve(ts: Seq<ThreatEntryView>, cve: Seq<char>) -> bool {
    exists|k: int| 0 <= k < ts.len() && (#[trigger] ts[k]).cve_id == Some(cve)
}

proof fn lemma_listed_by_findings(
    groups: Groups,
    key: Seq<char>,
    ts: Seq<ThreatEntryView>,
    cve: Seq<char>,
    x: Seq<char>,
)
    requires
        lookup(with_findings(groups, key, ts), cve) matches Some(g) && g.assets.contains(x),
    ensures
        (lookup(groups, cve) matches Some(g) && g.assets.contains(x)) || (x == key && names_cve(
            ts,
            cve,
        )),
    decreases ts.len(),
{
    if ts.len() > 0 {
        let d = ts.drop_last();
        let t = ts.last();
        let before = with_findings(groups, key, d);
        if t.cve_id is Some {
            lookup_after_put(before, t.cve_id->0, joined_group(lookup(before, t.cve_id->0), key, t), cve);
        }
        if t.cve_id == Some(cve) {
            assert(ts[ts.len() - 1].cve_id == Some(cve));
        }
        if lookup(before, cve) matches Some(g) && g.assets.contains(x) {
            lemma_listed_by_findings(groups, key, d, cve, x);
            if names_cve(d, cve) {
                let k = choose|k: int| 0 <= k < d.len() && (#[trigger] d[k]).cve_id == Some(cve);
                assert(ts[k].cve_id == Some(cve));
            }
        }
    }
}

/// A CVE lists only assets that have a confirmed finding of it.
pub proof fn only_affected_assets_are_listed(services: Findings, cve: Seq<char>, x: Seq<char>)
    requires
        lookup(groups_by_cve(services), cve) matches Some(g) && g.assets.contains(x),
    ensures
        is_affected(services, x, cve),
    decreases services.len(),
{
    if services.len() > 0 {
        let d = services.drop_last();
        let last = services.last();
        lemma_listed_by_findings(groups_by_cve(d), last.0, last.1, cve, x);
        if lookup(groups_by_cve(d), cve) matches Some(g) && g.assets.contains(x) {
            only_affected_assets_are_listed(d, cve, x);
            let i = choose|i: int|
                0 <= i < d.len() && (#[trigger] d[i]).0 == x && names_cve(d[i].1, cve);
            assert(services[i].0 == x);
        } else {
            assert(services[services.len() - 1].0 == x);
        }
    }
}

/// Whether one of the findings is of the CVE and has the severity.
pub open spec fn has_severity(ts: Seq<ThreatEntryView>, cve: Seq<char>, sev: Option<Seq<char>>) -> bool {
    exists|k: int|
        0 <= k < ts.len() && (#[trigger] ts[k]).cve_id == Some(cve) && ts[k].severity == sev
}

/// Whether one of the findings is of the CVE and known to be exploited.
pub open spec fn has_exploited(ts: Seq<ThreatEntryView>, cve: Seq<char>) -> bool {
    exists|k: int| 0 <= k < ts.len() && (#[trigger] ts[k]).cve_id == Some(cve) && ts[k].kev
}

proof fn lemma_group_is_reached(
    groups: Groups,
    key: Seq<char>,
    ts: Seq<ThreatEntryView>,
    cve: Seq<char>,
)
    requires
        lookup(with_findings(groups, key, ts), cve) is Some,
    ensures
        ({
            let g = lookup(with_findings(groups, key, ts), cve)->0;
            let o = lookup(groups, cve);
            &&& has_severity(ts, cve, g.severity) || (o is Some && o->0.severity == g.severity)
            &&& g.kev ==> has_exploited(ts, cve) || (o is Some && o->0.kev)
        }),
    decreases ts.len(),
{
    if ts.len() > 0 {
        let d = ts.drop_last();
        let t = ts.last();
        let before = with_findings(groups, key, d);
        let g = lookup(with_findings(groups, key, ts), cve)->0;
        if t.cve_id is Some {
            lookup_after_put(before, t.cve_id->0, joined_group(lookup(before, t.cve_id->0), key, t), cve);
        }
        assert(ts[ts.len() - 1] == t);
        if lookup(before, cve) is Some {
            lemma_group_is_reached(groups, key, d, cve);
            let b = lookup(before, cve)->0;
            if has_severity(d, cve, b.severity) {
                let k = choose|k: int|
                    0 <= k < d.len() && (#[trigger] d[k]).cve_id == Some(cve) && d[k].severity
                        == b.severity;
                assert(ts[k].cve_id == Some(cve) && ts[k].severity == b.severity);
            }
            if has_exploited(d, cve) {
                let k = choose|k: int|
                    0 <= k < d.len() && (#[trigger] d[k]).cve_id == Some(cve) && d[k].kev;
                assert(ts[k].cve_id == Some(cve) && ts[k].kev);
            }
        }
        assert(has_severity(ts, cve, g.severity) || (lookup(groups, cve) is Some && lookup(
            groups,
            cve,
        )->0.severity == g.severity));
    }
}

/// A group is no more severe than its findings are: one of the confirmed findings of the
/// CVE has its severity, and one is known to be exploited where the group is.
pub proof fn groups_are_reached_by_their_findings(services: Findings, cve: Seq<char>)
    requires
        lookup(groups_by_cve(services), cve) is Some,
    ensures
        ({
            let g = lookup(groups_by_cve(services), cve)->0;
            &&& exists|i: int|
                0 <= i < services.len() && has_severity((#[trigger] services[i]).1, cve, g.severity)
            &&& g.kev ==> exists|i: int|
                0 <= i < services.len() && has_exploited((#[trigger] services[i]).1, cve)
        }),
    decreases services.len(),
{
    if services.len() > 0 {
        let d = services.drop_last();
        let last = services[services.len() - 1];
        let o = lookup(groups_by_cve(d), cve);
        let g = lookup(groups_by_cve(services), cve)->0;
        lemma_group_is_reached(groups_by_cve(d), last.0, last.1, cve);
        if o is Some {
            groups_are_reached_by_their_findings(d, cve);
            let i = choose|i: int|
                0 <= i < d.len() && has_severity((#[trigger] d[i]).1, cve, o->0.severity);
            assert(services[i] == d[i]);
            if o->0.kev {
                let j = choose|j: int| 0 <= j < d.len() && has_exploited((#[trigger] d[j]).1, cve);
                assert(services[j] == d[j]);
            }
        }
        if has_severity(last.1, cve, g.severity) {
            assert(has_severity(services[services.len() - 1].1, cve, g.severity));
        }
        if has_exploited(last.1, cve) {
            assert(has_exploited(services[services.len() - 1].1, cve));
        }
    }
}

/// A CVE lists the assets that it affects in order, each of them once.
pub proof fn cve_assets_are_in_order(services: Findings, cve: Seq<char>)
    requires
        in_key_order(services),
    ensures
        match lookup(groups_by_cve(services), cve) {
            Some(g) => strictly_ordered(g.assets),
            None => true,
        },
{
    if services.len() > 0 {
        lemma_groups_ordered(services);
        assert(groups_ordered_to(groups_by_cve(services), services.last().0));
    }
}

proof fn lemma_groups_ordered(services: Findings)
    requires
        in_key_order(services),
        services.len() > 0,
    ensures
        groups_ordered_to(groups_by_cve(services), services.last().0),
    decreases services.len(),
{
    let d = services.drop_last();
    let key = services.last().0;
    assert(in_key_order(d)) by {
        assert forall|a: int, b: int| 0 <= a < b < d.len() implies precedes(
            (#[trigger] d[a]).0,
            (#[trigger] d[b]).0,
        ) by {
            assert(d[a] == services[a] && d[b] == services[b]);
        }
    }
    if d.len() > 0 {
        lemma_groups_ordered(d);
        assert(precedes(services[services.len() - 2].0, services[services.len() - 1].0));
        let g0 = groups_by_cve(d);
        assert forall|c: Seq<char>|
            match #[trigger] lookup(g0, c) {
                Some(g) => strictly_ordered(g.assets) && forall|i: int|
                    0 <= i < g.assets.len() ==> #[trigger] g.assets[i] == key || precedes(
                        g.assets[i],
                        key,
                    ),
                None => true,
            } by {
            if let Some(g) = lookup(g0, c) {
                assert forall|i: int| 0 <= i < g.assets.len() implies #[trigger] g.assets[i] == key
                    || precedes(g.assets[i], key) by {
                    if g.assets[i] != d.last().0 {
                        lemma_precedes_transitive(g.assets[i], d.last().0, key);
                    }
                }
            }
        }
    }
    lemma_findings_ordered(groups_by_cve(d), key, services.last().1);
}

// ── As JSON ──────────────────────────────────────────────────────────────────

/// An array of texts, left out where it is empty.
pub open spec fn filled_items(v: Seq<Seq<char>>) -> Option<JsonView> {
    if v.len() == 0 {
        None
    } else {
        Some(text_items(v))
    }
}

pub open spec fn filled_text(s: Option<Seq<char>>) -> Option<JsonView> {
    match s {
        Some(x) => Some(JsonView::Text(x)),
        None => None,
    }
}

pub open spec fn filled_real(x: Option<RealView>) -> Option<JsonView> {
    match x {
        Some(v) => Some(real_value(v)),
        None => None,
    }
}

/// A finding as it stands in the report.
pub open spec fn entry_json(e: ThreatEntryView) -> JsonView {
    let m = seq![
        ("cveId"@, text_or_null(e.cve_id)),
        ("title"@, text_or_null(e.title)),
        ("severity"@, text_or_null(e.severity)),
        ("cvssScore"@, value_or_null(e.cvss_score)),
    ];
    let m = with_member(m, "cvssVector"@, filled_text(e.cvss_vector));
    let m = with_member(m, "epss"@, filled_real(e.epss));
    let m = m.push(("kev"@, JsonView::Bool(e.kev)));
    let m = m.push(("publishedDate"@, text_or_null(e.published_date)));
    let m = m.push(("affectedVersions"@, value_or_null(e.affected_versions)));
    let m = m.push(("patchAvailable"@, value_or_null(e.patch_available)));
    let m = with_member(m, "references"@, filled_items(e.references));
    let m = m.push(("confirmed"@, JsonView::Bool(e.confirmed)));
    let m = with_member(m, "matchedRange"@, filled_text(e.matched_range));
    let m = m.push(("matchBasis"@, JsonView::Text(e.match_basis)));
    let m = with_member(m, "radarUrl"@, filled_text(e.radar_url));
    let m = with_member(m, "fixedVersions"@, filled_items(e.fixed_versions));
    let m = with_member(m, "remediation"@, filled_text(e.remediation));
    let m = with_member(m, "cwes"@, filled_items(e.cwes));
    JsonView::Object(m)
}

pub(crate) fn items_if_any(v: &Vec<String>) -> (r: Option<Json>)
    ensures
        r.deep_view() == filled_items(views(v@)),
{
    if v.len() == 0 {
        None
    } else {
        Some(text_array(v))
    }
}

pub(crate) fn text_if_any(s: &Option<String>) -> (r: Option<Json>)
    ensures
        r.deep_view() == filled_text(opt_view(*s)),
{
    match s {
        Some(x) => Some(text(x.as_str())),
        None => None,
    }
}

pub(crate) fn real_if_any(x: &Option<Real>) -> (r: Option<Json>)
    ensures
        r.deep_view() == filled_real(x.deep_view()),
{
    match x {
        Some(v) => Some(real_number(v)),
        None => None,
    }
}

impl ThreatEntry {
    /// The finding as it stands in the report.
    pub fn to_json(&self) -> (r: Json)
        ensures
            r.deep_view() == entry_json(self.deep_view()),
    {
        let mut m = no_members();
        push_member(&mut m, "cveId", opt_text(&self.cve_id));
        push_member(&mut m, "title", opt_text(&self.title));
        push_member(&mut m, "severity", opt_text(&self.severity));
        push_member(&mut m, "cvssScore", opt_value(&self.cvss_score));
        assert(m.deep_view() =~= seq![
            ("cveId"@, text_or_null(opt_view(self.cve_id))),
            ("title"@, text_or_null(opt_view(self.title))),
            ("severity"@, text_or_null(opt_view(self.severity))),
            ("cvssScore"@, value_or_null(self.cvss_score.deep_view())),
        ]);
        push_opt_member(&mut m, "cvssVector", text_if_any(&self.cvss_vector));
        push_opt_member(&mut m, "epss", real_if_any(&self.epss));
        push_member(&mut m, "kev", Json::Bool(self.kev));
        push_member(&mut m, "publishedDate", opt_text(&self.published_date));
        push_member(&mut m, "affectedVersions", opt_value(&self.affected_versions));
        push_member(&mut m, "patchAvailable", opt_value(&self.patch_available));
        push_opt_member(&mut m, "references", items_if_any(&self.references));
        push_member(&mut m, "confirmed", Json::Bool(self.confirmed));
        push_opt_member(&mut m, "matchedRange", text_if_any(&self.matched_range));
        push_member(&mut m, "matchBasis", text(self.match_basis.as_str()));
        push_opt_member(&mut m, "radarUrl", text_if_any(&self.radar_url));
        push_opt_member(&mut m, "fixedVersions", items_if_any(&self.fixed_versions));
        push_opt_member(&mut m, "remediation", text_if_any(&self.remediation));
        push_opt_member(&mut m, "cwes", items_if_any(&self.cwes));
        object(m)
    }
}

/// The findings of one asset as they stand in the report.
pub open spec fn entries_json(ts: Seq<ThreatEntryView>) -> JsonView {
    JsonView::Array(Seq::new(ts.len(), |i: int| entry_json(ts[i])))
}

/// The findings by asset as they stand in the report.
pub open spec fn findings_json(m: Findings) -> JsonView {
    JsonView::Object(Seq::new(m.len(), |i: int| (m[i].0, entries_json(m[i].1))))
}

/// A CVE with its assets as it stands in the report.
pub open spec fn group_json(g: CveGroupView) -> JsonView {
    let m = seq![
        ("severity"@, text_or_null(g.severity)),
        ("kev"@, JsonView::Bool(g.kev)),
    ];
    let m = with_member(m, "epss"@, filled_real(g.epss));
    let m = m.push(("title"@, text_or_null(g.title)));
    JsonView::Object(m.push(("assets"@, text_items(g.assets))))
}

pub open spec fn groups_json(m: Groups) -> JsonView {
    JsonView::Object(Seq::new(m.len(), |i: int| (m[i].0, group_json(m[i].1))))
}

/// What is known of an asset as it stands in the report.
pub open spec fn asset_json(a: AssetInfoView) -> JsonView {
    let m = seq![
        ("exe"@, JsonView::Text(a.exe)),
        ("version"@, JsonView::Text(a.version)),
        ("versionSource"@, JsonView::Text(a.version_source)),
        ("exposed"@, JsonView::Bool(a.exposed)),
        ("reachability"@, JsonView::Text(a.reachability)),
    ];
    JsonView::Object(with_member(m, "listeners"@, filled_items(a.listeners)))
}

pub open spec fn assets_json(m: Seq<(Seq<char>, AssetInfoView)>) -> JsonView {
    JsonView::Object(Seq::new(m.len(), |i: int| (m[i].0, asset_json(m[i].1))))
}

pub open spec fn errors_json(m: Seq<(Seq<char>, Seq<char>)>) -> JsonView {
    JsonView::Object(Seq::new(m.len(), |i: int| (m[i].0, JsonView::Text(m[i].1))))
}

/// A part of the report, left out where it is empty.
pub open spec fn unless_empty(n: nat, j: JsonView) -> Option<JsonView> {
    if n == 0 {
        None
    } else {
        Some(j)
    }
}

/// A small whole number as a value.
pub open spec fn count_value(n: u32) -> JsonView {
    let t = decimal(n as nat);
    JsonView::Number(
        NumeralView {
            text: t,
            real: RealView {
                text: t,
                shown: t,
                hundredths: (n * 100) as i64,
                thousandths: (n * 1000) as i64,
            },
            unsigned: Some(n as u64),
        },
    )
}

pub open spec fn meta_json(m: Meta) -> JsonView {
    JsonView::Object(
        seq![
            ("tool"@, JsonView::Text(m.tool@)),
            ("version"@, JsonView::Text(m.version@)),
            ("schemaVersion"@, count_value(m.schema_version)),
        ],
    )
}

/// The report as it is written.
pub open spec fn report_json(r: BatchResults) -> JsonView {
    let m = seq![
        ("meta"@, meta_json(r.meta)),
        ("services"@, findings_json(r.services.deep_view())),
    ];
    let m = with_member(
        m,
        "byCve"@,
        unless_empty(r.by_cve.deep_view().len(), groups_json(r.by_cve.deep_view())),
    );
    let m = with_member(
        m,
        "assets"@,
        unless_empty(r.assets.deep_view().len(), assets_json(r.assets.deep_view())),
    );
    let m = with_member(
        m,
        "unconfirmed"@,
        unless_empty(r.unconfirmed.deep_view().len(), findings_json(r.unconfirmed.deep_view())),
    );
    let m = with_member(
        m,
        "errors"@,
        unless_empty(r.errors.deep_view().len(), errors_json(r.errors.deep_view())),
    );
    JsonView::Object(m)
}

/// The keys of each part of a report stand in order, so that reports can be compared
/// line by line.
pub proof fn keys_of_a_report_are_in_order(r: BatchResults)
    requires
        r.well_formed(),
    ensures
        in_key_order(findings_json(r.services.deep_view())->Object_0),
        in_key_order(groups_json(r.by_cve.deep_view())->Object_0),
        in_key_order(assets_json(r.assets.deep_view())->Object_0),
        in_key_order(findings_json(r.unconfirmed.deep_view())->Object_0),
        in_key_order(errors_json(r.errors.deep_view())->Object_0),
{
    lemma_same_keys(r.services.deep_view(), findings_json(r.services.deep_view())->Object_0);
    lemma_same_keys(r.by_cve.deep_view(), groups_json(r.by_cve.deep_view())->Object_0);
    lemma_same_keys(r.assets.deep_view(), assets_json(r.assets.deep_view())->Object_0);
    lemma_same_keys(r.unconfirmed.deep_view(), findings_json(r.unconfirmed.deep_view())->Object_0);
    lemma_same_keys(r.errors.deep_view(), errors_json(r.errors.deep_view())->Object_0);
}

proof fn lemma_same_keys<A, B>(m: Seq<(Seq<char>, A)>, n: Seq<(Seq<char>, B)>)
    requires
        in_key_order(m),
        m.len() == n.len(),
        forall|i: int| 0 <= i < m.len() ==> (#[trigger] n[i]).0 == m[i].0,
    ensures
        in_key_order(n),
{
    assert forall|i: int, j: int| 0 <= i < j < n.len() implies precedes(
        (#[trigger] n[i]).0,
        (#[trigger] n[j]).0,
    ) by {
        assert(precedes(m[i].0, m[j].0));
    }
}

fn entry_list_json(v: &Vec<ThreatEntry>) -> (r: Json)
    ensures
        r.deep_view() == entries_json(v.deep_view()),
{
    let mut out: Vec<Json> = Vec::new();
    let mut i: usize = 0;
    while i < v.len()
        invariant
            i <= v@.len(),
            out@.len() == i,
            forall|k: int|
                0 <= k < i ==> (#[trigger] out@[k]).deep_view() == entry_json(v@[k].deep_view()),
        decreases v@.len() - i,
    {
        out.push(v[i].to_json());
        i += 1;
    }
    let r = array(out);
    assert(r.deep_view()->Array_0 =~= entries_json(v.deep_view())->Array_0);
    r
}

fn findings_to_json(t: &Table<Vec<ThreatEntry>>) -> (r: Json)
    ensures
        r.deep_view() == findings_json(t.deep_view()),
{
    let ghost m = t.deep_view();
    let mut out = no_members();
    let mut i: usize = 0;
    while i < t.len()
        invariant
            i <= m.len(),
            m == t.deep_view(),
            out.deep_view().len() == i,
            forall|k: int|
                0 <= k < i ==> #[trigger] out.deep_view()[k] == (m[k].0, entries_json(m[k].1)),
        decreases m.len() - i,
    {
        push_member(&mut out, t.key(i).as_str(), entry_list_json(t.value(i)));
        i += 1;
    }
    assert(out.deep_view() =~= findings_json(m)->Object_0);
    object(out)
}

fn group_to_json(g: &CveGroup) -> (r: Json)
    ensures
        r.deep_view() == group_json(g.deep_view()),
{
    let mut m = no_members();
    push_member(&mut m, "severity", opt_text(&g.severity));
    push_member(&mut m, "kev", Json::Bool(g.kev));
    assert(m.deep_view() =~= seq![
        ("severity"@, text_or_null(opt_view(g.severity))),
        ("kev"@, JsonView::Bool(g.kev)),
    ]);
    push_opt_member(&mut m, "epss", real_if_any(&g.epss));
    push_member(&mut m, "title", opt_text(&g.title));
    push_member(&mut m, "assets", text_array(&g.assets));
    object(m)
}

fn groups_to_json(t: &Table<CveGroup>) -> (r: Json)
    ensures
        r.deep_view() == groups_json(t.deep_view()),
{
    let ghost m = t.deep_view();
    let mut out = no_members();
    let mut i: usize = 0;
    while i < t.len()
        invariant
            i <= m.len(),
            m == t.deep_view(),
            out.deep_view().len() == i,
            forall|k: int|
                0 <= k < i ==> #[trigger] out.deep_view()[k] == (m[k].0, group_json(m[k].1)),
        decreases m.len() - i,
    {
        push_member(&mut out, t.key(i).as_str(), group_to_json(t.value(i)));
        i += 1;
    }
    assert(out.deep_view() =~= groups_json(m)->Object_0);
    object(out)
}

fn asset_to_json(a: &AssetInfo) -> (r: Json)
    ensures
        r.deep_view() == asset_json(a.deep_view()),
{
    let mut m = no_members();
    push_member(&mut m, "exe", text(a.exe.as_str()));
    push_member(&mut m, "version", text(a.version.as_str()));
    push_member(&mut m, "versionSource", text(a.version_source.as_str()));
    push_member(&mut m, "exposed", Json::Bool(a.exposed));
    push_member(&mut m, "reachability", text(a.reachability.as_str()));
    assert(m.deep_view() =~= seq![
        ("exe"@, JsonView::Text(a.exe@)),
        ("version"@, JsonView::Text(a.version@)),
        ("versionSource"@, JsonView::Text(a.version_source@)),
        ("exposed"@, JsonView::Bool(a.exposed)),
        ("reachability"@, JsonView::Text(a.reachability@)),
    ]);
    push_opt_member(&mut m, "listeners", items_if_any(&a.listeners));
    object(m)
}

fn assets_to_json(t: &Table<AssetInfo>) -> (r: Json)
    ensures
        r.deep_view() == assets_json(t.deep_view()),
{
    let ghost m = t.deep_view();
    let mut out = no_members();
    let mut i: usize = 0;
    while i < t.len()
        invariant
            i <= m.len(),
            m == t.deep_view(),
            out.deep_view().len() == i,
            forall|k: int|
                0 <= k < i ==> #[trigger] out.deep_view()[k] == (m[k].0, asset_json(m[k].1)),
        decreases m.len() - i,
    {
        push_member(&mut out, t.key(i).as_str(), asset_to_json(t.value(i)));
        i += 1;
    }
    assert(out.deep_view() =~= assets_json(m)->Object_0);
    object(out)
}

pub(crate) fn errors_to_json(t: &Table<String>) -> (r: Json)
    ensures
        r.deep_view() == errors_json(t.deep_view()),
{
    let ghost m = t.deep_view();
    let mut out = no_members();
    let mut i: usize = 0;
    while i < t.len()
        invariant
            i <= m.len(),
            m == t.deep_view(),
            out.deep_view().len() == i,
            forall|k: int|
                0 <= k < i ==> #[trigger] out.deep_view()[k] == (m[k].0, JsonView::Text(m[k].1)),
        decreases m.len() - i,
    {
        push_member(&mut out, t.key(i).as_str(), text(t.value(i).as_str()));
        i += 1;
    }
    assert(out.deep_view() =~= errors_json(m)->Object_0);
    object(out)
}

fn count_to_json(n: u32) -> (r: Json)
    ensures
        r.deep_view() == count_value(n),
{
    let t = to_decimal(n as u64);
    Json::Number(
        Numeral {
            text: t.clone(),
            real: Real {
                text: t.clone(),
                shown: t,
                hundredths: n as i64 * 100,
                thousandths: n as i64 * 1000,
            },
            unsigned: Some(n as u64),
        },
    )
}

impl BatchResults {
    /// The report as it is written.
    pub fn to_json(&self) -> (r: Json)
        ensures
            r.deep_view() == report_json(*self),
    {
        let mut meta = no_members();
        push_member(&mut meta, "tool", text(self.meta.tool));
        push_member(&mut meta, "version", text(self.meta.version));
        push_member(&mut meta, "schemaVersion", count_to_json(self.meta.schema_version));
        assert(meta.deep_view() =~= meta_json(self.meta)->Object_0);
        let mut m = no_members();
        push_member(&mut m, "meta", object(meta));
        push_member(&mut m, "services", findings_to_json(&self.services));
        assert(m.deep_view() =~= seq![
            ("meta"@, meta_json(self.meta)),
            ("services"@, findings_json(self.services.deep_view())),
        ]);
        if !self.by_cve.is_empty() {
            push_member(&mut m, "byCve", groups_to_json(&self.by_cve));
        }
        if !self.assets.is_empty() {
            push_member(&mut m, "assets", assets_to_json(&self.assets));
        }
        if !self.unconfirmed.is_empty() {
            push_member(&mut m, "unconfirmed", findings_to_json(&self.unconfirmed));
        }
        if !self.errors.is_empty() {
            push_member(&mut m, "errors", errors_to_json(&self.errors));
        }
        object(m)
    }
}

} // verus!
