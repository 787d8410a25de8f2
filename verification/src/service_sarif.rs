//! The report of looking services up by name as SARIF.

use vstd::prelude::*;

use crate::api;

use crate::json::{Json, JsonView};
use crate::report::Findings;
use crate::sarif::{
    all_results, document, push_findings, rule_has_the_highest_score, scored, scores_only_rise, with_findings,
    write_document, Rule, Rules,
};
use crate::service_findings::{BatchResults, ThreatEntry, ThreatEntryView};
use crate::service_lookup::MatchBasis;
use crate::service_report::{basis_name, ServiceFindings};
use crate::table::{in_key_order, Table};
use crate::text::{copy_opt_string, copy_strings, own, views};

verus! {

/// A finding by name in the terms of one of the match API: what only the match API
/// tells of a finding is not known of it.
pub open spec fn as_finding(e: ThreatEntryView) -> api::ThreatEntryView {
    api::ThreatEntryView {
        cve_id: e.cve_id,
        title: e.title,
        severity: e.severity,
        cvss_score: e.cvss_score,
        cvss_vector: e.cvss_vector,
        epss: e.epss,
        kev: e.kev,
        published_date: e.published_date,
        affected_versions: e.affected_versions,
        patch_available: e.patch_available,
        references: e.references,
        confirmed: e.match_basis == MatchBasis::Constraint,
        matched_range: None,
        match_basis: basis_name(e.match_basis),
        radar_url: None,
        fixed_versions: Seq::empty(),
        remediation: None,
        cwes: Seq::empty(),
    }
}

impl ThreatEntry {
    /// The finding in the terms of one of the match API.
    pub fn to_finding(&self) -> (r: api::ThreatEntry)
        ensures
            r.deep_view() == as_finding(self.deep_view()),
    {
        let r = api::ThreatEntry {
            cve_id: copy_opt_string(&self.cve_id),
            title: copy_opt_string(&self.title),
            severity: copy_opt_string(&self.severity),
            cvss_score: api::copy_opt_json(&self.cvss_score),
            cvss_vector: copy_opt_string(&self.cvss_vector),
            epss: api::copy_opt_real(&self.epss),
            kev: self.kev,
            published_date: copy_opt_string(&self.published_date),
            affected_versions: api::copy_opt_json(&self.affected_versions),
            patch_available: api::copy_opt_json(&self.patch_available),
            references: copy_strings(&self.references),
            confirmed: match self.match_basis {
                MatchBasis::Constraint => true,
                MatchBasis::FreeText => false,
            },
            matched_range: None,
            match_basis: match self.match_basis {
                MatchBasis::Constraint => own("constraint"),
                MatchBasis::FreeText => own("freetext"),
            },
            radar_url: None,
            fixed_versions: Vec::new(),
            remediation: None,
            cwes: Vec::new(),
        };
        assert(views(r.fixed_versions@) =~= Seq::empty());
        assert(views(r.cwes@) =~= Seq::empty());
        r
    }
}

pub open spec fn as_entries(ts: Seq<ThreatEntryView>) -> Seq<api::ThreatEntryView> {
    Seq::new(ts.len(), |i: int| as_finding(ts[i]))
}

/// The findings of each asset in the terms of the match API.
pub open spec fn as_findings(m: ServiceFindings) -> Findings {
    Seq::new(m.len(), |i: int| (m[i].0, as_entries(m[i].1)))
}

fn to_entries(v: &Vec<ThreatEntry>) -> (r: Vec<api::ThreatEntry>)
    ensures
        r.deep_view() == as_entries(v.deep_view()),
{
    let ghost ts = v.deep_view();
    let mut out: Vec<api::ThreatEntry> = Vec::new();
    let mut i: usize = 0;
    while i < v.len()
        invariant
            i <= v@.len(),
            ts == v.deep_view(),
            out.deep_view() == as_entries(ts).take(i as int),
        decreases v@.len() - i,
    {
        let ghost before = out.deep_view();
        let e = v[i].to_finding();
        out.push(e);
        assert(out.deep_view() =~= before.push(e.deep_view()));
        assert(as_entries(ts).take(i + 1) =~= as_entries(ts).take(i as int).push(
            as_entries(ts)[i as int],
        ));
        i += 1;
    }
    assert(as_entries(ts).take(ts.len() as int) =~= as_entries(ts));
    out
}

fn to_findings(t: &Table<Vec<ThreatEntry>>) -> (r: Table<Vec<api::ThreatEntry>>)
    requires
        t.well_formed(),
    ensures
        r.well_formed(),
        r.deep_view() == as_findings(t.deep_view()),
{
    let ghost m = t.deep_view();
    let mut out: Vec<(String, Vec<api::ThreatEntry>)> = Vec::new();
    let mut i: usize = 0;
    while i < t.len()
        invariant
            i <= m.len(),
            m == t.deep_view(),
            out.deep_view() == as_findings(m).take(i as int),
        decreases m.len() - i,
    {
        let ghost before = out.deep_view();
        let e = (t.key(i).clone(), to_entries(t.value(i)));
        out.push(e);
        assert(out.deep_view() =~= before.push(e.deep_view()));
        assert(as_findings(m).take(i + 1) =~= as_findings(m).take(i as int).push(
            as_findings(m)[i as int],
        ));
        i += 1;
    }
    assert(as_findings(m).take(m.len() as int) =~= as_findings(m));
    assert(in_key_order(out.deep_view())) by {
        assert(in_key_order(m));
    }
    Table::from_entries(out)
}

/// The findings of the system, none where it was not asked for.
pub open spec fn system_of(r: BatchResults) -> ServiceFindings {
    match r.system {
        Some(t) => t.deep_view(),
        None => Seq::empty(),
    }
}

/// The rules of the findings of the services and of the system.
pub open spec fn report_rules(r: BatchResults) -> Rules {
    with_findings(
        with_findings(Seq::empty(), as_findings(r.services.deep_view())),
        as_findings(system_of(r)),
    )
}

/// The report as SARIF: the findings of the services, then those of the system.
pub open spec fn service_sarif(r: BatchResults) -> JsonView {
    document(
        report_rules(r),
        all_results(as_findings(r.services.deep_view())) + all_results(as_findings(system_of(r))),
    )
}

/// The report as SARIF: one rule for each CVE, and one result for each finding of
/// each service, then of the system.
pub fn to_sarif(results: &BatchResults) -> (r: Json)
    requires
        results.well_formed(),
    ensures
        r.deep_view() == service_sarif(*results),
{
    let mut rules: Table<Rule> = Table::new();
    let mut out: Vec<Json> = Vec::new();
    assert(rules.deep_view() =~= Seq::empty());
    assert(out.deep_view() =~= Seq::empty());
    push_findings(&mut rules, &mut out, &to_findings(&results.services));
    let ghost services = all_results(as_findings(results.services.deep_view()));
    assert(out.deep_view() =~= services);
    match &results.system {
        Some(t) => {
            push_findings(&mut rules, &mut out, &to_findings(t));
        },
        None => {
            assert(as_findings(system_of(*results)) =~= Seq::empty());
            assert(out.deep_view() =~= services + all_results(as_findings(system_of(*results))));
        },
    }
    write_document(&rules, out)
}

/// Every finding of a service or of the system has a rule for its CVE, and the score of
/// that rule is no lower than that of the finding.
pub proof fn every_finding_has_a_rule(r: BatchResults, i: int, k: int)
    ensures
        ({
            let m = r.services.deep_view();
            0 <= i < m.len() && 0 <= k < m[i].1.len() ==> scored(
                report_rules(r),
                as_finding(m[i].1[k]),
            )
        }),
        ({
            let m = system_of(r);
            0 <= i < m.len() && 0 <= k < m[i].1.len() ==> scored(
                report_rules(r),
                as_finding(m[i].1[k]),
            )
        }),
{
    let services = as_findings(r.services.deep_view());
    let system = as_findings(system_of(r));
    let rules = with_findings(Seq::empty(), services);
    if 0 <= i < services.len() && 0 <= k < services[i].1.len() {
        rule_has_the_highest_score(Seq::empty(), services, i, k);
        scores_only_rise(rules, system, services[i].1[k]);
    }
    if 0 <= i < system.len() && 0 <= k < system[i].1.len() {
        rule_has_the_highest_score(rules, system, i, k);
    }
}

} // verus!
