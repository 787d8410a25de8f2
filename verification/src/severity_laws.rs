//! What the severities mean, to the floor of a report and to the findings that fail a run.

use vstd::prelude::*;

use crate::service_findings;
use crate::service_report;

use crate::api::{hit_entry, rank_of, MatchHitView, ThreatEntryView};
use crate::gate::{fails, floor_of, key_is_exposed, some_finding_fails, FailOn, Severity};
use crate::report::{AssetInfoView, Findings};
use crate::scan::{answered, is_kept, outcome_of, ScanPlanView, SearchedView};
use crate::scan_laws::{kept_hits_are_reported, stands_for};
use crate::table::lookup;
use crate::text::{ascii_lower, is_upper};

verus! {

// ── Ranks ────────────────────────────────────────────────────────────────────

proof fn lemma_small_letters_stay(s: Seq<char>)
    requires
        forall|i: int| 0 <= i < s.len() ==> !is_upper(#[trigger] s[i]),
    ensures
        ascii_lower(s) == s,
{
    assert(ascii_lower(s) =~= s);
}

proof fn lemma_names()
    ensures
        ascii_lower("critical"@) == "critical"@,
        ascii_lower("high"@) == "high"@,
        ascii_lower("medium"@) == "medium"@,
        ascii_lower("low"@) == "low"@,
        "critical"@.len() == 8,
        "high"@.len() == 4,
        "medium"@.len() == 6,
        "low"@.len() == 3,
{
    reveal_strlit("critical");
    reveal_strlit("high");
    reveal_strlit("medium");
    reveal_strlit("low");
    lemma_small_letters_stay("critical"@);
    lemma_small_letters_stay("high"@);
    lemma_small_letters_stay("medium"@);
    lemma_small_letters_stay("low"@);
}

/// The severities that have a name are ranked: a critical one before a high one, that
/// before a medium one, that before a low one, and each before one that has no name or
/// another name. The case of a name does not matter.
pub proof fn severities_are_ranked(s: Seq<char>, t: Seq<char>)
    ensures
        rank_of(Some("critical"@)) > rank_of(Some("high"@)),
        rank_of(Some("high"@)) > rank_of(Some("medium"@)),
        rank_of(Some("medium"@)) > rank_of(Some("low"@)),
        rank_of(Some("low"@)) > rank_of(None),
        ascii_lower(s) == ascii_lower(t) ==> rank_of(Some(s)) == rank_of(Some(t)),
        rank_of(Some(s)) == rank_of(Some("critical"@)) <==> ascii_lower(s) == "critical"@,
        rank_of(Some(s)) == rank_of(Some("high"@)) <==> ascii_lower(s) == "high"@,
        rank_of(Some(s)) == rank_of(Some("medium"@)) <==> ascii_lower(s) == "medium"@,
        rank_of(Some(s)) == rank_of(Some("low"@)) <==> ascii_lower(s) == "low"@,
        rank_of(None) <= rank_of(Some(s)) <= rank_of(Some("critical"@)),
{
    lemma_names();
}

// ── The floor ────────────────────────────────────────────────────────────────

/// A severity is asked for by the name that the findings have it by, and its floor is the
/// rank of that name; where none is asked for, the floor is that of a finding without one.
pub proof fn the_floor_is_the_rank_of_the_severity(s: Severity)
    ensures
        floor_of(Some(s)) == rank_of(Some(s.name())),
        floor_of(None) == rank_of(None),
        s.name() == match s {
            Severity::Critical => "critical"@,
            Severity::High => "high"@,
            Severity::Medium => "medium"@,
            Severity::Low => "low"@,
        },
{
    lemma_names();
}

/// Only findings at or above the severity that was asked for are kept, and all of them; those
/// that are known to be exploited are kept whatever their severity.
pub proof fn findings_at_or_above_the_severity_are_kept(e: ThreatEntryView, s: Severity)
    ensures
        rank_of(e.severity) >= rank_of(Some(s.name())) ==> is_kept(e, floor_of(Some(s))),
        rank_of(e.severity) < rank_of(Some(s.name())) && !e.kev ==> !is_kept(e, floor_of(Some(s))),
        e.severity == Some(s.name()) ==> is_kept(e, floor_of(Some(s))),
        e.kev ==> is_kept(e, floor_of(Some(s))),
        is_kept(e, floor_of(None)),
{
    the_floor_is_the_rank_of_the_severity(s);
    lemma_names();
}

/// Who asks for a lower severity sees no finding less.
pub proof fn a_lower_floor_hides_nothing_more(e: ThreatEntryView, s: Severity)
    ensures
        is_kept(e, floor_of(Some(Severity::Critical))) ==> is_kept(e, floor_of(Some(Severity::High))),
        is_kept(e, floor_of(Some(Severity::High))) ==> is_kept(e, floor_of(Some(Severity::Medium))),
        is_kept(e, floor_of(Some(Severity::Medium))) ==> is_kept(e, floor_of(Some(Severity::Low))),
        is_kept(e, floor_of(Some(s))) ==> is_kept(e, floor_of(None)),
{
}

/// A hit that has the severity that was asked for, or a higher one, is in the report.
pub proof fn hits_of_the_severity_are_reported(
    plan: ScanPlanView,
    answers: Seq<Seq<MatchHitView>>,
    replies: Seq<SearchedView>,
    s: Severity,
    i: int,
    h: int,
)
    requires
        0 <= i < answered(plan.query_keys, answers),
        0 <= h < answers[i].len(),
        rank_of(answers[i][h].severity) >= rank_of(Some(s.name())),
    ensures
        match outcome_of(plan, answers, replies, floor_of(Some(s))) {
            Ok((confirmed, unconfirmed, errors)) => {
                let e = hit_entry(answers[i][h]);
                let m = if answers[i][h].confirmed {
                    confirmed
                } else {
                    unconfirmed
                };
                lookup(m, plan.query_keys[i]) matches Some(b) && stands_for(b, e)
            },
            Err(_) => true,
        },
{
    the_floor_is_the_rank_of_the_severity(s);
    kept_hits_are_reported(plan, answers, replies, floor_of(Some(s)), i, h);
}

// ── What fails a run ─────────────────────────────────────────────────────────

/// A finding fails a run on a severity exactly when it has that severity or a higher one, so
/// that what fails a run on one severity fails a run on each lower one.
pub proof fn findings_at_or_above_the_severity_fail(t: ThreatEntryView, exposed: bool)
    ensures
        fails(FailOn::Critical, t, exposed) <==> rank_of(t.severity) >= rank_of(Some("critical"@)),
        fails(FailOn::High, t, exposed) <==> rank_of(t.severity) >= rank_of(Some("high"@)),
        fails(FailOn::Medium, t, exposed) <==> rank_of(t.severity) >= rank_of(Some("medium"@)),
        fails(FailOn::Low, t, exposed) <==> rank_of(t.severity) >= rank_of(Some("low"@)),
        fails(FailOn::Critical, t, exposed) ==> fails(FailOn::High, t, exposed),
        fails(FailOn::High, t, exposed) ==> fails(FailOn::Medium, t, exposed),
        fails(FailOn::Medium, t, exposed) ==> fails(FailOn::Low, t, exposed),
        fails(FailOn::Any, t, exposed),
        fails(FailOn::Kev, t, exposed) <==> t.kev,
        fails(FailOn::Exposed, t, exposed) <==> exposed,
{
    lemma_names();
}

/// Of two findings, the one with the higher severity fails a run on a severity whenever the
/// other does.
pub proof fn a_higher_severity_fails_too(
    low: ThreatEntryView,
    high: ThreatEntryView,
    exposed: bool,
    on: FailOn,
)
    requires
        rank_of(low.severity) <= rank_of(high.severity),
        on != FailOn::Kev,
        fails(on, low, exposed),
    ensures
        fails(on, high, exposed),
{
}

/// A report fails a run on a severity exactly when one of its confirmed findings has it or a
/// higher one, on any finding when there is one, on exploited findings when one is known to
/// be exploited, and on exposed ones when one is of an asset that is exposed.
pub proof fn one_finding_fails_the_run(
    services: Findings,
    assets: Seq<(Seq<char>, AssetInfoView)>,
    i: int,
    k: int,
)
    requires
        0 <= i < services.len(),
        0 <= k < services[i].1.len(),
    ensures
        ({
            let t = services[i].1[k];
            &&& rank_of(t.severity) >= rank_of(Some("critical"@)) ==> some_finding_fails(
                services,
                assets,
                FailOn::Critical,
            )
            &&& rank_of(t.severity) >= rank_of(Some("high"@)) ==> some_finding_fails(
                services,
                assets,
                FailOn::High,
            )
            &&& rank_of(t.severity) >= rank_of(Some("medium"@)) ==> some_finding_fails(
                services,
                assets,
                FailOn::Medium,
            )
            &&& rank_of(t.severity) >= rank_of(Some("low"@)) ==> some_finding_fails(
                services,
                assets,
                FailOn::Low,
            )
            &&& some_finding_fails(services, assets, FailOn::Any)
            &&& t.kev ==> some_finding_fails(services, assets, FailOn::Kev)
            &&& (lookup(assets, services[i].0) matches Some(a) && a.exposed)
                ==> some_finding_fails(services, assets, FailOn::Exposed)
        }),
{
    let t = services[i].1[k];
    let exposed = key_is_exposed(assets, services[i].0);
    findings_at_or_above_the_severity_fail(t, exposed);
    assert(fails(FailOn::Any, t, exposed));
    if fails(FailOn::Critical, t, exposed) {
        assert(some_finding_fails(services, assets, FailOn::Critical));
    }
    if fails(FailOn::High, t, exposed) {
        assert(some_finding_fails(services, assets, FailOn::High));
    }
    if fails(FailOn::Medium, t, exposed) {
        assert(some_finding_fails(services, assets, FailOn::Medium));
    }
    if fails(FailOn::Low, t, exposed) {
        assert(some_finding_fails(services, assets, FailOn::Low));
    }
    if fails(FailOn::Kev, t, exposed) {
        assert(some_finding_fails(services, assets, FailOn::Kev));
    }
    if fails(FailOn::Exposed, t, exposed) {
        assert(some_finding_fails(services, assets, FailOn::Exposed));
    }
}

/// A report without a finding that a run is to fail on does not fail it.
pub proof fn no_run_fails_without_a_finding(
    services: Findings,
    assets: Seq<(Seq<char>, AssetInfoView)>,
)
    ensures
        some_finding_fails(services, assets, FailOn::Any) ==> exists|i: int, k: int|
            #![trigger services[i].1[k]]
            0 <= i < services.len() && 0 <= k < services[i].1.len(),
        some_finding_fails(services, assets, FailOn::Critical) ==> exists|i: int, k: int|
            0 <= i < services.len() && 0 <= k < services[i].1.len() && rank_of(
                (#[trigger] services[i].1[k]).severity,
            ) >= rank_of(Some("critical"@)),
        some_finding_fails(services, assets, FailOn::High) ==> exists|i: int, k: int|
            0 <= i < services.len() && 0 <= k < services[i].1.len() && rank_of(
                (#[trigger] services[i].1[k]).severity,
            ) >= rank_of(Some("high"@)),
        some_finding_fails(services, assets, FailOn::Medium) ==> exists|i: int, k: int|
            0 <= i < services.len() && 0 <= k < services[i].1.len() && rank_of(
                (#[trigger] services[i].1[k]).severity,
            ) >= rank_of(Some("medium"@)),
        some_finding_fails(services, assets, FailOn::Low) ==> exists|i: int, k: int|
            0 <= i < services.len() && 0 <= k < services[i].1.len() && rank_of(
                (#[trigger] services[i].1[k]).severity,
            ) >= rank_of(Some("low"@)),
        some_finding_fails(services, assets, FailOn::Kev) ==> exists|i: int, k: int|
            0 <= i < services.len() && 0 <= k < services[i].1.len() && (
            #[trigger] services[i].1[k]).kev,
        some_finding_fails(services, assets, FailOn::Exposed) ==> exists|i: int, k: int|
            #![trigger services[i].1[k]]
            0 <= i < services.len() && 0 <= k < services[i].1.len() && (lookup(assets, services[i].0) matches Some(a)
                && a.exposed),
{
    lemma_names();
}

// ── What fails a run by name ─────────────────────────────────────────────────

/// The findings of services that were looked up by name fail a run as the others do.
pub proof fn findings_by_name_fail_alike(t: service_findings::ThreatEntryView, exposed: bool)
    ensures
        service_report::fails(FailOn::Critical, t, exposed) <==> rank_of(t.severity) >= rank_of(
            Some("critical"@),
        ),
        service_report::fails(FailOn::High, t, exposed) <==> rank_of(t.severity) >= rank_of(
            Some("high"@),
        ),
        service_report::fails(FailOn::Medium, t, exposed) <==> rank_of(t.severity) >= rank_of(
            Some("medium"@),
        ),
        service_report::fails(FailOn::Low, t, exposed) <==> rank_of(t.severity) >= rank_of(
            Some("low"@),
        ),
        service_report::fails(FailOn::Any, t, exposed),
        service_report::fails(FailOn::Kev, t, exposed) <==> t.kev,
        service_report::fails(FailOn::Exposed, t, exposed) <==> exposed,
{
    lemma_names();
}

/// A finding of a service, or of the system itself, fails the run where it fails by itself;
/// the system is not exposed.
pub proof fn one_finding_by_name_fails_the_run(
    r: service_findings::BatchResults,
    on: FailOn,
    i: int,
    k: int,
)
    ensures
        ({
            let m = r.services.deep_view();
            0 <= i < m.len() && 0 <= k < m[i].1.len() && service_report::fails(
                on,
                m[i].1[k],
                lookup(r.assets.deep_view(), m[i].0) matches Some(a) && a.exposed,
            )
        }) ==> service_report::some_finding_fails(r, on),
        (r.system matches Some(t) && 0 <= i < t.deep_view().len() && 0 <= k
            < t.deep_view()[i].1.len() && service_report::fails(on, t.deep_view()[i].1[k], false))
            ==> service_report::some_finding_fails(r, on),
{
}

} // verus!
