//! What the reports say, as JSON and as SARIF.

use vstd::prelude::*;

use crate::service_findings;

use crate::service_report;

use crate::api::{rank_of, ThreatEntryView};
use crate::json::{real_value, text_items, text_or_null, value_or_null, with_member, JsonView};
use crate::query::{query_json, request_json, MatchQueryView};
use crate::report::{
    asset_json, assets_json, count_findings, entries_json, entry_json, errors_json, findings_json, group_json,
    groups_json, joined_group, meta_json, report_json, AssetInfoView, BatchResults, CveGroupView, Findings,
};
use crate::sarif::{
    advice_of, all_results, asset_results, fixes_of, level_of, location_of, message_of, properties_of, result_json,
    rule_id, rule_json, rule_with, sarif_of, score_of, text_object, RuleView,
};
use crate::service_lookup::MatchBasis;
use crate::service_sarif::as_finding;
use crate::severity_laws::severities_are_ranked;
use crate::split::joined;
use crate::text::{has_prefix, has_suffix};

verus! {

type Members = Seq<(Seq<char>, JsonView)>;

/// Whether an object has a member with this name and this value.
pub open spec fn says(j: JsonView, key: Seq<char>, v: JsonView) -> bool {
    j matches JsonView::Object(m) && m.contains((key, v))
}

broadcast proof fn lemma_pushed_is_there(m: Members, x: (Seq<char>, JsonView), y: (Seq<char>, JsonView))
    ensures
        #[trigger] m.push(y).contains(x) <==> x == y || m.contains(x),
{
    if x == y {
        assert(m.push(y)[m.len() as int] == x);
    }
    if m.contains(x) {
        let i = choose|i: int| 0 <= i < m.len() && m[i] == x;
        assert(m.push(y)[i] == x);
    }
    if m.push(y).contains(x) && x != y {
        let i = choose|i: int| 0 <= i < m.push(y).len() && m.push(y)[i] == x;
        assert(m[i] == x);
    }
}

broadcast proof fn lemma_member_is_there(
    m: Members,
    key: Seq<char>,
    v: Option<JsonView>,
    x: (Seq<char>, JsonView),
)
    ensures
        #[trigger] with_member(m, key, v).contains(x) <==> (v matches Some(w) && x == (key, w))
            || m.contains(x),
{
    if let Some(w) = v {
        lemma_pushed_is_there(m, x, (key, w));
    }
}

// ── JSON ─────────────────────────────────────────────────────────────────────

/// The JSON of a finding says which CVE it is, how severe, whether it is known to be exploited and
/// whether it is confirmed, and how it was found.
pub proof fn the_json_of_a_finding_says_what_it_is(e: ThreatEntryView)
    ensures
        ({
            let j = entry_json(e);
            &&& says(j, "cveId"@, text_or_null(e.cve_id))
            &&& says(j, "title"@, text_or_null(e.title))
            &&& says(j, "severity"@, text_or_null(e.severity))
            &&& says(j, "cvssScore"@, value_or_null(e.cvss_score))
            &&& says(j, "kev"@, JsonView::Bool(e.kev))
            &&& says(j, "confirmed"@, JsonView::Bool(e.confirmed))
            &&& says(j, "matchBasis"@, JsonView::Text(e.match_basis))
            &&& says(j, "publishedDate"@, text_or_null(e.published_date))
            &&& says(j, "affectedVersions"@, value_or_null(e.affected_versions))
            &&& says(j, "patchAvailable"@, value_or_null(e.patch_available))
        }),
{
    broadcast use {lemma_pushed_is_there, lemma_member_is_there};

    let m = seq![
        ("cveId"@, text_or_null(e.cve_id)),
        ("title"@, text_or_null(e.title)),
        ("severity"@, text_or_null(e.severity)),
        ("cvssScore"@, value_or_null(e.cvss_score)),
    ];
    assert(m[0] == ("cveId"@, text_or_null(e.cve_id)));
    assert(m[1] == ("title"@, text_or_null(e.title)));
    assert(m[2] == ("severity"@, text_or_null(e.severity)));
    assert(m[3] == ("cvssScore"@, value_or_null(e.cvss_score)));
}

/// The JSON of a finding says more where more is known: its EPSS, the range that the version lies
/// in, its page, what fixes it, its references and its weaknesses.
pub proof fn the_json_of_a_finding_says_what_more_is_known(e: ThreatEntryView)
    ensures
        ({
            let j = entry_json(e);
            &&& e.cvss_vector matches Some(s) ==> says(j, "cvssVector"@, JsonView::Text(s))
            &&& e.epss matches Some(x) ==> says(j, "epss"@, real_value(x))
            &&& e.references.len() > 0 ==> says(j, "references"@, text_items(e.references))
            &&& e.matched_range matches Some(s) ==> says(j, "matchedRange"@, JsonView::Text(s))
            &&& e.radar_url matches Some(s) ==> says(j, "radarUrl"@, JsonView::Text(s))
            &&& e.fixed_versions.len() > 0 ==> says(
                j,
                "fixedVersions"@,
                text_items(e.fixed_versions),
            )
            &&& e.remediation matches Some(s) ==> says(j, "remediation"@, JsonView::Text(s))
            &&& e.cwes.len() > 0 ==> says(j, "cwes"@, text_items(e.cwes))
        }),
{
    broadcast use {lemma_pushed_is_there, lemma_member_is_there};

}

/// The JSON of an asset says where it is, its version, and how far it can be reached.
pub proof fn the_json_of_an_asset_says_how_far_it_can_be_reached(a: AssetInfoView)
    ensures
        ({
            let j = asset_json(a);
            &&& says(j, "exe"@, JsonView::Text(a.exe))
            &&& says(j, "version"@, JsonView::Text(a.version))
            &&& says(j, "versionSource"@, JsonView::Text(a.version_source))
            &&& says(j, "exposed"@, JsonView::Bool(a.exposed))
            &&& says(j, "reachability"@, JsonView::Text(a.reachability))
            &&& a.listeners.len() > 0 ==> says(j, "listeners"@, text_items(a.listeners))
        }),
{
    broadcast use {lemma_pushed_is_there, lemma_member_is_there};

    let m = seq![
        ("exe"@, JsonView::Text(a.exe)),
        ("version"@, JsonView::Text(a.version)),
        ("versionSource"@, JsonView::Text(a.version_source)),
        ("exposed"@, JsonView::Bool(a.exposed)),
        ("reachability"@, JsonView::Text(a.reachability)),
    ];
    assert(m[0] == ("exe"@, JsonView::Text(a.exe)));
    assert(m[1] == ("version"@, JsonView::Text(a.version)));
    assert(m[2] == ("versionSource"@, JsonView::Text(a.version_source)));
    assert(m[3] == ("exposed"@, JsonView::Bool(a.exposed)));
    assert(m[4] == ("reachability"@, JsonView::Text(a.reachability)));
}

/// The JSON of a CVE says how severe it is, whether it is known to be exploited, and which assets
/// it affects.
pub proof fn the_json_of_a_cve_says_which_assets_it_affects(g: CveGroupView)
    ensures
        ({
            let j = group_json(g);
            &&& says(j, "severity"@, text_or_null(g.severity))
            &&& says(j, "kev"@, JsonView::Bool(g.kev))
            &&& says(j, "title"@, text_or_null(g.title))
            &&& says(j, "assets"@, text_items(g.assets))
            &&& g.epss matches Some(x) ==> says(j, "epss"@, real_value(x))
        }),
{
    broadcast use {lemma_pushed_is_there, lemma_member_is_there};

    let m = seq![("severity"@, text_or_null(g.severity)), ("kev"@, JsonView::Bool(g.kev))];
    assert(m[0] == ("severity"@, text_or_null(g.severity)));
    assert(m[1] == ("kev"@, JsonView::Bool(g.kev)));
}

/// A report has the confirmed findings of the assets, and the findings that are not confirmed, the
/// CVEs, the assets and the failures apart from them, each where there are any.
pub proof fn a_report_has_its_parts(r: BatchResults)
    ensures
        ({
            let j = report_json(r);
            &&& says(j, "services"@, findings_json(r.services.deep_view()))
            &&& r.by_cve.deep_view().len() > 0 ==> says(
                j,
                "byCve"@,
                groups_json(r.by_cve.deep_view()),
            )
            &&& r.assets.deep_view().len() > 0 ==> says(
                j,
                "assets"@,
                assets_json(r.assets.deep_view()),
            )
            &&& r.unconfirmed.deep_view().len() > 0 ==> says(
                j,
                "unconfirmed"@,
                findings_json(r.unconfirmed.deep_view()),
            )
            &&& r.errors.deep_view().len() > 0 ==> says(
                j,
                "errors"@,
                errors_json(r.errors.deep_view()),
            )
        }),
{
    broadcast use {lemma_pushed_is_there, lemma_member_is_there};

    let m = seq![
        ("meta"@, meta_json(r.meta)),
        ("services"@, findings_json(r.services.deep_view())),
    ];
    assert(m[1] == ("services"@, findings_json(r.services.deep_view())));
}

/// Each finding of an asset stands in the report under the key of the asset, in its place.
pub proof fn each_finding_stands_under_its_asset(m: Findings, i: int, k: int)
    requires
        0 <= i < m.len(),
        0 <= k < m[i].1.len(),
    ensures
        says(findings_json(m), m[i].0, entries_json(m[i].1)),
        entries_json(m[i].1) matches JsonView::Array(v) && v.len() == m[i].1.len() && v[k]
            == entry_json(m[i].1[k]),
        findings_json(m) matches JsonView::Object(o) && o.len() == m.len(),
{
    let o = findings_json(m)->Object_0;
    assert(o[i] == (m[i].0, entries_json(m[i].1)));
}

/// Each failure stands in the report with what it says.
pub proof fn each_failure_stands_in_the_report(m: Seq<(Seq<char>, Seq<char>)>, i: int)
    requires
        0 <= i < m.len(),
    ensures
        says(errors_json(m), m[i].0, JsonView::Text(m[i].1)),
{
    let o = errors_json(m)->Object_0;
    assert(o[i] == (m[i].0, JsonView::Text(m[i].1)));
}

/// The findings of all assets are counted.
pub proof fn the_findings_of_all_assets_are_counted(
    m: Findings,
    key: Seq<char>,
    ts: Seq<ThreatEntryView>,
)
    ensures
        count_findings(m.push((key, ts))) == count_findings(m) + ts.len(),
        m.len() == 0 ==> count_findings(m) == 0,
        count_findings(m) == 0 <==> forall|i: int| 0 <= i < m.len() ==> (#[trigger] m[i]).1.len() == 0,
    decreases m.len(),
{
    assert(m.push((key, ts)).drop_last() =~= m);
    if m.len() > 0 {
        let d = m.drop_last();
        the_findings_of_all_assets_are_counted(d, key, ts);
        if forall|i: int| 0 <= i < m.len() ==> (#[trigger] m[i]).1.len() == 0 {
            assert forall|i: int| 0 <= i < d.len() implies (#[trigger] d[i]).1.len() == 0 by {
                assert(d[i] == m[i]);
            }
            assert(m[m.len() - 1].1.len() == 0);
        }
        if count_findings(m) == 0 {
            assert forall|i: int| 0 <= i < m.len() implies (#[trigger] m[i]).1.len() == 0 by {
                if i < d.len() {
                    assert(d[i] == m[i]);
                }
            }
        }
    }
}

/// A CVE has the highest severity of its findings, is known to be exploited where one of them is,
/// and lists each asset once.
pub proof fn a_cve_takes_in_its_findings(g: CveGroupView, key: Seq<char>, t: ThreatEntryView)
    ensures
        ({
            let n = joined_group(Some(g), key, t);
            &&& rank_of(n.severity) >= rank_of(g.severity) && rank_of(n.severity) >= rank_of(
                t.severity,
            )
            &&& n.severity == g.severity || n.severity == t.severity
            &&& n.kev <==> g.kev || t.kev
            &&& n.assets.contains(key)
            &&& g.assets.contains(key) ==> n.assets == g.assets
            &&& !g.assets.contains(key) ==> n.assets == g.assets.push(key)
            &&& n.title == g.title && n.epss == g.epss
        }),
        ({
            let n = joined_group(None, key, t);
            &&& n.severity == t.severity && n.kev == t.kev && n.epss == t.epss && n.title == t.title
            &&& n.assets == seq![key]
        }),
{
    let n = joined_group(Some(g), key, t);
    if !g.assets.contains(key) {
        assert(n.assets[g.assets.len() as int] == key);
    }
    assert(joined_group(None, key, t).assets =~= seq![key]);
}

// ── Requests ─────────────────────────────────────────────────────────────────

/// A request holds the queries in their order, each by its coordinate, and asks for confirmed
/// matches alone exactly where that was asked for.
pub proof fn a_request_holds_its_queries(queries: Seq<MatchQueryView>, strict: bool, i: int)
    requires
        0 <= i < queries.len(),
    ensures
        ({
            let j = request_json(queries, strict);
            &&& j is Object
            &&& exists|v: Seq<JsonView>| #[trigger] says(j, "queries"@, JsonView::Array(v)) && v.len()
                == queries.len() && v[i] == query_json(queries[i])
            &&& says(j, "strict"@, JsonView::Bool(true)) <==> strict
        }),
        queries[i] matches MatchQueryView::Purl(p) ==> says(
            query_json(queries[i]),
            "purl"@,
            JsonView::Text(p),
        ),
        queries[i] matches MatchQueryView::Cpe(c) ==> says(
            query_json(queries[i]),
            "cpe"@,
            JsonView::Text(c),
        ),
{
    broadcast use lemma_pushed_is_there;

    reveal_strlit("queries");
    reveal_strlit("strict");
    assert("queries"@.len() != "strict"@.len());
    let v = Seq::new(queries.len(), |k: int| query_json(queries[k]));
    let m = seq![("queries"@, JsonView::Array(v))];
    assert(m[0] == ("queries"@, JsonView::Array(v)));
    let j = request_json(queries, strict);
    assert(says(j, "queries"@, JsonView::Array(v)));
    match queries[i] {
        MatchQueryView::Purl(p) => {
            assert(query_json(queries[i])->Object_0[0] == ("purl"@, JsonView::Text(p)));
        },
        MatchQueryView::Cpe(c) => {
            assert(query_json(queries[i])->Object_0[0] == ("cpe"@, JsonView::Text(c)));
        },
        _ => {},
    }
}

// ── SARIF ────────────────────────────────────────────────────────────────────

/// A critical or high finding is an error, a medium one a warning, and any other a note.
pub proof fn severities_have_their_levels(t: ThreatEntryView)
    ensures
        level_of(rank_of(t.severity)) == "error"@ <==> rank_of(t.severity) >= rank_of(Some("high"@)),
        level_of(rank_of(t.severity)) == "warning"@ <==> rank_of(t.severity) == rank_of(
            Some("medium"@),
        ),
        level_of(rank_of(t.severity)) == "note"@ <==> rank_of(t.severity) < rank_of(
            Some("medium"@),
        ),
{
    reveal_strlit("error");
    reveal_strlit("warning");
    reveal_strlit("note");
    assert("error"@.len() == 5 && "warning"@.len() == 7 && "note"@.len() == 4);
    severities_are_ranked("high"@, "medium"@);
    assert(rank_of(Some("low"@)) >= 1);
    assert(rank_of(Some("critical"@)) <= 4);
}

/// A result says which rule it is of, which asset it is of and at which level.
pub proof fn a_result_says_what_it_is(asset: Seq<char>, t: ThreatEntryView)
    ensures
        ({
            let j = result_json(asset, t);
            &&& says(j, "ruleId"@, JsonView::Text(rule_id(t)))
            &&& says(j, "level"@, JsonView::Text(level_of(rank_of(t.severity))))
            &&& says(j, "locations"@, location_of(asset))
            &&& says(j, "message"@, text_object(message_of(asset, t)))
            &&& says(j, "properties"@, properties_of(t))
            &&& says(properties_of(t), "kev"@, JsonView::Bool(t.kev))
            &&& says(properties_of(t), "matchBasis"@, JsonView::Text(t.match_basis))
            &&& t.epss matches Some(x) ==> says(properties_of(t), "epss"@, real_value(x))
            &&& t.cwes.len() > 0 ==> says(properties_of(t), "cwe"@, text_items(t.cwes))
            &&& t.fixed_versions.len() > 0 ==> says(
                properties_of(t),
                "fixedVersions"@,
                text_items(t.fixed_versions),
            )
        }),
        t.cve_id matches Some(id) ==> rule_id(t) == id,
{
    broadcast use {lemma_pushed_is_there, lemma_member_is_there};

}

/// The message of a result names the asset and the CVE, and says what to upgrade to where that is
/// known.
pub proof fn a_message_names_asset_and_cve(asset: Seq<char>, t: ThreatEntryView)
    ensures
        has_prefix(message_of(asset, t), asset + " is affected by "@ + rule_id(t)),
        t.fixed_versions.len() > 0 ==> (advice_of(t) matches Some(a) && has_prefix(
            a,
            "Upgrade to "@ + joined(t.fixed_versions, ", "@),
        )),
        t.fixed_versions.len() == 0 ==> advice_of(t) == t.remediation,
        advice_of(t) matches Some(a) ==> has_suffix(message_of(asset, t), a),
        t.remediation matches Some(r) ==> (advice_of(t) matches Some(a) && has_suffix(
            a,
            r,
        )),
{
    let head = asset + " is affected by "@ + rule_id(t);
    let m = message_of(asset, t);
    assert(m.take(head.len() as int) =~= head);
    if let Some(a) = advice_of(t) {
        assert(m.skip(m.len() - a.len()) =~= a);
        if t.fixed_versions.len() > 0 {
            let f = "Upgrade to "@ + joined(t.fixed_versions, ", "@);
            assert(a.take(f.len() as int) =~= f);
        }
        if let Some(r) = t.remediation {
            assert(a.skip(a.len() - r.len()) =~= r);
        }
    }
}

/// A rule is described by the first of its findings, and names its page, or else its first
/// reference.
pub proof fn a_rule_is_described_by_its_first_finding(t: ThreatEntryView, r: RuleView)
    ensures
        rule_with(None, t).score == score_of(t),
        t.title matches Some(s) ==> rule_with(None, t).title == s,
        t.radar_url matches Some(u) ==> rule_with(None, t).help_uri == Some(u),
        t.radar_url is None && t.references.len() > 0 ==> rule_with(None, t).help_uri == Some(
            t.references[0],
        ),
        rule_with(Some(r), t).title == r.title,
        rule_with(Some(r), t).help_uri == r.help_uri,
        t.cvss_score matches Some(JsonView::Number(n)) ==> score_of(t) == Some(n.real),
{
}

/// The JSON of a rule names the rule, its title, its page and its score.
pub proof fn the_json_of_a_rule_says_what_it_is(id: Seq<char>, r: RuleView)
    ensures
        ({
            let j = rule_json(id, r);
            &&& says(j, "id"@, JsonView::Text(id))
            &&& says(j, "shortDescription"@, text_object(r.title))
            &&& r.help_uri matches Some(u) ==> says(j, "helpUri"@, JsonView::Text(u))
            &&& r.score matches Some(x) ==> says(
                j,
                "properties"@,
                JsonView::Object(seq![("security-severity"@, JsonView::Text(x.shown))]),
            )
        }),
{
    broadcast use {lemma_pushed_is_there, lemma_member_is_there};

}

/// Each confirmed finding has a result, and there are no more results than findings.
pub proof fn each_finding_has_a_result(services: Findings, i: int, k: int)
    ensures
        0 <= i < services.len() && 0 <= k < services[i].1.len() ==> all_results(services).contains(
            result_json(services[i].0, services[i].1[k]),
        ),
        all_results(services).len() == count_findings(services),
    decreases services.len(),
{
    if services.len() > 0 {
        let d = services.drop_last();
        each_finding_has_a_result(d, i, k);
        let a = all_results(d);
        let b = asset_results(services.last().0, services.last().1);
        let all = a + b;
        if 0 <= i < services.len() && 0 <= k < services[i].1.len() {
            let x = result_json(services[i].0, services[i].1[k]);
            if i < d.len() {
                assert(d[i] == services[i]);
                let p = choose|p: int| 0 <= p < a.len() && a[p] == x;
                assert(all[p] == x);
            } else {
                assert(b[k] == x);
                assert(all[a.len() + k] == x);
            }
        }
    }
}

/// A SARIF report is one run with all the results.
pub proof fn a_sarif_report_has_all_results(services: Findings)
    ensures
        says(sarif_of(services), "version"@, JsonView::Text("2.1.0"@)),
        exists|run: JsonView| #[trigger]
            says(sarif_of(services), "runs"@, JsonView::Array(seq![run])) && says(
                run,
                "results"@,
                JsonView::Array(all_results(services)),
            ),
{
    let o = sarif_of(services)->Object_0;
    assert(o[2] == ("version"@, JsonView::Text("2.1.0"@)));
    let runs = o[1].1->Array_0;
    let run = runs[0];
    assert(runs =~= seq![run]);
    assert(o[1] == ("runs"@, JsonView::Array(seq![run])));
    assert(run->Object_0[0] == ("results"@, JsonView::Array(all_results(services))));
    assert(says(sarif_of(services), "runs"@, JsonView::Array(seq![run])));
}

/// A finding by name is reported as what it is, and as confirmed where a constraint shows it.
pub proof fn a_finding_by_name_is_reported_as_what_it_is(e: service_findings::ThreatEntryView)
    ensures
        as_finding(e).cve_id == e.cve_id,
        as_finding(e).title == e.title,
        as_finding(e).severity == e.severity,
        as_finding(e).cvss_score == e.cvss_score,
        as_finding(e).epss == e.epss,
        as_finding(e).kev == e.kev,
        as_finding(e).references == e.references,
        as_finding(e).confirmed <==> e.match_basis == MatchBasis::Constraint,
        as_finding(e).match_basis == (if e.match_basis == MatchBasis::Constraint {
            "constraint"@
        } else {
            "freetext"@
        }),
{
}

/// A result says how to fix what it is of, where that is known, and only there.
pub proof fn a_result_says_how_to_fix_it(asset: Seq<char>, t: ThreatEntryView, v: JsonView)
    ensures
        advice_of(t) matches Some(a) ==> (fixes_of(t) matches Some(f) && says(
            result_json(asset, t),
            "fixes"@,
            f,
        ) && f == JsonView::Array(
            seq![JsonView::Object(seq![("description"@, text_object(a))])],
        )),
        advice_of(t) is None ==> !says(result_json(asset, t), "fixes"@, v),
        says(text_object(asset), "text"@, JsonView::Text(asset)),
{
    broadcast use {lemma_pushed_is_there, lemma_member_is_there};

    reveal_strlit("fixes");
    reveal_strlit("level");
    reveal_strlit("locations");
    reveal_strlit("message");
    reveal_strlit("properties");
    reveal_strlit("ruleId");
    assert("fixes"@[0] != "level"@[0]);
    assert("fixes"@.len() != "locations"@.len());
    assert("fixes"@.len() != "message"@.len());
    assert("fixes"@.len() != "properties"@.len());
    assert("fixes"@.len() != "ruleId"@.len());
    assert(text_object(asset)->Object_0[0] == ("text"@, JsonView::Text(asset)));
}

/// The place of a result is its asset.
pub proof fn a_result_is_placed_at_its_asset(a: Seq<char>, b: Seq<char>)
    ensures
        location_of(a) == location_of(b) <==> a == b,
        location_of(a) matches JsonView::Array(l) && l.len() == 1 && (exists|x: JsonView| #[trigger]
            says(l[0], "logicalLocations"@, JsonView::Array(seq![x])) && says(
                x,
                "fullyQualifiedName"@,
                JsonView::Text(a),
            )),
{
    let l = location_of(a)->Array_0;
    let m = location_of(b)->Array_0;
    let p = l[0]->Object_0[0].1->Array_0;
    let q = m[0]->Object_0[0].1->Array_0;
    let x = p[0];
    assert(p =~= seq![x]);
    assert(l[0]->Object_0[0] == ("logicalLocations"@, JsonView::Array(seq![x])));
    assert(says(l[0], "logicalLocations"@, JsonView::Array(seq![x])));
    assert(x->Object_0[0] == ("fullyQualifiedName"@, JsonView::Text(a)));
    assert(says(x, "fullyQualifiedName"@, JsonView::Text(a)));
    assert(q[0]->Object_0[0] == ("fullyQualifiedName"@, JsonView::Text(b)));
}

/// The JSON of a finding by name says what it is and how it was found.
pub proof fn the_json_of_a_finding_by_name_says_what_it_is(e: service_findings::ThreatEntryView)
    ensures
        ({
            let j = service_report::entry_json(e);
            &&& says(j, "kev"@, JsonView::Bool(e.kev))
            &&& e.cve_id matches Some(id) ==> says(j, "cveId"@, JsonView::Text(id))
            &&& e.title matches Some(s) ==> says(j, "title"@, JsonView::Text(s))
            &&& e.severity matches Some(s) ==> says(j, "severity"@, JsonView::Text(s))
            &&& e.cvss_score matches Some(v) ==> says(j, "cvssScore"@, v)
            &&& e.cvss_vector matches Some(s) ==> says(j, "cvssVector"@, JsonView::Text(s))
            &&& e.epss matches Some(x) ==> says(j, "epss"@, real_value(x))
            &&& e.published_date matches Some(s) ==> says(j, "publishedDate"@, JsonView::Text(s))
            &&& e.affected_versions matches Some(v) ==> says(j, "affectedVersions"@, v)
            &&& e.patch_available matches Some(v) ==> says(j, "patchAvailable"@, v)
            &&& e.references.len() > 0 ==> says(j, "references"@, text_items(e.references))
            &&& e.match_basis == MatchBasis::Constraint ==> says(
                j,
                "matchBasis"@,
                JsonView::Text("constraint"@),
            )
            &&& e.match_basis == MatchBasis::FreeText ==> says(
                j,
                "matchBasis"@,
                JsonView::Text("freetext"@),
            )
        }),
{
    broadcast use {lemma_pushed_is_there, lemma_member_is_there};

    let m = seq![
        ("cveId"@, text_or_null(e.cve_id)),
        ("title"@, text_or_null(e.title)),
        ("severity"@, text_or_null(e.severity)),
        ("cvssScore"@, value_or_null(e.cvss_score)),
    ];
    assert(m[0] == ("cveId"@, text_or_null(e.cve_id)));
    assert(m[1] == ("title"@, text_or_null(e.title)));
    assert(m[2] == ("severity"@, text_or_null(e.severity)));
    assert(m[3] == ("cvssScore"@, value_or_null(e.cvss_score)));
}

/// The JSON of a service by name says what runs, how its version was found and whether it is exposed.
pub proof fn the_json_of_a_service_says_whether_it_is_exposed(a: service_findings::AssetInfoView)
    ensures
        ({
            let j = service_report::asset_json(a);
            &&& says(j, "exe"@, JsonView::Text(a.exe))
            &&& says(j, "version"@, JsonView::Text(a.version))
            &&& says(j, "versionSource"@, JsonView::Text(a.version_source))
            &&& says(j, "exposed"@, JsonView::Bool(a.exposed))
            &&& a.listeners.len() > 0 ==> says(j, "listeners"@, text_items(a.listeners))
        }),
{
    broadcast use {lemma_pushed_is_there, lemma_member_is_there};

    let m = seq![
        ("exe"@, JsonView::Text(a.exe)),
        ("version"@, JsonView::Text(a.version)),
        ("versionSource"@, JsonView::Text(a.version_source)),
        ("exposed"@, JsonView::Bool(a.exposed)),
    ];
    assert(m[0] == ("exe"@, JsonView::Text(a.exe)));
    assert(m[1] == ("version"@, JsonView::Text(a.version)));
    assert(m[2] == ("versionSource"@, JsonView::Text(a.version_source)));
    assert(m[3] == ("exposed"@, JsonView::Bool(a.exposed)));
}

/// A report by name has its services, and its assets, its system and its errors where there are any.
pub proof fn a_report_by_name_has_its_parts(r: service_findings::BatchResults)
    ensures
        ({
            let j = service_report::report_json(r);
            &&& says(j, "services"@, service_report::findings_json(r.services.deep_view()))
            &&& r.assets.deep_view().len() > 0 ==> says(
                j,
                "assets"@,
                service_report::assets_json(r.assets.deep_view()),
            )
            &&& r.system matches Some(t) ==> says(
                j,
                "system"@,
                service_report::findings_json(t.deep_view()),
            )
            &&& r.errors.deep_view().len() > 0 ==> says(j, "errors"@, errors_json(
                r.errors.deep_view(),
            ))
        }),
{
    broadcast use {lemma_pushed_is_there, lemma_member_is_there};

    let m = seq![("services"@, service_report::findings_json(r.services.deep_view()))];
    assert(m[0] == ("services"@, service_report::findings_json(r.services.deep_view())));
}

/// A part of the report that would be empty is left out.
pub proof fn a_report_has_no_empty_parts(r: BatchResults, v: JsonView)
    ensures
        ({
            let j = report_json(r);
            &&& r.by_cve.deep_view().len() == 0 ==> !says(j, "byCve"@, v)
            &&& r.assets.deep_view().len() == 0 ==> !says(j, "assets"@, v)
            &&& r.unconfirmed.deep_view().len() == 0 ==> !says(j, "unconfirmed"@, v)
            &&& r.errors.deep_view().len() == 0 ==> !says(j, "errors"@, v)
        }),
{
    broadcast use {lemma_pushed_is_there, lemma_member_is_there};

    reveal_strlit("meta");
    reveal_strlit("services");
    reveal_strlit("byCve");
    reveal_strlit("assets");
    reveal_strlit("unconfirmed");
    reveal_strlit("errors");
    assert("meta"@.len() == 4 && "services"@.len() == 8 && "byCve"@.len() == 5 && "assets"@.len() == 6
        && "unconfirmed"@.len() == 11 && "errors"@.len() == 6);
    assert("assets"@[0] == 'a' && "errors"@[0] == 'e');
    let m = seq![
        ("meta"@, meta_json(r.meta)),
        ("services"@, findings_json(r.services.deep_view())),
    ];
    assert forall|x: (Seq<char>, JsonView)| #[trigger] m.contains(x) implies x.0 == "meta"@ || x.0
        == "services"@ by {
        let i = choose|i: int| 0 <= i < m.len() && m[i] == x;
        assert(i == 0 || i == 1);
    }
}

} // verus!
