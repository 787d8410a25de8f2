//! What the summaries tell of a report.

use vstd::prelude::*;

use crate::service_findings;
use crate::service_report;

use crate::api::{rank_of, ThreatEntryView};
use crate::asset::{AssetView, ScanScope};
use crate::list::filtered_items_are_those_that_map;
use crate::number::decimal;
use crate::order::{precedes, ranked, ranked_is_in_order, ranked_is_permutation, Ranked};
use crate::report::{AssetInfoView, BatchResults, CveGroupView, Findings, Groups};
use crate::services::{ServiceInfo, ServiceInfoView};
use crate::severity_laws::severities_are_ranked;
use crate::split::joined;
use crate::summary::{
    all_exploited, all_threats, badge_of, exploited, exposed_assets, exposed_rows, fix_mark, found_text, kev_mark,
    label_of_rank, painted, quota_text, row_line, row_lines, row_of, rows_lines, rows_of, shared_cves, shared_line,
    shared_lines, shared_of, shown, summary, threat_line, threat_lines, threats_lines, total_text, totals_line,
    unconfirmed_lines, Row, RowView, Shared, SharedView, TITLE_WIDTH,
};
use crate::table::lookup;
use crate::text::{first_chars, has_prefix, has_suffix, lowercase, occurs, occurs_at, or_empty, uppercase};
use crate::windows_services::{rank_of_lower, WinUpdate, WinUpdateView};

verus! {

proof fn lemma_middle_occurs(a: Seq<char>, b: Seq<char>, c: Seq<char>)
    ensures
        occurs(a + b + c, b),
{
    let s = a + b + c;
    assert(s.subrange(a.len() as int, (a.len() + b.len()) as int) =~= b);
    assert(occurs_at(s, b, a.len() as int));
}

proof fn lemma_parts_occur(
    a: Seq<char>,
    b: Seq<char>,
    c: Seq<char>,
    d: Seq<char>,
    e: Seq<char>,
    f: Seq<char>,
)
    ensures
        occurs(a + b + c + d + e + f, b),
        occurs(a + b + c + d + e + f, d),
        occurs(a + b + c + d + e + f, e),
{
    let s = a + b + c + d + e + f;
    assert(s =~= a + b + (c + d + e + f));
    lemma_middle_occurs(a, b, c + d + e + f);
    assert(s =~= (a + b + c) + d + (e + f));
    lemma_middle_occurs(a + b + c, d, e + f);
    assert(s =~= (a + b + c + d) + e + f);
    lemma_middle_occurs(a + b + c + d, e, f);
}

// ── Lines ────────────────────────────────────────────────────────────────────

/// Without color a text stands as it is; with color it stands between the marks that turn it on and
/// off.
pub proof fn color_only_goes_around(s: Seq<char>, code: Seq<char>)
    ensures
        painted(s, code, false) == s,
        occurs(painted(s, code, true), s),
        painted(s, code, true).len() > s.len(),
{
    reveal_strlit("\x1b[");
    reveal_strlit("m");
    reveal_strlit("\x1b[0m");
    lemma_middle_occurs("\x1b["@ + code + "m"@, s, "\x1b[0m"@);
}

/// The label of a finding tells its severity, and those of two severities differ.
pub proof fn labels_tell_severities(a: Option<Seq<char>>, b: Option<Seq<char>>)
    ensures
        rank_of(a) == rank_of(Some("critical"@)) ==> label_of_rank(rank_of(a), false) == "CRIT"@,
        rank_of(a) == rank_of(Some("high"@)) ==> label_of_rank(rank_of(a), false) == "HIGH"@,
        rank_of(a) == rank_of(Some("medium"@)) ==> label_of_rank(rank_of(a), false) == "MED "@,
        rank_of(a) == rank_of(Some("low"@)) ==> label_of_rank(rank_of(a), false) == "LOW "@,
        rank_of(a) == rank_of(None) ==> label_of_rank(rank_of(a), false) == "UNK "@,
        label_of_rank(rank_of(a), false) == label_of_rank(rank_of(b), false) <==> rank_of(a)
            == rank_of(b),
        label_of_rank(rank_of(a), false).len() == 4,
{
    severities_are_ranked("high"@, "low"@);
    reveal_strlit("CRIT");
    reveal_strlit("HIGH");
    reveal_strlit("MED ");
    reveal_strlit("LOW ");
    reveal_strlit("UNK ");
    assert("CRIT"@[0] == 'C' && "HIGH"@[0] == 'H' && "MED "@[0] == 'M' && "LOW "@[0] == 'L'
        && "UNK "@[0] == 'U');
    assert(rank_of(Some("low"@)) >= 1);
    assert(rank_of(Some("critical"@)) <= 4);
}

/// The line of a finding names its CVE, marks it where it is known to be exploited and only there,
/// and says what fixes it.
pub proof fn the_line_of_a_finding_names_it(t: ThreatEntryView)
    ensures
        t.cve_id matches Some(id) ==> occurs(threat_line(t, false), id),
        occurs(threat_line(t, false), label_of_rank(rank_of(t.severity), false)),
        t.kev ==> kev_mark(t.kev, false) == " [KEV]"@,
        !t.kev ==> kev_mark(t.kev, false).len() == 0,
        occurs(threat_line(t, false), kev_mark(t.kev, false)),
        t.fixed_versions.len() > 0 ==> has_suffix(
            threat_line(t, false),
            joined(t.fixed_versions, ", "@),
        ),
        threat_lines(t, false).len() >= 1 && threat_lines(t, false)[0] == threat_line(t, false),
        t.radar_url matches Some(u) ==> threat_lines(t, false).len() >= 2 && has_suffix(
            threat_lines(t, false)[1],
            u,
        ),
{
    let l = threat_line(t, false);
    let label = label_of_rank(rank_of(t.severity), false);
    let cve = match t.cve_id {
        Some(id) => id,
        None => "(no id)"@,
    };
    let mark = kev_mark(t.kev, false);
    let title = first_chars(
        or_empty(t.title),
        TITLE_WIDTH as int,
    );
    let fix = fix_mark(t.fixed_versions, false);
    let tail = "  "@ + title + fix;
    assert(l =~= "      "@ + label + "  "@ + cve + mark + tail);
    lemma_parts_occur("      "@, label, "  "@, cve, mark, tail);
    reveal_strlit(" ");
    reveal_strlit("[KEV]");
    reveal_strlit(" [KEV]");
    assert(" "@ + "[KEV]"@ =~= " [KEV]"@);
    if t.fixed_versions.len() > 0 {
        let v = joined(t.fixed_versions, ", "@);
        assert(l.skip(l.len() - v.len()) =~= v);
    }
    if let Some(u) = t.radar_url {
        let x = threat_lines(t, false)[1];
        assert(x.skip(x.len() - u.len()) =~= u);
    }
}

/// The line of an asset names it and how many findings it has; an asset that is exposed has a badge
/// with its endpoints, and no other has one.
pub proof fn the_line_of_an_asset_tells_its_exposure(row: RowView, a: AssetInfoView)
    ensures
        occurs(row_line(row, Some(a), false), row.key),
        row.exposed ==> has_suffix(row_line(row, Some(a), false), badge_of(Some(a), false)),
        !row.exposed ==> row_line(row, Some(a), false) == "\n  "@ + row.key + " — "@ + decimal(
            row.threats.len(),
        ) + " finding(s)"@,
        occurs(badge_of(Some(a), false), joined(a.listeners, ", "@)),
        occurs(badge_of(Some(a), false), uppercase(a.reachability)),
{
    let l = row_line(row, Some(a), false);
    let b = badge_of(Some(a), false);
    let rest = " — "@ + decimal(row.threats.len()) + " finding(s)"@ + if row.exposed {
        b
    } else {
        Seq::empty()
    };
    assert(l =~= "\n  "@ + row.key + rest);
    lemma_middle_occurs("\n  "@, row.key, rest);
    if row.exposed {
        assert(l.skip(l.len() - b.len()) =~= b);
    } else {
        assert(l =~= "\n  "@ + row.key + " — "@ + decimal(row.threats.len()) + " finding(s)"@);
    }
    let eps = joined(a.listeners, ", "@);
    let up = uppercase(a.reachability);
    assert(b =~= ("  "@ + "["@ + up + " "@) + eps + "]"@);
    lemma_middle_occurs("  "@ + "["@ + up + " "@, eps, "]"@);
    assert(b =~= ("  "@ + "["@) + up + (" "@ + eps + "]"@));
    lemma_middle_occurs("  "@ + "["@, up, " "@ + eps + "]"@);
}

/// Of an asset five findings are shown, from the first on, and the others are counted.
pub proof fn five_findings_of_an_asset_are_shown(n: nat)
    ensures
        shown(n) <= 5,
        n <= 5 ==> shown(n) == n,
        n > 5 ==> shown(n) == 5,
{
}

proof fn lemma_threats_lines(ts: Seq<ThreatEntryView>, n: nat, k: int)
    requires
        0 <= k < n <= ts.len(),
    ensures
        threats_lines(ts, n, false).contains(threat_line(ts[k], false)),
    decreases n,
{
    let a = threats_lines(ts, (n - 1) as nat, false);
    let b = threat_lines(ts[n - 1], false);
    let all = a + b;
    let x = threat_line(ts[k], false);
    if k < n - 1 {
        lemma_threats_lines(ts, (n - 1) as nat, k);
        let i = choose|i: int| 0 <= i < a.len() && a[i] == x;
        assert(all[i] == x);
    } else {
        assert(b[0] == x);
        assert(all[a.len() as int] == x);
    }
}

/// Each of the first five findings of an asset has its line below that of the asset.
pub proof fn the_first_findings_of_an_asset_have_lines(
    row: RowView,
    asset: Option<AssetInfoView>,
    k: int,
)
    requires
        0 <= k < row.threats.len(),
        k < 5,
    ensures
        row_lines(row, asset, false)[0] == row_line(row, asset, false),
        row_lines(row, asset, false).contains(threat_line(row.threats[k], false)),
{
    let n = shown(row.threats.len());
    lemma_threats_lines(row.threats, n, k);
    let ls = threats_lines(row.threats, n, false);
    let i = choose|i: int| 0 <= i < ls.len() && ls[i] == threat_line(row.threats[k], false);
    assert(row_lines(row, asset, false)[i + 1] == ls[i]);
}

// ── Rows ─────────────────────────────────────────────────────────────────────

/// Each asset with findings has a row, with its findings and whether it is exposed; an asset
/// without has none.
pub proof fn each_asset_with_findings_has_a_row(
    services: Findings,
    assets: Seq<(Seq<char>, AssetInfoView)>,
    r: RowView,
)
    ensures
        rows_of(services, assets).contains(r) <==> r.threats.len() > 0 && services.contains(
            (r.key, r.threats),
        ) && (r.exposed <==> (lookup(assets, r.key) matches Some(a) && a.exposed)),
{
    let f = |e: (Seq<char>, Seq<ThreatEntryView>)| row_of(e, assets);
    filtered_items_are_those_that_map(services, f, r);
    if rows_of(services, assets).contains(r) {
        let i = choose|i: int| 0 <= i < services.len() && f(#[trigger] services[i]) == Some(r);
        assert(services[i] == (r.key, r.threats));
    }
    if r.threats.len() > 0 && services.contains((r.key, r.threats)) && (r.exposed <==> (lookup(
        assets,
        r.key,
    ) matches Some(a) && a.exposed)) {
        let i = choose|i: int| 0 <= i < services.len() && services[i] == (r.key, r.threats);
        assert(f(services[i]) == Some(r));
    }
}

/// The CVEs that are shared are those of more than one asset.
pub proof fn shared_cves_are_of_several_assets(groups: Groups, s: SharedView)
    ensures
        shared_cves(groups).contains(s) <==> s.group.assets.len() > 1 && groups.contains(
            (s.cve, s.group),
        ),
{
    let f = |e: (Seq<char>, CveGroupView)| shared_of(e);
    filtered_items_are_those_that_map(groups, f, s);
    if shared_cves(groups).contains(s) {
        let i = choose|i: int| 0 <= i < groups.len() && f(#[trigger] groups[i]) == Some(s);
        assert(groups[i] == (s.cve, s.group));
    }
    if s.group.assets.len() > 1 && groups.contains((s.cve, s.group)) {
        let i = choose|i: int| 0 <= i < groups.len() && groups[i] == (s.cve, s.group);
        assert(f(groups[i]) == Some(s));
    }
}

// ── Totals ───────────────────────────────────────────────────────────────────

/// The totals count the findings, the exposed assets and the exploited findings of every row.
pub proof fn totals_count_every_row(rows: Seq<RowView>, r: RowView)
    ensures
        all_threats(rows.push(r)) == all_threats(rows) + r.threats.len(),
        exposed_rows(rows.push(r)) == exposed_rows(rows) + (if r.exposed {
            1int
        } else {
            0
        }),
        all_exploited(rows.push(r)) == all_exploited(rows) + exploited(r.threats),
        all_threats(Seq::<RowView>::empty()) == 0,
        exposed_rows(Seq::<RowView>::empty()) == 0,
        all_exploited(Seq::<RowView>::empty()) == 0,
        totals_line(rows) == "\n"@ + decimal(all_threats(rows)) + " confirmed finding(s) across "@
            + decimal(rows.len()) + " asset(s); "@ + decimal(exposed_rows(rows)) + " exposed, "@
            + decimal(all_exploited(rows)) + " known-exploited."@,
{
    assert(rows.push(r).drop_last() =~= rows);
}

/// The exploited findings are those that are known to be exploited.
pub proof fn exploited_findings_are_counted(ts: Seq<ThreatEntryView>, t: ThreatEntryView)
    ensures
        exploited(ts.push(t)) == exploited(ts) + (if t.kev {
            1int
        } else {
            0
        }),
        exploited(Seq::<ThreatEntryView>::empty()) == 0,
        exploited(ts) <= ts.len(),
    decreases ts.len(),
{
    assert(ts.push(t).drop_last() =~= ts);
    if ts.len() > 0 {
        exploited_findings_are_counted(ts.drop_last(), t);
    }
}

/// What is not confirmed is counted apart, where there is any.
pub proof fn unconfirmed_findings_are_counted_apart(n: nat)
    ensures
        n == 0 ==> unconfirmed_lines(n, false).len() == 0,
        n > 0 ==> unconfirmed_lines(n, false).len() == 1 && has_prefix(
            unconfirmed_lines(n, false)[0],
            decimal(n),
        ),
{
    if n > 0 {
        let l = unconfirmed_lines(n, false)[0];
        assert(l.take(decimal(n).len() as int) =~= decimal(n));
    }
}

/// A report without confirmed findings has no summary.
pub proof fn without_findings_there_is_no_summary(r: BatchResults)
    ensures
        summary(r, false).len() == 0 <==> rows_of(r.services.deep_view(), r.assets.deep_view()).len()
            == 0,
{
}

/// What was found is counted: the assets, and those that are exposed where there are any.
pub proof fn what_was_found_is_counted(assets: Seq<AssetView>, a: AssetView)
    ensures
        exposed_assets(assets.push(a)) == exposed_assets(assets) + (if a.runtime matches Some(r)
            && r.exposed {
            1int
        } else {
            0
        }),
        exposed_assets(Seq::<AssetView>::empty()) == 0,
        has_prefix(
            found_text(assets, ScanScope::Running),
            "Found "@ + decimal(assets.len()) + " service(s)"@,
        ),
        has_prefix(
            found_text(assets, ScanScope::All),
            "Found "@ + decimal(assets.len()) + " asset(s)"@,
        ),
        exposed_assets(assets) > 0 ==> has_suffix(
            found_text(assets, ScanScope::Running),
            ", "@ + decimal(exposed_assets(assets)) + " network-exposed"@,
        ),
        exposed_assets(assets) == 0 ==> found_text(assets, ScanScope::Running) == "Found "@ + decimal(
            assets.len(),
        ) + " service(s)"@,
{
    assert(assets.push(a).drop_last() =~= assets);
    reveal_strlit(" ");
    reveal_strlit("service");
    reveal_strlit("asset");
    reveal_strlit("(s)");
    reveal_strlit(" service(s)");
    reveal_strlit(" asset(s)");
    assert(" "@ + "service"@ + "(s)"@ =~= " service(s)"@);
    assert(" "@ + "asset"@ + "(s)"@ =~= " asset(s)"@);
    let x = "Found "@ + decimal(assets.len()) + " service(s)"@;
    let y = "Found "@ + decimal(assets.len()) + " asset(s)"@;
    let f = found_text(assets, ScanScope::Running);
    let g = found_text(assets, ScanScope::All);
    assert(f.take(x.len() as int) =~= x);
    assert(g.take(y.len() as int) =~= y);
    let s = ", "@ + decimal(exposed_assets(assets)) + " network-exposed"@;
    if exposed_assets(assets) > 0 {
        assert(f.skip(f.len() - s.len()) =~= s);
    } else {
        assert(f =~= x);
    }
}

/// A scan of all that is installed is warned of where it takes more lookups than the smallest plan
/// has in an hour.
pub proof fn a_large_scan_is_warned_of(scope: ScanScope, n: nat)
    ensures
        quota_text(scope, n) is Some <==> scope == ScanScope::All && n > 15,
{
}

/// The number of vulnerabilities is told in the singular or in the plural.
pub proof fn the_total_is_told(n: nat)
    ensures
        n == 1 ==> total_text(n) == "Found "@ + decimal(n) + " vulnerability."@,
        n != 1 ==> total_text(n) == "Found "@ + decimal(n) + " vulnerabilities."@,
{
}

// ── The summary by name ──────────────────────────────────────────────────────

/// Each service with findings has a row in the summary by name.
pub proof fn each_service_with_findings_has_a_row(
    services: service_report::ServiceFindings,
    assets: service_report::ServiceAssets,
    r: service_report::ServiceRowView,
)
    ensures
        service_report::rows_of(services, assets).contains(r) <==> r.threats.len() > 0
            && services.contains((r.key, r.threats)) && (r.exposed <==> (lookup(assets, r.key)
            matches Some(a) && a.exposed)),
{
    let f = |e: (Seq<char>, Seq<service_findings::ThreatEntryView>)|
        service_report::row_of(e, assets);
    filtered_items_are_those_that_map(services, f, r);
    if service_report::rows_of(services, assets).contains(r) {
        let i = choose|i: int| 0 <= i < services.len() && f(#[trigger] services[i]) == Some(r);
        assert(services[i] == (r.key, r.threats));
    }
    if r.threats.len() > 0 && services.contains((r.key, r.threats)) && (r.exposed <==> (lookup(
        assets,
        r.key,
    ) matches Some(a) && a.exposed)) {
        let i = choose|i: int| 0 <= i < services.len() && services[i] == (r.key, r.threats);
        assert(f(services[i]) == Some(r));
    }
}

/// The totals by name count the findings, the exposed services and the exploited findings of every
/// row.
pub proof fn totals_by_name_count_every_row(
    rows: Seq<service_report::ServiceRowView>,
    r: service_report::ServiceRowView,
)
    ensures
        ({
            let a = service_report::totals(rows);
            let b = service_report::totals(rows.push(r));
            &&& b.0 == a.0 + r.threats.len()
            &&& b.1 == a.1 + (if r.exposed {
                1int
            } else {
                0
            })
            &&& b.2 == a.2 + service_report::exploited(r.threats)
        }),
{
    assert(rows.push(r).drop_last() =~= rows);
}

/// The exploited findings by name are those that are known to be exploited.
pub proof fn exploited_findings_by_name_are_counted(
    ts: Seq<service_findings::ThreatEntryView>,
    t: service_findings::ThreatEntryView,
)
    ensures
        service_report::exploited(ts.push(t)) == service_report::exploited(ts) + (if t.kev {
            1int
        } else {
            0
        }),
        service_report::exploited(Seq::<service_findings::ThreatEntryView>::empty()) == 0,
{
    assert(ts.push(t).drop_last() =~= ts);
}

/// The services that were found are counted, and those of them that are exposed.
pub proof fn the_services_that_were_found_are_counted(
    services: Seq<ServiceInfoView>,
    s: ServiceInfoView,
)
    ensures
        service_report::exposed_count(services.push(s)) == service_report::exposed_count(services) + (
        if s.exposed {
            1int
        } else {
            0
        }),
        service_report::exposed_count(Seq::<ServiceInfoView>::empty()) == 0,
        has_prefix(
            service_report::services_text(services),
            "Found "@ + decimal(services.len()) + " service(s)"@,
        ),
        service_report::exposed_count(services) > 0 ==> has_suffix(
            service_report::services_text(services),
            ", "@ + decimal(service_report::exposed_count(services)) + " network-exposed"@,
        ),
        service_report::exposed_count(services) == 0 ==> service_report::services_text(services)
            == "Found "@ + decimal(services.len()) + " service(s)"@,
{
    assert(services.push(s).drop_last() =~= services);
    let x = "Found "@ + decimal(services.len()) + " service(s)"@;
    let f = service_report::services_text(services);
    assert(f.take(x.len() as int) =~= x);
    let t = ", "@ + decimal(service_report::exposed_count(services)) + " network-exposed"@;
    if service_report::exposed_count(services) > 0 {
        assert(f.skip(f.len() - t.len()) =~= t);
    } else {
        assert(f =~= x);
    }
}

// ── Order ────────────────────────────────────────────────────────────────────

/// No asset stands behind one that is less of a concern: what is exposed stands before what is not,
/// then what has an exploited finding first, then what has the more severe, then what has more of
/// them, then what comes first by name.
pub proof fn assets_of_more_concern_come_first(
    services: Findings,
    assets: Seq<(Seq<char>, AssetInfoView)>,
    i: int,
    j: int,
)
    requires
        0 <= i < j < ranked::<Row>(rows_of(services, assets)).len(),
        ranked::<Row>(rows_of(services, assets))[i].threats.len() > 0,
        ranked::<Row>(rows_of(services, assets))[j].threats.len() > 0,
    ensures
        ({
            let a = ranked::<Row>(rows_of(services, assets))[i];
            let b = ranked::<Row>(rows_of(services, assets))[j];
            let p = a.threats[0];
            let q = b.threats[0];
            &&& b.exposed ==> a.exposed
            &&& a.exposed == b.exposed ==> (q.kev ==> p.kev)
            &&& a.exposed == b.exposed && p.kev == q.kev ==> rank_of(p.severity) >= rank_of(
                q.severity,
            )
            &&& a.exposed == b.exposed && p.kev == q.kev && rank_of(p.severity) == rank_of(
                q.severity,
            ) ==> a.threats.len() >= b.threats.len()
            &&& a.exposed == b.exposed && p.kev == q.kev && rank_of(p.severity) == rank_of(
                q.severity,
            ) && a.threats.len() == b.threats.len() ==> !precedes(b.key, a.key)
        }),
{
    ranked_is_in_order::<Row>(rows_of(services, assets));
    let rows = ranked::<Row>(rows_of(services, assets));
    assert(!<Row as Ranked>::before(rows[j], rows[i]));
}

/// The services of a report by name are in the same order.
pub proof fn services_of_more_concern_come_first(
    services: service_report::ServiceFindings,
    assets: service_report::ServiceAssets,
    i: int,
    j: int,
)
    requires
        0 <= i < j < ranked::<service_report::ServiceRow>(
            service_report::rows_of(services, assets),
        ).len(),
        ranked::<service_report::ServiceRow>(
            service_report::rows_of(services, assets),
        )[i].threats.len() > 0,
        ranked::<service_report::ServiceRow>(
            service_report::rows_of(services, assets),
        )[j].threats.len() > 0,
    ensures
        ({
            let rows = ranked::<service_report::ServiceRow>(
                service_report::rows_of(services, assets),
            );
            let a = rows[i];
            let b = rows[j];
            let p = a.threats[0];
            let q = b.threats[0];
            &&& b.exposed ==> a.exposed
            &&& a.exposed == b.exposed ==> (q.kev ==> p.kev)
            &&& a.exposed == b.exposed && p.kev == q.kev ==> rank_of(p.severity) >= rank_of(
                q.severity,
            )
            &&& a.exposed == b.exposed && p.kev == q.kev && rank_of(p.severity) == rank_of(
                q.severity,
            ) ==> a.threats.len() >= b.threats.len()
            &&& a.exposed == b.exposed && p.kev == q.kev && rank_of(p.severity) == rank_of(
                q.severity,
            ) && a.threats.len() == b.threats.len() ==> !precedes(b.key, a.key)
        }),
{
    ranked_is_in_order::<service_report::ServiceRow>(service_report::rows_of(services, assets));
    let rows = ranked::<service_report::ServiceRow>(service_report::rows_of(services, assets));
    assert(!<service_report::ServiceRow as Ranked>::before(rows[j], rows[i]));
}

/// Of the shared CVEs the exploited ones come first, then the more severe, then those of more assets,
/// then those that come first by their id.
pub proof fn shared_cves_of_more_concern_come_first(groups: Groups, i: int, j: int)
    requires
        0 <= i < j < ranked::<Shared>(shared_cves(groups)).len(),
    ensures
        ({
            let a = ranked::<Shared>(shared_cves(groups))[i];
            let b = ranked::<Shared>(shared_cves(groups))[j];
            let same = rank_of(a.group.severity) == rank_of(b.group.severity);
            &&& b.group.kev ==> a.group.kev
            &&& a.group.kev == b.group.kev ==> rank_of(a.group.severity) >= rank_of(
                b.group.severity,
            )
            &&& a.group.kev == b.group.kev && same ==> a.group.assets.len()
                >= b.group.assets.len()
            &&& a.group.kev == b.group.kev && same && a.group.assets.len()
                == b.group.assets.len() ==> !precedes(b.cve, a.cve)
        }),
{
    ranked_is_in_order::<Shared>(shared_cves(groups));
    let all = ranked::<Shared>(shared_cves(groups));
    assert(!<Shared as Ranked>::before(all[j], all[i]));
}

/// Services are listed by name.
pub proof fn services_are_listed_by_name(s: Seq<ServiceInfoView>, i: int, j: int)
    requires
        0 <= i < j < ranked::<ServiceInfo>(s).len(),
    ensures
        !precedes(ranked::<ServiceInfo>(s)[j].name, ranked::<ServiceInfo>(s)[i].name),
{
    ranked_is_in_order::<ServiceInfo>(s);
    assert(!<ServiceInfo as Ranked>::before(ranked::<ServiceInfo>(s)[j], ranked::<ServiceInfo>(s)[i]));
}

/// Updates are listed by severity, the most severe first.
pub proof fn the_most_severe_update_comes_first(s: Seq<WinUpdateView>, i: int, j: int)
    requires
        0 <= i < j < ranked::<WinUpdate>(s).len(),
    ensures
        rank_of_lower(lowercase(ranked::<WinUpdate>(s)[i].severity)) >= rank_of_lower(
            lowercase(ranked::<WinUpdate>(s)[j].severity),
        ),
{
    ranked_is_in_order::<WinUpdate>(s);
    assert(!<WinUpdate as Ranked>::before(ranked::<WinUpdate>(s)[j], ranked::<WinUpdate>(s)[i]));
}

// ── The summary as a whole ───────────────────────────────────────────────────

proof fn lemma_rows_lines(
    rows: Seq<RowView>,
    assets: Seq<(Seq<char>, AssetInfoView)>,
    i: int,
    k: int,
)
    requires
        0 <= i < rows.len(),
        0 <= k < row_lines(rows[i], lookup(assets, rows[i].key), false).len(),
    ensures
        rows_lines(rows, assets, false).contains(
            row_lines(rows[i], lookup(assets, rows[i].key), false)[k],
        ),
    decreases rows.len(),
{
    let d = rows.drop_last();
    let a = rows_lines(d, assets, false);
    let b = row_lines(rows.last(), lookup(assets, rows.last().key), false);
    let x = row_lines(rows[i], lookup(assets, rows[i].key), false)[k];
    let all = a + b;
    if i < d.len() {
        assert(d[i] == rows[i]);
        lemma_rows_lines(d, assets, i, k);
        let p = choose|p: int| 0 <= p < a.len() && a[p] == x;
        assert(all[p] == x);
    } else {
        assert(b[k] == x);
        assert(all[a.len() + k] == x);
    }
}

/// The summary has the lines of each asset with findings, and the line of the totals.
pub proof fn the_summary_has_every_row(r: BatchResults, i: int, k: int)
    requires
        0 <= i < ranked::<Row>(rows_of(r.services.deep_view(), r.assets.deep_view())).len(),
    ensures
        ({
            let rows = ranked::<Row>(rows_of(r.services.deep_view(), r.assets.deep_view()));
            let ls = row_lines(rows[i], lookup(r.assets.deep_view(), rows[i].key), false);
            &&& 0 <= k < ls.len() ==> summary(r, false).contains(ls[k])
            &&& summary(r, false).contains(totals_line(rows))
        }),
{
    let m = rows_of(r.services.deep_view(), r.assets.deep_view());
    let rows = ranked::<Row>(m);
    let assets = r.assets.deep_view();
    let ls = row_lines(rows[i], lookup(assets, rows[i].key), false);
    ranked_is_permutation::<Row>(m);
    assert(m.len() == rows.len()) by {
        m.to_multiset_ensures();
        rows.to_multiset_ensures();
    }
    let all = summary(r, false);
    let a = rows_lines(rows, assets, false);
    let b = shared_lines(r.by_cve.deep_view(), false);
    if 0 <= k < ls.len() {
        lemma_rows_lines(rows, assets, i, k);
        let p = choose|p: int| 0 <= p < a.len() && a[p] == ls[k];
        assert(all[p + 1] == ls[k]);
    }
    assert(all[(1 + a.len() + b.len()) as int] == totals_line(rows));
}

/// Where an asset has more than five findings its last line counts the others.
pub proof fn findings_that_are_not_shown_are_counted(row: RowView, asset: Option<AssetInfoView>)
    ensures
        row.threats.len() > 5 ==> row_lines(row, asset, false).last() == "      … and "@ + decimal(
            (row.threats.len() - 5) as nat,
        ) + " more"@,
        row.threats.len() <= 5 ==> row_lines(row, asset, false).len() == 1 + threats_lines(
            row.threats,
            row.threats.len(),
            false,
        ).len(),
{
}

/// The shared CVEs are listed, at most five of them, with what they affect.
pub proof fn shared_cves_are_listed(groups: Groups, i: int)
    requires
        0 <= i < ranked::<Shared>(shared_cves(groups)).len(),
        i < 5,
    ensures
        ({
            let s = ranked::<Shared>(shared_cves(groups))[i];
            &&& shared_lines(groups, false).contains(shared_line(s, false))
            &&& occurs(shared_line(s, false), s.cve)
            &&& has_suffix(
                shared_line(s, false),
                "  affects "@ + decimal(s.group.assets.len()) + " services"@,
            )
            &&& shared_lines(groups, false).len() <= 6
        }),
{
    let m = shared_cves(groups);
    let all = ranked::<Shared>(m);
    let s = all[i];
    ranked_is_permutation::<Shared>(m);
    assert(m.len() == all.len()) by {
        m.to_multiset_ensures();
        all.to_multiset_ensures();
    }
    assert(shared_lines(groups, false)[i + 1] == shared_line(s, false));
    let l = shared_line(s, false);
    let head = "  "@ + label_of_rank(rank_of(s.group.severity), false) + "  "@;
    let t = "  affects "@ + decimal(s.group.assets.len()) + " services"@;
    let rest = kev_mark(s.group.kev, false) + t;
    assert(l =~= head + s.cve + rest);
    lemma_middle_occurs(head, s.cve, rest);
    assert(l.skip(l.len() - t.len()) =~= t);
}

// ── Lines by name ────────────────────────────────────────────────────────────

/// The line of a finding by name names its CVE and its severity, and marks it where it is known to be
/// exploited.
pub proof fn the_line_of_a_finding_by_name_names_it(t: service_findings::ThreatEntryView)
    ensures
        ({
            let l = service_report::threat_line(t, false);
            &&& t.cve_id matches Some(id) ==> occurs(l, id)
            &&& occurs(l, label_of_rank(rank_of(t.severity), false))
            &&& t.kev ==> occurs(l, " [KEV]"@)
        }),
{
    let l = service_report::threat_line(t, false);
    let label = label_of_rank(rank_of(t.severity), false);
    let cve = match t.cve_id {
        Some(id) => id,
        None => "(no id)"@,
    };
    let mark = kev_mark(t.kev, false);
    let tail = "  "@ + first_chars(
        or_empty(t.title),
        TITLE_WIDTH as int,
    );
    assert(l =~= "      "@ + label + "  "@ + cve + mark + tail);
    lemma_parts_occur("      "@, label, "  "@, cve, mark, tail);
    reveal_strlit(" ");
    reveal_strlit("[KEV]");
    reveal_strlit(" [KEV]");
    assert(" "@ + "[KEV]"@ =~= " [KEV]"@);
}

/// The line of a service names it and counts its findings; only one that is exposed says where it
/// listens. Its first five findings follow, and the others are counted.
pub proof fn the_lines_of_a_service_tell_its_findings(
    row: service_report::ServiceRowView,
    a: service_findings::AssetInfoView,
    k: int,
)
    ensures
        ({
            let ls = service_report::row_lines(row, Some(a), false);
            &&& occurs(ls[0], row.key)
            &&& !row.exposed ==> ls[0] == "\n  "@ + row.key + " — "@ + decimal(row.threats.len())
                + " finding(s)"@
            &&& row.exposed ==> has_suffix(
                ls[0],
                "  [EXPOSED "@ + joined(a.listeners, ", "@) + "]"@,
            )
            &&& 0 <= k < row.threats.len() && k < 5 ==> ls[k + 1] == service_report::threat_line(
                row.threats[k],
                false,
            )
            &&& row.threats.len() > 5 ==> ls.last() == "      … and "@ + decimal(
                (row.threats.len() - 5) as nat,
            ) + " more"@
        }),
{
    let ls = service_report::row_lines(row, Some(a), false);
    let l = service_report::row_line(row, Some(a), false);
    let b = service_report::badge_of(Some(a), false);
    let head = " — "@ + decimal(row.threats.len()) + " finding(s)"@;
    let rest = head + if row.exposed {
        b
    } else {
        Seq::empty()
    };
    assert(ls[0] == l);
    assert(l =~= "\n  "@ + row.key + rest);
    lemma_middle_occurs("\n  "@, row.key, rest);
    if row.exposed {
        let t = "  [EXPOSED "@ + joined(a.listeners, ", "@) + "]"@;
        reveal_strlit("  ");
        reveal_strlit("[EXPOSED ");
        reveal_strlit("  [EXPOSED ");
        assert("  "@ + "[EXPOSED "@ =~= "  [EXPOSED "@);
        assert(b =~= t);
        assert(l.skip(l.len() - t.len()) =~= t);
    } else {
        assert(l =~= "\n  "@ + row.key + " — "@ + decimal(row.threats.len()) + " finding(s)"@);
    }
}

} // verus!
