//! The report of looking services up by name: as JSON, as a summary, and what in it
//! fails a run.

use vstd::prelude::*;

use crate::api::{rank_of, severity_rank};
use crate::gate::{FailOn, Severity};
use crate::json::{
    array, no_members, object, opt_text, opt_value, push_member, push_opt_member, text, text_or_null, value_or_null,
    with_member, Json, JsonView,
};
use crate::number::{decimal, to_decimal};
use crate::order::{precedes, ranked, ranked_is_in_order, sort_ranked, text_precedes, Ranked};
use crate::report::{
    count_findings, errors_json, errors_to_json, filled_items, filled_real, filled_text, items_if_any, real_if_any,
    text_if_any, unless_empty,
};
use crate::service_findings::{AssetInfo, AssetInfoView, BatchResults, ThreatEntry, ThreatEntryView};
use crate::service_lookup::MatchBasis;
use crate::services::{ServiceInfo, ServiceInfoView};
use crate::split::{join, joined};
use crate::summary::{
    higher_risk, kev_mark, label_of_rank, mark_kev, paint, painted, push_line, sev_label, shown, MAX_SHOWN,
    TITLE_WIDTH,
};
use crate::table::{lookup, Table};
use crate::text::{concat2, concat3, concat5, first_chars, opt_as_str, opt_view, or_empty, own, take_chars, views};

verus! {

pub type ServiceFindings = Seq<(Seq<char>, Seq<ThreatEntryView>)>;

pub type ServiceAssets = Seq<(Seq<char>, AssetInfoView)>;

// ── As JSON ──────────────────────────────────────────────────────────────────

pub open spec fn basis_name(b: MatchBasis) -> Seq<char> {
    match b {
        MatchBasis::Constraint => "constraint"@,
        MatchBasis::FreeText => "freetext"@,
    }
}

/// A finding as it stands in the report.
pub open spec fn entry_json(e: ThreatEntryView) -> JsonView {
    let m = seq![
        ("cveId"@, text_or_null(e.cve_id)),
        ("title"@, text_or_null(e.title)),
        ("severity"@, text_or_null(e.severity)),
        ("cvssScore"@, value_or_null(e.cvss_score)),
    ];
    let m = with_member(m, "cvssVector"@, filled_text(e.cvss_vector));
    let m = with_member(m, "epss"@, filled_real(e.epss));
    let m = m.push(("kev"@, JsonView::Bool(e.kev)));
    let m = m.push(("publishedDate"@, text_or_null(e.published_date)));
    let m = m.push(("affectedVersions"@, value_or_null(e.affected_versions)));
    let m = m.push(("patchAvailable"@, value_or_null(e.patch_available)));
    let m = with_member(m, "references"@, filled_items(e.references));
    JsonView::Object(m.push(("matchBasis"@, JsonView::Text(basis_name(e.match_basis)))))
}

impl ThreatEntry {
    /// The finding as it stands in the report.
    pub fn to_json(&self) -> (r: Json)
        ensures
            r.deep_view() == entry_json(self.deep_view()),
    {
        let mut m = no_members();
        push_member(&mut m, "cveId", opt_text(&self.cve_id));
        push_member(&mut m, "title", opt_text(&self.title));
        push_member(&mut m, "severity", opt_text(&self.severity));
        push_member(&mut m, "cvssScore", opt_value(&self.cvss_score));
        assert(m.deep_view() =~= seq![
            ("cveId"@, text_or_null(opt_view(self.cve_id))),
            ("title"@, text_or_null(opt_view(self.title))),
            ("severity"@, text_or_null(opt_view(self.severity))),
            ("cvssScore"@, value_or_null(self.cvss_score.deep_view())),
        ]);
        push_opt_member(&mut m, "cvssVector", text_if_any(&self.cvss_vector));
        push_opt_member(&mut m, "epss", real_if_any(&self.epss));
        push_member(&mut m, "kev", Json::Bool(self.kev));
        push_member(&mut m, "publishedDate", opt_text(&self.published_date));
        push_member(&mut m, "affectedVersions", opt_value(&self.affected_versions));
        push_member(&mut m, "patchAvailable", opt_value(&self.patch_available));
        push_opt_member(&mut m, "references", items_if_any(&self.references));
        let basis = match self.match_basis {
            MatchBasis::Constraint => "constraint",
            MatchBasis::FreeText => "freetext",
        };
        push_member(&mut m, "matchBasis", text(basis));
        object(m)
    }
}

pub open spec fn entries_json(ts: Seq<ThreatEntryView>) -> JsonView {
    JsonView::Array(Seq::new(ts.len(), |i: int| entry_json(ts[i])))
}

pub open spec fn findings_json(m: ServiceFindings) -> JsonView {
    JsonView::Object(Seq::new(m.len(), |i: int| (m[i].0, entries_json(m[i].1))))
}

/// What is known of an asset as it stands in the report.
pub open spec fn asset_json(a: AssetInfoView) -> JsonView {
    let m = seq![
        ("exe"@, JsonView::Text(a.exe)),
        ("version"@, JsonView::Text(a.version)),
        ("versionSource"@, JsonView::Text(a.version_source)),
        ("exposed"@, JsonView::Bool(a.exposed)),
    ];
    JsonView::Object(with_member(m, "listeners"@, filled_items(a.listeners)))
}

pub open spec fn assets_json(m: ServiceAssets) -> JsonView {
    JsonView::Object(Seq::new(m.len(), |i: int| (m[i].0, asset_json(m[i].1))))
}

/// The report as it is written.
pub open spec fn report_json(r: BatchResults) -> JsonView {
    let m = seq![("services"@, findings_json(r.services.deep_view()))];
    let m = with_member(
        m,
        "assets"@,
        unless_empty(r.assets.deep_view().len(), assets_json(r.assets.deep_view())),
    );
    let m = with_member(
        m,
        "system"@,
        match r.system {
            Some(t) => Some(findings_json(t.deep_view())),
            None => None,
        },
    );
    let m = with_member(
        m,
        "errors"@,
        unless_empty(r.errors.deep_view().len(), errors_json(r.errors.deep_view())),
    );
    JsonView::Object(m)
}

fn entry_list_json(v: &Vec<ThreatEntry>) -> (r: Json)
    ensures
        r.deep_view() == entries_json(v.deep_view()),
{
    let mut out: Vec<Json> = Vec::new();
    let mut i: usize = 0;
    while i < v.len()
        invariant
            i <= v@.len(),
            out@.len() == i,
            forall|k: int|
                0 <= k < i ==> (#[trigger] out@[k]).deep_view() == entry_json(v@[k].deep_view()),
        decreases v@.len() - i,
    {
        out.push(v[i].to_json());
        i += 1;
    }
    let r = array(out);
    assert(r.deep_view()->Array_0 =~= entries_json(v.deep_view())->Array_0);
    r
}

fn findings_to_json(t: &Table<Vec<ThreatEntry>>) -> (r: Json)
    ensures
        r.deep_view() == findings_json(t.deep_view()),
{
    let ghost m = t.deep_view();
    let mut out = no_members();
    let mut i: usize = 0;
    while i < t.len()
        invariant
            i <= m.len(),
            m == t.deep_view(),
            out.deep_view().len() == i,
            forall|k: int|
                0 <= k < i ==> #[trigger] out.deep_view()[k] == (m[k].0, entries_json(m[k].1)),
        decreases m.len() - i,
    {
        push_member(&mut out, t.key(i).as_str(), entry_list_json(t.value(i)));
        i += 1;
    }
    assert(out.deep_view() =~= findings_json(m)->Object_0);
    object(out)
}

fn asset_to_json(a: &AssetInfo) -> (r: Json)
    ensures
        r.deep_view() == asset_json(a.deep_view()),
{
    let mut m = no_members();
    push_member(&mut m, "exe", text(a.exe.as_str()));
    push_member(&mut m, "version", text(a.version.as_str()));
    push_member(&mut m, "versionSource", text(a.version_source.as_str()));
    push_member(&mut m, "exposed", Json::Bool(a.exposed));
    assert(m.deep_view() =~= seq![
        ("exe"@, JsonView::Text(a.exe@)),
        ("version"@, JsonView::Text(a.version@)),
        ("versionSource"@, JsonView::Text(a.version_source@)),
        ("exposed"@, JsonView::Bool(a.exposed)),
    ]);
    push_opt_member(&mut m, "listeners", items_if_any(&a.listeners));
    object(m)
}

fn assets_to_json(t: &Table<AssetInfo>) -> (r: Json)
    ensures
        r.deep_view() == assets_json(t.deep_view()),
{
    let ghost m = t.deep_view();
    let mut out = no_members();
    let mut i: usize = 0;
    while i < t.len()
        invariant
            i <= m.len(),
            m == t.deep_view(),
            out.deep_view().len() == i,
            forall|k: int|
                0 <= k < i ==> #[trigger] out.deep_view()[k] == (m[k].0, asset_json(m[k].1)),
        decreases m.len() - i,
    {
        push_member(&mut out, t.key(i).as_str(), asset_to_json(t.value(i)));
        i += 1;
    }
    assert(out.deep_view() =~= assets_json(m)->Object_0);
    object(out)
}

impl BatchResults {
    /// The report as it is written.
    pub fn to_json(&self) -> (r: Json)
        ensures
            r.deep_view() == report_json(*self),
    {
        let mut m = no_members();
        push_member(&mut m, "services", findings_to_json(&self.services));
        assert(m.deep_view() =~= seq![
            ("services"@, findings_json(self.services.deep_view())),
        ]);
        let assets = if self.assets.is_empty() {
            None
        } else {
            Some(assets_to_json(&self.assets))
        };
        push_opt_member(&mut m, "assets", assets);
        let system = match &self.system {
            Some(t) => Some(findings_to_json(t)),
            None => None,
        };
        push_opt_member(&mut m, "system", system);
        let errors = if self.errors.is_empty() {
            None
        } else {
            Some(errors_to_json(&self.errors))
        };
        push_opt_member(&mut m, "errors", errors);
        object(m)
    }
}

// ── The summary ──────────────────────────────────────────────────────────────

/// A service with its findings.
pub struct ServiceRow<'a> {
    pub key: &'a String,
    pub exposed: bool,
    pub threats: &'a Vec<ThreatEntry>,
}

pub struct ServiceRowView {
    pub key: Seq<char>,
    pub exposed: bool,
    pub threats: Seq<ThreatEntryView>,
}

impl<'a> DeepView for ServiceRow<'a> {
    type V = ServiceRowView;

    open spec fn deep_view(&self) -> ServiceRowView {
        ServiceRowView {
            key: self.key@,
            exposed: self.exposed,
            threats: self.threats.deep_view(),
        }
    }
}

/// The number of services that can be reached from another host.
pub open spec fn exposed_count(services: Seq<ServiceInfoView>) -> nat
    decreases services.len(),
{
    if services.len() == 0 {
        0
    } else {
        exposed_count(services.drop_last()) + if services.last().exposed {
            1nat
        } else {
            0nat
        }
    }
}

/// What was found.
pub open spec fn services_text(services: Seq<ServiceInfoView>) -> Seq<char> {
    let exposed = exposed_count(services);
    let suffix = if exposed > 0 {
        ", "@ + decimal(exposed) + " network-exposed"@
    } else {
        Seq::empty()
    };
    "Found "@ + decimal(services.len()) + " service(s)"@ + suffix
}

/// How many services were found, and how many of them are exposed.
pub fn services_line(services: &Vec<ServiceInfo>) -> (r: String)
    ensures
        r@ == services_text(services.deep_view()),
{
    let ghost q = services.deep_view();
    let mut exposed: usize = 0;
    let mut i: usize = 0;
    while i < services.len()
        invariant
            i <= services.len(),
            q == services.deep_view(),
            exposed == exposed_count(q.take(i as int)),
            exposed <= i,
        decreases services.len() - i,
    {
        proof {
            assert(q.take(i + 1).drop_last() =~= q.take(i as int));
            assert(q.take(i + 1).last() == services@[i as int].deep_view());
        }
        if services[i].exposed {
            exposed += 1;
        }
        i += 1;
    }
    assert(q.take(q.len() as int) =~= q);
    let suffix = if exposed > 0 {
        let n = to_decimal(exposed as u64);
        concat3(", ", n.as_str(), " network-exposed")
    } else {
        String::new()
    };
    let n = to_decimal(services.len() as u64);
    let head = concat3("Found ", n.as_str(), " service(s)");
    concat2(head.as_str(), suffix.as_str())
}

/// What the first finding of a service, which is its highest risk, ranks by: whether it
/// is known to be exploited, and its severity.
pub open spec fn first_risk(ts: Seq<ThreatEntryView>) -> (bool, u8) {
    if ts.len() == 0 {
        (false, 0)
    } else {
        (ts[0].kev, rank_of(ts[0].severity))
    }
}

fn risk_of_first(v: &Vec<ThreatEntry>) -> (r: (bool, u8))
    ensures
        r == first_risk(v.deep_view()),
{
    if v.len() == 0 {
        (false, 0)
    } else {
        (v[0].kev, severity_rank(opt_as_str(&v[0].severity)))
    }
}

/// Services rank by exposure, then by the risk of their first finding, then by the number
/// of their findings, then by key.
impl<'a> Ranked for ServiceRow<'a> {
    open spec fn before(a: ServiceRowView, b: ServiceRowView) -> bool {
        let x = first_risk(a.threats);
        let y = first_risk(b.threats);
        if a.exposed != b.exposed {
            a.exposed
        } else if x.0 != y.0 {
            x.0
        } else if x.1 != y.1 {
            x.1 > y.1
        } else if a.threats.len() != b.threats.len() {
            a.threats.len() > b.threats.len()
        } else {
            precedes(a.key, b.key)
        }
    }

    proof fn rank_is_order(a: ServiceRowView, b: ServiceRowView, c: ServiceRowView) {
        <String as Ranked>::rank_is_order(a.key, b.key, c.key);
    }

    fn ranks_before(&self, other: &Self) -> (r: bool) {
        let x = risk_of_first(self.threats);
        let y = risk_of_first(other.threats);
        if self.exposed != other.exposed {
            self.exposed
        } else if x.0 != y.0 {
            x.0
        } else if x.1 != y.1 {
            x.1 > y.1
        } else if self.threats.len() != other.threats.len() {
            self.threats.len() > other.threats.len()
        } else {
            text_precedes(self.key.as_str(), other.key.as_str())
        }
    }
}

/// Whether the service with the key can be reached from another host.
pub open spec fn service_is_exposed(assets: ServiceAssets, key: Seq<char>) -> bool {
    match lookup(assets, key) {
        Some(a) => a.exposed,
        None => false,
    }
}

fn is_exposed(assets: &Table<AssetInfo>, key: &str) -> (r: bool)
    ensures
        r == service_is_exposed(assets.deep_view(), key@),
{
    match assets.get(key) {
        Some(a) => a.exposed,
        None => false,
    }
}

pub open spec fn row_of(e: (Seq<char>, Seq<ThreatEntryView>), assets: ServiceAssets) -> Option<
    ServiceRowView,
> {
    if e.1.len() == 0 {
        None
    } else {
        Some(ServiceRowView { key: e.0, exposed: service_is_exposed(assets, e.0), threats: e.1 })
    }
}

/// The services that have findings.
pub open spec fn rows_of(services: ServiceFindings, assets: ServiceAssets) -> Seq<ServiceRowView> {
    services.filter_map(|e: (Seq<char>, Seq<ThreatEntryView>)| row_of(e, assets))
}

fn make_rows<'a>(services: &'a Table<Vec<ThreatEntry>>, assets: &Table<AssetInfo>) -> (r: Vec<
    ServiceRow<'a>,
>)
    ensures
        r.deep_view() == rows_of(services.deep_view(), assets.deep_view()),
{
    let ghost m = services.deep_view();
    let ghost a = assets.deep_view();
    let mut out: Vec<ServiceRow<'a>> = Vec::new();
    let mut i: usize = 0;
    assert(out.deep_view() =~= rows_of(m.take(0), a));
    while i < services.len()
        invariant
            i <= m.len(),
            m == services.deep_view(),
            a == assets.deep_view(),
            out.deep_view() == rows_of(m.take(i as int), a),
        decreases m.len() - i,
    {
        let ghost before = out.deep_view();
        proof {
            assert(m.take(i + 1).drop_last() =~= m.take(i as int));
            assert(m.take(i + 1).last() == m[i as int]);
        }
        let key = services.key(i);
        let threats = services.value(i);
        assert(threats.deep_view().len() == threats@.len());
        if threats.len() > 0 {
            let row = ServiceRow { key, exposed: is_exposed(assets, key.as_str()), threats };
            out.push(row);
            assert(out.deep_view() =~= before + seq![row.deep_view()]);
        }
        i += 1;
    }
    assert(m.take(m.len() as int) =~= m);
    out
}

/// The summary puts what is exposed, and of that and of the rest what is the highest risk,
/// first.
pub proof fn highest_risk_comes_first(
    services: ServiceFindings,
    assets: ServiceAssets,
    i: int,
    j: int,
)
    requires
        0 <= i < j < ranked::<ServiceRow>(rows_of(services, assets)).len(),
    ensures
        ({
            let rows = ranked::<ServiceRow>(rows_of(services, assets));
            &&& rows[j].exposed ==> rows[i].exposed
            &&& rows[i].exposed == rows[j].exposed ==> !higher_risk(
                first_risk(rows[j].threats),
                first_risk(rows[i].threats),
            )
        }),
{
    ranked_is_in_order::<ServiceRow>(rows_of(services, assets));
    let rows = ranked::<ServiceRow>(rows_of(services, assets));
    assert(!<ServiceRow as Ranked>::before(rows[j], rows[i]));
}

/// Where a service that is exposed listens.
pub open spec fn badge_of(asset: Option<AssetInfoView>, color: bool) -> Seq<char> {
    let eps = match asset {
        Some(a) => joined(a.listeners, ", "@),
        None => Seq::empty(),
    };
    "  "@ + painted("[EXPOSED "@ + eps + "]"@, "1;31"@, color)
}

fn badge(asset: Option<&AssetInfo>, color: bool) -> (r: String)
    ensures
        r@ == badge_of(
            match asset {
                Some(a) => Some(a.deep_view()),
                None => None,
            },
            color,
        ),
{
    let eps = match asset {
        Some(a) => join(&a.listeners, ", "),
        None => String::new(),
    };
    let inner = concat3("[EXPOSED ", eps.as_str(), "]");
    let p = paint(inner.as_str(), "1;31", color);
    concat2("  ", p.as_str())
}

/// The line of a service.
pub open spec fn row_line(
    row: ServiceRowView,
    asset: Option<AssetInfoView>,
    color: bool,
) -> Seq<char> {
    "\n  "@ + painted(row.key, "1;36"@, color) + " — "@ + decimal(row.threats.len())
        + " finding(s)"@ + if row.exposed {
        badge_of(asset, color)
    } else {
        Seq::empty()
    }
}

/// The line of a finding.
pub open spec fn threat_line(t: ThreatEntryView, color: bool) -> Seq<char> {
    let cve = match t.cve_id {
        Some(id) => id,
        None => "(no id)"@,
    };
    "      "@ + label_of_rank(rank_of(t.severity), color) + "  "@ + cve + kev_mark(t.kev, color)
        + "  "@ + first_chars(or_empty(t.title), TITLE_WIDTH as int)
}

/// The lines of the first `n` findings.
pub open spec fn threats_lines(ts: Seq<ThreatEntryView>, n: nat, color: bool) -> Seq<Seq<char>> {
    Seq::new(n, |i: int| threat_line(ts[i], color))
}

/// The lines of a service and its findings.
pub open spec fn row_lines(
    row: ServiceRowView,
    asset: Option<AssetInfoView>,
    color: bool,
) -> Seq<Seq<char>> {
    let n = row.threats.len();
    let more = if n > MAX_SHOWN {
        seq!["      … and "@ + decimal((n - MAX_SHOWN) as nat) + " more"@]
    } else {
        Seq::empty()
    };
    seq![row_line(row, asset, color)] + threats_lines(row.threats, shown(n), color) + more
}

/// The lines of the services.
pub open spec fn rows_lines(
    rows: Seq<ServiceRowView>,
    assets: ServiceAssets,
    color: bool,
) -> Seq<Seq<char>>
    decreases rows.len(),
{
    if rows.len() == 0 {
        Seq::empty()
    } else {
        rows_lines(rows.drop_last(), assets, color) + row_lines(
            rows.last(),
            lookup(assets, rows.last().key),
            color,
        )
    }
}

fn write_threat(t: &ThreatEntry, color: bool) -> (r: String)
    ensures
        r@ == threat_line(t.deep_view(), color),
{
    let label = sev_label(opt_as_str(&t.severity), color);
    let cve = match &t.cve_id {
        Some(id) => id.clone(),
        None => own("(no id)"),
    };
    let kev = mark_kev(t.kev, color);
    let title = match &t.title {
        Some(s) => take_chars(s.as_str(), TITLE_WIDTH),
        None => {
            let none = take_chars("", TITLE_WIDTH);
            proof {
                reveal_strlit("");
                assert(""@ =~= Seq::<char>::empty());
            }
            none
        },
    };
    let head = concat5("      ", label.as_str(), "  ", cve.as_str(), kev.as_str());
    concat3(head.as_str(), "  ", title.as_str())
}

fn push_row<'a>(out: &mut Vec<String>, row: &ServiceRow<'a>, asset: Option<&AssetInfo>, color: bool)
    ensures
        views(final(out)@) == views(old(out)@) + row_lines(
            row.deep_view(),
            match asset {
                Some(a) => Some(a.deep_view()),
                None => None,
            },
            color,
        ),
{
    let ghost before = views(out@);
    let ghost info = match asset {
        Some(a) => Some(a.deep_view()),
        None => None,
    };
    let ghost ts = row.threats.deep_view();
    assert(ts.len() == row.threats@.len());
    let key = paint(row.key.as_str(), "1;36", color);
    let count = to_decimal(row.threats.len() as u64);
    let head = concat5("\n  ", key.as_str(), " — ", count.as_str(), " finding(s)");
    let line = if row.exposed {
        let b = badge(asset, color);
        concat2(head.as_str(), b.as_str())
    } else {
        assert(head@ + Seq::<char>::empty() =~= head@);
        head
    };
    push_line(out, line);
    let n: usize = if row.threats.len() < MAX_SHOWN {
        row.threats.len()
    } else {
        MAX_SHOWN
    };
    let mut i: usize = 0;
    assert(views(out@) =~= before + seq![row_line(row.deep_view(), info, color)] + threats_lines(
        ts,
        0,
        color,
    ));
    while i < n
        invariant
            i <= n,
            n <= row.threats@.len(),
            ts == row.threats.deep_view(),
            views(out@) == before + seq![row_line(row.deep_view(), info, color)] + threats_lines(
                ts,
                i as nat,
                color,
            ),
        decreases n - i,
    {
        push_line(out, write_threat(&row.threats[i], color));
        assert(ts[i as int] == row.threats@[i as int].deep_view());
        assert(views(out@) =~= before + seq![row_line(row.deep_view(), info, color)]
            + threats_lines(ts, (i + 1) as nat, color));
        i += 1;
    }
    if row.threats.len() > MAX_SHOWN {
        let left = to_decimal((row.threats.len() - MAX_SHOWN) as u64);
        push_line(out, concat3("      … and ", left.as_str(), " more"));
    }
    assert(views(out@) =~= before + row_lines(row.deep_view(), info, color));
}

/// How many findings the services have, how many services are exposed, and how many
/// findings are known to be exploited.
pub open spec fn totals(rows: Seq<ServiceRowView>) -> (nat, nat, nat)
    decreases rows.len(),
{
    if rows.len() == 0 {
        (0, 0, 0)
    } else {
        let before = totals(rows.drop_last());
        let r = rows.last();
        (
            before.0 + r.threats.len(),
            before.1 + if r.exposed {
                1nat
            } else {
                0nat
            },
            before.2 + exploited(r.threats),
        )
    }
}

pub open spec fn exploited(ts: Seq<ThreatEntryView>) -> nat
    decreases ts.len(),
{
    if ts.len() == 0 {
        0
    } else {
        exploited(ts.drop_last()) + if ts.last().kev {
            1nat
        } else {
            0nat
        }
    }
}

proof fn lemma_exploited_bound(ts: Seq<ThreatEntryView>)
    ensures
        exploited(ts) <= ts.len(),
    decreases ts.len(),
{
    if ts.len() > 0 {
        lemma_exploited_bound(ts.drop_last());
    }
}

proof fn lemma_totals_bound(rows: Seq<ServiceRowView>)
    ensures
        totals(rows).1 <= rows.len(),
        totals(rows).2 <= totals(rows).0,
    decreases rows.len(),
{
    if rows.len() > 0 {
        lemma_totals_bound(rows.drop_last());
        lemma_exploited_bound(rows.last().threats);
    }
}

proof fn lemma_totals_grow(rows: Seq<ServiceRowView>, i: int)
    requires
        0 <= i <= rows.len(),
    ensures
        totals(rows.take(i)).0 <= totals(rows).0,
    decreases rows.len() - i,
{
    if i == rows.len() {
        assert(rows.take(i) =~= rows);
    } else {
        lemma_totals_grow(rows, i + 1);
        assert(rows.take(i + 1).drop_last() =~= rows.take(i));
    }
}

proof fn lemma_rows_count(services: ServiceFindings, assets: ServiceAssets)
    ensures
        totals(rows_of(services, assets)).0 == count_findings(services),
    decreases services.len(),
{
    reveal(Seq::filter_map);
    if services.len() > 0 {
        let d = services.drop_last();
        lemma_rows_count(d, assets);
        let before = rows_of(d, assets);
        let e = services.last();
        if e.1.len() > 0 {
            let row = row_of(e, assets)->0;
            assert(rows_of(services, assets) =~= before + seq![row]);
            assert((before + seq![row]).drop_last() =~= before);
        } else {
            assert(rows_of(services, assets) =~= before);
        }
    }
}

fn count_exploited(ts: &Vec<ThreatEntry>) -> (r: usize)
    ensures
        r == exploited(ts.deep_view()),
{
    let ghost q = ts.deep_view();
    let mut n: usize = 0;
    let mut i: usize = 0;
    while i < ts.len()
        invariant
            i <= ts.len(),
            q == ts.deep_view(),
            n == exploited(q.take(i as int)),
            n <= i,
        decreases ts.len() - i,
    {
        proof {
            assert(q.take(i + 1).drop_last() =~= q.take(i as int));
            assert(q.take(i + 1).last() == ts@[i as int].deep_view());
        }
        if ts[i].kev {
            n += 1;
        }
        i += 1;
    }
    assert(q.take(q.len() as int) =~= q);
    n
}

/// The line of the totals.
pub open spec fn totals_line(rows: Seq<ServiceRowView>) -> Seq<char> {
    "\n"@ + decimal(totals(rows).0) + " finding(s) across "@ + decimal(rows.len())
        + " service(s); "@ + decimal(totals(rows).1) + " exposed, "@ + decimal(totals(rows).2)
        + " known-exploited."@
}

/// The lines of the summary; none where nothing was found.
pub open spec fn summary(r: BatchResults, color: bool) -> Seq<Seq<char>> {
    let rows = rows_of(r.services.deep_view(), r.assets.deep_view());
    if rows.len() == 0 {
        Seq::empty()
    } else {
        seq!["\n"@ + painted("Vulnerability summary (highest risk first):"@, "1"@, color)]
            + rows_lines(ranked::<ServiceRow>(rows), r.assets.deep_view(), color) + seq![
            totals_line(rows),
        ]
    }
}

fn write_totals<'a>(rows: &Vec<ServiceRow<'a>>) -> (r: String)
    requires
        totals(rows.deep_view()).0 <= usize::MAX,
    ensures
        r@ == totals_line(rows.deep_view()),
{
    let ghost q = rows.deep_view();
    let mut total: usize = 0;
    let mut exposed: usize = 0;
    let mut kev: usize = 0;
    let mut i: usize = 0;
    while i < rows.len()
        invariant
            i <= rows.len(),
            q == rows.deep_view(),
            q.len() == rows@.len(),
            totals(q).0 <= usize::MAX,
            totals(q.take(i as int)) == (total as nat, exposed as nat, kev as nat),
        decreases rows.len() - i,
    {
        let n: usize = rows[i].threats.len();
        let k: usize = count_exploited(rows[i].threats);
        proof {
            assert(q.take(i + 1).drop_last() =~= q.take(i as int));
            assert(q.take(i + 1).last() == rows@[i as int].deep_view());
            assert(rows@[i as int].deep_view().threats.len() == n);
            lemma_totals_grow(q, i + 1);
            lemma_totals_bound(q.take(i + 1));
        }
        total += n;
        kev += k;
        if rows[i].exposed {
            exposed += 1;
        }
        i += 1;
    }
    assert(q.take(q.len() as int) =~= q);
    let a = to_decimal(total as u64);
    let b = to_decimal(rows.len() as u64);
    let c = to_decimal(exposed as u64);
    let d = to_decimal(kev as u64);
    let head = concat5("\n", a.as_str(), " finding(s) across ", b.as_str(), " service(s); ");
    concat5(head.as_str(), c.as_str(), " exposed, ", d.as_str(), " known-exploited.")
}

/// The lines of the summary of a report: the services that are exposed first, and of them
/// and of the others those whose first finding is the highest risk, then those with the
/// most findings, then by key.
pub fn print_summary(results: &BatchResults, color: bool) -> (r: Vec<String>)
    requires
        count_findings(results.services.deep_view()) <= usize::MAX,
    ensures
        views(r@) == summary(*results, color),
{
    let mut out: Vec<String> = Vec::new();
    assert(views(out@) =~= Seq::<Seq<char>>::empty());
    let ghost assets = results.assets.deep_view();
    let found = make_rows(&results.services, &results.assets);
    let ghost unsorted = found.deep_view();
    assert(unsorted.len() == found@.len());
    if found.len() == 0 {
        return out;
    }
    proof {
        lemma_rows_count(results.services.deep_view(), assets);
    }
    let closing = write_totals(&found);
    let rows = sort_ranked(found);
    let ghost q = rows.deep_view();
    assert(q.len() == rows@.len());
    let title = paint("Vulnerability summary (highest risk first):", "1", color);
    push_line(&mut out, concat2("\n", title.as_str()));
    let ghost head = views(out@);
    let mut i: usize = 0;
    assert(views(out@) =~= head + rows_lines(q.take(0), assets, color));
    while i < rows.len()
        invariant
            i <= rows@.len(),
            q == rows.deep_view(),
            q.len() == rows@.len(),
            assets == results.assets.deep_view(),
            views(out@) == head + rows_lines(q.take(i as int), assets, color),
        decreases rows@.len() - i,
    {
        proof {
            assert(q.take(i + 1).drop_last() =~= q.take(i as int));
            assert(q.take(i + 1).last() == rows@[i as int].deep_view());
        }
        let asset = results.assets.get(rows[i].key.as_str());
        push_row(&mut out, &rows[i], asset, color);
        assert(views(out@) =~= head + rows_lines(q.take(i + 1), assets, color));
        i += 1;
    }
    assert(q.take(q.len() as int) =~= q);
    push_line(&mut out, closing);
    assert(views(out@) =~= summary(*results, color));
    out
}

// ── What fails a run ─────────────────────────────────────────────────────────

/// Whether a finding fails a run.
pub open spec fn fails(fail_on: FailOn, t: ThreatEntryView, exposed: bool) -> bool {
    let rank = rank_of(t.severity);
    match fail_on {
        FailOn::Any => true,
        FailOn::Critical => rank >= 4,
        FailOn::High => rank >= 3,
        FailOn::Medium => rank >= 2,
        FailOn::Low => rank >= 1,
        FailOn::Kev => t.kev,
        FailOn::Exposed => exposed,
    }
}

/// Whether one of the findings of a service fails a run.
pub open spec fn service_fails(
    services: ServiceFindings,
    assets: ServiceAssets,
    fail_on: FailOn,
) -> bool {
    exists|i: int, k: int|
        0 <= i < services.len() && 0 <= k < services[i].1.len() && fails(
            fail_on,
            #[trigger] services[i].1[k],
            service_is_exposed(assets, services[i].0),
        )
}

/// Whether one of the findings fails a run. The system itself counts as not exposed.
pub open spec fn some_finding_fails(r: BatchResults, fail_on: FailOn) -> bool {
    service_fails(r.services.deep_view(), r.assets.deep_view(), fail_on)
        || match r.system {
        Some(t) => service_fails(t.deep_view(), Seq::empty(), fail_on),
        None => false,
    }
}

fn entry_fails(fail_on: FailOn, t: &ThreatEntry, exposed: bool) -> (r: bool)
    ensures
        r == fails(fail_on, t.deep_view(), exposed),
{
    let rank: u8 = severity_rank(opt_as_str(&t.severity));
    match fail_on {
        FailOn::Any => true,
        FailOn::Critical => rank >= 4,
        FailOn::High => rank >= 3,
        FailOn::Medium => rank >= 2,
        FailOn::Low => rank >= 1,
        FailOn::Kev => t.kev,
        FailOn::Exposed => exposed,
    }
}

fn table_fails(
    services: &Table<Vec<ThreatEntry>>,
    assets: &Table<AssetInfo>,
    fail_on: FailOn,
) -> (r: bool)
    ensures
        r == service_fails(services.deep_view(), assets.deep_view(), fail_on),
{
    let ghost m = services.deep_view();
    let ghost a = assets.deep_view();
    let mut i: usize = 0;
    while i < services.len()
        invariant
            i <= m.len(),
            m == services.deep_view(),
            a == assets.deep_view(),
            forall|x: int, y: int|
                0 <= x < i && 0 <= y < m[x].1.len() ==> !fails(
                    fail_on,
                    #[trigger] m[x].1[y],
                    service_is_exposed(a, m[x].0),
                ),
        decreases m.len() - i,
    {
        let exposed = is_exposed(assets, services.key(i).as_str());
        let entries = services.value(i);
        let mut k: usize = 0;
        while k < entries.len()
            invariant
                i < m.len(),
                k <= entries@.len(),
                entries.deep_view() == m[i as int].1,
                m == services.deep_view(),
                a == assets.deep_view(),
                exposed == service_is_exposed(a, m[i as int].0),
                forall|y: int|
                    0 <= y < k ==> !fails(fail_on, #[trigger] m[i as int].1[y], exposed),
            decreases entries@.len() - k,
        {
            assert(m[i as int].1[k as int] == entries@[k as int].deep_view());
            if entry_fails(fail_on, &entries[k], exposed) {
                return true;
            }
            k += 1;
        }
        i += 1;
    }
    false
}

/// Whether one of the findings of a report fails the run. The severity was asked for
/// when the findings were looked up, so that it changes nothing here.
pub fn fail_triggered(results: &BatchResults, fail_on: FailOn, _floor: Option<Severity>) -> (r: bool)
    ensures
        r == some_finding_fails(*results, fail_on),
{
    if table_fails(&results.services, &results.assets, fail_on) {
        return true;
    }
    match &results.system {
        Some(t) => {
            let none: Table<AssetInfo> = Table::new();
            table_fails(t, &none, fail_on)
        },
        None => false,
    }
}

} // verus!
