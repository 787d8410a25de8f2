//! The summary of a report for the terminal.

use vstd::prelude::*;

use crate::api::{rank_of, severity_rank, ThreatEntry, ThreatEntryView};
use crate::asset::{Asset, AssetView, ScanScope};
use crate::gate::{is_exposed, key_is_exposed};
use crate::number::{decimal, to_decimal};
use crate::order::{precedes, ranked, ranked_is_in_order, ranked_is_permutation, sort_ranked, text_precedes, Ranked};
use crate::report::{
    count_entries, count_findings, AssetInfo, AssetInfoView, BatchResults, CveGroup, CveGroupView, Findings, Groups,
};
use crate::split::{join, joined};
use crate::table::{lookup, Table};
use crate::text::{
    concat2, concat3, concat4, concat5, first_chars, opt_as_str, opt_str_view, opt_view, or_empty, own, same,
    take_chars, to_uppercase, uppercase, views,
};

verus! {

/// How many findings of an asset, and how many shared CVEs, are shown.
pub const MAX_SHOWN: usize = 5;

/// How much of a title is shown.
pub const TITLE_WIDTH: usize = 72;

/// How much of an advice is shown.
pub const HINT_WIDTH: usize = 96;

// ── Colours ──────────────────────────────────────────────────────────────────

/// A text in a colour.
pub open spec fn painted(s: Seq<char>, code: Seq<char>, color: bool) -> Seq<char> {
    if color {
        "\x1b["@ + code + "m"@ + s + "\x1b[0m"@
    } else {
        s
    }
}

/// A text in a colour, where there are colours.
pub fn paint(s: &str, code: &str, color: bool) -> (r: String)
    ensures
        r@ == painted(s@, code@, color),
{
    if color {
        concat5("\x1b[", code, "m", s, "\x1b[0m")
    } else {
        own(s)
    }
}

/// The label of a severity.
pub open spec fn label_of_rank(rank: u8, color: bool) -> Seq<char> {
    if rank == 4 {
        painted("CRIT"@, "1;31"@, color)
    } else if rank == 3 {
        painted("HIGH"@, "31"@, color)
    } else if rank == 2 {
        painted("MED "@, "33"@, color)
    } else if rank == 1 {
        painted("LOW "@, "2"@, color)
    } else {
        painted("UNK "@, "2"@, color)
    }
}

/// The label of a severity.
pub fn sev_label(sev: Option<&str>, color: bool) -> (r: String)
    ensures
        r@ == label_of_rank(rank_of(opt_str_view(sev)), color),
{
    match severity_rank(sev) {
        4 => paint("CRIT", "1;31", color),
        3 => paint("HIGH", "31", color),
        2 => paint("MED ", "33", color),
        1 => paint("LOW ", "2", color),
        _ => paint("UNK ", "2", color),
    }
}

// ── Assets with findings ─────────────────────────────────────────────────────

/// An asset with its findings.
pub struct Row<'a> {
    pub key: &'a String,
    pub exposed: bool,
    pub threats: &'a Vec<ThreatEntry>,
}

pub struct RowView {
    pub key: Seq<char>,
    pub exposed: bool,
    pub threats: Seq<ThreatEntryView>,
}

impl<'a> DeepView for Row<'a> {
    type V = RowView;

    open spec fn deep_view(&self) -> RowView {
        RowView { key: self.key@, exposed: self.exposed, threats: self.threats.deep_view() }
    }
}

/// What the first finding of an asset, which is its highest risk, ranks by: whether it is
/// known to be exploited, and its severity.
pub open spec fn first_risk(ts: Seq<ThreatEntryView>) -> (bool, u8) {
    if ts.len() == 0 {
        (false, 0)
    } else {
        (ts[0].kev, rank_of(ts[0].severity))
    }
}

fn risk_of_first(v: &Vec<ThreatEntry>) -> (r: (bool, u8))
    ensures
        r == first_risk(v.deep_view()),
{
    if v.len() == 0 {
        (false, 0)
    } else {
        (v[0].kev, v[0].severity_rank())
    }
}

/// Whether one risk is higher than another: a finding that is known to be exploited is
/// higher than one that is not, and of two others the more severe one.
pub open spec fn higher_risk(x: (bool, u8), y: (bool, u8)) -> bool {
    if x.0 != y.0 {
        x.0
    } else {
        x.1 > y.1
    }
}

/// Assets rank by exposure, then by the risk of their first finding, then by the number
/// of their findings, then by key.
impl<'a> Ranked for Row<'a> {
    open spec fn before(a: RowView, b: RowView) -> bool {
        let x = first_risk(a.threats);
        let y = first_risk(b.threats);
        if a.exposed != b.exposed {
            a.exposed
        } else if x.0 != y.0 {
            x.0
        } else if x.1 != y.1 {
            x.1 > y.1
        } else if a.threats.len() != b.threats.len() {
            a.threats.len() > b.threats.len()
        } else {
            precedes(a.key, b.key)
        }
    }

    proof fn rank_is_order(a: RowView, b: RowView, c: RowView) {
        <String as Ranked>::rank_is_order(a.key, b.key, c.key);
    }

    fn ranks_before(&self, other: &Self) -> (r: bool) {
        let x = risk_of_first(self.threats);
        let y = risk_of_first(other.threats);
        if self.exposed != other.exposed {
            self.exposed
        } else if x.0 != y.0 {
            x.0
        } else if x.1 != y.1 {
            x.1 > y.1
        } else if self.threats.len() != other.threats.len() {
            self.threats.len() > other.threats.len()
        } else {
            text_precedes(self.key.as_str(), other.key.as_str())
        }
    }
}

pub open spec fn row_of(
    e: (Seq<char>, Seq<ThreatEntryView>),
    assets: Seq<(Seq<char>, AssetInfoView)>,
) -> Option<RowView> {
    if e.1.len() == 0 {
        None
    } else {
        Some(RowView { key: e.0, exposed: key_is_exposed(assets, e.0), threats: e.1 })
    }
}

/// The assets that have findings.
pub open spec fn rows_of(
    services: Findings,
    assets: Seq<(Seq<char>, AssetInfoView)>,
) -> Seq<RowView> {
    services.filter_map(|e: (Seq<char>, Seq<ThreatEntryView>)| row_of(e, assets))
}

fn make_rows<'a>(services: &'a Table<Vec<ThreatEntry>>, assets: &Table<AssetInfo>) -> (r: Vec<
    Row<'a>,
>)
    ensures
        r.deep_view() == rows_of(services.deep_view(), assets.deep_view()),
{
    let ghost m = services.deep_view();
    let ghost a = assets.deep_view();
    let mut out: Vec<Row<'a>> = Vec::new();
    let mut i: usize = 0;
    assert(out.deep_view() =~= rows_of(m.take(0), a));
    while i < services.len()
        invariant
            i <= m.len(),
            m == services.deep_view(),
            a == assets.deep_view(),
            out.deep_view() == rows_of(m.take(i as int), a),
        decreases m.len() - i,
    {
        let ghost before = out.deep_view();
        proof {
            assert(m.take(i + 1).drop_last() =~= m.take(i as int));
            assert(m.take(i + 1).last() == m[i as int]);
        }
        let key = services.key(i);
        let threats = services.value(i);
        assert(threats.deep_view().len() == threats@.len());
        if threats.len() > 0 {
            let row = Row { key, exposed: is_exposed(assets, key.as_str()), threats };
            out.push(row);
            assert(out.deep_view() =~= before + seq![row.deep_view()]);
        }
        i += 1;
    }
    assert(m.take(m.len() as int) =~= m);
    out
}

/// The summary puts what is exposed, and of that and of the rest what is the highest risk,
/// first: no asset that is exposed stands behind one that is not, and no asset whose first
/// finding is a higher risk behind another of its kind.
pub proof fn highest_risk_comes_first(
    services: Findings,
    assets: Seq<(Seq<char>, AssetInfoView)>,
    i: int,
    j: int,
)
    requires
        0 <= i < j < ranked::<Row>(rows_of(services, assets)).len(),
    ensures
        ({
            let rows = ranked::<Row>(rows_of(services, assets));
            &&& rows[j].exposed ==> rows[i].exposed
            &&& rows[i].exposed == rows[j].exposed ==> !higher_risk(
                first_risk(rows[j].threats),
                first_risk(rows[i].threats),
            )
        }),
{
    ranked_is_in_order::<Row>(rows_of(services, assets));
    let rows = ranked::<Row>(rows_of(services, assets));
    assert(!<Row as Ranked>::before(rows[j], rows[i]));
}

// ── Lines ────────────────────────────────────────────────────────────────────

/// How far an asset that is exposed can be reached, and where.
pub open spec fn badge_of(asset: Option<AssetInfoView>, color: bool) -> Seq<char> {
    let reach = match asset {
        Some(a) => a.reachability,
        None => "private"@,
    };
    let eps = match asset {
        Some(a) => joined(a.listeners, ", "@),
        None => Seq::empty(),
    };
    let code = if reach == "public"@ {
        "1;31"@
    } else {
        "1;33"@
    };
    "  "@ + painted("["@ + uppercase(reach) + " "@ + eps + "]"@, code, color)
}

fn badge(asset: Option<&AssetInfo>, color: bool) -> (r: String)
    ensures
        r@ == badge_of(
            match asset {
                Some(a) => Some(a.deep_view()),
                None => None,
            },
            color,
        ),
{
    let reach = match asset {
        Some(a) => a.reachability.as_str(),
        None => "private",
    };
    let eps = match asset {
        Some(a) => join(&a.listeners, ", "),
        None => String::new(),
    };
    let code = if same(reach, "public") {
        "1;31"
    } else {
        "1;33"
    };
    let upper = to_uppercase(reach);
    let inner = concat5("[", upper.as_str(), " ", eps.as_str(), "]");
    let p = paint(inner.as_str(), code, color);
    concat2("  ", p.as_str())
}

/// The line of an asset.
pub open spec fn row_line(row: RowView, asset: Option<AssetInfoView>, color: bool) -> Seq<char> {
    "\n  "@ + painted(row.key, "1;36"@, color) + " — "@ + decimal(row.threats.len())
        + " finding(s)"@ + if row.exposed {
        badge_of(asset, color)
    } else {
        Seq::empty()
    }
}

pub open spec fn kev_mark(kev: bool, color: bool) -> Seq<char> {
    if kev {
        " "@ + painted("[KEV]"@, "1;31"@, color)
    } else {
        Seq::empty()
    }
}

pub(crate) fn mark_kev(kev: bool, color: bool) -> (r: String)
    ensures
        r@ == kev_mark(kev, color),
{
    if kev {
        let p = paint("[KEV]", "1;31", color);
        concat2(" ", p.as_str())
    } else {
        String::new()
    }
}

/// What a finding is fixed by.
pub open spec fn fix_mark(fixed: Seq<Seq<char>>, color: bool) -> Seq<char> {
    if fixed.len() == 0 {
        Seq::empty()
    } else {
        "  "@ + painted("→ fix: "@ + joined(fixed, ", "@), "32"@, color)
    }
}

fn mark_fix(fixed: &Vec<String>, color: bool) -> (r: String)
    ensures
        r@ == fix_mark(views(fixed@), color),
{
    if fixed.len() == 0 {
        String::new()
    } else {
        let versions = join(fixed, ", ");
        let text = concat2("→ fix: ", versions.as_str());
        let p = paint(text.as_str(), "32", color);
        concat2("  ", p.as_str())
    }
}

/// The first line of a finding.
pub open spec fn threat_line(t: ThreatEntryView, color: bool) -> Seq<char> {
    let cve = match t.cve_id {
        Some(id) => id,
        None => "(no id)"@,
    };
    "      "@ + label_of_rank(rank_of(t.severity), color) + "  "@ + cve + kev_mark(t.kev, color)
        + "  "@ + first_chars(or_empty(t.title), TITLE_WIDTH as int) + fix_mark(
        t.fixed_versions,
        color,
    )
}

/// The lines of a finding: what it is, where more is written, and what to do.
pub open spec fn threat_lines(t: ThreatEntryView, color: bool) -> Seq<Seq<char>> {
    let url = match t.radar_url {
        Some(u) => seq!["            "@ + painted(u, "4;34"@, color)],
        None => Seq::empty(),
    };
    let hint = match t.remediation {
        Some(rem) => seq![
            "            "@ + painted(first_chars(rem, HINT_WIDTH as int), "2"@, color),
        ],
        None => Seq::empty(),
    };
    seq![threat_line(t, color)] + url + hint
}

/// The lines of the first `n` findings.
pub open spec fn threats_lines(ts: Seq<ThreatEntryView>, n: nat, color: bool) -> Seq<Seq<char>>
    decreases n,
{
    if n == 0 {
        Seq::empty()
    } else {
        threats_lines(ts, (n - 1) as nat, color) + threat_lines(ts[n - 1], color)
    }
}

pub open spec fn shown(n: nat) -> nat {
    if n < MAX_SHOWN {
        n
    } else {
        MAX_SHOWN as nat
    }
}

/// The lines of an asset and its findings.
pub open spec fn row_lines(row: RowView, asset: Option<AssetInfoView>, color: bool) -> Seq<
    Seq<char>,
> {
    let n = row.threats.len();
    let more = if n > MAX_SHOWN {
        seq!["      … and "@ + decimal((n - MAX_SHOWN) as nat) + " more"@]
    } else {
        Seq::empty()
    };
    seq![row_line(row, asset, color)] + threats_lines(row.threats, shown(n), color) + more
}

/// The lines of the assets.
pub open spec fn rows_lines(
    rows: Seq<RowView>,
    assets: Seq<(Seq<char>, AssetInfoView)>,
    color: bool,
) -> Seq<Seq<char>>
    decreases rows.len(),
{
    if rows.len() == 0 {
        Seq::empty()
    } else {
        rows_lines(rows.drop_last(), assets, color) + row_lines(
            rows.last(),
            lookup(assets, rows.last().key),
            color,
        )
    }
}

pub(crate) fn push_line(out: &mut Vec<String>, line: String)
    ensures
        views(final(out)@) == views(old(out)@).push(line@),
{
    let ghost before = views(out@);
    out.push(line);
    assert(views(out@) =~= before.push(line@));
}

fn write_threat_line(t: &ThreatEntry, color: bool) -> (r: String)
    ensures
        r@ == threat_line(t.deep_view(), color),
{
    let label = sev_label(opt_as_str(&t.severity), color);
    let cve = match &t.cve_id {
        Some(id) => id.clone(),
        None => own("(no id)"),
    };
    let kev = mark_kev(t.kev, color);
    let title = match &t.title {
        Some(s) => take_chars(s.as_str(), TITLE_WIDTH),
        None => {
            let none = take_chars("", TITLE_WIDTH);
            proof {
                reveal_strlit("");
                assert(""@ =~= Seq::<char>::empty());
            }
            none
        },
    };
    let fix = mark_fix(&t.fixed_versions, color);
    let head = concat5("      ", label.as_str(), "  ", cve.as_str(), kev.as_str());
    concat4(head.as_str(), "  ", title.as_str(), fix.as_str())
}

fn push_threat(out: &mut Vec<String>, t: &ThreatEntry, color: bool)
    ensures
        views(final(out)@) == views(old(out)@) + threat_lines(t.deep_view(), color),
{
    let ghost before = views(out@);
    push_line(out, write_threat_line(t, color));
    if let Some(u) = &t.radar_url {
        let p = paint(u.as_str(), "4;34", color);
        push_line(out, concat2("            ", p.as_str()));
    }
    if let Some(rem) = &t.remediation {
        let hint = take_chars(rem.as_str(), HINT_WIDTH);
        let p = paint(hint.as_str(), "2", color);
        push_line(out, concat2("            ", p.as_str()));
    }
    assert(views(out@) =~= before + threat_lines(t.deep_view(), color));
}

fn push_row<'a>(out: &mut Vec<String>, row: &Row<'a>, asset: Option<&AssetInfo>, color: bool)
    ensures
        views(final(out)@) == views(old(out)@) + row_lines(
            row.deep_view(),
            match asset {
                Some(a) => Some(a.deep_view()),
                None => None,
            },
            color,
        ),
{
    let ghost before = views(out@);
    let ghost info = match asset {
        Some(a) => Some(a.deep_view()),
        None => None,
    };
    let ghost ts = row.threats.deep_view();
    assert(ts.len() == row.threats@.len());
    let key = paint(row.key.as_str(), "1;36", color);
    let count = to_decimal(row.threats.len() as u64);
    let head = concat5("\n  ", key.as_str(), " — ", count.as_str(), " finding(s)");
    let line = if row.exposed {
        let b = badge(asset, color);
        concat2(head.as_str(), b.as_str())
    } else {
        assert(head@ + Seq::<char>::empty() =~= head@);
        head
    };
    push_line(out, line);
    let n: usize = if row.threats.len() < MAX_SHOWN {
        row.threats.len()
    } else {
        MAX_SHOWN
    };
    let mut i: usize = 0;
    assert(views(out@) =~= before + seq![row_line(row.deep_view(), info, color)] + threats_lines(
        ts,
        0,
        color,
    ));
    while i < n
        invariant
            i <= n,
            n <= row.threats@.len(),
            ts == row.threats.deep_view(),
            views(out@) == before + seq![row_line(row.deep_view(), info, color)] + threats_lines(
                ts,
                i as nat,
                color,
            ),
        decreases n - i,
    {
        push_threat(out, &row.threats[i], color);
        assert(ts[i as int] == row.threats@[i as int].deep_view());
        assert(views(out@) =~= before + seq![row_line(row.deep_view(), info, color)]
            + threats_lines(ts, (i + 1) as nat, color));
        i += 1;
    }
    if row.threats.len() > MAX_SHOWN {
        let left = to_decimal((row.threats.len() - MAX_SHOWN) as u64);
        push_line(out, concat3("      … and ", left.as_str(), " more"));
    }
    assert(views(out@) =~= before + row_lines(row.deep_view(), info, color));
}

// ── CVEs of more than one asset ──────────────────────────────────────────────

/// A CVE with the assets that it affects.
pub struct Shared<'a> {
    pub cve: &'a String,
    pub group: &'a CveGroup,
}

pub struct SharedView {
    pub cve: Seq<char>,
    pub group: CveGroupView,
}

impl<'a> DeepView for Shared<'a> {
    type V = SharedView;

    open spec fn deep_view(&self) -> SharedView {
        SharedView { cve: self.cve@, group: self.group.deep_view() }
    }
}

/// Shared CVEs rank by whether they are known to be exploited, then by severity,
/// then by the number of assets, then by id.
impl<'a> Ranked for Shared<'a> {
    open spec fn before(a: SharedView, b: SharedView) -> bool {
        if a.group.kev != b.group.kev {
            a.group.kev
        } else if rank_of(a.group.severity) != rank_of(b.group.severity) {
            rank_of(a.group.severity) > rank_of(b.group.severity)
        } else if a.group.assets.len() != b.group.assets.len() {
            a.group.assets.len() > b.group.assets.len()
        } else {
            precedes(a.cve, b.cve)
        }
    }

    proof fn rank_is_order(a: SharedView, b: SharedView, c: SharedView) {
        <String as Ranked>::rank_is_order(a.cve, b.cve, c.cve);
    }

    fn ranks_before(&self, other: &Self) -> (r: bool) {
        let a: u8 = severity_rank(opt_as_str(&self.group.severity));
        let b: u8 = severity_rank(opt_as_str(&other.group.severity));
        if self.group.kev != other.group.kev {
            self.group.kev
        } else if a != b {
            a > b
        } else if self.group.assets.len() != other.group.assets.len() {
            self.group.assets.len() > other.group.assets.len()
        } else {
            text_precedes(self.cve.as_str(), other.cve.as_str())
        }
    }
}

pub open spec fn shared_of(e: (Seq<char>, CveGroupView)) -> Option<SharedView> {
    if e.1.assets.len() > 1 {
        Some(SharedView { cve: e.0, group: e.1 })
    } else {
        None
    }
}

/// The CVEs that affect more than one asset.
pub open spec fn shared_cves(groups: Groups) -> Seq<SharedView> {
    groups.filter_map(|e: (Seq<char>, CveGroupView)| shared_of(e))
}

fn find_shared<'a>(groups: &'a Table<CveGroup>) -> (r: Vec<Shared<'a>>)
    ensures
        r.deep_view() == shared_cves(groups.deep_view()),
{
    let ghost m = groups.deep_view();
    let mut out: Vec<Shared<'a>> = Vec::new();
    let mut i: usize = 0;
    assert(out.deep_view() =~= shared_cves(m.take(0)));
    while i < groups.len()
        invariant
            i <= m.len(),
            m == groups.deep_view(),
            out.deep_view() == shared_cves(m.take(i as int)),
        decreases m.len() - i,
    {
        let ghost before = out.deep_view();
        proof {
            assert(m.take(i + 1).drop_last() =~= m.take(i as int));
            assert(m.take(i + 1).last() == m[i as int]);
        }
        let g = groups.value(i);
        if g.assets.len() > 1 {
            let s = Shared { cve: groups.key(i), group: g };
            out.push(s);
            assert(out.deep_view() =~= before + seq![s.deep_view()]);
        }
        i += 1;
    }
    assert(m.take(m.len() as int) =~= m);
    out
}

/// The line of a shared CVE.
pub open spec fn shared_line(s: SharedView, color: bool) -> Seq<char> {
    "  "@ + label_of_rank(rank_of(s.group.severity), color) + "  "@ + s.cve + kev_mark(
        s.group.kev,
        color,
    ) + "  affects "@ + decimal(s.group.assets.len()) + " services"@
}

fn write_shared<'a>(s: &Shared<'a>, color: bool) -> (r: String)
    ensures
        r@ == shared_line(s.deep_view(), color),
{
    let label = sev_label(opt_as_str(&s.group.severity), color);
    let kev = mark_kev(s.group.kev, color);
    let n = to_decimal(s.group.assets.len() as u64);
    let head = concat5("  ", label.as_str(), "  ", s.cve.as_str(), kev.as_str());
    concat4(head.as_str(), "  affects ", n.as_str(), " services")
}

/// The lines of the shared CVEs: those that rank first.
pub open spec fn shared_lines(groups: Groups, color: bool) -> Seq<Seq<char>> {
    let all = ranked::<Shared>(shared_cves(groups));
    if shared_cves(groups).len() == 0 {
        Seq::empty()
    } else {
        seq!["\n"@ + painted("Top shared CVEs (one fix, many services):"@, "1"@, color)]
            + Seq::new(shown(all.len()), |i: int| shared_line(all[i], color))
    }
}

fn push_shared(out: &mut Vec<String>, groups: &Table<CveGroup>, color: bool)
    ensures
        views(final(out)@) == views(old(out)@) + shared_lines(groups.deep_view(), color),
{
    let ghost before = views(out@);
    let found = find_shared(groups);
    let ghost cves = shared_cves(groups.deep_view());
    assert(cves.len() == found@.len());
    if found.len() == 0 {
        assert(views(out@) =~= before + shared_lines(groups.deep_view(), color));
        return ;
    }
    let all = sort_ranked(found);
    let ghost a = all.deep_view();
    assert(a.len() == all@.len());
    let title = paint("Top shared CVEs (one fix, many services):", "1", color);
    push_line(out, concat2("\n", title.as_str()));
    let ghost head = views(out@);
    let ghost lines = Seq::new(shown(a.len()), |i: int| shared_line(a[i], color));
    let n: usize = if all.len() < MAX_SHOWN {
        all.len()
    } else {
        MAX_SHOWN
    };
    let mut i: usize = 0;
    assert(views(out@) =~= head + lines.take(0));
    while i < n
        invariant
            i <= n,
            n <= all@.len(),
            n == lines.len(),
            a == all.deep_view(),
            a.len() == all@.len(),
            lines == Seq::new(shown(a.len()), |k: int| shared_line(a[k], color)),
            views(out@) == head + lines.take(i as int),
        decreases n - i,
    {
        let ghost mid = views(out@);
        push_line(out, write_shared(&all[i], color));
        assert(a[i as int] == all@[i as int].deep_view());
        assert(lines.take(i + 1) =~= lines.take(i as int).push(lines[i as int]));
        assert(views(out@) =~= head + lines.take(i + 1));
        i += 1;
    }
    assert(lines.take(n as int) =~= lines);
    assert(views(out@) =~= before + shared_lines(groups.deep_view(), color));
}

// ── Totals ───────────────────────────────────────────────────────────────────

/// How many of the findings are known to be exploited.
pub open spec fn exploited(ts: Seq<ThreatEntryView>) -> nat
    decreases ts.len(),
{
    if ts.len() == 0 {
        0
    } else {
        exploited(ts.drop_last()) + if ts.last().kev {
            1nat
        } else {
            0nat
        }
    }
}

pub open spec fn all_exploited(rows: Seq<RowView>) -> nat
    decreases rows.len(),
{
    if rows.len() == 0 {
        0
    } else {
        all_exploited(rows.drop_last()) + exploited(rows.last().threats)
    }
}

pub open spec fn all_threats(rows: Seq<RowView>) -> nat
    decreases rows.len(),
{
    if rows.len() == 0 {
        0
    } else {
        all_threats(rows.drop_last()) + rows.last().threats.len()
    }
}

pub open spec fn exposed_rows(rows: Seq<RowView>) -> nat
    decreases rows.len(),
{
    if rows.len() == 0 {
        0
    } else {
        exposed_rows(rows.drop_last()) + if rows.last().exposed {
            1nat
        } else {
            0nat
        }
    }
}

proof fn lemma_exploited_bound(ts: Seq<ThreatEntryView>)
    ensures
        exploited(ts) <= ts.len(),
    decreases ts.len(),
{
    if ts.len() > 0 {
        lemma_exploited_bound(ts.drop_last());
    }
}

proof fn lemma_totals_bound(rows: Seq<RowView>)
    ensures
        all_exploited(rows) <= all_threats(rows),
        exposed_rows(rows) <= rows.len(),
    decreases rows.len(),
{
    if rows.len() > 0 {
        lemma_totals_bound(rows.drop_last());
        lemma_exploited_bound(rows.last().threats);
    }
}

proof fn lemma_totals_grow(rows: Seq<RowView>, i: int)
    requires
        0 <= i <= rows.len(),
    ensures
        all_threats(rows.take(i)) <= all_threats(rows),
    decreases rows.len() - i,
{
    if i == rows.len() {
        assert(rows.take(i) =~= rows);
    } else {
        lemma_totals_grow(rows, i + 1);
        assert(rows.take(i + 1).drop_last() =~= rows.take(i));
    }
}

proof fn lemma_rows_count(services: Findings, assets: Seq<(Seq<char>, AssetInfoView)>)
    ensures
        all_threats(rows_of(services, assets)) == count_findings(services),
    decreases services.len(),
{
    reveal(Seq::filter_map);
    if services.len() > 0 {
        let d = services.drop_last();
        lemma_rows_count(d, assets);
        let before = rows_of(d, assets);
        let e = services.last();
        if e.1.len() > 0 {
            let row = row_of(e, assets)->0;
            assert(rows_of(services, assets) =~= before + seq![row]);
            assert((before + seq![row]).drop_last() =~= before);
        } else {
            assert(rows_of(services, assets) =~= before);
        }
    }
}

fn count_exploited(ts: &Vec<ThreatEntry>) -> (r: usize)
    ensures
        r == exploited(ts.deep_view()),
{
    let ghost q = ts.deep_view();
    let mut n: usize = 0;
    let mut i: usize = 0;
    while i < ts.len()
        invariant
            i <= ts.len(),
            q == ts.deep_view(),
            n == exploited(q.take(i as int)),
            n <= i,
        decreases ts.len() - i,
    {
        proof {
            assert(q.take(i + 1).drop_last() =~= q.take(i as int));
            assert(q.take(i + 1).last() == ts@[i as int].deep_view());
        }
        if ts[i].kev {
            n += 1;
        }
        i += 1;
    }
    assert(q.take(q.len() as int) =~= q);
    n
}

/// The line of the totals.
pub open spec fn totals_line(rows: Seq<RowView>) -> Seq<char> {
    "\n"@ + decimal(all_threats(rows)) + " confirmed finding(s) across "@ + decimal(rows.len())
        + " asset(s); "@ + decimal(exposed_rows(rows)) + " exposed, "@ + decimal(
        all_exploited(rows),
    ) + " known-exploited."@
}

fn write_totals<'a>(rows: &Vec<Row<'a>>) -> (r: String)
    requires
        all_threats(rows.deep_view()) <= usize::MAX,
    ensures
        r@ == totals_line(rows.deep_view()),
{
    let ghost q = rows.deep_view();
    let mut total: usize = 0;
    let mut exposed: usize = 0;
    let mut kev: usize = 0;
    let mut i: usize = 0;
    while i < rows.len()
        invariant
            i <= rows.len(),
            q == rows.deep_view(),
            q.len() == rows@.len(),
            all_threats(q) <= usize::MAX,
            total == all_threats(q.take(i as int)),
            exposed == exposed_rows(q.take(i as int)),
            kev == all_exploited(q.take(i as int)),
        decreases rows.len() - i,
    {
        let n: usize = rows[i].threats.len();
        let k: usize = count_exploited(rows[i].threats);
        proof {
            assert(q.take(i + 1).drop_last() =~= q.take(i as int));
            assert(q.take(i + 1).last() == rows@[i as int].deep_view());
            assert(rows@[i as int].deep_view().threats.len() == n);
            lemma_totals_grow(q, i + 1);
            lemma_totals_bound(q.take(i + 1));
        }
        total += n;
        kev += k;
        if rows[i].exposed {
            exposed += 1;
        }
        i += 1;
    }
    assert(q.take(q.len() as int) =~= q);
    let a = to_decimal(total as u64);
    let b = to_decimal(rows.len() as u64);
    let c = to_decimal(exposed as u64);
    let d = to_decimal(kev as u64);
    let head = concat5("\n", a.as_str(), " confirmed finding(s) across ", b.as_str(), " asset(s); ");
    concat5(head.as_str(), c.as_str(), " exposed, ", d.as_str(), " known-exploited.")
}

/// The line of the findings that are not confirmed.
pub open spec fn unconfirmed_lines(n: nat, color: bool) -> Seq<Seq<char>> {
    if n == 0 {
        Seq::empty()
    } else {
        seq![
            painted(
                decimal(n)
                    + " coordinate-unconfirmed finding(s) for triage (see \"unconfirmed\" in the report)."@,
                "2"@,
                color,
            ),
        ]
    }
}

// ── The summary ──────────────────────────────────────────────────────────────

/// The lines of the summary; none where nothing is confirmed. A line that begins
/// with a line feed stands behind an empty one.
pub open spec fn summary(r: BatchResults, color: bool) -> Seq<Seq<char>> {
    let rows = rows_of(r.services.deep_view(), r.assets.deep_view());
    if rows.len() == 0 {
        Seq::empty()
    } else {
        seq!["\n"@ + painted("Vulnerability summary (highest risk first):"@, "1"@, color)]
            + rows_lines(ranked::<Row>(rows), r.assets.deep_view(), color) + shared_lines(
            r.by_cve.deep_view(),
            color,
        ) + seq![totals_line(ranked::<Row>(rows))] + unconfirmed_lines(
            count_findings(r.unconfirmed.deep_view()),
            color,
        )
    }
}

proof fn lemma_totals_permute(a: Seq<RowView>, b: Seq<RowView>)
    requires
        a.to_multiset() == b.to_multiset(),
    ensures
        all_threats(a) == all_threats(b),
    decreases a.len(),
{
    broadcast use vstd::seq_lib::group_to_multiset_ensures;

    a.to_multiset_ensures();
    b.to_multiset_ensures();
    assert(a.len() == b.len());
    if a.len() > 0 {
        let x = a.last();
        assert(a.contains(x)) by {
            assert(a[a.len() - 1] == x);
        }
        assert(b.to_multiset().count(x) > 0);
        assert(b.contains(x));
        let k = choose|k: int| 0 <= k < b.len() && b[k] == x;
        let c = b.remove(k);
        assert(a.drop_last() =~= a.remove(a.len() - 1));
        assert(a.drop_last().to_multiset() =~= a.to_multiset().remove(x));
        assert(c.to_multiset() =~= b.to_multiset().remove(x));
        lemma_totals_permute(a.drop_last(), c);
        lemma_remove_total(b, k);
    } else {
        assert(a =~= b);
    }
}

proof fn lemma_remove_total(b: Seq<RowView>, k: int)
    requires
        0 <= k < b.len(),
    ensures
        all_threats(b) == all_threats(b.remove(k)) + b[k].threats.len(),
    decreases b.len(),
{
    if k == b.len() - 1 {
        assert(b.remove(k) =~= b.drop_last());
    } else {
        let d = b.drop_last();
        lemma_remove_total(d, k);
        assert(b.remove(k).drop_last() =~= d.remove(k));
        assert(b.remove(k).last() == b.last());
        assert(d[k] == b[k]);
    }
}

/// The lines of the summary.
pub fn print_summary(results: &BatchResults, color: bool) -> (r: Vec<String>)
    requires
        count_findings(results.services.deep_view()) <= usize::MAX,
        count_findings(results.unconfirmed.deep_view()) <= usize::MAX,
    ensures
        views(r@) == summary(*results, color),
{
    let mut out: Vec<String> = Vec::new();
    assert(views(out@) =~= Seq::<Seq<char>>::empty());
    let ghost assets = results.assets.deep_view();
    let found = make_rows(&results.services, &results.assets);
    let ghost unsorted = found.deep_view();
    assert(unsorted.len() == found@.len());
    if found.len() == 0 {
        return out;
    }
    let rows = sort_ranked(found);
    let ghost q = rows.deep_view();
    assert(q.len() == rows@.len());
    let title = paint("Vulnerability summary (highest risk first):", "1", color);
    push_line(&mut out, concat2("\n", title.as_str()));
    let ghost head = views(out@);
    let mut i: usize = 0;
    assert(views(out@) =~= head + rows_lines(q.take(0), assets, color));
    while i < rows.len()
        invariant
            i <= rows@.len(),
            q == rows.deep_view(),
            q.len() == rows@.len(),
            assets == results.assets.deep_view(),
            views(out@) == head + rows_lines(q.take(i as int), assets, color),
        decreases rows@.len() - i,
    {
        proof {
            assert(q.take(i + 1).drop_last() =~= q.take(i as int));
            assert(q.take(i + 1).last() == rows@[i as int].deep_view());
        }
        let asset = results.assets.get(rows[i].key.as_str());
        push_row(&mut out, &rows[i], asset, color);
        assert(views(out@) =~= head + rows_lines(q.take(i + 1), assets, color));
        i += 1;
    }
    assert(q.take(q.len() as int) =~= q);
    push_shared(&mut out, &results.by_cve, color);
    proof {
        lemma_rows_count(results.services.deep_view(), assets);
        ranked_is_permutation::<Row>(unsorted);
        lemma_totals_permute(q, unsorted);
    }
    push_line(&mut out, write_totals(&rows));
    let unconfirmed: usize = count_entries(&results.unconfirmed);
    if unconfirmed > 0 {
        let n = to_decimal(unconfirmed as u64);
        let text = concat2(
            n.as_str(),
            " coordinate-unconfirmed finding(s) for triage (see \"unconfirmed\" in the report).",
        );
        push_line(&mut out, paint(text.as_str(), "2", color));
    }
    assert(views(out@) =~= summary(*results, color));
    out
}

// ── What is said on the way ──────────────────────────────────────────────────

/// How many assets can be reached from another host.
pub open spec fn exposed_assets(assets: Seq<AssetView>) -> nat
    decreases assets.len(),
{
    if assets.len() == 0 {
        0
    } else {
        exposed_assets(assets.drop_last()) + match assets.last().runtime {
            Some(r) => if r.exposed {
                1nat
            } else {
                0nat
            },
            None => 0nat,
        }
    }
}

/// What was found.
pub open spec fn found_text(assets: Seq<AssetView>, scope: ScanScope) -> Seq<char> {
    let label = match scope {
        ScanScope::All => "asset"@,
        ScanScope::Running => "service"@,
    };
    let exposed = exposed_assets(assets);
    let suffix = if exposed > 0 {
        ", "@ + decimal(exposed) + " network-exposed"@
    } else {
        Seq::empty()
    };
    "Found "@ + decimal(assets.len()) + " "@ + label + "(s)"@ + suffix
}

/// How many assets of what kind were found, and how many of them are exposed.
pub fn found_line(assets: &Vec<Asset>, scope: ScanScope) -> (r: String)
    ensures
        r@ == found_text(assets.deep_view(), scope),
{
    let ghost q = assets.deep_view();
    let mut exposed: usize = 0;
    let mut i: usize = 0;
    while i < assets.len()
        invariant
            i <= assets.len(),
            q == assets.deep_view(),
            exposed == exposed_assets(q.take(i as int)),
            exposed <= i,
        decreases assets.len() - i,
    {
        proof {
            assert(q.take(i + 1).drop_last() =~= q.take(i as int));
            assert(q.take(i + 1).last() == assets@[i as int].deep_view());
        }
        if let Some(r) = &assets[i].runtime {
            if r.exposed {
                exposed += 1;
            }
        }
        i += 1;
    }
    assert(q.take(q.len() as int) =~= q);
    let label = match scope {
        ScanScope::All => "asset",
        ScanScope::Running => "service",
    };
    let suffix = if exposed > 0 {
        let n = to_decimal(exposed as u64);
        concat3(", ", n.as_str(), " network-exposed")
    } else {
        String::new()
    };
    let n = to_decimal(assets.len() as u64);
    let head = concat5("Found ", n.as_str(), " ", label, "(s)");
    concat2(head.as_str(), suffix.as_str())
}

/// More packages than the free plan looks up in an hour.
pub const FREE_LOOKUPS: usize = 15;

/// The warning that a scan of all packages is more than the free plan allows.
pub open spec fn quota_text(scope: ScanScope, n: nat) -> Option<Seq<char>> {
    if scope == ScanScope::All && n > FREE_LOOKUPS {
        Some(
            "[!] --scope all produced "@ + decimal(n)
                + " unique package(s); the free tier allows 15 lookups/hour — expect rate limiting."@,
        )
    } else {
        None
    }
}

/// The warning that a scan of all packages is more than the free plan allows.
pub fn quota_warning(scope: ScanScope, n: usize) -> (r: Option<String>)
    ensures
        opt_view(r) == quota_text(scope, n as nat),
{
    if scope == ScanScope::All && n > FREE_LOOKUPS {
        let d = to_decimal(n as u64);
        Some(
            concat3(
                "[!] --scope all produced ",
                d.as_str(),
                " unique package(s); the free tier allows 15 lookups/hour — expect rate limiting.",
            ),
        )
    } else {
        None
    }
}

/// How many vulnerabilities were found.
pub open spec fn total_text(n: nat) -> Seq<char> {
    "Found "@ + decimal(n) + if n == 1 {
        " vulnerability."@
    } else {
        " vulnerabilities."@
    }
}

/// How many vulnerabilities were found.
pub fn total_line(n: usize) -> (r: String)
    ensures
        r@ == total_text(n as nat),
{
    let d = to_decimal(n as u64);
    if n == 1 {
        concat3("Found ", d.as_str(), " vulnerability.")
    } else {
        concat3("Found ", d.as_str(), " vulnerabilities.")
    }
}

} // verus!
