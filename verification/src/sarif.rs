//! The report as SARIF, for tools that show the findings of code scanners.

use vstd::prelude::*;

use crate::api::{rank_of, severity_rank, SITE_URL, TOOL, TOOL_VERSION, ThreatEntry, ThreatEntryView};
use crate::decimals::{decimal_exceeds, exceeding_is_an_order, exceeds};
use crate::json::{
    array, no_members, object, push_member, push_opt_member, real_number, real_value, text, with_member, Json,
    JsonView, Real, RealView,
};
use crate::report::{filled_items, filled_text, items_if_any, text_if_any, BatchResults, Findings};
use crate::split::{join, joined};
use crate::table::{lookup, lookup_after_put, put, Table};
use crate::text::{concat2, concat3, concat5, copy_opt_string, opt_as_str, opt_str_view, opt_view, own, views};

verus! {

/// The level of a severity.
pub open spec fn level_of(rank: u8) -> Seq<char> {
    if rank >= 3 {
        "error"@
    } else if rank == 2 {
        "warning"@
    } else {
        "note"@
    }
}

/// The level of a severity.
pub fn level(sev: Option<&str>) -> (r: &'static str)
    ensures
        r@ == level_of(rank_of(opt_str_view(sev))),
{
    let rank: u8 = severity_rank(sev);
    if rank >= 3 {
        "error"
    } else if rank == 2 {
        "warning"
    } else {
        "note"
    }
}

/// What a finding is known by.
pub open spec fn rule_id(t: ThreatEntryView) -> Seq<char> {
    match t.cve_id {
        Some(id) => id,
        None => "UNKNOWN"@,
    }
}

fn id_of(t: &ThreatEntry) -> (r: String)
    ensures
        r@ == rule_id(t.deep_view()),
{
    match &t.cve_id {
        Some(id) => id.clone(),
        None => own("UNKNOWN"),
    }
}

/// The CVSS score of a finding.
pub open spec fn score_of(t: ThreatEntryView) -> Option<RealView> {
    match t.cvss_score {
        Some(v) => v.as_float(),
        None => None,
    }
}

/// The CVSS score of a finding.
pub fn security_severity(t: &ThreatEntry) -> (r: Option<Real>)
    ensures
        r.deep_view() == score_of(t.deep_view()),
{
    match &t.cvss_score {
        Some(v) => v.as_real(),
        None => None,
    }
}

// ── Rules ────────────────────────────────────────────────────────────────────

/// What is said of a CVE, whichever assets it affects.
pub struct Rule {
    pub title: String,
    pub help_uri: Option<String>,
    pub score: Option<Real>,
}

pub struct RuleView {
    pub title: Seq<char>,
    pub help_uri: Option<Seq<char>>,
    pub score: Option<RealView>,
}

impl DeepView for Rule {
    type V = RuleView;

    open spec fn deep_view(&self) -> RuleView {
        RuleView {
            title: self.title@,
            help_uri: opt_view(self.help_uri),
            score: self.score.deep_view(),
        }
    }
}

/// The page of a finding; else the first of its references.
pub open spec fn help_of(t: ThreatEntryView) -> Option<Seq<char>> {
    match t.radar_url {
        Some(u) => Some(u),
        None => if t.references.len() > 0 {
            Some(t.references[0])
        } else {
            None
        },
    }
}

/// The higher of two scores, the first where they are alike. They are compared as they
/// are shown, with every digit.
pub open spec fn higher(a: Option<RealView>, b: Option<RealView>) -> Option<RealView> {
    match a {
        None => b,
        Some(x) => match b {
            Some(y) => if exceeds(y.shown, x.shown) {
                b
            } else {
                a
            },
            None => a,
        },
    }
}

/// A rule with one more finding of its CVE.
pub open spec fn rule_with(before: Option<RuleView>, t: ThreatEntryView) -> RuleView {
    match before {
        Some(r) => RuleView { score: higher(r.score, score_of(t)), ..r },
        None => RuleView {
            title: match t.title {
                Some(s) => s,
                None => rule_id(t),
            },
            help_uri: help_of(t),
            score: score_of(t),
        },
    }
}

pub type Rules = Seq<(Seq<char>, RuleView)>;

pub open spec fn with_rule(rules: Rules, t: ThreatEntryView) -> Rules {
    put(rules, rule_id(t), rule_with(lookup(rules, rule_id(t)), t))
}

pub open spec fn with_rules(rules: Rules, ts: Seq<ThreatEntryView>) -> Rules
    decreases ts.len(),
{
    if ts.len() == 0 {
        rules
    } else {
        with_rule(with_rules(rules, ts.drop_last()), ts.last())
    }
}

/// The rules with those of more findings.
pub open spec fn with_findings(rules: Rules, services: Findings) -> Rules
    decreases services.len(),
{
    if services.len() == 0 {
        rules
    } else {
        with_rules(with_findings(rules, services.drop_last()), services.last().1)
    }
}

/// The rules of the findings.
pub open spec fn rules_of(services: Findings) -> Rules {
    with_findings(Seq::empty(), services)
}

fn join_rule(before: Option<&Rule>, t: &ThreatEntry) -> (r: Rule)
    ensures
        r.deep_view() == rule_with(
            match before {
                Some(b) => Some(b.deep_view()),
                None => None,
            },
            t.deep_view(),
        ),
{
    let score = security_severity(t);
    match before {
        Some(b) => {
            let kept = match &b.score {
                None => score,
                Some(x) => match score {
                    Some(y) => if decimal_exceeds(y.shown.as_str(), x.shown.as_str()) {
                        Some(y)
                    } else {
                        Some(x.copy())
                    },
                    None => Some(x.copy()),
                },
            };
            Rule {
                title: b.title.clone(),
                help_uri: copy_opt_string(&b.help_uri),
                score: kept,
            }
        },
        None => {
            let title = match &t.title {
                Some(s) => s.clone(),
                None => id_of(t),
            };
            let help_uri = match &t.radar_url {
                Some(u) => Some(u.clone()),
                None => if t.references.len() > 0 {
                    assert(views(t.references@)[0] == t.references@[0]@);
                    Some(t.references[0].clone())
                } else {
                    None
                },
            };
            Rule { title, help_uri, score }
        },
    }
}

pub open spec fn score_properties(score: Option<RealView>) -> Option<JsonView> {
    match score {
        Some(x) => Some(
            JsonView::Object(seq![("security-severity"@, JsonView::Text(x.shown))]),
        ),
        None => None,
    }
}

/// A rule as SARIF writes it.
pub open spec fn rule_json(id: Seq<char>, r: RuleView) -> JsonView {
    let m = with_member(Seq::empty(), "helpUri"@, filled_text(r.help_uri));
    let m = m.push(("id"@, JsonView::Text(id))).push(("name"@, JsonView::Text(id)));
    let m = with_member(m, "properties"@, score_properties(r.score));
    JsonView::Object(
        m.push(
            (
                "shortDescription"@,
                JsonView::Object(seq![("text"@, JsonView::Text(r.title))]),
            ),
        ),
    )
}

fn one_member(key: &str, value: Json) -> (r: Json)
    ensures
        r.deep_view() == JsonView::Object(seq![(key@, value.deep_view())]),
{
    let ghost v = value.deep_view();
    let mut m = no_members();
    push_member(&mut m, key, value);
    assert(m.deep_view() =~= seq![(key@, v)]);
    object(m)
}

fn one_item(value: Json) -> (r: Json)
    ensures
        r.deep_view() == JsonView::Array(seq![value.deep_view()]),
{
    let ghost v = value.deep_view();
    let items = vec![value];
    assert(items.deep_view() =~= seq![v]);
    array(items)
}

fn write_rule(id: &str, r: &Rule) -> (j: Json)
    ensures
        j.deep_view() == rule_json(id@, r.deep_view()),
{
    let mut m = no_members();
    push_opt_member(&mut m, "helpUri", text_if_any(&r.help_uri));
    push_member(&mut m, "id", text(id));
    push_member(&mut m, "name", text(id));
    let properties = match &r.score {
        Some(x) => Some(one_member("security-severity", text(x.shown.as_str()))),
        None => None,
    };
    push_opt_member(&mut m, "properties", properties);
    push_member(&mut m, "shortDescription", one_member("text", text(r.title.as_str())));
    object(m)
}

// ── Results ──────────────────────────────────────────────────────────────────

/// What to do about a finding: the versions that fix it, and the advice.
pub open spec fn advice_of(t: ThreatEntryView) -> Option<Seq<char>> {
    let fix = if t.fixed_versions.len() > 0 {
        Some("Upgrade to "@ + joined(t.fixed_versions, ", "@))
    } else {
        None
    };
    match fix {
        Some(f) => match t.remediation {
            Some(r) => Some(f + ". "@ + r),
            None => Some(f),
        },
        None => t.remediation,
    }
}

fn advice(t: &ThreatEntry) -> (r: Option<String>)
    ensures
        opt_view(r) == advice_of(t.deep_view()),
{
    if t.fixed_versions.len() > 0 {
        let versions = join(&t.fixed_versions, ", ");
        let fix = concat2("Upgrade to ", versions.as_str());
        match &t.remediation {
            Some(r) => Some(concat3(fix.as_str(), ". ", r.as_str())),
            None => Some(fix),
        }
    } else {
        copy_opt_string(&t.remediation)
    }
}

/// What is said of a finding.
pub open spec fn message_of(asset: Seq<char>, t: ThreatEntryView) -> Seq<char> {
    let severity = match t.severity {
        Some(s) => s,
        None => "unknown"@,
    };
    let head = asset + " is affected by "@ + rule_id(t) + " ("@ + severity + ")"@;
    match advice_of(t) {
        Some(a) => head + ". "@ + a,
        None => head,
    }
}

fn message(asset: &str, t: &ThreatEntry) -> (r: String)
    ensures
        r@ == message_of(asset@, t.deep_view()),
{
    let id = id_of(t);
    let severity = match &t.severity {
        Some(s) => s.clone(),
        None => own("unknown"),
    };
    let head = concat5(asset, " is affected by ", id.as_str(), " (", severity.as_str());
    let head = concat2(head.as_str(), ")");
    match advice(t) {
        Some(a) => concat3(head.as_str(), ". ", a.as_str()),
        None => head,
    }
}

pub open spec fn text_object(s: Seq<char>) -> JsonView {
    JsonView::Object(seq![("text"@, JsonView::Text(s))])
}

pub open spec fn fixes_of(t: ThreatEntryView) -> Option<JsonView> {
    match advice_of(t) {
        Some(a) => Some(
            JsonView::Array(seq![JsonView::Object(seq![("description"@, text_object(a))])]),
        ),
        None => None,
    }
}

pub open spec fn location_of(asset: Seq<char>) -> JsonView {
    JsonView::Array(
        seq![
            JsonView::Object(
                seq![
                    (
                        "logicalLocations"@,
                        JsonView::Array(
                            seq![
                                JsonView::Object(
                                    seq![
                                        ("fullyQualifiedName"@, JsonView::Text(asset)),
                                        ("kind"@, JsonView::Text("module"@)),
                                    ],
                                ),
                            ],
                        ),
                    ),
                ],
            ),
        ],
    )
}

pub open spec fn epss_value(x: Option<RealView>) -> JsonView {
    match x {
        Some(v) => real_value(v),
        None => JsonView::Null,
    }
}

pub open spec fn properties_of(t: ThreatEntryView) -> JsonView {
    let m = with_member(Seq::empty(), "cwe"@, filled_items(t.cwes));
    let m = m.push(("epss"@, epss_value(t.epss)));
    let m = with_member(m, "fixedVersions"@, filled_items(t.fixed_versions));
    JsonView::Object(
        m.push(("kev"@, JsonView::Bool(t.kev))).push(("matchBasis"@, JsonView::Text(t.match_basis))),
    )
}

/// A finding of an asset as SARIF writes it.
pub open spec fn result_json(asset: Seq<char>, t: ThreatEntryView) -> JsonView {
    let m = with_member(Seq::empty(), "fixes"@, fixes_of(t));
    JsonView::Object(
        m.push(("level"@, JsonView::Text(level_of(rank_of(t.severity))))).push(
            ("locations"@, location_of(asset)),
        ).push(("message"@, text_object(message_of(asset, t)))).push(
            ("properties"@, properties_of(t)),
        ).push(("ruleId"@, JsonView::Text(rule_id(t)))),
    )
}

fn write_location(asset: &str) -> (r: Json)
    ensures
        r.deep_view() == location_of(asset@),
{
    let mut m = no_members();
    push_member(&mut m, "fullyQualifiedName", text(asset));
    push_member(&mut m, "kind", text("module"));
    assert(m.deep_view() =~= seq![
        ("fullyQualifiedName"@, JsonView::Text(asset@)),
        ("kind"@, JsonView::Text("module"@)),
    ]);
    one_item(one_member("logicalLocations", one_item(object(m))))
}

fn write_properties(t: &ThreatEntry) -> (r: Json)
    ensures
        r.deep_view() == properties_of(t.deep_view()),
{
    let mut m = no_members();
    push_opt_member(&mut m, "cwe", items_if_any(&t.cwes));
    let epss = match &t.epss {
        Some(x) => real_number(x),
        None => Json::Null,
    };
    push_member(&mut m, "epss", epss);
    push_opt_member(&mut m, "fixedVersions", items_if_any(&t.fixed_versions));
    push_member(&mut m, "kev", Json::Bool(t.kev));
    push_member(&mut m, "matchBasis", text(t.match_basis.as_str()));
    object(m)
}

fn write_result(asset: &str, t: &ThreatEntry) -> (r: Json)
    ensures
        r.deep_view() == result_json(asset@, t.deep_view()),
{
    let mut m = no_members();
    let fixes = match advice(t) {
        Some(a) => Some(
            one_item(one_member("description", one_member("text", text(a.as_str())))),
        ),
        None => None,
    };
    push_opt_member(&mut m, "fixes", fixes);
    push_member(&mut m, "level", text(level(opt_as_str(&t.severity))));
    push_member(&mut m, "locations", write_location(asset));
    let said = message(asset, t);
    push_member(&mut m, "message", one_member("text", text(said.as_str())));
    push_member(&mut m, "properties", write_properties(t));
    let id = id_of(t);
    push_member(&mut m, "ruleId", text(id.as_str()));
    object(m)
}

/// The findings of an asset as SARIF writes them.
pub open spec fn asset_results(asset: Seq<char>, ts: Seq<ThreatEntryView>) -> Seq<JsonView> {
    Seq::new(ts.len(), |i: int| result_json(asset, ts[i]))
}

/// The findings as SARIF writes them.
pub open spec fn all_results(services: Findings) -> Seq<JsonView>
    decreases services.len(),
{
    if services.len() == 0 {
        Seq::empty()
    } else {
        all_results(services.drop_last()) + asset_results(services.last().0, services.last().1)
    }
}

/// Adds a finding of an asset: its rule and its result.
pub fn push_entry(rules: &mut Table<Rule>, results: &mut Vec<Json>, asset: &str, t: &ThreatEntry)
    requires
        old(rules).well_formed(),
    ensures
        final(rules).well_formed(),
        final(rules).deep_view() == with_rule(old(rules).deep_view(), t.deep_view()),
        final(results).deep_view() == old(results).deep_view().push(
            result_json(asset@, t.deep_view()),
        ),
{
    let ghost before = results.deep_view();
    let id = id_of(t);
    let rule = join_rule(rules.get(id.as_str()), t);
    rules.insert(id, rule);
    let r = write_result(asset, t);
    results.push(r);
    assert(results.deep_view() =~= before.push(r.deep_view()));
}

// ── The document ─────────────────────────────────────────────────────────────

pub open spec fn rules_json(rules: Rules) -> Seq<JsonView> {
    Seq::new(rules.len(), |i: int| rule_json(rules[i].0, rules[i].1))
}

fn write_rules(rules: &Table<Rule>) -> (r: Vec<Json>)
    ensures
        r.deep_view() == rules_json(rules.deep_view()),
{
    let ghost m = rules.deep_view();
    let mut out: Vec<Json> = Vec::new();
    let mut i: usize = 0;
    assert(out.deep_view() =~= rules_json(m).take(0));
    while i < rules.len()
        invariant
            i <= m.len(),
            m == rules.deep_view(),
            out.deep_view() == rules_json(m).take(i as int),
        decreases m.len() - i,
    {
        let ghost before = out.deep_view();
        let j = write_rule(rules.key(i).as_str(), rules.value(i));
        out.push(j);
        assert(out.deep_view() =~= before.push(j.deep_view()));
        assert(rules_json(m).take(i + 1) =~= rules_json(m).take(i as int).push(
            rules_json(m)[i as int],
        ));
        i += 1;
    }
    assert(rules_json(m).take(m.len() as int) =~= rules_json(m));
    out
}

/// A SARIF document with the given rules and results.
pub open spec fn document(rules: Rules, results: Seq<JsonView>) -> JsonView {
    let driver = JsonView::Object(
        seq![
            ("informationUri"@, JsonView::Text(SITE_URL@)),
            ("name"@, JsonView::Text(TOOL@)),
            ("rules"@, JsonView::Array(rules_json(rules))),
            ("version"@, JsonView::Text(TOOL_VERSION@)),
        ],
    );
    let run = JsonView::Object(
        seq![
            ("results"@, JsonView::Array(results)),
            ("tool"@, JsonView::Object(seq![("driver"@, driver)])),
        ],
    );
    JsonView::Object(
        seq![
            ("$schema"@, JsonView::Text("https://json.schemastore.org/sarif-2.1.0.json"@)),
            ("runs"@, JsonView::Array(seq![run])),
            ("version"@, JsonView::Text("2.1.0"@)),
        ],
    )
}

/// The report as SARIF.
pub open spec fn sarif_of(services: Findings) -> JsonView {
    document(rules_of(services), all_results(services))
}

/// Adds the findings of assets: their rules and their results.
pub fn push_findings(
    rules: &mut Table<Rule>,
    results: &mut Vec<Json>,
    services: &Table<Vec<ThreatEntry>>,
)
    requires
        old(rules).well_formed(),
    ensures
        final(rules).well_formed(),
        final(rules).deep_view() == with_findings(old(rules).deep_view(), services.deep_view()),
        final(results).deep_view() == old(results).deep_view() + all_results(
            services.deep_view(),
        ),
{
    let ghost m = services.deep_view();
    let ghost rules_first = rules.deep_view();
    let ghost out_first = results.deep_view();
    let mut i: usize = 0;
    assert(m.take(0) =~= Seq::empty());
    assert(out_first + all_results(m.take(0)) =~= out_first);
    while i < services.len()
        invariant
            i <= m.len(),
            m == services.deep_view(),
            rules.well_formed(),
            rules.deep_view() == with_findings(rules_first, m.take(i as int)),
            results.deep_view() == out_first + all_results(m.take(i as int)),
        decreases m.len() - i,
    {
        let ghost rules_before = rules.deep_view();
        let ghost out_before = results.deep_view();
        let asset = services.key(i);
        let entries = services.value(i);
        let ghost ts = entries.deep_view();
        proof {
            assert(m.take(i + 1).drop_last() =~= m.take(i as int));
            assert(m.take(i + 1).last() == m[i as int]);
            assert(ts.take(0) =~= Seq::<ThreatEntryView>::empty());
            assert(out_before + asset_results(asset@, ts.take(0)) =~= out_before);
        }
        let mut k: usize = 0;
        while k < entries.len()
            invariant
                k <= entries@.len(),
                ts == entries.deep_view(),
                rules.well_formed(),
                rules.deep_view() == with_rules(rules_before, ts.take(k as int)),
                results.deep_view() == out_before + asset_results(asset@, ts.take(k as int)),
            decreases entries@.len() - k,
        {
            proof {
                assert(ts.take(k + 1).drop_last() =~= ts.take(k as int));
                assert(ts.take(k + 1).last() == entries@[k as int].deep_view());
            }
            push_entry(rules, results, asset.as_str(), &entries[k]);
            assert(results.deep_view() =~= out_before + asset_results(asset@, ts.take(k + 1)));
            k += 1;
        }
        assert(ts.take(ts.len() as int) =~= ts);
        assert(results.deep_view() =~= out_first + all_results(m.take(i + 1)));
        i += 1;
    }
    assert(m.take(m.len() as int) =~= m);
}

/// A SARIF document with the given rules and results.
pub fn write_document(rules: &Table<Rule>, results: Vec<Json>) -> (r: Json)
    ensures
        r.deep_view() == document(rules.deep_view(), results.deep_view()),
{
    let mut driver = no_members();
    push_member(&mut driver, "informationUri", text(SITE_URL));
    push_member(&mut driver, "name", text(TOOL));
    push_member(&mut driver, "rules", array(write_rules(rules)));
    push_member(&mut driver, "version", text(TOOL_VERSION));
    assert(driver.deep_view() =~= seq![
        ("informationUri"@, JsonView::Text(SITE_URL@)),
        ("name"@, JsonView::Text(TOOL@)),
        ("rules"@, JsonView::Array(rules_json(rules.deep_view()))),
        ("version"@, JsonView::Text(TOOL_VERSION@)),
    ]);
    let mut run = no_members();
    push_member(&mut run, "results", array(results));
    push_member(&mut run, "tool", one_member("driver", object(driver)));
    let ghost run_view = run.deep_view();
    assert(run_view =~= seq![run_view[0], run_view[1]]);
    let mut doc = no_members();
    push_member(&mut doc, "$schema", text("https://json.schemastore.org/sarif-2.1.0.json"));
    push_member(&mut doc, "runs", one_item(object(run)));
    push_member(&mut doc, "version", text("2.1.0"));
    let ghost doc_view = doc.deep_view();
    assert(doc_view =~= seq![doc_view[0], doc_view[1], doc_view[2]]);
    object(doc)
}

/// The confirmed findings of a report as SARIF: one rule for each CVE, and one
/// result for each finding of each asset.
pub fn to_sarif(results: &BatchResults) -> (r: Json)
    ensures
        r.deep_view() == sarif_of(results.services.deep_view()),
{
    let mut rules: Table<Rule> = Table::new();
    let mut out: Vec<Json> = Vec::new();
    assert(rules.deep_view() =~= Seq::empty());
    assert(out.deep_view() =~= Seq::empty());
    push_findings(&mut rules, &mut out, &results.services);
    assert(out.deep_view() =~= all_results(results.services.deep_view()));
    write_document(&rules, out)
}

// ── The highest score of a CVE ───────────────────────────────────────────────

/// Whether the rules have for the finding's CVE a score that is no lower.
pub open spec fn scored(rules: Rules, t: ThreatEntryView) -> bool {
    match lookup(rules, rule_id(t)) {
        Some(r) => match score_of(t) {
            Some(x) => r.score matches Some(y) && !exceeds(x.shown, y.shown),
            None => true,
        },
        None => false,
    }
}

proof fn lemma_rule_scores(rules: Rules, t: ThreatEntryView, u: ThreatEntryView)
    ensures
        scored(with_rule(rules, t), t),
        scored(rules, u) ==> scored(with_rule(rules, t), u),
{
    let id = rule_id(t);
    let v = rule_with(lookup(rules, id), t);
    lookup_after_put(rules, id, v, id);
    lookup_after_put(rules, id, v, rule_id(u));
    if let (Some(x), Some(z)) = (score_of(t), score_of(u)) {
        if let Some(r) = lookup(rules, id) {
            if let Some(y) = r.score {
                exceeding_is_an_order(z.shown, y.shown, x.shown);
                exceeding_is_an_order(x.shown, y.shown, x.shown);
            }
        }
    }
    if let Some(x) = score_of(t) {
        exceeding_is_an_order(x.shown, x.shown, x.shown);
    }
}

proof fn lemma_rules_score(rules: Rules, ts: Seq<ThreatEntryView>, u: ThreatEntryView)
    ensures
        scored(rules, u) ==> scored(with_rules(rules, ts), u),
        forall|k: int| 0 <= k < ts.len() ==> scored(with_rules(rules, ts), #[trigger] ts[k]),
    decreases ts.len(),
{
    if ts.len() > 0 {
        let d = ts.drop_last();
        lemma_rules_score(rules, d, u);
        lemma_rule_scores(with_rules(rules, d), ts.last(), u);
        assert forall|k: int| 0 <= k < ts.len() implies scored(
            with_rules(rules, ts),
            #[trigger] ts[k],
        ) by {
            lemma_rule_scores(with_rules(rules, d), ts.last(), ts[k]);
            if k < d.len() {
                assert(d[k] == ts[k]);
                assert(scored(with_rules(rules, d), d[k]));
            }
        }
    }
}

/// More findings leave no rule with a lower score.
pub proof fn scores_only_rise(rules: Rules, services: Findings, t: ThreatEntryView)
    requires
        scored(rules, t),
    ensures
        scored(with_findings(rules, services), t),
    decreases services.len(),
{
    if services.len() > 0 {
        let d = services.drop_last();
        scores_only_rise(rules, d, t);
        lemma_rules_score(with_findings(rules, d), services.last().1, t);
    }
}

/// Every finding has a rule for its CVE, and the score of that rule is no lower than
/// that of any finding of the CVE, whatever rules there were before.
pub proof fn rule_has_the_highest_score(rules: Rules, services: Findings, i: int, k: int)
    requires
        0 <= i < services.len(),
        0 <= k < services[i].1.len(),
    ensures
        scored(with_findings(rules, services), services[i].1[k]),
    decreases services.len(),
{
    let d = services.drop_last();
    let ts = services.last().1;
    let t = services[i].1[k];
    lemma_rules_score(with_findings(rules, d), ts, t);
    if i < d.len() {
        assert(d[i] == services[i]);
        rule_has_the_highest_score(rules, d, i, k);
    } else {
        assert(scored(with_rules(with_findings(rules, d), ts), ts[k]));
    }
}

} // verus!
