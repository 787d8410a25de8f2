//! Findings: what the answers of the match API and the records of a search tell of a
//! vulnerability.

use vstd::prelude::*;

use crate::json::{copy_opt, opt_json, Json, JsonView, Real, RealView};
use crate::order::Ranked;
use crate::risk::{outranks, outranks_is_order, RiskKey, RiskKeyView};
use crate::split::{first_piece, free_of, lemma_pieces_nonempty, pieces_are_free};
use crate::table::lookup;
use crate::text::{
    ascii_lower, concat2, copy_opt_string, copy_strings, opt_as_str, opt_str_view, opt_view, or_empty, own, own_opt,
    same, to_ascii_lowercase, views, CharSet,
};
use crate::threat::{
    clean_date, cve_id, cve_of, date_of, date_part, filled_member, reference_texts, refs_to_strings, says_yes, truthy,
};

verus! {

/// The public site: the address of the API without its path.
pub const SITE_URL: &'static str = "https://radar.offseq.com";

pub const TOOL: &'static str = "threat-finder";

pub const TOOL_VERSION: &'static str = "0.1.3";

// ── Severity ─────────────────────────────────────────────────────────────────

/// The rank of a severity, whatever its case; zero where it is not known.
pub open spec fn rank_of(sev: Option<Seq<char>>) -> u8 {
    match sev {
        Some(s) => if ascii_lower(s) == "critical"@ {
            4
        } else if ascii_lower(s) == "high"@ {
            3
        } else if ascii_lower(s) == "medium"@ {
            2
        } else if ascii_lower(s) == "low"@ {
            1
        } else {
            0
        },
        None => 0,
    }
}

/// The rank of a severity, by which findings are ranked, gated and shown.
pub fn severity_rank(sev: Option<&str>) -> (r: u8)
    ensures
        r == rank_of(opt_str_view(sev)),
{
    match sev {
        Some(s) => {
            let lower = to_ascii_lowercase(s);
            if same(lower.as_str(), "critical") {
                4
            } else if same(lower.as_str(), "high") {
                3
            } else if same(lower.as_str(), "medium") {
                2
            } else if same(lower.as_str(), "low") {
                1
            } else {
                0
            }
        },
        None => 0,
    }
}

// ── Findings ─────────────────────────────────────────────────────────────────

/// A finding: a threat that a coordinate, or a search, led to.
#[derive(Debug)]
pub struct ThreatEntry {
    pub cve_id: Option<String>,
    pub title: Option<String>,
    pub severity: Option<String>,
    pub cvss_score: Option<Json>,
    pub cvss_vector: Option<String>,
    pub epss: Option<Real>,
    /// Known to be exploited.
    pub kev: bool,
    pub published_date: Option<String>,
    pub affected_versions: Option<Json>,
    pub patch_available: Option<Json>,
    pub references: Vec<String>,
    /// Whether the version is known to be affected, or only the coordinate.
    pub confirmed: bool,
    pub matched_range: Option<String>,
    pub match_basis: String,
    /// The page of the finding.
    pub radar_url: Option<String>,
    pub fixed_versions: Vec<String>,
    pub remediation: Option<String>,
    pub cwes: Vec<String>,
}

#[verifier::ext_equal]
pub struct ThreatEntryView {
    pub cve_id: Option<Seq<char>>,
    pub title: Option<Seq<char>>,
    pub severity: Option<Seq<char>>,
    pub cvss_score: Option<JsonView>,
    pub cvss_vector: Option<Seq<char>>,
    pub epss: Option<RealView>,
    pub kev: bool,
    pub published_date: Option<Seq<char>>,
    pub affected_versions: Option<JsonView>,
    pub patch_available: Option<JsonView>,
    pub references: Seq<Seq<char>>,
    pub confirmed: bool,
    pub matched_range: Option<Seq<char>>,
    pub match_basis: Seq<char>,
    pub radar_url: Option<Seq<char>>,
    pub fixed_versions: Seq<Seq<char>>,
    pub remediation: Option<Seq<char>>,
    pub cwes: Seq<Seq<char>>,
}

impl DeepView for ThreatEntry {
    type V = ThreatEntryView;

    open spec fn deep_view(&self) -> ThreatEntryView {
        ThreatEntryView {
            cve_id: opt_view(self.cve_id),
            title: opt_view(self.title),
            severity: opt_view(self.severity),
            cvss_score: self.cvss_score.deep_view(),
            cvss_vector: opt_view(self.cvss_vector),
            epss: self.epss.deep_view(),
            kev: self.kev,
            published_date: opt_view(self.published_date),
            affected_versions: self.affected_versions.deep_view(),
            patch_available: self.patch_available.deep_view(),
            references: views(self.references@),
            confirmed: self.confirmed,
            matched_range: opt_view(self.matched_range),
            match_basis: self.match_basis@,
            radar_url: opt_view(self.radar_url),
            fixed_versions: views(self.fixed_versions@),
            remediation: opt_view(self.remediation),
            cwes: views(self.cwes@),
        }
    }
}

/// The CVSS score in hundredths; zero where it is no number.
pub open spec fn cvss_hundredths(score: Option<JsonView>) -> i64 {
    match score {
        Some(j) => match j.as_float() {
            Some(x) => x.hundredths,
            None => 0,
        },
        None => 0,
    }
}

/// The EPSS score in thousandths; zero where there is none.
pub open spec fn epss_thousandths(epss: Option<RealView>) -> i64 {
    match epss {
        Some(x) => x.thousandths,
        None => 0,
    }
}

/// What a finding is ranked by.
pub open spec fn risk_of(e: ThreatEntryView) -> RiskKeyView {
    RiskKeyView {
        kev: e.kev,
        severity: rank_of(e.severity),
        epss: epss_thousandths(e.epss),
        cvss: cvss_hundredths(e.cvss_score),
        cve: or_empty(e.cve_id),
    }
}

pub fn cvss_in_hundredths(score: &Option<Json>) -> (r: i64)
    ensures
        r == cvss_hundredths(score.deep_view()),
{
    match score {
        Some(Json::Number(n)) => n.real.hundredths,
        _ => 0,
    }
}

pub fn epss_in_thousandths(epss: &Option<Real>) -> (r: i64)
    ensures
        r == epss_thousandths(epss.deep_view()),
{
    match epss {
        Some(x) => x.thousandths,
        None => 0,
    }
}

pub fn string_or_empty(s: &Option<String>) -> (r: String)
    ensures
        r@ == or_empty(opt_view(*s)),
{
    match s {
        Some(x) => x.clone(),
        None => String::new(),
    }
}

pub fn copy_opt_real(x: &Option<Real>) -> (r: Option<Real>)
    ensures
        r.deep_view() == x.deep_view(),
{
    match x {
        Some(v) => Some(v.copy()),
        None => None,
    }
}

pub fn copy_opt_json(x: &Option<Json>) -> (r: Option<Json>)
    ensures
        r.deep_view() == x.deep_view(),
{
    match x {
        Some(v) => Some(v.copy()),
        None => None,
    }
}

impl ThreatEntry {
    pub fn severity_rank(&self) -> (r: u8)
        ensures
            r == rank_of(self.deep_view().severity),
    {
        severity_rank(opt_as_str(&self.severity))
    }

    /// What the finding is ranked by: the highest risk first.
    pub fn risk_key(&self) -> (r: RiskKey)
        ensures
            r.deep_view() == risk_of(self.deep_view()),
    {
        RiskKey {
            kev: self.kev,
            severity: self.severity_rank(),
            epss: epss_in_thousandths(&self.epss),
            cvss: cvss_in_hundredths(&self.cvss_score),
            cve: string_or_empty(&self.cve_id),
        }
    }

    /// A copy of the finding.
    pub fn copy(&self) -> (r: ThreatEntry)
        ensures
            r.deep_view() == self.deep_view(),
    {
        ThreatEntry {
            cve_id: copy_opt_string(&self.cve_id),
            title: copy_opt_string(&self.title),
            severity: copy_opt_string(&self.severity),
            cvss_score: copy_opt_json(&self.cvss_score),
            cvss_vector: copy_opt_string(&self.cvss_vector),
            epss: copy_opt_real(&self.epss),
            kev: self.kev,
            published_date: copy_opt_string(&self.published_date),
            affected_versions: copy_opt_json(&self.affected_versions),
            patch_available: copy_opt_json(&self.patch_available),
            references: copy_strings(&self.references),
            confirmed: self.confirmed,
            matched_range: copy_opt_string(&self.matched_range),
            match_basis: self.match_basis.clone(),
            radar_url: copy_opt_string(&self.radar_url),
            fixed_versions: copy_strings(&self.fixed_versions),
            remediation: copy_opt_string(&self.remediation),
            cwes: copy_strings(&self.cwes),
        }
    }
}

impl Clone for ThreatEntry {
    fn clone(&self) -> (r: Self)
        ensures
            r.deep_view() == self.deep_view(),
    {
        self.copy()
    }
}

impl Ranked for ThreatEntry {
    open spec fn before(a: ThreatEntryView, b: ThreatEntryView) -> bool {
        outranks(risk_of(a), risk_of(b))
    }

    proof fn rank_is_order(a: ThreatEntryView, b: ThreatEntryView, c: ThreatEntryView) {
        outranks_is_order(risk_of(a), risk_of(b), risk_of(c));
    }

    fn ranks_before(&self, other: &Self) -> (r: bool) {
        let a = self.risk_key();
        let b = other.risk_key();
        a.is_higher(&b)
    }
}

// ── Answers of the match API ─────────────────────────────────────────────────

/// The EPSS of an answer: an object, a bare number, or nothing.
#[derive(Debug, Clone)]
pub enum EpssField {
    Object { score: Option<Real>, percentile: Option<Real> },
    Score(Real),
    Null,
}

pub enum EpssFieldView {
    Object { score: Option<RealView>, percentile: Option<RealView> },
    Score(RealView),
    Null,
}

impl DeepView for EpssField {
    type V = EpssFieldView;

    open spec fn deep_view(&self) -> EpssFieldView {
        match *self {
            EpssField::Object { score, percentile } => EpssFieldView::Object {
                score: score.deep_view(),
                percentile: percentile.deep_view(),
            },
            EpssField::Score(s) => EpssFieldView::Score(s.deep_view()),
            EpssField::Null => EpssFieldView::Null,
        }
    }
}

pub open spec fn epss_score(e: Option<EpssFieldView>) -> Option<RealView> {
    match e {
        Some(EpssFieldView::Object { score, .. }) => score,
        Some(EpssFieldView::Score(s)) => Some(s),
        _ => None,
    }
}

pub open spec fn epss_percentile_of(e: Option<EpssFieldView>) -> Option<RealView> {
    match e {
        Some(EpssFieldView::Object { percentile, .. }) => percentile,
        _ => None,
    }
}

impl EpssField {
    pub fn score(&self) -> (r: Option<Real>)
        ensures
            r.deep_view() == epss_score(Some(self.deep_view())),
    {
        match self {
            EpssField::Object { score, .. } => copy_opt_real(score),
            EpssField::Score(s) => Some(s.copy()),
            EpssField::Null => None,
        }
    }

    pub fn percentile(&self) -> (r: Option<Real>)
        ensures
            r.deep_view() == epss_percentile_of(Some(self.deep_view())),
    {
        match self {
            EpssField::Object { percentile, .. } => copy_opt_real(percentile),
            _ => None,
        }
    }
}

/// The number that the member `k` of an object holds, where it holds one or none;
/// nothing at all where it holds another thing.
pub open spec fn number_member(j: JsonView, k: Seq<char>) -> Option<Option<RealView>> {
    match j.member(k) {
        None => Some(None),
        Some(JsonView::Null) => Some(None),
        Some(JsonView::Number(n)) => Some(Some(n.real)),
        Some(_) => None,
    }
}

/// What the `epss` of an answer says: an object, a bare number, or nothing. A value
/// of any other shape cannot be read.
pub open spec fn wire_epss(v: Option<JsonView>) -> Option<Option<EpssFieldView>> {
    match v {
        None => Some(None),
        Some(JsonView::Null) => Some(None),
        Some(JsonView::Number(n)) => Some(Some(EpssFieldView::Score(n.real))),
        Some(JsonView::Object(m)) => match (
            number_member(JsonView::Object(m), "score"@),
            number_member(JsonView::Object(m), "percentile"@),
        ) {
            (Some(score), Some(percentile)) => Some(
                Some(EpssFieldView::Object { score, percentile }),
            ),
            _ => None,
        },
        Some(_) => None,
    }
}

fn read_number(j: &Json, k: &str) -> (r: Option<Option<Real>>)
    ensures
        r.deep_view() == number_member(j.deep_view(), k@),
{
    match j.get(k) {
        None => Some(None),
        Some(v) => match v {
            Json::Null => Some(None),
            Json::Number(n) => Some(Some(n.real.copy())),
            _ => None,
        },
    }
}

/// Reads the `epss` of an answer; nothing where its shape is not one of those that
/// are accepted.
pub fn epss_field(v: Option<&Json>) -> (r: Option<Option<EpssField>>)
    ensures
        r.deep_view() == wire_epss(opt_json(v)),
{
    match v {
        None => Some(None),
        Some(j) => match j {
            Json::Null => Some(None),
            Json::Number(n) => Some(Some(EpssField::Score(n.real.copy()))),
            Json::Object(_) => match (read_number(j, "score"), read_number(j, "percentile")) {
                (Some(score), Some(percentile)) => Some(
                    Some(EpssField::Object { score, percentile }),
                ),
                _ => None,
            },
            _ => None,
        },
    }
}

/// One CVE that a coordinate matched.
#[derive(Debug)]
pub struct MatchHit {
    pub cve_id: Option<String>,
    pub title: Option<String>,
    pub severity: Option<String>,
    pub cvss_score: Option<Json>,
    pub epss: Option<EpssField>,
    /// Listed as known to be exploited.
    pub kev: bool,
    pub known_exploits_in_wild: Option<Json>,
    pub match_basis: Option<String>,
    pub matched_range: Option<String>,
    pub published_date: Option<String>,
    pub patch_available: Option<Json>,
    pub confirmed: bool,
    pub references: Vec<Json>,
    pub slug: Option<String>,
    pub fixed_versions: Vec<String>,
    pub remediation: Option<String>,
    pub cwes: Vec<String>,
}

pub struct MatchHitView {
    pub cve_id: Option<Seq<char>>,
    pub title: Option<Seq<char>>,
    pub severity: Option<Seq<char>>,
    pub cvss_score: Option<JsonView>,
    pub epss: Option<EpssFieldView>,
    pub kev: bool,
    pub known_exploits_in_wild: Option<JsonView>,
    pub match_basis: Option<Seq<char>>,
    pub matched_range: Option<Seq<char>>,
    pub published_date: Option<Seq<char>>,
    pub patch_available: Option<JsonView>,
    pub confirmed: bool,
    pub references: Seq<JsonView>,
    pub slug: Option<Seq<char>>,
    pub fixed_versions: Seq<Seq<char>>,
    pub remediation: Option<Seq<char>>,
    pub cwes: Seq<Seq<char>>,
}

impl DeepView for MatchHit {
    type V = MatchHitView;

    open spec fn deep_view(&self) -> MatchHitView {
        MatchHitView {
            cve_id: opt_view(self.cve_id),
            title: opt_view(self.title),
            severity: opt_view(self.severity),
            cvss_score: self.cvss_score.deep_view(),
            epss: self.epss.deep_view(),
            kev: self.kev,
            known_exploits_in_wild: self.known_exploits_in_wild.deep_view(),
            match_basis: opt_view(self.match_basis),
            matched_range: opt_view(self.matched_range),
            published_date: opt_view(self.published_date),
            patch_available: self.patch_available.deep_view(),
            confirmed: self.confirmed,
            references: self.references.deep_view(),
            slug: opt_view(self.slug),
            fixed_versions: views(self.fixed_versions@),
            remediation: opt_view(self.remediation),
            cwes: views(self.cwes@),
        }
    }
}

impl MatchHit {
    /// The EPSS score, where there is one.
    pub fn epss(&self) -> (r: Option<Real>)
        ensures
            r.deep_view() == epss_score(self.deep_view().epss),
    {
        match &self.epss {
            Some(e) => e.score(),
            None => None,
        }
    }

    /// The EPSS percentile, where the EPSS is an object that has one.
    pub fn epss_percentile(&self) -> (r: Option<Real>)
        ensures
            r.deep_view() == epss_percentile_of(self.deep_view().epss),
    {
        match &self.epss {
            Some(e) => e.percentile(),
            None => None,
        }
    }
}

/// The answer to one query.
#[derive(Debug)]
pub struct MatchResult {
    pub matches: Vec<MatchHit>,
}

impl DeepView for MatchResult {
    type V = Seq<MatchHitView>;

    open spec fn deep_view(&self) -> Seq<MatchHitView> {
        self.matches.deep_view()
    }
}

/// The page of a finding.
pub open spec fn page_of(slug: Seq<char>) -> Seq<char> {
    SITE_URL@ + "/threat/"@ + slug
}

fn page_address(slug: &str) -> (r: String)
    ensures
        r@ == page_of(slug@),
{
    let base = concat2(SITE_URL, "/threat/");
    concat2(base.as_str(), slug)
}

/// The finding that an answer makes.
pub open spec fn hit_entry(m: MatchHitView) -> ThreatEntryView {
    ThreatEntryView {
        cve_id: m.cve_id,
        title: m.title,
        severity: m.severity,
        cvss_score: m.cvss_score,
        cvss_vector: None,
        epss: epss_score(m.epss),
        kev: m.kev || says_yes(m.known_exploits_in_wild),
        published_date: match m.published_date {
            Some(d) => Some(date_part(d)),
            None => None,
        },
        affected_versions: None,
        patch_available: m.patch_available,
        references: reference_texts(m.references),
        confirmed: m.confirmed,
        matched_range: m.matched_range,
        match_basis: match m.match_basis {
            Some(b) => b,
            None => "coordinate"@,
        },
        radar_url: match m.slug {
            Some(s) => Some(page_of(s)),
            None => None,
        },
        fixed_versions: m.fixed_versions,
        remediation: m.remediation,
        cwes: m.cwes,
    }
}

/// The finding that an answer makes.
pub fn match_to_entry(m: MatchHit) -> (r: ThreatEntry)
    ensures
        r.deep_view() == hit_entry(m.deep_view()),
{
    let kev = m.kev || truthy(m.known_exploits_in_wild.as_ref());
    let epss = m.epss();
    let references = refs_to_strings(&m.references);
    let published_date = match m.published_date {
        Some(d) => Some(first_piece(d.as_str(), CharSet::Is('T'))),
        None => None,
    };
    let match_basis = match m.match_basis {
        Some(b) => b,
        None => own("coordinate"),
    };
    let radar_url = match m.slug {
        Some(s) => Some(page_address(s.as_str())),
        None => None,
    };
    ThreatEntry {
        cve_id: m.cve_id,
        title: m.title,
        severity: m.severity,
        cvss_score: m.cvss_score,
        cvss_vector: None,
        epss,
        kev,
        published_date,
        affected_versions: None,
        patch_available: m.patch_available,
        references,
        confirmed: m.confirmed,
        matched_range: m.matched_range,
        match_basis,
        radar_url,
        fixed_versions: m.fixed_versions,
        remediation: m.remediation,
        cwes: m.cwes,
    }
}

// ── Records of a search ──────────────────────────────────────────────────────

/// The EPSS score of a raw value: the `score` of an object, or a bare number.
pub open spec fn raw_epss(v: Option<JsonView>) -> Option<RealView> {
    match v {
        Some(JsonView::Object(m)) => match lookup(m, "score"@) {
            Some(s) => s.as_float(),
            None => None,
        },
        Some(j) => j.as_float(),
        None => None,
    }
}

/// Whether a raw `kev` value says that a threat is listed: an object, or `true`.
pub open spec fn raw_kev(v: Option<JsonView>) -> bool {
    match v {
        None => false,
        Some(JsonView::Null) => false,
        Some(JsonView::Bool(b)) => b,
        Some(_) => true,
    }
}

/// The texts among the items of an array.
pub open spec fn array_texts(v: Option<JsonView>) -> Seq<Seq<char>> {
    match v {
        Some(JsonView::Array(items)) => item_texts(items),
        _ => Seq::empty(),
    }
}

pub open spec fn item_texts(items: Seq<JsonView>) -> Seq<Seq<char>> {
    items.filter_map(|j: JsonView| j.text())
}

/// The EPSS score of a raw value: the `score` of an object, or a bare number.
pub fn epss_score_from_value(v: Option<&Json>) -> (r: Option<Real>)
    ensures
        r.deep_view() == raw_epss(opt_json(v)),
{
    match v {
        Some(j) => match j {
            Json::Object(_) => match j.get("score") {
                Some(s) => s.as_real(),
                None => None,
            },
            _ => j.as_real(),
        },
        None => None,
    }
}

/// Whether a threat is listed as known to be exploited: by an object, or by `true`.
pub fn kev_listed(kev: Option<&Json>) -> (r: bool)
    ensures
        r == raw_kev(opt_json(kev)),
{
    match kev {
        None => false,
        Some(j) => match j {
            Json::Null => false,
            Json::Bool(b) => *b,
            _ => true,
        },
    }
}

/// Whether a threat is known to be exploited, by either of two raw values.
pub fn kev_from_value(kev: Option<&Json>, known_exploits: Option<&Json>) -> (r: bool)
    ensures
        r == (raw_kev(opt_json(kev)) || says_yes(opt_json(known_exploits))),
{
    kev_listed(kev) || truthy(known_exploits)
}

/// The texts among the items of an array.
pub fn str_vec_from_value(v: Option<&Json>) -> (r: Vec<String>)
    ensures
        views(r@) == array_texts(opt_json(v)),
{
    let mut out: Vec<String> = Vec::new();
    match v {
        Some(j) => match j.as_array() {
            Some(arr) => {
                let ghost items = arr.deep_view();
                let mut i: usize = 0;
                assert(views(out@) =~= item_texts(items.take(0)));
                while i < arr.len()
                    invariant
                        i <= arr@.len(),
                        items == arr.deep_view(),
                        views(out@) == item_texts(items.take(i as int)),
                    decreases arr@.len() - i,
                {
                    let ghost before = views(out@);
                    proof {
                        assert(items.take(i + 1).drop_last() =~= items.take(i as int));
                        assert(items.take(i + 1).last() == arr@[i as int].deep_view());
                    }
                    if let Some(s) = arr[i].as_str() {
                        out.push(own(s));
                        assert(views(out@) =~= before + seq![s@]);
                    }
                    i += 1;
                }
                assert(items.take(items.len() as int) =~= items);
                assert(j.deep_view() is Array);
            },
            None => {
                assert(views(out@) =~= Seq::<Seq<char>>::empty());
            },
        },
        None => {
            assert(views(out@) =~= Seq::<Seq<char>>::empty());
        },
    }
    out
}

/// The finding that a record of a search makes. Nothing confirms its version.
pub open spec fn record_entry(t: JsonView) -> ThreatEntryView {
    ThreatEntryView {
        cve_id: cve_of(t),
        title: t.member_text("title"@),
        severity: t.member_text("severity"@),
        cvss_score: t.member("cvssScore"@),
        cvss_vector: t.member_text("cvssVector"@),
        epss: raw_epss(t.member("epss"@)),
        kev: raw_kev(t.member("kev"@)) || says_yes(t.member("knownExploitsInWild"@)),
        published_date: Some(date_of(t.member("publishedDate"@))),
        affected_versions: t.member("affectedVersions"@),
        patch_available: t.member("patchAvailable"@),
        references: match t.member_items("references"@) {
            Some(items) => reference_texts(items),
            None => Seq::empty(),
        },
        confirmed: false,
        matched_range: None,
        match_basis: "search-fallback"@,
        radar_url: match filled_member(t, "slug"@) {
            Some(s) => Some(page_of(s)),
            None => None,
        },
        fixed_versions: array_texts(t.member("fixedVersions"@)),
        remediation: t.member_text("remediation"@),
        cwes: array_texts(t.member("cwes"@)),
    }
}

/// The finding that a record of a search makes. Nothing confirms its version.
pub fn search_to_entry(t: &Json) -> (r: ThreatEntry)
    ensures
        r.deep_view() == record_entry(t.deep_view()),
{
    let references = match t.get_array("references") {
        Some(arr) => refs_to_strings(arr),
        None => {
            let none: Vec<String> = Vec::new();
            assert(views(none@) =~= Seq::<Seq<char>>::empty());
            none
        },
    };
    let radar_url = match t.get_str("slug") {
        Some(s) => if s.is_empty() {
            None
        } else {
            Some(page_address(s))
        },
        None => None,
    };
    ThreatEntry {
        cve_id: cve_id(t),
        title: own_opt(t.get_str("title")),
        severity: own_opt(t.get_str("severity")),
        cvss_score: copy_opt(t.get("cvssScore")),
        cvss_vector: own_opt(t.get_str("cvssVector")),
        epss: epss_score_from_value(t.get("epss")),
        kev: kev_from_value(t.get("kev"), t.get("knownExploitsInWild")),
        published_date: Some(clean_date(t.get("publishedDate"))),
        affected_versions: copy_opt(t.get("affectedVersions")),
        patch_available: copy_opt(t.get("patchAvailable")),
        references,
        confirmed: false,
        matched_range: None,
        match_basis: own("search-fallback"),
        radar_url,
        fixed_versions: str_vec_from_value(t.get("fixedVersions")),
        remediation: own_opt(t.get_str("remediation")),
        cwes: str_vec_from_value(t.get("cwes")),
    }
}

/// The date of a finding is told without the time of day, whether the match API or a
/// search found it.
pub proof fn published_dates_have_one_shape(hit: MatchHitView, record: JsonView)
    ensures
        hit_entry(hit).published_date matches Some(d) ==> free_of(d, CharSet::Is('T')),
        record_entry(record).published_date matches Some(d) ==> free_of(d, CharSet::Is('T')),
{
    if let Some(s) = hit.published_date {
        pieces_are_free(s, CharSet::Is('T'));
        lemma_pieces_nonempty(s, CharSet::Is('T'));
    }
    reveal_strlit("N/A");
    if let Some(v) = record.member("publishedDate"@) {
        if let Some(s) = v.text() {
            pieces_are_free(s, CharSet::Is('T'));
            lemma_pieces_nonempty(s, CharSet::Is('T'));
        }
    }
}

} // verus!
