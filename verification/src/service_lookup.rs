//! Looking services up by name, and deciding here which of the threats that come
//! back affect the version that runs.

use vstd::prelude::*;

use crate::constraints::{
    constraint_of, constraint_verdict, contains_version_token, element_matches, has_version_token, mentions_version,
    parse_element, parse_version, text_mentions_affected_version_range, version_of, Version,
};
use crate::json::{Json, JsonView};
use crate::list::take_first;
use crate::split::{join, joined};
use crate::text::{
    char_is_digit, char_is_letter, chars_of, concat2, concat3, concat5, contains, find_in, is_digit, is_letter,
    lemma_place_from, lowercase, occurs, occurs_at, or_empty, place_from, same, to_lowercase, trim, trimmed, views,
};
use crate::threat::{Threat, ThreatView};

verus! {

// ── Text of a threat ─────────────────────────────────────────────────────────

/// The texts of the items, in order, at any depth.
pub open spec fn texts_of_items(s: Seq<JsonView>) -> Seq<Seq<char>>
    decreases s,
{
    if s.len() == 0 {
        Seq::empty()
    } else {
        texts_of_items(s.drop_last()) + texts_of(s.last())
    }
}

/// The texts of the members, in order, at any depth.
pub open spec fn texts_of_members(m: Seq<(Seq<char>, JsonView)>) -> Seq<Seq<char>>
    decreases m,
{
    if m.len() == 0 {
        Seq::empty()
    } else {
        texts_of_members(m.drop_last()) + texts_of(m.last().1)
    }
}

/// The texts of a value, in order, at any depth.
pub open spec fn texts_of(j: JsonView) -> Seq<Seq<char>>
    decreases j,
{
    match j {
        JsonView::Text(s) => seq![s],
        JsonView::Array(s) => texts_of_items(s),
        JsonView::Object(m) => texts_of_members(m),
        _ => Seq::empty(),
    }
}

fn push_all(out: &mut Vec<String>, more: Vec<String>)
    ensures
        views(final(out)@) == views(old(out)@) + views(more@),
{
    let ghost a = views(out@);
    let ghost b = views(more@);
    let mut rest = more;
    out.append(&mut rest);
    assert(views(out@) =~= a + b);
}

/// The texts of a value, in order, at any depth.
pub fn collect_text_values(value: &Json) -> (r: Vec<String>)
    ensures
        views(r@) == texts_of(value.deep_view()),
    decreases value,
{
    let mut out: Vec<String> = Vec::new();
    match value {
        Json::Text(s) => {
            out.push(s.clone());
            assert(views(out@) =~= seq![s@]);
        },
        Json::Array(v) => {
            let ghost items = value.deep_view()->Array_0;
            let mut i: usize = 0;
            assert(views(out@) =~= texts_of_items(items.take(0)));
            while i < v.len()
                invariant
                    i <= v@.len(),
                    *value == Json::Array(*v),
                    items == value.deep_view()->Array_0,
                    items.len() == v@.len(),
                    views(out@) == texts_of_items(items.take(i as int)),
                decreases v@.len() - i,
            {
                assert(decreases_to!(*value => (*value)->Array_0));
                assert(decreases_to!(*v => v@));
                assert(decreases_to!(v@ => v@[i as int]));
                let more = collect_text_values(&v[i]);
                assert(items.take(i + 1).drop_last() =~= items.take(i as int));
                assert(items.take(i + 1).last() == v@[i as int].deep_view());
                push_all(&mut out, more);
                i += 1;
            }
            assert(items.take(items.len() as int) =~= items);
        },
        Json::Object(v) => {
            let ghost members = value.deep_view()->Object_0;
            let mut i: usize = 0;
            assert(views(out@) =~= texts_of_members(members.take(0)));
            while i < v.len()
                invariant
                    i <= v@.len(),
                    *value == Json::Object(*v),
                    members == value.deep_view()->Object_0,
                    members.len() == v@.len(),
                    views(out@) == texts_of_members(members.take(i as int)),
                decreases v@.len() - i,
            {
                assert(decreases_to!(*value => (*value)->Object_0));
                assert(decreases_to!(*v => v@));
                assert(decreases_to!(v@ => v@[i as int]));
                assert(decreases_to!(v@[i as int] => v@[i as int].1));
                let more = collect_text_values(&v[i].1);
                assert(members.take(i + 1).drop_last() =~= members.take(i as int));
                assert(members.take(i + 1).last().1 == v@[i as int].1.deep_view());
                push_all(&mut out, more);
                i += 1;
            }
            assert(members.take(members.len() as int) =~= members);
        },
        _ => {
            assert(views(out@) =~= Seq::<Seq<char>>::empty());
        },
    }
    out
}

/// All texts under `enrichment`, one to a line.
pub open spec fn enrichment_of(threat: JsonView) -> Seq<char> {
    match threat.member("enrichment"@) {
        Some(e) => joined(texts_of(e), "\n"@),
        None => Seq::empty(),
    }
}

/// All texts under `enrichment`, one to a line.
pub fn get_enrichment_text(threat: &Json) -> (r: String)
    ensures
        r@ == enrichment_of(threat.deep_view()),
{
    match threat.get("enrichment") {
        Some(e) => {
            let texts = collect_text_values(e);
            join(&texts, "\n")
        },
        None => String::new(),
    }
}

/// A name as it is compared: in small letters, without white space around it.
pub open spec fn plain_name(s: Seq<char>) -> Seq<char> {
    trimmed(lowercase(s))
}

/// The member `key` as it is compared; empty where it is no text.
pub open spec fn plain_field(threat: JsonView, key: Seq<char>) -> Seq<char> {
    plain_name(or_empty(threat.member_text(key)))
}

/// A name as it is compared.
pub fn normalize_name(s: &str) -> (r: String)
    ensures
        r@ == plain_name(s@),
{
    let lower = to_lowercase(s);
    trim(lower.as_str())
}

/// The member `key` as it is compared; empty where it is no text.
pub fn str_field(threat: &Json, key: &str) -> (r: String)
    ensures
        r@ == plain_field(threat.deep_view(), key@),
{
    match threat.get_str(key) {
        Some(s) => normalize_name(s),
        None => {
            let empty = String::new();
            normalize_name(empty.as_str())
        },
    }
}

// ── Does a threat concern a service ──────────────────────────────────────────

/// Whether a character can be part of a name.
pub open spec fn is_name_char(c: char) -> bool {
    is_letter(c) || is_digit(c) || c == '_' || c == '-'
}

/// Whether the `n` characters at the place `i` have no name character on either
/// side.
pub open spec fn is_free_name(text: Seq<char>, i: int, n: nat) -> bool {
    &&& i == 0 || !is_name_char(text[i - 1])
    &&& i + n >= text.len() || !is_name_char(text[i + n])
}

/// Whether a free occurrence of `name` is met when reading `text` from `start` on,
/// each time going on behind the occurrence that was met.
pub open spec fn free_name_from(text: Seq<char>, name: Seq<char>, start: int) -> bool
    decreases text.len() - start,
{
    if name.len() == 0 || start < 0 {
        false
    } else {
        match place_from(text, name, start) {
            Some(i) => if start <= i && i + name.len() <= text.len() {
                is_free_name(text, i, name.len()) || free_name_from(text, name, i + name.len())
            } else {
                false
            },
            None => false,
        }
    }
}

/// Whether `service` stands in `text` as a name of its own, whatever the case.
pub open spec fn names_service(text: Seq<char>, service: Seq<char>) -> bool {
    free_name_from(lowercase(text), lowercase(service), 0)
}

proof fn lemma_free_name_from(text: Seq<char>, name: Seq<char>, start: int)
    requires
        free_name_from(text, name, start),
    ensures
        exists|i: int| #[trigger] occurs_at(text, name, i) && is_free_name(text, i, name.len()),
    decreases text.len() - start,
{
    lemma_place_from(text, name, start);
    let i = place_from(text, name, start)->0;
    if is_free_name(text, i, name.len()) {
        assert(occurs_at(text, name, i));
    } else {
        lemma_free_name_from(text, name, i + name.len());
    }
}

/// A service found in a text stands there as a word of its own, so that `nginx`
/// is not found in `nginx-ui`.
pub proof fn named_service_is_free(text: Seq<char>, service: Seq<char>)
    requires
        names_service(text, service),
    ensures
        exists|i: int|
            #[trigger] occurs_at(lowercase(text), lowercase(service), i) && is_free_name(
                lowercase(text),
                i,
                lowercase(service).len(),
            ),
{
    lemma_free_name_from(lowercase(text), lowercase(service), 0);
}

fn char_is_name_char(c: char) -> (r: bool)
    ensures
        r == is_name_char(c),
{
    char_is_letter(c) || char_is_digit(c) || c == '_' || c == '-'
}

/// Whether `name` stands in `text` as a word of its own; both in small letters.
pub fn contains_free_name(text: &str, name: &str) -> (r: bool)
    ensures
        r == free_name_from(text@, name@, 0),
{
    let h = chars_of(text);
    let n = chars_of(name);
    if n.len() == 0 {
        return false;
    }
    let mut start: usize = 0;
    loop
        invariant
            start <= h@.len(),
            h@ == text@,
            n@ == name@,
            n@.len() > 0,
            free_name_from(text@, name@, 0) == free_name_from(h@, n@, start as int),
        decreases h@.len() - start,
    {
        match find_in(&h, &n, start) {
            Some(i) => {
                let before_ok = i == 0 || !char_is_name_char(h[i - 1]);
                let after_ok = n.len() == h.len() - i || !char_is_name_char(h[i + n.len()]);
                if before_ok && after_ok {
                    return true;
                }
                start = i + n.len();
            },
            None => {
                return false;
            },
        }
    }
}

/// Whether `service` stands in `text` as a name of its own, whatever the case.
pub fn contains_standalone_service(text: &str, service: &str) -> (r: bool)
    ensures
        r == names_service(text@, service@),
{
    let t = to_lowercase(text);
    let s = to_lowercase(service);
    contains_free_name(t.as_str(), s.as_str())
}

/// What of a threat says which product it is about, in small letters.
pub struct ThreatText {
    pub vendor: String,
    pub product: String,
    pub title: String,
    pub desc: String,
    pub enrich: String,
}

pub struct ThreatTextView {
    pub vendor: Seq<char>,
    pub product: Seq<char>,
    pub title: Seq<char>,
    pub desc: Seq<char>,
    pub enrich: Seq<char>,
}

impl DeepView for ThreatText {
    type V = ThreatTextView;

    open spec fn deep_view(&self) -> ThreatTextView {
        ThreatTextView {
            vendor: self.vendor@,
            product: self.product@,
            title: self.title@,
            desc: self.desc@,
            enrich: self.enrich@,
        }
    }
}

/// What of a threat says which product it is about.
pub open spec fn threat_text(threat: JsonView) -> ThreatTextView {
    ThreatTextView {
        vendor: plain_field(threat, "vendorProject"@),
        product: plain_field(threat, "product"@),
        title: plain_field(threat, "title"@),
        desc: plain_field(threat, "description"@),
        enrich: lowercase(enrichment_of(threat)),
    }
}

/// Whether a threat that would match `nginx` is about another product whose name
/// begins with it.
pub open spec fn is_other_nginx(t: ThreatTextView) -> bool {
    let combined = t.vendor + " "@ + t.product + " "@ + t.title;
    &&& occurs(combined, "nginx-ui"@) || occurs(combined, "nginx ui"@) || occurs(
        combined,
        "nginx plus"@,
    ) || occurs(combined, "nginx javascript"@) || occurs(combined, "nginx proxy manager"@)
    &&& !occurs(t.enrich, "nginx open source"@)
    &&& !occurs(t.desc, "nginx open source"@)
}

/// Whether the product of a threat is not given.
pub open spec fn is_missing(product: Seq<char>) -> bool {
    product.len() == 0 || product == "n/a"@ || product == "unknown"@ || product == "none"@
}

/// Whether the prose of a threat without a product is about the service.
pub open spec fn prose_names(t: ThreatTextView, service: Seq<char>) -> bool {
    let prose = t.title + "\n"@ + t.desc + "\n"@ + t.enrich;
    ||| occurs(prose, service + " versions"@)
    ||| occurs(prose, service + " open source"@)
    ||| occurs(prose, "affects "@ + service)
    ||| occurs(prose, "affecting "@ + service)
    ||| occurs(prose, "in "@ + service)
    ||| occurs(prose, service + "'s"@)
    ||| names_service(t.title, service)
}

/// Whether a threat is about the service.
pub open spec fn concerns(t: ThreatTextView, service: Seq<char>) -> bool {
    if t.product == service || (t.vendor == service && t.product.len() == 0) || names_service(
        t.product,
        service,
    ) {
        true
    } else if service == "nginx"@ && is_other_nginx(t) {
        false
    } else {
        is_missing(t.product) && prose_names(t, service)
    }
}

fn other_nginx(t: &ThreatText) -> (r: bool)
    ensures
        r == is_other_nginx(t.deep_view()),
{
    let combined = concat5(t.vendor.as_str(), " ", t.product.as_str(), " ", t.title.as_str());
    let c = combined.as_str();
    (contains(c, "nginx-ui") || contains(c, "nginx ui") || contains(c, "nginx plus") || contains(
        c,
        "nginx javascript",
    ) || contains(c, "nginx proxy manager")) && !contains(t.enrich.as_str(), "nginx open source")
        && !contains(t.desc.as_str(), "nginx open source")
}

fn missing_product(product: &str) -> (r: bool)
    ensures
        r == is_missing(product@),
{
    product.is_empty() || same(product, "n/a") || same(product, "unknown") || same(product, "none")
}

fn prose_mentions(t: &ThreatText, service: &str) -> (r: bool)
    ensures
        r == prose_names(t.deep_view(), service@),
{
    let prose = concat5(t.title.as_str(), "\n", t.desc.as_str(), "\n", t.enrich.as_str());
    let p = prose.as_str();
    let versions = concat2(service, " versions");
    let open_source = concat2(service, " open source");
    let affects = concat2("affects ", service);
    let affecting = concat2("affecting ", service);
    let inside = concat2("in ", service);
    let of = concat2(service, "'s");
    contains(p, versions.as_str()) || contains(p, open_source.as_str()) || contains(
        p,
        affects.as_str(),
    ) || contains(p, affecting.as_str()) || contains(p, inside.as_str()) || contains(
        p,
        of.as_str(),
    ) || contains_standalone_service(t.title.as_str(), service)
}

/// Whether a threat with these texts is about the service.
pub fn text_concerns_service(t: &ThreatText, service: &str) -> (r: bool)
    ensures
        r == concerns(t.deep_view(), service@),
{
    if same(t.product.as_str(), service) {
        return true;
    }
    if same(t.vendor.as_str(), service) && t.product.as_str().is_empty() {
        return true;
    }
    if contains_standalone_service(t.product.as_str(), service) {
        return true;
    }
    if same(service, "nginx") && other_nginx(t) {
        return false;
    }
    missing_product(t.product.as_str()) && prose_mentions(t, service)
}

/// Whether a threat is about the service.
pub fn threat_matches_service(threat: &Json, service: &str) -> (r: bool)
    ensures
        r == concerns(threat_text(threat.deep_view()), plain_name(service@)),
{
    let name = normalize_name(service);
    let enrichment = get_enrichment_text(threat);
    let t = ThreatText {
        vendor: str_field(threat, "vendorProject"),
        product: str_field(threat, "product"),
        title: str_field(threat, "title"),
        desc: str_field(threat, "description"),
        enrich: to_lowercase(enrichment.as_str()),
    };
    text_concerns_service(&t, name.as_str())
}

/// The records that are about the service.
pub open spec fn concerning(ts: Seq<ThreatView>, service: Seq<char>) -> Seq<ThreatView>
    decreases ts.len(),
{
    if ts.len() == 0 {
        ts
    } else if concerns(threat_text(ts.last().body), plain_name(service)) {
        concerning(ts.drop_last(), service).push(ts.last())
    } else {
        concerning(ts.drop_last(), service)
    }
}

/// Keeps the records that are about the service.
pub fn keep_matching(threats: Vec<Threat>, service: &str) -> (r: Vec<Threat>)
    ensures
        r.deep_view() == concerning(threats.deep_view(), service@),
{
    let ghost ts = threats.deep_view();
    let n: usize = threats.len();
    let mut rest = threats;
    let mut out: Vec<Threat> = Vec::new();
    let mut i: usize = 0;
    assert(out.deep_view() =~= concerning(ts.take(0), service@));
    assert(rest.deep_view() =~= ts.skip(0));
    while i < n
        invariant
            i <= n,
            n == ts.len(),
            rest.deep_view() == ts.skip(i as int),
            out.deep_view() == concerning(ts.take(i as int), service@),
        decreases n - i,
    {
        assert(rest.deep_view().len() == rest@.len());
        let t = take_first(&mut rest);
        proof {
            assert(ts.skip(i as int).skip(1) =~= ts.skip(i + 1));
            assert(ts.take(i + 1).drop_last() =~= ts.take(i as int));
        }
        if threat_matches_service(&t.body, service) {
            let ghost o = out.deep_view();
            out.push(t);
            assert(out.deep_view() =~= o.push(ts[i as int]));
        }
        i += 1;
    }
    assert(ts.take(n as int) =~= ts);
    out
}

// ── Does a threat affect a version ───────────────────────────────────────────

/// How a threat was found to affect a version.
#[derive(Debug, Clone, Copy, PartialEq, Eq, Structural)]
pub enum MatchBasis {
    Constraint,
    FreeText,
}

impl DeepView for MatchBasis {
    type V = MatchBasis;

    open spec fn deep_view(&self) -> MatchBasis {
        *self
    }
}

/// Whether an item of `affectedVersions` is a constraint.
pub open spec fn item_is_constraint(item: JsonView) -> bool {
    match item.text() {
        Some(s) => constraint_of(trimmed(s)) is Some,
        None => false,
    }
}

/// Whether an item of `affectedVersions` is the wildcard.
pub open spec fn item_is_wildcard(item: JsonView) -> bool {
    match item.text() {
        Some(s) => trimmed(s) == "*"@,
        None => false,
    }
}

/// Whether a text says that it says nothing.
pub open spec fn is_unspecified(s: Seq<char>) -> bool {
    s.len() == 0 || lowercase(s) == "unspecified"@ || lowercase(s) == "n/a"@ || lowercase(s)
        == "unknown"@
}

/// Whether an item of `affectedVersions` holds of a version; none where it is no
/// constraint.
pub open spec fn item_verdict(item: JsonView, target: Seq<u64>) -> Option<bool> {
    match item.text() {
        Some(s) => if is_unspecified(trimmed(s)) {
            None
        } else {
            constraint_verdict(trimmed(s), target)
        },
        None => None,
    }
}

/// Whether the prose of a threat names the version.
pub open spec fn prose_hits(threat: JsonView, raw: Seq<char>, target: Option<Seq<u64>>) -> bool {
    let prose = plain_field(threat, "description"@) + "\n"@ + enrichment_of(threat);
    match target {
        Some(v) => mentions_version(prose, v, raw),
        None => trimmed(prose).len() > 0 && has_version_token(
            lowercase(prose),
            trimmed(lowercase(raw)),
        ),
    }
}

pub open spec fn prose_basis(threat: JsonView, raw: Seq<char>, target: Option<Seq<u64>>) -> Option<
    MatchBasis,
> {
    if prose_hits(threat, raw, target) {
        Some(MatchBasis::FreeText)
    } else {
        None
    }
}

pub open spec fn some_item_gives(items: Seq<JsonView>, target: Seq<u64>, verdict: bool) -> bool {
    exists|i: int| 0 <= i < items.len() && item_verdict(#[trigger] items[i], target) == Some(verdict)
}

pub open spec fn some_item_is_wildcard(items: Seq<JsonView>) -> bool {
    exists|i: int| 0 <= i < items.len() && item_is_wildcard(#[trigger] items[i])
}

pub open spec fn some_item_is_constraint(items: Seq<JsonView>) -> bool {
    exists|i: int| 0 <= i < items.len() && item_is_constraint(#[trigger] items[i])
}

/// How a threat affects the version `target` that was read out of `raw`, or not.
///
/// A constraint that holds decides, and so does one that does not where none
/// holds; only without a constraint is the prose read. A version that could not be
/// read is affected by the wildcard, and by no other constraint.
pub open spec fn basis_for(threat: JsonView, raw: Seq<char>, target: Option<Seq<u64>>) -> Option<
    MatchBasis,
> {
    match threat.member_items("affectedVersions"@) {
        Some(items) => match target {
            Some(v) => if some_item_gives(items, v, true) {
                Some(MatchBasis::Constraint)
            } else if some_item_gives(items, v, false) {
                None
            } else {
                prose_basis(threat, raw, target)
            },
            None => if some_item_is_wildcard(items) {
                Some(MatchBasis::Constraint)
            } else if some_item_is_constraint(items) {
                None
            } else {
                prose_basis(threat, raw, target)
            },
        },
        None => prose_basis(threat, raw, target),
    }
}

/// How a threat affects the version that a text names, or not.
pub open spec fn basis_of(threat: JsonView, raw: Seq<char>) -> Option<MatchBasis> {
    basis_for(threat, raw, version_of(raw))
}

/// Whether an item of `affectedVersions` is a constraint.
pub fn has_structured_constraint(arr: &Vec<Json>) -> (r: bool)
    ensures
        r == some_item_is_constraint(arr.deep_view()),
{
    let mut i: usize = 0;
    let ghost items = arr.deep_view();
    while i < arr.len()
        invariant
            i <= arr@.len(),
            items == arr.deep_view(),
            forall|k: int| 0 <= k < i ==> !item_is_constraint(#[trigger] items[k]),
        decreases arr@.len() - i,
    {
        assert(items[i as int] == arr@[i as int].deep_view());
        if let Some(s) = arr[i].as_str() {
            let t = trim(s);
            let parsed = parse_element(t.as_str());
            if parsed.is_some() {
                assert(item_is_constraint(items[i as int]));
                return true;
            }
        }
        i += 1;
    }
    false
}

/// Whether an item of `affectedVersions` is the wildcard.
pub fn has_wildcard(arr: &Vec<Json>) -> (r: bool)
    ensures
        r == some_item_is_wildcard(arr.deep_view()),
{
    let mut i: usize = 0;
    let ghost items = arr.deep_view();
    while i < arr.len()
        invariant
            i <= arr@.len(),
            items == arr.deep_view(),
            forall|k: int| 0 <= k < i ==> !item_is_wildcard(#[trigger] items[k]),
        decreases arr@.len() - i,
    {
        assert(items[i as int] == arr@[i as int].deep_view());
        if let Some(s) = arr[i].as_str() {
            let t = trim(s);
            if same(t.as_str(), "*") {
                assert(item_is_wildcard(items[i as int]));
                return true;
            }
        }
        i += 1;
    }
    false
}

fn verdict_on_item(item: &Json, target: &Version) -> (r: Option<bool>)
    ensures
        r == item_verdict(item.deep_view(), target@),
{
    match item.as_str() {
        Some(s) => {
            let t = trim(s);
            let lower = to_lowercase(t.as_str());
            if t.as_str().is_empty() || same(lower.as_str(), "unspecified") || same(
                lower.as_str(),
                "n/a",
            ) || same(lower.as_str(), "unknown") {
                None
            } else {
                element_matches(t.as_str(), target)
            }
        },
        None => None,
    }
}

fn freetext_match(threat: &Json, raw: &str, target: Option<&Version>) -> (r: Option<MatchBasis>)
    ensures
        r == prose_basis(
            threat.deep_view(),
            raw@,
            match target {
                Some(v) => Some(v@),
                None => None,
            },
        ),
{
    let desc = str_field(threat, "description");
    let enrich = get_enrichment_text(threat);
    let prose = concat3(desc.as_str(), "\n", enrich.as_str());
    let hit = match target {
        Some(v) => text_mentions_affected_version_range(prose.as_str(), v, raw),
        None => {
            let t = trim(prose.as_str());
            if t.as_str().is_empty() {
                false
            } else {
                let lower = to_lowercase(prose.as_str());
                let raw_lower = to_lowercase(raw);
                let token = trim(raw_lower.as_str());
                contains_version_token(lower.as_str(), token.as_str())
            }
        },
    };
    if hit {
        Some(MatchBasis::FreeText)
    } else {
        None
    }
}

/// How a threat affects the version `target` that was read out of `raw`, or not.
pub fn match_parsed_version(threat: &Json, raw: &str, target: Option<&Version>) -> (r: Option<
    MatchBasis,
>)
    ensures
        r == basis_for(
            threat.deep_view(),
            raw@,
            match target {
                Some(v) => Some(v@),
                None => None,
            },
        ),
{
    match threat.get_array("affectedVersions") {
        Some(arr) => match target {
            Some(v) => {
                let ghost items = arr.deep_view();
                let mut saw_parseable = false;
                let mut i: usize = 0;
                while i < arr.len()
                    invariant
                        i <= arr@.len(),
                        items == arr.deep_view(),
                        threat.deep_view().member_items("affectedVersions"@) == Some(items),
                        target == Some(v),
                        forall|k: int|
                            0 <= k < i ==> item_verdict(#[trigger] items[k], v@) != Some(true),
                        saw_parseable == (exists|k: int|
                            0 <= k < i && item_verdict(#[trigger] items[k], v@) == Some(false)),
                    decreases arr@.len() - i,
                {
                    assert(items[i as int] == arr@[i as int].deep_view());
                    match verdict_on_item(&arr[i], v) {
                        Some(true) => {
                            assert(some_item_gives(items, v@, true));
                            return Some(MatchBasis::Constraint);
                        },
                        Some(false) => {
                            saw_parseable = true;
                        },
                        None => {},
                    }
                    i += 1;
                }
                if saw_parseable {
                    assert(some_item_gives(items, v@, false));
                    return None;
                }
                freetext_match(threat, raw, target)
            },
            None => {
                if has_wildcard(arr) {
                    return Some(MatchBasis::Constraint);
                }
                if has_structured_constraint(arr) {
                    return None;
                }
                freetext_match(threat, raw, target)
            },
        },
        None => freetext_match(threat, raw, target),
    }
}

/// How a threat affects the version that a text names, or not.
pub fn match_version(threat: &Json, target_version: &str) -> (r: Option<MatchBasis>)
    ensures
        r == basis_of(threat.deep_view(), target_version@),
{
    match parse_version(target_version) {
        Some(v) => match_parsed_version(threat, target_version, Some(&v)),
        None => match_parsed_version(threat, target_version, None),
    }
}

/// A constraint that holds of the version decides, whatever the others say.
pub proof fn one_constraint_that_holds_decides(
    threat: JsonView,
    raw: Seq<char>,
    items: Seq<JsonView>,
    i: int,
    v: Seq<u64>,
)
    requires
        threat.member_items("affectedVersions"@) == Some(items),
        0 <= i < items.len(),
        version_of(raw) == Some(v),
        item_verdict(items[i], v) == Some(true),
    ensures
        basis_of(threat, raw) == Some(MatchBasis::Constraint),
{
    assert(some_item_gives(items, v, true));
}

/// A version that could not be read is not matched by a constraint other than the
/// wildcard, nor by the prose beside it.
pub proof fn unread_version_is_matched_by_the_wildcard_alone(
    threat: JsonView,
    raw: Seq<char>,
    items: Seq<JsonView>,
    i: int,
)
    requires
        threat.member_items("affectedVersions"@) == Some(items),
        version_of(raw) is None,
        0 <= i < items.len(),
        item_is_constraint(items[i]),
        !some_item_is_wildcard(items),
    ensures
        basis_of(threat, raw) is None,
{
    assert(some_item_is_constraint(items));
}

} // verus!
