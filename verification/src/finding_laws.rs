//! What a finding keeps of the answer or the record that it was made from, and which of two
//! findings is the higher risk.

use vstd::prelude::*;

use crate::api::{
    epss_percentile_of, epss_score, hit_entry, item_texts, page_of, rank_of, raw_epss, record_entry, risk_of,
    wire_epss, EpssFieldView, MatchHitView, ThreatEntryView,
};
use crate::json::{JsonView, RealView};
use crate::number::decimal;
use crate::order::precedes;
use crate::risk::outranks;
use crate::scan::{first_per_cve, has_cve, is_refusal, search_ahead, SearchedView};
use crate::split::{free_of, lemma_pieces_nonempty, pieces, pieces_are_free};
use crate::text::{has_prefix, has_suffix, CharSet};
use crate::threat::{
    after_page, date_of, date_part, fresh, goes_on, id_of, ids_of, message_of, records_of, reference_texts,
    search_query, with_param, PagerView, ThreatView,
};

verus! {

// ── Findings of the match API ────────────────────────────────────────────────

/// A finding keeps what the match API says of it: which CVE it is, how severe, which range the
/// version lies in, what fixes it, and whether it is confirmed.
pub proof fn a_finding_keeps_what_the_answer_says(m: MatchHitView)
    ensures
        hit_entry(m).cve_id == m.cve_id,
        hit_entry(m).title == m.title,
        hit_entry(m).severity == m.severity,
        hit_entry(m).cvss_score == m.cvss_score,
        hit_entry(m).confirmed == m.confirmed,
        hit_entry(m).matched_range == m.matched_range,
        hit_entry(m).patch_available == m.patch_available,
        hit_entry(m).fixed_versions == m.fixed_versions,
        hit_entry(m).remediation == m.remediation,
        hit_entry(m).cwes == m.cwes,
        m.match_basis matches Some(b) ==> hit_entry(m).match_basis == b,
        m.match_basis is None ==> hit_entry(m).match_basis == "coordinate"@,
        m.published_date is None ==> hit_entry(m).published_date is None,
        m.slug matches Some(s) ==> (hit_entry(m).radar_url matches Some(u) && has_suffix(u, s)
            && has_prefix(u, "https://radar.offseq.com/threat/"@)),
        m.slug is None ==> hit_entry(m).radar_url is None,
        m.epss matches Some(EpssFieldView::Score(x)) ==> hit_entry(m).epss == Some(x),
        m.epss matches Some(EpssFieldView::Object { score, percentile }) ==> hit_entry(m).epss
            == score && epss_percentile_of(m.epss) == percentile,
        m.epss is None || m.epss == Some(EpssFieldView::Null) ==> hit_entry(m).epss is None,
{
    if let Some(s) = m.slug {
        let u = page_of(s);
        assert(u.skip(u.len() - s.len()) =~= s);
        lemma_page(s);
    }
}

proof fn lemma_page(s: Seq<char>)
    ensures
        has_prefix(page_of(s), "https://radar.offseq.com/threat/"@),
{
    reveal_strlit("https://radar.offseq.com");
    reveal_strlit("/threat/");
    reveal_strlit("https://radar.offseq.com/threat/");
    assert(page_of(s).take("https://radar.offseq.com/threat/"@.len() as int)
        =~= "https://radar.offseq.com/threat/"@);
}

/// A finding is known to be exploited where the answer lists it or says so, and only there.
pub proof fn a_listed_answer_is_known_to_be_exploited(m: MatchHitView)
    ensures
        m.kev ==> hit_entry(m).kev,
        m.known_exploits_in_wild == Some(JsonView::Bool(true)) ==> hit_entry(m).kev,
        m.known_exploits_in_wild == Some(JsonView::Text("true"@)) ==> hit_entry(m).kev,
        !m.kev && m.known_exploits_in_wild is None ==> !hit_entry(m).kev,
        !m.kev && m.known_exploits_in_wild == Some(JsonView::Bool(false)) ==> !hit_entry(m).kev,
        !m.kev && m.known_exploits_in_wild == Some(JsonView::Null) ==> !hit_entry(m).kev,
        !m.kev && (m.known_exploits_in_wild matches Some(JsonView::Text(s)) && s != "true"@)
            ==> !hit_entry(m).kev,
{
}

/// The EPSS of an answer is read from a number, or from the score of an object.
pub proof fn an_epss_is_a_number_or_an_object(j: JsonView, n: RealView)
    ensures
        j matches JsonView::Number(x) ==> wire_epss(Some(j)) == Some(Some(EpssFieldView::Score(x.real)))
            && raw_epss(Some(j)) == Some(x.real),
        (j is Object && (j.member("score"@) matches Some(JsonView::Number(x)))) ==> raw_epss(
            Some(j),
        ) == Some(j.member("score"@)->0->Number_0.real),
        (j is Object && (j.member("score"@) matches Some(JsonView::Number(x))) && j.member(
            "percentile"@,
        ) is None) ==> (wire_epss(Some(j)) matches Some(Some(e)) && epss_score(Some(e)) == Some(
            j.member("score"@)->0->Number_0.real,
        )),
        wire_epss(None) == Some(None::<EpssFieldView>),
        raw_epss(None) is None,
        epss_score(Some(EpssFieldView::Score(n))) == Some(n),
{
}

// ── Findings of a search ─────────────────────────────────────────────────────

/// Nothing that a search finds is confirmed, and a finding of it keeps what the record says.
pub proof fn a_finding_keeps_what_the_record_says(t: JsonView)
    ensures
        !record_entry(t).confirmed,
        record_entry(t).match_basis == "search-fallback"@,
        record_entry(t).matched_range is None,
        record_entry(t).title == t.member_text("title"@),
        record_entry(t).severity == t.member_text("severity"@),
        record_entry(t).cvss_score == t.member("cvssScore"@),
        record_entry(t).cvss_vector == t.member_text("cvssVector"@),
        record_entry(t).affected_versions == t.member("affectedVersions"@),
        record_entry(t).patch_available == t.member("patchAvailable"@),
        record_entry(t).remediation == t.member_text("remediation"@),
        t.member_text("cveId"@) is Some ==> record_entry(t).cve_id == t.member_text("cveId"@),
        t.member("cveId"@) is None ==> record_entry(t).cve_id == t.member_text("externalId"@),
        (t.member_text("slug"@) matches Some(s) && s.len() > 0) ==> (record_entry(t).radar_url
            matches Some(u) && has_suffix(u, t.member_text("slug"@)->0) && has_prefix(
            u,
            "https://radar.offseq.com/threat/"@,
        )),
        t.member_text("slug"@) is None || t.member_text("slug"@)->0.len() == 0 ==> record_entry(
            t,
        ).radar_url is None,
{
    if let Some(s) = t.member_text("slug"@) {
        let u = page_of(s);
        assert(u.skip(u.len() - s.len()) =~= s);
        lemma_page(s);
    }
}

/// A record is known to be exploited where it is listed, by an object or by `true`, or where it
/// says so.
pub proof fn a_listed_record_is_known_to_be_exploited(t: JsonView)
    ensures
        t.member("kev"@) == Some(JsonView::Bool(true)) ==> record_entry(t).kev,
        t.member("kev"@) matches Some(JsonView::Object(_)) ==> record_entry(t).kev,
        t.member("knownExploitsInWild"@) == Some(JsonView::Bool(true)) ==> record_entry(t).kev,
        t.member("knownExploitsInWild"@) == Some(JsonView::Text("true"@)) ==> record_entry(t).kev,
        (t.member("kev"@) is None || t.member("kev"@) == Some(JsonView::Null) || t.member("kev"@)
            == Some(JsonView::Bool(false))) && (t.member("knownExploitsInWild"@) is None || t.member(
            "knownExploitsInWild"@,
        ) == Some(JsonView::Null) || t.member("knownExploitsInWild"@) == Some(JsonView::Bool(false)))
            ==> !record_entry(t).kev,
{
}

proof fn lemma_texts(items: Seq<JsonView>, x: Seq<char>)
    ensures
        item_texts(items).contains(x) <==> items.contains(JsonView::Text(x)),
    decreases items.len(),
{
    if items.len() > 0 {
        let d = items.drop_last();
        lemma_texts(d, x);
        let a = item_texts(items);
        let b = item_texts(d);
        if a.contains(x) {
            let k = choose|k: int| 0 <= k < a.len() && a[k] == x;
            if k < b.len() {
                assert(b[k] == x);
                let i = choose|i: int| 0 <= i < d.len() && d[i] == JsonView::Text(x);
                assert(items[i] == JsonView::Text(x));
            } else {
                assert(items[items.len() - 1] == JsonView::Text(x));
            }
        }
        if items.contains(JsonView::Text(x)) {
            let i = choose|i: int| 0 <= i < items.len() && items[i] == JsonView::Text(x);
            if i < d.len() {
                assert(d[i] == JsonView::Text(x));
                let k = choose|k: int| 0 <= k < b.len() && b[k] == x;
                assert(a[k] == x);
            } else {
                assert(a[a.len() - 1] == x);
            }
        }
    }
}

/// The fixed versions and the weaknesses of a record are the texts that it lists.
pub proof fn lists_of_a_record_are_kept(t: JsonView, x: Seq<char>)
    ensures
        t.member_items("fixedVersions"@) matches Some(items) ==> (record_entry(
            t,
        ).fixed_versions.contains(x) <==> items.contains(JsonView::Text(x))),
        t.member_items("cwes"@) matches Some(items) ==> (record_entry(t).cwes.contains(x)
            <==> items.contains(JsonView::Text(x))),
        t.member("fixedVersions"@) is None ==> record_entry(t).fixed_versions.len() == 0,
        t.member("cwes"@) is None ==> record_entry(t).cwes.len() == 0,
{
    if let Some(items) = t.member_items("fixedVersions"@) {
        lemma_texts(items, x);
    }
    if let Some(items) = t.member_items("cwes"@) {
        lemma_texts(items, x);
    }
}

proof fn lemma_references(items: Seq<JsonView>, i: int)
    requires
        0 <= i < items.len(),
    ensures
        items[i] matches JsonView::Text(s) ==> reference_texts(items).contains(s),
        items[i].text() is None && items[i].member_text("url"@) is Some ==> reference_texts(
            items,
        ).contains(items[i].member_text("url"@)->0),
        reference_texts(items).len() <= items.len(),
    decreases items.len(),
{
    let d = items.drop_last();
    let a = reference_texts(items);
    let b = reference_texts(d);
    if d.len() > 0 {
        lemma_references(d, 0);
    }
    if i < d.len() {
        lemma_references(d, i);
        assert(d[i] == items[i]);
        assert forall|x: Seq<char>| b.contains(x) implies a.contains(x) by {
            let k = choose|k: int| 0 <= k < b.len() && b[k] == x;
            assert(a[k] == x);
        }
    } else if a.len() > 0 {
        assert(a.contains(a[a.len() - 1]));
    }
}

/// The references of a finding are the addresses that are listed, as they are or as the `url` of
/// an object.
pub proof fn references_are_kept(m: MatchHitView, t: JsonView, i: int)
    ensures
        (0 <= i < m.references.len() && m.references[i] is Text) ==> hit_entry(
            m,
        ).references.contains(m.references[i]->Text_0),
        (0 <= i < m.references.len() && m.references[i].text() is None
            && m.references[i].member_text("url"@) is Some) ==> hit_entry(m).references.contains(
            m.references[i].member_text("url"@)->0,
        ),
        hit_entry(m).references.len() <= m.references.len(),
        (t.member_items("references"@) matches Some(items) && 0 <= i < items.len() && items[i] is Text)
            ==> record_entry(t).references.contains(
            t.member_items("references"@)->0[i]->Text_0,
        ),
{
    if m.references.len() > 0 {
        lemma_references(m.references, 0);
    }
    if 0 <= i < m.references.len() {
        lemma_references(m.references, i);
    }
    if let Some(items) = t.member_items("references"@) {
        if 0 <= i < items.len() {
            lemma_references(items, i);
        }
    }
}

/// The date of a time stamp is what stands before the time, and a text without a time stays.
pub proof fn a_date_is_what_stands_before_the_time(s: Seq<char>)
    ensures
        has_prefix(s, date_part(s)),
        s.len() > date_part(s).len() ==> s[date_part(s).len() as int] == 'T',
        free_of(date_part(s), CharSet::Is('T')),
        date_of(Some(JsonView::Text(s))) == date_part(s),
        date_of(None) == "N/A"@,
    decreases s.len(),
{
    let set = CharSet::Is('T');
    pieces_are_free(s, set);
    lemma_pieces_nonempty(s, set);
    if s.len() == 0 {
        assert(s.take(0) =~= date_part(s));
    } else {
        let d = s.drop_last();
        a_date_is_what_stands_before_the_time(d);
        lemma_pieces_nonempty(d, set);
        let p = pieces(d, set);
        let n = date_part(d).len() as int;
        assert(s.take(n) =~= d.take(n));
        if set.has(s.last()) {
            assert(date_part(s) == p.push(Seq::<char>::empty())[0]);
            assert(date_part(s) == p[0]);
        } else if p.len() > 1 {
            assert(date_part(s) == p[0]);
            lemma_two_pieces_have_a_mark(d);
        } else {
            assert(date_part(s) == p[0].push(s.last()));
            lemma_one_piece_is_all(d);
            assert(s.take(s.len() as int) =~= s);
            assert(d.push(s.last()) =~= s);
        }
    }
}

proof fn lemma_one_piece_is_all(s: Seq<char>)
    requires
        pieces(s, CharSet::Is('T')).len() == 1,
    ensures
        pieces(s, CharSet::Is('T'))[0] == s,
    decreases s.len(),
{
    if s.len() > 0 {
        let d = s.drop_last();
        lemma_pieces_nonempty(d, CharSet::Is('T'));
        if !CharSet::Is('T').has(s.last()) {
            lemma_one_piece_is_all(d);
            assert(d.push(s.last()) =~= s);
        }
    } else {
        assert(s =~= Seq::<char>::empty());
    }
}

proof fn lemma_two_pieces_have_a_mark(s: Seq<char>)
    requires
        pieces(s, CharSet::Is('T')).len() > 1,
    ensures
        s.len() > pieces(s, CharSet::Is('T'))[0].len(),
    decreases s.len(),
{
    if s.len() > 0 {
        let d = s.drop_last();
        let p = pieces(d, CharSet::Is('T'));
        lemma_pieces_nonempty(d, CharSet::Is('T'));
        if p.len() > 1 {
            lemma_two_pieces_have_a_mark(d);
        } else {
            lemma_one_piece_is_all(d);
        }
    }
}

// ── Risk ─────────────────────────────────────────────────────────────────────

/// Of two findings the one that is known to be exploited is the higher risk; of two that are
/// alike in that the one with the higher severity; of two that are alike in that too the one
/// with the higher EPSS, and then the one with the higher CVSS.
pub proof fn the_higher_risk_comes_first(a: ThreatEntryView, b: ThreatEntryView)
    ensures
        ({
            let x = risk_of(a);
            let y = risk_of(b);
            &&& a.kev && !b.kev ==> outranks(x, y) && !outranks(y, x)
            &&& a.kev == b.kev && rank_of(a.severity) > rank_of(b.severity) ==> outranks(x, y)
                && !outranks(y, x)
            &&& (a.kev == b.kev && rank_of(a.severity) == rank_of(b.severity)) ==> {
                &&& (a.epss matches Some(e) && b.epss matches Some(f) && e.thousandths
                    > f.thousandths) ==> outranks(x, y) && !outranks(y, x)
                &&& (a.epss == b.epss && (a.cvss_score matches Some(JsonView::Number(m))
                    && b.cvss_score matches Some(JsonView::Number(n)) && m.real.hundredths
                    > n.real.hundredths)) ==> outranks(x, y) && !outranks(y, x)
            }
        }),
{
}

/// The findings of an asset that are reported are its findings, and each CVE that it has is
/// among them.
pub proof fn no_cve_of_an_asset_is_lost(es: Seq<ThreatEntryView>, i: int)
    requires
        0 <= i < es.len(),
    ensures
        es[i].cve_id matches Some(id) ==> has_cve(first_per_cve(es), id),
        es[i].cve_id is None ==> first_per_cve(es).contains(es[i]),
        first_per_cve(es).len() <= es.len(),
    decreases es.len(),
{
    let d = es.drop_last();
    let a = first_per_cve(es);
    let b = first_per_cve(d);
    if d.len() > 0 {
        no_cve_of_an_asset_is_lost(d, 0);
    }
    if i < d.len() {
        no_cve_of_an_asset_is_lost(d, i);
        assert(d[i] == es[i]);
        if let Some(id) = es[i].cve_id {
            let k = choose|k: int| 0 <= k < b.len() && (#[trigger] b[k]).cve_id == Some(id);
            assert(a[k] == b[k]);
        } else {
            let k = choose|k: int| 0 <= k < b.len() && b[k] == es[i];
            assert(a[k] == es[i]);
        }
    } else if es[i].cve_id is None {
        assert(a[a.len() - 1] == es[i]);
    } else {
        let id = es[i].cve_id->0;
        if !has_cve(b, id) {
            assert(a[a.len() - 1].cve_id == Some(id));
        }
    }
}

// ── Searches ─────────────────────────────────────────────────────────────────

/// The searches are made in their order, one after another, until one is refused for the rate.
pub proof fn searches_are_made_in_order(
    fallback: Seq<(Seq<char>, Seq<Seq<char>>)>,
    replies: Seq<SearchedView>,
)
    ensures
        replies.len() < fallback.len() && (forall|i: int|
            0 <= i < replies.len() ==> !is_refusal(#[trigger] replies[i])) ==> search_ahead(
            fallback,
            replies,
        ) == Some(fallback[replies.len() as int].0),
        replies.len() >= fallback.len() ==> search_ahead(fallback, replies) is None,
        (exists|i: int| 0 <= i < replies.len() && is_refusal(#[trigger] replies[i]))
            ==> search_ahead(fallback, replies) is None,
{
}

/// A search names the service, and the page with its size, and each filter that is set.
pub proof fn a_search_names_what_is_searched_for(
    service: Seq<char>,
    limit: nat,
    page: nat,
    name: Seq<char>,
    value: Seq<char>,
)
    ensures
        ({
            let q = search_query(service, limit, page);
            &&& q.contains(("search"@, service))
            &&& q.contains(("limit"@, decimal(limit)))
            &&& q.contains(("page"@, decimal(page)))
            &&& with_param(q, name, Some(value)).contains((name, value))
            &&& with_param(q, name, Some(value)).contains(("search"@, service))
            &&& with_param(q, name, None) == q
        }),
{
    let q = search_query(service, limit, page);
    assert(q[0] == ("search"@, service));
    assert(q[1] == ("limit"@, decimal(limit)));
    assert(q[2] == ("page"@, decimal(page)));
    let w = with_param(q, name, Some(value));
    assert(w[3] == (name, value));
    assert(w[0] == q[0]);
}

/// Each record of a page is taken in, unless one with its id was before.
pub proof fn every_record_is_taken_in(seen: Seq<Seq<char>>, ts: Seq<ThreatView>, i: int)
    requires
        0 <= i < ts.len(),
    ensures
        seen.contains(id_of(ts[i])) || ids_of(fresh(seen, ts)).contains(id_of(ts[i])),
        fresh(seen, ts).len() <= ts.len(),
    decreases ts.len(),
{
    let d = ts.drop_last();
    let a = fresh(seen, ts);
    let b = fresh(seen, d);
    if d.len() > 0 {
        every_record_is_taken_in(seen, d, 0);
    }
    if i < d.len() {
        every_record_is_taken_in(seen, d, i);
        assert(d[i] == ts[i]);
        if ids_of(b).contains(id_of(ts[i])) {
            let k = choose|k: int| 0 <= k < ids_of(b).len() && ids_of(b)[k] == id_of(ts[i]);
            assert(ids_of(a)[k] == id_of(ts[i]));
        }
    } else {
        let id = id_of(ts[i]);
        let all = seen + ids_of(b);
        if all.contains(id) {
            let k = choose|k: int| 0 <= k < all.len() && all[k] == id;
            if k < seen.len() {
                assert(seen[k] == id);
            } else {
                assert(ids_of(b)[k - seen.len()] == id);
            }
        } else {
            assert(ids_of(a)[a.len() - 1] == id);
        }
    }
}

/// After a full page with something new the next one is asked for, up to the fiftieth; what was
/// found before stays, and what is new stands behind it.
pub proof fn a_full_page_leads_to_the_next(p: PagerView, ts: Seq<ThreatView>, limit: nat)
    ensures
        ({
            let new = fresh(ids_of(p.found), ts);
            &&& after_page(p, ts, limit).found == p.found + new
            &&& ts.len() >= limit && new.len() > 0 && 1 <= p.page < 50 ==> after_page(
                p,
                ts,
                limit,
            ).page == p.page + 1
            &&& ts.len() < limit || new.len() == 0 || p.page >= 50 ==> !goes_on(
                p.page,
                limit,
                ts.len(),
                new.len(),
            )
        }),
{
    if ts.len() == 0 {
        assert(fresh(ids_of(p.found), ts).len() == 0);
    }
}

/// A record is told apart by its `_id`, or else by its external id, its CVE, its slug or its
/// title, in this order.
pub proof fn a_record_has_its_id(t: ThreatView, s: Seq<char>)
    requires
        s.len() > 0,
    ensures
        t.body.member_text("_id"@) == Some(s) ==> id_of(t) == s,
        t.body.member("_id"@) is None && t.body.member_text("externalId"@) == Some(s) ==> id_of(t)
            == s,
        t.body.member("_id"@) is None && t.body.member("externalId"@) is None && t.body.member_text(
            "cveId"@,
        ) == Some(s) ==> id_of(t) == s,
        t.body.member("_id"@) is None && t.body.member("externalId"@) is None && t.body.member(
            "cveId"@,
        ) is None && t.body.member_text("slug"@) == Some(s) ==> id_of(t) == s,
        t.body.member("_id"@) is None && t.body.member("externalId"@) is None && t.body.member(
            "cveId"@,
        ) is None && t.body.member("slug"@) is None && t.body.member_text("title"@) == Some(s)
            ==> id_of(t) == s,
{
}

/// An error reply says its `message`, or else its `error`; the records of a page are its
/// `threats` under `data`.
pub proof fn replies_are_read_by_their_members(b: JsonView, m: Seq<char>, d: JsonView)
    ensures
        b.member_text("message"@) == Some(m) ==> message_of(b) == Some(m),
        b.member("message"@) is None && b.member_text("error"@) == Some(m) ==> message_of(b)
            == Some(m),
        b.member("message"@) is None && b.member("error"@) is None ==> message_of(b) is None,
        b.member("data"@) == Some(d) ==> records_of(b) == d.member_items("threats"@),
        b.member("data"@) is None ==> records_of(b) is None,
{
}

/// Of two findings that are alike in all else the one with the later id comes first.
pub proof fn alike_risks_go_by_their_ids(a: ThreatEntryView, b: ThreatEntryView)
    requires
        a.kev == b.kev,
        rank_of(a.severity) == rank_of(b.severity),
        a.epss == b.epss,
        a.cvss_score == b.cvss_score,
        a.cve_id is Some,
        b.cve_id is Some,
    ensures
        outranks(risk_of(a), risk_of(b)) <==> precedes(b.cve_id->0, a.cve_id->0),
{
}

} // verus!
