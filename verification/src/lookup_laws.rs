//! Which records a service is looked up by, and where its parts are found.

use vstd::prelude::*;

use crate::json::JsonView;
use crate::package_version::plain_dpkg_owner;
use crate::packages::filled;
use crate::probe::version_flags_of;
use crate::scanners::{label_name, smf_name};
use crate::service_findings::epss_of;
use crate::service_lookup::{
    concerns, free_name_from, is_free_name, is_missing, is_name_char, is_other_nginx, is_unspecified, item_verdict,
    names_service, prose_names, texts_of, texts_of_items, texts_of_members, ThreatTextView,
};
use crate::services::{is_one_shot, systemd_places, unit_exe};
use crate::split::{free_of, joined, joined_texts_are_the_pieces};
use crate::text::{
    has_prefix, lemma_place_from, lowercase, occurs, occurs_at, place_from, trimmed, without_prefixes, CharSet,
};
use crate::threat::ThreatView;

verus! {

// ── Names ────────────────────────────────────────────────────────────────────

proof fn lemma_free_name(text: Seq<char>, name: Seq<char>, start: int)
    requires
        0 <= start,
        free_name_from(text, name, start),
    ensures
        exists|i: int| #[trigger]
            occurs_at(text, name, i) && (i == 0 || !is_name_char(text[i - 1])) && (i + name.len()
                >= text.len() || !is_name_char(text[i + name.len()])),
    decreases text.len() - start,
{
    lemma_place_from(text, name, start);
    let i = place_from(text, name, start)->0;
    assert(occurs_at(text, name, i));
    if !is_free_name(text, i, name.len()) {
        lemma_free_name(text, name, i + name.len());
    }
}

/// A text names a service where the name stands in it, whatever the case, with no letter, digit,
/// underscore or hyphen on either side; a text in which it stands nowhere so does not.
pub proof fn a_name_stands_free(text: Seq<char>, name: Seq<char>, i: int)
    ensures
        ({
            let t = lowercase(text);
            let n = lowercase(name);
            &&& names_service(text, name) ==> exists|k: int| #[trigger]
                occurs_at(t, n, k) && (k == 0 || !is_name_char(t[k - 1])) && (k + n.len() >= t.len()
                    || !is_name_char(t[k + n.len()]))
            &&& n.len() > 0 && occurs_at(t, n, i) && (forall|k: int|
                0 <= k < i ==> !occurs_at(t, n, k)) && (i == 0 || !is_name_char(t[i - 1])) && (i
                + n.len() >= t.len() || !is_name_char(t[i + n.len()])) ==> names_service(text, name)
            &&& n.len() == 0 || !occurs(t, n) ==> !names_service(text, name)
        }),
{
    let t = lowercase(text);
    let n = lowercase(name);
    if names_service(text, name) {
        lemma_free_name(t, n, 0);
    }
    lemma_place_from(t, n, 0);
}

/// The characters of a name are letters, digits, underscores and hyphens.
pub proof fn names_are_of_letters_digits_underscores_and_hyphens(c: char)
    ensures
        'a' <= c <= 'z' || 'A' <= c <= 'Z' || '0' <= c <= '9' || c == '_' || c == '-' <==> is_name_char(c),
{
}

// ── Prose ────────────────────────────────────────────────────────────────────

proof fn lemma_stays(a: Seq<char>, b: Seq<char>, c: Seq<char>, p: Seq<char>)
    ensures
        occurs(a, p) ==> occurs(a + b, p),
        occurs(c, p) ==> occurs(b + c, p),
{
    if occurs(a, p) {
        let i = choose|i: int| occurs_at(a, p, i);
        assert((a + b).subrange(i, i + p.len()) =~= a.subrange(i, i + p.len()));
        assert(occurs_at(a + b, p, i));
    }
    if occurs(c, p) {
        let i = choose|i: int| occurs_at(c, p, i);
        let k = b.len() + i;
        assert((b + c).subrange(k, k + p.len()) =~= c.subrange(i, i + p.len()));
        assert(occurs_at(b + c, p, k));
    }
}

/// A threat without a product is about the service that its title, its description or its enrichment
/// says is affected.
pub proof fn prose_tells_what_is_affected(t: ThreatTextView, service: Seq<char>, p: Seq<char>)
    requires
        t.product == ""@ || t.product == "n/a"@ || t.product == "unknown"@ || t.product == "none"@,
        service != "nginx"@,
        p == service + " versions"@ || p == service + " open source"@ || p == "affects "@ + service
            || p == "affecting "@ + service || p == "in "@ + service || p == service + "'s"@,
    ensures
        occurs(t.title, p) || occurs(t.desc, p) || occurs(t.enrich, p) ==> concerns(t, service),
        names_service(t.title, service) ==> concerns(t, service),
{
    reveal_strlit("");
    assert(is_missing(t.product));
    let a = t.title + "\n"@;
    let b = a + t.desc;
    let c = b + "\n"@;
    lemma_stays(t.title, "\n"@, t.desc, p);
    lemma_stays(a, t.desc, t.desc, p);
    lemma_stays(b, "\n"@, t.desc, p);
    lemma_stays(c, t.enrich, t.enrich, p);
    lemma_stays(t.title, a, t.desc, p);
    lemma_stays(t.title, c, t.enrich, p);
    assert(prose_names(t, service) || !(occurs(t.title, p) || occurs(t.desc, p) || occurs(t.enrich, p)));
}

/// What goes by a name like that of nginx is not nginx, unless the threat speaks of the open source
/// one.
pub proof fn relatives_of_nginx_are_others(t: ThreatTextView, p: Seq<char>)
    requires
        p == "nginx-ui"@ || p == "nginx ui"@ || p == "nginx plus"@ || p == "nginx javascript"@ || p
            == "nginx proxy manager"@,
        occurs(t.title, p) || occurs(t.product, p) || occurs(t.vendor, p),
        t.product != "nginx"@,
        !(t.vendor == "nginx"@ && t.product.len() == 0),
        !names_service(t.product, "nginx"@),
    ensures
        !occurs(t.enrich, "nginx open source"@) && !occurs(t.desc, "nginx open source"@) ==> !concerns(
            t,
            "nginx"@,
        ),
{
    let a = t.vendor + " "@;
    let b = a + t.product;
    let c = b + " "@;
    lemma_stays(t.vendor, " "@, t.product, p);
    lemma_stays(a, t.product, t.product, p);
    lemma_stays(t.vendor, a, t.product, p);
    lemma_stays(b, " "@, t.title, p);
    lemma_stays(t.vendor, c, t.title, p);
    lemma_stays(c, t.title, t.title, p);
    if !occurs(t.enrich, "nginx open source"@) && !occurs(t.desc, "nginx open source"@) {
        assert(is_other_nginx(t));
    }
}

/// The texts of an enrichment are those at any depth: of its items and of its members.
pub proof fn texts_are_found_at_any_depth(
    s: Seq<JsonView>,
    m: Seq<(Seq<char>, JsonView)>,
    i: int,
    x: Seq<char>,
)
    ensures
        texts_of(JsonView::Text(x)) == seq![x],
        0 <= i < s.len() && texts_of(s[i]).contains(x) ==> texts_of(JsonView::Array(s)).contains(x),
        0 <= i < m.len() && texts_of(m[i].1).contains(x) ==> texts_of(JsonView::Object(m)).contains(x),
{
    if 0 <= i < s.len() && texts_of(s[i]).contains(x) {
        lemma_items(s, i, x);
    }
    if 0 <= i < m.len() && texts_of(m[i].1).contains(x) {
        lemma_members(m, i, x);
    }
}

proof fn lemma_items(s: Seq<JsonView>, i: int, x: Seq<char>)
    requires
        0 <= i < s.len(),
        texts_of(s[i]).contains(x),
    ensures
        texts_of_items(s).contains(x),
    decreases s.len(),
{
    let d = s.drop_last();
    let a = texts_of_items(d);
    let b = texts_of(s.last());
    let all = a + b;
    if i < d.len() {
        assert(d[i] == s[i]);
        lemma_items(d, i, x);
        let k = choose|k: int| 0 <= k < a.len() && a[k] == x;
        assert(all[k] == x);
    } else {
        let k = choose|k: int| 0 <= k < b.len() && b[k] == x;
        assert(all[a.len() + k] == x);
    }
}

proof fn lemma_members(m: Seq<(Seq<char>, JsonView)>, i: int, x: Seq<char>)
    requires
        0 <= i < m.len(),
        texts_of(m[i].1).contains(x),
    ensures
        texts_of_members(m).contains(x),
    decreases m.len(),
{
    let d = m.drop_last();
    let a = texts_of_members(d);
    let b = texts_of(m.last().1);
    let all = a + b;
    if i < d.len() {
        assert(d[i] == m[i]);
        lemma_members(d, i, x);
        let k = choose|k: int| 0 <= k < a.len() && a[k] == x;
        assert(all[k] == x);
    } else {
        let k = choose|k: int| 0 <= k < b.len() && b[k] == x;
        assert(all[a.len() + k] == x);
    }
}

/// A constraint that is not given says nothing of any version.
pub proof fn a_constraint_that_is_not_given_says_nothing(s: Seq<char>, target: Seq<u64>)
    ensures
        trimmed(s).len() == 0 || lowercase(trimmed(s)) == "unspecified"@ || lowercase(trimmed(s))
            == "n/a"@ || lowercase(trimmed(s)) == "unknown"@ ==> item_verdict(
            JsonView::Text(s),
            target,
        ) is None,
        item_verdict(JsonView::Null, target) is None,
{
    assert(is_unspecified(trimmed(s)) <==> trimmed(s).len() == 0 || lowercase(trimmed(s))
        == "unspecified"@ || lowercase(trimmed(s)) == "n/a"@ || lowercase(trimmed(s)) == "unknown"@);
}

/// The EPSS of a record is its number, also where that is written as a text.
pub proof fn an_epss_may_be_written_as_a_text(t: ThreatView, s: Seq<char>)
    ensures
        t.body.member("epss"@) == Some(JsonView::Text(s)) ==> epss_of(t) == t.epss_text,
        t.body.member("epss"@) matches Some(JsonView::Number(n)) ==> epss_of(t) == Some(n.real),
        t.body.member("epss"@) is None || t.body.member("epss"@) == Some(JsonView::Null) ==> epss_of(
            t,
        ) is None,
{
}

// ── Units ────────────────────────────────────────────────────────────────────

/// A unit of systemd without a binary of its own runs systemd, unless it runs once and ends.
pub proof fn units_of_systemd_run_systemd(unit: Seq<char>, link: Option<Seq<char>>)
    ensures
        has_prefix(unit, "systemd-"@) && !is_one_shot(unit) ==> unit_exe(unit, None, link, None, None)
            == Some("/usr/lib/systemd/systemd"@),
        is_one_shot(unit) ==> unit_exe(unit, None, link, None, None) is None,
        unit == "systemd-journal-flush"@ || unit == "systemd-tmpfiles-setup"@ || unit
            == "systemd-tmpfiles-setup-dev"@ || unit == "systemd-tmpfiles-setup-dev-early"@
            ==> is_one_shot(unit),
        unit == "systemd-udev-trigger"@ || unit == "systemd-update-utmp"@ || unit
            == "systemd-user-sessions"@ || unit == "systemd-remount-fs"@ ==> is_one_shot(unit),
        unit == "systemd-random-seed"@ || unit == "systemd-binfmt"@ || unit == "systemd-modules-load"@
            || unit == "systemd-sysctl"@ ==> is_one_shot(unit),
        unit == "systemd-logind"@ || unit == "systemd-resolved"@ || unit == "systemd-journald"@
            ==> !is_one_shot(unit),
{
    lemma_one_shots(unit);
}

proof fn lemma_one_shots(unit: Seq<char>)
    ensures
        unit == "systemd-logind"@ || unit == "systemd-resolved"@ || unit == "systemd-journald"@
            ==> !is_one_shot(unit),
{
    reveal_strlit("systemd-logind");
    reveal_strlit("systemd-resolved");
    reveal_strlit("systemd-journald");
    reveal_strlit("systemd-journal-flush");
    reveal_strlit("systemd-tmpfiles-setup");
    reveal_strlit("systemd-tmpfiles-setup-dev");
    reveal_strlit("systemd-tmpfiles-setup-dev-early");
    reveal_strlit("systemd-udev-trigger");
    reveal_strlit("systemd-update-utmp");
    reveal_strlit("systemd-user-sessions");
    reveal_strlit("systemd-remount-fs");
    reveal_strlit("systemd-random-seed");
    reveal_strlit("systemd-binfmt");
    reveal_strlit("systemd-modules-load");
    reveal_strlit("systemd-sysctl");
    assert("systemd-journal-flush"@.len() == 21);
    assert("systemd-tmpfiles-setup"@.len() == 22);
    assert("systemd-tmpfiles-setup-dev"@.len() == 26);
    assert("systemd-tmpfiles-setup-dev-early"@.len() == 32);
    assert("systemd-udev-trigger"@.len() == 20);
    assert("systemd-update-utmp"@.len() == 19);
    assert("systemd-user-sessions"@.len() == 21);
    assert("systemd-remount-fs"@.len() == 18);
    assert("systemd-random-seed"@.len() == 19);
    assert("systemd-binfmt"@.len() == 14);
    assert("systemd-modules-load"@.len() == 20);
    assert("systemd-sysctl"@.len() == 14);
    assert("systemd-logind"@.len() == 14);
    assert("systemd-resolved"@.len() == 16);
    assert("systemd-journald"@.len() == 16);
    assert("systemd-logind"@[8] == 'l');
    assert("systemd-binfmt"@[8] == 'b');
    assert("systemd-sysctl"@[8] == 's');
}

/// The binary of a unit of systemd is looked for below its directory, under the name of the unit.
pub proof fn binaries_of_systemd_are_in_its_directory(unit: Seq<char>)
    ensures
        systemd_places(unit) == seq![
            "/usr/lib/systemd/"@ + unit,
            "/lib/systemd/"@ + unit,
        ],
{
}

/// A service of SMF goes by the last part of its name, without the instance.
pub proof fn a_service_of_smf_goes_by_its_last_part(p: Seq<Seq<char>>, instance: Seq<char>)
    requires
        p.len() > 0,
        p[0].len() > 0,
        !has_prefix(joined(p, seq!['/']) + seq![':'] + instance, "svc:/"@),
        forall|k: int| 0 <= k < p.len() ==> free_of(#[trigger] p[k], CharSet::Is('/')),
        free_of(joined(p, seq!['/']), CharSet::Is(':')),
        free_of(instance, CharSet::Is(':')),
    ensures
        smf_name("svc:/"@ + joined(p, seq!['/']) + seq![':'] + instance) == p[p.len() - 1],
{
    let path = joined(p, seq!['/']);
    let rest = path + seq![':'] + instance;
    let fmri = "svc:/"@ + path + seq![':'] + instance;
    reveal_strlit("svc:/");
    assert(fmri =~= "svc:/"@ + rest);
    assert(fmri.take(5) =~= "svc:/"@);
    assert(fmri.skip(5) =~= rest);
    assert(without_prefixes(rest, "svc:/"@) == rest);
    assert(without_prefixes(fmri, "svc:/"@) == rest);
    let q = seq![path, instance];
    joined_texts_are_the_pieces(q, ':');
    assert(q.drop_last() =~= seq![path]);
    assert(joined(seq![path], seq![':']) == path);
    assert(joined(q, seq![':']) == rest);
    joined_texts_are_the_pieces(p, '/');
}

/// A label goes by what stands behind its last point.
pub proof fn a_label_goes_by_its_last_part(p: Seq<Seq<char>>)
    requires
        p.len() > 0,
        forall|k: int| 0 <= k < p.len() ==> free_of(#[trigger] p[k], CharSet::Is('.')),
    ensures
        label_name(joined(p, seq!['.'])) == filled(p[p.len() - 1]),
{
    joined_texts_are_the_pieces(p, '.');
}

/// Of several owners of a file the first is taken, and what stands behind the colon is not.
pub proof fn the_first_owner_is_taken(owners: Seq<Seq<char>>, paths: Seq<char>)
    requires
        owners.len() > 0,
        forall|k: int| 0 <= k < owners.len() ==> free_of(#[trigger] owners[k], CharSet::Is(',')),
        free_of(joined(owners, seq![',']), CharSet::Is(':')),
        free_of(paths, CharSet::Is(':')),
    ensures
        plain_dpkg_owner(joined(owners, seq![',']) + seq![':'] + paths) == filled(owners[0]),
{
    let names = joined(owners, seq![',']);
    let q = seq![names, paths];
    joined_texts_are_the_pieces(q, ':');
    assert(q.drop_last() =~= seq![names]);
    assert(joined(seq![names], seq![':']) == names);
    assert(joined(q, seq![':']) == names + seq![':'] + paths);
    joined_texts_are_the_pieces(owners, ',');
}

/// A binary is asked for its version by the long option first.
pub proof fn the_long_option_is_asked_first()
    ensures
        version_flags_of().len() == 4,
        version_flags_of()[0] == "--version"@,
        version_flags_of()[1] == "-V"@,
        version_flags_of()[2] == "-v"@,
        version_flags_of()[3] == "version"@,
{
}

} // verus!
