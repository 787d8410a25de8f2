//! Which versions a threat affects, and which services it is about.

use vstd::prelude::*;

use crate::constraints::{
    all_hold, comparator_of, comparators_of, comparison, constraint_of, constraint_verdict, dotted_numbers,
    free_token_from, groups_under, groups_within, has_version_token, is_free_token, mentions_version,
    names_range_around, operator_of, piece_value, version_of, within, AT_MOST, BEFORE, BELOW, Comparison,
    FROM_THROUGH, FROM_TO, Operator, PRIOR_TO, PRIOR_TO_VERSION, RANGE_DASH, RANGE_THROUGH, RANGE_TO, THROUGH, UP_TO,
};
use crate::json::JsonView;
use crate::number::{all_digits, decimal, digit_value, digits_value, written_number_reads_back};
use crate::pattern::{group_text, groups_of};
use crate::service_lookup::{
    basis_of, concerning, concerns, enrichment_of, item_is_constraint, item_is_wildcard, item_verdict, names_service,
    plain_field, plain_name, some_item_gives, some_item_is_constraint, some_item_is_wildcard, threat_text, MatchBasis,
    ThreatTextView,
};
use crate::split::{
    all_words, free_of, is_word, joined, joined_texts_are_the_pieces, joined_words_are_the_words,
    joined_words_are_trimmed, words, words_are_words,
};
use crate::text::{
    after_prefix, has_prefix, is_digit, lemma_place_from, lowercase, occurs_at, place_from, trimmed, CharSet,
};
use crate::threat::ThreatView;

verus! {

// ── Versions ─────────────────────────────────────────────────────────────────

/// The numbers as a version has them: in decimal, with dots between them.
pub open spec fn dotted(v: Seq<u64>) -> Seq<char> {
    joined(Seq::new(v.len(), |i: int| decimal(v[i] as nat)), seq!['.'])
}

/// A version that was written is read back as that version.
pub proof fn a_written_version_reads_back(v: Seq<u64>)
    requires
        v.len() > 0,
    ensures
        dotted_numbers(dotted(v)) == v,
{
    let p = Seq::new(v.len(), |i: int| decimal(v[i] as nat));
    assert forall|i: int| 0 <= i < p.len() implies free_of(#[trigger] p[i], CharSet::Is('.'))
        && piece_value(p[i]) == v[i] by {
        let n = v[i] as nat;
        written_number_reads_back(n, 10);
        let w = decimal(n);
        assert(digit_value(w[0], 10) is Some);
        assert forall|k: int| 0 <= k < w.len() implies w[k] != '.' by {
            assert(digit_value(w[k], 10) is Some);
        }
    }
    joined_texts_are_the_pieces(p, '.');
    assert(dotted_numbers(dotted(v)) =~= v);
}

/// A number that is too great for a version counts as the greatest that is not, so that it is
/// no lower than any other.
pub proof fn a_great_number_stays_great(p: Seq<char>, n: u64)
    requires
        p.len() > 0,
        all_digits(p, 10),
        digits_value(p, 10) >= n,
    ensures
        piece_value(p) >= n,
{
    assert(digit_value(p[0], 10) is Some);
}

// ── Comparators ──────────────────────────────────────────────────────────────

proof fn lemma_one_word(t: Seq<char>)
    requires
        is_word(t),
    ensures
        words(t) == seq![t],
        trimmed(t) == t,
{
    let w = seq![t];
    assert(all_words(w));
    reveal_with_fuel(joined, 2);
    assert(w.drop_last() =~= Seq::<Seq<char>>::empty());
    assert(joined(w, seq![' ']) =~= t);
    joined_words_are_the_words(w);
    joined_words_are_trimmed(w);
}

proof fn lemma_verdict_on_word(t: Seq<char>, target: Seq<u64>)
    requires
        is_word(t),
    ensures
        constraint_verdict(t, target) == match comparator_of(t) {
            Some(c) => Some(c.holds(target)),
            None => None,
        },
{
    lemma_one_word(t);
    let w = seq![t];
    reveal_with_fuel(comparators_of, 2);
    assert(w.drop_last() =~= Seq::<Seq<char>>::empty());
    assert(w.last() == t);
    if let Some(c) = comparator_of(t) {
        let s = constraint_of(t)->0;
        assert(s =~= seq![c]);
        assert(s[0] == c);
    }
}

proof fn lemma_word_with_operator(op: Seq<char>, rest: Seq<char>)
    requires
        is_word(rest),
        is_word(op),
    ensures
        is_word(op + rest),
        after_prefix(op + rest, op) == Some(rest),
{
    let t = op + rest;
    assert forall|i: int| 0 <= i < t.len() implies !CharSet::Space.has(#[trigger] t[i]) by {
        if i < op.len() {
            assert(t[i] == op[i]);
        } else {
            assert(t[i] == rest[i - op.len()]);
        }
    }
    assert(t.take(op.len() as int) =~= op);
    assert(t.skip(op.len() as int) =~= rest);
}

/// A comparator says which versions are affected: those before the version that it names,
/// those after it, those that equal it, and with an equals sign in it that version too. The
/// version alone says what it says with an equals sign, and the asterisk that all are.
pub proof fn an_operator_says_which_versions(rest: Seq<char>, v: Seq<u64>, target: Seq<u64>)
    requires
        is_word(rest),
        rest[0] != '<',
        rest[0] != '>',
        rest[0] != '=',
        rest != "*"@,
        version_of(rest) == Some(v),
    ensures
        constraint_verdict("<"@ + rest, target) == Some(comparison(target, v) == Comparison::Less),
        constraint_verdict(">"@ + rest, target) == Some(
            comparison(target, v) == Comparison::Greater,
        ),
        constraint_verdict("="@ + rest, target) == Some(comparison(target, v) == Comparison::Equal),
        constraint_verdict(rest, target) == Some(comparison(target, v) == Comparison::Equal),
        constraint_verdict("<="@ + rest, target) == Some(
            comparison(target, v) == Comparison::Less || comparison(target, v) == Comparison::Equal,
        ),
        constraint_verdict(">="@ + rest, target) == Some(
            comparison(target, v) == Comparison::Greater || comparison(target, v)
                == Comparison::Equal,
        ),
        constraint_verdict("*"@, target) == Some(true),
{
    reveal_strlit("<");
    reveal_strlit(">");
    reveal_strlit("=");
    reveal_strlit("<=");
    reveal_strlit(">=");
    reveal_strlit("*");
    assert(is_word("<"@) && is_word(">"@) && is_word("="@) && is_word("<="@) && is_word(">="@)
        && is_word("*"@));
    lemma_token("<"@, rest, Operator::Lt);
    lemma_token(">"@, rest, Operator::Gt);
    lemma_token("="@, rest, Operator::Eq);
    lemma_token("<="@, rest, Operator::Le);
    lemma_token(">="@, rest, Operator::Ge);
    lemma_verdict_on_word("<"@ + rest, target);
    lemma_verdict_on_word(">"@ + rest, target);
    lemma_verdict_on_word("="@ + rest, target);
    lemma_verdict_on_word("<="@ + rest, target);
    lemma_verdict_on_word(">="@ + rest, target);
    lemma_verdict_on_word(rest, target);
    lemma_verdict_on_word("*"@, target);
    lemma_one_word(rest);
    lemma_one_word("*"@);
    lemma_no_operator(rest);
}

proof fn lemma_no_operator(rest: Seq<char>)
    requires
        rest.len() > 0,
        rest[0] != '<',
        rest[0] != '>',
        rest[0] != '=',
    ensures
        operator_of(rest) == (Operator::Eq, rest),
{
    reveal_strlit("<");
    reveal_strlit(">");
    reveal_strlit("=");
    reveal_strlit("<=");
    reveal_strlit(">=");
    lemma_not_prefix(rest, ">="@);
    lemma_not_prefix(rest, "<="@);
    lemma_not_prefix(rest, ">"@);
    lemma_not_prefix(rest, "<"@);
    lemma_not_prefix(rest, "="@);
}

proof fn lemma_not_prefix(s: Seq<char>, p: Seq<char>)
    requires
        p.len() > 0,
        s.len() > 0,
        p[0] != s[0],
    ensures
        after_prefix(s, p) is None,
{
    if has_prefix(s, p) {
        assert(s.take(p.len() as int)[0] == p[0]);
    }
}

proof fn lemma_token(op: Seq<char>, rest: Seq<char>, o: Operator)
    requires
        is_word(rest),
        rest[0] != '=',
        (op == "<"@ && o == Operator::Lt) || (op == ">"@ && o == Operator::Gt) || (op == "="@ && o
            == Operator::Eq) || (op == "<="@ && o == Operator::Le) || (op == ">="@ && o
            == Operator::Ge),
    ensures
        is_word(op + rest),
        trimmed(op + rest) == op + rest,
        operator_of(op + rest) == (o, rest),
        op + rest != "*"@,
{
    reveal_strlit("<");
    reveal_strlit(">");
    reveal_strlit("=");
    reveal_strlit("<=");
    reveal_strlit(">=");
    reveal_strlit("*");
    assert(is_word(op));
    lemma_word_with_operator(op, rest);
    lemma_one_word(op + rest);
    let t = op + rest;
    assert(t[0] == op[0]);
    assert("*"@[0] == '*');
    if op.len() == 1 {
        assert(t[1] == rest[0]);
        assert(after_prefix(t, ">="@) is None) by {
            if has_prefix(t, ">="@) {
                assert(t.take(2)[1] == '=');
            }
        }
        assert(after_prefix(t, "<="@) is None) by {
            if has_prefix(t, "<="@) {
                assert(t.take(2)[1] == '=');
            }
        }
        if op == "<"@ {
            lemma_not_prefix(t, ">"@);
        } else if op == "="@ {
            lemma_not_prefix(t, ">"@);
            lemma_not_prefix(t, "<"@);
        }
    } else if op == "<="@ {
        lemma_not_prefix(t, ">="@);
    }
}

proof fn lemma_comparators(tokens: Seq<Seq<char>>)
    ensures
        match comparators_of(tokens) {
            Some(c) => c.len() == tokens.len() && forall|i: int|
                0 <= i < tokens.len() ==> comparator_of(#[trigger] tokens[i]) == Some(c[i]),
            None => exists|i: int|
                0 <= i < tokens.len() && comparator_of(#[trigger] tokens[i]) is None,
        },
    decreases tokens.len(),
{
    if tokens.len() > 0 {
        let d = tokens.drop_last();
        lemma_comparators(d);
        match comparators_of(d) {
            Some(s) => {
                assert(tokens.last() == tokens[tokens.len() - 1]);
                if let Some(c) = comparators_of(tokens) {
                    assert forall|i: int| 0 <= i < tokens.len() implies comparator_of(
                        #[trigger] tokens[i],
                    ) == Some(c[i]) by {
                        if i < d.len() {
                            assert(d[i] == tokens[i]);
                        }
                    }
                }
            },
            None => {
                let i = choose|i: int|
                    0 <= i < d.len() && comparator_of(#[trigger] d[i]) is None;
                assert(tokens[i] == d[i]);
            },
        }
    }
}

/// A constraint of several comparators holds where each of them does by itself, and is none
/// where one of them is none.
pub proof fn a_constraint_is_all_of_its_comparators(element: Seq<char>, target: Seq<u64>)
    ensures
        constraint_verdict(element, target) is None <==> words(element).len() == 0 || exists|i: int|
            0 <= i < words(element).len() && constraint_verdict(
                #[trigger] words(element)[i],
                target,
            ) is None,
        constraint_verdict(element, target) == Some(true) <==> words(element).len() > 0 && forall|
            i: int,
        |
            0 <= i < words(element).len() ==> constraint_verdict(
                #[trigger] words(element)[i],
                target,
            ) == Some(true),
{
    let w = words(element);
    words_are_words(element);
    lemma_comparators(w);
    assert forall|i: int| 0 <= i < w.len() implies constraint_verdict(#[trigger] w[i], target)
        == match comparator_of(w[i]) {
        Some(c) => Some(c.holds(target)),
        None => None,
    } by {
        assert(is_word(w[i]));
        lemma_verdict_on_word(w[i], target);
    }
    if w.len() > 0 {
        match comparators_of(w) {
            Some(c) => {
                if all_hold(c, target) {
                    assert forall|i: int| 0 <= i < w.len() implies constraint_verdict(
                        #[trigger] w[i],
                        target,
                    ) == Some(true) by {
                        assert(c[i].holds(target));
                    }
                } else {
                    let i = choose|i: int| 0 <= i < c.len() && !(#[trigger] c[i]).holds(target);
                    assert(constraint_verdict(w[i], target) == Some(false));
                }
            },
            None => {
                let i = choose|i: int| 0 <= i < w.len() && comparator_of(#[trigger] w[i]) is None;
                assert(constraint_verdict(w[i], target) is None);
            },
        }
    }
}

// ── Prose ────────────────────────────────────────────────────────────────────

/// A version that first stands in a text with neither a digit nor a dot on either side is
/// found.
pub proof fn a_free_version_is_found(h: Seq<char>, n: Seq<char>, i: int)
    requires
        n.len() > 0,
        occurs_at(h, n, i),
        forall|k: int| 0 <= k < i ==> !occurs_at(h, n, k),
        i == 0 || !(is_digit(h[i - 1]) || h[i - 1] == '.'),
        i + n.len() == h.len() || !(is_digit(h[i + n.len()]) || h[i + n.len()] == '.'),
    ensures
        has_version_token(h, n),
{
    lemma_place_from(h, n, 0);
    assert(place_from(h, n, 0) == Some(i));
    assert(is_free_token(h, i, n.len()));
}

/// Whether the first match of a pattern names a bound that the version lies below.
pub open spec fn lies_below(pattern: Seq<char>, text: Seq<char>, target: Seq<u64>) -> bool {
    group_text(groups_of(pattern, text), 1) matches Some(b) && version_of(b) matches Some(hi)
        && comparison(target, hi) == Comparison::Less
}

/// Whether the first match of a pattern names a bound that the version equals.
pub open spec fn lies_at(pattern: Seq<char>, text: Seq<char>, target: Seq<u64>) -> bool {
    group_text(groups_of(pattern, text), 1) matches Some(b) && version_of(b) matches Some(hi)
        && comparison(target, hi) == Comparison::Equal
}

/// Whether the first match of a pattern names two bounds that the version lies between, they
/// not counted out.
pub open spec fn lies_between(pattern: Seq<char>, text: Seq<char>, target: Seq<u64>) -> bool {
    &&& group_text(groups_of(pattern, text), 1) matches Some(a) && version_of(a) matches Some(lo)
        && comparison(lo, target) != Comparison::Greater
    &&& group_text(groups_of(pattern, text), 2) matches Some(b) && version_of(b) matches Some(hi)
        && comparison(target, hi) != Comparison::Greater
}

/// A text affects the versions below the bounds that it names, those between two bounds, and
/// the bound itself where it counts as affected: after `up to`, `through` and `<=`, and not
/// after `prior to`, `before` and `<`.
pub proof fn bounds_in_prose_say_which_versions(text: Seq<char>, target: Seq<u64>)
    ensures
        names_range_around(text, target) <==> {
            ||| lies_between(RANGE_THROUGH@, text, target)
            ||| lies_between(RANGE_TO@, text, target)
            ||| lies_between(RANGE_DASH@, text, target)
            ||| lies_between(FROM_THROUGH@, text, target)
            ||| lies_between(FROM_TO@, text, target)
            ||| lies_below(PRIOR_TO_VERSION@, text, target)
            ||| lies_below(PRIOR_TO@, text, target)
            ||| lies_below(BEFORE@, text, target)
            ||| lies_below(BELOW@, text, target)
            ||| lies_below(UP_TO@, text, target)
            ||| lies_below(THROUGH@, text, target)
            ||| lies_below(AT_MOST@, text, target)
            ||| lies_at(UP_TO@, text, target)
            ||| lies_at(THROUGH@, text, target)
            ||| lies_at(AT_MOST@, text, target)
        },
{
    assert forall|p: Seq<char>| groups_under(#[trigger] groups_of(p, text), target, false)
        <==> lies_below(p, text, target) by {}
    assert forall|p: Seq<char>| groups_under(#[trigger] groups_of(p, text), target, true)
        <==> lies_below(p, text, target) || lies_at(p, text, target) by {}
    assert forall|p: Seq<char>| groups_within(#[trigger] groups_of(p, text), target)
        <==> lies_between(p, text, target) by {}
}

/// The bounds of a range belong to it, and what is outside of either does not.
pub proof fn a_range_has_its_bounds(lo: Seq<u64>, hi: Seq<u64>, target: Seq<u64>)
    ensures
        comparison(lo, target) == Comparison::Greater ==> !within(lo, hi, target),
        comparison(target, hi) == Comparison::Greater ==> !within(lo, hi, target),
        comparison(lo, target) == Comparison::Equal && comparison(target, hi) != Comparison::Greater
            ==> within(lo, hi, target),
        comparison(target, hi) == Comparison::Equal && comparison(lo, target) != Comparison::Greater
            ==> within(lo, hi, target),
        comparison(lo, target) == Comparison::Less && comparison(target, hi) == Comparison::Less
            ==> within(lo, hi, target),
{
}

// ── Does a threat affect a version ───────────────────────────────────────────

/// Whether an item of `affectedVersions` is a constraint that can be read.
pub open spec fn is_readable(item: JsonView) -> bool {
    item matches JsonView::Text(s) && {
        let t = trimmed(s);
        &&& t.len() > 0
        &&& lowercase(t) != "unspecified"@
        &&& lowercase(t) != "n/a"@
        &&& lowercase(t) != "unknown"@
        &&& constraint_of(t) is Some
    }
}

/// Whether an item of `affectedVersions` is a constraint that can be read and holds of a
/// version.
pub open spec fn is_met(item: JsonView, v: Seq<u64>) -> bool {
    is_readable(item) && constraint_verdict(trimmed(item->Text_0), v) == Some(true)
}

proof fn lemma_items(items: Seq<JsonView>, v: Seq<u64>)
    ensures
        some_item_gives(items, v, true) <==> exists|i: int|
            0 <= i < items.len() && is_met(#[trigger] items[i], v),
        (exists|i: int| 0 <= i < items.len() && is_readable(#[trigger] items[i]))
            <==> some_item_gives(items, v, true) || some_item_gives(items, v, false),
{
    assert forall|i: int| 0 <= i < items.len() implies (item_verdict(#[trigger] items[i], v)
        == Some(true) <==> is_met(items[i], v)) && (item_verdict(items[i], v) is Some
        <==> is_readable(items[i])) by {}
    if exists|i: int| 0 <= i < items.len() && is_readable(#[trigger] items[i]) {
        let i = choose|i: int| 0 <= i < items.len() && is_readable(#[trigger] items[i]);
        assert(item_verdict(items[i], v) == Some(true) || item_verdict(items[i], v) == Some(false));
    }
}

/// Where a constraint can be read, the constraints decide by themselves: the threat affects the
/// version if one of them holds of it, and does not if none does, whatever the prose says.
pub proof fn constraints_decide_over_prose(
    threat: JsonView,
    raw: Seq<char>,
    items: Seq<JsonView>,
    v: Seq<u64>,
)
    requires
        threat.member_items("affectedVersions"@) == Some(items),
        version_of(raw) == Some(v),
        exists|i: int| 0 <= i < items.len() && is_readable(#[trigger] items[i]),
    ensures
        basis_of(threat, raw) == Some(MatchBasis::Constraint) <==> exists|i: int|
            0 <= i < items.len() && is_met(#[trigger] items[i], v),
        basis_of(threat, raw) is None <==> forall|i: int|
            0 <= i < items.len() ==> !is_met(#[trigger] items[i], v),
        basis_of(threat, raw) != Some(MatchBasis::FreeText),
{
    lemma_items(items, v);
}

/// Two threats that have the same constraints, one of which can be read, affect the same
/// versions, however their descriptions and enrichments differ.
pub proof fn prose_changes_nothing_beside_a_constraint(
    a: JsonView,
    b: JsonView,
    raw: Seq<char>,
    items: Seq<JsonView>,
)
    requires
        a.member_items("affectedVersions"@) == Some(items),
        b.member_items("affectedVersions"@) == Some(items),
        exists|i: int| 0 <= i < items.len() && is_readable(#[trigger] items[i]),
    ensures
        basis_of(a, raw) == basis_of(b, raw),
        basis_of(a, raw) != Some(MatchBasis::FreeText),
{
    match version_of(raw) {
        Some(v) => {
            lemma_items(items, v);
        },
        None => {
            let i = choose|i: int| 0 <= i < items.len() && is_readable(#[trigger] items[i]);
            assert(item_is_constraint(items[i]));
            assert(some_item_is_constraint(items));
        },
    }
}

/// Without a constraint that can be read the prose decides alone: the threat affects the
/// version by it or not at all, and as another threat with the same prose does.
pub proof fn prose_decides_without_a_constraint(a: JsonView, b: JsonView, raw: Seq<char>, v: Seq<u64>)
    requires
        version_of(raw) == Some(v),
        a.member_items("affectedVersions"@) matches Some(items) ==> forall|i: int|
            0 <= i < items.len() ==> !is_readable(#[trigger] items[i]),
        b.member_items("affectedVersions"@) matches Some(items) ==> forall|i: int|
            0 <= i < items.len() ==> !is_readable(#[trigger] items[i]),
        plain_field(a, "description"@) == plain_field(b, "description"@),
        enrichment_of(a) == enrichment_of(b),
    ensures
        basis_of(a, raw) == basis_of(b, raw),
        basis_of(a, raw) != Some(MatchBasis::Constraint),
        basis_of(a, raw) == Some(MatchBasis::FreeText) <==> mentions_version(
            plain_field(a, "description"@) + "\n"@ + enrichment_of(a),
            v,
            raw,
        ),
{
    if let Some(items) = a.member_items("affectedVersions"@) {
        lemma_items(items, v);
    }
    if let Some(items) = b.member_items("affectedVersions"@) {
        lemma_items(items, v);
    }
}

/// A version that could not be read is affected where all versions are, and by no other
/// constraint.
pub proof fn all_versions_include_one_that_cannot_be_read(
    threat: JsonView,
    raw: Seq<char>,
    items: Seq<JsonView>,
)
    requires
        threat.member_items("affectedVersions"@) == Some(items),
        version_of(raw) is None,
    ensures
        basis_of(threat, raw) == Some(MatchBasis::Constraint) <==> exists|i: int|
            0 <= i < items.len() && (#[trigger] items[i] matches JsonView::Text(s) && trimmed(s)
                == "*"@),
{
    assert forall|i: int| 0 <= i < items.len() implies (item_is_wildcard(#[trigger] items[i])
        <==> (items[i] matches JsonView::Text(s) && trimmed(s) == "*"@)) by {}
    if some_item_is_wildcard(items) {
        let i = choose|i: int| 0 <= i < items.len() && item_is_wildcard(#[trigger] items[i]);
        assert(items[i] matches JsonView::Text(s) && trimmed(s) == "*"@);
    }
}

// ── Does a threat concern a service ──────────────────────────────────────────

/// A threat whose product is the service, or names it as a word of its own, is about the
/// service; so is one without a product whose vendor is.
pub proof fn a_threat_is_about_its_product(t: ThreatTextView, service: Seq<char>)
    ensures
        t.product == service ==> concerns(t, service),
        names_service(t.product, service) ==> concerns(t, service),
        t.product.len() == 0 && t.vendor == service ==> concerns(t, service),
{
}

/// A threat that names another product is not about the service, whatever its vendor and its
/// prose are.
pub proof fn a_threat_of_another_product_is_not_about_the_service(
    t: ThreatTextView,
    service: Seq<char>,
)
    requires
        t.product.len() > 0,
        t.product != "n/a"@,
        t.product != "unknown"@,
        t.product != "none"@,
        t.product != service,
        !names_service(t.product, service),
    ensures
        !concerns(t, service),
{
}

/// Of the threats that a search finds those that are about the service are kept, and no
/// others.
pub proof fn threats_about_the_service_are_kept(
    ts: Seq<ThreatView>,
    service: Seq<char>,
    t: ThreatView,
)
    ensures
        concerning(ts, service).contains(t) <==> ts.contains(t) && concerns(
            threat_text(t.body),
            plain_name(service),
        ),
        concerning(ts, service).len() <= ts.len(),
    decreases ts.len(),
{
    if ts.len() > 0 {
        let d = ts.drop_last();
        threats_about_the_service_are_kept(d, service, t);
        let a = concerning(ts, service);
        let b = concerning(d, service);
        if a.contains(t) {
            let k = choose|k: int| 0 <= k < a.len() && a[k] == t;
            if k < b.len() {
                assert(b[k] == t);
                let m = choose|m: int| 0 <= m < d.len() && d[m] == t;
                assert(ts[m] == t);
            } else {
                assert(ts[ts.len() - 1] == t);
            }
        }
        if ts.contains(t) && concerns(threat_text(t.body), plain_name(service)) {
            let m = choose|m: int| 0 <= m < ts.len() && ts[m] == t;
            if m < d.len() {
                assert(d[m] == t);
                let k = choose|k: int| 0 <= k < b.len() && b[k] == t;
                assert(a[k] == t);
            } else {
                assert(a[a.len() - 1] == t);
            }
        }
    }
}

/// The fields that say what a threat is about are its vendor, product, title and description,
/// whatever their case, and its enrichment.
pub proof fn a_threat_says_what_it_is_about(threat: JsonView)
    ensures
        threat.member_text("product"@) matches Some(s) ==> threat_text(threat).product == trimmed(
            lowercase(s),
        ),
        threat.member_text("vendorProject"@) matches Some(s) ==> threat_text(threat).vendor
            == trimmed(lowercase(s)),
        threat.member_text("title"@) matches Some(s) ==> threat_text(threat).title == trimmed(
            lowercase(s),
        ),
        threat.member_text("description"@) matches Some(s) ==> threat_text(threat).desc == trimmed(
            lowercase(s),
        ),
        threat_text(threat).enrich == lowercase(enrichment_of(threat)),
{
}

/// A version that stands in a text only with a digit or a dot on one side or the other is not found.
pub proof fn a_version_is_found_only_where_it_stands_free(h: Seq<char>, n: Seq<char>)
    ensures
        has_version_token(h, n) ==> n.len() > 0 && exists|i: int| #[trigger]
            occurs_at(h, n, i) && (i == 0 || !(is_digit(h[i - 1]) || h[i - 1] == '.')) && (i + n.len()
                >= h.len() || !(is_digit(h[i + n.len()]) || h[i + n.len()] == '.')),
{
    if has_version_token(h, n) {
        lemma_free_token(h, n, 0);
    }
}

proof fn lemma_free_token(h: Seq<char>, n: Seq<char>, start: int)
    requires
        0 <= start,
        free_token_from(h, n, start),
    ensures
        exists|i: int| #[trigger]
            occurs_at(h, n, i) && (i == 0 || !(is_digit(h[i - 1]) || h[i - 1] == '.')) && (i + n.len()
                >= h.len() || !(is_digit(h[i + n.len()]) || h[i + n.len()] == '.')),
    decreases h.len() - start,
{
    lemma_place_from(h, n, start);
    let i = place_from(h, n, start)->0;
    assert(occurs_at(h, n, i));
    if !is_free_token(h, i, n.len()) {
        lemma_free_token(h, n, i + n.len());
    }
}

} // verus!
