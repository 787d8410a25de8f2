//! Versions, and the constraints that say which versions a threat affects.
//!
//! A constraint is a list of comparators, all of which must hold:
//!
//! - `*` every version
//! - `=1.2.3` (or `1.2.3`) this version
//! - `<2.4.49`, `<=2.4.48`, `>2.0.0`, `>=2.0.0` versions on one side of it
//! - `>=2.0.0 <2.5.2` versions between

use vstd::prelude::*;
use vstd::std_specs::cmp::{PartialEqSpecImpl, PartialOrdSpecImpl};
use std::cmp::Ordering;

use crate::number::{number, parse_u64};
use crate::pattern::{captures, group, group_text, groups_of, replace_match, replaced_match};
use crate::split::{pieces, split, split_whitespace, words};
use crate::text::{
    after_prefix, char_is_digit, chars_of, find_in, is_digit, lemma_place_from, lowercase, occurs_at, own, place_from,
    same, strip_prefix, to_lowercase, trim, trimmed, views, CharSet,
};

verus! {

/// A run of numbers with dots between them.
pub const VERSION_PATTERN: &'static str = r"\d+(?:\.\d+)*";

/// A number and a colon at the start: the epoch of a distribution's package.
pub const EPOCH_PATTERN: &'static str = r"^\s*\d+:";

// ── Versions ─────────────────────────────────────────────────────────────────

/// Where one version stands to another.
#[derive(Debug, Clone, Copy, PartialEq, Eq, Structural)]
pub enum Comparison {
    Less,
    Equal,
    Greater,
}

/// A version: its numbers, from the most to the least significant.
#[derive(Debug, Clone)]
pub struct Version(Vec<u64>);

impl View for Version {
    type V = Seq<u64>;

    closed spec fn view(&self) -> Seq<u64> {
        self.0@
    }
}

/// The number at the place `i`; a version goes on with zeros.
pub open spec fn component(v: Seq<u64>, i: int) -> u64 {
    if 0 <= i < v.len() {
        v[i]
    } else {
        0
    }
}

pub open spec fn longer(a: Seq<u64>, b: Seq<u64>) -> nat {
    if a.len() < b.len() {
        b.len()
    } else {
        a.len()
    }
}

/// How the versions compare by their numbers from the place `i` on.
pub open spec fn comparison_from(a: Seq<u64>, b: Seq<u64>, i: int) -> Comparison
    decreases longer(a, b) - i,
{
    if i >= longer(a, b) {
        Comparison::Equal
    } else if component(a, i) < component(b, i) {
        Comparison::Less
    } else if component(a, i) > component(b, i) {
        Comparison::Greater
    } else {
        comparison_from(a, b, i + 1)
    }
}

/// How the versions compare: by the first number in which they differ.
pub open spec fn comparison(a: Seq<u64>, b: Seq<u64>) -> Comparison {
    comparison_from(a, b, 0)
}

/// Whether `k` is the first place at which the versions differ.
pub open spec fn differ_first_at(a: Seq<u64>, b: Seq<u64>, k: int) -> bool {
    &&& 0 <= k
    &&& component(a, k) != component(b, k)
    &&& forall|j: int| 0 <= j < k ==> component(a, j) == component(b, j)
}

proof fn lemma_comparison_from(a: Seq<u64>, b: Seq<u64>, i: int)
    requires
        0 <= i,
        forall|j: int| 0 <= j < i ==> component(a, j) == component(b, j),
    ensures
        match comparison_from(a, b, i) {
            Comparison::Equal => forall|j: int| 0 <= j ==> component(a, j) == component(b, j),
            Comparison::Less => exists|k: int|
                #![trigger component(a, k)]
                differ_first_at(a, b, k) && component(a, k) < component(b, k),
            Comparison::Greater => exists|k: int|
                #![trigger component(a, k)]
                differ_first_at(a, b, k) && component(a, k) > component(b, k),
        },
    decreases longer(a, b) - i,
{
    if i < longer(a, b) {
        if component(a, i) == component(b, i) {
            lemma_comparison_from(a, b, i + 1);
        } else {
            assert(differ_first_at(a, b, i));
        }
    }
}

/// Versions are equal exactly when all their numbers are, zeros at the end left
/// out; otherwise the first number in which they differ decides.
pub proof fn comparison_by_first_difference(a: Seq<u64>, b: Seq<u64>, k: int)
    ensures
        comparison(a, b) == Comparison::Equal <==> forall|j: int|
            0 <= j ==> component(a, j) == component(b, j),
        differ_first_at(a, b, k) ==> comparison(a, b) == (if component(a, k) < component(b, k) {
            Comparison::Less
        } else {
            Comparison::Greater
        }),
{
    lemma_comparison_from(a, b, 0);
    if differ_first_at(a, b, k) {
        match comparison(a, b) {
            Comparison::Equal => {
                assert(component(a, k) == component(b, k));
            },
            Comparison::Less => {
                let m = choose|m: int|
                    #![trigger component(a, m)]
                    differ_first_at(a, b, m) && component(a, m) < component(b, m);
                assert(m == k) by {
                    if m < k {
                        assert(component(a, m) == component(b, m));
                    }
                    if k < m {
                        assert(component(a, k) == component(b, k));
                    }
                }
            },
            Comparison::Greater => {
                let m = choose|m: int|
                    #![trigger component(a, m)]
                    differ_first_at(a, b, m) && component(a, m) > component(b, m);
                assert(m == k) by {
                    if m < k {
                        assert(component(a, m) == component(b, m));
                    }
                    if k < m {
                        assert(component(a, k) == component(b, k));
                    }
                }
            },
        }
    }
}

/// A zero at the end of a version changes no comparison.
pub proof fn trailing_zero_is_nothing(a: Seq<u64>, b: Seq<u64>)
    ensures
        comparison(a.push(0), a) == Comparison::Equal,
        comparison(a.push(0), b) == comparison(a, b),
        comparison(b, a.push(0)) == comparison(b, a),
{
    let z = a.push(0);
    assert forall|j: int| 0 <= j implies component(z, j) == component(a, j) by {}
    comparison_by_first_difference(z, a, 0);
    lemma_comparison_same(z, a, b, 0);
}

proof fn lemma_comparison_same(a: Seq<u64>, c: Seq<u64>, b: Seq<u64>, k: int)
    requires
        forall|j: int| 0 <= j ==> component(a, j) == component(c, j),
    ensures
        comparison(a, b) == comparison(c, b),
        comparison(b, a) == comparison(b, c),
{
    comparison_reversed(a, b);
    comparison_reversed(c, b);
    lemma_comparison_from(a, b, 0);
    lemma_comparison_from(c, b, 0);
    match comparison(a, b) {
        Comparison::Equal => {
            comparison_by_first_difference(c, b, 0);
            assert forall|j: int| 0 <= j implies component(c, j) == component(b, j) by {
                assert(component(a, j) == component(b, j));
            }
        },
        Comparison::Less => {
            let m = choose|m: int|
                #![trigger component(a, m)]
                differ_first_at(a, b, m) && component(a, m) < component(b, m);
            assert(differ_first_at(c, b, m));
            comparison_by_first_difference(c, b, m);
        },
        Comparison::Greater => {
            let m = choose|m: int|
                #![trigger component(a, m)]
                differ_first_at(a, b, m) && component(a, m) > component(b, m);
            assert(differ_first_at(c, b, m));
            comparison_by_first_difference(c, b, m);
        },
    }
}

/// Comparing the other way round turns the answer round.
pub proof fn comparison_reversed(a: Seq<u64>, b: Seq<u64>)
    ensures
        comparison(a, b) == Comparison::Less <==> comparison(b, a) == Comparison::Greater,
        comparison(a, b) == Comparison::Equal <==> comparison(b, a) == Comparison::Equal,
{
    lemma_reversed_from(a, b, 0);
}

proof fn lemma_reversed_from(a: Seq<u64>, b: Seq<u64>, i: int)
    ensures
        comparison_from(a, b, i) == Comparison::Less <==> comparison_from(b, a, i)
            == Comparison::Greater,
        comparison_from(a, b, i) == Comparison::Equal <==> comparison_from(b, a, i)
            == Comparison::Equal,
    decreases longer(a, b) - i,
{
    if i < longer(a, b) {
        lemma_reversed_from(a, b, i + 1);
    }
}

/// A version before one that is before or equal to a third is before the third.
pub proof fn comparison_transitive(a: Seq<u64>, b: Seq<u64>, c: Seq<u64>)
    requires
        comparison(a, b) == Comparison::Less,
        comparison(b, c) != Comparison::Greater,
    ensures
        comparison(a, c) == Comparison::Less,
{
    lemma_comparison_from(a, b, 0);
    lemma_comparison_from(b, c, 0);
    let k = choose|k: int|
        #![trigger component(a, k)]
        differ_first_at(a, b, k) && component(a, k) < component(b, k);
    if comparison(b, c) == Comparison::Equal {
        assert(component(b, k) == component(c, k));
        assert forall|j: int| 0 <= j < k implies component(a, j) == component(c, j) by {
            assert(component(b, j) == component(c, j));
        }
        assert(differ_first_at(a, c, k));
        comparison_by_first_difference(a, c, k);
    } else {
        let m = choose|m: int|
            #![trigger component(b, m)]
            differ_first_at(b, c, m) && component(b, m) < component(c, m);
        let f = if k < m {
            k
        } else {
            m
        };
        assert forall|j: int| 0 <= j < f implies component(a, j) == component(c, j) by {
            assert(component(a, j) == component(b, j));
            assert(component(b, j) == component(c, j));
        }
        if k < m {
            assert(component(b, k) == component(c, k));
        } else if m < k {
            assert(component(a, m) == component(b, m));
        }
        assert(component(a, f) < component(c, f));
        assert(differ_first_at(a, c, f));
        comparison_by_first_difference(a, c, f);
    }
}

/// The number that a piece of a version writes; what does not fit counts as the
/// greatest number.
pub open spec fn piece_value(p: Seq<char>) -> u64 {
    match number(p, 10, u64::MAX as nat) {
        Some(n) => n as u64,
        None => u64::MAX,
    }
}

/// The numbers of a dotted run.
pub open spec fn dotted_numbers(m: Seq<char>) -> Seq<u64> {
    let p = pieces(m, CharSet::Is('.'));
    Seq::new(p.len(), |i: int| piece_value(p[i]))
}

/// The first dotted run of numbers in a text, behind an epoch.
pub open spec fn version_run(text: Seq<char>) -> Option<Seq<char>> {
    group_text(
        groups_of(VERSION_PATTERN@, replaced_match(EPOCH_PATTERN@, text, Seq::empty())),
        0,
    )
}

/// The version that a text names.
pub open spec fn version_of(text: Seq<char>) -> Option<Seq<u64>> {
    match version_run(text) {
        Some(m) => Some(dotted_numbers(m)),
        None => None,
    }
}

pub open spec fn opt_version(v: Option<Version>) -> Option<Seq<u64>> {
    match v {
        Some(x) => Some(x@),
        None => None,
    }
}

impl Version {
    /// The first dotted run of numbers in `text`, behind an epoch. A number that
    /// does not fit in 64 bits counts as the greatest that does, since to leave it
    /// out would move the numbers behind it.
    pub fn parse(text: &str) -> (r: Option<Version>)
        ensures
            opt_version(r) == version_of(text@),
    {
        let stripped = replace_match(EPOCH_PATTERN, text, "");
        proof {
            reveal_strlit("");
            assert(""@ =~= Seq::empty());
        }
        let groups = captures(VERSION_PATTERN, stripped.as_str());
        match group(&groups, 0) {
            Some(m) => Some(Version::from_run(m)),
            None => None,
        }
    }

    /// The version that a dotted run of numbers writes.
    pub fn from_run(m: &str) -> (r: Version)
        ensures
            r@ == dotted_numbers(m@),
    {
        let p = split(m, CharSet::Is('.'));
        let ghost q = views(p@);
        let mut out: Vec<u64> = Vec::new();
        let mut i: usize = 0;
        while i < p.len()
            invariant
                i <= p@.len(),
                q == views(p@),
                out@.len() == i,
                forall|k: int| 0 <= k < i ==> #[trigger] out@[k] == piece_value(q[k]),
            decreases p@.len() - i,
        {
            let n: u64 = match parse_u64(p[i].as_str()) {
                Some(n) => n,
                None => u64::MAX,
            };
            out.push(n);
            i += 1;
        }
        let r = Version(out);
        assert(r@ =~= dotted_numbers(m@));
        r
    }

    /// How the version compares to another.
    pub fn compare(&self, other: &Version) -> (r: Comparison)
        ensures
            r == comparison(self@, other@),
    {
        let n: usize = if self.0.len() < other.0.len() {
            other.0.len()
        } else {
            self.0.len()
        };
        let mut i: usize = 0;
        while i < n
            invariant
                i <= n,
                n == longer(self@, other@),
                comparison(self@, other@) == comparison_from(self@, other@, i as int),
            decreases n - i,
        {
            let a: u64 = if i < self.0.len() {
                self.0[i]
            } else {
                0
            };
            let b: u64 = if i < other.0.len() {
                other.0[i]
            } else {
                0
            };
            if a < b {
                return Comparison::Less;
            }
            if a > b {
                return Comparison::Greater;
            }
            i += 1;
        }
        Comparison::Equal
    }
}

impl PartialEq for Version {
    fn eq(&self, other: &Self) -> (r: bool) {
        self.compare(other) == Comparison::Equal
    }
}

impl PartialEqSpecImpl for Version {
    open spec fn obeys_eq_spec() -> bool {
        true
    }

    open spec fn eq_spec(&self, other: &Self) -> bool {
        comparison(self@, other@) == Comparison::Equal
    }
}

impl Eq for Version {

}

impl PartialOrd for Version {
    fn partial_cmp(&self, other: &Self) -> (r: Option<Ordering>) {
        match self.compare(other) {
            Comparison::Less => Some(Ordering::Less),
            Comparison::Equal => Some(Ordering::Equal),
            Comparison::Greater => Some(Ordering::Greater),
        }
    }
}

impl PartialOrdSpecImpl for Version {
    open spec fn obeys_partial_cmp_spec() -> bool {
        true
    }

    open spec fn partial_cmp_spec(&self, other: &Self) -> Option<Ordering> {
        match comparison(self@, other@) {
            Comparison::Less => Some(Ordering::Less),
            Comparison::Equal => Some(Ordering::Equal),
            Comparison::Greater => Some(Ordering::Greater),
        }
    }
}

/// The version that a text names.
pub fn parse_version(text: &str) -> (r: Option<Version>)
    ensures
        opt_version(r) == version_of(text@),
{
    Version::parse(text)
}

// ── Comparators ──────────────────────────────────────────────────────────────

/// A condition on a version.
#[derive(Debug, Clone)]
pub enum Comparator {
    Wildcard,
    Eq(Version),
    Lt(Version),
    Le(Version),
    Gt(Version),
    Ge(Version),
}

pub enum ComparatorView {
    Wildcard,
    Eq(Seq<u64>),
    Lt(Seq<u64>),
    Le(Seq<u64>),
    Gt(Seq<u64>),
    Ge(Seq<u64>),
}

impl DeepView for Comparator {
    type V = ComparatorView;

    open spec fn deep_view(&self) -> ComparatorView {
        match *self {
            Comparator::Wildcard => ComparatorView::Wildcard,
            Comparator::Eq(v) => ComparatorView::Eq(v@),
            Comparator::Lt(v) => ComparatorView::Lt(v@),
            Comparator::Le(v) => ComparatorView::Le(v@),
            Comparator::Gt(v) => ComparatorView::Gt(v@),
            Comparator::Ge(v) => ComparatorView::Ge(v@),
        }
    }
}

impl ComparatorView {
    /// Whether the condition holds of a version.
    pub open spec fn holds(self, target: Seq<u64>) -> bool {
        match self {
            ComparatorView::Wildcard => true,
            ComparatorView::Eq(v) => comparison(target, v) == Comparison::Equal,
            ComparatorView::Lt(v) => comparison(target, v) == Comparison::Less,
            ComparatorView::Le(v) => comparison(target, v) != Comparison::Greater,
            ComparatorView::Gt(v) => comparison(target, v) == Comparison::Greater,
            ComparatorView::Ge(v) => comparison(target, v) != Comparison::Less,
        }
    }
}

impl Comparator {
    /// Whether the condition holds of a version.
    pub fn matches(&self, target: &Version) -> (r: bool)
        ensures
            r == self.deep_view().holds(target@),
    {
        match self {
            Comparator::Wildcard => true,
            Comparator::Eq(v) => target.compare(v) == Comparison::Equal,
            Comparator::Lt(v) => target.compare(v) == Comparison::Less,
            Comparator::Le(v) => target.compare(v) != Comparison::Greater,
            Comparator::Gt(v) => target.compare(v) == Comparison::Greater,
            Comparator::Ge(v) => target.compare(v) != Comparison::Less,
        }
    }
}

/// The operator that a comparator begins with.
#[derive(Debug, Clone, Copy, PartialEq, Eq, Structural)]
pub enum Operator {
    Eq,
    Lt,
    Le,
    Gt,
    Ge,
}

/// The operator at the start of a token, and the text behind it. Those of two
/// characters are read before those of one; a text without one means equality.
pub open spec fn operator_of(t: Seq<char>) -> (Operator, Seq<char>) {
    match after_prefix(t, ">="@) {
        Some(rest) => (Operator::Ge, rest),
        None => match after_prefix(t, "<="@) {
            Some(rest) => (Operator::Le, rest),
            None => match after_prefix(t, ">"@) {
                Some(rest) => (Operator::Gt, rest),
                None => match after_prefix(t, "<"@) {
                    Some(rest) => (Operator::Lt, rest),
                    None => match after_prefix(t, "="@) {
                        Some(rest) => (Operator::Eq, rest),
                        None => (Operator::Eq, t),
                    },
                },
            },
        },
    }
}

/// The comparator of an operator and a version.
pub open spec fn comparator_with(op: Operator, v: Seq<u64>) -> ComparatorView {
    match op {
        Operator::Eq => ComparatorView::Eq(v),
        Operator::Lt => ComparatorView::Lt(v),
        Operator::Le => ComparatorView::Le(v),
        Operator::Gt => ComparatorView::Gt(v),
        Operator::Ge => ComparatorView::Ge(v),
    }
}

/// The comparator that a token writes; none where no version stands in it.
pub open spec fn comparator_of(token: Seq<char>) -> Option<ComparatorView> {
    let t = trimmed(token);
    if t.len() == 0 {
        None
    } else if t == "*"@ {
        Some(ComparatorView::Wildcard)
    } else {
        let (op, rest) = operator_of(t);
        match version_of(rest) {
            Some(v) => Some(comparator_with(op, v)),
            None => None,
        }
    }
}

/// The operator at the start of a token, and the text behind it.
pub fn split_operator(t: &str) -> (r: (Operator, String))
    ensures
        (r.0, r.1@) == operator_of(t@),
{
    if let Some(rest) = strip_prefix(t, ">=") {
        (Operator::Ge, rest)
    } else if let Some(rest) = strip_prefix(t, "<=") {
        (Operator::Le, rest)
    } else if let Some(rest) = strip_prefix(t, ">") {
        (Operator::Gt, rest)
    } else if let Some(rest) = strip_prefix(t, "<") {
        (Operator::Lt, rest)
    } else if let Some(rest) = strip_prefix(t, "=") {
        (Operator::Eq, rest)
    } else {
        (Operator::Eq, own(t))
    }
}

/// The comparator of an operator and a version.
pub fn build_comparator(op: Operator, v: Version) -> (r: Comparator)
    ensures
        r.deep_view() == comparator_with(op, v@),
{
    match op {
        Operator::Eq => Comparator::Eq(v),
        Operator::Lt => Comparator::Lt(v),
        Operator::Le => Comparator::Le(v),
        Operator::Gt => Comparator::Gt(v),
        Operator::Ge => Comparator::Ge(v),
    }
}

/// The comparator that a token writes; none where no version stands in it.
pub fn parse_comparator(token: &str) -> (r: Option<Comparator>)
    ensures
        r.deep_view() == comparator_of(token@),
{
    let t = trim(token);
    if t.as_str().is_empty() {
        return None;
    }
    if same(t.as_str(), "*") {
        return Some(Comparator::Wildcard);
    }
    let (op, rest) = split_operator(t.as_str());
    match Version::parse(rest.as_str()) {
        Some(v) => Some(build_comparator(op, v)),
        None => None,
    }
}

// ── Constraints ──────────────────────────────────────────────────────────────

/// The comparators that the tokens write, where each of them writes one.
pub open spec fn comparators_of(tokens: Seq<Seq<char>>) -> Option<Seq<ComparatorView>>
    decreases tokens.len(),
{
    if tokens.len() == 0 {
        Some(Seq::empty())
    } else {
        match (comparators_of(tokens.drop_last()), comparator_of(tokens.last())) {
            (Some(s), Some(c)) => Some(s.push(c)),
            _ => None,
        }
    }
}

/// The comparators of a constraint. A constraint with a token that is none is
/// no constraint, since without it the others would hold of too many versions.
pub open spec fn constraint_of(element: Seq<char>) -> Option<Seq<ComparatorView>> {
    if words(element).len() == 0 {
        None
    } else {
        comparators_of(words(element))
    }
}

/// Whether every comparator holds of a version.
pub open spec fn all_hold(c: Seq<ComparatorView>, target: Seq<u64>) -> bool {
    forall|i: int| 0 <= i < c.len() ==> (#[trigger] c[i]).holds(target)
}

/// Whether a constraint holds of a version; none where it is no constraint.
pub open spec fn constraint_verdict(element: Seq<char>, target: Seq<u64>) -> Option<bool> {
    match constraint_of(element) {
        Some(c) => Some(all_hold(c, target)),
        None => None,
    }
}

proof fn lemma_comparators_prefix(tokens: Seq<Seq<char>>, i: int)
    requires
        0 <= i <= tokens.len(),
        comparators_of(tokens.take(i)) is None,
    ensures
        comparators_of(tokens) is None,
    decreases tokens.len() - i,
{
    if i == tokens.len() {
        assert(tokens.take(i) =~= tokens);
    } else {
        assert(tokens.take(i + 1).drop_last() =~= tokens.take(i));
        lemma_comparators_prefix(tokens, i + 1);
    }
}

/// One token that is no comparator spoils the constraint.
pub proof fn one_bad_token_spoils_the_constraint(element: Seq<char>, i: int)
    requires
        0 <= i < words(element).len(),
        comparator_of(words(element)[i]) is None,
    ensures
        constraint_of(element) is None,
{
    let t = words(element);
    assert(t.take(i + 1).last() == t[i]);
    lemma_comparators_prefix(t, i + 1);
}

/// The comparators of a constraint; none where a token is no comparator.
pub fn parse_element(element: &str) -> (r: Option<Vec<Comparator>>)
    ensures
        r.deep_view() == constraint_of(element@),
{
    let tokens = split_whitespace(element);
    if tokens.len() == 0 {
        return None;
    }
    let ghost t = views(tokens@);
    let mut out: Vec<Comparator> = Vec::new();
    let mut i: usize = 0;
    assert(out.deep_view() =~= Seq::<ComparatorView>::empty());
    while i < tokens.len()
        invariant
            i <= tokens@.len(),
            t == views(tokens@),
            t == words(element@),
            t.len() > 0,
            comparators_of(t.take(i as int)) == Some(out.deep_view()),
        decreases tokens@.len() - i,
    {
        proof {
            assert(t.take(i + 1).drop_last() =~= t.take(i as int));
            assert(t.take(i + 1).last() == t[i as int]);
        }
        match parse_comparator(tokens[i].as_str()) {
            Some(c) => {
                let ghost before = out.deep_view();
                out.push(c);
                assert(out.deep_view() =~= before.push(c.deep_view()));
            },
            None => {
                proof {
                    lemma_comparators_prefix(t, i + 1);
                }
                return None;
            },
        }
        i += 1;
    }
    assert(t.take(t.len() as int) =~= t);
    Some(out)
}

/// Whether a constraint holds of a version; none where it is no constraint.
pub fn element_matches(element: &str, target: &Version) -> (r: Option<bool>)
    ensures
        r == constraint_verdict(element@, target@),
{
    match parse_element(element) {
        Some(c) => Some(comparators_match(&c, target)),
        None => None,
    }
}

/// Whether every comparator holds of a version.
pub fn comparators_match(c: &Vec<Comparator>, target: &Version) -> (r: bool)
    ensures
        r == all_hold(c.deep_view(), target@),
{
    let mut i: usize = 0;
    while i < c.len()
        invariant
            i <= c@.len(),
            forall|k: int| 0 <= k < i ==> (#[trigger] c.deep_view()[k]).holds(target@),
        decreases c@.len() - i,
    {
        assert(c.deep_view()[i as int] == c@[i as int].deep_view());
        if !c[i].matches(target) {
            return false;
        }
        i += 1;
    }
    true
}

// ── Versions in prose ────────────────────────────────────────────────────────

/// Whether a character can be part of a version number.
pub open spec fn is_version_char(c: char) -> bool {
    is_digit(c) || c == '.'
}

/// Whether the `n` characters at the place `i` have no version character on
/// either side.
pub open spec fn is_free_token(h: Seq<char>, i: int, n: nat) -> bool {
    &&& i == 0 || !is_version_char(h[i - 1])
    &&& i + n >= h.len() || !is_version_char(h[i + n])
}

/// Whether a free occurrence of `n` is met when reading `h` from `start` on, each
/// time going on behind the occurrence that was met.
pub open spec fn free_token_from(h: Seq<char>, n: Seq<char>, start: int) -> bool
    decreases h.len() - start,
{
    if n.len() == 0 || start < 0 {
        false
    } else {
        match place_from(h, n, start) {
            Some(i) => if start <= i && i + n.len() <= h.len() {
                is_free_token(h, i, n.len()) || free_token_from(h, n, i + n.len())
            } else {
                false
            },
            None => false,
        }
    }
}

/// Whether `n` stands in `h` as a version of its own.
pub open spec fn has_version_token(h: Seq<char>, n: Seq<char>) -> bool {
    free_token_from(h, n, 0)
}

proof fn lemma_free_token_from(h: Seq<char>, n: Seq<char>, start: int)
    requires
        free_token_from(h, n, start),
    ensures
        exists|i: int| #[trigger] occurs_at(h, n, i) && is_free_token(h, i, n.len()),
    decreases h.len() - start,
{
    lemma_place_from(h, n, start);
    let i = place_from(h, n, start)->0;
    if is_free_token(h, i, n.len()) {
        assert(occurs_at(h, n, i));
    } else {
        lemma_free_token_from(h, n, i + n.len());
    }
}

/// A version found in a text stands there without a digit or a dot on either
/// side, so that `1.2` is not found in `1.20` or `11.2`.
pub proof fn version_token_is_free(h: Seq<char>, n: Seq<char>)
    requires
        has_version_token(h, n),
    ensures
        n.len() > 0,
        exists|i: int| #[trigger] occurs_at(h, n, i) && is_free_token(h, i, n.len()),
{
    lemma_free_token_from(h, n, 0);
}

fn char_is_version_char(c: char) -> (r: bool)
    ensures
        r == is_version_char(c),
{
    char_is_digit(c) || c == '.'
}

/// Whether `needle` stands in `haystack` as a version of its own, with neither a
/// digit nor a dot on either side.
pub fn contains_version_token(haystack: &str, needle: &str) -> (r: bool)
    ensures
        r == has_version_token(haystack@, needle@),
{
    let h = chars_of(haystack);
    let n = chars_of(needle);
    if n.len() == 0 {
        return false;
    }
    let mut start: usize = 0;
    loop
        invariant
            start <= h@.len(),
            h@ == haystack@,
            n@ == needle@,
            n@.len() > 0,
            has_version_token(haystack@, needle@) == free_token_from(h@, n@, start as int),
        decreases h@.len() - start,
    {
        match find_in(&h, &n, start) {
            Some(i) => {
                let before_ok = i == 0 || !char_is_version_char(h[i - 1]);
                let after_ok = n.len() == h.len() - i || !char_is_version_char(h[i + n.len()]);
                if before_ok && after_ok {
                    return true;
                }
                start = i + n.len();
            },
            None => {
                return false;
            },
        }
    }
}

/// `version(s) A through B`, and the like: the bounds are the two groups.
pub const RANGE_THROUGH: &'static str = r"versions?\s+(\d+(?:\.\d+){1,3})\s+through\s+(\d+(?:\.\d+){1,3})";

pub const RANGE_TO: &'static str = r"versions?\s+(\d+(?:\.\d+){1,3})\s+to\s+(\d+(?:\.\d+){1,3})";

pub const RANGE_DASH: &'static str = r"versions?\s+(\d+(?:\.\d+){1,3})\s*-\s*(\d+(?:\.\d+){1,3})";

pub const FROM_THROUGH: &'static str = r"from\s+(\d+(?:\.\d+){1,3})\s+through\s+(\d+(?:\.\d+){1,3})";

pub const FROM_TO: &'static str = r"from\s+(\d+(?:\.\d+){1,3})\s+to\s+(\d+(?:\.\d+){1,3})";

/// `prior to version B`, and the like: the group is the first version that is
/// not affected.
pub const PRIOR_TO_VERSION: &'static str = r"prior to version\s+(\d+(?:\.\d+){1,3})";

pub const PRIOR_TO: &'static str = r"prior to\s+(\d+(?:\.\d+){1,3})";

pub const BEFORE: &'static str = r"before\s+(\d+(?:\.\d+){1,3})";

pub const BELOW: &'static str = r"<\s*(\d+(?:\.\d+){1,3})";

/// `up to B`, and the like: the group is the last version that is affected.
pub const UP_TO: &'static str = r"up to\s+(\d+(?:\.\d+){1,3})";

pub const THROUGH: &'static str = r"through\s+(\d+(?:\.\d+){1,3})";

pub const AT_MOST: &'static str = r"<=\s*(\d+(?:\.\d+){1,3})";

/// Whether a version lies between two others, they included.
pub open spec fn within(lo: Seq<u64>, hi: Seq<u64>, target: Seq<u64>) -> bool {
    comparison(lo, target) != Comparison::Greater && comparison(target, hi) != Comparison::Greater
}

/// Whether a version lies below a bound, or at it where that is affected too.
pub open spec fn under(hi: Seq<u64>, target: Seq<u64>, inclusive: bool) -> bool {
    if inclusive {
        comparison(target, hi) != Comparison::Greater
    } else {
        comparison(target, hi) == Comparison::Less
    }
}

/// Whether the first two groups of a match are bounds around a version.
pub open spec fn groups_within(groups: Option<Seq<Option<Seq<char>>>>, target: Seq<u64>) -> bool {
    match (group_text(groups, 1), group_text(groups, 2)) {
        (Some(a), Some(b)) => match (version_of(a), version_of(b)) {
            (Some(lo), Some(hi)) => within(lo, hi, target),
            _ => false,
        },
        _ => false,
    }
}

/// Whether the first group of a match is a bound above a version.
pub open spec fn groups_under(
    groups: Option<Seq<Option<Seq<char>>>>,
    target: Seq<u64>,
    inclusive: bool,
) -> bool {
    match group_text(groups, 1) {
        Some(b) => match version_of(b) {
            Some(hi) => under(hi, target, inclusive),
            None => false,
        },
        None => false,
    }
}

/// Whether a text in small letters gives a range that a version lies in.
pub open spec fn names_range_around(text: Seq<char>, target: Seq<u64>) -> bool {
    ||| groups_within(groups_of(RANGE_THROUGH@, text), target)
    ||| groups_within(groups_of(RANGE_TO@, text), target)
    ||| groups_within(groups_of(RANGE_DASH@, text), target)
    ||| groups_within(groups_of(FROM_THROUGH@, text), target)
    ||| groups_within(groups_of(FROM_TO@, text), target)
    ||| groups_under(groups_of(PRIOR_TO_VERSION@, text), target, false)
    ||| groups_under(groups_of(PRIOR_TO@, text), target, false)
    ||| groups_under(groups_of(BEFORE@, text), target, false)
    ||| groups_under(groups_of(BELOW@, text), target, false)
    ||| groups_under(groups_of(UP_TO@, text), target, true)
    ||| groups_under(groups_of(THROUGH@, text), target, true)
    ||| groups_under(groups_of(AT_MOST@, text), target, true)
}

/// Whether a text names the version itself, or a range that it lies in.
pub open spec fn mentions_version(text: Seq<char>, target: Seq<u64>, raw: Seq<char>) -> bool {
    let t = lowercase(text);
    has_version_token(t, trimmed(lowercase(raw))) || names_range_around(t, target)
}

/// Whether a version lies between two others, they included.
pub fn version_within(lo: &Version, hi: &Version, target: &Version) -> (r: bool)
    ensures
        r == within(lo@, hi@, target@),
{
    lo.compare(target) != Comparison::Greater && target.compare(hi) != Comparison::Greater
}

/// Whether a version lies below a bound, or at it where that is affected too.
pub fn version_under(hi: &Version, target: &Version, inclusive: bool) -> (r: bool)
    ensures
        r == under(hi@, target@, inclusive),
{
    if inclusive {
        target.compare(hi) != Comparison::Greater
    } else {
        target.compare(hi) == Comparison::Less
    }
}

fn range_hit(pattern: &str, text: &str, target: &Version) -> (r: bool)
    ensures
        r == groups_within(groups_of(pattern@, text@), target@),
{
    let groups = captures(pattern, text);
    match (group(&groups, 1), group(&groups, 2)) {
        (Some(a), Some(b)) => match (parse_version(a), parse_version(b)) {
            (Some(lo), Some(hi)) => version_within(&lo, &hi, target),
            _ => false,
        },
        _ => false,
    }
}

fn upper_hit(pattern: &str, text: &str, target: &Version, inclusive: bool) -> (r: bool)
    ensures
        r == groups_under(groups_of(pattern@, text@), target@, inclusive),
{
    let groups = captures(pattern, text);
    match group(&groups, 1) {
        Some(b) => match parse_version(b) {
            Some(hi) => version_under(&hi, target, inclusive),
            None => false,
        },
        None => false,
    }
}

/// Whether a text names the version itself, or a range that it lies in.
pub fn text_mentions_affected_version_range(text: &str, target: &Version, target_raw: &str) -> (r:
    bool)
    ensures
        r == mentions_version(text@, target@, target_raw@),
{
    let lower = to_lowercase(text);
    let t = lower.as_str();
    let raw_lower = to_lowercase(target_raw);
    let raw = trim(raw_lower.as_str());
    contains_version_token(t, raw.as_str()) || range_hit(RANGE_THROUGH, t, target) || range_hit(
        RANGE_TO,
        t,
        target,
    ) || range_hit(RANGE_DASH, t, target) || range_hit(FROM_THROUGH, t, target) || range_hit(
        FROM_TO,
        t,
        target,
    ) || upper_hit(PRIOR_TO_VERSION, t, target, false) || upper_hit(PRIOR_TO, t, target, false)
        || upper_hit(BEFORE, t, target, false) || upper_hit(BELOW, t, target, false) || upper_hit(
        UP_TO,
        t,
        target,
        true,
    ) || upper_hit(THROUGH, t, target, true) || upper_hit(AT_MOST, t, target, true)
}

} // verus!
