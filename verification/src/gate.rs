//! Which assets are scanned, and which findings fail a run.

use vstd::prelude::*;

use crate::api::{rank_of, ThreatEntry, ThreatEntryView};
use crate::asset::{source_label, Asset, AssetView};
use crate::list::take_first;
use crate::report::{AssetInfo, AssetInfoView, BatchResults, Findings};
use crate::split::{lemma_pieces_nonempty, pieces, split};
use crate::table::{lookup, put, Table};
use crate::text::{
    after_prefix, char_count, concat3, copy_strings, ends_with, find, has_prefix, has_suffix, lemma_place_from,
    lowercase, occurs_at, opt_str_view, own, place, same, skip_chars, starts_with, strip_prefix, to_lowercase, trim,
    trimmed, views, CharSet,
};

verus! {

// ── Globs ────────────────────────────────────────────────────────────────────

/// Whether a text is made of the parts, in order, with any run of characters
/// between two of them.
pub open spec fn made_of(parts: Seq<Seq<char>>, s: Seq<char>) -> bool
    decreases parts.len(), s.len(), 0int,
{
    if parts.len() == 0 {
        s.len() == 0
    } else if parts.len() == 1 {
        s == parts[0]
    } else {
        has_prefix(s, parts[0]) && ends_in(parts.skip(1), s.skip(parts[0].len() as int))
    }
}

/// Whether a text is made of the parts behind any run of characters.
pub open spec fn ends_in(parts: Seq<Seq<char>>, s: Seq<char>) -> bool
    decreases parts.len(), s.len(), 1int,
{
    made_of(parts, s) || (s.len() > 0 && ends_in(parts, s.skip(1)))
}

/// Whether a text matches a glob, in which `*` stands for any run of characters.
pub open spec fn glob_fits(glob: Seq<char>, s: Seq<char>) -> bool {
    made_of(pieces(glob, CharSet::Is('*')), s)
}

proof fn lemma_ends_further(parts: Seq<Seq<char>>, s: Seq<char>, j: int)
    requires
        0 <= j <= s.len(),
        ends_in(parts, s.skip(j)),
    ensures
        ends_in(parts, s),
    decreases s.len(),
{
    if j == 0 {
        assert(s.skip(0) =~= s);
    } else {
        assert(s.skip(1).skip(j - 1) =~= s.skip(j));
        lemma_ends_further(parts, s.skip(1), j - 1);
    }
}

proof fn lemma_last_part(parts: Seq<Seq<char>>, s: Seq<char>)
    requires
        parts.len() == 1,
    ensures
        ends_in(parts, s) <==> has_suffix(s, parts[0]),
    decreases s.len(),
{
    reveal_with_fuel(made_of, 2);
    reveal_with_fuel(ends_in, 2);
    let p = parts[0];
    let n = p.len() as int;
    if s.len() > 0 {
        lemma_last_part(parts, s.skip(1));
        if n < s.len() {
            assert(s.skip(1).skip(s.len() - 1 - n) =~= s.skip(s.len() - n));
        }
    }
    if n == s.len() {
        assert(s.skip(0) =~= s);
    }
}

proof fn lemma_place_further(s: Seq<char>, p: Seq<char>)
    requires
        s.len() > 0,
        !has_prefix(s, p),
    ensures
        match place(s.skip(1), p) {
            Some(i) => place(s, p) == Some(i + 1),
            None => place(s, p) is None,
        },
{
    let n = p.len() as int;
    let t = s.skip(1);
    lemma_place_from(s, p, 0);
    lemma_place_from(t, p, 0);
    assert forall|i: int| 0 <= i implies occurs_at(t, p, i) == occurs_at(s, p, i + 1) by {
        if i + n <= t.len() {
            assert(t.subrange(i, i + n) =~= s.subrange(i + 1, i + 1 + n));
        }
    }
    assert(!occurs_at(s, p, 0)) by {
        if n <= s.len() {
            assert(s.subrange(0, n) =~= s.take(n));
        }
    }
    if let Some(k) = place(s, p) {
        assert(occurs_at(t, p, k - 1));
    }
    if let Some(i) = place(t, p) {
        assert(occurs_at(s, p, i + 1));
        let k = place(s, p)->0;
        if k < i + 1 {
            assert(occurs_at(t, p, k - 1));
        }
    }
}

proof fn lemma_next_part(parts: Seq<Seq<char>>, s: Seq<char>)
    requires
        parts.len() > 1,
    ensures
        ends_in(parts, s) <==> match place(s, parts[0]) {
            Some(i) => ends_in(parts.skip(1), s.skip(i + parts[0].len())),
            None => false,
        },
    decreases s.len(),
{
    reveal_with_fuel(made_of, 2);
    reveal_with_fuel(ends_in, 2);
    let p = parts[0];
    let n = p.len() as int;
    let rest = parts.skip(1);
    lemma_place_from(s, p, 0);
    if has_prefix(s, p) {
        assert(occurs_at(s, p, 0)) by {
            assert(s.subrange(0, n) =~= s.take(n));
        }
        assert(place(s, p) == Some(0int));
        if s.len() > 0 && ends_in(parts, s.skip(1)) {
            lemma_next_part(parts, s.skip(1));
            lemma_place_from(s.skip(1), p, 0);
            let i = place(s.skip(1), p)->0;
            assert(s.skip(1).skip(i + n) =~= s.skip(n).skip(i + 1));
            lemma_ends_further(rest, s.skip(n), i + 1);
        }
    } else if s.len() > 0 {
        lemma_next_part(parts, s.skip(1));
        lemma_place_further(s, p);
        if let Some(i) = place(s.skip(1), p) {
            lemma_place_from(s.skip(1), p, 0);
            assert(s.skip(1).skip(i + n) =~= s.skip(i + 1 + n));
        }
    } else {
        assert(place(s, p) is None) by {
            if let Some(k) = place(s, p) {
                assert(k == 0);
                assert(s.subrange(0, n) =~= s.take(n));
            }
        }
    }
}

/// Whether a text matches a glob, in which `*` stands for any run of characters;
/// both are in one case.
pub fn glob_fits_text(glob: &str, s: &str) -> (r: bool)
    ensures
        r == glob_fits(glob@, s@),
{
    let parts = split(glob, CharSet::Is('*'));
    let ghost p = views(parts@);
    proof {
        lemma_pieces_nonempty(glob@, CharSet::Is('*'));
    }
    if parts.len() == 1 {
        assert(p[0] == parts@[0]@);
        return same(s, parts[0].as_str());
    }
    assert(p[0] == parts@[0]@);
    if !starts_with(s, parts[0].as_str()) {
        return false;
    }
    let mut rest = skip_chars(s, char_count(parts[0].as_str()));
    let mut i: usize = 1;
    while i + 1 < parts.len()
        invariant
            1 <= i < parts.len(),
            p == views(parts@),
            p == pieces(glob@, CharSet::Is('*')),
            made_of(p, s@) <==> ends_in(p.skip(i as int), rest@),
        decreases parts.len() - i,
    {
        proof {
            lemma_next_part(p.skip(i as int), rest@);
            assert(p.skip(i as int)[0] == parts@[i as int]@);
            assert(p.skip(i as int).skip(1) =~= p.skip(i + 1));
            lemma_place_from(rest@, parts@[i as int]@, 0);
        }
        match find(rest.as_str(), parts[i].as_str()) {
            Some(at) => {
                let n: usize = char_count(parts[i].as_str());
                let ghost before = rest@;
                rest = skip_chars(rest.as_str(), at);
                rest = skip_chars(rest.as_str(), n);
                assert(rest@ =~= before.skip(at + n));
            },
            None => {
                return false;
            },
        }
        i += 1;
    }
    proof {
        assert(p.skip(i as int).len() == 1);
        assert(p.skip(i as int)[0] == parts@[i as int]@);
        lemma_last_part(p.skip(i as int), rest@);
    }
    ends_with(rest.as_str(), parts[i].as_str())
}

/// Whether a text matches a glob, whatever the case of either.
pub fn glob_match(pattern: &str, s: &str) -> (r: bool)
    ensures
        r == glob_fits(lowercase(pattern@), lowercase(s@)),
{
    let p = to_lowercase(pattern);
    let t = to_lowercase(s);
    glob_fits_text(p.as_str(), t.as_str())
}

/// A glob without `*` matches that text alone.
pub proof fn plain_glob_is_exact(glob: Seq<char>, s: Seq<char>)
    requires
        !glob.contains('*'),
    ensures
        glob_fits(glob, s) <==> s == glob,
{
    lemma_one_piece(glob);
}

proof fn lemma_one_piece(glob: Seq<char>)
    requires
        !glob.contains('*'),
    ensures
        pieces(glob, CharSet::Is('*')) == seq![glob],
    decreases glob.len(),
{
    if glob.len() > 0 {
        let d = glob.drop_last();
        assert(!d.contains('*')) by {
            if d.contains('*') {
                let i = choose|i: int| 0 <= i < d.len() && d[i] == '*';
                assert(glob[i] == '*');
            }
        }
        assert(glob[glob.len() - 1] != '*');
        lemma_one_piece(d);
        let p = pieces(d, CharSet::Is('*'));
        assert(p.last() == d);
        assert(d.push(glob.last()) =~= glob);
        assert(p.drop_last().push(glob) =~= seq![glob]);
    } else {
        assert(glob =~= Seq::<char>::empty());
    }
    assert(pieces(glob, CharSet::Is('*')) =~= seq![glob]);
}

proof fn lemma_pieces_behind_a_star(a: Seq<char>, rest: Seq<char>)
    requires
        !a.contains('*'),
    ensures
        pieces(a + seq!['*'] + rest, CharSet::Is('*')) == seq![a] + pieces(rest, CharSet::Is('*')),
    decreases rest.len(),
{
    let set = CharSet::Is('*');
    let s = a + seq!['*'] + rest;
    if rest.len() == 0 {
        assert(s.drop_last() =~= a);
        assert(s.last() == '*');
        lemma_one_piece(a);
        assert(pieces(s, set) =~= seq![a] + pieces(rest, set)) by {
            assert(rest =~= Seq::<char>::empty());
            assert(pieces(rest, set) =~= seq![Seq::<char>::empty()]);
        }
    } else {
        let d = rest.drop_last();
        lemma_pieces_behind_a_star(a, d);
        lemma_pieces_nonempty(d, set);
        assert(s.drop_last() =~= a + seq!['*'] + d);
        assert(s.last() == rest.last());
        let p = pieces(d, set);
        let q = seq![a] + p;
        if set.has(rest.last()) {
            assert(q.push(Seq::<char>::empty()) =~= seq![a] + p.push(Seq::<char>::empty()));
        } else {
            assert(q.last() == p.last());
            assert(q.drop_last().push(q.last().push(rest.last())) =~= seq![a] + p.drop_last().push(
                p.last().push(rest.last()),
            ));
        }
    }
}

proof fn lemma_ends_somewhere(parts: Seq<Seq<char>>, s: Seq<char>)
    ensures
        ends_in(parts, s) <==> exists|j: int|
            0 <= j <= s.len() && #[trigger] made_of(parts, s.skip(j)),
    decreases s.len(),
{
    reveal_with_fuel(ends_in, 2);
    assert(s.skip(0) =~= s);
    if s.len() > 0 {
        let t = s.skip(1);
        lemma_ends_somewhere(parts, t);
        if ends_in(parts, t) {
            let j = choose|j: int| 0 <= j <= t.len() && #[trigger] made_of(parts, t.skip(j));
            assert(t.skip(j) =~= s.skip(j + 1));
            assert(made_of(parts, s.skip(j + 1)));
        }
        if exists|j: int| 0 <= j <= s.len() && #[trigger] made_of(parts, s.skip(j)) {
            let j = choose|j: int| 0 <= j <= s.len() && #[trigger] made_of(parts, s.skip(j));
            if j > 0 {
                assert(t.skip(j - 1) =~= s.skip(j));
                assert(made_of(parts, t.skip(j - 1)));
            }
        }
    }
    if made_of(parts, s) {
        assert(made_of(parts, s.skip(0)));
    }
}

/// The first `*` of a glob stands for any run of characters: a text fits that begins with what
/// stands before it, and that from some place behind fits what stands after it.
pub proof fn a_star_stands_for_any_run(a: Seq<char>, rest: Seq<char>, s: Seq<char>)
    requires
        !a.contains('*'),
    ensures
        glob_fits(a + seq!['*'] + rest, s) <==> has_prefix(s, a) && exists|j: int|
            a.len() <= j <= s.len() && #[trigger] glob_fits(rest, s.skip(j)),
{
    let p = pieces(rest, CharSet::Is('*'));
    let q = seq![a] + p;
    lemma_pieces_behind_a_star(a, rest);
    lemma_pieces_nonempty(rest, CharSet::Is('*'));
    assert(q.skip(1) =~= p);
    assert(q[0] == a);
    let t = s.skip(a.len() as int);
    if has_prefix(s, a) {
        lemma_ends_somewhere(p, t);
        if ends_in(p, t) {
            let j = choose|j: int| 0 <= j <= t.len() && #[trigger] made_of(p, t.skip(j));
            assert(t.skip(j) =~= s.skip(a.len() + j));
            assert(glob_fits(rest, s.skip(a.len() + j)));
        }
        if exists|j: int| a.len() <= j <= s.len() && #[trigger] glob_fits(rest, s.skip(j)) {
            let j = choose|j: int| a.len() <= j <= s.len() && #[trigger] glob_fits(rest, s.skip(j));
            assert(t.skip(j - a.len()) =~= s.skip(j));
            assert(made_of(p, t.skip(j - a.len())));
        }
    }
}

// ── Assets ───────────────────────────────────────────────────────────────────

/// Whether one of the globs matches one of the names, whatever the case.
pub open spec fn some_glob_fits(globs: Seq<Seq<char>>, names: Seq<Seq<char>>) -> bool {
    exists|i: int, j: int|
        0 <= i < globs.len() && 0 <= j < names.len() && glob_fits(
            lowercase(#[trigger] globs[i]),
            lowercase(#[trigger] names[j]),
        )
}

/// Whether an asset of these names is scanned: none of its names is excluded, and
/// one of them is included where only some are to be.
pub open spec fn is_allowed(
    names: Seq<Seq<char>>,
    only: Seq<Seq<char>>,
    never: Seq<Seq<char>>,
) -> bool {
    !some_glob_fits(never, names) && (only.len() == 0 || some_glob_fits(only, names))
}

fn any_glob_fits(globs: &Vec<String>, names: &Vec<String>) -> (r: bool)
    ensures
        r == some_glob_fits(views(globs@), views(names@)),
{
    let ghost g = views(globs@);
    let ghost m = views(names@);
    let mut i: usize = 0;
    while i < globs.len()
        invariant
            i <= globs@.len(),
            g == views(globs@),
            m == views(names@),
            forall|a: int, b: int|
                0 <= a < i && 0 <= b < m.len() ==> !glob_fits(
                    lowercase(#[trigger] g[a]),
                    lowercase(#[trigger] m[b]),
                ),
        decreases globs@.len() - i,
    {
        let mut j: usize = 0;
        while j < names.len()
            invariant
                i < globs@.len(),
                j <= names@.len(),
                g == views(globs@),
                m == views(names@),
                forall|b: int|
                    0 <= b < j ==> !glob_fits(
                        lowercase(g[i as int]),
                        lowercase(#[trigger] m[b]),
                    ),
            decreases names@.len() - j,
        {
            assert(g[i as int] == globs@[i as int]@ && m[j as int] == names@[j as int]@);
            if glob_match(globs[i].as_str(), names[j].as_str()) {
                return true;
            }
            j += 1;
        }
        i += 1;
    }
    false
}

/// Whether an asset of these names is scanned.
pub fn asset_allowed(names: &Vec<String>, only: &Vec<String>, never: &Vec<String>) -> (r: bool)
    ensures
        r == is_allowed(views(names@), views(only@), views(never@)),
{
    !any_glob_fits(never, names) && (only.len() == 0 || any_glob_fits(only, names))
}

/// The names that an asset goes by: its own, and its coordinate.
pub open spec fn names_of(a: AssetView) -> Seq<Seq<char>> {
    seq![a.name, a.coordinate()]
}

/// The assets that are scanned.
pub open spec fn allowed_ones(
    assets: Seq<AssetView>,
    only: Seq<Seq<char>>,
    never: Seq<Seq<char>>,
) -> Seq<AssetView>
    decreases assets.len(),
{
    if assets.len() == 0 {
        assets
    } else {
        let before = allowed_ones(assets.drop_last(), only, never);
        if is_allowed(names_of(assets.last()), only, never) {
            before.push(assets.last())
        } else {
            before
        }
    }
}

/// Keeps the assets that are scanned.
pub fn keep_allowed(assets: Vec<Asset>, only: &Vec<String>, never: &Vec<String>) -> (r: Vec<
    Asset,
>)
    ensures
        r.deep_view() == allowed_ones(assets.deep_view(), views(only@), views(never@)),
{
    let ghost all = assets.deep_view();
    let ghost inc = views(only@);
    let ghost exc = views(never@);
    let mut rest = assets;
    let n: usize = rest.len();
    let mut out: Vec<Asset> = Vec::new();
    let mut i: usize = 0;
    assert(rest.deep_view() =~= all.skip(0));
    assert(out.deep_view() =~= allowed_ones(all.take(0), inc, exc));
    while i < n
        invariant
            i <= n,
            n == all.len(),
            inc == views(only@),
            exc == views(never@),
            rest.deep_view() == all.skip(i as int),
            out.deep_view() == allowed_ones(all.take(i as int), inc, exc),
        decreases n - i,
    {
        let ghost before = out.deep_view();
        assert(rest.deep_view().len() == rest@.len());
        let a = take_first(&mut rest);
        proof {
            assert(all.skip(i as int).skip(1) =~= all.skip(i + 1));
            assert(all.take(i + 1).drop_last() =~= all.take(i as int));
            assert(all.take(i + 1).last() == a.deep_view());
        }
        let names = vec![a.name.clone(), a.coordinate_name()];
        assert(views(names@) =~= names_of(a.deep_view()));
        if asset_allowed(&names, only, never) {
            out.push(a);
            assert(out.deep_view() =~= before.push(a.deep_view()));
        }
        i += 1;
    }
    assert(all.take(n as int) =~= all);
    out
}

// ── Findings that fail a run ─────────────────────────────────────────────────

/// A severity that is asked for.
#[derive(Debug, Clone, Copy, PartialEq, Eq, Structural)]
pub enum Severity {
    Critical,
    High,
    Medium,
    Low,
}

impl Severity {
    pub open spec fn name(self) -> Seq<char> {
        match self {
            Severity::Critical => "critical"@,
            Severity::High => "high"@,
            Severity::Medium => "medium"@,
            Severity::Low => "low"@,
        }
    }

    /// The severity as the API names it.
    pub fn as_api(self) -> (r: &'static str)
        ensures
            r@ == self.name(),
    {
        match self {
            Severity::Critical => "critical",
            Severity::High => "high",
            Severity::Medium => "medium",
            Severity::Low => "low",
        }
    }
}

/// The rank of the lowest severity that is asked for.
pub open spec fn floor_of(s: Option<Severity>) -> u8 {
    match s {
        Some(Severity::Critical) => 4,
        Some(Severity::High) => 3,
        Some(Severity::Medium) => 2,
        Some(Severity::Low) => 1,
        None => 0,
    }
}

/// The rank of the lowest severity that is asked for.
pub fn severity_floor(s: Option<Severity>) -> (r: u8)
    ensures
        r == floor_of(s),
{
    match s {
        Some(Severity::Critical) => 4,
        Some(Severity::High) => 3,
        Some(Severity::Medium) => 2,
        Some(Severity::Low) => 1,
        None => 0,
    }
}

/// Which findings fail a run.
#[derive(Debug, Clone, Copy, PartialEq, Eq, Structural)]
pub enum FailOn {
    /// Any finding at all.
    Any,
    Critical,
    High,
    Medium,
    Low,
    /// Those that are known to be exploited.
    Kev,
    /// Those of an asset that can be reached from another host.
    Exposed,
}

/// Whether a finding fails a run.
pub open spec fn fails(fail_on: FailOn, t: ThreatEntryView, exposed: bool) -> bool {
    let rank = rank_of(t.severity);
    match fail_on {
        FailOn::Any => true,
        FailOn::Critical => rank >= 4,
        FailOn::High => rank >= 3,
        FailOn::Medium => rank >= 2,
        FailOn::Low => rank >= 1,
        FailOn::Kev => t.kev,
        FailOn::Exposed => exposed,
    }
}

/// Whether the asset with the key can be reached from another host.
pub open spec fn key_is_exposed(assets: Seq<(Seq<char>, AssetInfoView)>, key: Seq<char>) -> bool {
    match lookup(assets, key) {
        Some(a) => a.exposed,
        None => false,
    }
}

/// Whether one of the confirmed findings fails a run.
pub open spec fn some_finding_fails(
    services: Findings,
    assets: Seq<(Seq<char>, AssetInfoView)>,
    fail_on: FailOn,
) -> bool {
    exists|i: int, k: int|
        0 <= i < services.len() && 0 <= k < services[i].1.len() && fails(
            fail_on,
            #[trigger] services[i].1[k],
            key_is_exposed(assets, services[i].0),
        )
}

fn entry_fails(fail_on: FailOn, t: &ThreatEntry, exposed: bool) -> (r: bool)
    ensures
        r == fails(fail_on, t.deep_view(), exposed),
{
    let rank: u8 = t.severity_rank();
    match fail_on {
        FailOn::Any => true,
        FailOn::Critical => rank >= 4,
        FailOn::High => rank >= 3,
        FailOn::Medium => rank >= 2,
        FailOn::Low => rank >= 1,
        FailOn::Kev => t.kev,
        FailOn::Exposed => exposed,
    }
}

pub(crate) fn is_exposed(assets: &Table<AssetInfo>, key: &str) -> (r: bool)
    ensures
        r == key_is_exposed(assets.deep_view(), key@),
{
    match assets.get(key) {
        Some(a) => a.exposed,
        None => false,
    }
}

/// Whether one of the confirmed findings of a report fails the run. The severity floor
/// was applied when the findings were gathered, so that it changes nothing here.
pub fn fail_triggered(results: &BatchResults, fail_on: FailOn, _floor: Option<Severity>) -> (r: bool)
    ensures
        r == some_finding_fails(
            results.services.deep_view(),
            results.assets.deep_view(),
            fail_on,
        ),
{
    let ghost m = results.services.deep_view();
    let ghost assets = results.assets.deep_view();
    let mut i: usize = 0;
    while i < results.services.len()
        invariant
            i <= m.len(),
            m == results.services.deep_view(),
            assets == results.assets.deep_view(),
            forall|a: int, b: int|
                0 <= a < i && 0 <= b < m[a].1.len() ==> !fails(
                    fail_on,
                    #[trigger] m[a].1[b],
                    key_is_exposed(assets, m[a].0),
                ),
        decreases m.len() - i,
    {
        let exposed = is_exposed(&results.assets, results.services.key(i).as_str());
        let entries = results.services.value(i);
        let ghost es = entries.deep_view();
        let mut k: usize = 0;
        while k < entries.len()
            invariant
                i < m.len(),
                k <= entries@.len(),
                es == entries.deep_view(),
                es == m[i as int].1,
                m == results.services.deep_view(),
                assets == results.assets.deep_view(),
                    exposed == key_is_exposed(assets, m[i as int].0),
                forall|b: int|
                    0 <= b < k ==> !fails(fail_on, #[trigger] m[i as int].1[b], exposed),
            decreases entries@.len() - k,
        {
            assert(m[i as int].1[k as int] == entries@[k as int].deep_view());
            if entry_fails(fail_on, &entries[k], exposed) {
                return true;
            }
            k += 1;
        }
        i += 1;
    }
    false
}

/// A finding that is known to be exploited fails a run on exploited findings and one on
/// any finding, however low its severity is.
pub proof fn no_severity_passes_an_exploited_finding(
    services: Findings,
    assets: Seq<(Seq<char>, AssetInfoView)>,
    i: int,
    k: int,
)
    requires
        0 <= i < services.len(),
        0 <= k < services[i].1.len(),
        services[i].1[k].kev,
    ensures
        some_finding_fails(services, assets, FailOn::Kev),
        some_finding_fails(services, assets, FailOn::Any),
{
    let exposed = key_is_exposed(assets, services[i].0);
    assert(fails(FailOn::Kev, services[i].1[k], exposed));
    assert(fails(FailOn::Any, services[i].1[k], exposed));
}

// ── What is reported of the assets ───────────────────────────────────────────

/// What is reported of an asset.
pub open spec fn info_of(a: AssetView) -> AssetInfoView {
    AssetInfoView {
        exe: if a.locations.len() > 0 {
            a.locations[0]
        } else {
            Seq::empty()
        },
        version: a.version,
        version_source: source_label(a.sources),
        exposed: match a.runtime {
            Some(r) => r.exposed,
            None => false,
        },
        reachability: match a.runtime {
            Some(r) => r.reachability.name(),
            None => "none"@,
        },
        listeners: match a.runtime {
            Some(r) => r.listeners,
            None => Seq::empty(),
        },
    }
}

/// What is reported of the assets, by their keys.
pub open spec fn infos_of(assets: Seq<AssetView>) -> Seq<(Seq<char>, AssetInfoView)>
    decreases assets.len(),
{
    if assets.len() == 0 {
        Seq::empty()
    } else {
        put(
            infos_of(assets.drop_last()),
            assets.last().key(),
            info_of(assets.last()),
        )
    }
}

fn asset_info(a: &Asset) -> (r: AssetInfo)
    ensures
        r.deep_view() == info_of(a.deep_view()),
{
    let exe = if a.locations.len() > 0 {
        assert(views(a.locations@)[0] == a.locations@[0]@);
        a.locations[0].clone()
    } else {
        String::new()
    };
    let exposed = match &a.runtime {
        Some(r) => r.exposed,
        None => false,
    };
    let reachability = match &a.runtime {
        Some(r) => own(r.reachability.as_str()),
        None => own("none"),
    };
    let listeners = match &a.runtime {
        Some(r) => copy_strings(&r.listeners),
        None => {
            let none: Vec<String> = Vec::new();
            assert(views(none@) =~= Seq::<Seq<char>>::empty());
            none
        },
    };
    AssetInfo {
        exe,
        version: a.version.clone(),
        version_source: own(a.version_source_label()),
        exposed,
        reachability,
        listeners,
    }
}

/// What is reported of the assets, by their keys.
pub fn asset_infos(assets: &Vec<Asset>) -> (r: Table<AssetInfo>)
    ensures
        r.well_formed(),
        r.deep_view() == infos_of(assets.deep_view()),
{
    let ghost all = assets.deep_view();
    let mut out: Table<AssetInfo> = Table::new();
    let mut i: usize = 0;
    assert(out.deep_view() =~= infos_of(all.take(0)));
    while i < assets.len()
        invariant
            i <= assets@.len(),
            all == assets.deep_view(),
            out.well_formed(),
            out.deep_view() == infos_of(all.take(i as int)),
        decreases assets@.len() - i,
    {
        proof {
            assert(all.take(i + 1).drop_last() =~= all.take(i as int));
            assert(all.take(i + 1).last() == assets@[i as int].deep_view());
        }
        out.insert(assets[i].report_key(), asset_info(&assets[i]));
        i += 1;
    }
    assert(all.take(all.len() as int) =~= all);
    out
}

// ── Where the report goes ────────────────────────────────────────────────────

/// Where the report goes where nothing else is said.
pub const DEFAULT_OUTPUT: &'static str = "/tmp/threats.json";

/// A path with the home directory in place of a tilde, where it is known.
pub open spec fn expanded(path: Seq<char>, home: Option<Seq<char>>) -> Seq<char> {
    match after_prefix(path, "~/"@) {
        Some(rest) => match home {
            Some(h) => h + "/"@ + rest,
            None => path,
        },
        None => path,
    }
}

/// A path with the home directory in place of a tilde, where it is known.
pub fn expand_tilde(path: &str, home: Option<&str>) -> (r: String)
    ensures
        r@ == expanded(path@, opt_str_view(home)),
{
    match strip_prefix(path, "~/") {
        Some(rest) => match home {
            Some(h) => concat3(h, "/", rest.as_str()),
            None => own(path),
        },
        None => own(path),
    }
}

/// The path that was typed; the usual one where nothing was.
pub open spec fn chosen_path(line: Option<Seq<char>>, home: Option<Seq<char>>) -> Seq<char> {
    match line {
        Some(l) if trimmed(l).len() > 0 => expanded(trimmed(l), home),
        _ => DEFAULT_OUTPUT@,
    }
}

/// The path that was typed; the usual one where nothing was, or the input ended.
pub fn output_path(line: Option<&str>, home: Option<&str>) -> (r: String)
    ensures
        r@ == chosen_path(opt_str_view(line), opt_str_view(home)),
{
    if let Some(l) = line {
        let t = trim(l);
        if !t.as_str().is_empty() {
            return expand_tilde(t.as_str(), home);
        }
    }
    own(DEFAULT_OUTPUT)
}


} // verus!
