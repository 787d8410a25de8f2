//! Regular expressions, matched by the `regex` crate.

use vstd::prelude::*;

use crate::text::{opt_str_view, pair_views};

verus! {

/// What the groups of the first match of `pattern` in `text` hold, group by
/// group from the whole match on; `None` for a group that took no part.
pub uninterp spec fn groups_of(pattern: Seq<char>, text: Seq<char>) -> Option<
    Seq<Option<Seq<char>>>,
>;

/// `regex::Regex::captures` on the first match of `pattern` in `text`. The result
/// is named; it is `None` where nothing matches, and where `Regex::new` does not
/// accept the pattern. The first group is the whole match, so it is always there.
#[verifier::external_body]
pub(crate) fn captures(pattern: &str, text: &str) -> (r: Option<Vec<Option<String>>>)
    ensures
        r.deep_view() == groups_of(pattern@, text@),
        match r {
            Some(g) => g@.len() >= 1 && g@[0] is Some,
            None => true,
        },
{
    let caps = regex::Regex::new(pattern).ok()?.captures(text)?;
    Some(caps.iter().map(|m| m.map(|x| x.as_str().to_string())).collect())
}

/// `text` with the first match of `pattern` replaced by `with`.
pub uninterp spec fn replaced_match(
    pattern: Seq<char>,
    text: Seq<char>,
    with: Seq<char>,
) -> Seq<char>;

/// `regex::Regex::replace` with the literal text `with`. The result is named. A
/// pattern that `Regex::new` does not accept leaves the text as it is.
#[verifier::external_body]
pub(crate) fn replace_match(pattern: &str, text: &str, with: &str) -> (r: String)
    ensures
        r@ == replaced_match(pattern@, text@, with@),
{
    match regex::Regex::new(pattern) {
        Ok(re) => re.replace(text, regex::NoExpand(with)).into_owned(),
        Err(_) => text.to_string(),
    }
}

/// The text cut at each match of `pattern` in it, from the first match on: what stands
/// before the match, and the text from where it begins.
pub uninterp spec fn match_cuts(pattern: Seq<char>, text: Seq<char>) -> Seq<(Seq<char>, Seq<char>)>;

/// The matches that `regex::Regex::find_iter` yields, each as the two parts of the text
/// that meet where it begins. The result is named; the parts make up the text. It is
/// empty where nothing matches, and where `Regex::new` does not accept the pattern.
#[verifier::external_body]
pub(crate) fn cut_at_matches(pattern: &str, text: &str) -> (r: Vec<(String, String)>)
    ensures
        pair_views(r@) == match_cuts(pattern@, text@),
        forall|i: int| 0 <= i < r@.len() ==> (#[trigger] r@[i]).0@ + r@[i].1@ == text@,
{
    match regex::Regex::new(pattern) {
        Ok(re) => re
            .find_iter(text)
            .map(|m| text.split_at(m.start()))
            .map(|(before, from)| (before.to_string(), from.to_string()))
            .collect(),
        Err(_) => Vec::new(),
    }
}

/// The text of the group `i`.
pub open spec fn group_text(groups: Option<Seq<Option<Seq<char>>>>, i: int) -> Option<Seq<char>> {
    match groups {
        Some(g) => if 0 <= i < g.len() {
            g[i]
        } else {
            None
        },
        None => None,
    }
}

/// The text of the group `i`.
pub fn group(groups: &Option<Vec<Option<String>>>, i: usize) -> (r: Option<&str>)
    ensures
        opt_str_view(r) == group_text(groups.deep_view(), i as int),
{
    match groups {
        Some(g) => {
            if i < g.len() {
                assert(groups.deep_view()->0[i as int] == g@[i as int].deep_view());
                match &g[i] {
                    Some(s) => Some(s.as_str()),
                    None => None,
                }
            } else {
                None
            }
        },
        None => None,
    }
}

} // verus!
