//! The version that a binary reports of itself.

use vstd::prelude::*;

use crate::number::{number, parse_u32};
use crate::pattern::{captures, group, group_text, groups_of};
use crate::split::{last_piece, lines, pieces, text_lines};
use crate::text::{
    contains, has_prefix, lowercase, occurs, opt_view, own, starts_with, to_lowercase, trim, trimmed, views, CharSet,
};

verus! {

/// A version: numbers with dots between them, with what may stand before and
/// behind them.
pub const VERSION_EXTRACT_PATTERN: &'static str = r"(?ix)
        (?:version:\s*)?
        (?:[a-z][a-z0-9_\-]*[/_\s])?
        v?
        (
            \d+
            (?:\.\d+)*
            (?:[a-z]\d*)?
            (?:[-+~][0-9a-z][0-9a-z.+:~_-]*)?
        )
        ";

/// How many of the lines are looked at.
pub const MAX_LINES: usize = 10;

/// Whether a text can be a version: it is not empty, and no year.
pub open spec fn is_real_version(v: Seq<char>) -> bool {
    v.len() > 0 && match number(v, 10, u32::MAX as nat) {
        Some(n) => !(1900 <= n <= 2100),
        None => true,
    }
}

/// Whether a text can be a version: it is not empty, and no year.
pub fn looks_like_real_version(version: &str) -> (r: bool)
    ensures
        r == is_real_version(version@),
{
    if version.is_empty() {
        return false;
    }
    match parse_u32(version) {
        Some(n) => !(1900 <= n && n <= 2100),
        None => true,
    }
}

/// Whether a line complains or is a notice, and so says no version.
pub open spec fn is_noise(line: Seq<char>) -> bool {
    let lower = lowercase(line);
    ||| occurs(lower, "invalid"@)
    ||| occurs(lower, "unknown option"@)
    ||| occurs(lower, "usage:"@)
    ||| occurs(lower, "error:"@)
    ||| occurs(lower, "must be"@)
    ||| occurs(lower, "superuser"@)
    ||| occurs(lower, "permission"@)
    ||| occurs(lower, "copyright"@)
}

fn noise(line: &str) -> (r: bool)
    ensures
        r == is_noise(line@),
{
    let lower = to_lowercase(line);
    let l = lower.as_str();
    contains(l, "invalid") || contains(l, "unknown option") || contains(l, "usage:") || contains(
        l,
        "error:",
    ) || contains(l, "must be") || contains(l, "superuser") || contains(l, "permission") || contains(
        l,
        "copyright",
    )
}

/// The version that the groups of a match give.
pub open spec fn version_in_groups(groups: Option<Seq<Option<Seq<char>>>>) -> Option<Seq<char>> {
    match group_text(groups, 1) {
        Some(v) => if is_real_version(trimmed(v)) {
            Some(trimmed(v))
        } else {
            None
        },
        None => None,
    }
}

/// The version that the groups of a match of `VERSION_EXTRACT_PATTERN` give.
pub fn version_of_groups(groups: &Option<Vec<Option<String>>>) -> (r: Option<String>)
    ensures
        opt_view(r) == version_in_groups(groups.deep_view()),
{
    match group(groups, 1) {
        Some(v) => {
            let t = trim(v);
            if looks_like_real_version(t.as_str()) {
                Some(t)
            } else {
                None
            }
        },
        None => None,
    }
}

/// The version on a line.
pub open spec fn version_on_line(line: Seq<char>) -> Option<Seq<char>> {
    if is_noise(line) {
        None
    } else {
        version_in_groups(groups_of(VERSION_EXTRACT_PATTERN@, line))
    }
}

/// The first version on the first `n` lines that are not blank.
pub open spec fn first_version(ls: Seq<Seq<char>>, n: int) -> Option<Seq<char>>
    decreases ls.len(),
{
    if ls.len() == 0 || n <= 0 {
        None
    } else {
        let line = trimmed(ls[0]);
        if line.len() == 0 {
            first_version(ls.skip(1), n)
        } else {
            match version_on_line(line) {
                Some(v) => Some(v),
                None => first_version(ls.skip(1), n - 1),
            }
        }
    }
}

/// The first version in what a binary printed.
pub fn extract_version(text: &str) -> (r: Option<String>)
    ensures
        opt_view(r) == first_version(text_lines(text@), MAX_LINES as int),
{
    let ls = lines(text);
    let ghost q = views(ls@);
    let mut i: usize = 0;
    let mut left: usize = MAX_LINES;
    assert(q.skip(0) =~= q);
    while i < ls.len() && left > 0
        invariant
            i <= ls@.len(),
            q == views(ls@),
            q == text_lines(text@),
            first_version(q, MAX_LINES as int) == first_version(q.skip(i as int), left as int),
        decreases ls@.len() - i,
    {
        assert(q.skip(i as int).skip(1) =~= q.skip(i + 1));
        let line = trim(ls[i].as_str());
        i += 1;
        if !line.as_str().is_empty() {
            left -= 1;
            if !noise(line.as_str()) {
                let groups = captures(VERSION_EXTRACT_PATTERN, line.as_str());
                let v = version_of_groups(&groups);
                if v.is_some() {
                    return v;
                }
            }
        }
    }
    None
}

/// A version that was extracted is neither empty nor a year.
pub proof fn extracted_version_is_real(ls: Seq<Seq<char>>, n: int)
    ensures
        match first_version(ls, n) {
            Some(v) => is_real_version(v),
            None => true,
        },
    decreases ls.len(),
{
    if ls.len() > 0 && n > 0 {
        extracted_version_is_real(ls.skip(1), n);
        extracted_version_is_real(ls.skip(1), n - 1);
    }
}

/// What a run of a binary came to.
pub struct Run {
    pub success: bool,
    pub stdout: String,
    pub stderr: String,
}

/// Which output of a run may hold a version. A run that failed counts only where
/// the binary speaks of itself.
pub open spec fn telling_output(exe: Seq<char>, run: Run) -> Option<Seq<char>> {
    if run.success {
        if run.stdout@.len() > 0 {
            Some(run.stdout@)
        } else {
            Some(run.stderr@)
        }
    } else if occurs(run.stderr@, pieces(exe, CharSet::Is('/')).last()) {
        Some(run.stderr@)
    } else {
        None
    }
}

/// The version that a run of a binary told.
pub open spec fn told_version(exe: Seq<char>, run: Option<Run>) -> Option<Seq<char>> {
    match run {
        Some(r) => match telling_output(exe, r) {
            Some(out) => first_version(text_lines(out), MAX_LINES as int),
            None => None,
        },
        None => None,
    }
}

/// The version that a run of the binary `exe` told. A run that could not be made or
/// took too long tells none.
pub fn probe_version(exe: &str, run: &Option<Run>) -> (r: Option<String>)
    ensures
        opt_view(r) == told_version(exe@, *run),
{
    match run {
        Some(r) => {
            if r.success {
                if !r.stdout.as_str().is_empty() {
                    extract_version(r.stdout.as_str())
                } else {
                    extract_version(r.stderr.as_str())
                }
            } else {
                let base = last_piece(exe, CharSet::Is('/'));
                if contains(r.stderr.as_str(), base.as_str()) {
                    extract_version(r.stderr.as_str())
                } else {
                    None
                }
            }
        },
        None => None,
    }
}

/// The flags that ask a binary for its version, in the order in which they are
/// tried.
pub open spec fn version_flags_of() -> Seq<Seq<char>> {
    seq!["--version"@, "-V"@, "-v"@, "version"@]
}

/// The flags that ask a binary for its version, in the order in which they are
/// tried.
pub fn version_flags() -> (r: Vec<String>)
    ensures
        views(r@) == version_flags_of(),
{
    let r = vec![own("--version"), own("-V"), own("-v"), own("version")];
    assert(views(r@) =~= version_flags_of());
    r
}

/// Whether a binary may be run: only a file with an absolute path is.
pub fn may_run(exe: &str, is_file: bool) -> (r: bool)
    ensures
        r == (has_prefix(exe@, "/"@) && is_file),
{
    starts_with(exe, "/") && is_file
}

} // verus!
