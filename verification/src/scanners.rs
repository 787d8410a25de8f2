//! What the service managers print about the services that run.

use vstd::prelude::*;

use crate::host::{OsType, OsTypeView};
use crate::list::{push_pair, push_text};
use crate::number::{number, parse_u32};
use crate::packages::{filled, trim_filled};
use crate::split::{first_of, first_piece, last_piece, lines, nth, pieces, split, split_whitespace, text_lines, words};
use crate::text::{
    chars_before, contains, find, has_prefix, lowercase, occurs, opt_pair_view, opt_view, or_empty, own, pair_views,
    place, same, starts_with, strip_prefixes, to_lowercase, trim, trimmed, views, without_prefixes, CharSet,
};

verus! {

// ── SysV and OpenRC ──────────────────────────────────────────────────────────

/// The service that a line of `service --status-all` or `rc-status --all` says to
/// run.
pub open spec fn sysvinit_line(l: Seq<char>) -> Option<Seq<char>> {
    let t = trimmed(l);
    if has_prefix(t, "[ + ]"@) {
        filled(without_prefixes(t, "[ + ]"@))
    } else {
        match place(t, "["@) {
            Some(i) => if occurs(t, "started"@) {
                filled(t.take(i))
            } else {
                None
            },
            None => None,
        }
    }
}

pub open spec fn sysvinit_services(ls: Seq<Seq<char>>) -> Seq<Seq<char>> {
    ls.filter_map(|l: Seq<char>| sysvinit_line(l))
}

fn parse_sysvinit_line(l: &str) -> (r: Option<String>)
    ensures
        opt_view(r) == sysvinit_line(l@),
{
    let t = trim(l);
    if starts_with(t.as_str(), "[ + ]") {
        let rest = strip_prefixes(t.as_str(), "[ + ]");
        trim_filled(rest.as_str())
    } else {
        match find(t.as_str(), "[") {
            Some(i) => {
                if contains(t.as_str(), "started") {
                    let name = chars_before(t.as_str(), i);
                    trim_filled(name.as_str())
                } else {
                    None
                }
            },
            None => None,
        }
    }
}

/// The services that `service --status-all` or `rc-status --all` says to run.
pub fn parse_sysvinit_running(output: &str) -> (r: Vec<String>)
    ensures
        views(r@) == sysvinit_services(text_lines(output@)),
{
    let ls = lines(output);
    let ghost q = views(ls@);
    let mut out: Vec<String> = Vec::new();
    let mut i: usize = 0;
    assert(views(out@) =~= sysvinit_services(q.take(0)));
    while i < ls.len()
        invariant
            i <= ls@.len(),
            q == views(ls@),
            views(out@) == sysvinit_services(q.take(i as int)),
        decreases ls@.len() - i,
    {
        assert(q.take(i + 1).drop_last() =~= q.take(i as int));
        assert(q.take(i + 1).last() == ls@[i as int]@);
        let name = parse_sysvinit_line(ls[i].as_str());
        push_text(&mut out, name);
        i += 1;
    }
    assert(q.take(q.len() as int) =~= q);
    out
}

// ── launchd ──────────────────────────────────────────────────────────────────

/// Whether a binary of macOS is third-party software: whether it lies where such
/// software is put, or at least not where the system is.
pub open spec fn is_third_party(exe: Seq<char>) -> bool {
    ||| has_prefix(exe, "/opt/"@)
    ||| has_prefix(exe, "/usr/local/"@)
    ||| has_prefix(exe, "/Applications/"@)
    ||| has_prefix(exe, "/Library/"@)
    ||| !(has_prefix(exe, "/System/"@) || has_prefix(exe, "/usr/"@) || has_prefix(exe, "/bin/"@)
        || has_prefix(exe, "/sbin/"@))
}

/// Whether a binary of macOS is third-party software.
pub fn macos_relevant_path(exe: &str) -> (r: bool)
    ensures
        r == is_third_party(exe@),
{
    if starts_with(exe, "/opt/") || starts_with(exe, "/usr/local/") || starts_with(
        exe,
        "/Applications/",
    ) || starts_with(exe, "/Library/") {
        return true;
    }
    !(starts_with(exe, "/System/") || starts_with(exe, "/usr/") || starts_with(exe, "/bin/")
        || starts_with(exe, "/sbin/"))
}

/// The label and the process on a line of `launchctl list`, unless the service
/// does not run or is the system's own.
pub open spec fn launchctl_line(l: Seq<char>) -> Option<(Seq<char>, Seq<char>)> {
    let c = pieces(l, CharSet::Is('\t'));
    if c.len() < 3 {
        None
    } else {
        let pid = trimmed(c[0]);
        let label = trimmed(c[2]);
        if label.len() == 0 || number(pid, 10, u32::MAX as nat) is None || has_prefix(
            label,
            "com.apple."@,
        ) {
            None
        } else {
            Some((label, pid))
        }
    }
}

pub open spec fn launchctl_services(ls: Seq<Seq<char>>) -> Seq<(Seq<char>, Seq<char>)> {
    ls.filter_map(|l: Seq<char>| launchctl_line(l))
}

/// The lines behind the first.
pub open spec fn later_lines(s: Seq<char>) -> Seq<Seq<char>> {
    if text_lines(s).len() == 0 {
        Seq::empty()
    } else {
        text_lines(s).skip(1)
    }
}

fn parse_launchctl_line(l: &str) -> (r: Option<(String, String)>)
    ensures
        opt_pair_view(r) == launchctl_line(l@),
{
    let c = split(l, CharSet::Is('\t'));
    let ghost q = views(c@);
    if c.len() < 3 {
        return None;
    }
    assert(q[0] == c@[0]@ && q[2] == c@[2]@);
    let pid = trim(c[0].as_str());
    let label = trim(c[2].as_str());
    if label.as_str().is_empty() || parse_u32(pid.as_str()).is_none() || starts_with(
        label.as_str(),
        "com.apple.",
    ) {
        None
    } else {
        Some((label, pid))
    }
}

/// The labels and processes of the services that `launchctl list` says to run,
/// without the system's own.
pub fn parse_launchctl_running(output: &str) -> (r: Vec<(String, String)>)
    ensures
        pair_views(r@) == launchctl_services(later_lines(output@)),
{
    let ls = lines(output);
    let ghost q = views(ls@);
    let ghost rows = later_lines(output@);
    let mut out: Vec<(String, String)> = Vec::new();
    let mut i: usize = 1;
    assert(pair_views(out@) =~= launchctl_services(rows.take(0)));
    while i < ls.len()
        invariant
            1 <= i,
            i <= ls@.len() || i == 1,
            q == views(ls@),
            rows == (if q.len() == 0 {
                Seq::empty()
            } else {
                q.skip(1)
            }),
            pair_views(out@) == launchctl_services(rows.take(i - 1)),
        decreases ls@.len() - i,
    {
        proof {
            assert(rows.take(i as int).drop_last() =~= rows.take(i - 1));
            assert(rows.take(i as int).last() == ls@[i as int]@);
        }
        let p = parse_launchctl_line(ls[i].as_str());
        push_pair(&mut out, p);
        i += 1;
    }
    assert(rows.take(i - 1) =~= rows);
    out
}

/// The last component of a path.
pub fn binary_basename(exe: &str) -> (r: String)
    ensures
        r@ == pieces(exe@, CharSet::Is('/')).last(),
{
    last_piece(exe, CharSet::Is('/'))
}

/// The last component of a label, where it is not blank.
pub open spec fn label_name(label: Seq<char>) -> Option<Seq<char>> {
    filled(pieces(label, CharSet::Is('.')).last())
}

/// The last component of a label, where it is not blank.
pub fn friendly_label(label: &str) -> (r: Option<String>)
    ensures
        opt_view(r) == label_name(label@),
{
    let last = last_piece(label, CharSet::Is('.'));
    trim_filled(last.as_str())
}

/// The binary that `ps` prints of a process, where it is third-party software.
pub open spec fn launchd_binary(comm: Seq<char>) -> Option<Seq<char>> {
    let exe = trimmed(comm);
    if has_prefix(exe, "/"@) && is_third_party(exe) {
        Some(exe)
    } else {
        None
    }
}

/// The binary that `ps` prints of a process, where it is third-party software.
pub fn launchd_exe(comm: &str) -> (r: Option<String>)
    ensures
        opt_view(r) == launchd_binary(comm@),
{
    let exe = trim(comm);
    if starts_with(exe.as_str(), "/") && macos_relevant_path(exe.as_str()) {
        Some(exe)
    } else {
        None
    }
}

/// The name of a service of launchd: that of its formula, else that of its label,
/// else that of its binary.
pub open spec fn launchd_name_of(
    formula: Option<Seq<char>>,
    label: Seq<char>,
    exe: Seq<char>,
) -> Seq<char> {
    match formula {
        Some(f) => f,
        None => match label_name(label) {
            Some(n) => n,
            None => pieces(exe, CharSet::Is('/')).last(),
        },
    }
}

/// The name of a service of launchd.
pub fn launchd_name(formula: Option<String>, label: &str, exe: &str) -> (r: String)
    ensures
        r@ == launchd_name_of(opt_view(formula), label@, exe@),
{
    match formula {
        Some(f) => f,
        None => match friendly_label(label) {
            Some(n) => n,
            None => binary_basename(exe),
        },
    }
}

// ── BSD ──────────────────────────────────────────────────────────────────────

/// The name of a script on a line of `service -e`.
pub open spec fn enabled_line(l: Seq<char>) -> Option<Seq<char>> {
    let name = pieces(trimmed(l), CharSet::Is('/')).last();
    if name.len() == 0 {
        None
    } else {
        Some(name)
    }
}

pub open spec fn enabled_names(ls: Seq<Seq<char>>) -> Seq<Seq<char>> {
    ls.filter_map(|l: Seq<char>| enabled_line(l))
}

/// The names of the scripts that `service -e` prints the paths of.
pub fn parse_enabled(output: &str) -> (r: Vec<String>)
    ensures
        views(r@) == enabled_names(text_lines(output@)),
{
    let ls = lines(output);
    let ghost q = views(ls@);
    let mut out: Vec<String> = Vec::new();
    let mut i: usize = 0;
    assert(views(out@) =~= enabled_names(q.take(0)));
    while i < ls.len()
        invariant
            i <= ls@.len(),
            q == views(ls@),
            views(out@) == enabled_names(q.take(i as int)),
        decreases ls@.len() - i,
    {
        assert(q.take(i + 1).drop_last() =~= q.take(i as int));
        assert(q.take(i + 1).last() == ls@[i as int]@);
        let t = trim(ls[i].as_str());
        let name = last_piece(t.as_str(), CharSet::Is('/'));
        if !name.as_str().is_empty() {
            push_text(&mut out, Some(name));
        }
        i += 1;
    }
    assert(q.take(q.len() as int) =~= q);
    out
}

/// Whether a script says that its service runs.
pub fn says_running(status: &str) -> (r: bool)
    ensures
        r == occurs(lowercase(status@), "running"@),
{
    let lower = to_lowercase(status);
    contains(lower.as_str(), "running")
}

pub open spec fn started_names(ls: Seq<Seq<char>>) -> Seq<Seq<char>> {
    ls.filter_map(|l: Seq<char>| filled(l))
}

/// The services that `rcctl ls started` prints.
pub fn parse_started(output: &str) -> (r: Vec<String>)
    ensures
        views(r@) == started_names(text_lines(output@)),
{
    let ls = lines(output);
    let ghost q = views(ls@);
    let mut out: Vec<String> = Vec::new();
    let mut i: usize = 0;
    assert(views(out@) =~= started_names(q.take(0)));
    while i < ls.len()
        invariant
            i <= ls@.len(),
            q == views(ls@),
            views(out@) == started_names(q.take(i as int)),
        decreases ls@.len() - i,
    {
        assert(q.take(i + 1).drop_last() =~= q.take(i as int));
        assert(q.take(i + 1).last() == ls@[i as int]@);
        let name = trim_filled(ls[i].as_str());
        push_text(&mut out, name);
        i += 1;
    }
    assert(q.take(q.len() as int) =~= q);
    out
}

// ── SMF ──────────────────────────────────────────────────────────────────────

/// The service on a line of `svcs -H -o state,fmri`, where it is online.
pub open spec fn svcs_line(l: Seq<char>) -> Option<Seq<char>> {
    let w = words(l);
    if w.len() >= 2 && w[0] == "online"@ {
        Some(w[1])
    } else {
        None
    }
}

pub open spec fn online_services(ls: Seq<Seq<char>>) -> Seq<Seq<char>> {
    ls.filter_map(|l: Seq<char>| svcs_line(l))
}

/// The services that `svcs -H -o state,fmri` says to be online.
pub fn parse_svcs_online(output: &str) -> (r: Vec<String>)
    ensures
        views(r@) == online_services(text_lines(output@)),
{
    let ls = lines(output);
    let ghost q = views(ls@);
    let mut out: Vec<String> = Vec::new();
    let mut i: usize = 0;
    assert(views(out@) =~= online_services(q.take(0)));
    while i < ls.len()
        invariant
            i <= ls@.len(),
            q == views(ls@),
            views(out@) == online_services(q.take(i as int)),
        decreases ls@.len() - i,
    {
        assert(q.take(i + 1).drop_last() =~= q.take(i as int));
        assert(q.take(i + 1).last() == ls@[i as int]@);
        let w = split_whitespace(ls[i].as_str());
        if w.len() >= 2 {
            let ghost c = views(w@);
            assert(c[0] == w@[0]@ && c[1] == w@[1]@);
            if same(w[0].as_str(), "online") {
                push_text(&mut out, Some(w[1].clone()));
            }
        }
        i += 1;
    }
    assert(q.take(q.len() as int) =~= q);
    out
}

/// The first of the words that is an absolute path.
pub open spec fn first_absolute(w: Seq<Seq<char>>) -> Option<Seq<char>>
    decreases w.len(),
{
    if w.len() == 0 {
        None
    } else if has_prefix(w[0], "/"@) {
        Some(w[0])
    } else {
        first_absolute(w.skip(1))
    }
}

/// The binary in a start method: its first absolute path.
pub fn smf_absolute(exec: &str) -> (r: Option<String>)
    ensures
        opt_view(r) == first_absolute(words(exec@)),
{
    let w = split_whitespace(exec);
    let ghost q = views(w@);
    let mut i: usize = 0;
    assert(q.skip(0) =~= q);
    while i < w.len()
        invariant
            i <= w@.len(),
            q == views(w@),
            q == words(exec@),
            first_absolute(q) == first_absolute(q.skip(i as int)),
        decreases w@.len() - i,
    {
        assert(q.skip(i as int).skip(1) =~= q.skip(i + 1));
        if starts_with(w[i].as_str(), "/") {
            return Some(w[i].clone());
        }
        i += 1;
    }
    None
}

/// The command of a start method: its first word, or nothing.
pub fn smf_command(exec: &str) -> (r: String)
    ensures
        r@ == or_empty(first_of(words(exec@))),
{
    let w = split_whitespace(exec);
    match nth(&w, 0) {
        Some(f) => own(f),
        None => String::new(),
    }
}

/// The name of a service of SMF.
pub open spec fn smf_name(fmri: Seq<char>) -> Seq<char> {
    let path = pieces(without_prefixes(fmri, "svc:/"@), CharSet::Is(':'))[0];
    pieces(path, CharSet::Is('/')).last()
}

/// The name of a service of SMF: the last component of its path.
pub fn smf_display(fmri: &str) -> (r: String)
    ensures
        r@ == smf_name(fmri@),
{
    let bare = strip_prefixes(fmri, "svc:/");
    let path = first_piece(bare.as_str(), CharSet::Is(':'));
    last_piece(path.as_str(), CharSet::Is('/'))
}

// ── Which service manager ────────────────────────────────────────────────────

/// A way to find the services that run.
#[derive(Debug, Clone, Copy, PartialEq, Eq, Structural)]
pub enum Scanner {
    Systemd,
    SysvInit,
    Launchctl,
    BsdRc,
    OpenBsd,
    NetBsd,
    Smf,
    Windows,
    Unsupported,
}

/// The way to find the services on an operating system; on Linux, systemd where it
/// has units.
pub open spec fn scanner_of(os: OsTypeView, units: int) -> Scanner {
    match os {
        OsTypeView::Linux(_) => if units > 0 {
            Scanner::Systemd
        } else {
            Scanner::SysvInit
        },
        OsTypeView::MacOs => Scanner::Launchctl,
        OsTypeView::FreeBsd => Scanner::BsdRc,
        OsTypeView::DragonFlyBsd => Scanner::BsdRc,
        OsTypeView::OpenBsd => Scanner::OpenBsd,
        OsTypeView::NetBsd => Scanner::NetBsd,
        OsTypeView::Solaris => Scanner::Smf,
        OsTypeView::Illumos => Scanner::Smf,
        OsTypeView::Windows(_) => Scanner::Windows,
        OsTypeView::Unsupported(_) => Scanner::Unsupported,
    }
}

/// The way to find the services on an operating system, given how many units
/// systemd has.
pub fn scan_services(os: &OsType, units: usize) -> (r: Scanner)
    ensures
        r == scanner_of(os.deep_view(), units as int),
{
    match os {
        OsType::Linux(_) => if units > 0 {
            Scanner::Systemd
        } else {
            Scanner::SysvInit
        },
        OsType::MacOs => Scanner::Launchctl,
        OsType::FreeBsd => Scanner::BsdRc,
        OsType::DragonFlyBsd => Scanner::BsdRc,
        OsType::OpenBsd => Scanner::OpenBsd,
        OsType::NetBsd => Scanner::NetBsd,
        OsType::Solaris => Scanner::Smf,
        OsType::Illumos => Scanner::Smf,
        OsType::Windows(_) => Scanner::Windows,
        OsType::Unsupported(_) => Scanner::Unsupported,
    }
}

} // verus!
