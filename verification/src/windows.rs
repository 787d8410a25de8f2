//! What a Windows host reports of itself.

use vstd::prelude::*;

use crate::asset::{Asset, AssetView, Ecosystem, Source};
use crate::cpe::{
    app_cpe, app_name, clean_app_name, cpe_for_app, cpe_for_os, cpe_version, os_cpe, product_behind, win_os_product,
    windows_product,
};
use crate::host::{windows_version, WinOs, WinOsView};
use crate::number::{number, parse_u32};
use crate::split::{
    cut, first_of, last_piece, lines, nth, pieces, replace_chars, replace_first, split_once, split_whitespace,
    text_lines, with_chars_replaced, with_first_replaced, words,
};
use crate::text::{
    ascii_lower, char_is_digit, char_is_letter, char_is_space, chars_of, contains_char, eq_ignore_ascii_case,
    has_prefix, is_digit, is_letter, is_space, lowercase, opt_view, or_empty, own, same, starts_with, to_lowercase,
    to_uppercase, trim, trim_end_matches, trim_matches, trimmed, trimmed_end, trimmed_of, uppercase, views, CharSet,
};

verus! {

// ── Text from the console ────────────────────────────────────────────────────

/// Where a text stands with respect to escape sequences.
#[derive(Debug, Clone, Copy, PartialEq, Eq, Structural)]
pub enum AnsiMode {
    Plain,
    /// Behind an escape character.
    Escape,
    /// In a control sequence (`ESC [`), before its final character.
    Sequence,
    /// In a command to the system (`ESC ]`), before the bell or the `ESC \` that ends it.
    Command,
    /// In such a command, behind an escape character.
    CommandEscape,
}

pub open spec fn is_final(c: char) -> bool {
    '@' as int <= c as int <= '~' as int
}

/// The mode behind a character.
pub open spec fn ansi_next(mode: AnsiMode, c: char) -> AnsiMode {
    match mode {
        AnsiMode::Sequence => if is_final(c) {
            AnsiMode::Plain
        } else {
            AnsiMode::Sequence
        },
        AnsiMode::Command | AnsiMode::CommandEscape => if c == '\u{7}' || (mode
            == AnsiMode::CommandEscape && c == '\\') {
            AnsiMode::Plain
        } else if c == '\u{1b}' {
            AnsiMode::CommandEscape
        } else {
            AnsiMode::Command
        },
        AnsiMode::Plain | AnsiMode::Escape => if mode == AnsiMode::Escape && c == '[' {
            AnsiMode::Sequence
        } else if mode == AnsiMode::Escape && c == ']' {
            AnsiMode::Command
        } else if c == '\u{1b}' {
            AnsiMode::Escape
        } else {
            AnsiMode::Plain
        },
    }
}

/// Whether a character is part of the text.
pub open spec fn ansi_keeps(mode: AnsiMode, c: char) -> bool {
    match mode {
        AnsiMode::Sequence | AnsiMode::Command | AnsiMode::CommandEscape => false,
        AnsiMode::Escape => c != '[' && c != ']' && c != '\u{1b}' && c != '\r',
        AnsiMode::Plain => c != '\u{1b}' && c != '\r',
    }
}

pub open spec fn ansi_mode(s: Seq<char>) -> AnsiMode
    decreases s.len(),
{
    if s.len() == 0 {
        AnsiMode::Plain
    } else {
        ansi_next(ansi_mode(s.drop_last()), s.last())
    }
}

/// A text without escape sequences and carriage returns.
pub open spec fn stripped(s: Seq<char>) -> Seq<char>
    decreases s.len(),
{
    if s.len() == 0 {
        s
    } else {
        let before = stripped(s.drop_last());
        if ansi_keeps(ansi_mode(s.drop_last()), s.last()) {
            before.push(s.last())
        } else {
            before
        }
    }
}

fn code(c: char) -> (r: u32)
    ensures
        r == c as int,
{
    c as u32
}

/// A text without escape sequences and carriage returns.
pub fn strip_ansi(s: &str) -> (r: String)
    ensures
        r@ == stripped(s@),
{
    let v = chars_of(s);
    let mut out = String::new();
    let mut mode = AnsiMode::Plain;
    let mut i: usize = 0;
    assert(out@ =~= stripped(v@.take(0)));
    while i < v.len()
        invariant
            i <= v@.len(),
            mode == ansi_mode(v@.take(i as int)),
            out@ == stripped(v@.take(i as int)),
        decreases v@.len() - i,
    {
        proof {
            assert(v@.take(i + 1).drop_last() =~= v@.take(i as int));
            assert(v@.take(i + 1).last() == v@[i as int]);
        }
        let c = v[i];
        match mode {
            AnsiMode::Sequence => {
                if code('@') <= code(c) && code(c) <= code('~') {
                    mode = AnsiMode::Plain;
                }
            },
            AnsiMode::Command | AnsiMode::CommandEscape => {
                if c == '\u{7}' || (mode == AnsiMode::CommandEscape && c == '\\') {
                    mode = AnsiMode::Plain;
                } else if c == '\u{1b}' {
                    mode = AnsiMode::CommandEscape;
                } else {
                    mode = AnsiMode::Command;
                }
            },
            AnsiMode::Plain | AnsiMode::Escape => {
                if mode == AnsiMode::Escape && c == '[' {
                    mode = AnsiMode::Sequence;
                } else if mode == AnsiMode::Escape && c == ']' {
                    mode = AnsiMode::Command;
                } else if c == '\u{1b}' {
                    mode = AnsiMode::Escape;
                } else {
                    mode = AnsiMode::Plain;
                    if c != '\r' {
                        out.push(c);
                    }
                }
            },
        }
        i += 1;
    }
    assert(v@.take(v@.len() as int) =~= v@);
    out
}

/// A stripped text holds no escape character and no carriage return.
pub proof fn stripped_has_no_controls(s: Seq<char>, i: int)
    requires
        0 <= i < stripped(s).len(),
    ensures
        stripped(s)[i] != '\u{1b}',
        stripped(s)[i] != '\r',
    decreases s.len(),
{
    let before = stripped(s.drop_last());
    if i < before.len() {
        stripped_has_no_controls(s.drop_last(), i);
    }
}

/// Whether a text ends neither a control sequence nor a command to the system.
pub open spec fn ends_nothing(s: Seq<char>) -> bool {
    forall|i: int| 0 <= i < s.len() ==> (#[trigger] s[i]) != '\u{7}' && s[i] != '\u{1b}'
}

proof fn lemma_command_goes_on(s: Seq<char>, t: Seq<char>)
    requires
        ansi_mode(s) == AnsiMode::Command,
        ends_nothing(t),
    ensures
        ansi_mode(s + t) == AnsiMode::Command,
        stripped(s + t) == stripped(s),
    decreases t.len(),
{
    if t.len() == 0 {
        assert(s + t =~= s);
    } else {
        let d = t.drop_last();
        assert(ends_nothing(d)) by {
            assert forall|i: int| 0 <= i < d.len() implies (#[trigger] d[i]) != '\u{7}' && d[i]
                != '\u{1b}' by {
                assert(d[i] == t[i]);
            }
        }
        lemma_command_goes_on(s, d);
        assert((s + t).drop_last() =~= s + d);
        assert((s + t).last() == t[t.len() - 1]);
    }
}

/// A command to the system, such as one that sets a title, leaves nothing of itself,
/// whether a bell or an `ESC \` ends it.
pub proof fn commands_leave_nothing(s: Seq<char>, t: Seq<char>)
    requires
        ansi_mode(s) == AnsiMode::Plain,
        ends_nothing(t),
    ensures
        ansi_mode(s + seq!['\u{1b}', ']'] + t + seq!['\u{7}']) == AnsiMode::Plain,
        stripped(s + seq!['\u{1b}', ']'] + t + seq!['\u{7}']) == stripped(s),
        ansi_mode(s + seq!['\u{1b}', ']'] + t + seq!['\u{1b}', '\\']) == AnsiMode::Plain,
        stripped(s + seq!['\u{1b}', ']'] + t + seq!['\u{1b}', '\\']) == stripped(s),
{
    let a = s.push('\u{1b}');
    let b = a.push(']');
    assert(a.drop_last() =~= s);
    assert(ansi_mode(a) == AnsiMode::Escape && stripped(a) == stripped(s));
    assert(b.drop_last() =~= a);
    assert(ansi_mode(b) == AnsiMode::Command && stripped(b) == stripped(s));
    assert(s + seq!['\u{1b}', ']'] =~= b);
    lemma_command_goes_on(b, t);
    let c = b + t;
    assert(c + seq!['\u{7}'] =~= c.push('\u{7}'));
    assert(c.push('\u{7}').drop_last() =~= c);
    let d = c.push('\u{1b}');
    assert(d.drop_last() =~= c);
    assert(ansi_mode(d) == AnsiMode::CommandEscape && stripped(d) == stripped(s));
    assert(c + seq!['\u{1b}', '\\'] =~= d.push('\\'));
    assert(d.push('\\').drop_last() =~= d);
}

// ── Versions ─────────────────────────────────────────────────────────────────

/// Whether a character can stand in a version.
pub open spec fn is_version_char(c: char) -> bool {
    is_digit(c) || c == '.' || c == '-' || c == '_' || is_letter(c)
}

/// The longest start of a text that could be a version.
pub open spec fn version_run(s: Seq<char>) -> Seq<char>
    decreases s.len(),
{
    if s.len() == 0 || !is_version_char(s[0]) {
        Seq::empty()
    } else {
        seq![s[0]] + version_run(s.skip(1))
    }
}

/// The first word of a version, with dots for commas where it has no dots.
pub open spec fn version_word(raw: Seq<char>) -> Seq<char> {
    let first = or_empty(first_of(words(raw)));
    if first.contains(',') && !first.contains('.') {
        with_chars_replaced(first, CharSet::Is(','), '.')
    } else {
        first
    }
}

/// A version as it is used: the start of its first word, where that begins with a
/// digit, or else the whole text without white space around it.
pub open spec fn plain_version(raw: Seq<char>) -> Seq<char> {
    let v = trimmed_of(version_run(version_word(raw)), CharSet::Joiners);
    if v.len() > 0 && is_digit(v[0]) {
        v
    } else {
        trimmed(raw)
    }
}

fn take_version_run(s: &str) -> (r: String)
    ensures
        r@ == version_run(s@),
{
    let v = chars_of(s);
    let mut out = String::new();
    let mut i: usize = 0;
    assert(v@.skip(0) =~= v@);
    assert(version_run(s@) =~= out@ + version_run(v@.skip(0)));
    while i < v.len()
        invariant_except_break
            version_run(s@) == out@ + version_run(v@.skip(i as int)),
        invariant
            i <= v@.len(),
        ensures
            out@ == version_run(s@),
        decreases v@.len() - i,
    {
        let c = v[i];
        let ghost before = out@;
        let ghost rest = v@.skip(i as int);
        assert(rest[0] == c);
        assert(rest.skip(1) =~= v@.skip(i + 1));
        if !(char_is_digit(c) || c == '.' || c == '-' || c == '_' || char_is_letter(c)) {
            assert(out@ + version_run(rest) =~= out@);
            break;
        }
        out.push(c);
        assert(before + version_run(rest) =~= out@ + version_run(v@.skip(i + 1)));
        i += 1;
        if i == v.len() {
            assert(out@ + version_run(v@.skip(i as int)) =~= out@);
        }
    }
    proof {
        if v@.len() == 0 {
            assert(out@ =~= version_run(s@));
        }
    }
    out
}

/// A version as it is used.
pub fn sanitize_version(raw: &str) -> (r: String)
    ensures
        r@ == plain_version(raw@),
{
    let w = split_whitespace(raw);
    let first = match nth(&w, 0) {
        Some(f) => own(f),
        None => String::new(),
    };
    let first = if contains_char(first.as_str(), ',') && !contains_char(first.as_str(), '.') {
        replace_chars(first.as_str(), CharSet::Is(','), '.')
    } else {
        first
    };
    let run = take_version_run(first.as_str());
    let v = trim_matches(run.as_str(), CharSet::Joiners);
    let c = chars_of(v.as_str());
    if c.len() > 0 && char_is_digit(c[0]) {
        v
    } else {
        trim(raw)
    }
}

// ── Entries that are printed as JSON ─────────────────────────────────────────

/// The JSON in what a script printed; none where it printed nothing.
pub open spec fn payload_of(raw: Seq<char>) -> Option<Seq<char>> {
    let t = trimmed(raw);
    if t.len() == 0 || t == "null"@ {
        None
    } else {
        Some(t)
    }
}

/// The JSON in what a script printed; none where it printed nothing.
pub fn json_payload(raw: &str) -> (r: Option<String>)
    ensures
        opt_view(r) == payload_of(raw@),
{
    let t = trim(raw);
    if t.as_str().is_empty() || same(t.as_str(), "null") {
        None
    } else {
        Some(t)
    }
}

/// The entries that a script printed: `many` is what it printed as a list of
/// entries, `one` what it printed as one entry. A list of one entry is printed as
/// that entry.
pub fn parse_json_array<T>(many: Option<Vec<T>>, one: Option<T>) -> (r: Vec<T>)
    ensures
        r@ == (match many {
            Some(v) => v@,
            None => match one {
                Some(x) => seq![x],
                None => Seq::empty(),
            },
        }),
{
    match many {
        Some(v) => v,
        None => match one {
            Some(x) => vec![x],
            None => Vec::new(),
        },
    }
}

// ── Which Windows ────────────────────────────────────────────────────────────

/// What the registry says of the installation.
#[derive(Debug)]
pub struct WinCurrentVersion {
    pub product_name: Option<String>,
    pub display_version: Option<String>,
    pub release_id: Option<String>,
    pub current_build: Option<String>,
    pub ubr: Option<u32>,
    pub edition_id: Option<String>,
    pub installation_type: Option<String>,
    pub arch: Option<String>,
}

impl Default for WinCurrentVersion {
    fn default() -> (r: Self)
        ensures
            r == (WinCurrentVersion {
                product_name: None,
                display_version: None,
                release_id: None,
                current_build: None,
                ubr: None,
                edition_id: None,
                installation_type: None,
                arch: None,
            }),
    {
        WinCurrentVersion {
            product_name: None,
            display_version: None,
            release_id: None,
            current_build: None,
            ubr: None,
            edition_id: None,
            installation_type: None,
            arch: None,
        }
    }
}

/// The number of the build; zero where it is not given.
pub open spec fn build_of(current_build: Option<Seq<char>>) -> u32 {
    match current_build {
        Some(s) => match number(trimmed(s), 10, u32::MAX as nat) {
            Some(n) => n as u32,
            None => 0,
        },
        None => 0,
    }
}

pub open spec fn is_server_of(install_type: Seq<char>, edition: Seq<char>) -> bool {
    ||| ascii_lower(install_type) == ascii_lower("Server"@)
    ||| ascii_lower(install_type) == ascii_lower("Server Core"@)
    ||| has_prefix(lowercase(edition), "server"@)
}

pub open spec fn arch_of(arch: Seq<char>) -> Seq<char> {
    let upper = uppercase(arch);
    if upper == "AMD64"@ {
        "x64"@
    } else if upper == "ARM64"@ {
        "arm64"@
    } else if upper == "X86"@ {
        "x86"@
    } else {
        ""@
    }
}

/// How the installation is called. The registry calls Windows 11 by the name of its
/// predecessor; the build tells them apart.
pub open spec fn display_name_of(product_name: Seq<char>, build: u32, is_server: bool) -> Seq<char> {
    let name = if !is_server && build >= 22000 && has_prefix(product_name, "Windows 10"@) {
        with_first_replaced(product_name, "Windows 10"@, "Windows 11"@)
    } else {
        product_name
    };
    if name.len() == 0 {
        if is_server {
            "Windows Server"@
        } else {
            "Windows"@
        }
    } else {
        name
    }
}

/// The installation that the registry describes.
pub open spec fn installation(cv: WinCurrentVersion) -> WinOsView {
    let build = build_of(opt_view(cv.current_build));
    let feature = match cv.display_version {
        Some(v) => v@,
        None => or_empty(opt_view(cv.release_id)),
    };
    let edition = or_empty(opt_view(cv.edition_id));
    let is_server = is_server_of(or_empty(opt_view(cv.installation_type)), edition);
    WinOsView {
        product: windows_product(build, is_server, feature),
        display_name: display_name_of(or_empty(opt_view(cv.product_name)), build, is_server),
        feature,
        build,
        ubr: match cv.ubr {
            Some(n) => n,
            None => 0,
        },
        is_server,
        edition,
        arch: arch_of(or_empty(opt_view(cv.arch))),
    }
}

pub(crate) fn string_or_nothing(s: Option<String>) -> (r: String)
    ensures
        r@ == or_empty(opt_view(s)),
{
    match s {
        Some(x) => x,
        None => String::new(),
    }
}

/// The installation that the registry describes.
pub fn winos_from_cv(cv: WinCurrentVersion) -> (r: WinOs)
    ensures
        r.deep_view() == installation(cv),
{
    let build: u32 = match &cv.current_build {
        Some(s) => {
            let t = trim(s.as_str());
            match parse_u32(t.as_str()) {
                Some(n) => n,
                None => 0,
            }
        },
        None => 0,
    };
    let ubr: u32 = match cv.ubr {
        Some(n) => n,
        None => 0,
    };
    let feature = match cv.display_version {
        Some(v) => v,
        None => string_or_nothing(cv.release_id),
    };
    let edition = string_or_nothing(cv.edition_id);
    let install_type = string_or_nothing(cv.installation_type);
    let edition_lower = to_lowercase(edition.as_str());
    let is_server = eq_ignore_ascii_case(install_type.as_str(), "Server") || eq_ignore_ascii_case(
        install_type.as_str(),
        "Server Core",
    ) || starts_with(edition_lower.as_str(), "server");
    let arch = string_or_nothing(cv.arch);
    let upper = to_uppercase(arch.as_str());
    let arch = if same(upper.as_str(), "AMD64") {
        own("x64")
    } else if same(upper.as_str(), "ARM64") {
        own("arm64")
    } else if same(upper.as_str(), "X86") {
        own("x86")
    } else {
        own("")
    };
    let product = win_os_product(build, is_server, feature.as_str());
    let name = string_or_nothing(cv.product_name);
    let name = if !is_server && build >= 22000 && starts_with(name.as_str(), "Windows 10") {
        replace_first(name.as_str(), "Windows 10", "Windows 11")
    } else {
        name
    };
    let display_name = if name.as_str().is_empty() {
        if is_server {
            own("Windows Server")
        } else {
            own("Windows")
        }
    } else {
        name
    };
    WinOs { product, display_name, feature, build, ubr, is_server, edition, arch }
}

/// The installation, where the registry could be read; nothing known of it, where
/// not.
pub fn detect_win_os(cv: Option<WinCurrentVersion>) -> (r: WinOs)
    ensures
        r.deep_view() == (match cv {
            Some(c) => installation(c),
            None => WinOsView {
                product: Seq::empty(),
                display_name: Seq::empty(),
                feature: Seq::empty(),
                build: 0,
                ubr: 0,
                is_server: false,
                edition: Seq::empty(),
                arch: Seq::empty(),
            },
        }),
{
    match cv {
        Some(c) => winos_from_cv(c),
        None => WinOs::default(),
    }
}

// ── Assets ───────────────────────────────────────────────────────────────────

/// Windows as an asset.
pub open spec fn windows_asset(w: WinOsView) -> AssetView {
    AssetView {
        ecosystem: Ecosystem::WindowsOs,
        name: w.display_name,
        pkg_name: Some(w.display_name),
        version: windows_version(w.build, w.ubr),
        sources: seq![Source::PackageDb],
        locations: Seq::empty(),
        runtime: None,
        cpe: Some(os_cpe(w)),
    }
}

pub(crate) fn no_texts() -> (r: Vec<String>)
    ensures
        views(r@) == Seq::<Seq<char>>::empty(),
{
    let r: Vec<String> = Vec::new();
    assert(views(r@) =~= Seq::<Seq<char>>::empty());
    r
}

pub(crate) fn one_text(s: String) -> (r: Vec<String>)
    ensures
        views(r@) == seq![s@],
{
    let r = vec![s];
    assert(views(r@) =~= seq![s@]);
    r
}

pub(crate) fn one_source(s: Source) -> (r: Vec<Source>)
    ensures
        r@ == seq![s],
{
    let r = vec![s];
    assert(r@ =~= seq![s]);
    r
}

/// Windows as an asset.
pub fn os_asset(w: &WinOs) -> (r: Asset)
    ensures
        r.deep_view() == windows_asset(w.deep_view()),
{
    Asset {
        ecosystem: Ecosystem::WindowsOs,
        name: w.display_name.clone(),
        pkg_name: Some(w.display_name.clone()),
        version: w.version_string(),
        sources: one_source(Source::PackageDb),
        locations: no_texts(),
        runtime: None,
        cpe: Some(cpe_for_os(w)),
    }
}

/// The CPE of an application, where its name is known.
pub open spec fn cpe_of(name: Seq<char>, version: Seq<char>) -> Option<Seq<char>> {
    match product_behind(lowercase(trimmed(name))) {
        Some((vendor, product)) => Some(app_cpe(vendor, product, cpe_version(version))),
        None => None,
    }
}

/// An application as an asset, unless nothing is left of its name.
pub open spec fn application(
    eco: Ecosystem,
    raw_name: Seq<char>,
    version: Seq<char>,
    tag: Seq<char>,
) -> Option<AssetView> {
    let name = app_name(raw_name);
    if name.len() == 0 {
        None
    } else {
        Some(
            AssetView {
                ecosystem: eco,
                name,
                pkg_name: Some(name),
                version: plain_version(version),
                sources: seq![Source::PackageDb],
                locations: seq![tag],
                runtime: None,
                cpe: cpe_of(name, plain_version(version)),
            },
        )
    }
}

/// An application as an asset, found in the list `tag`; none where nothing is left
/// of its name.
pub fn app_asset(eco: Ecosystem, raw_name: &str, version: &str, tag: &str) -> (r: Option<Asset>)
    ensures
        r.deep_view() == application(eco, raw_name@, version@, tag@),
{
    let name = clean_app_name(raw_name);
    if name.as_str().is_empty() {
        return None;
    }
    let version = sanitize_version(version);
    let cpe = cpe_for_app(name.as_str(), version.as_str());
    Some(
        Asset {
            ecosystem: eco,
            name: name.clone(),
            pkg_name: Some(name),
            version,
            sources: one_source(Source::PackageDb),
            locations: one_text(own(tag)),
            runtime: None,
            cpe,
        },
    )
}

/// A package of a language manager as an asset.
pub open spec fn language_asset(eco: Ecosystem, name: Seq<char>, version: Seq<char>) -> AssetView {
    AssetView {
        ecosystem: eco,
        name,
        pkg_name: Some(name),
        version,
        sources: seq![Source::PackageDb],
        locations: Seq::empty(),
        runtime: None,
        cpe: None,
    }
}

/// A package of a language manager as an asset.
pub fn lang_asset(eco: Ecosystem, name: &str, version: &str) -> (r: Asset)
    ensures
        r.deep_view() == language_asset(eco, name@, version@),
{
    Asset {
        ecosystem: eco,
        name: own(name),
        pkg_name: Some(own(name)),
        version: own(version),
        sources: one_source(Source::PackageDb),
        locations: no_texts(),
        runtime: None,
        cpe: None,
    }
}

pub(crate) fn push_asset(out: &mut Vec<Asset>, a: Option<Asset>)
    ensures
        final(out).deep_view() == (match a.deep_view() {
            Some(x) => old(out).deep_view() + seq![x],
            None => old(out).deep_view(),
        }),
{
    let ghost before = out.deep_view();
    match a {
        Some(x) => {
            out.push(x);
            assert(out.deep_view() =~= before + seq![x.deep_view()]);
        },
        None => {},
    }
}

// ── Applications ─────────────────────────────────────────────────────────────

/// An entry with a name and a version, either of which may be missing.
#[derive(Debug)]
pub struct NamedVersion {
    pub name: Option<String>,
    pub version: Option<String>,
}

pub struct NamedVersionView {
    pub name: Option<Seq<char>>,
    pub version: Option<Seq<char>>,
}

impl DeepView for NamedVersion {
    type V = NamedVersionView;

    open spec fn deep_view(&self) -> NamedVersionView {
        NamedVersionView { name: opt_view(self.name), version: opt_view(self.version) }
    }
}

pub(crate) fn text_or_nothing(s: &Option<String>) -> (r: &str)
    ensures
        r@ == or_empty(opt_view(*s)),
{
    match s {
        Some(x) => x.as_str(),
        None => {
            proof {
                reveal_strlit("");
                assert(""@ =~= Seq::<char>::empty());
            }
            ""
        },
    }
}

/// An application of a list whose entries have names.
pub open spec fn entry_asset(e: NamedVersionView, tag: Seq<char>) -> Option<AssetView> {
    match e.name {
        Some(n) => application(Ecosystem::WinApp, n, or_empty(e.version), tag),
        None => None,
    }
}

pub open spec fn entry_assets(es: Seq<NamedVersionView>, tag: Seq<char>) -> Seq<AssetView> {
    es.filter_map(|e: NamedVersionView| entry_asset(e, tag))
}

/// The applications of a list whose entries have names.
fn list_assets(entries: &Vec<NamedVersion>, tag: &str) -> (r: Vec<Asset>)
    ensures
        r.deep_view() == entry_assets(entries.deep_view(), tag@),
{
    let ghost q = entries.deep_view();
    let mut out: Vec<Asset> = Vec::new();
    let mut i: usize = 0;
    assert(out.deep_view() =~= entry_assets(q.take(0), tag@));
    while i < entries.len()
        invariant
            i <= entries@.len(),
            q == entries.deep_view(),
            out.deep_view() == entry_assets(q.take(i as int), tag@),
        decreases entries@.len() - i,
    {
        assert(q.take(i + 1).drop_last() =~= q.take(i as int));
        assert(q.take(i + 1).last() == entries@[i as int].deep_view());
        if let Some(n) = &entries[i].name {
            let a = app_asset(
                Ecosystem::WinApp,
                n.as_str(),
                text_or_nothing(&entries[i].version),
                tag,
            );
            push_asset(&mut out, a);
        }
        i += 1;
    }
    assert(q.take(q.len() as int) =~= q);
    out
}

/// The programs that the registry lists.
pub fn parse_registry_apps(entries: &Vec<NamedVersion>) -> (r: Vec<Asset>)
    ensures
        r.deep_view() == entry_assets(entries.deep_view(), "registry"@),
{
    list_assets(entries, "registry")
}

/// The entries of `scoop export`: those of its newer form, where there are any, or
/// else those of its older form, which is the bare list.
pub fn scoop_entries(apps: Option<Vec<NamedVersion>>, bare: Option<Vec<NamedVersion>>) -> (r: Vec<
    NamedVersion,
>)
    ensures
        r@ == (match apps {
            Some(v) => v@,
            None => match bare {
                Some(v) => v@,
                None => Seq::empty(),
            },
        }),
{
    match apps {
        Some(v) => v,
        None => match bare {
            Some(v) => v,
            None => Vec::new(),
        },
    }
}

/// The applications that scoop exports.
pub fn parse_scoop_export(entries: &Vec<NamedVersion>) -> (r: Vec<Asset>)
    ensures
        r.deep_view() == entry_assets(entries.deep_view(), "scoop"@),
{
    list_assets(entries, "scoop")
}

/// A package of the store: its name is the last component of its full name.
pub open spec fn appx_asset(e: NamedVersionView) -> Option<AssetView> {
    match e.name {
        Some(full) => application(
            Ecosystem::WinApp,
            pieces(full, CharSet::Is('.')).last(),
            or_empty(e.version),
            "appx"@,
        ),
        None => None,
    }
}

pub open spec fn appx_assets(es: Seq<NamedVersionView>) -> Seq<AssetView> {
    es.filter_map(|e: NamedVersionView| appx_asset(e))
}

/// The packages of the store.
pub fn parse_appx(entries: &Vec<NamedVersion>) -> (r: Vec<Asset>)
    ensures
        r.deep_view() == appx_assets(entries.deep_view()),
{
    let ghost q = entries.deep_view();
    let mut out: Vec<Asset> = Vec::new();
    let mut i: usize = 0;
    assert(out.deep_view() =~= appx_assets(q.take(0)));
    while i < entries.len()
        invariant
            i <= entries@.len(),
            q == entries.deep_view(),
            out.deep_view() == appx_assets(q.take(i as int)),
        decreases entries@.len() - i,
    {
        assert(q.take(i + 1).drop_last() =~= q.take(i as int));
        assert(q.take(i + 1).last() == entries@[i as int].deep_view());
        if let Some(n) = &entries[i].name {
            let short = last_piece(n.as_str(), CharSet::Is('.'));
            let a = app_asset(
                Ecosystem::WinApp,
                short.as_str(),
                text_or_nothing(&entries[i].version),
                "appx",
            );
            push_asset(&mut out, a);
        }
        i += 1;
    }
    assert(q.take(q.len() as int) =~= q);
    out
}

/// The application on a line of `choco list -r`.
pub open spec fn choco_line(l: Seq<char>) -> Option<AssetView> {
    match cut(l, "|"@) {
        Some((name, version)) => application(
            Ecosystem::WinApp,
            trimmed(name),
            trimmed(version),
            "chocolatey"@,
        ),
        None => None,
    }
}

pub open spec fn choco_assets(ls: Seq<Seq<char>>) -> Seq<AssetView> {
    ls.filter_map(|l: Seq<char>| choco_line(l))
}

/// The applications that `choco list -r` prints: a name and a version on each line.
pub fn parse_choco_list(out: &str) -> (r: Vec<Asset>)
    ensures
        r.deep_view() == choco_assets(text_lines(out@)),
{
    let ls = lines(out);
    let ghost q = views(ls@);
    let mut assets: Vec<Asset> = Vec::new();
    let mut i: usize = 0;
    assert(assets.deep_view() =~= choco_assets(q.take(0)));
    while i < ls.len()
        invariant
            i <= ls@.len(),
            q == views(ls@),
            assets.deep_view() == choco_assets(q.take(i as int)),
        decreases ls@.len() - i,
    {
        assert(q.take(i + 1).drop_last() =~= q.take(i as int));
        assert(q.take(i + 1).last() == ls@[i as int]@);
        if let Some((name, version)) = split_once(ls[i].as_str(), "|") {
            let n = trim(name.as_str());
            let v = trim(version.as_str());
            let a = app_asset(Ecosystem::WinApp, n.as_str(), v.as_str(), "chocolatey");
            push_asset(&mut assets, a);
        }
        i += 1;
    }
    assert(q.take(q.len() as int) =~= q);
    assets
}

// ── Packages of language managers ────────────────────────────────────────────

/// A package of a list whose entries have names and versions.
pub open spec fn package_of(e: NamedVersionView, eco: Ecosystem) -> Option<AssetView> {
    match e.name {
        Some(n) => match e.version {
            Some(v) => Some(language_asset(eco, n, v)),
            None => None,
        },
        None => None,
    }
}

pub open spec fn packages_of(es: Seq<NamedVersionView>, eco: Ecosystem) -> Seq<AssetView> {
    es.filter_map(|e: NamedVersionView| package_of(e, eco))
}

fn list_packages(entries: &Vec<NamedVersion>, eco: Ecosystem) -> (r: Vec<Asset>)
    ensures
        r.deep_view() == packages_of(entries.deep_view(), eco),
{
    let ghost q = entries.deep_view();
    let mut out: Vec<Asset> = Vec::new();
    let mut i: usize = 0;
    assert(out.deep_view() =~= packages_of(q.take(0), eco));
    while i < entries.len()
        invariant
            i <= entries@.len(),
            q == entries.deep_view(),
            out.deep_view() == packages_of(q.take(i as int), eco),
        decreases entries@.len() - i,
    {
        assert(q.take(i + 1).drop_last() =~= q.take(i as int));
        assert(q.take(i + 1).last() == entries@[i as int].deep_view());
        if let Some(n) = &entries[i].name {
            if let Some(v) = &entries[i].version {
                let a = lang_asset(eco, n.as_str(), v.as_str());
                push_asset(&mut out, Some(a));
            }
        }
        i += 1;
    }
    assert(q.take(q.len() as int) =~= q);
    out
}

/// The packages that npm lists.
pub fn parse_npm_list(entries: &Vec<NamedVersion>) -> (r: Vec<Asset>)
    ensures
        r.deep_view() == packages_of(entries.deep_view(), Ecosystem::Npm),
{
    list_packages(entries, Ecosystem::Npm)
}

/// The packages that pip lists.
pub fn parse_pip_list(entries: &Vec<NamedVersion>) -> (r: Vec<Asset>)
    ensures
        r.deep_view() == packages_of(entries.deep_view(), Ecosystem::PyPI),
{
    list_packages(entries, Ecosystem::PyPI)
}

/// Whether a line rules a table off.
pub open spec fn is_rule(l: Seq<char>) -> bool {
    forall|i: int| 0 <= i < l.len() ==> #[trigger] l[i] == '-' || is_space(l[i])
}

pub(crate) fn rules_off(l: &str) -> (r: bool)
    ensures
        r == is_rule(l@),
{
    let v = chars_of(l);
    let mut i: usize = 0;
    while i < v.len()
        invariant
            i <= v@.len(),
            v@ == l@,
            forall|k: int| 0 <= k < i ==> #[trigger] v@[k] == '-' || is_space(v@[k]),
        decreases v@.len() - i,
    {
        if !(v[i] == '-' || char_is_space(v[i])) {
            assert(l@[i as int] == v@[i as int]);
            return false;
        }
        i += 1;
    }
    true
}

/// The package on a line of `dotnet tool list -g`.
pub open spec fn dotnet_line(l: Seq<char>) -> Option<AssetView> {
    let t = trimmed_end(l, CharSet::Space);
    let w = words(t);
    if t.len() == 0 || has_prefix(t, "Package Id"@) || is_rule(t) || w.len() < 2 {
        None
    } else {
        Some(language_asset(Ecosystem::NuGet, w[0], w[1]))
    }
}

pub open spec fn dotnet_packages(ls: Seq<Seq<char>>) -> Seq<AssetView> {
    ls.filter_map(|l: Seq<char>| dotnet_line(l))
}

/// The packages that `dotnet tool list -g` prints: an id and a version on each line
/// below the headings.
pub fn parse_dotnet_tools(out: &str) -> (r: Vec<Asset>)
    ensures
        r.deep_view() == dotnet_packages(text_lines(out@)),
{
    let ls = lines(out);
    let ghost q = views(ls@);
    let mut assets: Vec<Asset> = Vec::new();
    let mut i: usize = 0;
    assert(assets.deep_view() =~= dotnet_packages(q.take(0)));
    while i < ls.len()
        invariant
            i <= ls@.len(),
            q == views(ls@),
            assets.deep_view() == dotnet_packages(q.take(i as int)),
        decreases ls@.len() - i,
    {
        assert(q.take(i + 1).drop_last() =~= q.take(i as int));
        assert(q.take(i + 1).last() == ls@[i as int]@);
        let t = trim_end_matches(ls[i].as_str(), CharSet::Space);
        let skip = t.as_str().is_empty() || starts_with(t.as_str(), "Package Id") || rules_off(
            t.as_str(),
        );
        if !skip {
            let w = split_whitespace(t.as_str());
            if w.len() >= 2 {
                let ghost c = views(w@);
                assert(c[0] == w@[0]@ && c[1] == w@[1]@);
                let a = lang_asset(Ecosystem::NuGet, w[0].as_str(), w[1].as_str());
                push_asset(&mut assets, Some(a));
            }
        }
        i += 1;
    }
    assert(q.take(q.len() as int) =~= q);
    assets
}

} // verus!
