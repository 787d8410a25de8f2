//! The saved configuration: the API key, and how the host is known to monitoring.

use vstd::prelude::*;

use crate::text::{byte_count, has_fewer_bytes, is_digit, opt_str_view, opt_view, own, same, trim, trimmed};

verus! {

/// What is asked where no preference is saved.
pub const DEFAULT_PROMPT_MODE: &'static str = "ask";

/// The environment variable that holds an API key.
pub const ENV_KEY: &'static str = "OFFSEQ_API_KEY";

/// The environment variable that holds the directory of the configuration.
pub const CONFIG_DIR_ENV: &'static str = "OFFSEQ_CONFIG_DIR";

/// No API key has fewer bytes.
pub const MIN_KEY_BYTES: usize = 48;

/// How the host is known to monitoring, and whether to ask about it. What was not
/// set is empty.
#[derive(Debug, Clone)]
pub struct Monitoring {
    pub host_id: String,
    pub prompt: String,
}

#[derive(Debug, Clone)]
pub struct Config {
    pub api_key: String,
    pub monitoring: Monitoring,
}

pub struct ConfigView {
    pub api_key: Seq<char>,
    pub host_id: Seq<char>,
    pub prompt: Seq<char>,
}

impl DeepView for Config {
    type V = ConfigView;

    open spec fn deep_view(&self) -> ConfigView {
        ConfigView {
            api_key: self.api_key@,
            host_id: self.monitoring.host_id@,
            prompt: self.monitoring.prompt@,
        }
    }
}

impl Default for Monitoring {
    fn default() -> (r: Self)
        ensures
            r.host_id@ == Seq::<char>::empty(),
            r.prompt@ == Seq::<char>::empty(),
    {
        Monitoring { host_id: String::new(), prompt: String::new() }
    }
}

impl Monitoring {
    /// Whether nothing was set, so that nothing is saved.
    pub fn is_default(&self) -> (r: bool)
        ensures
            r == (self.host_id@.len() == 0 && self.prompt@.len() == 0),
    {
        self.host_id.as_str().is_empty() && self.prompt.as_str().is_empty()
    }
}

/// The configuration where none is saved.
pub open spec fn no_config() -> ConfigView {
    ConfigView { api_key: Seq::empty(), host_id: Seq::empty(), prompt: Seq::empty() }
}

impl Default for Config {
    fn default() -> (r: Self)
        ensures
            r.deep_view() == no_config(),
    {
        Config { api_key: String::new(), monitoring: Monitoring::default() }
    }
}

/// The saved configuration, or else that where none is saved.
pub open spec fn saved_or_new(saved: Option<ConfigView>) -> ConfigView {
    match saved {
        Some(c) => c,
        None => no_config(),
    }
}

fn take_or_new(saved: Option<Config>) -> (r: Config)
    ensures
        r.deep_view() == saved_or_new(saved.deep_view()),
{
    match saved {
        Some(c) => c,
        None => Config::default(),
    }
}

// ── The API key ──────────────────────────────────────────────────────────────

/// Where the API key comes from.
pub enum KeyChoice {
    Key(String),
    /// The user is asked for it.
    Setup,
    /// There is none.
    Unavailable,
}

pub enum KeyChoiceView {
    Key(Seq<char>),
    Setup,
    Unavailable,
}

impl DeepView for KeyChoice {
    type V = KeyChoiceView;

    open spec fn deep_view(&self) -> KeyChoiceView {
        match *self {
            KeyChoice::Key(k) => KeyChoiceView::Key(k@),
            KeyChoice::Setup => KeyChoiceView::Setup,
            KeyChoice::Unavailable => KeyChoiceView::Unavailable,
        }
    }
}

/// The key of a saved configuration, where it has one.
pub open spec fn saved_key(saved: Option<ConfigView>) -> Option<Seq<char>> {
    match saved {
        Some(c) => if c.api_key.len() > 0 {
            Some(c.api_key)
        } else {
            None
        },
        None => None,
    }
}

/// Where the API key comes from: the environment, else what is saved unless it is
/// to be entered again, else the user where there is one to ask.
pub open spec fn key_choice(
    env: Option<Seq<char>>,
    saved: Option<ConfigView>,
    reset: bool,
    interactive: bool,
) -> KeyChoiceView {
    match env {
        Some(k) if trimmed(k).len() > 0 => KeyChoiceView::Key(trimmed(k)),
        _ => if !reset && saved_key(saved) is Some {
            KeyChoiceView::Key(saved_key(saved)->0)
        } else if interactive {
            KeyChoiceView::Setup
        } else {
            KeyChoiceView::Unavailable
        },
    }
}

/// The key of a saved configuration, where it has one.
pub fn key_in(saved: &Option<Config>) -> (r: Option<String>)
    ensures
        opt_view(r) == saved_key(saved.deep_view()),
{
    match saved {
        Some(c) => if !c.api_key.as_str().is_empty() {
            Some(c.api_key.clone())
        } else {
            None
        },
        None => None,
    }
}

/// Where the API key comes from.
pub fn resolve_api_key(
    env: Option<&str>,
    saved: &Option<Config>,
    reset: bool,
    interactive: bool,
) -> (r: KeyChoice)
    ensures
        r.deep_view() == key_choice(opt_str_view(env), saved.deep_view(), reset, interactive),
{
    if let Some(k) = env {
        let t = trim(k);
        if !t.as_str().is_empty() {
            return KeyChoice::Key(t);
        }
    }
    if !reset {
        if let Some(k) = key_in(saved) {
            return KeyChoice::Key(k);
        }
    }
    if interactive {
        KeyChoice::Setup
    } else {
        KeyChoice::Unavailable
    }
}

/// The key after the user was asked for it: the one that is saved then. Where the saved
/// key was to be entered again and nothing was saved, there is none: the old one does not
/// count.
pub open spec fn key_after(reset: bool, entered: bool, now: Option<ConfigView>) -> Option<Seq<char>> {
    if reset && !entered {
        None
    } else {
        saved_key(now)
    }
}

/// The key after the user was asked for it; `entered` says whether a key was saved, and
/// `now` is the configuration as it then is.
pub fn key_after_setup(reset: bool, entered: bool, now: &Option<Config>) -> (r: Option<String>)
    ensures
        opt_view(r) == key_after(reset, entered, now.deep_view()),
{
    if reset && !entered {
        None
    } else {
        key_in(now)
    }
}

/// The key that a run uses: the one that was chosen, or the one that the setup left.
pub open spec fn key_used(
    env: Option<Seq<char>>,
    saved: Option<ConfigView>,
    reset: bool,
    interactive: bool,
    entered: bool,
    now: Option<ConfigView>,
) -> Option<Seq<char>> {
    match key_choice(env, saved, reset, interactive) {
        KeyChoiceView::Key(k) => Some(k),
        KeyChoiceView::Setup => key_after(reset, entered, now),
        KeyChoiceView::Unavailable => None,
    }
}

/// With a reset, and without a key in the environment, the key that was saved before is
/// not used: whatever it is, a run has no key unless one is entered.
pub proof fn a_reset_ignores_the_saved_key(
    env: Option<Seq<char>>,
    saved: Option<ConfigView>,
    interactive: bool,
    now: Option<ConfigView>,
)
    requires
        env matches Some(k) ==> trimmed(k).len() == 0,
    ensures
        key_used(env, saved, true, interactive, false, now) is None,
        !interactive ==> key_used(env, saved, true, interactive, true, now) is None,
        interactive ==> key_used(env, saved, true, interactive, true, now) == saved_key(now),
{
}

/// What became of a key that was typed.
pub enum TypedKey {
    Empty,
    TooShort,
    Accepted(String),
}

pub enum TypedKeyView {
    Empty,
    TooShort,
    Accepted(Seq<char>),
}

impl DeepView for TypedKey {
    type V = TypedKeyView;

    open spec fn deep_view(&self) -> TypedKeyView {
        match *self {
            TypedKey::Empty => TypedKeyView::Empty,
            TypedKey::TooShort => TypedKeyView::TooShort,
            TypedKey::Accepted(k) => TypedKeyView::Accepted(k@),
        }
    }
}

/// What becomes of a key that was typed.
pub open spec fn typed_key(raw: Seq<char>) -> TypedKeyView {
    let t = trimmed(raw);
    if t.len() == 0 {
        TypedKeyView::Empty
    } else if byte_count(t) < MIN_KEY_BYTES {
        TypedKeyView::TooShort
    } else {
        TypedKeyView::Accepted(t)
    }
}

/// What becomes of a key that was typed: it is accepted without the blanks around
/// it, where it is long enough.
pub fn check_key(raw: &str) -> (r: TypedKey)
    ensures
        r.deep_view() == typed_key(raw@),
{
    let t = trim(raw);
    if t.as_str().is_empty() {
        TypedKey::Empty
    } else if has_fewer_bytes(t.as_str(), MIN_KEY_BYTES) {
        TypedKey::TooShort
    } else {
        TypedKey::Accepted(t)
    }
}

/// A choice in the menu of the setup.
#[derive(Debug, Clone, Copy, PartialEq, Eq, Structural)]
pub enum SetupChoice {
    HaveKey,
    NeedKey,
    Invalid,
}

pub open spec fn setup_choice_of(line: Seq<char>) -> SetupChoice {
    let t = trimmed(line);
    if t == "1"@ {
        SetupChoice::HaveKey
    } else if t == "2"@ {
        SetupChoice::NeedKey
    } else {
        SetupChoice::Invalid
    }
}

/// The choice that was typed.
pub fn setup_choice(line: &str) -> (r: SetupChoice)
    ensures
        r == setup_choice_of(line@),
{
    let t = trim(line);
    if same(t.as_str(), "1") {
        SetupChoice::HaveKey
    } else if same(t.as_str(), "2") {
        SetupChoice::NeedKey
    } else {
        SetupChoice::Invalid
    }
}

/// The configuration with another key. What is known to monitoring stays.
pub fn with_api_key(saved: Option<Config>, key: String) -> (r: Config)
    ensures
        r.deep_view() == (ConfigView { api_key: key@, ..saved_or_new(saved.deep_view()) }),
{
    let c = take_or_new(saved);
    Config { api_key: key, monitoring: c.monitoring }
}

// ── Where a quota is spent ───────────────────────────────────────────────────

/// What to say where a quota is spent: what the server said, where it said
/// something.
pub open spec fn upgrade_text(detail: Option<Seq<char>>) -> Seq<char> {
    match detail {
        Some(d) if trimmed(d).len() > 0 => trimmed(d),
        _ => "You have exhausted the API calls available on your current plan."@,
    }
}

/// What to say where a quota is spent.
pub fn upgrade_body_line(detail: Option<&str>) -> (r: String)
    ensures
        r@ == upgrade_text(opt_str_view(detail)),
{
    if let Some(d) = detail {
        let t = trim(d);
        if !t.as_str().is_empty() {
            return t;
        }
    }
    own("You have exhausted the API calls available on your current plan.")
}

// ── Monitoring ───────────────────────────────────────────────────────────────

pub open spec fn is_hex_digit(c: char) -> bool {
    is_digit(c) || 'a' as int <= c as int <= 'f' as int
}

/// Whether a text is a random UUID: groups of eight, four, four, four and twelve
/// hexadecimal digits with hyphens between them, with the marks of such a UUID.
pub open spec fn is_random_uuid(s: Seq<char>) -> bool {
    &&& s.len() == 36
    &&& forall|i: int|
        0 <= i < 36 ==> if i == 8 || i == 13 || i == 18 || i == 23 {
            #[trigger] s[i] == '-'
        } else {
            is_hex_digit(s[i])
        }
    &&& s[14] == '4'
    &&& s[19] == '8' || s[19] == '9' || s[19] == 'a' || s[19] == 'b'
}

/// `uuid::Uuid::new_v4`, written by its `Display`: a text with the form of a random
/// UUID. Which one it is rests on chance. It panics where the system gives no random
/// numbers, which nothing here can rule out.
#[verifier::external_body]
fn new_uuid() -> (r: String)
    ensures
        is_random_uuid(r@),
{
    uuid::Uuid::new_v4().to_string()
}

/// The id of the host, where it has one.
pub open spec fn host_id_of(saved: Option<ConfigView>) -> Option<Seq<char>> {
    match saved {
        Some(c) => if c.host_id.len() > 0 {
            Some(c.host_id)
        } else {
            None
        },
        None => None,
    }
}

/// The id of the host, where it has one. None is made.
pub fn host_id(saved: &Option<Config>) -> (r: Option<String>)
    ensures
        opt_view(r) == host_id_of(saved.deep_view()),
{
    match saved {
        Some(c) => if !c.monitoring.host_id.as_str().is_empty() {
            Some(c.monitoring.host_id.clone())
        } else {
            None
        },
        None => None,
    }
}

/// The configuration with the id of the host.
pub open spec fn with_host_id(saved: Option<ConfigView>, id: Seq<char>) -> ConfigView {
    ConfigView { host_id: id, ..saved_or_new(saved) }
}

/// The id of the host, and the configuration to save where it had none: then it is
/// `fresh`.
pub fn adopt_host_id(saved: Option<Config>, fresh: String) -> (r: (String, Option<Config>))
    ensures
        match host_id_of(saved.deep_view()) {
            Some(id) => r.0@ == id && r.1 is None,
            None => r.0@ == fresh@ && r.1.deep_view() == Some(
                with_host_id(saved.deep_view(), fresh@),
            ),
        },
{
    match host_id(&saved) {
        Some(id) => (id, None),
        None => {
            let c = take_or_new(saved);
            let monitoring = Monitoring { host_id: fresh.clone(), prompt: c.monitoring.prompt };
            (fresh, Some(Config { api_key: c.api_key, monitoring }))
        },
    }
}

/// The id of the host, and the configuration to save where it had none: then it is
/// a new random UUID. None is drawn where there is an id.
pub fn get_or_create_host_id(saved: Option<Config>) -> (r: (String, Option<Config>))
    ensures
        match host_id_of(saved.deep_view()) {
            Some(id) => r.0@ == id && r.1 is None,
            None => is_random_uuid(r.0@) && r.1.deep_view() == Some(
                with_host_id(saved.deep_view(), r.0@),
            ),
        },
{
    match host_id(&saved) {
        Some(id) => (id, None),
        None => {
            let fresh = new_uuid();
            adopt_host_id(saved, fresh)
        },
    }
}

/// Whether to ask about monitoring, by the saved preference.
pub open spec fn prompt_mode_of(saved: Option<ConfigView>) -> Seq<char> {
    match saved {
        Some(c) if c.prompt.len() > 0 => c.prompt,
        _ => DEFAULT_PROMPT_MODE@,
    }
}

/// Whether to ask about monitoring: `ask`, `never` or `always`.
pub fn monitoring_prompt_mode(saved: &Option<Config>) -> (r: String)
    ensures
        r@ == prompt_mode_of(saved.deep_view()),
{
    if let Some(c) = saved {
        if !c.monitoring.prompt.as_str().is_empty() {
            return c.monitoring.prompt.clone();
        }
    }
    own(DEFAULT_PROMPT_MODE)
}

/// The configuration with another preference.
pub open spec fn with_prompt_mode(saved: Option<ConfigView>, mode: Seq<char>) -> ConfigView {
    ConfigView { prompt: mode, ..saved_or_new(saved) }
}

/// The configuration with another preference, to be saved.
pub fn set_monitoring_prompt_mode(saved: Option<Config>, mode: &str) -> (r: Config)
    ensures
        r.deep_view() == with_prompt_mode(saved.deep_view(), mode@),
{
    let c = take_or_new(saved);
    let monitoring = Monitoring { host_id: c.monitoring.host_id, prompt: own(mode) };
    Config { api_key: c.api_key, monitoring }
}

/// A preference that was saved is read back, and saving one changes neither the id
/// of the host nor the key.
pub proof fn prompt_mode_round_trips(saved: Option<ConfigView>, mode: Seq<char>)
    requires
        mode.len() > 0,
    ensures
        prompt_mode_of(Some(with_prompt_mode(saved, mode))) == mode,
        host_id_of(Some(with_prompt_mode(saved, mode))) == host_id_of(saved),
        saved_key(Some(with_prompt_mode(saved, mode))) == saved_key(saved),
{
}

/// An id that was saved is read back and never replaced, and saving it changes
/// neither the preference nor the key.
pub proof fn host_id_is_stable(saved: Option<ConfigView>, id: Seq<char>)
    requires
        id.len() > 0,
    ensures
        host_id_of(Some(with_host_id(saved, id))) == Some(id),
        prompt_mode_of(Some(with_host_id(saved, id))) == prompt_mode_of(saved),
        saved_key(Some(with_host_id(saved, id))) == saved_key(saved),
{
}

} // verus!
