//! The account: the key, the settings that are kept, the plan and its limits.

use find_threats::config::{
    check_key, get_or_create_host_id, host_id, key_after_setup, key_in, monitoring_prompt_mode, resolve_api_key,
    set_monitoring_prompt_mode, setup_choice, upgrade_body_line, with_api_key, Config, KeyChoice,
    SetupChoice, TypedKey,
};
use find_threats::http::{
    backoff_pause, batch_too_large, next_page_step, next_step, page_refused, parse_header,
    rate_limited, refused, Attempts, RateLimitHeaders, RateLimitInfo, Sent, Step, ThreatError,
};
use find_threats::json::{Json, Numeral, Real};
use find_threats::plan::{format_num, plan_info_lines, plan_name};

/// Settings as they are kept between runs.
struct Kept(Option<Config>);

impl Kept {
    fn host_id(&mut self) -> String {
        let (id, changed) = get_or_create_host_id(self.0.clone());
        if let Some(c) = changed {
            self.0 = Some(c);
        }
        id
    }

    fn set_mode(&mut self, mode: &str) {
        self.0 = Some(set_monitoring_prompt_mode(self.0.clone(), mode));
    }
}

#[test]
fn upgrade_body_prefers_server_detail() {
    // The server's message (hourly vs monthly + reset time) passes through.
    assert_eq!(
        upgrade_body_line(Some(
            "Hourly rate limit reached. Resets at 14:00 UTC. Upgrade your plan for higher limits."
        )),
        "Hourly rate limit reached. Resets at 14:00 UTC. Upgrade your plan for higher limits."
    );
    // Surrounding whitespace is trimmed.
    assert_eq!(upgrade_body_line(Some("  Monthly quota used.  ")), "Monthly quota used.");
    // No detail (or blank) → generic fallback, never an empty line.
    assert_eq!(
        upgrade_body_line(None),
        "You have exhausted the API calls available on your current plan."
    );
    assert_eq!(
        upgrade_body_line(Some("   ")),
        "You have exhausted the API calls available on your current plan."
    );
}

#[test]
fn host_id_generates_persists_and_reloads() {
    let mut kept = Kept(None);
    let id1 = kept.host_id();
    assert_eq!(id1.len(), 36, "v4 UUID string");
    // A second call returns the SAME persisted id (stable across runs).
    let id2 = kept.host_id();
    assert_eq!(id1, id2, "host id must be stable once generated");

    // And it is readable straight from the kept config.
    let cfg = kept.0.expect("config persisted");
    assert_eq!(cfg.monitoring.host_id, id1);
}

#[test]
fn host_id_read_only_returns_none_without_persisting() {
    let mut kept = Kept(None);
    // Nothing registered yet: the read-only accessor reports None …
    assert_eq!(host_id(&kept.0), None, "unset host id reads back as None");
    // … and must NOT have written a config (no side-effect persistence).
    assert!(kept.0.is_none(), "host_id() must not create a config");

    // Once a real id is minted, the read-only accessor returns it verbatim.
    let id = kept.host_id();
    assert_eq!(host_id(&kept.0).as_deref(), Some(id.as_str()));
}

#[test]
fn prompt_mode_defaults_to_ask_and_round_trips() {
    let mut kept = Kept(None);
    assert_eq!(monitoring_prompt_mode(&kept.0), "ask", "default when unset");
    kept.set_mode("never");
    assert_eq!(monitoring_prompt_mode(&kept.0), "never");
    // Changing the mode must not clobber an existing host id.
    let id = kept.host_id();
    kept.set_mode("always");
    assert_eq!(monitoring_prompt_mode(&kept.0), "always");
    assert_eq!(kept.host_id(), id, "host id preserved across prompt writes");
}

#[test]
fn host_ids_are_random_identifiers() {
    let (a, _) = get_or_create_host_id(None);
    let (b, _) = get_or_create_host_id(None);
    assert_ne!(a, b);
    for id in [a, b] {
        let chars: Vec<char> = id.chars().collect();
        for (i, c) in chars.iter().enumerate() {
            match i {
                8 | 13 | 18 | 23 => assert_eq!(*c, '-'),
                14 => assert_eq!(*c, '4'),
                19 => assert!("89ab".contains(*c)),
                _ => assert!("0123456789abcdef".contains(*c)),
            }
        }
    }
}

#[test]
fn the_key_comes_from_the_environment_first() {
    let saved = Some(with_api_key(None, "saved".to_string()));
    let choice = resolve_api_key(Some(" env "), &saved, false, true);
    assert!(matches!(choice, KeyChoice::Key(k) if k == "env"));
    let choice = resolve_api_key(Some("  "), &saved, false, true);
    assert!(matches!(choice, KeyChoice::Key(k) if k == "saved"));
    assert!(matches!(resolve_api_key(None, &saved, true, true), KeyChoice::Setup));
    assert!(matches!(resolve_api_key(None, &None, false, false), KeyChoice::Unavailable));
    assert_eq!(key_in(&saved).as_deref(), Some("saved"));
    assert_eq!(key_in(&None), None);
}

#[test]
fn a_new_key_keeps_the_other_settings() {
    let mut kept = Kept(None);
    let id = kept.host_id();
    kept.0 = Some(with_api_key(kept.0.clone(), "k".to_string()));
    assert_eq!(kept.host_id(), id);
    assert_eq!(key_in(&kept.0).as_deref(), Some("k"));
}

#[test]
fn typed_keys_are_checked() {
    let long = "k".repeat(48);
    assert!(matches!(check_key("  \n"), TypedKey::Empty));
    assert!(matches!(check_key("short"), TypedKey::TooShort));
    assert!(matches!(check_key(&format!(" {long}\n")), TypedKey::Accepted(k) if k == long));
    // bytes, not characters, are counted
    assert!(matches!(check_key(&"é".repeat(24)), TypedKey::Accepted(_)));
    assert_eq!(setup_choice(" 1 \n"), SetupChoice::HaveKey);
    assert_eq!(setup_choice("2"), SetupChoice::NeedKey);
    assert_eq!(setup_choice("x"), SetupChoice::Invalid);
}

// ── Limits ───────────────────────────────────────────────────────────────────

fn info(limit_hourly: u64, remaining_hourly: u64, limit_monthly: u64, remaining_monthly: u64) -> RateLimitInfo {
    RateLimitInfo { limit_hourly, remaining_hourly, limit_monthly, remaining_monthly }
}

fn headers(v: [Option<&str>; 4]) -> RateLimitHeaders {
    let own = |s: Option<&str>| s.map(|t| t.to_string());
    RateLimitHeaders {
        limit_hourly: own(v[0]),
        limit_monthly: own(v[1]),
        remaining_hourly: own(v[2]),
        remaining_monthly: own(v[3]),
    }
}

#[test]
fn headers_are_merged_where_they_can_be_read() {
    assert_eq!(parse_header(Some("12")), Some(12));
    assert_eq!(parse_header(Some(" 12 ")), None);
    assert_eq!(parse_header(Some("twelve")), None);
    assert_eq!(parse_header(None), None);
    let mut i = info(50, 10, 1000, 900);
    i.merge_from_headers(&headers([Some("200"), None, Some("junk"), Some("950")]));
    assert_eq!((i.limit_hourly, i.remaining_hourly), (200, 10));
    assert_eq!((i.limit_monthly, i.remaining_monthly), (1000, 950));
    let mut i = info(50, 10, 1000, 900);
    i.merge_lowering(&headers([None, None, Some("12"), Some("800")]));
    assert_eq!((i.remaining_hourly, i.remaining_monthly), (10, 800));
    let mut i = info(0, 0, 100, 0);
    i.merge_lowering(&headers([None, None, Some("7"), Some("5")]));
    assert_eq!((i.remaining_hourly, i.remaining_monthly), (7, 0));
    assert!(i.monthly_exhausted());
    assert!(info(0, 0, 1000, 0).monthly_exhausted());
    assert!(!info(0, 0, 0, 0).monthly_exhausted());
}

fn replied(status: u16, retry_after: Option<u64>) -> Sent {
    Sent::Replied { status, retry_after }
}

#[test]
fn what_follows_a_reply() {
    let fresh = RateLimitInfo::default();
    let spent = info(50, 0, 1000, 0);
    assert_eq!(next_step(0, Sent::Failed { transient: true }, &fresh), Step::Backoff);
    assert_eq!(next_step(4, Sent::Failed { transient: true }, &fresh), Step::GiveUp);
    assert_eq!(next_step(0, Sent::Failed { transient: false }, &fresh), Step::GiveUp);
    assert_eq!(next_step(0, replied(429, Some(120)), &fresh), Step::Wait(120));
    assert_eq!(next_step(0, replied(429, Some(0)), &fresh), Step::Wait(1));
    assert_eq!(next_step(0, replied(429, Some(301)), &fresh), Step::RateLimited(Some(301)));
    assert_eq!(next_step(3, replied(429, None), &fresh), Step::Wait(8));
    assert_eq!(next_step(0, replied(429, Some(1)), &spent), Step::RateLimited(None));
    assert_eq!(next_step(0, replied(413, None), &fresh), Step::TooLarge);
    assert_eq!(next_step(0, replied(503, None), &fresh), Step::Backoff);
    assert_eq!(next_step(4, replied(503, None), &fresh), Step::Refused);
    assert_eq!(next_step(0, replied(404, None), &fresh), Step::Refused);
    assert_eq!(next_step(0, replied(204, None), &fresh), Step::Accept);
    assert_eq!(next_page_step(0, replied(429, Some(120)), &fresh), Step::Wait(30));
}

#[test]
fn pauses_grow_and_jitter() {
    assert_eq!(backoff_pause(0, 0), 300);
    assert_eq!(backoff_pause(2, 0), 1200);
    assert_eq!(backoff_pause(0, 299), 599);
    assert_eq!(backoff_pause(0, 300), 300);
}

fn says(key: &str, text: &str) -> Json {
    Json::Object(vec![(key.to_string(), Json::Text(text.to_string()))])
}

fn whole(n: u64) -> Json {
    let text = n.to_string();
    Json::Number(Numeral {
        text: text.clone(),
        real: Real {
            text: format!("{text}.0"),
            shown: text,
            hundredths: n as i64 * 100,
            thousandths: n as i64 * 1000,
        },
        unsigned: Some(n),
    })
}

#[test]
fn errors_tell_what_the_server_said() {
    let body = says("message", "spent");
    assert_eq!(rate_limited(Some(&body), Some(9)).message(), "Rate limit exceeded: spent");
    assert_eq!(
        rate_limited(None, Some(900)).message(),
        "Rate limit exceeded: Rate limited; server asked to retry after 900s."
    );
    assert_eq!(rate_limited(None, None).message(), "Rate limit exceeded: Rate limit exceeded.");
    assert_eq!(refused(404, "", None).message(), "HTTP 404");
    assert_eq!(refused(500, "oops", None).message(), "HTTP 500: oops");
    assert_eq!(
        refused(401, "", Some(&says("error", "no"))).message(),
        "no (check your API key — re-run with --reset to re-enter it)"
    );
    assert_eq!(refused(403, "", Some(&says("error", "no"))).message(), "no");
    assert_eq!(
        page_refused(403, "", Some(&says("error", "no"))).message(),
        "no (check your API key — re-run with --reset to re-enter it)"
    );
    assert_eq!(ThreatError::Http("down".to_string()).message(), "HTTP error: down");
    assert_eq!(ThreatError::BatchTooLarge(Some(25)).message(), "Batch too large (max 25)");
    assert_eq!(ThreatError::BatchTooLarge(None).message(), "Batch too large");
    let body = Json::Object(vec![("maxBatch".to_string(), whole(25))]);
    assert!(matches!(batch_too_large(None), ThreatError::BatchTooLarge(None)));
    assert!(matches!(batch_too_large(Some(&body)), ThreatError::BatchTooLarge(_)));
}

#[test]
fn the_plan_of_an_account() {
    assert_eq!(plan_name(15), "Free");
    assert_eq!(plan_name(1000), "Enterprise");
    assert_eq!(format_num(1234567), "1,234,567");
    assert_eq!(format_num(999), "999");
    assert!(plan_info_lines(&RateLimitInfo::default()).is_empty());
    let lines = plan_info_lines(&info(50, 7, 1000, 900));
    assert_eq!(lines.len(), 4);
    assert_eq!(lines[0], "Plan:     Basic");
}

#[test]
fn a_request_is_sent_five_times_at_most() {
    let info = RateLimitInfo::default();
    for paged in [false, true] {
        let mut attempts = Attempts::new();
        let mut sent = 0;
        loop {
            sent += 1;
            let event = Sent::Replied { status: 503, retry_after: None };
            let step =
                if paged { attempts.after_page(event, &info) } else { attempts.after(event, &info) };
            if step != Step::Backoff {
                assert_eq!(step, Step::Refused);
                break;
            }
        }
        assert_eq!(sent, 5);
        assert_eq!(attempts.failed(), 4);
    }
}

#[test]
fn a_reset_without_a_new_key_leaves_none() {
    let saved = Some(with_api_key(None, "old".to_string()));
    assert!(matches!(resolve_api_key(None, &saved, true, true), KeyChoice::Setup));
    assert_eq!(key_after_setup(true, false, &saved), None);
    let entered = Some(with_api_key(saved, "new".to_string()));
    assert_eq!(key_after_setup(true, true, &entered).as_deref(), Some("new"));
    assert_eq!(key_after_setup(false, false, &None), None);
}
