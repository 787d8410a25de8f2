//! What to do with the outcome of a request: try again, wait, or give up, and
//! what to say then.

use vstd::prelude::*;

use crate::json::{opt_json, Json, JsonView};
use crate::number::{decimal, number, parse_u64, to_decimal};
use crate::text::{concat2, concat3, concat4, first_chars, opt_as_str, opt_str_view, opt_view, own, take_chars};
use crate::threat::{error_message, message_of};

verus! {

pub const BASE_URL: &'static str = "https://radar.offseq.com/api/v1";

/// How often a request is tried again.
pub const MAX_RETRIES: u32 = 4;

pub const BASE_BACKOFF_MS: u64 = 300;

/// The longest wait that is worked out here.
pub const MAX_RETRY_AFTER_SECS: u64 = 30;

/// The longest wait that the server can ask for; where it asks for more, the
/// request fails.
pub const MAX_EXPLICIT_RETRY_AFTER_SECS: u64 = 300;

/// Why a lookup failed.
#[derive(Debug)]
pub enum ThreatError {
    RateLimitExceeded(String),
    /// The batch was too large; the greatest size, where the server names it.
    BatchTooLarge(Option<usize>),
    /// The request did not go through, or its reply could not be read.
    Http(String),
    Other(String),
}

pub enum ThreatErrorView {
    RateLimitExceeded(Seq<char>),
    BatchTooLarge(Option<usize>),
    Http(Seq<char>),
    Other(Seq<char>),
}

impl DeepView for ThreatError {
    type V = ThreatErrorView;

    open spec fn deep_view(&self) -> ThreatErrorView {
        match *self {
            ThreatError::RateLimitExceeded(m) => ThreatErrorView::RateLimitExceeded(m@),
            ThreatError::BatchTooLarge(n) => ThreatErrorView::BatchTooLarge(n),
            ThreatError::Http(m) => ThreatErrorView::Http(m@),
            ThreatError::Other(m) => ThreatErrorView::Other(m@),
        }
    }
}

/// What an error says.
pub open spec fn error_text(e: ThreatErrorView) -> Seq<char> {
    match e {
        ThreatErrorView::RateLimitExceeded(m) => "Rate limit exceeded: "@ + m,
        ThreatErrorView::BatchTooLarge(Some(n)) => "Batch too large (max "@ + decimal(n as nat)
            + ")"@,
        ThreatErrorView::BatchTooLarge(None) => "Batch too large"@,
        ThreatErrorView::Http(m) => "HTTP error: "@ + m,
        ThreatErrorView::Other(m) => m,
    }
}

impl ThreatError {
    /// What the error says.
    pub fn message(&self) -> (r: String)
        ensures
            r@ == error_text(self.deep_view()),
    {
        match self {
            ThreatError::RateLimitExceeded(m) => concat2("Rate limit exceeded: ", m.as_str()),
            ThreatError::BatchTooLarge(n) => match n {
                Some(k) => {
                    let d = to_decimal(*k as u64);
                    concat3("Batch too large (max ", d.as_str(), ")")
                },
                None => own("Batch too large"),
            },
            ThreatError::Http(m) => concat2("HTTP error: ", m.as_str()),
            ThreatError::Other(m) => m.clone(),
        }
    }
}

// ── Rate limits ──────────────────────────────────────────────────────────────

/// The quota, as the last reply gave it; zero where none did.
#[derive(Debug, Clone, Copy)]
pub struct RateLimitInfo {
    pub limit_hourly: u64,
    pub remaining_hourly: u64,
    pub limit_monthly: u64,
    pub remaining_monthly: u64,
}

impl Default for RateLimitInfo {
    fn default() -> (r: Self)
        ensures
            r.limit_hourly == 0 && r.remaining_hourly == 0,
            r.limit_monthly == 0 && r.remaining_monthly == 0,
    {
        RateLimitInfo {
            limit_hourly: 0,
            remaining_hourly: 0,
            limit_monthly: 0,
            remaining_monthly: 0,
        }
    }
}

/// The headers of a reply that speak of the quota, as far as they are there.
pub struct RateLimitHeaders {
    /// `X-RateLimit-Limit-Hourly`
    pub limit_hourly: Option<String>,
    /// `X-RateLimit-Limit-Monthly`
    pub limit_monthly: Option<String>,
    /// `X-RateLimit-Remaining-Hourly`
    pub remaining_hourly: Option<String>,
    /// `X-RateLimit-Remaining-Monthly`
    pub remaining_monthly: Option<String>,
}

/// The number that a header holds, where there is one.
pub open spec fn header_number(value: Option<Seq<char>>) -> Option<u64> {
    match value {
        Some(s) => match number(s, 10, u64::MAX as nat) {
            Some(n) => Some(n as u64),
            None => None,
        },
        None => None,
    }
}

/// The number that a header holds, where there is one.
pub fn parse_header(value: Option<&str>) -> (r: Option<u64>)
    ensures
        r == header_number(opt_str_view(value)),
{
    match value {
        Some(s) => parse_u64(s),
        None => None,
    }
}

/// A number, or what it was where there is none.
pub open spec fn number_or(new: Option<u64>, before: u64) -> u64 {
    match new {
        Some(v) => v,
        None => before,
    }
}

/// The lower of what was left before and what is left now. Before a limit is known, a
/// count of zero says nothing.
pub open spec fn lowered(new: Option<u64>, before: u64, limit: u64) -> u64 {
    match new {
        Some(v) => if (limit == 0 && before == 0) || v < before {
            v
        } else {
            before
        },
        None => before,
    }
}

fn header_or(value: &Option<String>, before: u64) -> (r: u64)
    ensures
        r == number_or(header_number(opt_view(*value)), before),
{
    match parse_header(opt_as_str(value)) {
        Some(v) => v,
        None => before,
    }
}

impl RateLimitInfo {
    /// Takes over the quota that the headers of the latest reply give, each by
    /// itself; what they leave out stays.
    pub fn merge_from_headers(&mut self, headers: &RateLimitHeaders)
        ensures
            final(self).limit_hourly == number_or(
                header_number(opt_view(headers.limit_hourly)),
                old(self).limit_hourly,
            ),
            final(self).limit_monthly == number_or(
                header_number(opt_view(headers.limit_monthly)),
                old(self).limit_monthly,
            ),
            final(self).remaining_hourly == number_or(
                header_number(opt_view(headers.remaining_hourly)),
                old(self).remaining_hourly,
            ),
            final(self).remaining_monthly == number_or(
                header_number(opt_view(headers.remaining_monthly)),
                old(self).remaining_monthly,
            ),
    {
        self.limit_hourly = header_or(&headers.limit_hourly, self.limit_hourly);
        self.limit_monthly = header_or(&headers.limit_monthly, self.limit_monthly);
        self.remaining_hourly = header_or(&headers.remaining_hourly, self.remaining_hourly);
        self.remaining_monthly = header_or(&headers.remaining_monthly, self.remaining_monthly);
    }

    /// Takes over the quota of a reply to one of several requests at a time: once its
    /// limit is known, what is left only goes down, since the reply may be older than
    /// one that was taken over before.
    pub fn merge_lowering(&mut self, headers: &RateLimitHeaders)
        ensures
            final(self).limit_hourly == number_or(
                header_number(opt_view(headers.limit_hourly)),
                old(self).limit_hourly,
            ),
            final(self).limit_monthly == number_or(
                header_number(opt_view(headers.limit_monthly)),
                old(self).limit_monthly,
            ),
            final(self).remaining_hourly == lowered(
                header_number(opt_view(headers.remaining_hourly)),
                old(self).remaining_hourly,
                old(self).limit_hourly,
            ),
            final(self).remaining_monthly == lowered(
                header_number(opt_view(headers.remaining_monthly)),
                old(self).remaining_monthly,
                old(self).limit_monthly,
            ),
            old(self).limit_hourly > 0 ==> final(self).remaining_hourly <= old(
                self,
            ).remaining_hourly,
            old(self).limit_monthly > 0 ==> final(self).remaining_monthly <= old(
                self,
            ).remaining_monthly,
    {
        let hourly_unknown = self.limit_hourly == 0 && self.remaining_hourly == 0;
        let monthly_unknown = self.limit_monthly == 0 && self.remaining_monthly == 0;
        self.limit_hourly = header_or(&headers.limit_hourly, self.limit_hourly);
        self.limit_monthly = header_or(&headers.limit_monthly, self.limit_monthly);
        if let Some(v) = parse_header(opt_as_str(&headers.remaining_hourly)) {
            if hourly_unknown || v < self.remaining_hourly {
                self.remaining_hourly = v;
            }
        }
        if let Some(v) = parse_header(opt_as_str(&headers.remaining_monthly)) {
            if monthly_unknown || v < self.remaining_monthly {
                self.remaining_monthly = v;
            }
        }
    }

    /// Whether the quota of the month is known to be used up.
    pub open spec fn month_is_spent(self) -> bool {
        self.limit_monthly > 0 && self.remaining_monthly == 0
    }

    /// Whether the quota of the month is known to be used up.
    pub fn monthly_exhausted(&self) -> (r: bool)
        ensures
            r == self.month_is_spent(),
    {
        self.limit_monthly > 0 && self.remaining_monthly == 0
    }
}

// ── Retrying ─────────────────────────────────────────────────────────────────

/// Two to the power of `n`.
pub open spec fn doubled(n: nat) -> nat
    decreases n,
{
    if n == 0 {
        1
    } else {
        2 * doubled((n - 1) as nat)
    }
}

/// Two to the power of the number of attempts, of which ten count at most.
pub open spec fn backoff_factor(attempt: u32) -> nat {
    doubled(
        if attempt < 10 {
            attempt as nat
        } else {
            10
        },
    )
}

fn factor(attempt: u32) -> (r: u64)
    ensures
        r == backoff_factor(attempt),
        1 <= r <= 1024,
{
    let n: u32 = if attempt < 10 {
        attempt
    } else {
        10
    };
    let mut r: u64 = 1;
    let mut i: u32 = 0;
    proof {
        reveal_with_fuel(doubled, 11);
    }
    while i < n
        invariant
            i <= n <= 10,
            r == doubled(i as nat),
            1 <= r,
            r <= doubled(10),
            doubled(10) == 1024,
            forall|k: nat| k < 10 ==> #[trigger] doubled(k) <= 512,
        decreases n - i,
    {
        r = r * 2;
        i += 1;
    }
    r
}

/// How long to pause before another attempt: twice as long each time, and up to
/// as much again by the clock, so that two hosts do not go on in step.
pub open spec fn pause_ms(attempt: u32, nanos: u32) -> nat {
    let base = BASE_BACKOFF_MS * backoff_factor(attempt);
    (base + (nanos as nat) % (base as nat)) as nat
}

/// How long to pause before another attempt, in milliseconds.
pub fn backoff_pause(attempt: u32, nanos: u32) -> (r: u64)
    ensures
        r == pause_ms(attempt, nanos),
        BASE_BACKOFF_MS <= r < 2 * BASE_BACKOFF_MS * 1024,
{
    let f = factor(attempt);
    let base: u64 = BASE_BACKOFF_MS * f;
    base + (nanos as u64) % base
}

/// What came of sending a request.
#[derive(Debug, Clone, Copy)]
pub enum Sent {
    /// No reply came; `transient` where the connection failed or took too long.
    Failed { transient: bool },
    Replied { status: u16, retry_after: Option<u64> },
}

/// What to do next.
#[derive(Debug, Clone, Copy, PartialEq, Eq, Structural)]
pub enum Step {
    /// Pause, and try again.
    Backoff,
    /// Wait for so many seconds, and try again.
    Wait(u64),
    /// Fail: no reply came.
    GiveUp,
    /// Fail: the quota is used up, or the server asked for too long a wait.
    RateLimited(Option<u64>),
    /// Fail: the batch was too large.
    TooLarge,
    /// Fail: the server refused.
    Refused,
    /// Read the reply.
    Accept,
}

pub open spec fn is_success(status: u16) -> bool {
    200 <= status < 300
}

pub open spec fn is_server_error(status: u16) -> bool {
    500 <= status < 600
}

/// What to do about a reply that says that the rate limit is reached.
pub open spec fn rate_limit_step(attempt: u32, retry_after: Option<u64>, spent: bool) -> Step {
    if spent || attempt >= MAX_RETRIES {
        Step::RateLimited(None)
    } else {
        match retry_after {
            Some(secs) => if secs > MAX_EXPLICIT_RETRY_AFTER_SECS {
                Step::RateLimited(Some(secs))
            } else if secs < 1 {
                Step::Wait(1)
            } else {
                Step::Wait(secs)
            },
            None => Step::Wait(fallback_wait(attempt)),
        }
    }
}

/// The wait in seconds where the server names none.
pub open spec fn fallback_wait(attempt: u32) -> u64 {
    if backoff_factor(attempt) > MAX_RETRY_AFTER_SECS {
        MAX_RETRY_AFTER_SECS
    } else {
        backoff_factor(attempt) as u64
    }
}

/// What to do after the attempt number `attempt`, counted from zero.
pub open spec fn step_after(attempt: u32, sent: Sent, info: RateLimitInfo) -> Step {
    match sent {
        Sent::Failed { transient } => if attempt < MAX_RETRIES && transient {
            Step::Backoff
        } else {
            Step::GiveUp
        },
        Sent::Replied { status, retry_after } => if status == 429 {
            rate_limit_step(attempt, retry_after, info.month_is_spent())
        } else if status == 413 {
            Step::TooLarge
        } else if is_server_error(status) && attempt < MAX_RETRIES {
            Step::Backoff
        } else if !is_success(status) {
            Step::Refused
        } else {
            Step::Accept
        },
    }
}

/// What to do after the attempt number `attempt`, counted from zero.
pub fn next_step(attempt: u32, sent: Sent, info: &RateLimitInfo) -> (r: Step)
    ensures
        r == step_after(attempt, sent, *info),
{
    match sent {
        Sent::Failed { transient } => if attempt < MAX_RETRIES && transient {
            Step::Backoff
        } else {
            Step::GiveUp
        },
        Sent::Replied { status, retry_after } => if status == 429 {
            if info.monthly_exhausted() || attempt >= MAX_RETRIES {
                Step::RateLimited(None)
            } else {
                match retry_after {
                    Some(secs) => if secs > MAX_EXPLICIT_RETRY_AFTER_SECS {
                        Step::RateLimited(Some(secs))
                    } else if secs < 1 {
                        Step::Wait(1)
                    } else {
                        Step::Wait(secs)
                    },
                    None => {
                        let f = factor(attempt);
                        if f > MAX_RETRY_AFTER_SECS {
                            Step::Wait(MAX_RETRY_AFTER_SECS)
                        } else {
                            Step::Wait(f)
                        }
                    },
                }
            }
        } else if status == 413 {
            Step::TooLarge
        } else if 500 <= status && status < 600 && attempt < MAX_RETRIES {
            Step::Backoff
        } else if !(200 <= status && status < 300) {
            Step::Refused
        } else {
            Step::Accept
        },
    }
}

/// What to do after an attempt to fetch a page of a search: a wait that the server
/// asks for is cut to the longest that is worked out here.
pub open spec fn page_step_after(attempt: u32, sent: Sent, info: RateLimitInfo) -> Step {
    match sent {
        Sent::Failed { transient } => if attempt < MAX_RETRIES && transient {
            Step::Backoff
        } else {
            Step::GiveUp
        },
        Sent::Replied { status, retry_after } => if status == 429 {
            if info.month_is_spent() || attempt >= MAX_RETRIES {
                Step::RateLimited(None)
            } else {
                Step::Wait(
                    match retry_after {
                        Some(secs) => if secs > MAX_RETRY_AFTER_SECS {
                            MAX_RETRY_AFTER_SECS
                        } else if secs < 1 {
                            1
                        } else {
                            secs
                        },
                        None => fallback_wait(attempt),
                    },
                )
            }
        } else if is_server_error(status) && attempt < MAX_RETRIES {
            Step::Backoff
        } else if !is_success(status) {
            Step::Refused
        } else {
            Step::Accept
        },
    }
}

/// What to do after an attempt to fetch a page of a search.
pub fn next_page_step(attempt: u32, sent: Sent, info: &RateLimitInfo) -> (r: Step)
    ensures
        r == page_step_after(attempt, sent, *info),
{
    match sent {
        Sent::Failed { transient } => if attempt < MAX_RETRIES && transient {
            Step::Backoff
        } else {
            Step::GiveUp
        },
        Sent::Replied { status, retry_after } => if status == 429 {
            if info.monthly_exhausted() || attempt >= MAX_RETRIES {
                Step::RateLimited(None)
            } else {
                let wait: u64 = match retry_after {
                    Some(secs) => secs,
                    None => factor(attempt),
                };
                if wait > MAX_RETRY_AFTER_SECS {
                    Step::Wait(MAX_RETRY_AFTER_SECS)
                } else if wait < 1 {
                    Step::Wait(1)
                } else {
                    Step::Wait(wait)
                }
            }
        } else if 500 <= status && status < 600 && attempt < MAX_RETRIES {
            Step::Backoff
        } else if !(200 <= status && status < 300) {
            Step::Refused
        } else {
            Step::Accept
        },
    }
}

/// Whether a step leads to another attempt.
pub open spec fn tries_again(s: Step) -> bool {
    s is Backoff || s is Wait
}

/// The attempts at a request so far.
pub struct Attempts {
    failed: u32,
}

impl Attempts {
    /// How many attempts failed.
    pub closed spec fn count(self) -> u32 {
        self.failed
    }

    pub fn new() -> (r: Self)
        ensures
            r.count() == 0,
    {
        Attempts { failed: 0 }
    }

    /// How many attempts failed.
    pub fn failed(&self) -> (r: u32)
        ensures
            r == self.count(),
    {
        self.failed
    }

    /// What to do after one more attempt, which is counted where another follows.
    pub fn after(&mut self, sent: Sent, info: &RateLimitInfo) -> (r: Step)
        ensures
            r == step_after(old(self).count(), sent, *info),
            final(self).count() == old(self).count() + (if tries_again(r) {
                1int
            } else {
                0
            }),
    {
        let r = next_step(self.failed, sent, info);
        proof {
            retries_are_bounded(self.failed, sent, *info);
        }
        if again(&r) {
            self.failed = self.failed + 1;
        }
        r
    }

    /// What to do after one more attempt to fetch a page of a search.
    pub fn after_page(&mut self, sent: Sent, info: &RateLimitInfo) -> (r: Step)
        ensures
            r == page_step_after(old(self).count(), sent, *info),
            final(self).count() == old(self).count() + (if tries_again(r) {
                1int
            } else {
                0
            }),
    {
        let r = next_page_step(self.failed, sent, info);
        proof {
            retries_are_bounded(self.failed, sent, *info);
        }
        if again(&r) {
            self.failed = self.failed + 1;
        }
        r
    }
}

fn again(s: &Step) -> (r: bool)
    ensures
        r == tries_again(*s),
{
    match s {
        Step::Backoff => true,
        Step::Wait(_) => true,
        _ => false,
    }
}

/// Another attempt follows only while the retries are not used up, and no single
/// wait is longer than the server may ask for.
pub proof fn retries_are_bounded(attempt: u32, sent: Sent, info: RateLimitInfo)
    ensures
        tries_again(step_after(attempt, sent, info)) ==> attempt < MAX_RETRIES,
        tries_again(page_step_after(attempt, sent, info)) ==> attempt < MAX_RETRIES,
        step_after(attempt, sent, info) matches Step::Wait(secs) ==> 1 <= secs
            <= MAX_EXPLICIT_RETRY_AFTER_SECS,
        page_step_after(attempt, sent, info) matches Step::Wait(secs) ==> 1 <= secs
            <= MAX_RETRY_AFTER_SECS,
{
    reveal_with_fuel(doubled, 11);
}

/// What to do after an attempt, by the rules for a page of a search or by the others.
pub open spec fn step_by(paged: bool, attempt: u32, sent: Sent, info: RateLimitInfo) -> Step {
    if paged {
        page_step_after(attempt, sent, info)
    } else {
        step_after(attempt, sent, info)
    }
}

/// How many requests are sent where so many failed before, and where those that follow
/// would come out as given.
pub open spec fn requests_sent(
    paged: bool,
    failed: u32,
    outcomes: Seq<(Sent, RateLimitInfo)>,
) -> nat
    decreases outcomes.len(),
{
    if outcomes.len() == 0 {
        0
    } else if tries_again(step_by(paged, failed, outcomes[0].0, outcomes[0].1)) {
        1 + requests_sent(paged, (failed + 1) as u32, outcomes.skip(1))
    } else {
        1
    }
}

/// However the attempts come out, a request is sent once and as often again as there
/// are retries, no more.
pub proof fn requests_are_bounded(
    paged: bool,
    failed: u32,
    outcomes: Seq<(Sent, RateLimitInfo)>,
)
    requires
        failed <= MAX_RETRIES,
    ensures
        requests_sent(paged, failed, outcomes) <= MAX_RETRIES + 1 - failed,
    decreases outcomes.len(),
{
    if outcomes.len() > 0 {
        retries_are_bounded(failed, outcomes[0].0, outcomes[0].1);
        if tries_again(step_by(paged, failed, outcomes[0].0, outcomes[0].1)) {
            requests_are_bounded(paged, (failed + 1) as u32, outcomes.skip(1));
        }
    }
}

/// A quota that is used up for the month is not waited for.
pub proof fn spent_month_is_not_waited_for(attempt: u32, retry_after: Option<u64>, info: RateLimitInfo)
    requires
        info.month_is_spent(),
    ensures
        step_after(attempt, Sent::Replied { status: 429, retry_after }, info) == Step::RateLimited(
            None,
        ),
        page_step_after(attempt, Sent::Replied { status: 429, retry_after }, info)
            == Step::RateLimited(None),
{
}

// ── What a failure says ──────────────────────────────────────────────────────

/// What to say when the rate limit is reached: what the server says, or else the
/// wait that it asked for.
pub open spec fn rate_limit_text(body: Option<JsonView>, asked: Option<u64>) -> Seq<char> {
    match said(body) {
        Some(m) => m,
        None => match asked {
            Some(secs) => "Rate limited; server asked to retry after "@ + decimal(secs as nat)
                + "s."@,
            None => "Rate limit exceeded."@,
        },
    }
}

/// What the body of a reply says, where it is an error reply.
pub open spec fn said(body: Option<JsonView>) -> Option<Seq<char>> {
    match body {
        Some(b) => message_of(b),
        None => None,
    }
}

fn said_text(body: Option<&Json>) -> (r: Option<String>)
    ensures
        opt_view(r) == said(opt_json(body)),
{
    match body {
        Some(b) => error_message(b),
        None => None,
    }
}

/// The error for a reply that says that the rate limit is reached.
pub fn rate_limited(body: Option<&Json>, asked: Option<u64>) -> (r: ThreatError)
    ensures
        r.deep_view() == ThreatErrorView::RateLimitExceeded(rate_limit_text(opt_json(body), asked)),
{
    match said_text(body) {
        Some(m) => ThreatError::RateLimitExceeded(m),
        None => match asked {
            Some(secs) => {
                let d = to_decimal(secs);
                ThreatError::RateLimitExceeded(
                    concat3("Rate limited; server asked to retry after ", d.as_str(), "s."),
                )
            },
            None => ThreatError::RateLimitExceeded(own("Rate limit exceeded.")),
        },
    }
}

/// The greatest batch that the server names.
pub open spec fn named_max_batch(body: Option<JsonView>) -> Option<usize> {
    match body {
        Some(b) => match b.member("data"@) {
            Some(d) => match d.member("maxBatch"@) {
                Some(n) => match n.unsigned() {
                    Some(k) => Some(k as usize),
                    None => None,
                },
                None => None,
            },
            None => None,
        },
        None => None,
    }
}

/// The error for a reply that says that the batch was too large.
pub fn batch_too_large(body: Option<&Json>) -> (r: ThreatError)
    ensures
        r.deep_view() == ThreatErrorView::BatchTooLarge(named_max_batch(opt_json(body))),
{
    let max: Option<usize> = match body {
        Some(b) => match b.get("data") {
            Some(d) => match d.get("maxBatch") {
                Some(n) => match n.as_u64() {
                    Some(k) => Some(k as usize),
                    None => None,
                },
                None => None,
            },
            None => None,
        },
        None => None,
    };
    ThreatError::BatchTooLarge(max)
}

/// What a refusal says: what the server says, or else the status and the start of
/// the body.
pub open spec fn refusal_text(code: u16, text: Seq<char>, body: Option<JsonView>) -> Seq<char> {
    match said(body) {
        Some(m) => m,
        None => if text.len() == 0 {
            "HTTP "@ + decimal(code as nat)
        } else {
            "HTTP "@ + decimal(code as nat) + ": "@ + first_chars(text, 200)
        },
    }
}

/// The advice that goes with a key that the server does not know.
pub open spec fn key_advice() -> Seq<char> {
    " (check your API key — re-run with --reset to re-enter it)"@
}

fn refusal(code: u16, text: &str, body: Option<&Json>) -> (r: String)
    ensures
        r@ == refusal_text(code, text@, opt_json(body)),
{
    match said_text(body) {
        Some(m) => m,
        None => {
            let d = to_decimal(code as u64);
            if text.is_empty() {
                concat2("HTTP ", d.as_str())
            } else {
                let start = take_chars(text, 200);
                concat4("HTTP ", d.as_str(), ": ", start.as_str())
            }
        },
    }
}

/// The error for a reply that is neither a success nor told apart otherwise; `text`
/// is its body, and `body` that body where it is JSON. An unknown key brings the
/// advice to enter it again; a key without access does not, since the server
/// explains that itself.
pub fn refused(code: u16, text: &str, body: Option<&Json>) -> (r: ThreatError)
    ensures
        r.deep_view() == ThreatErrorView::Other(
            if code == 401 {
                refusal_text(code, text@, opt_json(body)) + key_advice()
            } else {
                refusal_text(code, text@, opt_json(body))
            },
        ),
{
    let m = refusal(code, text, body);
    if code == 401 {
        ThreatError::Other(
            concat2(
                m.as_str(),
                " (check your API key — re-run with --reset to re-enter it)",
            ),
        )
    } else {
        ThreatError::Other(m)
    }
}

/// The error for a page of a search that was refused; both an unknown key and one
/// without access bring the advice to enter it again.
pub fn page_refused(code: u16, text: &str, body: Option<&Json>) -> (r: ThreatError)
    ensures
        r.deep_view() == ThreatErrorView::Other(
            if code == 401 || code == 403 {
                refusal_text(code, text@, opt_json(body)) + key_advice()
            } else {
                refusal_text(code, text@, opt_json(body))
            },
        ),
{
    let m = refusal(code, text, body);
    if code == 401 || code == 403 {
        ThreatError::Other(
            concat2(
                m.as_str(),
                " (check your API key — re-run with --reset to re-enter it)",
            ),
        )
    } else {
        ThreatError::Other(m)
    }
}

} // verus!
