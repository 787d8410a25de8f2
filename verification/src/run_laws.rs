//! What a run does about its key, about the replies to its requests, and about its end.

use vstd::prelude::*;

use crate::batch::{after_reply, chunk_size, lower_ceiling, run_is_valid, BatchRunView};
use crate::config::{
    host_id_of, key_after, key_choice, key_used, saved_key, setup_choice_of, typed_key, upgrade_text, ConfigView,
    KeyChoiceView, SetupChoice, TypedKeyView,
};
use crate::ending::{code_of, ending_after, ending_for, Ending};
use crate::http::{
    backoff_factor, doubled, error_text, fallback_wait, header_number, lowered, named_max_batch, number_or,
    page_step_after, pause_ms, rate_limit_text, refusal_text, step_after, RateLimitInfo, Sent, Step, ThreatErrorView,
};
use crate::json::JsonView;
use crate::number::{decimal, digit_value, written_number_reads_back};
use crate::plan::{batch_cap, grouped, plan_of, plan_text, quota_line, right_aligned};
use crate::service_findings::pool_of;
use crate::text::{byte_count, has_prefix, has_suffix, trimmed};
use crate::threat::message_of;

verus! {

// ── The end of a run ─────────────────────────────────────────────────────────

/// The codes that a run ends with, as they are documented: a spent quota has its own, and any
/// other failure of a lookup has that of a failure.
pub proof fn a_run_ends_with_its_code(e: ThreatErrorView)
    ensures
        code_of(Ending::Done) == 0,
        code_of(Ending::Failed) == 1,
        code_of(Ending::NoKey) == 2,
        code_of(Ending::UnsupportedOs) == 3,
        code_of(Ending::RateLimited) == 4,
        code_of(Ending::ThresholdMet) == 5,
        code_of(ending_for(e)) == (if e is RateLimitExceeded {
            4u8
        } else {
            1u8
        }),
{
}

// ── The key ──────────────────────────────────────────────────────────────────

/// A key in the environment is the one that is used, without the white space around it, whatever
/// is saved or asked for.
pub proof fn the_key_of_the_environment_comes_first(
    env: Seq<char>,
    saved: Option<ConfigView>,
    reset: bool,
    interactive: bool,
    entered: bool,
    now: Option<ConfigView>,
)
    requires
        trimmed(env).len() > 0,
    ensures
        key_used(Some(env), saved, reset, interactive, entered, now) == Some(trimmed(env)),
        key_choice(Some(env), saved, reset, interactive) == KeyChoiceView::Key(trimmed(env)),
{
}

/// Without a key in the environment the saved one is used, unless it is to be entered again;
/// the user is asked only where neither is there, and only where there is one to ask.
pub proof fn the_saved_key_comes_second(
    env: Option<Seq<char>>,
    saved: Option<ConfigView>,
    reset: bool,
    interactive: bool,
)
    requires
        env matches Some(k) ==> trimmed(k).len() == 0,
    ensures
        !reset && (saved matches Some(c) && c.api_key.len() > 0) ==> key_choice(
            env,
            saved,
            reset,
            interactive,
        ) == KeyChoiceView::Key(saved->0.api_key),
        reset || !(saved matches Some(c) && c.api_key.len() > 0) ==> key_choice(
            env,
            saved,
            reset,
            interactive,
        ) == (if interactive {
            KeyChoiceView::Setup
        } else {
            KeyChoiceView::Unavailable
        }),
{
}

/// A run without a key in the environment, without a saved one and without a user to ask has
/// none.
pub proof fn no_key_is_made_up(
    env: Option<Seq<char>>,
    saved: Option<ConfigView>,
    reset: bool,
    entered: bool,
    now: Option<ConfigView>,
)
    requires
        env matches Some(k) ==> trimmed(k).len() == 0,
        saved matches Some(c) ==> c.api_key.len() == 0,
    ensures
        key_used(env, saved, reset, false, entered, now) is None,
        key_used(env, saved, false, true, entered, now) == saved_key(now),
{
}

/// A typed key is accepted exactly when it has 48 bytes or more without the white space around
/// it, and then as it is without that.
pub proof fn a_long_enough_key_is_accepted(raw: Seq<char>)
    ensures
        typed_key(raw) == TypedKeyView::Accepted(trimmed(raw)) <==> byte_count(trimmed(raw)) >= 48,
        typed_key(raw) is Empty <==> trimmed(raw).len() == 0,
        typed_key(raw) is TooShort <==> trimmed(raw).len() > 0 && byte_count(trimmed(raw)) < 48,
        typed_key(raw) matches TypedKeyView::Accepted(k) ==> k == trimmed(raw),
{
    if trimmed(raw).len() == 0 {
        assert(byte_count(trimmed(raw)) == 0);
    }
}

/// The menu of the setup has two choices; white space around a choice does not matter.
pub proof fn the_setup_has_two_choices(line: Seq<char>)
    ensures
        setup_choice_of(line) == SetupChoice::HaveKey <==> trimmed(line) == "1"@,
        setup_choice_of(line) == SetupChoice::NeedKey <==> trimmed(line) == "2"@,
        setup_choice_of(line) == SetupChoice::Invalid <==> trimmed(line) != "1"@ && trimmed(line)
            != "2"@,
{
    reveal_strlit("1");
    reveal_strlit("2");
    assert("1"@[0] != "2"@[0]);
}

/// What the server says of a spent quota is passed on where it says something.
pub proof fn what_the_server_says_is_passed_on(d: Seq<char>)
    ensures
        trimmed(d).len() > 0 ==> upgrade_text(Some(d)) == trimmed(d),
        trimmed(d).len() == 0 ==> upgrade_text(Some(d)) == upgrade_text(None),
        upgrade_text(None).len() > 0,
{
    reveal_strlit("You have exhausted the API calls available on your current plan.");
}

/// The id of a host is the saved one, and none where none or an empty one is saved.
pub proof fn the_host_id_is_the_saved_one(c: ConfigView)
    ensures
        c.host_id.len() > 0 ==> host_id_of(Some(c)) == Some(c.host_id),
        c.host_id.len() == 0 ==> host_id_of(Some(c)) is None,
        host_id_of(None) is None,
{
}

// ── Replies ──────────────────────────────────────────────────────────────────

/// A reply is read exactly when its status is one of success, however many attempts came before
/// and whatever is left of the quota.
pub proof fn only_successes_are_read(
    attempt: u32,
    status: u16,
    retry_after: Option<u64>,
    info: RateLimitInfo,
)
    ensures
        step_after(attempt, Sent::Replied { status, retry_after }, info) is Accept <==> 200 <= status
            <= 299,
        page_step_after(attempt, Sent::Replied { status, retry_after }, info) is Accept <==> 200
            <= status <= 299,
{
}

/// A request is sent again four times at the most: where no reply came for now, and where the
/// server failed. Nothing else is sent again without a wait.
pub proof fn passing_failures_are_tried_again(
    attempt: u32,
    sent: Sent,
    info: RateLimitInfo,
)
    ensures
        step_after(attempt, sent, info) is Backoff <==> attempt < 4 && (match sent {
            Sent::Failed { transient } => transient,
            Sent::Replied { status, .. } => 500 <= status <= 599,
        }),
        page_step_after(attempt, sent, info) is Backoff <==> step_after(attempt, sent, info) is Backoff,
        step_after(attempt, sent, info) is GiveUp <==> (sent matches Sent::Failed { transient }
            && !(transient && attempt < 4)),
        page_step_after(attempt, sent, info) is GiveUp <==> step_after(attempt, sent, info) is GiveUp,
{
}

/// A reply that refuses the request is final: neither a wait nor another attempt follows.
pub proof fn refusals_are_final(
    attempt: u32,
    status: u16,
    retry_after: Option<u64>,
    info: RateLimitInfo,
)
    requires
        300 <= status <= 499,
        status != 429,
    ensures
        status != 413 ==> step_after(attempt, Sent::Replied { status, retry_after }, info) is Refused,
        status == 413 ==> step_after(attempt, Sent::Replied { status, retry_after }, info) is TooLarge,
        page_step_after(attempt, Sent::Replied { status, retry_after }, info) is Refused,
{
}

/// The wait that the server asks for is kept, up to 300 seconds; where it asks for more, the
/// request fails with that. A page of a search is waited for up to 30 seconds.
pub proof fn the_wait_that_was_asked_for_is_kept(attempt: u32, secs: u64, info: RateLimitInfo)
    requires
        attempt < 4,
        !(info.limit_monthly > 0 && info.remaining_monthly == 0),
    ensures
        ({
            let sent = Sent::Replied { status: 429, retry_after: Some(secs) };
            &&& 1 <= secs <= 300 ==> step_after(attempt, sent, info) == Step::Wait(secs)
            &&& secs == 0 ==> step_after(attempt, sent, info) == Step::Wait(1)
            &&& secs > 300 ==> step_after(attempt, sent, info) == Step::RateLimited(Some(secs))
            &&& 1 <= secs <= 30 ==> page_step_after(attempt, sent, info) == Step::Wait(secs)
            &&& secs > 30 ==> page_step_after(attempt, sent, info) == Step::Wait(30)
        }),
{
}

/// Where the server asks for no wait, each is twice as long as the one before.
pub proof fn waits_double(attempt: u32, info: RateLimitInfo)
    requires
        attempt < 3,
        !(info.limit_monthly > 0 && info.remaining_monthly == 0),
    ensures
        ({
            let sent = Sent::Replied { status: 429, retry_after: None };
            &&& step_after(0, sent, info) == Step::Wait(1)
            &&& step_after(attempt, sent, info) matches Step::Wait(a) && step_after(
                (attempt + 1) as u32,
                sent,
                info,
            ) == Step::Wait((2 * a) as u64)
            &&& page_step_after(attempt, sent, info) == step_after(attempt, sent, info)
        }),
{
    reveal_with_fuel(doubled, 5);
}

/// When the attempts at a limited request are used up it fails, whatever wait is asked for.
pub proof fn a_limited_request_fails_in_the_end(
    attempt: u32,
    retry_after: Option<u64>,
    info: RateLimitInfo,
)
    requires
        attempt >= 4,
    ensures
        step_after(attempt, Sent::Replied { status: 429, retry_after }, info) is RateLimited,
        page_step_after(attempt, Sent::Replied { status: 429, retry_after }, info) is RateLimited,
{
}

/// A quota of the month is spent where there is one and nothing is left of it.
pub proof fn a_month_is_spent_when_nothing_is_left(info: RateLimitInfo)
    ensures
        info.month_is_spent() <==> info.limit_monthly > 0 && info.remaining_monthly == 0,
{
}

/// A pause is from 300 milliseconds, doubled with each attempt up to the tenth, to twice that.
pub proof fn pauses_double(attempt: u32, nanos: u32)
    ensures
        backoff_factor(0) == 1,
        attempt < 10 ==> backoff_factor((attempt + 1) as u32) == 2 * backoff_factor(attempt),
        attempt >= 10 ==> backoff_factor(attempt) == backoff_factor(10),
        300 * backoff_factor(attempt) <= pause_ms(attempt, nanos) < 600 * backoff_factor(attempt),
{
    reveal_with_fuel(doubled, 12);
    assert(backoff_factor(attempt) >= 1) by {
        lemma_doubled_is_positive(
            if attempt < 10 {
                attempt as nat
            } else {
                10
            },
        );
    }
}

proof fn lemma_doubled_is_positive(n: nat)
    ensures
        doubled(n) >= 1,
    decreases n,
{
    if n > 0 {
        lemma_doubled_is_positive((n - 1) as nat);
    }
}

/// A number in a header is read as it is written, and what is no number is not read.
pub proof fn numbers_in_headers_are_read(n: u64, before: u64)
    ensures
        header_number(Some(decimal(n as nat))) == Some(n),
        header_number(None) is None,
        number_or(Some(n), before) == n,
        number_or(None, before) == before,
{
    let w = decimal(n as nat);
    written_number_reads_back(n as nat, 10);
    assert(digit_value(w[0], 10) is Some);
}

/// What is left of a known quota is the least that was seen.
pub proof fn what_is_left_is_the_least(new: u64, before: u64, limit: u64)
    ensures
        limit > 0 ==> lowered(Some(new), before, limit) == (if new < before {
            new
        } else {
            before
        }),
        limit == 0 && before == 0 ==> lowered(Some(new), before, limit) == new,
        lowered(None, before, limit) == before,
{
}

// ── What is said ─────────────────────────────────────────────────────────────

/// What the server says of a failure is said; where it says nothing, the status is, with the
/// start of what came.
pub proof fn a_failure_says_what_the_server_said(
    code: u16,
    text: Seq<char>,
    body: JsonView,
    asked: Option<u64>,
)
    ensures
        message_of(body) matches Some(m) ==> refusal_text(code, text, Some(body)) == m
            && rate_limit_text(Some(body), asked) == m,
        has_prefix(refusal_text(code, text, None), "HTTP "@ + decimal(code as nat)),
        text.len() <= 200 ==> has_suffix(refusal_text(code, text, None), text),
        asked matches Some(secs) ==> rate_limit_text(None, asked) == "Rate limited; server asked to retry after "@
            + decimal(secs as nat) + "s."@,
{
    let head = "HTTP "@ + decimal(code as nat);
    let r = refusal_text(code, text, None);
    assert(r.take(head.len() as int) =~= head);
    assert(text.len() <= 200 ==> r.skip(r.len() - text.len()) =~= text);
}

/// An error says what its cause says, and a spent quota is told from the others.
pub proof fn an_error_says_its_cause(m: Seq<char>)
    ensures
        has_suffix(error_text(ThreatErrorView::RateLimitExceeded(m)), m),
        has_suffix(error_text(ThreatErrorView::Http(m)), m),
        error_text(ThreatErrorView::Other(m)) == m,
        has_prefix(error_text(ThreatErrorView::RateLimitExceeded(m)), "Rate limit exceeded: "@),
        has_prefix(error_text(ThreatErrorView::Http(m)), "HTTP error: "@),
{
    let a = error_text(ThreatErrorView::RateLimitExceeded(m));
    let b = error_text(ThreatErrorView::Http(m));
    assert(a.skip(a.len() - m.len()) =~= m);
    assert(b.skip(b.len() - m.len()) =~= m);
    assert(a.take("Rate limit exceeded: "@.len() as int) =~= "Rate limit exceeded: "@);
    assert(b.take("HTTP error: "@.len() as int) =~= "HTTP error: "@);
    reveal_strlit("");
    assert(m.skip(0) =~= m);
}

/// The greatest batch that the server takes is the number in its reply.
pub proof fn the_greatest_batch_is_the_one_that_is_named(b: JsonView, d: JsonView, n: JsonView, k: u64)
    requires
        b.member("data"@) == Some(d),
        d.member("maxBatch"@) == Some(n),
        n.unsigned() == Some(k),
        k <= usize::MAX,
    ensures
        named_max_batch(Some(b)) == Some(k as usize),
        named_max_batch(None) is None,
{
}

// ── The plan ─────────────────────────────────────────────────────────────────

/// The plan with more requests an hour takes larger batches, and until the plan is known no
/// batch is larger than the smallest plan takes.
pub proof fn larger_plans_take_larger_batches(limit: u64)
    ensures
        batch_cap(15) < batch_cap(50) < batch_cap(200) < batch_cap(1000),
        batch_cap(limit) >= batch_cap(15) >= 1,
        limit != 50 && limit != 200 && limit != 1000 ==> batch_cap(limit) == batch_cap(15),
        batch_cap(15) == 25,
        batch_cap(50) == 200,
        batch_cap(200) == 1000,
        batch_cap(1000) == 4000,
{
}

/// A plan is named by its requests an hour.
pub proof fn a_plan_is_named_by_its_limit(limit: u64)
    ensures
        plan_of(limit) == "Free"@ <==> limit == 15,
        plan_of(limit) == "Basic"@ <==> limit == 50,
        plan_of(limit) == "Pro"@ <==> limit == 200,
        plan_of(limit) == "Enterprise"@ <==> limit == 1000,
{
    reveal_strlit("Free");
    reveal_strlit("Basic");
    reveal_strlit("Pro");
    reveal_strlit("Enterprise");
    reveal_strlit("Unknown (");
    reveal_strlit("/hr)");
    assert("Free"@[0] == 'F' && "Basic"@[0] == 'B' && "Pro"@[0] == 'P' && "Enterprise"@[0] == 'E');
    let u = "Unknown ("@ + decimal(limit as nat) + "/hr)"@;
    assert(u[0] == 'U');
}

/// The commas between the digits of a number are only put in: without them it is the number,
/// and each stands before three digits.
pub proof fn commas_are_only_put_in(d: Seq<char>)
    requires
        forall|i: int| 0 <= i < d.len() ==> #[trigger] d[i] != ',',
    ensures
        grouped(d).filter(|c: char| c != ',') == d,
        d.len() <= 3 ==> grouped(d) == d,
        d.len() > 3 ==> ({
            let g = grouped(d);
            &&& g.len() >= 5
            &&& g[g.len() - 4] == ','
            &&& g.skip(g.len() - 3) == d.skip(d.len() - 3)
            &&& g.take(g.len() - 4) == grouped(d.take(d.len() - 3))
        }),
    decreases d.len(),
{
    let p = |c: char| c != ',';
    if d.len() <= 3 {
        lemma_filter_keeps_all(d, p);
    } else {
        let a = d.take(d.len() - 3);
        let b = d.skip(d.len() - 3);
        assert forall|i: int| 0 <= i < a.len() implies #[trigger] a[i] != ',' by {
            assert(a[i] == d[i]);
        }
        assert forall|i: int| 0 <= i < b.len() implies #[trigger] b[i] != ',' by {
            assert(b[i] == d[i + d.len() - 3]);
        }
        commas_are_only_put_in(a);
        lemma_filter_keeps_all(b, p);
        reveal_strlit(",");
        let comma = ","@;
        let g = grouped(d);
        assert(g == grouped(a) + comma + b);
        assert(comma.filter(p) =~= Seq::<char>::empty()) by {
            reveal(Seq::filter);
            assert(comma.drop_last() =~= Seq::<char>::empty());
            assert(comma.last() == ',');
            assert(Seq::<char>::empty().filter(p) =~= Seq::<char>::empty());
        }
        Seq::filter_distributes_over_add(grouped(a), comma, p);
        Seq::filter_distributes_over_add(grouped(a) + comma, b, p);
        assert(a + Seq::<char>::empty() + b =~= d);
        assert(g.skip(g.len() - 3) =~= b);
        assert(g.take(g.len() - 4) =~= grouped(a));
        assert(grouped(a).len() >= 1) by {
            if grouped(a).len() == 0 {
                assert(grouped(a).filter(p).len() == 0) by {
                    reveal(Seq::filter);
                }
            }
        }
    }
}

proof fn lemma_filter_keeps_all(s: Seq<char>, p: spec_fn(char) -> bool)
    requires
        forall|i: int| 0 <= i < s.len() ==> p(#[trigger] s[i]),
    ensures
        s.filter(p) == s,
    decreases s.len(),
{
    reveal(Seq::filter);
    if s.len() > 0 {
        let d = s.drop_last();
        assert forall|i: int| 0 <= i < d.len() implies p(#[trigger] d[i]) by {
            assert(d[i] == s[i]);
        }
        lemma_filter_keeps_all(d, p);
        assert(p(s[s.len() - 1]));
        assert(d.push(s.last()) =~= s);
    }
    assert(s.filter(p) =~= s);
}

/// A text in a column ends where the column does, and is never cut.
pub proof fn columns_end_alike(s: Seq<char>, width: nat)
    ensures
        has_suffix(right_aligned(s, width), s),
        right_aligned(s, width).len() == (if s.len() < width {
            width
        } else {
            s.len()
        }),
{
    let r = right_aligned(s, width);
    assert(r.skip(r.len() - s.len()) =~= s);
}

/// What is told of the plan is its name, what is left of the hour and what is left of the month,
/// and nothing until a reply has told it.
pub proof fn the_plan_is_told_once_it_is_known(info: RateLimitInfo)
    ensures
        plan_text(info).len() == 0 <==> info.limit_hourly == 0,
        info.limit_hourly > 0 ==> {
            &&& plan_text(info).len() == 4
            &&& has_suffix(plan_text(info)[0], plan_of(info.limit_hourly))
            &&& plan_text(info)[1] == quota_line(
                "Hourly:   "@,
                info.remaining_hourly,
                info.limit_hourly,
            )
            &&& plan_text(info)[2] == quota_line(
                "Monthly:  "@,
                info.remaining_monthly,
                info.limit_monthly,
            )
        },
{
    if info.limit_hourly > 0 {
        let t = plan_text(info)[0];
        let n = plan_of(info.limit_hourly);
        assert(t.skip(t.len() - n.len()) =~= n);
    }
}

// ── Batches ──────────────────────────────────────────────────────────────────

/// A batch is as large as what is left, the plan and the server allow, and no larger.
pub proof fn a_batch_is_as_large_as_allowed<A>(run: BatchRunView<A>, limit: u64)
    requires
        run_is_valid(run),
    ensures
        ({
            let left = run.total - run.results.len();
            let n = chunk_size(run, limit);
            &&& n <= left && n <= run.ceiling && n <= batch_cap(limit)
            &&& n == left || n == run.ceiling || n == batch_cap(limit)
            &&& left > 0 ==> n > 0
        }),
{
}

/// A batch that the server finds too large is sent again in the size that the server names, or
/// else in halves.
pub proof fn a_batch_that_is_too_large_is_cut(size: nat, n: usize)
    requires
        size >= 2,
    ensures
        1 <= n < size ==> lower_ceiling(size, Some(n)) == n,
        n == 0 || n >= size ==> lower_ceiling(size, Some(n)) == size / 2,
        lower_ceiling(size, None) == size / 2,
        1 <= lower_ceiling(size, Some(n)) < size,
        1 <= lower_ceiling(size, None) < size,
{
}

/// The answers to a batch are put behind those before, and what fails otherwise than by the size
/// of the batch ends the sending with that failure.
pub proof fn answers_come_in_order<A>(run: BatchRunView<A>, results: Seq<A>, e: ThreatErrorView)
    ensures
        after_reply(run, results.len(), Ok(results)) matches Ok(next) && next.results == run.results
            + results && next.ceiling == run.ceiling && next.total == run.total,
        forall|size: nat|
            size != results.len() ==> #[trigger] after_reply(run, size, Ok(results)) is Err,
        !(e is BatchTooLarge) ==> forall|size: nat| #[trigger]
            after_reply(run, size, Err(e)) == Err::<BatchRunView<A>, ThreatErrorView>(e),
{
}

/// What was saved during the setup is used; a key that was to be entered again and was not is not.
pub proof fn a_key_that_is_reset_must_be_entered(entered: bool, now: Option<ConfigView>)
    ensures
        key_after(true, false, now) is None,
        (now matches Some(c) && c.api_key.len() > 0) ==> key_after(true, true, now) == Some(
            now->0.api_key,
        ) && key_after(false, entered, now) == Some(now->0.api_key),
        !(now matches Some(c) && c.api_key.len() > 0) ==> key_after(false, entered, now) is None
            && key_after(true, entered, now) is None,
{
}

/// Waits that the server did not ask for double from one second on, and never exceed half a minute.
pub proof fn waits_are_bounded(attempt: u32)
    ensures
        fallback_wait(0) == 1,
        1 <= fallback_wait(attempt) <= 30,
        fallback_wait(attempt) < 16 ==> fallback_wait((attempt + 1) as u32) == 2 * fallback_wait(
            attempt,
        ),
        fallback_wait(attempt) >= 16 && attempt < u32::MAX ==> fallback_wait((attempt + 1) as u32)
            == 30,
{
    reveal_with_fuel(doubled, 12);
    lemma_doubled_grows(if attempt < 10 {
        attempt as nat
    } else {
        10
    });
    if attempt < 10 {
        lemma_doubled_grows((attempt + 1) as nat);
    }
}

proof fn lemma_doubled_grows(n: nat)
    ensures
        doubled(n) >= 1,
        n >= 5 ==> doubled(n) >= 32,
        doubled(n + 1) == 2 * doubled(n),
    decreases n,
{
    reveal_with_fuel(doubled, 7);
    if n > 0 {
        lemma_doubled_grows((n - 1) as nat);
    }
}

/// A run whose report was written ends with zero, unless a finding of it is one on which it is to
/// fail.
pub proof fn a_reported_run_ends_by_its_threshold(met: bool)
    ensures
        code_of(ending_after(met)) == 0 <==> !met,
        met ==> code_of(ending_after(met)) == 5,
{
}

/// Lookups run one per name, at least one and at most eight at a time.
pub proof fn lookups_run_side_by_side(names: nat)
    ensures
        1 <= pool_of(names) <= 8,
        1 <= names <= 8 ==> pool_of(names) == names,
        pool_of(names) <= pool_of(names + 1),
        names >= 8 ==> pool_of(names) == 8,
{
}

} // verus!
