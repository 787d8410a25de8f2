//! The plan that a key belongs to, as its rate limits tell.

use vstd::prelude::*;

use crate::http::RateLimitInfo;
use crate::number::{decimal, to_decimal};
use crate::text::{char_count, chars_of, concat2, concat3, concat5, own, string_of, views};

verus! {

/// The plan with so many requests an hour.
pub open spec fn plan_of(limit_hourly: u64) -> Seq<char> {
    if limit_hourly == 15 {
        "Free"@
    } else if limit_hourly == 50 {
        "Basic"@
    } else if limit_hourly == 200 {
        "Pro"@
    } else if limit_hourly == 1000 {
        "Enterprise"@
    } else {
        "Unknown ("@ + decimal(limit_hourly as nat) + "/hr)"@
    }
}

/// The plan with so many requests an hour.
pub fn plan_name(limit_hourly: u64) -> (r: String)
    ensures
        r@ == plan_of(limit_hourly),
{
    if limit_hourly == 15 {
        own("Free")
    } else if limit_hourly == 50 {
        own("Basic")
    } else if limit_hourly == 200 {
        own("Pro")
    } else if limit_hourly == 1000 {
        own("Enterprise")
    } else {
        let d = to_decimal(limit_hourly);
        concat3("Unknown (", d.as_str(), "/hr)")
    }
}

/// How many queries one request may hold on the plan with so many requests an
/// hour; the least until a reply has told the plan.
pub open spec fn batch_cap(limit_hourly: u64) -> nat {
    if limit_hourly == 1000 {
        4000
    } else if limit_hourly == 200 {
        1000
    } else if limit_hourly == 50 {
        200
    } else {
        25
    }
}

/// How many queries one request may hold.
pub fn tier_batch_cap(limit_hourly: u64) -> (r: usize)
    ensures
        r == batch_cap(limit_hourly),
{
    if limit_hourly == 1000 {
        4000
    } else if limit_hourly == 200 {
        1000
    } else if limit_hourly == 50 {
        200
    } else {
        25
    }
}

/// The digits with a comma before each three from the right.
pub open spec fn grouped(d: Seq<char>) -> Seq<char>
    decreases d.len(),
{
    if d.len() <= 3 {
        d
    } else {
        grouped(d.take(d.len() - 3)) + ","@ + d.skip(d.len() - 3)
    }
}

fn push_grouped(out: &mut String, v: &Vec<char>, n: usize)
    requires
        n <= v@.len(),
    ensures
        final(out)@ == old(out)@ + grouped(v@.take(n as int)),
    decreases n,
{
    let ghost before = out@;
    if n <= 3 {
        let s = string_of(v, 0, n);
        out.append(s.as_str());
        assert(s@ =~= v@.take(n as int));
    } else {
        push_grouped(out, v, n - 3);
        out.append(",");
        let s = string_of(v, n - 3, n);
        out.append(s.as_str());
        proof {
            let t = v@.take(n as int);
            assert(t.take(t.len() - 3) =~= v@.take(n - 3));
            assert(t.skip(t.len() - 3) =~= v@.subrange(n - 3, n as int));
            assert(out@ =~= before + grouped(t));
        }
    }
}

/// Writes a number with a comma before each three digits.
pub fn format_num(n: u64) -> (r: String)
    ensures
        r@ == grouped(decimal(n as nat)),
{
    let s = to_decimal(n);
    let v = chars_of(s.as_str());
    let mut out = String::new();
    push_grouped(&mut out, &v, v.len());
    assert(v@.take(v@.len() as int) =~= v@);
    assert(out@ =~= grouped(decimal(n as nat)));
    out
}

/// So many spaces.
pub open spec fn spaces(n: nat) -> Seq<char> {
    Seq::new(n, |i: int| ' ')
}

/// The text with spaces before it, up to `width` characters.
pub open spec fn right_aligned(s: Seq<char>, width: nat) -> Seq<char> {
    if s.len() < width {
        spaces((width - s.len()) as nat) + s
    } else {
        s
    }
}

/// Puts spaces before a text, up to `width` characters.
pub fn pad_left(s: &str, width: usize) -> (r: String)
    ensures
        r@ == right_aligned(s@, width as nat),
{
    let n = char_count(s);
    let mut out = String::new();
    let mut i: usize = n;
    while i < width
        invariant
            n == s@.len(),
            n <= i,
            i <= width || i == n,
            out@ == spaces((i - n) as nat),
        decreases width - i,
    {
        out.push(' ');
        i += 1;
        assert(spaces((i - n) as nat) =~= spaces((i - n - 1) as nat).push(' '));
    }
    let r = concat2(out.as_str(), s);
    assert(n >= width ==> r@ =~= s@);
    r
}

/// `left / limit remaining`, in columns.
pub open spec fn quota_line(label: Seq<char>, left: u64, limit: u64) -> Seq<char> {
    label + right_aligned(grouped(decimal(left as nat)), 6) + " / "@ + right_aligned(
        grouped(decimal(limit as nat)),
        6,
    ) + " remaining"@
}

/// What is told of the plan: nothing until a reply has told it.
pub open spec fn plan_text(info: RateLimitInfo) -> Seq<Seq<char>> {
    if info.limit_hourly == 0 {
        Seq::empty()
    } else {
        seq![
            "Plan:     "@ + plan_of(info.limit_hourly),
            quota_line("Hourly:   "@, info.remaining_hourly, info.limit_hourly),
            quota_line("Monthly:  "@, info.remaining_monthly, info.limit_monthly),
            Seq::empty(),
        ]
    }
}

fn quota(label: &str, left: u64, limit: u64) -> (r: String)
    ensures
        r@ == quota_line(label@, left, limit),
{
    let a = format_num(left);
    let b = format_num(limit);
    let x = pad_left(a.as_str(), 6);
    let y = pad_left(b.as_str(), 6);
    concat5(label, x.as_str(), " / ", y.as_str(), " remaining")
}

/// What is told of the plan, line by line.
pub fn plan_info_lines(info: &RateLimitInfo) -> (r: Vec<String>)
    ensures
        views(r@) == plan_text(*info),
{
    let mut out: Vec<String> = Vec::new();
    if info.limit_hourly == 0 {
        assert(views(out@) =~= plan_text(*info));
        return out;
    }
    let name = plan_name(info.limit_hourly);
    out.push(concat2("Plan:     ", name.as_str()));
    out.push(quota("Hourly:   ", info.remaining_hourly, info.limit_hourly));
    out.push(quota("Monthly:  ", info.remaining_monthly, info.limit_monthly));
    out.push(String::new());
    assert(views(out@) =~= plan_text(*info));
    out
}

} // verus!
