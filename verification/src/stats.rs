//! What an agent has done, in words.
use vstd::prelude::*;

use crate::agent::analytics::{DurationStats, StatsTotals};
use crate::agent::collect::{AgentStats, ChildAgentStats, ModelStats, ToolStats};
use crate::number::{decimal, digit_char, padded, to_decimal, to_padded};
use crate::split::{holds, lemma_ends_hold, lemma_longer_texts_hold, lemma_shorter_prefix};
use crate::text::{cat, owned, trim_end, trimmed_end};

verus! {

// ----- money -----
/// The integer nearest to `p / q`, the even one of two that are as near.
pub open spec fn nearest(p: int, q: int) -> int {
    let whole = p / q;
    let twice = 2 * (p % q);
    if twice < q || (twice == q && whole % 2 == 0) {
        whole
    } else {
        whole + 1
    }
}

/// `n` as a multiple of the first power of two from `q` on that leaves at most
/// 53 bits.
pub open spec fn in_53_bits(n: int, q: int) -> int
    decreases n - q,
{
    if n < 0x20_0000_0000_0000 * q || q <= 0 {
        nearest(n, q) * q
    } else {
        in_53_bits(n, 2 * q)
    }
}

/// A millionth of `p / b` in 53 bits: a numerator, and the power of two that it
/// is to be divided by.
pub open spec fn millionth(p: int, b: int) -> (int, int)
    decreases 0x20_0000_0000_0000 * 1_000_000 - p,
{
    if p <= 0 || p >= 0x10_0000_0000_0000 * 1_000_000 {
        (nearest(p, 1_000_000), b)
    } else {
        millionth(2 * p, 2 * b)
    }
}

/// The hundredths that an amount of millionths is shown as: the nearest, by
/// way of the nearest number of double precision.
pub open spec fn cents(micro: int) -> int {
    let (m, b) = millionth(in_53_bits(micro, 1), 1);
    nearest(100 * m, b)
}

/// An amount in words. Nothing but nothing reads as free.
pub open spec fn usd(micro: int) -> Seq<char> {
    if micro == 0 {
        "$0.00"@
    } else if micro < 10_000 {
        "<$0.01"@
    } else {
        "$"@ + decimal((cents(micro) / 100) as nat) + "."@ + padded(
            (cents(micro) % 100) as nat,
            2,
        )
    }
}

proof fn lemma_nearest(p: int, q: int)
    requires
        0 <= p,
        0 < q,
    ensures
        -q <= 2 * (nearest(p, q) * q - p) <= q,
        0 <= nearest(p, q) <= p + 1,
{
    let whole = p / q;
    let rest = p % q;
    assert(p == whole * q + rest && 0 <= rest < q && 0 <= whole <= p) by (nonlinear_arith)
        requires
            0 <= p,
            0 < q,
            whole == p / q,
            rest == p % q,
    ;
    let n = nearest(p, q);
    assert(n * q == whole * q || n * q == whole * q + q) by (nonlinear_arith)
        requires
            n == whole || n == whole + 1,
    ;
    assert((whole + 1) * q == whole * q + q) by (nonlinear_arith);
}

fn to_nearest(p: u128, q: u128) -> (r: u128)
    requires
        0 < q,
        p < 0x1_0000_0000_0000_0000_0000_0000_0000,
    ensures
        r == nearest(p as int, q as int),
        r <= p + 1,
{
    let whole: u128 = p / q;
    let rest: u128 = p % q;
    proof {
        lemma_nearest(p as int, q as int);
        assert(rest <= p) by (nonlinear_arith)
            requires
                rest == p % q,
                0 < q,
        ;
        assert(whole <= p) by (nonlinear_arith)
            requires
                whole == p / q,
                0 < q,
        ;
    }
    let twice: u128 = rest * 2;
    if twice < q || (twice == q && whole % 2 == 0) {
        whole
    } else {
        whole + 1
    }
}

fn round_whole(n: u64) -> (r: u128)
    ensures
        r == in_53_bits(n as int, 1),
        r <= 2 * n,
        n < 0x20_0000_0000_0000 ==> r == n,
        n >= 0x20_0000_0000_0000 ==> r >= 0x10_0000_0000_0000,
{
    let mut q: u128 = 1;
    let ghost all = in_53_bits(n as int, 1);
    while n as u128 >= 0x20_0000_0000_0000 * q
        invariant
            1 <= q <= 0x1000,
            q > 1 ==> 2 * n >= 0x20_0000_0000_0000 * q,
            in_53_bits(n as int, 1) == in_53_bits(n as int, q as int),
        decreases 0x2000 - q,
    {
        assert(q < 0x1000) by {
            if q >= 0x1000 {
                assert(0x20_0000_0000_0000 * q >= 0x20_0000_0000_0000 * 0x1000) by (nonlinear_arith)
                    requires
                        q >= 0x1000,
                ;
            }
        }
        q = q * 2;
    }
    let m: u128 = to_nearest(n as u128, q);
    proof {
        lemma_nearest(n as int, q as int);
        let near = nearest(n as int, q as int);
        assert(near * q <= 2 * n && near * q <= n + q && near * q >= 0);
        if n < 0x20_0000_0000_0000 {
            assert(q == 1);
        }
    }
    m * q
}

proof fn lemma_doubling(p: int, b: int)
    requires
        0 < p < 0x10_0000_0000_0000 * 1_000_000,
    ensures
        millionth(p, b) == millionth(2 * p, 2 * b),
{
}

fn to_cents(micro: u64) -> (r: u64)
    requires
        micro >= 10_000,
    ensures
        r == cents(micro as int),
{
    let whole: u128 = round_whole(micro);
    let mut p: u128 = whole;
    let mut b: u128 = 1;
    while p < 0x10_0000_0000_0000 * 1_000_000
        invariant
            10_000 <= whole <= 0x2_0000_0000_0000_0000,
            p == whole * b,
            1 <= b,
            1 <= p,
            p < 0x20_0000_0000_0000 * 1_000_000,
            millionth(whole as int, 1) == millionth(p as int, b as int),
        decreases 0x20_0000_0000_0000 * 1_000_000 - p,
    {
        proof {
            lemma_doubling(p as int, b as int);
            assert(b <= p && whole * (b * 2) == p * 2) by (nonlinear_arith)
                requires
                    p == whole * b,
                    whole >= 1,
                    b >= 1,
            ;
        }
        p = p * 2;
        b = b * 2;
    }
    assert(b <= p) by (nonlinear_arith)
        requires
            p == whole * b,
            whole >= 1,
            b >= 1,
    ;
    let m: u128 = to_nearest(p, 1_000_000);
    proof {
        lemma_nearest(p as int, 1_000_000);
    }
    let c: u128 = to_nearest(100 * m, b);
    proof {
        lemma_nearest(100 * m, b as int);
    }
    c as u64
}

/// An amount of millionths of a dollar in words. Nothing but nothing reads as
/// free.
pub fn format_usd(micro_usd: u64) -> (r: String)
    ensures
        r@ == usd(micro_usd as int),
{
    if micro_usd == 0 {
        return owned("$0.00");
    }
    if micro_usd < 10_000 {
        return owned("<$0.01");
    }
    let c: u64 = to_cents(micro_usd);
    let whole = to_decimal(c / 100);
    let rest = to_padded(c % 100, 2);
    let mut s = cat("$", whole.as_str());
    s.append(".");
    s.append(rest.as_str());
    s
}

proof fn lemma_millionth(n: int, p: int, b: int)
    requires
        0 < n,
        1 <= b,
        p == n * b,
        n < 0x2_0000_0000 * 1_000_000 && b <= 0x8_0000 ==> p < 0x10_0000_0000_0000 * 1_000_000,
    ensures
        ({
            let (m, d) = millionth(p, b);
            &&& d >= 1
            &&& n < 0x2_0000_0000 * 1_000_000 ==> d > 500_000
            &&& m == nearest(n * d, 1_000_000)
        }),
    decreases 0x20_0000_0000_0000 * 1_000_000 - p,
{
    assert(p > 0) by (nonlinear_arith)
        requires
            p == n * b,
            0 < n,
            1 <= b,
    ;
    if p < 0x10_0000_0000_0000 * 1_000_000 {
        assert(2 * p == n * (2 * b)) by (nonlinear_arith)
            requires
                p == n * b,
        ;
        if 2 * b <= 0x8_0000 {
            assert(n * (2 * b) <= n * 0x8_0000) by (nonlinear_arith)
                requires
                    0 < n,
                    2 * b <= 0x8_0000,
            ;
        }
        lemma_millionth(n, 2 * p, 2 * b);
    }
}

/// How far what is shown of a whole number in 53 bits can be off.
proof fn lemma_off(n: int)
    requires
        0 < n,
    ensures
        ({
            let (m, b) = millionth(n, 1);
            let off = 10_000 * nearest(100 * m, b) - n;
            &&& b >= 1
            &&& n < 0x2_0000_0000 * 1_000_000 ==> b > 500_000
            &&& -5_000 * b - 500_000 <= off * b <= 5_000 * b + 500_000
        }),
{
    lemma_millionth(n, n, 1);
    let (m, b) = millionth(n, 1);
    let c = nearest(100 * m, b);
    assert(0 < n * b) by (nonlinear_arith)
        requires
            0 < n,
            0 < b,
    ;
    lemma_nearest(n * b, 1_000_000);
    lemma_nearest(100 * m, b);
    assert(-b <= 2 * (c * b - 100 * m) <= b);
    let off = 10_000 * c - n;
    assert(off * b == 10_000 * (c * b) - n * b) by (nonlinear_arith)
        requires
            off == 10_000 * c - n,
    ;
}

/// Amounts below eight billion dollars are shown to the nearest cent: what is
/// shown is at most half a cent off.
pub proof fn law_shown_to_the_nearest_cent(micro: int)
    requires
        0 < micro < 0x1_0000_0000 * 2_000_000,
    ensures
        -5_000 <= 10_000 * cents(micro) - micro <= 5_000,
{
    lemma_off(micro);
    let (m, b) = millionth(micro, 1);
    let off = 10_000 * nearest(100 * m, b) - micro;
    assert(nearest(micro, 1) == micro);
    assert(in_53_bits(micro, 1) == micro);
    assert(-5_000 <= off <= 5_000) by (nonlinear_arith)
        requires
            -5_000 * b - 500_000 <= off * b <= 5_000 * b + 500_000,
            b > 500_000,
    ;
}

proof fn lemma_in_53_bits(n: int, q: int)
    requires
        0 < n,
        0 < q,
        q == 1 || 2 * n >= 0x20_0000_0000_0000 * q,
    ensures
        2 * in_53_bits(n, q) >= n,
    decreases n - q,
{
    lemma_nearest(n, q);
    if n >= 0x20_0000_0000_0000 * q {
        lemma_in_53_bits(n, 2 * q);
    }
}

proof fn lemma_cents_positive(micro: int)
    requires
        10_000 <= micro,
    ensures
        cents(micro) >= 1,
{
    let n = in_53_bits(micro, 1);
    lemma_in_53_bits(micro, 1);
    let (m, b) = millionth(n, 1);
    let c = cents(micro);
    lemma_off(n);
    if micro < 0x2_0000_0000 * 1_000_000 {
        assert(nearest(micro, 1) == micro);
        assert(10_000 * c - n >= -5_000) by (nonlinear_arith)
            requires
                -5_000 * b - 500_000 <= (10_000 * c - n) * b,
                b > 500_000,
        ;
    } else {
        assert(10_000 * c - n >= -505_000) by (nonlinear_arith)
            requires
                -5_000 * b - 500_000 <= (10_000 * c - n) * b,
                b >= 1,
        ;
    }
}

/// Only nothing is shown as free.
pub proof fn law_small_amounts_are_not_free(micro: int)
    requires
        0 < micro,
    ensures
        usd(micro) != usd(0),
{
    reveal_strlit("$0.00");
    reveal_strlit("<$0.01");
    reveal_strlit("$");
    reveal_strlit(".");
    assert("$0.00"@.len() == 5 && "<$0.01"@.len() == 6);
    if micro >= 10_000 {
        lemma_cents_positive(micro);
        let c = cents(micro);
        let whole = decimal((c / 100) as nat);
        let rest = padded((c % 100) as nat, 2);
        reveal_with_fuel(decimal, 3);
        assert(rest.len() == 2);
        let shown = "$"@ + whole + "."@ + rest;
        if whole.len() == 1 {
            assert(shown[1] == whole[0]);
            assert(shown[3] == rest[0]);
            assert(shown[4] == rest[1]);
            if c < 100 {
                if c < 10 {
                    assert(rest[1] == digit_char(c));
                } else {
                    assert(rest[0] == digit_char(c / 10));
                }
            } else {
                assert(whole[0] == digit_char(c / 100));
            }
        } else {
            assert(shown.len() != 5);
        }
    }
}

// ----- the text -----
/// The first lines: how many asks, what they cost and took.
pub open spec fn summary_text(
    asks: int,
    feedback: int,
    totals: StatsTotals,
    duration: DurationStats,
) -> Seq<char> {
    "asks: "@ + decimal(asks as nat) + "  feedback: "@ + decimal(feedback as nat)
        + "\ncost: total="@ + usd(totals.cost_micro_usd as int) + " own="@ + usd(
        totals.cost_own_micro_usd as int,
    ) + " delegated="@ + usd(totals.cost_delegated_micro_usd as int) + "\ntokens: in="@ + decimal(
        totals.tokens_in as nat,
    ) + " out="@ + decimal(totals.tokens_out as nat) + "  calls: models="@ + decimal(
        totals.model_calls as nat,
    ) + " tools="@ + decimal(totals.tool_calls as nat) + "\nduration_ms: mean="@ + decimal(
        duration.mean_ms as nat,
    ) + " median="@ + decimal(duration.median_ms as nat) + " p95="@ + decimal(
        duration.p95_ms as nat,
    ) + "\n"@
}

pub open spec fn model_line(m: ModelStats) -> Seq<char> {
    "  "@ + m.selector@ + " calls="@ + decimal(m.calls as nat) + " tokens_in="@ + decimal(
        m.tokens_in as nat,
    ) + " tokens_out="@ + decimal(m.tokens_out as nat) + " cost="@ + usd(m.cost_micro_usd as int)
        + "\n"@
}

pub open spec fn tool_line(t: ToolStats) -> Seq<char> {
    "  "@ + t.name@ + " calls="@ + decimal(t.calls as nat) + " errors="@ + decimal(
        t.error_count as nat,
    ) + " total_latency_ms="@ + decimal(t.total_latency_ms as nat) + " mean_latency_ms="@ + decimal(
        t.mean_latency_ms as nat,
    ) + "\n"@
}

pub open spec fn child_line(c: ChildAgentStats) -> Seq<char> {
    "  "@ + c.name@ + " calls="@ + decimal(c.calls as nat) + " delegated_cost="@ + usd(
        c.cost_delegated_micro_usd as int,
    ) + "\n"@
}

/// The texts of the first `n` of a list, one after another.
pub open spec fn section<T>(list: Seq<T>, line: spec_fn(T) -> Seq<char>, n: int) -> Seq<char>
    decreases n,
{
    if n <= 0 {
        ""@
    } else {
        section(list, line, n - 1) + line(list[n - 1])
    }
}

/// A list under a heading; nothing where the list is empty.
pub open spec fn headed<T>(
    heading: Seq<char>,
    list: Seq<T>,
    line: spec_fn(T) -> Seq<char>,
) -> Seq<char> {
    if list.len() == 0 {
        ""@
    } else {
        heading + section(list, line, list.len() as int)
    }
}

/// The statistics of an agent in words.
pub open spec fn stats_text(stats: AgentStats) -> Seq<char> {
    trimmed_end(
        summary_text(
            stats.ask_count as int,
            stats.feedback_count as int,
            stats.totals,
            stats.duration,
        ) + headed("\nmodels:\n"@, stats.models@, |m: ModelStats| model_line(m)) + headed(
            "\ntools:\n"@,
            stats.tools@,
            |t: ToolStats| tool_line(t),
        ) + headed("\nchild agents:\n"@, stats.children@, |c: ChildAgentStats| child_line(c)),
    )
}

fn number_to(s: &mut String, label: &str, n: u64)
    ensures
        final(s)@ == old(s)@ + label@ + decimal(n as nat),
{
    s.append(label);
    s.append(to_decimal(n).as_str());
}

fn usd_to(s: &mut String, label: &str, micro: u64)
    ensures
        final(s)@ == old(s)@ + label@ + usd(micro as int),
{
    s.append(label);
    s.append(format_usd(micro).as_str());
}

fn summary(asks: u64, feedback: u64, totals: &StatsTotals, duration: &DurationStats) -> (r: String)
    ensures
        r@ == summary_text(asks as int, feedback as int, *totals, *duration),
{
    let mut s = owned("asks: ");
    s.append(to_decimal(asks).as_str());
    number_to(&mut s, "  feedback: ", feedback);
    usd_to(&mut s, "\ncost: total=", totals.cost_micro_usd);
    usd_to(&mut s, " own=", totals.cost_own_micro_usd);
    usd_to(&mut s, " delegated=", totals.cost_delegated_micro_usd);
    number_to(&mut s, "\ntokens: in=", totals.tokens_in);
    number_to(&mut s, " out=", totals.tokens_out);
    number_to(&mut s, "  calls: models=", totals.model_calls as u64);
    number_to(&mut s, " tools=", totals.tool_calls as u64);
    number_to(&mut s, "\nduration_ms: mean=", duration.mean_ms);
    number_to(&mut s, " median=", duration.median_ms);
    number_to(&mut s, " p95=", duration.p95_ms);
    s.append("\n");
    s
}

fn models_section(models: &Vec<ModelStats>) -> (r: String)
    ensures
        r@ == headed("\nmodels:\n"@, models@, |m: ModelStats| model_line(m)),
{
    let ghost line = |m: ModelStats| model_line(m);
    if models.len() == 0 {
        return owned("");
    }
    let mut out = owned("");
    let mut i: usize = 0;
    while i < models.len()
        invariant
            i <= models@.len(),
            line == (|m: ModelStats| model_line(m)),
            out@ == section(models@, line, i as int),
        decreases models.len() - i,
    {
        let m = &models[i];
        let mut s = cat("  ", m.selector.as_str());
        number_to(&mut s, " calls=", m.calls as u64);
        number_to(&mut s, " tokens_in=", m.tokens_in);
        number_to(&mut s, " tokens_out=", m.tokens_out);
        usd_to(&mut s, " cost=", m.cost_micro_usd);
        s.append("\n");
        out.append(s.as_str());
        i = i + 1;
    }
    cat("\nmodels:\n", out.as_str())
}

fn tools_section(tools: &Vec<ToolStats>) -> (r: String)
    ensures
        r@ == headed("\ntools:\n"@, tools@, |t: ToolStats| tool_line(t)),
{
    let ghost line = |t: ToolStats| tool_line(t);
    if tools.len() == 0 {
        return owned("");
    }
    let mut out = owned("");
    let mut i: usize = 0;
    while i < tools.len()
        invariant
            i <= tools@.len(),
            line == (|t: ToolStats| tool_line(t)),
            out@ == section(tools@, line, i as int),
        decreases tools.len() - i,
    {
        let t = &tools[i];
        let mut s = cat("  ", t.name.as_str());
        number_to(&mut s, " calls=", t.calls as u64);
        number_to(&mut s, " errors=", t.error_count as u64);
        number_to(&mut s, " total_latency_ms=", t.total_latency_ms);
        number_to(&mut s, " mean_latency_ms=", t.mean_latency_ms);
        s.append("\n");
        out.append(s.as_str());
        i = i + 1;
    }
    cat("\ntools:\n", out.as_str())
}

fn children_section(children: &Vec<ChildAgentStats>) -> (r: String)
    ensures
        r@ == headed("\nchild agents:\n"@, children@, |c: ChildAgentStats| child_line(c)),
{
    let ghost line = |c: ChildAgentStats| child_line(c);
    if children.len() == 0 {
        return owned("");
    }
    let mut out = owned("");
    let mut i: usize = 0;
    while i < children.len()
        invariant
            i <= children@.len(),
            line == (|c: ChildAgentStats| child_line(c)),
            out@ == section(children@, line, i as int),
        decreases children.len() - i,
    {
        let c = &children[i];
        let mut s = cat("  ", c.name.as_str());
        number_to(&mut s, " calls=", c.calls as u64);
        usd_to(&mut s, " delegated_cost=", c.cost_delegated_micro_usd);
        s.append("\n");
        out.append(s.as_str());
        i = i + 1;
    }
    cat("\nchild agents:\n", out.as_str())
}

/// The statistics of an agent in words.
pub fn render_stats(stats: &AgentStats) -> (r: String)
    ensures
        r@ == stats_text(*stats),
{
    let mut out = summary(
        stats.ask_count,
        stats.feedback_count,
        &stats.totals,
        &stats.duration,
    );
    out.append(models_section(&stats.models).as_str());
    out.append(tools_section(&stats.tools).as_str());
    out.append(children_section(&stats.children).as_str());
    trim_end(out.as_str())
}

/// In the summary of statistics every number stands behind its own label.
#[verifier::spinoff_prover]
pub proof fn law_summaries_label_their_numbers(asks: int, feedback: int, t: StatsTotals, duration: DurationStats)
    ensures
        holds(summary_text(asks, feedback, t, duration), "asks: "@ + decimal(asks as nat) + "  feedback: "@),
        holds(summary_text(asks, feedback, t, duration), "  feedback: "@ + decimal(feedback as nat) + "\ncost: total="@),
        holds(summary_text(asks, feedback, t, duration), "\ncost: total="@ + usd(t.cost_micro_usd as int) + " own="@),
        holds(summary_text(asks, feedback, t, duration), " own="@ + usd(t.cost_own_micro_usd as int) + " delegated="@),
        holds(summary_text(asks, feedback, t, duration), " delegated="@ + usd(t.cost_delegated_micro_usd as int) + "\ntokens: in="@),
        holds(summary_text(asks, feedback, t, duration), "\ntokens: in="@ + decimal(t.tokens_in as nat) + " out="@),
        holds(summary_text(asks, feedback, t, duration), " out="@ + decimal(t.tokens_out as nat) + "  calls: models="@),
        holds(summary_text(asks, feedback, t, duration), "  calls: models="@ + decimal(t.model_calls as nat) + " tools="@),
        holds(summary_text(asks, feedback, t, duration), " tools="@ + decimal(t.tool_calls as nat) + "\nduration_ms: mean="@),
        holds(summary_text(asks, feedback, t, duration), "\nduration_ms: mean="@ + decimal(duration.mean_ms as nat) + " median="@),
        holds(summary_text(asks, feedback, t, duration), " median="@ + decimal(duration.median_ms as nat) + " p95="@),
        holds(summary_text(asks, feedback, t, duration), " p95="@ + decimal(duration.p95_ms as nat) + "\n"@),
{
    let text = summary_text(asks, feedback, t, duration);
    let p0 = Seq::<char>::empty() + "asks: "@;
    let p1 = p0 + decimal(asks as nat);
    let p2 = p1 + "  feedback: "@;
    let p3 = p2 + decimal(feedback as nat);
    let p4 = p3 + "\ncost: total="@;
    let p5 = p4 + usd(t.cost_micro_usd as int);
    let p6 = p5 + " own="@;
    let p7 = p6 + usd(t.cost_own_micro_usd as int);
    let p8 = p7 + " delegated="@;
    let p9 = p8 + usd(t.cost_delegated_micro_usd as int);
    let p10 = p9 + "\ntokens: in="@;
    let p11 = p10 + decimal(t.tokens_in as nat);
    let p12 = p11 + " out="@;
    let p13 = p12 + decimal(t.tokens_out as nat);
    let p14 = p13 + "  calls: models="@;
    let p15 = p14 + decimal(t.model_calls as nat);
    let p16 = p15 + " tools="@;
    let p17 = p16 + decimal(t.tool_calls as nat);
    let p18 = p17 + "\nduration_ms: mean="@;
    let p19 = p18 + decimal(duration.mean_ms as nat);
    let p20 = p19 + " median="@;
    let p21 = p20 + decimal(duration.median_ms as nat);
    let p22 = p21 + " p95="@;
    let p23 = p22 + decimal(duration.p95_ms as nat);
    let p24 = p23 + "\n"@;
    assert(Seq::<char>::empty() + "asks: "@ =~= "asks: "@);
    assert(p24 == text);
    lemma_shorter_prefix(p23, "\n"@, text);
    lemma_shorter_prefix(p22, decimal(duration.p95_ms as nat), text);
    lemma_shorter_prefix(p21, " p95="@, text);
    lemma_shorter_prefix(p20, decimal(duration.median_ms as nat), text);
    lemma_shorter_prefix(p19, " median="@, text);
    lemma_shorter_prefix(p18, decimal(duration.mean_ms as nat), text);
    lemma_shorter_prefix(p17, "\nduration_ms: mean="@, text);
    lemma_shorter_prefix(p16, decimal(t.tool_calls as nat), text);
    lemma_shorter_prefix(p15, " tools="@, text);
    lemma_shorter_prefix(p14, decimal(t.model_calls as nat), text);
    lemma_shorter_prefix(p13, "  calls: models="@, text);
    lemma_shorter_prefix(p12, decimal(t.tokens_out as nat), text);
    lemma_shorter_prefix(p11, " out="@, text);
    lemma_shorter_prefix(p10, decimal(t.tokens_in as nat), text);
    lemma_shorter_prefix(p9, "\ntokens: in="@, text);
    lemma_shorter_prefix(p8, usd(t.cost_delegated_micro_usd as int), text);
    lemma_shorter_prefix(p7, " delegated="@, text);
    lemma_shorter_prefix(p6, usd(t.cost_own_micro_usd as int), text);
    lemma_shorter_prefix(p5, " own="@, text);
    lemma_shorter_prefix(p4, usd(t.cost_micro_usd as int), text);
    lemma_shorter_prefix(p3, "\ncost: total="@, text);
    lemma_shorter_prefix(p2, decimal(feedback as nat), text);
    lemma_shorter_prefix(p1, "  feedback: "@, text);
    lemma_shorter_prefix(p0, decimal(asks as nat), text);
    lemma_ends_hold(Seq::<char>::empty(), "asks: "@, decimal(asks as nat), "  feedback: "@);
    lemma_longer_texts_hold(p2, text, "asks: "@ + decimal(asks as nat) + "  feedback: "@);
    lemma_ends_hold(p1, "  feedback: "@, decimal(feedback as nat), "\ncost: total="@);
    lemma_longer_texts_hold(p4, text, "  feedback: "@ + decimal(feedback as nat) + "\ncost: total="@);
    lemma_ends_hold(p3, "\ncost: total="@, usd(t.cost_micro_usd as int), " own="@);
    lemma_longer_texts_hold(p6, text, "\ncost: total="@ + usd(t.cost_micro_usd as int) + " own="@);
    lemma_ends_hold(p5, " own="@, usd(t.cost_own_micro_usd as int), " delegated="@);
    lemma_longer_texts_hold(p8, text, " own="@ + usd(t.cost_own_micro_usd as int) + " delegated="@);
    lemma_ends_hold(p7, " delegated="@, usd(t.cost_delegated_micro_usd as int), "\ntokens: in="@);
    lemma_longer_texts_hold(p10, text, " delegated="@ + usd(t.cost_delegated_micro_usd as int) + "\ntokens: in="@);
    lemma_ends_hold(p9, "\ntokens: in="@, decimal(t.tokens_in as nat), " out="@);
    lemma_longer_texts_hold(p12, text, "\ntokens: in="@ + decimal(t.tokens_in as nat) + " out="@);
    lemma_ends_hold(p11, " out="@, decimal(t.tokens_out as nat), "  calls: models="@);
    lemma_longer_texts_hold(p14, text, " out="@ + decimal(t.tokens_out as nat) + "  calls: models="@);
    lemma_ends_hold(p13, "  calls: models="@, decimal(t.model_calls as nat), " tools="@);
    lemma_longer_texts_hold(p16, text, "  calls: models="@ + decimal(t.model_calls as nat) + " tools="@);
    lemma_ends_hold(p15, " tools="@, decimal(t.tool_calls as nat), "\nduration_ms: mean="@);
    lemma_longer_texts_hold(p18, text, " tools="@ + decimal(t.tool_calls as nat) + "\nduration_ms: mean="@);
    lemma_ends_hold(p17, "\nduration_ms: mean="@, decimal(duration.mean_ms as nat), " median="@);
    lemma_longer_texts_hold(p20, text, "\nduration_ms: mean="@ + decimal(duration.mean_ms as nat) + " median="@);
    lemma_ends_hold(p19, " median="@, decimal(duration.median_ms as nat), " p95="@);
    lemma_longer_texts_hold(p22, text, " median="@ + decimal(duration.median_ms as nat) + " p95="@);
    lemma_ends_hold(p21, " p95="@, decimal(duration.p95_ms as nat), "\n"@);
    lemma_longer_texts_hold(p24, text, " p95="@ + decimal(duration.p95_ms as nat) + "\n"@);
}

/// In the line of a model every number stands behind its own label.
#[verifier::spinoff_prover]
pub proof fn law_model_lines_label_their_numbers(m: ModelStats)
    ensures
        holds(model_line(m), "  "@ + m.selector@ + " calls="@),
        holds(model_line(m), " calls="@ + decimal(m.calls as nat) + " tokens_in="@),
        holds(model_line(m), " tokens_in="@ + decimal(m.tokens_in as nat) + " tokens_out="@),
        holds(model_line(m), " tokens_out="@ + decimal(m.tokens_out as nat) + " cost="@),
        holds(model_line(m), " cost="@ + usd(m.cost_micro_usd as int) + "\n"@),
{
    let text = model_line(m);
    let p0 = Seq::<char>::empty() + "  "@;
    let p1 = p0 + m.selector@;
    let p2 = p1 + " calls="@;
    let p3 = p2 + decimal(m.calls as nat);
    let p4 = p3 + " tokens_in="@;
    let p5 = p4 + decimal(m.tokens_in as nat);
    let p6 = p5 + " tokens_out="@;
    let p7 = p6 + decimal(m.tokens_out as nat);
    let p8 = p7 + " cost="@;
    let p9 = p8 + usd(m.cost_micro_usd as int);
    let p10 = p9 + "\n"@;
    assert(Seq::<char>::empty() + "  "@ =~= "  "@);
    assert(p10 == text);
    lemma_shorter_prefix(p9, "\n"@, text);
    lemma_shorter_prefix(p8, usd(m.cost_micro_usd as int), text);
    lemma_shorter_prefix(p7, " cost="@, text);
    lemma_shorter_prefix(p6, decimal(m.tokens_out as nat), text);
    lemma_shorter_prefix(p5, " tokens_out="@, text);
    lemma_shorter_prefix(p4, decimal(m.tokens_in as nat), text);
    lemma_shorter_prefix(p3, " tokens_in="@, text);
    lemma_shorter_prefix(p2, decimal(m.calls as nat), text);
    lemma_shorter_prefix(p1, " calls="@, text);
    lemma_shorter_prefix(p0, m.selector@, text);
    lemma_ends_hold(Seq::<char>::empty(), "  "@, m.selector@, " calls="@);
    lemma_longer_texts_hold(p2, text, "  "@ + m.selector@ + " calls="@);
    lemma_ends_hold(p1, " calls="@, decimal(m.calls as nat), " tokens_in="@);
    lemma_longer_texts_hold(p4, text, " calls="@ + decimal(m.calls as nat) + " tokens_in="@);
    lemma_ends_hold(p3, " tokens_in="@, decimal(m.tokens_in as nat), " tokens_out="@);
    lemma_longer_texts_hold(p6, text, " tokens_in="@ + decimal(m.tokens_in as nat) + " tokens_out="@);
    lemma_ends_hold(p5, " tokens_out="@, decimal(m.tokens_out as nat), " cost="@);
    lemma_longer_texts_hold(p8, text, " tokens_out="@ + decimal(m.tokens_out as nat) + " cost="@);
    lemma_ends_hold(p7, " cost="@, usd(m.cost_micro_usd as int), "\n"@);
    lemma_longer_texts_hold(p10, text, " cost="@ + usd(m.cost_micro_usd as int) + "\n"@);
}

/// In the line of a tool every number stands behind its own label.
#[verifier::spinoff_prover]
pub proof fn law_tool_lines_label_their_numbers(t: ToolStats)
    ensures
        holds(tool_line(t), "  "@ + t.name@ + " calls="@),
        holds(tool_line(t), " calls="@ + decimal(t.calls as nat) + " errors="@),
        holds(tool_line(t), " errors="@ + decimal(t.error_count as nat) + " total_latency_ms="@),
        holds(tool_line(t), " total_latency_ms="@ + decimal(t.total_latency_ms as nat) + " mean_latency_ms="@),
        holds(tool_line(t), " mean_latency_ms="@ + decimal(t.mean_latency_ms as nat) + "\n"@),
{
    let text = tool_line(t);
    let p0 = Seq::<char>::empty() + "  "@;
    let p1 = p0 + t.name@;
    let p2 = p1 + " calls="@;
    let p3 = p2 + decimal(t.calls as nat);
    let p4 = p3 + " errors="@;
    let p5 = p4 + decimal(t.error_count as nat);
    let p6 = p5 + " total_latency_ms="@;
    let p7 = p6 + decimal(t.total_latency_ms as nat);
    let p8 = p7 + " mean_latency_ms="@;
    let p9 = p8 + decimal(t.mean_latency_ms as nat);
    let p10 = p9 + "\n"@;
    assert(Seq::<char>::empty() + "  "@ =~= "  "@);
    assert(p10 == text);
    lemma_shorter_prefix(p9, "\n"@, text);
    lemma_shorter_prefix(p8, decimal(t.mean_latency_ms as nat), text);
    lemma_shorter_prefix(p7, " mean_latency_ms="@, text);
    lemma_shorter_prefix(p6, decimal(t.total_latency_ms as nat), text);
    lemma_shorter_prefix(p5, " total_latency_ms="@, text);
    lemma_shorter_prefix(p4, decimal(t.error_count as nat), text);
    lemma_shorter_prefix(p3, " errors="@, text);
    lemma_shorter_prefix(p2, decimal(t.calls as nat), text);
    lemma_shorter_prefix(p1, " calls="@, text);
    lemma_shorter_prefix(p0, t.name@, text);
    lemma_ends_hold(Seq::<char>::empty(), "  "@, t.name@, " calls="@);
    lemma_longer_texts_hold(p2, text, "  "@ + t.name@ + " calls="@);
    lemma_ends_hold(p1, " calls="@, decimal(t.calls as nat), " errors="@);
    lemma_longer_texts_hold(p4, text, " calls="@ + decimal(t.calls as nat) + " errors="@);
    lemma_ends_hold(p3, " errors="@, decimal(t.error_count as nat), " total_latency_ms="@);
    lemma_longer_texts_hold(p6, text, " errors="@ + decimal(t.error_count as nat) + " total_latency_ms="@);
    lemma_ends_hold(p5, " total_latency_ms="@, decimal(t.total_latency_ms as nat), " mean_latency_ms="@);
    lemma_longer_texts_hold(p8, text, " total_latency_ms="@ + decimal(t.total_latency_ms as nat) + " mean_latency_ms="@);
    lemma_ends_hold(p7, " mean_latency_ms="@, decimal(t.mean_latency_ms as nat), "\n"@);
    lemma_longer_texts_hold(p10, text, " mean_latency_ms="@ + decimal(t.mean_latency_ms as nat) + "\n"@);
}

/// In the line of a delegated agent every number stands behind its own label.
pub proof fn law_child_lines_label_their_numbers(c: ChildAgentStats)
    ensures
        holds(child_line(c), "  "@ + c.name@ + " calls="@),
        holds(child_line(c), " calls="@ + decimal(c.calls as nat) + " delegated_cost="@),
        holds(child_line(c), " delegated_cost="@ + usd(c.cost_delegated_micro_usd as int) + "\n"@),
{
    let text = child_line(c);
    let p0 = Seq::<char>::empty() + "  "@;
    let p1 = p0 + c.name@;
    let p2 = p1 + " calls="@;
    let p3 = p2 + decimal(c.calls as nat);
    let p4 = p3 + " delegated_cost="@;
    let p5 = p4 + usd(c.cost_delegated_micro_usd as int);
    let p6 = p5 + "\n"@;
    assert(Seq::<char>::empty() + "  "@ =~= "  "@);
    assert(p6 == text);
    lemma_shorter_prefix(p5, "\n"@, text);
    lemma_shorter_prefix(p4, usd(c.cost_delegated_micro_usd as int), text);
    lemma_shorter_prefix(p3, " delegated_cost="@, text);
    lemma_shorter_prefix(p2, decimal(c.calls as nat), text);
    lemma_shorter_prefix(p1, " calls="@, text);
    lemma_shorter_prefix(p0, c.name@, text);
    lemma_ends_hold(Seq::<char>::empty(), "  "@, c.name@, " calls="@);
    lemma_longer_texts_hold(p2, text, "  "@ + c.name@ + " calls="@);
    lemma_ends_hold(p1, " calls="@, decimal(c.calls as nat), " delegated_cost="@);
    lemma_longer_texts_hold(p4, text, " calls="@ + decimal(c.calls as nat) + " delegated_cost="@);
    lemma_ends_hold(p3, " delegated_cost="@, usd(c.cost_delegated_micro_usd as int), "\n"@);
    lemma_longer_texts_hold(p6, text, " delegated_cost="@ + usd(c.cost_delegated_micro_usd as int) + "\n"@);
}

/// A section has a line for every row, in their order: one more row adds its line.
pub proof fn law_sections_have_every_line<T>(list: Seq<T>, line: spec_fn(T) -> Seq<char>, n: int)
    requires
        0 <= n < list.len(),
    ensures
        section(list, line, 0) == ""@,
        section(list, line, n).is_prefix_of(section(list, line, n + 1)),
        section(list, line, n + 1).skip(section(list, line, n).len() as int) == line(list[n]),
{
}

} // verus!
