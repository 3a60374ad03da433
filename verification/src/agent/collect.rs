//! The statistics of an agent's stored asks.
use vstd::prelude::*;

use super::analytics::{
    copy_head, duration_stats, durations_fit, durations_of, no_totals, sum, totals_sum,
    DurationStats, StatsTotals, StoreError, Totals, TraceHead, TraceListing,
};
use super::fold::{
    child_at, children_fit, children_within, fold_trace, folded, lemma_delegated_grows,
    lemma_worked_grows, model_at, models_fit, models_within, nothing_worked, tool_at, tools_fit,
    tools_within, ChildCount, ChildSum, Delegated, ModelCount, ModelSum, ToolCount, ToolSum,
};
use crate::table::{lists_domain, rows, Table};
use crate::trace::{Trace, TraceId};

verus! {

/// What one ask took, cost and called.
#[derive(Debug)]
pub struct TraceStats {
    pub trace_id: TraceId,
    pub depends_on: Option<TraceId>,
    pub question: String,
    pub status: String,
    pub created_at: Option<u64>,
    pub feedback_count: u64,
    pub totals: StatsTotals,
}

/// The calls of one model tier.
#[derive(Debug)]
pub struct ModelStats {
    pub selector: String,
    pub calls: u32,
    pub tokens_in: u64,
    pub tokens_out: u64,
    pub cost_micro_usd: u64,
}

/// The calls of one tool.
#[derive(Debug)]
pub struct ToolStats {
    pub name: String,
    pub calls: u32,
    pub error_count: u32,
    pub total_latency_ms: u64,
    pub mean_latency_ms: u64,
}

/// The calls of one other agent.
#[derive(Debug)]
pub struct ChildAgentStats {
    pub name: String,
    pub calls: u32,
    pub cost_delegated_micro_usd: u64,
}

/// The statistics of an agent's stored asks.
#[derive(Debug)]
pub struct AgentStats {
    pub ask_count: u64,
    pub feedback_count: u64,
    pub totals: StatsTotals,
    pub duration: DurationStats,
    pub traces: Vec<TraceStats>,
    pub models: Vec<ModelStats>,
    pub tools: Vec<ToolStats>,
    pub children: Vec<ChildAgentStats>,
}

/// A stored ask: its head, its trace, how much of the log comes from the ask
/// it follows, and how many feedback events it has.
#[derive(Debug)]
pub struct StoredAsk {
    pub head: TraceHead,
    pub trace: Trace,
    pub parent_entries: usize,
    pub feedback_count: u64,
}

impl StoredAsk {
    /// Where the ask's own part of the log starts.
    pub open spec fn baseline(&self) -> int {
        if self.parent_entries < self.trace.log@.len() {
            self.parent_entries as int
        } else {
            self.trace.log@.len() as int
        }
    }
}

/// What asks add up to.
pub struct Sums {
    pub models: Map<Seq<char>, ModelSum>,
    pub tools: Map<Seq<char>, ToolSum>,
    pub children: Map<Seq<char>, ChildSum>,
    pub totals: Totals,
    pub feedback: nat,
    pub each: Seq<Totals>,
}

pub open spec fn no_sums() -> Sums {
    Sums {
        models: Map::empty(),
        tools: Map::empty(),
        children: Map::empty(),
        totals: no_totals(),
        feedback: 0,
        each: Seq::empty(),
    }
}

/// The sums with one more ask.
pub open spec fn with_ask(s: Sums, a: StoredAsk) -> Sums {
    let f = folded(a.trace.log@, a.baseline(), s.models, s.tools, s.children);
    Sums {
        models: f.models,
        tools: f.tools,
        children: f.children,
        totals: totals_sum(s.totals, f.totals),
        feedback: s.feedback + a.feedback_count as nat,
        each: s.each.push(f.totals),
    }
}

/// The sums of the first `n` asks.
pub open spec fn sums_of(asks: Seq<StoredAsk>, n: int) -> Sums
    decreases n,
{
    if n <= 0 {
        no_sums()
    } else {
        with_ask(sums_of(asks, n - 1), asks[n - 1])
    }
}

/// The durations of asks.
pub open spec fn spans(each: Seq<Totals>) -> Seq<u64> {
    each.map_values(|t: Totals| t.duration_ms as u64)
}

/// What each counter comes to fits where it is kept.
pub open spec fn sums_fit(s: Sums) -> bool {
    &&& models_fit(s.models)
    &&& tools_fit(s.tools)
    &&& children_fit(s.children)
    &&& s.totals.fits()
    &&& s.feedback <= u64::MAX
}

/// No counter overflows.
pub open spec fn asks_fit(asks: Seq<StoredAsk>) -> bool {
    durations_fit(asks.len()) && sums_fit(sums_of(asks, asks.len() as int))
}

/// `b` is at least `a` in everything that is counted.
pub open spec fn sums_within(a: Sums, b: Sums) -> bool {
    &&& models_within(a.models, b.models)
    &&& tools_within(a.tools, b.tools)
    &&& children_within(a.children, b.children)
    &&& a.totals.within(b.totals)
    &&& a.feedback <= b.feedback
}

/// What asks add up to only grows.
proof fn lemma_sums_grow(asks: Seq<StoredAsk>, n: int, m: int)
    requires
        0 <= n <= m,
    ensures
        sums_within(sums_of(asks, n), sums_of(asks, m)),
    decreases m - n,
{
    if n < m {
        let s = sums_of(asks, n);
        let t = sums_of(asks, n + 1);
        let z = sums_of(asks, m);
        let a = asks[n];
        lemma_worked_grows(
            a.trace.log@,
            a.baseline(),
            a.baseline(),
            nothing_worked(s.models, s.tools),
        );
        lemma_delegated_grows(
            a.trace.log@,
            a.baseline(),
            Delegated { children: s.children, cost: 0 },
        );
        assert(t == with_ask(s, a));
        assert(sums_within(s, t));
        lemma_sums_grow(asks, n + 1, m);
        assert forall|k: Seq<char>|
            #![trigger model_at(s.models, k)]
            #![trigger model_at(z.models, k)]
            {
                let x = model_at(s.models, k);
                let y = model_at(z.models, k);
                x.calls <= y.calls && x.tokens_in <= y.tokens_in && x.tokens_out <= y.tokens_out
                    && x.cost_micro_usd <= y.cost_micro_usd
            } by {
            assert(model_at(s.models, k).calls <= model_at(t.models, k).calls);
        }
        assert forall|k: Seq<char>|
            #![trigger tool_at(s.tools, k)]
            #![trigger tool_at(z.tools, k)]
            {
                let x = tool_at(s.tools, k);
                let y = tool_at(z.tools, k);
                x.calls <= y.calls && x.error_count <= y.error_count && x.total_latency_ms
                    <= y.total_latency_ms
            } by {
            assert(tool_at(s.tools, k).calls <= tool_at(t.tools, k).calls);
        }
        assert forall|k: Seq<char>|
            #![trigger child_at(s.children, k)]
            #![trigger child_at(z.children, k)]
            {
                let x = child_at(s.children, k);
                let y = child_at(z.children, k);
                x.calls <= y.calls && x.cost_micro_usd <= y.cost_micro_usd
            } by {
            assert(child_at(s.children, k).calls <= child_at(t.children, k).calls);
        }
    }
}

/// Where no counter overflows in the end, none does on the way.
proof fn lemma_asks_fit(asks: Seq<StoredAsk>, n: int)
    requires
        0 <= n <= asks.len(),
        asks_fit(asks),
    ensures
        sums_fit(sums_of(asks, n)),
{
    let s = sums_of(asks, n);
    let z = sums_of(asks, asks.len() as int);
    lemma_sums_grow(asks, n, asks.len() as int);
    assert forall|k: Seq<char>|
        {
            let row = #[trigger] model_at(s.models, k);
            row.calls <= u32::MAX && row.tokens_in <= u64::MAX && row.tokens_out <= u64::MAX
                && row.cost_micro_usd <= u64::MAX
        } by {
        assert(model_at(z.models, k).calls <= u32::MAX);
    }
    assert forall|k: Seq<char>|
        {
            let row = #[trigger] tool_at(s.tools, k);
            row.calls <= u32::MAX && row.error_count <= u32::MAX && row.total_latency_ms
                <= u64::MAX
        } by {
        assert(tool_at(z.tools, k).calls <= u32::MAX);
    }
    assert forall|k: Seq<char>|
        {
            let row = #[trigger] child_at(s.children, k);
            row.calls <= u32::MAX && row.cost_micro_usd <= u64::MAX
        } by {
        assert(child_at(z.children, k).calls <= u32::MAX);
    }
}

/// The rows are the table's, in ascending order of the tiers.
pub open spec fn model_rows_of(rows: Seq<ModelStats>, m: Map<Seq<char>, ModelSum>) -> bool {
    &&& lists_domain(rows.map_values(|r: ModelStats| r.selector@), m)
    &&& forall|i: int|
        0 <= i < rows.len() ==> {
            let r = #[trigger] rows[i];
            m[r.selector@] == (ModelSum {
                calls: r.calls as nat,
                tokens_in: r.tokens_in as nat,
                tokens_out: r.tokens_out as nat,
                cost_micro_usd: r.cost_micro_usd as nat,
            })
        }
}

/// The rows are the table's, in ascending order of the tools, each with the
/// mean latency of its calls.
pub open spec fn tool_rows_of(rows: Seq<ToolStats>, m: Map<Seq<char>, ToolSum>) -> bool {
    &&& lists_domain(rows.map_values(|r: ToolStats| r.name@), m)
    &&& forall|i: int|
        0 <= i < rows.len() ==> {
            let r = #[trigger] rows[i];
            &&& m[r.name@] == (ToolSum {
                calls: r.calls as nat,
                error_count: r.error_count as nat,
                total_latency_ms: r.total_latency_ms as nat,
            })
            &&& r.mean_latency_ms == mean_latency(r.total_latency_ms, r.calls)
        }
}

pub open spec fn mean_latency(total: u64, calls: u32) -> int {
    if calls == 0 {
        0
    } else {
        total as int / calls as int
    }
}

/// The rows are the table's, in ascending order of the agents.
pub open spec fn child_rows_of(rows: Seq<ChildAgentStats>, m: Map<Seq<char>, ChildSum>) -> bool {
    &&& lists_domain(rows.map_values(|r: ChildAgentStats| r.name@), m)
    &&& forall|i: int|
        0 <= i < rows.len() ==> {
            let r = #[trigger] rows[i];
            m[r.name@] == (ChildSum {
                calls: r.calls as nat,
                cost_micro_usd: r.cost_delegated_micro_usd as nat,
            })
        }
}

fn model_rows(t: &Table<ModelCount>) -> (out: Vec<ModelStats>)
    ensures
        model_rows_of(out@, rows(*t)),
{
    let n: usize = t.len();
    let mut out: Vec<ModelStats> = Vec::new();
    let mut i: usize = 0;
    while i < n
        invariant
            i <= n == t.key_seq().len(),
            lists_domain(t.key_seq(), t@),
            out@.len() == i,
            forall|k: int|
                0 <= k < i ==> {
                    let r = #[trigger] out@[k];
                    &&& r.selector@ == t.key_seq()[k]
                    &&& rows(*t)[r.selector@] == (ModelSum {
                        calls: r.calls as nat,
                        tokens_in: r.tokens_in as nat,
                        tokens_out: r.tokens_out as nat,
                        cost_micro_usd: r.cost_micro_usd as nat,
                    })
                },
        decreases n - i,
    {
        let key = t.key_at(i).clone();
        let c = *t.value_at(i);
        out.push(
            ModelStats {
                selector: key,
                calls: c.calls,
                tokens_in: c.tokens_in,
                tokens_out: c.tokens_out,
                cost_micro_usd: c.cost_micro_usd,
            },
        );
        i = i + 1;
    }
    assert(out@.map_values(|r: ModelStats| r.selector@) =~= t.key_seq());
    out
}

fn tool_rows(t: &Table<ToolCount>) -> (out: Vec<ToolStats>)
    ensures
        tool_rows_of(out@, rows(*t)),
{
    let n: usize = t.len();
    let mut out: Vec<ToolStats> = Vec::new();
    let mut i: usize = 0;
    while i < n
        invariant
            i <= n == t.key_seq().len(),
            lists_domain(t.key_seq(), t@),
            out@.len() == i,
            forall|k: int|
                0 <= k < i ==> {
                    let r = #[trigger] out@[k];
                    &&& r.name@ == t.key_seq()[k]
                    &&& rows(*t)[r.name@] == (ToolSum {
                        calls: r.calls as nat,
                        error_count: r.error_count as nat,
                        total_latency_ms: r.total_latency_ms as nat,
                    })
                    &&& r.mean_latency_ms == mean_latency(r.total_latency_ms, r.calls)
                },
        decreases n - i,
    {
        let key = t.key_at(i).clone();
        let c = *t.value_at(i);
        let mean: u64 = if c.calls == 0 {
            0
        } else {
            c.total_latency_ms / (c.calls as u64)
        };
        out.push(
            ToolStats {
                name: key,
                calls: c.calls,
                error_count: c.error_count,
                total_latency_ms: c.total_latency_ms,
                mean_latency_ms: mean,
            },
        );
        i = i + 1;
    }
    assert(out@.map_values(|r: ToolStats| r.name@) =~= t.key_seq());
    out
}

fn child_rows(t: &Table<ChildCount>) -> (out: Vec<ChildAgentStats>)
    ensures
        child_rows_of(out@, rows(*t)),
{
    let n: usize = t.len();
    let mut out: Vec<ChildAgentStats> = Vec::new();
    let mut i: usize = 0;
    while i < n
        invariant
            i <= n == t.key_seq().len(),
            lists_domain(t.key_seq(), t@),
            out@.len() == i,
            forall|k: int|
                0 <= k < i ==> {
                    let r = #[trigger] out@[k];
                    &&& r.name@ == t.key_seq()[k]
                    &&& rows(*t)[r.name@] == (ChildSum {
                        calls: r.calls as nat,
                        cost_micro_usd: r.cost_delegated_micro_usd as nat,
                    })
                },
        decreases n - i,
    {
        let key = t.key_at(i).clone();
        let c = *t.value_at(i);
        out.push(
            ChildAgentStats {
                name: key,
                calls: c.calls,
                cost_delegated_micro_usd: c.cost_micro_usd,
            },
        );
        i = i + 1;
    }
    assert(out@.map_values(|r: ChildAgentStats| r.name@) =~= t.key_seq());
    out
}

/// The statistics of one ask stand for it.
pub open spec fn stats_of_ask(t: TraceStats, a: StoredAsk, totals: Totals) -> bool {
    &&& t.trace_id == a.head.trace_id
    &&& t.depends_on == a.head.depends_on
    &&& t.question == a.head.question
    &&& t.status == a.head.status
    &&& t.created_at == a.head.created_at
    &&& t.feedback_count == a.feedback_count
    &&& t.totals@ == totals
}

proof fn lemma_spans(asks: Seq<StoredAsk>, n: int)
    requires
        0 <= n <= asks.len(),
    ensures
        sums_of(asks, n).each.len() == n,
        sum(spans(sums_of(asks, n).each)) == sums_of(asks, n).totals.duration_ms,
    decreases n,
{
    if n > 0 {
        lemma_spans(asks, n - 1);
        let s = sums_of(asks, n - 1);
        let t = sums_of(asks, n);
        assert(t == with_ask(s, asks[n - 1]));
        assert(spans(t.each).drop_last() =~= spans(s.each));
    } else {
        assert(spans(sums_of(asks, 0).each) =~= Seq::<u64>::empty());
    }
}

/// The statistics of the given asks: what each took, cost and called, and
/// what they add up to by model tier, by tool and by delegated agent.
pub fn collect_stats(asks: &Vec<StoredAsk>) -> (r: AgentStats)
    requires
        asks_fit(asks@),
    ensures
        ({
            let s = sums_of(asks@, asks@.len() as int);
            &&& r.ask_count == asks@.len()
            &&& r.feedback_count == s.feedback
            &&& r.totals@ == s.totals
            &&& r.duration == durations_of(spans(s.each))
            &&& r.traces@.len() == asks@.len()
            &&& forall|i: int|
                0 <= i < asks@.len() ==> stats_of_ask(
                    #[trigger] r.traces@[i],
                    asks@[i],
                    s.each[i],
                )
            &&& model_rows_of(r.models@, s.models)
            &&& tool_rows_of(r.tools@, s.tools)
            &&& child_rows_of(r.children@, s.children)
        }),
{
    let mut models: Table<ModelCount> = Table::new();
    let mut tools: Table<ToolCount> = Table::new();
    let mut children: Table<ChildCount> = Table::new();
    let mut totals = StatsTotals::zero();
    let mut durations: Vec<u64> = Vec::new();
    let mut traces: Vec<TraceStats> = Vec::new();
    let mut feedback: u64 = 0;
    let mut i: usize = 0;
    assert(durations@ =~= spans(no_sums().each));
    assert(rows(models) =~= no_sums().models);
    assert(rows(tools) =~= no_sums().tools);
    assert(rows(children) =~= no_sums().children);
    while i < asks.len()
        invariant
            i <= asks@.len(),
            asks_fit(asks@),
            traces@.len() == i,
            ({
                let s = sums_of(asks@, i as int);
                &&& rows(models) == s.models
                &&& rows(tools) == s.tools
                &&& rows(children) == s.children
                &&& totals@ == s.totals
                &&& feedback == s.feedback
                &&& durations@ == spans(s.each)
                &&& s.each.len() == i
                &&& forall|k: int|
                    0 <= k < i ==> stats_of_ask(#[trigger] traces@[k], asks@[k], s.each[k])
            }),
        decreases asks.len() - i,
    {
        let ghost s = sums_of(asks@, i as int);
        proof {
            lemma_asks_fit(asks@, i + 1);
            assert(sums_of(asks@, i + 1) == with_ask(s, asks@[i as int]));
        }
        let ask = &asks[i];
        let baseline: usize = if ask.parent_entries < ask.trace.log.len() {
            ask.parent_entries
        } else {
            ask.trace.log.len()
        };
        let t = fold_trace(&ask.trace, baseline, &mut models, &mut tools, &mut children);
        let ghost was_d = durations@;
        let ghost was_t = traces@;
        durations.push(t.duration_ms);
        feedback = feedback + ask.feedback_count;
        totals.add(&t);
        traces.push(
            TraceStats {
                trace_id: ask.head.trace_id.copy(),
                depends_on: match &ask.head.depends_on {
                    Some(d) => Some(d.copy()),
                    None => None,
                },
                question: ask.head.question.clone(),
                status: ask.head.status.clone(),
                created_at: ask.head.created_at,
                feedback_count: ask.feedback_count,
                totals: t,
            },
        );
        proof {
            let n = sums_of(asks@, i + 1);
            assert(n == with_ask(s, asks@[i as int]));
            assert(spans(n.each) =~= spans(s.each).push(t.duration_ms));
            assert forall|k: int| 0 <= k < i + 1 implies stats_of_ask(
                #[trigger] traces@[k],
                asks@[k],
                n.each[k],
            ) by {
                if k < i {
                    assert(traces@[k] == was_t[k]);
                }
            }
        }
        i = i + 1;
    }
    proof {
        lemma_spans(asks@, asks@.len() as int);
        lemma_asks_fit(asks@, asks@.len() as int);
    }
    let n: u64 = asks.len() as u64;
    let duration = duration_stats(durations);
    AgentStats {
        ask_count: n,
        feedback_count: feedback,
        totals,
        duration,
        traces,
        models: model_rows(&models),
        tools: tool_rows(&tools),
        children: child_rows(&children),
    }
}

// ----- what the stores say -----
/// Why statistics cannot be had.
#[derive(Debug)]
pub enum AnalyticsError {
    Store(StoreError),
    Feedback(String),
}

/// How much of an ask's log comes from the ask it follows. `parent` is what
/// came of loading that one: nothing where there is none, and the length of
/// its log where it is still stored. A parent that is no longer stored counts
/// as none.
pub fn baseline_len(parent: Option<Result<usize, StoreError>>) -> (r: Result<usize, AnalyticsError>)
    ensures
        match parent {
            None => r == Ok::<usize, AnalyticsError>(0),
            Some(Ok(n)) => r == Ok::<usize, AnalyticsError>(n),
            Some(Err(e)) => match e {
                StoreError::NotFound { .. } => r == Ok::<usize, AnalyticsError>(0),
                StoreError::Failed(_) => r == Err::<usize, AnalyticsError>(
                    AnalyticsError::Store(e),
                ),
            },
        },
{
    match parent {
        None => Ok(0),
        Some(Ok(n)) => Ok(n),
        Some(Err(e)) => match e {
            StoreError::NotFound { id: _ } => Ok(0),
            StoreError::Failed(why) => Err(AnalyticsError::Store(StoreError::Failed(why))),
        },
    }
}

/// The stored traces, each with the number of feedback events on it.
pub fn list_traces_with_feedback(heads: &Vec<TraceHead>, feedback: &Vec<u64>) -> (r: Vec<
    TraceListing,
>)
    requires
        heads@.len() == feedback@.len(),
    ensures
        r@.len() == heads@.len(),
        forall|i: int|
            0 <= i < heads@.len() ==> #[trigger] listing_of(r@[i], heads@[i], feedback@[i]),
{
    let mut out: Vec<TraceListing> = Vec::new();
    let mut i: usize = 0;
    while i < heads.len()
        invariant
            i <= heads@.len(),
            heads@.len() == feedback@.len(),
            out@.len() == i,
            forall|k: int| 0 <= k < i ==> #[trigger] listing_of(out@[k], heads@[k], feedback@[k]),
        decreases heads.len() - i,
    {
        let ghost was = out@;
        out.push(TraceListing::new(copy_head(&heads[i]), feedback[i]));
        assert forall|k: int| 0 <= k < i + 1 implies #[trigger] listing_of(
            out@[k],
            heads@[k],
            feedback@[k],
        ) by {
            if k < i {
                assert(listing_of(was[k], heads@[k], feedback@[k]));
            }
        }
        i = i + 1;
    }
    out
}

/// The listing is that of the trace with head `h`.
pub open spec fn listing_of(l: TraceListing, h: TraceHead, feedback: u64) -> bool {
    &&& l.trace_id == h.trace_id
    &&& l.depends_on == h.depends_on
    &&& l.agent_name == h.agent_name
    &&& l.agent_version == h.agent_version
    &&& l.created_at == h.created_at
    &&& l.question == h.question
    &&& l.status == h.status
    &&& l.feedback_count == feedback
}

/// Every ask counts once: with one more ask, each total is what it was and what the
/// ask itself took, cost and called, its feedback is counted with the rest, and
/// what is said of the asks before it stays as it was.
pub proof fn law_every_ask_adds_its_own(asks: Seq<StoredAsk>, n: int, i: int)
    requires
        0 <= i < n < asks.len(),
    ensures
        ({
            let s = sums_of(asks, n);
            let t = sums_of(asks, n + 1);
            let own = t.each[n];
            &&& t.feedback == s.feedback + asks[n].feedback_count
            &&& t.totals.duration_ms == s.totals.duration_ms + own.duration_ms
            &&& t.totals.cost_micro_usd == s.totals.cost_micro_usd + own.cost_micro_usd
            &&& t.totals.cost_own_micro_usd == s.totals.cost_own_micro_usd + own.cost_own_micro_usd
            &&& t.totals.cost_delegated_micro_usd == s.totals.cost_delegated_micro_usd + own.cost_delegated_micro_usd
            &&& t.totals.tokens_in == s.totals.tokens_in + own.tokens_in
            &&& t.totals.tokens_out == s.totals.tokens_out + own.tokens_out
            &&& t.totals.model_calls == s.totals.model_calls + own.model_calls
            &&& t.totals.tool_calls == s.totals.tool_calls + own.tool_calls
            &&& t.each.len() == n + 1
            &&& t.each[i] == s.each[i]
            &&& spans(t.each)[n] == own.duration_ms as u64
        }),
{
    lemma_spans(asks, n);
    lemma_spans(asks, n + 1);
    assert(sums_of(asks, n + 1) == with_ask(sums_of(asks, n), asks[n]));
}

/// A row of a table tells the numbers that the table holds for its name, and every
/// name of the table has a row.
pub proof fn law_rows_tell_what_was_counted(
    models: Seq<ModelStats>,
    tools: Seq<ToolStats>,
    children: Seq<ChildAgentStats>,
    ms: Map<Seq<char>, ModelCount>,
    ts: Map<Seq<char>, ToolCount>,
    cs: Map<Seq<char>, ChildCount>,
    i: int,
)
    requires
        model_rows_of(models, ms.map_values(|c: ModelCount| c@)),
        tool_rows_of(tools, ts.map_values(|c: ToolCount| c@)),
        child_rows_of(children, cs.map_values(|c: ChildCount| c@)),
    ensures
        0 <= i < models.len() ==> {
            let r = models[i];
            let c = ms[r.selector@];
            ms.dom().contains(r.selector@) && r.calls == c.calls && r.tokens_in == c.tokens_in
                && r.tokens_out == c.tokens_out && r.cost_micro_usd == c.cost_micro_usd
        },
        0 <= i < tools.len() ==> {
            let r = tools[i];
            let c = ts[r.name@];
            &&& ts.dom().contains(r.name@) && r.calls == c.calls && r.error_count == c.error_count
            &&& r.total_latency_ms == c.total_latency_ms
            &&& r.calls > 0 ==> r.mean_latency_ms * r.calls <= r.total_latency_ms < (
            r.mean_latency_ms + 1) * r.calls
        },
        0 <= i < children.len() ==> {
            let r = children[i];
            let c = cs[r.name@];
            cs.dom().contains(r.name@) && r.calls == c.calls && r.cost_delegated_micro_usd
                == c.cost_micro_usd
        },
        forall|k: Seq<char>| #[trigger]
            ms.dom().contains(k) ==> exists|j: int|
                0 <= j < models.len() && (#[trigger] models[j]).selector@ == k,
        forall|k: Seq<char>| #[trigger]
            ts.dom().contains(k) ==> exists|j: int|
                0 <= j < tools.len() && (#[trigger] tools[j]).name@ == k,
        forall|k: Seq<char>| #[trigger]
            cs.dom().contains(k) ==> exists|j: int|
                0 <= j < children.len() && (#[trigger] children[j]).name@ == k,
{
    let mk = models.map_values(|r: ModelStats| r.selector@);
    let tk = tools.map_values(|r: ToolStats| r.name@);
    let ck = children.map_values(|r: ChildAgentStats| r.name@);
    let mv = ms.map_values(|c: ModelCount| c@);
    let tv = ts.map_values(|c: ToolCount| c@);
    let cv = cs.map_values(|c: ChildCount| c@);
    if 0 <= i < models.len() {
        assert(mk[i] == models[i].selector@);
        assert(mk.contains(mk[i]));
        assert(mv.dom().contains(mk[i]));
    }
    if 0 <= i < tools.len() {
        assert(tk[i] == tools[i].name@);
        assert(tk.contains(tk[i]));
        assert(tv.dom().contains(tk[i]));
        let r = tools[i];
        if r.calls > 0 {
            let q = r.mean_latency_ms as int;
            let n = r.calls as int;
            let t = r.total_latency_ms as int;
            assert(q * n <= t < (q + 1) * n) by (nonlinear_arith)
                requires
                    n > 0,
                    q == t / n,
            ;
        }
    }
    if 0 <= i < children.len() {
        assert(ck[i] == children[i].name@);
        assert(ck.contains(ck[i]));
        assert(cv.dom().contains(ck[i]));
    }
    assert forall|k: Seq<char>| #[trigger] ms.dom().contains(k) implies exists|j: int|
        0 <= j < models.len() && (#[trigger] models[j]).selector@ == k by {
        assert(mv.dom().contains(k));
        assert(mk.contains(k));
        let j = mk.index_of(k);
        assert(models[j].selector@ == k);
    }
    assert forall|k: Seq<char>| #[trigger] ts.dom().contains(k) implies exists|j: int|
        0 <= j < tools.len() && (#[trigger] tools[j]).name@ == k by {
        assert(tv.dom().contains(k));
        assert(tk.contains(k));
        let j = tk.index_of(k);
        assert(tools[j].name@ == k);
    }
    assert forall|k: Seq<char>| #[trigger] cs.dom().contains(k) implies exists|j: int|
        0 <= j < children.len() && (#[trigger] children[j]).name@ == k by {
        assert(cv.dom().contains(k));
        assert(ck.contains(k));
        let j = ck.index_of(k);
        assert(children[j].name@ == k);
    }
}

/// The statistics and the listing of an ask tell what is stored of it.
pub proof fn law_asks_are_told_as_stored(
    t: TraceStats,
    l: TraceListing,
    a: StoredAsk,
    totals: StatsTotals,
)
    requires
        stats_of_ask(t, a, totals@),
        listing_of(l, a.head, a.feedback_count),
    ensures
        t.trace_id == a.head.trace_id && l.trace_id == a.head.trace_id,
        t.depends_on == a.head.depends_on && l.depends_on == a.head.depends_on,
        t.question == a.head.question && l.question == a.head.question,
        t.status == a.head.status && l.status == a.head.status,
        t.created_at == a.head.created_at && l.created_at == a.head.created_at,
        t.feedback_count == a.feedback_count && l.feedback_count == a.feedback_count,
        l.agent_name == a.head.agent_name,
        l.agent_version == a.head.agent_version,
        t.totals == totals,
{
}

/// What an ask takes over from the one it follows is no part of its own log.
pub proof fn law_own_entries_follow_the_parents(a: StoredAsk)
    ensures
        0 <= a.baseline() <= a.trace.log@.len(),
        a.parent_entries <= a.trace.log@.len() ==> a.baseline() == a.parent_entries,
        a.parent_entries >= a.trace.log@.len() ==> a.trace.log@.skip(a.baseline()).len() == 0,
{
}

} // verus!
