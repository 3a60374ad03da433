//! Folding the logs of stored traces into statistics.
use vstd::prelude::*;

use super::analytics::{StatsTotals, Totals};
use crate::json::opt_view;
use crate::split::{begins_with, ends_with, finishes_with, strip_prefix};
use crate::table::{put, rows, Table};
use crate::trace::{find_tool_name, tool_name, LogEntry, Outcome, Record, Trace};

verus! {

/// The calls of one model tier.
#[derive(Clone, Copy, Debug, PartialEq, Eq, Structural)]
pub struct ModelCount {
    pub calls: u32,
    pub tokens_in: u64,
    pub tokens_out: u64,
    pub cost_micro_usd: u64,
}

/// The calls of one tool.
#[derive(Clone, Copy, Debug, PartialEq, Eq, Structural)]
pub struct ToolCount {
    pub calls: u32,
    pub error_count: u32,
    pub total_latency_ms: u64,
}

/// The calls of one other agent.
#[derive(Clone, Copy, Debug, PartialEq, Eq, Structural)]
pub struct ChildCount {
    pub calls: u32,
    pub cost_micro_usd: u64,
}

/// What the calls of one model tier add up to.
pub struct ModelSum {
    pub calls: nat,
    pub tokens_in: nat,
    pub tokens_out: nat,
    pub cost_micro_usd: nat,
}

impl View for ModelCount {
    type V = ModelSum;

    open spec fn view(&self) -> ModelSum {
        ModelSum {
            calls: self.calls as nat,
            tokens_in: self.tokens_in as nat,
            tokens_out: self.tokens_out as nat,
            cost_micro_usd: self.cost_micro_usd as nat,
        }
    }
}

/// What the calls of one tool add up to.
pub struct ToolSum {
    pub calls: nat,
    pub error_count: nat,
    pub total_latency_ms: nat,
}

impl View for ToolCount {
    type V = ToolSum;

    open spec fn view(&self) -> ToolSum {
        ToolSum {
            calls: self.calls as nat,
            error_count: self.error_count as nat,
            total_latency_ms: self.total_latency_ms as nat,
        }
    }
}

/// What the calls of one other agent add up to.
pub struct ChildSum {
    pub calls: nat,
    pub cost_micro_usd: nat,
}

impl View for ChildCount {
    type V = ChildSum;

    open spec fn view(&self) -> ChildSum {
        ChildSum { calls: self.calls as nat, cost_micro_usd: self.cost_micro_usd as nat }
    }
}

/// The other agent that a tool stands for, where it stands for one.
pub open spec fn child_of(tool: Seq<char>) -> Option<Seq<char>> {
    let child = tool.skip("agent_"@.len() as int);
    if begins_with(tool, "agent_"@) && !finishes_with(child, "_feedback"@) {
        Some(child)
    } else {
        None
    }
}

pub fn child_agent_name(tool_name: &str) -> (r: Option<String>)
    ensures
        opt_view(r) == child_of(tool_name@),
{
    match strip_prefix(tool_name, "agent_") {
        None => None,
        Some(child) => if ends_with(child.as_str(), "_feedback") {
            None
        } else {
            Some(child)
        },
    }
}

// ----- what is added up -----
/// What the results of other agents add up to.
pub struct Delegated {
    pub children: Map<Seq<char>, ChildSum>,
    pub cost: nat,
}

/// The row of another agent; nothing where it has none.
pub open spec fn child_at(m: Map<Seq<char>, ChildSum>, k: Seq<char>) -> ChildSum {
    if m.dom().contains(k) {
        m[k]
    } else {
        ChildSum { calls: 0, cost_micro_usd: 0 }
    }
}

/// What the entry adds to what other agents spent.
pub open spec fn delegated_step(d: Delegated, e: LogEntry) -> Delegated {
    match e.record {
        Record::ToolResult { name, answer_cost: Some(c), .. } => match child_of(name@) {
            Some(child) => {
                let row = child_at(d.children, child);
                Delegated {
                    children: d.children.insert(
                        child,
                        ChildSum {
                            calls: row.calls + 1,
                            cost_micro_usd: row.cost_micro_usd + c as nat,
                        },
                    ),
                    cost: d.cost + c as nat,
                }
            },
            None => d,
        },
        _ => d,
    }
}

/// What the entries from index `i` on add.
pub open spec fn delegated_from(log: Seq<LogEntry>, i: int, d: Delegated) -> Delegated
    decreases log.len() - i,
{
    if i < 0 || i >= log.len() {
        d
    } else {
        delegated_from(log, i + 1, delegated_step(d, log[i]))
    }
}

/// What the operations that ended add up to.
pub struct Worked {
    pub models: Map<Seq<char>, ModelSum>,
    pub tools: Map<Seq<char>, ToolSum>,
    pub model_calls: nat,
    pub tool_calls: nat,
    pub tokens_in: nat,
    pub tokens_out: nat,
    pub cost: nat,
    pub first: Option<u64>,
    pub last: Option<u64>,
}

/// The row of a model tier; nothing where it has none.
pub open spec fn model_at(m: Map<Seq<char>, ModelSum>, k: Seq<char>) -> ModelSum {
    if m.dom().contains(k) {
        m[k]
    } else {
        ModelSum { calls: 0, tokens_in: 0, tokens_out: 0, cost_micro_usd: 0 }
    }
}

/// The row of a tool; nothing where it has none.
pub open spec fn tool_at(m: Map<Seq<char>, ToolSum>, k: Seq<char>) -> ToolSum {
    if m.dom().contains(k) {
        m[k]
    } else {
        ToolSum { calls: 0, error_count: 0, total_latency_ms: 0 }
    }
}

pub open spec fn latency(started: u64, ended: u64) -> nat {
    if ended >= started {
        (ended - started) as nat
    } else {
        0
    }
}

/// What the entry adds to what operations add up to. `from` is where the ask's
/// own part of the log starts.
pub open spec fn worked_step(log: Seq<LogEntry>, from: int, w: Worked, e: LogEntry) -> Worked {
    match e.record {
        Record::OpEnded { op, outcome, meta } => {
            let first = match w.first {
                Some(f) => if f <= meta.started_at {
                    f
                } else {
                    meta.started_at
                },
                None => meta.started_at,
            };
            let last = match w.last {
                Some(l) => if l >= meta.ended_at {
                    l
                } else {
                    meta.ended_at
                },
                None => meta.ended_at,
            };
            let timed = Worked { first: Some(first), last: Some(last), ..w };
            match meta.model {
                Some(selector) => match meta.usage {
                    Some(u) => {
                        let row = model_at(w.models, selector@);
                        Worked {
                            models: w.models.insert(
                                selector@,
                                ModelSum {
                                    calls: row.calls + 1,
                                    tokens_in: row.tokens_in + u.input_tokens as nat,
                                    tokens_out: row.tokens_out + u.output_tokens as nat,
                                    cost_micro_usd: row.cost_micro_usd
                                        + meta.cost_micro_usd as nat,
                                },
                            ),
                            model_calls: w.model_calls + 1,
                            tokens_in: w.tokens_in + u.input_tokens as nat,
                            tokens_out: w.tokens_out + u.output_tokens as nat,
                            cost: w.cost + meta.cost_micro_usd as nat,
                            ..timed
                        }
                    },
                    None => timed,
                },
                None => {
                    let name = tool_name(log, from, op);
                    let row = tool_at(w.tools, name);
                    Worked {
                        tools: w.tools.insert(
                            name,
                            ToolSum {
                                calls: row.calls + 1,
                                error_count: row.error_count + (if outcome is Success {
                                    0nat
                                } else {
                                    1
                                }),
                                total_latency_ms: row.total_latency_ms + latency(
                                    meta.started_at,
                                    meta.ended_at,
                                ),
                            },
                        ),
                        tool_calls: w.tool_calls + 1,
                        ..timed
                    }
                },
            }
        },
        _ => w,
    }
}

/// What the entries from index `i` on add.
pub open spec fn worked_from(log: Seq<LogEntry>, from: int, i: int, w: Worked) -> Worked
    decreases log.len() - i,
{
    if i < 0 || i >= log.len() {
        w
    } else {
        worked_from(log, from, i + 1, worked_step(log, from, w, log[i]))
    }
}

/// Tables to fold into, and nothing else yet.
pub open spec fn nothing_worked(
    models: Map<Seq<char>, ModelSum>,
    tools: Map<Seq<char>, ToolSum>,
) -> Worked {
    Worked {
        models,
        tools,
        model_calls: 0,
        tool_calls: 0,
        tokens_in: 0,
        tokens_out: 0,
        cost: 0,
        first: None,
        last: None,
    }
}

/// The totals of an ask.
pub open spec fn ask_totals(w: Worked, delegated: nat) -> Totals {
    Totals {
        duration_ms: match (w.first, w.last) {
            (Some(s), Some(e)) => latency(s, e),
            _ => 0,
        },
        cost_micro_usd: w.cost + delegated,
        cost_own_micro_usd: w.cost,
        cost_delegated_micro_usd: delegated,
        tokens_in: w.tokens_in,
        tokens_out: w.tokens_out,
        model_calls: w.model_calls,
        tool_calls: w.tool_calls,
    }
}

// ----- counters that fit -----
/// Every row fits where it is kept.
pub open spec fn children_fit(m: Map<Seq<char>, ChildSum>) -> bool {
    forall|k: Seq<char>|
        {
            let row = #[trigger] child_at(m, k);
            row.calls <= u32::MAX && row.cost_micro_usd <= u64::MAX
        }
}

pub open spec fn models_fit(m: Map<Seq<char>, ModelSum>) -> bool {
    forall|k: Seq<char>|
        {
            let row = #[trigger] model_at(m, k);
            row.calls <= u32::MAX && row.tokens_in <= u64::MAX && row.tokens_out <= u64::MAX
                && row.cost_micro_usd <= u64::MAX
        }
}

pub open spec fn tools_fit(m: Map<Seq<char>, ToolSum>) -> bool {
    forall|k: Seq<char>|
        {
            let row = #[trigger] tool_at(m, k);
            row.calls <= u32::MAX && row.error_count <= u32::MAX && row.total_latency_ms
                <= u64::MAX
        }
}

/// No row of `a` is more than that of `b`.
pub open spec fn children_within(a: Map<Seq<char>, ChildSum>, b: Map<Seq<char>, ChildSum>) -> bool {
    forall|k: Seq<char>|
        #![trigger child_at(a, k)]
        #![trigger child_at(b, k)]
        child_at(a, k).calls <= child_at(b, k).calls && child_at(a, k).cost_micro_usd <= child_at(
            b,
            k,
        ).cost_micro_usd
}

pub open spec fn models_within(a: Map<Seq<char>, ModelSum>, b: Map<Seq<char>, ModelSum>) -> bool {
    forall|k: Seq<char>|
        #![trigger model_at(a, k)]
        #![trigger model_at(b, k)]
        {
            let x = model_at(a, k);
            let y = model_at(b, k);
            x.calls <= y.calls && x.tokens_in <= y.tokens_in && x.tokens_out <= y.tokens_out
                && x.cost_micro_usd <= y.cost_micro_usd
        }
}

pub open spec fn tools_within(a: Map<Seq<char>, ToolSum>, b: Map<Seq<char>, ToolSum>) -> bool {
    forall|k: Seq<char>|
        #![trigger tool_at(a, k)]
        #![trigger tool_at(b, k)]
        {
            let x = tool_at(a, k);
            let y = tool_at(b, k);
            x.calls <= y.calls && x.error_count <= y.error_count && x.total_latency_ms
                <= y.total_latency_ms
        }
}

/// What other agents spent only grows.
pub proof fn lemma_delegated_grows(log: Seq<LogEntry>, i: int, d: Delegated)
    ensures
        children_within(d.children, delegated_from(log, i, d).children),
        d.cost <= delegated_from(log, i, d).cost,
    decreases log.len() - i,
{
    if 0 <= i < log.len() {
        let next = delegated_step(d, log[i]);
        assert(children_within(d.children, next.children));
        lemma_delegated_grows(log, i + 1, next);
        let end = delegated_from(log, i, d);
        assert forall|k: Seq<char>|
            #![trigger child_at(d.children, k)]
            #![trigger child_at(end.children, k)]
            child_at(d.children, k).calls <= child_at(end.children, k).calls && child_at(
                d.children,
                k,
            ).cost_micro_usd <= child_at(end.children, k).cost_micro_usd by {
            assert(child_at(d.children, k).calls <= child_at(next.children, k).calls);
        }
    }
}

/// `b` is at least `a` in everything that is counted.
pub open spec fn worked_within(a: Worked, b: Worked) -> bool {
    &&& models_within(a.models, b.models)
    &&& tools_within(a.tools, b.tools)
    &&& a.model_calls <= b.model_calls
    &&& a.tool_calls <= b.tool_calls
    &&& a.tokens_in <= b.tokens_in
    &&& a.tokens_out <= b.tokens_out
    &&& a.cost <= b.cost
}

/// What operations add up to only grows.
pub proof fn lemma_worked_grows(log: Seq<LogEntry>, from: int, i: int, w: Worked)
    ensures
        worked_within(w, worked_from(log, from, i, w)),
    decreases log.len() - i,
{
    if 0 <= i < log.len() {
        let next = worked_step(log, from, w, log[i]);
        assert(worked_within(w, next));
        lemma_worked_grows(log, from, i + 1, next);
        let end = worked_from(log, from, i, w);
        assert forall|k: Seq<char>|
            #![trigger model_at(w.models, k)]
            #![trigger model_at(end.models, k)]
            {
                let x = model_at(w.models, k);
                let y = model_at(end.models, k);
                x.calls <= y.calls && x.tokens_in <= y.tokens_in && x.tokens_out <= y.tokens_out
                    && x.cost_micro_usd <= y.cost_micro_usd
            } by {
            assert(model_at(w.models, k).calls <= model_at(next.models, k).calls);
        }
        assert forall|k: Seq<char>|
            #![trigger tool_at(w.tools, k)]
            #![trigger tool_at(end.tools, k)]
            {
                let x = tool_at(w.tools, k);
                let y = tool_at(end.tools, k);
                x.calls <= y.calls && x.error_count <= y.error_count && x.total_latency_ms
                    <= y.total_latency_ms
            } by {
            assert(tool_at(w.tools, k).calls <= tool_at(next.tools, k).calls);
        }
    }
}

// ----- folding -----
/// Adds up what other agents spent, by the entries of the log from `from` on.
pub fn fold_delegated(log: &Vec<LogEntry>, from: usize, children: &mut Table<ChildCount>) -> (cost:
    u64)
    requires
        from <= log@.len(),
        ({
            let d = delegated_from(
                log@,
                from as int,
                Delegated { children: rows(*old(children)), cost: 0 },
            );
            children_fit(d.children) && d.cost <= u64::MAX
        }),
    ensures
        delegated_from(log@, from as int, Delegated { children: rows(*old(children)), cost: 0 })
            == (Delegated { children: rows(*final(children)), cost: cost as nat }),
{
    let ghost goal = delegated_from(
        log@,
        from as int,
        Delegated { children: rows(*children), cost: 0 },
    );
    let mut cost: u64 = 0;
    let mut i: usize = from;
    while i < log.len()
        invariant
            from <= i <= log@.len(),
            children_fit(goal.children),
            goal.cost <= u64::MAX,
            goal == delegated_from(
                log@,
                i as int,
                Delegated { children: rows(*children), cost: cost as nat },
            ),
        decreases log.len() - i,
    {
        let ghost now = Delegated { children: rows(*children), cost: cost as nat };
        let ghost next = delegated_step(now, log@[i as int]);
        proof {
            lemma_delegated_grows(log@, i + 1, next);
        }
        if let Record::ToolResult { name, answer_cost, .. } = &log[i].record {
            if let Some(c) = answer_cost {
                if let Some(child) = child_agent_name(name.as_str()) {
                    let row = match children.get(child.as_str()) {
                        Some(r) => *r,
                        None => ChildCount { calls: 0, cost_micro_usd: 0 },
                    };
                    assert(row@ == child_at(now.children, child@));
                    assert(child_at(next.children, child@).calls == row.calls + 1);
                    assert(child_at(goal.children, child@).calls <= u32::MAX);
                    put(
                        children,
                        child.as_str(),
                        ChildCount {
                            calls: row.calls + 1,
                            cost_micro_usd: row.cost_micro_usd + *c,
                        },
                    );
                    cost = cost + *c;
                }
            }
        }
        i = i + 1;
    }
    cost
}

/// What operations added up to, besides the tables.
pub struct WorkTotals {
    pub model_calls: u32,
    pub tool_calls: u32,
    pub tokens_in: u64,
    pub tokens_out: u64,
    pub cost: u64,
    pub first: Option<u64>,
    pub last: Option<u64>,
}

pub open spec fn worked_of(
    t: WorkTotals,
    models: Map<Seq<char>, ModelSum>,
    tools: Map<Seq<char>, ToolSum>,
) -> Worked {
    Worked {
        models,
        tools,
        model_calls: t.model_calls as nat,
        tool_calls: t.tool_calls as nat,
        tokens_in: t.tokens_in as nat,
        tokens_out: t.tokens_out as nat,
        cost: t.cost as nat,
        first: t.first,
        last: t.last,
    }
}

/// Everything that is counted fits where it is kept.
pub open spec fn worked_fits(w: Worked) -> bool {
    &&& models_fit(w.models)
    &&& tools_fit(w.tools)
    &&& w.model_calls <= u32::MAX
    &&& w.tool_calls <= u32::MAX
    &&& w.tokens_in <= u64::MAX
    &&& w.tokens_out <= u64::MAX
    &&& w.cost <= u64::MAX
}

/// Adds up the operations that ended in the entries of the log from `from` on.
pub fn fold_worked(
    log: &Vec<LogEntry>,
    from: usize,
    models: &mut Table<ModelCount>,
    tools: &mut Table<ToolCount>,
) -> (t: WorkTotals)
    requires
        from <= log@.len(),
        worked_fits(
            worked_from(
                log@,
                from as int,
                from as int,
                nothing_worked(rows(*old(models)), rows(*old(tools))),
            ),
        ),
    ensures
        worked_of(t, rows(*final(models)), rows(*final(tools))) == worked_from(
            log@,
            from as int,
            from as int,
            nothing_worked(rows(*old(models)), rows(*old(tools))),
        ),
{
    let ghost goal = worked_from(
        log@,
        from as int,
        from as int,
        nothing_worked(rows(*models), rows(*tools)),
    );
    let mut t = WorkTotals {
        model_calls: 0,
        tool_calls: 0,
        tokens_in: 0,
        tokens_out: 0,
        cost: 0,
        first: None,
        last: None,
    };
    let mut i: usize = from;
    while i < log.len()
        invariant
            from <= i <= log@.len(),
            worked_fits(goal),
            goal == worked_from(
                log@,
                from as int,
                i as int,
                worked_of(t, rows(*models), rows(*tools)),
            ),
        decreases log.len() - i,
    {
        let ghost now = worked_of(t, rows(*models), rows(*tools));
        let ghost next = worked_step(log@, from as int, now, log@[i as int]);
        proof {
            lemma_worked_grows(log@, from as int, i + 1, next);
        }
        if let Record::OpEnded { op, outcome, meta } = &log[i].record {
            let first: u64 = match t.first {
                Some(f) => if f <= meta.started_at {
                    f
                } else {
                    meta.started_at
                },
                None => meta.started_at,
            };
            let last: u64 = match t.last {
                Some(l) => if l >= meta.ended_at {
                    l
                } else {
                    meta.ended_at
                },
                None => meta.ended_at,
            };
            t.first = Some(first);
            t.last = Some(last);
            match &meta.model {
                Some(selector) => {
                    if let Some(u) = &meta.usage {
                        let row = match models.get(selector.as_str()) {
                            Some(r) => *r,
                            None => ModelCount {
                                calls: 0,
                                tokens_in: 0,
                                tokens_out: 0,
                                cost_micro_usd: 0,
                            },
                        };
                        assert(row@ == model_at(now.models, selector@));
                        assert(model_at(next.models, selector@).calls == row.calls + 1);
                        assert(model_at(goal.models, selector@).calls <= u32::MAX);
                        put(
                            models,
                            selector.as_str(),
                            ModelCount {
                                calls: row.calls + 1,
                                tokens_in: row.tokens_in + u.input_tokens,
                                tokens_out: row.tokens_out + u.output_tokens,
                                cost_micro_usd: row.cost_micro_usd + meta.cost_micro_usd,
                            },
                        );
                        t.model_calls = t.model_calls + 1;
                        t.tokens_in = t.tokens_in + u.input_tokens;
                        t.tokens_out = t.tokens_out + u.output_tokens;
                        t.cost = t.cost + meta.cost_micro_usd;
                    }
                },
                None => {
                    let name = find_tool_name(log, from, *op);
                    let took: u64 = meta.ended_at.saturating_sub(meta.started_at);
                    let row = match tools.get(name.as_str()) {
                        Some(r) => *r,
                        None => ToolCount { calls: 0, error_count: 0, total_latency_ms: 0 },
                    };
                    assert(row@ == tool_at(now.tools, name@));
                    assert(tool_at(next.tools, name@).calls == row.calls + 1);
                    assert(tool_at(goal.tools, name@).calls <= u32::MAX);
                    let bad: u32 = if matches!(outcome, Outcome::Success) {
                        0
                    } else {
                        1
                    };
                    put(
                        tools,
                        name.as_str(),
                        ToolCount {
                            calls: row.calls + 1,
                            error_count: row.error_count + bad,
                            total_latency_ms: row.total_latency_ms + took,
                        },
                    );
                    t.tool_calls = t.tool_calls + 1;
                },
            }
        }
        assert(worked_of(t, rows(*models), rows(*tools)) == next);
        i = i + 1;
    }
    t
}

/// What one ask's own part of a log adds: to the tables, and in all.
pub struct Folded {
    pub models: Map<Seq<char>, ModelSum>,
    pub tools: Map<Seq<char>, ToolSum>,
    pub children: Map<Seq<char>, ChildSum>,
    pub totals: Totals,
}

/// The tables and totals after the entries of a log from `from` on.
pub open spec fn folded(
    log: Seq<LogEntry>,
    from: int,
    models: Map<Seq<char>, ModelSum>,
    tools: Map<Seq<char>, ToolSum>,
    children: Map<Seq<char>, ChildSum>,
) -> Folded {
    let d = delegated_from(log, from, Delegated { children, cost: 0 });
    let w = worked_from(log, from, from, nothing_worked(models, tools));
    Folded {
        models: w.models,
        tools: w.tools,
        children: d.children,
        totals: ask_totals(w, d.cost),
    }
}

/// No sum overflows: what each counter comes to fits where it is kept.
pub open spec fn folded_fits(f: Folded) -> bool {
    &&& models_fit(f.models)
    &&& tools_fit(f.tools)
    &&& children_fit(f.children)
    &&& f.totals.fits()
}

/// Folds one ask's own part of a trace into the tables and hands back the
/// ask's totals.
pub fn fold_trace(
    trace: &Trace,
    baseline: usize,
    models: &mut Table<ModelCount>,
    tools: &mut Table<ToolCount>,
    children: &mut Table<ChildCount>,
) -> (r: StatsTotals)
    requires
        baseline <= trace.log@.len(),
        folded_fits(
            folded(
                trace.log@,
                baseline as int,
                rows(*old(models)),
                rows(*old(tools)),
                rows(*old(children)),
            ),
        ),
    ensures
        folded(
            trace.log@,
            baseline as int,
            rows(*old(models)),
            rows(*old(tools)),
            rows(*old(children)),
        ) == (Folded {
            models: rows(*final(models)),
            tools: rows(*final(tools)),
            children: rows(*final(children)),
            totals: r@,
        }),
{
    let delegated: u64 = fold_delegated(&trace.log, baseline, children);
    let w = fold_worked(&trace.log, baseline, models, tools);
    let took: u64 = match (w.first, w.last) {
        (Some(s), Some(e)) => e.saturating_sub(s),
        _ => 0,
    };
    StatsTotals {
        duration_ms: took,
        cost_micro_usd: w.cost + delegated,
        cost_own_micro_usd: w.cost,
        cost_delegated_micro_usd: delegated,
        tokens_in: w.tokens_in,
        tokens_out: w.tokens_out,
        model_calls: w.model_calls,
        tool_calls: w.tool_calls,
    }
}

proof fn lemma_worked_push(log: Seq<LogEntry>, from: int, i: int, w: Worked, e: LogEntry)
    requires
        0 <= i <= log.len(),
        forall|op: u64| tool_name(log, from, op) == #[trigger] tool_name(log.push(e), from, op),
    ensures
        worked_from(log.push(e), from, i, w) == worked_step(
            log.push(e),
            from,
            worked_from(log, from, i, w),
            e,
        ),
    decreases log.len() - i,
{
    let more = log.push(e);
    if i < log.len() {
        assert(more[i] == log[i]);
        let next = worked_step(log, from, w, log[i]);
        assert(worked_step(more, from, w, more[i]) == next) by {
            if let Record::OpEnded { op, outcome, meta } = log[i].record {
                assert(tool_name(log, from, op) == tool_name(more, from, op));
            }
        }
        lemma_worked_push(log, from, i + 1, next, e);
    } else {
        assert(more[i] == e);
        let last = worked_step(more, from, w, e);
        assert(worked_from(more, from, i + 1, last) == last);
    }
}

proof fn lemma_name_below_push(log: Seq<LogEntry>, from: int, e: LogEntry, op: u64, n: int)
    requires
        n <= log.len(),
    ensures
        crate::trace::tool_name_below(log, from, n, op) == crate::trace::tool_name_below(
            log.push(e),
            from,
            n,
            op,
        ),
    decreases n,
{
    if n > 0 {
        lemma_name_below_push(log, from, e, op, n - 1);
        assert(log.push(e)[n - 1] == log[n - 1]);
    }
}

proof fn lemma_names_push(log: Seq<LogEntry>, from: int, e: LogEntry)
    requires
        !(e.record is ToolResult),
    ensures
        forall|op: u64| tool_name(log, from, op) == #[trigger] tool_name(log.push(e), from, op),
{
    assert forall|op: u64| tool_name(log, from, op) == #[trigger] tool_name(
        log.push(e),
        from,
        op,
    ) by {
        lemma_name_below_push(log, from, e, op, log.len() as int);
        assert(log.push(e)[log.len() as int] == e);
        reveal_with_fuel(crate::trace::tool_name_below, 2);
    }
}

proof fn lemma_delegated_push(log: Seq<LogEntry>, i: int, d: Delegated, e: LogEntry)
    requires
        0 <= i <= log.len(),
    ensures
        delegated_from(log.push(e), i, d) == delegated_step(delegated_from(log, i, d), e),
    decreases log.len() - i,
{
    let more = log.push(e);
    if i < log.len() {
        assert(more[i] == log[i]);
        lemma_delegated_push(log, i + 1, delegated_step(d, log[i]), e);
    } else {
        assert(more[i] == e);
        let last = delegated_step(d, e);
        assert(delegated_from(more, i + 1, last) == last);
    }
}

/// One more operation that ended counts for itself in the statistics. A model
/// call with known use adds one call, its input tokens to the tokens in, its
/// output tokens to the tokens out and its cost to the agent's own cost, in the
/// totals and in the row of its model alone. A tool call adds one call, its
/// latency, and an error unless it succeeded, in the row of its tool alone. An
/// entry of another kind changes none of these.
pub proof fn law_every_operation_counts_for_itself(
    log: Seq<LogEntry>,
    from: int,
    e: LogEntry,
    models: Map<Seq<char>, ModelSum>,
    tools: Map<Seq<char>, ToolSum>,
    children: Map<Seq<char>, ChildSum>,
    k: Seq<char>,
)
    requires
        0 <= from <= log.len(),
        !(e.record is ToolResult),
    ensures
        ({
            let was = folded(log, from, models, tools, children);
            let now = folded(log.push(e), from, models, tools, children);
            let m_was = model_at(was.models, k);
            let m_now = model_at(now.models, k);
            let t_was = tool_at(was.tools, k);
            let t_now = tool_at(now.tools, k);
            &&& now.children == was.children
            &&& now.totals.cost_delegated_micro_usd == was.totals.cost_delegated_micro_usd
            &&& match e.record {
                Record::OpEnded { op, outcome, meta } => match (meta.model, meta.usage) {
                    (Some(model), Some(usage)) => {
                        &&& now.totals.model_calls == was.totals.model_calls + 1
                        &&& now.totals.tokens_in == was.totals.tokens_in + usage.input_tokens
                        &&& now.totals.tokens_out == was.totals.tokens_out + usage.output_tokens
                        &&& now.totals.cost_own_micro_usd == was.totals.cost_own_micro_usd
                            + meta.cost_micro_usd
                        &&& now.totals.cost_micro_usd == was.totals.cost_micro_usd
                            + meta.cost_micro_usd
                        &&& now.totals.tool_calls == was.totals.tool_calls
                        &&& now.tools == was.tools
                        &&& k == model@ ==> {
                            &&& now.models.dom().contains(k)
                            &&& m_now.calls == m_was.calls + 1
                            &&& m_now.tokens_in == m_was.tokens_in + usage.input_tokens
                            &&& m_now.tokens_out == m_was.tokens_out + usage.output_tokens
                            &&& m_now.cost_micro_usd == m_was.cost_micro_usd + meta.cost_micro_usd
                        }
                        &&& k != model@ ==> m_now == m_was && now.models.dom().contains(k)
                            == was.models.dom().contains(k)
                    },
                    (Some(_), None) => {
                        &&& now.models == was.models
                        &&& now.tools == was.tools
                        &&& now.totals == (Totals {
                            duration_ms: now.totals.duration_ms,
                            ..was.totals
                        })
                    },
                    (None, _) => {
                        &&& now.models == was.models
                        &&& now.totals == (Totals {
                            duration_ms: now.totals.duration_ms,
                            tool_calls: was.totals.tool_calls + 1,
                            ..was.totals
                        })
                        &&& k == tool_name(log, from, op) ==> {
                            &&& now.tools.dom().contains(k)
                            &&& t_now.calls == t_was.calls + 1
                            &&& outcome is Success ==> t_now.error_count == t_was.error_count
                            &&& !(outcome is Success) ==> t_now.error_count == t_was.error_count + 1
                            &&& meta.ended_at >= meta.started_at ==> t_now.total_latency_ms
                                == t_was.total_latency_ms + (meta.ended_at - meta.started_at)
                            &&& meta.ended_at < meta.started_at ==> t_now.total_latency_ms
                                == t_was.total_latency_ms
                        }
                        &&& k != tool_name(log, from, op) ==> t_now == t_was
                            && now.tools.dom().contains(k) == was.tools.dom().contains(k)
                    },
                },
                _ => now == was,
            }
        }),
{
    lemma_names_push(log, from, e);
    lemma_worked_push(log, from, from, nothing_worked(models, tools), e);
    lemma_delegated_push(log, from, Delegated { children, cost: 0 }, e);
}

proof fn lemma_worked_push_result(log: Seq<LogEntry>, from: int, i: int, v: Worked, w: Worked, e: LogEntry)
    requires
        0 <= i <= log.len(),
        !(e.record is OpEnded),
        v.models == w.models,
        v.model_calls == w.model_calls,
        v.tool_calls == w.tool_calls,
        v.tokens_in == w.tokens_in,
        v.tokens_out == w.tokens_out,
        v.cost == w.cost,
        v.first == w.first,
        v.last == w.last,
    ensures
        ({
            let a = worked_from(log, from, i, v);
            let b = worked_from(log.push(e), from, i, w);
            &&& a.models == b.models
            &&& a.model_calls == b.model_calls
            &&& a.tool_calls == b.tool_calls
            &&& a.tokens_in == b.tokens_in
            &&& a.tokens_out == b.tokens_out
            &&& a.cost == b.cost
            &&& a.first == b.first
            &&& a.last == b.last
        }),
    decreases log.len() - i,
{
    let more = log.push(e);
    if i < log.len() {
        assert(more[i] == log[i]);
        lemma_worked_push_result(
            log,
            from,
            i + 1,
            worked_step(log, from, v, log[i]),
            worked_step(more, from, w, log[i]),
            e,
        );
    } else {
        assert(more[i] == e);
        assert(worked_from(more, from, i + 1, w) == w);
    }
}

/// The answer of another agent counts as one call of that agent at the cost it
/// tells, which is added to the cost that was delegated and to the cost in all,
/// and to the row of that agent alone. A result that is no answer of another
/// agent costs nothing, and the feedback handed to one is not a call of it. A
/// result never changes the models or what the agent itself took.
pub proof fn law_answers_of_others_are_delegated_cost(
    log: Seq<LogEntry>,
    from: int,
    e: LogEntry,
    child: Seq<char>,
    models: Map<Seq<char>, ModelSum>,
    tools: Map<Seq<char>, ToolSum>,
    children: Map<Seq<char>, ChildSum>,
    k: Seq<char>,
)
    requires
        0 <= from <= log.len(),
        e.record is ToolResult,
    ensures
        ({
            let was = folded(log, from, models, tools, children);
            let now = folded(log.push(e), from, models, tools, children);
            let c_was = child_at(was.children, k);
            let c_now = child_at(now.children, k);
            &&& now.models == was.models
            &&& now.totals.tokens_in == was.totals.tokens_in
            &&& now.totals.tokens_out == was.totals.tokens_out
            &&& now.totals.model_calls == was.totals.model_calls
            &&& now.totals.tool_calls == was.totals.tool_calls
            &&& now.totals.duration_ms == was.totals.duration_ms
            &&& now.totals.cost_own_micro_usd == was.totals.cost_own_micro_usd
            &&& now.totals.cost_micro_usd == now.totals.cost_own_micro_usd
                + now.totals.cost_delegated_micro_usd
            &&& e.record matches Record::ToolResult { name, answer_cost, .. } && {
                &&& name@ == "agent_"@ + child && !finishes_with(child, "_feedback"@)
                    && answer_cost is Some ==> {
                    &&& now.totals.cost_delegated_micro_usd == was.totals.cost_delegated_micro_usd
                        + answer_cost->0
                    &&& k == child ==> {
                        &&& now.children.dom().contains(k)
                        &&& c_now.calls == c_was.calls + 1
                        &&& c_now.cost_micro_usd == c_was.cost_micro_usd + answer_cost->0
                    }
                    &&& k != child ==> c_now == c_was && now.children.dom().contains(k)
                        == was.children.dom().contains(k)
                }
                &&& answer_cost is None || !begins_with(name@, "agent_"@) || finishes_with(
                    name@.skip(6),
                    "_feedback"@,
                ) ==> now.children == was.children && now.totals.cost_delegated_micro_usd
                    == was.totals.cost_delegated_micro_usd
            }
        }),
{
    let w = nothing_worked(models, tools);
    lemma_worked_push_result(log, from, from, w, w, e);
    lemma_delegated_push(log, from, Delegated { children, cost: 0 }, e);
    reveal_strlit("agent_");
    assert("agent_"@.len() == 6);
    if let Record::ToolResult { name, answer_cost, .. } = e.record {
        if name@ == "agent_"@ + child {
            assert(name@.take(6) =~= "agent_"@);
            assert(name@.skip(6) =~= child);
        }
    }
}

proof fn lemma_worked_span(log: Seq<LogEntry>, from: int, i: int, w: Worked)
    requires
        0 <= i <= log.len(),
        w.first is Some <==> w.last is Some,
    ensures
        ({
            let r = worked_from(log, from, i, w);
            &&& r.first is Some <==> r.last is Some
            &&& w.first is Some ==> r.first is Some && r.first->0 <= w.first->0 && r.last->0
                >= w.last->0
            &&& forall|k: int|
                #![trigger log[k]]
                i <= k < log.len() ==> (log[k].record matches Record::OpEnded { meta, .. }
                    ==> r.first is Some && r.first->0 <= meta.started_at && r.last->0
                    >= meta.ended_at)
            &&& r.first is Some ==> (w.first == r.first || exists|k: int|
                #![trigger log[k]]
                i <= k < log.len() && (log[k].record matches Record::OpEnded { meta, .. }
                    && r.first == Some(meta.started_at)))
            &&& r.last is Some ==> (w.last == r.last || exists|k: int|
                #![trigger log[k]]
                i <= k < log.len() && (log[k].record matches Record::OpEnded { meta, .. }
                    && r.last == Some(meta.ended_at)))
        }),
    decreases log.len() - i,
{
    if i < log.len() {
        let next = worked_step(log, from, w, log[i]);
        lemma_worked_span(log, from, i + 1, next);
        let r = worked_from(log, from, i, w);
        assert(r == worked_from(log, from, i + 1, next));
    }
}

/// An ask took from the start of its first operation to the end of its last: no
/// two of its operations lie further apart, and two of them lie so far apart.
/// One without operations took no time.
pub proof fn law_an_ask_takes_from_its_first_start_to_its_last_end(
    log: Seq<LogEntry>,
    from: int,
    models: Map<Seq<char>, ModelSum>,
    tools: Map<Seq<char>, ToolSum>,
    children: Map<Seq<char>, ChildSum>,
)
    requires
        0 <= from <= log.len(),
    ensures
        ({
            let took = folded(log, from, models, tools, children).totals.duration_ms;
            &&& forall|i: int, j: int|
                #![trigger log[i], log[j]]
                from <= i < log.len() && from <= j < log.len() ==> (log[i].record matches
                    Record::OpEnded { meta: a, .. } ==> (log[j].record matches Record::OpEnded {
                    meta: b,
                    ..
                } ==> took >= b.ended_at - a.started_at))
            &&& took > 0 ==> exists|i: int, j: int|
                #![trigger log[i], log[j]]
                from <= i < log.len() && from <= j < log.len() && (log[i].record matches
                    Record::OpEnded { meta: a, .. } && (log[j].record matches Record::OpEnded {
                    meta: b,
                    ..
                } && took == b.ended_at - a.started_at))
        }),
{
    let w = nothing_worked(models, tools);
    lemma_worked_span(log, from, from, w);
    let r = worked_from(log, from, from, w);
    let took = folded(log, from, models, tools, children).totals.duration_ms;
    if took > 0 {
        let i = choose|k: int|
            #![trigger log[k]]
            from <= k < log.len() && (log[k].record matches Record::OpEnded { meta, .. } && r.first
                == Some(meta.started_at));
        let j = choose|k: int|
            #![trigger log[k]]
            from <= k < log.len() && (log[k].record matches Record::OpEnded { meta, .. } && r.last
                == Some(meta.ended_at));
        assert(log[i].record is OpEnded && log[j].record is OpEnded);
    }
}

} // verus!
