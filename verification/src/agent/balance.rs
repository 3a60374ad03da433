//! The rows of the statistics and their totals agree.
use vstd::prelude::*;

use super::collect::{sums_of, with_ask, StoredAsk};
use super::fold::{
    folded, model_at, nothing_worked, worked_from, worked_step, ChildSum, ModelSum, ToolSum, Worked,
};
use super::spend::{
    at, lemma_total_add, plus, spent, spent_in_all, tool_ends, total, Spend,
};
use crate::trace::{LogEntry, Record};

verus! {

/// What one row of the model table takes.
pub open spec fn row_spend(c: ModelSum) -> Spend {
    Spend {
        model_calls: c.calls,
        tokens_in: c.tokens_in,
        tokens_out: c.tokens_out,
        cost_micro_usd: c.cost_micro_usd,
    }
}

/// What the rows of the model table take.
pub open spec fn row_spends(m: Map<Seq<char>, ModelSum>) -> Map<Seq<char>, Spend> {
    m.map_values(|c: ModelSum| row_spend(c))
}

/// What operations took of models.
pub open spec fn worked_spend(w: Worked) -> Spend {
    Spend {
        model_calls: w.model_calls,
        tokens_in: w.tokens_in,
        tokens_out: w.tokens_out,
        cost_micro_usd: w.cost,
    }
}

proof fn lemma_worked_balanced(log: Seq<LogEntry>, from: int, i: int, w: Worked)
    requires
        0 <= i <= log.len(),
        row_spends(w.models).dom().finite(),
    ensures
        ({
            let e = worked_from(log, from, i, w);
            &&& row_spends(e.models).dom().finite()
            &&& plus(total(row_spends(e.models)), worked_spend(w)) == plus(
                total(row_spends(w.models)),
                worked_spend(e),
            )
        }),
    decreases log.len() - i,
{
    if i < log.len() {
        let next = worked_step(log, from, w, log[i]);
        match log[i].record {
            Record::OpEnded { op, outcome, meta } => match meta.model {
                Some(selector) => match meta.usage {
                    Some(u) => {
                        let more = Spend {
                            model_calls: 1,
                            tokens_in: u.input_tokens as nat,
                            tokens_out: u.output_tokens as nat,
                            cost_micro_usd: meta.cost_micro_usd as nat,
                        };
                        let rows = row_spends(w.models);
                        let k = selector@;
                        assert(row_spend(model_at(w.models, k)) == at(rows, k));
                        assert(row_spends(next.models) =~= rows.insert(
                            k,
                            plus(at(rows, k), more),
                        ));
                        lemma_total_add(rows, k, more);
                    },
                    None => {},
                },
                None => {},
            },
            _ => {},
        }
        lemma_worked_balanced(log, from, i + 1, next);
    }
}

/// The rows of the model table add up to the totals of all asks: calls, tokens
/// and the cost of the agent's own model calls. What it cost in all is that
/// and what other agents spent.
pub proof fn law_model_rows_add_up_to_the_totals(asks: Seq<StoredAsk>, n: int)
    requires
        0 <= n <= asks.len(),
    ensures
        ({
            let s = sums_of(asks, n);
            &&& row_spends(s.models).dom().finite()
            &&& total(row_spends(s.models)) == (Spend {
                model_calls: s.totals.model_calls,
                tokens_in: s.totals.tokens_in,
                tokens_out: s.totals.tokens_out,
                cost_micro_usd: s.totals.cost_own_micro_usd,
            })
            &&& s.totals.cost_micro_usd == s.totals.cost_own_micro_usd
                + s.totals.cost_delegated_micro_usd
        }),
    decreases n,
{
    if n == 0 {
        assert(row_spends(sums_of(asks, 0).models).dom() =~= Set::<Seq<char>>::empty());
    } else {
        law_model_rows_add_up_to_the_totals(asks, n - 1);
        let s = sums_of(asks, n - 1);
        let a = asks[n - 1];
        let log = a.trace.log@;
        let from = a.baseline();
        let w = nothing_worked(s.models, s.tools);
        lemma_worked_balanced(log, from, from, w);
        assert(sums_of(asks, n) == with_ask(s, a));
    }
}

proof fn lemma_worked_is_spent(
    log: Seq<LogEntry>,
    from: int,
    i: int,
    models: Map<Seq<char>, ModelSum>,
    w: Worked,
    k: Seq<char>,
)
    requires
        0 <= from <= i <= log.len(),
        worked_spend(w) == spent_in_all(log, from, i),
        w.tool_calls == tool_ends(log, from, i),
        row_spend(model_at(w.models, k)) == plus(
            row_spend(model_at(models, k)),
            at(spent(log, from, i), k),
        ),
    ensures
        ({
            let e = worked_from(log, from, i, w);
            let n = log.len() as int;
            &&& worked_spend(e) == spent_in_all(log, from, n)
            &&& e.tool_calls == tool_ends(log, from, n)
            &&& row_spend(model_at(e.models, k)) == plus(
                row_spend(model_at(models, k)),
                at(spent(log, from, n), k),
            )
        }),
    decreases log.len() - i,
{
    if i < log.len() {
        lemma_worked_is_spent(log, from, i + 1, models, worked_step(log, from, w, log[i]), k);
    }
}

/// What the statistics say of an ask is what the ask was billed for: the same
/// calls, tokens in, tokens out and cost of its own, in all and for each model;
/// and as many tool calls. What was logged before the ask counts for neither.
pub proof fn law_statistics_agree_with_the_bill(
    log: Seq<LogEntry>,
    from: int,
    models: Map<Seq<char>, ModelSum>,
    tools: Map<Seq<char>, ToolSum>,
    children: Map<Seq<char>, ChildSum>,
    k: Seq<char>,
)
    requires
        0 <= from <= log.len(),
    ensures
        ({
            let f = folded(log, from, models, tools, children);
            let billed = spent_in_all(log, from, log.len() as int);
            let line = at(spent(log, from, log.len() as int), k);
            &&& f.totals.tokens_in == billed.tokens_in
            &&& f.totals.tokens_out == billed.tokens_out
            &&& f.totals.model_calls == billed.model_calls
            &&& f.totals.cost_own_micro_usd == billed.cost_micro_usd
            &&& f.totals.tool_calls == tool_ends(log, from, log.len() as int)
            &&& model_at(f.models, k).tokens_in == model_at(models, k).tokens_in + line.tokens_in
            &&& model_at(f.models, k).tokens_out == model_at(models, k).tokens_out + line.tokens_out
            &&& model_at(f.models, k).calls == model_at(models, k).calls + line.model_calls
            &&& model_at(f.models, k).cost_micro_usd == model_at(models, k).cost_micro_usd
                + line.cost_micro_usd
        }),
{
    lemma_worked_is_spent(log, from, from, models, nothing_worked(models, tools), k);
}

/// One more ask adds its own to the statistics: its totals to the totals, figure
/// by figure; its feedback to the feedback; and what it was billed for to the
/// rows of its models.
pub proof fn law_every_ask_counts_for_itself(asks: Seq<StoredAsk>, a: StoredAsk, k: Seq<char>)
    ensures
        ({
            let was = sums_of(asks, asks.len() as int);
            let now = sums_of(asks.push(a), asks.len() as int + 1);
            let log = a.trace.log@;
            let from = if a.parent_entries < log.len() {
                a.parent_entries as int
            } else {
                log.len() as int
            };
            let billed = spent_in_all(log, from, log.len() as int);
            let line = at(spent(log, from, log.len() as int), k);
            let own = now.each.last();
            &&& now.each == was.each.push(own)
            &&& now.feedback == was.feedback + a.feedback_count
            &&& own.tokens_in == billed.tokens_in
            &&& own.tokens_out == billed.tokens_out
            &&& own.model_calls == billed.model_calls
            &&& own.cost_own_micro_usd == billed.cost_micro_usd
            &&& own.tool_calls == tool_ends(log, from, log.len() as int)
            &&& now.totals.tokens_in == was.totals.tokens_in + own.tokens_in
            &&& now.totals.tokens_out == was.totals.tokens_out + own.tokens_out
            &&& now.totals.model_calls == was.totals.model_calls + own.model_calls
            &&& now.totals.tool_calls == was.totals.tool_calls + own.tool_calls
            &&& now.totals.duration_ms == was.totals.duration_ms + own.duration_ms
            &&& now.totals.cost_micro_usd == was.totals.cost_micro_usd + own.cost_micro_usd
            &&& now.totals.cost_own_micro_usd == was.totals.cost_own_micro_usd
                + own.cost_own_micro_usd
            &&& now.totals.cost_delegated_micro_usd == was.totals.cost_delegated_micro_usd
                + own.cost_delegated_micro_usd
            &&& model_at(now.models, k).tokens_in == model_at(was.models, k).tokens_in
                + line.tokens_in
            &&& model_at(now.models, k).tokens_out == model_at(was.models, k).tokens_out
                + line.tokens_out
            &&& model_at(now.models, k).calls == model_at(was.models, k).calls + line.model_calls
            &&& model_at(now.models, k).cost_micro_usd == model_at(was.models, k).cost_micro_usd
                + line.cost_micro_usd
        }),
        ({
            let none = sums_of(asks, 0);
            &&& none.each.len() == 0 && none.feedback == 0
            &&& none.totals.tokens_in == 0 && none.totals.tokens_out == 0
            &&& none.totals.model_calls == 0 && none.totals.tool_calls == 0
            &&& none.totals.duration_ms == 0 && none.totals.cost_micro_usd == 0
            &&& none.totals.cost_own_micro_usd == 0 && none.totals.cost_delegated_micro_usd == 0
            &&& none.models.dom() == Set::<Seq<char>>::empty()
            &&& none.tools.dom() == Set::<Seq<char>>::empty()
            &&& none.children.dom() == Set::<Seq<char>>::empty()
        }),
{
    let n = asks.len() as int;
    let more = asks.push(a);
    lemma_sums_prefix(asks, more, n);
    assert(more[n] == a);
    let was = sums_of(asks, n);
    let log = a.trace.log@;
    law_statistics_agree_with_the_bill(log, a.baseline(), was.models, was.tools, was.children, k);
    let now = sums_of(more, n + 1);
    assert(now == with_ask(was, a));
    assert(now.each =~= was.each.push(now.each.last()));
    assert(sums_of(asks, 0).models.dom() =~= Set::<Seq<char>>::empty());
    assert(sums_of(asks, 0).tools.dom() =~= Set::<Seq<char>>::empty());
    assert(sums_of(asks, 0).children.dom() =~= Set::<Seq<char>>::empty());
}

proof fn lemma_sums_prefix(a: Seq<StoredAsk>, b: Seq<StoredAsk>, n: int)
    requires
        n <= a.len() <= b.len(),
        forall|i: int| 0 <= i < a.len() ==> a[i] == b[i],
    ensures
        sums_of(a, n) == sums_of(b, n),
    decreases n,
{
    if n > 0 {
        lemma_sums_prefix(a, b, n - 1);
    }
}

} // verus!
