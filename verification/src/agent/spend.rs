//! What an ask took: calls, tokens and cost, for each model tier and in all.
use vstd::prelude::*;

use crate::table::{lists_domain, rows, Table};
use crate::text::owned;
use crate::trace::{LogEntry, Record};

verus! {

/// Model calls, tokens and cost.
#[verifier::ext_equal]
pub struct Spend {
    pub model_calls: nat,
    pub tokens_in: nat,
    pub tokens_out: nat,
    pub cost_micro_usd: nat,
}

pub open spec fn nothing() -> Spend {
    Spend { model_calls: 0, tokens_in: 0, tokens_out: 0, cost_micro_usd: 0 }
}

pub open spec fn plus(a: Spend, b: Spend) -> Spend {
    Spend {
        model_calls: a.model_calls + b.model_calls,
        tokens_in: a.tokens_in + b.tokens_in,
        tokens_out: a.tokens_out + b.tokens_out,
        cost_micro_usd: a.cost_micro_usd + b.cost_micro_usd,
    }
}

/// Every number of `a` is at most that of `b`.
pub open spec fn within(a: Spend, b: Spend) -> bool {
    &&& a.model_calls <= b.model_calls
    &&& a.tokens_in <= b.tokens_in
    &&& a.tokens_out <= b.tokens_out
    &&& a.cost_micro_usd <= b.cost_micro_usd
}

/// The numbers fit where they are kept.
pub open spec fn fits(s: Spend) -> bool {
    &&& s.model_calls <= u32::MAX
    &&& s.tokens_in <= u64::MAX
    &&& s.tokens_out <= u64::MAX
    &&& s.cost_micro_usd <= u64::MAX
}

/// What stands for `tier`; nothing where it has no line.
pub open spec fn at(m: Map<Seq<char>, Spend>, tier: Seq<char>) -> Spend {
    if m.dom().contains(tier) {
        m[tier]
    } else {
        nothing()
    }
}

/// The sum of all lines.
pub open spec fn total(m: Map<Seq<char>, Spend>) -> Spend
    decreases m.dom().len(),
    when m.dom().finite()
{
    if m.dom().len() == 0 {
        nothing()
    } else {
        let k = m.dom().choose();
        plus(m[k], total(m.remove(k)))
    }
}

proof fn lemma_total_remove(m: Map<Seq<char>, Spend>, k: Seq<char>)
    requires
        m.dom().finite(),
        m.dom().contains(k),
    ensures
        total(m) == plus(m[k], total(m.remove(k))),
    decreases m.dom().len(),
{
    let c = m.dom().choose();
    assert(m.dom().contains(c));
    assert(m.remove(c).dom() =~= m.dom().remove(c));
    assert(m.remove(k).dom() =~= m.dom().remove(k));
    if c != k {
        lemma_total_remove(m.remove(c), k);
        lemma_total_remove(m.remove(k), c);
        assert(m.remove(c).remove(k) =~= m.remove(k).remove(c));
    }
}

/// Adding to one line adds as much to the sum.
pub proof fn lemma_total_add(m: Map<Seq<char>, Spend>, k: Seq<char>, more: Spend)
    requires
        m.dom().finite(),
    ensures
        m.insert(k, plus(at(m, k), more)).dom().finite(),
        total(m.insert(k, plus(at(m, k), more))) == plus(total(m), more),
{
    let now = m.insert(k, plus(at(m, k), more));
    assert(now.dom() =~= m.dom().insert(k));
    lemma_total_remove(now, k);
    if m.dom().contains(k) {
        lemma_total_remove(m, k);
        assert(now.remove(k) =~= m.remove(k));
    } else {
        assert(now.remove(k) =~= m);
    }
}

/// No line is more than the sum.
pub proof fn lemma_line_within_total(m: Map<Seq<char>, Spend>, k: Seq<char>)
    requires
        m.dom().finite(),
    ensures
        within(at(m, k), total(m)),
{
    if m.dom().contains(k) {
        lemma_total_remove(m, k);
    }
}

/// The sum of the lines that `keys` lists, up to index `n`.
spec fn listed_total(keys: Seq<Seq<char>>, m: Map<Seq<char>, Spend>, n: int) -> Spend
    decreases n,
{
    if n <= 0 {
        nothing()
    } else {
        plus(listed_total(keys, m, n - 1), m[keys[n - 1]])
    }
}

proof fn lemma_listed_total(keys: Seq<Seq<char>>, m: Map<Seq<char>, Spend>)
    requires
        keys.no_duplicates(),
        m.dom() == keys.to_set(),
    ensures
        m.dom().finite(),
        listed_total(keys, m, keys.len() as int) == total(m),
    decreases keys.len(),
{
    keys.lemma_cardinality_of_set();
    if keys.len() == 0 {
        assert(m.dom() =~= Set::<Seq<char>>::empty());
    } else {
        let k = keys.last();
        let rest = keys.drop_last();
        let less = m.remove(k);
        assert(m.dom().contains(k)) by {
            assert(keys[keys.len() - 1] == k);
        }
        assert(less.dom() =~= rest.to_set()) by {
            assert forall|x: Seq<char>| less.dom().contains(x) <==> rest.to_set().contains(x) by {
                if less.dom().contains(x) {
                    assert(keys.contains(x));
                    let i = keys.index_of(x);
                    assert(keys[i] == x);
                    assert(rest[i] == x);
                }
                if rest.contains(x) {
                    let i = rest.index_of(x);
                    assert(rest[i] == x);
                    assert(keys[i] == x);
                    assert(keys[keys.len() - 1] == k);
                }
            }
        }
        lemma_listed_total(rest, less);
        lemma_listed_same(keys, m, rest, less, rest.len() as int);
        lemma_total_remove(m, k);
    }
}

proof fn lemma_listed_same(
    keys: Seq<Seq<char>>,
    m: Map<Seq<char>, Spend>,
    rest: Seq<Seq<char>>,
    less: Map<Seq<char>, Spend>,
    n: int,
)
    requires
        keys.len() > 0,
        keys.no_duplicates(),
        rest == keys.drop_last(),
        less == m.remove(keys.last()),
        0 <= n <= rest.len(),
    ensures
        listed_total(keys, m, n) == listed_total(rest, less, n),
    decreases n,
{
    if n > 0 {
        lemma_listed_same(keys, m, rest, less, n - 1);
        assert(keys[n - 1] == rest[n - 1]);
        assert(keys[n - 1] != keys[keys.len() - 1]);
    }
}

proof fn lemma_listed_prefix(keys: Seq<Seq<char>>, m: Map<Seq<char>, Spend>, n: int, k: int)
    requires
        0 <= n <= k,
    ensures
        within(listed_total(keys, m, n), listed_total(keys, m, k)),
    decreases k - n,
{
    if n < k {
        lemma_listed_prefix(keys, m, n, k - 1);
    }
}

// ----- what the log says -----
/// What one entry adds for a model tier, if it is a model call with known use.
pub open spec fn charge_of(e: LogEntry) -> Option<(Seq<char>, Spend)> {
    match e.record {
        Record::OpEnded { op: _, outcome: _, meta } => match (meta.model, meta.usage) {
            (Some(model), Some(usage)) => Some(
                (
                    model@,
                    Spend {
                        model_calls: 1,
                        tokens_in: usage.input_tokens as nat,
                        tokens_out: usage.output_tokens as nat,
                        cost_micro_usd: meta.cost_micro_usd as nat,
                    },
                ),
            ),
            _ => None,
        },
        _ => None,
    }
}

/// The entry is the end of a tool call.
pub open spec fn is_tool_end(e: LogEntry) -> bool {
    match e.record {
        Record::OpEnded { op: _, outcome: _, meta } => meta.model is None,
        _ => false,
    }
}

/// What the entries `from..n` took, by tier.
pub open spec fn spent(log: Seq<LogEntry>, from: int, n: int) -> Map<Seq<char>, Spend>
    decreases n - from,
{
    if n <= from {
        Map::empty()
    } else {
        let before = spent(log, from, n - 1);
        match charge_of(log[n - 1]) {
            Some((tier, s)) => before.insert(tier, plus(at(before, tier), s)),
            None => before,
        }
    }
}

/// What the entries `from..n` took in all.
pub open spec fn spent_in_all(log: Seq<LogEntry>, from: int, n: int) -> Spend
    decreases n - from,
{
    if n <= from {
        nothing()
    } else {
        match charge_of(log[n - 1]) {
            Some((_, s)) => plus(spent_in_all(log, from, n - 1), s),
            None => spent_in_all(log, from, n - 1),
        }
    }
}

/// How many tool calls ended in the entries `from..n`.
pub open spec fn tool_ends(log: Seq<LogEntry>, from: int, n: int) -> nat
    decreases n - from,
{
    if n <= from {
        0
    } else if is_tool_end(log[n - 1]) {
        tool_ends(log, from, n - 1) + 1
    } else {
        tool_ends(log, from, n - 1)
    }
}

/// The lines of the tiers sum to what was taken in all.
pub proof fn law_tier_lines_sum_to_the_total(log: Seq<LogEntry>, from: int, n: int)
    ensures
        spent(log, from, n).dom().finite(),
        total(spent(log, from, n)) == spent_in_all(log, from, n),
    decreases n - from,
{
    if n <= from {
        assert(spent(log, from, n).dom() =~= Set::<Seq<char>>::empty());
    } else {
        law_tier_lines_sum_to_the_total(log, from, n - 1);
        match charge_of(log[n - 1]) {
            Some((tier, s)) => {
                lemma_total_add(spent(log, from, n - 1), tier, s);
            },
            None => {},
        }
    }
}

proof fn lemma_ends_grow(log: Seq<LogEntry>, from: int, n: int, m: int)
    requires
        n <= m,
    ensures
        tool_ends(log, from, n) <= tool_ends(log, from, m),
    decreases m - n,
{
    if n < m {
        lemma_ends_grow(log, from, n, m - 1);
    }
}

// ----- accounting -----
/// One line of the account: what one tier took.
#[derive(Debug)]
pub struct TierAccumulator {
    pub selector: String,
    pub model_calls: u32,
    pub tokens_in: u64,
    pub tokens_out: u64,
    pub cost_micro_usd: u64,
}

impl View for TierAccumulator {
    type V = Spend;

    open spec fn view(&self) -> Spend {
        Spend {
            model_calls: self.model_calls as nat,
            tokens_in: self.tokens_in as nat,
            tokens_out: self.tokens_out as nat,
            cost_micro_usd: self.cost_micro_usd as nat,
        }
    }
}

impl TierAccumulator {
    pub fn new(selector: &str) -> (r: TierAccumulator)
        ensures
            r.selector@ == selector@,
            r@ == nothing(),
    {
        TierAccumulator {
            selector: owned(selector),
            model_calls: 0,
            tokens_in: 0,
            tokens_out: 0,
            cost_micro_usd: 0,
        }
    }

    /// A second line of the same tier, with the same numbers.
    pub fn copy(&self) -> (r: TierAccumulator)
        ensures
            r.selector@ == self.selector@,
            r@ == self@,
    {
        TierAccumulator {
            selector: self.selector.clone(),
            model_calls: self.model_calls,
            tokens_in: self.tokens_in,
            tokens_out: self.tokens_out,
            cost_micro_usd: self.cost_micro_usd,
        }
    }
}

/// Every line is that of the tier that it stands under.
pub open spec fn lines_named(t: Table<TierAccumulator>) -> bool {
    forall|k: Seq<char>| t@.dom().contains(k) ==> (#[trigger] t@[k]).selector@ == k
}

/// What an ask took, being counted.
#[derive(Debug)]
pub struct SpendAggregate {
    pub tiers: Table<TierAccumulator>,
    pub tool_calls: u32,
}

/// What an ask took.
#[derive(Debug)]
pub struct AnswerMeta {
    pub duration_ms: u64,
    pub cost_micro_usd: u64,
    pub tokens_in: u64,
    pub tokens_out: u64,
    pub model_calls: u32,
    pub tool_calls: u32,
    pub tiers: Table<TierAccumulator>,
}

impl AnswerMeta {
    /// The numbers of all tiers together.
    pub open spec fn sum(&self) -> Spend {
        Spend {
            model_calls: self.model_calls as nat,
            tokens_in: self.tokens_in as nat,
            tokens_out: self.tokens_out as nat,
            cost_micro_usd: self.cost_micro_usd as nat,
        }
    }

    /// The lines of the tiers sum to the numbers in all.
    pub open spec fn balanced(&self) -> bool {
        rows(self.tiers).dom().finite() && total(rows(self.tiers)) == self.sum()
    }
}

proof fn lemma_rows_listed(t: Table<TierAccumulator>, keys: Seq<Seq<char>>)
    requires
        lists_domain(keys, t@),
    ensures
        rows(t).dom().finite(),
        listed_total(keys, rows(t), keys.len() as int) == total(rows(t)),
{
    assert forall|k: Seq<char>| rows(t).dom().contains(k) <==> keys.to_set().contains(k) by {
        assert(rows(t).dom().contains(k) <==> t@.dom().contains(k));
    }
    assert(rows(t).dom() =~= keys.to_set());
    lemma_listed_total(keys, rows(t));
}

impl SpendAggregate {
    /// Nothing counted yet.
    pub fn new() -> (r: SpendAggregate)
        ensures
            rows(r.tiers) == Map::<Seq<char>, Spend>::empty(),
            lines_named(r.tiers),
            r.tool_calls == 0,
    {
        let tiers: Table<TierAccumulator> = Table::new();
        assert(rows(tiers) =~= Map::<Seq<char>, Spend>::empty());
        SpendAggregate { tiers, tool_calls: 0 }
    }

    /// The account, with the sum of all lines.
    pub fn into_meta(self, duration_ms: u64) -> (r: AnswerMeta)
        requires
            fits(total(rows(self.tiers))),
        ensures
            r.duration_ms == duration_ms,
            r.tool_calls == self.tool_calls,
            r.tiers == self.tiers,
            r.sum() == total(rows(self.tiers)),
            r.balanced(),
    {
        let n: usize = self.tiers.len();
        let ghost keys = self.tiers.key_seq();
        let ghost m = rows(self.tiers);
        proof {
            lemma_rows_listed(self.tiers, keys);
        }
        let mut model_calls: u32 = 0;
        let mut tokens_in: u64 = 0;
        let mut tokens_out: u64 = 0;
        let mut cost_micro_usd: u64 = 0;
        let mut i: usize = 0;
        while i < n
            invariant
                i <= n,
                n == keys.len(),
                keys == self.tiers.key_seq(),
                m == rows(self.tiers),
                fits(listed_total(keys, m, n as int)),
                listed_total(keys, m, i as int) == (Spend {
                    model_calls: model_calls as nat,
                    tokens_in: tokens_in as nat,
                    tokens_out: tokens_out as nat,
                    cost_micro_usd: cost_micro_usd as nat,
                }),
            decreases n - i,
        {
            proof {
                lemma_listed_prefix(keys, m, i + 1, n as int);
            }
            let line = self.tiers.value_at(i);
            assert(m[keys[i as int]] == line@);
            model_calls = model_calls + line.model_calls;
            tokens_in = tokens_in + line.tokens_in;
            tokens_out = tokens_out + line.tokens_out;
            cost_micro_usd = cost_micro_usd + line.cost_micro_usd;
            i = i + 1;
        }
        AnswerMeta {
            duration_ms,
            cost_micro_usd,
            tokens_in,
            tokens_out,
            model_calls,
            tool_calls: self.tool_calls,
            tiers: self.tiers,
        }
    }
}

/// Adds a spend to one line.
fn charge(
    tiers: &mut Table<TierAccumulator>,
    selector: &str,
    model_calls: u32,
    tokens_in: u64,
    tokens_out: u64,
    cost_micro_usd: u64,
)
    requires
        fits(
            plus(
                at(rows(*old(tiers)), selector@),
                Spend {
                    model_calls: model_calls as nat,
                    tokens_in: tokens_in as nat,
                    tokens_out: tokens_out as nat,
                    cost_micro_usd: cost_micro_usd as nat,
                },
            ),
        ),
    ensures
        rows(*final(tiers)) == rows(*old(tiers)).insert(
            selector@,
            plus(
                at(rows(*old(tiers)), selector@),
                Spend {
                    model_calls: model_calls as nat,
                    tokens_in: tokens_in as nat,
                    tokens_out: tokens_out as nat,
                    cost_micro_usd: cost_micro_usd as nat,
                },
            ),
        ),
        lines_named(*old(tiers)) ==> lines_named(*final(tiers)),
{
    let ghost was = tiers@;
    let mut line = match tiers.get(selector) {
        Some(l) => l.copy(),
        None => TierAccumulator::new(selector),
    };
    assert(line@ == at(rows(*tiers), selector@));
    line.model_calls = line.model_calls + model_calls;
    line.tokens_in = line.tokens_in + tokens_in;
    line.tokens_out = line.tokens_out + tokens_out;
    line.cost_micro_usd = line.cost_micro_usd + cost_micro_usd;
    let ghost now = line;
    tiers.insert(selector, line);
    proof {
        assert(rows(*tiers) =~= was.map_values(|v: TierAccumulator| v@).insert(selector@, now@));
        if lines_named(*old(tiers)) {
            assert forall|k: Seq<char>| tiers@.dom().contains(k) implies (
            #[trigger] tiers@[k]).selector@ == k by {
                if k != selector@ {
                    assert(tiers@[k] == was[k]);
                } else if was.dom().contains(k) {
                    assert(was[k].selector@ == k);
                }
            }
        }
    }
}

/// Every line fits where it is kept.
pub open spec fn lines_fit(m: Map<Seq<char>, Spend>) -> bool {
    forall|tier: Seq<char>| fits(#[trigger] at(m, tier))
}

proof fn lemma_lines_grow(log: Seq<LogEntry>, from: int, n: int, m: int, tier: Seq<char>)
    requires
        n <= m,
    ensures
        within(at(spent(log, from, n), tier), at(spent(log, from, m), tier)),
    decreases m - n,
{
    if n < m {
        lemma_lines_grow(log, from, n, m - 1, tier);
    }
}

/// Counts the entries from `from` on.
pub fn aggregate_log(log: &Vec<LogEntry>, from: usize) -> (r: SpendAggregate)
    requires
        from <= log@.len(),
        tool_ends(log@, from as int, log@.len() as int) <= u32::MAX,
        lines_fit(spent(log@, from as int, log@.len() as int)),
    ensures
        rows(r.tiers) == spent(log@, from as int, log@.len() as int),
        lines_named(r.tiers),
        r.tool_calls == tool_ends(log@, from as int, log@.len() as int),
{
    let mut sum = SpendAggregate::new();
    let ghost all = log@;
    let ghost len = log@.len() as int;
    let mut i: usize = from;
    while i < log.len()
        invariant
            from <= i <= log@.len(),
            all == log@,
            len == log@.len(),
            tool_ends(all, from as int, len) <= u32::MAX,
            lines_fit(spent(all, from as int, len)),
            rows(sum.tiers) == spent(all, from as int, i as int),
            lines_named(sum.tiers),
            sum.tool_calls == tool_ends(all, from as int, i as int),
        decreases log.len() - i,
    {
        proof {
            lemma_ends_grow(all, from as int, i + 1, len);
        }
        if let Record::OpEnded { op: _, outcome: _, meta } = &log[i].record {
            match &meta.model {
                Some(model) => {
                    if let Some(usage) = &meta.usage {
                        proof {
                            lemma_lines_grow(all, from as int, i + 1, len, model@);
                            assert(fits(at(spent(all, from as int, len), model@)));
                        }
                        charge(
                            &mut sum.tiers,
                            model.as_str(),
                            1,
                            usage.input_tokens,
                            usage.output_tokens,
                            meta.cost_micro_usd,
                        );
                    }
                },
                None => {
                    sum.tool_calls = sum.tool_calls + 1;
                },
            }
        }
        i = i + 1;
    }
    sum
}

/// The account of one ask: what the entries from `baseline` on took. What was
/// logged before the ask is not billed again.
pub fn meta_from_log(log: &Vec<LogEntry>, baseline: usize, duration_ms: u64) -> (r: AnswerMeta)
    requires
        baseline <= log@.len(),
        tool_ends(log@, baseline as int, log@.len() as int) <= u32::MAX,
        fits(spent_in_all(log@, baseline as int, log@.len() as int)),
    ensures
        r.duration_ms == duration_ms,
        r.tool_calls == tool_ends(log@, baseline as int, log@.len() as int),
        rows(r.tiers) == spent(log@, baseline as int, log@.len() as int),
        lines_named(r.tiers),
        r.sum() == spent_in_all(log@, baseline as int, log@.len() as int),
        r.balanced(),
{
    proof {
        let lines = spent(log@, baseline as int, log@.len() as int);
        law_tier_lines_sum_to_the_total(log@, baseline as int, log@.len() as int);
        assert forall|tier: Seq<char>| fits(#[trigger] at(lines, tier)) by {
            lemma_line_within_total(lines, tier);
        }
    }
    let sum = aggregate_log(log, baseline);
    sum.into_meta(duration_ms)
}

/// Two accounts together, line by line.
pub open spec fn merged(a: Map<Seq<char>, Spend>, b: Map<Seq<char>, Spend>) -> Map<
    Seq<char>,
    Spend,
> {
    Map::new(
        |k: Seq<char>| a.dom().contains(k) || b.dom().contains(k),
        |k: Seq<char>| plus(at(a, k), at(b, k)),
    )
}

impl AnswerMeta {
    /// Adds what another agent took on behalf of this ask. The time that the
    /// ask took stays as it is: the other agent ran within it.
    pub fn merge_child(&mut self, child: &AnswerMeta)
        requires
            fits(plus(old(self).sum(), child.sum())),
            old(self).tool_calls + child.tool_calls <= u32::MAX,
            lines_fit(merged(rows(old(self).tiers), rows(child.tiers))),
        ensures
            final(self).duration_ms == old(self).duration_ms,
            final(self).sum() == plus(old(self).sum(), child.sum()),
            final(self).tool_calls == old(self).tool_calls + child.tool_calls,
            rows(final(self).tiers) == merged(rows(old(self).tiers), rows(child.tiers)),
            lines_named(old(self).tiers) ==> lines_named(final(self).tiers),
            old(self).balanced() && child.balanced() ==> final(self).balanced(),
    {
        let ghost a = rows(self.tiers);
        let ghost b = rows(child.tiers);
        let _own: usize = self.tiers.len();
        let n: usize = child.tiers.len();
        let ghost keys = child.tiers.key_seq();
        proof {
            lemma_rows_listed(child.tiers, keys);
            lemma_rows_listed(self.tiers, self.tiers.key_seq());
            assert(plus(total(a), listed_total(keys, b, 0)) == total(a));
        }
        let mut i: usize = 0;
        while i < n
            invariant
                i <= n,
                n == keys.len(),
                keys == child.tiers.key_seq(),
                lists_domain(keys, child.tiers@),
                b == rows(child.tiers),
                lines_fit(merged(a, b)),
                rows(self.tiers).dom().finite(),
                lines_named(old(self).tiers) ==> lines_named(self.tiers),
                total(rows(self.tiers)) == plus(total(a), listed_total(keys, b, i as int)),
                forall|k: Seq<char>| #[trigger]
                    rows(self.tiers).dom().contains(k) <==> a.dom().contains(k) || keys.take(
                        i as int,
                    ).contains(k),
                forall|k: Seq<char>| #[trigger]
                    at(rows(self.tiers), k) == if keys.take(i as int).contains(k) {
                        plus(at(a, k), at(b, k))
                    } else {
                        at(a, k)
                    },
                self.duration_ms == old(self).duration_ms,
                self.sum() == old(self).sum(),
                self.tool_calls == old(self).tool_calls,
            decreases n - i,
        {
            let ghost was = rows(self.tiers);
            let ghost key = keys[i as int];
            let line = child.tiers.value_at(i);
            proof {
                assert(b[key] == line@);
                assert(b.dom().contains(key));
                assert(at(merged(a, b), key) == plus(at(a, key), at(b, key)));
                lemma_total_add(was, key, line@);
                let then = keys.take(i as int);
                let now = keys.take(i + 1);
                assert(now =~= then.push(key));
                assert(!then.contains(key)) by {
                    if then.contains(key) {
                        let j = then.index_of(key);
                        assert(then[j] == key);
                        assert(keys[j] == keys[i as int]);
                    }
                }
                assert(at(was, key) == at(a, key));
                assert forall|k: Seq<char>| now.contains(k) <==> then.contains(k) || k == key by {
                    if then.contains(k) {
                        let j = then.index_of(k);
                        assert(now[j] == k);
                    }
                    assert(now[i as int] == key);
                    if now.contains(k) && k != key {
                        let j = now.index_of(k);
                        assert(then[j] == k);
                    }
                }
            }
            charge(
                &mut self.tiers,
                child.tiers.key_at(i).as_str(),
                line.model_calls,
                line.tokens_in,
                line.tokens_out,
                line.cost_micro_usd,
            );
            proof {
                let now = keys.take(i + 1);
                assert forall|k: Seq<char>| #[trigger]
                    at(rows(self.tiers), k) == if now.contains(k) {
                        plus(at(a, k), at(b, k))
                    } else {
                        at(a, k)
                    } by {
                    if k != key {
                        assert(at(rows(self.tiers), k) == at(was, k));
                    }
                }
            }
            i = i + 1;
        }
        proof {
            assert(keys.take(i as int) =~= keys);
            let m = rows(self.tiers);
            assert forall|k: Seq<char>| b.dom().contains(k) <==> keys.contains(k) by {
                assert(b.dom().contains(k) <==> child.tiers@.dom().contains(k));
            }
            assert forall|k: Seq<char>| m.dom().contains(k) implies m[k] == merged(a, b)[k] by {
                assert(m[k] == at(m, k));
            }
            assert(m =~= merged(a, b));
        }
        self.model_calls = self.model_calls + child.model_calls;
        self.tokens_in = self.tokens_in + child.tokens_in;
        self.tokens_out = self.tokens_out + child.tokens_out;
        self.cost_micro_usd = self.cost_micro_usd + child.cost_micro_usd;
        self.tool_calls = self.tool_calls + child.tool_calls;
    }
}

proof fn lemma_spent_of_suffix(a: Seq<LogEntry>, b: Seq<LogEntry>, i: int, j: int, n: int)
    requires
        0 <= i,
        0 <= j,
        0 <= n,
        i + n <= a.len(),
        j + n <= b.len(),
        a.subrange(i, i + n) == b.subrange(j, j + n),
    ensures
        spent(a, i, i + n) == spent(b, j, j + n),
        spent_in_all(a, i, i + n) == spent_in_all(b, j, j + n),
        tool_ends(a, i, i + n) == tool_ends(b, j, j + n),
    decreases n,
{
    if n > 0 {
        assert(a[i + n - 1] == a.subrange(i, i + n)[n - 1]);
        assert(b[j + n - 1] == b.subrange(j, j + n)[n - 1]);
        assert(a.subrange(i, i + n - 1) =~= a.subrange(i, i + n).drop_last());
        assert(b.subrange(j, j + n - 1) =~= b.subrange(j, j + n).drop_last());
        lemma_spent_of_suffix(a, b, i, j, n - 1);
    }
}

/// What an ask is billed depends on what it added to the log alone: resumed
/// from whatever trace, the same new entries cost the same.
pub proof fn law_ancestry_is_never_billed_again(
    parent: Seq<LogEntry>,
    other: Seq<LogEntry>,
    new: Seq<LogEntry>,
)
    ensures
        ({
            let a = parent + new;
            let b = other + new;
            &&& spent(a, parent.len() as int, a.len() as int) == spent(
                b,
                other.len() as int,
                b.len() as int,
            )
            &&& spent_in_all(a, parent.len() as int, a.len() as int) == spent_in_all(
                b,
                other.len() as int,
                b.len() as int,
            )
            &&& tool_ends(a, parent.len() as int, a.len() as int) == tool_ends(
                b,
                other.len() as int,
                b.len() as int,
            )
        }),
{
    let a = parent + new;
    let b = other + new;
    assert(a.subrange(parent.len() as int, a.len() as int) =~= new);
    assert(b.subrange(other.len() as int, b.len() as int) =~= new);
    lemma_spent_of_suffix(a, b, parent.len() as int, other.len() as int, new.len() as int);
}

proof fn lemma_spent_prefix(log: Seq<LogEntry>, more: Seq<LogEntry>, from: int, n: int)
    requires
        0 <= from,
        n <= log.len() <= more.len(),
        forall|i: int| 0 <= i < log.len() ==> log[i] == more[i],
    ensures
        spent(log, from, n) == spent(more, from, n),
        spent_in_all(log, from, n) == spent_in_all(more, from, n),
        tool_ends(log, from, n) == tool_ends(more, from, n),
    decreases n - from,
{
    if n > from {
        lemma_spent_prefix(log, more, from, n - 1);
    }
}

/// Nothing that was logged is nothing billed; and one more entry is billed for
/// what it says itself: the end of a model call with known use adds one call,
/// its input tokens to the tokens in, its output tokens to the tokens out, and
/// its cost, in all and to the line of its model alone; the end of a tool call
/// adds one tool call; nothing else adds anything.
pub proof fn law_every_entry_is_billed_for_itself(
    log: Seq<LogEntry>,
    from: int,
    e: LogEntry,
    tier: Seq<char>,
)
    requires
        0 <= from <= log.len(),
    ensures
        ({
            let none = spent_in_all(log, log.len() as int, log.len() as int);
            &&& none.model_calls == 0 && none.tokens_in == 0 && none.tokens_out == 0
            &&& none.cost_micro_usd == 0
            &&& tool_ends(log, log.len() as int, log.len() as int) == 0
            &&& spent(log, log.len() as int, log.len() as int) == Map::<Seq<char>, Spend>::empty()
        }),
        ({
            let n = log.len() as int;
            let was = spent_in_all(log, from, n);
            let now = spent_in_all(log.push(e), from, n + 1);
            let line_was = at(spent(log, from, n), tier);
            let line_now = at(spent(log.push(e), from, n + 1), tier);
            let tools_was = tool_ends(log, from, n);
            let tools_now = tool_ends(log.push(e), from, n + 1);
            match e.record {
                Record::OpEnded { meta, .. } => match (meta.model, meta.usage) {
                    (Some(model), Some(usage)) => {
                        &&& now.model_calls == was.model_calls + 1
                        &&& now.tokens_in == was.tokens_in + usage.input_tokens
                        &&& now.tokens_out == was.tokens_out + usage.output_tokens
                        &&& now.cost_micro_usd == was.cost_micro_usd + meta.cost_micro_usd
                        &&& tools_now == tools_was
                        &&& tier == model@ ==> {
                            &&& line_now.model_calls == line_was.model_calls + 1
                            &&& line_now.tokens_in == line_was.tokens_in + usage.input_tokens
                            &&& line_now.tokens_out == line_was.tokens_out + usage.output_tokens
                            &&& line_now.cost_micro_usd == line_was.cost_micro_usd
                                + meta.cost_micro_usd
                            &&& spent(log.push(e), from, n + 1).dom().contains(tier)
                        }
                        &&& tier != model@ ==> line_now == line_was
                    },
                    (Some(_), None) => now == was && line_now == line_was && tools_now == tools_was,
                    (None, _) => now == was && line_now == line_was && tools_now == tools_was + 1,
                },
                _ => now == was && line_now == line_was && tools_now == tools_was,
            }
        }),
{
    let more = log.push(e);
    lemma_spent_prefix(log, more, from, log.len() as int);
    assert(more[log.len() as int] == e);
}

} // verus!
