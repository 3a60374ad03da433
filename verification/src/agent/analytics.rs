//! Analytics over stored traces: what asks took, cost and called.
use vstd::prelude::*;

use crate::order::{before, less};
use crate::trace::{id_view, TraceId};

verus! {

/// Which stored traces to look at.
#[derive(Debug)]
pub struct StatsOptions {
    pub since: Option<TraceId>,
    pub trace: Option<TraceId>,
}

impl StatsOptions {
    /// All of them.
    pub fn new() -> (r: StatsOptions)
        ensures
            r.since is None,
            r.trace is None,
    {
        StatsOptions { since: None, trace: None }
    }

    /// Those made at or after the time at which `trace_id` was.
    pub fn since(self, trace_id: TraceId) -> (r: StatsOptions)
        ensures
            r.since == Some(trace_id),
            r.trace == self.trace,
    {
        StatsOptions { since: Some(trace_id), trace: self.trace }
    }

    /// This one alone.
    pub fn trace(self, trace_id: TraceId) -> (r: StatsOptions)
        ensures
            r.trace == Some(trace_id),
            r.since == self.since,
    {
        StatsOptions { since: self.since, trace: Some(trace_id) }
    }
}

/// The head of a stored trace.
#[derive(Debug)]
pub struct TraceHead {
    pub trace_id: TraceId,
    pub depends_on: Option<TraceId>,
    pub agent_name: String,
    pub agent_version: String,
    pub created_at: Option<u64>,
    pub question: String,
    pub status: String,
}

/// A stored trace with the number of feedback events on it.
#[derive(Debug)]
pub struct TraceListing {
    pub trace_id: TraceId,
    pub depends_on: Option<TraceId>,
    pub agent_name: String,
    pub agent_version: String,
    pub created_at: Option<u64>,
    pub question: String,
    pub status: String,
    pub feedback_count: u64,
}

impl TraceListing {
    pub fn new(head: TraceHead, feedback_count: u64) -> (r: TraceListing)
        ensures
            r.trace_id == head.trace_id,
            r.depends_on == head.depends_on,
            r.agent_name == head.agent_name,
            r.agent_version == head.agent_version,
            r.created_at == head.created_at,
            r.question == head.question,
            r.status == head.status,
            r.feedback_count == feedback_count,
    {
        TraceListing {
            trace_id: head.trace_id,
            depends_on: head.depends_on,
            agent_name: head.agent_name,
            agent_version: head.agent_version,
            created_at: head.created_at,
            question: head.question,
            status: head.status,
            feedback_count,
        }
    }
}

/// What an ask, or many, took, cost and called.
#[derive(Clone, Copy, Debug, PartialEq, Eq, Structural)]
pub struct StatsTotals {
    pub duration_ms: u64,
    pub cost_micro_usd: u64,
    pub cost_own_micro_usd: u64,
    pub cost_delegated_micro_usd: u64,
    pub tokens_in: u64,
    pub tokens_out: u64,
    pub model_calls: u32,
    pub tool_calls: u32,
}

/// What a [`StatsTotals`] denotes.
pub struct Totals {
    pub duration_ms: nat,
    pub cost_micro_usd: nat,
    pub cost_own_micro_usd: nat,
    pub cost_delegated_micro_usd: nat,
    pub tokens_in: nat,
    pub tokens_out: nat,
    pub model_calls: nat,
    pub tool_calls: nat,
}

impl View for StatsTotals {
    type V = Totals;

    open spec fn view(&self) -> Totals {
        Totals {
            duration_ms: self.duration_ms as nat,
            cost_micro_usd: self.cost_micro_usd as nat,
            cost_own_micro_usd: self.cost_own_micro_usd as nat,
            cost_delegated_micro_usd: self.cost_delegated_micro_usd as nat,
            tokens_in: self.tokens_in as nat,
            tokens_out: self.tokens_out as nat,
            model_calls: self.model_calls as nat,
            tool_calls: self.tool_calls as nat,
        }
    }
}

impl Totals {
    /// Every number fits where it is kept.
    pub open spec fn fits(self) -> bool {
        &&& self.duration_ms <= u64::MAX
        &&& self.cost_micro_usd <= u64::MAX
        &&& self.cost_own_micro_usd <= u64::MAX
        &&& self.cost_delegated_micro_usd <= u64::MAX
        &&& self.tokens_in <= u64::MAX
        &&& self.tokens_out <= u64::MAX
        &&& self.model_calls <= u32::MAX
        &&& self.tool_calls <= u32::MAX
    }

    /// No number is more than that of `other`.
    pub open spec fn within(self, other: Totals) -> bool {
        &&& self.duration_ms <= other.duration_ms
        &&& self.cost_micro_usd <= other.cost_micro_usd
        &&& self.cost_own_micro_usd <= other.cost_own_micro_usd
        &&& self.cost_delegated_micro_usd <= other.cost_delegated_micro_usd
        &&& self.tokens_in <= other.tokens_in
        &&& self.tokens_out <= other.tokens_out
        &&& self.model_calls <= other.model_calls
        &&& self.tool_calls <= other.tool_calls
    }
}

/// Nothing taken, spent or called.
pub open spec fn no_totals() -> Totals {
    Totals {
        duration_ms: 0,
        cost_micro_usd: 0,
        cost_own_micro_usd: 0,
        cost_delegated_micro_usd: 0,
        tokens_in: 0,
        tokens_out: 0,
        model_calls: 0,
        tool_calls: 0,
    }
}

/// Field by field, the sum of two totals.
pub open spec fn totals_sum(a: Totals, b: Totals) -> Totals {
    Totals {
        duration_ms: a.duration_ms + b.duration_ms,
        cost_micro_usd: a.cost_micro_usd + b.cost_micro_usd,
        cost_own_micro_usd: a.cost_own_micro_usd + b.cost_own_micro_usd,
        cost_delegated_micro_usd: a.cost_delegated_micro_usd + b.cost_delegated_micro_usd,
        tokens_in: a.tokens_in + b.tokens_in,
        tokens_out: a.tokens_out + b.tokens_out,
        model_calls: a.model_calls + b.model_calls,
        tool_calls: a.tool_calls + b.tool_calls,
    }
}

impl StatsTotals {
    pub fn zero() -> (r: StatsTotals)
        ensures
            r@ == no_totals(),
    {
        StatsTotals {
            duration_ms: 0,
            cost_micro_usd: 0,
            cost_own_micro_usd: 0,
            cost_delegated_micro_usd: 0,
            tokens_in: 0,
            tokens_out: 0,
            model_calls: 0,
            tool_calls: 0,
        }
    }

    /// Adds the totals of another ask.
    pub fn add(&mut self, other: &StatsTotals)
        requires
            totals_sum(old(self)@, other@).fits(),
        ensures
            final(self)@ == totals_sum(old(self)@, other@),
    {
        self.duration_ms = self.duration_ms + other.duration_ms;
        self.cost_micro_usd = self.cost_micro_usd + other.cost_micro_usd;
        self.cost_own_micro_usd = self.cost_own_micro_usd + other.cost_own_micro_usd;
        self.cost_delegated_micro_usd = self.cost_delegated_micro_usd
            + other.cost_delegated_micro_usd;
        self.tokens_in = self.tokens_in + other.tokens_in;
        self.tokens_out = self.tokens_out + other.tokens_out;
        self.model_calls = self.model_calls + other.model_calls;
        self.tool_calls = self.tool_calls + other.tool_calls;
    }
}

/// How long asks took.
#[derive(Clone, Copy, Debug, PartialEq, Eq, Structural)]
pub struct DurationStats {
    pub mean_ms: u64,
    pub median_ms: u64,
    pub p95_ms: u64,
}

// ----- filtering -----
/// The index of the first head with identity `id`, from index `i` on.
pub open spec fn head_from(heads: Seq<TraceHead>, id: Seq<char>, i: int) -> Option<int>
    decreases heads.len() - i,
{
    if i < 0 || i >= heads.len() {
        None
    } else if heads[i].trace_id@ == id {
        Some(i)
    } else {
        head_from(heads, id, i + 1)
    }
}

/// The time a trace was made; the beginning of time where it does not say.
pub open spec fn made_at(h: TraceHead) -> int {
    match h.created_at {
        Some(t) => t as int,
        None => 0,
    }
}

/// The head is at or after the anchor: by time, where the anchor has one, and
/// else by identity.
pub open spec fn at_or_after(h: TraceHead, anchor: TraceHead) -> bool {
    match anchor.created_at {
        Some(t) => made_at(h) >= t,
        None => !before(h.trace_id@, anchor.trace_id@),
    }
}

/// What was asked for is not there, or the store failed.
#[derive(Debug)]
pub enum StoreError {
    NotFound { id: TraceId },
    Failed(String),
}

impl StoreError {
    /// The identity that is not there, where that is the reason.
    pub open spec fn missing(&self) -> Option<Seq<char>> {
        match self {
            StoreError::NotFound { id } => Some(id@),
            StoreError::Failed(_) => None,
        }
    }
}

/// The heads that the options ask for, or the identity that is not there.
pub open spec fn selected(heads: Seq<TraceHead>, trace: Option<Seq<char>>, since: Option<
    Seq<char>,
>) -> Result<Seq<TraceHead>, Seq<char>> {
    match trace {
        Some(id) => match head_from(heads, id, 0) {
            Some(i) => Ok(Seq::empty().push(heads[i])),
            None => Err(id),
        },
        None => match since {
            Some(id) => match head_from(heads, id, 0) {
                Some(i) => Ok(heads.filter(|h: TraceHead| at_or_after(h, heads[i]))),
                None => Err(id),
            },
            None => Ok(heads),
        },
    }
}

proof fn lemma_head_from(heads: Seq<TraceHead>, id: Seq<char>, i: int)
    requires
        0 <= i,
    ensures
        match head_from(heads, id, i) {
            Some(k) => i <= k < heads.len() && heads[k].trace_id@ == id,
            None => forall|k: int| i <= k < heads.len() ==> heads[k].trace_id@ != id,
        },
    decreases heads.len() - i,
{
    if i < heads.len() && heads[i].trace_id@ != id {
        lemma_head_from(heads, id, i + 1);
    }
}

fn find_head(heads: &Vec<TraceHead>, id: &TraceId) -> (r: Option<usize>)
    ensures
        match r {
            Some(i) => head_from(heads@, id@, 0) == Some(i as int) && i < heads@.len(),
            None => head_from(heads@, id@, 0) is None,
        },
{
    let mut i: usize = 0;
    while i < heads.len()
        invariant
            i <= heads@.len(),
            head_from(heads@, id@, 0) == head_from(heads@, id@, i as int),
        decreases heads.len() - i,
    {
        if heads[i].trace_id.same(id) {
            return Some(i);
        }
        i = i + 1;
    }
    None
}

/// A head with the same contents.
pub fn copy_head(h: &TraceHead) -> (r: TraceHead)
    ensures
        r == *h,
{
    TraceHead {
        trace_id: h.trace_id.copy(),
        depends_on: match &h.depends_on {
            Some(t) => Some(t.copy()),
            None => None,
        },
        agent_name: h.agent_name.clone(),
        agent_version: h.agent_version.clone(),
        created_at: h.created_at,
        question: h.question.clone(),
        status: h.status.clone(),
    }
}

/// The heads that the options ask for, in the order in which they stand.
pub fn filter_heads(heads: Vec<TraceHead>, options: &StatsOptions) -> (r: Result<
    Vec<TraceHead>,
    StoreError,
>)
    ensures
        match r {
            Ok(v) => selected(heads@, id_view(options.trace), id_view(options.since)) == Ok::<
                Seq<TraceHead>,
                Seq<char>,
            >(v@),
            Err(e) => e.missing() matches Some(id) && selected(
                heads@,
                id_view(options.trace),
                id_view(options.since),
            ) == Err::<Seq<TraceHead>, Seq<char>>(id),
        },
{
    if let Some(id) = &options.trace {
        return match find_head(&heads, id) {
            None => Err(StoreError::NotFound { id: id.copy() }),
            Some(i) => {
                let mut one: Vec<TraceHead> = Vec::new();
                one.push(copy_head(&heads[i]));
                assert(one@ =~= Seq::empty().push(heads@[i as int]));
                Ok(one)
            },
        };
    }
    if let Some(id) = &options.since {
        let at: usize = match find_head(&heads, id) {
            None => {
                return Err(StoreError::NotFound { id: id.copy() });
            },
            Some(i) => i,
        };
        let ghost p = |h: TraceHead| at_or_after(h, heads@[at as int]);
        let mut kept: Vec<TraceHead> = Vec::new();
        let mut i: usize = 0;
        assert(kept@ =~= heads@.take(0).filter(p)) by {
            reveal(Seq::filter);
        }
        while i < heads.len()
            invariant
                i <= heads@.len(),
                at < heads@.len(),
                p == (|h: TraceHead| at_or_after(h, heads@[at as int])),
                kept@ == heads@.take(i as int).filter(p),
            decreases heads.len() - i,
        {
            let keep = match heads[at].created_at {
                Some(t) => match heads[i].created_at {
                    Some(u) => u >= t,
                    None => 0 >= t,
                },
                None => !less(heads[i].trace_id.as_str(), heads[at].trace_id.as_str()),
            };
            assert(heads@.take(i + 1).drop_last() =~= heads@.take(i as int));
            proof {
                reveal(Seq::filter);
            }
            if keep {
                kept.push(copy_head(&heads[i]));
            }
            i = i + 1;
        }
        assert(heads@.take(i as int) =~= heads@);
        return Ok(kept);
    }
    Ok(heads)
}

/// Whatever is asked for, only stored traces come back, and where one trace is
/// asked for it comes back alone.
pub proof fn law_selection_is_from_the_store(
    heads: Seq<TraceHead>,
    trace: Option<Seq<char>>,
    since: Option<Seq<char>>,
)
    ensures
        selected(heads, trace, since) matches Ok(v) ==> {
            &&& forall|i: int| 0 <= i < v.len() ==> heads.contains(#[trigger] v[i])
            &&& trace matches Some(id) ==> v.len() == 1 && v[0].trace_id@ == id
        },
{
    if let Some(id) = trace {
        lemma_head_from(heads, id, 0);
        if let Some(k) = head_from(heads, id, 0) {
            assert(heads.contains(heads[k]));
        }
    } else if let Some(id) = since {
        lemma_head_from(heads, id, 0);
        if let Some(k) = head_from(heads, id, 0) {
            let p = |h: TraceHead| at_or_after(h, heads[k]);
            let v = heads.filter(p);
            assert forall|i: int| 0 <= i < v.len() implies heads.contains(#[trigger] v[i]) by {
                assert(v.contains(v[i]));
                heads.lemma_filter_contains_rev(p, v[i]);
            }
        }
    }
}

// ----- durations -----
/// `s` in ascending order with `x` put in its place.
pub open spec fn put_in_order(s: Seq<u64>, x: u64) -> Seq<u64>
    decreases s.len(),
{
    if s.len() == 0 || s.last() <= x {
        s.push(x)
    } else {
        put_in_order(s.drop_last(), x).push(s.last())
    }
}

/// The numbers in ascending order.
pub open spec fn in_ascending_order(s: Seq<u64>) -> Seq<u64>
    decreases s.len(),
{
    if s.len() == 0 {
        Seq::empty()
    } else {
        put_in_order(in_ascending_order(s.drop_last()), s.last())
    }
}

pub open spec fn is_ascending(s: Seq<u64>) -> bool {
    forall|i: int, j: int| 0 <= i <= j < s.len() ==> s[i] <= s[j]
}

/// The sum of the numbers.
pub open spec fn sum(s: Seq<u64>) -> int
    decreases s.len(),
{
    if s.len() == 0 {
        0
    } else {
        sum(s.drop_last()) + s.last()
    }
}

proof fn lemma_put_in_order(s: Seq<u64>, x: u64)
    requires
        is_ascending(s),
    ensures
        is_ascending(put_in_order(s, x)),
        put_in_order(s, x).len() == s.len() + 1,
        sum(put_in_order(s, x)) == sum(s) + x,
        put_in_order(s, x).to_multiset() == s.to_multiset().insert(x),
        forall|i: int|
            0 <= i < s.len() + 1 ==> (#[trigger] put_in_order(s, x)[i]) == x || s.contains(
                put_in_order(s, x)[i],
            ),
    decreases s.len(),
{
    broadcast use vstd::seq_lib::group_to_multiset_ensures;

    if s.len() == 0 || s.last() <= x {
        assert(s.push(x).drop_last() =~= s);
        assert forall|i: int| 0 <= i < s.len() implies s.contains(#[trigger] s.push(x)[i]) by {
            assert(s[i] == s.push(x)[i]);
        }
    } else {
        let init = s.drop_last();
        let rest = put_in_order(init, x);
        lemma_put_in_order(init, x);
        let all = rest.push(s.last());
        assert(all.drop_last() =~= rest);
        assert(s =~= init.push(s.last()));
        assert(all.to_multiset() =~= s.to_multiset().insert(x));
        assert forall|i: int| 0 <= i < rest.len() implies rest[i] <= s.last() by {
            if rest[i] != x {
                let j = init.index_of(rest[i]);
                assert(init[j] == s[j]);
            }
        }
        assert forall|i: int| 0 <= i < all.len() implies (#[trigger] all[i] == x || s.contains(
            all[i],
        )) by {
            if i < rest.len() {
                if rest[i] != x {
                    let j = init.index_of(rest[i]);
                    assert(s[j] == all[i]);
                }
            } else {
                assert(s[s.len() - 1] == all[i]);
            }
        }
    }
}

/// Sorting keeps the numbers, and leaves them in ascending order.
pub proof fn lemma_sorted(s: Seq<u64>)
    ensures
        is_ascending(in_ascending_order(s)),
        in_ascending_order(s).len() == s.len(),
        in_ascending_order(s).to_multiset() == s.to_multiset(),
        sum(in_ascending_order(s)) == sum(s),
    decreases s.len(),
{
    broadcast use vstd::seq_lib::group_to_multiset_ensures;

    if s.len() > 0 {
        lemma_sorted(s.drop_last());
        lemma_put_in_order(in_ascending_order(s.drop_last()), s.last());
        assert(s =~= s.drop_last().push(s.last()));
    } else {
        assert(s =~= Seq::<u64>::empty());
    }
}

fn insert_sorted(v: &mut Vec<u64>, x: u64)
    ensures
        final(v)@ == put_in_order(old(v)@, x),
{
    let ghost start = v@;
    let mut i: usize = v.len();
    let ghost mut tail: Seq<u64> = Seq::empty();
    assert(start.take(start.len() as int) =~= start);
    assert(put_in_order(start, x) + tail =~= put_in_order(start, x));
    while i > 0 && v[i - 1] > x
        invariant
            v@ == start,
            i <= start.len(),
            tail == start.skip(i as int),
            put_in_order(start, x) == put_in_order(start.take(i as int), x) + tail,
        decreases i,
    {
        proof {
            let head = start.take(i as int);
            assert(head.drop_last() =~= start.take(i - 1));
            assert(head.last() == start[i - 1]);
            let smaller = put_in_order(start.take(i - 1), x);
            let t2 = start.skip(i - 1);
            assert(smaller.push(head.last()) + tail =~= smaller + t2);
            tail = t2;
        }
        i = i - 1;
    }
    proof {
        let head = start.take(i as int);
        if i > 0 {
            assert(head.last() == start[i - 1]);
        }
        assert(put_in_order(head, x) == head.push(x));
        assert(start.insert(i as int, x) =~= head.push(x) + tail);
    }
    v.insert(i, x);
}

fn sort_numbers(v: &Vec<u64>) -> (r: Vec<u64>)
    ensures
        r@ == in_ascending_order(v@),
{
    let mut out: Vec<u64> = Vec::new();
    let mut i: usize = 0;
    assert(out@ =~= in_ascending_order(v@.take(0)));
    while i < v.len()
        invariant
            i <= v@.len(),
            out@ == in_ascending_order(v@.take(i as int)),
        decreases v.len() - i,
    {
        assert(v@.take(i + 1).drop_last() =~= v@.take(i as int));
        insert_sorted(&mut out, v[i]);
        i = i + 1;
    }
    assert(v@.take(i as int) =~= v@);
    out
}

/// Where the `p`th percentile of `n` ordered numbers stands.
pub open spec fn percentile_index(n: int, p: int) -> int {
    let x = (n - 1) * p;
    if x % 100 == 0 {
        x / 100
    } else {
        x / 100 + 1
    }
}

proof fn lemma_percentile_index(n: int, p: int)
    requires
        n > 0,
        0 <= p <= 100,
    ensures
        0 <= percentile_index(n, p) < n,
{
    let x = (n - 1) * p;
    assert(0 <= x <= (n - 1) * 100) by (nonlinear_arith)
        requires
            n > 0,
            0 <= p <= 100,
            x == (n - 1) * p,
    ;
}

/// The `p`th percentile of numbers in ascending order; nothing of none.
pub fn percentile(sorted: &Vec<u64>, p: usize) -> (r: u64)
    requires
        sorted@.len() > 0 ==> (sorted@.len() - 1) * p <= usize::MAX,
        sorted@.len() > 0 ==> percentile_index(sorted@.len() as int, p as int) < sorted@.len(),
    ensures
        sorted@.len() == 0 ==> r == 0,
        sorted@.len() > 0 ==> r == sorted@[percentile_index(sorted@.len() as int, p as int)],
{
    if sorted.len() == 0 {
        return 0;
    }
    assert(0 <= (sorted@.len() - 1) * p) by (nonlinear_arith)
        requires
            sorted@.len() >= 1,
    ;
    let x: usize = (sorted.len() - 1) * p;
    let idx: usize = if x % 100 == 0 {
        x / 100
    } else {
        x / 100 + 1
    };
    sorted[idx]
}

/// How long the given durations are on average, in the middle, and for all but
/// a twentieth.
pub open spec fn durations_of(d: Seq<u64>) -> DurationStats {
    if d.len() == 0 {
        DurationStats { mean_ms: 0, median_ms: 0, p95_ms: 0 }
    } else {
        let s = in_ascending_order(d);
        DurationStats {
            mean_ms: (sum(d) / d.len() as int) as u64,
            median_ms: s[percentile_index(d.len() as int, 50)],
            p95_ms: s[percentile_index(d.len() as int, 95)],
        }
    }
}

/// The place of the 95th percentile of `n` numbers can be worked out.
pub open spec fn durations_fit(n: nat) -> bool {
    n == 0 || (n - 1) * 95 <= usize::MAX
}

pub fn duration_stats(durations: Vec<u64>) -> (r: DurationStats)
    requires
        sum(durations@) <= u64::MAX,
        durations_fit(durations@.len()),
    ensures
        r == durations_of(durations@),
{
    if durations.len() == 0 {
        return DurationStats { mean_ms: 0, median_ms: 0, p95_ms: 0 };
    }
    let sorted = sort_numbers(&durations);
    proof {
        lemma_sorted(durations@);
    }
    let mut total: u64 = 0;
    let mut i: usize = 0;
    assert(durations@.take(0) =~= Seq::<u64>::empty());
    while i < durations.len()
        invariant
            i <= durations@.len(),
            total == sum(durations@.take(i as int)),
            sum(durations@) <= u64::MAX,
        decreases durations.len() - i,
    {
        proof {
            assert(durations@.take(i + 1).drop_last() =~= durations@.take(i as int));
            lemma_sum_prefix(durations@, i + 1);
        }
        total = total + durations[i];
        i = i + 1;
    }
    assert(durations@.take(i as int) =~= durations@);
    proof {
        lemma_percentile_index(sorted@.len() as int, 50);
        lemma_percentile_index(sorted@.len() as int, 95);
    }
    DurationStats {
        mean_ms: total / (durations.len() as u64),
        median_ms: percentile(&sorted, 50),
        p95_ms: percentile(&sorted, 95),
    }
}

proof fn lemma_sum_prefix(s: Seq<u64>, i: int)
    requires
        0 <= i <= s.len(),
    ensures
        0 <= sum(s.take(i)) <= sum(s),
    decreases s.len() - i,
{
    lemma_sum_nonneg(s.take(i));
    if i < s.len() {
        assert(s.take(i + 1).drop_last() =~= s.take(i));
        lemma_sum_prefix(s, i + 1);
    } else {
        assert(s.take(i) =~= s);
    }
}

proof fn lemma_sum_nonneg(s: Seq<u64>)
    ensures
        0 <= sum(s),
    decreases s.len(),
{
    if s.len() > 0 {
        lemma_sum_nonneg(s.drop_last());
    }
}

/// The median and the 95th percentile are durations that were taken: the
/// median is not below the least, nor above the 95th percentile, which is not
/// above the greatest.
pub proof fn law_percentiles_are_durations(d: Seq<u64>)
    requires
        d.len() > 0,
    ensures
        d.contains(durations_of(d).median_ms),
        d.contains(durations_of(d).p95_ms),
        in_ascending_order(d)[0] <= durations_of(d).median_ms <= durations_of(d).p95_ms
            <= in_ascending_order(d).last(),
        forall|i: int|
            0 <= i < d.len() ==> in_ascending_order(d)[0] <= #[trigger] d[i]
                <= in_ascending_order(d).last(),
{
    broadcast use vstd::seq_lib::group_to_multiset_ensures;

    let s = in_ascending_order(d);
    let n = d.len() as int;
    lemma_sorted(d);
    lemma_percentile_index(n, 50);
    lemma_percentile_index(n, 95);
    let i = percentile_index(n, 50);
    let j = percentile_index(n, 95);
    assert(i <= j) by {
        let x = (n - 1) * 50;
        let y = (n - 1) * 95;
        assert(x <= y);
    }
    assert(s.contains(s[i]));
    assert(s.contains(s[j]));
    assert(s.to_multiset().count(s[i]) > 0);
    assert(s.to_multiset().count(s[j]) > 0);
    assert(d.to_multiset().count(s[i]) > 0);
    assert(d.to_multiset().count(s[j]) > 0);
    assert forall|k: int| 0 <= k < d.len() implies s[0] <= #[trigger] d[k] <= s.last() by {
        assert(d.contains(d[k]));
        assert(d.to_multiset().count(d[k]) > 0);
        assert(s.to_multiset().count(d[k]) > 0);
        assert(s.contains(d[k]));
        let m = s.index_of(d[k]);
        assert(s[m] == d[k]);
    }
}

/// What is said of durations does not depend on the order in which they were
/// taken.
pub proof fn law_durations_have_no_order(a: Seq<u64>, b: Seq<u64>)
    requires
        a.to_multiset() == b.to_multiset(),
    ensures
        durations_of(a) == durations_of(b),
{
    let leq = |x: u64, y: u64| x <= y;
    lemma_sorted(a);
    lemma_sorted(b);
    vstd::seq_lib::lemma_sorted_unique(in_ascending_order(a), in_ascending_order(b), leq);
}

/// Totals denote their own numbers, and totals added up are the numbers added up.
pub proof fn law_totals_add_number_by_number(a: StatsTotals, b: StatsTotals)
    ensures
        ({
            let s = totals_sum(a@, b@);
            &&& s.duration_ms == a.duration_ms + b.duration_ms
            &&& s.cost_micro_usd == a.cost_micro_usd + b.cost_micro_usd
            &&& s.cost_own_micro_usd == a.cost_own_micro_usd + b.cost_own_micro_usd
            &&& s.cost_delegated_micro_usd == a.cost_delegated_micro_usd + b.cost_delegated_micro_usd
            &&& s.tokens_in == a.tokens_in + b.tokens_in
            &&& s.tokens_out == a.tokens_out + b.tokens_out
            &&& s.model_calls == a.model_calls + b.model_calls
            &&& s.tool_calls == a.tool_calls + b.tool_calls
        }),
        totals_sum(a@, no_totals()) == a@,
{
}

/// The mean of durations is their sum shared out evenly, rounded down; the median
/// has half of them at or above it and half at or below; and all but a twentieth
/// lie at or below the 95th percentile.
pub proof fn law_durations_are_shared_out(d: Seq<u64>)
    requires
        d.len() > 0,
    ensures
        ({
            let r = durations_of(d);
            let s = in_ascending_order(d);
            let n = d.len() as int;
            &&& r.mean_ms * n <= sum(d) < (r.mean_ms + 1) * n
            &&& s.len() == n && is_ascending(s)
            &&& exists|k: int| #![auto] n - 1 <= 2 * k <= n && s[k] == r.median_ms
            &&& exists|k: int|
                #![auto]
                0 <= k < n && 95 * (n - 1) <= 100 * k < 95 * (n - 1) + 100 && s[k] == r.p95_ms
        }),
{
    let n = d.len() as int;
    let s = in_ascending_order(d);
    lemma_sorted(d);
    lemma_sum_nonneg(d);
    lemma_sum_at_most(d);
    let q = sum(d) / n;
    assert(0 <= q <= u64::MAX && q * n <= sum(d) < (q + 1) * n) by (nonlinear_arith)
        requires
            n > 0,
            q == sum(d) / n,
            0 <= sum(d) <= n * u64::MAX,
    ;
    lemma_percentile_index(n, 50);
    lemma_percentile_index(n, 95);
    let i = percentile_index(n, 50);
    let j = percentile_index(n, 95);
    assert(s[i] == durations_of(d).median_ms);
    assert(s[j] == durations_of(d).p95_ms);
    assert(n - 1 <= 2 * i <= n);
    assert(95 * (n - 1) <= 100 * j < 95 * (n - 1) + 100);
}

proof fn lemma_sum_at_most(s: Seq<u64>)
    ensures
        sum(s) <= s.len() * u64::MAX,
    decreases s.len(),
{
    if s.len() > 0 {
        lemma_sum_at_most(s.drop_last());
        let n = s.len() as int;
        assert((n - 1) * u64::MAX + u64::MAX == n * u64::MAX) by (nonlinear_arith);
    }
}

/// A trace that is stored is found by its identity, and where the traces since one
/// are asked for, that one comes back with every trace made no earlier.
pub proof fn law_what_is_asked_for_comes_back(
    heads: Seq<TraceHead>,
    anchor: int,
    k: int,
    t: u64,
)
    requires
        0 <= anchor < heads.len(),
        0 <= k < heads.len(),
        forall|i: int| 0 <= i < anchor ==> (#[trigger] heads[i]).trace_id@ != heads[anchor].trace_id@,
    ensures
        selected(heads, None, None) == Ok::<Seq<TraceHead>, Seq<char>>(heads),
        selected(heads, Some(heads[anchor].trace_id@), None) == Ok::<Seq<TraceHead>, Seq<char>>(
            seq![heads[anchor]],
        ),
        selected(heads, None, Some(heads[anchor].trace_id@)) matches Ok(v) && {
            &&& heads[anchor].created_at == Some(t) ==> (v.contains(heads[k]) <==> (
            heads[k].created_at matches Some(u) && u >= t || t == 0))
            &&& v.contains(heads[anchor])
        },
{
    let id = heads[anchor].trace_id@;
    lemma_head_from(heads, id, 0);
    let a = head_from(heads, id, 0)->0;
    assert(a == anchor) by {
        if a > anchor {
            lemma_head_first(heads, id, 0, anchor);
        }
    }
    assert(Seq::empty().push(heads[a]) =~= seq![heads[anchor]]);
    let p = |h: TraceHead| at_or_after(h, heads[a]);
    let v = heads.filter(p);
    crate::order::lemma_irreflexive(id);
    assert(p(heads[anchor]));
    heads.lemma_filter_contains(p, anchor);
    if p(heads[k]) {
        heads.lemma_filter_contains(p, k);
    } else if v.contains(heads[k]) {
        heads.lemma_filter_contains_rev(p, heads[k]);
    }
}

proof fn lemma_head_first(heads: Seq<TraceHead>, id: Seq<char>, i: int, k: int)
    requires
        0 <= i <= k < heads.len(),
        heads[k].trace_id@ == id,
    ensures
        head_from(heads, id, i) matches Some(j) && j <= k,
    decreases k - i,
{
    if heads[i].trace_id@ != id {
        lemma_head_first(heads, id, i + 1, k);
    }
}

} // verus!
