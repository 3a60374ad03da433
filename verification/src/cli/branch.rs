//! Branching off a recorded session at an earlier place in its log.
use vstd::prelude::*;

use crate::trace::LogEntry;

verus! {

/// A recorded session: the events, the log that they led to, and what the
/// session was recorded with.
#[derive(Debug)]
pub struct Recording<E> {
    pub events: Vec<E>,
    pub log: Vec<LogEntry>,
    pub created_at: Option<u64>,
    pub policy: Option<serde_json::Value>,
}

/// The number of entries that the first `n` events put on the log.
pub open spec fn entries_before(steps: Seq<usize>, n: int) -> int
    decreases n,
{
    if n <= 0 {
        0
    } else {
        entries_before(steps, n - 1) + steps[n - 1]
    }
}

/// No entry from `from` up to `to` stands after `seq`.
pub open spec fn stays_within(log: Seq<LogEntry>, from: int, to: int, seq: u64) -> bool {
    forall|k: int| from <= k < to ==> (#[trigger] log[k]).seq <= seq
}

/// The number of events, from the `n`th on, up to the first that would put an
/// entry after `seq` on the log.
pub open spec fn events_within(
    log: Seq<LogEntry>,
    steps: Seq<usize>,
    seq: u64,
    n: int,
) -> int
    decreases steps.len() - n,
{
    if n < 0 || n >= steps.len() {
        n
    } else if stays_within(log, entries_before(steps, n), entries_before(steps, n + 1), seq) {
        events_within(log, steps, seq, n + 1)
    } else {
        n
    }
}

proof fn lemma_entries(steps: Seq<usize>, n: int, m: int)
    requires
        0 <= n <= m <= steps.len(),
    ensures
        0 <= entries_before(steps, n) <= entries_before(steps, m),
    decreases m,
{
    if n < m {
        lemma_entries(steps, n, m - 1);
    } else if n > 0 {
        lemma_entries(steps, n - 1, n - 1);
    }
}

proof fn lemma_events_within(log: Seq<LogEntry>, steps: Seq<usize>, seq: u64, n: int)
    requires
        0 <= n <= steps.len(),
        stays_within(log, 0, entries_before(steps, n), seq),
    ensures
        n <= events_within(log, steps, seq, n) <= steps.len(),
        stays_within(log, 0, entries_before(steps, events_within(log, steps, seq, n)), seq),
    decreases steps.len() - n,
{
    if n < steps.len() {
        if stays_within(log, entries_before(steps, n), entries_before(steps, n + 1), seq) {
            assert forall|k: int| 0 <= k < entries_before(steps, n + 1) implies (#[trigger] log[k]).seq
                <= seq by {
                if k >= entries_before(steps, n) {
                }
            }
            lemma_events_within(log, steps, seq, n + 1);
        }
    }
}

fn within(log: &Vec<LogEntry>, from: usize, to: usize, seq: u64) -> (r: bool)
    requires
        from <= to <= log@.len(),
    ensures
        r == stays_within(log@, from as int, to as int, seq),
{
    let mut k: usize = from;
    while k < to
        invariant
            from <= k <= to <= log@.len(),
            stays_within(log@, from as int, k as int, seq),
        decreases to - k,
    {
        if log[k].seq > seq {
            return false;
        }
        k = k + 1;
    }
    true
}

/// The recording up to an earlier place: its events one after the other, up to
/// the first that would put an entry after `seq` on the log, with the entries
/// that they did put there. `steps` tells how many entries each event puts on
/// the log.
pub fn branch_trace_at_seq<E>(trace: Recording<E>, steps: &Vec<usize>, seq: u64) -> (r: Recording<E>)
    requires
        steps@.len() == trace.events@.len(),
        entries_before(steps@, steps@.len() as int) == trace.log@.len(),
    ensures
        ({
            let n = events_within(trace.log@, steps@, seq, 0);
            &&& r.events@ == trace.events@.take(n)
            &&& r.log@ == trace.log@.take(entries_before(steps@, n))
            &&& r.created_at == trace.created_at
            &&& r.policy == trace.policy
        }),
{
    let Recording { mut events, mut log, created_at, policy } = trace;
    let ghost all = log@;
    let ghost every = events@;
    let len: usize = log.len();
    let mut n: usize = 0;
    let mut at: usize = 0;
    let mut going = true;
    while going && n < steps.len()
        invariant
            n <= steps@.len(),
            log@ == all,
            len == all.len(),
            entries_before(steps@, steps@.len() as int) == all.len(),
            at == entries_before(steps@, n as int),
            at <= all.len(),
            going ==> events_within(all, steps@, seq, 0) == events_within(
                all,
                steps@,
                seq,
                n as int,
            ),
            !going ==> events_within(all, steps@, seq, 0) == n,
        decreases steps.len() - n, (if going {
            1int
        } else {
            0
        }),
    {
        proof {
            lemma_entries(steps@, n + 1, steps@.len() as int);
        }
        let end: usize = at + steps[n];
        if within(&log, at, end, seq) {
            n = n + 1;
            at = end;
        } else {
            going = false;
        }
    }
    proof {
        assert(events_within(all, steps@, seq, 0) == n);
    }
    events.truncate(n);
    log.truncate(at);
    assert(events@ =~= every.take(n as int));
    assert(log@ =~= all.take(at as int));
    Recording { events, log, created_at, policy }
}

/// What a branch keeps of a log is a beginning of it, and nothing of it stands
/// after the place at which it branches off.
pub proof fn law_branches_are_beginnings(log: Seq<LogEntry>, steps: Seq<usize>, seq: u64)
    requires
        entries_before(steps, steps.len() as int) == log.len(),
    ensures
        ({
            let n = events_within(log, steps, seq, 0);
            let kept = log.take(entries_before(steps, n));
            &&& 0 <= n <= steps.len()
            &&& kept.is_prefix_of(log)
            &&& forall|k: int| 0 <= k < kept.len() ==> (#[trigger] kept[k]).seq <= seq
        }),
{
    lemma_events_within(log, steps, seq, 0);
    let n = events_within(log, steps, seq, 0);
    lemma_entries(steps, n, steps.len() as int);
    let kept = log.take(entries_before(steps, n));
    assert forall|k: int| 0 <= k < kept.len() implies (#[trigger] kept[k]).seq <= seq by {
        assert(kept[k] == log[k]);
    }
}

/// A branch reaches as far as it may: it ends at the end of the recording, or before
/// an event that wrote an entry with a higher number.
pub proof fn law_branches_reach_as_far_as_they_may(
    log: Seq<LogEntry>,
    steps: Seq<usize>,
    seq: u64,
    n: int,
)
    requires
        0 <= n <= steps.len(),
    ensures
        ({
            let m = events_within(log, steps, seq, n);
            &&& n <= m <= steps.len()
            &&& m < steps.len() ==> exists|k: int|
                entries_before(steps, m) <= k < entries_before(steps, m + 1) && (
                #[trigger] log[k]).seq > seq
        }),
    decreases steps.len() - n,
{
    if n < steps.len() && stays_within(
        log,
        entries_before(steps, n),
        entries_before(steps, n + 1),
        seq,
    ) {
        law_branches_reach_as_far_as_they_may(log, steps, seq, n + 1);
    }
}

} // verus!
