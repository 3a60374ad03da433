//! Asks and the store that their traces are left in: what a resumed trace is to
//! the ask that resumes it, and to the others that do.
use vstd::prelude::*;

use super::ask::{
    concludes, delegated, last_text, law_resumed_traces_do_not_answer, no_answer, said,
    wire_status, Answer, AnswerStatus, Conclusion, TraceHeader,
};
use super::limits::{trip_message, LimitTrip};
use super::run::{same_ask, steps, AskAction, AskEvent, AskRun, Stage};
use super::spend::{law_ancestry_is_never_billed_again, plus, spent_in_all, AnswerMeta};
use crate::trace::{id_view, LogEntry, TraceId};

verus! {

/// A trace in the store.
pub struct StoredTrace {
    pub header: TraceHeader,
    pub log: Seq<LogEntry>,
}

/// The turn of an ask: its log, which begins with that of the resumed trace, up
/// to `baseline`, the limit that was crossed, and what other agents took.
pub struct Turn {
    pub log: Seq<LogEntry>,
    pub baseline: int,
    pub trip: Option<LimitTrip>,
    pub duration_ms: u64,
    pub children: Seq<AnswerMeta>,
}

impl Turn {
    /// What the turn added to the log.
    pub open spec fn added(self) -> Seq<LogEntry> {
        self.log.skip(self.baseline)
    }
}

/// An ask from its start on: the states that it went through, what came of each
/// step, what was to be done, and what the store held at the time.
pub struct Course {
    pub runs: Seq<AskRun>,
    pub events: Seq<AskEvent>,
    pub actions: Seq<AskAction>,
    pub stores: Seq<Map<Seq<char>, StoredTrace>>,
    pub turn: Turn,
}

/// What an event says of the turn, and what it does to the store. A trace that
/// is taken up is in the store, and the log of the turn goes on from its log. A
/// trace is stored under an identity that no other has; nothing else changes
/// the store.
pub open spec fn kept_by(
    run: AskRun,
    event: AskEvent,
    before: Map<Seq<char>, StoredTrace>,
    after: Map<Seq<char>, StoredTrace>,
    turn: Turn,
) -> bool {
    match (run.stage, event) {
        (Stage::Loading, AskEvent::Loaded(Ok(_))) => {
            &&& after == before
            &&& id_view(run.parent) matches Some(p)
            &&& before.dom().contains(p)
            &&& turn.baseline == before[p].log.len()
            &&& before[p].log.is_prefix_of(turn.log)
        },
        (
            Stage::Running,
            AskEvent::TurnEnded { log, baseline, timed_out, duration_ms, children },
        ) => {
            &&& after == before
            &&& turn == Turn {
                log: log@,
                baseline: baseline as int,
                trip: run.trip_at_end(timed_out),
                duration_ms,
                children: children@,
            }
        },
        (Stage::Storing { conclusion }, AskEvent::Stored(Ok(id))) => {
            &&& !before.dom().contains(id@)
            &&& after == before.insert(
                id@,
                StoredTrace { header: conclusion.header, log: turn.log },
            )
        },
        _ => after == before,
    }
}

impl Course {
    /// The step at index `k` was taken as it has to be.
    pub open spec fn goes(self, k: int) -> bool {
        &&& steps(self.runs[k], self.events[k], self.runs[k + 1], self.actions[k])
        &&& kept_by(
            self.runs[k],
            self.events[k],
            self.stores[k],
            self.stores[k + 1],
            self.turn,
        )
    }

    /// Every step was taken as it has to be, from the start of the ask on.
    pub open spec fn holds(self) -> bool {
        &&& self.runs.len() == self.events.len() + 1
        &&& self.actions.len() == self.events.len()
        &&& self.stores.len() == self.runs.len()
        &&& match self.runs[0].parent {
            Some(_) => self.runs[0].stage is Loading,
            None => self.runs[0].stage is Preparing,
        }
        &&& forall|k: int| 0 <= k < self.events.len() ==> #[trigger] self.goes(k)
    }

    /// The ask that it is.
    pub open spec fn asked(self) -> AskRun {
        self.runs[0]
    }

    /// What the store held when the ask was started.
    pub open spec fn found(self) -> Map<Seq<char>, StoredTrace> {
        self.stores[0]
    }

    /// What the store holds in the end.
    pub open spec fn left(self) -> Map<Seq<char>, StoredTrace> {
        self.stores.last()
    }

    /// The last thing that was done is to give this answer.
    pub open spec fn answered(self, answer: Answer) -> bool {
        &&& self.holds()
        &&& self.events.len() > 0
        &&& self.actions.last() == AskAction::Answer { answer }
    }
}

/// What was concluded is what the turn of the ask comes to.
spec fn concluded(c: Course, conclusion: Conclusion) -> bool {
    concludes(
        conclusion,
        c.asked().name@,
        c.asked().version@,
        c.asked().question@,
        id_view(c.asked().parent),
        c.turn.log,
        c.turn.baseline,
        c.turn.trip,
        c.turn.duration_ms,
        c.turn.children,
    )
}

/// The trace has been stored, and nothing else has changed.
spec fn stored(c: Course, k: int, conclusion: Conclusion, id: TraceId) -> bool {
    &&& concluded(c, conclusion)
    &&& !c.found().dom().contains(id@)
    &&& c.stores[k] == c.found().insert(
        id@,
        StoredTrace { header: conclusion.header, log: c.turn.log },
    )
}

/// The turn goes on from the trace that the ask resumes.
spec fn resumed(c: Course) -> bool {
    id_view(c.asked().parent) matches Some(p) ==> {
        &&& c.found().dom().contains(p)
        &&& c.turn.baseline == c.found()[p].log.len()
        &&& c.found()[p].log.is_prefix_of(c.turn.log)
    }
}

proof fn lemma_course(c: Course, k: int)
    requires
        c.holds(),
        0 <= k < c.runs.len(),
    ensures
        same_ask(c.asked(), c.runs[k]),
        match c.runs[k].stage {
            Stage::Loading => c.stores[k] == c.found(),
            Stage::Preparing => c.stores[k] == c.found() && resumed(c),
            Stage::Placing => c.stores[k] == c.found() && resumed(c),
            Stage::Running => c.stores[k] == c.found() && resumed(c),
            Stage::Storing { conclusion } => c.stores[k] == c.found() && resumed(c) && concluded(
                c,
                conclusion,
            ),
            Stage::Sweeping { conclusion, trace_id } => resumed(c) && stored(
                c,
                k,
                conclusion,
                trace_id,
            ),
            Stage::Keeping { conclusion, trace_id, .. } => resumed(c) && stored(
                c,
                k,
                conclusion,
                trace_id,
            ),
            Stage::Over => true,
        },
    decreases k,
{
    if k > 0 {
        lemma_course(c, k - 1);
        assert(c.goes(k - 1));
    }
}

/// What an answered ask leaves in the store: one trace more, under an identity
/// that was not there, with the log of its turn and a header that tells what was
/// asked, of whom, in continuation of what, and how it ended. Every other trace
/// stays as it was.
pub proof fn law_an_ask_leaves_one_trace(c: Course, answer: Answer)
    requires
        c.answered(answer),
    ensures
        ({
            let id = answer.trace_id@;
            let trace = c.left()[id];
            &&& !c.found().dom().contains(id)
            &&& c.left() == c.found().insert(id, trace)
            &&& trace.log == c.turn.log
            &&& trace.header.agent_name@ == c.asked().name@
            &&& trace.header.agent_version@ == c.asked().version@
            &&& trace.header.question@ == c.asked().question@
            &&& trace.header.status@ == wire_status(answer.status)
            &&& id_view(trace.header.depends_on) == id_view(c.asked().parent)
        }),
        (answer.status, answer.message@) == (
            said(c.turn.log, c.turn.baseline, c.turn.trip).0,
            said(c.turn.log, c.turn.baseline, c.turn.trip).1,
        ),
        c.asked().parent matches Some(p) ==> {
            &&& c.found().dom().contains(p@)
            &&& 0 <= c.turn.baseline <= c.turn.log.len()
            &&& c.turn.log == c.found()[p@].log + c.turn.added()
        },
{
    let k = c.events.len() - 1;
    assert(c.goes(k));
    lemma_course(c, k);
    if let Some(p) = c.asked().parent {
        let log = c.found()[p@].log;
        assert(c.turn.log =~= log + c.turn.added());
    }
}

/// Asking a stored trace twice forks it. Both follow-ups depend on it, neither
/// changes it nor the other, and the store holds one trace more for each ask.
pub proof fn law_forks_leave_their_parent_alone(
    root: Course,
    a: Course,
    b: Course,
    root_answer: Answer,
    a_answer: Answer,
    b_answer: Answer,
)
    requires
        root.answered(root_answer),
        a.answered(a_answer),
        b.answered(b_answer),
        a.found() == root.left(),
        b.found() == a.left(),
        root.found().dom().finite(),
        root.asked().parent is None,
        id_view(a.asked().parent) == Some(root_answer.trace_id@),
        id_view(b.asked().parent) == Some(root_answer.trace_id@),
    ensures
        ({
            let r = root_answer.trace_id@;
            let s = a_answer.trace_id@;
            let t = b_answer.trace_id@;
            &&& r != s && s != t && r != t
            &&& b.left()[r] == root.left()[r]
            &&& b.left()[s] == a.left()[s]
            &&& b.left()[r].header.depends_on is None
            &&& id_view(b.left()[s].header.depends_on) == Some(r)
            &&& id_view(b.left()[t].header.depends_on) == Some(r)
            &&& b.left().dom() == root.found().dom().insert(r).insert(s).insert(t)
            &&& b.left().dom().len() == root.found().dom().len() + 3
        }),
        forall|k: Seq<char>| #[trigger]
            root.found().dom().contains(k) ==> b.left()[k] == root.found()[k],
{
    law_an_ask_leaves_one_trace(root, root_answer);
    law_an_ask_leaves_one_trace(a, a_answer);
    law_an_ask_leaves_one_trace(b, b_answer);
    let r = root_answer.trace_id@;
    let s = a_answer.trace_id@;
    let t = b_answer.trace_id@;
    let d = root.found().dom();
    assert(root.left().dom() =~= d.insert(r));
    assert(a.left().dom() =~= d.insert(r).insert(s));
    assert(b.left().dom() =~= d.insert(r).insert(s).insert(t));
}

proof fn lemma_nothing_said(log: Seq<LogEntry>, from: int, n: int)
    requires
        0 <= from <= n <= log.len(),
        forall|i: int| from <= i < n ==> !((#[trigger] log[i]).record is ModelOutput),
    ensures
        last_text(log, from, n) is None,
    decreases n - from,
{
    if from < n {
        lemma_nothing_said(log, from, n - 1);
        assert(!(log[n - 1].record is ModelOutput));
    }
}

/// A follow-up in which no model came to an output fails: whatever the resumed
/// trace had answered, the answer is an error that the follow-up's own entries
/// give, and it is stored as a failed ask that depends on the trace.
pub proof fn law_failed_follow_ups_are_errors(
    first: Course,
    follow: Course,
    first_answer: Answer,
    answer: Answer,
)
    requires
        first.answered(first_answer),
        follow.answered(answer),
        follow.found() == first.left(),
        id_view(follow.asked().parent) == Some(first_answer.trace_id@),
        forall|i: int|
            0 <= i < follow.turn.added().len() ==> !((
            #[trigger] follow.turn.added()[i]).record is ModelOutput),
    ensures
        answer.status == AnswerStatus::Error,
        answer.message@ == match follow.turn.trip {
            Some(t) => trip_message(t),
            None => no_answer(follow.turn.added(), 0),
        },
        follow.turn.log == first.turn.log + follow.turn.added(),
        follow.left()[answer.trace_id@].header.status@ == "error"@,
        id_view(follow.left()[answer.trace_id@].header.depends_on) == Some(
            first_answer.trace_id@,
        ),
        follow.left()[first_answer.trace_id@] == first.left()[first_answer.trace_id@],
{
    law_an_ask_leaves_one_trace(first, first_answer);
    law_an_ask_leaves_one_trace(follow, answer);
    let added = follow.turn.added();
    law_resumed_traces_do_not_answer(first.turn.log, added, follow.turn.trip);
    lemma_nothing_said(added, 0, added.len() as int);
}

/// What an ask is billed is what its own turn took and what the other agents
/// took that it asked: model calls, tokens and cost. What the resumed trace had
/// taken is not billed again.
pub proof fn law_asks_are_billed_for_their_own(c: Course, answer: Answer)
    requires
        c.answered(answer),
        0 <= c.turn.baseline <= c.turn.log.len(),
    ensures
        ({
            let own = spent_in_all(c.turn.added(), 0, c.turn.added().len() as int);
            let others = delegated(c.turn.children, c.turn.children.len() as int);
            &&& answer.metadata.model_calls == own.model_calls + others.model_calls
            &&& answer.metadata.tokens_in == own.tokens_in + others.tokens_in
            &&& answer.metadata.tokens_out == own.tokens_out + others.tokens_out
            &&& answer.metadata.cost_micro_usd == own.cost_micro_usd + others.cost_micro_usd
            &&& answer.metadata.sum() == plus(own, others)
        }),
{
    let k = c.events.len() - 1;
    assert(c.goes(k));
    lemma_course(c, k);
    let before = c.turn.log.take(c.turn.baseline);
    let added = c.turn.added();
    let none = Seq::<LogEntry>::empty();
    law_ancestry_is_never_billed_again(before, none, added);
    assert(before + added =~= c.turn.log);
    assert(none + added =~= added);
}

} // verus!
