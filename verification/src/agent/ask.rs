//! One ask: what it is bounded by, where its notes are kept, and what it
//! concludes with.
use vstd::prelude::*;

use super::analytics::StoreError;
use super::blobs::{BlobError, BlobHandle};
use super::limits::{trip_extra, trip_message, AgentLimits, LimitTrip};
use super::spend::{
    at, fits, lines_fit, lines_named, merged, meta_from_log, nothing, plus, spent, spent_in_all,
    tool_ends, within, AnswerMeta, Spend,
};
use crate::json::{opt_view, Data, Json};
use crate::paths::{join_path, path_join};
use crate::table::rows;
use crate::text::{cat, owned};
use crate::trace::{id_view, json_text, payload_text, LogEntry, Outcome, Record, TraceId};

verus! {

/// Where the notes of asks that are still running are kept.
pub const PENDING_DIRNAME: &'static str = ".pending";

/// How an ask ended.
#[derive(Clone, Copy, Debug, PartialEq, Eq, Structural)]
pub enum AnswerStatus {
    Success,
    OffTopic,
    Error,
}

pub open spec fn wire_status(status: AnswerStatus) -> Seq<char> {
    match status {
        AnswerStatus::Success => "success"@,
        AnswerStatus::OffTopic => "off_topic"@,
        AnswerStatus::Error => "error"@,
    }
}

/// The word for a status in headers and answers.
pub fn status_wire(status: AnswerStatus) -> (r: &'static str)
    ensures
        r@ == wire_status(status),
{
    match status {
        AnswerStatus::Success => "success",
        AnswerStatus::OffTopic => "off_topic",
        AnswerStatus::Error => "error",
    }
}

// ----- the final answer -----
/// The text of the last model output between `from` and `n` that asks for no
/// tool.
pub open spec fn last_text(log: Seq<LogEntry>, from: int, n: int) -> Option<Seq<char>>
    decreases n - from,
{
    if n <= from || n <= 0 || n > log.len() {
        None
    } else {
        match log[n - 1].record {
            Record::ModelOutput { op: _, text, tool_calls } => if tool_calls@.len() == 0 {
                Some(text@)
            } else {
                last_text(log, from, n - 1)
            },
            _ => last_text(log, from, n - 1),
        }
    }
}

/// The last error between `from` and `n` with which an operation ended, as text.
pub open spec fn last_error(log: Seq<LogEntry>, from: int, n: int) -> Option<Seq<char>>
    decreases n - from,
{
    if n <= from || n <= 0 || n > log.len() {
        None
    } else {
        match log[n - 1].record {
            Record::OpEnded { op: _, outcome: Outcome::Error(e), meta: _ } => Some(
                payload_text(e),
            ),
            _ => last_error(log, from, n - 1),
        }
    }
}

/// What is said where no model output is an answer.
pub open spec fn no_answer(log: Seq<LogEntry>, from: int) -> Seq<char> {
    match last_error(log, from, log.len() as int) {
        Some(e) => "model did not produce a final answer; last error: "@ + e,
        None => "model did not produce a final answer"@,
    }
}

/// How a session ended and what it says. Its last output from `from` on that
/// asks for no tool is the answer; a session without one failed. What a resumed
/// trace held before `from` never answers.
pub open spec fn answer_of(log: Seq<LogEntry>, from: int) -> (AnswerStatus, Seq<char>) {
    match last_text(log, from, log.len() as int) {
        Some(t) => (AnswerStatus::Success, t),
        None => (AnswerStatus::Error, no_answer(log, from)),
    }
}

/// The text of the last model output from `from` on that asks for no tool.
pub fn final_text(log: &Vec<LogEntry>, from: usize) -> (r: Option<String>)
    ensures
        opt_view(r) == last_text(log@, from as int, log@.len() as int),
{
    let mut n: usize = log.len();
    while n > from
        invariant
            n <= log@.len(),
            last_text(log@, from as int, log@.len() as int) == last_text(
                log@,
                from as int,
                n as int,
            ),
        decreases n,
    {
        if let Record::ModelOutput { op: _, text, tool_calls } = &log[n - 1].record {
            if tool_calls.len() == 0 {
                return Some(text.clone());
            }
        }
        n = n - 1;
    }
    None
}

/// What is said where no model output is an answer.
pub fn missing_final_answer_message(log: &Vec<LogEntry>, from: usize) -> (r: String)
    ensures
        r@ == no_answer(log@, from as int),
{
    let mut n: usize = log.len();
    while n > from
        invariant
            n <= log@.len(),
            last_error(log@, from as int, log@.len() as int) == last_error(
                log@,
                from as int,
                n as int,
            ),
        decreases n,
    {
        if let Record::OpEnded { op: _, outcome, meta: _ } = &log[n - 1].record {
            if let Outcome::Error(e) = outcome {
                return cat(
                    "model did not produce a final answer; last error: ",
                    json_text(e).as_str(),
                );
            }
        }
        n = n - 1;
    }
    owned("model did not produce a final answer")
}

/// How a session ended and what it says, from what it added to its log from
/// `from` on.
pub fn final_answer(log: &Vec<LogEntry>, from: usize) -> (r: (AnswerStatus, String))
    ensures
        (r.0, r.1@) == answer_of(log@, from as int),
{
    match final_text(log, from) {
        Some(t) => (AnswerStatus::Success, t),
        None => (AnswerStatus::Error, missing_final_answer_message(log, from)),
    }
}

// ----- what bounds a turn -----
/// How many milliseconds a turn may take, where that is limited.
pub open spec fn timeout_of(limits: AgentLimits) -> Option<u64> {
    match limits.timeout_ms {
        Some(ms) => if ms > 0 {
            Some(ms)
        } else {
            None
        },
        None => None,
    }
}

/// How many milliseconds a turn may take, where that is limited.
pub fn turn_timeout(limits: &AgentLimits) -> (r: Option<u64>)
    ensures
        r == timeout_of(*limits),
{
    match limits.timeout_ms {
        Some(ms) => if ms > 0 {
            Some(ms)
        } else {
            None
        },
        None => None,
    }
}

// ----- notes -----
/// Where an ask keeps its notes while it runs, and the finished notes that it
/// starts from.
#[derive(Debug)]
pub struct ScratchPlan {
    pub working: String,
    pub seed: Option<String>,
}

/// Where the running ask with a label keeps its notes.
pub open spec fn working_dir(root: Seq<char>, label: Seq<char>) -> Seq<char> {
    path_join(path_join(root, PENDING_DIRNAME@), label)
}

/// The finished notes that an ask starts from: those of the trace that it
/// resumes, where there are any.
pub open spec fn seed_dir(
    root: Seq<char>,
    parent: Option<Seq<char>>,
    parent_has_notes: bool,
) -> Option<Seq<char>> {
    match parent {
        Some(id) => if parent_has_notes {
            Some(path_join(root, id))
        } else {
            None
        },
        None => None,
    }
}

/// Where an ask keeps its notes while it runs, and what they start from: the
/// finished notes of the trace that it resumes, where there are any. `label`
/// tells running asks apart.
pub fn prepare_scratch(
    scratch_root: &str,
    label: &str,
    parent: Option<&TraceId>,
    parent_has_notes: bool,
) -> (r: ScratchPlan)
    ensures
        r.working@ == working_dir(scratch_root@, label@),
        opt_view(r.seed) == seed_dir(
            scratch_root@,
            match parent {
                Some(id) => Some(id@),
                None => None,
            },
            parent_has_notes,
        ),
{
    let working = join_path(join_path(scratch_root, PENDING_DIRNAME).as_str(), label);
    let seed = match parent {
        Some(id) => if parent_has_notes {
            Some(join_path(scratch_root, id.as_str()))
        } else {
            None
        },
        None => None,
    };
    ScratchPlan { working, seed }
}

/// Where the notes of a finished ask are kept.
pub fn finalize_scratch(scratch_root: &str, trace_id: &TraceId) -> (r: String)
    ensures
        r@ == path_join(scratch_root@, trace_id@),
{
    join_path(scratch_root, trace_id.as_str())
}

// ----- conclusion -----
/// What is stored in front of a trace.
#[derive(Debug)]
pub struct TraceHeader {
    pub agent_name: String,
    pub agent_version: String,
    pub question: String,
    pub status: String,
    pub depends_on: Option<TraceId>,
}

/// What an ask concludes with, before its trace is stored.
#[derive(Debug)]
pub struct Conclusion {
    pub status: AnswerStatus,
    pub message: String,
    pub extra: Data,
    pub metadata: AnswerMeta,
    pub header: TraceHeader,
}

/// What a session says, unless it crossed a limit: then it failed, and the
/// limit is what is said.
pub open spec fn said(log: Seq<LogEntry>, from: int, trip: Option<LimitTrip>) -> (
    AnswerStatus,
    Seq<char>,
    Json,
) {
    match trip {
        Some(t) => (AnswerStatus::Error, trip_message(t), trip_extra(t)),
        None => {
            let (status, message) = answer_of(log, from);
            (status, message, Json::Null)
        },
    }
}

/// What the first `n` other agents took.
pub open spec fn delegated(children: Seq<AnswerMeta>, n: int) -> Spend
    decreases n,
{
    if n <= 0 {
        nothing()
    } else {
        plus(delegated(children, n - 1), children[n - 1].sum())
    }
}

/// How many tools the first `n` other agents called.
pub open spec fn delegated_tools(children: Seq<AnswerMeta>, n: int) -> nat
    decreases n,
{
    if n <= 0 {
        0
    } else {
        delegated_tools(children, n - 1) + children[n - 1].tool_calls as nat
    }
}

/// The lines of an account with those of the first `n` other agents.
pub open spec fn with_delegated(
    own: Map<Seq<char>, Spend>,
    children: Seq<AnswerMeta>,
    n: int,
) -> Map<Seq<char>, Spend>
    decreases n,
{
    if n <= 0 {
        own
    } else {
        merged(with_delegated(own, children, n - 1), rows(children[n - 1].tiers))
    }
}

/// The account of an ask fits where it is kept.
pub open spec fn account_fits(
    log: Seq<LogEntry>,
    baseline: int,
    children: Seq<AnswerMeta>,
) -> bool {
    let n = log.len() as int;
    let k = children.len() as int;
    &&& 0 <= baseline <= n
    &&& fits(plus(spent_in_all(log, baseline, n), delegated(children, k)))
    &&& tool_ends(log, baseline, n) + delegated_tools(children, k) <= u32::MAX
    &&& lines_fit(with_delegated(spent(log, baseline, n), children, k))
}

proof fn lemma_delegated_grows(children: Seq<AnswerMeta>, n: int, k: int)
    requires
        n <= k,
    ensures
        within(delegated(children, n), delegated(children, k)),
        delegated_tools(children, n) <= delegated_tools(children, k),
    decreases k - n,
{
    if n < k {
        lemma_delegated_grows(children, n, k - 1);
    }
}

proof fn lemma_lines_grow(
    own: Map<Seq<char>, Spend>,
    children: Seq<AnswerMeta>,
    n: int,
    k: int,
)
    requires
        n <= k,
        lines_fit(with_delegated(own, children, k)),
    ensures
        lines_fit(with_delegated(own, children, n)),
    decreases k - n,
{
    if n < k && k > 0 {
        let less = with_delegated(own, children, k - 1);
        let more = with_delegated(own, children, k);
        assert forall|tier: Seq<char>| fits(#[trigger] at(less, tier)) by {
            assert(fits(at(more, tier)));
            assert(within(at(less, tier), at(more, tier)));
        }
        lemma_lines_grow(own, children, n, k - 1);
    }
}

/// The accounts of all agents that were asked add up.
pub open spec fn all_balanced(children: Seq<AnswerMeta>, n: int) -> bool {
    forall|i: int| 0 <= i < n ==> (#[trigger] children[i]).balanced()
}

/// Accounts for an ask: what it added to the log from `baseline` on, and what
/// other agents took on its behalf.
pub fn account(
    log: &Vec<LogEntry>,
    baseline: usize,
    duration_ms: u64,
    children: &Vec<AnswerMeta>,
) -> (r: AnswerMeta)
    requires
        account_fits(log@, baseline as int, children@),
    ensures
        r.duration_ms == duration_ms,
        r.sum() == plus(
            spent_in_all(log@, baseline as int, log@.len() as int),
            delegated(children@, children@.len() as int),
        ),
        r.tool_calls == tool_ends(log@, baseline as int, log@.len() as int) + delegated_tools(
            children@,
            children@.len() as int,
        ),
        rows(r.tiers) == with_delegated(
            spent(log@, baseline as int, log@.len() as int),
            children@,
            children@.len() as int,
        ),
        lines_named(r.tiers),
        all_balanced(children@, children@.len() as int) ==> r.balanced(),
{
    let ghost own = spent_in_all(log@, baseline as int, log@.len() as int);
    let ghost calls = tool_ends(log@, baseline as int, log@.len() as int);
    let ghost lines = spent(log@, baseline as int, log@.len() as int);
    let ghost k = children@.len() as int;
    proof {
        lemma_delegated_grows(children@, 0, k);
    }
    let mut meta = meta_from_log(log, baseline, duration_ms);
    let mut i: usize = 0;
    while i < children.len()
        invariant
            i <= children@.len(),
            k == children@.len(),
            fits(plus(own, delegated(children@, k))),
            calls + delegated_tools(children@, k) <= u32::MAX,
            lines_fit(with_delegated(lines, children@, k)),
            meta.duration_ms == duration_ms,
            meta.sum() == plus(own, delegated(children@, i as int)),
            meta.tool_calls == calls + delegated_tools(children@, i as int),
            rows(meta.tiers) == with_delegated(lines, children@, i as int),
            lines_named(meta.tiers),
            all_balanced(children@, i as int) ==> meta.balanced(),
        decreases children.len() - i,
    {
        proof {
            lemma_delegated_grows(children@, i + 1, k);
            lemma_lines_grow(lines, children@, i + 1, k);
        }
        meta.merge_child(&children[i]);
        i = i + 1;
    }
    meta
}

/// What an ask concludes with: what its session said, the account of it, and the
/// header under which its trace is stored.
pub open spec fn concludes(
    c: Conclusion,
    name: Seq<char>,
    version: Seq<char>,
    question: Seq<char>,
    parent: Option<Seq<char>>,
    log: Seq<LogEntry>,
    baseline: int,
    trip: Option<LimitTrip>,
    duration_ms: u64,
    children: Seq<AnswerMeta>,
) -> bool {
    let n = log.len() as int;
    let k = children.len() as int;
    &&& (c.status, c.message@, c.extra@) == said(log, baseline, trip)
    &&& c.header.agent_name@ == name
    &&& c.header.agent_version@ == version
    &&& c.header.question@ == question
    &&& c.header.status@ == wire_status(c.status)
    &&& id_view(c.header.depends_on) == parent
    &&& c.metadata.duration_ms == duration_ms
    &&& c.metadata.sum() == plus(spent_in_all(log, baseline, n), delegated(children, k))
    &&& c.metadata.tool_calls == tool_ends(log, baseline, n) + delegated_tools(children, k)
    &&& rows(c.metadata.tiers) == with_delegated(spent(log, baseline, n), children, k)
    &&& lines_named(c.metadata.tiers)
    &&& all_balanced(children, k) ==> c.metadata.balanced()
}

/// Concludes an ask. The session's log holds what the resumed trace held,
/// up to `baseline`, and what this ask added.
pub fn conclude(
    name: &str,
    version: &str,
    question: &str,
    parent: Option<&TraceId>,
    log: &Vec<LogEntry>,
    baseline: usize,
    trip: Option<LimitTrip>,
    duration_ms: u64,
    children: &Vec<AnswerMeta>,
) -> (r: Conclusion)
    requires
        account_fits(log@, baseline as int, children@),
    ensures
        concludes(
            r,
            name@,
            version@,
            question@,
            match parent {
                Some(id) => Some(id@),
                None => None,
            },
            log@,
            baseline as int,
            trip,
            duration_ms,
            children@,
        ),
{
    let (status, message, extra) = match trip {
        Some(t) => (AnswerStatus::Error, t.message(), t.extra()),
        None => {
            let (s, m) = final_answer(log, baseline);
            (s, m, Data::null())
        },
    };
    let metadata = account(log, baseline, duration_ms, children);
    let depends_on = match parent {
        Some(id) => Some(id.copy()),
        None => None,
    };
    let header = TraceHeader {
        agent_name: owned(name),
        agent_version: owned(version),
        question: owned(question),
        status: owned(status_wire(status)),
        depends_on,
    };
    Conclusion { status, message, extra, metadata, header }
}

/// The answer to an ask.
#[derive(Debug)]
pub struct Answer {
    pub status: AnswerStatus,
    pub message: String,
    pub trace_id: TraceId,
    pub metadata: AnswerMeta,
    pub blobs: Vec<BlobHandle>,
    pub extra: Option<Data>,
}

/// The answer that a conclusion comes to, once its trace is stored.
pub open spec fn answers(
    a: Answer,
    c: Conclusion,
    trace_id: TraceId,
    blobs: Vec<BlobHandle>,
) -> bool {
    &&& a.status == c.status
    &&& a.message == c.message
    &&& a.trace_id == trace_id
    &&& a.metadata == c.metadata
    &&& a.blobs == blobs
    &&& match a.extra {
        Some(d) => d == c.extra && d@ != Json::Null,
        None => c.extra@ == Json::Null,
    }
}

impl Conclusion {
    /// The answer once the trace is stored under `trace_id`, with the files
    /// that the ask produced.
    pub fn into_answer(self, trace_id: TraceId, blobs: Vec<BlobHandle>) -> (r: Answer)
        ensures
            answers(r, self, trace_id, blobs),
    {
        let extra = if self.extra.is_null() {
            None
        } else {
            Some(self.extra)
        };
        Answer {
            status: self.status,
            message: self.message,
            trace_id,
            metadata: self.metadata,
            blobs,
            extra,
        }
    }
}

// ----- failures of an ask -----
/// Why an ask could not be carried out. A run that fails is an answer and not
/// an error.
#[derive(Debug)]
pub enum AskError {
    Store(StoreError),
    Scratch(String),
    Blob(BlobError),
}

impl AskError {
    /// The identity of the trace that is not there, where that is the reason.
    pub fn missing_trace(&self) -> (r: Option<&TraceId>)
        ensures
            match r {
                Some(id) => self matches AskError::Store(StoreError::NotFound { id: missing })
                    && missing == *id,
                None => !(self matches AskError::Store(StoreError::NotFound { .. })),
            },
    {
        match self {
            AskError::Store(StoreError::NotFound { id }) => Some(id),
            _ => None,
        }
    }
}

// ----- laws -----
/// A session that crossed a limit is answered with an error that says which,
/// whatever its log holds.
pub proof fn law_crossed_limits_are_errors(log: Seq<LogEntry>, from: int, trip: LimitTrip)
    ensures
        said(log, from, Some(trip)).0 == AnswerStatus::Error,
        said(log, from, Some(trip)).1 == trip_message(trip),
        said(log, from, Some(trip)).2 == trip_extra(trip),
{
}

/// Records after the final answer that are no model output do not change it.
pub proof fn law_bookkeeping_does_not_change_the_answer(
    log: Seq<LogEntry>,
    from: int,
    e: LogEntry,
)
    requires
        !(e.record is ModelOutput),
        last_text(log, from, log.len() as int) is Some,
    ensures
        answer_of(log.push(e), from) == answer_of(log, from),
{
    let more = log.push(e);
    lemma_last_text_prefix(log, more, from, log.len() as int);
    assert(more[more.len() - 1] == e);
}

proof fn lemma_last_text_prefix(a: Seq<LogEntry>, b: Seq<LogEntry>, from: int, n: int)
    requires
        n <= a.len() <= b.len(),
        forall|i: int| 0 <= i < a.len() ==> a[i] == b[i],
    ensures
        last_text(a, from, n) == last_text(b, from, n),
    decreases n,
{
    if n > 0 {
        lemma_last_text_prefix(a, b, from, n - 1);
    }
}

/// A resumed trace never answers for the ask that resumes it: what a session
/// says depends on what the ask added to the log alone.
pub proof fn law_resumed_traces_do_not_answer(
    resumed: Seq<LogEntry>,
    added: Seq<LogEntry>,
    trip: Option<LimitTrip>,
)
    ensures
        said(resumed + added, resumed.len() as int, trip) == said(added, 0, trip),
{
    lemma_added_text(resumed, added, added.len() as int);
    lemma_added_error(resumed, added, added.len() as int);
}

proof fn lemma_added_text(resumed: Seq<LogEntry>, added: Seq<LogEntry>, n: int)
    requires
        0 <= n <= added.len(),
    ensures
        last_text(resumed + added, resumed.len() as int, resumed.len() + n) == last_text(
            added,
            0,
            n,
        ),
    decreases n,
{
    if n > 0 {
        lemma_added_text(resumed, added, n - 1);
        assert((resumed + added)[resumed.len() + n - 1] == added[n - 1]);
    }
}

proof fn lemma_added_error(resumed: Seq<LogEntry>, added: Seq<LogEntry>, n: int)
    requires
        0 <= n <= added.len(),
    ensures
        last_error(resumed + added, resumed.len() as int, resumed.len() + n) == last_error(
            added,
            0,
            n,
        ),
    decreases n,
{
    if n > 0 {
        lemma_added_error(resumed, added, n - 1);
        assert((resumed + added)[resumed.len() + n - 1] == added[n - 1]);
    }
}

proof fn lemma_last_text_at(log: Seq<LogEntry>, from: int, i: int, n: int)
    requires
        0 <= from <= i < n <= log.len(),
        log[i].record matches Record::ModelOutput { tool_calls, .. } && tool_calls@.len() == 0,
        forall|j: int|
            i < j < n ==> ((#[trigger] log[j]).record matches Record::ModelOutput {
                tool_calls,
                ..
            } ==> tool_calls@.len() > 0),
    ensures
        log[i].record matches Record::ModelOutput { text, .. } && last_text(log, from, n) == Some(
            text@,
        ),
    decreases n,
{
    if i < n - 1 {
        lemma_last_text_at(log, from, i, n - 1);
        assert(log[n - 1].record matches Record::ModelOutput { tool_calls, .. } ==> tool_calls@.len()
            > 0);
    }
}

proof fn lemma_no_last_text(log: Seq<LogEntry>, from: int, n: int)
    requires
        0 <= from,
        n <= log.len(),
        forall|j: int|
            from <= j < n ==> ((#[trigger] log[j]).record matches Record::ModelOutput {
                tool_calls,
                ..
            } ==> tool_calls@.len() > 0),
    ensures
        last_text(log, from, n) is None,
    decreases n,
{
    if n > from && n > 0 {
        lemma_no_last_text(log, from, n - 1);
        assert(log[n - 1].record matches Record::ModelOutput { tool_calls, .. } ==> tool_calls@.len()
            > 0);
    }
}

/// The last model output from `from` on that asks for no tool is the answer of
/// the session, to the last character, line breaks and all: whatever stands
/// before it, and whatever comes after it that is no such output.
pub proof fn law_the_last_output_is_the_answer(log: Seq<LogEntry>, from: int, i: int)
    requires
        0 <= from <= i < log.len(),
        log[i].record matches Record::ModelOutput { tool_calls, .. } && tool_calls@.len() == 0,
        forall|j: int|
            i < j < log.len() ==> ((#[trigger] log[j]).record matches Record::ModelOutput {
                tool_calls,
                ..
            } ==> tool_calls@.len() > 0),
    ensures
        log[i].record matches Record::ModelOutput { text, .. } && {
            &&& last_text(log, from, log.len() as int) == Some(text@)
            &&& answer_of(log, from) == (AnswerStatus::Success, text@)
            &&& said(log, from, None) == (AnswerStatus::Success, text@, Json::Null)
        },
{
    lemma_last_text_at(log, from, i, log.len() as int);
}

/// A session without such an output failed, and says so; it adds the last error
/// with which an operation ended, where there is one.
pub proof fn law_no_output_is_no_answer(log: Seq<LogEntry>, from: int)
    requires
        0 <= from,
        forall|j: int|
            from <= j < log.len() ==> ((#[trigger] log[j]).record matches Record::ModelOutput {
                tool_calls,
                ..
            } ==> tool_calls@.len() > 0),
    ensures
        last_text(log, from, log.len() as int) is None,
        answer_of(log, from).0 == AnswerStatus::Error,
        forall|i: int|
            #![trigger log[i]]
            from <= i < log.len() ==> (log[i].record matches Record::OpEnded {
                outcome: Outcome::Error(e),
                ..
            } ==> ((forall|j: int|
                i < j < log.len() ==> !((#[trigger] log[j]).record matches Record::OpEnded {
                    outcome: Outcome::Error(_),
                    ..
                })) ==> answer_of(log, from).1
                == "model did not produce a final answer; last error: "@ + payload_text(e))),
        (forall|j: int|
            from <= j < log.len() ==> !((#[trigger] log[j]).record matches Record::OpEnded {
                outcome: Outcome::Error(_),
                ..
            })) ==> answer_of(log, from).1 == "model did not produce a final answer"@,
{
    lemma_no_last_text(log, from, log.len() as int);
    assert forall|i: int|
        #![trigger log[i]]
        from <= i < log.len() && (log[i].record matches Record::OpEnded {
            outcome: Outcome::Error(_),
            ..
        }) && (forall|j: int|
            i < j < log.len() ==> !((#[trigger] log[j]).record matches Record::OpEnded {
                outcome: Outcome::Error(_),
                ..
            })) implies (log[i].record matches Record::OpEnded { outcome: Outcome::Error(e), .. }
        && answer_of(log, from).1 == "model did not produce a final answer; last error: "@
        + payload_text(e)) by {
        lemma_last_error_at(log, from, i, log.len() as int);
    }
    if forall|j: int|
        from <= j < log.len() ==> !((#[trigger] log[j]).record matches Record::OpEnded {
            outcome: Outcome::Error(_),
            ..
        }) {
        lemma_no_last_error(log, from, log.len() as int);
    }
}

proof fn lemma_last_error_at(log: Seq<LogEntry>, from: int, i: int, n: int)
    requires
        0 <= from <= i < n <= log.len(),
        log[i].record matches Record::OpEnded { outcome: Outcome::Error(_), .. },
        forall|j: int|
            i < j < n ==> !((#[trigger] log[j]).record matches Record::OpEnded {
                outcome: Outcome::Error(_),
                ..
            }),
    ensures
        log[i].record matches Record::OpEnded { outcome: Outcome::Error(e), .. } && last_error(
            log,
            from,
            n,
        ) == Some(payload_text(e)),
    decreases n,
{
    if i < n - 1 {
        lemma_last_error_at(log, from, i, n - 1);
        assert(!(log[n - 1].record matches Record::OpEnded { outcome: Outcome::Error(_), .. }));
    }
}

proof fn lemma_no_last_error(log: Seq<LogEntry>, from: int, n: int)
    requires
        0 <= from,
        n <= log.len(),
        forall|j: int|
            from <= j < n ==> !((#[trigger] log[j]).record matches Record::OpEnded {
                outcome: Outcome::Error(_),
                ..
            }),
    ensures
        last_error(log, from, n) is None,
    decreases n,
{
    if n > from && n > 0 {
        lemma_no_last_error(log, from, n - 1);
        assert(!(log[n - 1].record matches Record::OpEnded { outcome: Outcome::Error(_), .. }));
    }
}

/// The answer that a caller gets of an ask which crossed no limit is the text of
/// its last output that asks for no tool, under the identity that its trace was
/// stored under, with the account and the files of the ask; and the header of
/// the trace tells what was asked, of whom, and that it succeeded.
pub proof fn law_answers_say_what_the_model_said(
    a: Answer,
    c: Conclusion,
    name: Seq<char>,
    version: Seq<char>,
    question: Seq<char>,
    parent: Option<Seq<char>>,
    log: Seq<LogEntry>,
    baseline: int,
    i: int,
    duration_ms: u64,
    children: Seq<AnswerMeta>,
    trace_id: TraceId,
    blobs: Vec<BlobHandle>,
)
    requires
        concludes(
            c,
            name,
            version,
            question,
            parent,
            log,
            baseline,
            None,
            duration_ms,
            children,
        ),
        answers(a, c, trace_id, blobs),
        0 <= baseline <= i < log.len(),
        log[i].record matches Record::ModelOutput { tool_calls, .. } && tool_calls@.len() == 0,
        forall|j: int|
            i < j < log.len() ==> ((#[trigger] log[j]).record matches Record::ModelOutput {
                tool_calls,
                ..
            } ==> tool_calls@.len() > 0),
    ensures
        log[i].record matches Record::ModelOutput { text, .. } && a.message@ == text@,
        a.status == AnswerStatus::Success,
        a.trace_id@ == trace_id@,
        a.blobs@ == blobs@,
        a.extra is None,
        a.metadata == c.metadata,
        a.metadata.duration_ms == duration_ms,
        c.header.status@ == "success"@,
        c.header.question@ == question,
        c.header.agent_name@ == name,
        c.header.agent_version@ == version,
        id_view(c.header.depends_on) == parent,
{
    law_the_last_output_is_the_answer(log, baseline, i);
}

/// An ask that crossed a limit is answered with an error that says which, and
/// its trace is stored as a failed one.
pub proof fn law_tripped_asks_are_stored_as_failed(
    a: Answer,
    c: Conclusion,
    name: Seq<char>,
    version: Seq<char>,
    question: Seq<char>,
    parent: Option<Seq<char>>,
    log: Seq<LogEntry>,
    baseline: int,
    trip: LimitTrip,
    duration_ms: u64,
    children: Seq<AnswerMeta>,
    trace_id: TraceId,
    blobs: Vec<BlobHandle>,
)
    requires
        concludes(
            c,
            name,
            version,
            question,
            parent,
            log,
            baseline,
            Some(trip),
            duration_ms,
            children,
        ),
        answers(a, c, trace_id, blobs),
    ensures
        a.status == AnswerStatus::Error,
        a.message@ == trip_message(trip),
        c.extra@ == trip_extra(trip),
        a.trace_id@ == trace_id@,
        c.header.status@ == "error"@,
{
}

} // verus!
