//! The course of one ask, from its question to its answer: what is to be done
//! next, given what came of the step before.
//!
//! The host loads and stores traces, moves files and runs the model; an
//! [`AskRun`] says which of it comes when, and what the ask ends with. A run
//! that fails is still an answer; only what keeps a trace from being stored is a
//! failure of the ask.
use vstd::prelude::*;

use super::analytics::StoreError;
use super::ask::{
    account_fits, answers, conclude, concludes, finalize_scratch, prepare_scratch, seed_dir,
    timeout_of, turn_timeout, wire_status, working_dir, Answer, AskError, Conclusion, ScratchPlan,
};
use super::blobs::{BlobError, BlobHandle, OUT_DIRNAME};
use super::limits::{
    calls_limited, first_trip, refused_by, trip_message, AgentLimits, LimitKind, LimitState,
    LimitTrip,
};
use super::spend::AnswerMeta;
use crate::json::opt_view;
use crate::paths::{join_path, path_join};
use crate::trace::{id_view, LogEntry, TraceId};

verus! {

/// How far an ask is.
#[derive(Debug)]
pub enum Stage {
    Loading,
    Preparing,
    Placing,
    Running,
    Storing { conclusion: Conclusion },
    Sweeping { conclusion: Conclusion, trace_id: TraceId },
    Keeping { conclusion: Conclusion, trace_id: TraceId, blobs: Vec<BlobHandle> },
    Over,
}

/// What came of a step.
#[derive(Debug)]
pub enum AskEvent {
    /// The trace to resume was loaded; whether there are finished notes of it.
    Loaded(Result<bool, StoreError>),
    /// The directory for notes was made.
    NotesReady(Result<(), String>),
    /// The files that were handed in were put there.
    FilesPlaced(Result<(), BlobError>),
    /// A model is about to be called.
    BeforeCall,
    /// A model call came to its end.
    AfterCall { cost_micro_usd: u64 },
    /// The turn is over. The log holds what the resumed trace held, up to
    /// `baseline`, and what was added.
    TurnEnded {
        log: Vec<LogEntry>,
        baseline: usize,
        timed_out: bool,
        duration_ms: u64,
        children: Vec<AnswerMeta>,
    },
    /// The trace was stored.
    Stored(Result<TraceId, StoreError>),
    /// The files that were produced were collected.
    Swept(Result<Vec<BlobHandle>, BlobError>),
    /// The notes were moved to where they are kept.
    NotesKept(Result<(), String>),
}

/// What is to be done next.
#[derive(Debug)]
pub enum AskAction {
    LoadTrace { id: TraceId },
    PrepareNotes { plan: ScratchPlan },
    PlaceFiles { dir: String },
    /// Run the turn, for at most so many milliseconds; whether model calls have
    /// to be asked about.
    RunTurn { timeout_ms: Option<u64>, limited: bool },
    AllowCall,
    RefuseCall { message: String },
    /// Nothing: the turn goes on.
    GoOn,
    /// Store the trace under the header of the conclusion.
    StoreTrace,
    SweepFiles { dir: String },
    KeepNotes { from: String, to: String },
    Answer { answer: Answer },
    Fail { error: AskError },
    /// The event is not one that was waited for.
    Ignore,
}

/// One ask on its way.
#[derive(Debug)]
pub struct AskRun {
    pub name: String,
    pub version: String,
    pub question: String,
    pub parent: Option<TraceId>,
    pub scratch_root: String,
    /// Tells running asks apart.
    pub label: String,
    pub limits: LimitState,
    pub stage: Stage,
}

impl AskRun {
    /// Where the notes are kept while the ask runs.
    pub open spec fn working(&self) -> Seq<char> {
        working_dir(self.scratch_root@, self.label@)
    }

    /// The limit that the ask is taken to have crossed: the first on record, or
    /// the time where nothing else was crossed before it ran out.
    pub open spec fn trip_at_end(&self, timed_out: bool) -> Option<LimitTrip> {
        match timeout_of(self.limits.limits) {
            Some(ms) => if timed_out {
                first_trip(self.limits.trip, LimitTrip { kind: LimitKind::Timeout, limit: ms })
            } else {
                self.limits.trip
            },
            None => self.limits.trip,
        }
    }
}

/// The same ask, whatever its stage and its limits count.
pub open spec fn same_ask(a: AskRun, b: AskRun) -> bool {
    &&& a.name == b.name
    &&& a.version == b.version
    &&& a.question == b.question
    &&& a.parent == b.parent
    &&& a.scratch_root == b.scratch_root
    &&& a.label == b.label
    &&& a.limits.limits == b.limits.limits
}

/// The notes are prepared as the ask wants them.
pub open spec fn prepares(action: AskAction, run: AskRun, parent_has_notes: bool) -> bool {
    &&& action matches AskAction::PrepareNotes { plan }
    &&& plan.working@ == run.working()
    &&& opt_view(plan.seed) == seed_dir(run.scratch_root@, id_view(run.parent), parent_has_notes)
}

/// The ask is over, and failed for a reason.
pub open spec fn fails(stage: Stage, action: AskAction, why: AskError) -> bool {
    stage is Over && action == AskAction::Fail { error: why }
}

/// What an event leads to.
pub open spec fn steps(run: AskRun, event: AskEvent, next: AskRun, action: AskAction) -> bool {
    &&& same_ask(run, next)
    &&& !(event is BeforeCall) && !(event is AfterCall) ==> next.limits == run.limits
    &&& match (run.stage, event) {
        (Stage::Loading, AskEvent::Loaded(Err(e))) => fails(
            next.stage,
            action,
            AskError::Store(e),
        ),
        (Stage::Loading, AskEvent::Loaded(Ok(has_notes))) => next.stage is Preparing && prepares(
            action,
            run,
            has_notes,
        ),
        (Stage::Preparing, AskEvent::NotesReady(Err(e))) => fails(
            next.stage,
            action,
            AskError::Scratch(e),
        ),
        (Stage::Preparing, AskEvent::NotesReady(Ok(_))) => next.stage is Placing && (
        action matches AskAction::PlaceFiles { dir } && dir@ == run.working()),
        (Stage::Placing, AskEvent::FilesPlaced(Err(e))) => fails(
            next.stage,
            action,
            AskError::Blob(e),
        ),
        (Stage::Placing, AskEvent::FilesPlaced(Ok(_))) => next.stage is Running && action
            == (AskAction::RunTurn {
            timeout_ms: timeout_of(run.limits.limits),
            limited: calls_limited(run.limits.limits),
        }),
        (Stage::Running, AskEvent::BeforeCall) => {
            let call_no = run.limits.model_calls + 1;
            let refusal = refused_by(run.limits.limits, call_no, run.limits.cost_micro_usd as int);
            &&& next.stage is Running
            &&& next.limits.model_calls == call_no
            &&& next.limits.cost_micro_usd == run.limits.cost_micro_usd
            &&& match refusal {
                Some(t) => (action matches AskAction::RefuseCall { message } && message@
                    == trip_message(t)) && next.limits.trip == first_trip(run.limits.trip, t),
                None => action is AllowCall && next.limits.trip == run.limits.trip,
            }
        },
        (Stage::Running, AskEvent::AfterCall { cost_micro_usd }) => {
            &&& next.stage is Running
            &&& action is GoOn
            &&& next.limits == (LimitState {
                cost_micro_usd: vstd::wrapping::u64_specs::wrapping_add(
                    run.limits.cost_micro_usd,
                    cost_micro_usd,
                ),
                ..run.limits
            })
        },
        (
            Stage::Running,
            AskEvent::TurnEnded { log, baseline, timed_out, duration_ms, children },
        ) => {
            &&& action is StoreTrace
            &&& next.stage matches Stage::Storing { conclusion }
            &&& concludes(
                conclusion,
                run.name@,
                run.version@,
                run.question@,
                id_view(run.parent),
                log@,
                baseline as int,
                run.trip_at_end(timed_out),
                duration_ms,
                children@,
            )
        },
        (Stage::Storing { conclusion }, AskEvent::Stored(Err(e))) => fails(
            next.stage,
            action,
            AskError::Store(e),
        ),
        (Stage::Storing { conclusion }, AskEvent::Stored(Ok(id))) => {
            &&& next.stage == (Stage::Sweeping { conclusion, trace_id: id })
            &&& action matches AskAction::SweepFiles { dir }
            &&& dir@ == path_join(run.working(), OUT_DIRNAME@)
        },
        (Stage::Sweeping { conclusion, trace_id }, AskEvent::Swept(Err(e))) => fails(
            next.stage,
            action,
            AskError::Blob(e),
        ),
        (Stage::Sweeping { conclusion, trace_id }, AskEvent::Swept(Ok(blobs))) => {
            &&& next.stage == (Stage::Keeping { conclusion, trace_id, blobs })
            &&& action matches AskAction::KeepNotes { from, to }
            &&& from@ == run.working()
            &&& to@ == path_join(run.scratch_root@, trace_id@)
        },
        (Stage::Keeping { conclusion, trace_id, blobs }, AskEvent::NotesKept(Err(e))) => fails(
            next.stage,
            action,
            AskError::Scratch(e),
        ),
        (Stage::Keeping { conclusion, trace_id, blobs }, AskEvent::NotesKept(Ok(_))) => {
            &&& next.stage is Over
            &&& action matches AskAction::Answer { answer }
            &&& answers(answer, conclusion, trace_id, blobs)
        },
        _ => action is Ignore && next == run,
    }
}

impl AskRun {
    /// Starts an ask: a trace that it resumes is loaded first.
    pub fn start(
        name: String,
        version: String,
        question: String,
        parent: Option<TraceId>,
        scratch_root: String,
        label: String,
        limits: AgentLimits,
    ) -> (r: (AskRun, AskAction))
        ensures
            r.0.name == name,
            r.0.version == version,
            r.0.question == question,
            r.0.parent == parent,
            r.0.scratch_root == scratch_root,
            r.0.label == label,
            r.0.limits == (LimitState { limits, model_calls: 0, cost_micro_usd: 0, trip: None }),
            match parent {
                Some(id) => r.0.stage is Loading && r.1 == (AskAction::LoadTrace { id }),
                None => r.0.stage is Preparing && prepares(r.1, r.0, false),
            },
    {
        let (stage, action) = match &parent {
            Some(id) => (Stage::Loading, AskAction::LoadTrace { id: id.copy() }),
            None => {
                let plan = prepare_scratch(scratch_root.as_str(), label.as_str(), None, false);
                (Stage::Preparing, AskAction::PrepareNotes { plan })
            },
        };
        let run = AskRun {
            name,
            version,
            question,
            parent,
            scratch_root,
            label,
            limits: LimitState::new(limits),
            stage,
        };
        (run, action)
    }

    fn at(self, stage: Stage) -> (r: AskRun)
        ensures
            r == (AskRun { stage, ..self }),
    {
        AskRun {
            name: self.name,
            version: self.version,
            question: self.question,
            parent: self.parent,
            scratch_root: self.scratch_root,
            label: self.label,
            limits: self.limits,
            stage,
        }
    }

    fn fail(self, error: AskError) -> (r: (AskRun, AskAction))
        ensures
            r.0 == (AskRun { stage: Stage::Over, ..self }),
            r.1 == (AskAction::Fail { error }),
    {
        (self.at(Stage::Over), AskAction::Fail { error })
    }

    fn working_path(&self) -> (r: String)
        ensures
            r@ == self.working(),
    {
        prepare_scratch(self.scratch_root.as_str(), self.label.as_str(), None, false).working
    }

    /// What is to be done next, given what came of the step before.
    pub fn step(self, event: AskEvent) -> (r: (AskRun, AskAction))
        requires
            self.stage is Running && event is BeforeCall ==> self.limits.model_calls < u64::MAX,
            event matches AskEvent::TurnEnded { log, baseline, children, .. } ==> account_fits(
                log@,
                baseline as int,
                children@,
            ),
        ensures
            steps(self, event, r.0, r.1),
    {
        let AskRun { name, version, question, parent, scratch_root, label, limits, stage } = self;
        let run = AskRun {
            name,
            version,
            question,
            parent,
            scratch_root,
            label,
            limits,
            stage: Stage::Over,
        };
        match (stage, event) {
            (Stage::Loading, AskEvent::Loaded(Err(e))) => run.fail(AskError::Store(e)),
            (Stage::Loading, AskEvent::Loaded(Ok(has_notes))) => {
                let plan = prepare_scratch(
                    run.scratch_root.as_str(),
                    run.label.as_str(),
                    run.parent.as_ref(),
                    has_notes,
                );
                (run.at(Stage::Preparing), AskAction::PrepareNotes { plan })
            },
            (Stage::Preparing, AskEvent::NotesReady(Err(e))) => run.fail(AskError::Scratch(e)),
            (Stage::Preparing, AskEvent::NotesReady(Ok(_))) => {
                let dir = run.working_path();
                (run.at(Stage::Placing), AskAction::PlaceFiles { dir })
            },
            (Stage::Placing, AskEvent::FilesPlaced(Err(e))) => run.fail(AskError::Blob(e)),
            (Stage::Placing, AskEvent::FilesPlaced(Ok(_))) => {
                let timeout_ms = turn_timeout(&run.limits.limits);
                let limited = run.limits.needs_adapter_wrap();
                (run.at(Stage::Running), AskAction::RunTurn { timeout_ms, limited })
            },
            (Stage::Running, AskEvent::BeforeCall) => {
                let mut run = run;
                let action = match run.limits.check_before_call() {
                    Some(message) => AskAction::RefuseCall { message },
                    None => AskAction::AllowCall,
                };
                (run.at(Stage::Running), action)
            },
            (Stage::Running, AskEvent::AfterCall { cost_micro_usd }) => {
                let mut run = run;
                run.limits.record_cost(cost_micro_usd);
                (run.at(Stage::Running), AskAction::GoOn)
            },
            (
                Stage::Running,
                AskEvent::TurnEnded { log, baseline, timed_out, duration_ms, children },
            ) => {
                let trip = run.crossed(timed_out);
                let conclusion = conclude(
                    run.name.as_str(),
                    run.version.as_str(),
                    run.question.as_str(),
                    run.parent.as_ref(),
                    &log,
                    baseline,
                    trip,
                    duration_ms,
                    &children,
                );
                (run.at(Stage::Storing { conclusion }), AskAction::StoreTrace)
            },
            (Stage::Storing { conclusion: _ }, AskEvent::Stored(Err(e))) => run.fail(
                AskError::Store(e),
            ),
            (Stage::Storing { conclusion }, AskEvent::Stored(Ok(trace_id))) => {
                let dir = join_path(run.working_path().as_str(), OUT_DIRNAME);
                (
                    run.at(Stage::Sweeping { conclusion, trace_id }),
                    AskAction::SweepFiles { dir },
                )
            },
            (Stage::Sweeping { conclusion: _, trace_id: _ }, AskEvent::Swept(Err(e))) => run.fail(
                AskError::Blob(e),
            ),
            (Stage::Sweeping { conclusion, trace_id }, AskEvent::Swept(Ok(blobs))) => {
                let from = run.working_path();
                let to = finalize_scratch(run.scratch_root.as_str(), &trace_id);
                (
                    run.at(Stage::Keeping { conclusion, trace_id, blobs }),
                    AskAction::KeepNotes { from, to },
                )
            },
            (
                Stage::Keeping { conclusion: _, trace_id: _, blobs: _ },
                AskEvent::NotesKept(Err(e)),
            ) => run.fail(AskError::Scratch(e)),
            (Stage::Keeping { conclusion, trace_id, blobs }, AskEvent::NotesKept(Ok(_))) => {
                let answer = conclusion.into_answer(trace_id, blobs);
                (run.at(Stage::Over), AskAction::Answer { answer })
            },
            (stage, _) => (run.at(stage), AskAction::Ignore),
        }
    }

    /// The limit that the ask is taken to have crossed.
    fn crossed(&self, timed_out: bool) -> (r: Option<LimitTrip>)
        ensures
            r == self.trip_at_end(timed_out),
    {
        match turn_timeout(&self.limits.limits) {
            Some(ms) => if timed_out && self.limits.trip.is_none() {
                Some(LimitTrip { kind: LimitKind::Timeout, limit: ms })
            } else {
                self.limits.trip
            },
            None => self.limits.trip,
        }
    }
}

// ----- laws -----
/// The header that a trace is stored under says what was asked, of whom, in
/// continuation of what, and how it ended.
pub open spec fn tells(c: Conclusion, run: AskRun) -> bool {
    &&& c.header.agent_name@ == run.name@
    &&& c.header.agent_version@ == run.version@
    &&& c.header.question@ == run.question@
    &&& id_view(c.header.depends_on) == id_view(run.parent)
    &&& c.header.status@ == wire_status(c.status)
}

/// Whatever the ask has concluded, its header tells.
pub open spec fn consistent(run: AskRun) -> bool {
    match run.stage {
        Stage::Storing { conclusion } => tells(conclusion, run),
        Stage::Sweeping { conclusion, .. } => tells(conclusion, run),
        Stage::Keeping { conclusion, .. } => tells(conclusion, run),
        _ => true,
    }
}

/// From its start to its end an ask is stored under a header that tells what was
/// asked; a resumed trace is what the new one depends on.
pub proof fn law_headers_tell_what_was_asked(
    run: AskRun,
    event: AskEvent,
    next: AskRun,
    action: AskAction,
)
    requires
        consistent(run),
        steps(run, event, next, action),
    ensures
        consistent(next),
{
}

/// An answer is of a trace that was stored: its identity is the one that the
/// store gave, and its status is the one in the header of the trace.
pub proof fn law_answers_are_of_stored_traces(
    run: AskRun,
    event: AskEvent,
    next: AskRun,
    action: AskAction,
)
    requires
        consistent(run),
        steps(run, event, next, action),
    ensures
        action matches AskAction::Answer { answer } ==> {
            &&& run.stage matches Stage::Keeping { conclusion, trace_id, .. }
            &&& answer.trace_id == trace_id
            &&& conclusion.header.status@ == wire_status(answer.status)
            &&& id_view(conclusion.header.depends_on) == id_view(run.parent)
        },
        next.stage matches Stage::Sweeping { trace_id, .. } ==> event == AskEvent::Stored(
            Ok::<TraceId, StoreError>(trace_id),
        ) || next == run,
{
}

/// The action ends the ask.
pub open spec fn ends(action: AskAction) -> bool {
    action is Answer || action is Fail
}

/// An ask ends once: after its answer, or after it failed, nothing is done any
/// more, whatever comes.
pub proof fn law_asks_end_once(
    runs: Seq<AskRun>,
    events: Seq<AskEvent>,
    actions: Seq<AskAction>,
    i: int,
    j: int,
)
    requires
        runs.len() == events.len() + 1,
        actions.len() == events.len(),
        forall|k: int|
            0 <= k < events.len() ==> steps(
                runs[k],
                events[k],
                #[trigger] runs[k + 1],
                actions[k],
            ),
        0 <= i < j < events.len(),
        ends(actions[i]),
    ensures
        runs[j].stage is Over,
        actions[j] is Ignore,
    decreases j - i,
{
    assert(steps(runs[j], events[j], runs[j + 1], actions[j]));
    if j == i + 1 {
        assert(steps(runs[i], events[i], runs[i + 1], actions[i]));
    } else {
        law_asks_end_once(runs, events, actions, i, j - 1);
        assert(steps(runs[j - 1], events[j - 1], runs[j - 1 + 1], actions[j - 1]));
    }
}

/// The notes of an ask are made and kept under its own name while it runs, the files
/// it hands back are looked for in them, and in the end they are moved to where the
/// notes of its trace are kept.
pub proof fn law_notes_follow_the_trace(
    run: AskRun,
    event: AskEvent,
    next: AskRun,
    action: AskAction,
)
    requires
        steps(run, event, next, action),
    ensures
        action matches AskAction::PrepareNotes { plan } ==> plan.working@ == working_dir(
            run.scratch_root@,
            run.label@,
        ),
        action matches AskAction::PlaceFiles { dir } ==> dir@ == working_dir(
            run.scratch_root@,
            run.label@,
        ),
        action matches AskAction::SweepFiles { dir } ==> dir@ == path_join(
            working_dir(run.scratch_root@, run.label@),
            OUT_DIRNAME@,
        ),
        action matches AskAction::KeepNotes { from, to } ==> {
            &&& next.stage matches Stage::Keeping { trace_id, .. }
            &&& to@ == path_join(run.scratch_root@, trace_id@)
            &&& from@ == working_dir(run.scratch_root@, run.label@)
        },
{
}

/// A model call is let through exactly where no limit refuses it, and every call
/// counts, refused or not; what a call cost is added to what the others cost.
pub proof fn law_every_call_is_counted(
    run: AskRun,
    event: AskEvent,
    next: AskRun,
    action: AskAction,
)
    requires
        steps(run, event, next, action),
        run.stage is Running,
    ensures
        event is BeforeCall ==> {
            &&& next.limits.model_calls == run.limits.model_calls + 1
            &&& action is AllowCall || action is RefuseCall
            &&& action is RefuseCall ==> next.limits.trip is Some
            &&& action is AllowCall ==> {
                &&& run.limits.limits.max_model_calls matches Some(m) ==> run.limits.model_calls < m
                &&& run.limits.limits.max_turns matches Some(m) ==> run.limits.model_calls < m
                &&& run.limits.limits.max_cost_micro_usd matches Some(m)
                    ==> run.limits.cost_micro_usd < m
            }
        },
        event matches AskEvent::AfterCall { cost_micro_usd } ==> {
            &&& run.limits.cost_micro_usd + cost_micro_usd <= u64::MAX
                ==> next.limits.cost_micro_usd == run.limits.cost_micro_usd + cost_micro_usd
            &&& next.limits.model_calls == run.limits.model_calls
        },
{
}

} // verus!
