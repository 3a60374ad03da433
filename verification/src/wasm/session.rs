//! A session that a host in a browser drives: what is recorded of it, and what
//! its policy is made of.
//!
//! The host runs the conversation itself: it hands every recorded event to the
//! engine, in order, and hands back the commands that the engine asks for.
use vstd::prelude::*;

use crate::agent::ask::{final_text, last_text};
use crate::definition::{ContextConfig, unsaid_context};
use crate::json::opt_view;
use crate::python_bridge::{json_read, read_json};
use crate::runtime::{budget_of, budget_policy, budget_view, BudgetPolicy};
use crate::schema::ToolSchema;
use crate::text::{cat, chars_of, owned};
use crate::trace::{json_text, payload_text, LogEntry};

verus! {

/// How the conversation is kept within its budget: the same as in a definition.
pub type SessionContextConfig = ContextConfig;

/// What a session is made with.
#[derive(Debug)]
pub struct SessionConfig {
    pub system_prompt: String,
    pub tools: Vec<ToolSchema>,
    pub default_model: Option<String>,
    pub context: Option<SessionContextConfig>,
}

/// What the host decided on a call that needs permission.
#[derive(Debug)]
pub enum Decision {
    Allow,
    Deny { reason: String },
}

/// What happened in a session.
#[derive(Debug)]
pub enum SessionEvent {
    Tick { now: u64 },
    UserInput { content: String, est_tokens: u32 },
    ModelDone {
        op: u64,
        output: serde_json::Value,
        usage: serde_json::Value,
        est_tokens: u32,
    },
    ModelError { op: u64, error: serde_json::Value },
    CapabilityDone { op: u64, result: serde_json::Value, est_tokens: u32 },
    CapabilityError { op: u64, error: serde_json::Value, est_tokens: u32 },
    OpCancelled { op: u64 },
    PermissionDecision { op: u64, decision: Decision, est_tokens: u32 },
    UserAbort,
}

/// How many tokens a text of so many characters is taken to be: one for every
/// four, and never none.
pub open spec fn tokens_for(chars: nat) -> u32 {
    let n = chars as u32;
    let quarter = (if n + 3 > u32::MAX {
        u32::MAX as int
    } else {
        n + 3
    }) / 4;
    if quarter < 1 {
        1u32
    } else {
        quarter as u32
    }
}

/// How many tokens a text is taken to be.
pub fn estimate_tokens(text: &str) -> (r: u32)
    ensures
        r == tokens_for(text@.len()),
{
    let count: usize = chars_of(text).len();
    #[verifier::truncate]
    let n: u32 = count as u32;
    let quarter: u32 = n.saturating_add(3) / 4;
    if quarter < 1 {
        1
    } else {
        quarter
    }
}

/// What the engine of a session is made of: the model that answers, the tools,
/// the prompt where there is one, and the budget where there is one.
#[derive(Debug)]
pub struct SessionPolicy {
    pub selector: String,
    pub tools: Vec<ToolSchema>,
    pub system_prompt: Option<String>,
    pub budget: Option<BudgetPolicy>,
}

/// A session, as far as it is recorded.
#[derive(Debug)]
pub struct AgentSession {
    pub policy: SessionPolicy,
    pub events: Vec<SessionEvent>,
    pub commands: Vec<serde_json::Value>,
    pub resume_baseline: usize,
}

/// The session goes on from another by these events, and nothing else changes.
pub open spec fn goes_on(was: AgentSession, now: AgentSession, events: Seq<SessionEvent>) -> bool {
    &&& now.events@ == was.events@ + events
    &&& now.policy == was.policy
    &&& now.commands == was.commands
    &&& now.resume_baseline == was.resume_baseline
}

/// The time of the first event that tells it, from index `i` on.
pub open spec fn first_tick(events: Seq<SessionEvent>, i: int) -> Option<u64>
    decreases events.len() - i,
{
    if i < 0 || i >= events.len() {
        None
    } else {
        match events[i] {
            SessionEvent::Tick { now } => Some(now),
            _ => first_tick(events, i + 1),
        }
    }
}

impl AgentSession {
    /// A fresh session. Without compaction there is no budget.
    pub fn new(config: SessionConfig) -> (r: AgentSession)
        ensures
            r.policy.selector@ == match config.default_model {
                Some(m) => m@,
                None => "medium"@,
            },
            r.policy.tools == config.tools,
            config.system_prompt@.len() == 0 ==> r.policy.system_prompt is None,
            config.system_prompt@.len() > 0 ==> r.policy.system_prompt == Some(
                config.system_prompt,
            ),
            budget_view(r.policy.budget) == budget_of(
                match config.context {
                    Some(c) => c@,
                    None => unsaid_context(),
                },
                opt_view(config.default_model),
            ),
            r.events@ == Seq::<SessionEvent>::empty(),
            r.commands@ == Seq::<serde_json::Value>::empty(),
            r.resume_baseline == 0,
    {
        let SessionConfig { system_prompt, tools, default_model, context } = config;
        let context = match context {
            Some(c) => c,
            None => ContextConfig::new(),
        };
        let default = match &default_model {
            Some(m) => Some(m.as_str()),
            None => None,
        };
        let budget = budget_policy(&context, default);
        let selector = match default_model {
            Some(m) => m,
            None => owned("medium"),
        };
        let system_prompt = if system_prompt.as_str().is_empty() {
            None
        } else {
            Some(system_prompt)
        };
        AgentSession {
            policy: SessionPolicy { selector, tools, system_prompt, budget },
            events: Vec::new(),
            commands: Vec::new(),
            resume_baseline: 0,
        }
    }

    /// Takes up the history of another session: its events, the commands that
    /// they led to, and the length of its log, below which nothing is new. Only
    /// a session in which nothing has happened can take it up.
    pub fn resume_trace(
        &mut self,
        events: Vec<SessionEvent>,
        commands: Vec<serde_json::Value>,
        log_len: usize,
    ) -> (r: Result<(), String>)
        ensures
            old(self).events@.len() > 0 ==> {
                &&& r matches Err(m) && m@ == "resume_trace must precede the first turn"@
                &&& *final(self) == *old(self)
            },
            old(self).events@.len() == 0 ==> {
                &&& r is Ok
                &&& final(self).events@ == events@
                &&& final(self).commands@ == old(self).commands@ + commands@
                &&& final(self).resume_baseline == log_len
                &&& final(self).policy == old(self).policy
            },
    {
        if self.events.len() > 0 {
            return Err(owned("resume_trace must precede the first turn"));
        }
        self.events = events;
        let mut commands = commands;
        self.commands.append(&mut commands);
        self.resume_baseline = log_len;
        Ok(())
    }

    /// Where the log of this session's own work starts.
    pub fn log_baseline(&self) -> (r: usize)
        ensures
            r == self.resume_baseline,
    {
        self.resume_baseline
    }

    fn submit(&mut self, now: u64, event: SessionEvent)
        ensures
            goes_on(*old(self), *final(self), seq![SessionEvent::Tick { now }, event]),
    {
        self.events.push(SessionEvent::Tick { now });
        self.events.push(event);
        assert(self.events@ =~= old(self).events@ + seq![SessionEvent::Tick { now }, event]);
    }

    /// The user said something.
    pub fn submit_user_input(&mut self, text: String, now: u64)
        ensures
            goes_on(
                *old(self),
                *final(self),
                seq![
                    SessionEvent::Tick { now },
                    SessionEvent::UserInput { content: text, est_tokens: tokens_for(text@.len()) },
                ],
            ),
    {
        let est_tokens: u32 = estimate_tokens(text.as_str());
        self.submit(now, SessionEvent::UserInput { content: text, est_tokens });
    }

    /// A model answered. `output` and `usage` are what came of reading what the
    /// host says of the answer and of its cost as values of the engine, the output
    /// first: where one of them could not be read, nothing is recorded.
    pub fn submit_model_done(
        &mut self,
        op: u64,
        output: Result<serde_json::Value, String>,
        usage: Result<serde_json::Value, String>,
        est_tokens: u32,
        now: u64,
    ) -> (r: Result<(), String>)
        ensures
            match (output, usage) {
                (Ok(output), Ok(usage)) => r is Ok && goes_on(
                    *old(self),
                    *final(self),
                    seq![
                        SessionEvent::Tick { now },
                        SessionEvent::ModelDone { op, output, usage, est_tokens },
                    ],
                ),
                (Ok(_), Err(e)) => *final(self) == *old(self) && (r matches Err(m) && m@
                    == "invalid json: "@ + e@),
                (Err(e), _) => *final(self) == *old(self) && (r matches Err(m) && m@
                    == "invalid json: "@ + e@),
            },
    {
        let output = match output {
            Ok(v) => v,
            Err(e) => return Err(cat("invalid json: ", e.as_str())),
        };
        let usage = match usage {
            Ok(v) => v,
            Err(e) => return Err(cat("invalid json: ", e.as_str())),
        };
        self.submit(now, SessionEvent::ModelDone { op, output, usage, est_tokens });
        Ok(())
    }

    /// A model failed.
    pub fn record_model_error(&mut self, op: u64, error: serde_json::Value, now: u64)
        ensures
            goes_on(
                *old(self),
                *final(self),
                seq![SessionEvent::Tick { now }, SessionEvent::ModelError { op, error }],
            ),
    {
        self.submit(now, SessionEvent::ModelError { op, error });
    }

    /// A model failed, as `error_json` tells. A text that is no JSON is refused
    /// before anything is recorded.
    pub fn submit_model_error(&mut self, op: u64, error_json: &str, now: u64) -> (r: Result<
        (),
        String,
    >)
        ensures
            match json_read(error_json@) {
                Ok(error) => r is Ok && goes_on(
                    *old(self),
                    *final(self),
                    seq![SessionEvent::Tick { now }, SessionEvent::ModelError { op, error }],
                ),
                Err(e) => *final(self) == *old(self) && (r matches Err(m) && m@
                    == "invalid json: "@ + e),
            },
    {
        match read_json(error_json) {
            Ok(error) => {
                self.record_model_error(op, error, now);
                Ok(())
            },
            Err(e) => Err(cat("invalid json: ", e.as_str())),
        }
    }

    /// A capability came to a result.
    pub fn record_capability_done(&mut self, op: u64, result: serde_json::Value, now: u64)
        ensures
            goes_on(
                *old(self),
                *final(self),
                seq![
                    SessionEvent::Tick { now },
                    SessionEvent::CapabilityDone {
                        op,
                        result,
                        est_tokens: tokens_for(payload_text(result).len()),
                    },
                ],
            ),
    {
        let est_tokens: u32 = estimate_tokens(json_text(&result).as_str());
        self.submit(now, SessionEvent::CapabilityDone { op, result, est_tokens });
    }

    /// A capability came to the result `result_json`. A text that is no JSON is
    /// refused before anything is recorded.
    pub fn submit_capability_done(&mut self, op: u64, result_json: &str, now: u64) -> (r: Result<
        (),
        String,
    >)
        ensures
            match json_read(result_json@) {
                Ok(result) => r is Ok && goes_on(
                    *old(self),
                    *final(self),
                    seq![
                        SessionEvent::Tick { now },
                        SessionEvent::CapabilityDone {
                            op,
                            result,
                            est_tokens: tokens_for(payload_text(result).len()),
                        },
                    ],
                ),
                Err(e) => *final(self) == *old(self) && (r matches Err(m) && m@
                    == "invalid json: "@ + e),
            },
    {
        match read_json(result_json) {
            Ok(result) => {
                self.record_capability_done(op, result, now);
                Ok(())
            },
            Err(e) => Err(cat("invalid json: ", e.as_str())),
        }
    }

    /// A capability failed.
    pub fn record_capability_error(&mut self, op: u64, error: serde_json::Value, now: u64)
        ensures
            goes_on(
                *old(self),
                *final(self),
                seq![
                    SessionEvent::Tick { now },
                    SessionEvent::CapabilityError {
                        op,
                        error,
                        est_tokens: tokens_for(payload_text(error).len()),
                    },
                ],
            ),
    {
        let est_tokens: u32 = estimate_tokens(json_text(&error).as_str());
        self.submit(now, SessionEvent::CapabilityError { op, error, est_tokens });
    }

    /// A capability failed, as `error_json` tells. A text that is no JSON is
    /// refused before anything is recorded.
    pub fn submit_capability_error(&mut self, op: u64, error_json: &str, now: u64) -> (r: Result<
        (),
        String,
    >)
        ensures
            match json_read(error_json@) {
                Ok(error) => r is Ok && goes_on(
                    *old(self),
                    *final(self),
                    seq![
                        SessionEvent::Tick { now },
                        SessionEvent::CapabilityError {
                            op,
                            error,
                            est_tokens: tokens_for(payload_text(error).len()),
                        },
                    ],
                ),
                Err(e) => *final(self) == *old(self) && (r matches Err(m) && m@
                    == "invalid json: "@ + e),
            },
    {
        match read_json(error_json) {
            Ok(error) => {
                self.record_capability_error(op, error, now);
                Ok(())
            },
            Err(e) => Err(cat("invalid json: ", e.as_str())),
        }
    }

    /// An operation was called off.
    pub fn submit_op_cancelled(&mut self, op: u64, now: u64)
        ensures
            goes_on(
                *old(self),
                *final(self),
                seq![SessionEvent::Tick { now }, SessionEvent::OpCancelled { op }],
            ),
    {
        self.submit(now, SessionEvent::OpCancelled { op });
    }

    /// The host decided on a call that needs permission.
    pub fn submit_permission_decision(
        &mut self,
        op: u64,
        allow: bool,
        reason: Option<String>,
        now: u64,
    )
        ensures
            exists|decision: Decision| #[trigger]
                decided(decision, allow, opt_view(reason)) && goes_on(
                    *old(self),
                    *final(self),
                    seq![
                        SessionEvent::Tick { now },
                        SessionEvent::PermissionDecision { op, decision, est_tokens: 8 },
                    ],
                ),
    {
        let decision = if allow {
            Decision::Allow
        } else {
            let reason = match reason {
                Some(r) => r,
                None => owned("denied by host"),
            };
            Decision::Deny { reason }
        };
        assert(decided(decision, allow, opt_view(reason)));
        self.submit(now, SessionEvent::PermissionDecision { op, decision, est_tokens: 8 });
    }

    /// The user gave up.
    pub fn abort(&mut self, now: u64)
        ensures
            goes_on(
                *old(self),
                *final(self),
                seq![SessionEvent::Tick { now }, SessionEvent::UserAbort],
            ),
    {
        self.submit(now, SessionEvent::UserAbort);
    }

    /// Records the commands that the engine asked for.
    pub fn poll_commands(&mut self, commands: Vec<serde_json::Value>)
        ensures
            final(self).commands@ == old(self).commands@ + commands@,
            final(self).events == old(self).events,
            final(self).policy == old(self).policy,
            final(self).resume_baseline == old(self).resume_baseline,
    {
        let mut commands = commands;
        self.commands.append(&mut commands);
    }

    /// When the session began: the first time that it was told.
    pub fn created_at(&self) -> (r: Option<u64>)
        ensures
            r == first_tick(self.events@, 0),
    {
        let mut i: usize = 0;
        while i < self.events.len()
            invariant
                i <= self.events@.len(),
                first_tick(self.events@, 0) == first_tick(self.events@, i as int),
            decreases self.events.len() - i,
        {
            if let SessionEvent::Tick { now } = &self.events[i] {
                return Some(*now);
            }
            i = i + 1;
        }
        None
    }
}

/// What a decision says: a refusal without a reason has one of its own.
pub open spec fn decided(decision: Decision, allow: bool, reason: Option<Seq<char>>) -> bool {
    match decision {
        Decision::Allow => allow,
        Decision::Deny { reason: why } => !allow && why@ == match reason {
            Some(r) => r,
            None => "denied by host"@,
        },
    }
}

impl AgentSession {
    /// The last thing that was said in the log of a session, or nothing.
    pub fn final_text(log: &Vec<LogEntry>) -> (r: String)
        ensures
            r@ == match last_text(log@, 0, log@.len() as int) {
                Some(t) => t,
                None => ""@,
            },
    {
        match final_text(log, 0) {
            Some(t) => t,
            None => owned(""),
        }
    }
}

proof fn lemma_first_tick(before: Seq<SessionEvent>, more: Seq<SessionEvent>, i: int)
    requires
        0 <= i,
        first_tick(before, i) is Some,
    ensures
        first_tick(before + more, i) == first_tick(before, i),
    decreases before.len() - i,
{
    if i < before.len() {
        assert((before + more)[i] == before[i]);
        if !(before[i] is Tick) {
            lemma_first_tick(before, more, i + 1);
        }
    }
}

/// When a session began does not change with what happens in it later.
pub proof fn law_sessions_begin_once(
    was: AgentSession,
    now: AgentSession,
    events: Seq<SessionEvent>,
)
    requires
        goes_on(was, now, events),
        first_tick(was.events@, 0) is Some,
    ensures
        first_tick(now.events@, 0) == first_tick(was.events@, 0),
{
    lemma_first_tick(was.events@, events, 0);
}

/// Every turn of a session tells its time first, so a session in which anything
/// has happened has a beginning.
pub proof fn law_turns_are_timed(
    was: AgentSession,
    now: AgentSession,
    at: u64,
    event: SessionEvent,
)
    requires
        goes_on(was, now, seq![SessionEvent::Tick { now: at }, event]),
        was.events@.len() == 0,
    ensures
        first_tick(now.events@, 0) == Some(at),
{
    assert(now.events@[0] == SessionEvent::Tick { now: at });
}

/// A text is taken to be a quarter as many tokens as it has characters, rounded up,
/// and never none.
pub proof fn law_four_characters_make_a_token(chars: nat)
    requires
        chars <= 0xffff_fffc,
    ensures
        tokens_for(chars) >= 1,
        chars > 0 ==> 4 * (tokens_for(chars) - 1) < chars <= 4 * tokens_for(chars),
        chars == 0 ==> tokens_for(chars) == 1,
{
}

} // verus!
