use huggr::agent::agent_tool::{depth_exceeded, AgentTool, AgentToolSpec};
use huggr::agent::analytics::{
    duration_stats, filter_heads, percentile, StatsOptions, StoreError, TraceHead,
};
use huggr::agent::ask::{
    account, conclude, final_answer, final_text, finalize_scratch, missing_final_answer_message,
    prepare_scratch, status_wire, turn_timeout, AnswerStatus, AskError,
};
use huggr::agent::blobs::{
    guess_media, inbound_name, load_bytes, mode_bits, sanitize_name, sweep_outbound, BlobError,
    BlobHandle, BlobPerms, BlobRef, Source, Swept,
};
use huggr::agent::card::{Agent, CapabilityCard, TierPrice, ToolPrivilege};
use huggr::agent::collect::{
    baseline_len, collect_stats, list_traces_with_feedback, AnalyticsError, StoredAsk,
};
use huggr::agent::limits::{AgentLimits, LimitKind, LimitState, LimitTrip};
use huggr::agent::run::{AskAction, AskEvent, AskRun, Stage};
use huggr::agent::scratch::{scratch_list, scratch_read, write_request, written, ScratchDir};
use huggr::agent::skills::{
    discover_skills, frontmatter, skill_read, skills_prompt, Frontmatter, ParsedFrontmatter,
    SkillError,
};
use huggr::agent::spend::{meta_from_log, AnswerMeta};
use huggr::json::{Data, Members};
use huggr::schema::ToolSchema;
use huggr::tools::disk::{DirEntry, Disk, Fault, Kind, Link, Node};
use huggr::trace::{LogEntry, OpMeta, Outcome, Record, Trace, TraceId, Usage};

fn obj(pairs: Vec<(&str, Data)>) -> Data {
    let mut m = Members::new();
    for (k, v) in pairs {
        m = m.with(k, v);
    }
    m.object()
}

fn entry(seq: u64, record: Record) -> LogEntry {
    LogEntry { seq, record }
}

fn said(seq: u64, text: &str) -> LogEntry {
    entry(seq, Record::ModelOutput { op: seq, text: text.to_string(), tool_calls: Vec::new() })
}

fn model_call(seq: u64, op: u64, tier: &str, tokens: (u64, u64), cost: u64, ms: u64) -> LogEntry {
    entry(
        seq,
        Record::OpEnded {
            op,
            outcome: Outcome::Success,
            meta: OpMeta {
                started_at: 0,
                ended_at: ms,
                model: Some(tier.to_string()),
                usage: Some(Usage { input_tokens: tokens.0, output_tokens: tokens.1 }),
                cost_micro_usd: cost,
            },
        },
    )
}

fn tool_end(seq: u64, op: u64, ms: u64) -> LogEntry {
    entry(
        seq,
        Record::OpEnded {
            op,
            outcome: Outcome::Success,
            meta: OpMeta {
                started_at: 0,
                ended_at: ms,
                model: None,
                usage: None,
                cost_micro_usd: 0,
            },
        },
    )
}

// ----- answers -----

#[test]
fn the_last_text_without_tool_calls_is_the_answer() {
    let log = vec![said(0, "first"), said(1, "second")];
    assert_eq!(final_text(&log, 0), Some("second".to_string()));
    assert_eq!(final_answer(&log, 0), (AnswerStatus::Success, "second".to_string()));
    let silent: Vec<LogEntry> = vec![entry(0, Record::UserMessage { text: "q".to_string() })];
    assert_eq!(final_text(&silent, 0), None);
    let (status, message) = final_answer(&silent, 0);
    assert_eq!(status, AnswerStatus::Error);
    assert_eq!(message, missing_final_answer_message(&silent, 0));
    assert_eq!(status_wire(AnswerStatus::Success), "success");
    assert_eq!(status_wire(AnswerStatus::Error), "error");
}

#[test]
fn a_crossed_limit_is_an_error_whatever_was_said() {
    let log = vec![said(0, "done"), model_call(1, 1, "medium", (10, 5), 7, 3)];
    let none: Vec<AnswerMeta> = Vec::new();
    let fine = conclude("a", "1", "q", None, &log, 0, None, 40, &none);
    assert_eq!(fine.status, AnswerStatus::Success);
    assert_eq!(fine.message, "done");
    assert_eq!(fine.metadata.cost_micro_usd, 7);
    assert_eq!(fine.metadata.duration_ms, 40);
    assert_eq!(fine.header.status, "success");
    let trip = LimitTrip { kind: LimitKind::MaxModelCalls, limit: 1 };
    let stopped = conclude("a", "1", "q", Some(&TraceId::new("p")), &log, 0, Some(trip), 40, &none);
    assert_eq!(stopped.status, AnswerStatus::Error);
    assert_eq!(stopped.header.depends_on.unwrap().as_str(), "p");
    assert_eq!(stopped.header.status, "error");
}

#[test]
fn failed_resume_does_not_return_the_parent_answer() {
    let log = vec![
        said(0, "parent answer"),
        entry(
            1,
            Record::OpEnded {
                op: 2,
                outcome: Outcome::Error(serde_json::from_str("\"out of replies\"").unwrap()),
                meta: OpMeta {
                    started_at: 0,
                    ended_at: 1,
                    model: Some("medium".to_string()),
                    usage: None,
                    cost_micro_usd: 0,
                },
            },
        ),
    ];
    let none: Vec<AnswerMeta> = Vec::new();
    let parent = TraceId::new("p");
    let resumed = conclude("a", "1", "follow-up", Some(&parent), &log, 1, None, 4, &none);
    assert_eq!(resumed.status, AnswerStatus::Error);
    assert_eq!(
        resumed.message,
        "model did not produce a final answer; last error: \"out of replies\""
    );
}

#[test]
fn parent_delegates_to_child_and_folds_cost() {
    let parent = vec![
        model_call(0, 1, "medium", (7, 3), 29, 5),
        tool_end(1, 2, 4),
        model_call(2, 3, "medium", (7, 3), 29, 5),
        said(3, "parent done"),
    ];
    let own = meta_from_log(&parent, 0, 9);
    assert_eq!(own.cost_micro_usd, 58);
    let child = meta_from_log(&vec![model_call(0, 1, "medium", (5, 2), 20, 2)], 0, 2);
    assert_eq!(child.cost_micro_usd, 20);
    let spec = AgentToolSpec::new("agent_child", "answers child questions");
    let mut tool = AgentTool::new(&spec);
    assert!(!tool.requires_permission());
    assert_eq!(tool.schema().name, "agent_child");
    let reply = tool.invoke(Ok((child, obj(vec![("status", Data::string("success"))]))));
    assert_eq!(reply.unwrap().get_str("status"), Some("success"));
    let failed = tool.invoke(Err("boom".to_string())).unwrap_err();
    assert_eq!(failed.get_str("error"), Some("boom"));
    assert_eq!(tool.spend.len(), 1);
    let all = account(&parent, 0, 9, &tool.spend);
    assert_eq!(all.cost_micro_usd, 78, "child cost must fold in");
    assert_eq!(all.tokens_in, 19);
    assert_eq!(all.tokens_out, 8);
    assert_eq!(all.model_calls, 3);
    assert_eq!(all.tool_calls, 1);
    assert_eq!(all.tiers.len(), 1);
    assert_eq!(all.tiers.get("medium").unwrap().cost_micro_usd, 78);
    assert_eq!(final_answer(&parent, 0), (AnswerStatus::Success, "parent done".to_string()));
    assert_eq!(
        AgentTool::invalid_ask("no question").get_str("error"),
        Some("invalid ask for agent tool: no question")
    );
    assert!(depth_exceeded("c").contains("agent_depth_exceeded"));
}

#[test]
fn pricing_cost_is_folded_from_only_the_new_trace_slice() {
    let root = vec![model_call(0, 1, "medium", (7, 3), 29, 5), said(1, "root")];
    let child = vec![
        model_call(0, 1, "medium", (7, 3), 29, 5),
        said(1, "root"),
        model_call(2, 2, "medium", (7, 3), 29, 5),
        said(3, "child"),
    ];
    for (log, baseline) in [(&root, 0), (&child, 2)] {
        let meta = meta_from_log(log, baseline, 0);
        assert_eq!(meta.cost_micro_usd, 29);
        assert_eq!(meta.tokens_in, 7);
        assert_eq!(meta.tokens_out, 3);
        assert_eq!(meta.model_calls, 1);
    }
    assert_eq!(meta_from_log(&child, 0, 0).cost_micro_usd, 58);
}

#[test]
fn scratch_directories_follow_the_lineage() {
    let fresh = prepare_scratch("/s", "a1", None, false);
    assert!(fresh.seed.is_none());
    let parent = TraceId::new("t0");
    let forked = prepare_scratch("/s", "a2", Some(&parent), true);
    assert_eq!(forked.seed, Some(finalize_scratch("/s", &parent)));
    assert_ne!(fresh.working, forked.working);
    assert!(prepare_scratch("/s", "a3", Some(&parent), false).seed.is_none());
}

#[test]
fn missing_parents_are_told_apart() {
    let err = AskError::Store(StoreError::NotFound { id: TraceId::new("gone") });
    assert_eq!(err.missing_trace().unwrap().as_str(), "gone");
    assert!(AskError::Store(StoreError::Failed("disk".to_string())).missing_trace().is_none());
    assert!(AskError::Scratch("no".to_string()).missing_trace().is_none());
}

// ----- limits -----

#[test]
fn max_model_calls_trips_cleanly() {
    let mut state = LimitState::new(AgentLimits::new().with_max_model_calls(2));
    assert!(state.needs_adapter_wrap());
    assert!(state.check_before_call().is_none());
    assert!(state.check_before_call().is_none());
    let refused = state.check_before_call().unwrap();
    let trip = state.trip.as_ref().unwrap();
    assert_eq!(trip.kind, LimitKind::MaxModelCalls);
    assert_eq!(trip.limit, 2);
    assert_eq!(refused, trip.message());
    assert!(state.check_before_call().is_some());
}

#[test]
fn max_turns_trips_cleanly() {
    let mut state = LimitState::new(AgentLimits::new().with_max_turns(1));
    assert!(state.check_before_call().is_none());
    assert!(state.check_before_call().is_some());
    assert_eq!(state.trip.as_ref().unwrap().kind, LimitKind::MaxTurns);
}

#[test]
fn max_cost_trips_after_the_running_total_crosses_the_bound() {
    let mut state = LimitState::new(AgentLimits::new().with_max_cost_micro_usd(40));
    assert!(state.check_before_call().is_none());
    state.record_cost(29);
    assert!(state.check_before_call().is_none());
    state.record_cost(29);
    assert!(state.check_before_call().is_some());
    let trip = state.trip.as_ref().unwrap();
    assert_eq!(trip.kind, LimitKind::MaxCostMicroUsd);
    let extra = trip.extra();
    let exceeded = extra.get("limit_exceeded").unwrap();
    assert_eq!(exceeded.get_str("limit"), Some("max_cost_micro_usd"));
    assert_eq!(exceeded.get_u64("value"), Some(40));
}

#[test]
fn timeouts_trip() {
    let limits = AgentLimits::new().with_timeout_ms(250);
    assert_eq!(turn_timeout(&limits), Some(250));
    let mut state = LimitState::new(limits);
    state.record_timeout(250);
    let trip = state.trip.as_ref().unwrap();
    assert_eq!(trip.kind, LimitKind::Timeout);
    let extra = trip.extra();
    let exceeded = extra.get("limit_exceeded").unwrap();
    assert_eq!(exceeded.get_str("limit"), Some("timeout_ms"));
    assert_eq!(exceeded.get_u64("value"), Some(250));
}

#[test]
fn no_limits_leaves_behavior_unchanged() {
    let mut state = LimitState::new(AgentLimits::new());
    assert!(!state.needs_adapter_wrap());
    for _ in 0..100 {
        state.record_cost(1_000_000);
        assert!(state.check_before_call().is_none());
    }
    assert_eq!(turn_timeout(&AgentLimits::new()), None);
}

// ----- the course of an ask -----

fn started(parent: Option<&str>, limits: AgentLimits) -> (AskRun, AskAction) {
    AskRun::start(
        "test-agent".to_string(),
        "0.1.0".to_string(),
        "Capital of France?".to_string(),
        parent.map(TraceId::new),
        "/s".to_string(),
        "7-0".to_string(),
        limits,
    )
}

fn running(parent: Option<&str>, limits: AgentLimits) -> AskRun {
    let (mut run, _) = started(parent, limits);
    if parent.is_some() {
        run = run.step(AskEvent::Loaded(Ok(false))).0;
    }
    run = run.step(AskEvent::NotesReady(Ok(()))).0;
    run.step(AskEvent::FilesPlaced(Ok(()))).0
}

fn ended(log: Vec<LogEntry>, baseline: usize, timed_out: bool) -> AskEvent {
    AskEvent::TurnEnded { log, baseline, timed_out, duration_ms: 9, children: Vec::new() }
}

fn finish(run: AskRun, event: AskEvent) -> huggr::agent::ask::Answer {
    let (run, action) = run.step(event);
    assert!(matches!(action, AskAction::StoreTrace));
    let (run, action) = run.step(AskEvent::Stored(Ok(TraceId::new("t1"))));
    assert!(matches!(action, AskAction::SweepFiles { dir } if dir == "/s/.pending/7-0/out"));
    let (run, action) = run.step(AskEvent::Swept(Ok(Vec::new())));
    assert!(matches!(
        action,
        AskAction::KeepNotes { from, to } if from == "/s/.pending/7-0" && to == "/s/t1"
    ));
    let (run, action) = run.step(AskEvent::NotesKept(Ok(())));
    let AskAction::Answer { answer } = action else { panic!("no answer") };
    assert!(matches!(run.step(AskEvent::NotesKept(Ok(()))).1, AskAction::Ignore));
    answer
}

/// A trace in a store: its identity, what it depends on, how it ended, and what
/// was said in it.
#[derive(Clone, Debug, PartialEq)]
struct Shelved {
    id: String,
    depends_on: Option<String>,
    status: String,
    said: Vec<String>,
}

fn log_of(said_before: &[String]) -> Vec<LogEntry> {
    said_before.iter().enumerate().map(|(i, text)| said(i as u64, text)).collect()
}

fn ask_stored(store: &mut Vec<Shelved>, parent: Option<&str>, reply: Option<&str>) -> (
    String,
    huggr::agent::ask::Answer,
) {
    let run = running(parent, AgentLimits::new());
    let before = match parent {
        Some(p) => store.iter().find(|t| t.id == p).unwrap().said.clone(),
        None => Vec::new(),
    };
    let mut log = log_of(&before);
    let baseline = log.len();
    let mut spoken = before;
    let n = baseline as u64;
    match reply {
        Some(text) => {
            log.push(said(n, text));
            spoken.push(text.to_string());
        },
        None => log.push(entry(
            n,
            Record::OpEnded {
                op: n,
                outcome: Outcome::Error(serde_json::from_str("\"no model\"").unwrap()),
                meta: OpMeta {
                    started_at: 0,
                    ended_at: 1,
                    model: Some("medium".to_string()),
                    usage: None,
                    cost_micro_usd: 0,
                },
            },
        )),
    }
    let (run, action) = run.step(ended(log, baseline, false));
    assert!(matches!(action, AskAction::StoreTrace));
    let Stage::Storing { conclusion } = &run.stage else { panic!("nothing to store") };
    let id = format!("trace-{}", store.len());
    store.push(Shelved {
        id: id.clone(),
        depends_on: conclusion.header.depends_on.as_ref().map(|d| d.as_str().to_string()),
        status: conclusion.header.status.clone(),
        said: spoken,
    });
    let run = run.step(AskEvent::Stored(Ok(TraceId::new(&id)))).0;
    let run = run.step(AskEvent::Swept(Ok(Vec::new()))).0;
    let (_, action) = run.step(AskEvent::NotesKept(Ok(())));
    let AskAction::Answer { answer } = action else { panic!("no answer") };
    (id, answer)
}

#[test]
fn three_way_fork_root_t1_t2a_t2b() {
    let mut store = Vec::new();
    let (root, _) = ask_stored(&mut store, None, Some("root-answer"));
    let (t1, _) = ask_stored(&mut store, Some(&root), Some("t1-answer"));
    let (t2a, a) = ask_stored(&mut store, Some(&t1), Some("t2a-answer"));
    let after_first_fork = store[1].clone();
    let (t2b, b) = ask_stored(&mut store, Some(&t1), Some("t2b-answer"));
    let ids = [&root, &t1, &t2a, &t2b];
    for (i, x) in ids.iter().enumerate() {
        for y in ids.iter().skip(i + 1) {
            assert_ne!(x, y, "all four fork traces are distinct");
        }
    }
    let depends: Vec<Option<String>> = store.iter().map(|t| t.depends_on.clone()).collect();
    assert_eq!(depends, vec![None, Some(root), Some(t1.clone()), Some(t1)]);
    assert_eq!(after_first_fork, store[1], "sibling forks never contend on the shared parent");
    assert_eq!(store.len(), 4);
    assert_eq!(a.message, "t2a-answer");
    assert_eq!(b.message, "t2b-answer");
    assert_eq!(store[3].said, vec!["root-answer", "t1-answer", "t2b-answer"]);
}

#[test]
fn follow_up_writes_a_child_and_leaves_the_parent_untouched() {
    let mut store = Vec::new();
    let (root, first) = ask_stored(&mut store, None, Some("Paris."));
    let before = store[0].clone();
    let (child, answer) = ask_stored(&mut store, Some(&root), Some("About 2.1 million."));
    assert_ne!(child, root, "follow-up is a NEW trace");
    assert_eq!(before, store[0], "resume must never mutate the parent");
    assert_eq!(store[1].depends_on, Some(root));
    assert_eq!(first.message, "Paris.");
    assert_eq!(answer.message, "About 2.1 million.");
}

#[test]
fn a_failed_follow_up_is_stored_as_failed() {
    let mut store = Vec::new();
    let (root, _) = ask_stored(&mut store, None, Some("parent answer"));
    let (_, answer) = ask_stored(&mut store, Some(&root), None);
    assert_eq!(answer.status, AnswerStatus::Error);
    assert_eq!(
        answer.message,
        "model did not produce a final answer; last error: \"no model\""
    );
    assert_eq!(store[1].status, "error");
    assert_eq!(store[1].depends_on, Some(root));
    assert_eq!(store[0].status, "success");
}

#[test]
fn an_ask_is_billed_for_itself_and_those_it_asked() {
    let child = meta_from_log(&vec![model_call(0, 1, "medium", (5, 2), 20, 3)], 0, 3);
    let log = vec![
        model_call(0, 1, "medium", (1000, 1000), 1000, 3),
        model_call(1, 2, "medium", (7, 3), 29, 3),
        model_call(2, 3, "medium", (7, 3), 29, 3),
        said(3, "parent done"),
    ];
    let event = AskEvent::TurnEnded {
        log,
        baseline: 1,
        timed_out: false,
        duration_ms: 9,
        children: vec![child],
    };
    let answer = finish(running(Some("p"), AgentLimits::new()), event);
    assert_eq!(answer.metadata.cost_micro_usd, 78, "child cost must fold in");
    assert_eq!(answer.metadata.tokens_in, 19);
    assert_eq!(answer.metadata.tokens_out, 8);
    assert_eq!(answer.metadata.model_calls, 3);
    let line = answer.metadata.tiers.get("medium").unwrap();
    assert_eq!((line.selector.as_str(), line.model_calls), ("medium", 3));
}

#[test]
fn fresh_ask_persists_a_root_trace() {
    let (run, action) = started(None, AgentLimits::new());
    assert!(matches!(
        action,
        AskAction::PrepareNotes { plan } if plan.working == "/s/.pending/7-0" && plan.seed.is_none()
    ));
    let (run, action) = run.step(AskEvent::NotesReady(Ok(())));
    assert!(matches!(action, AskAction::PlaceFiles { dir } if dir == "/s/.pending/7-0"));
    let (run, action) = run.step(AskEvent::FilesPlaced(Ok(())));
    assert!(matches!(action, AskAction::RunTurn { timeout_ms: None, limited: false }));
    let log = vec![model_call(0, 1, "medium", (7, 3), 0, 5), said(1, "Paris.")];
    let answer = finish(run, ended(log, 0, false));
    assert_eq!(answer.status, AnswerStatus::Success);
    assert_eq!(answer.message, "Paris.");
    assert_eq!(answer.trace_id.as_str(), "t1");
    assert_eq!(answer.metadata.model_calls, 1);
    assert_eq!(answer.metadata.tokens_in, 7);
    assert_eq!(answer.metadata.tokens_out, 3);
    assert!(answer.extra.is_none());
}

#[test]
fn missing_parent_is_an_infrastructure_error() {
    let (run, action) = started(Some("does-not-exist"), AgentLimits::new());
    assert!(matches!(action, AskAction::LoadTrace { id } if id.as_str() == "does-not-exist"));
    let missing = StoreError::NotFound { id: TraceId::new("does-not-exist") };
    let (_, action) = run.step(AskEvent::Loaded(Err(missing)));
    let AskAction::Fail { error } = action else { panic!("no failure") };
    assert!(error.missing_trace().is_some(), "unknown parent → AskError");
}

#[test]
fn follow_ups_start_from_the_notes_of_their_parent() {
    let (run, _) = started(Some("p"), AgentLimits::new());
    let (_, action) = run.step(AskEvent::Loaded(Ok(true)));
    assert!(matches!(
        action,
        AskAction::PrepareNotes { plan } if plan.seed == Some("/s/p".to_string())
    ));
}

#[test]
fn refused_calls_and_timeouts_end_in_error_answers() {
    let run = running(None, AgentLimits::new().with_max_model_calls(1));
    let (run, action) = run.step(AskEvent::BeforeCall);
    assert!(matches!(action, AskAction::AllowCall));
    let (run, action) = run.step(AskEvent::AfterCall { cost_micro_usd: 3 });
    assert!(matches!(action, AskAction::GoOn));
    let (run, action) = run.step(AskEvent::BeforeCall);
    assert!(matches!(action, AskAction::RefuseCall { .. }));
    let answer = finish(run, ended(vec![said(0, "too late")], 0, false));
    assert_eq!(answer.status, AnswerStatus::Error);
    let reason = answer.extra.unwrap();
    assert_eq!(
        reason.get("limit_exceeded").unwrap().get_str("limit"),
        Some("max_model_calls")
    );

    let run = running(None, AgentLimits::new().with_timeout_ms(50));
    let answer = finish(run, ended(Vec::new(), 0, true));
    assert_eq!(answer.status, AnswerStatus::Error);
    let reason = answer.extra.unwrap();
    let exceeded = reason.get("limit_exceeded").unwrap();
    assert_eq!(exceeded.get_str("limit"), Some("timeout_ms"));
    assert_eq!(exceeded.get_u64("value"), Some(50));
}

#[test]
fn every_step_can_fail() {
    let fail = |run: AskRun, event: AskEvent| match run.step(event).1 {
        AskAction::Fail { error } => error,
        other => panic!("unexpected: {other:?}"),
    };
    let (run, _) = started(None, AgentLimits::new());
    assert!(matches!(
        fail(run, AskEvent::NotesReady(Err("full".to_string()))),
        AskError::Scratch(e) if e == "full"
    ));
    let run = started(None, AgentLimits::new()).0.step(AskEvent::NotesReady(Ok(()))).0;
    let bad = BlobError::BadName { name: "..".to_string() };
    assert!(matches!(fail(run, AskEvent::FilesPlaced(Err(bad))), AskError::Blob(_)));
    let stored = || running(Some("p"), AgentLimits::new()).step(ended(Vec::new(), 0, false)).0;
    let broken = StoreError::Failed("disk".to_string());
    assert!(matches!(fail(stored(), AskEvent::Stored(Err(broken))), AskError::Store(_)));
    let swept = || stored().step(AskEvent::Stored(Ok(TraceId::new("t")))).0;
    let lost = BlobError::Io("gone".to_string());
    assert!(matches!(fail(swept(), AskEvent::Swept(Err(lost))), AskError::Blob(_)));
    let kept = swept().step(AskEvent::Swept(Ok(Vec::new()))).0;
    assert!(matches!(
        fail(kept, AskEvent::NotesKept(Err("busy".to_string()))),
        AskError::Scratch(_)
    ));
    let (run, _) = started(None, AgentLimits::new());
    assert!(matches!(run.step(AskEvent::BeforeCall).1, AskAction::Ignore));
}

// ----- cards -----

fn docs_agent() -> Agent {
    let mut a = Agent::new("docs-agent", "1.2.3", "/store");
    a.description = "Answers documentation questions.".to_string();
    a.models.push("medium".to_string());
    a.default_model = Some("medium".to_string());
    a.pricing.insert(
        "medium",
        TierPrice {
            input_usd_per_m_tokens: "0.25".to_string(),
            output_usd_per_m_tokens: "1.25".to_string(),
        },
    );
    a.limits = AgentLimits::new().with_max_model_calls(8).with_max_cost_micro_usd(50_000);
    a.capabilities.push(CapabilityCard {
        schema: ToolSchema::new(
            "docs_read",
            "Read one document.",
            obj(vec![
                ("type", Data::string("object")),
                ("properties", obj(vec![("path", obj(vec![("type", Data::string("string"))]))])),
                ("required", Data::Array(vec![Data::string("path")])),
                ("additionalProperties", Data::boolean(false)),
            ]),
        ),
        requires_permission: false,
        runs_in_background: false,
    });
    a
}

#[test]
fn describe_and_config_are_serde_stable_and_redacted_ready() {
    let card = docs_agent().describe();
    assert_eq!(card.name, "docs-agent");
    assert_eq!(card.version, "1.2.3");
    assert_eq!(card.description, "Answers documentation questions.");
    let names: Vec<&str> = card.tools.iter().map(|t| t.name.as_str()).collect();
    assert_eq!(names, vec!["docs_read", "scratch_list", "scratch_read", "scratch_write"]);
    assert_eq!(card.tools[0].privilege, ToolPrivilege::ReadOnly);
    assert_eq!(card.tools[0].schema.name, "docs_read");
    assert!(card.tools[0].scope.is_null());
    assert!(!card.tools[0].runs_in_background);
    assert_eq!(card.tools[0].description, "Read one document.");
    assert_eq!(card.tools[0].schema.parameters.get_strings("required"), vec!["path"]);
    assert_eq!(card.tools[0].schema.parameters.get_bool("additionalProperties"), Some(false));
    let list = &card.tools[1];
    assert_eq!(list.privilege, ToolPrivilege::Scratchpad);
    assert_eq!(
        list.description,
        "List files and directories in your private scratch directory. Paths are relative to the scratch root; the default is the root itself."
    );
    assert_eq!(list.scope.get_str("root"), Some("/store/.scratch"));
    assert!(list.schema.parameters.get("required").is_none());
    assert_eq!(list.schema.parameters.get_bool("additionalProperties"), Some(false));
    let path = |i: usize| {
        let properties = card.tools[i].schema.parameters.get("properties").unwrap();
        properties.get("path").unwrap().get_str("description").unwrap().to_string()
    };
    assert_eq!(path(1), "Relative directory path. Defaults to the scratch root.");
    assert_eq!(path(2), "File path relative to the scratch root.");
    assert_eq!(path(3), "File path relative to the scratch root.");
    assert_eq!(
        card.tools[2].description,
        "Read a UTF-8 text file from your private scratch directory. Paths are relative to the scratch root."
    );
    assert_eq!(card.tools[2].schema.parameters.get_strings("required"), vec!["path"]);
    assert_eq!(
        card.tools[3].description,
        "Write text to a file in your private scratch directory, creating or overwriting it. Paths are relative to the scratch root; parent directories are created as needed."
    );
    assert_eq!(card.tools[3].schema.parameters.get_strings("required"), vec!["path", "content"]);
    assert_eq!(card.model_tiers.len(), 1);
    assert_eq!(card.model_tiers[0].selector, "medium");
    assert!(card.model_tiers[0].default);
    let price = card.model_tiers[0].pricing.as_ref().unwrap();
    assert_eq!(price.input_usd_per_m_tokens, "0.25");
    assert_eq!(price.output_usd_per_m_tokens, "1.25");
    assert_eq!(card.limits.max_model_calls, Some(8));
    assert_eq!(card.limits.max_cost_micro_usd, Some(50_000));
    assert_eq!(card.limits.timeout_ms, None);
}

#[test]
fn granted_agents_are_on_the_card() {
    let mut a = docs_agent();
    a.agent_tools.push(AgentToolSpec::new("agent_helper", "Helps."));
    let card = a.describe();
    let helper = card.tools.iter().find(|t| t.name == "agent_helper").unwrap();
    assert_eq!(helper.privilege, ToolPrivilege::Agent);
    assert_eq!(
        helper.description,
        "Delegate a sub-question to the `agent_helper` subagent. Helps."
    );
}

// ----- blobs -----

fn blob(r: BlobRef, name: Option<&str>) -> BlobHandle {
    BlobHandle {
        blob_ref: r,
        media_type: "text/plain".to_string(),
        name: name.map(|n| n.to_string()),
        perms: BlobPerms { read: true, write: false, execute: false },
    }
}

#[test]
fn bytes_are_decoded_and_other_sources_named() {
    let inline = blob(BlobRef::Bytes { base64: "aGVsbG8=".to_string() }, None);
    match load_bytes(&inline).unwrap() {
        Source::Inline(b) => assert_eq!(b, b"hello"),
        other => panic!("unexpected: {other:?}"),
    }
    let broken = blob(BlobRef::Bytes { base64: "!!".to_string() }, Some("n.txt"));
    let err = load_bytes(&broken).unwrap_err();
    assert!(matches!(err, BlobError::Decode { .. }));
    assert!(err.message().contains("n.txt"), "{}", err.message());
    let path = blob(BlobRef::Path { path: "/x".to_string() }, None);
    assert!(matches!(load_bytes(&path).unwrap(), Source::ReadFile(p) if p == "/x"));
    let stored = blob(BlobRef::Sha256 { sha256: "sha256:ab".to_string() }, None);
    assert!(matches!(load_bytes(&stored).unwrap(), Source::FromStore(h) if h == "sha256:ab"));
}

#[test]
fn inbound_names_are_single_segments() {
    assert_eq!(sanitize_name(" a.txt ").unwrap(), "a.txt");
    assert_eq!(sanitize_name(" report.md ").unwrap(), "report.md");
    for bad in ["", "  ", "../x", "x/y", "/x", "a/", "x/.", "./x", "x//", ".", ".."] {
        assert!(matches!(sanitize_name(bad), Err(BlobError::BadName { .. })), "{bad:?}");
    }
    let hinted = blob(BlobRef::Path { path: "/d/f.txt".to_string() }, Some("n.txt"));
    assert_eq!(inbound_name(&hinted, 0, "sha256:0123456789abcdef").unwrap(), "n.txt");
    let path = blob(BlobRef::Path { path: "/d/f.txt".to_string() }, None);
    assert_eq!(inbound_name(&path, 0, "sha256:0123456789abcdef").unwrap(), "f.txt");
    let bytes = blob(BlobRef::Bytes { base64: "".to_string() }, None);
    assert_eq!(
        inbound_name(&bytes, 3, "sha256:0123456789abcdef").unwrap(),
        "blob-3-0123456789ab"
    );
}

#[test]
fn inbound_perms_are_applied_as_mode_bits() {
    let perms = |read, write, execute| BlobPerms { read, write, execute };
    assert_eq!(mode_bits(perms(true, false, false)), 0o400);
    assert_eq!(mode_bits(perms(true, true, true)), 0o700);
    assert_eq!(mode_bits(perms(true, true, false)), 0o600);
    assert_eq!(mode_bits(perms(true, false, true)), 0o500);
    assert_eq!(mode_bits(perms(false, false, false)), 0);
}

#[test]
fn outbound_blobs_come_in_the_order_of_their_paths() {
    let files = vec![
        Swept { path: "/w/out/b.md".to_string(), hash: "h1".to_string() },
        Swept { path: "/w/out/a.b".to_string(), hash: "h2".to_string() },
        Swept { path: "/w/out/a/z.json".to_string(), hash: "h1".to_string() },
    ];
    let perms = BlobPerms { read: true, write: false, execute: false };
    let handles = sweep_outbound("/w/out", &files, perms);
    let names: Vec<String> = handles.iter().map(|h| h.name.clone().unwrap()).collect();
    assert_eq!(names, vec!["a/z.json", "a.b", "b.md"]);
    assert_eq!(handles[0].media_type, "application/json");
    assert_eq!(handles[1].media_type, "application/octet-stream");
    assert_eq!(guess_media("x.HTML"), "text/html");
    assert!(matches!(&handles[2].blob_ref, BlobRef::Sha256 { sha256 } if sha256 == "h1"));
}

// ----- notes -----

fn file(path: &str, contents: &str) -> Node {
    Node {
        path: path.to_string(),
        kind: Kind::File,
        bytes: contents.len() as u64,
        content: contents.as_bytes().to_vec(),
        entries: Vec::new(),
    }
}

fn dir(path: &str, names: &[&str]) -> Node {
    Node {
        path: path.to_string(),
        kind: Kind::Dir,
        bytes: 0,
        content: Vec::new(),
        entries: names
            .iter()
            .map(|n| DirEntry { name: n.to_string(), target: Some(format!("{path}/{n}")) })
            .collect(),
    }
}

fn link(path: &str, target: &str) -> Link {
    Link { path: path.to_string(), target: target.to_string() }
}

#[test]
fn notes_are_read_listed_and_written_inside() {
    let disk = Disk::of(
        vec![dir("/s", &["b.txt", "a.txt"]), file("/s/a.txt", "hi"), file("/s/b.txt", "yo")],
        Vec::new(),
    );
    let notes = ScratchDir::new("/s".to_string());
    let read = scratch_read(&notes, &disk, &obj(vec![("path", Data::string("a.txt"))])).unwrap();
    assert_eq!(read.get_str("content"), Some("hi"));
    assert!(scratch_read(&notes, &disk, &obj(vec![("path", Data::string("../x"))])).is_err());
    assert!(scratch_read(&notes, &disk, &obj(vec![("path", Data::string("/s/a.txt"))])).is_err());
    let listed = scratch_list(&notes, &disk, &obj(Vec::new())).unwrap();
    assert_eq!(listed.get("entries").unwrap().as_array().unwrap().len(), 2);
    assert!(write_request(&obj(vec![("path", Data::string("n"))])).is_err());
    let target = notes.plan_write("sub/n.txt").unwrap();
    assert_eq!(target.dir, "/s/sub");
    assert_eq!(target.name, "n.txt");
    assert!(notes.plan_write("../n.txt").is_err());
    let done = written(&notes, "/s/sub/n.txt", "héllo");
    assert_eq!(done.get_str("path"), Some("sub/n.txt"));
    assert_eq!(done.get_u64("bytes_written"), Some(6));
}

#[test]
fn links_out_of_the_notes_are_refused() {
    let disk = Disk::of(
        vec![dir("/s", &[]), file("/secret", "x")],
        vec![link("/s/l", "/secret")],
    );
    let notes = ScratchDir::new("/s".to_string());
    assert!(scratch_read(&notes, &disk, &obj(vec![("path", Data::string("l"))])).is_err());
}

#[test]
fn links_are_listed_as_files_without_a_size() {
    let disk = Disk::of(
        vec![
            dir("/s", &["a.txt", "l", "out", "sub"]),
            file("/s/a.txt", "hi"),
            dir("/s/sub", &[]),
            dir("/elsewhere", &[]),
        ],
        vec![link("/s/l", "/s/a.txt"), link("/s/out", "/elsewhere")],
    );
    let notes = ScratchDir::new("/s".to_string());
    let listed = scratch_list(&notes, &disk, &obj(Vec::new())).unwrap();
    let entries = listed.get("entries").unwrap().as_array().unwrap();
    let shown: Vec<(&str, &str, Option<u64>)> = entries
        .iter()
        .map(|e| (e.get_str("path").unwrap(), e.get_str("kind").unwrap(), e.get_u64("bytes")))
        .collect();
    assert_eq!(
        shown,
        vec![
            ("a.txt", "file", Some(2)),
            ("l", "file", None),
            ("out", "file", None),
            ("sub", "dir", None),
        ]
    );
}

#[test]
fn errors_on_notes_say_why() {
    let mut disk = Disk::of(
        vec![dir("/s", &["locked.txt", "sub"]), file("/s/locked.txt", "x"), dir("/s/sub", &[])],
        Vec::new(),
    );
    for path in ["/s/locked.txt", "/s/sub"] {
        disk.faults.push(Fault {
            path: path.to_string(),
            reason: "Permission denied (os error 13)".to_string(),
        });
    }
    let notes = ScratchDir::new("/s".to_string());
    let read = |path: &str| {
        let refused = scratch_read(&notes, &disk, &obj(vec![("path", Data::string(path))]));
        refused.unwrap_err().get_str("error").unwrap().to_string()
    };
    assert_eq!(
        read("gone.txt"),
        "path does not exist inside scratch root: gone.txt: No such file or directory (os error 2)"
    );
    assert_eq!(
        read("locked.txt/x"),
        "path does not exist inside scratch root: locked.txt/x: Not a directory (os error 20)"
    );
    assert_eq!(read("locked.txt"), "failed to read locked.txt: Permission denied (os error 13)");
    assert_eq!(read("sub"), "scratch_read path is not a file: sub");
    let list = |path: &str| {
        let refused = scratch_list(&notes, &disk, &obj(vec![("path", Data::string(path))]));
        refused.unwrap_err().get_str("error").unwrap().to_string()
    };
    assert_eq!(list("locked.txt"), "scratch_list path is not a directory: locked.txt");
    assert_eq!(list("sub"), "failed to list sub: Permission denied (os error 13)");
}

#[test]
fn paths_are_followed_through_links() {
    let disk = Disk::of(
        vec![dir("/a", &["f"]), file("/a/f", "x"), dir("/b", &["l"])],
        vec![link("/b/l", "/a"), link("/b/m", "/a/f"), link(".", "/b")],
    );
    let at = |path: &str| disk.canonicalize(path);
    assert_eq!(at("/b/l/f"), Some("/a/f".to_string()));
    assert_eq!(at("/b/./l/../a"), Some("/a".to_string()));
    assert_eq!(at("l/f"), Some("/a/f".to_string()));
    assert_eq!(at("/b/m"), Some("/a/f".to_string()));
    assert_eq!(at("/b/m/"), None);
    assert_eq!(at("/a/f/.."), None);
    assert_eq!(at("/a/"), Some("/a".to_string()));
    assert_eq!(at("/gone"), None);
    assert_eq!(at("/a/gone/../f"), None);
    assert_eq!(at(""), None);
    assert_eq!(disk.why("/a/gone/../f"), "No such file or directory (os error 2)");
    assert_eq!(disk.why("/a/f/x"), "Not a directory (os error 20)");
    assert_eq!(disk.why("/b/m/"), "Not a directory (os error 20)");
    assert_eq!(disk.read_text("/b/m"), Ok("x".to_string()));
    assert_eq!(disk.read_text("/b/l"), Err("Is a directory (os error 21)".to_string()));
    assert_eq!(disk.read_text("/gone"), Err("No such file or directory (os error 2)".to_string()));
}

// ----- skills -----

const SKILL: &str = "---\nname: policy-review\ndescription: Review policy questions. Use for policy checks.\n---\n\n# Review\n\nRead references/checks.md.\n";

fn skills_disk(skill: &str) -> Disk {
    Disk::of(
        vec![
            dir("/k", &["policy-review"]),
            dir("/k/policy-review", &["SKILL.md", "references"]),
            file("/k/policy-review/SKILL.md", skill),
            dir("/k/policy-review/references", &["checks.md"]),
            file("/k/policy-review/references/checks.md", "Only verified claims.\n"),
        ],
        Vec::new(),
    )
}

fn parsed(name: &str, description: &str) -> Vec<ParsedFrontmatter> {
    vec![ParsedFrontmatter {
        path: "/k/policy-review/SKILL.md".to_string(),
        front: Ok(Frontmatter { name: name.to_string(), description: description.to_string() }),
    }]
}

#[test]
fn discovers_catalog_without_loading_skill_bodies() {
    let disk = skills_disk(SKILL);
    let front = frontmatter("/k/policy-review/SKILL.md", SKILL).unwrap();
    assert!(front.contains("name: policy-review"));
    let parses = parsed("policy-review", "Review policy questions. Use for policy checks.");
    let set = discover_skills(&disk, &parses, &vec!["/k".to_string()]).unwrap();
    let prompt = skills_prompt("Base", &set);
    assert!(prompt.contains("`policy-review`: Review policy questions"));
    assert!(!prompt.contains("Only verified claims"));
    let args = obj(vec![
        ("name", Data::string("policy-review")),
        ("path", Data::string("references/checks.md")),
    ]);
    let body = skill_read(&set, &disk, &args).unwrap();
    assert_eq!(body.get_str("content"), Some("Only verified claims.\n"));
}

#[test]
fn a_linked_skill_file_is_followed() {
    let disk = Disk::of(
        vec![
            dir("/k", &["policy-review", "linked"]),
            dir("/k/policy-review", &["SKILL.md"]),
            file("/shared/body.md", SKILL),
            dir("/elsewhere", &["SKILL.md"]),
            file("/elsewhere/SKILL.md", SKILL),
        ],
        vec![link("/k/policy-review/SKILL.md", "/shared/body.md"), link("/k/linked", "/elsewhere")],
    );
    let parses = parsed("policy-review", "Review policy questions.");
    let set = discover_skills(&disk, &parses, &vec!["/k".to_string()]).unwrap();
    let prompt = skills_prompt("Base", &set);
    assert!(prompt.contains("`policy-review`: Review policy questions"), "{prompt}");
    assert!(!prompt.contains("`linked`"), "{prompt}");
}

#[test]
fn unreadable_skills_say_why() {
    let mut disk = skills_disk(SKILL);
    disk.faults.push(Fault {
        path: "/k/policy-review/SKILL.md".to_string(),
        reason: "Permission denied (os error 13)".to_string(),
    });
    let parses = parsed("policy-review", "Review policy questions.");
    match discover_skills(&disk, &parses, &vec!["/k".to_string()]) {
        Err(SkillError::Io { source, .. }) => {
            assert_eq!(source, "Permission denied (os error 13)");
        },
        other => panic!("unexpected: {other:?}"),
    }
    match discover_skills(&disk, &parses, &vec!["/gone".to_string()]) {
        Err(SkillError::Io { source, .. }) => {
            assert_eq!(source, "No such file or directory (os error 2)");
        },
        other => panic!("unexpected: {other:?}"),
    }
}

#[test]
fn rejects_frontmatter_name_mismatch() {
    let disk = skills_disk("---\nname: wrong\ndescription: Wrong name.\n---\n");
    let parses = parsed("wrong", "Wrong name.");
    assert!(matches!(
        discover_skills(&disk, &parses, &vec!["/k".to_string()]),
        Err(SkillError::Invalid { .. })
    ));
}

#[test]
fn other_skill_errors_have_their_inputs() {
    let disk = skills_disk(SKILL);
    assert!(matches!(
        discover_skills(&disk, &Vec::new(), &vec!["/gone".to_string()]),
        Err(SkillError::Io { .. })
    ));
    let parses = parsed("policy-review", "Review policy questions.");
    let twice = vec!["/k".to_string(), "/k/policy-review".to_string()];
    assert!(matches!(discover_skills(&disk, &parses, &twice), Err(SkillError::Duplicate(_))));
    assert!(matches!(frontmatter("/p", "no fences"), Err(SkillError::Invalid { .. })));
}

// ----- analytics -----

fn head(id: &str, parent: Option<&str>, at: u64) -> TraceHead {
    TraceHead {
        trace_id: TraceId::new(id),
        depends_on: parent.map(TraceId::new),
        agent_name: "a".to_string(),
        agent_version: "1".to_string(),
        created_at: Some(at),
        question: format!("q {id}"),
        status: "success".to_string(),
    }
}

fn trace(log: Vec<LogEntry>) -> Trace {
    Trace { question: Some("q".to_string()), status: Some("success".to_string()), log }
}

#[test]
fn statistics_add_up() {
    let first = trace(vec![
        model_call(0, 1, "medium", (100, 20), 50, 10),
        entry(
            1,
            Record::ToolResult {
                op: 2,
                name: "agent_helper".to_string(),
                result: serde_json::from_str("{}").unwrap(),
                answer_cost: Some(20),
            },
        ),
        tool_end(2, 2, 30),
        said(3, "done"),
    ]);
    let asks = vec![StoredAsk {
        head: head("t1", None, 1),
        trace: first,
        parent_entries: 0,
        feedback_count: 2,
    }];
    let stats = collect_stats(&asks);
    assert_eq!(stats.ask_count, 1);
    assert_eq!(stats.feedback_count, 2);
    assert_eq!(stats.totals.cost_own_micro_usd, 50);
    assert_eq!(stats.totals.cost_delegated_micro_usd, 20);
    assert_eq!(stats.totals.cost_micro_usd, 70);
    assert_eq!(stats.models.len(), 1);
    assert_eq!(stats.models[0].tokens_in, stats.totals.tokens_in);
    assert_eq!(stats.children[0].name, "helper");
    assert_eq!(stats.children[0].cost_delegated_micro_usd, 20);
}

#[test]
fn each_counter_is_counted_on_its_own() {
    let asks = vec![StoredAsk {
        head: head("t1", None, 1),
        trace: trace(vec![
            model_call(0, 1, "medium", (1, 1), 0, u64::MAX),
            tool_end(1, 2, u64::MAX),
            said(2, "done"),
        ]),
        parent_entries: 0,
        feedback_count: u64::MAX,
    }];
    let stats = collect_stats(&asks);
    assert_eq!(stats.totals.duration_ms, u64::MAX);
    assert_eq!(stats.totals.tokens_in, 1);
    assert_eq!(stats.totals.tokens_out, 1);
    assert_eq!(stats.totals.model_calls, 1);
    assert_eq!(stats.tools[0].total_latency_ms, u64::MAX);
    assert_eq!(stats.feedback_count, u64::MAX);
    assert_eq!(stats.duration.median_ms, u64::MAX);
}

#[test]
fn heads_are_filtered() {
    let heads = || vec![head("a", None, 1), head("b", Some("a"), 2), head("c", None, 3)];
    let since = StatsOptions::new().since(TraceId::new("b"));
    let kept = filter_heads(heads(), &since).unwrap();
    let ids: Vec<&str> = kept.iter().map(|h| h.trace_id.as_str()).collect();
    assert_eq!(ids, vec!["b", "c"]);
    let one = StatsOptions::new().trace(TraceId::new("c"));
    assert_eq!(filter_heads(heads(), &one).unwrap().len(), 1);
    let gone = StatsOptions::new().trace(TraceId::new("zzz"));
    assert!(matches!(filter_heads(heads(), &gone), Err(StoreError::NotFound { .. })));
}

#[test]
fn durations_are_summed_up() {
    for taken in [vec![40, 10, 30, 20], vec![10, 20, 30, 40], vec![10, 30, 20, 40]] {
        let stats = duration_stats(taken);
        assert_eq!((stats.mean_ms, stats.median_ms, stats.p95_ms), (25, 30, 40));
    }
    assert_eq!(percentile(&vec![7], 500), 7);
    assert_eq!(percentile(&vec![1, 2, 3, 4, 5, 6, 7, 8, 9, 10], 95), 10);
    let none = duration_stats(Vec::new());
    assert_eq!((none.mean_ms, none.median_ms, none.p95_ms), (0, 0, 0));
}

#[test]
fn baselines_come_from_the_parent() {
    assert_eq!(baseline_len(None).unwrap(), 0);
    assert_eq!(baseline_len(Some(Ok(7))).unwrap(), 7);
    assert!(matches!(
        baseline_len(Some(Err(StoreError::Failed("x".to_string())))),
        Err(AnalyticsError::Store(_))
    ));
    let listed = list_traces_with_feedback(&vec![head("a", None, 1)], &vec![4]);
    assert_eq!(listed[0].feedback_count, 4);
    assert_eq!(listed[0].question, "q a");
}
