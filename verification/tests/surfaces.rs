use huggr::agent::blobs::{BlobHandle, BlobPerms, BlobRef};
use huggr::cli::agents::{coding_agent_schema, CodingKinds, task_agent_schema};
use huggr::cli::branch::{branch_trace_at_seq, Recording};
use huggr::cli::builder::{
    build_dir, built_text, created_text, event_kind, is_pretty, packaged_text, replayed_event,
    replayed_text, requested_surface, requested_template, run_failure, stats_options,
    typed_run_out_dir, Surface,
};
use huggr::build::python::PythonBuildOutcome;
use huggr::build::BuildOutcome;
use huggr::cli::hosts::{
    cli_server, estimate_text_tokens, mcp_config_from_spec, mcp_section, parse_mcp_entries,
    pick_servers, schedule_target, skill_descriptors, McpConfigEntry, SkillBundle, TriggerTarget,
};
use huggr::cli::repl::{
    git_diff_args, handle_plan_command, handle_repl_command, handle_rewind_command,
    handle_tier_command, handle_todo_command, resume_hint, PlanAction, ReplCommand, RewindAction,
    TierAction, TodoAction,
};
use huggr::cli::report::{
    active_plan, active_skill, active_todos, command_text, commit_scope, print_active,
    print_commit_message, print_context_plan, print_mcp_status, print_review_prompt, print_skills,
    print_spend_report, print_todo_progress, print_todos, ContextDisposition, ContextEntry,
    ContextPlan, ContextSource, McpServerStatus, RoutingDecision, SkillStatus, TierSpend,
};
use huggr::cli::session::{
    one_shot, plugin_command, print_banner, print_model_status, print_status, recording_path,
    resume_banner, schedule_banner, scheduled_prompt, session_banner, skill_status, typed_line,
    LineStep, Status,
};
use huggr::cli::steps::{
    print_step, summarize_command, summarize_event, ShownCommand, ShownEntry, ShownEvent, ShownStep,
};
use huggr::definition::{AgentDefinition, RuntimeArg, TierConfig, ToolGrant, ToolKind};
use huggr::environment::Environment;
use huggr::json::{Data, Member, Members};
use huggr::mcp_serve::{
    answer_text, ask_from_args, ask_tool_schema, handle_message, initialize_result,
    is_content_address, model_blobs, ok, rpc_error,
    runtime_values_from_mcp, tools_call, tools_call_definition, AskArgs, CallOutcome, ServedTool,
    ServerInfo, Step, DEFAULT_PROTOCOL_VERSION,
};
use huggr::models::{default_catalog, ModelCatalog, ModelConfigError};
use huggr::python_bridge::{next_event, parse, read_as, Pull, PyCall, PyCapability, Waited};
use huggr::python_config::{
    definition_from_config, grants_from, read_config, resolve_configured, Sections,
};
use huggr::scaffold::Template;
use huggr::table::Table;
use huggr::test_support::TempDir;
use huggr::trace::{LogEntry, Record, TodoItem, TraceId};
use huggr::wasm::capabilities::{browser_capabilities, browser_tool_schemas};
use huggr::wasm::session::{
    estimate_tokens, AgentSession, Decision, SessionConfig, SessionEvent,
};

fn obj(pairs: Vec<(&str, Data)>) -> Data {
    let mut m = Members::new();
    for (k, v) in pairs {
        m = m.with(k, v);
    }
    m.object()
}

fn text(s: &str) -> Data {
    Data::string(s)
}

fn at<'a>(d: &'a Data, path: &[&str]) -> &'a Data {
    let mut d = d;
    for p in path {
        d = match p.parse::<usize>() {
            Ok(i) => &d.as_array().unwrap()[i],
            Err(_) => d.get(p).unwrap(),
        };
    }
    d
}

fn arg(name: &str, required: bool, help: &str) -> RuntimeArg {
    RuntimeArg {
        name: name.to_string(),
        target: "tools.fs_read.root".to_string(),
        env: None,
        default: None,
        required,
        positional: false,
        help: help.to_string(),
    }
}

fn docs() -> AgentDefinition {
    let mut d = AgentDefinition::named("docs");
    d.runtime.args.push(arg("docs_path", true, "Docs root."));
    d
}

// ----- the protocol -----

#[test]
fn ask_schema_requires_question_and_advertises_resume() {
    let schema = ask_tool_schema(None);
    assert_eq!(schema.get_str("name"), Some("ask"));
    assert_eq!(at(&schema, &["inputSchema", "required", "0"]).as_str(), Some("question"));
    assert!(at(&schema, &["inputSchema", "properties"]).get("trace_id").is_some());
}

#[test]
fn ask_schema_includes_runtime_args() {
    let schema = ask_tool_schema(Some(&docs()));
    assert_eq!(
        at(&schema, &["inputSchema", "properties", "docs_path", "description"]).as_str(),
        Some("Docs root.")
    );
    assert_eq!(
        at(&schema, &["inputSchema"]).get_strings("required"),
        vec!["question", "docs_path"]
    );
}

#[test]
fn initialize_echoes_client_protocol_and_card_info() {
    let params = obj(vec![("protocolVersion", text("2025-06-18"))]);
    let result = initialize_result("demo", "1.0.0", "d", &params);
    assert_eq!(result.get_str("protocolVersion"), Some("2025-06-18"));
    assert_eq!(at(&result, &["serverInfo", "name"]).as_str(), Some("demo"));
    assert_eq!(at(&result, &["capabilities", "tools"]).as_object().unwrap().len(), 0);
    assert_eq!(
        initialize_result("demo", "1.0.0", "d", &Data::null()).get_str("protocolVersion"),
        Some(DEFAULT_PROTOCOL_VERSION)
    );
}

#[test]
fn error_and_ok_envelopes_are_jsonrpc() {
    let id = Data::number(7);
    assert_eq!(ok(&id, obj(Vec::new())).get_str("jsonrpc"), Some("2.0"));
    assert_eq!(ok(&id, obj(Vec::new())).get_u64("id"), Some(7));
    let err = rpc_error(&id, -32601, "nope");
    assert!(matches!(at(&err, &["error", "code"]), Data::Int(-32601)));
    assert_eq!(at(&err, &["error", "message"]).as_str(), Some("nope"));
}

fn reply(step: Step) -> Data {
    match step {
        Step::Reply(d) => d,
        other => panic!("unexpected: {other:?}"),
    }
}

fn request(id: u64, method: &str, params: Data) -> Data {
    obj(vec![("id", Data::number(id)), ("method", text(method)), ("params", params)])
}

fn args(question: &str, trace_id: Option<&str>) -> AskArgs {
    AskArgs {
        question: question.to_string(),
        trace_id: trace_id.map(|t| t.to_string()),
        blobs: Vec::new(),
        skills: Vec::new(),
    }
}

#[test]
fn the_protocol_answers_every_request() {
    let mut d = docs();
    d.agent.version = "0.2.0".to_string();
    let info = ServerInfo::of_definition(&d);
    let note = obj(vec![("method", text("notifications/initialized"))]);
    assert!(matches!(handle_message(&info, Some(&d), &note), Step::Silent));
    let init = reply(handle_message(&info, Some(&d), &request(1, "initialize", obj(Vec::new()))));
    assert_eq!(at(&init, &["result", "serverInfo", "name"]).as_str(), Some("docs"));
    assert_eq!(at(&init, &["result", "serverInfo", "version"]).as_str(), Some("0.2.0"));
    let list = reply(handle_message(&info, Some(&d), &request(2, "tools/list", Data::null())));
    assert_eq!(at(&list, &["result", "tools", "0", "name"]).as_str(), Some("ask"));
    assert_eq!(at(&list, &["result", "tools", "1", "name"]).as_str(), Some("feedback"));
    assert_eq!(list.get_u64("id"), Some(2));
    let ping = reply(handle_message(&info, None, &request(3, "ping", Data::null())));
    assert!(ping.get("result").is_some());
    let odd = reply(handle_message(&info, None, &request(4, "dance", Data::null())));
    assert!(matches!(at(&odd, &["error", "code"]), Data::Int(-32601)));
    assert_eq!(at(&odd, &["error", "message"]).as_str(), Some("method not found: dance"));
    let bad = obj(vec![("name", text("nope")), ("arguments", obj(Vec::new()))]);
    let bad = reply(handle_message(&info, None, &request(5, "tools/call", bad)));
    assert!(matches!(at(&bad, &["error", "code"]), Data::Int(-32602)));
    let call = obj(vec![("name", text("ask")), ("arguments", obj(vec![("question", text("hi"))]))]);
    match handle_message(&info, None, &request(6, "tools/call", call)) {
        Step::Call { id, tool, arguments } => {
            assert_eq!(id.as_u64(), Some(6));
            assert_eq!(tool, ServedTool::Ask);
            assert_eq!(arguments.get_str("question"), Some("hi"));
        },
        other => panic!("unexpected: {other:?}"),
    }
    assert_eq!(ServerInfo::of_definition(&docs()).version, "0.0.0");
}

#[test]
fn arguments_become_a_question() {
    let ask = ask_from_args(args("hi", Some("t1")), Ok(()), Some(Ok(TraceId::new("t1")))).unwrap();
    assert_eq!(ask.question, "hi");
    assert_eq!(ask.trace_id.unwrap().as_str(), "t1");
    let blobs: Vec<BlobHandle> = ask.blobs;
    assert!(blobs.is_empty());
    assert_eq!(
        ask_from_args(args("hi", None), Err("path".to_string()), None).unwrap_err(),
        "invalid `ask` blobs: path"
    );
    assert_eq!(
        ask_from_args(args("hi", Some("../x")), Ok(()), Some(Err("bad".to_string()))).unwrap_err(),
        "invalid `trace_id`: bad"
    );
}

#[test]
fn callers_hand_in_bytes_and_addresses_only() {
    let handle = |blob_ref: BlobRef| BlobHandle {
        blob_ref,
        media_type: "text/plain".to_string(),
        name: None,
        perms: BlobPerms { read: true, write: false, execute: false },
    };
    let address = format!("sha256:{}", "0123456789abcdef".repeat(4));
    assert!(is_content_address(&address));
    for bad in ["", "sha256:", "sha256:abc", &address[7..], &address.to_uppercase()] {
        assert!(!is_content_address(bad), "{bad}");
    }
    let bytes = || handle(BlobRef::Bytes { base64: "aGk=".to_string() });
    let stored = |sha256: &str| handle(BlobRef::Sha256 { sha256: sha256.to_string() });
    assert!(model_blobs(&vec![bytes(), stored(&address)]).is_ok());
    assert_eq!(
        model_blobs(&vec![bytes(), stored("sha256:xyz"), stored("")]).unwrap_err(),
        "`sha256:xyz` is not a content address"
    );
    let path = handle(BlobRef::Path { path: "/etc/hosts".to_string() });
    assert_eq!(model_blobs(&vec![path]).unwrap_err(), "path `/etc/hosts` is not accepted");
}

#[test]
fn declared_arguments_reach_the_definition() {
    let mut d = docs();
    d.tools.push(ToolGrant {
        name: "fs_read".to_string(),
        kind: ToolKind::Library,
        config: obj(vec![("root", text("."))]),
    });
    let given = obj(vec![("question", text("hi")), ("docs_path", text("/docs"))]);
    let (asked, a) =
        tools_call_definition(&d, &given, Ok(args("hi", None)), &Environment::new(), "/cwd").unwrap();
    assert_eq!(asked.tools[0].config.get_str("root"), Some("/docs"));
    assert_eq!(a.question, "hi");
    let odd = obj(vec![("docs_path", Data::number(3))]);
    assert_eq!(
        runtime_values_from_mcp(&d, &odd).unwrap_err(),
        "runtime argument `docs_path` must be a string"
    );
    let refused =
        tools_call_definition(&d, &odd, Err("no question".to_string()), &Environment::new(), "/cwd");
    assert_eq!(refused.unwrap_err(), "invalid `ask` arguments: no question");
    let missing = obj(vec![("question", text("hi"))]);
    assert!(
        tools_call_definition(&d, &missing, Ok(args("hi", None)), &Environment::new(), "/cwd").is_err()
    );
}

fn json(s: &str) -> serde_json::Value {
    serde_json::from_str(s).unwrap()
}

#[test]
fn answers_are_shown_as_text() {
    assert_eq!(answer_text(&json("{\"error\": \"e\", \"text\": \"t\"}")), "e");
    assert_eq!(answer_text(&json("{\"text\": \"t\", \"response\": \"r\"}")), "t");
    assert_eq!(answer_text(&json("{\"response\": \"r\"}")), "r");
    assert_eq!(answer_text(&json("{\"response\": {\"summary\": \"s\"}}")), "s");
    assert_eq!(answer_text(&json("{\"response\": {\"a\": [1, 2]}}")), "{\"a\":[1,2]}");
    assert_eq!(answer_text(&json("{\"b\": null}")), "{\"b\":null}");
    let id = Data::number(9);
    let done = tools_call(
        &id,
        Ok(CallOutcome::Answered {
            response: json("{\"text\": \"t\"}"),
            structured: obj(vec![("trace_id", text("x"))]),
        }),
    );
    assert_eq!(at(&done, &["result", "content", "0", "text"]).as_str(), Some("t"));
    assert_eq!(at(&done, &["result", "structuredContent", "trace_id"]).as_str(), Some("x"));
    assert_eq!(at(&done, &["result", "isError"]).as_bool(), Some(false));
    let noted = tools_call(&id, Ok(CallOutcome::Recorded { structured: Data::null() }));
    assert_eq!(at(&noted, &["result", "content", "0", "text"]).as_str(), Some("feedback recorded"));
    let failed = tools_call(&id, Err("gone".to_string()));
    assert_eq!(at(&failed, &["error", "message"]).as_str(), Some("gone"));
}

// ----- the browser -----

fn required_fields(tool: &str) -> Vec<String> {
    let capabilities = browser_capabilities();
    let capability = match capabilities.iter().find(|c| c.name == tool) {
        Some(c) => c,
        None => panic!("unknown tool: {tool}"),
    };
    capability.schema.parameters.get_strings("required")
}

#[test]
fn required_matches_what_the_dispatcher_needs() {
    let expected: &[(&str, &[&str])] = &[
        ("tabs_list", &[]),
        ("tab_open_url", &["url"]),
        ("tab_close", &["tab_id"]),
        ("tab_switch", &["tab_id"]),
        ("tab_reload", &["tab_id"]),
        ("tab_back", &["tab_id"]),
        ("tab_forward", &["tab_id"]),
        ("wait_for_navigation", &["tab_id"]),
        ("wait_for_page_settled", &["tab_id"]),
        ("wait_for_tab_opened", &[]),
        ("wait_for_url", &["tab_id", "contains"]),
        ("wait_for_selector", &["tab_id", "selector"]),
        ("wait_for_text", &["tab_id", "text"]),
        ("page_read_html", &["tab_id"]),
        ("page_read_text", &["tab_id"]),
        ("page_snapshot", &["tab_id"]),
        ("page_click", &["tab_id"]),
        ("page_type", &["tab_id", "text"]),
        ("page_select", &["tab_id", "value"]),
        ("page_scroll", &["tab_id"]),
        ("page_submit", &["tab_id"]),
        ("page_focus", &["tab_id"]),
        ("file_download_url", &["url"]),
        ("file_list_downloads", &[]),
        ("file_read_metadata", &["file_id"]),
        ("file_upload_to_input", &["tab_id", "file_id"]),
        ("file_delete", &["file_id"]),
    ];
    assert_eq!(expected.len(), browser_capabilities().len());
    for (tool, required) in expected {
        assert_eq!(required_fields(tool), *required, "required mismatch for {tool}");
    }
    assert_eq!(browser_tool_schemas().len(), expected.len());
}

#[test]
fn fields_with_defaults_or_alternatives_are_optional_but_still_declared() {
    let optional: &[(&str, &[&str])] = &[
        ("tab_open_url", &["active"]),
        ("wait_for_navigation", &["timeout_ms", "settle_ms"]),
        ("wait_for_page_settled", &["settle_ms", "timeout_ms"]),
        ("wait_for_tab_opened", &["timeout_ms"]),
        ("page_click", &["node_id", "selector"]),
        ("page_type", &["node_id", "selector", "clear"]),
        ("page_scroll", &["delta_x", "delta_y"]),
        ("file_download_url", &["filename"]),
        ("file_upload_to_input", &["node_id", "selector"]),
    ];
    let capabilities = browser_capabilities();
    for (tool, fields) in optional {
        let capability = capabilities.iter().find(|c| c.name == *tool).unwrap();
        let required = required_fields(tool);
        for field in *fields {
            assert!(
                at(&capability.schema.parameters, &["properties"]).get(field).is_some(),
                "{tool} should declare property {field}"
            );
            assert!(!required.contains(&field.to_string()), "{tool} should not require {field}");
        }
    }
}

#[test]
fn field_helper_markers_never_leak_into_schemas() {
    for capability in browser_capabilities() {
        let properties =
            at(&capability.schema.parameters, &["properties"]).as_object().unwrap();
        for Member { key, value } in properties {
            assert!(
                value.get("name").is_none() && value.get("required").is_none(),
                "{}.{key} leaks a builder marker",
                capability.name
            );
        }
    }
}

fn session(compaction: Option<&str>, model: Option<&str>) -> AgentSession {
    let mut context = huggr::definition::ContextConfig::new();
    context.compaction = compaction.map(|c| c.to_string());
    AgentSession::new(SessionConfig {
        system_prompt: "".to_string(),
        tools: browser_tool_schemas(),
        default_model: model.map(|m| m.to_string()),
        context: Some(context),
    })
}

#[test]
fn sessions_record_what_happens() {
    let mut s = session(None, None);
    assert_eq!(s.policy.selector, "medium");
    assert!(s.policy.system_prompt.is_none());
    assert!(s.policy.budget.is_none());
    assert_eq!(s.created_at(), None);
    s.submit_user_input("hello".to_string(), 5);
    s.submit_model_done(1, Ok(json("{}")), Ok(json("{}")), 3, 6).unwrap();
    s.submit_model_error(2, "\"e\"", 7).unwrap();
    s.submit_capability_done(3, "{\"a\": 1}", 8).unwrap();
    s.submit_capability_error(4, "\"x\"", 9).unwrap();
    s.submit_op_cancelled(5, 10);
    s.submit_permission_decision(6, false, None, 11);
    s.submit_permission_decision(7, true, None, 12);
    s.abort(13);
    assert_eq!(s.events.len(), 18);
    assert_eq!(s.created_at(), Some(5));
    assert!(matches!(&s.events[1], SessionEvent::UserInput { est_tokens: 2, .. }));
    assert!(matches!(&s.events[7], SessionEvent::CapabilityDone { est_tokens: 2, .. }));
    match &s.events[13] {
        SessionEvent::PermissionDecision { decision: Decision::Deny { reason }, est_tokens, .. } => {
            assert_eq!(reason, "denied by host");
            assert_eq!(*est_tokens, 8);
        },
        other => panic!("unexpected: {other:?}"),
    }
    s.poll_commands(vec![json("{}")]);
    assert_eq!(s.commands.len(), 1);
    assert_eq!(
        s.resume_trace(Vec::new(), Vec::new(), 0).unwrap_err(),
        "resume_trace must precede the first turn"
    );
}

#[test]
fn sessions_refuse_what_is_no_json() {
    let mut s = session(None, None);
    for refused in [
        s.submit_model_done(1, Err("missing field `text`".to_string()), Ok(json("{}")), 3, 6),
        s.submit_model_error(2, "oops", 7),
        s.submit_capability_done(3, "{\"a\": }", 8),
        s.submit_capability_error(4, "]", 9),
        s.submit_model_done(5, Ok(json("{}")), Err("no usage".to_string()), 3, 9),
    ] {
        assert!(refused.unwrap_err().starts_with("invalid json: "));
    }
    assert_eq!(
        s.submit_model_done(5, Err("no output".to_string()), Err("no usage".to_string()), 3, 9),
        Err("invalid json: no output".to_string())
    );
    assert!(s.events.is_empty());
    assert_eq!(s.created_at(), None);
}

#[test]
fn python_text_is_read_before_it_is_used() {
    assert_eq!(parse("{\"name\": \"a\"}", "agent config").unwrap(), json("{\"name\":\"a\"}"));
    let refused = parse("{", "tool schema").unwrap_err();
    assert!(refused.starts_with("invalid tool schema JSON: "), "{refused}");
    assert_eq!(
        read_as(Err("eof".to_string()), "feedback payload"),
        Err("invalid feedback payload JSON: eof".to_string())
    );
}

#[test]
fn servers_stand_in_either_section() {
    assert_eq!(
        mcp_section("{\"mcp\": [\"a\"], \"mcp_servers\": [\"b\"]}").unwrap(),
        Some(json("[\"a\"]"))
    );
    assert_eq!(mcp_section("{\"mcp_servers\": [\"b\"]}").unwrap(), Some(json("[\"b\"]")));
    assert_eq!(mcp_section("{}").unwrap(), None);
    assert_eq!(mcp_section("[1]").unwrap(), None);
    assert!(mcp_section("{").is_err());
    assert_eq!(pick_servers(&json("{\"mcp\": null}")), Some(json("null")));
}

#[test]
fn sessions_take_up_a_history_once() {
    let mut s = session(Some("summarize"), Some("fast"));
    let budget = s.policy.budget.as_ref().unwrap();
    assert_eq!(budget.budget_tokens, 128_000);
    assert_eq!(budget.summary_selector, Some("fast".to_string()));
    s.resume_trace(vec![SessionEvent::Tick { now: 1 }], vec![json("{}")], 4).unwrap();
    assert_eq!(s.log_baseline(), 4);
    assert!(s.resume_trace(Vec::new(), Vec::new(), 0).is_err());
    assert_eq!(estimate_tokens(""), 1);
    assert_eq!(estimate_tokens("héllo"), 2);
    assert_eq!(AgentSession::final_text(&Vec::new()), "");
}

// ----- Python -----

#[test]
fn python_functions_are_tools() {
    let tool = PyCapability {
        name: "f".to_string(),
        description: "d".to_string(),
        schema: obj(vec![("type", text("object"))]),
        requires_permission: false,
        background: false,
    };
    assert_eq!(tool.schema().parameters.get_str("type"), Some("object"));
    assert_eq!(tool.invoke(PyCall::Returned("[1]".to_string())).unwrap(), json("[1]"));
    let odd = tool.invoke(PyCall::Returned("nope".to_string())).unwrap_err();
    assert!(odd.get_str("error").unwrap().starts_with("tool returned non-JSON value: expected"));
    let raised = tool.invoke(PyCall::Raised("ValueError: x".to_string())).unwrap_err();
    assert_eq!(raised.get_str("error"), Some("ValueError: x"));
    let lost = tool.invoke(PyCall::Lost("gone".to_string())).unwrap_err();
    assert_eq!(lost.get_str("error"), Some("tool `f` panicked: gone"));
}

#[test]
fn events_are_pulled_until_there_are_none() {
    assert_eq!(next_event(Waited::Event), Pull::Give);
    assert_eq!(next_event(Waited::Closed), Pull::Join);
    assert_eq!(next_event(Waited::Nothing { interrupted: false }), Pull::Again);
    assert_eq!(next_event(Waited::Nothing { interrupted: true }), Pull::Abort);
}

// ----- configured agents -----

fn sections(tiers: Vec<Result<TierConfig, String>>) -> Sections {
    Sections {
        tiers,
        providers: Ok(Table::new()),
        limits: Err("unread".to_string()),
        context: Err("unread".to_string()),
    }
}

fn tier(model: &str) -> TierConfig {
    TierConfig {
        provider: "p".to_string(),
        model: model.to_string(),
        input_usd_per_m_tokens: None,
        output_usd_per_m_tokens: None,
    }
}

#[test]
fn configurations_become_definitions() {
    let cfg = obj(vec![
        ("name", text("py")),
        ("system", text("Be brief.")),
        ("models", obj(vec![("fast", obj(vec![("model", text("m"))]))])),
        ("traces", text("/t")),
        ("response_schema", Data::null()),
        (
            "grants",
            obj(vec![
                ("agent", obj(vec![("z", obj(Vec::new()))])),
                ("mcp", obj(vec![("y", obj(Vec::new()))])),
                ("shell", obj(Vec::new())),
                ("fs_read", obj(Vec::new())),
            ]),
        ),
    ]);
    let d = read_config(&cfg, sections(vec![Ok(tier("m"))])).unwrap();
    assert_eq!(d.agent.name, "py");
    assert_eq!(d.system_prompt, Some("Be brief.".to_string()));
    assert_eq!(d.models.default, Some("balanced".to_string()));
    assert_eq!(d.models.tiers.get("fast").unwrap().model, "m");
    assert_eq!(d.traces.store, Some("/t".to_string()));
    assert!(d.response_schema.is_none());
    let grants: Vec<(&str, ToolKind)> = d.tools.iter().map(|g| (g.name.as_str(), g.kind)).collect();
    assert_eq!(
        grants,
        vec![
            ("fs_read", ToolKind::Library),
            ("shell", ToolKind::Library),
            ("y", ToolKind::Mcp),
            ("z", ToolKind::Agent)
        ]
    );
}

#[test]
fn every_configuration_error_has_its_input() {
    let fails = |cfg: &Data, s: Sections| read_config(cfg, s).unwrap_err();
    assert_eq!(fails(&Data::null(), sections(Vec::new())), "agent config must be an object");
    assert_eq!(
        fails(&obj(vec![("name", text(" "))]), sections(Vec::new())),
        "agent config requires a non-empty `name`"
    );
    let with = |key: &str, v: Data| obj(vec![("name", text("x")), (key, v)]);
    assert_eq!(
        fails(&with("models", text("m")), sections(Vec::new())),
        "`models` must be an object"
    );
    let models = || with("models", obj(vec![("fast", obj(Vec::new()))]));
    assert_eq!(
        fails(&models(), sections(vec![Err("no model".to_string())])),
        "invalid model tier `fast`: no model"
    );
    assert_eq!(
        fails(&models(), sections(vec![Ok(tier(" "))])),
        "model tier `fast` requires a `model` id"
    );
    assert_eq!(
        fails(&with("grants", text("g")), sections(Vec::new())),
        "`grants` must be an object"
    );
    assert_eq!(
        grants_from(Some(&obj(vec![("mcp", text("x"))]))).unwrap_err(),
        "`grants.mcp` must be an object of instances"
    );
    assert_eq!(
        fails(&with("limits", obj(Vec::new())), sections(Vec::new())),
        "invalid `limits`: unread"
    );
    assert_eq!(
        fails(&with("context", obj(Vec::new())), sections(Vec::new())),
        "invalid `context`: unread"
    );
    assert!(read_config(&with("limits", Data::null()), sections(Vec::new())).is_ok());
}

#[test]
fn configured_agents_settle_like_others() {
    let d = AgentDefinition::named("x");
    let mut providers = Table::new();
    providers.insert(
        "q",
        huggr::definition::ProviderConfig {
            base_url: "u".to_string(),
            api_key_env: "K".to_string(),
        },
    );
    let mut models: Table<TierConfig> = Table::new();
    let mut t = tier("override");
    t.provider = "q".to_string();
    models.insert("fast", t);
    let overrides = ModelCatalog { providers, models };
    let r = resolve_configured(&d, Some(&overrides), Some(&default_catalog()), &Environment::new())
        .unwrap();
    assert_eq!(r.models.tiers.get("max").unwrap().model, "override");
    assert_eq!(r.model_sources.get("max").unwrap().source, "runtime");
    let r = resolve_configured(&d, None, None, &Environment::new()).unwrap();
    assert_eq!(r.model_sources.get("max").unwrap().source, "global");
}

#[test]
fn configurations_are_checked_before_they_are_settled() {
    let plain = obj(vec![("name", text("x"))]);
    let overridden =
        obj(vec![("name", text("x")), ("model_overrides", obj(vec![("models", obj(Vec::new()))]))]);
    let env = Environment::new();
    let no_overrides = || Err("unread".to_string());
    let no_catalog = || Err(ModelConfigError::Empty);
    let settle = |cfg: &Data, checked, overrides, global| {
        definition_from_config(cfg, sections(Vec::new()), checked, overrides, global, &env)
    };
    let refused = || Err("context.compaction `x` is not known".to_string());
    assert_eq!(
        settle(&overridden, refused(), no_overrides(), no_catalog()).unwrap_err(),
        "context.compaction `x` is not known"
    );
    assert_eq!(
        settle(&obj(Vec::new()), refused(), no_overrides(), no_catalog()).unwrap_err(),
        "agent config requires a non-empty `name`"
    );
    assert_eq!(
        settle(&overridden, Ok(()), no_overrides(), no_catalog()).unwrap_err(),
        "invalid `model_overrides`: unread"
    );
    assert_eq!(
        settle(&plain, Ok(()), no_overrides(), no_catalog()).unwrap_err(),
        "model configuration defines no fixed tier"
    );
    let settled = settle(&plain, Ok(()), no_overrides(), Ok(None)).unwrap();
    assert_eq!(settled.model_sources.get("max").unwrap().source, "global");
    let settled = settle(&overridden, Ok(()), Ok(default_catalog()), Ok(None)).unwrap();
    assert_eq!(settled.model_sources.get("max").unwrap().source, "runtime");
    let bare = ModelCatalog { providers: Table::new(), models: Table::new() };
    assert_eq!(
        settle(&plain, Ok(()), no_overrides(), Ok(Some(bare))).unwrap_err(),
        "model configuration defines no fixed tier"
    );
}

// ----- the command line -----

#[test]
fn mcp_command_spec_splits_program_and_args() {
    let config =
        mcp_config_from_spec("cli1", "server --root .", &vec!["--extra".to_string()]).unwrap();
    assert_eq!(config.name, "cli1");
    assert_eq!(config.program, "server");
    assert_eq!(config.args, vec!["--root", ".", "--extra"]);
    assert_eq!(
        mcp_config_from_spec("n", "  ", &Vec::new()).unwrap_err(),
        "empty MCP command spec for `n`"
    );
    assert_eq!(cli_server("a b", 0).unwrap().name, "cli1");
}

#[test]
fn mcp_config_accepts_strings_and_named_objects() {
    let configs = parse_mcp_entries(&vec![
        McpConfigEntry::Spec("python3 -m first".to_string()),
        McpConfigEntry::Object {
            name: Some("fs".to_string()),
            command: "mcp-filesystem".to_string(),
            args: vec![".".to_string()],
        },
        McpConfigEntry::Object {
            name: Some("git".to_string()),
            command: "mcp-git --stdio".to_string(),
            args: Vec::new(),
        },
    ])
    .unwrap();
    assert_eq!(configs.len(), 3);
    assert_eq!(configs[0].name, "config1");
    assert_eq!(configs[0].program, "python3");
    assert_eq!(configs[0].args, vec!["-m", "first"]);
    assert_eq!(configs[1].name, "fs");
    assert_eq!(configs[1].args, vec!["."]);
    assert_eq!(configs[2].name, "git");
    assert_eq!(configs[2].args, vec!["--stdio"]);
}

#[test]
fn commit_scope_prefers_hot_crate_paths() {
    let files = |list: &[&str]| list.iter().map(|s| s.to_string()).collect::<Vec<String>>();
    assert_eq!(
        commit_scope(&files(&["crates/hugr-core/src/brain.rs", "docs/ROADMAP_2.md"])),
        "core changes"
    );
    assert_eq!(commit_scope(&files(&["docs/ROADMAP_2.md"])), "documentation updates");
    assert_eq!(commit_scope(&files(&["crates/hugr-host/x"])), "host changes");
    assert_eq!(commit_scope(&files(&["crates/hugr-cli/x"])), "CLI changes");
    assert_eq!(commit_scope(&files(&["x"])), "changes");
}

fn note(seq: u64) -> LogEntry {
    LogEntry { seq, record: Record::Other }
}

#[test]
fn branch_trace_at_seq_keeps_prefix_events_and_policy() {
    let trace = Recording {
        events: vec!["tick", "first", "plan", "second"],
        log: vec![note(0), note(1), note(2)],
        created_at: Some(1),
        policy: Some(json("{\"kind\": \"test\"}")),
    };
    let branch = branch_trace_at_seq(trace, &vec![0, 1, 1, 1], 1);
    assert_eq!(branch.events.len(), 3);
    assert_eq!(branch.log.len(), 2);
    assert_eq!(branch.policy, Some(json("{\"kind\": \"test\"}")));
    assert_eq!(branch.created_at, Some(1));
}

#[derive(Debug)]
enum Kind {
    Reviewer,
}

fn kinds() -> CodingKinds {
    CodingKinds {
        explorer: "explorer".to_string(),
        implementer: "implementer".to_string(),
        reviewer: format!("{:?}", Kind::Reviewer).to_lowercase(),
        test_fixer: "test_fixer".to_string(),
    }
}

#[test]
fn coding_agent_schema_declares_defaults() {
    let kinds = kinds();
    let reviewer = coding_agent_schema(&kinds, &kinds.reviewer);
    assert_eq!(reviewer.name, kinds.reviewer);
    assert_eq!(reviewer.name.len(), 8);
    assert_eq!(at(&reviewer.parameters, &["properties", "model", "default"]).as_str(), Some("big"));
    assert!(at(&reviewer.parameters, &["properties", "tools"])
        .get_strings("default")
        .contains(&"git_diff".to_string()));
}

#[test]
fn every_kind_of_agent_has_its_tools_and_tier() {
    let kinds = kinds();
    for (kind, tier, tools) in [
        ("explorer", "small", 6),
        ("implementer", "big", 8),
        ("test_fixer", "big", 7),
        ("other", "medium", 0),
    ] {
        let schema = coding_agent_schema(&kinds, kind);
        assert_eq!(schema.name, kind);
        let properties = schema.parameters.get("properties").unwrap();
        assert_eq!(at(properties, &["model", "default"]).as_str(), Some(tier));
        assert_eq!(at(properties, &["tools"]).get_strings("default").len(), tools, "{kind}");
    }
    let explorer = coding_agent_schema(&kinds, "explorer");
    assert!(!at(&explorer.parameters, &["properties", "tools"])
        .get_strings("default")
        .contains(&"fs_write".to_string()));
    assert_eq!(task_agent_schema().parameters.get_strings("required"), vec!["prompt"]);
}

#[test]
fn lines_are_commands_or_turns() {
    assert!(matches!(handle_repl_command("hello"), ReplCommand::Turn));
    assert!(matches!(handle_repl_command("  "), ReplCommand::Turn));
    assert!(matches!(handle_repl_command("/context"), ReplCommand::Context));
    assert!(matches!(handle_repl_command("/nope x"), ReplCommand::Unknown));
    match handle_repl_command("/plan  accept   a b") {
        ReplCommand::Plan { rest } => assert_eq!(rest, "accept a b"),
        other => panic!("unexpected: {other:?}"),
    }
    match handle_repl_command("/tier big now") {
        ReplCommand::Tier { tier } => assert_eq!(tier, Some("big".to_string())),
        other => panic!("unexpected: {other:?}"),
    }
}

#[test]
fn tiers_are_chosen() {
    assert!(matches!(handle_tier_command(None), TierAction::Show));
    assert!(matches!(handle_tier_command(Some("small")), TierAction::Override { .. }));
    assert!(matches!(handle_tier_command(Some("auto")), TierAction::Clear));
    match handle_tier_command(Some("huge")) {
        TierAction::Complain { message } => {
            assert_eq!(message, "usage: /tier [small|medium|big|auto] (got huge)")
        },
        other => panic!("unexpected: {other:?}"),
    }
}

#[test]
fn plans_are_taken_over() {
    assert!(matches!(handle_plan_command(" "), PlanAction::Show));
    assert!(matches!(handle_plan_command("reject"), PlanAction::Reject));
    match handle_plan_command("edit  do it ") {
        PlanAction::Accept { text } => assert_eq!(text, "do it"),
        other => panic!("unexpected: {other:?}"),
    }
    match handle_plan_command("accept") {
        PlanAction::Complain { message } => assert_eq!(message, "usage: /plan accept <plan text>"),
        other => panic!("unexpected: {other:?}"),
    }
    assert!(matches!(handle_plan_command("what now"), PlanAction::Complain { .. }));
}

fn todo(text: &str, done: bool) -> TodoItem {
    TodoItem { text: text.to_string(), done }
}

#[test]
fn things_to_do_are_kept() {
    let list = vec![todo("a", false), todo("b", true)];
    let updated = |rest: &str| match handle_todo_command(rest, &list) {
        TodoAction::Update { items, said } => (items, said),
        other => panic!("unexpected: {other:?}"),
    };
    let (items, said) = updated("add  c d ");
    assert_eq!(items[2].text, "c d");
    assert_eq!(said, "todo added");
    let (items, said) = updated("done 1");
    assert!(items[0].done && items[1].done);
    assert_eq!(said, "todo updated");
    let (items, _) = updated("open 2");
    assert!(!items[1].done);
    assert_eq!(updated("clear").0.len(), 0);
    assert!(matches!(handle_todo_command("", &list), TodoAction::Show));
    for bad in ["done 0", "done 3", "done x", "add", "jump 1"] {
        assert!(matches!(handle_todo_command(bad, &list), TodoAction::Complain { .. }), "{bad}");
    }
    assert_eq!(print_todos(&list), "1. [ ] a\n2. [x] b\n");
    assert_eq!(print_todo_progress(&list), "todos: 1/2 done\n");
    assert_eq!(print_todos(&Vec::new()), "todos: none\n");
}

#[test]
fn changes_are_shown_and_rewound() {
    assert_eq!(git_diff_args(""), vec!["diff", "--no-color"]);
    assert_eq!(git_diff_args("cached"), vec!["diff", "--no-color", "--cached"]);
    assert_eq!(git_diff_args("src"), vec!["diff", "--no-color", "--", "src"]);
    assert!(matches!(handle_rewind_command("1"), RewindAction::Usage));
    assert!(matches!(handle_rewind_command("x p"), RewindAction::BadSeq { .. }));
    match handle_rewind_command("7 /p") {
        RewindAction::Rewind { seq, path } => assert_eq!((seq, path.as_str()), (7, "/p")),
        other => panic!("unexpected: {other:?}"),
    }
    assert_eq!(resume_hint("t go on"), "run: hugr resume t go on");
    assert!(resume_hint("").starts_with("usage:"));
    assert_eq!(print_review_prompt(" \n", "a\n"), "review: no unstaged diff\n");
    assert!(print_review_prompt("d", "a\n\nb\n").starts_with("review scope:\n- a\n- b\n\n"));
    assert_eq!(
        print_commit_message("", "docs/a\n"),
        "Implement documentation updates\n\n- update docs/a\n"
    );
    assert_eq!(print_commit_message("", " \n"), "commit message: no diff\n");
    let many: String = (0..12).map(|i| format!("f{i}\n")).collect();
    assert_eq!(print_commit_message(&many, "").matches("- update").count(), 8);
}

#[test]
fn commands_that_fail_in_silence_say_their_status() {
    assert_eq!(command_text(&b"out".to_vec(), &b"err".to_vec(), false, "1"), "outerr");
    assert_eq!(
        command_text(&Vec::new(), &Vec::new(), false, "exit status: 2"),
        "command exited with status exit status: 2"
    );
    assert_eq!(command_text(&vec![0xff], &Vec::new(), true, "0"), "\u{fffd}");
}

#[test]
fn the_log_says_what_is_going_on() {
    let log = vec![
        LogEntry { seq: 0, record: Record::SkillActivated { id: "s1".to_string() } },
        LogEntry { seq: 1, record: Record::Plan { text: "p".to_string() } },
        LogEntry { seq: 2, record: Record::SkillActivated { id: "s2".to_string() } },
        LogEntry { seq: 3, record: Record::TodoList { items: vec![todo("a", true)] } },
    ];
    assert_eq!(active_skill(&log), Some("s2".to_string()));
    assert_eq!(active_plan(&log), Some("p".to_string()));
    assert_eq!(active_todos(&log).len(), 1);
    assert_eq!(print_active("plan", &None), "plan: none\n");
    assert_eq!(print_active("active skill", &active_skill(&log)), "active skill: s2\n");
    let skills = vec![
        SkillStatus { id: "s2".to_string(), title: "T".to_string(), summary: None },
        SkillStatus {
            id: "s3".to_string(),
            title: "U".to_string(),
            summary: Some("sum".to_string()),
        },
    ];
    assert_eq!(
        print_skills(&skills, &active_skill(&log)),
        "skills:\n- s2 · T · active\n- s3 · U — sum\n"
    );
    assert_eq!(print_mcp_status(&Vec::new()), "mcp: no connected servers\n");
    let servers = vec![
        McpServerStatus { name: "a".to_string(), tools: Vec::new() },
        McpServerStatus {
            name: "b".to_string(),
            tools: vec!["x".to_string(), "y".to_string()],
        },
    ];
    assert_eq!(print_mcp_status(&servers), "mcp:\n- a · no tools\n- b · x, y\n");
}

#[test]
fn spending_and_context_are_shown() {
    let tiers = vec![TierSpend {
        selector: "medium".to_string(),
        model_calls: 2,
        input_tokens: 10,
        output_tokens: 4,
        latency_ms: 30,
        cost: Some("0.000100".to_string()),
    }];
    let routing = vec![RoutingDecision {
        selector: "medium".to_string(),
        reasons: vec!["a".to_string(), "b".to_string()],
    }];
    assert_eq!(
        print_spend_report(&tiers, &routing),
        "spend:\n- medium · 2 calls · in 10 / out 4 tok · 30 ms · $0.000100\nrouting:\n- medium · a; b\n"
    );
    assert_eq!(
        print_spend_report(&Vec::new(), &Vec::new()),
        "spend: no model calls yet\nrouting: no recorded model routing yet\n"
    );
    let plan = ContextPlan {
        used_tokens: 5,
        max_tokens: 10,
        included_tokens: 4,
        summarized_tokens: 1,
        referenced_tokens: 0,
        omitted_tokens: 7,
        entries: vec![
            ContextEntry {
                source: ContextSource::System,
                disposition: ContextDisposition::Included,
                est_tokens: 4,
                reason: "system".to_string(),
            },
            ContextEntry {
                source: ContextSource::LogEntry { seq: 3 },
                disposition: ContextDisposition::Omitted,
                est_tokens: 7,
                reason: "old".to_string(),
            },
        ],
    };
    assert_eq!(
        print_context_plan(&plan),
        "context: 5/10 tokens used (included 4, summarized 1, referenced 0, omitted 7)\nblocks: retained 1 · summaries 0 · refs 0 · omitted 1\n- system · included · 4 tok · system\n- log:3 · omitted · 7 tok · old\n"
    );
}

#[test]
fn steps_are_shown() {
    assert_eq!(summarize_event(&ShownEvent::Tick { now: 3 }), "Tick(now=3)");
    assert_eq!(summarize_event(&ShownEvent::ModelDone { op: 4 }), "ModelDone(op=4)");
    let agent = ShownCommand::StartAgent { op: 1, seed: 2 };
    assert_eq!(summarize_command(&agent), "StartAgent(op=1 · seed 2 entries)");
    let step = ShownStep {
        event: ShownEvent::UserAbort,
        commands: Vec::new(),
        appended: vec![ShownEntry { seq: 8, record: "R".to_string() }],
    };
    assert_eq!(
        print_step(&step, 0, 2),
        "\n── step 1/2 ─────────────\n  event:   UserAbort\n  command: (none)\n  log[8]: R\n"
    );
}

#[test]
fn sessions_are_announced() {
    assert_eq!(
        session_banner("m", "u", true, 3, true),
        "hugr · model m · u · yolo · 3 skills · recording"
    );
    assert_eq!(
        session_banner("m", "u", false, 0, false),
        "hugr · model m · u · auto-approve · 0 skills"
    );
    assert_eq!(
        resume_banner("/t", 4, "m", "u", false, "/o"),
        "hugr · resuming /t (4 events) · model m · u · auto-approve · recording → /o"
    );
    assert_eq!(
        schedule_banner("@daily", "m", "u", true),
        "hugr · scheduled fire @daily · model m · u · yolo"
    );
    assert_eq!(print_banner("x", true, false), "\u{1b}[2mx\u{1b}[0m\n");
    assert_eq!(print_banner("x", true, true), "x\n");
    assert_eq!(print_banner("x", false, false), "x\n");
    assert_eq!(recording_path("/t", None), "/t");
    assert_eq!(recording_path("/t", Some("/o".to_string())), "/o");
}

#[test]
fn lines_lead_to_steps() {
    let list = |l: &[&str]| l.iter().map(|s| s.to_string()).collect::<Vec<String>>();
    assert!(matches!(typed_line(None), LineStep::End));
    assert!(matches!(typed_line(Some(" \n")), LineStep::Again));
    assert!(matches!(typed_line(Some(" hi there \n")), LineStep::Turn { text } if text == "hi there"));
    assert!(matches!(
        typed_line(Some("/nope x\n")),
        LineStep::Command { command: ReplCommand::Unknown, line } if line == "/nope x"
    ));
    assert!(one_shot(&Vec::new()).is_none());
    assert!(matches!(one_shot(&list(&["a", "b"])), Some(LineStep::Turn { text }) if text == "a b"));
    assert!(matches!(
        one_shot(&list(&["/status"])),
        Some(LineStep::Command { command: ReplCommand::Status, .. })
    ));
    assert_eq!(scheduled_prompt(&list(&["a", "b"])), Ok("a b".to_string()));
    assert_eq!(scheduled_prompt(&list(&[" ", ""])), Err("scheduled prompt cannot be empty"));
    assert_eq!(plugin_command(" run  -x y"), ("run".to_string(), list(&["-x", "y"])));
    assert_eq!(plugin_command(" "), (String::new(), Vec::new()));
    let shown = skill_status(&vec![SkillBundle {
        id: "i".to_string(),
        title: "t".to_string(),
        summary: Some("s".to_string()),
        instructions: "x".to_string(),
    }]);
    assert_eq!(shown[0].summary, Some("s".to_string()));
}

#[test]
fn the_state_of_a_session_is_told() {
    assert_eq!(
        print_model_status("a=b", &Some("big".to_string())),
        "models: a=b\nnext turn tier override: big\n"
    );
    let status = Status {
        models: "a=b".to_string(),
        next_tier: None,
        used_tokens: 5,
        max_tokens: 10,
        percent: "50".to_string(),
        servers: Vec::new(),
        tiers: Vec::new(),
        routing: Vec::new(),
    };
    assert_eq!(
        print_status(&status, &Vec::new()),
        "models: a=b\nnext turn tier override: auto\ncontext: 5/10 tokens (50% full)\nmcp: no connected servers\nactive skill: none\nplan: none\ntodos: none\nspend: no model calls yet\nrouting: no recorded model routing yet\n"
    );
}

#[test]
fn schedules_have_one_target() {
    let some = |s: &str| Some(s.to_string());
    let dir = || "/d".to_string();
    assert!(matches!(
        schedule_target(some("t"), None, dir(), None),
        Ok(TriggerTarget::ResumeExisting { .. })
    ));
    assert!(matches!(
        schedule_target(None, some("n"), dir(), None),
        Ok(TriggerTarget::NamedPersistent { .. })
    ));
    assert!(matches!(
        schedule_target(None, None, dir(), some("f")),
        Ok(TriggerTarget::FreshSession { .. })
    ));
    assert!(schedule_target(None, None, dir(), None).is_err());
    assert!(schedule_target(some("t"), some("n"), dir(), None).is_err());
}

#[test]
fn skills_are_offered_with_their_size() {
    assert_eq!(estimate_text_tokens(""), 1);
    assert_eq!(estimate_text_tokens("12345"), 2);
    assert_eq!(estimate_text_tokens("éé"), 1);
    let offered = skill_descriptors(&vec![SkillBundle {
        id: "i".to_string(),
        title: "t".to_string(),
        summary: None,
        instructions: "12345678".to_string(),
    }]);
    assert_eq!(offered[0].est_tokens, 2);
}

#[test]
fn builds_are_asked_for_and_reported() {
    let list = |l: &[&str]| l.iter().map(|s| s.to_string()).collect::<Vec<String>>();
    assert_eq!(requested_surface(&list(&["cli"])).unwrap(), Surface::Program);
    assert_eq!(requested_surface(&list(&["cli", "python"])).unwrap(), Surface::Package);
    assert_eq!(requested_surface(&Vec::new()).unwrap(), Surface::Nothing);
    assert_eq!(
        requested_surface(&list(&["cli", "web"])).unwrap_err(),
        "unknown surface `web` (expected cli | python)"
    );
    assert_eq!(build_dir(None, "/a"), "/a/dist");
    assert_eq!(build_dir(Some("/o".to_string()), "/a"), "/o");
    let built = BuildOutcome { crate_dir: "/c".to_string(), binary: "/c/b".to_string() };
    assert!(built_text(&built).starts_with("built /c/b ✓\nrun it: /c/b "));
    let package = PythonBuildOutcome {
        crate_dir: "/c".to_string(),
        module: "m".to_string(),
        wheel: None,
    };
    assert_eq!(
        packaged_text(&package),
        "built python surface ✓ (/c)\nbuild the wheel: (cd /c && maturin build --release)\n"
    );
    assert!(created_text("./sky", Template::Blank).starts_with("created ./sky (blank template)\n"));
    assert_eq!(requested_template("blank"), Ok(Template::Blank));
    assert_eq!(
        requested_template("x").unwrap_err(),
        "unknown template `x` (expected weather | blank)"
    );
}

#[test]
fn runs_and_replays_are_reported() {
    assert_eq!(
        typed_run_out_dir("/tmp", "my agent", 0xab),
        "/tmp/huggr-run/my_agent-00000000000000ab"
    );
    assert_eq!(
        typed_run_out_dir("/tmp", "x", 18_446_744_073_709_551_615),
        format!("/tmp/huggr-run/x-{:016x}", 18_446_744_073_709_551_615u64)
    );
    assert!(is_pretty(&Vec::new()));
    assert!(!is_pretty(&vec!["--json".to_string()]));
    assert_eq!(run_failure("/b", "gone"), "running typed response shim /b: gone");
    let options = stats_options(Some("a".to_string()), None);
    assert_eq!(options.since.unwrap().as_str(), "a");
    assert!(options.trace.is_none());
    assert_eq!(event_kind("Tick { now: 1 }"), "Tick");
    assert_eq!(event_kind("Done(x)"), "Done");
    assert_eq!(event_kind("UserAbort"), "UserAbort");
    assert_eq!(
        replayed_event(0, 2, "Tick", 1, 3),
        "[1/2] event=Tick → 1 command(s), 3 log entr(ies)\n"
    );
    assert_eq!(
        replayed_text(&vec![1, 2], 4),
        "replayed 2 event(s), 3 command(s), 4 log entr(ies)\n"
    );
}

#[test]
fn test_directories_are_told_apart() {
    let d = TempDir::new("/tmp", "x", 7, 9);
    assert_eq!(d.path(), "/tmp/huggr-x-7-9");
}
