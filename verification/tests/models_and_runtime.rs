use huggr::agent::analytics::{DurationStats, StatsTotals};
use huggr::agent::collect::{AgentStats, ChildAgentStats, ModelStats, ToolStats};
use huggr::assemble::{
    build_agent, build_agent_with_options, Host, ResponseContract, RuntimeOptions, ToolStep,
};
use huggr::dates::{civil_from_days, utc_date};
use huggr::definition::{
    AgentDefinition, ContextConfig, ProviderConfig, RuntimeArg, TierConfig, ToolGrant, ToolKind,
};
use huggr::delegation::{
    ask_output, build_agent_feedback_tool, build_agent_tool, build_delegate_tool, child_capture,
    command_and_args, feedback_args, feedback_outcome, feedback_reply, feedback_result,
    read_bounded, remaining_agent_depth, subprocess_args, subprocess_env, subprocess_failure,
    ChildRun, Delegation, MAX_CAPTURE_BYTES,
};
use huggr::agent::blobs::{BlobHandle, BlobPerms, BlobRef};
use huggr::environment::Environment;
use huggr::json::{Data, Members};
use huggr::models::{
    catalog_from_resolved, closest_model, default_catalog, load_global_catalog_if_exists,
    load_or_create_global_catalog, models_file_path, resolve_bundled_definition_with_host,
    resolve_catalog_definition_with_env, resolve_runtime_definition,
    resolve_source_definition_with_env, snapshot_path, CatalogStep, ModelCatalog, ModelConfigError,
    DEFAULT_MODELS_TOML,
};
use huggr::runtime::{
    agent_home_dir, budget_policy, context_policy, global_blob_store_dir, render_system_prompt,
    sanitize_agent_name, trace_store_for, RuntimeError, BLOB_STORE_ENV,
};
use huggr::runtime_args::{
    apply_runtime_values, is_path_like_target, RuntimeArgError, RuntimeValues,
};
use huggr::stats::{format_usd, render_stats};
use huggr::table::Table;
use huggr::tools::disk::{Disk, Kind, Node};
use huggr::trace::TraceId;

fn tier(provider: &str, model: &str) -> TierConfig {
    TierConfig {
        provider: provider.to_string(),
        model: model.to_string(),
        input_usd_per_m_tokens: None,
        output_usd_per_m_tokens: None,
    }
}

fn provider(url: &str, key: &str) -> ProviderConfig {
    ProviderConfig { base_url: url.to_string(), api_key_env: key.to_string() }
}

fn catalog(name: &str, url: &str, key: &str, models: Vec<(&str, &str)>) -> ModelCatalog {
    let mut providers: Table<ProviderConfig> = Table::new();
    providers.insert(name, provider(url, key));
    let mut tiers: Table<TierConfig> = Table::new();
    for (t, m) in models {
        tiers.insert(t, tier(name, m));
    }
    ModelCatalog { providers, models: tiers }
}

fn def(name: &str, default: &str) -> AgentDefinition {
    let mut d = AgentDefinition::named(name);
    d.models.default = Some(default.to_string());
    d
}

fn grant(name: &str, kind: ToolKind, config: Data) -> ToolGrant {
    ToolGrant { name: name.to_string(), kind, config }
}

fn obj(key: &str, value: Data) -> Data {
    Members::new().with(key, value).object()
}

fn strings(list: &[&str]) -> Data {
    Data::strings(&list.iter().map(|s| s.to_string()).collect())
}

fn env(pairs: &[(&str, &str)]) -> Environment {
    let mut e = Environment::new();
    for (k, v) in pairs {
        e.set(k, v);
    }
    e
}

fn dir(path: &str) -> Node {
    Node {
        path: path.to_string(),
        kind: Kind::Dir,
        bytes: 0,
        content: Vec::new(),
        entries: Vec::new(),
    }
}

fn file(path: &str) -> Node {
    Node {
        path: path.to_string(),
        kind: Kind::File,
        bytes: 0,
        content: Vec::new(),
        entries: Vec::new(),
    }
}

fn host(nodes: Vec<Node>, vars: &[(&str, &str)]) -> Host {
    Host {
        env: env(vars),
        disk: Disk::of(nodes, Vec::new()),
        temp_dir: "/tmp".to_string(),
        exe: Ok("/usr/bin/huggr".to_string()),
        date: "2026-01-02".to_string(),
    }
}

// ----- models -----

#[test]
fn missing_tiers_prefer_the_nearest_lower_tier() {
    let c = catalog(
        "p",
        "https://example.com/v1",
        "KEY",
        vec![("balanced", "b"), ("powerful", "p")],
    );
    let d = def("x", "max");
    let resolved = resolve_source_definition_with_env(&d, &c, &Environment::new()).unwrap();
    assert_eq!(resolved.models.tiers.get("fast").unwrap().model, "b");
    assert_eq!(resolved.models.tiers.get("max").unwrap().model, "p");
    assert_eq!(resolved.model_sources.get("max").unwrap().resolved_from, "powerful");
}

#[test]
fn manifest_then_environment_then_catalog_precedence() {
    let c = default_catalog();
    let mut d = def("x", "powerful");
    d.providers.insert("local", provider("http://localhost:1234/v1", "LOCAL_KEY"));
    d.models.tiers.insert("fast", tier("local", "local-fast"));
    let e = env(&[("HUGGR_MODEL_BALANCED", "env-balanced")]);
    let resolved = resolve_source_definition_with_env(&d, &c, &e).unwrap();
    assert_eq!(resolved.models.tiers.get("fast").unwrap().model, "local-fast");
    assert_eq!(resolved.model_sources.get("fast").unwrap().source, "manifest");
    assert_eq!(resolved.models.tiers.get("balanced").unwrap().model, "env-balanced");
    assert_eq!(resolved.model_sources.get("balanced").unwrap().source, "environment");
    assert_eq!(resolved.model_sources.get("powerful").unwrap().source, "global");
}

fn price(text: &Option<String>) -> Option<f64> {
    text.as_ref().map(|t| t.parse::<f64>().unwrap())
}

#[test]
fn default_catalog_uses_requested_models_and_powerful_for_max() {
    let c = default_catalog();
    assert_eq!(c.models.len(), 3);
    assert!(c.models.get("max").is_none());
    let fast = c.models.get("fast").unwrap();
    assert_eq!(fast.model, "deepseek-ai/DeepSeek-V4-Flash:fireworks-ai");
    assert_eq!(price(&fast.input_usd_per_m_tokens), Some(0.14));
    assert_eq!(price(&fast.output_usd_per_m_tokens), Some(0.28));
    let balanced = c.models.get("balanced").unwrap();
    assert_eq!(balanced.model, "google/gemma-4-31B-it:cerebras");
    assert_eq!(price(&balanced.input_usd_per_m_tokens), Some(1.0));
    assert_eq!(price(&balanced.output_usd_per_m_tokens), Some(1.5));
    let powerful = c.models.get("powerful").unwrap();
    assert_eq!(price(&powerful.input_usd_per_m_tokens), Some(1.4));
    assert_eq!(price(&powerful.output_usd_per_m_tokens), Some(4.4));

    let d = def("x", "max");
    let resolved = resolve_source_definition_with_env(&d, &c, &Environment::new()).unwrap();
    assert_eq!(resolved.models.tiers.get("max").unwrap().model, "zai-org/GLM-5.2:together");
    assert_eq!(resolved.model_sources.get("max").unwrap().resolved_from, "powerful");
}

#[test]
fn the_built_in_catalog_is_what_its_text_says() {
    let table: toml::Table = toml::from_str(DEFAULT_MODELS_TOML).unwrap();
    let c = default_catalog();
    let models = table["models"].as_table().unwrap();
    assert_eq!(models.len(), c.models.len());
    for (name, m) in models {
        let t = c.models.get(name).unwrap();
        assert_eq!(m["model"].as_str(), Some(t.model.as_str()));
        assert_eq!(m["provider"].as_str(), Some(t.provider.as_str()));
        let number = |v: &toml::Value| v.as_float().or(v.as_integer().map(|i| i as f64));
        assert_eq!(number(&m["input_usd_per_m_tokens"]), price(&t.input_usd_per_m_tokens));
        assert_eq!(number(&m["output_usd_per_m_tokens"]), price(&t.output_usd_per_m_tokens));
    }
    let providers = table["providers"].as_table().unwrap();
    assert_eq!(providers.len(), c.providers.len());
    for (name, p) in providers {
        let q = c.providers.get(name).unwrap();
        assert_eq!(p["base_url"].as_str(), Some(q.base_url.as_str()));
        assert_eq!(p["api_key_env"].as_str(), Some(q.api_key_env.as_str()));
    }
}

#[test]
fn first_load_writes_the_default_catalog() {
    let absent = ModelConfigError::Read {
        path: "/m".to_string(),
        source: "gone".to_string(),
        not_found: true,
    };
    match load_or_create_global_catalog(Err(absent)) {
        CatalogStep::CreateAndLoad(text) => assert_eq!(text, DEFAULT_MODELS_TOML),
        other => panic!("unexpected step: {other:?}"),
    }
    let denied = ModelConfigError::Read {
        path: "/m".to_string(),
        source: "denied".to_string(),
        not_found: false,
    };
    assert!(matches!(load_or_create_global_catalog(Err(denied)), CatalogStep::Fail(_)));
    assert!(matches!(
        load_or_create_global_catalog(Ok(default_catalog())),
        CatalogStep::Have(_)
    ));
    let absent = ModelConfigError::Read {
        path: "/m".to_string(),
        source: "gone".to_string(),
        not_found: true,
    };
    assert!(load_global_catalog_if_exists(Err(absent)).unwrap().is_none());
}

#[test]
fn runtime_host_catalog_replaces_the_bundled_snapshot() {
    let mut d = def("x", "max");
    d.source_dir = Some("/bundle".to_string());
    let host = catalog("host", "https://host.example/v1", "HOST_KEY", vec![("balanced", "host-model")]);
    let resolved = resolve_bundled_definition_with_host(
        &d,
        Ok(default_catalog()),
        None,
        Some(&host),
        &Environment::new(),
    )
    .unwrap();
    assert_eq!(resolved.models.tiers.get("max").unwrap().model, "host-model");
    assert_eq!(resolved.model_sources.get("max").unwrap().source, "global");
    assert_eq!(resolved.model_sources.get("max").unwrap().resolved_from, "balanced");
}

#[test]
fn snapshots_settle_to_the_same_models() {
    let mut d = def("x", "balanced");
    d.source_dir = Some("/a".to_string());
    let first =
        resolve_source_definition_with_env(&d, &default_catalog(), &Environment::new()).unwrap();
    let snapshot = catalog_from_resolved(&first);
    let again =
        resolve_catalog_definition_with_env(&d, &snapshot, "snapshot", &Environment::new()).unwrap();
    for t in ["fast", "balanced", "powerful", "max"] {
        assert_eq!(
            first.models.tiers.get(t).unwrap().model,
            again.models.tiers.get(t).unwrap().model
        );
        assert_eq!(again.model_sources.get(t).unwrap().resolved_from, t);
    }
    assert!(snapshot_path(&d).starts_with("/a/"));
}

#[test]
fn settling_again_changes_nothing() {
    let mut d = def("x", "balanced");
    d.providers.insert("own", provider("https://own", "OWN"));
    d.models.tiers.insert("max", tier("own", "m"));
    let c = default_catalog();
    let set = env(&[("HUGGR_MODEL_FAST", "named"), ("HUGGR_MODEL_BALANCED", "  ")]);
    let once = resolve_source_definition_with_env(&d, &c, &set).unwrap();
    assert_eq!(once.models.tiers.get("fast").unwrap().model, "named");
    assert_eq!(
        once.models.tiers.get("balanced").unwrap().model,
        c.models.get("balanced").unwrap().model
    );
    assert_eq!(once.models.tiers.len(), 4);
    assert_eq!(once.model_sources.len(), 4);
    assert_eq!(once.providers.len(), c.providers.len() + 1);
    let later = env(&[("HUGGR_MODEL_FAST", "another")]);
    for e in [set, later] {
        let again = resolve_source_definition_with_env(&once, &c, &e).unwrap();
        for t in ["fast", "balanced", "powerful", "max"] {
            let (a, b) = (again.models.tiers.get(t).unwrap(), once.models.tiers.get(t).unwrap());
            assert_eq!((&a.model, &a.provider), (&b.model, &b.provider));
        }
        assert_eq!(again.providers.len(), once.providers.len());
        assert_eq!(again.agent.name, d.agent.name);
    }
}

#[test]
fn snapshots_hold_no_spare_provider() {
    let mut d = def("x", "balanced");
    d.providers.insert("own", provider("https://own", "OWN"));
    d.providers.insert("spare", provider("https://spare", "SPARE"));
    d.models.tiers.insert("max", tier("own", "m"));
    let settled =
        resolve_source_definition_with_env(&d, &default_catalog(), &Environment::new()).unwrap();
    let snapshot = catalog_from_resolved(&settled);
    assert!(snapshot.validate().is_ok());
    assert_eq!(snapshot.models.len(), 4);
    assert!(snapshot.providers.get("spare").is_none());
    assert_eq!(snapshot.providers.get("own").unwrap().base_url, "https://own");
    assert_eq!(snapshot.providers.len(), 2);
    for i in 0..snapshot.providers.len() {
        let mut providers: Table<ProviderConfig> = Table::new();
        for j in 0..snapshot.providers.len() {
            if j != i {
                let p = snapshot.providers.value_at(j);
                let kept = provider(&p.base_url, &p.api_key_env);
                providers.insert(snapshot.providers.key_at(j), kept);
            }
        }
        let mut models: Table<TierConfig> = Table::new();
        for j in 0..snapshot.models.len() {
            let m = snapshot.models.value_at(j);
            models.insert(snapshot.models.key_at(j), tier(&m.provider, &m.model));
        }
        assert!(ModelCatalog { providers, models }.validate().is_err());
    }
}

#[test]
fn an_explicit_catalog_overrides_what_a_definition_declares() {
    let mut d = def("x", "fast");
    d.models.tiers.insert("fast", tier("local", "declared"));
    let explicit = catalog("e", "u", "K", vec![("fast", "explicit")]);
    let global = catalog("g", "u", "K", vec![("fast", "global")]);
    let r = resolve_runtime_definition(&d, Some(&explicit), Some(&global), &Environment::new())
        .unwrap();
    assert_eq!(r.models.tiers.get("fast").unwrap().model, "explicit");
    assert_eq!(r.model_sources.get("fast").unwrap().source, "runtime");
    let r = resolve_runtime_definition(&d, None, Some(&global), &Environment::new()).unwrap();
    assert_eq!(r.model_sources.get("max").unwrap().source, "global");
    let r = resolve_runtime_definition(&d, None, None, &Environment::new()).unwrap();
    assert_eq!(r.model_sources.get("max").unwrap().source, "built_in");
}

#[test]
fn every_catalog_error_has_its_input() {
    let empty = ModelCatalog { providers: Table::new(), models: Table::new() };
    assert!(matches!(empty.validate(), Err(ModelConfigError::Empty)));
    let strange = catalog("p", "u", "K", vec![("huge", "m")]);
    assert!(matches!(strange.validate(), Err(ModelConfigError::UnknownTier(_))));
    let blank = catalog("p", "u", "K", vec![("fast", "  ")]);
    assert!(matches!(blank.validate(), Err(ModelConfigError::EmptyModel { .. })));
    let mut orphan = catalog("p", "u", "K", vec![("fast", "m")]);
    orphan.models.insert("max", tier("q", "m"));
    match orphan.validate() {
        Err(ModelConfigError::UnknownProvider { tier, provider }) => {
            assert_eq!(tier, "max");
            assert_eq!(provider, "q");
        },
        other => panic!("unexpected: {other:?}"),
    }
    assert!(closest_model(&default_catalog(), "huge").is_err());
    let (model, from) = closest_model(&default_catalog(), "max").unwrap();
    assert_eq!(from, "powerful");
    assert_eq!(model.model, "zai-org/GLM-5.2:together");
}

#[test]
fn the_catalog_has_a_place() {
    assert_eq!(
        models_file_path(&env(&[("HOME", "/home/me")]), "/tmp"),
        "/home/me/.huggr/models.toml"
    );
}

// ----- prompts and places -----

fn policy_docs() -> AgentDefinition {
    let mut d = def("policy-docs", "balanced");
    d.tools.push(grant("fs_read", ToolKind::Library, obj("root", Data::string("."))));
    d
}

#[test]
fn renders_template_vars() {
    let mut d = policy_docs();
    d.system_prompt =
        Some("Agent {{agent_name}} has tools: {{tools}}. Today is {{date}}.".to_string());
    let prompt = render_system_prompt(&d, "2026-01-02");
    assert!(prompt.contains("Agent policy-docs has tools:"));
    assert!(prompt.contains("fs_read"));
    assert!(prompt.contains("scratch_read"));
    assert!(prompt.contains("Use `fs_list`, `fs_search`, `fs_grep`, or `fs_glob`"));
    assert!(!prompt.contains("Use `web_fetch` to retrieve"));
    assert!(!prompt.contains("{{"), "all vars substituted: {prompt}");
    assert!(prompt.contains("Today is 2026-01-02."));
}

#[test]
fn runtime_guidance_covers_only_granted_builtin_families() {
    let mut d = def("worker", "balanced");
    d.tools.push(grant("fs_write", ToolKind::Library, obj("root", Data::string("."))));
    d.tools.push(grant("shell", ToolKind::Library, obj("allow_commands", strings(&["cargo"]))));
    d.tools.push(grant("web_search", ToolKind::Library, Members::new().object()));
    d.tools.push(grant("web_fetch", ToolKind::Library, obj("allow_hosts", strings(&["example.com"]))));
    let prompt = render_system_prompt(&d, "2026-01-02");
    assert!(prompt.contains("Use `fs_write` for requested persistent files"));
    assert!(prompt.contains("Use `shell` when an allowed command"));
    assert!(prompt.contains("Use `web_search` to find current"));
    assert!(prompt.contains("Use `web_fetch` to retrieve"));
    assert!(!prompt.contains("Use `fs_list`, `fs_search`, `fs_grep`, or `fs_glob`"));
    assert!(!prompt.contains("Durable memory is shared"));
}

#[test]
fn civil_date_matches_known_epochs() {
    assert_eq!(civil_from_days(0), (1970, 1, 1));
    assert_eq!(civil_from_days(18_993), (2022, 1, 1));
    assert_eq!(civil_from_days(-1), (1969, 12, 31));
}

#[test]
fn leap_days_have_dates() {
    assert_eq!(civil_from_days(11_016), (2000, 2, 29));
    assert_eq!(civil_from_days(11_017), (2000, 3, 1));
    assert_eq!(civil_from_days(-25_509), (1900, 2, 28));
    assert_eq!(civil_from_days(-25_508), (1900, 3, 1));
    assert_eq!(utc_date(951_782_400), "2000-02-29");
    assert_eq!(utc_date(0), "1970-01-01");
}

#[test]
fn agent_home_resolution_precedence_and_sanitization() {
    let temp = "/tmp/fallback";
    assert_eq!(
        agent_home_dir("my agent!", &env(&[("HUGGR_AGENT_HOME", "/override")]), temp),
        "/override"
    );
    assert_eq!(
        agent_home_dir(
            "my agent!",
            &env(&[("HUGGR_HOME", "/huggr-home"), ("HOME", "/home/me")]),
            temp
        ),
        "/huggr-home/my_agent_"
    );
    assert_eq!(
        agent_home_dir("my agent!", &env(&[("HOME", "/home/me")]), temp),
        "/home/me/.huggr/my_agent_"
    );
    assert_eq!(
        agent_home_dir("my agent!", &Environment::new(), temp),
        "/tmp/fallback/.huggr/my_agent_"
    );
    assert_eq!(sanitize_agent_name("a/b..c"), "a_b..c");
    assert_eq!(sanitize_agent_name(".."), "agent");
    assert_eq!(sanitize_agent_name(""), "agent");
}

#[test]
fn global_blob_store_resolution_precedence() {
    let temp = "/tmp/fallback";
    assert_eq!(
        global_blob_store_dir(&env(&[(BLOB_STORE_ENV, "/blob-store")]), temp),
        "/blob-store"
    );
    assert_eq!(
        global_blob_store_dir(
            &env(&[("HUGGR_HOME", "/huggr-home"), ("HOME", "/home/me")]),
            temp
        ),
        "/huggr-home/blobs"
    );
    assert_eq!(
        global_blob_store_dir(&env(&[("HOME", "/home/me")]), temp),
        "/home/me/.huggr/blobs"
    );
    assert_eq!(
        global_blob_store_dir(&Environment::new(), temp),
        "/tmp/fallback/.huggr/blobs"
    );
}

#[test]
fn traces_are_kept_below_the_home_of_an_agent() {
    let d = def("x", "balanced");
    assert_eq!(
        trace_store_for(&d, &env(&[("HUGGR_HOME", "/h")]), "/tmp"),
        "/h/x/traces"
    );
}

// ----- assembling -----

fn tool_names(plan: &huggr::assemble::AgentPlan) -> Vec<String> {
    let mut names: Vec<String> = Vec::new();
    for step in &plan.steps {
        match step {
            ToolStep::Library(g) => names.extend(g.tools.iter().cloned()),
            ToolStep::Delegate(w) => names.push(w.name.clone()),
            ToolStep::Mcp { name, .. } => names.push(name.clone()),
            ToolStep::Agent { wiring, feedback } => {
                names.push(wiring.name.clone());
                names.push(feedback.name.clone());
            },
        }
    }
    names
}

#[test]
fn builds_an_agent_with_library_tools() {
    let mut d = policy_docs();
    d.source_dir = Some("/work".to_string());
    let plan = build_agent(&d, &host(vec![dir("/work")], &[])).unwrap();
    assert_eq!(plan.name, "policy-docs");
    assert!(plan.system_prompt.contains("scratch_write"));
    let names = tool_names(&plan);
    for t in ["fs_read", "fs_search", "fs_grep", "fs_glob"] {
        assert!(names.contains(&t.to_string()), "{names:?}");
    }
    assert_eq!(plan.warnings.len(), 1, "{:?}", plan.warnings);
}

#[test]
fn context_config_builds_budget_policy() {
    let mut d = def("x", "balanced");
    d.context.budget_tokens = Some(64);
    d.context.compaction = Some("summarize".to_string());
    d.context.trigger_tokens = Some(48);
    d.context.keep_recent_tokens = Some(16);
    d.context.max_block_tokens = Some(8);
    d.context.summary_model = Some("fast".to_string());
    d.context.keep_last_per_tool.insert("page_snapshot", 1);
    let policy = context_policy(&d).unwrap();
    assert_eq!(policy.budget_tokens, 64);
    assert_eq!(policy.trigger_tokens, Some(48));
    assert_eq!(policy.summary_selector, Some("fast".to_string()));
    assert_eq!(policy.keep_last_per_tool.get("page_snapshot"), Some(&1));
    assert!(context_policy(&def("x", "balanced")).is_none());
    let mut c = ContextConfig::new();
    c.compaction = Some("drop".to_string());
    let policy = budget_policy(&c, Some("fast")).unwrap();
    assert_eq!(policy.budget_tokens, 128_000);
    assert_eq!(policy.summary_selector, None);
    c.compaction = Some("summarize".to_string());
    assert_eq!(budget_policy(&c, Some("fast")).unwrap().summary_selector, Some("fast".to_string()));
    assert_eq!(budget_policy(&c, None).unwrap().summary_selector, Some("medium".to_string()));
}

#[test]
fn memory_grant_is_planned() {
    let mut d = def("x", "balanced");
    d.tools.push(grant("memory", ToolKind::Library, obj("readonly", Data::boolean(true))));
    let plan = build_agent(&d, &host(Vec::new(), &[])).unwrap();
    assert!(plan.memory.as_ref().unwrap().readonly);
}

#[test]
fn agent_as_tool_artifact_grant_registers_agent_tool() {
    let mut d = def("parent", "balanced");
    d.source_dir = Some("/work".to_string());
    d.tools.push(grant("helper", ToolKind::Agent, obj("artifact", Data::string("/work/child-bin"))));
    let plan = build_agent(&d, &host(vec![dir("/work"), file("/work/child-bin")], &[])).unwrap();
    let names = tool_names(&plan);
    assert!(names.contains(&"agent_helper".to_string()), "{names:?}");
    assert!(names.contains(&"agent_helper_feedback".to_string()), "{names:?}");
    assert_eq!(plan.warnings.len(), 1, "{:?}", plan.warnings);
}

#[test]
fn delegate_grant_registers_self_agent_tool() {
    let mut d = def("self", "balanced");
    d.source_dir = Some("/work".to_string());
    d.tools.push(grant("delegate", ToolKind::Library, Members::new().object()));
    let plan = build_agent(&d, &host(vec![dir("/work"), file("/usr/bin/huggr")], &[])).unwrap();
    let names = tool_names(&plan);
    assert!(names.contains(&"delegate".to_string()), "{names:?}");
}

#[test]
fn agent_as_tool_bad_artifact_is_a_build_error() {
    let mut d = def("x", "balanced");
    d.source_dir = Some("/work".to_string());
    d.tools.push(grant("receipts", ToolKind::Agent, obj("artifact", Data::string("./does-not-exist"))));
    let err = build_agent(&d, &host(vec![dir("/work")], &[])).unwrap_err();
    assert!(matches!(err, RuntimeError::Agent { .. }), "{}", err.message());
}

#[test]
fn mcp_grant_missing_command_is_a_build_error() {
    let mut d = def("x", "balanced");
    d.tools.push(grant("docs", ToolKind::Mcp, obj("args", strings(&["--stdio"]))));
    let err = build_agent(&d, &host(Vec::new(), &[])).unwrap_err();
    assert!(matches!(err, RuntimeError::MissingCommand(_)), "{}", err.message());
}

#[test]
fn a_host_catalog_and_a_response_contract_are_taken_over() {
    let d = def("x", "balanced");
    let c = catalog("p", "https://p", "P_KEY", vec![("balanced", "m")]);
    let options = RuntimeOptions::new().with_model_catalog(c).with_response_contract(
        "x::Response",
        ResponseContract { name: "x__Response".to_string(), schema: Members::new().object() },
    );
    assert_eq!(options.single_response_contract().unwrap().name, "x__Response");
    assert!(options.response_contract("y::Response").is_none());
    let plan =
        build_agent_with_options(&d, &options, &host(Vec::new(), &[("P_KEY", "secret")])).unwrap();
    assert_eq!(plan.warnings.len(), 0, "{:?}", plan.warnings);
    assert_eq!(plan.models.len(), 4);
}

// ----- delegation -----

#[test]
fn depth_runs_out() {
    assert_eq!(remaining_agent_depth(&env(&[("HUGGR_AGENT_DEPTH", "0")])), 0);
    let disk = Disk::of(vec![file("/bin/child")], Vec::new());
    let g = grant("c", ToolKind::Agent, obj("artifact", Data::string("/bin/child")));
    let stopped = build_agent_tool(&g, "/", &disk, 0).unwrap();
    assert!(matches!(stopped.call, Delegation::Refused { .. }));
    match build_agent_tool(&g, "/", &disk, 2).unwrap().call {
        Delegation::Run { depth, .. } => assert_eq!(depth, 1),
        other => panic!("unexpected: {other:?}"),
    }
    let me = grant("delegate", ToolKind::Library, Members::new().object());
    let own = build_delegate_tool(&me, "/", &disk, 1, Ok("/bin/child")).unwrap();
    assert_eq!(own.name, "delegate");
    let feedback = build_agent_feedback_tool(&g, "/", &disk).unwrap();
    assert_eq!(feedback.schema().name, "agent_c_feedback");
}

#[test]
fn subprocess_agent_forwards_sha256_blobs() {
    let blob = |r: BlobRef| BlobHandle {
        blob_ref: r,
        media_type: "text/plain".to_string(),
        name: Some("input.txt".to_string()),
        perms: BlobPerms { read: true, write: false, execute: false },
    };
    let blobs = vec![blob(BlobRef::Sha256 { sha256: "sha256:abc".to_string() })];
    let args = subprocess_args("child question", Some(&TraceId::new("t1")), &blobs).unwrap();
    assert!(args.contains(&"child question".to_string()));
    assert!(args.contains(&"--blob".to_string()));
    assert!(args.iter().any(|a| a.contains("sha256:abc")));
    assert!(args.contains(&"t1".to_string()));
    let inline = vec![blob(BlobRef::Bytes { base64: "aGk=".to_string() })];
    assert!(subprocess_args("q", None, &inline).is_err());
    assert!(subprocess_failure("/bin/child", "exit 1", &b" boom\n".to_vec()).contains("boom"));
}

#[test]
fn feedback_goes_to_the_child() {
    let args = feedback_args("child-trace", "{\"score\":1}");
    assert!(args.contains(&"--feedback".to_string()));
    assert!(args.contains(&"child-trace".to_string()));
    assert!(args.contains(&"--feedback-payload".to_string()));
    let taken = feedback_result(&b"{\"trace_id\": \"t\"}".to_vec()).unwrap();
    assert_eq!(taken.get("trace_id").and_then(|v| v.as_str()), Some("t"));
    let refused = b"{\"status\": \"error\", \"response\": {\"error\": \"no such trace\"}}".to_vec();
    assert_eq!(feedback_result(&refused).unwrap_err(), "no such trace");
    let unsaid = b"{\"status\": \"error\"}".to_vec();
    assert_eq!(feedback_result(&unsaid).unwrap_err(), "feedback failed");
    assert!(feedback_result(&b"{".to_vec()).unwrap_err().starts_with("parsing feedback result: "));
    let status = serde_json::from_str("{\"status\": 3}").unwrap();
    assert!(feedback_reply(status).is_ok());
    assert_eq!(
        feedback_outcome("/b", ChildRun::NotStarted("gone".to_string())).unwrap_err(),
        "spawning huglet `/b` for feedback: gone"
    );
    let failed =
        ChildRun::Failed { status: "exit status: 1".to_string(), stderr: b" boom\n".to_vec() };
    assert_eq!(
        feedback_outcome("/b", failed).unwrap_err(),
        "huglet `/b` feedback exited with exit status: 1: boom"
    );
    let done = ChildRun::Finished { stdout: b"{}".to_vec() };
    assert!(feedback_outcome("/b", done).is_ok());
    assert_eq!(
        ask_output("/b", ChildRun::NotStarted("gone".to_string())).unwrap_err(),
        "spawning huglet `/b`: gone"
    );
    let said = ChildRun::Finished { stdout: b"x".to_vec() };
    assert_eq!(ask_output("/b", said).unwrap(), b"x".to_vec());
}

#[test]
fn printed_bytes_are_bounded() {
    let chunks = vec![b"abc".to_vec(), b"".to_vec(), b"defg".to_vec(), b"h".to_vec()];
    assert_eq!(read_bounded(&chunks, 5), b"abcde".to_vec());
    assert_eq!(read_bounded(&chunks, 100), b"abcdefgh".to_vec());
    assert_eq!(read_bounded(&chunks, 0), b"".to_vec());
    assert_eq!(MAX_CAPTURE_BYTES, 8 * 1024 * 1024);
    let mut capture = child_capture();
    capture.take(&vec![7u8; 8 * 1024 * 1024]);
    assert!(!capture.is_truncated());
    capture.take(&vec![7u8; 1]);
    assert!(capture.is_truncated());
    assert_eq!(capture.bytes().len(), 8 * 1024 * 1024);
}

#[test]
fn called_agents_are_told_how_deep_they_are() {
    let env = subprocess_env(2, "/blobs");
    assert_eq!(
        env,
        vec![
            ("HUGGR_AGENT_DEPTH".to_string(), "2".to_string()),
            ("HUGGR_BLOB_STORE".to_string(), "/blobs".to_string()),
        ]
    );
}

#[test]
fn commands_come_with_their_arguments() {
    let g = grant(
        "docs",
        ToolKind::Mcp,
        Members::new()
            .with("command", Data::string("server"))
            .with("args", strings(&["--root", "."]))
            .object(),
    );
    let (program, args) = command_and_args(&g).unwrap();
    assert_eq!(program, "server");
    assert_eq!(args, vec!["--root", "."]);
}

// ----- arguments -----

fn docs_with(required: bool, granted: bool) -> AgentDefinition {
    let mut d = AgentDefinition::named("docs");
    d.models.tiers.insert("medium", tier("p", "m"));
    if granted {
        d.tools.push(grant("fs_read", ToolKind::Library, obj("root", Data::string("."))));
    }
    d.runtime.args.push(RuntimeArg {
        name: "docs_path".to_string(),
        target: "tools.fs_read.root".to_string(),
        env: None,
        default: None,
        required,
        positional: false,
        help: "".to_string(),
    });
    d
}

#[test]
fn applies_runtime_value_to_tool_scope() {
    let mut d = docs_with(true, true);
    let mut values: RuntimeValues = Table::new();
    values.insert("docs_path", "/tmp/docs".to_string());
    apply_runtime_values(&mut d, &values, &Environment::new(), "/cwd").unwrap();
    assert_eq!(d.tools[0].config.get_str("root"), Some("/tmp/docs"));
}

#[test]
fn relative_runtime_paths_are_cwd_relative() {
    let mut d = docs_with(false, true);
    let mut values: RuntimeValues = Table::new();
    values.insert("docs_path", "docs".to_string());
    apply_runtime_values(&mut d, &values, &Environment::new(), "/cwd").unwrap();
    assert_eq!(d.tools[0].config.get_str("root"), Some("/cwd/docs"));
}

#[test]
fn required_runtime_arg_is_enforced() {
    let mut d = docs_with(true, false);
    let none: RuntimeValues = Table::new();
    let err = apply_runtime_values(&mut d, &none, &Environment::new(), "/cwd").unwrap_err();
    assert!(matches!(err, RuntimeArgError::Missing(_)), "{}", err.message());
}

#[test]
fn given_values_come_before_the_environment_and_the_default() {
    let mut d = docs_with(true, true);
    d.runtime.args[0].env = Some("DOCS".to_string());
    d.runtime.args[0].default = Some("/default".to_string());
    let none: RuntimeValues = Table::new();
    apply_runtime_values(&mut d, &none, &env(&[("DOCS", "/env")]), "/cwd").unwrap();
    assert_eq!(d.tools[0].config.get_str("root"), Some("/env"));
    apply_runtime_values(&mut d, &none, &env(&[("DOCS", "")]), "/cwd").unwrap();
    assert_eq!(d.tools[0].config.get_str("root"), Some("/default"));
    let mut ungranted = docs_with(true, false);
    let mut values: RuntimeValues = Table::new();
    values.insert("docs_path", "/x".to_string());
    let err =
        apply_runtime_values(&mut ungranted, &values, &Environment::new(), "/cwd").unwrap_err();
    assert!(matches!(err, RuntimeArgError::Target { .. }), "{}", err.message());
    assert!(is_path_like_target("tools.fs_read.root"));
    assert!(!is_path_like_target("models.default"));
}

// ----- statistics in words -----

#[test]
fn formats_micro_usd_as_usd() {
    assert_eq!(format_usd(0), "$0.00");
    assert_eq!(format_usd(1), "<$0.01");
    assert_eq!(format_usd(9_999), "<$0.01");
    assert_eq!(format_usd(10_000), "$0.01");
    assert_eq!(format_usd(85_855), "$0.09");
    assert_eq!(format_usd(1_300_000), "$1.30");
}

#[test]
fn amounts_round_as_double_precision_does() {
    let mut amounts: Vec<u64> = vec![
        15_000,
        25_000,
        35_000,
        45_000,
        125_000,
        375_000,
        625_000,
        1_005_000,
        2_675_000,
        999_995_000,
        999_994_999,
        9_007_199_254_740_993,
        9_007_199_254_740_992,
        18_446_744_073_709_551_615,
        18_014_398_509_481_983,
        4_611_686_018_427_387_905,
    ];
    let mut x: u64 = 88_172_645_463_325_252;
    for _ in 0..20_000 {
        x ^= x << 13;
        x ^= x >> 7;
        x ^= x << 17;
        let bits = x % 64;
        amounts.push((x >> bits).max(10_000));
        amounts.push(((x >> bits) / 5_000).max(2) * 5_000);
    }
    for n in amounts {
        assert_eq!(format_usd(n), format!("${:.2}", n as f64 / 1_000_000.0), "{n}");
    }
}

fn no_stats() -> AgentStats {
    AgentStats {
        ask_count: 0,
        feedback_count: 0,
        totals: StatsTotals::zero(),
        duration: DurationStats { mean_ms: 0, median_ms: 0, p95_ms: 0 },
        traces: Vec::new(),
        models: Vec::new(),
        tools: Vec::new(),
        children: Vec::new(),
    }
}

#[test]
fn renders_summary_and_sections() {
    let mut stats = no_stats();
    stats.ask_count = 2;
    stats.feedback_count = 1;
    stats.totals.cost_micro_usd = 1_300_000;
    stats.totals.cost_own_micro_usd = 1_290_000;
    stats.totals.cost_delegated_micro_usd = 10_000;
    stats.totals.model_calls = 3;
    stats.totals.tool_calls = 4;
    stats.models.push(ModelStats {
        selector: "medium".to_string(),
        calls: 3,
        tokens_in: 0,
        tokens_out: 0,
        cost_micro_usd: 5,
    });
    let rendered = render_stats(&stats);
    assert!(rendered.contains("asks: 2  feedback: 1"));
    assert!(rendered.contains("cost: total=$1.30 own=$1.29 delegated=$0.01"));
    assert!(rendered.contains("medium calls=3"));
    assert!(rendered.contains("cost=<$0.01"));
}

#[test]
fn every_section_is_rendered_in_full() {
    let mut stats = no_stats();
    stats.tools.push(ToolStats {
        name: "fs_read".to_string(),
        calls: 2,
        error_count: 1,
        total_latency_ms: 30,
        mean_latency_ms: 15,
    });
    stats.children.push(ChildAgentStats {
        name: "helper".to_string(),
        calls: 1,
        cost_delegated_micro_usd: 20_000,
    });
    assert_eq!(
        render_stats(&stats),
        "asks: 0  feedback: 0\ncost: total=$0.00 own=$0.00 delegated=$0.00\ntokens: in=0 out=0  calls: models=0 tools=0\nduration_ms: mean=0 median=0 p95=0\n\ntools:\n  fs_read calls=2 errors=1 total_latency_ms=30 mean_latency_ms=15\n\nchild agents:\n  helper calls=1 delegated_cost=$0.02"
    );
}
