use huggr::build::python::{
    build_python, cargo_toml, init_py, lib_rs, models_py, newest_wheel, pyproject_toml,
    response_schema, run_maturin, toml_escape, Generated, SchemaRun, Wheel,
};
use huggr::build::{
    build, bundle_excludes, cargo_package_name, cli_cargo_toml, main_rs, normalized_rel,
    response_dependency, run_cargo, rust_type_const, write_bundle, BuildError, BuildOptions,
    BuildOutcome, CommandEnd,
};
use huggr::definition::{AgentDefinition, RuntimeArg, ToolGrant, ToolKind};
use huggr::environment::Environment;
use huggr::json::{Data, Members};
use huggr::models::default_catalog;
use huggr::names::{py_arg, python_module_name, sanitize_crate_name, schema_name_from_rust_type};
use huggr::scaffold::{
    cargo_toml_for, lib_rs_for, scaffold_files, write_scaffold, ScaffoldError, Template,
};
use huggr::tools::disk::{Disk, Kind, Node};

const TOOLKIT: &str = "/opt/huggr/toolkit";

fn file(path: &str, text: &str) -> Node {
    Node {
        path: path.to_string(),
        kind: Kind::File,
        bytes: text.len() as u64,
        content: text.as_bytes().to_vec(),
        entries: Vec::new(),
    }
}

fn dir(path: &str) -> Node {
    Node {
        path: path.to_string(),
        kind: Kind::Dir,
        bytes: 0,
        content: Vec::new(),
        entries: Vec::new(),
    }
}

fn disk(nodes: Vec<Node>) -> Disk {
    Disk::of(nodes, Vec::new())
}

fn def(name: &str) -> AgentDefinition {
    let mut d = AgentDefinition::named(name);
    d.models.default = Some("balanced".to_string());
    d
}

fn docs_def() -> AgentDefinition {
    let mut d = def("huglet-docs");
    d.agent.version = "0.0.2".to_string();
    d.agent.description = "Answers questions from a docs folder.".to_string();
    d.tools.push(ToolGrant {
        name: "fs_read".to_string(),
        kind: ToolKind::Library,
        config: Members::new().with("root", Data::string(".")).object(),
    });
    d.runtime.args.push(RuntimeArg {
        name: "docs_path".to_string(),
        target: "tools.fs_read.root".to_string(),
        env: None,
        default: None,
        required: true,
        positional: true,
        help: "Folder containing the documentation to search.".to_string(),
    });
    d
}

#[test]
fn crate_name_is_cargo_legal() {
    assert_eq!(sanitize_crate_name("policy-docs"), "policy-docs");
    assert_eq!(sanitize_crate_name("my agent!"), "my_agent_");
    assert_eq!(sanitize_crate_name("2fast"), "agent-2fast");
}

#[test]
fn excludes_cover_runtime_dirs_and_manifest_roots() {
    let mut d = def("x");
    d.traces.store = Some("state/traces".to_string());
    d.scratchpad.root = Some("work".to_string());
    let ex = bundle_excludes(&d);
    assert!(ex.contains(&"traces".to_string()));
    assert!(ex.contains(&"scratch".to_string()));
    assert!(ex.contains(&"memory".to_string()));
    assert!(ex.contains(&"feedback".to_string()));
    assert!(ex.contains(&"state/traces".to_string()));
    assert!(!ex.contains(&"state".to_string()));
    assert!(ex.contains(&"work".to_string()));
    assert!(ex.contains(&"target".to_string()));
}

#[test]
fn excludes_are_sorted_and_follow_the_memory_grant() {
    let mut d = def("x");
    d.traces.store = Some("traces".to_string());
    d.tools.push(ToolGrant {
        name: "memory".to_string(),
        kind: ToolKind::Library,
        config: Members::new().with("root", Data::string("notes/kept")).object(),
    });
    assert_eq!(
        bundle_excludes(&d),
        vec![".git", "dist", "feedback", "memory", "notes/kept", "scratch", "target", "traces"]
    );
}

#[test]
fn dot_and_absolute_roots_produce_no_exclusion() {
    assert_eq!(normalized_rel("."), None);
    assert_eq!(normalized_rel("./"), None);
    assert_eq!(normalized_rel("/var/traces"), None);
    assert_eq!(normalized_rel("../shared"), None);
    assert_eq!(normalized_rel("./data/traces"), Some("data/traces".into()));
}

#[test]
fn cli_cargo_toml_detaches_workspace_and_paths_to_toolkit() {
    let toml = cli_cargo_toml("policy-docs", &None, TOOLKIT);
    assert!(toml.contains("[workspace]"));
    assert!(toml.contains("huggr-toolkit = { path ="));
    assert!(toml.contains("name = \"policy-docs\""));
    assert!(toml.contains("[[bin]]"));
    assert!(toml.contains("huggr-toolkit = { path = \"/opt/huggr/toolkit\" }\n"));
}

const DOCS_LIB: &str = "pub const RESPONSE_RUST_TYPE: &str = \"huglet_docs::DocsResponse\";
pub const MODEL_RESPONSE_RUST_TYPE: &str = \"huglet_docs::DocsModelResponse\";
pub fn answer_hooks() -> Vec<Hook> { Vec::new() }
";

fn docs_disk() -> Disk {
    disk(vec![
        dir("/agents/docs"),
        file("/agents/docs/src/lib.rs", DOCS_LIB),
        file(
            "/agents/docs/Cargo.toml",
            "[package]\nname = \"huglet-docs\"\nversion = \"0.0.0\"\nedition = \"2024\"\n",
        ),
    ])
}

#[test]
fn typed_response_build_generates_agent_dependency_and_registry() {
    let mut d = def("docs");
    d.source_dir = Some("/agents/docs".to_string());
    let dep = response_dependency(&d, &docs_disk()).unwrap();
    assert!(dep.is_some());
    let toml = cli_cargo_toml("docs", &dep, TOOLKIT);
    assert!(toml.contains("huglet_docs = { package = \"huglet-docs\", path ="));
    let main = main_rs(&dep);
    assert!(main.contains("ResponseContract::from_type::<huglet_docs::DocsModelResponse>"));
    assert!(main.contains(".with_public_type::<huglet_docs::DocsResponse>()"));
    assert!(main.contains(".with_answer_hooks(huglet_docs::answer_hooks())"));
    assert!(main.contains("huglet_docs::RESPONSE_RUST_TYPE"));
    assert!(main.contains("\"huglet_docs__DocsResponse\""));
    assert!(!main.contains(".with_storage("));
}

#[test]
fn typed_response_build_wires_storage_override_when_exported() {
    let lib = "pub const RESPONSE_RUST_TYPE: &str = \"storage_agent::Response\";
pub fn storage() -> Overrides { Overrides }
";
    let seen = disk(vec![
        dir("/a"),
        file("/a/src/lib.rs", lib),
        file(
            "/a/Cargo.toml",
            "[package]\nname = \"storage-agent\"\nversion = \"0.0.0\"\nedition = \"2024\"\n",
        ),
    ]);
    let mut d = def("storage");
    d.source_dir = Some("/a".to_string());
    let dep = response_dependency(&d, &seen).unwrap();
    let toml = cli_cargo_toml("storage", &dep, TOOLKIT);
    let main = main_rs(&dep);
    assert!(toml.contains("storage_agent = { package = \"storage-agent\", path ="));
    assert!(main.contains(".with_storage(storage_agent::storage())"));
}

#[test]
fn missing_response_rust_type_is_an_explicit_error() {
    let seen = disk(vec![
        dir("/a"),
        file("/a/src/lib.rs", ""),
        file("/a/Cargo.toml", "[package]\nname = \"missing\"\n"),
    ]);
    let mut d = def("missing");
    d.source_dir = Some("/a".to_string());
    let err = response_dependency(&d, &seen).unwrap_err();
    assert!(matches!(err, BuildError::MissingResponseRustType { .. }));
    assert_eq!(
        err.message(),
        "agent crate must define `pub const RESPONSE_RUST_TYPE: &str = \"crate_name::TypeName\";` in src/lib.rs"
    );
}

#[test]
fn every_way_a_response_type_cannot_be_found_has_its_error() {
    let mut d = def("x");
    assert!(matches!(
        response_dependency(&d, &disk(Vec::new())),
        Err(BuildError::NoSourceDir)
    ));
    d.source_dir = Some("/nowhere".to_string());
    assert!(matches!(
        response_dependency(&d, &disk(Vec::new())),
        Err(BuildError::AgentCargoToml { .. })
    ));
    d.source_dir = Some("/a".to_string());
    assert!(matches!(
        response_dependency(&d, &disk(vec![dir("/a")])),
        Err(BuildError::AgentResponseSource { .. })
    ));
    assert_eq!(
        response_dependency(&d, &disk(vec![dir("/a")])).unwrap_err().message(),
        "reading agent response source at /a/src/lib.rs: No such file or directory (os error 2)"
    );
    let bare = file("/a/src/lib.rs", "pub const RESPONSE_RUST_TYPE: &str = \"Response\";");
    let err = response_dependency(&d, &disk(vec![dir("/a"), bare])).unwrap_err();
    assert_eq!(
        err.message(),
        "agent RESPONSE_RUST_TYPE `Response` must look like `crate_name::TypeName`"
    );
    let lib = || file("/a/src/lib.rs", "pub const RESPONSE_RUST_TYPE: &str = \"a::R\";");
    assert!(matches!(
        response_dependency(&d, &disk(vec![dir("/a"), lib()])),
        Err(BuildError::AgentCargoToml { .. })
    ));
    let broken = file("/a/Cargo.toml", "[package\n");
    assert!(matches!(
        response_dependency(&d, &disk(vec![dir("/a"), lib(), broken])),
        Err(BuildError::AgentCargoTomlParse { .. })
    ));
    let nameless = file("/a/Cargo.toml", "[package]\nversion = \"1\"\n");
    let err = response_dependency(&d, &disk(vec![dir("/a"), lib(), nameless])).unwrap_err();
    assert_eq!(
        err.message(),
        "parsing agent Cargo.toml at /a/Cargo.toml: missing [package].name"
    );
    let own = file("/a/Cargo.toml", "[package]\nname = \"a\"\n");
    let dep = response_dependency(&d, &disk(vec![dir("/a"), lib(), own])).unwrap().unwrap();
    assert_eq!(dep.package, None);
    assert_eq!(dep.cargo_dep(), "a = { path = \"/a\" }");
    d.response_schema = Some(Members::new().object());
    assert!(response_dependency(&d, &disk(Vec::new())).unwrap().is_none());
}

#[test]
fn package_names_are_read_from_the_manifest() {
    let seen = disk(vec![file("/p/Cargo.toml", "[package]\nname = 'quoted'\n")]);
    assert_eq!(cargo_package_name(&seen, "/p").unwrap(), "quoted");
}

#[test]
fn type_constants_are_read_up_to_their_closing_quote() {
    assert_eq!(
        rust_type_const("pub const X: &str =\n    \"a::B\"; // \"more\"", "X"),
        Some("a::B".to_string())
    );
    assert_eq!(rust_type_const("pub const X: &str = \"  \";", "X"), None);
    assert_eq!(rust_type_const("pub const X: u32 = 7;", "X"), None);
    assert_eq!(rust_type_const("const X: &str = \"a::B\";", "X"), None);
}

#[test]
fn a_build_is_planned_below_its_out_dir() {
    let mut d = def("docs");
    d.source_dir = Some("/agents/docs".to_string());
    let opts = BuildOptions { out_dir: "/out".to_string(), release: true };
    let plan = build(&d, &opts, &default_catalog(), &Environment::new(), &docs_disk(), TOOLKIT)
        .unwrap();
    assert_eq!(plan.bundle.source_dir, "/agents/docs");
    assert_eq!(plan.bundle.snapshot.models.len(), 4);
    assert_eq!(plan.files[0].path, "/out/docs-cli/Cargo.toml");
    assert_eq!(plan.files[1].path, "/out/docs-cli/src/main.rs");
    assert_eq!(plan.cargo_args, vec!["build", "--release"]);
    assert_eq!(plan.outcome.binary, "/out/docs-cli/target/release/docs");
    let opts = BuildOptions { out_dir: "/out".to_string(), release: false };
    let plan = build(&d, &opts, &default_catalog(), &Environment::new(), &docs_disk(), TOOLKIT)
        .unwrap();
    assert_eq!(plan.cargo_args, vec!["build"]);
    assert_eq!(plan.outcome.binary, "/out/docs-cli/target/debug/docs");
}

#[test]
fn a_bundle_needs_a_source_and_models() {
    let d = def("x");
    assert!(matches!(
        write_bundle(&d, &default_catalog(), &Environment::new()),
        Err(BuildError::NoSourceDir)
    ));
    let mut d = def("x");
    d.source_dir = Some("/a".to_string());
    let empty = huggr::models::ModelCatalog {
        providers: huggr::table::Table::new(),
        models: huggr::table::Table::new(),
    };
    assert!(matches!(
        write_bundle(&d, &empty, &Environment::new()),
        Err(BuildError::Models(_))
    ));
}

#[test]
fn what_cargo_came_to_decides_the_build() {
    let outcome = || BuildOutcome { crate_dir: "/c".to_string(), binary: "/c/b".to_string() };
    let done = CommandEnd::Exited { success: true, code: Some(0) };
    assert_eq!(run_cargo(outcome(), done).unwrap().binary, "/c/b");
    let failed = CommandEnd::Exited { success: false, code: Some(101) };
    assert_eq!(
        run_cargo(outcome(), failed).unwrap_err().message(),
        "`cargo build` failed (exit 101). See the output above."
    );
    let killed = CommandEnd::Exited { success: false, code: None };
    assert_eq!(
        run_cargo(outcome(), killed).unwrap_err().message(),
        "`cargo build` failed (exit -1). See the output above."
    );
    let absent = CommandEnd::NotStarted { missing: true, message: "no".to_string() };
    assert_eq!(run_cargo(outcome(), absent).unwrap_err().message(), "could not run `cargo`: no");
}

// ----- the Python package -----

#[test]
fn module_name_is_python_legal() {
    assert_eq!(python_module_name("huglet-docs"), "huglet_docs");
    assert_eq!(python_module_name("2fast"), "_2fast");
    assert_eq!(python_module_name("my agent!"), "my_agent_");
}

#[test]
fn cargo_toml_declares_cdylib_and_pyo3() {
    let toml = cargo_toml("huglet-docs", &None, TOOLKIT);
    assert!(toml.contains("crate-type = [\"cdylib\"]"));
    assert!(toml.contains("name = \"_native\""));
    assert!(toml.contains("pyo3 = { version"));
    assert!(toml.contains("huggr-toolkit = { path ="));
    assert!(toml.contains("features = [\"python-bridge\"]"));
}

#[test]
fn pyproject_uses_maturin_mixed_layout() {
    let py = pyproject_toml(&docs_def(), "huglet_docs");
    assert!(py.contains("build-backend = \"maturin\""));
    assert!(py.contains("python-source = \"python\""));
    assert!(py.contains("module-name = \"huglet_docs._native\""));
    assert!(py.contains("name = \"huglet-docs\""));
    assert!(py.contains("version = \"0.0.2\""));
}

#[test]
fn lib_rs_bridges_to_event_stream() {
    let rs = lib_rs(&None);
    assert!(rs.contains("fn ask_events_json("));
    assert!(rs.contains("prepare_bundle_ask_with_options"));
    assert!(rs.contains("forward_agent_events"));
    assert!(rs.contains("EventStream::new"));
    assert!(rs.contains("fn _native("));
    assert!(rs.contains("RuntimeOptions::default()"));
    assert!(rs.contains("api_token: Option<String>"));
    assert!(rs.contains("options.with_api_token(api_token)"));
}

#[test]
fn init_py_exposes_positional_runtime_arg_before_question() {
    let init = init_py(&docs_def(), "huglet_docs", "DocsResponse");
    let dp = init.find("docs_path: str,").unwrap();
    let q = init.find("question: str,").unwrap();
    assert!(dp < q, "positional runtime arg precedes question");
    assert!(init.contains("runtime[\"docs_path\"] = docs_path"));
    assert!(init.contains("-> Answer:"));
    assert!(init.contains("from ._models import Answer, AnswerMeta, BlobHandle, DocsResponse"));
    assert!(init.contains("async def run("));
    assert!(init.contains("-> AsyncIterator[AgentEvent]:"));
    assert!(init.contains("AgentEvent = AgentEventFor[Answer]"));
    assert!(init.contains("_native.ask_events_json("));
    assert!(init.contains("await asyncio.to_thread(stream.next_event)"));
    assert!(init.contains("stream.cancel()"));
    assert!(init.contains("api_token: Optional[str] = None,"));
    let api_token = init.find("api_token: Optional[str] = None,").unwrap();
    assert!(q < api_token, "api_token follows the question");
}

#[test]
fn keyword_arguments_follow_the_question() {
    let mut d = docs_def();
    d.runtime.args.push(RuntimeArg {
        name: "max-pages".to_string(),
        target: "tools.fs_read.max".to_string(),
        env: None,
        default: None,
        required: false,
        positional: false,
        help: " ".to_string(),
    });
    let init = init_py(&d, "m", "R");
    assert!(init.contains(
        "    docs_path: str,\n    question: str,\n    *,\n    max_pages: Optional[str] = None,\n    trace_id: Optional[str] = None,\n"
    ));
    assert!(init.contains("        max_pages: Runtime argument.\n"));
    assert!(init.contains(
        "    if max_pages is not None:\n        runtime[\"max-pages\"] = max_pages\n"
    ));
    assert!(init.contains("    Answers questions from a docs folder.\n\n    Args:\n"));
}

#[test]
fn models_py_types_answer_response_with_root_class() {
    let generated = Generated {
        root_class: "DocsResponse".to_string(),
        code: "@dataclass\nclass Document:\n    path: str\n    url: str\n\n@dataclass\nclass DocsResponse:\n    response: str\n    related_documents: List[Document]".to_string(),
    };
    let models = models_py(&generated);
    assert!(models.contains("class DocsResponse:"));
    assert!(models.contains("class Document:"));
    assert!(models.contains("related_documents: List[Document]"));
    assert!(models.contains("response: Optional[DocsResponse] = None"));
    assert!(models.contains("class Answer:"));
    assert!(models.contains("from ._types import AnswerMeta, BlobHandle"));
}

#[test]
fn descriptions_are_escaped_and_versions_have_a_default() {
    assert_eq!(toml_escape("a \"b\" \\ c"), "a \\\"b\\\" \\\\ c");
    let mut d = def("under_scored");
    d.agent.description = "say \"hi\"".to_string();
    let py = pyproject_toml(&d, "under_scored");
    assert!(py.contains("name = \"under-scored\"\nversion = \"0.0.0\"\n"));
    assert!(py.contains("description = \"say \\\"hi\\\"\"\n"));
}

#[test]
fn identifiers_come_of_names() {
    assert_eq!(py_arg("max-pages"), "max_pages");
    assert_eq!(schema_name_from_rust_type("a_b::C"), "a_b__C");
}

#[test]
fn a_schema_comes_from_what_the_program_reports() {
    let reported = SchemaRun::Finished { stdout: b"{\"response\": {\"type\": \"object\"}}".to_vec() };
    let schema = response_schema("/b", &reported).unwrap().unwrap();
    assert_eq!(schema.to_string(), "{\"type\":\"object\"}");
    let silent = SchemaRun::Finished { stdout: b"{}".to_vec() };
    assert!(response_schema("/b", &silent).unwrap().is_none());
    let broken = SchemaRun::Finished { stdout: b"{".to_vec() };
    let err = response_schema("/b", &broken).unwrap_err().message();
    assert!(err.starts_with("extracting the response schema from `/b`: parsing `--config` output: "));
    let failed = SchemaRun::Failed { status: "exit 3".to_string(), stderr: b" bad \n".to_vec() };
    assert_eq!(
        response_schema("/b", &failed).unwrap_err().message(),
        "extracting the response schema from `/b`: `--config` exited with exit 3: bad"
    );
    let absent = SchemaRun::NotStarted("gone".to_string());
    assert_eq!(
        response_schema("/b", &absent).unwrap_err().message(),
        "extracting the response schema from `/b`: spawning the agent binary: gone"
    );
}

#[test]
fn a_package_is_planned_and_finished() {
    let mut d = def("huglet-docs");
    d.source_dir = Some("/agents/docs".to_string());
    let opts = BuildOptions { out_dir: "/out".to_string(), release: false };
    let generated = Generated { root_class: "R".to_string(), code: "class R: pass".to_string() };
    let plan = build_python(
        &d,
        &opts,
        &default_catalog(),
        &Environment::new(),
        &docs_disk(),
        TOOLKIT,
        "# types",
        &generated,
    )
    .unwrap();
    let paths: Vec<&str> = plan.files.iter().map(|f| f.path.as_str()).collect();
    assert_eq!(
        paths,
        vec![
            "/out/huglet-docs-python/Cargo.toml",
            "/out/huglet-docs-python/src/lib.rs",
            "/out/huglet-docs-python/pyproject.toml",
            "/out/huglet-docs-python/python/huglet_docs/_types.py",
            "/out/huglet-docs-python/python/huglet_docs/_models.py",
            "/out/huglet-docs-python/python/huglet_docs/__init__.py",
            "/out/huglet-docs-python/python/huglet_docs/py.typed",
        ]
    );
    assert_eq!(plan.files[3].contents, "# types");
    assert_eq!(plan.files[6].contents, "");
    let wheels = vec![
        Wheel { path: "/w/a.whl".to_string(), modified: Some(5) },
        Wheel { path: "/w/b.whl".to_string(), modified: Some(9) },
        Wheel { path: "/w/c.txt".to_string(), modified: Some(99) },
        Wheel { path: "/w/d.whl".to_string(), modified: None },
        Wheel { path: "/w/e.whl".to_string(), modified: Some(9) },
    ];
    assert_eq!(newest_wheel(&wheels), Some("/w/e.whl".to_string()));
    let done = CommandEnd::Exited { success: true, code: Some(0) };
    let outcome = run_maturin(plan, done, &wheels).unwrap();
    assert_eq!(outcome.module, "huglet_docs");
    assert_eq!(outcome.wheel, Some("/w/e.whl".to_string()));
}

#[test]
fn generated_classes_and_functions_stand_apart() {
    let generated = Generated { root_class: "R".to_string(), code: "class R: pass".to_string() };
    let models = models_py(&generated);
    assert!(
        models.contains("JSON Schema.\n\nclass R: pass\n\n\n@dataclass\nclass Answer:\n"),
        "{models}"
    );
    let init = init_py(&docs_def(), "huglet_docs", "R");
    assert!(init.contains("\"Usage\", \"R\",\n]\n\n\ndef ask(\n"), "{init}");
    assert!(init.contains("        stream.cancel()\n\n\nasync def run(\n"), "{init}");
}

#[test]
fn a_missing_maturin_is_told_apart() {
    let mut d = def("docs");
    d.source_dir = Some("/agents/docs".to_string());
    let opts = BuildOptions { out_dir: "/out".to_string(), release: true };
    let generated = Generated { root_class: "R".to_string(), code: "".to_string() };
    let plan = || {
        build_python(
            &d,
            &opts,
            &default_catalog(),
            &Environment::new(),
            &docs_disk(),
            TOOLKIT,
            "",
            &generated,
        )
        .unwrap()
    };
    let none: Vec<Wheel> = Vec::new();
    let missing = CommandEnd::NotStarted { missing: true, message: "x".to_string() };
    let err = run_maturin(plan(), missing, &none).unwrap_err();
    assert!(err.message().contains("the generated project at /out/docs-python yourself."));
    let broken = CommandEnd::NotStarted { missing: false, message: "denied".to_string() };
    let err = run_maturin(plan(), broken, &none).unwrap_err();
    assert_eq!(err.message(), "could not run `maturin`: denied");
    let failed = CommandEnd::Exited { success: false, code: Some(2) };
    let err = run_maturin(plan(), failed, &none).unwrap_err();
    assert_eq!(err.message(), "`maturin build` failed (exit 2). See the output above.");
    let done = CommandEnd::Exited { success: true, code: Some(0) };
    assert_eq!(run_maturin(plan(), done, &none).unwrap().wheel, None);
}

// ----- new agents -----

fn contents(files: &Vec<huggr::scaffold::ScaffoldFile>, path: &str) -> String {
    files.iter().find(|f| f.rel_path == path).unwrap().contents.clone()
}

#[test]
fn parse_templates() {
    assert_eq!(Template::parse("weather"), Some(Template::Weather));
    assert_eq!(Template::parse("blank"), Some(Template::Blank));
    assert_eq!(Template::parse("nope"), None);
}

#[test]
fn templates_are_found_by_their_names() {
    for t in [Template::Weather, Template::Blank] {
        assert_eq!(Template::parse(t.as_str()), Some(t));
    }
}

#[test]
fn scaffolded_manifest_parses_for_every_template() {
    for template in [Template::Weather, Template::Blank] {
        let files = scaffold_files("my-agent", template);
        let manifest = files.iter().find(|file| file.rel_path == "huggr.toml").unwrap();
        assert_eq!(manifest.rel_path, "huggr.toml");
        let table: toml::Table = match toml::from_str(&manifest.contents) {
            Ok(t) => t,
            Err(e) => panic!("template {} manifest must parse: {e}", template.as_str()),
        };
        assert_eq!(table["agent"]["name"].as_str(), Some("my-agent"));
        assert_eq!(table["models"]["default"].as_str(), Some("balanced"));
        assert!(files
            .iter()
            .any(|file| file.rel_path == "SYSTEM.md" && file.contents.contains("{{agent_name}}")));
    }
}

#[test]
fn scaffold_creates_a_rust_crate() {
    let files = scaffold_files("my-agent", Template::Blank);
    assert!(files.iter().any(|file| file.rel_path == "Cargo.toml"));
    assert!(files.iter().any(|file| file.rel_path == "src/lib.rs"));
}

#[test]
fn weather_template_substitutes_the_agent_name_everywhere() {
    let files = scaffold_files("sky", Template::Weather);
    for file in &files {
        assert!(
            !file.contents.contains("huglet-weather") && !file.contents.contains("huglet_weather"),
            "leftover template token in {}",
            file.rel_path
        );
    }
    let lib = contents(&files, "src/lib.rs");
    assert!(lib.contains("\"sky::Response\""), "{}", lib);
    let table: toml::Table = toml::from_str(&contents(&files, "huggr.toml")).unwrap();
    assert_eq!(table["agent"]["name"].as_str(), Some("sky"));
}

#[test]
fn weather_template_is_self_contained_and_grants_web_fetch() {
    let files = scaffold_files("sky", Template::Weather);
    let table: toml::Table = toml::from_str(&contents(&files, "huggr.toml")).unwrap();
    let hosts: Vec<&str> = table["tools"]["web_fetch"]["allow_hosts"]
        .as_array()
        .unwrap()
        .iter()
        .filter_map(|v| v.as_str())
        .collect();
    assert!(hosts.contains(&"api.open-meteo.com"));
    assert!(hosts.contains(&"geocoding-api.open-meteo.com"));
    assert!(files.iter().any(|f| f.rel_path == "README.md"));
    assert!(!files
        .iter()
        .any(|f| f.rel_path.starts_with("docs") || f.rel_path.starts_with("data")));
}

#[test]
fn blank_crates_carry_a_legal_name() {
    assert!(cargo_toml_for("my agent").starts_with("[package]\nname = \"my-agent\"\n"));
    assert!(lib_rs_for("my agent").contains("= \"my_agent::Response\";\n"));
    assert!(lib_rs_for("my agent").contains("for the `my agent` Huggr agent.\n"));
}

#[test]
fn a_new_agent_never_replaces_what_is_there() {
    let err = write_scaffold(".", "sky", Template::Blank, true).unwrap_err();
    assert!(matches!(err, ScaffoldError::Exists(_)));
    assert_eq!(err.message(), "target folder already exists: ./sky");
    let plan = write_scaffold(".", "sky", Template::Blank, false).unwrap();
    assert_eq!(plan.dir, "./sky");
    assert_eq!(plan.files[1].path, "./sky/src/lib.rs");
    let io = ScaffoldError::Io { path: "p".to_string(), source: "full".to_string() };
    assert_eq!(io.message(), "writing p: full");
}
