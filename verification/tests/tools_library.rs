use huggr::agent::analytics::{TraceHead, TraceListing};
use huggr::definition::{ToolGrant, ToolKind};
use huggr::json::{Data, Members};
use huggr::tools::catalog::{catalog, spec};
use huggr::tools::disk::{DirEntry, Disk, Fault, FsRoot, Kind, Link, NamedRoot, Node};
use huggr::tools::fs_read::{
    list_impl, looks_textual, markdown_heading, read_document, read_impl, read_many_impl,
    read_range_document, read_range_impl, wrap,
};
use huggr::tools::fs_schemas::fs_tool_schemas;
use huggr::tools::fs_search::{glob_impl, grep_impl, outline_impl, search_impl};
use huggr::tools::grants::{build_library_grant, Backing, ToolError};
use huggr::tools::shell::{Capture, ExitStatus, Shell, ShellEnd};
use huggr::tools::trace_tools::{
    feedback_list, feedback_list_schema, trace_list, trace_list_schema, trace_ops,
    trace_ops_schema, trace_transcript, trace_transcript_schema, FeedbackEvent,
};
use huggr::tools::traces_read::{
    checked_trace_id, expand_tilde, ops_summary, transcript_page, truncate_chars, TracesRoot,
};
use huggr::trace::{LogEntry, OpMeta, Outcome, Record, Trace, TraceId};

fn obj(pairs: Vec<(&str, Data)>) -> Data {
    let mut m = Members::new();
    for (k, v) in pairs {
        m = m.with(k, v);
    }
    m.object()
}

fn text(s: &str) -> Data {
    Data::string(s)
}

fn strings(list: &[&str]) -> Data {
    Data::strings(&list.iter().map(|s| s.to_string()).collect())
}

fn at<'a>(d: &'a Data, path: &[&str]) -> &'a Data {
    let mut d = d;
    for p in path {
        d = match p.parse::<usize>() {
            Ok(i) => &d.as_array().unwrap()[i],
            Err(_) => d.get(p).unwrap(),
        };
    }
    d
}

fn file(path: &str, contents: &str) -> Node {
    Node {
        path: path.to_string(),
        kind: Kind::File,
        bytes: contents.len() as u64,
        content: contents.as_bytes().to_vec(),
        entries: Vec::new(),
    }
}

fn dir(path: &str, names: &[&str]) -> Node {
    Node {
        path: path.to_string(),
        kind: Kind::Dir,
        bytes: 0,
        content: Vec::new(),
        entries: names
            .iter()
            .map(|n| DirEntry { name: n.to_string(), target: Some(format!("{path}/{n}")) })
            .collect(),
    }
}

fn single() -> (Disk, FsRoot) {
    let disk = Disk::of(
        vec![
            dir("/r", &["a.md", "sub"]),
            file("/r/a.md", "# Title\nhello world\nsecond line\n"),
            dir("/r/sub", &["b.txt"]),
            file("/r/sub/b.txt", "needle here\nother\n"),
        ],
        Vec::new(),
    );
    let root = FsRoot::with_named(
        &disk,
        vec![NamedRoot { name: "r".to_string(), path: "/r".to_string() }],
    )
    .unwrap();
    (disk, root)
}

fn named(name: &str, path: &str) -> NamedRoot {
    NamedRoot { name: name.to_string(), path: path.to_string() }
}

#[test]
fn files_and_folders_that_cannot_be_read_are_errors() {
    let (mut disk, root) = single();
    disk.faults.push(Fault { path: "/r/a.md".to_string(), reason: "denied".to_string() });
    let at = |path: &str| obj(vec![("path", text(path))]);
    assert_eq!(read_impl(&root, &disk, &at("r/a.md")).unwrap_err(), "reading /r/a.md");
    let range = obj(vec![("path", text("r/a.md")), ("start_line", Data::number(1))]);
    assert_eq!(read_range_impl(&root, &disk, &range).unwrap_err(), "denied");
    let query = obj(vec![("query", text("needle"))]);
    assert_eq!(search_impl(&root, &disk, &query).unwrap_err(), "reading /r/a.md");
    assert_eq!(outline_impl(&root, &disk, &at("r")).unwrap_err(), "reading /r/a.md");
    assert!(read_impl(&root, &disk, &at("r/sub/b.txt")).is_ok());
    disk.faults.push(Fault { path: "/r/sub".to_string(), reason: "denied".to_string() });
    assert_eq!(list_impl(&root, &disk, &at("r/sub")).unwrap_err(), "listing /r/sub");
    assert_eq!(search_impl(&root, &disk, &query).unwrap_err(), "listing /r/sub");
}

fn multi() -> (Disk, FsRoot) {
    let disk = Disk::of(
        vec![
            dir("/multi-a", &["main.md"]),
            file("/multi-a/main.md", "# A\nneedle in a\n"),
            dir("/multi-b", &["lib.md"]),
            file("/multi-b/lib.md", "# B\nneedle in b\n"),
        ],
        Vec::new(),
    );
    let root =
        FsRoot::with_named(&disk, vec![named("a", "/multi-a"), named("b", "/multi-b")]).unwrap();
    (disk, root)
}

fn paths(d: &Data, list: &str) -> Vec<String> {
    d.get(list)
        .unwrap()
        .as_array()
        .unwrap()
        .iter()
        .map(|e| e.get_str("path").unwrap().to_string())
        .collect()
}

#[test]
fn lists_reads_searches_greps_globs_and_outlines() {
    let (disk, root) = single();
    let listed = list_impl(
        &root,
        &disk,
        &obj(vec![("path", text("r")), ("recursive", Data::boolean(true))]),
    )
    .unwrap();
    let listed = paths(&listed, "entries");
    assert!(listed.contains(&"r/a.md".to_string()));
    assert!(listed.contains(&"r/sub/b.txt".to_string()));

    let read = read_document(&root, &disk, "r/a.md", 1_000_000).unwrap();
    assert!(read.get_str("content").unwrap().contains("hello world"));

    let searched = search_impl(&root, &disk, &obj(vec![("query", text("needle"))])).unwrap();
    assert_eq!(searched.get("matches").unwrap().as_array().unwrap().len(), 1);
    assert_eq!(at(&searched, &["matches", "0", "path"]).as_str(), Some("r/sub/b.txt"));

    let grepped = grep_impl(
        &root,
        &disk,
        &obj(vec![("pattern", text("NEE.*")), ("case_sensitive", Data::boolean(false))]),
    )
    .unwrap();
    assert_eq!(at(&grepped, &["matches", "0", "path"]).as_str(), Some("r/sub/b.txt"));

    let globbed = glob_impl(&root, &disk, &obj(vec![("pattern", text("**/*.md"))])).unwrap();
    assert_eq!(at(&globbed, &["matches", "0"]).as_str(), Some("r/a.md"));

    let outline = outline_impl(&root, &disk, &obj(vec![("path", text("r/a.md"))])).unwrap();
    assert_eq!(
        at(&outline, &["documents", "0", "headings", "0", "text"]).as_str(),
        Some("Title")
    );

    let ranged = read_range_document(&root, &disk, "r/a.md", 2, Some(2), 200, 1_000_000).unwrap();
    assert_eq!(ranged.get_str("content"), Some("hello world"));
}

#[test]
fn jail_rejects_traversal_and_absolute_paths() {
    let (disk, root) = single();
    assert!(root.resolve_existing(&disk, Some("r/../secret")).is_err());
    assert!(read_document(&root, &disk, "r/../a.md", 1000).is_err());
    assert!(root.resolve_existing(&disk, Some("r/sub/b.txt")).is_ok());
    assert!(root.resolve_existing(&disk, Some("nope/x")).is_err());
}

#[test]
fn named_roots_address_files_by_name() {
    let (disk, root) = multi();
    let listed = list_impl(&root, &disk, &obj(Vec::new())).unwrap();
    let names = paths(&listed, "entries");
    assert!(names.contains(&"a".to_string()) && names.contains(&"b".to_string()));

    let read = read_document(&root, &disk, "a/main.md", 1_000_000).unwrap();
    assert_eq!(read.get_str("path"), Some("a/main.md"));
    assert!(read.get_str("content").unwrap().contains("needle in a"));

    assert!(read_document(&root, &disk, "main.md", 100).is_err());
    assert!(read_document(&root, &disk, "c/main.md", 100).is_err());
}

#[test]
fn named_roots_search_across_all_and_scope_to_one() {
    let (disk, root) = multi();
    let all = search_impl(&root, &disk, &obj(vec![("query", text("needle"))])).unwrap();
    let found = paths(&all, "matches");
    assert!(found.contains(&"a/main.md".to_string()));
    assert!(found.contains(&"b/lib.md".to_string()));

    let scoped =
        search_impl(&root, &disk, &obj(vec![("query", text("needle")), ("path", text("b"))]))
            .unwrap();
    assert_eq!(paths(&scoped, "matches"), vec!["b/lib.md".to_string()]);

    let globbed = glob_impl(&root, &disk, &obj(vec![("pattern", text("**/*.md"))])).unwrap();
    let globs = globbed.get_strings("matches");
    assert!(globs.contains(&"a/main.md".to_string()) && globs.contains(&"b/lib.md".to_string()));
}

#[test]
fn named_roots_stay_isolated_from_each_other() {
    let (disk, root) = multi();
    assert!(root.resolve_existing(&disk, Some("a/../b/lib.md")).is_err());
    assert!(FsRoot::with_named(&disk, vec![named("dup", "/multi-a"), named("dup", "/multi-b")])
        .is_err());
}

#[test]
fn jail_rejects_symlink_that_escapes_the_root() {
    let (mut disk, root) = single();
    disk.nodes.push(file("/secret", "top secret"));
    disk.links.push(Link { path: "/r/escape.md".to_string(), target: "/secret".to_string() });
    let err = root.resolve_existing(&disk, Some("r/escape.md")).unwrap_err();
    assert!(err.contains("escapes the tool root"), "{err}");
    assert!(read_document(&root, &disk, "r/escape.md", 1000).is_err());
}

#[test]
fn searches_globs_and_outlines_are_bounded() {
    let (disk, root) = multi();
    let one = |mut pairs: Vec<(&'static str, Data)>, key: &'static str| {
        pairs.push((key, Data::number(1)));
        obj(pairs)
    };
    let found = search_impl(&root, &disk, &one(vec![("query", text("needle"))], "max_matches")).unwrap();
    assert_eq!(paths(&found, "matches"), vec!["a/main.md"]);
    assert_eq!(found.get_bool("truncated"), Some(true));
    let all = search_impl(&root, &disk, &obj(vec![("query", text("needle"))])).unwrap();
    assert_eq!(paths(&all, "matches"), vec!["a/main.md", "b/lib.md"]);
    assert_eq!(all.get_bool("truncated"), Some(false));
    let globbed = glob_impl(&root, &disk, &one(vec![("pattern", text("**/*.md"))], "max_matches")).unwrap();
    assert_eq!(globbed.get_strings("matches"), vec!["a/main.md"]);
    assert_eq!(globbed.get_bool("truncated"), Some(true));
    let outline = outline_impl(&root, &disk, &one(Vec::new(), "max_headings")).unwrap();
    assert_eq!(paths(&outline, "documents"), vec!["a/main.md"]);
    assert_eq!(outline.get_bool("truncated"), Some(true));
    let outline = outline_impl(&root, &disk, &one(Vec::new(), "max_documents")).unwrap();
    assert_eq!(outline.get_u64("searched_files"), Some(1));
}

#[test]
fn bad_patterns_are_errors() {
    let (disk, root) = single();
    assert!(grep_impl(&root, &disk, &obj(vec![("pattern", text("("))])).is_err());
    assert!(glob_impl(&root, &disk, &obj(vec![("pattern", text("["))])).is_err());
    assert!(search_impl(&root, &disk, &obj(Vec::new())).is_err());
    assert!(wrap(Err("no".to_string())).unwrap_err().get_str("error").unwrap().contains("no"));
}

#[test]
fn searching_is_not_matching() {
    let (disk, root) = single();
    let dots = search_impl(&root, &disk, &obj(vec![("query", text("n..dle"))])).unwrap();
    assert_eq!(dots.get("matches").unwrap().as_array().unwrap().len(), 0);
    let cased = grep_impl(
        &root,
        &disk,
        &obj(vec![("pattern", text("NEEDLE")), ("case_sensitive", Data::boolean(true))]),
    )
    .unwrap();
    assert_eq!(cased.get("matches").unwrap().as_array().unwrap().len(), 0);
    let loose = search_impl(&root, &disk, &obj(vec![("query", text("NEEDLE"))])).unwrap();
    assert_eq!(loose.get("matches").unwrap().as_array().unwrap().len(), 1);
}

#[test]
fn files_are_read_in_many_ways() {
    let (disk, root) = single();
    let one = read_impl(&root, &disk, &obj(vec![("path", text("r/a.md"))])).unwrap();
    assert!(one.get_str("content").unwrap().starts_with("# Title"));
    let short = read_document(&root, &disk, "r/a.md", 7).unwrap();
    assert_eq!(short.get_str("content"), Some("# Title"));
    assert_eq!(short.get_bool("truncated"), Some(true));
    let range = read_range_impl(
        &root,
        &disk,
        &obj(vec![("path", text("r/a.md")), ("start_line", Data::number(3))]),
    )
    .unwrap();
    assert_eq!(range.get_str("content"), Some("second line"));
    let many =
        read_many_impl(&root, &disk, &obj(vec![("paths", strings(&["r/a.md", "r/nope"]))])).unwrap();
    assert_eq!(many.get("documents").unwrap().as_array().unwrap().len(), 1);
    assert_eq!(at(&many, &["errors", "0", "path"]).as_str(), Some("r/nope"));
    assert_eq!(markdown_heading("## Two"), Some((2, "Two".to_string())));
    assert_eq!(markdown_heading("no"), None);
    assert!(looks_textual("a.MD"));
    assert!(!looks_textual("a.rs"));
    assert!(!looks_textual("a.png"));
    assert_eq!(fs_tool_schemas().len(), 8);
}

// ----- the library of tools -----

fn grant(name: &str, config: Data) -> ToolGrant {
    ToolGrant { name: name.to_string(), kind: ToolKind::Library, config }
}

fn nothing() -> Disk {
    Disk::of(Vec::new(), Vec::new())
}

#[test]
fn catalog_covers_the_v1_library() {
    let ids: Vec<_> = catalog().iter().map(|s| s.id).collect();
    assert_eq!(
        ids,
        vec![
            "fs_read",
            "fs_write",
            "shell",
            "scratchpad",
            "memory",
            "traces_read",
            "web_fetch",
            "web_search",
            "delegate"
        ]
    );
}

#[test]
fn unknown_grant_errors() {
    let result = build_library_grant(&grant("nope", obj(Vec::new())), ".", &nothing(), None);
    assert!(matches!(result, Err(ToolError::Unknown(_))));
}

#[test]
fn scratchpad_grant_registers_nothing_here() {
    let granted =
        build_library_grant(&grant("scratchpad", obj(Vec::new())), ".", &nothing(), None).unwrap();
    assert!(granted.tools.is_empty());
    assert_eq!(spec("scratchpad").unwrap().privilege, "scratchpad");
}

#[test]
fn memory_grant_registers_nothing_here() {
    let granted =
        build_library_grant(&grant("memory", obj(Vec::new())), ".", &nothing(), None).unwrap();
    assert!(granted.tools.is_empty());
    assert_eq!(spec("memory").unwrap().privilege, "memory");
}

#[test]
fn web_fetch_builds_and_reports_network_class() {
    let granted = build_library_grant(
        &grant("web_fetch", obj(vec![("allow_hosts", strings(&["example.com"]))])),
        ".",
        &nothing(),
        None,
    )
    .unwrap();
    assert_eq!(granted.tools, vec!["web_fetch"]);
    assert_eq!(granted.requires_permission(), Some(false));
    assert!(matches!(granted.backing, Backing::WebFetch(_)));
    assert_eq!(spec("web_fetch").unwrap().privilege, "network");
}

#[test]
fn other_kinds_and_bad_configurations_are_refused() {
    let mcp = ToolGrant {
        name: "docs".to_string(),
        kind: ToolKind::Mcp,
        config: obj(Vec::new()),
    };
    let err = build_library_grant(&mcp, ".", &nothing(), None).unwrap_err();
    assert!(matches!(err, ToolError::NotLibrary(_)), "{}", err.message());
    let gone = grant("fs_read", obj(vec![("root", text("/gone"))]));
    let err = build_library_grant(&gone, "/", &nothing(), None).unwrap_err();
    assert!(matches!(err, ToolError::Config { .. }), "{}", err.message());
}

// ----- the shell -----

#[test]
fn restricted_mode_never_parses_shell_syntax() {
    let tool = Shell::from_config(&obj(vec![("allow_commands", strings(&["printf"]))])).unwrap();
    let refused = tool
        .plan(&obj(vec![("command", text("printf && false")), ("args", strings(&[]))]))
        .unwrap_err();
    assert!(refused.contains("not allowlisted"), "{refused}");
    let plan = tool
        .plan(&obj(vec![("command", text("printf")), ("args", strings(&["%s", "a&&b"]))]))
        .unwrap();
    assert_eq!(plan.program, "printf");
    assert_eq!(plan.args, vec!["%s", "a&&b"]);
}

#[test]
fn a_hung_command_is_killed_at_the_timeout() {
    let tool = Shell::from_config(&obj(vec![
        ("allow_commands", strings(&["sleep"])),
        ("timeout_s", Data::number(1)),
    ]))
    .unwrap();
    assert_eq!(tool.timeout_s(), 1);
    let err = tool.finish("sleep", ShellEnd::TimedOut).unwrap_err();
    assert_eq!(err, "command `sleep` timed out after 1s (process killed)");
    assert_eq!(tool.finish("sleep", ShellEnd::NotStarted).unwrap_err(), "executing `sleep`");
    let lost = ShellEnd::Lost("broken pipe".to_string());
    assert_eq!(tool.finish("sleep", lost).unwrap_err(), "broken pipe");
}

#[test]
fn output_is_capped_without_blocking_the_child() {
    let tool = Shell::from_config(&obj(vec![
        ("allow_commands", strings(&["head"])),
        ("max_output_bytes", Data::number(1024)),
    ]))
    .unwrap();
    let mut out = Capture::new(tool.output_limit());
    let chunk: Vec<u8> = vec![0; 700];
    for _ in 0..10 {
        out.take(&chunk);
    }
    assert_eq!(out.bytes().len(), 1024);
    assert!(out.is_truncated());
    let err = Capture::new(tool.output_limit());
    let status = ExitStatus { success: true, code: Some(0) };
    let report =
        tool.finish("head", ShellEnd::Exited { status, stdout: out, stderr: err }).unwrap();
    assert_eq!(report.get_u64("exit_code"), Some(0));
    assert_eq!(report.get_bool("truncated"), Some(true));
    assert_eq!(report.get_bool("success"), Some(true));
    assert!(report.get_str("stdout").unwrap().len() <= 1024);
}

#[test]
fn a_shell_needs_commands_or_full_access() {
    assert!(Shell::from_config(&obj(Vec::new())).is_err());
    let full = Shell::from_config(&obj(vec![("full_access", Data::boolean(true))]));
    let listed = Shell::from_config(&obj(vec![("allow_commands", strings(&["ls"]))]));
    assert_eq!(full.unwrap().schema().name, "shell");
    assert_eq!(listed.unwrap().schema().name, "shell");
}

// ----- traces -----

fn entry(seq: u64, record: Record) -> LogEntry {
    LogEntry { seq, record }
}

fn fixture() -> Trace {
    Trace {
        question: Some("what is huggr?".to_string()),
        status: Some("success".to_string()),
        log: vec![
            entry(0, Record::UserMessage { text: "what is huggr?".to_string() }),
            entry(
                1,
                Record::ModelOutput {
                    op: 1,
                    text: "a very long answer".repeat(50),
                    tool_calls: Vec::new(),
                },
            ),
            entry(
                2,
                Record::ToolResult {
                    op: 2,
                    name: "fs_read".to_string(),
                    result: serde_json::from_str("{\"content\": \"doc\"}").unwrap(),
                    answer_cost: None,
                },
            ),
            entry(
                3,
                Record::OpEnded {
                    op: 2,
                    outcome: Outcome::Success,
                    meta: OpMeta {
                        started_at: 2,
                        ended_at: 4,
                        model: None,
                        usage: None,
                        cost_micro_usd: 0,
                    },
                },
            ),
        ],
    }
}

fn shown(d: &Data) -> String {
    format!("{d:?}")
}

#[test]
fn trace_list_reports_heads_and_feedback_counts() {
    let head = TraceHead {
        trace_id: TraceId::new("t1"),
        depends_on: None,
        agent_name: "fixture".to_string(),
        agent_version: "0.0.1".to_string(),
        created_at: Some(1),
        question: "what is huggr?".to_string(),
        status: "success".to_string(),
    };
    let result = trace_list(&vec![TraceListing::new(head, 1)], &obj(Vec::new()));
    assert_eq!(result.get_u64("total"), Some(1));
    assert_eq!(at(&result, &["traces", "0", "trace_id"]).as_str(), Some("t1"));
    assert_eq!(at(&result, &["traces", "0", "feedback_count"]).as_u64(), Some(1));
    assert_eq!(at(&result, &["traces", "0", "question"]).as_str(), Some("what is huggr?"));
    assert_eq!(trace_list_schema().name, "trace_list");
    assert_eq!(trace_ops_schema().name, "trace_ops");
    assert_eq!(trace_transcript_schema().name, "trace_transcript");
    assert_eq!(feedback_list_schema().name, "feedback_list");
}

#[test]
fn trace_ops_summarizes_without_content() {
    let summary = ops_summary(&fixture());
    assert_eq!(summary.get_u64("tool_calls"), Some(1));
    assert_eq!(at(&summary, &["ops", "0", "name"]).as_str(), Some("fs_read"));
    assert_eq!(at(&summary, &["ops", "0", "duration_ms"]).as_u64(), Some(2));
    assert!(!shown(&summary).contains("doc"));
    assert!(trace_ops(&Ok(fixture()), &obj(vec![("trace_id", text("t1"))])).is_ok());
    assert!(trace_ops(&Ok(fixture()), &obj(vec![("trace_id", text("../t1"))])).is_err());
    let gone = Err("trace t9 not found".to_string());
    let named = obj(vec![("trace_id", text("t9"))]);
    assert_eq!(trace_ops(&gone, &named).unwrap_err(), "trace t9 not found");
    assert_eq!(trace_transcript(&gone, &named).unwrap_err(), "trace t9 not found");
}

#[test]
fn transcript_pages_and_truncates() {
    let trace = fixture();
    let page = transcript_page(&trace, 0, 2, 40);
    assert_eq!(page.get_u64("total_entries"), Some(3));
    assert_eq!(at(&page, &["entries", "0", "kind"]).as_str(), Some("user"));
    assert_eq!(at(&page, &["entries", "1", "kind"]).as_str(), Some("model"));
    assert_eq!(at(&page, &["entries", "1", "text_truncated"]).as_bool(), Some(true));
    assert_eq!(page.get_u64("next_start"), Some(2));
    let rest = transcript_page(&trace, 2, 10, 40);
    assert_eq!(at(&rest, &["entries", "0", "kind"]).as_str(), Some("tool_result"));
    assert!(rest.get("next_start").unwrap().is_null());
    assert!(trace_transcript(&Ok(trace), &obj(vec![("trace_id", text("t1"))])).is_ok());
}

#[test]
fn pages_show_everything_once() {
    let trace = fixture();
    let whole = transcript_page(&trace, 0, 100, 40);
    let total = whole.get_u64("total_entries").unwrap();
    for size in 1..5 {
        let mut start = 0;
        let mut seen = 0;
        loop {
            let page = transcript_page(&trace, start, size, 40);
            assert_eq!(page.get_u64("total_entries"), Some(total));
            let entries = page.get("entries").unwrap().as_array().unwrap();
            assert!(entries.len() <= size);
            for entry in entries {
                assert_eq!(entry.get_u64("index"), Some(seen));
                let same = at(&whole, &["entries", &seen.to_string(), "seq"]).as_u64();
                assert_eq!(entry.get_u64("seq"), same);
                seen += 1;
            }
            match page.get_u64("next_start") {
                Some(next) => start = next as usize,
                None => break,
            }
        }
        assert_eq!(seen, total);
    }
}

#[test]
fn tool_results_are_shown_as_compact_json() {
    let page = transcript_page(&fixture(), 2, 1, 100);
    assert!(shown(&page).contains("{\\\"content\\\":\\\"doc\\\"}"), "{}", shown(&page));
}

#[test]
fn crafted_trace_id_is_rejected_before_io() {
    for bad in ["../../etc/passwd", "/abs", "a/b", "", "x\\y", "a.b"] {
        let err = checked_trace_id(&obj(vec![("trace_id", text(bad))])).unwrap_err();
        assert!(
            err.contains("invalid trace_id"),
            "expected rejection for {bad:?}, got {err}"
        );
    }
    assert!(checked_trace_id(&obj(vec![("trace_id", text("abc123-4_x"))])).is_ok());
}

#[test]
fn feedback_is_listed() {
    let events = || {
        Ok(vec![FeedbackEvent {
            created_at_ms: 5,
            payload: serde_json::from_str("{\"score\": 1}").unwrap(),
        }])
    };
    let named = obj(vec![("trace_id", text("t1"))]);
    let listed = feedback_list(Ok(()), events(), &named).unwrap();
    assert_eq!(listed.get_u64("total"), Some(1));
    assert_eq!(listed.get_bool("truncated"), Some(false));
    assert_eq!(
        feedback_list(Err("gone".to_string()), events(), &obj(Vec::new())).unwrap_err(),
        "requires string `trace_id`"
    );
    let unread = Err("unreadable".to_string());
    assert_eq!(feedback_list(Ok(()), unread, &named).unwrap_err(), "unreadable");
}

#[test]
fn feedback_list_errors_on_unknown_trace() {
    let args = obj(vec![("trace_id", text("deadbeef"))]);
    let lookup = Err("trace deadbeef not found".to_string());
    let err = feedback_list(lookup, Ok(Vec::new()), &args).unwrap_err();
    assert!(err.contains("not found"));
}

#[test]
fn homes_are_found() {
    let disk = Disk::of(vec![dir("/home/me/x", &[])], Vec::new());
    for path in ["~/x", "~/x/", "~/./x", "~//x", "~/x/.", "~/././x//./"] {
        assert_eq!(expand_tilde(path, Some("/home/me")), "/home/me/x", "{path}");
    }
    assert_eq!(expand_tilde("~/x//y", Some("/home/me")), "/home/me/x//y");
    assert_eq!(expand_tilde("~/.x", Some("/home/me")), "/home/me/.x");
    assert_eq!(expand_tilde("~/x.", Some("/home/me")), "/home/me/x.");
    assert_eq!(expand_tilde("~/..", Some("/home/me")), "/home/me/..");
    assert_eq!(expand_tilde("~", Some("/home/me")), "/home/me/");
    assert_eq!(expand_tilde("~/x/", None), "~/x/");
    assert_eq!(expand_tilde("~x/", Some("/home/me")), "~x/");
    let root = TracesRoot::new(&disk, "~/x", Some("/home/me")).unwrap();
    assert_eq!(root.store(), "/home/me/x/traces");
    assert_eq!(root.feedback(), "/home/me/x/feedback");
    assert!(TracesRoot::new(&disk, "/gone", None).is_err());
    assert_eq!(truncate_chars("héllo", 2), ("hé".to_string(), true));
}
