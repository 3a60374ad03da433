//! Building an agent into a Python package: the mixed Rust and Python project
//! that is written for it, and the wheel that comes of it.
use vstd::prelude::*;

use super::{
    build_args, build_words, bundles, dependency_line, dependency_of, dependency_view,
    opt_dep_line, opt_options_text, options_expression, response_dependency, write_bundle,
    BuildError, BuildOptions, BuildRefusal, BundlePlan, CommandEnd, Dependency, ResponseDependency,
    TextFile,
};
use crate::bytes::{lossy, lossy_text};
use crate::definition::{AgentDefinition, Definition, RuntimeArg, RuntimeParam};
use crate::environment::Environment;
use crate::models::ModelCatalog;
use crate::names::{
    crate_name_of, module_of, py_arg, py_arg_of, python_module_name, sanitize_crate_name,
};
use crate::paths::{extension, extension_of, join_path, path_join};
use crate::split::{replace, replaced};
use crate::text::{cat, cat3, cat5, owned, same, trim, trimmed, views};
use crate::tools::disk::Disk;
use crate::trace::{json_member, payload_member};

verus! {

/// A built Python package.
#[derive(Debug)]
pub struct PythonBuildOutcome {
    pub crate_dir: String,
    pub module: String,
    pub wheel: Option<String>,
}

/// The Python classes of an answer type: the name of the class of answers, and
/// the text that defines it.
#[derive(Debug)]
pub struct Generated {
    pub root_class: String,
    pub code: String,
}

// ----- the schema of answers -----
/// What came of asking a built program for its configuration.
#[derive(Debug)]
pub enum SchemaRun {
    NotStarted(String),
    Failed { status: String, stderr: Vec<u8> },
    Finished { stdout: Vec<u8> },
}

/// The JSON value that bytes denote, or the words of the error.
pub uninterp spec fn json_parsed(bytes: Seq<u8>) -> Result<serde_json::Value, Seq<char>>;

/// `serde_json::from_slice`: the value that bytes denote, or the words of the
/// error, is determined by the bytes.
#[verifier::external_body]
pub(crate) fn parse_json(bytes: &Vec<u8>) -> (r: Result<serde_json::Value, String>)
    ensures
        match r {
            Ok(v) => json_parsed(bytes@) == Ok::<serde_json::Value, Seq<char>>(v),
            Err(e) => json_parsed(bytes@) == Err::<serde_json::Value, Seq<char>>(e@),
        },
{
    match serde_json::from_slice::<serde_json::Value>(bytes) {
        Ok(v) => Ok(v),
        Err(e) => Err(e.to_string()),
    }
}

/// The schema of answers, from what a built program said of its configuration.
pub open spec fn schema_of(run: SchemaRun) -> Result<Option<serde_json::Value>, Seq<char>> {
    match run {
        SchemaRun::NotStarted(e) => Err("spawning the agent binary: "@ + e@),
        SchemaRun::Failed { status, stderr } => Err(
            "`--config` exited with "@ + status@ + ": "@ + trimmed(lossy_text(stderr@)),
        ),
        SchemaRun::Finished { stdout } => match json_parsed(stdout@) {
            Err(e) => Err("parsing `--config` output: "@ + e),
            Ok(config) => Ok(payload_member(config, "response"@)),
        },
    }
}

/// The schema of answers in what a program reports of its configuration, once
/// that has been read.
pub fn reported_schema(binary: &str, read: Result<serde_json::Value, String>) -> (r: Result<
    Option<serde_json::Value>,
    BuildError,
>)
    ensures
        match read {
            Ok(config) => r == Ok::<Option<serde_json::Value>, BuildError>(
                payload_member(config, "response"@),
            ),
            Err(m) => r matches Err(e) && e@ == BuildRefusal::SchemaExtraction(
                binary@,
                "parsing `--config` output: "@ + m@,
            ),
        },
{
    match read {
        Err(e) => Err(
            BuildError::SchemaExtraction {
                binary: owned(binary),
                message: cat("parsing `--config` output: ", e.as_str()),
            },
        ),
        Ok(config) => Ok(json_member(&config, "response")),
    }
}

/// The schema of answers that a built program reports; none where it reports
/// no schema, which is no failure.
pub fn response_schema(binary: &str, run: &SchemaRun) -> (r: Result<
    Option<serde_json::Value>,
    BuildError,
>)
    ensures
        match schema_of(*run) {
            Ok(s) => r == Ok::<Option<serde_json::Value>, BuildError>(s),
            Err(m) => r matches Err(e) && e@ == BuildRefusal::SchemaExtraction(binary@, m),
        },
{
    match run {
        SchemaRun::NotStarted(e) => Err(
            BuildError::SchemaExtraction {
                binary: owned(binary),
                message: cat("spawning the agent binary: ", e.as_str()),
            },
        ),
        SchemaRun::Failed { status, stderr } => {
            let said = trim(lossy(stderr).as_str());
            let mut message = cat3("`--config` exited with ", status.as_str(), ": ");
            message.append(said.as_str());
            Err(BuildError::SchemaExtraction { binary: owned(binary), message })
        },
        SchemaRun::Finished { stdout } => reported_schema(binary, parse_json(stdout)),
    }
}

// ----- the texts of the project -----
pub const CARGO_HEAD: &'static str = "# Generated by `huggr build --surface python`. Do not edit by hand.
[package]
name = \"";

pub const CARGO_TOOLKIT: &'static str = "-python\"
version = \"0.0.0\"
edition = \"2021\"

[lib]
name = \"_native\"
crate-type = [\"cdylib\"]

# Detach from any surrounding workspace so this crate builds standalone.
[workspace]

[dependencies]
huggr-toolkit = { path = \"";

pub const CARGO_BRIDGE: &'static str = "\", features = [\"python-bridge\"] }
";

pub const CARGO_TAIL: &'static str = "
pyo3 = { version = \"0.23\", features = [\"extension-module\", \"abi3-py39\"] }
tokio = { version = \"1\", features = [\"rt-multi-thread\"] }
serde_json = \"1\"
";

pub const LIB_HEAD: &'static str = "// Generated by `huggr build --surface python`. Do not edit by hand.
use std::collections::BTreeMap;
use std::path::PathBuf;
use std::sync::Arc;

use huggr_toolkit::python_bridge::{EventStream, answer_ready_event, forward_agent_events};
use pyo3::exceptions::PyRuntimeError;
use pyo3::prelude::*;

static BUNDLE: &[u8] = include_bytes!(\"../bundle.bin\");

#[pyfunction]
#[pyo3(signature = (question, trace_id=None, blob_paths=None, skill_paths=None, extra_json=None, runtime_json=None, api_token=None))]
fn ask_events_json(
    question: String,
    trace_id: Option<String>,
    blob_paths: Option<Vec<String>>,
    skill_paths: Option<Vec<String>>,
    extra_json: Option<String>,
    runtime_json: Option<String>,
    api_token: Option<String>,
) -> PyResult<EventStream> {
    let runtime_values: BTreeMap<String, String> = match runtime_json {
        Some(s) => serde_json::from_str(&s)
            .map_err(|e| PyRuntimeError::new_err(format!(\"invalid runtime json: {e}\")))?,
        None => BTreeMap::new(),
    };
    let extra: serde_json::Value = match extra_json {
        Some(s) => serde_json::from_str(&s)
            .map_err(|e| PyRuntimeError::new_err(format!(\"invalid extra json: {e}\")))?,
        None => serde_json::Value::Null,
    };
    let blobs: Vec<PathBuf> = blob_paths
        .unwrap_or_default()
        .into_iter()
        .map(PathBuf::from)
        .collect();
    let skills: Vec<PathBuf> = skill_paths
        .unwrap_or_default()
        .into_iter()
        .map(PathBuf::from)
        .collect();
    let mut options = ";

pub const LIB_TAIL: &'static str = ";
    if let Some(api_token) = api_token {
        options = options.with_api_token(api_token);
    }
    let runtime = Arc::new(
        tokio::runtime::Builder::new_multi_thread()
            .enable_all()
            .build()
            .map_err(|e| PyRuntimeError::new_err(format!(\"starting async runtime: {e}\")))?,
    );
    let (tx, rx) = tokio::sync::mpsc::unbounded_channel();
    let handle = {
        let _guard = runtime.enter();
        tokio::spawn(async move {
            match huggr_toolkit::surface::prepare_bundle_ask_with_options(
                BUNDLE, &options, question, trace_id,
                huggr_toolkit::surface::AskPaths { blobs: &blobs, skills: &skills },
                extra, &runtime_values,
            )
            .await
            {
                Ok((agent, ask)) => forward_agent_events(agent, ask, tx).await,
                Err(answer) => {
                    let _ = tx.send(answer_ready_event(answer.clone()));
                    Ok(answer)
                }
            }
        })
    };
    Ok(EventStream::new(rx, handle, runtime))
}

#[pymodule]
fn _native(m: &Bound<'_, PyModule>) -> PyResult<()> {
    m.add_class::<EventStream>()?;
    m.add_function(wrap_pyfunction!(ask_events_json, m)?)?;
    Ok(())
}
";

pub const PYPROJECT_HEAD: &'static str = "# Generated by `huggr build --surface python`. Do not edit by hand.
[build-system]
requires = [\"maturin>=1.7,<2\"]
build-backend = \"maturin\"

[project]
name = \"";

pub const PYPROJECT_VERSION: &'static str = "\"
version = \"";

pub const PYPROJECT_DESCRIPTION: &'static str = "\"
description = \"";

pub const PYPROJECT_MATURIN: &'static str = "\"
requires-python = \">=3.9\"

[tool.maturin]
python-source = \"python\"
module-name = \"";

pub const PYPROJECT_TAIL: &'static str = "._native\"
";

pub const MODELS_HEAD: &'static str = "# Generated by `huggr build --surface python`. Do not edit by hand.
\"\"\"Typed models mirroring the Rust Ask/Answer contract and this agent's
response schema. Validation happens once, on the Rust side; these classes only
cast the already-valid JSON into typed objects.\"\"\"
from __future__ import annotations

from dataclasses import dataclass, field
from enum import Enum
from typing import Any, Dict, List, Literal, Optional

from ._types import AnswerMeta, BlobHandle

# Response models, generated from the agent's JSON Schema.

";

pub const MODELS_ANSWER: &'static str = "


@dataclass
class Answer:
    \"\"\"The uniform result of one ask. Branch on ``status``: on success
    ``response`` is set to the typed response and ``error`` is None; on error
    ``response`` is None and ``error`` carries the message.\"\"\"

    status: str
    trace_id: str
    metadata: AnswerMeta
    response: Optional[";

pub const MODELS_FROM_DICT: &'static str = "] = None
    error: Optional[str] = None
    blobs: List[BlobHandle] = field(default_factory=list)
    extra: Any = None

    @property
    def ok(self) -> bool:
        return self.status == \"success\"

    @classmethod
    def _from_dict(cls, d: dict) -> \"Answer\":
        status = d.get(\"status\", \"\")
        raw = d.get(\"response\") or {}
        if status == \"success\":
            response: Optional[";

pub const MODELS_TAIL: &'static str = "._from_dict(raw)
            error = None
        else:
            response = None
            error = raw.get(\"error\") if isinstance(raw, dict) else None
        return cls(
            status=status,
            trace_id=d.get(\"trace_id\", \"\"),
            metadata=AnswerMeta.from_dict(d.get(\"metadata\") or {}),
            response=response,
            error=error,
            blobs=[BlobHandle.from_dict(b) for b in d.get(\"blobs\", [])],
            extra=d.get(\"extra\"),
        )
";

pub const INIT_HEAD: &'static str = "# Generated by `huggr build --surface python`. Do not edit by hand.
\"\"\"Typed Python bindings for the `";

pub const INIT_IMPORT: &'static str = "` huglet.

    import ";

pub const INIT_USE: &'static str = "
    answer = ";

pub const INIT_MODELS: &'static str = ".ask(..., \"your question\")
    if answer.ok:
        print(answer.response)
    else:
        print(\"error:\", answer.error)
\"\"\"
from __future__ import annotations

import asyncio
import json
from typing import AsyncIterator, Dict, List, Optional

from . import _native
from ._models import Answer, AnswerMeta, BlobHandle, ";

pub const INIT_EXPORTS: &'static str = "
from ._types import (
    AgentEventFor,
    AskStartedEvent,
    AnswerReadyEvent,
    DoneEvent,
    DoneReason,
    ModelEndedEvent,
    ModelStartedEvent,
    NoticeEvent,
    TextDeltaEvent,
    ToolEndedEvent,
    ToolStartedEvent,
    Usage,
    agent_event_from_dict,
)

AgentEvent = AgentEventFor[Answer]

__all__ = [
    \"ask\", \"run\", \"AgentEvent\", \"AskStartedEvent\", \"Answer\", \"AnswerMeta\",
    \"AnswerReadyEvent\", \"BlobHandle\", \"DoneEvent\", \"DoneReason\",
    \"ModelEndedEvent\", \"ModelStartedEvent\", \"NoticeEvent\", \"TextDeltaEvent\",
    \"ToolEndedEvent\", \"ToolStartedEvent\", \"Usage\", \"";

pub const INIT_ASK: &'static str = "\",
]


def ask(
";

pub const INIT_ASK_DOC: &'static str = ") -> Answer:
    r\"\"\"Ask the agent one question and return a typed :class:`Answer`.

";

pub const INIT_ASK_VALUES: &'static str = "    \"\"\"
";

pub const INIT_ASK_BODY: &'static str = "    stream = _native.ask_events_json(
        question,
        trace_id,
        list(blobs) if blobs else None,
        list(skills) if skills else None,
        json.dumps(extra) if extra is not None else None,
        json.dumps(runtime),
        api_token,
    )
    try:
        while True:
            raw = stream.next_event()
            if raw is None:
                raise RuntimeError(\"event stream ended without an answer\")
            event = agent_event_from_dict(json.loads(raw), Answer._from_dict)
            if isinstance(event, AnswerReadyEvent):
                return event.answer
    finally:
        stream.cancel()


async def run(
";

pub const INIT_RUN_DOC: &'static str = ") -> AsyncIterator[AgentEvent]:
    r\"\"\"Stream typed lifecycle events for one ask.

";

pub const INIT_RUN_VALUES: &'static str = "    \"\"\"
";

pub const INIT_TAIL: &'static str = "    stream = _native.ask_events_json(
        question,
        trace_id,
        list(blobs) if blobs else None,
        list(skills) if skills else None,
        json.dumps(extra) if extra is not None else None,
        json.dumps(runtime),
        api_token,
    )
    try:
        while True:
            raw = await asyncio.to_thread(stream.next_event)
            if raw is None:
                return
            yield agent_event_from_dict(json.loads(raw), Answer._from_dict)
    finally:
        stream.cancel()
";

/// The `Cargo.toml` of the project.
pub open spec fn cargo_text(pkg: Seq<char>, dep: Seq<char>, toolkit_dir: Seq<char>) -> Seq<char> {
    CARGO_HEAD@
        + pkg
        + CARGO_TOOLKIT@
        + toolkit_dir
        + CARGO_BRIDGE@
        + dep
        + CARGO_TAIL@
}

/// The `Cargo.toml` of the project, which stands by itself and depends on the
/// toolkit at `toolkit_dir`.
pub fn cargo_toml(pkg: &str, response_dep: &Option<ResponseDependency>, toolkit_dir: &str) -> (r:
    String)
    ensures
        r@ == cargo_text(pkg@, opt_dep_line(dependency_view(*response_dep)), toolkit_dir@),
{
    let dep = dependency_line(response_dep);
    let mut s = owned(CARGO_HEAD);
    s.append(pkg);
    s.append(CARGO_TOOLKIT);
    s.append(toolkit_dir);
    s.append(CARGO_BRIDGE);
    s.append(dep.as_str());
    s.append(CARGO_TAIL);
    s
}

/// The `lib.rs` of the project.
pub open spec fn lib_text(options: Seq<char>) -> Seq<char> {
    LIB_HEAD@
        + options
        + LIB_TAIL@
}

/// The `lib.rs` of the project.
pub fn lib_rs(response_dep: &Option<ResponseDependency>) -> (r: String)
    ensures
        r@ == lib_text(opt_options_text(dependency_view(*response_dep))),
{
    let options = options_expression(response_dep);
    let mut s = owned(LIB_HEAD);
    s.append(options.as_str());
    s.append(LIB_TAIL);
    s
}

/// A text with backslashes and quotes escaped for a TOML string.
pub open spec fn escaped(s: Seq<char>) -> Seq<char> {
    replaced(replaced(s, "\\"@, "\\\\"@), "\""@, "\\\""@)
}

/// A text with backslashes and quotes escaped for a TOML string.
pub fn toml_escape(s: &str) -> (r: String)
    ensures
        r@ == escaped(s@),
{
    proof {
        reveal_strlit("\\");
        reveal_strlit("\"");
    }
    let doubled = replace(s, "\\", "\\\\");
    replace(doubled.as_str(), "\"", "\\\"")
}

/// The text without white space around it, or another where nothing is left.
pub open spec fn or_else(s: Seq<char>, other: Seq<char>) -> Seq<char> {
    if trimmed(s).len() == 0 {
        other
    } else {
        trimmed(s)
    }
}

fn trim_or(s: &str, other: &str) -> (r: String)
    ensures
        r@ == or_else(s@, other@),
{
    let t = trim(s);
    if t.as_str().is_empty() {
        owned(other)
    } else {
        t
    }
}

pub open spec fn pyproject_with(
    dist: Seq<char>,
    version: Seq<char>,
    description: Seq<char>,
    module: Seq<char>,
) -> Seq<char> {
    PYPROJECT_HEAD@
        + dist
        + PYPROJECT_VERSION@
        + version
        + PYPROJECT_DESCRIPTION@
        + description
        + PYPROJECT_MATURIN@
        + module
        + PYPROJECT_TAIL@
}

/// The `pyproject.toml` of the project.
pub open spec fn pyproject_text(def: Definition, module: Seq<char>) -> Seq<char> {
    pyproject_with(
        replaced(def.name, "_"@, "-"@),
        or_else(def.version, "0.0.0"@),
        escaped(def.description),
        module,
    )
}

/// The `pyproject.toml` of the project.
pub fn pyproject_toml(def: &AgentDefinition, module: &str) -> (r: String)
    ensures
        r@ == pyproject_text(def@, module@),
{
    proof {
        reveal_strlit("_");
    }
    let dist = replace(def.agent.name.as_str(), "_", "-");
    let version = trim_or(def.agent.version.as_str(), "0.0.0");
    let description = toml_escape(def.agent.description.as_str());
    let mut s = owned(PYPROJECT_HEAD);
    s.append(dist.as_str());
    s.append(PYPROJECT_VERSION);
    s.append(version.as_str());
    s.append(PYPROJECT_DESCRIPTION);
    s.append(description.as_str());
    s.append(PYPROJECT_MATURIN);
    s.append(module);
    s.append(PYPROJECT_TAIL);
    s
}

/// The `_models.py` of the package.
pub open spec fn models_text(root: Seq<char>, code: Seq<char>) -> Seq<char> {
    MODELS_HEAD@
        + code
        + MODELS_ANSWER@
        + root
        + MODELS_FROM_DICT@
        + root
        + "] = "@
        + root
        + MODELS_TAIL@
}

/// The `_models.py` of the package: the classes of answers and what every
/// answer has besides.
pub fn models_py(generated: &Generated) -> (r: String)
    ensures
        r@ == models_text(generated.root_class@, generated.code@),
{
    let mut s = owned(MODELS_HEAD);
    s.append(generated.code.as_str());
    s.append(MODELS_ANSWER);
    s.append(generated.root_class.as_str());
    s.append(MODELS_FROM_DICT);
    s.append(generated.root_class.as_str());
    s.append("] = ");
    s.append(generated.root_class.as_str());
    s.append(MODELS_TAIL);
    s
}

// ----- the functions of the package -----
/// The places of an argument in the package: in the parameters of a function,
/// in its documentation, and where its value is handed over.
#[derive(Clone, Copy, Debug, PartialEq, Eq, Structural)]
pub enum Place {
    Parameter,
    Documentation,
    Value,
}

/// The text of one argument in a place. Arguments in order must be given, as
/// must required ones.
pub open spec fn arg_text(arg: RuntimeParam, place: Place) -> Seq<char> {
    let ident = py_arg_of(arg.name);
    match place {
        Place::Parameter => if arg.positional || arg.required {
            "    "@ + ident + ": str,\n"@
        } else {
            "    "@ + ident + ": Optional[str] = None,\n"@
        },
        Place::Documentation => "        "@ + ident + ": "@ + or_else(
            arg.help,
            "Runtime argument."@,
        ) + "\n"@,
        Place::Value => if arg.positional || arg.required {
            "    runtime[\""@ + arg.name + "\"] = "@ + ident + "\n"@
        } else {
            "    if "@ + ident + " is not None:\n        runtime[\""@ + arg.name + "\"] = "@ + ident
                + "\n"@
        },
    }
}

fn write_arg(arg: &RuntimeArg, place: Place) -> (r: String)
    ensures
        r@ == arg_text(arg@, place),
{
    let ident = py_arg(arg.name.as_str());
    match place {
        Place::Parameter => if arg.positional || arg.required {
            cat3("    ", ident.as_str(), ": str,\n")
        } else {
            cat3("    ", ident.as_str(), ": Optional[str] = None,\n")
        },
        Place::Documentation => {
            let help = trim_or(arg.help.as_str(), "Runtime argument.");
            cat5("        ", ident.as_str(), ": ", help.as_str(), "\n")
        },
        Place::Value => if arg.positional || arg.required {
            cat5("    runtime[\"", arg.name.as_str(), "\"] = ", ident.as_str(), "\n")
        } else {
            let mut s = cat5(
                "    if ",
                ident.as_str(),
                " is not None:\n        runtime[\"",
                arg.name.as_str(),
                "\"] = ",
            );
            s.append(ident.as_str());
            s.append("\n");
            s
        },
    }
}

/// The texts of the first `n` arguments in a place, of those that are given in
/// order or of those that are not.
pub open spec fn args_text(
    args: Seq<RuntimeParam>,
    positional: bool,
    place: Place,
    n: int,
) -> Seq<char>
    decreases n,
{
    if n <= 0 {
        ""@
    } else {
        args_text(args, positional, place, n - 1) + (if args[n - 1].positional == positional {
            arg_text(args[n - 1], place)
        } else {
            ""@
        })
    }
}

fn write_args(def: &AgentDefinition, positional: bool, place: Place) -> (r: String)
    ensures
        r@ == args_text(def@.args, positional, place, def@.args.len() as int),
{
    let ghost args = def@.args;
    let mut s = owned("");
    let mut i: usize = 0;
    while i < def.runtime.args.len()
        invariant
            i <= def.runtime.args@.len(),
            args == def@.args,
            args.len() == def.runtime.args@.len(),
            s@ == args_text(args, positional, place, i as int),
        decreases def.runtime.args.len() - i,
    {
        assert(args[i as int] == def.runtime.args@[i as int]@);
        let text = if def.runtime.args[i].positional == positional {
            write_arg(&def.runtime.args[i], place)
        } else {
            owned("")
        };
        s.append(text.as_str());
        i = i + 1;
    }
    s
}

/// All arguments in a place: those given in order, `between`, then the others.
pub open spec fn all_args(args: Seq<RuntimeParam>, place: Place, between: Seq<char>) -> Seq<char> {
    args_text(args, true, place, args.len() as int) + between + args_text(
        args,
        false,
        place,
        args.len() as int,
    )
}

fn write_all_args(def: &AgentDefinition, place: Place, between: &str) -> (r: String)
    ensures
        r@ == all_args(def@.args, place, between@),
{
    let first = write_args(def, true, place);
    let rest = write_args(def, false, place);
    cat3(first.as_str(), between, rest.as_str())
}

pub const QUESTION_PARAMETER: &'static str = "    question: str,\n    *,\n";

pub const COMMON_PARAMETERS: &'static str = "    trace_id: Optional[str] = None,\n    blobs: Optional[List[str]] = None,\n    skills: Optional[List[str]] = None,\n    extra: Optional[dict] = None,\n    api_token: Optional[str] = None,\n";

pub const COMMON_DOCUMENTATION: &'static str = "        question: The question to ask the agent.\n        trace_id: Resume/fork from an existing trace id (writes a new child trace).\n        blobs: Local file paths to hand in as inbound blobs.\n        skills: Local SKILL.md folder paths to add for this ask.\n        extra: Opaque caller metadata, echoed into the trace.\n        api_token: Model credential for this ask; overrides every provider's\n            api_key_env and never enters the trace.\n";

/// The parameters of the package's functions: arguments given in order, the
/// question, then what is given by name.
pub open spec fn params_text(args: Seq<RuntimeParam>) -> Seq<char> {
    all_args(args, Place::Parameter, QUESTION_PARAMETER@) + COMMON_PARAMETERS@
}

/// The documentation of the package's functions.
pub open spec fn doc_text(description: Seq<char>, args: Seq<RuntimeParam>) -> Seq<char> {
    (if trimmed(description).len() == 0 {
        ""@
    } else {
        "    "@ + trimmed(description) + "\n\n"@
    }) + "    Args:\n"@ + all_args(args, Place::Documentation, ""@) + COMMON_DOCUMENTATION@
}

/// How the package's functions hand the arguments over.
pub open spec fn values_text(args: Seq<RuntimeParam>) -> Seq<char> {
    "    runtime: Dict[str, str] = {}\n"@ + all_args(args, Place::Value, ""@)
}

pub open spec fn init_with(
    name: Seq<char>,
    module: Seq<char>,
    root_class: Seq<char>,
    params: Seq<char>,
    doc: Seq<char>,
    runtime_build: Seq<char>,
) -> Seq<char> {
    INIT_HEAD@
        + name
        + INIT_IMPORT@
        + module
        + INIT_USE@
        + module
        + INIT_MODELS@
        + root_class
        + INIT_EXPORTS@
        + root_class
        + INIT_ASK@
        + params
        + INIT_ASK_DOC@
        + doc
        + INIT_ASK_VALUES@
        + runtime_build
        + INIT_ASK_BODY@
        + params
        + INIT_RUN_DOC@
        + doc
        + INIT_RUN_VALUES@
        + runtime_build
        + INIT_TAIL@
}

/// The `__init__.py` of the package.
pub open spec fn init_text(def: Definition, module: Seq<char>, root_class: Seq<char>) -> Seq<char> {
    init_with(
        def.name,
        module,
        root_class,
        params_text(def.args),
        doc_text(def.description, def.args),
        values_text(def.args),
    )
}

/// The `__init__.py` of the package: a function that asks and one that streams,
/// both with the declared arguments as parameters.
pub fn init_py(def: &AgentDefinition, module: &str, root_class: &str) -> (r: String)
    ensures
        r@ == init_text(def@, module@, root_class@),
{
    let mut params = write_all_args(def, Place::Parameter, QUESTION_PARAMETER);
    params.append(COMMON_PARAMETERS);
    let description = trim(def.agent.description.as_str());
    let mut doc = if description.as_str().is_empty() {
        owned("")
    } else {
        cat3("    ", description.as_str(), "\n\n")
    };
    doc.append("    Args:\n");
    let documented = write_all_args(def, Place::Documentation, "");
    doc.append(documented.as_str());
    doc.append(COMMON_DOCUMENTATION);
    let mut runtime_build = owned("    runtime: Dict[str, str] = {}\n");
    let values = write_all_args(def, Place::Value, "");
    runtime_build.append(values.as_str());
    let mut s = owned(INIT_HEAD);
    s.append(def.agent.name.as_str());
    s.append(INIT_IMPORT);
    s.append(module);
    s.append(INIT_USE);
    s.append(module);
    s.append(INIT_MODELS);
    s.append(root_class);
    s.append(INIT_EXPORTS);
    s.append(root_class);
    s.append(INIT_ASK);
    s.append(params.as_str());
    s.append(INIT_ASK_DOC);
    s.append(doc.as_str());
    s.append(INIT_ASK_VALUES);
    s.append(runtime_build.as_str());
    s.append(INIT_ASK_BODY);
    s.append(params.as_str());
    s.append(INIT_RUN_DOC);
    s.append(doc.as_str());
    s.append(INIT_RUN_VALUES);
    s.append(runtime_build.as_str());
    s.append(INIT_TAIL);
    s
}

proof fn lemma_args_prefix(args: Seq<RuntimeParam>, positional: bool, place: Place, i: int, n: int)
    requires
        0 <= i < n <= args.len(),
        args[i].positional == positional,
    ensures
        exists|before: Seq<char>, after: Seq<char>|
            args_text(args, positional, place, n) == #[trigger] (before + arg_text(args[i], place)
                + after),
    decreases n,
{
    let text = args_text(args, positional, place, n - 1);
    if i == n - 1 {
        assert(args_text(args, positional, place, n) =~= text + arg_text(args[i], place) + ""@) by {
            reveal_strlit("");
        }
    } else {
        lemma_args_prefix(args, positional, place, i, n - 1);
        let (before, after) = choose|before: Seq<char>, after: Seq<char>|
            text == #[trigger] (before + arg_text(args[i], place) + after);
        let last = if args[n - 1].positional == positional {
            arg_text(args[n - 1], place)
        } else {
            ""@
        };
        assert(args_text(args, positional, place, n) =~= before + arg_text(args[i], place) + (after
            + last));
    }
}

/// Every argument that is given in order is a parameter before the question,
/// and every other one is a parameter after it.
pub proof fn law_arguments_are_parameters(args: Seq<RuntimeParam>, i: int)
    requires
        0 <= i < args.len(),
    ensures
        args[i].positional ==> exists|before: Seq<char>, after: Seq<char>, rest: Seq<char>|
            params_text(args) == #[trigger] (before + arg_text(args[i], Place::Parameter) + after
                + QUESTION_PARAMETER@ + rest),
        !args[i].positional ==> exists|before: Seq<char>, between: Seq<char>, rest: Seq<char>|
            params_text(args) == #[trigger] (before + QUESTION_PARAMETER@ + between + arg_text(
                args[i],
                Place::Parameter,
            ) + rest),
{
    let n = args.len() as int;
    let place = Place::Parameter;
    let first = args_text(args, true, place, n);
    let others = args_text(args, false, place, n);
    if args[i].positional {
        lemma_args_prefix(args, true, place, i, n);
        let (before, after) = choose|before: Seq<char>, after: Seq<char>|
            first == #[trigger] (before + arg_text(args[i], place) + after);
        assert(params_text(args) =~= before + arg_text(args[i], place) + after
            + QUESTION_PARAMETER@ + (others + COMMON_PARAMETERS@));
    } else {
        lemma_args_prefix(args, false, place, i, n);
        let (between, after) = choose|before: Seq<char>, after: Seq<char>|
            others == #[trigger] (before + arg_text(args[i], place) + after);
        assert(params_text(args) =~= first + QUESTION_PARAMETER@ + between + arg_text(
            args[i],
            place,
        ) + (after + COMMON_PARAMETERS@));
    }
}

// ----- building -----
/// What is written and run to build a package.
#[derive(Debug)]
pub struct PythonPlan {
    pub bundle: BundlePlan,
    pub crate_dir: String,
    pub module: String,
    pub files: Vec<TextFile>,
    pub maturin_args: Vec<String>,
}

/// A file of the project.
pub open spec fn is_file(f: TextFile, path: Seq<char>, contents: Seq<char>) -> bool {
    f.path@ == path && f.contents@ == contents
}

/// What a build of the package comes down to, for an answer type `dep`.
pub open spec fn plans_package(
    p: PythonPlan,
    def: Definition,
    dep: Option<Dependency>,
    out_dir: Seq<char>,
    release: bool,
    toolkit_dir: Seq<char>,
    shared_types: Seq<char>,
    root: Seq<char>,
    code: Seq<char>,
) -> bool {
    let pkg = crate_name_of(def.name);
    let module = module_of(def.name);
    let dir = path_join(out_dir, pkg + "-python"@);
    let package = path_join(path_join(dir, "python"@), module);
    &&& p.crate_dir@ == dir
    &&& p.module@ == module
    &&& p.files@.len() == 7
    &&& is_file(
        p.files@[0],
        path_join(dir, "Cargo.toml"@),
        cargo_text(pkg, opt_dep_line(dep), toolkit_dir),
    )
    &&& is_file(p.files@[1], path_join(dir, "src/lib.rs"@), lib_text(opt_options_text(dep)))
    &&& is_file(p.files@[2], path_join(dir, "pyproject.toml"@), pyproject_text(def, module))
    &&& is_file(p.files@[3], path_join(package, "_types.py"@), shared_types)
    &&& is_file(p.files@[4], path_join(package, "_models.py"@), models_text(root, code))
    &&& is_file(p.files@[5], path_join(package, "__init__.py"@), init_text(def, module, root))
    &&& is_file(p.files@[6], path_join(package, "py.typed"@), ""@)
    &&& views(p.maturin_args@) == build_words(release)
}

fn text_file(dir: &str, name: &str, contents: String) -> (r: TextFile)
    ensures
        is_file(r, path_join(dir@, name@), contents@),
{
    TextFile { path: join_path(dir, name), contents }
}

/// What is written and run to build the package of an agent, once the classes
/// of its answers are known.
pub fn build_python(
    def: &AgentDefinition,
    opts: &BuildOptions,
    global: &ModelCatalog,
    env: &Environment,
    disk: &Disk,
    toolkit_dir: &str,
    shared_types: &str,
    generated: &Generated,
) -> (r: Result<PythonPlan, BuildError>)
    ensures
        match r {
            Ok(p) => {
                &&& bundles(Ok(p.bundle), def@, global@, env@)
                &&& dependency_of(disk, def@) matches Ok(dep) && plans_package(
                    p,
                    def@,
                    dep,
                    opts.out_dir@,
                    opts.release,
                    toolkit_dir@,
                    shared_types@,
                    generated.root_class@,
                    generated.code@,
                )
            },
            Err(e) => {
                ||| bundles(Err(e), def@, global@, env@)
                ||| (exists|b: BundlePlan| #[trigger] bundles(Ok(b), def@, global@, env@))
                    && dependency_of(disk, def@) == Err::<Option<Dependency>, BuildRefusal>(e@)
            },
        },
{
    let pkg = sanitize_crate_name(def.agent.name.as_str());
    let module = python_module_name(def.agent.name.as_str());
    let dir = join_path(opts.out_dir.as_str(), cat(pkg.as_str(), "-python").as_str());
    let bundle = match write_bundle(def, global, env) {
        Ok(b) => b,
        Err(e) => {
            return Err(e);
        },
    };
    assert(bundles(Ok(bundle), def@, global@, env@));
    let response_dep = match response_dependency(def, disk) {
        Ok(d) => d,
        Err(e) => {
            return Err(e);
        },
    };
    let mut files: Vec<TextFile> = Vec::new();
    let d = dir.as_str();
    files.push(text_file(d, "Cargo.toml", cargo_toml(pkg.as_str(), &response_dep, toolkit_dir)));
    files.push(text_file(d, "src/lib.rs", lib_rs(&response_dep)));
    files.push(text_file(d, "pyproject.toml", pyproject_toml(def, module.as_str())));
    let package = join_path(join_path(d, "python").as_str(), module.as_str());
    let p = package.as_str();
    files.push(text_file(p, "_types.py", owned(shared_types)));
    files.push(text_file(p, "_models.py", models_py(generated)));
    let init = init_py(def, module.as_str(), generated.root_class.as_str());
    files.push(text_file(p, "__init__.py", init));
    files.push(text_file(p, "py.typed", owned("")));
    let maturin_args = build_args(opts.release);
    Ok(PythonPlan { bundle, crate_dir: dir, module, files, maturin_args })
}

/// A file that a build left behind, with the time it was last changed, where
/// that is known.
#[derive(Debug)]
pub struct Wheel {
    pub path: String,
    pub modified: Option<u64>,
}

/// The file is a wheel.
pub open spec fn is_wheel(w: Wheel) -> bool {
    extension_of(w.path@) == Some("whl"@)
}

/// When a file was changed, as a number: before all others where it is not
/// known.
pub open spec fn changed(w: Wheel) -> int {
    match w.modified {
        Some(t) => t as int,
        None => -1,
    }
}

/// Of the files, the one at `i` is the wheel that was changed last, and of
/// several the last.
pub open spec fn newest(files: Seq<Wheel>, i: int) -> bool {
    &&& 0 <= i < files.len()
    &&& is_wheel(files[i])
    &&& forall|j: int|
        0 <= j < files.len() && is_wheel(#[trigger] files[j]) ==> changed(files[j]) < changed(
            files[i],
        ) || (changed(files[j]) == changed(files[i]) && j <= i)
}

fn changed_before(a: &Wheel, b: &Wheel) -> (r: bool)
    ensures
        r == (changed(*a) <= changed(*b)),
{
    match (a.modified, b.modified) {
        (None, _) => true,
        (Some(_), None) => false,
        (Some(x), Some(y)) => x <= y,
    }
}

fn wheel_named(w: &Wheel) -> (r: bool)
    ensures
        r == is_wheel(*w),
{
    match extension(w.path.as_str()) {
        Some(e) => same(e.as_str(), "whl"),
        None => false,
    }
}

/// The wheel that was changed last, if there is one.
pub fn newest_wheel(files: &Vec<Wheel>) -> (r: Option<String>)
    ensures
        match r {
            Some(path) => exists|i: int| #[trigger] newest(files@, i) && path@
                == files@[i].path@,
            None => forall|i: int| 0 <= i < files@.len() ==> !is_wheel(#[trigger] files@[i]),
        },
{
    let mut best: Option<usize> = None;
    let mut k: usize = 0;
    while k < files.len()
        invariant
            k <= files@.len(),
            match best {
                Some(b) => newest(files@.take(k as int), b as int),
                None => forall|i: int| 0 <= i < k ==> !is_wheel(#[trigger] files@[i]),
            },
        decreases files.len() - k,
    {
        let ghost seen = files@.take(k as int);
        let ghost now = files@.take(k + 1);
        assert(forall|j: int| 0 <= j < k ==> seen[j] == #[trigger] now[j]);
        if wheel_named(&files[k]) {
            let later = match best {
                Some(b) => changed_before(&files[b], &files[k]),
                None => true,
            };
            if later {
                best = Some(k);
            }
        }
        k = k + 1;
    }
    assert(files@.take(k as int) =~= files@);
    match best {
        Some(b) => {
            assert(newest(files@, b as int));
            Some(files[b].path.clone())
        },
        None => None,
    }
}

/// What `maturin` came to, as a refusal.
pub open spec fn maturin_refusal(crate_dir: Seq<char>, end: CommandEnd) -> Option<BuildRefusal> {
    match end {
        CommandEnd::NotStarted { missing: true, message: _ } => Some(
            BuildRefusal::MaturinMissing(crate_dir),
        ),
        CommandEnd::NotStarted { missing: false, message } => Some(
            BuildRefusal::MaturinSpawn(message@),
        ),
        CommandEnd::Exited { success: true, code: _ } => None,
        CommandEnd::Exited { success: false, code } => Some(
            BuildRefusal::Maturin(
                match code {
                    Some(c) => c as int,
                    None => -1,
                },
            ),
        ),
    }
}

/// What a build came to, once `maturin` has run and left `files` behind.
pub fn run_maturin(plan: PythonPlan, end: CommandEnd, files: &Vec<Wheel>) -> (r: Result<
    PythonBuildOutcome,
    BuildError,
>)
    ensures
        match maturin_refusal(plan.crate_dir@, end) {
            Some(why) => r matches Err(e) && e@ == why,
            None => r matches Ok(o) && o.crate_dir == plan.crate_dir && o.module == plan.module
                && match o.wheel {
                Some(path) => exists|i: int| #[trigger] newest(files@, i) && path@
                    == files@[i].path@,
                None => forall|i: int| 0 <= i < files@.len() ==> !is_wheel(#[trigger] files@[i]),
            },
        },
{
    let PythonPlan { bundle: _, crate_dir, module, files: _, maturin_args: _ } = plan;
    match end {
        CommandEnd::NotStarted { missing, message } => if missing {
            Err(BuildError::MaturinMissing { crate_dir })
        } else {
            Err(BuildError::MaturinSpawn(message))
        },
        CommandEnd::Exited { success, code } => {
            if success {
                Ok(PythonBuildOutcome { crate_dir, module, wheel: newest_wheel(files) })
            } else {
                let code: i32 = match code {
                    Some(c) => c,
                    None => -1,
                };
                Err(BuildError::Maturin { code })
            }
        },
    }
}

} // verus!
