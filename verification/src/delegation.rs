//! Calling other agents, and the commands that are run for it.
use vstd::prelude::*;

use crate::agent::blobs::{BlobHandle, BlobRef};
use crate::build::python::{json_parsed, parse_json};
use crate::bytes::{lossy, lossy_text};
use crate::definition::{Grant, ToolGrant};
use crate::environment::Environment;
use crate::json::{field, no_fields, Data, Json, Members};
use crate::number::{decimal, parse_u64, parsed, to_decimal};
use crate::paths::path_join;
use crate::runtime::{
    resolve, RuntimeError, RuntimeRefusal, AGENT_DEPTH_ENV, BLOB_STORE_ENV, DEFAULT_MAX_AGENT_DEPTH,
};
use crate::schema::{
    arguments, describe_text, object_schema, one, text_argument, Schema, ToolSchema,
};
use crate::text::{cat, cat3, cat5, owned, same, trim, trimmed, views};
use crate::tools::disk::Disk;
use crate::tools::shell::{kept_of, Capture};
use crate::trace::{json_member, json_str, payload_member, payload_str, TraceId};

verus! {

// ----- depth -----
/// How much deeper calls may go: what the caller said, else the default.
pub open spec fn depth_of(env: Map<Seq<char>, Seq<char>>) -> int {
    if env.dom().contains(AGENT_DEPTH_ENV@) {
        match parsed(env[AGENT_DEPTH_ENV@]) {
            Some(n) => if n <= u32::MAX {
                n as int
            } else {
                DEFAULT_MAX_AGENT_DEPTH as int
            },
            None => DEFAULT_MAX_AGENT_DEPTH as int,
        }
    } else {
        DEFAULT_MAX_AGENT_DEPTH as int
    }
}

/// How much deeper calls may go.
pub fn remaining_agent_depth(env: &Environment) -> (r: u32)
    ensures
        r == depth_of(env@),
{
    match env.get(AGENT_DEPTH_ENV) {
        Some(v) => match parse_u64(v.as_str()) {
            Some(n) => if n <= u32::MAX as u64 {
                n as u32
            } else {
                DEFAULT_MAX_AGENT_DEPTH
            },
            None => DEFAULT_MAX_AGENT_DEPTH,
        },
        None => DEFAULT_MAX_AGENT_DEPTH,
    }
}

// ----- wiring -----
/// What happens when another agent is called.
#[derive(Debug)]
pub enum Delegation {
    /// The call is refused: calls may go no deeper.
    Refused { child: String },
    /// The program is run, and calls from it may go as deep as `depth`.
    Run { artifact: String, depth: u32 },
}

/// What a [`Delegation`] denotes.
pub enum Call {
    Refused(Seq<char>),
    Run(Seq<char>, int),
}

impl View for Delegation {
    type V = Call;

    open spec fn view(&self) -> Call {
        match self {
            Delegation::Refused { child } => Call::Refused(child@),
            Delegation::Run { artifact, depth } => Call::Run(artifact@, *depth as int),
        }
    }
}

/// Another agent as a tool: its name and description, and what a call does.
#[derive(Debug)]
pub struct AgentWiring {
    pub name: String,
    pub description: String,
    pub call: Delegation,
}

/// What an [`AgentWiring`] denotes.
pub struct Wiring {
    pub name: Seq<char>,
    pub description: Seq<char>,
    pub call: Call,
}

impl View for AgentWiring {
    type V = Wiring;

    open spec fn view(&self) -> Wiring {
        Wiring { name: self.name@, description: self.description@, call: self.call@ }
    }
}

/// A tool that takes feedback for another agent.
#[derive(Debug)]
pub struct SubprocessFeedbackTool {
    pub name: String,
    pub child: String,
    pub artifact: String,
}

pub open spec fn depth_reached() -> Seq<char> {
    "delegation refused: max agent depth reached"@
}

/// The program of a granted agent, or why there is none.
pub open spec fn artifact_of(grant: Grant, base: Seq<char>, disk: &Disk) -> Result<
    Seq<char>,
    RuntimeRefusal,
> {
    match grant.config.get_str("artifact"@) {
        None => Err(
            RuntimeRefusal::Agent(
                grant.name,
                "missing string `artifact` (path to a built agent binary)"@,
            ),
        ),
        Some(path) => {
            let p = path_join(base, path);
            if disk.leads_to_file(p) {
                Ok(p)
            } else {
                Err(
                    RuntimeRefusal::Agent(
                        grant.name,
                        "`artifact` does not resolve to a built agent binary: "@ + p,
                    ),
                )
            }
        },
    }
}

pub open spec fn path_outcome(r: Result<String, RuntimeError>) -> Result<
    Seq<char>,
    RuntimeRefusal,
> {
    match r {
        Ok(p) => Ok(p@),
        Err(e) => Err(e@),
    }
}

/// The program of a granted agent.
pub fn resolve_agent_artifact(grant: &ToolGrant, base_dir: &str, disk: &Disk) -> (r: Result<
    String,
    RuntimeError,
>)
    ensures
        path_outcome(r) == artifact_of(grant@, base_dir@, disk),
{
    match grant.config.get_str("artifact") {
        None => Err(
            RuntimeError::Agent {
                name: grant.name.clone(),
                message: owned("missing string `artifact` (path to a built agent binary)"),
            },
        ),
        Some(path) => {
            let p = resolve(base_dir, path);
            if disk.file_at(p.as_str()) {
                Ok(p)
            } else {
                Err(
                    RuntimeError::Agent {
                        name: grant.name.clone(),
                        message: cat(
                            "`artifact` does not resolve to a built agent binary: ",
                            p.as_str(),
                        ),
                    },
                )
            }
        },
    }
}

/// How a granted agent is wired at a remaining depth.
pub open spec fn agent_wiring(grant: Grant, base: Seq<char>, disk: &Disk, depth: int) -> Result<
    Wiring,
    RuntimeRefusal,
> {
    let name = "agent_"@ + grant.name;
    if depth == 0 {
        Ok(Wiring { name, description: depth_reached(), call: Call::Refused(grant.name) })
    } else {
        match artifact_of(grant, base, disk) {
            Err(e) => Err(e),
            Ok(p) => Ok(
                Wiring {
                    name,
                    description: "huglet artifact at "@ + p,
                    call: Call::Run(p, depth - 1),
                },
            ),
        }
    }
}

pub open spec fn wiring_outcome(r: Result<AgentWiring, RuntimeError>) -> Result<
    Wiring,
    RuntimeRefusal,
> {
    match r {
        Ok(w) => Ok(w@),
        Err(e) => Err(e@),
    }
}

/// Wires a granted agent. Where calls may go no deeper, every call is refused
/// and no program is looked for; else each call is run with one less depth.
pub fn build_agent_tool(grant: &ToolGrant, base_dir: &str, disk: &Disk, depth: u32) -> (r: Result<
    AgentWiring,
    RuntimeError,
>)
    ensures
        wiring_outcome(r) == agent_wiring(grant@, base_dir@, disk, depth as int),
{
    let name = cat("agent_", grant.name.as_str());
    if depth == 0 {
        return Ok(
            AgentWiring {
                name,
                description: owned("delegation refused: max agent depth reached"),
                call: Delegation::Refused { child: grant.name.clone() },
            },
        );
    }
    match resolve_agent_artifact(grant, base_dir, disk) {
        Err(e) => Err(e),
        Ok(p) => Ok(
            AgentWiring {
                name,
                description: cat("huglet artifact at ", p.as_str()),
                call: Delegation::Run { artifact: p, depth: depth - 1 },
            },
        ),
    }
}

/// What the host knows of its own program: its path, or why it is not known.
pub open spec fn program_view(exe: Result<&str, &str>) -> Result<Seq<char>, Seq<char>> {
    match exe {
        Ok(p) => Ok(p@),
        Err(e) => Err(e@),
    }
}

/// How an agent that may call itself is wired at a remaining depth.
pub open spec fn delegate_wiring(
    grant: Grant,
    base: Seq<char>,
    disk: &Disk,
    depth: int,
    exe: Result<Seq<char>, Seq<char>>,
) -> Result<Wiring, RuntimeRefusal> {
    let name = "delegate"@;
    if depth == 0 {
        Ok(Wiring { name, description: depth_reached(), call: Call::Refused("self"@) })
    } else {
        let bin = match grant.config.get_str("artifact"@) {
            Some(path) => Ok(path_join(base, path)),
            None => exe,
        };
        match bin {
            Err(e) => Err(
                RuntimeRefusal::Agent(name, "resolving current agent executable: "@ + e),
            ),
            Ok(p) => if disk.leads_to_file(p) {
                Ok(
                    Wiring {
                        name,
                        description: "isolated context running this agent at "@ + p,
                        call: Call::Run(p, depth - 1),
                    },
                )
            } else {
                Err(RuntimeRefusal::Agent(name, "self artifact is not a file: "@ + p))
            },
        }
    }
}

/// Wires an agent that may call itself: the named program, else its own.
pub fn build_delegate_tool(
    grant: &ToolGrant,
    base_dir: &str,
    disk: &Disk,
    depth: u32,
    exe: Result<&str, &str>,
) -> (r: Result<AgentWiring, RuntimeError>)
    ensures
        wiring_outcome(r) == delegate_wiring(
            grant@,
            base_dir@,
            disk,
            depth as int,
            program_view(exe),
        ),
{
    if depth == 0 {
        return Ok(
            AgentWiring {
                name: owned("delegate"),
                description: owned("delegation refused: max agent depth reached"),
                call: Delegation::Refused { child: owned("self") },
            },
        );
    }
    let bin = match grant.config.get_str("artifact") {
        Some(path) => resolve(base_dir, path),
        None => match exe {
            Ok(p) => owned(p),
            Err(e) => {
                return Err(
                    RuntimeError::Agent {
                        name: owned("delegate"),
                        message: cat("resolving current agent executable: ", e),
                    },
                );
            },
        },
    };
    if !disk.file_at(bin.as_str()) {
        return Err(
            RuntimeError::Agent {
                name: owned("delegate"),
                message: cat("self artifact is not a file: ", bin.as_str()),
            },
        );
    }
    Ok(
        AgentWiring {
            name: owned("delegate"),
            description: cat("isolated context running this agent at ", bin.as_str()),
            call: Delegation::Run { artifact: bin, depth: depth - 1 },
        },
    )
}

/// The tool that takes feedback for a granted agent.
pub fn build_agent_feedback_tool(grant: &ToolGrant, base_dir: &str, disk: &Disk) -> (r: Result<
    SubprocessFeedbackTool,
    RuntimeError,
>)
    ensures
        match r {
            Ok(t) => {
                &&& t.name@ == "agent_"@ + grant@.name + "_feedback"@
                &&& t.child@ == grant@.name
                &&& artifact_of(grant@, base_dir@, disk) == Ok::<Seq<char>, RuntimeRefusal>(
                    t.artifact@,
                )
            },
            Err(e) => artifact_of(grant@, base_dir@, disk) == Err::<Seq<char>, RuntimeRefusal>(
                e@,
            ),
        },
{
    match resolve_agent_artifact(grant, base_dir, disk) {
        Err(e) => Err(e),
        Ok(artifact) => Ok(
            SubprocessFeedbackTool {
                name: cat3("agent_", grant.name.as_str(), "_feedback"),
                child: grant.name.clone(),
                artifact,
            },
        ),
    }
}

/// How the feedback tool is advertised.
pub open spec fn feedback_tool_spec(name: Seq<char>, child: Seq<char>) -> Schema {
    Schema {
        name,
        description: "Append feedback for a trace returned by the `"@ + child + "` huglet."@,
        parameters: arguments(
            no_fields().push(
                field("trace_id"@, text_argument("Trace id returned by the huglet."@)),
            ).push(
                field(
                    "payload"@,
                    Json::Object(
                        no_fields().push(
                            field("description"@, Json::Str("Opaque feedback payload."@)),
                        ),
                    ),
                ),
            ),
            seq!["trace_id"@],
        ),
    }
}

impl SubprocessFeedbackTool {
    /// How the tool is advertised.
    pub fn schema(&self) -> (r: ToolSchema)
        ensures
            r@ == feedback_tool_spec(self.name@, self.child@),
    {
        ToolSchema::new(
            self.name.as_str(),
            cat3(
                "Append feedback for a trace returned by the `",
                self.child.as_str(),
                "` huglet.",
            ).as_str(),
            object_schema(
                Members::new().with(
                    "trace_id",
                    describe_text("Trace id returned by the huglet."),
                ).with(
                    "payload",
                    Members::new().with(
                        "description",
                        Data::string("Opaque feedback payload."),
                    ).object(),
                ),
                &one("trace_id"),
            ),
        )
    }
}

/// The command of a granted server and its arguments, or why there is none.
pub open spec fn command_of(grant: Grant) -> Result<(Seq<char>, Seq<Seq<char>>), RuntimeRefusal> {
    match grant.config.get_str("command"@) {
        None => Err(RuntimeRefusal::MissingCommand(grant.name)),
        Some(c) => Ok((c, grant.config.get_strings("args"@))),
    }
}

/// The command of a granted server and its arguments.
pub fn command_and_args(grant: &ToolGrant) -> (r: Result<(String, Vec<String>), RuntimeError>)
    ensures
        match r {
            Ok((c, args)) => command_of(grant@) == Ok::<
                (Seq<char>, Seq<Seq<char>>),
                RuntimeRefusal,
            >((c@, views(args@))),
            Err(e) => command_of(grant@) == Err::<(Seq<char>, Seq<Seq<char>>), RuntimeRefusal>(e@),
        },
{
    match grant.config.get_str("command") {
        None => Err(RuntimeError::MissingCommand(grant.name.clone())),
        Some(c) => Ok((owned(c), grant.config.get_strings("args"))),
    }
}

// ----- running another agent -----
/// The arguments that hand over the files from index `i` on, or why they cannot
/// be handed over.
pub open spec fn blob_args(blobs: Seq<BlobHandle>, i: int, args: Seq<Seq<char>>) -> Result<
    Seq<Seq<char>>,
    Seq<char>,
>
    decreases blobs.len() - i,
{
    if i < 0 || i >= blobs.len() {
        Ok(args)
    } else {
        match blobs[i].blob_ref {
            BlobRef::Sha256 { sha256 } => blob_args(
                blobs,
                i + 1,
                args.push("--blob"@).push(sha256@),
            ),
            BlobRef::Path { path } => blob_args(blobs, i + 1, args.push("--blob"@).push(path@)),
            BlobRef::Bytes { .. } => Err(
                "agent-as-tool subprocess forwarding only supports Path and Sha256 blobs"@,
            ),
        }
    }
}

/// The arguments with which another agent is asked.
pub open spec fn ask_args(
    question: Seq<char>,
    trace_id: Option<Seq<char>>,
    blobs: Seq<BlobHandle>,
) -> Result<Seq<Seq<char>>, Seq<char>> {
    let asked = Seq::empty().push(question).push("--json"@);
    blob_args(
        blobs,
        0,
        match trace_id {
            Some(id) => asked.push("--trace"@).push(id),
            None => asked,
        },
    )
}

fn push_two(args: &mut Vec<String>, a: &str, b: &str)
    ensures
        views(final(args)@) == views(old(args)@).push(a@).push(b@),
{
    let ghost was = args@;
    args.push(owned(a));
    args.push(owned(b));
    assert(views(args@) =~= views(was).push(a@).push(b@));
}

/// The arguments with which another agent is asked a question, in the thread of
/// a trace where one is given, with files that it can find itself.
pub fn subprocess_args(question: &str, trace_id: Option<&TraceId>, blobs: &Vec<BlobHandle>) -> (r:
    Result<Vec<String>, String>)
    ensures
        match r {
            Ok(v) => ask_args(
                question@,
                match trace_id {
                    Some(id) => Some(id@),
                    None => None,
                },
                blobs@,
            ) == Ok::<Seq<Seq<char>>, Seq<char>>(views(v@)),
            Err(e) => ask_args(
                question@,
                match trace_id {
                    Some(id) => Some(id@),
                    None => None,
                },
                blobs@,
            ) == Err::<Seq<Seq<char>>, Seq<char>>(e@),
        },
{
    let mut args: Vec<String> = Vec::new();
    assert(views(args@) =~= Seq::<Seq<char>>::empty());
    push_two(&mut args, question, "--json");
    if let Some(id) = trace_id {
        push_two(&mut args, "--trace", id.as_str());
    }
    let ghost goal = blob_args(blobs@, 0, views(args@));
    let mut i: usize = 0;
    while i < blobs.len()
        invariant
            i <= blobs@.len(),
            goal == ask_args(
                question@,
                match trace_id {
                    Some(id) => Some(id@),
                    None => None,
                },
                blobs@,
            ),
            goal == blob_args(blobs@, i as int, views(args@)),
        decreases blobs.len() - i,
    {
        match &blobs[i].blob_ref {
            BlobRef::Sha256 { sha256 } => {
                push_two(&mut args, "--blob", sha256.as_str());
            },
            BlobRef::Path { path } => {
                push_two(&mut args, "--blob", path.as_str());
            },
            BlobRef::Bytes { base64: _ } => {
                return Err(
                    owned(
                        "agent-as-tool subprocess forwarding only supports Path and Sha256 blobs",
                    ),
                );
            },
        }
        i = i + 1;
    }
    Ok(args)
}

/// What is said of a called agent that failed.
pub open spec fn exit_text(bin: Seq<char>, what: Seq<char>, status: Seq<char>, stderr: Seq<u8>) -> Seq<
    char,
> {
    "huglet `"@ + bin + "` "@ + what + "exited with "@ + status + ": "@ + trimmed(
        lossy_text(stderr),
    )
}

/// What is said of a called agent that failed, with what it printed.
pub fn subprocess_failure(bin: &str, status: &str, stderr: &Vec<u8>) -> (r: String)
    ensures
        r@ == exit_text(bin@, ""@, status@, stderr@),
{
    failure(bin, "", status, stderr)
}

/// What is said of a called agent that failed to take feedback.
pub fn feedback_failure(bin: &str, status: &str, stderr: &Vec<u8>) -> (r: String)
    ensures
        r@ == exit_text(bin@, "feedback "@, status@, stderr@),
{
    failure(bin, "feedback ", status, stderr)
}

fn failure(bin: &str, what: &str, status: &str, stderr: &Vec<u8>) -> (r: String)
    ensures
        r@ == exit_text(bin@, what@, status@, stderr@),
{
    let mut s = cat5("huglet `", bin, "` ", what, "exited with ");
    s.append(status);
    s.append(": ");
    s.append(trim(lossy(stderr).as_str()).as_str());
    s
}

/// The arguments with which feedback is handed over.
pub fn feedback_args(trace_id: &str, payload: &str) -> (r: Vec<String>)
    ensures
        views(r@) == Seq::empty().push("--feedback"@).push(trace_id@).push(
            "--feedback-payload"@,
        ).push(payload@).push("--json"@),
{
    let mut args: Vec<String> = Vec::new();
    assert(views(args@) =~= Seq::<Seq<char>>::empty());
    push_two(&mut args, "--feedback", trace_id);
    push_two(&mut args, "--feedback-payload", payload);
    let ghost was = args@;
    args.push(owned("--json"));
    assert(views(args@) =~= views(was).push("--json"@));
    args
}

/// The text of a member, where a value has one that is a text.
pub open spec fn payload_word(value: serde_json::Value, key: Seq<char>) -> Option<Seq<char>> {
    match payload_member(value, key) {
        Some(v) => payload_str(v),
        None => None,
    }
}

/// What a reply to feedback comes to: the reply itself, unless it says that it
/// is a refusal.
pub open spec fn feedback_value(reply: serde_json::Value) -> Result<serde_json::Value, Seq<char>> {
    if payload_word(reply, "status"@) == Some("error"@) {
        let said = match payload_member(reply, "response"@) {
            Some(response) => payload_word(response, "error"@),
            None => None,
        };
        match said {
            Some(e) => Err(e),
            None => Err("feedback failed"@),
        }
    } else {
        Ok(reply)
    }
}

/// What is said when something is, or the words of what went wrong.
pub open spec fn payload_outcome(r: Result<serde_json::Value, String>) -> Result<
    serde_json::Value,
    Seq<char>,
> {
    match r {
        Ok(v) => Ok(v),
        Err(e) => Err(e@),
    }
}

/// Takes a reply to feedback, once it has been read.
pub fn feedback_reply(reply: serde_json::Value) -> (r: Result<serde_json::Value, String>)
    ensures
        payload_outcome(r) == feedback_value(reply),
{
    let failed = match json_member(&reply, "status") {
        Some(status) => match json_str(&status) {
            Some(s) => same(s, "error"),
            None => false,
        },
        None => false,
    };
    if !failed {
        return Ok(reply);
    }
    if let Some(response) = json_member(&reply, "response") {
        if let Some(error) = json_member(&response, "error") {
            if let Some(e) = json_str(&error) {
                return Err(owned(e));
            }
        }
    }
    Err(owned("feedback failed"))
}

/// What the called agent printed in reply to feedback comes to.
pub open spec fn printed_feedback(stdout: Seq<u8>) -> Result<serde_json::Value, Seq<char>> {
    match json_parsed(stdout) {
        Ok(reply) => feedback_value(reply),
        Err(e) => Err("parsing feedback result: "@ + e),
    }
}

/// Takes what the called agent printed in reply to feedback.
pub fn feedback_result(stdout: &Vec<u8>) -> (r: Result<serde_json::Value, String>)
    ensures
        payload_outcome(r) == printed_feedback(stdout@),
{
    match parse_json(stdout) {
        Ok(reply) => feedback_reply(reply),
        Err(e) => Err(cat("parsing feedback result: ", e.as_str())),
    }
}

/// What came of running another agent's program.
#[derive(Debug)]
pub enum ChildRun {
    NotStarted(String),
    Failed { status: String, stderr: Vec<u8> },
    Finished { stdout: Vec<u8> },
}

/// What handing feedback to another agent's program came to.
pub fn feedback_outcome(bin: &str, run: ChildRun) -> (r: Result<serde_json::Value, String>)
    ensures
        payload_outcome(r) == match run {
            ChildRun::NotStarted(e) => Err::<serde_json::Value, Seq<char>>(
                "spawning huglet `"@ + bin@ + "` for feedback: "@ + e@,
            ),
            ChildRun::Failed { status, stderr } => Err::<serde_json::Value, Seq<char>>(
                exit_text(bin@, "feedback "@, status@, stderr@),
            ),
            ChildRun::Finished { stdout } => printed_feedback(stdout@),
        },
{
    match run {
        ChildRun::NotStarted(e) => {
            let mut s = cat3("spawning huglet `", bin, "` for feedback: ");
            s.append(e.as_str());
            Err(s)
        },
        ChildRun::Failed { status, stderr } => Err(
            feedback_failure(bin, status.as_str(), &stderr),
        ),
        ChildRun::Finished { stdout } => feedback_result(&stdout),
    }
}

/// What another agent's program printed when it was asked, or why there is
/// nothing.
pub fn ask_output(bin: &str, run: ChildRun) -> (r: Result<Vec<u8>, String>)
    ensures
        match run {
            ChildRun::NotStarted(e) => r matches Err(m) && m@ == "spawning huglet `"@ + bin@
                + "`: "@ + e@,
            ChildRun::Failed { status, stderr } => r matches Err(m) && m@ == exit_text(
                bin@,
                ""@,
                status@,
                stderr@,
            ),
            ChildRun::Finished { stdout } => r == Ok::<Vec<u8>, String>(stdout),
        },
{
    match run {
        ChildRun::NotStarted(e) => {
            let mut s = cat3("spawning huglet `", bin, "`: ");
            s.append(e.as_str());
            Err(s)
        },
        ChildRun::Failed { status, stderr } => Err(
            subprocess_failure(bin, status.as_str(), &stderr),
        ),
        ChildRun::Finished { stdout } => Ok(stdout),
    }
}

// ----- what the programs of other agents print -----
/// How many bytes are kept of what another agent's program prints; the rest is
/// drained.
pub const MAX_CAPTURE_BYTES: u64 = 8388608;

/// Starts to read what another agent's program prints.
pub fn child_capture() -> (r: Capture)
    ensures
        r.limit() == MAX_CAPTURE_BYTES,
        r.kept() == kept_of(Seq::empty(), MAX_CAPTURE_BYTES as nat),
{
    Capture::new(MAX_CAPTURE_BYTES)
}

/// What all the chunks come to.
pub open spec fn whole(chunks: Seq<Vec<u8>>, n: int) -> Seq<u8>
    decreases n,
{
    if n <= 0 {
        Seq::empty()
    } else {
        whole(chunks, n - 1) + chunks[n - 1]@
    }
}

/// What is kept of an output that came in chunks: its first `limit` bytes.
pub fn read_bounded(chunks: &Vec<Vec<u8>>, limit: u64) -> (r: Vec<u8>)
    ensures
        r@ == kept_of(whole(chunks@, chunks@.len() as int), limit as nat).bytes,
        r@.len() <= limit,
{
    let mut captured = Capture::new(limit);
    let mut i: usize = 0;
    while i < chunks.len()
        invariant
            i <= chunks@.len(),
            captured.limit() == limit,
            captured.kept() == kept_of(whole(chunks@, i as int), limit as nat),
        decreases chunks.len() - i,
    {
        captured.take(&chunks[i]);
        assert(whole(chunks@, i + 1) == whole(chunks@, i as int) + chunks@[i as int]@);
        i = i + 1;
    }
    let kept = captured.bytes();
    copy_bytes(kept)
}

fn copy_bytes(v: &Vec<u8>) -> (r: Vec<u8>)
    ensures
        r@ == v@,
{
    let mut out: Vec<u8> = Vec::new();
    let mut i: usize = 0;
    while i < v.len()
        invariant
            i <= v@.len(),
            out@ == v@.take(i as int),
        decreases v.len() - i,
    {
        out.push(v[i]);
        i = i + 1;
        assert(out@ =~= v@.take(i as int));
    }
    assert(v@.take(i as int) =~= v@);
    out
}

/// The variables that are set for another agent's program: how much deeper it
/// may call, and where files are shared.
pub fn subprocess_env(depth: u32, blob_store: &str) -> (r: Vec<(String, String)>)
    ensures
        r@.len() == 2,
        r@[0].0@ == AGENT_DEPTH_ENV@ && r@[0].1@ == decimal(depth as nat),
        r@[1].0@ == BLOB_STORE_ENV@ && r@[1].1@ == blob_store@,
{
    let mut env: Vec<(String, String)> = Vec::new();
    env.push((owned(AGENT_DEPTH_ENV), to_decimal(depth as u64)));
    env.push((owned(BLOB_STORE_ENV), owned(blob_store)));
    env
}

// ----- laws -----
/// A program that goes on printing cannot fill the memory: whatever comes, and
/// in whatever chunks, what is kept of it is its beginning and no more than the
/// bound.
pub proof fn law_captures_are_bounded(chunks: Seq<Vec<u8>>, n: int)
    requires
        0 <= n <= chunks.len(),
    ensures
        ({
            let all = whole(chunks, n);
            let kept = kept_of(all, MAX_CAPTURE_BYTES as nat).bytes;
            kept.len() <= MAX_CAPTURE_BYTES && kept.is_prefix_of(all) && (all.len()
                <= MAX_CAPTURE_BYTES ==> kept == all)
        }),
{
}

/// Calls end: a call is run with strictly less depth than its caller has, and
/// with none left it is refused.
pub proof fn law_delegation_terminates(
    grant: Grant,
    base: Seq<char>,
    disk: &Disk,
    depth: int,
    exe: Result<Seq<char>, Seq<char>>,
)
    requires
        depth >= 0,
    ensures
        agent_wiring(grant, base, disk, depth) matches Ok(w) ==> match w.call {
            Call::Run(_, deeper) => 0 <= deeper < depth,
            Call::Refused(_) => depth == 0,
        },
        delegate_wiring(grant, base, disk, depth, exe) matches Ok(w) ==> match w.call {
            Call::Run(_, deeper) => 0 <= deeper < depth,
            Call::Refused(_) => depth == 0,
        },
{
}

/// The program of a granted agent is the file that its `artifact` names from the
/// directory of the definition; it is run with one level less to go, and not at all
/// where none is left.
pub proof fn law_calls_run_the_program_named(
    grant: Grant,
    base: Seq<char>,
    disk: &Disk,
    depth: int,
    path: Seq<char>,
    exe: Seq<char>,
)
    requires
        depth >= 0,
    ensures
        ({
            let agent = agent_wiring(grant, base, disk, depth);
            let own = delegate_wiring(grant, base, disk, depth, Ok(exe));
            let named = grant.config.get_str("artifact"@);
            let at = path_join(base, path);
            &&& depth == 0 ==> agent is Ok && own is Ok && agent->Ok_0.call == Call::Refused(
                grant.name,
            ) && own->Ok_0.call == Call::Refused("self"@)
            &&& depth > 0 && named == Some(path) ==> {
                &&& agent is Ok <==> disk.leads_to_file(at)
                &&& own is Ok <==> disk.leads_to_file(at)
                &&& agent matches Ok(w) ==> w.call == Call::Run(at, depth - 1)
                &&& own matches Ok(w) ==> w.call == Call::Run(at, depth - 1)
            }
            &&& depth > 0 && named is None ==> {
                &&& agent is Err
                &&& own is Ok <==> disk.leads_to_file(exe)
                &&& own matches Ok(w) ==> w.call == Call::Run(exe, depth - 1)
            }
            &&& agent matches Ok(w) ==> w.name == "agent_"@ + grant.name
            &&& own matches Ok(w) ==> w.name == "delegate"@
        }),
{
}

/// How deep calls may still go is what the caller wrote down for the program it
/// runs.
pub proof fn law_depths_are_handed_down(env: Map<Seq<char>, Seq<char>>, depth: u32)
    ensures
        depth_of(env.insert(AGENT_DEPTH_ENV@, decimal(depth as nat))) == depth,
        depth_of(env.remove(AGENT_DEPTH_ENV@)) == DEFAULT_MAX_AGENT_DEPTH,
{
    crate::number::law_decimal_round_trip(depth as nat);
}

/// The address that a blob is forwarded by.
pub open spec fn forwarded(blob: BlobHandle) -> Option<Seq<char>> {
    match blob.blob_ref {
        BlobRef::Sha256 { sha256 } => Some(sha256@),
        BlobRef::Path { path } => Some(path@),
        BlobRef::Bytes { .. } => None,
    }
}

proof fn lemma_blob_args(blobs: Seq<BlobHandle>, i: int, args: Seq<Seq<char>>, k: int)
    requires
        0 <= i <= blobs.len(),
    ensures
        blob_args(blobs, i, args) matches Ok(v) ==> {
            &&& args.is_prefix_of(v)
            &&& v.len() == args.len() + 2 * (blobs.len() - i)
            &&& i <= k < blobs.len() ==> v[args.len() + 2 * (k - i)] == "--blob"@ && Some(
                v[args.len() + 2 * (k - i) + 1],
            ) == forwarded(blobs[k])
        },
        i <= k < blobs.len() && forwarded(blobs[k]) is None ==> blob_args(blobs, i, args) is Err,
    decreases blobs.len() - i,
{
    if i < blobs.len() {
        if let Some(a) = forwarded(blobs[i]) {
            let next = args.push("--blob"@).push(a);
            lemma_blob_args(blobs, i + 1, next, k);
            if let Ok(v) = blob_args(blobs, i + 1, next) {
                assert(v[args.len() as int] == next[args.len() as int]);
                assert(v[args.len() as int + 1] == next[args.len() as int + 1]);
            }
        }
    }
}

/// The program is asked the question, told to answer for programs, told which trace
/// to resume, and given every blob by its address, in their order. A blob that has
/// no address is not forwarded, and then nothing is asked.
pub proof fn law_programs_are_asked_what_is_asked(
    question: Seq<char>,
    trace_id: Option<Seq<char>>,
    blobs: Seq<BlobHandle>,
    k: int,
)
    ensures
        ask_args(question, trace_id, blobs) matches Ok(v) ==> {
            let from = if trace_id is Some {
                4int
            } else {
                2
            };
            &&& v.len() == from + 2 * blobs.len()
            &&& v[0] == question && v[1] == "--json"@
            &&& trace_id matches Some(id) ==> v[2] == "--trace"@ && v[3] == id
            &&& 0 <= k < blobs.len() ==> v[from + 2 * k] == "--blob"@ && Some(v[from + 2 * k + 1])
                == forwarded(blobs[k])
        },
        0 <= k < blobs.len() && blobs[k].blob_ref is Bytes ==> ask_args(
            question,
            trace_id,
            blobs,
        ) is Err,
{
    let asked = Seq::empty().push(question).push("--json"@);
    let args = match trace_id {
        Some(id) => asked.push("--trace"@).push(id),
        None => asked,
    };
    lemma_blob_args(blobs, 0, args, k);
    if let Ok(v) = blob_args(blobs, 0, args) {
        assert(v[0] == args[0] && v[1] == args[1]);
        if trace_id is Some {
            assert(v[2] == args[2] && v[3] == args[3]);
        }
    }
}

/// Feedback has failed exactly where the reply says so, and otherwise the reply is
/// what comes back.
pub proof fn law_replies_tell_whether_feedback_failed(reply: serde_json::Value)
    ensures
        feedback_value(reply) is Err <==> (payload_member(reply, "status"@) is Some && payload_str(
            payload_member(reply, "status"@)->0,
        ) == Some("error"@)),
        feedback_value(reply) matches Ok(v) ==> v == reply,
{
}

/// A tool server is started by the command of its grant, with the arguments given
/// there.
pub proof fn law_servers_are_started_as_granted(grant: Grant)
    ensures
        command_of(grant) is Ok <==> grant.config.get_str("command"@) is Some,
        command_of(grant) matches Ok((c, args)) ==> grant.config.get_str("command"@) == Some(c)
            && args == grant.config.get_strings("args"@),
{
}

} // verus!
