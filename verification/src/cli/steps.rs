//! Walking through a recorded session: each event, with what it led to.
use vstd::prelude::*;

use crate::number::{decimal, to_decimal};
use crate::text::{cat, cat3, cat5, owned};

verus! {

/// An event, as far as it is shown. Values of the engine are held as the text
/// that stands for them.
#[derive(Debug)]
pub enum ShownEvent {
    Tick { now: u64 },
    UserInput { content: String, mode: String },
    UserAbort,
    CompactContext,
    ModelOverride { selector: String },
    PlanAccepted { text: String },
    TodoUpdated { items: u64 },
    ModelDelta { op: u64 },
    ModelDone { op: u64 },
    ModelError { op: u64 },
    CapabilityChunk { op: u64 },
    CapabilityDone { op: u64 },
    CapabilityError { op: u64 },
    AgentDone { op: u64 },
    AgentError { op: u64 },
    OpCancelled { op: u64 },
    PermissionDecision { op: u64, decision: String },
    Other { debug: String },
}

/// A name with the operation it is about.
pub open spec fn about(name: Seq<char>, op: u64) -> Seq<char> {
    name + "(op="@ + decimal(op as nat) + ")"@
}

fn name_op(name: &str, op: u64) -> (r: String)
    ensures
        r@ == about(name@, op),
{
    let mut s = cat3(name, "(op=", to_decimal(op).as_str());
    s.append(")");
    s
}

/// An event in words.
pub open spec fn event_text(e: ShownEvent) -> Seq<char> {
    match e {
        ShownEvent::Tick { now } => "Tick(now="@ + decimal(now as nat) + ")"@,
        ShownEvent::UserInput { content, mode } => "UserInput("@ + content@ + " · "@ + mode@ + ")"@,
        ShownEvent::UserAbort => "UserAbort"@,
        ShownEvent::CompactContext => "CompactContext"@,
        ShownEvent::ModelOverride { selector } => "ModelOverride("@ + selector@ + ")"@,
        ShownEvent::PlanAccepted { text } => "PlanAccepted("@ + text@ + ")"@,
        ShownEvent::TodoUpdated { items } => "TodoUpdated("@ + decimal(items as nat)
            + " items)"@,
        ShownEvent::ModelDelta { op } => about("ModelDelta"@, op),
        ShownEvent::ModelDone { op } => about("ModelDone"@, op),
        ShownEvent::ModelError { op } => about("ModelError"@, op),
        ShownEvent::CapabilityChunk { op } => about("CapabilityChunk"@, op),
        ShownEvent::CapabilityDone { op } => about("CapabilityDone"@, op),
        ShownEvent::CapabilityError { op } => about("CapabilityError"@, op),
        ShownEvent::AgentDone { op } => about("AgentDone"@, op),
        ShownEvent::AgentError { op } => about("AgentError"@, op),
        ShownEvent::OpCancelled { op } => about("OpCancelled"@, op),
        ShownEvent::PermissionDecision { op, decision } => "PermissionDecision(op="@ + decimal(
            op as nat,
        ) + " · "@ + decision@ + ")"@,
        ShownEvent::Other { debug } => debug@,
    }
}

/// An event in words.
pub fn summarize_event(event: &ShownEvent) -> (r: String)
    ensures
        r@ == event_text(*event),
{
    match event {
        ShownEvent::Tick { now } => cat3("Tick(now=", to_decimal(*now).as_str(), ")"),
        ShownEvent::UserInput { content, mode } => cat5(
            "UserInput(",
            content.as_str(),
            " · ",
            mode.as_str(),
            ")",
        ),
        ShownEvent::UserAbort => owned("UserAbort"),
        ShownEvent::CompactContext => owned("CompactContext"),
        ShownEvent::ModelOverride { selector } => cat3("ModelOverride(", selector.as_str(), ")"),
        ShownEvent::PlanAccepted { text } => cat3("PlanAccepted(", text.as_str(), ")"),
        ShownEvent::TodoUpdated { items } => cat3(
            "TodoUpdated(",
            to_decimal(*items).as_str(),
            " items)",
        ),
        ShownEvent::ModelDelta { op } => name_op("ModelDelta", *op),
        ShownEvent::ModelDone { op } => name_op("ModelDone", *op),
        ShownEvent::ModelError { op } => name_op("ModelError", *op),
        ShownEvent::CapabilityChunk { op } => name_op("CapabilityChunk", *op),
        ShownEvent::CapabilityDone { op } => name_op("CapabilityDone", *op),
        ShownEvent::CapabilityError { op } => name_op("CapabilityError", *op),
        ShownEvent::AgentDone { op } => name_op("AgentDone", *op),
        ShownEvent::AgentError { op } => name_op("AgentError", *op),
        ShownEvent::OpCancelled { op } => name_op("OpCancelled", *op),
        ShownEvent::PermissionDecision { op, decision } => cat5(
            "PermissionDecision(op=",
            to_decimal(*op).as_str(),
            " · ",
            decision.as_str(),
            ")",
        ),
        ShownEvent::Other { debug } => debug.clone(),
    }
}

/// A command, as far as it is shown.
#[derive(Debug)]
pub enum ShownCommand {
    StartModelCall { op: u64, model: String },
    StartCapability { op: u64, name: String },
    StartAgent { op: u64, seed: u64 },
    RequestPermission { op: u64, capability: String },
    Cancel { op: u64 },
    Emit,
    Checkpoint,
    Done { reason: String },
    Other { debug: String },
}

/// A name with the operation it is about, and more.
pub open spec fn about_with(name: Seq<char>, op: u64, more: Seq<char>) -> Seq<char> {
    name + "(op="@ + decimal(op as nat) + " · "@ + more + ")"@
}

fn name_op_with(name: &str, op: u64, more: &str) -> (r: String)
    ensures
        r@ == about_with(name@, op, more@),
{
    let mut s = cat3(name, "(op=", to_decimal(op).as_str());
    s.append(" · ");
    s.append(more);
    s.append(")");
    s
}

/// A command in words.
pub open spec fn command_text(c: ShownCommand) -> Seq<char> {
    match c {
        ShownCommand::StartModelCall { op, model } => about_with("StartModelCall"@, op, model@),
        ShownCommand::StartCapability { op, name } => about_with("StartCapability"@, op, name@),
        ShownCommand::StartAgent { op, seed } => about_with(
            "StartAgent"@,
            op,
            "seed "@ + decimal(seed as nat) + " entries"@,
        ),
        ShownCommand::RequestPermission { op, capability } => about_with(
            "RequestPermission"@,
            op,
            capability@,
        ),
        ShownCommand::Cancel { op } => about("Cancel"@, op),
        ShownCommand::Emit => "Emit(…)"@,
        ShownCommand::Checkpoint => "Checkpoint"@,
        ShownCommand::Done { reason } => "Done("@ + reason@ + ")"@,
        ShownCommand::Other { debug } => debug@,
    }
}

/// A command in words.
pub fn summarize_command(cmd: &ShownCommand) -> (r: String)
    ensures
        r@ == command_text(*cmd),
{
    match cmd {
        ShownCommand::StartModelCall { op, model } => name_op_with(
            "StartModelCall",
            *op,
            model.as_str(),
        ),
        ShownCommand::StartCapability { op, name } => name_op_with(
            "StartCapability",
            *op,
            name.as_str(),
        ),
        ShownCommand::StartAgent { op, seed } => {
            let entries = cat3("seed ", to_decimal(*seed).as_str(), " entries");
            name_op_with("StartAgent", *op, entries.as_str())
        },
        ShownCommand::RequestPermission { op, capability } => name_op_with(
            "RequestPermission",
            *op,
            capability.as_str(),
        ),
        ShownCommand::Cancel { op } => name_op("Cancel", *op),
        ShownCommand::Emit => owned("Emit(…)"),
        ShownCommand::Checkpoint => owned("Checkpoint"),
        ShownCommand::Done { reason } => cat3("Done(", reason.as_str(), ")"),
        ShownCommand::Other { debug } => debug.clone(),
    }
}

/// One entry that an event put on the log, by the text that stands for it.
#[derive(Debug)]
pub struct ShownEntry {
    pub seq: u64,
    pub record: String,
}

/// One step of a session.
#[derive(Debug)]
pub struct ShownStep {
    pub event: ShownEvent,
    pub commands: Vec<ShownCommand>,
    pub appended: Vec<ShownEntry>,
}

pub open spec fn command_lines(commands: Seq<ShownCommand>, n: int) -> Seq<char>
    decreases n,
{
    if n <= 0 {
        ""@
    } else {
        command_lines(commands, n - 1) + ("  command: "@ + command_text(commands[n - 1]) + "\n"@)
    }
}

pub open spec fn entry_lines(entries: Seq<ShownEntry>, n: int) -> Seq<char>
    decreases n,
{
    if n <= 0 {
        ""@
    } else {
        entry_lines(entries, n - 1) + ("  log["@ + decimal(entries[n - 1].seq as nat) + "]: "@
            + entries[n - 1].record@ + "\n"@)
    }
}

/// One step in words.
pub open spec fn step_text(step: ShownStep, i: int, total: nat) -> Seq<char> {
    "\n── step "@ + decimal((i + 1) as nat) + "/"@ + decimal(total)
        + " ─────────────\n  event:   "@ + event_text(step.event) + "\n"@ + (if step.commands@.len()
        == 0 {
        "  command: (none)\n"@
    } else {
        command_lines(step.commands@, step.commands@.len() as int)
    }) + entry_lines(step.appended@, step.appended@.len() as int)
}

fn write_commands(commands: &Vec<ShownCommand>) -> (r: String)
    ensures
        r@ == command_lines(commands@, commands@.len() as int),
{
    let mut s = owned("");
    let mut i: usize = 0;
    while i < commands.len()
        invariant
            i <= commands@.len(),
            s@ == command_lines(commands@, i as int),
        decreases commands.len() - i,
    {
        s.append(cat3("  command: ", summarize_command(&commands[i]).as_str(), "\n").as_str());
        i = i + 1;
    }
    s
}

fn write_entries(entries: &Vec<ShownEntry>) -> (r: String)
    ensures
        r@ == entry_lines(entries@, entries@.len() as int),
{
    let mut s = owned("");
    let mut i: usize = 0;
    while i < entries.len()
        invariant
            i <= entries@.len(),
            s@ == entry_lines(entries@, i as int),
        decreases entries.len() - i,
    {
        let seq = to_decimal(entries[i].seq);
        let line = cat5("  log[", seq.as_str(), "]: ", entries[i].record.as_str(), "\n");
        s.append(line.as_str());
        i = i + 1;
    }
    s
}

/// One step in words, the one at index `i` of so many.
pub fn print_step(step: &ShownStep, i: usize, total: usize) -> (r: String)
    requires
        i < total,
    ensures
        r@ == step_text(*step, i as int, total as nat),
{
    let mut s = cat("\n── step ", to_decimal((i + 1) as u64).as_str());
    s.append("/");
    s.append(to_decimal(total as u64).as_str());
    s.append(" ─────────────\n  event:   ");
    s.append(summarize_event(&step.event).as_str());
    s.append("\n");
    let commands = if step.commands.len() == 0 {
        owned("  command: (none)\n")
    } else {
        write_commands(&step.commands)
    };
    s.append(commands.as_str());
    s.append(write_entries(&step.appended).as_str());
    s
}

/// What happens to an operation is told by its name and the number of the operation.
pub proof fn law_events_are_told_by_name_and_number(e: ShownEvent, op: u64)
    ensures
        e == (ShownEvent::ModelDelta { op }) ==> event_text(e) == "ModelDelta"@ + "(op="@ + decimal(
            op as nat,
        ) + ")"@,
        e == (ShownEvent::ModelDone { op }) ==> event_text(e) == "ModelDone"@ + "(op="@ + decimal(
            op as nat,
        ) + ")"@,
        e == (ShownEvent::ModelError { op }) ==> event_text(e) == "ModelError"@ + "(op="@ + decimal(
            op as nat,
        ) + ")"@,
        e == (ShownEvent::CapabilityChunk { op }) ==> event_text(e) == "CapabilityChunk"@ + "(op="@ + decimal(
            op as nat,
        ) + ")"@,
        e == (ShownEvent::CapabilityDone { op }) ==> event_text(e) == "CapabilityDone"@ + "(op="@ + decimal(
            op as nat,
        ) + ")"@,
        e == (ShownEvent::CapabilityError { op }) ==> event_text(e) == "CapabilityError"@ + "(op="@ + decimal(
            op as nat,
        ) + ")"@,
        e == (ShownEvent::AgentDone { op }) ==> event_text(e) == "AgentDone"@ + "(op="@ + decimal(
            op as nat,
        ) + ")"@,
        e == (ShownEvent::AgentError { op }) ==> event_text(e) == "AgentError"@ + "(op="@ + decimal(
            op as nat,
        ) + ")"@,
        e == (ShownEvent::OpCancelled { op }) ==> event_text(e) == "OpCancelled"@ + "(op="@ + decimal(
            op as nat,
        ) + ")"@,
        e matches ShownEvent::UserInput { content, mode } ==> event_text(e) == "UserInput("@
            + content@ + " · "@ + mode@ + ")"@,
{
}

/// What is started is told by its name, the number of the operation and what it is
/// about.
pub proof fn law_commands_are_told_by_what_they_start(c: ShownCommand)
    ensures
        c matches ShownCommand::StartModelCall { op, model } ==> command_text(c)
            == "StartModelCall"@ + "(op="@ + decimal(op as nat) + " · "@ + model@ + ")"@,
        c matches ShownCommand::StartCapability { op, name } ==> command_text(c)
            == "StartCapability"@ + "(op="@ + decimal(op as nat) + " · "@ + name@ + ")"@,
        c matches ShownCommand::RequestPermission { op, capability } ==> command_text(c)
            == "RequestPermission"@ + "(op="@ + decimal(op as nat) + " · "@ + capability@ + ")"@,
        c matches ShownCommand::Cancel { op } ==> command_text(c) == "Cancel"@ + "(op="@ + decimal(
            op as nat,
        ) + ")"@,
{
}

/// A step shows every command and every entry in a line of its own, in their order.
pub proof fn law_steps_show_every_line(
    commands: Seq<ShownCommand>,
    entries: Seq<ShownEntry>,
    n: int,
)
    requires
        0 <= n,
    ensures
        n < commands.len() ==> {
            let before = command_lines(commands, n);
            let after = command_lines(commands, n + 1);
            before.is_prefix_of(after) && after.skip(before.len() as int) == "  command: "@
                + command_text(commands[n]) + "\n"@
        },
        n < entries.len() ==> {
            let before = entry_lines(entries, n);
            let after = entry_lines(entries, n + 1);
            before.is_prefix_of(after) && after.skip(before.len() as int) == "  log["@ + decimal(
                entries[n].seq as nat,
            ) + "]: "@ + entries[n].record@ + "\n"@
        },
{
}

} // verus!
