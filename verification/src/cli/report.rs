//! What interactive commands print.
//!
//! Every text ends its lines, and is printed as it is.
use vstd::prelude::*;

use super::repl::{copy_todos, todo_view, todos_view};
use crate::bytes::{lossy, lossy_text};
use crate::json::opt_view;
use crate::number::{decimal, to_decimal};
use crate::split::{
    begins_with, holds, join, joined, lemma_ends_hold, lemma_longer_texts_hold,
    lemma_shorter_prefix, lines, lines_of, starts_with,
};
use crate::text::{cat, cat3, cat5, owned, same, trim, trimmed, views};
use crate::trace::{LogEntry, Record, TodoItem};

verus! {

// ----- what the log says is going on -----
/// The skill that the last of the first `n` entries to name one activated.
pub open spec fn skill_before(log: Seq<LogEntry>, n: int) -> Option<Seq<char>>
    decreases n,
{
    if n <= 0 {
        None
    } else {
        match log[n - 1].record {
            Record::SkillActivated { id } => Some(id@),
            _ => skill_before(log, n - 1),
        }
    }
}

/// The active skill.
pub fn active_skill(log: &Vec<LogEntry>) -> (r: Option<String>)
    ensures
        opt_view(r) == skill_before(log@, log@.len() as int),
{
    let mut n: usize = log.len();
    while n > 0
        invariant
            n <= log@.len(),
            skill_before(log@, log@.len() as int) == skill_before(log@, n as int),
        decreases n,
    {
        if let Record::SkillActivated { id } = &log[n - 1].record {
            return Some(id.clone());
        }
        n = n - 1;
    }
    None
}

/// The plan that the last of the first `n` entries to hold one holds.
pub open spec fn plan_before(log: Seq<LogEntry>, n: int) -> Option<Seq<char>>
    decreases n,
{
    if n <= 0 {
        None
    } else {
        match log[n - 1].record {
            Record::Plan { text } => Some(text@),
            _ => plan_before(log, n - 1),
        }
    }
}

/// The active plan.
pub fn active_plan(log: &Vec<LogEntry>) -> (r: Option<String>)
    ensures
        opt_view(r) == plan_before(log@, log@.len() as int),
{
    let mut n: usize = log.len();
    while n > 0
        invariant
            n <= log@.len(),
            plan_before(log@, log@.len() as int) == plan_before(log@, n as int),
        decreases n,
    {
        if let Record::Plan { text } = &log[n - 1].record {
            return Some(text.clone());
        }
        n = n - 1;
    }
    None
}

/// The things to do of the last of the first `n` entries to list them.
pub open spec fn todos_before(log: Seq<LogEntry>, n: int) -> Seq<(Seq<char>, bool)>
    decreases n,
{
    if n <= 0 {
        Seq::empty()
    } else {
        match log[n - 1].record {
            Record::TodoList { items } => todos_view(items@),
            _ => todos_before(log, n - 1),
        }
    }
}

/// The things to do.
pub fn active_todos(log: &Vec<LogEntry>) -> (r: Vec<TodoItem>)
    ensures
        todos_view(r@) == todos_before(log@, log@.len() as int),
{
    let mut n: usize = log.len();
    while n > 0
        invariant
            n <= log@.len(),
            todos_before(log@, log@.len() as int) == todos_before(log@, n as int),
        decreases n,
    {
        if let Record::TodoList { items } = &log[n - 1].record {
            return copy_todos(items);
        }
        n = n - 1;
    }
    let none: Vec<TodoItem> = Vec::new();
    assert(todos_view(none@) =~= Seq::<(Seq<char>, bool)>::empty());
    none
}

/// The line for something that may be there.
pub open spec fn line_or_none(label: Seq<char>, value: Option<Seq<char>>) -> Seq<char> {
    label + ": "@ + (match value {
        Some(v) => v,
        None => "none"@,
    }) + "\n"@
}

/// The line for something that may be there: the active skill or plan.
pub fn print_active(label: &str, value: &Option<String>) -> (r: String)
    ensures
        r@ == line_or_none(label@, opt_view(*value)),
{
    let shown = match value {
        Some(v) => v.as_str(),
        None => "none",
    };
    let mut s = cat3(label, ": ", shown);
    s.append("\n");
    s
}

/// The number of things done among the first `n`.
pub open spec fn done_before(todos: Seq<(Seq<char>, bool)>, n: int) -> nat
    decreases n,
{
    if n <= 0 {
        0
    } else {
        done_before(todos, n - 1) + (if todos[n - 1].1 {
            1nat
        } else {
            0
        })
    }
}

/// How much of a list is done.
pub open spec fn progress_text(todos: Seq<(Seq<char>, bool)>) -> Seq<char> {
    if todos.len() == 0 {
        "todos: none\n"@
    } else {
        "todos: "@ + decimal(done_before(todos, todos.len() as int)) + "/"@ + decimal(todos.len())
            + " done\n"@
    }
}

/// How much of a list is done.
pub fn print_todo_progress(todos: &Vec<TodoItem>) -> (r: String)
    ensures
        r@ == progress_text(todos_view(todos@)),
{
    let ghost all = todos_view(todos@);
    if todos.len() == 0 {
        return owned("todos: none\n");
    }
    let mut done: usize = 0;
    let mut i: usize = 0;
    while i < todos.len()
        invariant
            i <= todos@.len(),
            all == todos_view(todos@),
            done <= i,
            done == done_before(all, i as int),
        decreases todos.len() - i,
    {
        assert(all[i as int] == todo_view(todos@[i as int]));
        if todos[i].done {
            done = done + 1;
        }
        i = i + 1;
    }
    let mut s = cat("todos: ", to_decimal(done as u64).as_str());
    s.append("/");
    s.append(to_decimal(todos.len() as u64).as_str());
    s.append(" done\n");
    s
}

/// The lines for the first `n` things to do.
pub open spec fn todo_lines(todos: Seq<(Seq<char>, bool)>, n: int) -> Seq<char>
    decreases n,
{
    if n <= 0 {
        ""@
    } else {
        todo_lines(todos, n - 1) + (decimal(n as nat) + ". ["@ + (if todos[n - 1].1 {
            "x"@
        } else {
            " "@
        }) + "] "@ + todos[n - 1].0 + "\n"@)
    }
}

/// The list of things to do.
pub open spec fn todos_text(todos: Seq<(Seq<char>, bool)>) -> Seq<char> {
    if todos.len() == 0 {
        "todos: none\n"@
    } else {
        todo_lines(todos, todos.len() as int)
    }
}

/// The list of things to do.
pub fn print_todos(todos: &Vec<TodoItem>) -> (r: String)
    ensures
        r@ == todos_text(todos_view(todos@)),
{
    let ghost all = todos_view(todos@);
    if todos.len() == 0 {
        return owned("todos: none\n");
    }
    let mut s = owned("");
    let mut i: usize = 0;
    while i < todos.len()
        invariant
            i <= todos@.len(),
            all == todos_view(todos@),
            s@ == todo_lines(all, i as int),
        decreases todos.len() - i,
    {
        assert(all[i as int] == todo_view(todos@[i as int]));
        let mark = if todos[i].done {
            "x"
        } else {
            " "
        };
        let mut line = cat3(to_decimal((i + 1) as u64).as_str(), ". [", mark);
        line.append("] ");
        line.append(todos[i].text.as_str());
        line.append("\n");
        s.append(line.as_str());
        i = i + 1;
    }
    s
}

// ----- what the host was set up with -----
/// A server of tools that is connected.
#[derive(Debug)]
pub struct McpServerStatus {
    pub name: String,
    pub tools: Vec<String>,
}

/// A skill that is on offer.
#[derive(Debug)]
pub struct SkillStatus {
    pub id: String,
    pub title: String,
    pub summary: Option<String>,
}

/// The line for a server.
pub open spec fn server_line(s: McpServerStatus) -> Seq<char> {
    "- "@ + s.name@ + " · "@ + (if s.tools@.len() == 0 {
        "no tools"@
    } else {
        joined(views(s.tools@), ", "@)
    }) + "\n"@
}

/// The lines for the first `n` servers.
pub open spec fn server_lines(servers: Seq<McpServerStatus>, n: int) -> Seq<char>
    decreases n,
{
    if n <= 0 {
        "mcp:\n"@
    } else {
        server_lines(servers, n - 1) + server_line(servers[n - 1])
    }
}

/// The servers of tools that are connected.
pub open spec fn servers_text(servers: Seq<McpServerStatus>) -> Seq<char> {
    if servers.len() == 0 {
        "mcp: no connected servers\n"@
    } else {
        server_lines(servers, servers.len() as int)
    }
}

/// The servers of tools that are connected.
pub fn print_mcp_status(servers: &Vec<McpServerStatus>) -> (r: String)
    ensures
        r@ == servers_text(servers@),
{
    if servers.len() == 0 {
        return owned("mcp: no connected servers\n");
    }
    let mut s = owned("mcp:\n");
    let mut i: usize = 0;
    while i < servers.len()
        invariant
            i <= servers@.len(),
            s@ == server_lines(servers@, i as int),
        decreases servers.len() - i,
    {
        let tools = if servers[i].tools.len() == 0 {
            owned("no tools")
        } else {
            join(&servers[i].tools, ", ")
        };
        let line = cat5("- ", servers[i].name.as_str(), " · ", tools.as_str(), "\n");
        s.append(line.as_str());
        i = i + 1;
    }
    s
}

/// The line for a skill: whether it is active, and its summary where it has
/// one.
pub open spec fn skill_line(s: SkillStatus, active: Option<Seq<char>>) -> Seq<char> {
    "- "@ + s.id@ + " · "@ + s.title@ + (if active == Some(s.id@) {
        " · active"@
    } else {
        ""@
    }) + (match s.summary {
        Some(t) => if t@.len() > 0 {
            " — "@ + t@
        } else {
            ""@
        },
        None => ""@,
    }) + "\n"@
}

/// The lines for the first `n` skills.
pub open spec fn skill_lines(
    skills: Seq<SkillStatus>,
    active: Option<Seq<char>>,
    n: int,
) -> Seq<char>
    decreases n,
{
    if n <= 0 {
        "skills:\n"@
    } else {
        skill_lines(skills, active, n - 1) + skill_line(skills[n - 1], active)
    }
}

/// The skills that are on offer.
pub fn print_skills(skills: &Vec<SkillStatus>, active: &Option<String>) -> (r: String)
    ensures
        r@ == if skills@.len() == 0 {
            "skills: none discovered\n"@
        } else {
            skill_lines(skills@, opt_view(*active), skills@.len() as int)
        },
{
    if skills.len() == 0 {
        return owned("skills: none discovered\n");
    }
    let mut s = owned("skills:\n");
    let mut i: usize = 0;
    while i < skills.len()
        invariant
            i <= skills@.len(),
            s@ == skill_lines(skills@, opt_view(*active), i as int),
        decreases skills.len() - i,
    {
        let is_active = match active {
            Some(a) => same(a.as_str(), skills[i].id.as_str()),
            None => false,
        };
        let mut line = cat3("- ", skills[i].id.as_str(), " · ");
        line.append(skills[i].title.as_str());
        let marker = if is_active {
            " · active"
        } else {
            ""
        };
        line.append(marker);
        let summary = match &skills[i].summary {
            Some(t) => if t.as_str().is_empty() {
                owned("")
            } else {
                cat(" — ", t.as_str())
            },
            None => owned(""),
        };
        line.append(summary.as_str());
        line.append("\n");
        s.append(line.as_str());
        i = i + 1;
    }
    s
}

// ----- changes -----
/// The text of a command that was run: all it printed, or its status where it
/// failed in silence.
pub open spec fn output_text(
    stdout: Seq<u8>,
    stderr: Seq<u8>,
    success: bool,
    status: Seq<char>,
) -> Seq<char> {
    let text = lossy_text(stdout) + lossy_text(stderr);
    if !success && trimmed(text).len() == 0 {
        text + "command exited with status "@ + status
    } else {
        text
    }
}

/// The text of a command that was run.
pub fn command_text(stdout: &Vec<u8>, stderr: &Vec<u8>, success: bool, status: &str) -> (r: String)
    ensures
        r@ == output_text(stdout@, stderr@, success, status@),
{
    let mut text = lossy(stdout);
    text.append(lossy(stderr).as_str());
    if !success && trim(text.as_str()).as_str().is_empty() {
        text.append("command exited with status ");
        text.append(status);
    }
    text
}

/// The lines that are more than white space.
pub open spec fn solid_lines(ls: Seq<Seq<char>>, n: int) -> Seq<Seq<char>>
    decreases n,
{
    if n <= 0 {
        Seq::empty()
    } else if trimmed(ls[n - 1]).len() == 0 {
        solid_lines(ls, n - 1)
    } else {
        solid_lines(ls, n - 1).push(ls[n - 1])
    }
}

/// The files that a listing names, one on a line.
pub open spec fn files_in(listing: Seq<char>) -> Seq<Seq<char>> {
    solid_lines(lines_of(listing), lines_of(listing).len() as int)
}

/// The files that a listing names, one on a line.
pub fn listed_files(listing: &str) -> (r: Vec<String>)
    ensures
        views(r@) == files_in(listing@),
{
    let all = lines(listing);
    let ghost ls = lines_of(listing@);
    let mut r: Vec<String> = Vec::new();
    assert(views(r@) =~= Seq::<Seq<char>>::empty());
    let mut i: usize = 0;
    while i < all.len()
        invariant
            i <= all@.len(),
            ls == views(all@),
            views(r@) == solid_lines(ls, i as int),
        decreases all.len() - i,
    {
        assert(ls[i as int] == all@[i as int]@);
        if !trim(all[i].as_str()).as_str().is_empty() {
            let ghost was = r@;
            r.push(all[i].clone());
            assert(views(r@) =~= views(was).push(all@[i as int]@));
        }
        i = i + 1;
    }
    r
}

/// A line for each of the first `n` files.
pub open spec fn file_lines(label: Seq<char>, files: Seq<Seq<char>>, n: int) -> Seq<char>
    decreases n,
{
    if n <= 0 {
        ""@
    } else {
        file_lines(label, files, n - 1) + (label + files[n - 1] + "\n"@)
    }
}

fn write_files(label: &str, files: &Vec<String>, n: usize) -> (r: String)
    requires
        n <= files@.len(),
    ensures
        r@ == file_lines(label@, views(files@), n as int),
{
    let mut s = owned("");
    let mut i: usize = 0;
    while i < n
        invariant
            i <= n <= files@.len(),
            s@ == file_lines(label@, views(files@), i as int),
        decreases n - i,
    {
        assert(views(files@)[i as int] == files@[i as int]@);
        s.append(cat3(label, files[i].as_str(), "\n").as_str());
        i = i + 1;
    }
    s
}

pub const REVIEW_CHECKLIST: &'static str = "\nreview checklist:\n- correctness regressions\n- stale edits or missing CAS reads\n- missing focused tests\n- docs/progress updates\n";

/// What `/review` prints of a change.
pub open spec fn review_text(diff: Seq<char>, listing: Seq<char>) -> Seq<char> {
    if trimmed(diff).len() == 0 {
        "review: no unstaged diff\n"@
    } else {
        "review scope:\n"@ + file_lines("- "@, files_in(listing), files_in(listing).len() as int)
            + REVIEW_CHECKLIST@
    }
}

/// What `/review` prints of a change: the files that it touches and what to look
/// at.
pub fn print_review_prompt(diff: &str, listing: &str) -> (r: String)
    ensures
        r@ == review_text(diff@, listing@),
{
    if trim(diff).as_str().is_empty() {
        return owned("review: no unstaged diff\n");
    }
    let files = listed_files(listing);
    let lines = write_files("- ", &files, files.len());
    cat3("review scope:\n", lines.as_str(), REVIEW_CHECKLIST)
}

/// Some file stands below a directory.
pub open spec fn touches(files: Seq<Seq<char>>, dir: Seq<char>) -> bool {
    exists|i: int| 0 <= i < files.len() && begins_with(#[trigger] files[i], dir)
}

/// What a change is about, by the first of some places that it touches.
pub open spec fn scope_of(files: Seq<Seq<char>>) -> Seq<char> {
    if touches(files, "crates/hugr-core/"@) {
        "core changes"@
    } else if touches(files, "crates/hugr-host/"@) {
        "host changes"@
    } else if touches(files, "crates/hugr-cli/"@) {
        "CLI changes"@
    } else if touches(files, "docs/"@) {
        "documentation updates"@
    } else {
        "changes"@
    }
}

fn any_below(files: &Vec<String>, dir: &str) -> (r: bool)
    ensures
        r == touches(views(files@), dir@),
{
    let ghost all = views(files@);
    let mut i: usize = 0;
    while i < files.len()
        invariant
            i <= files@.len(),
            all == views(files@),
            forall|k: int| 0 <= k < i ==> !begins_with(#[trigger] all[k], dir@),
        decreases files.len() - i,
    {
        assert(all[i as int] == files@[i as int]@);
        if starts_with(files[i].as_str(), dir) {
            return true;
        }
        i = i + 1;
    }
    false
}

/// What a change is about.
pub fn commit_scope(files: &Vec<String>) -> (r: String)
    ensures
        r@ == scope_of(views(files@)),
{
    if any_below(files, "crates/hugr-core/") {
        owned("core changes")
    } else if any_below(files, "crates/hugr-host/") {
        owned("host changes")
    } else if any_below(files, "crates/hugr-cli/") {
        owned("CLI changes")
    } else if any_below(files, "docs/") {
        owned("documentation updates")
    } else {
        owned("changes")
    }
}

/// What `/commit-message` prints, for the listings of what is staged and of what
/// is not.
pub open spec fn commit_text(staged: Seq<char>, unstaged: Seq<char>) -> Seq<char> {
    let files = files_in(
        if trimmed(staged).len() == 0 {
            unstaged
        } else {
            staged
        },
    );
    if files.len() == 0 {
        "commit message: no diff\n"@
    } else {
        "Implement "@ + scope_of(files) + "\n\n"@ + file_lines(
            "- update "@,
            files,
            if files.len() < 8 {
                files.len() as int
            } else {
                8
            },
        )
    }
}

/// What `/commit-message` prints: what is staged counts, and else what is not.
/// At most eight files are named.
pub fn print_commit_message(staged: &str, unstaged: &str) -> (r: String)
    ensures
        r@ == commit_text(staged@, unstaged@),
{
    let files = if trim(staged).as_str().is_empty() {
        listed_files(unstaged)
    } else {
        listed_files(staged)
    };
    if files.len() == 0 {
        return owned("commit message: no diff\n");
    }
    let n: usize = if files.len() < 8 {
        files.len()
    } else {
        8
    };
    let scope = commit_scope(&files);
    let listed = write_files("- update ", &files, n);
    let mut s = cat3("Implement ", scope.as_str(), "\n\n");
    s.append(listed.as_str());
    s
}

// ----- spending -----
/// What the calls on one tier came to; the cost as a decimal number, where it
/// is known.
#[derive(Debug)]
pub struct TierSpend {
    pub selector: String,
    pub model_calls: u64,
    pub input_tokens: u64,
    pub output_tokens: u64,
    pub latency_ms: u64,
    pub cost: Option<String>,
}

/// Why a tier was chosen.
#[derive(Debug)]
pub struct RoutingDecision {
    pub selector: String,
    pub reasons: Vec<String>,
}

pub open spec fn tier_line(t: TierSpend) -> Seq<char> {
    "- "@ + t.selector@ + " · "@ + decimal(t.model_calls as nat) + " calls · in "@ + decimal(
        t.input_tokens as nat,
    ) + " / out "@ + decimal(t.output_tokens as nat) + " tok · "@ + decimal(t.latency_ms as nat)
        + " ms"@ + (match t.cost {
        Some(c) => " · $"@ + c@,
        None => ""@,
    }) + "\n"@
}

pub open spec fn tier_lines(tiers: Seq<TierSpend>, n: int) -> Seq<char>
    decreases n,
{
    if n <= 0 {
        "spend:\n"@
    } else {
        tier_lines(tiers, n - 1) + tier_line(tiers[n - 1])
    }
}

pub open spec fn routing_line(d: RoutingDecision) -> Seq<char> {
    "- "@ + d.selector@ + " · "@ + joined(views(d.reasons@), "; "@) + "\n"@
}

pub open spec fn routing_lines(decisions: Seq<RoutingDecision>, n: int) -> Seq<char>
    decreases n,
{
    if n <= 0 {
        "routing:\n"@
    } else {
        routing_lines(decisions, n - 1) + routing_line(decisions[n - 1])
    }
}

/// What was spent, and why on which tier.
pub open spec fn spend_text(tiers: Seq<TierSpend>, routing: Seq<RoutingDecision>) -> Seq<char> {
    (if tiers.len() == 0 {
        "spend: no model calls yet\n"@
    } else {
        tier_lines(tiers, tiers.len() as int)
    }) + (if routing.len() == 0 {
        "routing: no recorded model routing yet\n"@
    } else {
        routing_lines(routing, routing.len() as int)
    })
}

fn write_tiers(tiers: &Vec<TierSpend>) -> (r: String)
    ensures
        r@ == tier_lines(tiers@, tiers@.len() as int),
{
    let mut s = owned("spend:\n");
    let mut i: usize = 0;
    while i < tiers.len()
        invariant
            i <= tiers@.len(),
            s@ == tier_lines(tiers@, i as int),
        decreases tiers.len() - i,
    {
        let t = &tiers[i];
        let mut line = cat3("- ", t.selector.as_str(), " · ");
        line.append(to_decimal(t.model_calls).as_str());
        line.append(" calls · in ");
        line.append(to_decimal(t.input_tokens).as_str());
        line.append(" / out ");
        line.append(to_decimal(t.output_tokens).as_str());
        line.append(" tok · ");
        line.append(to_decimal(t.latency_ms).as_str());
        line.append(" ms");
        let cost = match &t.cost {
            Some(c) => cat(" · $", c.as_str()),
            None => owned(""),
        };
        line.append(cost.as_str());
        line.append("\n");
        s.append(line.as_str());
        i = i + 1;
    }
    s
}

fn write_routing(routing: &Vec<RoutingDecision>) -> (r: String)
    ensures
        r@ == routing_lines(routing@, routing@.len() as int),
{
    let mut s = owned("routing:\n");
    let mut i: usize = 0;
    while i < routing.len()
        invariant
            i <= routing@.len(),
            s@ == routing_lines(routing@, i as int),
        decreases routing.len() - i,
    {
        let reasons = join(&routing[i].reasons, "; ");
        let line = cat5("- ", routing[i].selector.as_str(), " · ", reasons.as_str(), "\n");
        s.append(line.as_str());
        i = i + 1;
    }
    s
}

/// What was spent, and why on which tier.
pub fn print_spend_report(tiers: &Vec<TierSpend>, routing: &Vec<RoutingDecision>) -> (r: String)
    ensures
        r@ == spend_text(tiers@, routing@),
{
    let mut s = if tiers.len() == 0 {
        owned("spend: no model calls yet\n")
    } else {
        write_tiers(tiers)
    };
    let more = if routing.len() == 0 {
        owned("routing: no recorded model routing yet\n")
    } else {
        write_routing(routing)
    };
    s.append(more.as_str());
    s
}

// ----- what the model is shown -----
/// Where a block of the context comes from.
#[derive(Debug)]
pub enum ContextSource {
    System,
    LogEntry { seq: u64 },
    Synthetic { label: String },
    Other { debug: String },
}

/// What becomes of a block.
#[derive(Clone, Copy, Debug, PartialEq, Eq, Structural)]
pub enum ContextDisposition {
    Included,
    Referenced,
    Summarized,
    Omitted,
    Unknown,
}

/// One block of the context.
#[derive(Debug)]
pub struct ContextEntry {
    pub source: ContextSource,
    pub disposition: ContextDisposition,
    pub est_tokens: u64,
    pub reason: String,
}

/// What the model is shown, block by block and in all.
#[derive(Debug)]
pub struct ContextPlan {
    pub used_tokens: u64,
    pub max_tokens: u64,
    pub included_tokens: u64,
    pub summarized_tokens: u64,
    pub referenced_tokens: u64,
    pub omitted_tokens: u64,
    pub entries: Vec<ContextEntry>,
}

pub open spec fn source_text(s: ContextSource) -> Seq<char> {
    match s {
        ContextSource::System => "system"@,
        ContextSource::LogEntry { seq } => "log:"@ + decimal(seq as nat),
        ContextSource::Synthetic { label } => "synthetic:"@ + label@,
        ContextSource::Other { debug } => debug@,
    }
}

/// Where a block comes from, in words.
pub fn context_source_label(source: &ContextSource) -> (r: String)
    ensures
        r@ == source_text(*source),
{
    match source {
        ContextSource::System => owned("system"),
        ContextSource::LogEntry { seq } => cat("log:", to_decimal(*seq).as_str()),
        ContextSource::Synthetic { label } => cat("synthetic:", label.as_str()),
        ContextSource::Other { debug } => debug.clone(),
    }
}

pub open spec fn disposition_text(d: ContextDisposition) -> Seq<char> {
    match d {
        ContextDisposition::Included => "included"@,
        ContextDisposition::Referenced => "referenced"@,
        ContextDisposition::Summarized => "summarized"@,
        ContextDisposition::Omitted => "omitted"@,
        ContextDisposition::Unknown => "unknown"@,
    }
}

/// What becomes of a block, in a word.
pub fn disposition_label(disposition: &ContextDisposition) -> (r: &'static str)
    ensures
        r@ == disposition_text(*disposition),
{
    match disposition {
        ContextDisposition::Included => "included",
        ContextDisposition::Referenced => "referenced",
        ContextDisposition::Summarized => "summarized",
        ContextDisposition::Omitted => "omitted",
        ContextDisposition::Unknown => "unknown",
    }
}

/// The number of blocks among the first `n` that something becomes of.
pub open spec fn count_before(entries: Seq<ContextEntry>, d: ContextDisposition, n: int) -> nat
    decreases n,
{
    if n <= 0 {
        0
    } else {
        count_before(entries, d, n - 1) + (if entries[n - 1].disposition == d {
            1nat
        } else {
            0
        })
    }
}

/// The number of blocks that something becomes of.
pub fn count_disposition(plan: &ContextPlan, kind: ContextDisposition) -> (r: usize)
    ensures
        r == count_before(plan.entries@, kind, plan.entries@.len() as int),
{
    let mut n: usize = 0;
    let mut i: usize = 0;
    while i < plan.entries.len()
        invariant
            i <= plan.entries@.len(),
            n <= i,
            n == count_before(plan.entries@, kind, i as int),
        decreases plan.entries.len() - i,
    {
        if plan.entries[i].disposition == kind {
            n = n + 1;
        }
        i = i + 1;
    }
    n
}

pub open spec fn entry_line(e: ContextEntry) -> Seq<char> {
    "- "@ + source_text(e.source) + " · "@ + disposition_text(e.disposition) + " · "@ + decimal(
        e.est_tokens as nat,
    ) + " tok · "@ + e.reason@ + "\n"@
}

pub open spec fn entry_lines(entries: Seq<ContextEntry>, n: int) -> Seq<char>
    decreases n,
{
    if n <= 0 {
        ""@
    } else {
        entry_lines(entries, n - 1) + entry_line(entries[n - 1])
    }
}

pub open spec fn counted(plan: ContextPlan, d: ContextDisposition) -> Seq<char> {
    decimal(count_before(plan.entries@, d, plan.entries@.len() as int))
}

/// What the model is shown, in words.
pub open spec fn plan_text(plan: ContextPlan) -> Seq<char> {
    "context: "@ + decimal(plan.used_tokens as nat) + "/"@ + decimal(plan.max_tokens as nat)
        + " tokens used (included "@ + decimal(plan.included_tokens as nat) + ", summarized "@
        + decimal(plan.summarized_tokens as nat) + ", referenced "@ + decimal(
        plan.referenced_tokens as nat,
    ) + ", omitted "@ + decimal(plan.omitted_tokens as nat) + ")\nblocks: retained "@ + counted(
        plan,
        ContextDisposition::Included,
    ) + " · summaries "@ + counted(plan, ContextDisposition::Summarized) + " · refs "@ + counted(
        plan,
        ContextDisposition::Referenced,
    ) + " · omitted "@ + counted(plan, ContextDisposition::Omitted) + "\n"@ + entry_lines(
        plan.entries@,
        plan.entries@.len() as int,
    )
}

fn write_entries(entries: &Vec<ContextEntry>) -> (r: String)
    ensures
        r@ == entry_lines(entries@, entries@.len() as int),
{
    let mut s = owned("");
    let mut i: usize = 0;
    while i < entries.len()
        invariant
            i <= entries@.len(),
            s@ == entry_lines(entries@, i as int),
        decreases entries.len() - i,
    {
        let e = &entries[i];
        let mut line = cat3("- ", context_source_label(&e.source).as_str(), " · ");
        line.append(disposition_label(&e.disposition));
        line.append(" · ");
        line.append(to_decimal(e.est_tokens).as_str());
        line.append(" tok · ");
        line.append(e.reason.as_str());
        line.append("\n");
        s.append(line.as_str());
        i = i + 1;
    }
    s
}

fn put_number(s: &mut String, n: u64, after: &str)
    ensures
        final(s)@ == old(s)@ + decimal(n as nat) + after@,
{
    s.append(to_decimal(n).as_str());
    s.append(after);
}

/// What the model is shown, in words.
pub fn print_context_plan(plan: &ContextPlan) -> (r: String)
    ensures
        r@ == plan_text(*plan),
{
    let mut s = owned("context: ");
    put_number(&mut s, plan.used_tokens, "/");
    put_number(&mut s, plan.max_tokens, " tokens used (included ");
    put_number(&mut s, plan.included_tokens, ", summarized ");
    put_number(&mut s, plan.summarized_tokens, ", referenced ");
    put_number(&mut s, plan.referenced_tokens, ", omitted ");
    put_number(&mut s, plan.omitted_tokens, ")\nblocks: retained ");
    let included: usize = count_disposition(plan, ContextDisposition::Included);
    put_number(&mut s, included as u64, " · summaries ");
    let summarized: usize = count_disposition(plan, ContextDisposition::Summarized);
    put_number(&mut s, summarized as u64, " · refs ");
    let referenced: usize = count_disposition(plan, ContextDisposition::Referenced);
    put_number(&mut s, referenced as u64, " · omitted ");
    let omitted: usize = count_disposition(plan, ContextDisposition::Omitted);
    put_number(&mut s, omitted as u64, "\n");
    s.append(write_entries(&plan.entries).as_str());
    s
}

/// The skill that counts is the one named last.
pub proof fn law_the_last_skill_counts(log: Seq<LogEntry>, n: int, k: int)
    requires
        0 <= k < n <= log.len(),
        forall|j: int| k < j < n ==> !((#[trigger] log[j]).record is SkillActivated),
    ensures
        log[k].record matches Record::SkillActivated { id } ==> skill_before(log, n) == Some(id@),
    decreases n,
{
    if k < n - 1 {
        assert(!(log[n - 1].record is SkillActivated));
        law_the_last_skill_counts(log, n - 1, k);
    }
}

/// The plan that counts is the one named last.
pub proof fn law_the_last_plan_counts(log: Seq<LogEntry>, n: int, k: int)
    requires
        0 <= k < n <= log.len(),
        forall|j: int| k < j < n ==> !((#[trigger] log[j]).record is Plan),
    ensures
        log[k].record matches Record::Plan { text } ==> plan_before(log, n) == Some(text@),
    decreases n,
{
    if k < n - 1 {
        assert(!(log[n - 1].record is Plan));
        law_the_last_plan_counts(log, n - 1, k);
    }
}

/// The list of things to do that counts is the one written last.
pub proof fn law_the_last_list_counts(log: Seq<LogEntry>, n: int, k: int)
    requires
        0 <= k < n <= log.len(),
        forall|j: int| k < j < n ==> !((#[trigger] log[j]).record is TodoList),
    ensures
        log[k].record matches Record::TodoList { items } ==> todos_before(log, n) == todos_view(
            items@,
        ),
    decreases n,
{
    if k < n - 1 {
        assert(!(log[n - 1].record is TodoList));
        law_the_last_list_counts(log, n - 1, k);
    }
}

/// A thing to do is shown with its number, with a cross where it is done, and what
/// is to be done; and it counts as done only then.
pub proof fn law_things_to_do_are_shown(todos: Seq<(Seq<char>, bool)>, n: int)
    requires
        0 <= n < todos.len(),
    ensures
        ({
            let before = todo_lines(todos, n);
            let after = todo_lines(todos, n + 1);
            let line = after.skip(before.len() as int);
            let (what, done) = todos[n];
            &&& before.is_prefix_of(after)
            &&& done ==> line == decimal((n + 1) as nat) + ". ["@ + "x"@ + "] "@ + what + "\n"@
            &&& !done ==> line == decimal((n + 1) as nat) + ". ["@ + " "@ + "] "@ + what + "\n"@
            &&& done_before(todos, n + 1) == done_before(todos, n) + (if done {
                1int
            } else {
                0
            })
            &&& done_before(todos, n) <= n
        }),
{
    lemma_done_at_most(todos, n);
    let before = todo_lines(todos, n);
    let after = todo_lines(todos, n + 1);
    let (what, done) = todos[n];
    let line = after.skip(before.len() as int);
    if done {
        assert(line =~= decimal((n + 1) as nat) + ". ["@ + "x"@ + "] "@ + what + "\n"@);
    } else {
        assert(line =~= decimal((n + 1) as nat) + ". ["@ + " "@ + "] "@ + what + "\n"@);
    }
}

proof fn lemma_done_at_most(todos: Seq<(Seq<char>, bool)>, n: int)
    requires
        0 <= n,
    ensures
        done_before(todos, n) <= n,
    decreases n,
{
    if n > 0 {
        lemma_done_at_most(todos, n - 1);
    }
}

/// The text of a command is what it printed, then what it complained of; a command
/// that failed without a word is told by its status.
pub proof fn law_commands_are_told_by_what_they_print(
    stdout: Seq<u8>,
    stderr: Seq<u8>,
    success: bool,
    status: Seq<char>,
)
    ensures
        ({
            let said = output_text(stdout, stderr, success, status);
            let out = lossy_text(stdout);
            let err = lossy_text(stderr);
            &&& (out + err).is_prefix_of(said)
            &&& success ==> said == out + err
            &&& trimmed(out + err).len() > 0 ==> said == out + err
            &&& !success && trimmed(out + err).len() == 0 ==> said.skip((out + err).len() as int)
                == "command exited with status "@ + status
        }),
{
    let out = lossy_text(stdout);
    let err = lossy_text(stderr);
    let tail = "command exited with status "@ + status;
    assert((out + err + "command exited with status "@ + status).skip((out + err).len() as int)
        =~= tail);
}

/// Every line of a listing that is not blank names a file, in their order.
pub proof fn law_files_are_the_lines_that_are_not_blank(ls: Seq<Seq<char>>, n: int)
    requires
        0 <= n < ls.len(),
    ensures
        solid_lines(ls, 0).len() == 0,
        trimmed(ls[n]).len() > 0 ==> solid_lines(ls, n + 1) == solid_lines(ls, n).push(ls[n]),
        trimmed(ls[n]).len() == 0 ==> solid_lines(ls, n + 1) == solid_lines(ls, n),
{
}

/// In the line of a tier every number stands behind its own label.
#[verifier::spinoff_prover]
pub proof fn law_spend_lines_label_their_numbers(t: TierSpend)
    ensures
        holds(tier_line(t), "- "@ + t.selector@ + " · "@),
        holds(tier_line(t), " · "@ + decimal(t.model_calls as nat) + " calls · in "@),
        holds(tier_line(t), " calls · in "@ + decimal(t.input_tokens as nat) + " / out "@),
        holds(tier_line(t), " / out "@ + decimal(t.output_tokens as nat) + " tok · "@),
        holds(tier_line(t), " tok · "@ + decimal(t.latency_ms as nat) + " ms"@),
{
    let text = tier_line(t);
    let p0 = Seq::<char>::empty() + "- "@;
    let p1 = p0 + t.selector@;
    let p2 = p1 + " · "@;
    let p3 = p2 + decimal(t.model_calls as nat);
    let p4 = p3 + " calls · in "@;
    let p5 = p4 + decimal(t.input_tokens as nat);
    let p6 = p5 + " / out "@;
    let p7 = p6 + decimal(t.output_tokens as nat);
    let p8 = p7 + " tok · "@;
    let p9 = p8 + decimal(t.latency_ms as nat);
    let p10 = p9 + " ms"@;
    let p11 = p10 + (match t.cost {
        Some(c) => " · $"@ + c@,
        None => ""@,
    });
    let p12 = p11 + "\n"@;
    assert(Seq::<char>::empty() + "- "@ =~= "- "@);
    assert(p12 == text);
    lemma_shorter_prefix(p11, "\n"@, text);
    lemma_shorter_prefix(p10, (match t.cost {
        Some(c) => " · $"@ + c@,
        None => ""@,
    }), text);
    lemma_shorter_prefix(p9, " ms"@, text);
    lemma_shorter_prefix(p8, decimal(t.latency_ms as nat), text);
    lemma_shorter_prefix(p7, " tok · "@, text);
    lemma_shorter_prefix(p6, decimal(t.output_tokens as nat), text);
    lemma_shorter_prefix(p5, " / out "@, text);
    lemma_shorter_prefix(p4, decimal(t.input_tokens as nat), text);
    lemma_shorter_prefix(p3, " calls · in "@, text);
    lemma_shorter_prefix(p2, decimal(t.model_calls as nat), text);
    lemma_shorter_prefix(p1, " · "@, text);
    lemma_shorter_prefix(p0, t.selector@, text);
    lemma_ends_hold(Seq::<char>::empty(), "- "@, t.selector@, " · "@);
    lemma_longer_texts_hold(p2, text, "- "@ + t.selector@ + " · "@);
    lemma_ends_hold(p1, " · "@, decimal(t.model_calls as nat), " calls · in "@);
    lemma_longer_texts_hold(p4, text, " · "@ + decimal(t.model_calls as nat) + " calls · in "@);
    lemma_ends_hold(p3, " calls · in "@, decimal(t.input_tokens as nat), " / out "@);
    lemma_longer_texts_hold(p6, text, " calls · in "@ + decimal(t.input_tokens as nat) + " / out "@);
    lemma_ends_hold(p5, " / out "@, decimal(t.output_tokens as nat), " tok · "@);
    lemma_longer_texts_hold(p8, text, " / out "@ + decimal(t.output_tokens as nat) + " tok · "@);
    lemma_ends_hold(p7, " tok · "@, decimal(t.latency_ms as nat), " ms"@);
    lemma_longer_texts_hold(p10, text, " tok · "@ + decimal(t.latency_ms as nat) + " ms"@);
}

/// In a context plan every number stands behind its own label.
#[verifier::spinoff_prover]
pub proof fn law_plans_label_their_numbers(plan: ContextPlan)
    ensures
        holds(plan_text(plan), "context: "@ + decimal(plan.used_tokens as nat) + "/"@),
        holds(plan_text(plan), "/"@ + decimal(plan.max_tokens as nat) + " tokens used (included "@),
        holds(plan_text(plan), " tokens used (included "@ + decimal(plan.included_tokens as nat) + ", summarized "@),
        holds(plan_text(plan), ", summarized "@ + decimal(plan.summarized_tokens as nat) + ", referenced "@),
        holds(plan_text(plan), ", referenced "@ + decimal(plan.referenced_tokens as nat) + ", omitted "@),
        holds(plan_text(plan), ", omitted "@ + decimal(plan.omitted_tokens as nat) + ")\nblocks: retained "@),
        holds(plan_text(plan), ")\nblocks: retained "@ + counted(plan, ContextDisposition::Included) + " · summaries "@),
        holds(plan_text(plan), " · summaries "@ + counted(plan, ContextDisposition::Summarized) + " · refs "@),
        holds(plan_text(plan), " · refs "@ + counted(plan, ContextDisposition::Referenced) + " · omitted "@),
        holds(plan_text(plan), " · omitted "@ + counted(plan, ContextDisposition::Omitted) + "\n"@),
{
    let text = plan_text(plan);
    let p0 = Seq::<char>::empty() + "context: "@;
    let p1 = p0 + decimal(plan.used_tokens as nat);
    let p2 = p1 + "/"@;
    let p3 = p2 + decimal(plan.max_tokens as nat);
    let p4 = p3 + " tokens used (included "@;
    let p5 = p4 + decimal(plan.included_tokens as nat);
    let p6 = p5 + ", summarized "@;
    let p7 = p6 + decimal(plan.summarized_tokens as nat);
    let p8 = p7 + ", referenced "@;
    let p9 = p8 + decimal(plan.referenced_tokens as nat);
    let p10 = p9 + ", omitted "@;
    let p11 = p10 + decimal(plan.omitted_tokens as nat);
    let p12 = p11 + ")\nblocks: retained "@;
    let p13 = p12 + counted(plan, ContextDisposition::Included);
    let p14 = p13 + " · summaries "@;
    let p15 = p14 + counted(plan, ContextDisposition::Summarized);
    let p16 = p15 + " · refs "@;
    let p17 = p16 + counted(plan, ContextDisposition::Referenced);
    let p18 = p17 + " · omitted "@;
    let p19 = p18 + counted(plan, ContextDisposition::Omitted);
    let p20 = p19 + "\n"@;
    let p21 = p20 + entry_lines(plan.entries@, plan.entries@.len() as int);
    assert(Seq::<char>::empty() + "context: "@ =~= "context: "@);
    assert(p21 == text);
    lemma_shorter_prefix(p20, entry_lines(plan.entries@, plan.entries@.len() as int), text);
    lemma_shorter_prefix(p19, "\n"@, text);
    lemma_shorter_prefix(p18, counted(plan, ContextDisposition::Omitted), text);
    lemma_shorter_prefix(p17, " · omitted "@, text);
    lemma_shorter_prefix(p16, counted(plan, ContextDisposition::Referenced), text);
    lemma_shorter_prefix(p15, " · refs "@, text);
    lemma_shorter_prefix(p14, counted(plan, ContextDisposition::Summarized), text);
    lemma_shorter_prefix(p13, " · summaries "@, text);
    lemma_shorter_prefix(p12, counted(plan, ContextDisposition::Included), text);
    lemma_shorter_prefix(p11, ")\nblocks: retained "@, text);
    lemma_shorter_prefix(p10, decimal(plan.omitted_tokens as nat), text);
    lemma_shorter_prefix(p9, ", omitted "@, text);
    lemma_shorter_prefix(p8, decimal(plan.referenced_tokens as nat), text);
    lemma_shorter_prefix(p7, ", referenced "@, text);
    lemma_shorter_prefix(p6, decimal(plan.summarized_tokens as nat), text);
    lemma_shorter_prefix(p5, ", summarized "@, text);
    lemma_shorter_prefix(p4, decimal(plan.included_tokens as nat), text);
    lemma_shorter_prefix(p3, " tokens used (included "@, text);
    lemma_shorter_prefix(p2, decimal(plan.max_tokens as nat), text);
    lemma_shorter_prefix(p1, "/"@, text);
    lemma_shorter_prefix(p0, decimal(plan.used_tokens as nat), text);
    lemma_ends_hold(Seq::<char>::empty(), "context: "@, decimal(plan.used_tokens as nat), "/"@);
    lemma_longer_texts_hold(p2, text, "context: "@ + decimal(plan.used_tokens as nat) + "/"@);
    lemma_ends_hold(p1, "/"@, decimal(plan.max_tokens as nat), " tokens used (included "@);
    lemma_longer_texts_hold(p4, text, "/"@ + decimal(plan.max_tokens as nat) + " tokens used (included "@);
    lemma_ends_hold(p3, " tokens used (included "@, decimal(plan.included_tokens as nat), ", summarized "@);
    lemma_longer_texts_hold(p6, text, " tokens used (included "@ + decimal(plan.included_tokens as nat) + ", summarized "@);
    lemma_ends_hold(p5, ", summarized "@, decimal(plan.summarized_tokens as nat), ", referenced "@);
    lemma_longer_texts_hold(p8, text, ", summarized "@ + decimal(plan.summarized_tokens as nat) + ", referenced "@);
    lemma_ends_hold(p7, ", referenced "@, decimal(plan.referenced_tokens as nat), ", omitted "@);
    lemma_longer_texts_hold(p10, text, ", referenced "@ + decimal(plan.referenced_tokens as nat) + ", omitted "@);
    lemma_ends_hold(p9, ", omitted "@, decimal(plan.omitted_tokens as nat), ")\nblocks: retained "@);
    lemma_longer_texts_hold(p12, text, ", omitted "@ + decimal(plan.omitted_tokens as nat) + ")\nblocks: retained "@);
    lemma_ends_hold(p11, ")\nblocks: retained "@, counted(plan, ContextDisposition::Included), " · summaries "@);
    lemma_longer_texts_hold(p14, text, ")\nblocks: retained "@ + counted(plan, ContextDisposition::Included) + " · summaries "@);
    lemma_ends_hold(p13, " · summaries "@, counted(plan, ContextDisposition::Summarized), " · refs "@);
    lemma_longer_texts_hold(p16, text, " · summaries "@ + counted(plan, ContextDisposition::Summarized) + " · refs "@);
    lemma_ends_hold(p15, " · refs "@, counted(plan, ContextDisposition::Referenced), " · omitted "@);
    lemma_longer_texts_hold(p18, text, " · refs "@ + counted(plan, ContextDisposition::Referenced) + " · omitted "@);
    lemma_ends_hold(p17, " · omitted "@, counted(plan, ContextDisposition::Omitted), "\n"@);
    lemma_longer_texts_hold(p20, text, " · omitted "@ + counted(plan, ContextDisposition::Omitted) + "\n"@);
}

/// The line of a block tells where it comes from, what becomes of it, how large it is
/// and why.
#[verifier::spinoff_prover]
pub proof fn law_plan_entries_label_their_parts(e: ContextEntry)
    ensures
        holds(entry_line(e), "- "@ + source_text(e.source) + " · "@),
        holds(entry_line(e), " · "@ + disposition_text(e.disposition) + " · "@),
        holds(entry_line(e), " · "@ + decimal(e.est_tokens as nat) + " tok · "@),
        holds(entry_line(e), " tok · "@ + e.reason@ + "\n"@),
{
    let text = entry_line(e);
    let p0 = Seq::<char>::empty() + "- "@;
    let p1 = p0 + source_text(e.source);
    let p2 = p1 + " · "@;
    let p3 = p2 + disposition_text(e.disposition);
    let p4 = p3 + " · "@;
    let p5 = p4 + decimal(e.est_tokens as nat);
    let p6 = p5 + " tok · "@;
    let p7 = p6 + e.reason@;
    let p8 = p7 + "\n"@;
    assert(Seq::<char>::empty() + "- "@ =~= "- "@);
    assert(p8 == text);
    lemma_shorter_prefix(p7, "\n"@, text);
    lemma_shorter_prefix(p6, e.reason@, text);
    lemma_shorter_prefix(p5, " tok · "@, text);
    lemma_shorter_prefix(p4, decimal(e.est_tokens as nat), text);
    lemma_shorter_prefix(p3, " · "@, text);
    lemma_shorter_prefix(p2, disposition_text(e.disposition), text);
    lemma_shorter_prefix(p1, " · "@, text);
    lemma_shorter_prefix(p0, source_text(e.source), text);
    lemma_ends_hold(Seq::<char>::empty(), "- "@, source_text(e.source), " · "@);
    lemma_longer_texts_hold(p2, text, "- "@ + source_text(e.source) + " · "@);
    lemma_ends_hold(p1, " · "@, disposition_text(e.disposition), " · "@);
    lemma_longer_texts_hold(p4, text, " · "@ + disposition_text(e.disposition) + " · "@);
    lemma_ends_hold(p3, " · "@, decimal(e.est_tokens as nat), " tok · "@);
    lemma_longer_texts_hold(p6, text, " · "@ + decimal(e.est_tokens as nat) + " tok · "@);
    lemma_ends_hold(p5, " tok · "@, e.reason@, "\n"@);
    lemma_longer_texts_hold(p8, text, " tok · "@ + e.reason@ + "\n"@);
}

/// Blocks are counted by what becomes of them, each once.
pub proof fn law_blocks_are_counted_once(entries: Seq<ContextEntry>, d: ContextDisposition, n: int)
    requires
        0 <= n < entries.len(),
    ensures
        count_before(entries, d, 0) == 0,
        count_before(entries, d, n + 1) == count_before(entries, d, n) + (if entries[n].disposition
            == d {
            1int
        } else {
            0
        }),
{
}

} // verus!
