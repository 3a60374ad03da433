//! A session at the terminal: how it is announced, what each line of it leads
//! to, and what is said of its state.
use vstd::prelude::*;

use super::hosts::SkillBundle;
use super::repl::{handle_repl_command, wish_of, ReplCommand, Wish};
use super::report::{
    active_plan, active_skill, active_todos, line_or_none, plan_before, print_active,
    print_mcp_status, print_spend_report, print_todo_progress, progress_text, servers_text,
    skill_before, spend_text, todos_before, McpServerStatus, RoutingDecision, SkillStatus,
    TierSpend,
};
use crate::json::opt_view;
use crate::number::{decimal, to_decimal};
use crate::split::{join, joined, words, words_of};
use crate::text::{cat, cat3, cat5, owned, trim, trimmed, views};
use crate::trace::LogEntry;

verus! {

// ----- announcements -----
/// How calls of gated tools are decided.
pub open spec fn approval(yolo: bool) -> Seq<char> {
    if yolo {
        "yolo"@
    } else {
        "auto-approve"@
    }
}

fn approval_mode(yolo: bool) -> (r: &'static str)
    ensures
        r@ == approval(yolo),
{
    if yolo {
        "yolo"
    } else {
        "auto-approve"
    }
}

/// How a new session is announced.
pub fn session_banner(models: &str, base_url: &str, yolo: bool, skills: usize, recording: bool) -> (r:
    String)
    ensures
        r@ == "hugr · model "@ + models@ + " · "@ + base_url@ + " · "@ + approval(yolo) + " · "@
            + decimal(skills as nat) + " skills"@ + (if recording {
            " · recording"@
        } else {
            ""@
        }),
{
    let mut s = cat5("hugr · model ", models, " · ", base_url, " · ");
    s.append(approval_mode(yolo));
    s.append(" · ");
    s.append(to_decimal(skills as u64).as_str());
    s.append(" skills");
    s.append(
        if recording {
            " · recording"
        } else {
            ""
        },
    );
    s
}

/// How a session is announced that goes on from a trace.
pub fn resume_banner(
    trace: &str,
    events: usize,
    models: &str,
    base_url: &str,
    yolo: bool,
    out: &str,
) -> (r: String)
    ensures
        r@ == "hugr · resuming "@ + trace@ + " ("@ + decimal(events as nat) + " events) · model "@
            + models@ + " · "@ + base_url@ + " · "@ + approval(yolo) + " · recording → "@ + out@,
{
    let mut s = cat3("hugr · resuming ", trace, " (");
    s.append(to_decimal(events as u64).as_str());
    s.append(" events) · model ");
    s.append(models);
    s.append(" · ");
    s.append(base_url);
    s.append(" · ");
    s.append(approval_mode(yolo));
    s.append(" · recording → ");
    s.append(out);
    s
}

/// How a session is announced that a schedule starts.
pub fn schedule_banner(cron: &str, models: &str, base_url: &str, yolo: bool) -> (r: String)
    ensures
        r@ == "hugr · scheduled fire "@ + cron@ + " · model "@ + models@ + " · "@ + base_url@
            + " · "@ + approval(yolo),
{
    let mut s = cat5("hugr · scheduled fire ", cron, " · model ", models, " · ");
    s.append(base_url);
    s.append(" · ");
    s.append(approval_mode(yolo));
    s
}

/// An announcement as it is shown: dimmed on a terminal, unless colours are
/// not wanted.
pub fn print_banner(text: &str, terminal: bool, no_color: bool) -> (r: String)
    ensures
        r@ == if terminal && !no_color {
            "\x1b[2m"@ + text@ + "\x1b[0m\n"@
        } else {
            text@ + "\n"@
        },
{
    if terminal && !no_color {
        cat3("\x1b[2m", text, "\x1b[0m\n")
    } else {
        cat(text, "\n")
    }
}

// ----- starting -----
/// Where a resumed session is recorded: where it is told to, else where it was.
pub fn recording_path(trace: &str, record: Option<String>) -> (r: String)
    ensures
        r@ == match record {
            Some(p) => p@,
            None => trace@,
        },
{
    match record {
        Some(p) => p,
        None => owned(trace),
    }
}

/// What a schedule says when it fires: the words that it was given, which must
/// say something.
pub fn scheduled_prompt(words: &Vec<String>) -> (r: Result<String, &'static str>)
    ensures
        if trimmed(joined(views(words@), " "@)).len() == 0 {
            r matches Err(m) && m@ == "scheduled prompt cannot be empty"@
        } else {
            r matches Ok(p) && p@ == joined(views(words@), " "@)
        },
{
    let prompt = join(words, " ");
    let t = trim(prompt.as_str());
    assert(t@.len() == 0 <==> t@ =~= Seq::<char>::empty());
    if t.as_str().is_empty() {
        Err("scheduled prompt cannot be empty")
    } else {
        Ok(prompt)
    }
}

/// The program that a plugin is run by, and its arguments: the words of what
/// names it.
pub fn plugin_command(spec: &str) -> (r: (String, Vec<String>))
    ensures
        r.0@ == (if words_of(spec@).len() == 0 {
            ""@
        } else {
            words_of(spec@)[0]
        }),
        views(r.1@) == (if words_of(spec@).len() == 0 {
            Seq::empty()
        } else {
            words_of(spec@).skip(1)
        }),
{
    let ws = words(spec);
    let ghost all = words_of(spec@);
    if ws.len() == 0 {
        let none: Vec<String> = Vec::new();
        assert(views(none@) =~= Seq::<Seq<char>>::empty());
        return (owned(""), none);
    }
    let program = ws[0].clone();
    assert(all[0] == ws@[0]@);
    let mut args: Vec<String> = Vec::new();
    let mut i: usize = 1;
    while i < ws.len()
        invariant
            1 <= i <= ws@.len(),
            views(ws@) == all,
            views(args@) =~= all.subrange(1, i as int),
        decreases ws.len() - i,
    {
        let ghost was = args@;
        args.push(ws[i].clone());
        assert(views(args@) =~= views(was).push(ws@[i as int]@));
        assert(all[i as int] == ws@[i as int]@);
        i = i + 1;
    }
    assert(views(args@) =~= all.skip(1));
    (program, args)
}

/// How the skills of a host are listed.
pub fn skill_status(skills: &Vec<SkillBundle>) -> (r: Vec<SkillStatus>)
    ensures
        r@.len() == skills@.len(),
        forall|i: int|
            0 <= i < r@.len() ==> {
                &&& (#[trigger] r@[i]).id == skills@[i].id
                &&& r@[i].title == skills@[i].title
                &&& opt_view(r@[i].summary) == opt_view(skills@[i].summary)
            },
{
    let mut r: Vec<SkillStatus> = Vec::new();
    let mut i: usize = 0;
    while i < skills.len()
        invariant
            i <= skills@.len(),
            r@.len() == i,
            forall|j: int|
                0 <= j < i ==> {
                    &&& (#[trigger] r@[j]).id == skills@[j].id
                    &&& r@[j].title == skills@[j].title
                    &&& opt_view(r@[j].summary) == opt_view(skills@[j].summary)
                },
        decreases skills.len() - i,
    {
        let summary = match &skills[i].summary {
            Some(s) => Some(s.clone()),
            None => None,
        };
        r.push(SkillStatus { id: skills[i].id.clone(), title: skills[i].title.clone(), summary });
        i = i + 1;
    }
    r
}

// ----- the lines of a session -----
/// What a line that was typed leads to.
#[derive(Debug)]
pub enum LineStep {
    /// There are no more lines.
    End,
    /// An empty line: ask again.
    Again,
    /// Do what the command says.
    Command { command: ReplCommand, line: String },
    /// Say it to the agent.
    Turn { text: String },
}

/// The step for the text of a line.
pub open spec fn step_for(step: LineStep, text: Seq<char>) -> bool {
    match wish_of(words_of(text)) {
        Wish::Turn => step matches LineStep::Turn { text: t } && t@ == text,
        wish => step matches LineStep::Command { command, line } && command@ == wish && line@
            == text,
    }
}

fn line_step(text: String) -> (r: LineStep)
    ensures
        step_for(r, text@),
{
    match handle_repl_command(text.as_str()) {
        ReplCommand::Turn => LineStep::Turn { text },
        command => LineStep::Command { command, line: text },
    }
}

/// What a line leads to, `None` being the end of the input.
pub fn typed_line(line: Option<&str>) -> (r: LineStep)
    ensures
        match line {
            None => r is End,
            Some(l) => if trimmed(l@).len() == 0 {
                r is Again
            } else {
                step_for(r, trimmed(l@))
            },
        },
{
    match line {
        None => LineStep::End,
        Some(l) => {
            let text = trim(l);
            assert(text@.len() == 0 <==> text@ =~= Seq::<char>::empty());
            if text.as_str().is_empty() {
                LineStep::Again
            } else {
                line_step(text)
            }
        },
    }
}

/// What the words of a command line lead to: one step where there are any, else
/// a session that reads lines.
pub fn one_shot(prompt: &Vec<String>) -> (r: Option<LineStep>)
    ensures
        match r {
            None => prompt@.len() == 0,
            Some(step) => prompt@.len() > 0 && step_for(step, joined(views(prompt@), " "@)),
        },
{
    if prompt.len() == 0 {
        None
    } else {
        Some(line_step(join(prompt, " ")))
    }
}

// ----- the state of a session -----
/// What is said of the tier of the next turn.
pub open spec fn override_line(tier: Option<Seq<char>>) -> Seq<char> {
    match tier {
        Some(t) => "next turn tier override: "@ + t + "\n"@,
        None => "next turn tier override: auto\n"@,
    }
}

/// What is said of the tier of the next turn.
pub fn print_tier_override(tier: &Option<String>) -> (r: String)
    ensures
        r@ == override_line(opt_view(*tier)),
{
    match tier {
        Some(t) => cat3("next turn tier override: ", t.as_str(), "\n"),
        None => owned("next turn tier override: auto\n"),
    }
}

/// What `/model` prints.
pub open spec fn model_lines(models: Seq<char>, tier: Option<Seq<char>>) -> Seq<char> {
    "models: "@ + models + "\n"@ + override_line(tier)
}

/// What `/model` prints.
pub fn print_model_status(models: &str, tier: &Option<String>) -> (r: String)
    ensures
        r@ == model_lines(models@, opt_view(*tier)),
{
    let mut s = cat3("models: ", models, "\n");
    s.append(print_tier_override(tier).as_str());
    s
}

/// What `/status` tells of: the models, how full the context is, the servers
/// and what the log says is going on, and what was spent. `percent` is how full
/// the context is, as text.
#[derive(Debug)]
pub struct Status {
    pub models: String,
    pub next_tier: Option<String>,
    pub used_tokens: u64,
    pub max_tokens: u64,
    pub percent: String,
    pub servers: Vec<McpServerStatus>,
    pub tiers: Vec<TierSpend>,
    pub routing: Vec<RoutingDecision>,
}

/// What `/status` prints.
pub open spec fn status_text(s: Status, log: Seq<LogEntry>) -> Seq<char> {
    let n = log.len() as int;
    model_lines(s.models@, opt_view(s.next_tier)) + ("context: "@ + decimal(s.used_tokens as nat)
        + "/"@ + decimal(s.max_tokens as nat) + " tokens ("@ + s.percent@ + "% full)\n"@)
        + servers_text(s.servers@) + line_or_none("active skill"@, skill_before(log, n))
        + line_or_none("plan"@, plan_before(log, n)) + progress_text(todos_before(log, n))
        + spend_text(s.tiers@, s.routing@)
}

/// What `/status` prints.
pub fn print_status(status: &Status, log: &Vec<LogEntry>) -> (r: String)
    ensures
        r@ == status_text(*status, log@),
{
    let mut line = cat("context: ", to_decimal(status.used_tokens).as_str());
    line.append("/");
    line.append(to_decimal(status.max_tokens).as_str());
    line.append(" tokens (");
    line.append(status.percent.as_str());
    line.append("% full)\n");
    let mut s = print_model_status(status.models.as_str(), &status.next_tier);
    s.append(line.as_str());
    s.append(print_mcp_status(&status.servers).as_str());
    s.append(print_active("active skill", &active_skill(log)).as_str());
    s.append(print_active("plan", &active_plan(log)).as_str());
    s.append(print_todo_progress(&active_todos(log)).as_str());
    s.append(print_spend_report(&status.tiers, &status.routing).as_str());
    s
}

} // verus!
