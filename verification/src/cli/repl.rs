//! Interactive commands: which one a line is, and what it asks for.
use vstd::prelude::*;

use crate::number::{parse_u64, parsed};
use crate::split::{begins_with, cut_space, join, joined, split_space, starts_with, words, words_of};
use crate::text::{cat, cat3, owned, same, trim, trimmed, views};
use crate::trace::TodoItem;

verus! {

/// The command that a line is. Those that take more hold the rest of the line,
/// with its words one blank apart.
#[derive(Debug)]
pub enum ReplCommand {
    /// Something to say to the agent.
    Turn,
    Context,
    Compact,
    Model,
    Tier { tier: Option<String> },
    Status,
    Skills,
    Plan { rest: String },
    Todo { rest: String },
    Diff { rest: String },
    Review,
    CommitMessage,
    Branch,
    Rewind { rest: String },
    Resume { rest: String },
    /// Looks like a command and is none.
    Unknown,
}

/// What a [`ReplCommand`] denotes.
pub enum Wish {
    Turn,
    Context,
    Compact,
    Model,
    Tier(Option<Seq<char>>),
    Status,
    Skills,
    Plan(Seq<char>),
    Todo(Seq<char>),
    Diff(Seq<char>),
    Review,
    CommitMessage,
    Branch,
    Rewind(Seq<char>),
    Resume(Seq<char>),
    Unknown,
}

impl View for ReplCommand {
    type V = Wish;

    open spec fn view(&self) -> Wish {
        match self {
            ReplCommand::Turn => Wish::Turn,
            ReplCommand::Context => Wish::Context,
            ReplCommand::Compact => Wish::Compact,
            ReplCommand::Model => Wish::Model,
            ReplCommand::Tier { tier } => Wish::Tier(crate::json::opt_view(*tier)),
            ReplCommand::Status => Wish::Status,
            ReplCommand::Skills => Wish::Skills,
            ReplCommand::Plan { rest } => Wish::Plan(rest@),
            ReplCommand::Todo { rest } => Wish::Todo(rest@),
            ReplCommand::Diff { rest } => Wish::Diff(rest@),
            ReplCommand::Review => Wish::Review,
            ReplCommand::CommitMessage => Wish::CommitMessage,
            ReplCommand::Branch => Wish::Branch,
            ReplCommand::Rewind { rest } => Wish::Rewind(rest@),
            ReplCommand::Resume { rest } => Wish::Resume(rest@),
            ReplCommand::Unknown => Wish::Unknown,
        }
    }
}

/// The words after the first, one blank apart.
pub open spec fn rest_of(ws: Seq<Seq<char>>) -> Seq<char> {
    joined(ws.skip(1), " "@)
}

/// The command that a line of these words is.
pub open spec fn wish_of(ws: Seq<Seq<char>>) -> Wish {
    if ws.len() == 0 {
        Wish::Turn
    } else {
        let c = ws[0];
        if c == "/context"@ {
            Wish::Context
        } else if c == "/compact"@ {
            Wish::Compact
        } else if c == "/model"@ {
            Wish::Model
        } else if c == "/tier"@ {
            Wish::Tier(
                if ws.len() > 1 {
                    Some(ws[1])
                } else {
                    None
                },
            )
        } else if c == "/status"@ {
            Wish::Status
        } else if c == "/skills"@ {
            Wish::Skills
        } else if c == "/plan"@ {
            Wish::Plan(rest_of(ws))
        } else if c == "/todo"@ {
            Wish::Todo(rest_of(ws))
        } else if c == "/diff"@ {
            Wish::Diff(rest_of(ws))
        } else if c == "/review"@ {
            Wish::Review
        } else if c == "/commit-message"@ {
            Wish::CommitMessage
        } else if c == "/branch"@ {
            Wish::Branch
        } else if c == "/rewind"@ {
            Wish::Rewind(rest_of(ws))
        } else if c == "/resume"@ {
            Wish::Resume(rest_of(ws))
        } else if begins_with(c, "/"@) {
            Wish::Unknown
        } else {
            Wish::Turn
        }
    }
}

fn rest_from(ws: &Vec<String>) -> (r: String)
    requires
        ws@.len() > 0,
    ensures
        r@ == rest_of(views(ws@)),
{
    let mut rest: Vec<String> = Vec::new();
    let mut i: usize = 1;
    while i < ws.len()
        invariant
            1 <= i <= ws@.len(),
            views(rest@) =~= views(ws@).subrange(1, i as int),
        decreases ws.len() - i,
    {
        let ghost was = rest@;
        rest.push(ws[i].clone());
        assert(views(rest@) =~= views(was).push(ws@[i as int]@));
        i = i + 1;
    }
    assert(views(rest@) =~= views(ws@).skip(1));
    join(&rest, " ")
}

/// The command that a line is.
pub fn handle_repl_command(line: &str) -> (r: ReplCommand)
    ensures
        r@ == wish_of(words_of(line@)),
{
    let ws = words(line);
    let ghost all = words_of(line@);
    if ws.len() == 0 {
        return ReplCommand::Turn;
    }
    assert(all[0] == ws@[0]@);
    let c = ws[0].as_str();
    if same(c, "/context") {
        ReplCommand::Context
    } else if same(c, "/compact") {
        ReplCommand::Compact
    } else if same(c, "/model") {
        ReplCommand::Model
    } else if same(c, "/tier") {
        let tier = if ws.len() > 1 {
            assert(all[1] == ws@[1]@);
            Some(ws[1].clone())
        } else {
            None
        };
        ReplCommand::Tier { tier }
    } else if same(c, "/status") {
        ReplCommand::Status
    } else if same(c, "/skills") {
        ReplCommand::Skills
    } else if same(c, "/plan") {
        ReplCommand::Plan { rest: rest_from(&ws) }
    } else if same(c, "/todo") {
        ReplCommand::Todo { rest: rest_from(&ws) }
    } else if same(c, "/diff") {
        ReplCommand::Diff { rest: rest_from(&ws) }
    } else if same(c, "/review") {
        ReplCommand::Review
    } else if same(c, "/commit-message") {
        ReplCommand::CommitMessage
    } else if same(c, "/branch") {
        ReplCommand::Branch
    } else if same(c, "/rewind") {
        ReplCommand::Rewind { rest: rest_from(&ws) }
    } else if same(c, "/resume") {
        ReplCommand::Resume { rest: rest_from(&ws) }
    } else if starts_with(c, "/") {
        ReplCommand::Unknown
    } else {
        ReplCommand::Turn
    }
}

/// Nothing that starts with a slash is ever said to the agent.
pub proof fn law_commands_are_not_said(ws: Seq<Seq<char>>)
    requires
        ws.len() > 0,
        begins_with(ws[0], "/"@),
    ensures
        !(wish_of(ws) is Turn),
{
}

// ----- the tier of the next turn -----
/// What `/tier` asks for.
#[derive(Debug)]
pub enum TierAction {
    Show,
    Override { tier: String },
    Clear,
    Complain { message: String },
}

/// The tier is one that can be asked for by name.
pub open spec fn known_tier(t: Seq<char>) -> bool {
    t == "small"@ || t == "medium"@ || t == "big"@
}

/// What `/tier` asks for: nothing but to be told, one of the tiers, or the
/// usual choice again.
pub fn handle_tier_command(tier: Option<&str>) -> (r: TierAction)
    ensures
        match tier {
            None => r is Show,
            Some(t) => if known_tier(t@) {
                r matches TierAction::Override { tier } && tier@ == t@
            } else if t@ == "auto"@ || t@ == "clear"@ {
                r is Clear
            } else {
                r matches TierAction::Complain { message } && message@
                    == "usage: /tier [small|medium|big|auto] (got "@ + t@ + ")"@
            },
        },
{
    match tier {
        None => TierAction::Show,
        Some(t) => {
            if same(t, "small") || same(t, "medium") || same(t, "big") {
                TierAction::Override { tier: owned(t) }
            } else if same(t, "auto") || same(t, "clear") {
                TierAction::Clear
            } else {
                TierAction::Complain {
                    message: cat3("usage: /tier [small|medium|big|auto] (got ", t, ")"),
                }
            }
        },
    }
}

// ----- the plan -----
/// What `/plan` asks for.
#[derive(Debug)]
pub enum PlanAction {
    Show,
    Accept { text: String },
    Reject,
    Complain { message: String },
}

/// What a [`PlanAction`] denotes.
pub enum PlanWish {
    Show,
    Accept(Seq<char>),
    Reject,
    Complain(Seq<char>),
}

impl View for PlanAction {
    type V = PlanWish;

    open spec fn view(&self) -> PlanWish {
        match self {
            PlanAction::Show => PlanWish::Show,
            PlanAction::Accept { text } => PlanWish::Accept(text@),
            PlanAction::Reject => PlanWish::Reject,
            PlanAction::Complain { message } => PlanWish::Complain(message@),
        }
    }
}

pub const PLAN_USAGE: &'static str = "usage: /plan [accept <text>|edit <text>|reject]";

/// A plan is taken over by either word.
pub open spec fn takes_plan(action: Seq<char>) -> bool {
    action == "accept"@ || action == "edit"@
}

/// What `/plan` asks for.
pub open spec fn plan_wish(rest: Seq<char>) -> PlanWish {
    let r = trimmed(rest);
    if r.len() == 0 {
        PlanWish::Show
    } else {
        match cut_space(r) {
            None => if r == "reject"@ {
                PlanWish::Reject
            } else if takes_plan(r) {
                PlanWish::Complain("usage: /plan "@ + r + " <plan text>"@)
            } else {
                PlanWish::Complain(PLAN_USAGE@)
            },
            Some((action, tail)) => if takes_plan(action) {
                if trimmed(tail).len() > 0 {
                    PlanWish::Accept(trimmed(tail))
                } else {
                    PlanWish::Complain("usage: /plan "@ + action + " <plan text>"@)
                }
            } else {
                PlanWish::Complain(PLAN_USAGE@)
            },
        }
    }
}

/// What `/plan` asks for.
pub fn handle_plan_command(rest: &str) -> (r: PlanAction)
    ensures
        r@ == plan_wish(rest@),
{
    let r = trim(rest);
    if r.as_str().is_empty() {
        return PlanAction::Show;
    }
    match split_space(r.as_str()) {
        None => {
            if same(r.as_str(), "reject") {
                PlanAction::Reject
            } else if same(r.as_str(), "accept") || same(r.as_str(), "edit") {
                PlanAction::Complain { message: cat3("usage: /plan ", r.as_str(), " <plan text>") }
            } else {
                PlanAction::Complain { message: owned(PLAN_USAGE) }
            }
        },
        Some((action, tail)) => {
            if same(action.as_str(), "accept") || same(action.as_str(), "edit") {
                let text = trim(tail.as_str());
                if text.as_str().is_empty() {
                    PlanAction::Complain {
                        message: cat3("usage: /plan ", action.as_str(), " <plan text>"),
                    }
                } else {
                    PlanAction::Accept { text }
                }
            } else {
                PlanAction::Complain { message: owned(PLAN_USAGE) }
            }
        },
    }
}

// ----- things to do -----
/// What a thing to do denotes.
pub open spec fn todo_view(t: TodoItem) -> (Seq<char>, bool) {
    (t.text@, t.done)
}

pub open spec fn todos_view(list: Seq<TodoItem>) -> Seq<(Seq<char>, bool)> {
    list.map_values(|t: TodoItem| todo_view(t))
}

pub fn copy_todos(list: &Vec<TodoItem>) -> (r: Vec<TodoItem>)
    ensures
        todos_view(r@) == todos_view(list@),
{
    let mut r: Vec<TodoItem> = Vec::new();
    let mut i: usize = 0;
    while i < list.len()
        invariant
            i <= list@.len(),
            todos_view(r@) =~= todos_view(list@).take(i as int),
        decreases list.len() - i,
    {
        let ghost was = r@;
        let one = TodoItem { text: list[i].text.clone(), done: list[i].done };
        let ghost v = todo_view(one);
        r.push(one);
        assert(todos_view(r@) =~= todos_view(was).push(v));
        i = i + 1;
    }
    assert(todos_view(list@).take(i as int) =~= todos_view(list@));
    r
}

/// What `/todo` asks for: to be shown the list, or another list and what is
/// said of it.
#[derive(Debug)]
pub enum TodoAction {
    Show,
    Update { items: Vec<TodoItem>, said: String },
    Complain { message: String },
}

/// What a [`TodoAction`] denotes.
pub enum TodoWish {
    Show,
    Update(Seq<(Seq<char>, bool)>, Seq<char>),
    Complain(Seq<char>),
}

impl View for TodoAction {
    type V = TodoWish;

    open spec fn view(&self) -> TodoWish {
        match self {
            TodoAction::Show => TodoWish::Show,
            TodoAction::Update { items, said } => TodoWish::Update(todos_view(items@), said@),
            TodoAction::Complain { message } => TodoWish::Complain(message@),
        }
    }
}

pub const TODO_USAGE: &'static str = "usage: /todo [list|add <text>|done <n>|open <n>|clear]";

/// The list with the item of a number marked, if there is such an item.
pub open spec fn marked(todos: Seq<(Seq<char>, bool)>, number: Seq<char>, done: bool) -> TodoWish {
    match parsed(number) {
        Some(n) => if 1 <= n <= todos.len() {
            TodoWish::Update(todos.update(n - 1, (todos[n - 1].0, done)), "todo updated"@)
        } else {
            TodoWish::Complain("todo index out of range"@)
        },
        None => TodoWish::Complain("todo index out of range"@),
    }
}

/// What `/todo` asks for.
pub open spec fn todo_wish(rest: Seq<char>, todos: Seq<(Seq<char>, bool)>) -> TodoWish {
    let r = trimmed(rest);
    if r.len() == 0 {
        TodoWish::Show
    } else {
        match cut_space(r) {
            None => if r == "clear"@ {
                TodoWish::Update(Seq::empty(), "todos cleared"@)
            } else if r == "list"@ {
                TodoWish::Show
            } else {
                TodoWish::Complain(TODO_USAGE@)
            },
            Some((action, tail)) => {
                let t = trimmed(tail);
                if action == "add"@ && t.len() > 0 {
                    TodoWish::Update(todos.push((t, false)), "todo added"@)
                } else if action == "done"@ {
                    marked(todos, t, true)
                } else if action == "open"@ {
                    marked(todos, t, false)
                } else {
                    TodoWish::Complain(TODO_USAGE@)
                }
            },
        }
    }
}

fn mark(todos: &Vec<TodoItem>, number: &str, done: bool) -> (r: TodoAction)
    ensures
        r@ == marked(todos_view(todos@), number@, done),
{
    match parse_u64(number) {
        Some(n) => {
            if 1 <= n && n <= todos.len() as u64 {
                let mut items = copy_todos(todos);
                let ghost was = todos_view(items@);
                assert(was.len() == items@.len());
                let at: usize = (n - 1) as usize;
                let item = TodoItem { text: todos[at].text.clone(), done };
                let ghost v = todo_view(item);
                assert(todos_view(todos@)[at as int] == todo_view(todos@[at as int]));
                items.set(at, item);
                assert(todos_view(items@) =~= was.update(at as int, v));
                TodoAction::Update { items, said: owned("todo updated") }
            } else {
                TodoAction::Complain { message: owned("todo index out of range") }
            }
        },
        None => TodoAction::Complain { message: owned("todo index out of range") },
    }
}

/// What `/todo` asks for.
pub fn handle_todo_command(rest: &str, todos: &Vec<TodoItem>) -> (r: TodoAction)
    ensures
        r@ == todo_wish(rest@, todos_view(todos@)),
{
    let r = trim(rest);
    if r.as_str().is_empty() {
        return TodoAction::Show;
    }
    match split_space(r.as_str()) {
        None => {
            if same(r.as_str(), "clear") {
                let items: Vec<TodoItem> = Vec::new();
                assert(todos_view(items@) =~= Seq::<(Seq<char>, bool)>::empty());
                TodoAction::Update { items, said: owned("todos cleared") }
            } else if same(r.as_str(), "list") {
                TodoAction::Show
            } else {
                TodoAction::Complain { message: owned(TODO_USAGE) }
            }
        },
        Some((action, tail)) => {
            let t = trim(tail.as_str());
            if same(action.as_str(), "add") && !t.as_str().is_empty() {
                let mut items = copy_todos(todos);
                let ghost was = items@;
                let item = TodoItem { text: t, done: false };
                let ghost v = todo_view(item);
                items.push(item);
                assert(todos_view(items@) =~= todos_view(was).push(v));
                TodoAction::Update { items, said: owned("todo added") }
            } else if same(action.as_str(), "done") {
                mark(todos, t.as_str(), true)
            } else if same(action.as_str(), "open") {
                mark(todos, t.as_str(), false)
            } else {
                TodoAction::Complain { message: owned(TODO_USAGE) }
            }
        },
    }
}

/// Marking a thing as done and as open again leaves the list as it was, where
/// the thing was open; and marking changes no other thing.
pub proof fn law_marks_are_undone(todos: Seq<(Seq<char>, bool)>, number: Seq<char>)
    requires
        parsed(number) matches Some(n) && 1 <= n <= todos.len() && !todos[n - 1].1,
    ensures
        marked(todos, number, true) matches TodoWish::Update(done, _) && marked(
            done,
            number,
            false,
        ) matches TodoWish::Update(again, _) && again == todos,
        marked(todos, number, true) matches TodoWish::Update(done, _) && done.len() == todos.len()
            && forall|i: int|
            0 <= i < todos.len() && i != parsed(number)->0 - 1 ==> done[i] == todos[i],
{
    let n = parsed(number)->0;
    let done = todos.update(n - 1, (todos[n - 1].0, true));
    assert(done.update(n - 1, (done[n - 1].0, false)) =~= todos);
}

// ----- git -----
/// The words after `git` that show the changes which `/diff` asks for.
pub open spec fn diff_words(rest: Seq<char>) -> Seq<Seq<char>> {
    let base = Seq::empty().push("diff"@).push("--no-color"@);
    let r = trimmed(rest);
    if r == "--cached"@ || r == "cached"@ {
        base.push("--cached"@)
    } else if r.len() > 0 {
        base.push("--"@).push(r)
    } else {
        base
    }
}

/// The words after `git` that show the changes which `/diff` asks for.
pub fn git_diff_args(rest: &str) -> (r: Vec<String>)
    ensures
        views(r@) == diff_words(rest@),
{
    let mut args: Vec<String> = Vec::new();
    args.push(owned("diff"));
    args.push(owned("--no-color"));
    let ghost base = Seq::empty().push("diff"@).push("--no-color"@);
    assert(views(args@) =~= base);
    let r = trim(rest);
    if same(r.as_str(), "--cached") || same(r.as_str(), "cached") {
        args.push(owned("--cached"));
        assert(views(args@) =~= base.push("--cached"@));
    } else if !r.as_str().is_empty() {
        let ghost v = r@;
        args.push(owned("--"));
        args.push(r);
        assert(views(args@) =~= base.push("--"@).push(v));
    }
    args
}

/// What `/rewind` asks for.
#[derive(Debug)]
pub enum RewindAction {
    Usage,
    BadSeq { message: String },
    Rewind { seq: u64, path: String },
}

/// What `/rewind` asks for: a place in the log, and where the trace up to it is
/// written.
pub fn handle_rewind_command(rest: &str) -> (r: RewindAction)
    ensures
        ({
            let ws = words_of(rest@);
            if ws.len() != 2 {
                r is Usage
            } else {
                match parsed(ws[0]) {
                    None => r matches RewindAction::BadSeq { message } && message@
                        == "invalid log seq `"@ + ws[0] + "`"@,
                    Some(n) => r matches RewindAction::Rewind { seq, path } && seq == n && path@
                        == ws[1],
                }
            }
        }),
{
    let ws = words(rest);
    if ws.len() != 2 {
        return RewindAction::Usage;
    }
    assert(words_of(rest@)[0] == ws@[0]@ && words_of(rest@)[1] == ws@[1]@);
    match parse_u64(ws[0].as_str()) {
        None => RewindAction::BadSeq {
            message: cat3("invalid log seq `", ws[0].as_str(), "`"),
        },
        Some(seq) => RewindAction::Rewind { seq, path: ws[1].clone() },
    }
}

/// What `/resume` prints.
pub fn resume_hint(rest: &str) -> (r: String)
    ensures
        r@ == if trimmed(rest@).len() == 0 {
            "usage: hugr resume <trace> [prompt...]"@
        } else {
            "run: hugr resume "@ + rest@
        },
{
    if trim(rest).as_str().is_empty() {
        owned("usage: hugr resume <trace> [prompt...]")
    } else {
        cat("run: hugr resume ", rest)
    }
}

/// A line is the command that its first word names, and those that take more get the
/// words behind it. What does not start with a slash is said to the agent.
pub proof fn law_the_first_word_names_the_command(ws: Seq<Seq<char>>)
    requires
        ws.len() > 0,
    ensures
        wish_of(ws) is Context <==> ws[0] == "/context"@,
        wish_of(ws) is Compact <==> ws[0] == "/compact"@,
        wish_of(ws) is Model <==> ws[0] == "/model"@,
        wish_of(ws) is Status <==> ws[0] == "/status"@,
        wish_of(ws) is Skills <==> ws[0] == "/skills"@,
        wish_of(ws) is Review <==> ws[0] == "/review"@,
        wish_of(ws) is CommitMessage <==> ws[0] == "/commit-message"@,
        wish_of(ws) is Branch <==> ws[0] == "/branch"@,
        wish_of(ws) is Tier <==> ws[0] == "/tier"@,
        wish_of(ws) is Plan <==> ws[0] == "/plan"@,
        wish_of(ws) is Todo <==> ws[0] == "/todo"@,
        wish_of(ws) is Diff <==> ws[0] == "/diff"@,
        wish_of(ws) is Rewind <==> ws[0] == "/rewind"@,
        wish_of(ws) is Resume <==> ws[0] == "/resume"@,
        wish_of(ws) matches Wish::Plan(more) ==> more == joined(ws.skip(1), " "@),
        wish_of(ws) matches Wish::Todo(more) ==> more == joined(ws.skip(1), " "@),
        wish_of(ws) matches Wish::Diff(more) ==> more == joined(ws.skip(1), " "@),
        wish_of(ws) matches Wish::Rewind(more) ==> more == joined(ws.skip(1), " "@),
        wish_of(ws) matches Wish::Resume(more) ==> more == joined(ws.skip(1), " "@),
        wish_of(ws) matches Wish::Tier(tier) ==> (ws.len() == 1 ==> tier is None) && (ws.len() > 1
            ==> tier == Some(ws[1])),
        wish_of(ws) is Turn ==> !begins_with(ws[0], "/"@),
{
    reveal_strlit("/context");
    reveal_strlit("/compact");
    reveal_strlit("/model");
    reveal_strlit("/tier");
    reveal_strlit("/status");
    reveal_strlit("/skills");
    reveal_strlit("/plan");
    reveal_strlit("/todo");
    reveal_strlit("/diff");
    reveal_strlit("/review");
    reveal_strlit("/commit-message");
    reveal_strlit("/branch");
    reveal_strlit("/rewind");
    reveal_strlit("/resume");
    assert("/context"@.len() == 8);
    assert("/compact"@.len() == 8);
    assert("/model"@.len() == 6);
    assert("/tier"@.len() == 5);
    assert("/status"@.len() == 7);
    assert("/skills"@.len() == 7);
    assert("/plan"@.len() == 5);
    assert("/todo"@.len() == 5);
    assert("/diff"@.len() == 5);
    assert("/review"@.len() == 7);
    assert("/commit-message"@.len() == 15);
    assert("/branch"@.len() == 7);
    assert("/rewind"@.len() == 7);
    assert("/resume"@.len() == 7);
    assert("/context"@[3] != "/compact"@[3]);
    assert("/tier"@[1] != "/plan"@[1]);
    assert("/tier"@[2] != "/todo"@[2]);
    assert("/tier"@[1] != "/diff"@[1]);
    assert("/status"@[2] != "/skills"@[2]);
    assert("/status"@[1] != "/review"@[1]);
    assert("/status"@[1] != "/branch"@[1]);
    assert("/status"@[1] != "/rewind"@[1]);
    assert("/status"@[1] != "/resume"@[1]);
    assert("/skills"@[1] != "/review"@[1]);
    assert("/skills"@[1] != "/branch"@[1]);
    assert("/skills"@[1] != "/rewind"@[1]);
    assert("/skills"@[1] != "/resume"@[1]);
    assert("/plan"@[1] != "/todo"@[1]);
    assert("/plan"@[1] != "/diff"@[1]);
    assert("/todo"@[1] != "/diff"@[1]);
    assert("/review"@[1] != "/branch"@[1]);
    assert("/review"@[3] != "/rewind"@[3]);
    assert("/review"@[3] != "/resume"@[3]);
    assert("/branch"@[1] != "/rewind"@[1]);
    assert("/branch"@[1] != "/resume"@[1]);
    assert("/rewind"@[3] != "/resume"@[3]);
}

/// The list of things to do changes as it is told: one is added at the end, still
/// open; the one with the number given is marked as told; or all are taken away.
pub proof fn law_things_to_do_change_as_told(
    rest: Seq<char>,
    todos: Seq<(Seq<char>, bool)>,
    tail: Seq<char>,
    n: nat,
)
    ensures
        ({
            let r = trimmed(rest);
            let t = trimmed(tail);
            let w = todo_wish(rest, todos);
            &&& cut_space(r) == Some(("add"@, tail)) && r.len() > 0 && t.len() > 0 ==> (
            w matches TodoWish::Update(items, _) && items == todos.push((t, false)))
            &&& cut_space(r) == Some(("done"@, tail)) && r.len() > 0 && parsed(t) == Some(n) && 1
                <= n <= todos.len() ==> (w matches TodoWish::Update(items, _) && items.len()
                == todos.len() && items[n - 1] == (todos[n - 1].0, true))
            &&& cut_space(r) == Some(("open"@, tail)) && r.len() > 0 && parsed(t) == Some(n) && 1
                <= n <= todos.len() ==> (w matches TodoWish::Update(items, _) && items.len()
                == todos.len() && items[n - 1] == (todos[n - 1].0, false))
            &&& cut_space(r) is None && r == "clear"@ ==> (w matches TodoWish::Update(items, _)
                && items.len() == 0)
        }),
{
    reveal_strlit("add");
    reveal_strlit("done");
    reveal_strlit("open");
    assert("add"@.len() == 3);
    assert("done"@.len() == 4);
    assert("open"@.len() == 4);
    assert("done"@[0] != "open"@[0]);
    reveal_strlit("clear");
}

/// A plan is taken as it is written, and only where it is accepted or edited.
pub proof fn law_plans_are_taken_as_written(rest: Seq<char>, text: Seq<char>)
    ensures
        plan_wish(rest) == PlanWish::Accept(text) ==> {
            &&& cut_space(trimmed(rest)) matches Some((action, tail)) && (action == "accept"@
                || action == "edit"@) && text == trimmed(tail)
            &&& text.len() > 0
        },
        plan_wish(rest) is Reject <==> trimmed(rest).len() > 0 && cut_space(trimmed(rest)) is None
            && trimmed(rest) == "reject"@,
        trimmed(rest).len() == 0 <==> plan_wish(rest) is Show,
{
}

} // verus!
