//! The command that makes, builds and inspects agents: what is asked of it, and
//! what it says.
use vstd::prelude::*;

use crate::agent::analytics::StatsOptions;
use crate::build::python::PythonBuildOutcome;
use crate::build::BuildOutcome;
use crate::names::{keep, kept};
use crate::number::{decimal, to_decimal};
use crate::paths::{join_path, path_join};
use crate::scaffold::Template;
use crate::split::among;
use crate::text::{cat, cat3, cat5, chars_of, same, text_range, views};
use crate::trace::TraceId;

verus! {

// ----- building -----
/// What is to be built. The Python package needs the program, so it covers
/// both.
#[derive(Clone, Copy, Debug, PartialEq, Eq, Structural)]
pub enum Surface {
    Nothing,
    Program,
    Package,
}

/// A surface that there is.
pub open spec fn known_surface(s: Seq<char>) -> bool {
    s == "cli"@ || s == "python"@
}

/// The first surface from index `i` on that there is not.
pub open spec fn unknown_surface(list: Seq<Seq<char>>, i: int) -> Option<Seq<char>>
    decreases list.len() - i,
{
    if i < 0 || i >= list.len() {
        None
    } else if known_surface(list[i]) {
        unknown_surface(list, i + 1)
    } else {
        Some(list[i])
    }
}

/// What is to be built for a list of surfaces.
pub open spec fn surface_of(list: Seq<Seq<char>>) -> Surface {
    if list.contains("python"@) {
        Surface::Package
    } else if list.contains("cli"@) {
        Surface::Program
    } else {
        Surface::Nothing
    }
}

/// What is to be built for a list of surfaces, all of which there must be.
pub fn requested_surface(surfaces: &Vec<String>) -> (r: Result<Surface, String>)
    ensures
        match unknown_surface(views(surfaces@), 0) {
            Some(s) => r matches Err(m) && m@ == "unknown surface `"@ + s
                + "` (expected cli | python)"@,
            None => r == Ok::<Surface, String>(surface_of(views(surfaces@))),
        },
{
    let ghost all = views(surfaces@);
    let mut i: usize = 0;
    while i < surfaces.len()
        invariant
            i <= surfaces@.len(),
            all == views(surfaces@),
            unknown_surface(all, 0) == unknown_surface(all, i as int),
        decreases surfaces.len() - i,
    {
        assert(all[i as int] == surfaces@[i as int]@);
        let s = surfaces[i].as_str();
        if !same(s, "cli") && !same(s, "python") {
            return Err(cat3("unknown surface `", s, "` (expected cli | python)"));
        }
        i = i + 1;
    }
    if among(surfaces, "python") {
        Ok(Surface::Package)
    } else if among(surfaces, "cli") {
        Ok(Surface::Program)
    } else {
        Ok(Surface::Nothing)
    }
}

/// Where a build goes: where it is told to, else below the agent.
pub fn build_dir(out: Option<String>, agent_dir: &str) -> (r: String)
    ensures
        r@ == match out {
            Some(o) => o@,
            None => path_join(agent_dir@, "dist"@),
        },
{
    match out {
        Some(o) => o,
        None => join_path(agent_dir, "dist"),
    }
}

/// What is said of a program that was built.
pub fn built_text(outcome: &BuildOutcome) -> (r: String)
    ensures
        r@ == "built "@ + outcome.binary@ + " ✓\nrun it: "@ + outcome.binary@
            + " \"<question>\"  (self-contained; no repo checkout needed)\nserve MCP: "@
            + outcome.binary@
            + " --mcp-serve  (register this stdio command in your MCP client)\n"@,
{
    let mut s = cat5(
        "built ",
        outcome.binary.as_str(),
        " ✓\nrun it: ",
        outcome.binary.as_str(),
        " \"<question>\"  (self-contained; no repo checkout needed)\nserve MCP: ",
    );
    s.append(outcome.binary.as_str());
    s.append(" --mcp-serve  (register this stdio command in your MCP client)\n");
    s
}

/// What is said of a package that was built.
pub open spec fn packaged(outcome: PythonBuildOutcome) -> Seq<char> {
    "built python surface ✓ ("@ + outcome.crate_dir@ + ")\n"@ + (match outcome.wheel {
        Some(w) => "install it: pip install "@ + w@ + "  (then `import "@ + outcome.module@
            + "`)\n"@,
        None => "build the wheel: (cd "@ + outcome.crate_dir@ + " && maturin build --release)\n"@,
    })
}

/// What is said of a package that was built.
pub fn packaged_text(outcome: &PythonBuildOutcome) -> (r: String)
    ensures
        r@ == packaged(*outcome),
{
    let next = match &outcome.wheel {
        Some(w) => cat5(
            "install it: pip install ",
            w.as_str(),
            "  (then `import ",
            outcome.module.as_str(),
            "`)\n",
        ),
        None => cat3(
            "build the wheel: (cd ",
            outcome.crate_dir.as_str(),
            " && maturin build --release)\n",
        ),
    };
    let mut s = cat3("built python surface ✓ (", outcome.crate_dir.as_str(), ")\n");
    s.append(next.as_str());
    s
}

/// What is said of a new agent.
pub fn created_text(dir: &str, template: Template) -> (r: String)
    ensures
        r@ == "created "@ + dir@ + " ("@ + template.name()
            + " template)\nnext: export your provider key, then `huggr run "@ + dir@
            + " \"<question>\"`\n"@,
{
    let mut s = cat5(
        "created ",
        dir,
        " (",
        template.as_str(),
        " template)\nnext: export your provider key, then `huggr run ",
    );
    s.append(dir);
    s.append(" \"<question>\"`\n");
    s
}

/// The template of a name, or why there is none.
pub fn requested_template(name: &str) -> (r: Result<Template, String>)
    ensures
        match crate::scaffold::template_named(name@) {
            Some(t) => r == Ok::<Template, String>(t),
            None => r matches Err(m) && m@ == "unknown template `"@ + name@
                + "` (expected weather | blank)"@,
        },
{
    match Template::parse(name) {
        Some(t) => Ok(t),
        None => Err(cat3("unknown template `", name, "` (expected weather | blank)")),
    }
}

// ----- running -----
/// The digits of a number in base sixteen, at least `width` of them.
pub open spec fn hex_digits(n: nat, width: nat) -> Seq<char>
    decreases n + width,
{
    if n == 0 && width == 0 {
        Seq::empty()
    } else {
        hex_digits(
            n / 16,
            if width == 0 {
                0
            } else {
                (width - 1) as nat
            },
        ).push(hex_digit((n % 16) as int))
    }
}

pub open spec fn hex_digit(d: int) -> char {
    if d < 10 {
        (48 + d) as char
    } else {
        (87 + d) as char
    }
}

fn to_hex_digit(d: u64) -> (r: char)
    requires
        d < 16,
    ensures
        r == hex_digit(d as int),
{
    let b: u8 = d as u8;
    if b < 10 {
        (48 + b) as char
    } else {
        (87 + b) as char
    }
}

fn to_hex(n: u64, width: usize) -> (r: String)
    ensures
        r@ == hex_digits(n as nat, width as nat),
    decreases n + width,
{
    if n == 0 && width == 0 {
        let s = String::new();
        assert(s@ =~= Seq::<char>::empty());
        s
    } else {
        let w: usize = if width == 0 {
            0
        } else {
            width - 1
        };
        let mut s = to_hex(n / 16, w);
        s.push(to_hex_digit(n % 16));
        s
    }
}

/// Where an agent with an answer type of its own is built to be run: by its
/// name, and by the hash of where it is.
pub open spec fn run_dir(temp_dir: Seq<char>, name: Seq<char>, hash: u64) -> Seq<char> {
    path_join(
        path_join(temp_dir, "huggr-run"@),
        kept(name, true, true, '_') + "-"@ + hex_digits(hash as nat, 16),
    )
}

/// Where an agent with an answer type of its own is built to be run.
pub fn typed_run_out_dir(temp_dir: &str, agent_name: &str, hash: u64) -> (r: String)
    ensures
        r@ == run_dir(temp_dir@, agent_name@, hash),
{
    let safe = keep(agent_name, true, true, '_');
    let leaf = cat3(safe.as_str(), "-", to_hex(hash, 16).as_str());
    join_path(join_path(temp_dir, "huggr-run").as_str(), leaf.as_str())
}

/// Answers are laid out for reading unless JSON is asked for.
pub fn is_pretty(args: &Vec<String>) -> (r: bool)
    ensures
        r == !views(args@).contains("--json"@),
{
    !among(args, "--json")
}

/// What is said where a built program cannot be run.
pub fn run_failure(binary: &str, e: &str) -> (r: String)
    ensures
        r@ == "running typed response shim "@ + binary@ + ": "@ + e@,
{
    let mut s = cat3("running typed response shim ", binary, ": ");
    s.append(e);
    s
}

/// Which asks are counted.
pub fn stats_options(since: Option<String>, trace: Option<String>) -> (r: StatsOptions)
    ensures
        match since {
            Some(id) => r.since matches Some(t) && t@ == id@,
            None => r.since is None,
        },
        match trace {
            Some(id) => r.trace matches Some(t) && t@ == id@,
            None => r.trace is None,
        },
{
    let since = match since {
        Some(id) => Some(TraceId::new(id.as_str())),
        None => None,
    };
    let trace = match trace {
        Some(id) => Some(TraceId::new(id.as_str())),
        None => None,
    };
    StatsOptions { since, trace }
}

// ----- replaying -----
/// The index of the first character from `i` on that ends a name.
pub open spec fn name_end(s: Seq<char>, i: int) -> int
    decreases s.len() - i,
{
    if i < 0 || i >= s.len() || s[i] == '{' || s[i] == '(' || s[i] == ' ' {
        i
    } else {
        name_end(s, i + 1)
    }
}

/// The kind of an event: the name that the text which stands for it starts
/// with.
pub fn event_kind(debug: &str) -> (r: String)
    ensures
        r@ == debug@.take(name_end(debug@, 0)),
        0 <= name_end(debug@, 0) <= debug@.len(),
{
    let v = chars_of(debug);
    let mut i: usize = 0;
    while i < v.len() && v[i] != '{' && v[i] != '(' && v[i] != ' '
        invariant
            i <= v@.len(),
            v@ == debug@,
            name_end(debug@, 0) == name_end(debug@, i as int),
        decreases v.len() - i,
    {
        i = i + 1;
    }
    assert(v@.subrange(0, i as int) =~= debug@.take(i as int));
    text_range(&v, 0, i)
}

/// The line for one replayed event.
pub open spec fn replay_line(
    i: int,
    total: nat,
    kind: Seq<char>,
    commands: nat,
    entries: nat,
) -> Seq<char> {
    "["@ + decimal((i + 1) as nat) + "/"@ + decimal(total) + "] event="@ + kind + " → "@ + decimal(
        commands,
    ) + " command(s), "@ + decimal(entries) + " log entr(ies)\n"@
}

/// The line for one replayed event, the one at index `i` of so many.
pub fn replayed_event(i: usize, total: usize, kind: &str, commands: usize, entries: usize) -> (r:
    String)
    requires
        i < total,
    ensures
        r@ == replay_line(i as int, total as nat, kind@, commands as nat, entries as nat),
{
    let mut s = cat("[", to_decimal((i + 1) as u64).as_str());
    s.append("/");
    s.append(to_decimal(total as u64).as_str());
    s.append("] event=");
    s.append(kind);
    s.append(" → ");
    s.append(to_decimal(commands as u64).as_str());
    s.append(" command(s), ");
    s.append(to_decimal(entries as u64).as_str());
    s.append(" log entr(ies)\n");
    s
}

/// The sum of a list of counts.
pub open spec fn total_of(counts: Seq<usize>, n: int) -> nat
    decreases n,
{
    if n <= 0 {
        0
    } else {
        total_of(counts, n - 1) + counts[n - 1] as nat
    }
}

proof fn lemma_total(counts: Seq<usize>, n: int, m: int)
    requires
        0 <= n <= m <= counts.len(),
    ensures
        total_of(counts, n) <= total_of(counts, m),
    decreases m - n,
{
    if n < m {
        lemma_total(counts, n, m - 1);
    }
}

/// What is said of a replay: how many events, how many commands they led to,
/// and how many entries the log has.
pub fn replayed_text(commands: &Vec<usize>, entries: usize) -> (r: String)
    requires
        total_of(commands@, commands@.len() as int) <= u64::MAX,
    ensures
        r@ == "replayed "@ + decimal(commands@.len()) + " event(s), "@ + decimal(
            total_of(commands@, commands@.len() as int),
        ) + " command(s), "@ + decimal(entries as nat) + " log entr(ies)\n"@,
{
    let mut total: u64 = 0;
    let mut i: usize = 0;
    while i < commands.len()
        invariant
            i <= commands@.len(),
            total_of(commands@, commands@.len() as int) <= u64::MAX,
            total == total_of(commands@, i as int),
        decreases commands.len() - i,
    {
        proof {
            lemma_total(commands@, i + 1, commands@.len() as int);
        }
        total = total + commands[i] as u64;
        i = i + 1;
    }
    let mut s = cat("replayed ", to_decimal(commands.len() as u64).as_str());
    s.append(" event(s), ");
    s.append(to_decimal(total).as_str());
    s.append(" command(s), ");
    s.append(to_decimal(entries as u64).as_str());
    s.append(" log entr(ies)\n");
    s
}

} // verus!
