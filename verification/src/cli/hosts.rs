//! What a session is set up with: where scheduled prompts go, which servers of
//! tools are started, and which skills are on offer.
use vstd::prelude::*;

use crate::bytes::{byte_len, size};
use crate::definition::copy_text;
use crate::json::opt_view;
use crate::number::{decimal, to_decimal};
use crate::python_bridge::{json_read, read_json};
use crate::split::{extend, words, words_of};
use crate::text::{cat, cat3, owned, views};
use crate::trace::{json_member, payload_member};

verus! {

// ----- schedules -----
/// Where a scheduled prompt goes: on with a trace, on with a session of a name,
/// or into a fresh one.
#[derive(Debug)]
pub enum TriggerTarget {
    ResumeExisting { trace: String },
    NamedPersistent { dir: String, name: String },
    FreshSession { trace: String },
}

pub const TARGET_WANTED: &'static str = "choose exactly one schedule target: --trace, --session, or --fresh";

/// Where a scheduled prompt goes. Exactly one place must be chosen.
pub fn schedule_target(
    trace: Option<String>,
    session: Option<String>,
    sessions_dir: String,
    fresh: Option<String>,
) -> (r: Result<TriggerTarget, String>)
    ensures
        match (trace, session, fresh) {
            (Some(t), None, None) => r == Ok::<TriggerTarget, String>(
                TriggerTarget::ResumeExisting { trace: t },
            ),
            (None, Some(n), None) => r == Ok::<TriggerTarget, String>(
                TriggerTarget::NamedPersistent { dir: sessions_dir, name: n },
            ),
            (None, None, Some(t)) => r == Ok::<TriggerTarget, String>(
                TriggerTarget::FreshSession { trace: t },
            ),
            _ => r matches Err(m) && m@ == TARGET_WANTED@,
        },
{
    match (trace, session, fresh) {
        (Some(t), None, None) => Ok(TriggerTarget::ResumeExisting { trace: t }),
        (None, Some(n), None) => Ok(
            TriggerTarget::NamedPersistent { dir: sessions_dir, name: n },
        ),
        (None, None, Some(t)) => Ok(TriggerTarget::FreshSession { trace: t }),
        _ => Err(owned(TARGET_WANTED)),
    }
}

// ----- servers of tools -----
/// A server of tools to start: its name, the program, and the program's
/// arguments.
#[derive(Debug)]
pub struct McpServerConfig {
    pub name: String,
    pub program: String,
    pub args: Vec<String>,
}

/// What a [`McpServerConfig`] denotes.
pub struct McpServer {
    pub name: Seq<char>,
    pub program: Seq<char>,
    pub args: Seq<Seq<char>>,
}

impl View for McpServerConfig {
    type V = McpServer;

    open spec fn view(&self) -> McpServer {
        McpServer { name: self.name@, program: self.program@, args: views(self.args@) }
    }
}

/// The server that a command stands for: its first word is the program, and its
/// other words come before the extra arguments.
pub open spec fn server_of(name: Seq<char>, spec: Seq<char>, extra: Seq<Seq<char>>) -> Result<
    McpServer,
    Seq<char>,
> {
    let ws = words_of(spec);
    if ws.len() == 0 {
        Err("empty MCP command spec for `"@ + name + "`"@)
    } else {
        Ok(McpServer { name, program: ws[0], args: ws.skip(1) + extra })
    }
}

/// What a server, or the lack of one, denotes.
pub open spec fn server_outcome(r: Result<McpServerConfig, String>) -> Result<
    McpServer,
    Seq<char>,
> {
    match r {
        Ok(c) => Ok(c@),
        Err(e) => Err(e@),
    }
}

/// The server that a command stands for.
pub fn mcp_config_from_spec(name: &str, spec: &str, extra_args: &Vec<String>) -> (r: Result<
    McpServerConfig,
    String,
>)
    ensures
        server_outcome(r) == server_of(name@, spec@, views(extra_args@)),
{
    let ws = words(spec);
    let ghost all = words_of(spec@);
    if ws.len() == 0 {
        return Err(cat3("empty MCP command spec for `", name, "`"));
    }
    assert(all[0] == ws@[0]@);
    let mut args: Vec<String> = Vec::new();
    let mut i: usize = 1;
    while i < ws.len()
        invariant
            1 <= i <= ws@.len(),
            all == views(ws@),
            views(args@) =~= all.subrange(1, i as int),
        decreases ws.len() - i,
    {
        let ghost was = args@;
        args.push(ws[i].clone());
        assert(views(args@) =~= views(was).push(ws@[i as int]@));
        i = i + 1;
    }
    assert(views(args@) =~= all.skip(1));
    extend(&mut args, extra_args);
    Ok(McpServerConfig { name: owned(name), program: ws[0].clone(), args })
}

/// The section of a configuration that lists servers: `mcp`, else
/// `mcp_servers`.
pub open spec fn servers_section(root: serde_json::Value) -> Option<serde_json::Value> {
    match payload_member(root, "mcp"@) {
        Some(v) => Some(v),
        None => payload_member(root, "mcp_servers"@),
    }
}

/// Picks the section that lists servers out of a configuration.
pub fn pick_servers(root: &serde_json::Value) -> (r: Option<serde_json::Value>)
    ensures
        r == servers_section(*root),
{
    match json_member(root, "mcp") {
        Some(v) => Some(v),
        None => json_member(root, "mcp_servers"),
    }
}

/// The section that lists servers in the text of a configuration file, where it
/// has one.
pub fn mcp_section(text: &str) -> (r: Result<Option<serde_json::Value>, String>)
    ensures
        match json_read(text@) {
            Ok(root) => r == Ok::<Option<serde_json::Value>, String>(servers_section(root)),
            Err(e) => r matches Err(m) && m@ == e,
        },
{
    match read_json(text) {
        Ok(root) => Ok(pick_servers(&root)),
        Err(e) => Err(e),
    }
}

/// An entry of the configured servers: a command, or a record of one.
#[derive(Debug)]
pub enum McpConfigEntry {
    Spec(String),
    Object { name: Option<String>, command: String, args: Vec<String> },
}

/// The server that the entry at index `i` stands for. One without a name is
/// named by its place.
pub open spec fn entry_server(entry: McpConfigEntry, i: int) -> Result<McpServer, Seq<char>> {
    let numbered = "config"@ + decimal((i + 1) as nat);
    match entry {
        McpConfigEntry::Spec(spec) => server_of(numbered, spec@, Seq::empty()),
        McpConfigEntry::Object { name, command, args } => server_of(
            match name {
                Some(n) => n@,
                None => numbered,
            },
            command@,
            views(args@),
        ),
    }
}

/// The servers of the first `n` entries, or what is wrong with one.
pub open spec fn entry_servers(entries: Seq<McpConfigEntry>, n: int) -> Result<
    Seq<McpServer>,
    Seq<char>,
>
    decreases n,
{
    if n <= 0 {
        Ok(Seq::empty())
    } else {
        match entry_servers(entries, n - 1) {
            Err(e) => Err(e),
            Ok(servers) => match entry_server(entries[n - 1], n - 1) {
                Ok(s) => Ok(servers.push(s)),
                Err(e) => Err(e),
            },
        }
    }
}

proof fn lemma_entries_stop(entries: Seq<McpConfigEntry>, i: int, n: int)
    requires
        0 <= i <= n,
        entry_servers(entries, i) is Err,
    ensures
        entry_servers(entries, n) == entry_servers(entries, i),
    decreases n - i,
{
    if i < n {
        lemma_entries_stop(entries, i, n - 1);
    }
}

fn numbered(label: &str, i: usize) -> (r: String)
    requires
        i < usize::MAX,
    ensures
        r@ == label@ + decimal((i + 1) as nat),
{
    cat(label, to_decimal((i + 1) as u64).as_str())
}

fn entry_config(entry: &McpConfigEntry, i: usize) -> (r: Result<McpServerConfig, String>)
    requires
        i < usize::MAX,
    ensures
        server_outcome(r) == entry_server(*entry, i as int),
{
    match entry {
        McpConfigEntry::Spec(spec) => {
            let none: Vec<String> = Vec::new();
            assert(views(none@) =~= Seq::<Seq<char>>::empty());
            mcp_config_from_spec(numbered("config", i).as_str(), spec.as_str(), &none)
        },
        McpConfigEntry::Object { name, command, args } => {
            let name = match name {
                Some(n) => n.clone(),
                None => numbered("config", i),
            };
            mcp_config_from_spec(name.as_str(), command.as_str(), args)
        },
    }
}

/// The configured servers, or the first thing that is wrong with one.
pub fn parse_mcp_entries(entries: &Vec<McpConfigEntry>) -> (r: Result<Vec<McpServerConfig>, String>)
    ensures
        match r {
            Ok(c) => entry_servers(entries@, entries@.len() as int) == Ok::<
                Seq<McpServer>,
                Seq<char>,
            >(crate::definition::list_view(c@)),
            Err(e) => entry_servers(entries@, entries@.len() as int) == Err::<
                Seq<McpServer>,
                Seq<char>,
            >(e@),
        },
{
    let mut r: Vec<McpServerConfig> = Vec::new();
    assert(crate::definition::list_view(r@) =~= Seq::<McpServer>::empty());
    let mut i: usize = 0;
    while i < entries.len()
        invariant
            i <= entries@.len(),
            entry_servers(entries@, i as int) == Ok::<Seq<McpServer>, Seq<char>>(
                crate::definition::list_view(r@),
            ),
        decreases entries.len() - i,
    {
        match entry_config(&entries[i], i) {
            Ok(c) => {
                let ghost was = r@;
                let ghost v = c@;
                r.push(c);
                assert(crate::definition::list_view(r@) =~= crate::definition::list_view(was).push(
                    v,
                ));
            },
            Err(e) => {
                proof {
                    lemma_entries_stop(entries@, i + 1, entries@.len() as int);
                }
                return Err(e);
            },
        }
        i = i + 1;
    }
    Ok(r)
}

/// The server that the command at index `i` of the command line stands for.
pub fn cli_server(spec: &str, i: usize) -> (r: Result<McpServerConfig, String>)
    requires
        i < usize::MAX,
    ensures
        server_outcome(r) == server_of("cli"@ + decimal((i + 1) as nat), spec@, Seq::empty()),
{
    let none: Vec<String> = Vec::new();
    assert(views(none@) =~= Seq::<Seq<char>>::empty());
    mcp_config_from_spec(numbered("cli", i).as_str(), spec, &none)
}

// ----- skills -----
/// How many tokens a text is taken to be: one for every four bytes begun, and
/// never none.
pub open spec fn text_tokens(text: Seq<char>) -> int {
    let quarters = (size(text) + 3) / 4;
    if quarters < 1 {
        1
    } else if quarters > u32::MAX {
        u32::MAX as int
    } else {
        quarters as int
    }
}

/// How many tokens a text is taken to be.
pub fn estimate_text_tokens(text: &str) -> (r: u32)
    ensures
        r == text_tokens(text@),
{
    let bytes: u64 = byte_len(text) as u64;
    let whole: u64 = bytes / 4;
    let quarters: u64 = if bytes % 4 == 0 {
        whole
    } else {
        whole + 1
    };
    if quarters < 1 {
        1
    } else if quarters > u32::MAX as u64 {
        u32::MAX
    } else {
        quarters as u32
    }
}

/// A skill that a host found.
#[derive(Debug)]
pub struct SkillBundle {
    pub id: String,
    pub title: String,
    pub summary: Option<String>,
    pub instructions: String,
}

/// A skill as it is offered to the engine.
#[derive(Debug)]
pub struct SkillDescriptor {
    pub id: String,
    pub title: String,
    pub instructions: String,
    pub summary: Option<String>,
    pub est_tokens: u32,
}

/// The offer says what the skill says.
pub open spec fn offers(d: SkillDescriptor, s: SkillBundle) -> bool {
    &&& d.id@ == s.id@
    &&& d.title@ == s.title@
    &&& d.instructions@ == s.instructions@
    &&& opt_view(d.summary) == opt_view(s.summary)
    &&& d.est_tokens == text_tokens(s.instructions@)
}

/// The skills as they are offered to the engine, one for one.
pub fn skill_descriptors(skills: &Vec<SkillBundle>) -> (r: Vec<SkillDescriptor>)
    ensures
        r@.len() == skills@.len(),
        forall|i: int| 0 <= i < r@.len() ==> offers(#[trigger] r@[i], skills@[i]),
{
    let mut r: Vec<SkillDescriptor> = Vec::new();
    let mut i: usize = 0;
    while i < skills.len()
        invariant
            i <= skills@.len(),
            r@.len() == i,
            forall|k: int| 0 <= k < i ==> offers(#[trigger] r@[k], skills@[k]),
        decreases skills.len() - i,
    {
        let s = &skills[i];
        r.push(
            SkillDescriptor {
                id: s.id.clone(),
                title: s.title.clone(),
                instructions: s.instructions.clone(),
                summary: copy_text(&s.summary),
                est_tokens: estimate_text_tokens(s.instructions.as_str()),
            },
        );
        i = i + 1;
    }
    r
}

} // verus!
