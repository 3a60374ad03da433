//! From a grant of the library to what it registers.
use vstd::prelude::*;

use super::catalog::{library_entry, spec};
use super::disk::{root_refusal, Disk, FsRoot, NamedRoot};
use super::shell::{shell_scope, Shell, ShellScope};
use super::traces_read::{expanded, TracesRoot};
use crate::definition::{Grant, ToolGrant, ToolKind};
use crate::json::{member_set, opt_str_view, Data, Json, Members};
use crate::paths::{components, components_of, join_path, path_join, Component, Part};
use crate::text::{cat3, owned, same, views};

verus! {

/// Why a grant cannot be honoured.
#[derive(Debug)]
pub enum ToolError {
    /// The library has no tool of that name.
    Unknown(String),
    /// The tool is provided by someone else.
    NotLibrary(String),
    /// The configuration is not one that the tool takes.
    Config { tool: String, source: String },
}

/// What a [`ToolError`] denotes.
pub enum ToolRefusal {
    Unknown(Seq<char>),
    NotLibrary(Seq<char>),
    Config(Seq<char>, Seq<char>),
}

impl View for ToolError {
    type V = ToolRefusal;

    open spec fn view(&self) -> ToolRefusal {
        match self {
            ToolError::Unknown(name) => ToolRefusal::Unknown(name@),
            ToolError::NotLibrary(name) => ToolRefusal::NotLibrary(name@),
            ToolError::Config { tool, source } => ToolRefusal::Config(tool@, source@),
        }
    }
}

pub open spec fn tool_refusal_text(e: ToolRefusal) -> Seq<char> {
    match e {
        ToolRefusal::Unknown(name) => "unknown library tool `"@ + name
            + "` (not in the predefined tool library)"@,
        ToolRefusal::NotLibrary(name) => "`"@ + name
            + "` is an external tool grant, not a library tool"@,
        ToolRefusal::Config(tool, source) => "configuring library tool `"@ + tool + "`: "@
            + source,
    }
}

impl ToolError {
    /// The refusal in words.
    pub fn message(&self) -> (r: String)
        ensures
            r@ == tool_refusal_text(self@),
    {
        match self {
            ToolError::Unknown(name) => cat3(
                "unknown library tool `",
                name.as_str(),
                "` (not in the predefined tool library)",
            ),
            ToolError::NotLibrary(name) => cat3(
                "`",
                name.as_str(),
                "` is an external tool grant, not a library tool",
            ),
            ToolError::Config { tool, source } => {
                let mut s = cat3("configuring library tool `", tool.as_str(), "`: ");
                s.append(source.as_str());
                s
            },
        }
    }
}

/// What stands behind the tools of a grant.
#[derive(Debug)]
pub enum Backing {
    /// Nothing here: the runtime itself provides the tools, if there are any.
    Runtime,
    FsRead(FsRoot),
    /// The directory below which files may be written.
    FsWrite(String),
    Shell(Shell),
    TracesRead(TracesRoot),
    /// The configuration of the fetching tool.
    WebFetch(Data),
    /// The configuration of the searching tool.
    WebSearch(Data),
}

/// The tools that a grant registers, and what stands behind them.
#[derive(Debug)]
pub struct Granted {
    pub tools: Vec<String>,
    pub backing: Backing,
}

impl Granted {
    /// Whether a call of the tools needs permission: not of those that read, of
    /// the shell and of the fetching tool, which the grant itself allows. For the
    /// others it is for the host, which provides them, to say.
    pub fn requires_permission(&self) -> (r: Option<bool>)
        ensures
            r == match self.backing {
                Backing::FsRead(_) => Some(false),
                Backing::Shell(_) => Some(false),
                Backing::TracesRead(_) => Some(false),
                Backing::WebFetch(_) => Some(false),
                _ => None,
            },
    {
        match &self.backing {
            Backing::FsRead(_) => Some(false),
            Backing::Shell(_) => Some(false),
            Backing::TracesRead(_) => Some(false),
            Backing::WebFetch(_) => Some(false),
            _ => None,
        }
    }
}

/// The name under which the single root of a grant is addressed.
pub const SINGLE_ROOT: &'static str = "root";

/// The text that a configuration gives for `key`.
pub open spec fn scope_of(config: Json, key: Seq<char>) -> Seq<char> {
    match config.get_str(key) {
        Some(s) => s,
        None => "."@,
    }
}

fn scope(config: &Data, key: &str) -> (r: String)
    ensures
        r@ == scope_of(config@, key@),
{
    match config.get_str(key) {
        Some(s) => owned(s),
        None => owned("."),
    }
}

/// The path starts at a home directory.
pub open spec fn homeward(path: Seq<char>) -> bool {
    let parts = components_of(path);
    parts.len() > 0 && parts[0] == Part::Normal("~"@)
}

fn is_homeward(path: &str) -> (r: bool)
    ensures
        r == homeward(path@),
{
    let parts = components(path);
    let ghost all = components_of(path@);
    if parts.len() == 0 {
        return false;
    }
    assert(all[0] == parts@[0]@);
    match &parts[0] {
        Component::Normal(name) => same(name.as_str(), "~"),
        _ => false,
    }
}

/// An object with the member `key` holding `value`; anything else becomes an
/// object that holds nothing but that.
pub open spec fn with_member(config: Json, key: Seq<char>, value: Json) -> Json {
    match config {
        Json::Object(fields) => Json::Object(member_set(fields, key, value)),
        _ => Json::Object(member_set(Seq::empty(), key, value)),
    }
}

/// Sets a member of a configuration to a text.
pub fn set_object_string(config: Data, key: &str, value: &str) -> (r: Data)
    ensures
        r@ == with_member(config@, key@, Json::Str(value@)),
{
    let members = match config {
        Data::Object(list) => {
            proof {
                crate::json::lemma_object_view(list);
            }
            Members { list }
        },
        _ => Members::new(),
    };
    members.set(key, Data::string(value)).object()
}

/// The configuration of a shell with its working directory below `base`.
pub open spec fn shell_config(config: Json, base: Seq<char>) -> Json {
    match config.get_str("cwd"@) {
        Some(cwd) => if crate::paths::absolute(cwd) {
            config
        } else {
            with_member(config, "cwd"@, Json::Str(path_join(base, cwd)))
        },
        None => config,
    }
}

/// What comes of a grant.
pub open spec fn granted(
    r: Result<Granted, ToolError>,
    grant: Grant,
    base: Seq<char>,
    disk: &Disk,
    home: Option<Seq<char>>,
) -> bool {
    let name = grant.name;
    if grant.kind != ToolKind::Library {
        r matches Err(e) && e@ == ToolRefusal::NotLibrary(name)
    } else if name == "delegate"@ || name == "scratchpad"@ || name == "memory"@ {
        r matches Ok(g) && g.tools@.len() == 0 && g.backing is Runtime
    } else if name == "fs_read"@ {
        let path = path_join(base, scope_of(grant.config, "root"@));
        match r {
            Ok(g) => {
                &&& registers(g, name)
                &&& g.backing matches Backing::FsRead(root)
                &&& root@.len() == 1
                &&& root@[0].name == SINGLE_ROOT@
                &&& disk.canonical(path) == Some(root@[0].dir)
                &&& disk.is_dir(root@[0].dir)
            },
            Err(e) => match disk.canonical(path) {
                None => e@ == ToolRefusal::Config(name, "canonicalizing fs root "@ + path),
                Some(c) => !disk.is_dir(c) && e@ == ToolRefusal::Config(
                    name,
                    "fs root is not a directory: "@ + c,
                ),
            },
        }
    } else if name == "fs_write"@ {
        r matches Ok(g) && {
            &&& registers(g, name)
            &&& g.backing matches Backing::FsWrite(dir)
            &&& dir@ == path_join(base, scope_of(grant.config, "root"@))
        }
    } else if name == "shell"@ {
        match r {
            Ok(g) => {
                &&& registers(g, name)
                &&& g.backing matches Backing::Shell(s)
                &&& shell_scope(shell_config(grant.config, base)) == Ok::<ShellScope, Seq<char>>(
                    s@,
                )
            },
            Err(e) => shell_scope(shell_config(grant.config, base)) matches Err(why) && e@
                == ToolRefusal::Config(name, why),
        }
    } else if name == "traces_read"@ {
        let asked = scope_of(grant.config, "root"@);
        let path = expanded(
            if homeward(asked) {
                asked
            } else {
                path_join(base, asked)
            },
            home,
        );
        match r {
            Ok(g) => {
                &&& registers(g, name)
                &&& g.backing matches Backing::TracesRead(t)
                &&& disk.canonical(path) == Some(t.dir())
                &&& disk.is_dir(t.dir())
            },
            Err(e) => match disk.canonical(path) {
                None => e@ == ToolRefusal::Config(
                    name,
                    "canonicalizing traces_read root "@ + path,
                ),
                Some(c) => !disk.is_dir(c) && e@ == ToolRefusal::Config(
                    name,
                    "traces_read root is not a directory: "@ + c,
                ),
            },
        }
    } else if name == "web_fetch"@ {
        r matches Ok(g) && {
            &&& registers(g, name)
            &&& g.backing matches Backing::WebFetch(config)
            &&& config@ == grant.config
        }
    } else if name == "web_search"@ {
        r matches Ok(g) && {
            &&& registers(g, name)
            &&& g.backing matches Backing::WebSearch(config)
            &&& config@ == grant.config
        }
    } else {
        r matches Err(e) && e@ == ToolRefusal::Unknown(name)
    }
}

/// The grant registers the tools that the library lists for it.
pub open spec fn registers(g: Granted, name: Seq<char>) -> bool {
    library_entry(name) matches Some(entry) && views(g.tools@) == entry.tools
}

proof fn lemma_single_root(disk: &Disk, roots: Seq<NamedRoot>)
    requires
        roots.len() == 1,
        roots[0].name@ == SINGLE_ROOT@,
    ensures
        root_refusal(disk, roots, 0) == match disk.canonical(roots[0].path@) {
            None => Some("canonicalizing fs root "@ + roots[0].path@),
            Some(c) => if disk.is_dir(c) {
                None
            } else {
                Some("fs root is not a directory: "@ + c)
            },
        },
{
    reveal_strlit("root");
    reveal_strlit("/");
    let name = roots[0].name@;
    assert(name.len() == 4);
    crate::split::lemma_find(name, "/"@);
    if crate::split::holds(name, "/"@) {
        let i = crate::split::find(name, "/"@)->0;
        assert(crate::split::occurs_at(name, "/"@, i));
        assert(name.subrange(i, i + 1)[0] == name[i]);
        assert("/"@[0] == '/');
        assert(name[0] == 'r' && name[1] == 'o' && name[2] == 'o' && name[3] == 't');
        assert(false);
    }
    assert(roots.take(0).map_values(|r: NamedRoot| r.name@) =~= Seq::<Seq<char>>::empty());
    reveal_with_fuel(root_refusal, 2);
}

fn listed(name: &str) -> (r: Vec<String>)
    requires
        library_entry(name@) is Some,
    ensures
        library_entry(name@) matches Some(entry) && views(r@) == entry.tools,
{
    match spec(name) {
        Some(s) => s.tools,
        None => Vec::new(),
    }
}

proof fn lemma_in_library()
    ensures
        library_entry("fs_read"@) is Some,
        library_entry("fs_write"@) is Some,
        library_entry("shell"@) is Some,
        library_entry("traces_read"@) is Some,
        library_entry("web_fetch"@) is Some,
        library_entry("web_search"@) is Some,
{
    reveal_with_fuel(super::catalog::entry_from, 10);
    let l = super::catalog::library();
    assert(l[0].id == "fs_read"@);
    assert(l[1].id == "fs_write"@);
    assert(l[2].id == "shell"@);
    assert(l[5].id == "traces_read"@);
    assert(l[6].id == "web_fetch"@);
    assert(l[7].id == "web_search"@);
}

/// What a grant of the library registers. Paths in its configuration are
/// taken below `base_dir`.
pub fn build_library_grant(
    grant: &ToolGrant,
    base_dir: &str,
    disk: &Disk,
    home: Option<&str>,
) -> (r: Result<Granted, ToolError>)
    ensures
        granted(r, grant@, base_dir@, disk, opt_str_view(home)),
{
    let name = grant.name.as_str();
    match grant.kind {
        ToolKind::Library => {},
        _ => {
            return Err(ToolError::NotLibrary(owned(name)));
        },
    }
    proof {
        lemma_in_library();
    }
    if same(name, "delegate") || same(name, "scratchpad") || same(name, "memory") {
        return Ok(Granted { tools: Vec::new(), backing: Backing::Runtime });
    }
    if same(name, "fs_read") {
        let path = join_path(base_dir, scope(&grant.config, "root").as_str());
        let mut roots: Vec<NamedRoot> = Vec::new();
        roots.push(NamedRoot { name: owned(SINGLE_ROOT), path });
        proof {
            lemma_single_root(disk, roots@);
        }
        let ghost rs = roots@;
        return match FsRoot::with_named(disk, roots) {
            Ok(root) => {
                assert(root@[0].name == rs[0].name@);
                Ok(Granted { tools: listed("fs_read"), backing: Backing::FsRead(root) })
            },
            Err(e) => Err(ToolError::Config { tool: owned(name), source: e }),
        };
    }
    if same(name, "fs_write") {
        let path = join_path(base_dir, scope(&grant.config, "root").as_str());
        return Ok(Granted { tools: listed("fs_write"), backing: Backing::FsWrite(path) });
    }
    if same(name, "shell") {
        let mut config = grant.config.copy();
        let place = match config.get_str("cwd") {
            Some(cwd) => if crate::paths::is_absolute(cwd) {
                None
            } else {
                Some(join_path(base_dir, cwd))
            },
            None => None,
        };
        if let Some(path) = place {
            config = set_object_string(config, "cwd", path.as_str());
        }
        return match Shell::from_config(&config) {
            Ok(s) => Ok(Granted { tools: listed("shell"), backing: Backing::Shell(s) }),
            Err(e) => Err(ToolError::Config { tool: owned(name), source: e }),
        };
    }
    if same(name, "traces_read") {
        let asked = scope(&grant.config, "root");
        let path = if is_homeward(asked.as_str()) {
            asked
        } else {
            join_path(base_dir, asked.as_str())
        };
        return match TracesRoot::new(disk, path.as_str(), home) {
            Ok(t) => Ok(Granted { tools: listed("traces_read"), backing: Backing::TracesRead(t) }),
            Err(e) => Err(ToolError::Config { tool: owned(name), source: e }),
        };
    }
    if same(name, "web_fetch") {
        return Ok(
            Granted {
                tools: listed("web_fetch"),
                backing: Backing::WebFetch(grant.config.copy()),
            },
        );
    }
    if same(name, "web_search") {
        return Ok(
            Granted {
                tools: listed("web_search"),
                backing: Backing::WebSearch(grant.config.copy()),
            },
        );
    }
    Err(ToolError::Unknown(owned(name)))
}

/// Why a grant of the library cannot be honoured, if it cannot.
pub open spec fn library_refusal(
    grant: Grant,
    base: Seq<char>,
    disk: &Disk,
    home: Option<Seq<char>>,
) -> Option<ToolRefusal> {
    let name = grant.name;
    let asked = scope_of(grant.config, "root"@);
    if grant.kind != ToolKind::Library {
        Some(ToolRefusal::NotLibrary(name))
    } else if name == "fs_read"@ {
        let path = path_join(base, asked);
        match disk.canonical(path) {
            None => Some(ToolRefusal::Config(name, "canonicalizing fs root "@ + path)),
            Some(c) => if disk.is_dir(c) {
                None
            } else {
                Some(ToolRefusal::Config(name, "fs root is not a directory: "@ + c))
            },
        }
    } else if name == "shell"@ {
        match shell_scope(shell_config(grant.config, base)) {
            Ok(_) => None,
            Err(why) => Some(ToolRefusal::Config(name, why)),
        }
    } else if name == "traces_read"@ {
        let path = expanded(
            if homeward(asked) {
                asked
            } else {
                path_join(base, asked)
            },
            home,
        );
        match disk.canonical(path) {
            None => Some(ToolRefusal::Config(name, "canonicalizing traces_read root "@ + path)),
            Some(c) => if disk.is_dir(c) {
                None
            } else {
                Some(ToolRefusal::Config(name, "traces_read root is not a directory: "@ + c))
            },
        }
    } else if name == "delegate"@ || name == "scratchpad"@ || name == "memory"@ || name
        == "fs_write"@ || name == "web_fetch"@ || name == "web_search"@ {
        None
    } else {
        Some(ToolRefusal::Unknown(name))
    }
}

/// A grant is honoured if and only if nothing speaks against it, and else what
/// speaks against it is said.
pub proof fn law_grants_are_honoured_or_refused(
    r: Result<Granted, ToolError>,
    grant: Grant,
    base: Seq<char>,
    disk: &Disk,
    home: Option<Seq<char>>,
)
    requires
        granted(r, grant, base, disk, home),
    ensures
        match r {
            Ok(_) => library_refusal(grant, base, disk, home) is None,
            Err(e) => library_refusal(grant, base, disk, home) == Some(e@),
        },
{
    reveal_strlit("fs_read");
    reveal_strlit("shell");
    reveal_strlit("traces_read");
    reveal_strlit("delegate");
    reveal_strlit("scratchpad");
    reveal_strlit("memory");
    reveal_strlit("fs_write");
    assert("fs_write"@.len() == 8);
    assert("fs_read"@.len() == 7 && "shell"@.len() == 5 && "traces_read"@.len() == 11
        && "delegate"@.len() == 8 && "scratchpad"@.len() == 10 && "memory"@.len() == 6);
}

/// A tool is confined to the directory that its grant names from the directory of the
/// definition, and to that directory itself where none is named.
pub proof fn law_grants_are_confined_to_their_root(
    g: Granted,
    grant: Grant,
    base: Seq<char>,
    disk: &Disk,
    home: Option<Seq<char>>,
)
    requires
        granted(Ok(g), grant, base, disk, home),
        grant.kind == ToolKind::Library,
    ensures
        ({
            let root = match grant.config.get_str("root"@) {
                Some(r) => path_join(base, r),
                None => path_join(base, "."@),
            };
            &&& grant.name == "fs_read"@ ==> (g.backing matches Backing::FsRead(r) && r@.len() == 1
                && disk.canonical(root) == Some(r@[0].dir) && disk.is_dir(r@[0].dir))
            &&& grant.name == "fs_write"@ ==> (g.backing matches Backing::FsWrite(dir) && dir@
                == root)
            &&& grant.name == "web_fetch"@ ==> (g.backing matches Backing::WebFetch(c) && c@
                == grant.config)
            &&& grant.name == "web_search"@ ==> (g.backing matches Backing::WebSearch(c) && c@
                == grant.config)
            &&& grant.name == "shell"@ ==> g.backing is Shell
            &&& grant.name == "traces_read"@ ==> g.backing is TracesRead
        }),
{
    reveal_strlit("delegate");
    reveal_strlit("scratchpad");
    reveal_strlit("memory");
    reveal_strlit("fs_read");
    reveal_strlit("fs_write");
    reveal_strlit("shell");
    reveal_strlit("traces_read");
    reveal_strlit("web_fetch");
    reveal_strlit("web_search");
    assert("delegate"@.len() == 8);
    assert("scratchpad"@.len() == 10);
    assert("memory"@.len() == 6);
    assert("fs_read"@.len() == 7);
    assert("fs_write"@.len() == 8);
    assert("shell"@.len() == 5);
    assert("traces_read"@.len() == 11);
    assert("web_fetch"@.len() == 9);
    assert("web_search"@.len() == 10);
    assert("delegate"@[0] != "fs_write"@[0]);
    assert("scratchpad"@[0] != "web_search"@[0]);
}

/// A shell starts in the directory that its grant names, taken from the directory of
/// the definition; the rest of its configuration stays as it is.
pub proof fn law_shells_start_below_the_definition(
    fields: Seq<crate::json::Field>,
    base: Seq<char>,
    cwd: Seq<char>,
    other: Seq<char>,
)
    requires
        Json::Object(fields).get_str("cwd"@) == Some(cwd),
        other != "cwd"@,
    ensures
        ({
            let c = shell_config(Json::Object(fields), base);
            &&& !crate::paths::absolute(cwd) ==> c.get_str("cwd"@) == Some(path_join(base, cwd))
            &&& crate::paths::absolute(cwd) ==> c.get_str("cwd"@) == Some(cwd)
            &&& c.get(other) == Json::Object(fields).get(other)
        }),
{
    crate::json::law_set_members_are_found(
        fields,
        "cwd"@,
        Json::Str(path_join(base, cwd)),
        other,
    );
}

} // verus!
