//! New agents: the files of a crate that works as it stands, to be edited.
use vstd::prelude::*;

use crate::build::TextFile;
use crate::names::{rust_name_of, sanitize_rust_name};
use crate::paths::{join_path, path_join};
use crate::split::{replace, replaced};
use crate::text::{cat, cat3, cat5, owned, same};

verus! {

/// What a new agent starts from: one that answers about the weather by fetching
/// from two hosts, or one with nothing but a scratchpad.
#[derive(Clone, Copy, Debug, PartialEq, Eq, Structural)]
pub enum Template {
    Weather,
    Blank,
}

/// The template of a name.
pub open spec fn template_named(name: Seq<char>) -> Option<Template> {
    if name == "weather"@ {
        Some(Template::Weather)
    } else if name == "blank"@ {
        Some(Template::Blank)
    } else {
        None
    }
}

impl Template {
    /// The name of a template.
    pub open spec fn name(self) -> Seq<char> {
        match self {
            Template::Weather => "weather"@,
            Template::Blank => "blank"@,
        }
    }

    /// The template of a name.
    pub fn parse(name: &str) -> (r: Option<Template>)
        ensures
            r == template_named(name@),
    {
        if same(name, "weather") {
            Some(Template::Weather)
        } else if same(name, "blank") {
            Some(Template::Blank)
        } else {
            None
        }
    }

    /// The name of the template.
    pub fn as_str(&self) -> (r: &'static str)
        ensures
            r@ == self.name(),
    {
        match self {
            Template::Weather => "weather",
            Template::Blank => "blank",
        }
    }
}

/// Each template is found by its name.
pub proof fn law_templates_have_names(t: Template)
    ensures
        template_named(t.name()) == Some(t),
{
    reveal_strlit("weather");
    reveal_strlit("blank");
    assert("weather"@.len() == 7 && "blank"@.len() == 5);
}

/// One file of a new agent: its path below the agent's folder, and its text.
#[derive(Debug)]
pub struct ScaffoldFile {
    pub rel_path: String,
    pub contents: String,
}

impl View for ScaffoldFile {
    type V = (Seq<char>, Seq<char>);

    open spec fn view(&self) -> (Seq<char>, Seq<char>) {
        (self.rel_path@, self.contents@)
    }
}

/// What files denote: their paths and texts.
pub open spec fn files_view(files: Seq<ScaffoldFile>) -> Seq<(Seq<char>, Seq<char>)> {
    files.map_values(|f: ScaffoldFile| f@)
}

/// Why no new agent was made.
#[derive(Debug)]
pub enum ScaffoldError {
    Exists(String),
    Io { path: String, source: String },
}

impl ScaffoldError {
    pub open spec fn text(self) -> Seq<char> {
        match self {
            ScaffoldError::Exists(path) => "target folder already exists: "@ + path@,
            ScaffoldError::Io { path, source } => "writing "@ + path@ + ": "@ + source@,
        }
    }

    /// The refusal in words.
    pub fn message(&self) -> (r: String)
        ensures
            r@ == self.text(),
    {
        match self {
            ScaffoldError::Exists(path) => cat("target folder already exists: ", path.as_str()),
            ScaffoldError::Io { path, source } => {
                let mut s = cat3("writing ", path.as_str(), ": ");
                s.append(source.as_str());
                s
            },
        }
    }
}

// ----- the template about the weather -----
pub const WEATHER_CARGO: &'static str = "[package]
name = \"huglet-weather\"
version = \"0.1.0\"
edition = \"2024\"

[dependencies]
serde = { version = \"1\", features = [\"derive\"] }
schemars = \"1\"
";

pub const WEATHER_LIB: &'static str = "//! Rust response contract and extension point for the `huglet-weather` Huggr agent.

use schemars::JsonSchema;
use serde::{Deserialize, Serialize};

pub const RESPONSE_RUST_TYPE: &str = \"huglet_weather::Response\";

#[derive(Clone, Debug, PartialEq, Eq, Serialize, Deserialize, JsonSchema)]
#[serde(deny_unknown_fields)]
pub struct Response {
    pub response: String,
}
";

pub const WEATHER_MANIFEST: &'static str = "# Huggr agent definition. Run it from this folder with:
#   huggr run . \"Will it rain in Lisbon tomorrow?\"
# The first `huggr` run creates ~/.huggr/models.toml. Set the key named there.

[agent]
name = \"huglet-weather\"
version = \"0.1.0\"
description = \"Answers questions about the weather anywhere.\"

[models]
default = \"balanced\"

# The only tool: fetching from these hosts, which need no key.
[tools.web_fetch]
allow_hosts = [\"api.open-meteo.com\", \"geocoding-api.open-meteo.com\"]
";

pub const WEATHER_SYSTEM: &'static str = "You are **{{agent_name}}**. You are a focused huglet. Answer the user's question about the weather.

Find the coordinates of the place first:
https://geocoding-api.open-meteo.com/v1/search?name=<place>&count=1

Then fetch the forecast for them:
https://api.open-meteo.com/v1/forecast?latitude=<latitude>&longitude=<longitude>&current_weather=true&daily=temperature_2m_max,temperature_2m_min,precipitation_probability_max&timezone=auto

Answer in one or two sentences, with units. Say so where a place cannot be found.
";

pub const WEATHER_README: &'static str = "# huglet-weather

A Huggr agent that answers questions about the weather. It may fetch from the
two Open-Meteo hosts named in `huggr.toml` and do nothing else, and it needs no
folder of data.

1. Run `huggr run . \"Will it rain in Lisbon tomorrow?\"` from this folder.
2. Edit `SYSTEM.md` to say what it should do, and `huggr.toml` to say what it may.
3. Run `huggr build .` to make one program of it.
";

/// The package that a new agent's crate is.
pub open spec fn package_of(name: Seq<char>) -> Seq<char> {
    rust_name_of(name, '-')
}

/// The name by which code speaks of a new agent's crate.
pub open spec fn crate_of(name: Seq<char>) -> Seq<char> {
    replaced(package_of(name), "-"@, "_"@)
}

/// A text of the template, for an agent of another name.
pub open spec fn substituted(text: Seq<char>, name: Seq<char>) -> Seq<char> {
    replaced(
        replaced(text, "huglet_weather"@, crate_of(name)),
        "huglet-weather"@,
        package_of(name),
    )
}

/// The name by which code speaks of a new agent's crate.
pub fn crate_name_for(name: &str) -> (r: String)
    ensures
        r@ == crate_of(name@),
{
    proof {
        reveal_strlit("-");
    }
    let package = sanitize_rust_name(name, '-');
    replace(package.as_str(), "-", "_")
}

fn substitute(text: &str, name: &str) -> (r: String)
    ensures
        r@ == substituted(text@, name@),
{
    proof {
        reveal_strlit("huglet_weather");
        reveal_strlit("huglet-weather");
    }
    let package = sanitize_rust_name(name, '-');
    let crate_name = crate_name_for(name);
    let s = replace(text, "huglet_weather", crate_name.as_str());
    replace(s.as_str(), "huglet-weather", package.as_str())
}

fn file(path: &str, contents: String) -> (r: ScaffoldFile)
    ensures
        r@ == (path@, contents@),
{
    ScaffoldFile { rel_path: owned(path), contents }
}

/// The files of the template about the weather.
pub open spec fn weather_of(name: Seq<char>) -> Seq<(Seq<char>, Seq<char>)> {
    Seq::empty().push(("Cargo.toml"@, substituted(WEATHER_CARGO@, name))).push(
        ("src/lib.rs"@, substituted(WEATHER_LIB@, name)),
    ).push(("huggr.toml"@, substituted(WEATHER_MANIFEST@, name))).push(
        ("SYSTEM.md"@, WEATHER_SYSTEM@),
    ).push(("README.md"@, substituted(WEATHER_README@, name)))
}

/// The files of the template about the weather, for an agent of this name.
pub fn weather_files(name: &str) -> (r: Vec<ScaffoldFile>)
    ensures
        files_view(r@) == weather_of(name@),
{
    let mut files: Vec<ScaffoldFile> = Vec::new();
    files.push(file("Cargo.toml", substitute(WEATHER_CARGO, name)));
    files.push(file("src/lib.rs", substitute(WEATHER_LIB, name)));
    files.push(file("huggr.toml", substitute(WEATHER_MANIFEST, name)));
    files.push(file("SYSTEM.md", owned(WEATHER_SYSTEM)));
    files.push(file("README.md", substitute(WEATHER_README, name)));
    assert(files_view(files@) =~= weather_of(name@));
    files
}

// ----- the blank template -----
pub const BLANK_MANIFEST_HEAD: &'static str = "# Huggr agent definition — edit, then run with:
#   ";

pub const BLANK_MANIFEST_AGENT: &'static str = " <question>            (a built binary)
#   huggr run . \"<question>\"      (from this folder)
# The first `huggr` run creates ~/.huggr/models.toml. Set the key named there.

[agent]
name = \"";

pub const BLANK_MANIFEST_TAIL: &'static str = "\"
version = \"0.1.0\"
description = \"TODO: one line describing what this agent answers.\"

[models]
default = \"balanced\"

# No external tools — this agent has only its scratchpad. Add a
# library grant here, e.g. [tools.fs_read] root = \"./data\".

# Limits are opt-in (unset = unbounded). Cap an ask with e.g.:
# [limits]
# max_cost_micro_usd = 50000
";

pub const BLANK_CARGO_TAIL: &'static str = "\"
version = \"0.1.0\"
edition = \"2024\"

[dependencies]
serde = { version = \"1\", features = [\"derive\"] }
schemars = \"1\"
";

pub const BLANK_LIB_HEAD: &'static str = "//! Rust response contract and extension point for the `";

pub const BLANK_LIB_USES: &'static str = "` Huggr agent.

use schemars::JsonSchema;
use serde::{Deserialize, Serialize};

pub const RESPONSE_RUST_TYPE: &str = \"";

pub const BLANK_LIB_TAIL: &'static str = "::Response\";

#[derive(Clone, Debug, PartialEq, Eq, Serialize, Deserialize, JsonSchema)]
#[serde(deny_unknown_fields)]
pub struct Response {
pub response: String,
}
";

pub const BLANK_SYSTEM: &'static str = "You are **{{agent_name}}**. You are a focused huglet. Answer the user's question. TODO: describe your task and how to use your tools.";

/// The `huggr.toml` of a blank agent.
pub open spec fn blank_manifest(name: Seq<char>) -> Seq<char> {
    BLANK_MANIFEST_HEAD@ + name + BLANK_MANIFEST_AGENT@ + name + BLANK_MANIFEST_TAIL@
}

/// The `huggr.toml` of a blank agent.
pub fn blank_manifest_for(name: &str) -> (r: String)
    ensures
        r@ == blank_manifest(name@),
{
    cat5(BLANK_MANIFEST_HEAD, name, BLANK_MANIFEST_AGENT, name, BLANK_MANIFEST_TAIL)
}

/// The `Cargo.toml` of a blank agent.
pub open spec fn blank_cargo(name: Seq<char>) -> Seq<char> {
    "[package]\nname = \""@ + package_of(name) + BLANK_CARGO_TAIL@
}

/// The `Cargo.toml` of a blank agent.
pub fn cargo_toml_for(name: &str) -> (r: String)
    ensures
        r@ == blank_cargo(name@),
{
    let package = sanitize_rust_name(name, '-');
    cat3("[package]\nname = \"", package.as_str(), BLANK_CARGO_TAIL)
}

/// The `lib.rs` of a blank agent.
pub open spec fn blank_lib(name: Seq<char>) -> Seq<char> {
    BLANK_LIB_HEAD@ + name + BLANK_LIB_USES@ + crate_of(name) + BLANK_LIB_TAIL@
}

/// The `lib.rs` of a blank agent.
pub fn lib_rs_for(name: &str) -> (r: String)
    ensures
        r@ == blank_lib(name@),
{
    let crate_name = crate_name_for(name);
    cat5(BLANK_LIB_HEAD, name, BLANK_LIB_USES, crate_name.as_str(), BLANK_LIB_TAIL)
}

/// The prompt of a blank agent.
pub fn blank_system() -> (r: &'static str)
    ensures
        r@ == BLANK_SYSTEM@,
{
    BLANK_SYSTEM
}

/// The files of a new agent.
pub open spec fn scaffold_of(name: Seq<char>, template: Template) -> Seq<(Seq<char>, Seq<char>)> {
    match template {
        Template::Weather => weather_of(name),
        Template::Blank => Seq::empty().push(("Cargo.toml"@, blank_cargo(name))).push(
            ("src/lib.rs"@, blank_lib(name)),
        ).push(("huggr.toml"@, blank_manifest(name))).push(("SYSTEM.md"@, BLANK_SYSTEM@)),
    }
}

/// The files of a new agent.
pub fn scaffold_files(name: &str, template: Template) -> (r: Vec<ScaffoldFile>)
    ensures
        files_view(r@) == scaffold_of(name@, template),
{
    match template {
        Template::Weather => weather_files(name),
        Template::Blank => {
            let mut files: Vec<ScaffoldFile> = Vec::new();
            files.push(file("Cargo.toml", cargo_toml_for(name)));
            files.push(file("src/lib.rs", lib_rs_for(name)));
            files.push(file("huggr.toml", blank_manifest_for(name)));
            files.push(file("SYSTEM.md", owned(blank_system())));
            assert(files_view(files@) =~= scaffold_of(name@, template));
            files
        },
    }
}

/// Where a new agent goes, and what is written there.
#[derive(Debug)]
pub struct ScaffoldPlan {
    pub dir: String,
    pub files: Vec<TextFile>,
}

/// Where a new agent below `parent` goes and what is written there, in order.
/// Nothing is written where something is there already.
pub fn write_scaffold(parent: &str, name: &str, template: Template, exists: bool) -> (r: Result<
    ScaffoldPlan,
    ScaffoldError,
>)
    ensures
        exists ==> (r matches Err(ScaffoldError::Exists(d)) && d@ == path_join(parent@, name@)),
        !exists ==> (r matches Ok(p) && {
            let files = scaffold_of(name@, template);
            &&& p.dir@ == path_join(parent@, name@)
            &&& p.files@.len() == files.len()
            &&& forall|i: int|
                0 <= i < files.len() ==> (#[trigger] p.files@[i]).path@ == path_join(
                    p.dir@,
                    files[i].0,
                ) && p.files@[i].contents@ == files[i].1
        }),
{
    let dir = join_path(parent, name);
    if exists {
        return Err(ScaffoldError::Exists(dir));
    }
    let listed = scaffold_files(name, template);
    let ghost files = scaffold_of(name@, template);
    let mut out: Vec<TextFile> = Vec::new();
    let mut i: usize = 0;
    while i < listed.len()
        invariant
            i <= listed@.len(),
            files == files_view(listed@),
            out@.len() == i,
            forall|k: int|
                0 <= k < i ==> (#[trigger] out@[k]).path@ == path_join(dir@, files[k].0)
                    && out@[k].contents@ == files[k].1,
        decreases listed.len() - i,
    {
        assert(files[i as int] == listed@[i as int]@);
        out.push(
            TextFile {
                path: join_path(dir.as_str(), listed[i].rel_path.as_str()),
                contents: listed[i].contents.clone(),
            },
        );
        i = i + 1;
    }
    Ok(ScaffoldPlan { dir, files: out })
}

} // verus!
