//! Building an agent into one program: the crate that is written for it, what
//! it embeds, and where the program ends up.
pub mod python;

use vstd::prelude::*;

use crate::definition::{AgentDefinition, Definition, Grant};
use crate::environment::Environment;
use crate::json::opt_view;
use crate::models::{
    catalog_from_resolved, catalog_of, refusal_text, resolve_source_definition, settles, Catalog,
    ModelCatalog, ModelConfigError, ModelRefusal,
};
use crate::names::{crate_name_of, sanitize_crate_name, schema_name_from_rust_type, schema_name_of};
use crate::number::{signed_decimal, to_signed_decimal};
use crate::order::{lemma_sorted_set, sorted_set, Names};
use crate::paths::{absolute, components, components_of, join_path, path_join, Component, Part};
use crate::runtime::{
    DEFAULT_FEEDBACK_DIRNAME, DEFAULT_MEMORY_DIRNAME, DEFAULT_SCRATCH_DIRNAME,
    DEFAULT_TRACE_DIRNAME,
};
use crate::split::{contains, cut, holds, join, joined, split_once, strip_prefix};
use crate::text::{cat, cat3, cat5, owned, same, trim, trim_start, trimmed, trimmed_start, views};
use crate::tools::disk::Disk;

verus! {

/// Where a built program is written, and how it is built.
#[derive(Debug)]
pub struct BuildOptions {
    pub out_dir: String,
    pub release: bool,
}

/// Why an agent cannot be built.
#[derive(Debug)]
pub enum BuildError {
    NoSourceDir,
    MissingResponseRustType { path: String },
    InvalidResponseRustType { rust_type: String },
    AgentCargoToml { path: String, source: String },
    AgentResponseSource { path: String, source: String },
    AgentCargoTomlParse { path: String, message: String },
    Io(String),
    Cargo { code: i32 },
    CargoSpawn(String),
    SchemaExtraction { binary: String, message: String },
    MaturinMissing { crate_dir: String },
    Maturin { code: i32 },
    MaturinSpawn(String),
    Models(ModelConfigError),
}

/// What a [`BuildError`] denotes.
pub enum BuildRefusal {
    NoSourceDir,
    MissingResponseRustType(Seq<char>),
    InvalidResponseRustType(Seq<char>),
    AgentCargoToml(Seq<char>, Seq<char>),
    AgentResponseSource(Seq<char>, Seq<char>),
    AgentCargoTomlParse(Seq<char>, Seq<char>),
    Io(Seq<char>),
    Cargo(int),
    CargoSpawn(Seq<char>),
    SchemaExtraction(Seq<char>, Seq<char>),
    MaturinMissing(Seq<char>),
    Maturin(int),
    MaturinSpawn(Seq<char>),
    Models(ModelRefusal),
}

impl View for BuildError {
    type V = BuildRefusal;

    open spec fn view(&self) -> BuildRefusal {
        match self {
            BuildError::NoSourceDir => BuildRefusal::NoSourceDir,
            BuildError::MissingResponseRustType { path } => BuildRefusal::MissingResponseRustType(
                path@,
            ),
            BuildError::InvalidResponseRustType {
                rust_type,
            } => BuildRefusal::InvalidResponseRustType(rust_type@),
            BuildError::AgentCargoToml { path, source } => BuildRefusal::AgentCargoToml(
                path@,
                source@,
            ),
            BuildError::AgentResponseSource { path, source } => BuildRefusal::AgentResponseSource(
                path@,
                source@,
            ),
            BuildError::AgentCargoTomlParse { path, message } => BuildRefusal::AgentCargoTomlParse(
                path@,
                message@,
            ),
            BuildError::Io(e) => BuildRefusal::Io(e@),
            BuildError::Cargo { code } => BuildRefusal::Cargo(*code as int),
            BuildError::CargoSpawn(e) => BuildRefusal::CargoSpawn(e@),
            BuildError::SchemaExtraction { binary, message } => BuildRefusal::SchemaExtraction(
                binary@,
                message@,
            ),
            BuildError::MaturinMissing { crate_dir } => BuildRefusal::MaturinMissing(crate_dir@),
            BuildError::Maturin { code } => BuildRefusal::Maturin(*code as int),
            BuildError::MaturinSpawn(e) => BuildRefusal::MaturinSpawn(e@),
            BuildError::Models(e) => BuildRefusal::Models(e@),
        }
    }
}

pub const RESPONSE_TYPE_WANTED: &'static str = "agent crate must define `pub const RESPONSE_RUST_TYPE: &str = \"crate_name::TypeName\";` in src/lib.rs";

pub const MATURIN_WANTED: &'static str = "`maturin` was not found on PATH. Install it (`pipx install maturin` or `pip install maturin`) and re-run, or build the generated project at ";

pub open spec fn build_refusal_text(e: BuildRefusal) -> Seq<char> {
    match e {
        BuildRefusal::NoSourceDir => "agent has no source folder to bundle"@,
        BuildRefusal::MissingResponseRustType(_) => RESPONSE_TYPE_WANTED@,
        BuildRefusal::InvalidResponseRustType(t) => "agent RESPONSE_RUST_TYPE `"@ + t
            + "` must look like `crate_name::TypeName`"@,
        BuildRefusal::AgentCargoToml(path, source) => "reading agent Cargo.toml at "@ + path
            + ": "@ + source,
        BuildRefusal::AgentResponseSource(path, source) => "reading agent response source at "@
            + path + ": "@ + source,
        BuildRefusal::AgentCargoTomlParse(path, message) => "parsing agent Cargo.toml at "@ + path
            + ": "@ + message,
        BuildRefusal::Io(e) => "writing generated crate: "@ + e,
        BuildRefusal::Cargo(code) => "`cargo build` failed (exit "@ + signed_decimal(code)
            + "). See the output above."@,
        BuildRefusal::CargoSpawn(e) => "could not run `cargo`: "@ + e,
        BuildRefusal::SchemaExtraction(binary, message) => "extracting the response schema from `"@
            + binary + "`: "@ + message,
        BuildRefusal::MaturinMissing(dir) => MATURIN_WANTED@ + dir + " yourself."@,
        BuildRefusal::Maturin(code) => "`maturin build` failed (exit "@ + signed_decimal(code)
            + "). See the output above."@,
        BuildRefusal::MaturinSpawn(e) => "could not run `maturin`: "@ + e,
        BuildRefusal::Models(e) => refusal_text(e),
    }
}

fn labelled(label: &str, path: &str, what: &str) -> (r: String)
    ensures
        r@ == label@ + path@ + ": "@ + what@,
{
    let mut s = cat3(label, path, ": ");
    s.append(what);
    s
}

impl BuildError {
    /// The refusal in words.
    pub fn message(&self) -> (r: String)
        ensures
            r@ == build_refusal_text(self@),
    {
        match self {
            BuildError::NoSourceDir => owned("agent has no source folder to bundle"),
            BuildError::MissingResponseRustType { path: _ } => owned(RESPONSE_TYPE_WANTED),
            BuildError::InvalidResponseRustType { rust_type } => cat3(
                "agent RESPONSE_RUST_TYPE `",
                rust_type.as_str(),
                "` must look like `crate_name::TypeName`",
            ),
            BuildError::AgentCargoToml { path, source } => labelled(
                "reading agent Cargo.toml at ",
                path.as_str(),
                source.as_str(),
            ),
            BuildError::AgentResponseSource { path, source } => labelled(
                "reading agent response source at ",
                path.as_str(),
                source.as_str(),
            ),
            BuildError::AgentCargoTomlParse { path, message } => labelled(
                "parsing agent Cargo.toml at ",
                path.as_str(),
                message.as_str(),
            ),
            BuildError::Io(e) => cat("writing generated crate: ", e.as_str()),
            BuildError::Cargo { code } => cat3(
                "`cargo build` failed (exit ",
                to_signed_decimal(*code).as_str(),
                "). See the output above.",
            ),
            BuildError::CargoSpawn(e) => cat("could not run `cargo`: ", e.as_str()),
            BuildError::SchemaExtraction { binary, message } => {
                let mut s = cat3(
                    "extracting the response schema from `",
                    binary.as_str(),
                    "`: ",
                );
                s.append(message.as_str());
                s
            },
            BuildError::MaturinMissing { crate_dir } => cat3(
                MATURIN_WANTED,
                crate_dir.as_str(),
                " yourself.",
            ),
            BuildError::Maturin { code } => cat3(
                "`maturin build` failed (exit ",
                to_signed_decimal(*code).as_str(),
                "). See the output above.",
            ),
            BuildError::MaturinSpawn(e) => cat("could not run `maturin`: ", e.as_str()),
            BuildError::Models(e) => e.message(),
        }
    }
}

// ----- what stays out of a bundle -----
/// The names of a path that goes down only, or nothing where it does not.
pub open spec fn downward(parts: Seq<Part>) -> Option<Seq<Seq<char>>>
    decreases parts.len(),
{
    if parts.len() == 0 {
        Some(Seq::empty())
    } else {
        match downward(parts.drop_last()) {
            None => None,
            Some(names) => match parts.last() {
                Part::Normal(s) => Some(names.push(s)),
                Part::Cur => Some(names),
                _ => None,
            },
        }
    }
}

/// The path below the crate that a configured root stands for, if it is one.
pub open spec fn rel_of(path: Seq<char>) -> Option<Seq<char>> {
    match downward(components_of(path)) {
        Some(names) => if names.len() > 0 {
            Some(joined(names, "/"@))
        } else {
            None
        },
        None => None,
    }
}

proof fn lemma_downward_stops(parts: Seq<Part>, n: int)
    requires
        0 <= n <= parts.len(),
        downward(parts.take(n)) is None,
    ensures
        downward(parts) is None,
    decreases parts.len() - n,
{
    if n < parts.len() {
        assert(parts.take(n + 1).drop_last() =~= parts.take(n));
        lemma_downward_stops(parts, n + 1);
    } else {
        assert(parts.take(n) =~= parts);
    }
}

proof fn lemma_downward_parts(parts: Seq<Part>)
    requires
        downward(parts) is Some,
    ensures
        forall|i: int|
            0 <= i < parts.len() ==> (#[trigger] parts[i] is Normal || parts[i] is Cur),
    decreases parts.len(),
{
    if parts.len() > 0 {
        lemma_downward_parts(parts.drop_last());
        assert forall|i: int| 0 <= i < parts.len() implies (#[trigger] parts[i] is Normal
            || parts[i] is Cur) by {
            if i < parts.len() - 1 {
                assert(parts.drop_last()[i] == parts[i]);
            }
        }
    }
}

/// Only a root below the crate is ever left out of a bundle: one that is
/// absolute or leads upwards anywhere is not.
pub proof fn law_only_roots_below_are_left_out(root: Seq<char>)
    requires
        rel_of(root) is Some,
    ensures
        !absolute(root),
        !components_of(root).contains(Part::Parent),
{
    let parts = components_of(root);
    lemma_downward_parts(parts);
    if absolute(root) {
        assert(parts[0] is Root);
    }
}

/// The path below the crate that a configured root stands for. A root that is
/// absolute or leads upwards lies outside, and the crate itself cannot be left
/// out.
pub fn normalized_rel(path: &str) -> (r: Option<String>)
    ensures
        opt_view(r) == rel_of(path@),
{
    let parts = components(path);
    let ghost all = components_of(path@);
    let mut names: Vec<String> = Vec::new();
    let mut i: usize = 0;
    assert(views(names@) =~= Seq::<Seq<char>>::empty());
    assert(all.take(0) =~= Seq::<Part>::empty());
    while i < parts.len()
        invariant
            i <= parts@.len(),
            all == crate::paths::parts_view(parts@),
            all == components_of(path@),
            downward(all.take(i as int)) == Some(views(names@)),
        decreases parts.len() - i,
    {
        let ghost was = names@;
        assert(all[i as int] == parts@[i as int]@);
        assert(all.take(i + 1).drop_last() =~= all.take(i as int));
        match &parts[i] {
            Component::Normal(s) => {
                names.push(s.clone());
                assert(views(names@) =~= views(was).push(s@));
            },
            Component::CurDir => {},
            _ => {
                proof {
                    lemma_downward_stops(all, i + 1);
                }
                return None;
            },
        }
        i = i + 1;
    }
    assert(all.take(i as int) =~= all);
    if names.len() == 0 {
        None
    } else {
        Some(join(&names, "/"))
    }
}

/// The first grant named memory, from index `i` on.
pub open spec fn memory_grant(tools: Seq<Grant>, i: int) -> Option<Grant>
    decreases tools.len() - i,
{
    if i < 0 || i >= tools.len() {
        None
    } else if tools[i].name == "memory"@ {
        Some(tools[i])
    } else {
        memory_grant(tools, i + 1)
    }
}

/// The configured root of memory.
pub open spec fn memory_root(tools: Seq<Grant>) -> Option<Seq<char>> {
    match memory_grant(tools, 0) {
        Some(g) => g.config.get_str("root"@),
        None => None,
    }
}

/// What stays out whatever an agent configures: state that comes about at run
/// time, and what building and versioning leave behind.
pub open spec fn always_excluded() -> Set<Seq<char>> {
    Set::<Seq<char>>::empty().insert(DEFAULT_TRACE_DIRNAME@).insert(
        DEFAULT_SCRATCH_DIRNAME@,
    ).insert(DEFAULT_MEMORY_DIRNAME@).insert(DEFAULT_FEEDBACK_DIRNAME@).insert("target"@).insert(
        "dist"@,
    ).insert(".git"@)
}

/// The same with a configured root, where that lies below the crate.
pub open spec fn with_root(out: Set<Seq<char>>, root: Option<Seq<char>>) -> Set<Seq<char>> {
    match root {
        Some(r) => match rel_of(r) {
            Some(path) => out.insert(path),
            None => out,
        },
        None => out,
    }
}

/// What stays out of a bundle.
pub open spec fn excluded(def: Definition) -> Set<Seq<char>> {
    with_root(
        with_root(with_root(always_excluded(), def.trace_store), def.scratch_root),
        memory_root(def.tools),
    )
}

fn find_memory_root(def: &AgentDefinition) -> (r: Option<&str>)
    ensures
        crate::json::opt_str_view(r) == memory_root(def@.tools),
{
    let ghost tools = def@.tools;
    let mut i: usize = 0;
    while i < def.tools.len()
        invariant
            i <= def.tools@.len(),
            tools == def@.tools,
            memory_grant(tools, 0) == memory_grant(tools, i as int),
        decreases def.tools.len() - i,
    {
        assert(tools[i as int] == def.tools@[i as int]@);
        if same(def.tools[i].name.as_str(), "memory") {
            return def.tools[i].config.get_str("root");
        }
        i = i + 1;
    }
    None
}

fn exclude(names: &mut Names, name: &str)
    ensures
        final(names).seq().to_set() == old(names).seq().to_set().insert(name@),
{
    names.insert(name);
    assert(names.seq().to_set() =~= old(names).seq().to_set().insert(name@));
}

fn exclude_root(names: &mut Names, root: Option<&str>)
    ensures
        final(names).seq().to_set() == with_root(
            old(names).seq().to_set(),
            crate::json::opt_str_view(root),
        ),
{
    if let Some(r) = root {
        if let Some(rel) = normalized_rel(r) {
            exclude(names, rel.as_str());
        }
    }
}

/// The paths that stay out of a bundle, in ascending order and each once.
pub fn bundle_excludes(def: &AgentDefinition) -> (r: Vec<String>)
    ensures
        views(r@) == sorted_set(excluded(def@)),
        views(r@).to_set() == excluded(def@),
{
    let mut names = Names::new();
    assert(names.seq().to_set() =~= Set::<Seq<char>>::empty());
    exclude(&mut names, DEFAULT_TRACE_DIRNAME);
    exclude(&mut names, DEFAULT_SCRATCH_DIRNAME);
    exclude(&mut names, DEFAULT_MEMORY_DIRNAME);
    exclude(&mut names, DEFAULT_FEEDBACK_DIRNAME);
    exclude(&mut names, "target");
    exclude(&mut names, "dist");
    exclude(&mut names, ".git");
    let store = match &def.traces.store {
        Some(s) => Some(s.as_str()),
        None => None,
    };
    exclude_root(&mut names, store);
    let root = match &def.scratchpad.root {
        Some(s) => Some(s.as_str()),
        None => None,
    };
    exclude_root(&mut names, root);
    exclude_root(&mut names, find_memory_root(def));
    let list = names.into_list();
    proof {
        lemma_sorted_set(views(list@));
    }
    list
}

// ----- the answer type of an agent crate -----
/// The text that a public constant of the source is set to.
pub open spec fn const_text(src: Seq<char>, name: Seq<char>) -> Option<Seq<char>> {
    match cut(src, "pub const "@ + name) {
        None => None,
        Some((_, after)) => match cut(after, "="@) {
            None => None,
            Some((_, value)) => {
                let v = trimmed_start(value);
                if v.len() == 0 || v[0] != '"' {
                    None
                } else {
                    match cut(v.skip(1), "\""@) {
                        None => None,
                        Some((text, _)) => if trimmed(text).len() == 0 {
                            None
                        } else {
                            Some(text)
                        },
                    }
                }
            },
        },
    }
}

/// The text that a public constant of the source is set to.
pub fn rust_type_const(src: &str, const_name: &str) -> (r: Option<String>)
    ensures
        opt_view(r) == const_text(src@, const_name@),
{
    let needle = cat("pub const ", const_name);
    let (_, after) = match split_once(src, needle.as_str()) {
        Some(p) => p,
        None => {
            return None;
        },
    };
    let (_, value) = match split_once(after.as_str(), "=") {
        Some(p) => p,
        None => {
            return None;
        },
    };
    let v = trim_start(value.as_str());
    proof {
        reveal_strlit("\"");
        assert("\""@.len() == 1 && "\""@[0] == '"');
        if v@.len() > 0 {
            assert(v@.take(1) =~= "\""@ <==> v@[0] == '"') by {
                assert(v@.take(1)[0] == v@[0]);
            }
        }
    }
    let rest = match strip_prefix(v.as_str(), "\"") {
        Some(r) => r,
        None => {
            return None;
        },
    };
    match split_once(rest.as_str(), "\"") {
        None => None,
        Some((text, _)) => if trim(text.as_str()).as_str().is_empty() {
            None
        } else {
            Some(text)
        },
    }
}

/// A value of the `toml` crate.
#[verifier::external_type_specification]
#[verifier::external_body]
pub struct ExTomlValue(toml::Value);

/// What a TOML text denotes, or the words of the error.
pub uninterp spec fn toml_parsed(text: Seq<char>) -> Result<toml::Value, Seq<char>>;

/// The member of a value under a key, where the value is a table with it.
pub uninterp spec fn toml_member(value: toml::Value, key: Seq<char>) -> Option<toml::Value>;

/// The content of a value that is a string.
pub uninterp spec fn toml_text(value: toml::Value) -> Option<Seq<char>>;

/// `toml::from_str`: the table that a TOML text denotes, or the words of the
/// error, is determined by the text.
#[verifier::external_body]
pub(crate) fn parse_toml(text: &str) -> (r: Result<toml::Value, String>)
    ensures
        match r {
            Ok(v) => toml_parsed(text@) == Ok::<toml::Value, Seq<char>>(v),
            Err(e) => toml_parsed(text@) == Err::<toml::Value, Seq<char>>(e@),
        },
{
    match toml::from_str::<toml::Table>(text) {
        Ok(t) => Ok(toml::Value::Table(t)),
        Err(e) => Err(e.to_string()),
    }
}

/// `toml::Value::get` by a name: the member under it, where the value is a
/// table that has one, is determined by the value and the name.
#[verifier::external_body]
pub(crate) fn get_member<'a>(value: &'a toml::Value, key: &str) -> (r: Option<&'a toml::Value>)
    ensures
        match r {
            Some(v) => toml_member(*value, key@) == Some(*v),
            None => toml_member(*value, key@) is None,
        },
{
    value.get(key)
}

/// `toml::Value::as_str`: the content, where the value is a string, is
/// determined by the value.
#[verifier::external_body]
pub(crate) fn get_text(value: &toml::Value) -> (r: Option<&str>)
    ensures
        crate::json::opt_str_view(r) == toml_text(*value),
{
    value.as_str()
}

/// The name of the package that a parsed `Cargo.toml` describes.
pub open spec fn package_name(table: toml::Value) -> Option<Seq<char>> {
    match toml_member(table, "package"@) {
        None => None,
        Some(package) => match toml_member(package, "name"@) {
            None => None,
            Some(name) => toml_text(name),
        },
    }
}

/// The name of the package that a parsed `Cargo.toml` describes.
pub fn package_of(table: &toml::Value) -> (r: Option<String>)
    ensures
        opt_view(r) == package_name(*table),
{
    match get_member(table, "package") {
        None => None,
        Some(package) => match get_member(package, "name") {
            None => None,
            Some(name) => match get_text(name) {
                Some(s) => Some(owned(s)),
                None => None,
            },
        },
    }
}

/// The name of the package in a directory, or why it is not known.
pub open spec fn cargo_name(disk: &Disk, dir: Seq<char>) -> Result<Seq<char>, BuildRefusal> {
    let path = path_join(dir, "Cargo.toml"@);
    match disk.text(path) {
        Err(e) => Err(BuildRefusal::AgentCargoToml(path, e)),
        Ok(text) => match toml_parsed(text) {
            Err(e) => Err(BuildRefusal::AgentCargoTomlParse(path, e)),
            Ok(table) => match package_name(table) {
                Some(name) => Ok(name),
                None => Err(
                    BuildRefusal::AgentCargoTomlParse(path, "missing [package].name"@),
                ),
            },
        },
    }
}

/// The name of the package in a directory.
pub fn cargo_package_name(disk: &Disk, dir: &str) -> (r: Result<String, BuildError>)
    ensures
        match r {
            Ok(n) => cargo_name(disk, dir@) == Ok::<Seq<char>, BuildRefusal>(n@),
            Err(e) => cargo_name(disk, dir@) == Err::<Seq<char>, BuildRefusal>(e@),
        },
{
    let path = join_path(dir, "Cargo.toml");
    let text = match disk.read_text(path.as_str()) {
        Ok(t) => t,
        Err(e) => {
            return Err(BuildError::AgentCargoToml { path, source: e });
        },
    };
    match parse_toml(text.as_str()) {
        Err(e) => Err(BuildError::AgentCargoTomlParse { path, message: e }),
        Ok(table) => match package_of(&table) {
            Some(n) => Ok(n),
            None => Err(
                BuildError::AgentCargoTomlParse { path, message: owned("missing [package].name") },
            ),
        },
    }
}

/// The crate that owns the answer type of an agent.
#[derive(Debug)]
pub struct ResponseDependency {
    pub dep_name: String,
    pub package: Option<String>,
    pub path: String,
    pub rust_type: String,
    pub model_rust_type: String,
    pub schema_name: String,
    pub has_answer_hooks: bool,
    pub has_storage: bool,
}

/// What a [`ResponseDependency`] denotes.
pub struct Dependency {
    pub dep_name: Seq<char>,
    pub package: Option<Seq<char>>,
    pub path: Seq<char>,
    pub rust_type: Seq<char>,
    pub model_rust_type: Seq<char>,
    pub schema_name: Seq<char>,
    pub has_answer_hooks: bool,
    pub has_storage: bool,
}

impl View for ResponseDependency {
    type V = Dependency;

    open spec fn view(&self) -> Dependency {
        Dependency {
            dep_name: self.dep_name@,
            package: opt_view(self.package),
            path: self.path@,
            rust_type: self.rust_type@,
            model_rust_type: self.model_rust_type@,
            schema_name: self.schema_name@,
            has_answer_hooks: self.has_answer_hooks,
            has_storage: self.has_storage,
        }
    }
}

pub open spec fn dependency_view(d: Option<ResponseDependency>) -> Option<Dependency> {
    match d {
        Some(d) => Some(d@),
        None => None,
    }
}

/// The answer type that the source of an agent crate declares.
pub open spec fn dependency_in(
    disk: &Disk,
    dir: Seq<char>,
    src: Seq<char>,
) -> Result<Dependency, BuildRefusal> {
    match const_text(src, "RESPONSE_RUST_TYPE"@) {
        None => Err(BuildRefusal::MissingResponseRustType(path_join(dir, "src/lib.rs"@))),
        Some(rust_type) => match cut(rust_type, "::"@) {
            None => Err(BuildRefusal::InvalidResponseRustType(rust_type)),
            Some((dep_name, _)) => if dep_name.len() == 0 {
                Err(BuildRefusal::InvalidResponseRustType(rust_type))
            } else {
                match cargo_name(disk, dir) {
                    Err(e) => Err(e),
                    Ok(package) => Ok(
                        Dependency {
                            dep_name,
                            package: if package != dep_name {
                                Some(package)
                            } else {
                                None
                            },
                            path: dir,
                            rust_type,
                            model_rust_type: match const_text(
                                src,
                                "MODEL_RESPONSE_RUST_TYPE"@,
                            ) {
                                Some(t) => t,
                                None => rust_type,
                            },
                            schema_name: schema_name_of(rust_type),
                            has_answer_hooks: holds(src, "pub fn answer_hooks"@),
                            has_storage: holds(src, "pub fn storage"@),
                        },
                    ),
                }
            },
        },
    }
}

/// The crate that owns the answer type of a definition; none where the
/// definition itself says what answers look like.
pub open spec fn dependency_of(disk: &Disk, def: Definition) -> Result<
    Option<Dependency>,
    BuildRefusal,
> {
    if def.response_schema is Some {
        Ok(None)
    } else {
        match def.source_dir {
            None => Err(BuildRefusal::NoSourceDir),
            Some(base) => match disk.canonical(base) {
                None => Err(BuildRefusal::AgentCargoToml(base, "no such directory"@)),
                Some(dir) => match disk.text(path_join(dir, "src/lib.rs"@)) {
                    Err(e) => Err(
                        BuildRefusal::AgentResponseSource(path_join(dir, "src/lib.rs"@), e),
                    ),
                    Ok(src) => match dependency_in(disk, dir, src) {
                        Ok(d) => Ok(Some(d)),
                        Err(e) => Err(e),
                    },
                },
            },
        }
    }
}

/// The crate that owns the answer type of a definition.
pub fn response_dependency(def: &AgentDefinition, disk: &Disk) -> (r: Result<
    Option<ResponseDependency>,
    BuildError,
>)
    ensures
        match r {
            Ok(d) => dependency_of(disk, def@) == Ok::<Option<Dependency>, BuildRefusal>(
                dependency_view(d),
            ),
            Err(e) => dependency_of(disk, def@) == Err::<Option<Dependency>, BuildRefusal>(e@),
        },
{
    if def.response_schema.is_some() {
        return Ok(None);
    }
    let base = match &def.source_dir {
        Some(b) => b,
        None => {
            return Err(BuildError::NoSourceDir);
        },
    };
    let dir = match disk.canonicalize(base.as_str()) {
        Some(d) => d,
        None => {
            return Err(
                BuildError::AgentCargoToml {
                    path: base.clone(),
                    source: owned("no such directory"),
                },
            );
        },
    };
    let lib = join_path(dir.as_str(), "src/lib.rs");
    let src = match disk.read_text(lib.as_str()) {
        Ok(t) => t,
        Err(e) => {
            return Err(BuildError::AgentResponseSource { path: lib, source: e });
        },
    };
    let rust_type = match rust_type_const(src.as_str(), "RESPONSE_RUST_TYPE") {
        Some(t) => t,
        None => {
            return Err(BuildError::MissingResponseRustType { path: lib });
        },
    };
    let dep_name = match split_once(rust_type.as_str(), "::") {
        Some((d, _)) => d,
        None => {
            return Err(BuildError::InvalidResponseRustType { rust_type });
        },
    };
    if dep_name.as_str().is_empty() {
        return Err(BuildError::InvalidResponseRustType { rust_type });
    }
    let package_name = match cargo_package_name(disk, dir.as_str()) {
        Ok(n) => n,
        Err(e) => {
            return Err(e);
        },
    };
    let package = if same(package_name.as_str(), dep_name.as_str()) {
        None
    } else {
        Some(package_name)
    };
    let model_rust_type = match rust_type_const(src.as_str(), "MODEL_RESPONSE_RUST_TYPE") {
        Some(t) => t,
        None => rust_type.clone(),
    };
    Ok(
        Some(
            ResponseDependency {
                dep_name,
                package,
                path: dir,
                schema_name: schema_name_from_rust_type(rust_type.as_str()),
                rust_type,
                model_rust_type,
                has_answer_hooks: contains(src.as_str(), "pub fn answer_hooks"),
                has_storage: contains(src.as_str(), "pub fn storage"),
            },
        ),
    )
}

// ----- the texts of the crate -----
pub const CLI_CARGO_HEAD: &'static str = "# Generated by `huggr build`. Do not edit by hand.
[package]
name = \"";

pub const CLI_CARGO_BIN: &'static str = "\"
version = \"0.0.0\"
edition = \"2021\"

[[bin]]
name = \"";

pub const CLI_CARGO_DEPENDENCIES: &'static str = "\"
path = \"src/main.rs\"

# Detach from any surrounding workspace so this crate builds standalone.
[workspace]

[dependencies]
huggr-toolkit = { path = \"";

pub const CLI_CARGO_TOOLKIT_END: &'static str = "\" }
";

pub const CLI_CARGO_TAIL: &'static str = "
tokio = { version = \"1\", features = [\"rt-multi-thread\", \"macros\"] }
";

pub const CLI_MAIN_HEAD: &'static str = "// Generated by `huggr build`. Do not edit by hand.
static BUNDLE: &[u8] = include_bytes!(\"../bundle.bin\");

#[tokio::main]
async fn main() {
    let options = ";

pub const CLI_MAIN_TAIL: &'static str = ";
    let code = huggr_toolkit::surface::run_cli_with_options(BUNDLE, options).await;
    std::process::exit(code);
}
";

/// The line that makes a crate depend on the one of an answer type.
pub open spec fn dep_line(d: Dependency) -> Seq<char> {
    d.dep_name + " = {"@ + (match d.package {
        Some(p) => " package = \""@ + p + "\","@,
        None => ""@,
    }) + " path = \""@ + d.path + "\" }"@
}

/// The expression that registers an answer type.
pub open spec fn contract_text(d: Dependency) -> Seq<char> {
    if d.model_rust_type == d.rust_type {
        "huggr_toolkit::runtime::ResponseContract::from_type::<"@ + d.rust_type + ">(\""@
            + d.schema_name + "\")"@
    } else {
        "huggr_toolkit::runtime::ResponseContract::from_type::<"@ + d.model_rust_type + ">(\""@
            + d.schema_name + "\").with_public_type::<"@ + d.rust_type + ">()"@
    }
}

/// The expression that makes the options of a program.
pub open spec fn options_text(d: Dependency) -> Seq<char> {
    "huggr_toolkit::runtime::RuntimeOptions::new().with_response_contract("@ + d.dep_name
        + "::RESPONSE_RUST_TYPE, "@ + contract_text(d) + ")"@ + (if d.has_answer_hooks {
        ".with_answer_hooks("@ + d.dep_name + "::answer_hooks())"@
    } else {
        ""@
    }) + (if d.has_storage {
        ".with_storage("@ + d.dep_name + "::storage())"@
    } else {
        ""@
    })
}

impl ResponseDependency {
    /// The line that makes a crate depend on this one.
    pub fn cargo_dep(&self) -> (r: String)
        ensures
            r@ == dep_line(self@),
    {
        let package = match &self.package {
            Some(p) => cat3(" package = \"", p.as_str(), "\","),
            None => owned(""),
        };
        let mut s = cat3(self.dep_name.as_str(), " = {", package.as_str());
        s.append(" path = \"");
        s.append(self.path.as_str());
        s.append("\" }");
        s
    }

    /// The expression that makes the options of a program.
    pub fn runtime_options(&self) -> (r: String)
        ensures
            r@ == options_text(self@),
    {
        let contract = if same(self.model_rust_type.as_str(), self.rust_type.as_str()) {
            cat5(
                "huggr_toolkit::runtime::ResponseContract::from_type::<",
                self.rust_type.as_str(),
                ">(\"",
                self.schema_name.as_str(),
                "\")",
            )
        } else {
            let mut s = cat5(
                "huggr_toolkit::runtime::ResponseContract::from_type::<",
                self.model_rust_type.as_str(),
                ">(\"",
                self.schema_name.as_str(),
                "\").with_public_type::<",
            );
            s.append(self.rust_type.as_str());
            s.append(">()");
            s
        };
        let hooks = if self.has_answer_hooks {
            cat3(".with_answer_hooks(", self.dep_name.as_str(), "::answer_hooks())")
        } else {
            owned("")
        };
        let storage = if self.has_storage {
            cat3(".with_storage(", self.dep_name.as_str(), "::storage())")
        } else {
            owned("")
        };
        let mut s = cat5(
            "huggr_toolkit::runtime::RuntimeOptions::new().with_response_contract(",
            self.dep_name.as_str(),
            "::RESPONSE_RUST_TYPE, ",
            contract.as_str(),
            ")",
        );
        s.append(hooks.as_str());
        s.append(storage.as_str());
        s
    }
}

/// The dependency line, where there is one.
pub open spec fn opt_dep_line(d: Option<Dependency>) -> Seq<char> {
    match d {
        Some(d) => dep_line(d),
        None => ""@,
    }
}

/// The options of a program, with or without an answer type.
pub open spec fn opt_options_text(d: Option<Dependency>) -> Seq<char> {
    match d {
        Some(d) => options_text(d),
        None => "huggr_toolkit::runtime::RuntimeOptions::default()"@,
    }
}

pub fn dependency_line(d: &Option<ResponseDependency>) -> (r: String)
    ensures
        r@ == opt_dep_line(dependency_view(*d)),
{
    match d {
        Some(d) => d.cargo_dep(),
        None => owned(""),
    }
}

pub fn options_expression(d: &Option<ResponseDependency>) -> (r: String)
    ensures
        r@ == opt_options_text(dependency_view(*d)),
{
    match d {
        Some(d) => d.runtime_options(),
        None => owned("huggr_toolkit::runtime::RuntimeOptions::default()"),
    }
}

/// The `Cargo.toml` of the program's crate.
pub open spec fn cli_cargo_text(pkg: Seq<char>, dep: Seq<char>, toolkit_dir: Seq<char>) -> Seq<char> {
    CLI_CARGO_HEAD@
        + pkg
        + CLI_CARGO_BIN@
        + pkg
        + CLI_CARGO_DEPENDENCIES@
        + toolkit_dir
        + CLI_CARGO_TOOLKIT_END@
        + dep
        + CLI_CARGO_TAIL@
}

/// The `Cargo.toml` of the program's crate, which stands by itself and depends
/// on the toolkit at `toolkit_dir`.
pub fn cli_cargo_toml(pkg: &str, response_dep: &Option<ResponseDependency>, toolkit_dir: &str) -> (r:
    String)
    ensures
        r@ == cli_cargo_text(pkg@, opt_dep_line(dependency_view(*response_dep)), toolkit_dir@),
{
    let dep = dependency_line(response_dep);
    let mut s = owned(CLI_CARGO_HEAD);
    s.append(pkg);
    s.append(CLI_CARGO_BIN);
    s.append(pkg);
    s.append(CLI_CARGO_DEPENDENCIES);
    s.append(toolkit_dir);
    s.append(CLI_CARGO_TOOLKIT_END);
    s.append(dep.as_str());
    s.append(CLI_CARGO_TAIL);
    s
}

/// The `main.rs` of the program's crate.
pub open spec fn main_text(options: Seq<char>) -> Seq<char> {
    CLI_MAIN_HEAD@
        + options
        + CLI_MAIN_TAIL@
}

/// The `main.rs` of the program's crate.
pub fn main_rs(response_dep: &Option<ResponseDependency>) -> (r: String)
    ensures
        r@ == main_text(opt_options_text(dependency_view(*response_dep))),
{
    let options = options_expression(response_dep);
    let mut s = owned(CLI_MAIN_HEAD);
    s.append(options.as_str());
    s.append(CLI_MAIN_TAIL);
    s
}

// ----- building -----
/// One file to write.
#[derive(Debug)]
pub struct TextFile {
    pub path: String,
    pub contents: String,
}

/// What is packed into a program: the agent's own directory but for what stays
/// out, and the models that its tiers were settled to.
#[derive(Debug)]
pub struct BundlePlan {
    pub source_dir: String,
    pub excludes: Vec<String>,
    pub snapshot: ModelCatalog,
}

/// What is packed into the program of a definition: the tiers are settled by
/// the host's catalog first.
pub open spec fn bundles(
    r: Result<BundlePlan, BuildError>,
    def: Definition,
    global: Catalog,
    env: Map<Seq<char>, Seq<char>>,
) -> bool {
    match def.source_dir {
        None => r matches Err(e) && e@ == BuildRefusal::NoSourceDir,
        Some(dir) => exists|settled: Result<AgentDefinition, ModelConfigError>|
            {
                &&& #[trigger] settles(
                    settled,
                    def,
                    global.providers.union_prefer_right(def.providers),
                    def.tiers,
                    global,
                    env,
                    "global"@,
                )
                &&& match settled {
                    Ok(d) => r matches Ok(b) && b.source_dir@ == dir && views(b.excludes@)
                        == sorted_set(excluded(def)) && b.snapshot@ == catalog_of(d@),
                    Err(e) => r matches Err(why) && why@ == BuildRefusal::Models(e@),
                }
            },
    }
}

/// What is packed into a program.
pub fn write_bundle(def: &AgentDefinition, global: &ModelCatalog, env: &Environment) -> (r: Result<
    BundlePlan,
    BuildError,
>)
    ensures
        bundles(r, def@, global@, env@),
{
    let source_dir = match &def.source_dir {
        Some(d) => d.clone(),
        None => {
            return Err(BuildError::NoSourceDir);
        },
    };
    let excludes = bundle_excludes(def);
    let settled = resolve_source_definition(def, global, env);
    let ghost s = settled;
    match settled {
        Ok(d) => {
            let r = Ok(BundlePlan { source_dir, excludes, snapshot: catalog_from_resolved(&d) });
            assert(settles(
                s,
                def@,
                global@.providers.union_prefer_right(def@.providers),
                def@.tiers,
                global@,
                env@,
                "global"@,
            ));
            r
        },
        Err(e) => Err(BuildError::Models(e)),
    }
}

/// Where a built program is.
#[derive(Debug)]
pub struct BuildOutcome {
    pub crate_dir: String,
    pub binary: String,
}

/// What is written and run to build a program, and where it ends up.
#[derive(Debug)]
pub struct BuildPlan {
    pub bundle: BundlePlan,
    pub files: Vec<TextFile>,
    pub cargo_args: Vec<String>,
    pub outcome: BuildOutcome,
}

/// What a build of the program comes down to, for an answer type `dep`.
pub open spec fn plans(
    p: BuildPlan,
    name: Seq<char>,
    dep: Option<Dependency>,
    out_dir: Seq<char>,
    release: bool,
    toolkit_dir: Seq<char>,
) -> bool {
    let pkg = crate_name_of(name);
    let dir = path_join(out_dir, pkg + "-cli"@);
    &&& p.files@.len() == 2
    &&& p.files@[0].path@ == path_join(dir, "Cargo.toml"@)
    &&& p.files@[0].contents@ == cli_cargo_text(pkg, opt_dep_line(dep), toolkit_dir)
    &&& p.files@[1].path@ == path_join(path_join(dir, "src"@), "main.rs"@)
    &&& p.files@[1].contents@ == main_text(opt_options_text(dep))
    &&& views(p.cargo_args@) == build_words(release)
    &&& p.outcome.crate_dir@ == dir
    &&& p.outcome.binary@ == path_join(
        path_join(path_join(dir, "target"@), profile_of(release)),
        pkg,
    )
}

/// The words after the name of the command that builds.
pub open spec fn build_words(release: bool) -> Seq<Seq<char>> {
    if release {
        Seq::empty().push("build"@).push("--release"@)
    } else {
        Seq::empty().push("build"@)
    }
}

/// The words after the name of the command that builds.
pub fn build_args(release: bool) -> (r: Vec<String>)
    ensures
        views(r@) == build_words(release),
{
    let mut args: Vec<String> = Vec::new();
    args.push(owned("build"));
    assert(views(args@) =~= Seq::<Seq<char>>::empty().push("build"@));
    if release {
        args.push(owned("--release"));
        assert(views(args@) =~= Seq::<Seq<char>>::empty().push("build"@).push("--release"@));
    }
    args
}

/// The directory below `target` that a build ends up in.
pub open spec fn profile_of(release: bool) -> Seq<char> {
    if release {
        "release"@
    } else {
        "debug"@
    }
}

/// What is written and run to build the program of an agent, and where it ends
/// up.
pub fn build(
    def: &AgentDefinition,
    opts: &BuildOptions,
    global: &ModelCatalog,
    env: &Environment,
    disk: &Disk,
    toolkit_dir: &str,
) -> (r: Result<BuildPlan, BuildError>)
    ensures
        match r {
            Ok(p) => {
                &&& bundles(Ok(p.bundle), def@, global@, env@)
                &&& dependency_of(disk, def@) matches Ok(dep) && plans(
                    p,
                    def@.name,
                    dep,
                    opts.out_dir@,
                    opts.release,
                    toolkit_dir@,
                )
            },
            Err(e) => {
                ||| bundles(Err(e), def@, global@, env@)
                ||| (exists|b: BundlePlan| #[trigger] bundles(Ok(b), def@, global@, env@))
                    && dependency_of(disk, def@) == Err::<Option<Dependency>, BuildRefusal>(e@)
            },
        },
{
    let pkg = sanitize_crate_name(def.agent.name.as_str());
    let crate_dir = join_path(opts.out_dir.as_str(), cat(pkg.as_str(), "-cli").as_str());
    let bundle = match write_bundle(def, global, env) {
        Ok(b) => b,
        Err(e) => {
            return Err(e);
        },
    };
    assert(bundles(Ok(bundle), def@, global@, env@));
    let response_dep = match response_dependency(def, disk) {
        Ok(d) => d,
        Err(e) => {
            return Err(e);
        },
    };
    let mut files: Vec<TextFile> = Vec::new();
    files.push(
        TextFile {
            path: join_path(crate_dir.as_str(), "Cargo.toml"),
            contents: cli_cargo_toml(pkg.as_str(), &response_dep, toolkit_dir),
        },
    );
    files.push(
        TextFile {
            path: join_path(join_path(crate_dir.as_str(), "src").as_str(), "main.rs"),
            contents: main_rs(&response_dep),
        },
    );
    let cargo_args = build_args(opts.release);
    let profile = if opts.release {
        "release"
    } else {
        "debug"
    };
    let target = join_path(join_path(crate_dir.as_str(), "target").as_str(), profile);
    let binary = join_path(target.as_str(), pkg.as_str());
    Ok(BuildPlan { bundle, files, cargo_args, outcome: BuildOutcome { crate_dir, binary } })
}

/// How running a command came to an end: it was never started, perhaps because
/// it is missing, or it exited.
#[derive(Debug)]
pub enum CommandEnd {
    NotStarted { missing: bool, message: String },
    Exited { success: bool, code: Option<i32> },
}

/// What `cargo` came to, as a refusal.
pub open spec fn cargo_refusal(end: CommandEnd) -> Option<BuildRefusal> {
    match end {
        CommandEnd::NotStarted { missing: _, message } => Some(BuildRefusal::CargoSpawn(message@)),
        CommandEnd::Exited { success: true, code: _ } => None,
        CommandEnd::Exited { success: false, code } => Some(
            BuildRefusal::Cargo(
                match code {
                    Some(c) => c as int,
                    None => -1,
                },
            ),
        ),
    }
}

/// What a build came to, once `cargo` has run: a program whose command ended
/// by a signal counts as ended with -1.
pub fn run_cargo(outcome: BuildOutcome, end: CommandEnd) -> (r: Result<BuildOutcome, BuildError>)
    ensures
        match cargo_refusal(end) {
            None => r == Ok::<BuildOutcome, BuildError>(outcome),
            Some(why) => r matches Err(e) && e@ == why,
        },
{
    match end {
        CommandEnd::NotStarted { missing: _, message } => Err(BuildError::CargoSpawn(message)),
        CommandEnd::Exited { success, code } => {
            if success {
                Ok(outcome)
            } else {
                let code: i32 = match code {
                    Some(c) => c,
                    None => -1,
                };
                Err(BuildError::Cargo { code })
            }
        },
    }
}

/// A bundle leaves out the traces, the notes and the memory of the agent where they
/// lie in its folder, and what builds and tools leave behind.
pub proof fn law_bundles_hold_no_state(def: Definition, i: int)
    ensures
        excluded(def).contains(DEFAULT_TRACE_DIRNAME@),
        excluded(def).contains(DEFAULT_SCRATCH_DIRNAME@),
        excluded(def).contains(DEFAULT_MEMORY_DIRNAME@),
        excluded(def).contains(DEFAULT_FEEDBACK_DIRNAME@),
        excluded(def).contains("target"@) && excluded(def).contains("dist"@) && excluded(
            def,
        ).contains(".git"@),
        def.trace_store matches Some(r) ==> (rel_of(r) matches Some(p) ==> excluded(def).contains(
            p,
        )),
        def.scratch_root matches Some(r) ==> (rel_of(r) matches Some(p) ==> excluded(def).contains(
            p,
        )),
        0 <= i < def.tools.len() && def.tools[i].name == "memory"@ && (forall|k: int|
            0 <= k < i ==> (#[trigger] def.tools[k]).name != "memory"@) ==> (
        def.tools[i].config.get_str("root"@) matches Some(r) ==> (rel_of(r) matches Some(p)
            ==> excluded(def).contains(p))),
{
    if 0 <= i < def.tools.len() && def.tools[i].name == "memory"@ && (forall|k: int|
        0 <= k < i ==> (#[trigger] def.tools[k]).name != "memory"@) {
        lemma_first_memory(def.tools, 0, i);
    }
}

proof fn lemma_first_memory(tools: Seq<Grant>, i: int, k: int)
    requires
        0 <= i <= k < tools.len(),
        tools[k].name == "memory"@,
        forall|j: int| i <= j < k ==> (#[trigger] tools[j]).name != "memory"@,
    ensures
        memory_grant(tools, i) == Some(tools[k]),
    decreases k - i,
{
    if i < k {
        lemma_first_memory(tools, i + 1, k);
    }
}

/// The type of the response is the one that the agent's source names, found in the
/// crate that its path starts with.
pub proof fn law_response_types_are_those_of_the_source(disk: &Disk, dir: Seq<char>, src: Seq<char>)
    ensures
        dependency_in(disk, dir, src) matches Ok(d) ==> {
            &&& const_text(src, "RESPONSE_RUST_TYPE"@) == Some(d.rust_type)
            &&& d.dep_name.len() > 0 && (d.dep_name + "::"@).is_prefix_of(d.rust_type)
            &&& d.path == dir
            &&& cargo_name(disk, dir) matches Ok(n) && (n == d.dep_name ==> d.package is None) && (n
                != d.dep_name ==> d.package == Some(n))
            &&& const_text(src, "MODEL_RESPONSE_RUST_TYPE"@) matches Some(m) ==> d.model_rust_type
                == m
            &&& const_text(src, "MODEL_RESPONSE_RUST_TYPE"@) is None ==> d.model_rust_type
                == d.rust_type
            &&& d.has_answer_hooks <==> holds(src, "pub fn answer_hooks"@)
            &&& d.has_storage <==> holds(src, "pub fn storage"@)
        },
{
    if let Some(t) = const_text(src, "RESPONSE_RUST_TYPE"@) {
        crate::split::law_cutting_loses_only_the_pattern(t, "::"@);
    }
}

/// What a dependency denotes is what stands in its parts.
pub proof fn law_dependencies_denote_their_parts(d: ResponseDependency)
    ensures
        d@.dep_name == d.dep_name@ && d@.path == d.path@ && d@.rust_type == d.rust_type@,
        d@.model_rust_type == d.model_rust_type@ && d@.schema_name == d.schema_name@,
        d@.has_answer_hooks == d.has_answer_hooks && d@.has_storage == d.has_storage,
        d.package matches Some(p) ==> d@.package == Some(p@),
{
}

} // verus!
