//! Values that a caller gives at each invocation, put into the definition
//! before an agent is made of it.
use vstd::prelude::*;

use crate::definition::{
    list_view, AgentDefinition, Definition, Grant, RuntimeArg, RuntimeParam, Tier, ToolKind,
};
use crate::environment::{set_var, Environment};
use crate::json::{opt_view, Json};
use crate::number::{is_number, number_text};
use crate::paths::{absolute, is_absolute, join_path, path_join};
use crate::split::{pieces, split};
use crate::table::{put, rows, Duplicate, Table};
use crate::text::{cat3, cat5, owned, same};
use crate::tools::grants::{set_object_string, with_member};

verus! {

/// The values that were given, by the names of the arguments.
pub type RuntimeValues = Table<String>;

/// Why the values cannot be applied.
#[derive(Debug)]
pub enum RuntimeArgError {
    /// A required argument has no value.
    Missing(String),
    /// What the argument is aimed at cannot be set.
    Target { arg: String, target: String, message: String },
}

/// What a [`RuntimeArgError`] denotes.
pub enum ArgRefusal {
    Missing(Seq<char>),
    Target(Seq<char>, Seq<char>, Seq<char>),
}

impl View for RuntimeArgError {
    type V = ArgRefusal;

    open spec fn view(&self) -> ArgRefusal {
        match self {
            RuntimeArgError::Missing(name) => ArgRefusal::Missing(name@),
            RuntimeArgError::Target { arg, target, message } => ArgRefusal::Target(
                arg@,
                target@,
                message@,
            ),
        }
    }
}

pub open spec fn arg_refusal_text(e: ArgRefusal) -> Seq<char> {
    match e {
        ArgRefusal::Missing(name) => "missing required runtime argument `"@ + name + "`"@,
        ArgRefusal::Target(arg, target, message) => "runtime argument `"@ + arg + "` targets `"@
            + target + "`: "@ + message,
    }
}

impl RuntimeArgError {
    /// The refusal in words.
    pub fn message(&self) -> (r: String)
        ensures
            r@ == arg_refusal_text(self@),
    {
        match self {
            RuntimeArgError::Missing(name) => cat3(
                "missing required runtime argument `",
                name.as_str(),
                "`",
            ),
            RuntimeArgError::Target { arg, target, message } => {
                let mut s = cat5(
                    "runtime argument `",
                    arg.as_str(),
                    "` targets `",
                    target.as_str(),
                    "`: ",
                );
                s.append(message.as_str());
                s
            },
        }
    }
}

// ----- targets -----
/// The last part of a target that holds a path.
pub open spec fn path_key(key: Seq<char>) -> bool {
    key == "root"@ || key == "file"@ || key == "artifact"@
}

/// The target holds a path.
pub open spec fn path_like(target: Seq<char>) -> bool {
    let p = pieces(target, '.');
    ||| p.len() == 3 && p[0] == "tools"@ && path_key(p[2])
    ||| p.len() == 4 && p[0] == "tools"@ && (p[1] == "mcp"@ || p[1] == "agent"@) && path_key(p[3])
    ||| p.len() == 2 && p[0] == "traces"@ && p[1] == "store"@
    ||| p.len() == 2 && p[0] == "scratchpad"@ && p[1] == "root"@
}

fn is_path_key(key: &str) -> (r: bool)
    ensures
        r == path_key(key@),
{
    same(key, "root") || same(key, "file") || same(key, "artifact")
}

/// Tells whether the target holds a path.
pub fn is_path_like_target(target: &str) -> (r: bool)
    ensures
        r == path_like(target@),
{
    let p = split(target, '.');
    let ghost parts = pieces(target@, '.');
    assert(forall|i: int| 0 <= i < parts.len() ==> #[trigger] parts[i] == p@[i]@);
    if p.len() == 2 {
        let traces = same(p[0].as_str(), "traces") && same(p[1].as_str(), "store");
        let scratch = same(p[0].as_str(), "scratchpad") && same(p[1].as_str(), "root");
        traces || scratch
    } else if p.len() == 3 {
        same(p[0].as_str(), "tools") && is_path_key(p[2].as_str())
    } else if p.len() == 4 {
        same(p[0].as_str(), "tools") && (same(p[1].as_str(), "mcp") || same(
            p[1].as_str(),
            "agent",
        )) && is_path_key(p[3].as_str())
    } else {
        false
    }
}

/// The value as it is stored: a relative path is one below the working
/// directory of the caller.
pub open spec fn normalized(target: Seq<char>, value: Seq<char>, cwd: Seq<char>) -> Seq<char> {
    if path_like(target) && !absolute(value) {
        path_join(cwd, value)
    } else {
        value
    }
}

pub fn normalize_runtime_value(target: &str, value: &str, cwd: &str) -> (r: String)
    ensures
        r@ == normalized(target@, value@, cwd@),
{
    if is_path_like_target(target) && !is_absolute(value) {
        join_path(cwd, value)
    } else {
        owned(value)
    }
}

/// The first grant of a kind and name, from index `i` on.
pub open spec fn grant_from(
    tools: Seq<Grant>,
    kind: ToolKind,
    name: Seq<char>,
    i: int,
) -> Option<int>
    decreases tools.len() - i,
{
    if i < 0 || i >= tools.len() {
        None
    } else if tools[i].kind == kind && tools[i].name == name {
        Some(i)
    } else {
        grant_from(tools, kind, name, i + 1)
    }
}

/// The definition with one text set in the configuration of a grant.
pub open spec fn grant_set(
    def: Definition,
    i: int,
    key: Seq<char>,
    value: Seq<char>,
) -> Definition {
    Definition {
        tools: def.tools.update(
            i,
            Grant { config: with_member(def.tools[i].config, key, Json::Str(value)), ..def.tools[i] },
        ),
        ..def
    }
}

pub open spec fn no_such_target() -> Seq<char> {
    "supported targets are tools.<grant>.<key>, tools.agent.<grant>.<key>, tools.mcp.<grant>.<key>, models.*, traces.store, and scratchpad.root"@
}

/// The definition with `value` at the target, or why it cannot be put there.
pub open spec fn target_set(def: Definition, target: Seq<char>, value: Seq<char>) -> Result<
    Definition,
    Seq<char>,
> {
    let p = pieces(target, '.');
    if p.len() == 3 && p[0] == "tools"@ {
        match grant_from(def.tools, ToolKind::Library, p[1], 0) {
            None => Err("no library tool grant named `"@ + p[1] + "`"@),
            Some(i) => Ok(grant_set(def, i, p[2], value)),
        }
    } else if p.len() == 4 && p[0] == "tools"@ {
        if p[1] != "mcp"@ && p[1] != "agent"@ {
            Err("unknown tools namespace `"@ + p[1] + "` (expected `mcp` or `agent`)"@)
        } else {
            let kind = if p[1] == "mcp"@ {
                ToolKind::Mcp
            } else {
                ToolKind::Agent
            };
            match grant_from(def.tools, kind, p[2], 0) {
                None => Err("no "@ + p[1] + " tool grant named `"@ + p[2] + "`"@),
                Some(i) => Ok(grant_set(def, i, p[3], value)),
            }
        }
    } else if p.len() == 2 && p[0] == "models"@ && p[1] == "base_url"@ {
        Ok(Definition { base_url: Some(value), ..def })
    } else if p.len() == 2 && p[0] == "models"@ && p[1] == "api_key_env"@ {
        Ok(Definition { api_key_env: Some(value), ..def })
    } else if p.len() == 3 && p[0] == "models"@ {
        if !def.tiers.dom().contains(p[1]) {
            Err("no model tier named `"@ + p[1] + "`"@)
        } else {
            match tier_set(def.tiers[p[1]], p[2], value) {
                Ok(tier) => Ok(Definition { tiers: def.tiers.insert(p[1], tier), ..def }),
                Err(e) => Err(e),
            }
        }
    } else if p.len() == 2 && p[0] == "traces"@ && p[1] == "store"@ {
        Ok(Definition { trace_store: Some(value), ..def })
    } else if p.len() == 2 && p[0] == "scratchpad"@ && p[1] == "root"@ {
        Ok(Definition { scratch_root: Some(value), ..def })
    } else {
        Err(no_such_target())
    }
}

/// A tier with `value` at `key`, or why it cannot be put there.
pub open spec fn tier_set(tier: Tier, key: Seq<char>, value: Seq<char>) -> Result<Tier, Seq<char>> {
    if key == "model"@ {
        Ok(Tier { model: value, ..tier })
    } else if key == "input_usd_per_m_tokens"@ {
        if is_number(value) {
            Ok(Tier { input_price: Some(value), ..tier })
        } else {
            Err("input_usd_per_m_tokens must be a number"@)
        }
    } else if key == "output_usd_per_m_tokens"@ {
        if is_number(value) {
            Ok(Tier { output_price: Some(value), ..tier })
        } else {
            Err("output_usd_per_m_tokens must be a number"@)
        }
    } else {
        Err("unknown model tier key `"@ + key + "`"@)
    }
}

fn same_kind(a: ToolKind, b: ToolKind) -> (r: bool)
    ensures
        r == (a == b),
{
    match a {
        ToolKind::Library => matches!(b, ToolKind::Library),
        ToolKind::Mcp => matches!(b, ToolKind::Mcp),
        ToolKind::Agent => matches!(b, ToolKind::Agent),
    }
}

/// Sets one text in the configuration of the first grant of a kind and name;
/// tells whether there is one.
fn set_in_grant(
    def: &mut AgentDefinition,
    kind: ToolKind,
    name: &str,
    key: &str,
    value: &str,
) -> (r: bool)
    ensures
        match grant_from(old(def)@.tools, kind, name@, 0) {
            None => !r && *final(def) == *old(def),
            Some(i) => r && final(def)@ == grant_set(old(def)@, i, key@, value@),
        },
{
    let ghost tools = def@.tools;
    let ghost start = def@;
    let ghost whole = *def;
    let mut i: usize = 0;
    while i < def.tools.len()
        invariant
            *def == whole,
            def@ == start,
            tools == start.tools,
            i <= def.tools@.len(),
            whole == *old(def),
            grant_from(tools, kind, name@, 0) == grant_from(tools, kind, name@, i as int),
        decreases def.tools@.len() - i,
    {
        assert(tools[i as int] == def.tools@[i as int]@);
        if same_kind(def.tools[i].kind, kind) && same(def.tools[i].name.as_str(), name) {
            let mut grant = def.tools[i].duplicate();
            grant.config = set_object_string(grant.config, key, value);
            let ghost g = grant@;
            def.tools.set(i, grant);
            assert(list_view(def.tools@) =~= tools.update(i as int, g));
            return true;
        }
        i = i + 1;
    }
    false
}

fn fail(arg: &str, target: &str, message: String) -> (r: RuntimeArgError)
    ensures
        r@ == ArgRefusal::Target(arg@, target@, message@),
{
    RuntimeArgError::Target { arg: owned(arg), target: owned(target), message }
}

/// Puts `value` at the target of argument `arg`. Where that cannot be done, the
/// definition stays as it is.
pub fn apply_target(def: &mut AgentDefinition, arg: &str, target: &str, value: &str) -> (r: Result<
    (),
    RuntimeArgError,
>)
    ensures
        match target_set(old(def)@, target@, value@) {
            Ok(d) => r is Ok && final(def)@ == d,
            Err(why) => {
                &&& final(def)@ == old(def)@
                &&& r matches Err(e)
                &&& e@ == ArgRefusal::Target(arg@, target@, why)
            },
        },
{
    let p = split(target, '.');
    let ghost parts = pieces(target@, '.');
    assert(forall|i: int| 0 <= i < parts.len() ==> #[trigger] parts[i] == p@[i]@);
    if p.len() == 3 && same(p[0].as_str(), "tools") {
        if set_in_grant(def, ToolKind::Library, p[1].as_str(), p[2].as_str(), value) {
            return Ok(());
        }
        return Err(fail(arg, target, cat3("no library tool grant named `", p[1].as_str(), "`")));
    }
    if p.len() == 4 && same(p[0].as_str(), "tools") {
        let kind = if same(p[1].as_str(), "mcp") {
            ToolKind::Mcp
        } else if same(p[1].as_str(), "agent") {
            ToolKind::Agent
        } else {
            return Err(
                fail(
                    arg,
                    target,
                    cat3(
                        "unknown tools namespace `",
                        p[1].as_str(),
                        "` (expected `mcp` or `agent`)",
                    ),
                ),
            );
        };
        if set_in_grant(def, kind, p[2].as_str(), p[3].as_str(), value) {
            return Ok(());
        }
        return Err(
            fail(
                arg,
                target,
                cat5("no ", p[1].as_str(), " tool grant named `", p[2].as_str(), "`"),
            ),
        );
    }
    if p.len() == 2 && same(p[0].as_str(), "models") && same(p[1].as_str(), "base_url") {
        def.models.base_url = Some(owned(value));
        return Ok(());
    }
    if p.len() == 2 && same(p[0].as_str(), "models") && same(p[1].as_str(), "api_key_env") {
        def.models.api_key_env = Some(owned(value));
        return Ok(());
    }
    if p.len() == 3 && same(p[0].as_str(), "models") {
        let mut tier = match def.models.tiers.get(p[1].as_str()) {
            Some(t) => t.duplicate(),
            None => {
                return Err(fail(arg, target, cat3("no model tier named `", p[1].as_str(), "`")));
            },
        };
        let key = p[2].as_str();
        if same(key, "model") {
            tier.model = owned(value);
        } else if same(key, "input_usd_per_m_tokens") {
            if !number_text(value) {
                return Err(fail(arg, target, owned("input_usd_per_m_tokens must be a number")));
            }
            tier.input_usd_per_m_tokens = Some(owned(value));
        } else if same(key, "output_usd_per_m_tokens") {
            if !number_text(value) {
                return Err(fail(arg, target, owned("output_usd_per_m_tokens must be a number")));
            }
            tier.output_usd_per_m_tokens = Some(owned(value));
        } else {
            return Err(fail(arg, target, cat3("unknown model tier key `", key, "`")));
        }
        put(&mut def.models.tiers, p[1].as_str(), tier);
        return Ok(());
    }
    if p.len() == 2 && same(p[0].as_str(), "traces") && same(p[1].as_str(), "store") {
        def.traces.store = Some(owned(value));
        return Ok(());
    }
    if p.len() == 2 && same(p[0].as_str(), "scratchpad") && same(p[1].as_str(), "root") {
        def.scratchpad.root = Some(owned(value));
        return Ok(());
    }
    Err(
        fail(
            arg,
            target,
            owned(
                "supported targets are tools.<grant>.<key>, tools.agent.<grant>.<key>, tools.mcp.<grant>.<key>, models.*, traces.store, and scratchpad.root",
            ),
        ),
    )
}

// ----- values -----
/// The value of an argument: the one given, else the one in the environment
/// where it is not empty, else the default.
pub open spec fn value_for(
    arg: RuntimeParam,
    given: Map<Seq<char>, Seq<char>>,
    env: Map<Seq<char>, Seq<char>>,
) -> Option<Seq<char>> {
    if given.dom().contains(arg.name) {
        Some(given[arg.name])
    } else {
        match arg.env {
            Some(name) => match set_var(env, name) {
                Some(v) => Some(v),
                None => arg.default,
            },
            None => arg.default,
        }
    }
}

fn find_value(arg: &RuntimeArg, given: &RuntimeValues, env: &Environment) -> (r: Option<String>)
    ensures
        opt_view(r) == value_for(arg@, rows(*given), env@),
{
    if let Some(v) = given.get(arg.name.as_str()) {
        return Some(v.clone());
    }
    if let Some(name) = &arg.env {
        if let Some(v) = env.get_set(name.as_str()) {
            return Some(v.clone());
        }
    }
    crate::definition::copy_text(&arg.default)
}

/// The definition after the arguments from index `i` on, and what stopped them
/// if anything did.
pub open spec fn applied(
    def: Definition,
    args: Seq<RuntimeParam>,
    i: int,
    given: Map<Seq<char>, Seq<char>>,
    env: Map<Seq<char>, Seq<char>>,
    cwd: Seq<char>,
) -> (Definition, Option<ArgRefusal>)
    decreases args.len() - i,
{
    if i < 0 || i >= args.len() {
        (def, None)
    } else {
        match value_for(args[i], given, env) {
            None => if args[i].required {
                (def, Some(ArgRefusal::Missing(args[i].name)))
            } else {
                applied(def, args, i + 1, given, env, cwd)
            },
            Some(value) => match target_set(
                def,
                args[i].target,
                normalized(args[i].target, value, cwd),
            ) {
                Ok(d) => applied(d, args, i + 1, given, env, cwd),
                Err(why) => (
                    def,
                    Some(ArgRefusal::Target(args[i].name, args[i].target, why)),
                ),
            },
        }
    }
}

/// Puts the values of all declared arguments into the definition, one after
/// the other, up to the first that is missing or cannot be put.
pub fn apply_runtime_values(
    def: &mut AgentDefinition,
    given: &RuntimeValues,
    env: &Environment,
    cwd: &str,
) -> (r: Result<(), RuntimeArgError>)
    ensures
        ({
            let (d, stopped) = applied(
                old(def)@,
                old(def)@.args,
                0,
                rows(*given),
                env@,
                cwd@,
            );
            &&& final(def)@ == d
            &&& match r {
                Ok(_) => stopped is None,
                Err(e) => stopped == Some(e@),
            }
        }),
{
    let args = crate::definition::copy_list(&def.runtime.args);
    let ghost params = list_view(args@);
    let ghost goal = applied(def@, params, 0, rows(*given), env@, cwd@);
    let mut i: usize = 0;
    while i < args.len()
        invariant
            i <= args@.len(),
            params == list_view(args@),
            params == old(def)@.args,
            goal == applied(old(def)@, params, 0, rows(*given), env@, cwd@),
            goal == applied(def@, params, i as int, rows(*given), env@, cwd@),
        decreases args.len() - i,
    {
        assert(params[i as int] == args@[i as int]@);
        let arg = &args[i];
        match find_value(arg, given, env) {
            Some(value) => {
                let value = normalize_runtime_value(arg.target.as_str(), value.as_str(), cwd);
                match apply_target(def, arg.name.as_str(), arg.target.as_str(), value.as_str()) {
                    Ok(_) => {},
                    Err(e) => {
                        return Err(e);
                    },
                }
            },
            None => {
                if arg.required {
                    return Err(RuntimeArgError::Missing(arg.name.clone()));
                }
            },
        }
        i = i + 1;
    }
    Ok(())
}

// ----- laws -----
/// A value that is given stands, whatever the environment and the default say.
pub proof fn law_given_values_come_first(
    arg: RuntimeParam,
    given: Map<Seq<char>, Seq<char>>,
    env: Map<Seq<char>, Seq<char>>,
)
    requires
        given.dom().contains(arg.name),
    ensures
        value_for(arg, given, env) == Some(given[arg.name]),
{
}

/// Values change the configuration of granted tools, the tiers and the places
/// of stored state: they grant no tool and take none away, and neither the
/// kind nor the name of a grant changes.
pub proof fn law_values_grant_nothing(
    def: Definition,
    args: Seq<RuntimeParam>,
    i: int,
    given: Map<Seq<char>, Seq<char>>,
    env: Map<Seq<char>, Seq<char>>,
    cwd: Seq<char>,
)
    ensures
        ({
            let d = applied(def, args, i, given, env, cwd).0;
            &&& d.tools.len() == def.tools.len()
            &&& forall|k: int|
                0 <= k < def.tools.len() ==> (#[trigger] d.tools[k]).kind == def.tools[k].kind
                    && d.tools[k].name == def.tools[k].name
            &&& d.name == def.name
            &&& d.limits == def.limits
            &&& d.args == def.args
        }),
    decreases args.len() - i,
{
    if 0 <= i < args.len() {
        match value_for(args[i], given, env) {
            None => {
                law_values_grant_nothing(def, args, i + 1, given, env, cwd);
            },
            Some(value) => {
                let t = args[i].target;
                match target_set(def, t, normalized(t, value, cwd)) {
                    Ok(d) => {
                        lemma_target_keeps_grants(def, t, normalized(t, value, cwd));
                        law_values_grant_nothing(d, args, i + 1, given, env, cwd);
                    },
                    Err(_) => {},
                }
            },
        }
    }
}

proof fn lemma_grant_index(tools: Seq<Grant>, kind: ToolKind, name: Seq<char>, i: int)
    requires
        0 <= i,
    ensures
        grant_from(tools, kind, name, i) matches Some(k) ==> i <= k < tools.len() && tools[k].kind
            == kind && tools[k].name == name,
    decreases tools.len() - i,
{
    if i < tools.len() {
        lemma_grant_index(tools, kind, name, i + 1);
    }
}

proof fn lemma_target_keeps_grants(def: Definition, target: Seq<char>, value: Seq<char>)
    ensures
        target_set(def, target, value) matches Ok(d) ==> {
            &&& d.tools.len() == def.tools.len()
            &&& forall|k: int|
                0 <= k < def.tools.len() ==> (#[trigger] d.tools[k]).kind == def.tools[k].kind
                    && d.tools[k].name == def.tools[k].name
            &&& d.name == def.name
            &&& d.limits == def.limits
            &&& d.args == def.args
        },
{
    let p = pieces(target, '.');
    if p.len() == 3 {
        lemma_grant_index(def.tools, ToolKind::Library, p[1], 0);
    }
    if p.len() == 4 {
        lemma_grant_index(def.tools, ToolKind::Mcp, p[2], 0);
        lemma_grant_index(def.tools, ToolKind::Agent, p[2], 0);
    }
}

/// A value that is not given comes from the variable named for it, and else from the
/// default.
pub proof fn law_variables_come_before_defaults(
    arg: RuntimeParam,
    given: Map<Seq<char>, Seq<char>>,
    env: Map<Seq<char>, Seq<char>>,
    value: Seq<char>,
)
    requires
        !given.dom().contains(arg.name),
        value.len() > 0,
    ensures
        arg.env matches Some(name) ==> value_for(arg, given, env.insert(name, value)) == Some(value)
            && value_for(arg, given, env.remove(name)) == arg.default && value_for(
            arg,
            given,
            env.insert(name, Seq::empty()),
        ) == arg.default,
        arg.env is None ==> value_for(arg, given, env) == arg.default,
{
}

/// A value for a place that names a path is taken from the working directory, unless
/// it is absolute; every other value is taken as it is.
pub proof fn law_paths_are_taken_from_the_working_directory(
    target: Seq<char>,
    value: Seq<char>,
    cwd: Seq<char>,
    grant: Seq<char>,
    key: Seq<char>,
)
    ensures
        absolute(value) ==> normalized(target, value, cwd) == value,
        !absolute(value) ==> {
            let p = pieces(target, '.');
            let taken = normalized(target, value, cwd);
            &&& p == seq!["traces"@, "store"@] ==> taken == path_join(cwd, value)
            &&& p == seq!["scratchpad"@, "root"@] ==> taken == path_join(cwd, value)
            &&& p == seq!["tools"@, grant, key] && (key == "root"@ || key == "file"@ || key
                == "artifact"@) ==> taken == path_join(cwd, value)
            &&& p == seq!["tools"@, "mcp"@, grant, key] && (key == "root"@ || key == "file"@ || key
                == "artifact"@) ==> taken == path_join(cwd, value)
            &&& p == seq!["tools"@, "agent"@, grant, key] && (key == "root"@ || key == "file"@
                || key == "artifact"@) ==> taken == path_join(cwd, value)
            &&& p[0] == "models"@ ==> taken == value
        },
{
    reveal_strlit("tools");
    reveal_strlit("traces");
    reveal_strlit("models");
    reveal_strlit("scratchpad");
    reveal_strlit("store");
    reveal_strlit("mcp");
    reveal_strlit("agent");
    reveal_strlit("root");
    reveal_strlit("file");
    reveal_strlit("artifact");
    assert("tools"@.len() == 5);
    assert("traces"@.len() == 6);
    assert("models"@.len() == 6);
    assert("scratchpad"@.len() == 10);
    assert("store"@.len() == 5);
    assert("mcp"@.len() == 3);
    assert("agent"@.len() == 5);
    assert("root"@.len() == 4);
    assert("file"@.len() == 4);
    assert("artifact"@.len() == 8);
    assert("tools"@[0] != "store"@[0]);
    assert("tools"@[0] != "agent"@[0]);
    assert("traces"@[0] != "models"@[0]);
    assert("store"@[0] != "agent"@[0]);
    assert("root"@[0] != "file"@[0]);
}

/// A target sets what it names and leaves the rest as it is.
pub proof fn law_targets_set_what_they_name(
    def: Definition,
    target: Seq<char>,
    value: Seq<char>,
    tier: Seq<char>,
)
    ensures
        ({
            let p = pieces(target, '.');
            let r = target_set(def, target, value);
            &&& p == seq!["models"@, "base_url"@] ==> r == Ok::<Definition, Seq<char>>(
                Definition { base_url: Some(value), ..def },
            )
            &&& p == seq!["models"@, "api_key_env"@] ==> r == Ok::<Definition, Seq<char>>(
                Definition { api_key_env: Some(value), ..def },
            )
            &&& p == seq!["traces"@, "store"@] ==> r == Ok::<Definition, Seq<char>>(
                Definition { trace_store: Some(value), ..def },
            )
            &&& p == seq!["scratchpad"@, "root"@] ==> r == Ok::<Definition, Seq<char>>(
                Definition { scratch_root: Some(value), ..def },
            )
            &&& p == seq!["models"@, tier, "model"@] && def.tiers.dom().contains(tier) ==> {
                let t = Tier { model: value, ..def.tiers[tier] };
                r == Ok::<Definition, Seq<char>>(
                    Definition { tiers: def.tiers.insert(tier, t), ..def },
                )
            }
            &&& p == seq!["models"@, tier, "input_usd_per_m_tokens"@] && def.tiers.dom().contains(
                tier,
            ) && is_number(value) ==> {
                let t = Tier { input_price: Some(value), ..def.tiers[tier] };
                r == Ok::<Definition, Seq<char>>(
                    Definition { tiers: def.tiers.insert(tier, t), ..def },
                )
            }
            &&& p == seq!["models"@, tier, "output_usd_per_m_tokens"@] && def.tiers.dom().contains(
                tier,
            ) && is_number(value) ==> {
                let t = Tier { output_price: Some(value), ..def.tiers[tier] };
                r == Ok::<Definition, Seq<char>>(
                    Definition { tiers: def.tiers.insert(tier, t), ..def },
                )
            }
            &&& p.len() == 3 && p[0] == "models"@ && !def.tiers.dom().contains(p[1]) ==> r is Err
        }),
{
    reveal_strlit("tools");
    reveal_strlit("traces");
    reveal_strlit("models");
    reveal_strlit("scratchpad");
    reveal_strlit("base_url");
    reveal_strlit("api_key_env");
    reveal_strlit("model");
    reveal_strlit("input_usd_per_m_tokens");
    reveal_strlit("output_usd_per_m_tokens");
    reveal_strlit("store");
    reveal_strlit("root");
    assert("tools"@.len() == 5);
    assert("traces"@.len() == 6);
    assert("models"@.len() == 6);
    assert("scratchpad"@.len() == 10);
    assert("base_url"@.len() == 8);
    assert("api_key_env"@.len() == 11);
    assert("model"@.len() == 5);
    assert("input_usd_per_m_tokens"@.len() == 22);
    assert("output_usd_per_m_tokens"@.len() == 23);
    assert("store"@.len() == 5);
    assert("root"@.len() == 4);
    assert("tools"@[0] != "model"@[0]);
    assert("tools"@[0] != "store"@[0]);
    assert("traces"@[0] != "models"@[0]);
    assert("model"@[0] != "store"@[0]);
}

/// A target of a tool sets the member it names in the configuration of the first
/// grant of that kind and name, and nothing else.
pub proof fn law_targets_configure_their_grant(
    def: Definition,
    target: Seq<char>,
    value: Seq<char>,
    i: int,
    key: Seq<char>,
    other: Seq<char>,
)
    requires
        0 <= i < def.tools.len(),
        forall|k: int|
            0 <= k < i ==> (#[trigger] def.tools[k]).kind != def.tools[i].kind || def.tools[k].name
                != def.tools[i].name,
        match def.tools[i].kind {
            ToolKind::Library => pieces(target, '.') == seq!["tools"@, def.tools[i].name, key],
            ToolKind::Mcp => pieces(target, '.') == seq![
                "tools"@,
                "mcp"@,
                def.tools[i].name,
                key,
            ],
            ToolKind::Agent => pieces(target, '.') == seq![
                "tools"@,
                "agent"@,
                def.tools[i].name,
                key,
            ],
        },
    ensures
        target_set(def, target, value) matches Ok(d) && {
            &&& d == (Definition { tools: d.tools, ..def })
            &&& d.tools.len() == def.tools.len()
            &&& forall|k: int|
                0 <= k < d.tools.len() && k != i ==> #[trigger] d.tools[k] == def.tools[k]
            &&& d.tools[i].config.get_str(key) == Some(value)
            &&& other != key && def.tools[i].config is Object ==> d.tools[i].config.get(other)
                == def.tools[i].config.get(other)
        },
{
    reveal_strlit("tools");
    reveal_strlit("mcp");
    reveal_strlit("agent");
    assert("tools"@.len() == 5);
    assert("mcp"@.len() == 3);
    assert("agent"@.len() == 5);
    assert("tools"@[0] != "agent"@[0]);
    lemma_first_grant(def.tools, def.tools[i].kind, def.tools[i].name, 0, i);
    let fields = match def.tools[i].config {
        Json::Object(fields) => fields,
        _ => Seq::empty(),
    };
    crate::json::law_set_members_are_found(fields, key, Json::Str(value), other);
}

proof fn lemma_first_grant(tools: Seq<Grant>, kind: ToolKind, name: Seq<char>, i: int, k: int)
    requires
        0 <= i <= k < tools.len(),
        tools[k].kind == kind && tools[k].name == name,
        forall|j: int|
            i <= j < k ==> (#[trigger] tools[j]).kind != kind || tools[j].name != name,
    ensures
        grant_from(tools, kind, name, i) == Some(k),
    decreases k - i,
{
    if i < k {
        lemma_first_grant(tools, kind, name, i + 1, k);
    }
}

} // verus!
