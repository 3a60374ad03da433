//! Agents that are defined by a configuration object in place of a manifest:
//! the same definition comes of it, so that both kinds behave alike.
//!
//! The host reads the sections that are records of their own; everything that
//! puts them together is here.
use vstd::prelude::*;

use crate::agent::card::{arrange, arranged};
use crate::definition::{
    list_view, AgentDefinition, AgentMeta, ContextConfig, Context, Definition, Grant, LimitsConfig,
    ModelsConfig, Provider, ProviderConfig, RuntimeArg, RuntimeConfig, RuntimeParam,
    ScratchpadConfig, Tier, TierConfig, ToolGrant, ToolKind, TracesConfig, unsaid_context,
    ModelResolution, Resolution,
};
use crate::environment::Environment;
use crate::json::{members_view, opt_view, Data, Field, Json, Member};
use crate::models::{
    built_in_catalog, default_catalog, deciding, opt_catalog, refusal_text,
    resolve_runtime_definition, resolve_source_definition, settles, Catalog, ModelCatalog, ModelConfigError,
};
use crate::sorting::{in_order, is_permutation, law_order, order_of};
use crate::table::{put, rows, Duplicate, Table};
use crate::text::{cat, cat3, owned, same, trim, trimmed, views};

verus! {

/// What the host read of the sections that are records of their own: each tier
/// of `models`, in the order of its members, and the other sections.
#[derive(Debug)]
pub struct Sections {
    pub tiers: Vec<Result<TierConfig, String>>,
    pub providers: Result<Table<ProviderConfig>, String>,
    pub limits: Result<LimitsConfig, String>,
    pub context: Result<ContextConfig, String>,
}

// ----- models -----
/// The tiers of the first `n` members, or what is wrong with one.
pub open spec fn tiers_of(
    members: Seq<Field>,
    read: Seq<Result<TierConfig, String>>,
    n: int,
) -> Result<Map<Seq<char>, Tier>, Seq<char>>
    decreases n,
{
    if n <= 0 {
        Ok(Map::empty())
    } else {
        let key = members[n - 1].key;
        match tiers_of(members, read, n - 1) {
            Err(e) => Err(e),
            Ok(tiers) => if key == "default"@ {
                Ok(tiers)
            } else {
                match read[n - 1] {
                    Err(e) => Err("invalid model tier `"@ + key + "`: "@ + e@),
                    Ok(t) => if trimmed(t.model@).len() == 0 {
                        Err("model tier `"@ + key + "` requires a `model` id"@)
                    } else {
                        Ok(tiers.insert(key, t@))
                    },
                }
            },
        }
    }
}

proof fn lemma_tiers_stop(
    members: Seq<Field>,
    read: Seq<Result<TierConfig, String>>,
    i: int,
    n: int,
)
    requires
        0 <= i <= n,
        tiers_of(members, read, i) is Err,
    ensures
        tiers_of(members, read, n) == tiers_of(members, read, i),
    decreases n - i,
{
    if i < n {
        lemma_tiers_stop(members, read, i, n - 1);
    }
}

/// The members of a value, if it is an object.
pub open spec fn fields_of(value: Option<Json>) -> Seq<Field> {
    match value {
        Some(Json::Object(fields)) => fields,
        _ => Seq::empty(),
    }
}

/// A section of `models`: the preferred tier and the tiers, or what is wrong.
pub open spec fn models_of(value: Option<Json>, read: Seq<Result<TierConfig, String>>) -> Result<
    (Option<Seq<char>>, Map<Seq<char>, Tier>),
    Seq<char>,
> {
    match value {
        None => Ok((None, Map::empty())),
        Some(v) => match v {
            Json::Object(fields) => match tiers_of(fields, read, fields.len() as int) {
                Err(e) => Err(e),
                Ok(tiers) => Ok(
                    (
                        match v.get_str("default"@) {
                            Some(t) => Some(t),
                            None => Some("balanced"@),
                        },
                        tiers,
                    ),
                ),
            },
            _ => Err("`models` must be an object"@),
        },
    }
}

/// What an optional value denotes.
pub open spec fn value_view(value: Option<&Data>) -> Option<Json> {
    match value {
        Some(v) => Some(v@),
        None => None,
    }
}

/// The model tiers of a configuration: `default` names the preferred one, every
/// other member is a tier.
pub fn models_from(value: Option<&Data>, read: &Vec<Result<TierConfig, String>>) -> (r: Result<
    ModelsConfig,
    String,
>)
    requires
        read@.len() >= fields_of(value_view(value)).len(),
    ensures
        match r {
            Ok(m) => {
                &&& models_of(value_view(value), read@) == Ok::<
                    (Option<Seq<char>>, Map<Seq<char>, Tier>),
                    Seq<char>,
                >((opt_view(m.default), rows(m.tiers)))
                &&& m.base_url is None
                &&& m.api_key_env is None
            },
            Err(e) => models_of(value_view(value), read@) == Err::<
                (Option<Seq<char>>, Map<Seq<char>, Tier>),
                Seq<char>,
            >(e@),
        },
{
    let object = match value {
        Some(v) => v,
        None => {
            return Ok(ModelsConfig::new());
        },
    };
    let members: &Vec<Member> = match object.as_object() {
        Some(m) => m,
        None => {
            return Err(owned("`models` must be an object"));
        },
    };
    let ghost fields = members_view(members@);
    assert(object@ == Json::Object(fields));
    let mut models = ModelsConfig::new();
    let mut tiers: Table<TierConfig> = Table::new();
    assert(rows(tiers) =~= Map::<Seq<char>, Tier>::empty());
    let mut i: usize = 0;
    while i < members.len()
        invariant
            i <= members@.len(),
            fields == members_view(members@),
            object@ == Json::Object(fields),
            value_view(value) == Some(object@),
            read@.len() >= fields.len(),
            tiers_of(fields, read@, i as int) == Ok::<Map<Seq<char>, Tier>, Seq<char>>(
                rows(tiers),
            ),
        decreases members.len() - i,
    {
        assert(fields[i as int].key == members@[i as int].key@);
        let key = members[i].key.as_str();
        if !same(key, "default") {
            match &read[i] {
                Err(e) => {
                    let mut m = cat3("invalid model tier `", key, "`: ");
                    m.append(e.as_str());
                    proof {
                        lemma_tiers_stop(fields, read@, i + 1, fields.len() as int);
                    }
                    return Err(m);
                },
                Ok(t) => {
                    if trim(t.model.as_str()).as_str().is_empty() {
                        proof {
                            lemma_tiers_stop(fields, read@, i + 1, fields.len() as int);
                        }
                        return Err(cat3("model tier `", key, "` requires a `model` id"));
                    }
                    put(&mut tiers, key, t.duplicate());
                },
            }
        }
        i = i + 1;
    }
    models.tiers = tiers;
    models.default = match object.get_str("default") {
        Some(t) => Some(owned(t)),
        None => Some(owned("balanced")),
    };
    Ok(models)
}

// ----- grants -----
/// The grants of the instances in a namespace, the first `n`.
pub open spec fn instances_of(kind: ToolKind, instances: Seq<Field>) -> Seq<Grant> {
    instances.map_values(|f: Field| Grant { name: f.key, kind, config: f.value })
}

/// The namespace that a member is, if it is one.
pub open spec fn namespace_of(key: Seq<char>) -> Option<ToolKind> {
    if key == "mcp"@ {
        Some(ToolKind::Mcp)
    } else if key == "agent"@ {
        Some(ToolKind::Agent)
    } else {
        None
    }
}

/// The grants of the first `n` members, or what is wrong with one.
pub open spec fn grants_in(members: Seq<Field>, n: int) -> Result<Seq<Grant>, Seq<char>>
    decreases n,
{
    if n <= 0 {
        Ok(Seq::empty())
    } else {
        let f = members[n - 1];
        match grants_in(members, n - 1) {
            Err(e) => Err(e),
            Ok(grants) => match namespace_of(f.key) {
                None => Ok(
                    grants.push(Grant { name: f.key, kind: ToolKind::Library, config: f.value }),
                ),
                Some(kind) => match f.value {
                    Json::Object(instances) => Ok(grants + instances_of(kind, instances)),
                    _ => Err("`grants."@ + f.key + "` must be an object of instances"@),
                },
            },
        }
    }
}

proof fn lemma_grants_stop(members: Seq<Field>, i: int, n: int)
    requires
        0 <= i <= n,
        grants_in(members, i) is Err,
    ensures
        grants_in(members, n) == grants_in(members, i),
    decreases n - i,
{
    if i < n {
        lemma_grants_stop(members, i, n - 1);
    }
}

/// What a grant is ordered by: first who provides it, then its name.
pub open spec fn rank(g: Grant) -> Seq<char> {
    (match g.kind {
        ToolKind::Library => "0"@,
        ToolKind::Mcp => "1"@,
        ToolKind::Agent => "2"@,
    }) + g.name
}

pub open spec fn ranks(grants: Seq<Grant>) -> Seq<Seq<char>> {
    grants.map_values(|g: Grant| rank(g))
}

/// Grants are listed by who provides them and then by name, and none is lost or
/// listed twice.
pub proof fn law_grants_are_listed_in_order(grants: Seq<Grant>)
    ensures
        is_permutation(order_of(ranks(grants)), grants.len()),
        in_order(ranks(grants), order_of(ranks(grants))),
{
    law_order(ranks(grants));
}

/// The grants of a configuration, in order, or what is wrong with them.
pub open spec fn grants_of(value: Option<Json>) -> Result<Seq<Grant>, Seq<char>> {
    match value {
        None => Ok(Seq::empty()),
        Some(Json::Object(fields)) => match grants_in(fields, fields.len() as int) {
            Ok(grants) => Ok(arranged(grants, order_of(ranks(grants)))),
            Err(e) => Err(e),
        },
        Some(_) => Err("`grants` must be an object"@),
    }
}

/// What grants, or the lack of them, denote.
pub open spec fn grants_outcome(r: Result<Vec<ToolGrant>, String>) -> Result<
    Seq<Grant>,
    Seq<char>,
> {
    match r {
        Ok(g) => Ok(list_view(g@)),
        Err(e) => Err(e@),
    }
}

fn add_instances(grants: &mut Vec<ToolGrant>, kind: ToolKind, instances: &Vec<Member>)
    ensures
        list_view(final(grants)@) == list_view(old(grants)@) + instances_of(
            kind,
            members_view(instances@),
        ),
{
    let ghost before = list_view(grants@);
    let ghost all = instances_of(kind, members_view(instances@));
    let mut i: usize = 0;
    while i < instances.len()
        invariant
            i <= instances@.len(),
            all == instances_of(kind, members_view(instances@)),
            list_view(grants@) =~= before + all.take(i as int),
        decreases instances.len() - i,
    {
        let ghost was = grants@;
        let grant = ToolGrant {
            name: instances[i].key.clone(),
            kind,
            config: instances[i].value.copy(),
        };
        let ghost g = grant@;
        assert(members_view(instances@)[i as int] == crate::json::field(
            instances@[i as int].key@,
            instances@[i as int].value@,
        ));
        assert(g == all[i as int]);
        grants.push(grant);
        assert(list_view(grants@) =~= list_view(was).push(g));
        i = i + 1;
    }
    assert(all.take(i as int) =~= all);
}

fn rank_of(g: &ToolGrant) -> (r: String)
    ensures
        r@ == rank(g@),
{
    let kind = match g.kind {
        ToolKind::Library => "0",
        ToolKind::Mcp => "1",
        ToolKind::Agent => "2",
    };
    cat(kind, g.name.as_str())
}

fn rank_all(grants: &Vec<ToolGrant>) -> (r: Vec<String>)
    ensures
        views(r@) == ranks(list_view(grants@)),
        r@.len() == grants@.len(),
{
    let mut r: Vec<String> = Vec::new();
    let mut i: usize = 0;
    while i < grants.len()
        invariant
            i <= grants@.len(),
            r@.len() == i,
            views(r@) =~= ranks(list_view(grants@)).take(i as int),
        decreases grants.len() - i,
    {
        let ghost was = r@;
        let one = rank_of(&grants[i]);
        let ghost v = one@;
        r.push(one);
        assert(views(r@) =~= views(was).push(v));
        i = i + 1;
    }
    r
}

/// The grants of a configuration: library tools by their names, and the
/// instances of the namespaces `mcp` and `agent`.
pub fn grants_from(value: Option<&Data>) -> (r: Result<Vec<ToolGrant>, String>)
    ensures
        grants_outcome(r) == grants_of(value_view(value)),
{
    let mut grants: Vec<ToolGrant> = Vec::new();
    assert(list_view(grants@) =~= Seq::<Grant>::empty());
    let object = match value {
        Some(v) => v,
        None => {
            return Ok(grants);
        },
    };
    let members: &Vec<Member> = match object.as_object() {
        Some(m) => m,
        None => {
            return Err(owned("`grants` must be an object"));
        },
    };
    let ghost fields = members_view(members@);
    let mut i: usize = 0;
    while i < members.len()
        invariant
            i <= members@.len(),
            fields == members_view(members@),
            object@ == Json::Object(fields),
            value_view(value) == Some(object@),
            grants_in(fields, i as int) == Ok::<Seq<Grant>, Seq<char>>(list_view(grants@)),
        decreases members.len() - i,
    {
        assert(fields[i as int] == crate::json::field(
            members@[i as int].key@,
            members@[i as int].value@,
        ));
        let key = members[i].key.as_str();
        let kind = if same(key, "mcp") {
            Some(ToolKind::Mcp)
        } else if same(key, "agent") {
            Some(ToolKind::Agent)
        } else {
            None
        };
        match kind {
            None => {
                let ghost was = grants@;
                let grant = ToolGrant {
                    name: members[i].key.clone(),
                    kind: ToolKind::Library,
                    config: members[i].value.copy(),
                };
                let ghost g = grant@;
                grants.push(grant);
                assert(list_view(grants@) =~= list_view(was).push(g));
            },
            Some(kind) => match members[i].value.as_object() {
                Some(instances) => {
                    add_instances(&mut grants, kind, instances);
                },
                None => {
                    proof {
                        lemma_grants_stop(fields, i + 1, fields.len() as int);
                    }
                    return Err(cat3("`grants.", key, "` must be an object of instances"));
                },
            },
        }
        i = i + 1;
    }
    let keys = rank_all(&grants);
    Ok(arrange(&grants, &keys))
}

// ----- sections -----
/// The value of a section that the host has read: what it read where the
/// section is there and not null, else what stands where nothing is said.
pub open spec fn section_of<T>(
    value: Option<Json>,
    read: Result<T, Seq<char>>,
    unsaid: T,
    what: Seq<char>,
) -> Result<T, Seq<char>> {
    match value {
        None => Ok(unsaid),
        Some(Json::Null) => Ok(unsaid),
        Some(_) => match read {
            Ok(t) => Ok(t),
            Err(e) => Err("invalid `"@ + what + "`: "@ + e),
        },
    }
}

fn section<T>(value: Option<&Data>, read: Result<T, String>, unsaid: T, what: &str) -> (r: Result<
    T,
    String,
>)
    ensures
        match value_view(value) {
            None => r == Ok::<T, String>(unsaid),
            Some(Json::Null) => r == Ok::<T, String>(unsaid),
            Some(_) => match read {
                Ok(t) => r == Ok::<T, String>(t),
                Err(e) => r matches Err(m) && m@ == "invalid `"@ + what@ + "`: "@ + e@,
            },
        },
{
    match value {
        None => Ok(unsaid),
        Some(v) => {
            if v.is_null() {
                Ok(unsaid)
            } else {
                match read {
                    Ok(t) => Ok(t),
                    Err(e) => {
                        let mut m = cat3("invalid `", what, "`: ");
                        m.append(e.as_str());
                        Err(m)
                    },
                }
            }
        },
    }
}

/// What the host read, as it is denoted.
pub open spec fn providers_read(s: Sections) -> Result<Map<Seq<char>, Provider>, Seq<char>> {
    match s.providers {
        Ok(t) => Ok(rows(t)),
        Err(e) => Err(e@),
    }
}

pub open spec fn limits_read(s: Sections) -> Result<LimitsConfig, Seq<char>> {
    match s.limits {
        Ok(l) => Ok(l),
        Err(e) => Err(e@),
    }
}

pub open spec fn context_read(s: Sections) -> Result<Context, Seq<char>> {
    match s.context {
        Ok(c) => Ok(c@),
        Err(e) => Err(e@),
    }
}

pub open spec fn unlimited() -> LimitsConfig {
    LimitsConfig { max_model_calls: None, max_cost_micro_usd: None, timeout_s: None }
}

/// The text of a member, or none.
pub open spec fn text_field(cfg: Json, key: Seq<char>) -> Seq<char> {
    match cfg.get_str(key) {
        Some(s) => s,
        None => ""@,
    }
}

/// The definition that a configuration stands for, before its models are
/// settled, or the first thing that is wrong with it.
pub open spec fn configured(cfg: Json, s: Sections) -> Result<Definition, Seq<char>> {
    if !(cfg is Object) {
        Err("agent config must be an object"@)
    } else {
        match cfg.get_str("name"@) {
            None => Err("agent config requires a non-empty `name`"@),
            Some(name) => if trimmed(name).len() == 0 {
                Err("agent config requires a non-empty `name`"@)
            } else {
                match models_of(cfg.get("models"@), s.tiers@) {
                    Err(e) => Err(e),
                    Ok((default, tiers)) => match section_of(
                        cfg.get("providers"@),
                        providers_read(s),
                        Map::empty(),
                        "providers"@,
                    ) {
                        Err(e) => Err(e),
                        Ok(providers) => match grants_of(cfg.get("grants"@)) {
                            Err(e) => Err(e),
                            Ok(tools) => match section_of(
                                cfg.get("limits"@),
                                limits_read(s),
                                unlimited(),
                                "limits"@,
                            ) {
                                Err(e) => Err(e),
                                Ok(limits) => match section_of(
                                    cfg.get("context"@),
                                    context_read(s),
                                    unsaid_context(),
                                    "context"@,
                                ) {
                                    Err(e) => Err(e),
                                    Ok(context) => Ok(
                                        Definition {
                                            name,
                                            version: text_field(cfg, "version"@),
                                            description: text_field(cfg, "description"@),
                                            default,
                                            base_url: None,
                                            api_key_env: None,
                                            tiers,
                                            providers,
                                            sources: Map::empty(),
                                            tools,
                                            skills: Seq::empty(),
                                            limits,
                                            context,
                                            scratch_root: cfg.get_str("scratchpad"@),
                                            trace_store: cfg.get_str("traces"@),
                                            args: Seq::empty(),
                                            response_schema: match cfg.get("response_schema"@) {
                                                Some(Json::Null) => None,
                                                other => other,
                                            },
                                            system_prompt: cfg.get_str("system"@),
                                            source_dir: None,
                                        },
                                    ),
                                },
                            },
                        },
                    },
                }
            },
        }
    }
}

/// A text member, copied.
pub fn str_field(cfg: &Data, key: &str) -> (r: Option<String>)
    ensures
        opt_view(r) == cfg@.get_str(key@),
{
    match cfg.get_str(key) {
        Some(s) => Some(owned(s)),
        None => None,
    }
}

fn text_or(cfg: &Data, key: &str) -> (r: String)
    ensures
        r@ == text_field(cfg@, key@),
{
    match cfg.get_str(key) {
        Some(s) => owned(s),
        None => owned(""),
    }
}

/// The definition that a configuration stands for, before it is checked and its
/// models are settled.
pub fn read_config(cfg: &Data, sections: Sections) -> (r: Result<
    AgentDefinition,
    String,
>)
    requires
        sections.tiers@.len() >= fields_of(cfg@.get("models"@)).len(),
    ensures
        match configured(cfg@, sections) {
            Ok(d) => r matches Ok(def) && def@ == d,
            Err(e) => r matches Err(m) && m@ == e,
        },
{
    if cfg.as_object().is_none() {
        return Err(owned("agent config must be an object"));
    }
    let name = match cfg.get_str("name") {
        Some(n) => n,
        None => {
            return Err(owned("agent config requires a non-empty `name`"));
        },
    };
    if trim(name).as_str().is_empty() {
        return Err(owned("agent config requires a non-empty `name`"));
    }
    let models = match models_from(cfg.get("models"), &sections.tiers) {
        Ok(m) => m,
        Err(e) => {
            return Err(e);
        },
    };
    let none: Table<ProviderConfig> = Table::new();
    assert(rows(none) =~= Map::<Seq<char>, Provider>::empty());
    let providers = match section(cfg.get("providers"), sections.providers, none, "providers") {
        Ok(p) => p,
        Err(e) => {
            return Err(e);
        },
    };
    let tools = match grants_from(cfg.get("grants")) {
        Ok(g) => g,
        Err(e) => {
            return Err(e);
        },
    };
    let no_limits = LimitsConfig {
        max_model_calls: None,
        max_cost_micro_usd: None,
        timeout_s: None,
    };
    let limits = match section(cfg.get("limits"), sections.limits, no_limits, "limits") {
        Ok(l) => l,
        Err(e) => {
            return Err(e);
        },
    };
    let context = match section(
        cfg.get("context"),
        sections.context,
        ContextConfig::new(),
        "context",
    ) {
        Ok(c) => c,
        Err(e) => {
            return Err(e);
        },
    };
    let response_schema = match cfg.get("response_schema") {
        Some(v) => if v.is_null() {
            None
        } else {
            Some(v.copy())
        },
        None => None,
    };
    let model_sources: Table<ModelResolution> = Table::new();
    let skills: Vec<String> = Vec::new();
    let args: Vec<RuntimeArg> = Vec::new();
    proof {
        assert(rows(model_sources) =~= Map::<Seq<char>, Resolution>::empty());
        assert(views(skills@) =~= Seq::<Seq<char>>::empty());
        assert(list_view(args@) =~= Seq::<RuntimeParam>::empty());
    }
    Ok(
        AgentDefinition {
            agent: AgentMeta {
                name: owned(name),
                version: text_or(cfg, "version"),
                description: text_or(cfg, "description"),
            },
            models,
            providers,
            model_sources,
            tools,
            skills,
            limits,
            context,
            scratchpad: ScratchpadConfig { root: str_field(cfg, "scratchpad") },
            traces: TracesConfig { store: str_field(cfg, "traces") },
            runtime: RuntimeConfig { args },
            response_schema,
            system_prompt: str_field(cfg, "system"),
            source_dir: None,
        },
    )
}

/// What comes of settling the models of a configured agent: by the overrides
/// that the configuration holds, else as for a manifest.
pub open spec fn config_settles(
    r: Result<AgentDefinition, ModelConfigError>,
    def: Definition,
    overrides: Option<Catalog>,
    global: Option<Catalog>,
    env: Map<Seq<char>, Seq<char>>,
) -> bool {
    match overrides {
        Some(_) => {
            let (c, label) = deciding(overrides, global, built_in_catalog(), "built_in"@);
            settles(r, def, c.providers, Map::empty(), c, env, label)
        },
        None => {
            let c = match global {
                Some(c) => c,
                None => built_in_catalog(),
            };
            settles(
                r,
                def,
                c.providers.union_prefer_right(def.providers),
                def.tiers,
                c,
                env,
                "global"@,
            )
        },
    }
}

/// Settles the models of a configured agent.
pub fn resolve_configured(
    def: &AgentDefinition,
    overrides: Option<&ModelCatalog>,
    global: Option<&ModelCatalog>,
    env: &Environment,
) -> (r: Result<AgentDefinition, ModelConfigError>)
    ensures
        config_settles(r, def@, opt_catalog(overrides), opt_catalog(global), env@),
{
    match overrides {
        Some(_) => resolve_runtime_definition(def, overrides, global, env),
        None => match global {
            Some(c) => resolve_source_definition(def, c, env),
            None => resolve_source_definition(def, &default_catalog(), env),
        },
    }
}

/// The model overrides of a configuration, by what the host read of them.
pub open spec fn overrides_of(cfg: Json, read: Result<ModelCatalog, String>) -> Result<
    Option<Catalog>,
    Seq<char>,
> {
    match cfg.get("model_overrides"@) {
        None => Ok(None),
        Some(Json::Null) => Ok(None),
        Some(_) => match read {
            Ok(c) => Ok(Some(c@)),
            Err(e) => Err("invalid `model_overrides`: "@ + e@),
        },
    }
}

/// What settling the models of a configured agent comes to, a refusal in words.
pub open spec fn settled_in_words(
    r: Result<AgentDefinition, String>,
    def: Definition,
    overrides: Option<Catalog>,
    global: Option<Catalog>,
    env: Map<Seq<char>, Seq<char>>,
) -> bool {
    exists|settled: Result<AgentDefinition, ModelConfigError>| #[trigger]
        config_settles(settled, def, overrides, global, env) && match settled {
            Ok(d) => r == Ok::<AgentDefinition, String>(d),
            Err(e) => r matches Err(m) && m@ == refusal_text(e@),
        }
}

/// What a configuration comes to: the first thing that is wrong with it, with
/// what it says of its context, with its overrides, or with the catalog of the
/// host, in this order; else what settling its models comes to.
pub open spec fn config_comes_to(
    r: Result<AgentDefinition, String>,
    cfg: Json,
    s: Sections,
    checked: Result<(), String>,
    overrides: Result<ModelCatalog, String>,
    global: Result<Option<ModelCatalog>, ModelConfigError>,
    env: Map<Seq<char>, Seq<char>>,
) -> bool {
    match (configured(cfg, s), checked, overrides_of(cfg, overrides), global) {
        (Err(e), _, _, _) => r matches Err(m) && m@ == e,
        (Ok(_), Err(e), _, _) => r matches Err(m) && m@ == e@,
        (Ok(_), Ok(_), Err(e), _) => r matches Err(m) && m@ == e,
        (Ok(_), Ok(_), Ok(_), Err(e)) => r matches Err(m) && m@ == refusal_text(e@),
        (Ok(d), Ok(_), Ok(o), Ok(g)) => settled_in_words(
            r,
            d,
            o,
            match g {
                Some(c) => Some(c@),
                None => None,
            },
            env,
        ),
    }
}

/// The settled definition that a configuration stands for. `checked` is what the
/// checks on the meaning of a manifest say of the definition that was read,
/// `overrides` is what the host read of `model_overrides`, and `global` is its
/// own catalog, where it has one.
pub fn definition_from_config(
    cfg: &Data,
    sections: Sections,
    checked: Result<(), String>,
    overrides: Result<ModelCatalog, String>,
    global: Result<Option<ModelCatalog>, ModelConfigError>,
    env: &Environment,
) -> (r: Result<AgentDefinition, String>)
    requires
        sections.tiers@.len() >= fields_of(cfg@.get("models"@)).len(),
    ensures
        config_comes_to(r, cfg@, sections, checked, overrides, global, env@),
{
    let def = match read_config(cfg, sections) {
        Ok(d) => d,
        Err(e) => {
            return Err(e);
        },
    };
    match checked {
        Ok(_) => {},
        Err(e) => {
            return Err(e);
        },
    }
    let given = match cfg.get("model_overrides") {
        Some(v) => !v.is_null(),
        None => false,
    };
    let overrides = if given {
        match overrides {
            Ok(c) => Some(c),
            Err(e) => {
                return Err(cat("invalid `model_overrides`: ", e.as_str()));
            },
        }
    } else {
        None
    };
    let global = match global {
        Ok(g) => g,
        Err(e) => {
            return Err(e.message());
        },
    };
    let settled = resolve_configured(&def, overrides.as_ref(), global.as_ref(), env);
    match settled {
        Ok(d) => Ok(d),
        Err(e) => Err(e.message()),
    }
}

/// A configuration that the checks on its meaning refuse comes to nothing but
/// their refusal, whatever catalogs there are.
pub proof fn law_refused_configurations_are_not_settled(
    r: Result<AgentDefinition, String>,
    cfg: Json,
    s: Sections,
    refusal: String,
    overrides: Result<ModelCatalog, String>,
    global: Result<Option<ModelCatalog>, ModelConfigError>,
    env: Map<Seq<char>, Seq<char>>,
)
    requires
        config_comes_to(r, cfg, s, Err(refusal), overrides, global, env),
    ensures
        r matches Err(m) && m@ == match configured(cfg, s) {
            Ok(_) => refusal@,
            Err(e) => e,
        },
{
}

/// A configuration is taken member by member: what is configured is what stands
/// under its name.
pub proof fn law_configurations_are_taken_by_name(cfg: Json, s: Sections)
    ensures
        configured(cfg, s) matches Ok(d) ==> {
            &&& cfg.get_str("name"@) == Some(d.name) && trimmed(d.name).len() > 0
            &&& cfg.get_str("version"@) matches Some(v) ==> d.version == v
            &&& cfg.get_str("version"@) is None ==> d.version.len() == 0
            &&& cfg.get_str("description"@) matches Some(v) ==> d.description == v
            &&& cfg.get_str("description"@) is None ==> d.description.len() == 0
            &&& d.scratch_root == cfg.get_str("scratchpad"@)
            &&& d.trace_store == cfg.get_str("traces"@)
            &&& d.system_prompt == cfg.get_str("system"@)
            &&& cfg.get("response_schema"@) matches Some(v) ==> (!(v is Null) ==> d.response_schema
                == Some(v))
            &&& cfg.get("limits"@) is None ==> d.limits.max_model_calls is None
                && d.limits.max_cost_micro_usd is None && d.limits.timeout_s is None
            &&& cfg.get("limits"@) matches Some(v) ==> (!(v is Null) ==> s.limits == Ok::<
                LimitsConfig,
                String,
            >(d.limits))
            &&& cfg.get("grants"@) is None ==> d.tools.len() == 0
            &&& cfg.get("models"@) is None ==> d.default is None && d.tiers.dom() =~= Set::empty()
        },
{
    reveal_strlit("");
}

/// Every member of the models but the default is a tier of that name.
pub proof fn law_every_tier_is_taken(
    members: Seq<Field>,
    read: Seq<Result<TierConfig, String>>,
    n: int,
)
    requires
        0 <= n < members.len(),
    ensures
        tiers_of(members, read, n + 1) matches Ok(after) ==> (tiers_of(
            members,
            read,
            n,
        ) matches Ok(before) && {
            &&& members[n].key == "default"@ ==> after == before
            &&& members[n].key != "default"@ ==> read[n] is Ok && after == before.insert(
                members[n].key,
                read[n]->Ok_0@,
            )
        }),
{
}

/// Every member of the grants grants a tool of the library by its name, but for the
/// two that hold servers and agents: each of those grants one for every member.
pub proof fn law_every_grant_is_taken(members: Seq<Field>, n: int, i: int)
    requires
        0 <= n < members.len(),
    ensures
        grants_in(members, n + 1) matches Ok(after) ==> (grants_in(
            members,
            n,
        ) matches Ok(before) && {
            let f = members[n];
            &&& before.is_prefix_of(after)
            &&& f.key != "mcp"@ && f.key != "agent"@ ==> {
                let g = after.last();
                &&& after.len() == before.len() + 1
                &&& g.name == f.key && g.kind == ToolKind::Library && g.config == f.value
            }
            &&& f.key == "mcp"@ || f.key == "agent"@ ==> {
                let g = after[before.len() + i];
                &&& f.value is Object && after.len() == before.len() + f.value->Object_0.len()
                &&& 0 <= i < f.value->Object_0.len() ==> g.name == f.value->Object_0[i].key
                    && g.config == f.value->Object_0[i].value && (g.kind == ToolKind::Mcp <==> f.key
                    == "mcp"@) && (g.kind == ToolKind::Agent <==> f.key == "agent"@)
            }
        }),
{
    reveal_strlit("mcp");
    reveal_strlit("agent");
    assert("mcp"@.len() == 3);
    assert("agent"@.len() == 5);
}

} // verus!
