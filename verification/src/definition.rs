//! What an agent is defined to be: its name and prompt, its model tiers, the
//! tools it is granted and the limits it runs under.
use vstd::prelude::*;

use crate::json::{opt_view, Data, Json};
use crate::table::{copy_table, rows, Duplicate, Table};
use crate::text::views;

verus! {

/// How many model tiers there are.
pub const TIER_COUNT: usize = 4;

/// The model tiers, from the least to the most capable.
pub open spec fn tier_names() -> Seq<Seq<char>> {
    seq!["fast"@, "balanced"@, "powerful"@, "max"@]
}

/// The name of the tier at index `i`.
pub fn tier_at(i: usize) -> (r: &'static str)
    requires
        i < TIER_COUNT,
    ensures
        r@ == tier_names()[i as int],
{
    if i == 0 {
        "fast"
    } else if i == 1 {
        "balanced"
    } else if i == 2 {
        "powerful"
    } else {
        "max"
    }
}

/// A second optional text that is the same.
pub fn copy_text(o: &Option<String>) -> (r: Option<String>)
    ensures
        r == *o,
{
    match o {
        Some(t) => Some(t.clone()),
        None => None,
    }
}

/// A second list of texts that is the same.
pub fn copy_texts(list: &Vec<String>) -> (r: Vec<String>)
    ensures
        views(r@) == views(list@),
{
    let mut r: Vec<String> = Vec::new();
    crate::split::extend(&mut r, list);
    assert(views(r@) =~= views(list@));
    r
}

// ----- models -----
/// One model tier: the provider and model that serve it, and what a million
/// tokens cost, as decimal numbers.
#[derive(Debug)]
pub struct TierConfig {
    pub provider: String,
    pub model: String,
    pub input_usd_per_m_tokens: Option<String>,
    pub output_usd_per_m_tokens: Option<String>,
}

/// What a [`TierConfig`] denotes.
pub struct Tier {
    pub provider: Seq<char>,
    pub model: Seq<char>,
    pub input_price: Option<Seq<char>>,
    pub output_price: Option<Seq<char>>,
}

impl View for TierConfig {
    type V = Tier;

    open spec fn view(&self) -> Tier {
        Tier {
            provider: self.provider@,
            model: self.model@,
            input_price: opt_view(self.input_usd_per_m_tokens),
            output_price: opt_view(self.output_usd_per_m_tokens),
        }
    }
}

impl Duplicate for TierConfig {
    fn duplicate(&self) -> (r: Self) {
        TierConfig {
            provider: self.provider.clone(),
            model: self.model.clone(),
            input_usd_per_m_tokens: copy_text(&self.input_usd_per_m_tokens),
            output_usd_per_m_tokens: copy_text(&self.output_usd_per_m_tokens),
        }
    }
}

/// Where a provider is reached, and which variable holds its key.
#[derive(Debug)]
pub struct ProviderConfig {
    pub base_url: String,
    pub api_key_env: String,
}

/// What a [`ProviderConfig`] denotes.
pub struct Provider {
    pub base_url: Seq<char>,
    pub api_key_env: Seq<char>,
}

impl View for ProviderConfig {
    type V = Provider;

    open spec fn view(&self) -> Provider {
        Provider { base_url: self.base_url@, api_key_env: self.api_key_env@ }
    }
}

impl Duplicate for ProviderConfig {
    fn duplicate(&self) -> (r: Self) {
        ProviderConfig {
            base_url: self.base_url.clone(),
            api_key_env: self.api_key_env.clone(),
        }
    }
}

/// Where the model of a tier was taken from.
#[derive(Debug)]
pub struct ModelResolution {
    pub source: String,
    pub resolved_from: String,
}

/// What a [`ModelResolution`] denotes.
pub struct Resolution {
    pub source: Seq<char>,
    pub resolved_from: Seq<char>,
}

impl View for ModelResolution {
    type V = Resolution;

    open spec fn view(&self) -> Resolution {
        Resolution { source: self.source@, resolved_from: self.resolved_from@ }
    }
}

impl Duplicate for ModelResolution {
    fn duplicate(&self) -> (r: Self) {
        ModelResolution {
            source: self.source.clone(),
            resolved_from: self.resolved_from.clone(),
        }
    }
}

/// The model tiers of a definition.
#[derive(Debug)]
pub struct ModelsConfig {
    pub default: Option<String>,
    pub base_url: Option<String>,
    pub api_key_env: Option<String>,
    pub tiers: Table<TierConfig>,
}

impl ModelsConfig {
    /// No tier, and none preferred.
    pub fn new() -> (r: ModelsConfig)
        ensures
            r.default is None,
            r.base_url is None,
            r.api_key_env is None,
            rows(r.tiers) == Map::<Seq<char>, Tier>::empty(),
    {
        let tiers: Table<TierConfig> = Table::new();
        assert(rows(tiers) =~= Map::<Seq<char>, Tier>::empty());
        ModelsConfig { default: None, base_url: None, api_key_env: None, tiers }
    }
}

// ----- tools -----
/// Who provides a granted tool.
#[derive(Clone, Copy, Debug, PartialEq, Eq, Structural)]
pub enum ToolKind {
    Library,
    Mcp,
    Agent,
}

/// One granted tool with its configuration.
#[derive(Debug)]
pub struct ToolGrant {
    pub name: String,
    pub kind: ToolKind,
    pub config: Data,
}

/// What a [`ToolGrant`] denotes.
pub struct Grant {
    pub name: Seq<char>,
    pub kind: ToolKind,
    pub config: Json,
}

impl View for ToolGrant {
    type V = Grant;

    open spec fn view(&self) -> Grant {
        Grant { name: self.name@, kind: self.kind, config: self.config@ }
    }
}

impl Duplicate for ToolGrant {
    fn duplicate(&self) -> (r: Self) {
        ToolGrant { name: self.name.clone(), kind: self.kind, config: self.config.copy() }
    }
}

/// What a list denotes.
pub open spec fn list_view<T: View>(list: Seq<T>) -> Seq<T::V> {
    list.map_values(|v: T| v@)
}

/// A list that denotes the same.
pub fn copy_list<T: Duplicate>(list: &Vec<T>) -> (r: Vec<T>)
    ensures
        list_view(r@) == list_view(list@),
{
    let mut r: Vec<T> = Vec::new();
    let mut i: usize = 0;
    while i < list.len()
        invariant
            i <= list@.len(),
            list_view(r@) =~= list_view(list@).take(i as int),
        decreases list.len() - i,
    {
        let ghost was = r@;
        let one = list[i].duplicate();
        let ghost v = one@;
        r.push(one);
        assert(list_view(r@) =~= list_view(was).push(v));
        i = i + 1;
    }
    assert(list_view(list@).take(i as int) =~= list_view(list@));
    r
}

// ----- the rest of a definition -----
/// How an agent presents itself.
#[derive(Debug)]
pub struct AgentMeta {
    pub name: String,
    pub version: String,
    pub description: String,
}

/// The limits that a definition declares.
#[derive(Clone, Copy, Debug)]
pub struct LimitsConfig {
    pub max_model_calls: Option<u32>,
    pub max_cost_micro_usd: Option<u64>,
    pub timeout_s: Option<u64>,
}

/// How the conversation is kept within its budget.
#[derive(Debug)]
pub struct ContextConfig {
    pub compaction: Option<String>,
    pub budget_tokens: Option<u32>,
    pub trigger_tokens: Option<u32>,
    pub keep_recent_tokens: Option<u32>,
    pub max_block_tokens: Option<u32>,
    pub summary_model: Option<String>,
    pub tool_ttl: Table<u32>,
    pub keep_last_per_tool: Table<u32>,
}

/// What a [`ContextConfig`] denotes.
pub struct Context {
    pub compaction: Option<Seq<char>>,
    pub budget_tokens: Option<u32>,
    pub trigger_tokens: Option<u32>,
    pub keep_recent_tokens: Option<u32>,
    pub max_block_tokens: Option<u32>,
    pub summary_model: Option<Seq<char>>,
    pub tool_ttl: Map<Seq<char>, u32>,
    pub keep_last_per_tool: Map<Seq<char>, u32>,
}

impl View for ContextConfig {
    type V = Context;

    open spec fn view(&self) -> Context {
        Context {
            compaction: opt_view(self.compaction),
            budget_tokens: self.budget_tokens,
            trigger_tokens: self.trigger_tokens,
            keep_recent_tokens: self.keep_recent_tokens,
            max_block_tokens: self.max_block_tokens,
            summary_model: opt_view(self.summary_model),
            tool_ttl: rows(self.tool_ttl),
            keep_last_per_tool: rows(self.keep_last_per_tool),
        }
    }
}

impl Duplicate for ContextConfig {
    fn duplicate(&self) -> (r: Self) {
        ContextConfig {
            compaction: copy_text(&self.compaction),
            budget_tokens: self.budget_tokens,
            trigger_tokens: self.trigger_tokens,
            keep_recent_tokens: self.keep_recent_tokens,
            max_block_tokens: self.max_block_tokens,
            summary_model: copy_text(&self.summary_model),
            tool_ttl: copy_table(&self.tool_ttl),
            keep_last_per_tool: copy_table(&self.keep_last_per_tool),
        }
    }
}

impl ContextConfig {
    /// Nothing is said about the context.
    pub fn new() -> (r: ContextConfig)
        ensures
            r@ == unsaid_context(),
    {
        let tool_ttl: Table<u32> = Table::new();
        let keep_last_per_tool: Table<u32> = Table::new();
        assert(rows(tool_ttl) =~= Map::<Seq<char>, u32>::empty());
        assert(rows(keep_last_per_tool) =~= Map::<Seq<char>, u32>::empty());
        ContextConfig {
            compaction: None,
            budget_tokens: None,
            trigger_tokens: None,
            keep_recent_tokens: None,
            max_block_tokens: None,
            summary_model: None,
            tool_ttl,
            keep_last_per_tool,
        }
    }
}

/// The context of which nothing is said.
pub open spec fn unsaid_context() -> Context {
    Context {
        compaction: None,
        budget_tokens: None,
        trigger_tokens: None,
        keep_recent_tokens: None,
        max_block_tokens: None,
        summary_model: None,
        tool_ttl: Map::empty(),
        keep_last_per_tool: Map::empty(),
    }
}

/// A value that a caller gives at each invocation, and where it goes.
#[derive(Debug)]
pub struct RuntimeArg {
    pub name: String,
    pub target: String,
    pub env: Option<String>,
    pub default: Option<String>,
    pub required: bool,
    pub positional: bool,
    pub help: String,
}

/// What a [`RuntimeArg`] denotes.
pub struct RuntimeParam {
    pub name: Seq<char>,
    pub target: Seq<char>,
    pub env: Option<Seq<char>>,
    pub default: Option<Seq<char>>,
    pub required: bool,
    pub positional: bool,
    pub help: Seq<char>,
}

impl View for RuntimeArg {
    type V = RuntimeParam;

    open spec fn view(&self) -> RuntimeParam {
        RuntimeParam {
            name: self.name@,
            target: self.target@,
            env: opt_view(self.env),
            default: opt_view(self.default),
            required: self.required,
            positional: self.positional,
            help: self.help@,
        }
    }
}

impl Duplicate for RuntimeArg {
    fn duplicate(&self) -> (r: Self) {
        RuntimeArg {
            name: self.name.clone(),
            target: self.target.clone(),
            env: copy_text(&self.env),
            default: copy_text(&self.default),
            required: self.required,
            positional: self.positional,
            help: self.help.clone(),
        }
    }
}

#[derive(Debug)]
pub struct TracesConfig {
    pub store: Option<String>,
}

#[derive(Debug)]
pub struct ScratchpadConfig {
    pub root: Option<String>,
}

#[derive(Debug)]
pub struct RuntimeConfig {
    pub args: Vec<RuntimeArg>,
}

/// The definition of an agent.
#[derive(Debug)]
pub struct AgentDefinition {
    pub agent: AgentMeta,
    pub models: ModelsConfig,
    pub providers: Table<ProviderConfig>,
    pub model_sources: Table<ModelResolution>,
    pub tools: Vec<ToolGrant>,
    pub skills: Vec<String>,
    pub limits: LimitsConfig,
    pub context: ContextConfig,
    pub scratchpad: ScratchpadConfig,
    pub traces: TracesConfig,
    pub runtime: RuntimeConfig,
    pub response_schema: Option<Data>,
    pub system_prompt: Option<String>,
    pub source_dir: Option<String>,
}

/// What an [`AgentDefinition`] denotes.
pub struct Definition {
    pub name: Seq<char>,
    pub version: Seq<char>,
    pub description: Seq<char>,
    pub default: Option<Seq<char>>,
    pub base_url: Option<Seq<char>>,
    pub api_key_env: Option<Seq<char>>,
    pub tiers: Map<Seq<char>, Tier>,
    pub providers: Map<Seq<char>, Provider>,
    pub sources: Map<Seq<char>, Resolution>,
    pub tools: Seq<Grant>,
    pub skills: Seq<Seq<char>>,
    pub limits: LimitsConfig,
    pub context: Context,
    pub scratch_root: Option<Seq<char>>,
    pub trace_store: Option<Seq<char>>,
    pub args: Seq<RuntimeParam>,
    pub response_schema: Option<Json>,
    pub system_prompt: Option<Seq<char>>,
    pub source_dir: Option<Seq<char>>,
}

/// What an optional value denotes.
pub open spec fn opt_json(o: Option<Data>) -> Option<Json> {
    match o {
        Some(d) => Some(d@),
        None => None,
    }
}

impl View for AgentDefinition {
    type V = Definition;

    open spec fn view(&self) -> Definition {
        Definition {
            name: self.agent.name@,
            version: self.agent.version@,
            description: self.agent.description@,
            default: opt_view(self.models.default),
            base_url: opt_view(self.models.base_url),
            api_key_env: opt_view(self.models.api_key_env),
            tiers: rows(self.models.tiers),
            providers: rows(self.providers),
            sources: rows(self.model_sources),
            tools: list_view(self.tools@),
            skills: views(self.skills@),
            limits: self.limits,
            context: self.context@,
            scratch_root: opt_view(self.scratchpad.root),
            trace_store: opt_view(self.traces.store),
            args: list_view(self.runtime.args@),
            response_schema: opt_json(self.response_schema),
            system_prompt: opt_view(self.system_prompt),
            source_dir: opt_view(self.source_dir),
        }
    }
}

impl Duplicate for AgentDefinition {
    fn duplicate(&self) -> (r: Self) {
        AgentDefinition {
            agent: AgentMeta {
                name: self.agent.name.clone(),
                version: self.agent.version.clone(),
                description: self.agent.description.clone(),
            },
            models: ModelsConfig {
                default: copy_text(&self.models.default),
                base_url: copy_text(&self.models.base_url),
                api_key_env: copy_text(&self.models.api_key_env),
                tiers: copy_table(&self.models.tiers),
            },
            providers: copy_table(&self.providers),
            model_sources: copy_table(&self.model_sources),
            tools: copy_list(&self.tools),
            skills: copy_texts(&self.skills),
            limits: self.limits,
            context: self.context.duplicate(),
            scratchpad: ScratchpadConfig { root: copy_text(&self.scratchpad.root) },
            traces: TracesConfig { store: copy_text(&self.traces.store) },
            runtime: RuntimeConfig { args: copy_list(&self.runtime.args) },
            response_schema: match &self.response_schema {
                Some(d) => Some(d.copy()),
                None => None,
            },
            system_prompt: copy_text(&self.system_prompt),
            source_dir: copy_text(&self.source_dir),
        }
    }
}

/// The definition that says no more than a name.
pub open spec fn bare(name: Seq<char>) -> Definition {
    Definition {
        name,
        version: Seq::empty(),
        description: Seq::empty(),
        default: None,
        base_url: None,
        api_key_env: None,
        tiers: Map::empty(),
        providers: Map::empty(),
        sources: Map::empty(),
        tools: Seq::empty(),
        skills: Seq::empty(),
        limits: LimitsConfig {
            max_model_calls: None,
            max_cost_micro_usd: None,
            timeout_s: None,
        },
        context: unsaid_context(),
        scratch_root: None,
        trace_store: None,
        args: Seq::empty(),
        response_schema: None,
        system_prompt: None,
        source_dir: None,
    }
}

impl AgentDefinition {
    /// A definition that says no more than a name.
    pub fn named(name: &str) -> (r: AgentDefinition)
        ensures
            r@ == bare(name@),
    {
        let providers: Table<ProviderConfig> = Table::new();
        let model_sources: Table<ModelResolution> = Table::new();
        let tools: Vec<ToolGrant> = Vec::new();
        let skills: Vec<String> = Vec::new();
        let args: Vec<RuntimeArg> = Vec::new();
        let none = crate::text::owned("");
        proof {
            reveal_strlit("");
            assert(none@ =~= Seq::<char>::empty());
            assert(rows(providers) =~= Map::<Seq<char>, Provider>::empty());
            assert(rows(model_sources) =~= Map::<Seq<char>, Resolution>::empty());
            assert(list_view(tools@) =~= Seq::<Grant>::empty());
            assert(views(skills@) =~= Seq::<Seq<char>>::empty());
            assert(list_view(args@) =~= Seq::<RuntimeParam>::empty());
        }
        AgentDefinition {
            agent: AgentMeta {
                name: crate::text::owned(name),
                version: none.clone(),
                description: none,
            },
            models: ModelsConfig::new(),
            providers,
            model_sources,
            tools,
            skills,
            limits: LimitsConfig {
                max_model_calls: None,
                max_cost_micro_usd: None,
                timeout_s: None,
            },
            context: ContextConfig::new(),
            scratchpad: ScratchpadConfig { root: None },
            traces: TracesConfig { store: None },
            runtime: RuntimeConfig { args },
            response_schema: None,
            system_prompt: None,
            source_dir: None,
        }
    }

    /// The tier that answers unless another is asked for.
    pub fn default_tier(&self) -> (r: Option<&str>)
        ensures
            crate::json::opt_str_view(r) == self@.default,
    {
        match &self.models.default {
            Some(t) => Some(t.as_str()),
            None => None,
        }
    }
}

/// What a definition denotes is what stands in its parts.
pub proof fn law_definitions_denote_their_parts(d: AgentDefinition, i: int)
    ensures
        d@.name == d.agent.name@ && d@.version == d.agent.version@ && d@.description
            == d.agent.description@,
        d.models.default matches Some(s) ==> d@.default == Some(s@),
        d.models.base_url matches Some(s) ==> d@.base_url == Some(s@),
        d.models.api_key_env matches Some(s) ==> d@.api_key_env == Some(s@),
        d.scratchpad.root matches Some(s) ==> d@.scratch_root == Some(s@),
        d.traces.store matches Some(s) ==> d@.trace_store == Some(s@),
        d.response_schema matches Some(s) ==> d@.response_schema == Some(s@),
        d.system_prompt matches Some(s) ==> d@.system_prompt == Some(s@),
        d.source_dir matches Some(s) ==> d@.source_dir == Some(s@),
        d@.limits == d.limits,
        d@.tools.len() == d.tools@.len() && d@.skills.len() == d.skills@.len() && d@.args.len()
            == d.runtime.args@.len(),
        0 <= i < d.tools@.len() ==> {
            let g = d.tools@[i];
            d@.tools[i].name == g.name@ && d@.tools[i].kind == g.kind && d@.tools[i].config
                == g.config@
        },
        0 <= i < d.skills@.len() ==> d@.skills[i] == d.skills@[i]@,
{
}

/// What a tier, a provider and a source denote is what stands in their parts.
pub proof fn law_tiers_denote_their_parts(t: TierConfig, p: ProviderConfig, s: ModelResolution)
    ensures
        t@.provider == t.provider@ && t@.model == t.model@,
        t.input_usd_per_m_tokens matches Some(x) ==> t@.input_price == Some(x@),
        t.output_usd_per_m_tokens matches Some(x) ==> t@.output_price == Some(x@),
        p@.base_url == p.base_url@ && p@.api_key_env == p.api_key_env@,
        s@.source == s.source@ && s@.resolved_from == s.resolved_from@,
{
}

} // verus!
