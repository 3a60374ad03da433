//! From a definition to everything that an agent is made of.
use vstd::prelude::*;

use crate::agent::card::{Price, TierPrice};
use crate::agent::limits::AgentLimits;
use crate::definition::{
    copy_text, list_view, tier_names, AgentDefinition, Definition, Grant, LimitsConfig, Resolution,
    Tier, ToolGrant, ToolKind, TIER_COUNT,
};
use crate::delegation::{
    agent_wiring, artifact_of, build_agent_feedback_tool, build_agent_tool, build_delegate_tool,
    command_and_args, command_of, delegate_wiring, depth_of, remaining_agent_depth, AgentWiring,
    SubprocessFeedbackTool, Wiring,
};
use crate::environment::{set_var, Environment};
use crate::json::{opt_view, Data, Json};
use crate::models::{
    built_in_catalog, default_catalog, resolve_runtime_definition, resolve_source_definition,
    settles, ModelCatalog, ModelConfigError, ModelRefusal,
};
use crate::order::before;
use crate::paths::{join_path, path_join};
use crate::runtime::{
    agent_home_for_def, base_dir, base_of, blob_dir, budget_of, budget_view, context_policy,
    global_blob_store_dir, home_of, prompt_of, render_system_prompt, resolve, store_of,
    trace_store_below, BudgetPolicy, RuntimeError, RuntimeRefusal, DEFAULT_FEEDBACK_DIRNAME,
    DEFAULT_MEMORY_DIRNAME, DEFAULT_SCRATCH_DIRNAME,
};
use crate::split::among;
use crate::table::{lists_domain, put, rows, Duplicate, Table};
use crate::text::{cat3, owned, same, trim, trimmed, views};
use crate::tools::disk::Disk;
use crate::tools::grants::{
    build_library_grant, granted, law_grants_are_honoured_or_refused, library_refusal, registers,
    scope_of, Granted, ToolError,
};

verus! {

/// What a host tells of itself.
#[derive(Debug)]
pub struct Host {
    pub env: Environment,
    pub disk: Disk,
    pub temp_dir: String,
    /// The host's own program, or why it is not known.
    pub exe: Result<String, String>,
    pub date: String,
}

impl Host {
    pub open spec fn program(&self) -> Result<Seq<char>, Seq<char>> {
        match self.exe {
            Ok(p) => Ok(p@),
            Err(e) => Err(e@),
        }
    }

    pub open spec fn user_home(&self) -> Option<Seq<char>> {
        if self.env@.dom().contains("HOME"@) {
            Some(self.env@["HOME"@])
        } else {
            None
        }
    }
}

/// The shape that answers must have.
#[derive(Debug)]
pub struct ResponseContract {
    pub name: String,
    pub schema: Data,
}

/// What a [`ResponseContract`] denotes.
pub struct Contract {
    pub name: Seq<char>,
    pub schema: Json,
}

impl View for ResponseContract {
    type V = Contract;

    open spec fn view(&self) -> Contract {
        Contract { name: self.name@, schema: self.schema@ }
    }
}

impl Duplicate for ResponseContract {
    fn duplicate(&self) -> (r: Self) {
        ResponseContract { name: self.name.clone(), schema: self.schema.copy() }
    }
}

pub open spec fn contract_view(c: Option<ResponseContract>) -> Option<Contract> {
    match c {
        Some(c) => Some(c@),
        None => None,
    }
}

/// What a program that embeds an agent adds to its definition.
#[derive(Debug)]
pub struct RuntimeOptions {
    pub response_contracts: Table<ResponseContract>,
    /// State is kept by the embedding program and not in directories.
    pub own_storage: bool,
    pub state_root: Option<String>,
    pub catalog: Option<ModelCatalog>,
}

impl RuntimeOptions {
    /// Nothing is added.
    pub fn new() -> (r: RuntimeOptions)
        ensures
            rows(r.response_contracts) == Map::<Seq<char>, Contract>::empty(),
            !r.own_storage,
            r.state_root is None,
            r.catalog is None,
    {
        let response_contracts: Table<ResponseContract> = Table::new();
        assert(rows(response_contracts) =~= Map::<Seq<char>, Contract>::empty());
        RuntimeOptions { response_contracts, own_storage: false, state_root: None, catalog: None }
    }

    /// Adds the shape of one type of answer.
    pub fn with_response_contract(self, rust_type: &str, contract: ResponseContract) -> (r:
        RuntimeOptions)
        ensures
            rows(r.response_contracts) == rows(self.response_contracts).insert(
                rust_type@,
                contract@,
            ),
            r.own_storage == self.own_storage,
            r.state_root == self.state_root,
            r.catalog == self.catalog,
    {
        let mut response_contracts = self.response_contracts;
        put(&mut response_contracts, rust_type, contract);
        RuntimeOptions {
            response_contracts,
            own_storage: self.own_storage,
            state_root: self.state_root,
            catalog: self.catalog,
        }
    }

    /// State is kept by the embedding program.
    pub fn with_storage(self) -> (r: RuntimeOptions)
        ensures
            r == (RuntimeOptions { own_storage: true, ..self }),
    {
        RuntimeOptions { own_storage: true, ..self }
    }

    /// The catalog that serves all tiers.
    pub fn with_model_catalog(self, catalog: ModelCatalog) -> (r: RuntimeOptions)
        ensures
            r == (RuntimeOptions { catalog: Some(catalog), ..self }),
    {
        RuntimeOptions { catalog: Some(catalog), ..self }
    }

    /// The directory that state is kept below.
    pub fn with_state_root(self, root: String) -> (r: RuntimeOptions)
        ensures
            r == (RuntimeOptions { state_root: Some(root), ..self }),
    {
        RuntimeOptions { state_root: Some(root), ..self }
    }

    /// The shape that was added for a type.
    pub fn response_contract(&self, rust_type: &str) -> (r: Option<&ResponseContract>)
        ensures
            match r {
                Some(c) => rows(self.response_contracts).dom().contains(rust_type@) && rows(
                    self.response_contracts,
                )[rust_type@] == c@,
                None => !rows(self.response_contracts).dom().contains(rust_type@),
            },
    {
        self.response_contracts.get(rust_type)
    }

    /// The shape that was added, where there is exactly one.
    pub fn single_response_contract(&self) -> (r: Option<ResponseContract>)
        ensures
            contract_view(r) == only(rows(self.response_contracts)),
    {
        let n: usize = self.response_contracts.len();
        let ghost keys = self.response_contracts.key_seq();
        let ghost m = rows(self.response_contracts);
        proof {
            assert forall|k: Seq<char>| m.dom().contains(k) <==> keys.contains(k) by {
                assert(m.dom().contains(k) <==> self.response_contracts@.dom().contains(k));
            }
            lemma_only(keys, m);
        }
        if n == 1 {
            Some(self.response_contracts.value_at(0).duplicate())
        } else {
            None
        }
    }

    pub fn model_catalog(&self) -> (r: Option<&ModelCatalog>)
        ensures
            r == match self.catalog {
                Some(c) => Some(&c),
                None => None,
            },
    {
        match &self.catalog {
            Some(c) => Some(c),
            None => None,
        }
    }
}

/// The value of a map that has exactly one.
pub open spec fn only<V>(m: Map<Seq<char>, V>) -> Option<V> {
    if exists|k: Seq<char>| is_only(m, k) {
        Some(m[choose|k: Seq<char>| is_only(m, k)])
    } else {
        None
    }
}

pub open spec fn is_only<V>(m: Map<Seq<char>, V>, k: Seq<char>) -> bool {
    m.dom().contains(k) && forall|j: Seq<char>| m.dom().contains(j) ==> j == k
}

proof fn lemma_only<V>(keys: Seq<Seq<char>>, m: Map<Seq<char>, V>)
    requires
        keys.no_duplicates(),
        forall|k: Seq<char>| m.dom().contains(k) <==> keys.contains(k),
    ensures
        only(m) == if keys.len() == 1 {
            Some(m[keys[0]])
        } else {
            None
        },
{
    if keys.len() == 1 {
        assert(keys.contains(keys[0]));
        assert forall|j: Seq<char>| m.dom().contains(j) implies j == keys[0] by {
            assert(keys.contains(j));
        }
        assert(is_only(m, keys[0]));
        let c = choose|k: Seq<char>| is_only(m, k);
        assert(is_only(m, c));
        assert(c == keys[0]);
    } else {
        assert forall|k: Seq<char>| !is_only(m, k) by {
            if is_only(m, k) {
                assert(keys.contains(k));
                if keys.len() > 1 {
                    assert(keys.contains(keys[0]) && keys.contains(keys[1]));
                    assert(m.dom().contains(keys[0]) && m.dom().contains(keys[1]));
                    assert(keys[0] != keys[1]);
                }
            }
        }
    }
}

// ----- models -----
/// How one tier is served.
#[derive(Debug)]
pub struct ModelWiring {
    pub selector: String,
    pub provider: String,
    pub model: String,
    pub base_url: String,
    pub api_key_env: String,
    pub api_key_resolved: bool,
    pub source: String,
    pub resolved_from: String,
}

/// What a [`ModelWiring`] denotes.
pub struct Wired {
    pub selector: Seq<char>,
    pub provider: Seq<char>,
    pub model: Seq<char>,
    pub base_url: Seq<char>,
    pub api_key_env: Seq<char>,
    pub api_key_resolved: bool,
    pub source: Resolution,
}

impl View for ModelWiring {
    type V = Wired;

    open spec fn view(&self) -> Wired {
        Wired {
            selector: self.selector@,
            provider: self.provider@,
            model: self.model@,
            base_url: self.base_url@,
            api_key_env: self.api_key_env@,
            api_key_resolved: self.api_key_resolved,
            source: Resolution { source: self.source@, resolved_from: self.resolved_from@ },
        }
    }
}

/// How a tier of a definition is served.
pub open spec fn wired(d: Definition, env: Map<Seq<char>, Seq<char>>, tier: Seq<char>) -> Wired {
    let t = d.tiers[tier];
    let p = d.providers[t.provider];
    Wired {
        selector: tier,
        provider: t.provider,
        model: t.model,
        base_url: p.base_url,
        api_key_env: p.api_key_env,
        api_key_resolved: set_var(env, p.api_key_env) is Some,
        source: if d.sources.dom().contains(tier) {
            d.sources[tier]
        } else {
            Resolution { source: "inline"@, resolved_from: tier }
        },
    }
}

pub open spec fn unset_key(name: Seq<char>) -> Seq<char> {
    "api key env var `"@ + name + "` is unset; model calls will fail until it is set"@
}

/// The warnings for the first `n` tiers: one for each key that is not set.
pub open spec fn warned(list: Seq<Wired>, n: int) -> Seq<Seq<char>>
    decreases n,
{
    if n <= 0 || n > list.len() {
        Seq::empty()
    } else {
        let before = warned(list, n - 1);
        let text = unset_key(list[n - 1].api_key_env);
        if list[n - 1].api_key_resolved || before.contains(text) {
            before
        } else {
            before.push(text)
        }
    }
}

pub open spec fn priced(t: Tier) -> bool {
    t.input_price is Some || t.output_price is Some
}

/// What a tier costs; a side that is not said costs nothing.
pub open spec fn price_of(t: Tier) -> Price {
    Price {
        input: match t.input_price {
            Some(p) => p,
            None => "0.0"@,
        },
        output: match t.output_price {
            Some(p) => p,
            None => "0.0"@,
        },
    }
}

/// What the tiers cost for which anything is said.
pub open spec fn prices(tiers: Map<Seq<char>, Tier>) -> Map<Seq<char>, Price> {
    Map::new(
        |t: Seq<char>| tiers.dom().contains(t) && priced(tiers[t]),
        |t: Seq<char>| price_of(tiers[t]),
    )
}

/// The provider of a tier is known.
pub open spec fn has_provider(d: Definition, tier: Seq<char>) -> bool {
    d.providers.dom().contains(d.tiers[tier].provider)
}

/// `e` names the first tier, in ascending order, whose provider is not known.
pub open spec fn first_unserved(d: Definition, e: RuntimeRefusal) -> bool {
    exists|t: Seq<char>|
        {
            &&& #[trigger] d.tiers.dom().contains(t)
            &&& !has_provider(d, t)
            &&& forall|u: Seq<char>| #[trigger]
                d.tiers.dom().contains(u) && before(u, t) ==> has_provider(d, u)
            &&& e == RuntimeRefusal::Models(
                ModelRefusal::UnknownProvider(t, d.tiers[t].provider),
            )
        }
}

pub open spec fn all_served(d: Definition) -> bool {
    forall|t: Seq<char>| #[trigger] d.tiers.dom().contains(t) ==> has_provider(d, t)
}

/// The tiers of a definition with how they are served, in ascending order.
pub open spec fn models_wired(
    list: Seq<Wired>,
    d: Definition,
    env: Map<Seq<char>, Seq<char>>,
) -> bool {
    &&& lists_domain(list.map_values(|w: Wired| w.selector), d.tiers)
    &&& forall|i: int|
        0 <= i < list.len() ==> #[trigger] list[i] == wired(d, env, list[i].selector)
}

/// The tiers of an agent: how they are served, what they cost, and what to
/// warn of.
pub struct Tiers {
    pub models: Vec<ModelWiring>,
    pub pricing: Table<TierPrice>,
    pub warnings: Vec<String>,
}

fn wire_models(def: &AgentDefinition, env: &Environment) -> (r: Result<Tiers, RuntimeError>)
    ensures
        match r {
            Ok(t) => {
                &&& all_served(def@)
                &&& models_wired(list_view(t.models@), def@, env@)
                &&& rows(t.pricing) == prices(def@.tiers)
                &&& views(t.warnings@) == warned(list_view(t.models@), t.models@.len() as int)
            },
            Err(e) => !all_served(def@) && first_unserved(def@, e@),
        },
{
    let ghost d = def@;
    let n: usize = def.models.tiers.len();
    let ghost keys = def.models.tiers.key_seq();
    assert forall|t: Seq<char>| d.tiers.dom().contains(t) <==> keys.contains(t) by {
        assert(d.tiers.dom().contains(t) <==> def.models.tiers@.dom().contains(t));
    }
    let mut models: Vec<ModelWiring> = Vec::new();
    let mut pricing: Table<TierPrice> = Table::new();
    let mut warnings: Vec<String> = Vec::new();
    assert(views(warnings@) =~= Seq::<Seq<char>>::empty());
    let mut i: usize = 0;
    while i < n
        invariant
            i <= n,
            n == keys.len(),
            d == def@,
            keys == def.models.tiers.key_seq(),
            crate::order::ascending(keys),
            keys.no_duplicates(),
            forall|t: Seq<char>| d.tiers.dom().contains(t) <==> keys.contains(t),
            forall|k: int| 0 <= k < i ==> has_provider(d, #[trigger] keys[k]),
            models@.len() == i,
            forall|k: int| 0 <= k < i ==> (#[trigger] models@[k])@ == wired(d, env@, keys[k]),
            views(warnings@) == warned(list_view(models@), i as int),
            forall|t: Seq<char>| #[trigger]
                rows(pricing).dom().contains(t) <==> keys.take(i as int).contains(t) && priced(
                    d.tiers[t],
                ),
            forall|t: Seq<char>| #[trigger]
                rows(pricing).dom().contains(t) ==> rows(pricing)[t] == price_of(d.tiers[t]),
        decreases n - i,
    {
        let ghost key = keys[i as int];
        let name = def.models.tiers.key_at(i);
        let tier = def.models.tiers.value_at(i);
        proof {
            assert(d.tiers[key] == tier@);
            assert(keys.contains(key));
        }
        let provider = match def.providers.get(tier.provider.as_str()) {
            Some(p) => p,
            None => {
                proof {
                    assert forall|u: Seq<char>| #[trigger]
                        d.tiers.dom().contains(u) && before(u, key) implies has_provider(d, u) by {
                        assert(keys.contains(u));
                        let k = keys.index_of(u);
                        assert(keys[k] == u);
                        if k > i {
                            assert(before(keys[i as int], keys[k]));
                            crate::order::lemma_transitive(u, key, u);
                            crate::order::lemma_irreflexive(u);
                        } else if k == i {
                            crate::order::lemma_irreflexive(u);
                        }
                    }
                    assert(d.tiers.dom().contains(key) && !has_provider(d, key));
                }
                return Err(
                    RuntimeError::Models(
                        ModelConfigError::UnknownProvider {
                            tier: name.clone(),
                            provider: tier.provider.clone(),
                        },
                    ),
                );
            },
        };
        let api_key_resolved = env.get_set(provider.api_key_env.as_str()).is_some();
        let (source, resolved_from) = match def.model_sources.get(name.as_str()) {
            Some(s) => (s.source.clone(), s.resolved_from.clone()),
            None => (owned("inline"), name.clone()),
        };
        let wiring = ModelWiring {
            selector: name.clone(),
            provider: tier.provider.clone(),
            model: tier.model.clone(),
            base_url: provider.base_url.clone(),
            api_key_env: provider.api_key_env.clone(),
            api_key_resolved,
            source,
            resolved_from,
        };
        assert(wiring@ == wired(d, env@, key));
        let ghost w = wiring@;
        let ghost was_models = models@;
        let ghost was_warned = warnings@;
        let text = cat3(
            "api key env var `",
            provider.api_key_env.as_str(),
            "` is unset; model calls will fail until it is set",
        );
        models.push(wiring);
        proof {
            lemma_warned_prefix(list_view(was_models), list_view(models@), i as int);
            assert(list_view(models@)[i as int] == w);
        }
        if !api_key_resolved && !among(&warnings, text.as_str()) {
            warnings.push(text);
            assert(views(warnings@) =~= views(was_warned).push(unset_key(w.api_key_env)));
        }
        let ghost was_priced = rows(pricing);
        proof {
            let then = keys.take(i as int);
            let now = keys.take(i + 1);
            assert(now =~= then.push(key));
            assert forall|k: Seq<char>| now.contains(k) <==> then.contains(k) || k == key by {
                if then.contains(k) {
                    let x = then.index_of(k);
                    assert(now[x] == k);
                }
                assert(now[i as int] == key);
                if now.contains(k) && k != key {
                    let x = now.index_of(k);
                    assert(then[x] == k);
                }
            }
        }
        if tier.input_usd_per_m_tokens.is_some() || tier.output_usd_per_m_tokens.is_some() {
            let input = match &tier.input_usd_per_m_tokens {
                Some(p) => p.clone(),
                None => owned("0.0"),
            };
            let output = match &tier.output_usd_per_m_tokens {
                Some(p) => p.clone(),
                None => owned("0.0"),
            };
            put(
                &mut pricing,
                name.as_str(),
                TierPrice { input_usd_per_m_tokens: input, output_usd_per_m_tokens: output },
            );
        }
        i = i + 1;
    }
    proof {
        let list = list_view(models@);
        assert(list.map_values(|w: Wired| w.selector) =~= keys);
        assert(keys.take(i as int) =~= keys);
        assert(rows(pricing) =~= prices(d.tiers));
        assert forall|t: Seq<char>| #[trigger] d.tiers.dom().contains(t) implies has_provider(
            d,
            t,
        ) by {
            assert(keys.contains(t));
            let k = keys.index_of(t);
            assert(keys[k] == t);
        }
        assert forall|k: int| 0 <= k < list.len() implies #[trigger] list[k] == wired(
            d,
            env@,
            list[k].selector,
        ) by {
            assert(list[k] == models@[k]@);
        }
    }
    Ok(Tiers { models, pricing, warnings })
}

proof fn lemma_warned_prefix(a: Seq<Wired>, b: Seq<Wired>, n: int)
    requires
        n <= a.len() <= b.len(),
        forall|i: int| 0 <= i < a.len() ==> a[i] == b[i],
    ensures
        warned(a, n) == warned(b, n),
    decreases n,
{
    if n > 0 {
        lemma_warned_prefix(a, b, n - 1);
    }
}

// ----- tools -----
/// What one grant comes to.
#[derive(Debug)]
pub enum ToolStep {
    /// Tools of the library.
    Library(Granted),
    /// The agent itself, in a context of its own.
    Delegate(AgentWiring),
    /// The tools of a server that is still to be asked for them.
    Mcp { name: String, command: String, args: Vec<String> },
    /// Another agent, and the tool that takes feedback for it.
    Agent { wiring: AgentWiring, feedback: SubprocessFeedbackTool },
}

/// The grant comes to this step.
pub open spec fn made(
    step: ToolStep,
    grant: Grant,
    base: Seq<char>,
    host: &Host,
) -> bool {
    let depth = depth_of(host.env@);
    match grant.kind {
        ToolKind::Library => if grant.name == "delegate"@ {
            &&& step matches ToolStep::Delegate(w)
            &&& delegate_wiring(grant, base, &host.disk, depth, host.program()) == Ok::<
                Wiring,
                RuntimeRefusal,
            >(w@)
        } else {
            &&& step matches ToolStep::Library(g)
            &&& granted(
                Ok::<Granted, ToolError>(g),
                grant,
                base,
                &host.disk,
                host.user_home(),
            )
        },
        ToolKind::Mcp => {
            &&& step matches ToolStep::Mcp { name, command, args }
            &&& name@ == grant.name
            &&& command_of(grant) == Ok::<(Seq<char>, Seq<Seq<char>>), RuntimeRefusal>(
                (command@, views(args@)),
            )
        },
        ToolKind::Agent => {
            &&& step matches ToolStep::Agent { wiring, feedback }
            &&& agent_wiring(grant, base, &host.disk, depth) == Ok::<Wiring, RuntimeRefusal>(
                wiring@,
            )
            &&& feedback.name@ == "agent_"@ + grant.name + "_feedback"@
            &&& feedback.child@ == grant.name
            &&& artifact_of(grant, base, &host.disk) == Ok::<Seq<char>, RuntimeRefusal>(
                feedback.artifact@,
            )
        },
    }
}

/// Why nothing comes of the grant, if nothing does.
pub open spec fn step_refusal(grant: Grant, base: Seq<char>, host: &Host) -> Option<
    RuntimeRefusal,
> {
    let depth = depth_of(host.env@);
    match grant.kind {
        ToolKind::Library => if grant.name == "delegate"@ {
            match delegate_wiring(grant, base, &host.disk, depth, host.program()) {
                Ok(_) => None,
                Err(e) => Some(e),
            }
        } else {
            match library_refusal(grant, base, &host.disk, host.user_home()) {
                Some(e) => Some(RuntimeRefusal::Tool(e)),
                None => None,
            }
        },
        ToolKind::Mcp => match command_of(grant) {
            Ok(_) => None,
            Err(e) => Some(e),
        },
        ToolKind::Agent => match agent_wiring(grant, base, &host.disk, depth) {
            Err(e) => Some(e),
            Ok(_) => match artifact_of(grant, base, &host.disk) {
                Err(e) => Some(e),
                Ok(_) => None,
            },
        },
    }
}

fn make_step(grant: &ToolGrant, base: &str, host: &Host) -> (r: Result<ToolStep, RuntimeError>)
    ensures
        match r {
            Ok(s) => made(s, grant@, base@, host) && step_refusal(grant@, base@, host) is None,
            Err(e) => step_refusal(grant@, base@, host) == Some(e@),
        },
{
    let depth: u32 = remaining_agent_depth(&host.env);
    match grant.kind {
        ToolKind::Library => {
            if same(grant.name.as_str(), "delegate") {
                let exe = match &host.exe {
                    Ok(p) => Ok(p.as_str()),
                    Err(e) => Err(e.as_str()),
                };
                return match build_delegate_tool(grant, base, &host.disk, depth, exe) {
                    Ok(w) => Ok(ToolStep::Delegate(w)),
                    Err(e) => Err(e),
                };
            }
            let home = match host.env.get("HOME") {
                Some(h) => Some(h.as_str()),
                None => None,
            };
            let made = build_library_grant(grant, base, &host.disk, home);
            proof {
                law_grants_are_honoured_or_refused(
                    made,
                    grant@,
                    base@,
                    &host.disk,
                    host.user_home(),
                );
            }
            match made {
                Ok(g) => Ok(ToolStep::Library(g)),
                Err(e) => Err(RuntimeError::Tool(e)),
            }
        },
        ToolKind::Mcp => match command_and_args(grant) {
            Ok((command, args)) => Ok(
                ToolStep::Mcp { name: grant.name.clone(), command, args },
            ),
            Err(e) => Err(e),
        },
        ToolKind::Agent => {
            let wiring = match build_agent_tool(grant, base, &host.disk, depth) {
                Ok(w) => w,
                Err(e) => {
                    return Err(e);
                },
            };
            match build_agent_feedback_tool(grant, base, &host.disk) {
                Ok(feedback) => Ok(ToolStep::Agent { wiring, feedback }),
                Err(e) => Err(e),
            }
        },
    }
}

/// The grants up to `n` come to something.
pub open spec fn none_refused(tools: Seq<Grant>, base: Seq<char>, host: &Host, n: int) -> bool {
    forall|i: int| 0 <= i < n ==> step_refusal(#[trigger] tools[i], base, host) is None
}

/// `e` is why nothing comes of the first grant of which nothing does.
pub open spec fn first_refused(
    tools: Seq<Grant>,
    base: Seq<char>,
    host: &Host,
    e: RuntimeRefusal,
) -> bool {
    exists|i: int|
        {
            &&& 0 <= i < tools.len()
            &&& step_refusal(#[trigger] tools[i], base, host) == Some(e)
            &&& none_refused(tools, base, host, i)
        }
}

/// The directories that the granted file tools read from, as far as they exist.
pub open spec fn readable(tools: Seq<Grant>, base: Seq<char>, disk: &Disk, n: int) -> Seq<Seq<char>>
    decreases n,
{
    if n <= 0 || n > tools.len() {
        Seq::empty()
    } else {
        let before = readable(tools, base, disk, n - 1);
        let g = tools[n - 1];
        if g.kind == ToolKind::Library && g.name == "fs_read"@ {
            match disk.canonical(path_join(base, scope_of(g.config, "root"@))) {
                Some(c) => before.push(c),
                None => before,
            }
        } else {
            before
        }
    }
}

/// The directories that the granted file tools read from: the only places from
/// which files may be handed to another agent.
pub fn fs_read_roots(def: &AgentDefinition, base: &str, disk: &Disk) -> (r: Vec<String>)
    ensures
        views(r@) == readable(def@.tools, base@, disk, def@.tools.len() as int),
{
    let ghost tools = def@.tools;
    let mut out: Vec<String> = Vec::new();
    let mut i: usize = 0;
    assert(views(out@) =~= Seq::<Seq<char>>::empty());
    while i < def.tools.len()
        invariant
            i <= def.tools@.len(),
            tools == def@.tools,
            views(out@) == readable(tools, base@, disk, i as int),
        decreases def.tools.len() - i,
    {
        let ghost was = out@;
        assert(tools[i as int] == def.tools@[i as int]@);
        let g = &def.tools[i];
        if matches!(g.kind, ToolKind::Library) && same(g.name.as_str(), "fs_read") {
            let root = match g.config.get_str("root") {
                Some(s) => owned(s),
                None => owned("."),
            };
            if let Some(c) = disk.canonicalize(resolve(base, root.as_str()).as_str()) {
                let ghost v = c@;
                out.push(c);
                assert(views(out@) =~= views(was).push(v));
            }
        }
        i = i + 1;
    }
    out
}

// ----- memory, limits, places -----
/// Where memory is kept, and whether it may be written.
#[derive(Debug)]
pub struct MemoryPlan {
    pub root: String,
    pub readonly: bool,
}

/// The first grant of memory, from index `i` on.
pub open spec fn memory_from(tools: Seq<Grant>, i: int) -> Option<Grant>
    decreases tools.len() - i,
{
    if i < 0 || i >= tools.len() {
        None
    } else if tools[i].kind == ToolKind::Library && tools[i].name == "memory"@ {
        Some(tools[i])
    } else {
        memory_from(tools, i + 1)
    }
}

/// Where memory is kept and whether it is read only, where it is granted.
pub open spec fn memory_of(
    tools: Seq<Grant>,
    state_root: Seq<char>,
    home: Seq<char>,
) -> Option<(Seq<char>, bool)> {
    match memory_from(tools, 0) {
        None => None,
        Some(g) => Some(
            (
                match g.config.get_str("root"@) {
                    Some(root) => path_join(state_root, root),
                    None => path_join(home, DEFAULT_MEMORY_DIRNAME@),
                },
                g.config.get_bool("readonly"@) == Some(true),
            ),
        ),
    }
}

pub open spec fn memory_view(m: Option<MemoryPlan>) -> Option<(Seq<char>, bool)> {
    match m {
        Some(m) => Some((m.root@, m.readonly)),
        None => None,
    }
}

fn memory_plan(def: &AgentDefinition, state_root: &str, home: &str) -> (r: Option<MemoryPlan>)
    ensures
        memory_view(r) == memory_of(def@.tools, state_root@, home@),
{
    let ghost tools = def@.tools;
    let mut i: usize = 0;
    while i < def.tools.len()
        invariant
            i <= def.tools@.len(),
            tools == def@.tools,
            memory_from(tools, 0) == memory_from(tools, i as int),
        decreases def.tools.len() - i,
    {
        assert(tools[i as int] == def.tools@[i as int]@);
        let g = &def.tools[i];
        if matches!(g.kind, ToolKind::Library) && same(g.name.as_str(), "memory") {
            let readonly = match g.config.get_bool("readonly") {
                Some(b) => b,
                None => false,
            };
            let root = match g.config.get_str("root") {
                Some(r) => resolve(state_root, r),
                None => join_path(home, DEFAULT_MEMORY_DIRNAME),
            };
            return Some(MemoryPlan { root, readonly });
        }
        i = i + 1;
    }
    None
}

/// Seconds in milliseconds, as far as they can be counted.
pub open spec fn millis(s: u64) -> u64 {
    if s * 1000 <= u64::MAX {
        (s * 1000) as u64
    } else {
        u64::MAX
    }
}

/// The limits that a definition declares, as an agent takes them.
pub open spec fn limits_of(l: LimitsConfig) -> AgentLimits {
    AgentLimits {
        max_turns: None,
        max_model_calls: l.max_model_calls,
        max_cost_micro_usd: l.max_cost_micro_usd,
        timeout_ms: match l.timeout_s {
            Some(s) => Some(millis(s)),
            None => None,
        },
    }
}

fn declared_limits(l: &LimitsConfig) -> (r: AgentLimits)
    ensures
        r == limits_of(*l),
{
    let mut limits = AgentLimits::new();
    if let Some(v) = l.max_model_calls {
        limits = limits.with_max_model_calls(v);
    }
    if let Some(v) = l.max_cost_micro_usd {
        limits = limits.with_max_cost_micro_usd(v);
    }
    if let Some(s) = l.timeout_s {
        let ms: u64 = if s <= u64::MAX / 1000 {
            s * 1000
        } else {
            u64::MAX
        };
        assert(ms == millis(s));
        limits = limits.with_timeout_ms(ms);
    }
    limits
}

/// Where an agent keeps its notes, files and feedback.
#[derive(Debug)]
pub struct StoragePlan {
    pub scratch_root: String,
    pub blob_root: String,
    pub feedback_root: String,
}

pub open spec fn storage_view(s: Option<StoragePlan>) -> Option<
    (Seq<char>, Seq<char>, Seq<char>),
> {
    match s {
        Some(s) => Some((s.scratch_root@, s.blob_root@, s.feedback_root@)),
        None => None,
    }
}

/// Where a definition keeps its notes, files and feedback.
pub open spec fn storage_of(
    d: Definition,
    state_root: Seq<char>,
    env: Map<Seq<char>, Seq<char>>,
    temp_dir: Seq<char>,
) -> (Seq<char>, Seq<char>, Seq<char>) {
    let home = home_of(d.name, env, temp_dir);
    (
        match d.scratch_root {
            Some(root) => path_join(state_root, root),
            None => path_join(home, DEFAULT_SCRATCH_DIRNAME@),
        },
        blob_dir(env, temp_dir),
        path_join(home, DEFAULT_FEEDBACK_DIRNAME@),
    )
}

fn storage_plan(def: &AgentDefinition, state_root: &str, env: &Environment, temp_dir: &str) -> (r:
    StoragePlan)
    ensures
        (r.scratch_root@, r.blob_root@, r.feedback_root@) == storage_of(
            def@,
            state_root@,
            env@,
            temp_dir@,
        ),
{
    let home = agent_home_for_def(def, env, temp_dir);
    let scratch_root = match &def.scratchpad.root {
        Some(root) => resolve(state_root, root.as_str()),
        None => join_path(home.as_str(), DEFAULT_SCRATCH_DIRNAME),
    };
    StoragePlan {
        scratch_root,
        blob_root: global_blob_store_dir(env, temp_dir),
        feedback_root: join_path(home.as_str(), DEFAULT_FEEDBACK_DIRNAME),
    }
}

/// The shape that answers must have: the one that the definition declares,
/// else the only one that was added.
pub open spec fn contract_of(
    d: Definition,
    added: Map<Seq<char>, Contract>,
) -> Option<Contract> {
    match d.response_schema {
        Some(schema) => Some(Contract { name: "agent_response"@, schema }),
        None => only(added),
    }
}

/// The shape that answers must have.
pub fn response_contract(def: &AgentDefinition, options: &RuntimeOptions) -> (r: Option<
    ResponseContract,
>)
    ensures
        contract_view(r) == contract_of(def@, rows(options.response_contracts)),
{
    match &def.response_schema {
        Some(schema) => Some(
            ResponseContract { name: owned("agent_response"), schema: schema.copy() },
        ),
        None => options.single_response_contract(),
    }
}

pub open spec fn skill_paths_of(d: Definition) -> Seq<Seq<char>> {
    d.skills.map_values(|p: Seq<char>| path_join(base_of(d), p))
}

fn skill_paths(def: &AgentDefinition, base: &str) -> (r: Vec<String>)
    requires
        base@ == base_of(def@),
    ensures
        views(r@) == skill_paths_of(def@),
{
    let mut out: Vec<String> = Vec::new();
    let ghost goal = skill_paths_of(def@);
    let mut i: usize = 0;
    while i < def.skills.len()
        invariant
            i <= def.skills@.len(),
            base@ == base_of(def@),
            goal == skill_paths_of(def@),
            views(out@) =~= goal.take(i as int),
        decreases def.skills.len() - i,
    {
        let ghost was = out@;
        let p = resolve(base, def.skills[i].as_str());
        let ghost v = p@;
        assert(v == goal[i as int]);
        out.push(p);
        assert(views(out@) =~= views(was).push(v));
        i = i + 1;
    }
    assert(goal.take(i as int) =~= goal);
    out
}

// ----- the whole -----
/// Everything that an agent is made of.
#[derive(Debug)]
pub struct AgentPlan {
    pub name: String,
    pub version: String,
    pub description: String,
    pub models: Vec<ModelWiring>,
    pub pricing: Table<TierPrice>,
    pub default_model: Option<String>,
    pub context_policy: Option<BudgetPolicy>,
    pub response_contract: Option<ResponseContract>,
    pub skill_paths: Vec<String>,
    pub system_prompt: String,
    pub steps: Vec<ToolStep>,
    pub readable_roots: Vec<String>,
    pub memory: Option<MemoryPlan>,
    pub limits: AgentLimits,
    pub trace_store: String,
    pub storage: Option<StoragePlan>,
    pub warnings: Vec<String>,
}

/// The directory that state is kept below.
pub open spec fn state_root_of(d: Definition, options: &RuntimeOptions) -> Seq<char> {
    match options.state_root {
        Some(r) => r@,
        None => base_of(d),
    }
}

/// The version that an agent is said to have.
pub open spec fn version_of(d: Definition) -> Seq<char> {
    if trimmed(d.version).len() == 0 {
        "0.0.0"@
    } else {
        d.version
    }
}

/// The plan is the one of a definition whose tiers are settled.
pub open spec fn planned(
    p: AgentPlan,
    d: Definition,
    options: &RuntimeOptions,
    host: &Host,
) -> bool {
    let base = base_of(d);
    let state_root = state_root_of(d, options);
    let env = host.env@;
    let temp_dir = host.temp_dir@;
    &&& p.name@ == d.name
    &&& p.version@ == version_of(d)
    &&& p.description@ == d.description
    &&& models_wired(list_view(p.models@), d, env)
    &&& rows(p.pricing) == prices(d.tiers)
    &&& views(p.warnings@) == warned(list_view(p.models@), p.models@.len() as int)
    &&& opt_view(p.default_model) == d.default
    &&& budget_view(p.context_policy) == budget_of(d.context, d.default)
    &&& contract_view(p.response_contract) == contract_of(d, rows(options.response_contracts))
    &&& views(p.skill_paths@) == skill_paths_of(d)
    &&& p.system_prompt@ == prompt_of(d, host.date@)
    &&& p.steps@.len() == d.tools.len()
    &&& forall|i: int| 0 <= i < d.tools.len() ==> made(#[trigger] p.steps@[i], d.tools[i], base, host)
    &&& views(p.readable_roots@) == readable(d.tools, base, &host.disk, d.tools.len() as int)
    &&& memory_view(p.memory) == memory_of(d.tools, state_root, home_of(d.name, env, temp_dir))
    &&& p.limits == limits_of(d.limits)
    &&& p.trace_store@ == store_of(d, state_root, env, temp_dir)
    &&& storage_view(p.storage) == if options.own_storage {
        None
    } else {
        Some(storage_of(d, state_root, env, temp_dir))
    }
}

/// What comes of a definition whose tiers are settled: a plan; or there is no
/// tier; or a tier has no provider; or nothing comes of a grant.
pub open spec fn assembles(
    r: Result<AgentPlan, RuntimeError>,
    d: Definition,
    options: &RuntimeOptions,
    host: &Host,
) -> bool {
    let no_tier = forall|t: Seq<char>| !d.tiers.dom().contains(t);
    match r {
        Ok(p) => {
            &&& !no_tier
            &&& all_served(d)
            &&& none_refused(d.tools, base_of(d), host, d.tools.len() as int)
            &&& planned(p, d, options, host)
        },
        Err(e) => if no_tier {
            e@ == RuntimeRefusal::NoModel
        } else if !all_served(d) {
            first_unserved(d, e@)
        } else {
            first_refused(d.tools, base_of(d), host, e@)
        },
    }
}

/// Makes the plan of an agent from a definition whose tiers are settled.
pub fn assemble(def: &AgentDefinition, options: &RuntimeOptions, host: &Host) -> (r: Result<
    AgentPlan,
    RuntimeError,
>)
    ensures
        assembles(r, def@, options, host),
{
    let ghost d = def@;
    let base = base_dir(def);
    let count: usize = def.models.tiers.len();
    let ghost keys = def.models.tiers.key_seq();
    proof {
        assert forall|t: Seq<char>| d.tiers.dom().contains(t) <==> keys.contains(t) by {
            assert(d.tiers.dom().contains(t) <==> def.models.tiers@.dom().contains(t));
        }
        if count == 0 {
            assert forall|t: Seq<char>| !d.tiers.dom().contains(t) by {
                if d.tiers.dom().contains(t) {
                    assert(keys.contains(t));
                }
            }
        } else {
            assert(keys.contains(keys[0]));
            assert(d.tiers.dom().contains(keys[0]));
        }
    }
    if count == 0 {
        return Err(RuntimeError::NoModel);
    }
    let home = agent_home_for_def(def, &host.env, host.temp_dir.as_str());
    let state_root = match &options.state_root {
        Some(r) => r.clone(),
        None => base.clone(),
    };
    let trace_store = trace_store_below(
        def,
        state_root.as_str(),
        &host.env,
        host.temp_dir.as_str(),
    );
    let version = if trim(def.agent.version.as_str()).as_str().is_empty() {
        owned("0.0.0")
    } else {
        def.agent.version.clone()
    };
    let tiers = match wire_models(def, &host.env) {
        Ok(t) => t,
        Err(e) => {
            return Err(e);
        },
    };
    let mut steps: Vec<ToolStep> = Vec::new();
    let mut i: usize = 0;
    while i < def.tools.len()
        invariant
            i <= def.tools@.len(),
            d == def@,
            base@ == base_of(d),
            d.tiers.dom().contains(keys[0]),
            all_served(d),
            steps@.len() == i,
            none_refused(d.tools, base@, host, i as int),
            forall|k: int| 0 <= k < i ==> made(#[trigger] steps@[k], d.tools[k], base@, host),
        decreases def.tools.len() - i,
    {
        assert(d.tools[i as int] == def.tools@[i as int]@);
        match make_step(&def.tools[i], base.as_str(), host) {
            Ok(s) => {
                steps.push(s);
            },
            Err(e) => {
                return Err(e);
            },
        }
        i = i + 1;
    }
    let readable_roots = fs_read_roots(def, base.as_str(), &host.disk);
    let memory = memory_plan(def, state_root.as_str(), home.as_str());
    let storage = if options.own_storage {
        None
    } else {
        Some(storage_plan(def, state_root.as_str(), &host.env, host.temp_dir.as_str()))
    };
    let plan = AgentPlan {
        name: def.agent.name.clone(),
        version,
        description: def.agent.description.clone(),
        models: tiers.models,
        pricing: tiers.pricing,
        default_model: copy_text(&def.models.default),
        context_policy: context_policy(def),
        response_contract: response_contract(def, options),
        skill_paths: skill_paths(def, base.as_str()),
        system_prompt: render_system_prompt(def, host.date.as_str()),
        steps,
        readable_roots,
        memory,
        limits: declared_limits(&def.limits),
        trace_store,
        storage,
        warnings: tiers.warnings,
    };
    assert(planned(plan, d, options, host));
    Ok(plan)
}

/// The definition with its tiers settled: as it is where it has all four, else
/// from the catalog that was given, else from what it declares and the
/// built-in catalog.
pub open spec fn readied(
    r: Result<AgentDefinition, ModelConfigError>,
    def: Definition,
    options: &RuntimeOptions,
    env: Map<Seq<char>, Seq<char>>,
) -> bool {
    if def.tiers.dom().len() == tier_names().len() {
        r matches Ok(d) && d@ == def
    } else {
        match options.catalog {
            Some(c) => settles(r, def, c@.providers, Map::empty(), c@, env, "runtime"@),
            None => settles(
                r,
                def,
                built_in_catalog().providers.union_prefer_right(def.providers),
                def.tiers,
                built_in_catalog(),
                env,
                "global"@,
            ),
        }
    }
}

fn ready(def: &AgentDefinition, options: &RuntimeOptions, env: &Environment) -> (r: Result<
    AgentDefinition,
    ModelConfigError,
>)
    ensures
        readied(r, def@, options, env@),
{
    let n: usize = def.models.tiers.len();
    proof {
        let keys = def.models.tiers.key_seq();
        keys.unique_seq_to_set();
        assert forall|t: Seq<char>| def@.tiers.dom().contains(t) <==> keys.to_set().contains(t) by {
            assert(def@.tiers.dom().contains(t) <==> def.models.tiers@.dom().contains(t));
        }
        assert(def@.tiers.dom() =~= keys.to_set());
    }
    if n == TIER_COUNT {
        return Ok(def.duplicate());
    }
    match options.model_catalog() {
        Some(c) => resolve_runtime_definition(def, Some(c), None, env),
        None => resolve_source_definition(def, &default_catalog(), env),
    }
}

/// Makes the plan of an agent from a definition, with what an embedding program
/// adds.
pub fn build_agent_with_options(
    def: &AgentDefinition,
    options: &RuntimeOptions,
    host: &Host,
) -> (r: Result<AgentPlan, RuntimeError>)
    ensures
        exists|settled: Result<AgentDefinition, ModelConfigError>|
            {
                &&& #[trigger] readied(settled, def@, options, host.env@)
                &&& match settled {
                    Ok(d) => assembles(r, d@, options, host),
                    Err(e) => r matches Err(why) && why@ == RuntimeRefusal::Models(e@),
                }
            },
{
    let settled = ready(def, options, &host.env);
    let ghost s = settled;
    match settled {
        Ok(d) => {
            let r = assemble(&d, options, host);
            assert(readied(s, def@, options, host.env@));
            r
        },
        Err(e) => {
            assert(readied(s, def@, options, host.env@));
            Err(RuntimeError::Models(e))
        },
    }
}

/// Makes the plan of an agent from a definition alone.
pub fn build_agent(def: &AgentDefinition, host: &Host) -> (r: Result<AgentPlan, RuntimeError>)
    ensures
        exists|settled: Result<AgentDefinition, ModelConfigError>, options: RuntimeOptions|
            {
                &&& rows(options.response_contracts) == Map::<Seq<char>, Contract>::empty()
                &&& !options.own_storage
                &&& options.state_root is None
                &&& options.catalog is None
                &&& #[trigger] readied(settled, def@, &options, host.env@)
                &&& match settled {
                    Ok(d) => assembles(r, d@, &options, host),
                    Err(e) => r matches Err(why) && why@ == RuntimeRefusal::Models(e@),
                }
            },
{
    let options = RuntimeOptions::new();
    let r = build_agent_with_options(def, &options, host);
    let ghost s = choose|settled: Result<AgentDefinition, ModelConfigError>|
        {
            &&& #[trigger] readied(settled, def@, &options, host.env@)
            &&& match settled {
                Ok(d) => assembles(r, d@, &options, host),
                Err(e) => r matches Err(why) && why@ == RuntimeRefusal::Models(e@),
            }
        };
    assert(readied(s, def@, &options, host.env@));
    r
}

/// Only what is granted is registered: each step stands for a grant, and the
/// tools that it registers are those that the library lists for that grant.
pub proof fn law_only_granted_tools_are_registered(
    p: AgentPlan,
    d: Definition,
    options: &RuntimeOptions,
    host: &Host,
    i: int,
)
    requires
        planned(p, d, options, host),
        0 <= i < p.steps@.len(),
    ensures
        i < d.tools.len(),
        p.steps@[i] matches ToolStep::Library(g) ==> d.tools[i].kind == ToolKind::Library && (
        g.tools@.len() == 0 || registers(g, d.tools[i].name)),
        p.steps@[i] is Mcp ==> d.tools[i].kind == ToolKind::Mcp,
        p.steps@[i] is Agent ==> d.tools[i].kind == ToolKind::Agent,
        p.steps@[i] is Delegate ==> d.tools[i].kind == ToolKind::Library && d.tools[i].name
            == "delegate"@,
{
    assert(made(p.steps@[i], d.tools[i], base_of(d), host));
}

/// A tier is served by the model it names, at the address of its provider and with
/// the key that the provider's variable holds.
pub proof fn law_tiers_are_wired_to_their_provider(
    d: Definition,
    env: Map<Seq<char>, Seq<char>>,
    tier: Seq<char>,
)
    ensures
        ({
            let w = wired(d, env, tier);
            let p = d.providers[d.tiers[tier].provider];
            &&& w.selector == tier && w.model == d.tiers[tier].model && w.provider
                == d.tiers[tier].provider
            &&& w.base_url == p.base_url && w.api_key_env == p.api_key_env
            &&& w.api_key_resolved <==> env.dom().contains(p.api_key_env)
                && env[p.api_key_env].len() > 0
            &&& d.sources.dom().contains(tier) ==> w.source == d.sources[tier]
        }),
{
}

/// What tokens cost is what the tier says; a price that is left out is nothing, and a
/// tier without prices has none.
pub proof fn law_prices_are_those_of_the_tier(tiers: Map<Seq<char>, Tier>, t: Seq<char>)
    requires
        tiers.dom().contains(t),
    ensures
        ({
            let p = prices(tiers);
            &&& p.dom().contains(t) <==> tiers[t].input_price is Some || tiers[t].output_price
                is Some
            &&& tiers[t].input_price matches Some(x) ==> p[t].input == x
            &&& tiers[t].output_price matches Some(x) ==> p[t].output == x
            &&& tiers[t].input_price is None && tiers[t].output_price is Some ==> p[t].input
                == "0.0"@
            &&& tiers[t].output_price is None && tiers[t].input_price is Some ==> p[t].output
                == "0.0"@
        }),
{
}

/// A limit in seconds holds for a thousand times as many milliseconds, and every
/// other limit as it is declared.
pub proof fn law_limits_are_those_declared(l: LimitsConfig)
    ensures
        ({
            let r = limits_of(l);
            &&& r.max_model_calls == l.max_model_calls
            &&& r.max_cost_micro_usd == l.max_cost_micro_usd
            &&& r.max_turns is None
            &&& l.timeout_s is None ==> r.timeout_ms is None
            &&& l.timeout_s matches Some(s) ==> (r.timeout_ms matches Some(ms) && (s * 1000
                <= u64::MAX ==> ms == s * 1000) && (s * 1000 > u64::MAX ==> ms == u64::MAX))
        }),
{
}

/// Each kind of state has a place of its own: the one declared, from the directory
/// of state, or the usual one in the agent's home.
pub proof fn law_state_is_kept_apart(
    d: Definition,
    state_root: Seq<char>,
    env: Map<Seq<char>, Seq<char>>,
    temp_dir: Seq<char>,
)
    ensures
        ({
            let (scratch, blobs, feedback) = storage_of(d, state_root, env, temp_dir);
            let home = home_of(d.name, env, temp_dir);
            &&& d.scratch_root matches Some(r) ==> scratch == path_join(state_root, r)
            &&& d.scratch_root is None ==> scratch == path_join(home, DEFAULT_SCRATCH_DIRNAME@)
            &&& blobs == blob_dir(env, temp_dir)
            &&& feedback == path_join(home, DEFAULT_FEEDBACK_DIRNAME@)
            &&& d.trace_store matches Some(r) ==> store_of(d, state_root, env, temp_dir)
                == path_join(state_root, r)
        }),
{
}

/// Every tier whose key is not set is warned of, each variable once.
pub proof fn law_every_unset_key_is_warned_of(list: Seq<Wired>, n: int, i: int)
    requires
        0 <= i < n <= list.len(),
    ensures
        !list[i].api_key_resolved ==> warned(list, n).contains(unset_key(list[i].api_key_env)),
        warned(list, n).no_duplicates(),
        warned(list, i).is_prefix_of(warned(list, n)),
    decreases n,
{
    let text = unset_key(list[n - 1].api_key_env);
    let before = warned(list, n - 1);
    lemma_warned_once(list, n);
    lemma_warned_once(list, n - 1);
    if i < n - 1 {
        law_every_unset_key_is_warned_of(list, n - 1, i);
        if before.contains(unset_key(list[i].api_key_env)) {
            let k = before.index_of(unset_key(list[i].api_key_env));
            assert(warned(list, n)[k] == before[k]);
        }
    } else if !list[i].api_key_resolved && !before.contains(text) {
        assert(warned(list, n).last() == text);
    }
}

proof fn lemma_warned_once(list: Seq<Wired>, n: int)
    requires
        0 <= n <= list.len(),
    ensures
        warned(list, n).no_duplicates(),
    decreases n,
{
    if n > 0 {
        lemma_warned_once(list, n - 1);
        let before = warned(list, n - 1);
        let text = unset_key(list[n - 1].api_key_env);
        if !list[n - 1].api_key_resolved && !before.contains(text) {
            assert forall|a: int, b: int| 0 <= a < b < before.len() + 1 implies before.push(
                text,
            )[a] != before.push(text)[b] by {
                if b == before.len() {
                    assert(before.contains(before[a]));
                }
            }
        }
    }
}

/// What a wired tier denotes is what stands in its parts.
pub proof fn law_wirings_denote_their_parts(w: ModelWiring)
    ensures
        w@.selector == w.selector@ && w@.provider == w.provider@ && w@.model == w.model@,
        w@.base_url == w.base_url@ && w@.api_key_env == w.api_key_env@,
        w@.api_key_resolved == w.api_key_resolved,
        w@.source.source == w.source@ && w@.source.resolved_from == w.resolved_from@,
{
}

} // verus!
