//! An agent as it is configured, and the card by which it presents itself.
use vstd::prelude::*;

use super::agent_tool::{agent_tool_spec, AgentToolSpec};
use super::limits::AgentLimits;
use super::scratch::{
    scratch_list_spec, scratch_read_spec, scratch_tool_schemas, scratch_write_spec,
};
use crate::definition::list_view;
use crate::json::{field, no_fields, Data, Json, Members};
use crate::paths::{join_path, path_join};
use crate::schema::{Schema, ToolSchema};
use crate::sorting::{ints, is_permutation, law_order, order_of, sort_order};
use crate::table::{rows, Duplicate, Table};
use crate::text::{owned, same, views};

verus! {

/// The directory of notes below the store.
pub const DEFAULT_SCRATCH_DIRNAME: &'static str = ".scratch";

/// The directory of files below the store.
pub const DEFAULT_BLOBS_DIRNAME: &'static str = ".blobs";

/// What kind of access a tool has.
#[derive(Clone, Copy, Debug, PartialEq, Eq, Structural)]
pub enum ToolPrivilege {
    ReadOnly,
    Scratchpad,
    Gated,
    Agent,
}

/// What a million tokens of a tier cost, as decimal numbers.
#[derive(Debug)]
pub struct TierPrice {
    pub input_usd_per_m_tokens: String,
    pub output_usd_per_m_tokens: String,
}

/// What a [`TierPrice`] denotes.
pub struct Price {
    pub input: Seq<char>,
    pub output: Seq<char>,
}

impl View for TierPrice {
    type V = Price;

    open spec fn view(&self) -> Price {
        Price { input: self.input_usd_per_m_tokens@, output: self.output_usd_per_m_tokens@ }
    }
}

impl Duplicate for TierPrice {
    fn duplicate(&self) -> (r: Self) {
        TierPrice {
            input_usd_per_m_tokens: self.input_usd_per_m_tokens.clone(),
            output_usd_per_m_tokens: self.output_usd_per_m_tokens.clone(),
        }
    }
}

/// A tool that an agent has, as far as its card tells.
#[derive(Debug)]
pub struct CapabilityCard {
    pub schema: ToolSchema,
    pub requires_permission: bool,
    pub runs_in_background: bool,
}

/// An agent as it is configured.
#[derive(Debug)]
pub struct Agent {
    pub name: String,
    pub version: String,
    pub description: String,
    pub store_root: String,
    pub system_prompt: Option<String>,
    pub models: Vec<String>,
    pub default_model: Option<String>,
    pub capabilities: Vec<CapabilityCard>,
    pub scratch_root: String,
    pub blob_root: String,
    pub pricing: Table<TierPrice>,
    pub limits: AgentLimits,
    pub agent_tools: Vec<AgentToolSpec>,
}

/// One tool on a card.
#[derive(Debug)]
pub struct ToolCard {
    pub name: String,
    pub description: String,
    pub privilege: ToolPrivilege,
    pub runs_in_background: bool,
    pub schema: ToolSchema,
    pub scope: Data,
}

/// What a [`ToolCard`] denotes.
pub struct ToolInfo {
    pub name: Seq<char>,
    pub description: Seq<char>,
    pub privilege: ToolPrivilege,
    pub runs_in_background: bool,
    pub schema: Schema,
    pub scope: Json,
}

impl View for ToolCard {
    type V = ToolInfo;

    open spec fn view(&self) -> ToolInfo {
        ToolInfo {
            name: self.name@,
            description: self.description@,
            privilege: self.privilege,
            runs_in_background: self.runs_in_background,
            schema: self.schema@,
            scope: self.scope@,
        }
    }
}

impl Duplicate for ToolCard {
    fn duplicate(&self) -> (r: Self) {
        ToolCard {
            name: self.name.clone(),
            description: self.description.clone(),
            privilege: self.privilege,
            runs_in_background: self.runs_in_background,
            schema: self.schema.copy(),
            scope: self.scope.copy(),
        }
    }
}

/// One model tier on a card.
#[derive(Debug)]
pub struct ModelTierCard {
    pub selector: String,
    pub default: bool,
    pub pricing: Option<TierPrice>,
}

/// What a [`ModelTierCard`] denotes.
pub struct TierInfo {
    pub selector: Seq<char>,
    pub default: bool,
    pub pricing: Option<Price>,
}

pub open spec fn price_view(p: Option<TierPrice>) -> Option<Price> {
    match p {
        Some(p) => Some(p@),
        None => None,
    }
}

impl View for ModelTierCard {
    type V = TierInfo;

    open spec fn view(&self) -> TierInfo {
        TierInfo {
            selector: self.selector@,
            default: self.default,
            pricing: price_view(self.pricing),
        }
    }
}

impl Duplicate for ModelTierCard {
    fn duplicate(&self) -> (r: Self) {
        ModelTierCard {
            selector: self.selector.clone(),
            default: self.default,
            pricing: match &self.pricing {
                Some(p) => Some(p.duplicate()),
                None => None,
            },
        }
    }
}

/// How an agent presents itself.
#[derive(Debug)]
pub struct AgentCard {
    pub name: String,
    pub version: String,
    pub description: String,
    pub tools: Vec<ToolCard>,
    pub model_tiers: Vec<ModelTierCard>,
    pub limits: AgentLimits,
}

// ----- the tools -----
pub open spec fn tool_info(
    schema: Schema,
    privilege: ToolPrivilege,
    runs_in_background: bool,
    scope: Json,
) -> ToolInfo {
    ToolInfo {
        name: schema.name,
        description: schema.description,
        privilege,
        runs_in_background,
        schema,
        scope,
    }
}

fn tool_card(
    schema: ToolSchema,
    privilege: ToolPrivilege,
    runs_in_background: bool,
    scope: Data,
) -> (r: ToolCard)
    ensures
        r@ == tool_info(schema@, privilege, runs_in_background, scope@),
{
    ToolCard {
        name: schema.name.clone(),
        description: schema.description.clone(),
        privilege,
        runs_in_background,
        schema,
        scope,
    }
}

/// The schemas of the three scratch tools.
pub open spec fn scratch_schemas() -> Seq<Schema> {
    Seq::empty().push(scratch_write_spec()).push(scratch_read_spec()).push(scratch_list_spec())
}

pub open spec fn scratch_scope(root: Seq<char>) -> Json {
    Json::Object(no_fields().push(field("root"@, Json::Str(root))))
}

pub open spec fn capability_info(c: CapabilityCard) -> ToolInfo {
    tool_info(
        c.schema@,
        if c.requires_permission {
            ToolPrivilege::Gated
        } else {
            ToolPrivilege::ReadOnly
        },
        c.runs_in_background,
        Json::Null,
    )
}

/// Everything that an agent can call: its notes, the agents granted to it, and
/// its own capabilities.
pub open spec fn all_tools(a: &Agent) -> Seq<ToolInfo> {
    scratch_schemas().map_values(
        |s: Schema|
            tool_info(s, ToolPrivilege::Scratchpad, false, scratch_scope(a.scratch_root@)),
    ) + a.agent_tools@.map_values(
        |t: AgentToolSpec|
            tool_info(
                agent_tool_spec(t.name@, t.description@),
                ToolPrivilege::Agent,
                false,
                Json::Null,
            ),
    ) + a.capabilities@.map_values(|c: CapabilityCard| capability_info(c))
}

pub open spec fn tool_names_of(tools: Seq<ToolInfo>) -> Seq<Seq<char>> {
    tools.map_values(|t: ToolInfo| t.name)
}

/// A list rearranged: the item at each place is the one that `order` names.
pub open spec fn arranged<T>(list: Seq<T>, order: Seq<int>) -> Seq<T> {
    Seq::new(order.len(), |i: int| list[order[i]])
}

pub fn arrange<T: Duplicate>(list: &Vec<T>, names: &Vec<String>) -> (r: Vec<T>)
    requires
        list@.len() == names@.len(),
    ensures
        list_view(r@) == arranged(list_view(list@), order_of(views(names@))),
{
    let order = sort_order(names);
    let ghost all = list_view(list@);
    let ghost places = order_of(views(names@));
    let mut r: Vec<T> = Vec::new();
    let mut i: usize = 0;
    while i < order.len()
        invariant
            i <= order@.len(),
            all == list_view(list@),
            ints(order@) == places,
            forall|k: int| 0 <= k < order@.len() ==> (#[trigger] order@[k]) < list@.len(),
            r@.len() == i,
            forall|k: int| 0 <= k < i ==> (#[trigger] r@[k])@ == all[places[k]],
        decreases order.len() - i,
    {
        let at: usize = order[i];
        assert(places[i as int] == at);
        assert(all[at as int] == list@[at as int]@);
        r.push(list[at].duplicate());
        i = i + 1;
    }
    assert(places.len() == order@.len());
    assert(list_view(r@) =~= arranged(all, places));
    r
}

// ----- the tiers -----
/// The tier that answers unless another is asked for: the one named, else the
/// first.
pub open spec fn default_selector(a: &Agent) -> Option<Seq<char>> {
    match a.default_model {
        Some(m) => Some(m@),
        None => if a.models@.len() > 0 {
            Some(a.models@[0]@)
        } else {
            None
        },
    }
}

pub open spec fn tier_info(a: &Agent, selector: Seq<char>) -> TierInfo {
    TierInfo {
        selector,
        default: default_selector(a) == Some(selector),
        pricing: if rows(a.pricing).dom().contains(selector) {
            Some(rows(a.pricing)[selector])
        } else {
            None
        },
    }
}

pub open spec fn all_tiers(a: &Agent) -> Seq<TierInfo> {
    views(a.models@).map_values(|s: Seq<char>| tier_info(a, s))
}

impl Agent {
    /// An agent that keeps its traces in `store_root` and everything else below
    /// it, and has nothing configured yet.
    pub fn new(name: &str, version: &str, store_root: &str) -> (r: Agent)
        ensures
            r.name@ == name@,
            r.version@ == version@,
            r.description@ == Seq::<char>::empty(),
            r.store_root@ == store_root@,
            r.scratch_root@ == path_join(store_root@, DEFAULT_SCRATCH_DIRNAME@),
            r.blob_root@ == path_join(store_root@, DEFAULT_BLOBS_DIRNAME@),
            r.system_prompt is None,
            r.default_model is None,
            r.models@.len() == 0,
            r.capabilities@.len() == 0,
            r.agent_tools@.len() == 0,
            rows(r.pricing) == Map::<Seq<char>, Price>::empty(),
            r.limits == (AgentLimits {
                max_turns: None,
                max_model_calls: None,
                max_cost_micro_usd: None,
                timeout_ms: None,
            }),
    {
        let pricing: Table<TierPrice> = Table::new();
        assert(rows(pricing) =~= Map::<Seq<char>, Price>::empty());
        let description = owned("");
        proof {
            reveal_strlit("");
            assert(description@ =~= Seq::<char>::empty());
        }
        Agent {
            name: owned(name),
            version: owned(version),
            description,
            store_root: owned(store_root),
            system_prompt: None,
            models: Vec::new(),
            default_model: None,
            capabilities: Vec::new(),
            scratch_root: join_path(store_root, DEFAULT_SCRATCH_DIRNAME),
            blob_root: join_path(store_root, DEFAULT_BLOBS_DIRNAME),
            pricing,
            limits: AgentLimits::new(),
            agent_tools: Vec::new(),
        }
    }

    fn listed_tools(&self) -> (r: Vec<ToolCard>)
        ensures
            list_view(r@) == all_tools(self),
    {
        let mut r: Vec<ToolCard> = Vec::new();
        let schemas = scratch_tool_schemas();
        let ghost goal = all_tools(self);
        let ghost notes = scratch_schemas();
        assert(schemas@.map_values(|s: ToolSchema| s@) =~= notes);
        let mut i: usize = 0;
        while i < schemas.len()
            invariant
                i <= schemas@.len(),
                goal == all_tools(self),
                notes == scratch_schemas(),
                schemas@.map_values(|s: ToolSchema| s@) == notes,
                list_view(r@) =~= goal.take(i as int),
            decreases schemas.len() - i,
        {
            let ghost was = r@;
            assert(notes[i as int] == schemas@[i as int]@);
            let scope = Members::new().with(
                "root",
                Data::string(self.scratch_root.as_str()),
            ).object();
            let card = tool_card(schemas[i].copy(), ToolPrivilege::Scratchpad, false, scope);
            let ghost v = card@;
            assert(v == goal[i as int]);
            r.push(card);
            assert(list_view(r@) =~= list_view(was).push(v));
            i = i + 1;
        }
        let mut j: usize = 0;
        while j < self.agent_tools.len()
            invariant
                j <= self.agent_tools@.len(),
                goal == all_tools(self),
                list_view(r@) =~= goal.take(3 + j),
            decreases self.agent_tools.len() - j,
        {
            let ghost was = r@;
            let card = tool_card(
                self.agent_tools[j].schema(),
                ToolPrivilege::Agent,
                false,
                Data::null(),
            );
            let ghost v = card@;
            assert(v == goal[3 + j]);
            r.push(card);
            assert(list_view(r@) =~= list_view(was).push(v));
            j = j + 1;
        }
        let mut k: usize = 0;
        while k < self.capabilities.len()
            invariant
                k <= self.capabilities@.len(),
                goal == all_tools(self),
                list_view(r@) =~= goal.take(3 + self.agent_tools@.len() + k),
            decreases self.capabilities.len() - k,
        {
            let ghost was = r@;
            let c = &self.capabilities[k];
            let privilege = if c.requires_permission {
                ToolPrivilege::Gated
            } else {
                ToolPrivilege::ReadOnly
            };
            let card = tool_card(c.schema.copy(), privilege, c.runs_in_background, Data::null());
            let ghost v = card@;
            assert(v == goal[3 + self.agent_tools@.len() + k]);
            r.push(card);
            assert(list_view(r@) =~= list_view(was).push(v));
            k = k + 1;
        }
        assert(goal.take(3 + self.agent_tools@.len() + k) =~= goal);
        r
    }

    /// The model tiers, in ascending order of their names.
    pub fn model_tiers(&self) -> (r: Vec<ModelTierCard>)
        ensures
            list_view(r@) == arranged(all_tiers(self), order_of(views(self.models@))),
    {
        let mut list: Vec<ModelTierCard> = Vec::new();
        let ghost goal = all_tiers(self);
        let mut i: usize = 0;
        while i < self.models.len()
            invariant
                i <= self.models@.len(),
                goal == all_tiers(self),
                list@.len() == i,
                list_view(list@) =~= goal.take(i as int),
            decreases self.models.len() - i,
        {
            let ghost was = list@;
            let selector = self.models[i].as_str();
            let default = match &self.default_model {
                Some(m) => same(m.as_str(), selector),
                None => same(self.models[0].as_str(), selector),
            };
            let pricing = match self.pricing.get(selector) {
                Some(p) => Some(p.duplicate()),
                None => None,
            };
            let card = ModelTierCard { selector: owned(selector), default, pricing };
            let ghost v = card@;
            assert(v == goal[i as int]);
            list.push(card);
            assert(list_view(list@) =~= list_view(was).push(v));
            i = i + 1;
        }
        assert(goal.take(i as int) =~= goal);
        arrange(&list, &self.models)
    }

    /// The card of the agent: everything that it can call, in ascending order
    /// of names, and its tiers and limits.
    pub fn describe(&self) -> (r: AgentCard)
        ensures
            r.name@ == self.name@,
            r.version@ == self.version@,
            r.description@ == self.description@,
            list_view(r.tools@) == arranged(
                all_tools(self),
                order_of(tool_names_of(all_tools(self))),
            ),
            list_view(r.model_tiers@) == arranged(
                all_tiers(self),
                order_of(views(self.models@)),
            ),
            r.limits == self.limits,
    {
        let listed = self.listed_tools();
        let ghost all = all_tools(self);
        let mut names: Vec<String> = Vec::new();
        let mut i: usize = 0;
        while i < listed.len()
            invariant
                i <= listed@.len(),
                list_view(listed@) == all,
                names@.len() == i,
                forall|k: int| 0 <= k < i ==> (#[trigger] names@[k])@ == all[k].name,
            decreases listed.len() - i,
        {
            assert(all[i as int] == listed@[i as int]@);
            names.push(listed[i].name.clone());
            i = i + 1;
        }
        assert(views(names@) =~= tool_names_of(all));
        AgentCard {
            name: self.name.clone(),
            version: self.version.clone(),
            description: self.description.clone(),
            tools: arrange(&listed, &names),
            model_tiers: self.model_tiers(),
            limits: self.limits,
        }
    }
}

// ----- laws -----
/// A card lists each tool that the agent can call once, and nothing else: the
/// places of the card and the tools of the agent correspond one to one.
pub proof fn law_cards_list_every_tool_once(a: &Agent)
    ensures
        ({
            let all = all_tools(a);
            let order = order_of(tool_names_of(all));
            let card = arranged(all, order);
            &&& card.len() == all.len()
            &&& is_permutation(order, all.len())
            &&& forall|i: int| 0 <= i < card.len() ==> #[trigger] card[i] == all[order[i]]
        }),
{
    law_order(tool_names_of(all_tools(a)));
}

/// Without a grant there are the three scratch tools and no others.
pub proof fn law_nothing_granted_nothing_callable(a: &Agent, i: int)
    requires
        a.agent_tools@.len() == 0,
        a.capabilities@.len() == 0,
        0 <= i < all_tools(a).len(),
    ensures
        all_tools(a).len() == 3,
        all_tools(a)[i].privilege == ToolPrivilege::Scratchpad,
{
}

/// The card tells of every tool what it is called, what it does, what it takes and
/// whether it has to be allowed.
pub proof fn law_cards_tell_what_a_tool_may_do(a: &Agent, i: int)
    ensures
        ({
            let all = all_tools(a);
            let n = a.agent_tools@.len() as int;
            let m = a.capabilities@.len() as int;
            &&& all.len() == 3 + n + m
            &&& 0 <= i < 3 ==> all[i].privilege == ToolPrivilege::Scratchpad && all[i].scope.get_str(
                "root"@,
            ) == Some(a.scratch_root@) && !all[i].runs_in_background
            &&& 0 <= i < n ==> all[3 + i].privilege == ToolPrivilege::Agent
            &&& 0 <= i < m ==> {
                let c = a.capabilities@[i];
                let t = all[3 + n + i];
                &&& t.name == c.schema@.name && t.description == c.schema@.description && t.schema
                    == c.schema@
                &&& t.privilege == ToolPrivilege::Gated <==> c.requires_permission
                &&& t.privilege == ToolPrivilege::ReadOnly <==> !c.requires_permission
                &&& t.runs_in_background == c.runs_in_background
            }
        }),
{
    let fs = scratch_scope(a.scratch_root@)->Object_0;
    assert(fs[0].key == "root"@);
    crate::json::law_the_first_member_of_a_name_counts(fs, 0);
}

/// The card lists the tiers in their order, each with its own price; the default is
/// the tier named as such, and where none is named, the first.
pub proof fn law_cards_tell_the_default_tier(a: &Agent, i: int)
    requires
        0 <= i < a.models@.len(),
    ensures
        ({
            let t = all_tiers(a)[i];
            &&& all_tiers(a).len() == a.models@.len()
            &&& t.selector == a.models@[i]@
            &&& a.default_model matches Some(d) ==> (t.default <==> t.selector == d@)
            &&& a.default_model is None ==> (t.default <==> t.selector == a.models@[0]@)
            &&& t.pricing is Some <==> rows(a.pricing).dom().contains(t.selector)
            &&& t.pricing matches Some(p) ==> p == rows(a.pricing)[t.selector]
        }),
{
}

/// What a tool, a tier and a price on a card denote is what stands in their parts.
pub proof fn law_cards_denote_their_parts(c: ToolCard, t: ModelTierCard, p: TierPrice)
    ensures
        c@.name == c.name@ && c@.description == c.description@ && c@.schema == c.schema@
            && c@.scope == c.scope@,
        c@.privilege == c.privilege && c@.runs_in_background == c.runs_in_background,
        t@.selector == t.selector@ && t@.default == t.default,
        t.pricing matches Some(q) ==> t@.pricing == Some(q@),
        p@.input == p.input_usd_per_m_tokens@ && p@.output == p.output_usd_per_m_tokens@,
{
}

} // verus!
