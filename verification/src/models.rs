//! The models that serve the four tiers, and how each tier finds its own.
use vstd::prelude::*;

use crate::definition::{
    tier_at, tier_names, AgentDefinition, Definition, ModelResolution, Provider, ProviderConfig,
    Resolution, Tier, TierConfig, TIER_COUNT,
};
use crate::environment::{set_var, Environment};
use crate::order::{before, Names};
use crate::paths::{join_path, path_join};
use crate::table::{copy_table, lists_domain, put, rows, Duplicate, Table};
use crate::text::{cat, cat3, cat5, owned, same, to_upper, trim, trimmed, uppered};

verus! {

/// The variable that names the file of the host's models.
pub const MODELS_FILE_ENV: &'static str = "HUGGR_MODELS_FILE";

/// The file in which a bundle keeps the models that it was built with.
pub const MODEL_SNAPSHOT_FILE: &'static str = ".huggr-models.snapshot.toml";

/// The models that a host starts with, as they are written to its file.
pub const DEFAULT_MODELS_TOML: &'static str = "[providers.hf]
base_url = \"https://router.huggingface.co/v1\"
api_key_env = \"HF_TOKEN\"

[models.fast]
provider = \"hf\"
model = \"deepseek-ai/DeepSeek-V4-Flash:fireworks-ai\"
input_usd_per_m_tokens = 0.14
output_usd_per_m_tokens = 0.28

[models.balanced]
provider = \"hf\"
model = \"google/gemma-4-31B-it:cerebras\"
input_usd_per_m_tokens = 1.0
output_usd_per_m_tokens = 1.5

[models.powerful]
provider = \"hf\"
model = \"zai-org/GLM-5.2:together\"
input_usd_per_m_tokens = 1.4
output_usd_per_m_tokens = 4.4
";

/// Providers, and the models that serve some of the tiers.
#[derive(Debug)]
pub struct ModelCatalog {
    pub providers: Table<ProviderConfig>,
    pub models: Table<TierConfig>,
}

/// What a [`ModelCatalog`] denotes.
pub struct Catalog {
    pub providers: Map<Seq<char>, Provider>,
    pub models: Map<Seq<char>, Tier>,
}

impl View for ModelCatalog {
    type V = Catalog;

    open spec fn view(&self) -> Catalog {
        Catalog { providers: rows(self.providers), models: rows(self.models) }
    }
}

/// Why a catalog cannot be had or used.
#[derive(Debug)]
pub enum ModelConfigError {
    /// The file could not be read; `not_found` where there is none.
    Read { path: String, source: String, not_found: bool },
    Write { path: String, source: String },
    Parse { path: String, message: String },
    Empty,
    UnknownProvider { tier: String, provider: String },
    EmptyModel { tier: String },
    UnknownTier(String),
    MissingSnapshot(String),
}

/// What a [`ModelConfigError`] denotes.
pub enum ModelRefusal {
    Read(Seq<char>, Seq<char>, bool),
    Write(Seq<char>, Seq<char>),
    Parse(Seq<char>, Seq<char>),
    Empty,
    UnknownProvider(Seq<char>, Seq<char>),
    EmptyModel(Seq<char>),
    UnknownTier(Seq<char>),
    MissingSnapshot(Seq<char>),
}

impl View for ModelConfigError {
    type V = ModelRefusal;

    open spec fn view(&self) -> ModelRefusal {
        match self {
            ModelConfigError::Read { path, source, not_found } => ModelRefusal::Read(
                path@,
                source@,
                *not_found,
            ),
            ModelConfigError::Write { path, source } => ModelRefusal::Write(path@, source@),
            ModelConfigError::Parse { path, message } => ModelRefusal::Parse(path@, message@),
            ModelConfigError::Empty => ModelRefusal::Empty,
            ModelConfigError::UnknownProvider { tier, provider } => ModelRefusal::UnknownProvider(
                tier@,
                provider@,
            ),
            ModelConfigError::EmptyModel { tier } => ModelRefusal::EmptyModel(tier@),
            ModelConfigError::UnknownTier(tier) => ModelRefusal::UnknownTier(tier@),
            ModelConfigError::MissingSnapshot(path) => ModelRefusal::MissingSnapshot(path@),
        }
    }
}

/// A refusal in words.
pub open spec fn refusal_text(e: ModelRefusal) -> Seq<char> {
    match e {
        ModelRefusal::Read(path, source, _) => "reading model configuration "@ + path + ": "@
            + source,
        ModelRefusal::Write(path, source) => "writing default model configuration "@ + path
            + ": "@ + source,
        ModelRefusal::Parse(path, message) => "invalid model configuration "@ + path + ": "@
            + message,
        ModelRefusal::Empty => "model configuration defines no fixed tier"@,
        ModelRefusal::UnknownProvider(tier, provider) => "model tier `"@ + tier
            + "` references unknown provider `"@ + provider + "`"@,
        ModelRefusal::EmptyModel(tier) => "model tier `"@ + tier + "` has an empty model id"@,
        ModelRefusal::UnknownTier(tier) => "unknown model tier `"@ + tier
            + "`; expected fast, balanced, powerful, or max"@,
        ModelRefusal::MissingSnapshot(path) => "built bundle has no resolved model snapshot at "@
            + path,
    }
}

impl ModelConfigError {
    /// The refusal in words.
    pub fn message(&self) -> (r: String)
        ensures
            r@ == refusal_text(self@),
    {
        match self {
            ModelConfigError::Read { path, source, not_found: _ } => {
                let mut s = cat3("reading model configuration ", path.as_str(), ": ");
                s.append(source.as_str());
                s
            },
            ModelConfigError::Write { path, source } => {
                let mut s = cat3("writing default model configuration ", path.as_str(), ": ");
                s.append(source.as_str());
                s
            },
            ModelConfigError::Parse { path, message } => {
                let mut s = cat3("invalid model configuration ", path.as_str(), ": ");
                s.append(message.as_str());
                s
            },
            ModelConfigError::Empty => owned("model configuration defines no fixed tier"),
            ModelConfigError::UnknownProvider { tier, provider } => cat5(
                "model tier `",
                tier.as_str(),
                "` references unknown provider `",
                provider.as_str(),
                "`",
            ),
            ModelConfigError::EmptyModel { tier } => cat3(
                "model tier `",
                tier.as_str(),
                "` has an empty model id",
            ),
            ModelConfigError::UnknownTier(tier) => cat3(
                "unknown model tier `",
                tier.as_str(),
                "`; expected fast, balanced, powerful, or max",
            ),
            ModelConfigError::MissingSnapshot(path) => cat(
                "built bundle has no resolved model snapshot at ",
                path.as_str(),
            ),
        }
    }
}

// ----- what a catalog must satisfy -----
/// What is wrong with one tier of a catalog, if anything is.
pub open spec fn tier_refusal(c: Catalog, tier: Seq<char>) -> Option<ModelRefusal> {
    if !tier_names().contains(tier) {
        Some(ModelRefusal::UnknownTier(tier))
    } else if trimmed(c.models[tier].model).len() == 0 {
        Some(ModelRefusal::EmptyModel(tier))
    } else if !c.providers.dom().contains(c.models[tier].provider) {
        Some(ModelRefusal::UnknownProvider(tier, c.models[tier].provider))
    } else {
        None
    }
}

/// A catalog serves some tier, and each tier that it serves is one of the four,
/// has a model, and has a provider that the catalog knows.
pub open spec fn valid(c: Catalog) -> bool {
    &&& exists|t: Seq<char>| c.models.dom().contains(t)
    &&& forall|t: Seq<char>| c.models.dom().contains(t) ==> tier_refusal(c, t) is None
}

/// `e` is what is wrong with the first tier, in ascending order, with which
/// something is.
pub open spec fn first_refusal(c: Catalog, e: ModelRefusal) -> bool {
    if forall|t: Seq<char>| !c.models.dom().contains(t) {
        e == ModelRefusal::Empty
    } else {
        exists|t: Seq<char>|
            {
                &&& #[trigger] c.models.dom().contains(t)
                &&& tier_refusal(c, t) == Some(e)
                &&& forall|u: Seq<char>| #[trigger]
                    c.models.dom().contains(u) && before(u, t) ==> tier_refusal(c, u) is None
            }
    }
}

/// The index of a tier among the four.
pub fn tier_index(tier: &str) -> (r: Option<usize>)
    ensures
        match r {
            Some(i) => i < TIER_COUNT && tier_names()[i as int] == tier@,
            None => !tier_names().contains(tier@),
        },
{
    let mut i: usize = 0;
    while i < TIER_COUNT && !same(tier_at(i), tier)
        invariant
            i <= TIER_COUNT,
            forall|k: int| 0 <= k < i ==> tier_names()[k] != tier@,
        decreases TIER_COUNT - i,
    {
        i = i + 1;
    }
    if i < TIER_COUNT {
        Some(i)
    } else {
        None
    }
}

impl ModelCatalog {
    /// Tells whether the catalog can be used, or what is wrong with it.
    pub fn validate(&self) -> (r: Result<(), ModelConfigError>)
        ensures
            match r {
                Ok(_) => valid(self@),
                Err(e) => !valid(self@) && first_refusal(self@, e@),
            },
    {
        let ghost c = self@;
        let n: usize = self.models.len();
        let ghost keys = self.models.key_seq();
        assert forall|t: Seq<char>| c.models.dom().contains(t) <==> keys.contains(t) by {
            assert(c.models.dom().contains(t) <==> self.models@.dom().contains(t));
        }
        if n == 0 {
            assert forall|t: Seq<char>| !c.models.dom().contains(t) by {
                if c.models.dom().contains(t) {
                    assert(keys.contains(t));
                }
            }
            return Err(ModelConfigError::Empty);
        }
        assert(keys.contains(keys[0]));
        let mut i: usize = 0;
        while i < n
            invariant
                i <= n,
                n == keys.len(),
                n > 0,
                c == self@,
                keys == self.models.key_seq(),
                crate::order::ascending(keys),
                c.models.dom().contains(keys[0]),
                forall|t: Seq<char>| c.models.dom().contains(t) <==> keys.contains(t),
                forall|k: int| 0 <= k < i ==> tier_refusal(c, #[trigger] keys[k]) is None,
            decreases n - i,
        {
            let ghost t = keys[i as int];
            let tier = self.models.key_at(i);
            let model = self.models.value_at(i);
            proof {
                assert(c.models[t] == model@);
                assert(keys.contains(t));
                assert forall|u: Seq<char>| #[trigger]
                    c.models.dom().contains(u) && before(u, t) implies tier_refusal(
                    c,
                    u,
                ) is None by {
                    assert(keys.contains(u));
                    let k = keys.index_of(u);
                    assert(keys[k] == u);
                    if k > i {
                        assert(before(keys[i as int], keys[k]));
                        crate::order::lemma_transitive(u, t, u);
                        crate::order::lemma_irreflexive(u);
                    } else if k == i {
                        crate::order::lemma_irreflexive(u);
                    }
                }
            }
            match tier_index(tier.as_str()) {
                None => {
                    return Err(ModelConfigError::UnknownTier(tier.clone()));
                },
                Some(_) => {},
            }
            if trim(model.model.as_str()).as_str().is_empty() {
                return Err(ModelConfigError::EmptyModel { tier: tier.clone() });
            }
            match self.providers.get(model.provider.as_str()) {
                None => {
                    return Err(
                        ModelConfigError::UnknownProvider {
                            tier: tier.clone(),
                            provider: model.provider.clone(),
                        },
                    );
                },
                Some(_) => {},
            }
            i = i + 1;
        }
        proof {
            assert forall|t: Seq<char>| c.models.dom().contains(t) implies tier_refusal(
                c,
                t,
            ) is None by {
                assert(keys.contains(t));
                let k = keys.index_of(t);
                assert(keys[k] == t);
            }
        }
        Ok(())
    }
}

impl Duplicate for ModelCatalog {
    fn duplicate(&self) -> (r: Self) {
        ModelCatalog { providers: copy_table(&self.providers), models: copy_table(&self.models) }
    }
}

// ----- the catalog that a host starts with -----
pub open spec fn hf_tier(model: Seq<char>, input: Seq<char>, output: Seq<char>) -> Tier {
    Tier { provider: "hf"@, model, input_price: Some(input), output_price: Some(output) }
}

pub open spec fn built_in_catalog() -> Catalog {
    Catalog {
        providers: Map::<Seq<char>, Provider>::empty().insert(
            "hf"@,
            Provider {
                base_url: "https://router.huggingface.co/v1"@,
                api_key_env: "HF_TOKEN"@,
            },
        ),
        models: Map::<Seq<char>, Tier>::empty().insert(
            "fast"@,
            hf_tier("deepseek-ai/DeepSeek-V4-Flash:fireworks-ai"@, "0.14"@, "0.28"@),
        ).insert("balanced"@, hf_tier("google/gemma-4-31B-it:cerebras"@, "1.0"@, "1.5"@)).insert(
            "powerful"@,
            hf_tier("zai-org/GLM-5.2:together"@, "1.4"@, "4.4"@),
        ),
    }
}

fn hf(model: &str, input: &str, output: &str) -> (r: TierConfig)
    ensures
        r@ == hf_tier(model@, input@, output@),
{
    TierConfig {
        provider: owned("hf"),
        model: owned(model),
        input_usd_per_m_tokens: Some(owned(input)),
        output_usd_per_m_tokens: Some(owned(output)),
    }
}

/// The catalog that a host starts with.
pub fn default_catalog() -> (r: ModelCatalog)
    ensures
        r@ == built_in_catalog(),
        valid(r@),
{
    let mut providers: Table<ProviderConfig> = Table::new();
    assert(rows(providers) =~= Map::<Seq<char>, Provider>::empty());
    put(
        &mut providers,
        "hf",
        ProviderConfig {
            base_url: owned("https://router.huggingface.co/v1"),
            api_key_env: owned("HF_TOKEN"),
        },
    );
    let mut models: Table<TierConfig> = Table::new();
    assert(rows(models) =~= Map::<Seq<char>, Tier>::empty());
    put(&mut models, "fast", hf("deepseek-ai/DeepSeek-V4-Flash:fireworks-ai", "0.14", "0.28"));
    put(&mut models, "balanced", hf("google/gemma-4-31B-it:cerebras", "1.0", "1.5"));
    put(&mut models, "powerful", hf("zai-org/GLM-5.2:together", "1.4", "4.4"));
    proof {
        lemma_built_in_is_valid();
    }
    ModelCatalog { providers, models }
}

proof fn lemma_solid(s: Seq<char>)
    requires
        s.len() > 0,
        !crate::text::is_space(s[0]),
    ensures
        trimmed(s).len() > 0,
{
    crate::text::lemma_skip_while(s, |c: char| crate::text::is_space(c), 0);
    let t = crate::text::trimmed_start(s);
    assert(t == s);
    if trimmed(s).len() == 0 {
        lemma_drop_keeps(s);
    }
}

proof fn lemma_drop_keeps(s: Seq<char>)
    requires
        s.len() > 0,
        !crate::text::is_space(s[0]),
    ensures
        crate::text::drop_while(s, |c: char| crate::text::is_space(c)).len() > 0,
    decreases s.len(),
{
    let p = |c: char| crate::text::is_space(c);
    if p(s.last()) {
        assert(s.len() > 1);
        lemma_drop_keeps(s.drop_last());
    }
}

proof fn lemma_built_in_is_valid()
    ensures
        valid(built_in_catalog()),
{
    let c = built_in_catalog();
    let names = tier_names();
    assert(names[0] == "fast"@ && names[1] == "balanced"@ && names[2] == "powerful"@);
    assert(names.contains(names[0]) && names.contains(names[1]) && names.contains(names[2]));
    assert(c.models.dom().contains("fast"@));
    reveal_strlit("deepseek-ai/DeepSeek-V4-Flash:fireworks-ai");
    reveal_strlit("google/gemma-4-31B-it:cerebras");
    reveal_strlit("zai-org/GLM-5.2:together");
    lemma_solid("deepseek-ai/DeepSeek-V4-Flash:fireworks-ai"@);
    lemma_solid("google/gemma-4-31B-it:cerebras"@);
    lemma_solid("zai-org/GLM-5.2:together"@);
}

// ----- the nearest tier -----
/// The model at tier `i` is offered.
pub open spec fn offers(models: Map<Seq<char>, Tier>, i: int) -> bool {
    0 <= i < tier_names().len() && models.dom().contains(tier_names()[i])
}

/// How far two tiers are apart.
pub open spec fn apart(i: int, j: int) -> int {
    if i <= j {
        j - i
    } else {
        i - j
    }
}

/// Of the offered tiers, `j` is the one nearest to `i`; of two that are equally
/// near, it is the lower one.
pub open spec fn is_nearest(models: Map<Seq<char>, Tier>, i: int, j: int) -> bool {
    &&& offers(models, j)
    &&& forall|k: int| #[trigger]
        offers(models, k) ==> apart(i, j) < apart(i, k) || (apart(i, j) == apart(i, k) && j <= k)
}

/// The tier nearest to `i` among those that are offered.
pub open spec fn nearest(models: Map<Seq<char>, Tier>, i: int) -> int {
    choose|j: int| is_nearest(models, i, j)
}

proof fn lemma_nearest(models: Map<Seq<char>, Tier>, i: int, j: int)
    requires
        is_nearest(models, i, j),
    ensures
        nearest(models, i) == j,
{
    let c = nearest(models, i);
    assert(is_nearest(models, i, c));
    assert(offers(models, c) && offers(models, j));
}

/// The model that serves a tier, and the tier that it is taken from: the
/// nearest one that the catalog offers, the lower of two that are equally near.
pub fn closest_model(catalog: &ModelCatalog, requested: &str) -> (r: Result<
    (TierConfig, String),
    ModelConfigError,
>)
    ensures
        match r {
            Ok((model, from)) => exists|i: int, j: int|
                {
                    &&& 0 <= i < tier_names().len()
                    &&& #[trigger] tier_names()[i] == requested@
                    &&& #[trigger] is_nearest(catalog@.models, i, j)
                    &&& from@ == tier_names()[j]
                    &&& model@ == catalog@.models[tier_names()[j]]
                },
            Err(e) => if tier_names().contains(requested@) {
                &&& e@ == ModelRefusal::Empty
                &&& forall|i: int| !offers(catalog@.models, i)
            } else {
                e@ == ModelRefusal::UnknownTier(requested@)
            },
        },
{
    match tier_index(requested) {
        None => Err(ModelConfigError::UnknownTier(owned(requested))),
        Some(i) => match closest_at(catalog, i) {
            Some((model, j)) => {
                assert(tier_names()[i as int] == requested@);
                assert(is_nearest(catalog@.models, i as int, j as int));
                Ok((model, owned(tier_at(j))))
            },
            None => Err(ModelConfigError::Empty),
        },
    }
}

fn closest_at(catalog: &ModelCatalog, i: usize) -> (r: Option<(TierConfig, usize)>)
    requires
        i < TIER_COUNT,
    ensures
        match r {
            Some((model, j)) => {
                &&& is_nearest(catalog@.models, i as int, j as int)
                &&& j < TIER_COUNT
                &&& model@ == catalog@.models[tier_names()[j as int]]
            },
            None => forall|k: int| !offers(catalog@.models, k),
        },
{
    let ghost models = catalog@.models;
    let mut distance: usize = 0;
    while distance < TIER_COUNT
        invariant
            distance <= TIER_COUNT,
            i < TIER_COUNT,
            models == catalog@.models,
            forall|k: int| #[trigger] offers(models, k) ==> apart(i as int, k) >= distance,
        decreases TIER_COUNT - distance,
    {
        if distance <= i {
            let j: usize = i - distance;
            if let Some(model) = catalog.models.get(tier_at(j)) {
                assert(offers(models, j as int));
                return Some((model.duplicate(), j));
            }
            assert(!offers(models, j as int));
        }
        let j: usize = i + distance;
        if distance > 0 && j < TIER_COUNT {
            if let Some(model) = catalog.models.get(tier_at(j)) {
                assert(offers(models, j as int));
                return Some((model.duplicate(), j));
            }
            assert(!offers(models, j as int));
        }
        assert forall|k: int| #[trigger] offers(models, k) implies apart(i as int, k) >= distance
            + 1 by {
            if apart(i as int, k) == distance {
                assert(k == i - distance || k == i + distance);
            }
        }
        distance = distance + 1;
    }
    assert forall|k: int| !offers(models, k) by {
        if offers(models, k) {
            assert(apart(i as int, k) < 4);
        }
    }
    None
}

/// Every tier finds a model in a catalog that can be used.
pub proof fn law_every_tier_is_served(c: Catalog, i: int)
    requires
        valid(c),
        0 <= i < tier_names().len(),
    ensures
        is_nearest(c.models, i, nearest(c.models, i)),
{
    let t = choose|t: Seq<char>| c.models.dom().contains(t);
    assert(c.models.dom().contains(t));
    assert(tier_refusal(c, t) is None);
    let k = tier_names().index_of(t);
    assert(tier_names()[k] == t);
    assert(offers(c.models, k));
    lemma_some_nearest(c.models, i, 0);
}

proof fn lemma_some_nearest(models: Map<Seq<char>, Tier>, i: int, d: int)
    requires
        0 <= i < 4,
        0 <= d <= 4,
        exists|k: int| offers(models, k),
        forall|k: int| #[trigger] offers(models, k) ==> apart(i, k) >= d,
    ensures
        is_nearest(models, i, nearest(models, i)),
    decreases 4 - d,
{
    if offers(models, i - d) {
        assert(is_nearest(models, i, i - d));
    } else if offers(models, i + d) {
        assert(is_nearest(models, i, i + d));
    } else {
        let k = choose|k: int| offers(models, k);
        assert(apart(i, k) < 4);
        assert(d < 4);
        assert forall|k: int| #[trigger] offers(models, k) implies apart(i, k) >= d + 1 by {
            if apart(i, k) == d {
                assert(k == i - d || k == i + d);
            }
        }
        lemma_some_nearest(models, i, d + 1);
    }
}

// ----- resolving the tiers of a definition -----
/// The variable that overrides the model of a tier.
pub open spec fn env_name(tier: Seq<char>) -> Seq<char> {
    "HUGGR_MODEL_"@ + uppered(tier)
}

/// The variable that overrides the model of a tier.
pub fn model_env_name(tier: &str) -> (r: String)
    ensures
        r@ == env_name(tier@),
{
    cat("HUGGR_MODEL_", to_upper(tier).as_str())
}

/// The model that the environment names for a tier.
pub open spec fn overridden(env: Map<Seq<char>, Seq<char>>, tier: Seq<char>) -> Option<Seq<char>> {
    if env.dom().contains(env_name(tier)) && trimmed(env[env_name(tier)]).len() > 0 {
        Some(env[env_name(tier)])
    } else {
        None
    }
}

/// The model of tier `i` and where it comes from: the declared one, or the one
/// that the environment names in place of the nearest in the catalog, or that
/// nearest one itself.
pub open spec fn picked(
    declared: Map<Seq<char>, Tier>,
    models: Map<Seq<char>, Tier>,
    env: Map<Seq<char>, Seq<char>>,
    label: Seq<char>,
    i: int,
) -> (Tier, Resolution) {
    let tier = tier_names()[i];
    let from = tier_names()[nearest(models, i)];
    if declared.dom().contains(tier) {
        (declared[tier], Resolution { source: "manifest"@, resolved_from: tier })
    } else {
        match overridden(env, tier) {
            Some(model) => (
                Tier { model, ..models[from] },
                Resolution { source: "environment"@, resolved_from: from },
            ),
            None => (models[from], Resolution { source: label, resolved_from: from }),
        }
    }
}

/// The models of the first `n` tiers.
pub open spec fn picked_tiers(
    declared: Map<Seq<char>, Tier>,
    models: Map<Seq<char>, Tier>,
    env: Map<Seq<char>, Seq<char>>,
    label: Seq<char>,
    n: int,
) -> Map<Seq<char>, Tier>
    decreases n,
{
    if n <= 0 {
        Map::empty()
    } else {
        picked_tiers(declared, models, env, label, n - 1).insert(
            tier_names()[n - 1],
            picked(declared, models, env, label, n - 1).0,
        )
    }
}

/// Where the models of the first `n` tiers come from.
pub open spec fn picked_sources(
    declared: Map<Seq<char>, Tier>,
    models: Map<Seq<char>, Tier>,
    env: Map<Seq<char>, Seq<char>>,
    label: Seq<char>,
    n: int,
) -> Map<Seq<char>, Resolution>
    decreases n,
{
    if n <= 0 {
        Map::empty()
    } else {
        picked_sources(declared, models, env, label, n - 1).insert(
            tier_names()[n - 1],
            picked(declared, models, env, label, n - 1).1,
        )
    }
}

/// Tier `i` has a provider among `providers`.
pub open spec fn provided(
    providers: Map<Seq<char>, Provider>,
    declared: Map<Seq<char>, Tier>,
    models: Map<Seq<char>, Tier>,
    env: Map<Seq<char>, Seq<char>>,
    i: int,
) -> bool {
    providers.dom().contains(picked(declared, models, env, Seq::empty(), i).0.provider)
}

/// A definition with all four tiers settled.
pub open spec fn settled(
    def: Definition,
    providers: Map<Seq<char>, Provider>,
    declared: Map<Seq<char>, Tier>,
    models: Map<Seq<char>, Tier>,
    env: Map<Seq<char>, Seq<char>>,
    label: Seq<char>,
) -> Definition {
    Definition {
        providers,
        tiers: picked_tiers(declared, models, env, label, 4),
        sources: picked_sources(declared, models, env, label, 4),
        ..def
    }
}

/// What comes of settling a definition: the settled definition; or what is
/// wrong with the catalog; or the first tier whose provider is not known.
pub open spec fn settles(
    r: Result<AgentDefinition, ModelConfigError>,
    def: Definition,
    providers: Map<Seq<char>, Provider>,
    declared: Map<Seq<char>, Tier>,
    c: Catalog,
    env: Map<Seq<char>, Seq<char>>,
    label: Seq<char>,
) -> bool {
    match r {
        Ok(d) => {
            &&& valid(c)
            &&& forall|i: int| 0 <= i < 4 ==> provided(providers, declared, c.models, env, i)
            &&& d@ == settled(def, providers, declared, c.models, env, label)
        },
        Err(e) => if valid(c) {
            exists|i: int|
                {
                    &&& 0 <= i < 4
                    &&& !#[trigger] provided(providers, declared, c.models, env, i)
                    &&& forall|k: int|
                        0 <= k < i ==> provided(providers, declared, c.models, env, k)
                    &&& e@ == ModelRefusal::UnknownProvider(
                        tier_names()[i],
                        picked(declared, c.models, env, label, i).0.provider,
                    )
                }
        } else {
            first_refusal(c, e@)
        },
    }
}

/// Refuses a model whose provider is not known.
pub fn validate_provider(providers: &Table<ProviderConfig>, tier: &str, model: &TierConfig) -> (r:
    Result<(), ModelConfigError>)
    ensures
        match r {
            Ok(_) => rows(*providers).dom().contains(model@.provider),
            Err(e) => {
                &&& !rows(*providers).dom().contains(model@.provider)
                &&& e@ == ModelRefusal::UnknownProvider(tier@, model@.provider)
            },
        },
{
    match providers.get(model.provider.as_str()) {
        Some(_) => Ok(()),
        None => Err(
            ModelConfigError::UnknownProvider {
                tier: owned(tier),
                provider: model.provider.clone(),
            },
        ),
    }
}

fn pick(
    declared: &Table<TierConfig>,
    catalog: &ModelCatalog,
    env: &Environment,
    label: &str,
    i: usize,
) -> (r: (TierConfig, ModelResolution))
    requires
        i < TIER_COUNT,
        valid(catalog@),
    ensures
        (r.0@, r.1@) == picked(rows(*declared), catalog@.models, env@, label@, i as int),
{
    let tier = tier_at(i);
    if let Some(model) = declared.get(tier) {
        return (
            model.duplicate(),
            ModelResolution { source: owned("manifest"), resolved_from: owned(tier) },
        );
    }
    proof {
        law_every_tier_is_served(catalog@, i as int);
    }
    match closest_at(catalog, i) {
        Some((mut model, j)) => {
            proof {
                lemma_nearest(catalog@.models, i as int, j as int);
            }
            let from = owned(tier_at(j));
            match env.get(model_env_name(tier).as_str()) {
                Some(id) => {
                    if !trim(id.as_str()).as_str().is_empty() {
                        model.model = id.clone();
                        return (
                            model,
                            ModelResolution { source: owned("environment"), resolved_from: from },
                        );
                    }
                },
                None => {},
            }
            (model, ModelResolution { source: owned(label), resolved_from: from })
        },
        None => {
            assert(false);
            (
                hf("", "", ""),
                ModelResolution { source: owned(label), resolved_from: owned(tier) },
            )
        },
    }
}

fn settle(
    def: &AgentDefinition,
    providers: Table<ProviderConfig>,
    declared: &Table<TierConfig>,
    catalog: &ModelCatalog,
    env: &Environment,
    label: &str,
) -> (r: Result<AgentDefinition, ModelConfigError>)
    requires
        valid(catalog@),
    ensures
        settles(r, def@, rows(providers), rows(*declared), catalog@, env@, label@),
{
    let ghost ps = rows(providers);
    let ghost ds = rows(*declared);
    let ghost ms = catalog@.models;
    let mut tiers: Table<TierConfig> = Table::new();
    let mut sources: Table<ModelResolution> = Table::new();
    assert(rows(tiers) =~= picked_tiers(ds, ms, env@, label@, 0));
    assert(rows(sources) =~= picked_sources(ds, ms, env@, label@, 0));
    let mut i: usize = 0;
    while i < TIER_COUNT
        invariant
            i <= TIER_COUNT,
            valid(catalog@),
            ps == rows(providers),
            ds == rows(*declared),
            ms == catalog@.models,
            rows(tiers) == picked_tiers(ds, ms, env@, label@, i as int),
            rows(sources) == picked_sources(ds, ms, env@, label@, i as int),
            forall|k: int| 0 <= k < i ==> provided(ps, ds, ms, env@, k),
        decreases TIER_COUNT - i,
    {
        let tier = tier_at(i);
        let (model, source) = pick(declared, catalog, env, label, i);
        assert(provided(ps, ds, ms, env@, i as int) <==> ps.dom().contains(model@.provider));
        match validate_provider(&providers, tier, &model) {
            Ok(_) => {},
            Err(e) => {
                return Err(e);
            },
        }
        put(&mut tiers, tier, model);
        put(&mut sources, tier, source);
        i = i + 1;
    }
    let mut resolved = def.duplicate();
    resolved.providers = providers;
    resolved.models.tiers = tiers;
    resolved.model_sources = sources;
    Ok(resolved)
}

/// One table on top of another.
fn overlay(base: &Table<ProviderConfig>, top: &Table<ProviderConfig>) -> (r: Table<ProviderConfig>)
    ensures
        rows(r) == rows(*base).union_prefer_right(rows(*top)),
{
    let mut r = copy_table(base);
    let n: usize = top.len();
    let ghost keys = top.key_seq();
    let ghost b = rows(*base);
    let ghost t = rows(*top);
    let ghost none = Map::<Seq<char>, Provider>::empty();
    let mut i: usize = 0;
    assert(b.union_prefer_right(none) =~= b);
    while i < n
        invariant
            i <= n,
            n == keys.len(),
            keys == top.key_seq(),
            t == rows(*top),
            lists_domain(keys, top@),
            forall|k: Seq<char>| #[trigger]
                rows(r).dom().contains(k) <==> b.dom().contains(k) || keys.take(
                    i as int,
                ).contains(k),
            forall|k: Seq<char>| #[trigger]
                rows(r).dom().contains(k) ==> rows(r)[k] == if keys.take(i as int).contains(k) {
                    t[k]
                } else {
                    b[k]
                },
        decreases n - i,
    {
        let ghost was = rows(r);
        let ghost key = keys[i as int];
        put(&mut r, top.key_at(i).as_str(), top.value_at(i).duplicate());
        proof {
            let now = keys.take(i + 1);
            let then = keys.take(i as int);
            assert(now =~= then.push(key));
            assert forall|k: Seq<char>| now.contains(k) <==> then.contains(k) || k == key by {
                if then.contains(k) {
                    let j = then.index_of(k);
                    assert(now[j] == k);
                }
                assert(now[i as int] == key);
                if now.contains(k) && k != key {
                    let j = now.index_of(k);
                    assert(then[j] == k);
                }
            }
        }
        i = i + 1;
    }
    assert(keys.take(i as int) =~= keys);
    assert forall|k: Seq<char>| t.dom().contains(k) <==> keys.contains(k) by {
        assert(t.dom().contains(k) <==> top@.dom().contains(k));
    }
    assert(rows(r) =~= b.union_prefer_right(t));
    r
}

/// Settles the tiers of a definition on a host that has its source: what the
/// definition declares comes first, then the environment, then the catalog.
/// The providers of the definition stand beside those of the catalog, and in
/// place of those of the same name.
pub fn resolve_source_definition_with_env(
    def: &AgentDefinition,
    catalog: &ModelCatalog,
    env: &Environment,
) -> (r: Result<AgentDefinition, ModelConfigError>)
    ensures
        settles(
            r,
            def@,
            catalog@.providers.union_prefer_right(def@.providers),
            def@.tiers,
            catalog@,
            env@,
            "global"@,
        ),
{
    match catalog.validate() {
        Ok(_) => {},
        Err(e) => {
            return Err(e);
        },
    }
    let providers = overlay(&catalog.providers, &def.providers);
    settle(def, providers, &def.models.tiers, catalog, env, "global")
}

/// As [`resolve_source_definition_with_env`].
pub fn resolve_source_definition(
    def: &AgentDefinition,
    catalog: &ModelCatalog,
    env: &Environment,
) -> (r: Result<AgentDefinition, ModelConfigError>)
    ensures
        settles(
            r,
            def@,
            catalog@.providers.union_prefer_right(def@.providers),
            def@.tiers,
            catalog@,
            env@,
            "global"@,
        ),
{
    resolve_source_definition_with_env(def, catalog, env)
}

/// Settles the tiers of a definition from a catalog and the environment alone,
/// whatever the definition declares.
pub fn resolve_catalog_definition_with_env(
    def: &AgentDefinition,
    catalog: &ModelCatalog,
    label: &str,
    env: &Environment,
) -> (r: Result<AgentDefinition, ModelConfigError>)
    ensures
        settles(r, def@, catalog@.providers, Map::empty(), catalog@, env@, label@),
{
    match catalog.validate() {
        Ok(_) => {},
        Err(e) => {
            return Err(e);
        },
    }
    let none: Table<TierConfig> = Table::new();
    assert(rows(none) =~= Map::<Seq<char>, Tier>::empty());
    settle(def, copy_table(&catalog.providers), &none, catalog, env, label)
}

/// The catalog that decides on a host, and what it is called: the one given for
/// this run, else the host's, else the one to fall back on.
pub open spec fn deciding(
    explicit: Option<Catalog>,
    global: Option<Catalog>,
    fallback: Catalog,
    fallback_label: Seq<char>,
) -> (Catalog, Seq<char>) {
    match explicit {
        Some(c) => (c, "runtime"@),
        None => match global {
            Some(c) => (c, "global"@),
            None => (fallback, fallback_label),
        },
    }
}

pub open spec fn opt_catalog(c: Option<&ModelCatalog>) -> Option<Catalog> {
    match c {
        Some(c) => Some(c@),
        None => None,
    }
}

/// Settles the tiers of a definition from the catalog that decides on a host.
pub fn resolve_runtime_definition(
    def: &AgentDefinition,
    explicit: Option<&ModelCatalog>,
    global: Option<&ModelCatalog>,
    env: &Environment,
) -> (r: Result<AgentDefinition, ModelConfigError>)
    ensures
        ({
            let (c, label) = deciding(
                opt_catalog(explicit),
                opt_catalog(global),
                built_in_catalog(),
                "built_in"@,
            );
            settles(r, def@, c.providers, Map::empty(), c, env@, label)
        }),
{
    match explicit {
        Some(c) => resolve_catalog_definition_with_env(def, c, "runtime", env),
        None => match global {
            Some(c) => resolve_catalog_definition_with_env(def, c, "global", env),
            None => resolve_catalog_definition_with_env(def, &default_catalog(), "built_in", env),
        },
    }
}

/// Where a bundle keeps the models that it was built with.
pub open spec fn snapshot_path_of(def: Definition) -> Seq<char> {
    path_join(
        match def.source_dir {
            Some(d) => d,
            None => "."@,
        },
        MODEL_SNAPSHOT_FILE@,
    )
}

/// Where a bundle keeps the models that it was built with.
pub fn snapshot_path(def: &AgentDefinition) -> (r: String)
    ensures
        r@ == snapshot_path_of(def@),
{
    match &def.source_dir {
        Some(d) => join_path(d.as_str(), MODEL_SNAPSHOT_FILE),
        None => join_path(".", MODEL_SNAPSHOT_FILE),
    }
}

/// Settles the tiers of a bundled definition. `snapshot` is what came of
/// loading the catalog at [`snapshot_path`]: a bundle without one is refused,
/// and so is one whose snapshot cannot be read or used, even where another
/// catalog decides.
pub fn resolve_bundled_definition_with_host(
    def: &AgentDefinition,
    snapshot: Result<ModelCatalog, ModelConfigError>,
    explicit: Option<&ModelCatalog>,
    global: Option<&ModelCatalog>,
    env: &Environment,
) -> (r: Result<AgentDefinition, ModelConfigError>)
    ensures
        match snapshot {
            Ok(s) => {
                let (c, label) = deciding(
                    opt_catalog(explicit),
                    opt_catalog(global),
                    s@,
                    "bundled"@,
                );
                settles(r, def@, c.providers, Map::empty(), c, env@, label)
            },
            Err(e) => match r {
                Ok(_) => false,
                Err(why) => why@ == if absent(e@) {
                    ModelRefusal::MissingSnapshot(snapshot_path_of(def@))
                } else {
                    e@
                },
            },
        },
{
    let snapshot = match snapshot {
        Ok(s) => s,
        Err(e) => {
            if e.is_absence() {
                return Err(ModelConfigError::MissingSnapshot(snapshot_path(def)));
            }
            return Err(e);
        },
    };
    match explicit {
        Some(c) => resolve_catalog_definition_with_env(def, c, "runtime", env),
        None => match global {
            Some(c) => resolve_catalog_definition_with_env(def, c, "global", env),
            None => resolve_catalog_definition_with_env(def, &snapshot, "bundled", env),
        },
    }
}

// ----- the host's own catalog -----
/// There was no file to read.
pub open spec fn absent(e: ModelRefusal) -> bool {
    match e {
        ModelRefusal::Read(_, _, not_found) => not_found,
        _ => false,
    }
}

impl ModelConfigError {
    /// There was no file to read.
    pub fn is_absence(&self) -> (r: bool)
        ensures
            r == absent(self@),
    {
        match self {
            ModelConfigError::Read { path: _, source: _, not_found } => *not_found,
            _ => false,
        }
    }
}

/// The path of the host's catalog.
pub open spec fn models_path(env: Map<Seq<char>, Seq<char>>, temp_dir: Seq<char>) -> Seq<char> {
    match set_var(env, MODELS_FILE_ENV@) {
        Some(path) => path,
        None => match set_var(env, "HUGGR_HOME"@) {
            Some(base) => path_join(base, "models.toml"@),
            None => match set_var(env, "HOME"@) {
                Some(home) => path_join(path_join(home, ".huggr"@), "models.toml"@),
                None => path_join(path_join(temp_dir, ".huggr"@), "models.toml"@),
            },
        },
    }
}

/// The path of the host's catalog: what the environment names, else a file
/// under the first of `HUGGR_HOME`, `HOME` and the temporary directory.
pub fn models_file_path(env: &Environment, temp_dir: &str) -> (r: String)
    ensures
        r@ == models_path(env@, temp_dir@),
{
    if let Some(path) = env.get_set(MODELS_FILE_ENV) {
        return path.clone();
    }
    if let Some(base) = env.get_set("HUGGR_HOME") {
        return join_path(base.as_str(), "models.toml");
    }
    if let Some(home) = env.get_set("HOME") {
        return join_path(join_path(home.as_str(), ".huggr").as_str(), "models.toml");
    }
    join_path(join_path(temp_dir, ".huggr").as_str(), "models.toml")
}

/// What loading the host's catalog gives: a file that is not there is no error.
pub fn load_global_catalog_if_exists(loaded: Result<ModelCatalog, ModelConfigError>) -> (r: Result<
    Option<ModelCatalog>,
    ModelConfigError,
>)
    ensures
        match loaded {
            Ok(c) => r == Ok::<Option<ModelCatalog>, ModelConfigError>(Some(c)),
            Err(e) => if absent(e@) {
                r == Ok::<Option<ModelCatalog>, ModelConfigError>(None)
            } else {
                r == Err::<Option<ModelCatalog>, ModelConfigError>(e)
            },
        },
{
    match loaded {
        Ok(c) => Ok(Some(c)),
        Err(e) => if e.is_absence() {
            Ok(None)
        } else {
            Err(e)
        },
    }
}

/// What a host has to do to have a catalog.
#[derive(Debug)]
pub enum CatalogStep {
    /// Nothing: here it is.
    Have(ModelCatalog),
    /// Create the file with this text unless it is there by now, and load it.
    CreateAndLoad(String),
    Fail(ModelConfigError),
}

/// What the host has to do after it has tried to load its catalog.
pub fn load_or_create_global_catalog(loaded: Result<ModelCatalog, ModelConfigError>) -> (r:
    CatalogStep)
    ensures
        match loaded {
            Ok(c) => r == CatalogStep::Have(c),
            Err(e) => if absent(e@) {
                r matches CatalogStep::CreateAndLoad(text) && text@ == DEFAULT_MODELS_TOML@
            } else {
                r == CatalogStep::Fail(e)
            },
        },
{
    match loaded {
        Ok(c) => CatalogStep::Have(c),
        Err(e) => if e.is_absence() {
            CatalogStep::CreateAndLoad(owned(DEFAULT_MODELS_TOML))
        } else {
            CatalogStep::Fail(e)
        },
    }
}

// ----- the catalog of a settled definition -----
/// The providers that serve some tier.
pub open spec fn used_providers(tiers: Map<Seq<char>, Tier>) -> Set<Seq<char>> {
    Set::new(
        |p: Seq<char>| exists|t: Seq<char>| #[trigger] tiers.dom().contains(t) && tiers[t].provider
            == p,
    )
}

pub open spec fn catalog_of(def: Definition) -> Catalog {
    Catalog {
        providers: def.providers.restrict(used_providers(def.tiers)),
        models: def.tiers,
    }
}

/// The catalog that a settled definition amounts to: its tiers, and of its
/// providers those that serve one of them.
pub fn catalog_from_resolved(def: &AgentDefinition) -> (r: ModelCatalog)
    ensures
        r@ == catalog_of(def@),
{
    let ghost used = used_providers(def@.tiers);
    let mut names = Names::new();
    let n: usize = def.models.tiers.len();
    let ghost keys = def.models.tiers.key_seq();
    let mut i: usize = 0;
    while i < n
        invariant
            i <= n,
            n == keys.len(),
            keys == def.models.tiers.key_seq(),
            lists_domain(keys, def.models.tiers@),
            forall|p: Seq<char>| #[trigger]
                names.seq().contains(p) <==> exists|k: int|
                    0 <= k < i && def@.tiers[#[trigger] keys[k]].provider == p,
        decreases n - i,
    {
        let ghost was = names.seq();
        let model = def.models.tiers.value_at(i);
        names.insert(model.provider.as_str());
        proof {
            assert(def@.tiers[keys[i as int]] == model@);
            assert forall|p: Seq<char>| #[trigger] names.seq().contains(p) <==> exists|k: int|
                0 <= k < i + 1 && def@.tiers[#[trigger] keys[k]].provider == p by {
                if was.contains(p) {
                    let k = choose|k: int|
                        0 <= k < i && def@.tiers[#[trigger] keys[k]].provider == p;
                    assert(def@.tiers[keys[k]].provider == p);
                }
                if exists|k: int| 0 <= k < i + 1 && def@.tiers[#[trigger] keys[k]].provider == p {
                    let k = choose|k: int|
                        0 <= k < i + 1 && def@.tiers[#[trigger] keys[k]].provider == p;
                    if k < i {
                        assert(was.contains(p));
                    }
                }
            }
        }
        i = i + 1;
    }
    proof {
        assert forall|p: Seq<char>| used.contains(p) <==> #[trigger] names.seq().contains(p) by {
            if used.contains(p) {
                let t = choose|t: Seq<char>| #[trigger]
                    def@.tiers.dom().contains(t) && def@.tiers[t].provider == p;
                assert(def.models.tiers@.dom().contains(t));
                assert(keys.contains(t));
                let k = keys.index_of(t);
                assert(keys[k] == t);
            }
            if names.seq().contains(p) {
                let k = choose|k: int|
                    0 <= k < n && def@.tiers[#[trigger] keys[k]].provider == p;
                assert(keys.contains(keys[k]));
                assert(def@.tiers.dom().contains(keys[k]));
            }
        }
    }
    let mut providers: Table<ProviderConfig> = Table::new();
    let m: usize = def.providers.len();
    let ghost pkeys = def.providers.key_seq();
    let mut j: usize = 0;
    while j < m
        invariant
            j <= m,
            m == pkeys.len(),
            pkeys == def.providers.key_seq(),
            lists_domain(pkeys, def.providers@),
            forall|p: Seq<char>| used.contains(p) <==> #[trigger] names.seq().contains(p),
            forall|p: Seq<char>| #[trigger]
                rows(providers).dom().contains(p) <==> used.contains(p) && pkeys.take(
                    j as int,
                ).contains(p),
            forall|p: Seq<char>| #[trigger]
                rows(providers).dom().contains(p) ==> rows(providers)[p] == def@.providers[p],
        decreases m - j,
    {
        let ghost was = rows(providers);
        let ghost key = pkeys[j as int];
        let name = def.providers.key_at(j);
        proof {
            let now = pkeys.take(j + 1);
            let then = pkeys.take(j as int);
            assert(now =~= then.push(key));
            assert forall|k: Seq<char>| now.contains(k) <==> then.contains(k) || k == key by {
                if then.contains(k) {
                    let x = then.index_of(k);
                    assert(now[x] == k);
                }
                assert(now[j as int] == key);
                if now.contains(k) && k != key {
                    let x = now.index_of(k);
                    assert(then[x] == k);
                }
            }
            assert(used.contains(key) <==> names.seq().contains(key));
        }
        if names.has(name.as_str()) {
            put(&mut providers, name.as_str(), def.providers.value_at(j).duplicate());
        }
        j = j + 1;
    }
    let r = ModelCatalog { providers, models: copy_table(&def.models.tiers) };
    proof {
        assert(pkeys.take(j as int) =~= pkeys);
        assert forall|k: Seq<char>| def@.providers.dom().contains(k) <==> pkeys.contains(k) by {
            assert(def@.providers.dom().contains(k) <==> def.providers@.dom().contains(k));
        }
        assert(r@.providers =~= catalog_of(def@).providers);
    }
    r
}

// ----- laws -----
proof fn lemma_tiers_differ()
    ensures
        forall|i: int, j: int|
            0 <= i < 4 && 0 <= j < 4 && #[trigger] tier_names()[i] == #[trigger] tier_names()[j]
                ==> i == j,
{
    reveal_strlit("fast");
    reveal_strlit("balanced");
    reveal_strlit("powerful");
    reveal_strlit("max");
    let n = tier_names();
    assert(n[0] == "fast"@ && n[1] == "balanced"@ && n[2] == "powerful"@ && n[3] == "max"@);
    assert(n[0].len() == 4 && n[1].len() == 8 && n[2].len() == 8 && n[3].len() == 3);
    assert(n[1][0] == 'b' && n[2][0] == 'p');
}

proof fn lemma_picked_at(
    declared: Map<Seq<char>, Tier>,
    models: Map<Seq<char>, Tier>,
    env: Map<Seq<char>, Seq<char>>,
    label: Seq<char>,
    n: int,
    i: int,
)
    requires
        0 <= i < 4,
        0 <= n <= 4,
    ensures
        picked_tiers(declared, models, env, label, n).dom().contains(tier_names()[i]) <==> i < n,
        picked_sources(declared, models, env, label, n).dom().contains(tier_names()[i]) <==> i
            < n,
        i < n ==> picked_tiers(declared, models, env, label, n)[tier_names()[i]] == picked(
            declared,
            models,
            env,
            label,
            i,
        ).0,
        i < n ==> picked_sources(declared, models, env, label, n)[tier_names()[i]] == picked(
            declared,
            models,
            env,
            label,
            i,
        ).1,
    decreases n,
{
    lemma_tiers_differ();
    if n > 0 {
        lemma_picked_at(declared, models, env, label, n - 1, i);
    }
}

proof fn lemma_picked_dom(
    declared: Map<Seq<char>, Tier>,
    models: Map<Seq<char>, Tier>,
    env: Map<Seq<char>, Seq<char>>,
    label: Seq<char>,
    n: int,
    t: Seq<char>,
)
    requires
        0 <= n <= 4,
        picked_tiers(declared, models, env, label, n).dom().contains(t) || picked_sources(
            declared,
            models,
            env,
            label,
            n,
        ).dom().contains(t),
    ensures
        tier_names().contains(t),
    decreases n,
{
    if n > 0 && t != tier_names()[n - 1] {
        lemma_picked_dom(declared, models, env, label, n - 1, t);
    } else if n > 0 {
        assert(tier_names().contains(tier_names()[n - 1]));
    }
}

/// A settled definition has a model for each of the four tiers and for nothing
/// else, and each tier says where its model comes from.
pub proof fn law_all_tiers_are_settled(
    def: Definition,
    providers: Map<Seq<char>, Provider>,
    declared: Map<Seq<char>, Tier>,
    models: Map<Seq<char>, Tier>,
    env: Map<Seq<char>, Seq<char>>,
    label: Seq<char>,
)
    ensures
        ({
            let d = settled(def, providers, declared, models, env, label);
            &&& forall|t: Seq<char>| d.tiers.dom().contains(t) <==> tier_names().contains(t)
            &&& forall|t: Seq<char>| d.sources.dom().contains(t) <==> tier_names().contains(t)
            &&& forall|i: int|
                0 <= i < 4 ==> {
                    &&& d.tiers[#[trigger] tier_names()[i]] == picked(
                        declared,
                        models,
                        env,
                        label,
                        i,
                    ).0
                    &&& d.sources.dom().contains(tier_names()[i])
                    &&& d.sources[tier_names()[i]] == picked(declared, models, env, label, i).1
                }
        }),
{
    let d = settled(def, providers, declared, models, env, label);
    assert forall|i: int| 0 <= i < 4 implies {
        &&& d.tiers[#[trigger] tier_names()[i]] == picked(declared, models, env, label, i).0
        &&& d.sources.dom().contains(tier_names()[i])
        &&& d.sources[tier_names()[i]] == picked(declared, models, env, label, i).1
    } by {
        lemma_picked_at(declared, models, env, label, 4, i);
    }
    assert forall|t: Seq<char>|
        (d.tiers.dom().contains(t) <==> tier_names().contains(t)) && (d.sources.dom().contains(t)
            <==> tier_names().contains(t)) by {
        if tier_names().contains(t) {
            let i = tier_names().index_of(t);
            assert(tier_names()[i] == t);
            lemma_picked_at(declared, models, env, label, 4, i);
        }
        if d.tiers.dom().contains(t) || d.sources.dom().contains(t) {
            lemma_picked_dom(declared, models, env, label, 4, t);
        }
    }
}

/// What a definition declares for a tier stands, whatever the environment and
/// the catalog say; where it declares nothing, the environment stands, whatever
/// the catalog calls the model; only then does the catalog decide.
pub proof fn law_declared_then_environment_then_catalog(
    declared: Map<Seq<char>, Tier>,
    models: Map<Seq<char>, Tier>,
    env: Map<Seq<char>, Seq<char>>,
    label: Seq<char>,
    i: int,
)
    requires
        0 <= i < 4,
    ensures
        ({
            let tier = tier_names()[i];
            let (model, source) = picked(declared, models, env, label, i);
            &&& declared.dom().contains(tier) ==> model == declared[tier] && source.source
                == "manifest"@
            &&& !declared.dom().contains(tier) && overridden(env, tier) is Some ==> model.model
                == overridden(env, tier)->0 && source.source == "environment"@
            &&& !declared.dom().contains(tier) && overridden(env, tier) is None ==> model
                == models[tier_names()[nearest(models, i)]] && source.source == label
        }),
{
}

/// A tier that the catalog offers is served by its own model.
pub proof fn law_offered_tiers_serve_themselves(models: Map<Seq<char>, Tier>, i: int)
    requires
        offers(models, i),
    ensures
        nearest(models, i) == i,
{
    assert(is_nearest(models, i, i));
    lemma_nearest(models, i, i);
}

/// The catalog of a settled definition whose models all have names can be used,
/// and settling any definition from it, with nothing set in the environment,
/// gives the same four models again.
pub proof fn law_snapshots_settle_to_the_same_models(
    def: Definition,
    providers: Map<Seq<char>, Provider>,
    declared: Map<Seq<char>, Tier>,
    models: Map<Seq<char>, Tier>,
    env: Map<Seq<char>, Seq<char>>,
    label: Seq<char>,
    other: Definition,
    other_label: Seq<char>,
)
    requires
        forall|i: int| 0 <= i < 4 ==> provided(providers, declared, models, env, i),
        forall|i: int|
            0 <= i < 4 ==> trimmed((#[trigger] picked(declared, models, env, label, i)).0.model).len()
                > 0,
    ensures
        ({
            let d = settled(def, providers, declared, models, env, label);
            let c = catalog_of(d);
            &&& valid(c)
            &&& settled(other, c.providers, Map::empty(), c.models, Map::empty(), other_label).tiers
                == d.tiers
        }),
{
    let d = settled(def, providers, declared, models, env, label);
    let c = catalog_of(d);
    law_all_tiers_are_settled(def, providers, declared, models, env, label);
    let none = Map::<Seq<char>, Tier>::empty();
    let unset = Map::<Seq<char>, Seq<char>>::empty();
    let again = settled(other, c.providers, none, c.models, unset, other_label);
    law_all_tiers_are_settled(other, c.providers, none, c.models, unset, other_label);
    assert(tier_names().contains(tier_names()[0]));
    assert(c.models.dom().contains(tier_names()[0]));
    assert forall|t: Seq<char>| c.models.dom().contains(t) implies tier_refusal(c, t) is None by {
        assert(tier_names().contains(t));
        let i = tier_names().index_of(t);
        assert(tier_names()[i] == t);
        assert(provided(providers, declared, models, env, i));
        assert(c.models[t] == picked(declared, models, env, label, i).0);
        assert(d.tiers.dom().contains(t));
        assert(used_providers(d.tiers).contains(d.tiers[t].provider));
    }
    assert forall|t: Seq<char>| again.tiers.dom().contains(t) implies again.tiers[t]
        == d.tiers[t] by {
        assert(tier_names().contains(t));
        let i = tier_names().index_of(t);
        assert(tier_names()[i] == t);
        assert(d.tiers.dom().contains(t));
        law_offered_tiers_serve_themselves(c.models, i);
        assert(again.tiers[tier_names()[i]] == picked(none, c.models, unset, other_label, i).0);
    }
    assert forall|t: Seq<char>| again.tiers.dom().contains(t) <==> d.tiers.dom().contains(t) by {
        assert(again.tiers.dom().contains(t) <==> tier_names().contains(t));
    }
    assert(again.tiers =~= d.tiers);
}

/// A blank variable counts as one that is not set.
pub proof fn law_blank_variables_name_no_model(
    env: Map<Seq<char>, Seq<char>>,
    tier: Seq<char>,
    blank: Seq<char>,
)
    requires
        trimmed(blank).len() == 0,
    ensures
        overridden(env.insert(env_name(tier), blank), tier) == overridden(
            env.remove(env_name(tier)),
            tier,
        ),
        overridden(env.remove(env_name(tier)), tier) is None,
{
}

/// What settling the source of a definition leaves and adds: the tiers and their
/// sources are exactly the four, the providers are those of the catalog with
/// those of the definition in place of the ones of the same name, every tier has
/// its provider among them, and nothing else changes.
pub proof fn law_settling_changes_the_models_alone(
    def: Definition,
    c: Catalog,
    env: Map<Seq<char>, Seq<char>>,
)
    requires
        forall|i: int|
            0 <= i < 4 ==> provided(
                c.providers.union_prefer_right(def.providers),
                def.tiers,
                c.models,
                env,
                i,
            ),
    ensures
        ({
            let providers = c.providers.union_prefer_right(def.providers);
            let d = settled(def, providers, def.tiers, c.models, env, "global"@);
            &&& d.tiers.dom() == tier_names().to_set()
            &&& d.sources.dom() == tier_names().to_set()
            &&& d.providers == providers
            &&& forall|t: Seq<char>| #[trigger]
                d.tiers.dom().contains(t) ==> d.providers.dom().contains(d.tiers[t].provider)
            &&& d == (Definition {
                tiers: d.tiers,
                sources: d.sources,
                providers: d.providers,
                ..def
            })
        }),
{
    let providers = c.providers.union_prefer_right(def.providers);
    let d = settled(def, providers, def.tiers, c.models, env, "global"@);
    law_all_tiers_are_settled(def, providers, def.tiers, c.models, env, "global"@);
    assert(d.tiers.dom() =~= tier_names().to_set());
    assert(d.sources.dom() =~= tier_names().to_set());
    assert forall|t: Seq<char>| #[trigger]
        d.tiers.dom().contains(t) implies d.providers.dom().contains(d.tiers[t].provider) by {
        assert(tier_names().contains(t));
        let i = tier_names().index_of(t);
        assert(tier_names()[i] == t);
        assert(provided(providers, def.tiers, c.models, env, i));
    }
}

/// Settling a settled definition again, from the same catalog and in whatever
/// environment, succeeds and changes neither its models nor its providers.
pub proof fn law_settling_again_changes_nothing(
    def: Definition,
    c: Catalog,
    env: Map<Seq<char>, Seq<char>>,
    later: Map<Seq<char>, Seq<char>>,
)
    requires
        forall|i: int|
            0 <= i < 4 ==> provided(
                c.providers.union_prefer_right(def.providers),
                def.tiers,
                c.models,
                env,
                i,
            ),
    ensures
        ({
            let d = settled(
                def,
                c.providers.union_prefer_right(def.providers),
                def.tiers,
                c.models,
                env,
                "global"@,
            );
            let providers = c.providers.union_prefer_right(d.providers);
            let again = settled(d, providers, d.tiers, c.models, later, "global"@);
            &&& again.tiers == d.tiers
            &&& again.providers == d.providers
            &&& forall|i: int| 0 <= i < 4 ==> provided(providers, d.tiers, c.models, later, i)
        }),
{
    let d = settled(
        def,
        c.providers.union_prefer_right(def.providers),
        def.tiers,
        c.models,
        env,
        "global"@,
    );
    let providers = c.providers.union_prefer_right(d.providers);
    let again = settled(d, providers, d.tiers, c.models, later, "global"@);
    law_settling_changes_the_models_alone(def, c, env);
    law_all_tiers_are_settled(
        def,
        c.providers.union_prefer_right(def.providers),
        def.tiers,
        c.models,
        env,
        "global"@,
    );
    law_all_tiers_are_settled(d, providers, d.tiers, c.models, later, "global"@);
    assert(providers =~= d.providers);
    assert forall|i: int| 0 <= i < 4 implies provided(providers, d.tiers, c.models, later, i) by {
        let t = tier_names()[i];
        assert(tier_names().contains(t));
        assert(d.tiers.dom().contains(t));
    }
    assert forall|t: Seq<char>| d.tiers.dom().contains(t) implies again.tiers[t]
        == d.tiers[t] by {
        assert(tier_names().contains(t));
        let i = tier_names().index_of(t);
        assert(tier_names()[i] == t);
        assert(again.tiers[tier_names()[i]] == picked(
            d.tiers,
            c.models,
            later,
            "global"@,
            i,
        ).0);
    }
    assert(again.tiers.dom() =~= d.tiers.dom());
    assert(again.tiers =~= d.tiers);
}

/// The catalog of a definition in which every tier has a model and a known
/// provider holds just what it needs: it can be used, its models are those of
/// the definition, each of its providers is the definition's and serves some
/// model, and without any one of them it could not be used.
pub proof fn law_snapshots_hold_no_spare_provider(d: Definition)
    requires
        d.tiers.dom() == tier_names().to_set(),
        forall|t: Seq<char>| #[trigger]
            d.tiers.dom().contains(t) ==> trimmed(d.tiers[t].model).len() > 0
                && d.providers.dom().contains(d.tiers[t].provider),
    ensures
        ({
            let c = catalog_of(d);
            &&& valid(c)
            &&& c.models == d.tiers
            &&& forall|p: Seq<char>| #[trigger]
                c.providers.dom().contains(p) ==> {
                    &&& c.providers[p] == d.providers[p]
                    &&& exists|t: Seq<char>| #[trigger]
                        c.models.dom().contains(t) && c.models[t].provider == p
                    &&& !valid(Catalog { providers: c.providers.remove(p), models: c.models })
                }
        }),
{
    let c = catalog_of(d);
    assert(tier_names().to_set().contains(tier_names()[0])) by {
        assert(tier_names().contains(tier_names()[0]));
    }
    assert(c.models.dom().contains(tier_names()[0]));
    assert forall|t: Seq<char>| c.models.dom().contains(t) implies tier_refusal(c, t) is None by {
        assert(tier_names().to_set().contains(t));
        assert(d.tiers.dom().contains(t));
        assert(used_providers(d.tiers).contains(d.tiers[t].provider));
    }
    assert forall|p: Seq<char>| #[trigger] c.providers.dom().contains(p) implies {
        &&& c.providers[p] == d.providers[p]
        &&& exists|t: Seq<char>| #[trigger]
            c.models.dom().contains(t) && c.models[t].provider == p
        &&& !valid(Catalog { providers: c.providers.remove(p), models: c.models })
    } by {
        assert(used_providers(d.tiers).contains(p));
        let t = choose|t: Seq<char>| #[trigger]
            d.tiers.dom().contains(t) && d.tiers[t].provider == p;
        let less = Catalog { providers: c.providers.remove(p), models: c.models };
        assert(less.models.dom().contains(t));
        assert(tier_refusal(less, t) is Some);
    }
}

/// A tier that is not offered is served by the one offered nearest to it, and of two
/// that are equally near by the weaker one.
pub proof fn law_the_nearest_tier_serves(models: Map<Seq<char>, Tier>, i: int, k: int)
    requires
        0 <= i < tier_names().len(),
        offers(models, k),
    ensures
        ({
            let j = nearest(models, i);
            &&& offers(models, j)
            &&& -(if k < i {
                i - k
            } else {
                k - i
            }) <= j - i <= (if k < i {
                i - k
            } else {
                k - i
            })
            &&& j - i == i - k ==> j <= k
        }),
{
    lemma_some_nearest(models, i, 0);
    let j = nearest(models, i);
    assert(is_nearest(models, i, j));
    assert(offers(models, k));
}

/// The catalog given for a run decides before that of the host, and that before the
/// one built in.
pub proof fn law_the_nearest_catalog_decides(
    explicit: Catalog,
    global: Option<Catalog>,
    fallback: Catalog,
    label: Seq<char>,
)
    ensures
        deciding(Some(explicit), global, fallback, label) == (explicit, "runtime"@),
        global matches Some(g) ==> deciding(None, global, fallback, label) == (g, "global"@),
        deciding(None, None, fallback, label) == (fallback, label),
{
}

/// The file of the host's models is the one named outright, else the one in the
/// directory named for everything, else the one in the home directory.
pub proof fn law_the_models_file_is_where_the_host_says(
    env: Map<Seq<char>, Seq<char>>,
    temp_dir: Seq<char>,
    dir: Seq<char>,
)
    requires
        dir.len() > 0,
    ensures
        ({
            let none = env.remove(MODELS_FILE_ENV@);
            let neither = none.remove("HUGGR_HOME"@);
            let nothing = neither.remove("HOME"@);
            &&& models_path(env.insert(MODELS_FILE_ENV@, dir), temp_dir) == dir
            &&& models_path(none.insert("HUGGR_HOME"@, dir), temp_dir) == path_join(
                dir,
                "models.toml"@,
            )
            &&& models_path(neither.insert("HOME"@, dir), temp_dir) == path_join(
                path_join(dir, ".huggr"@),
                "models.toml"@,
            )
            &&& models_path(nothing, temp_dir) == path_join(
                path_join(temp_dir, ".huggr"@),
                "models.toml"@,
            )
        }),
{
    reveal_strlit("HUGGR_MODELS_FILE");
    reveal_strlit("HUGGR_HOME");
    reveal_strlit("HOME");
    assert("HUGGR_MODELS_FILE"@.len() == 17);
    assert("HUGGR_HOME"@.len() == 10);
    assert("HOME"@.len() == 4);
}

/// A snapshot has the tiers of the definition and those of its providers that they
/// use.
pub proof fn law_snapshots_hold_what_is_used(def: Definition, tier: Seq<char>)
    requires
        def.tiers.dom().contains(tier),
        def.providers.dom().contains(def.tiers[tier].provider),
    ensures
        ({
            let c = catalog_of(def);
            let p = def.tiers[tier].provider;
            &&& c.models[tier] == def.tiers[tier]
            &&& c.providers.dom().contains(p)
            &&& c.providers[p] == def.providers[p]
        }),
        forall|q: Seq<char>| #[trigger]
            catalog_of(def).providers.dom().contains(q) ==> exists|t: Seq<char>| #[trigger]
                def.tiers.dom().contains(t) && def.tiers[t].provider == q,
{
    assert(used_providers(def.tiers).contains(def.tiers[tier].provider));
}

} // verus!
