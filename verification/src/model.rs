//! The catalog of upstream models: what is known of a model, how it is
//! classified, and how it is shown to clients.

use crate::text::{
    after_last, after_last_index, before_first, chars_of, contains, contains_text, ends_with,
    has_prefix, has_suffix, index_of, lowercase, lowercased, same, starts_with, string_of,
    without_suffix,
};
use vstd::prelude::*;

verus! {

/// The prices of a model, as a mathematical value.
pub struct PricingV {
    pub prompt: Option<Seq<char>>,
    pub completion: Option<Seq<char>>,
    pub request: Option<Seq<char>>,
    pub image: Option<Seq<char>>,
}

/// The prices of a model, as upstream states them.
#[derive(Debug, PartialEq, Eq)]
pub struct Pricing {
    pub prompt: Option<String>,
    pub completion: Option<String>,
    pub request: Option<String>,
    pub image: Option<String>,
}

/// The architecture of a model, as a mathematical value.
pub struct ArchitectureV {
    pub modality: Option<Seq<char>>,
    pub tokenizer: Option<Seq<char>>,
    pub instruct_type: Option<Seq<char>>,
}

/// The architecture of a model.
#[derive(Debug, PartialEq, Eq)]
pub struct Architecture {
    pub modality: Option<String>,
    pub tokenizer: Option<String>,
    pub instruct_type: Option<String>,
}

/// The limits of a model at its main provider.
#[derive(Clone, Copy, Debug, PartialEq, Eq)]
pub struct TopProvider {
    pub context_length: Option<u64>,
    pub max_completion_tokens: Option<u64>,
    pub is_moderated: Option<bool>,
}

/// A model of the upstream catalog, as a mathematical value.
pub struct ModelV {
    pub id: Seq<char>,
    pub name: Seq<char>,
    pub created: i64,
    pub description: Option<Seq<char>>,
    pub context_length: Option<u64>,
    pub pricing: Option<PricingV>,
    pub architecture: Option<ArchitectureV>,
    pub top_provider: Option<TopProvider>,
    pub supported_parameters: Option<Seq<Seq<char>>>,
}

/// A model of the upstream catalog.
#[derive(Debug, PartialEq, Eq)]
pub struct Model {
    pub id: String,
    pub name: String,
    pub created: i64,
    pub description: Option<String>,
    pub context_length: Option<u64>,
    pub pricing: Option<Pricing>,
    pub architecture: Option<Architecture>,
    pub top_provider: Option<TopProvider>,
    pub supported_parameters: Option<Vec<String>>,
}

/// What a model can do.
#[derive(Clone, Copy, PartialEq, Eq, Structural, Debug)]
pub struct Capabilities {
    pub tools: bool,
    pub tool_choice: bool,
    pub parallel_tool_calls: bool,
    pub json_mode: bool,
    pub streaming: bool,
    pub vision: bool,
}

/// The prices shown to clients, as a mathematical value.
pub struct OpenAIPricingV {
    pub prompt: Seq<char>,
    pub completion: Seq<char>,
}

/// The prices shown to clients.
#[derive(Debug, PartialEq, Eq)]
pub struct OpenAIPricing {
    pub prompt: String,
    pub completion: String,
}

/// A model as it is shown to clients, as a mathematical value.
pub struct OpenAIModelV {
    pub id: Seq<char>,
    pub object: Seq<char>,
    pub created: i64,
    pub owned_by: Seq<char>,
    pub context_length: Option<u64>,
    pub max_completion_tokens: Option<u64>,
    pub capabilities: Capabilities,
    pub pricing: Option<OpenAIPricingV>,
}

/// A model as it is shown to clients.
#[derive(Debug, PartialEq, Eq)]
pub struct OpenAIModel {
    pub id: String,
    pub object: String,
    pub created: i64,
    pub owned_by: String,
    pub context_length: Option<u64>,
    pub max_completion_tokens: Option<u64>,
    pub capabilities: Capabilities,
    pub pricing: Option<OpenAIPricing>,
}

/// A list of models as it is shown to clients, as a mathematical value.
pub struct OpenAIModelListV {
    pub object: Seq<char>,
    pub data: Seq<OpenAIModelV>,
}

/// A list of models as it is shown to clients.
#[derive(Debug, PartialEq, Eq)]
pub struct OpenAIModelList {
    pub object: String,
    pub data: Vec<OpenAIModel>,
}

/// The view of an optional text.
pub open spec fn opt_text(t: Option<String>) -> Option<Seq<char>> {
    match t {
        Some(s) => Some(s@),
        None => None,
    }
}

/// The views of a run of texts.
pub open spec fn texts(v: Seq<String>) -> Seq<Seq<char>> {
    Seq::new(v.len(), |i: int| v[i]@)
}

/// The views of a run of models.
pub open spec fn model_views(models: Seq<Model>) -> Seq<ModelV> {
    Seq::new(models.len(), |i: int| models[i]@)
}

/// The views of a run of shown models.
pub open spec fn shown_views(models: Seq<OpenAIModel>) -> Seq<OpenAIModelV> {
    Seq::new(models.len(), |i: int| models[i]@)
}

/// Whether a text holds one of the words that mark a stealth model, in any
/// case of letters.
pub open spec fn has_keyword(text: Seq<char>) -> bool {
    contains(lowercased(text), "cloaked"@) || contains(lowercased(text), "stealth"@)
}

/// Whether an identifier is that of a router, which stands for no model of
/// its own.
pub open spec fn router_id(id: Seq<char>) -> bool {
    ||| id == "openrouter/auto"@
    ||| id == "openrouter/free"@
    ||| id == "openrouter/bodybuilder"@
    ||| id == "switchpoint/router"@
}

impl ModelV {
    /// Whether the model is free of charge: its identifier ends with
    /// `:free`, or both its prompt and its completion cost `0`.
    pub open spec fn is_free(self) -> bool {
        has_suffix(self.id, ":free"@) || match self.pricing {
            Some(p) => p.prompt == Some("0"@) && p.completion == Some("0"@),
            None => false,
        }
    }

    /// Whether the model is a stealth model: its description or its name
    /// holds one of the marking words, or its identifier begins with
    /// `stealth/`.
    pub open spec fn is_stealth(self) -> bool {
        ||| match self.description {
            Some(d) => has_keyword(d),
            None => false,
        }
        ||| has_keyword(self.name)
        ||| has_prefix(self.id, "stealth/"@)
    }

    /// Whether the model is a router: by its identifier, or by a price of
    /// `-1`.
    pub open spec fn is_meta_router(self) -> bool {
        router_id(self.id) || match self.pricing {
            Some(p) => p.prompt == Some("-1"@) || p.completion == Some("-1"@),
            None => false,
        }
    }

    /// Whether the model supports the parameter `name`.
    pub open spec fn has_param(self, name: Seq<char>) -> bool {
        match self.supported_parameters {
            Some(params) => params.contains(name),
            None => false,
        }
    }

    /// Whether the model takes images.
    pub open spec fn supports_vision(self) -> bool {
        match self.architecture {
            Some(a) => match a.modality {
                Some(m) => contains(m, "image"@),
                None => false,
            },
            None => false,
        }
    }

    /// What the model can do.
    pub open spec fn capabilities(self) -> Capabilities {
        Capabilities {
            tools: self.has_param("tools"@),
            tool_choice: self.has_param("tool_choice"@),
            parallel_tool_calls: self.has_param("parallel_tool_calls"@),
            json_mode: self.has_param("response_format"@),
            streaming: self.has_param("stream"@),
            vision: self.supports_vision(),
        }
    }

    /// The identifier shown to clients: without the ending `:free`, and
    /// without the provider before the last `/`.
    pub open spec fn display_id(self) -> Seq<char> {
        after_last(without_suffix(self.id, ":free"@), '/')
    }

    /// Whether `id` names the model: as its full identifier or as the one
    /// shown to clients.
    pub open spec fn matches_display_id(self, id: Seq<char>) -> bool {
        self.id == id || self.display_id() == id
    }

    /// The provider of the model: what stands before the first `/` of its
    /// identifier.
    pub open spec fn provider(self) -> Seq<char> {
        before_first(self.id, '/')
    }

    /// The model as it is shown to clients.
    pub open spec fn to_openai(self) -> OpenAIModelV {
        OpenAIModelV {
            id: self.display_id(),
            object: "model"@,
            created: self.created,
            owned_by: self.provider(),
            context_length: self.context_length,
            max_completion_tokens: match self.top_provider {
                Some(t) => t.max_completion_tokens,
                None => None,
            },
            capabilities: self.capabilities(),
            pricing: match self.pricing {
                Some(p) => Some(
                    OpenAIPricingV {
                        prompt: match p.prompt {
                            Some(t) => t,
                            None => Seq::empty(),
                        },
                        completion: match p.completion {
                            Some(t) => t,
                            None => Seq::empty(),
                        },
                    },
                ),
                None => None,
            },
        }
    }

    /// Whether the model belongs to the free tier.
    pub open spec fn in_free_tier(self) -> bool {
        self.is_free() && !self.is_meta_router()
    }

    /// Whether the model belongs to the stealth tier.
    pub open spec fn in_stealth_tier(self) -> bool {
        self.is_stealth() && !self.is_meta_router()
    }
}

/// The models shown to clients for a run of models.
pub open spec fn shown(models: Seq<ModelV>) -> Seq<OpenAIModelV> {
    Seq::new(models.len(), |i: int| models[i].to_openai())
}

/// What one more element adds to a filtered sequence.
pub proof fn lemma_filter_push<A>(s: Seq<A>, x: A, pred: spec_fn(A) -> bool)
    ensures
        s.push(x).filter(pred) == (if pred(x) {
            s.filter(pred).push(x)
        } else {
            s.filter(pred)
        }),
{
    reveal(Seq::filter);
    assert(s.push(x).drop_last() =~= s);
}

/// A copy of an optional text.
pub fn clone_opt(t: &Option<String>) -> (r: Option<String>)
    ensures
        opt_text(r) == opt_text(*t),
{
    match t {
        Some(s) => Some(s.clone()),
        None => None,
    }
}

/// Whether an optional text is the text `want`.
pub fn opt_is(t: &Option<String>, want: &str) -> (r: bool)
    ensures
        r == (opt_text(*t) == Some(want@)),
{
    match t {
        Some(s) => same(s.as_str(), want),
        None => false,
    }
}

/// Whether a text holds one of the words that mark a stealth model.
pub fn text_has_keyword(text: &str) -> (r: bool)
    ensures
        r == has_keyword(text@),
{
    let lower = lowercase(text);
    let chars = chars_of(lower.as_str());
    contains_text(&chars, &chars_of("cloaked")) || contains_text(&chars, &chars_of("stealth"))
}

impl Pricing {
    /// The mathematical value.
    pub open spec fn view(&self) -> PricingV {
        PricingV {
            prompt: opt_text(self.prompt),
            completion: opt_text(self.completion),
            request: opt_text(self.request),
            image: opt_text(self.image),
        }
    }

    /// A copy of the prices.
    pub fn deep_clone(&self) -> (r: Pricing)
        ensures
            r@ == self@,
    {
        Pricing {
            prompt: clone_opt(&self.prompt),
            completion: clone_opt(&self.completion),
            request: clone_opt(&self.request),
            image: clone_opt(&self.image),
        }
    }
}

impl Architecture {
    /// The mathematical value.
    pub open spec fn view(&self) -> ArchitectureV {
        ArchitectureV {
            modality: opt_text(self.modality),
            tokenizer: opt_text(self.tokenizer),
            instruct_type: opt_text(self.instruct_type),
        }
    }

    /// A copy of the architecture.
    pub fn deep_clone(&self) -> (r: Architecture)
        ensures
            r@ == self@,
    {
        Architecture {
            modality: clone_opt(&self.modality),
            tokenizer: clone_opt(&self.tokenizer),
            instruct_type: clone_opt(&self.instruct_type),
        }
    }
}

impl OpenAIPricing {
    /// The mathematical value.
    pub open spec fn view(&self) -> OpenAIPricingV {
        OpenAIPricingV { prompt: self.prompt@, completion: self.completion@ }
    }
}

impl OpenAIModel {
    /// The mathematical value.
    pub open spec fn view(&self) -> OpenAIModelV {
        OpenAIModelV {
            id: self.id@,
            object: self.object@,
            created: self.created,
            owned_by: self.owned_by@,
            context_length: self.context_length,
            max_completion_tokens: self.max_completion_tokens,
            capabilities: self.capabilities,
            pricing: match self.pricing {
                Some(p) => Some(p@),
                None => None,
            },
        }
    }
}

impl Model {
    /// The mathematical value.
    pub open spec fn view(&self) -> ModelV {
        ModelV {
            id: self.id@,
            name: self.name@,
            created: self.created,
            description: opt_text(self.description),
            context_length: self.context_length,
            pricing: match self.pricing {
                Some(p) => Some(p@),
                None => None,
            },
            architecture: match self.architecture {
                Some(a) => Some(a@),
                None => None,
            },
            top_provider: self.top_provider,
            supported_parameters: match self.supported_parameters {
                Some(v) => Some(texts(v@)),
                None => None,
            },
        }
    }

    /// A copy of the model.
    pub fn deep_clone(&self) -> (r: Model)
        ensures
            r@ == self@,
    {
        let supported_parameters = match &self.supported_parameters {
            Some(v) => {
                let mut out: Vec<String> = Vec::new();
                let mut i: usize = 0;
                while i < v.len()
                    invariant
                        i <= v.len(),
                        out@.len() == i,
                        forall|k: int| 0 <= k < i ==> out@[k]@ == v@[k]@,
                    decreases v.len() - i,
                {
                    out.push(v[i].clone());
                    i += 1;
                }
                assert(texts(out@) =~= texts(v@));
                Some(out)
            },
            None => None,
        };
        Model {
            id: self.id.clone(),
            name: self.name.clone(),
            created: self.created,
            description: clone_opt(&self.description),
            context_length: self.context_length,
            pricing: match &self.pricing {
                Some(p) => Some(p.deep_clone()),
                None => None,
            },
            architecture: match &self.architecture {
                Some(a) => Some(a.deep_clone()),
                None => None,
            },
            top_provider: self.top_provider,
            supported_parameters,
        }
    }

    /// Sorts the usable models of a catalog into the free and the stealth
    /// tier, each in the order of the catalog. A router belongs to neither.
    pub fn classify(all: &[Model]) -> (r: (Vec<Model>, Vec<Model>))
        ensures
            model_views(r.0@) == model_views(all@).filter(|m: ModelV| m.in_free_tier()),
            model_views(r.1@) == model_views(all@).filter(|m: ModelV| m.in_stealth_tier()),
    {
        let ghost views = model_views(all@);
        let ghost free_pred = |m: ModelV| m.in_free_tier();
        let ghost stealth_pred = |m: ModelV| m.in_stealth_tier();
        let mut free: Vec<Model> = Vec::new();
        let mut stealth: Vec<Model> = Vec::new();
        let mut i: usize = 0;
        proof {
            reveal(Seq::filter);
            assert(views.take(0) =~= Seq::<ModelV>::empty());
            assert(model_views(free@) =~= views.take(0).filter(free_pred));
            assert(model_views(stealth@) =~= views.take(0).filter(stealth_pred));
        }
        while i < all.len()
            invariant
                i <= all.len(),
                views == model_views(all@),
                free_pred == (|m: ModelV| m.in_free_tier()),
                stealth_pred == (|m: ModelV| m.in_stealth_tier()),
                model_views(free@) == views.take(i as int).filter(free_pred),
                model_views(stealth@) == views.take(i as int).filter(stealth_pred),
            decreases all.len() - i,
        {
            let m = &all[i];
            let ghost f0 = model_views(free@);
            let ghost s0 = model_views(stealth@);
            let usable = !m.is_meta_router();
            if usable && m.is_free() {
                free.push(m.deep_clone());
                assert(model_views(free@) =~= f0.push(m@));
            }
            if usable && m.is_stealth() {
                stealth.push(m.deep_clone());
                assert(model_views(stealth@) =~= s0.push(m@));
            }
            proof {
                assert(views.take(i + 1) =~= views.take(i as int).push(m@));
                lemma_filter_push(views.take(i as int), m@, free_pred);
                lemma_filter_push(views.take(i as int), m@, stealth_pred);
            }
            i += 1;
        }
        assert(views.take(all.len() as int) =~= views);
        (free, stealth)
    }

    /// Whether the model is free of charge.
    pub fn is_free(&self) -> (r: bool)
        ensures
            r == self@.is_free(),
    {
        let id = chars_of(self.id.as_str());
        ends_with(&id, &chars_of(":free")) || match &self.pricing {
            Some(p) => opt_is(&p.prompt, "0") && opt_is(&p.completion, "0"),
            None => false,
        }
    }

    /// Whether the model is a stealth model.
    pub fn is_stealth(&self) -> (r: bool)
        ensures
            r == self@.is_stealth(),
    {
        let described = match &self.description {
            Some(d) => text_has_keyword(d.as_str()),
            None => false,
        };
        let id = chars_of(self.id.as_str());
        described || text_has_keyword(self.name.as_str()) || starts_with(
            &id,
            &chars_of("stealth/"),
        )
    }

    /// Whether the model is a router.
    pub fn is_meta_router(&self) -> (r: bool)
        ensures
            r == self@.is_meta_router(),
    {
        let id = self.id.as_str();
        same(id, "openrouter/auto") || same(id, "openrouter/free") || same(
            id,
            "openrouter/bodybuilder",
        ) || same(id, "switchpoint/router") || match &self.pricing {
            Some(p) => opt_is(&p.prompt, "-1") || opt_is(&p.completion, "-1"),
            None => false,
        }
    }

    /// Whether the model supports the parameter `name`.
    pub fn has_param(&self, name: &str) -> (r: bool)
        ensures
            r == self@.has_param(name@),
    {
        match &self.supported_parameters {
            Some(params) => {
                let ghost all = texts(params@);
                let mut i: usize = 0;
                while i < params.len()
                    invariant
                        i <= params.len(),
                        all == texts(params@),
                        self@.supported_parameters == Some(all),
                        forall|k: int| 0 <= k < i ==> all[k] != name@,
                    decreases params.len() - i,
                {
                    if same(params[i].as_str(), name) {
                        assert(all[i as int] == name@);
                        return true;
                    }
                    i += 1;
                }
                false
            },
            None => false,
        }
    }

    /// Whether the model takes images.
    pub fn supports_vision(&self) -> (r: bool)
        ensures
            r == self@.supports_vision(),
    {
        match &self.architecture {
            Some(a) => match &a.modality {
                Some(m) => contains_text(&chars_of(m.as_str()), &chars_of("image")),
                None => false,
            },
            None => false,
        }
    }

    /// What the model can do.
    pub fn capabilities(&self) -> (r: Capabilities)
        ensures
            r == self@.capabilities(),
    {
        Capabilities {
            tools: self.has_param("tools"),
            tool_choice: self.has_param("tool_choice"),
            parallel_tool_calls: self.has_param("parallel_tool_calls"),
            json_mode: self.has_param("response_format"),
            streaming: self.has_param("stream"),
            vision: self.supports_vision(),
        }
    }

    /// The identifier shown to clients.
    pub fn display_id(&self) -> (r: String)
        ensures
            r@ == self@.display_id(),
    {
        let id = chars_of(self.id.as_str());
        let suffix = chars_of(":free");
        let base = if ends_with(&id, &suffix) {
            crate::text::slice(&id, 0, id.len() - suffix.len())
        } else {
            id
        };
        let from = after_last_index(&base, '/');
        string_of(&base, from, base.len())
    }

    /// Whether `id` names the model.
    pub fn matches_display_id(&self, id: &str) -> (r: bool)
        ensures
            r == self@.matches_display_id(id@),
    {
        same(self.id.as_str(), id) || same(self.display_id().as_str(), id)
    }

    /// The model as it is shown to clients.
    pub fn to_openai(&self) -> (r: OpenAIModel)
        ensures
            r@ == self@.to_openai(),
    {
        OpenAIModel {
            id: self.display_id(),
            object: "model".to_owned(),
            created: self.created,
            owned_by: self.provider(),
            context_length: self.context_length,
            max_completion_tokens: match self.top_provider {
                Some(t) => t.max_completion_tokens,
                None => None,
            },
            capabilities: self.capabilities(),
            pricing: match &self.pricing {
                Some(p) => Some(
                    OpenAIPricing {
                        prompt: match &p.prompt {
                            Some(t) => t.clone(),
                            None => String::new(),
                        },
                        completion: match &p.completion {
                            Some(t) => t.clone(),
                            None => String::new(),
                        },
                    },
                ),
                None => None,
            },
        }
    }

    /// The provider of the model.
    pub fn provider(&self) -> (r: String)
        ensures
            r@ == self@.provider(),
    {
        let id = chars_of(self.id.as_str());
        let to = index_of(&id, '/', 0);
        string_of(&id, 0, to)
    }
}

impl OpenAIModelList {
    /// The mathematical value.
    pub open spec fn view(&self) -> OpenAIModelListV {
        OpenAIModelListV { object: self.object@, data: shown_views(self.data@) }
    }

    /// The list shown to clients for a run of models, in their order.
    pub fn from_models(models: &[Model]) -> (r: OpenAIModelList)
        ensures
            r@ == (OpenAIModelListV { object: "list"@, data: shown(model_views(models@)) }),
    {
        let mut data: Vec<OpenAIModel> = Vec::new();
        let mut i: usize = 0;
        while i < models.len()
            invariant
                i <= models.len(),
                data@.len() == i,
                forall|k: int| 0 <= k < i ==> data@[k]@ == models@[k]@.to_openai(),
            decreases models.len() - i,
        {
            data.push(models[i].to_openai());
            i += 1;
        }
        assert(shown_views(data@) =~= shown(model_views(models@)));
        OpenAIModelList { object: "list".to_owned(), data }
    }
}

} // verus!
