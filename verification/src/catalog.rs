//! The catalog of the models that the endpoint serves for chat.

use vstd::prelude::*;

use crate::text::str_eq;

verus! {

/// Where a model shows in the model picker.
#[derive(Debug, Clone, Copy, PartialEq, Eq)]
pub enum ModelVisibility {
    List,
    Hide,
    /// No visibility given.
    Unlisted,
}

/// What the picker and the agent know of a model. The metadata that the
/// catalog copies unchanged stands in the last fields.
#[derive(Debug, Clone, PartialEq, Eq)]
pub struct ModelInfo {
    pub slug: String,
    pub display_name: String,
    pub description: Option<String>,
    pub default_reasoning_level: Option<String>,
    pub supported_reasoning_levels: Vec<String>,
    pub visibility: ModelVisibility,
    pub supported_in_api: bool,
    pub priority: i32,
    pub availability_nux: Option<String>,
    pub upgrade: Option<String>,
    pub support_verbosity: bool,
    pub default_verbosity: Option<String>,
    pub additional_speed_tiers: Vec<String>,
    pub service_tiers: Vec<String>,
    pub default_service_tier: Option<String>,
    pub used_fallback_model_metadata: bool,
    pub context_window: Option<i64>,
    pub base_instructions: String,
}

/// A list of models.
#[derive(Debug, Clone, PartialEq, Eq)]
pub struct ModelsResponse {
    pub models: Vec<ModelInfo>,
}

/// The model whose metadata stands in for a model that has none of its own.
pub open spec fn fallback_metadata_model() -> Seq<char> {
    "gpt-5.4"@
}

/// The chat models that the endpoint serves, the preferred default first.
pub open spec fn tamu_ai_chat_models() -> Seq<Seq<char>> {
    seq![
        "gpt-5.4"@,
        "gpt-5.4-mini"@,
        "gpt-5.4-nano"@,
        "gpt-5.5"@,
        "gpt-5.2"@,
        "gpt-5.1"@,
        "gpt-5"@,
        "gpt-5-mini"@,
        "gpt-5-nano"@,
        "gemini-3.5-flash"@,
        "gemini-3.1-flash-lite"@,
        "gemini-2.5-pro"@,
        "gemini-2.5-flash"@,
        "gemini-2.5-flash-lite"@,
        "o3"@,
        "o3-mini"@,
        "o4-mini"@,
        "gpt-4o"@,
        "gpt-4.1"@,
        "gpt-4.1-mini"@,
        "gpt-4.1-nano"@,
        "llama3.2"@,
    ]
}

/// The first model of `models` with this slug.
pub open spec fn find_slug(models: Seq<ModelInfo>, slug: Seq<char>) -> Option<ModelInfo>
    decreases models.len(),
{
    if models.len() == 0 {
        None
    } else if models[0].slug@ == slug {
        Some(models[0])
    } else {
        find_slug(models.drop_first(), slug)
    }
}

/// The metadata that a listed model is described by: its own where the
/// bundled models have it, else that of the fallback model.
pub open spec fn metadata_for(bundled: Seq<ModelInfo>, model_id: Seq<char>) -> ModelInfo {
    match find_slug(bundled, model_id) {
        Some(m) => m,
        None => find_slug(bundled, fallback_metadata_model())->0,
    }
}

/// `model` describes `model_id` at this priority, from `metadata`: shown in
/// the picker and usable through the API, with no offers, tiers or upgrade,
/// and, where the metadata is not the model's own, with its name as display
/// name, a description that names the endpoint, and no reasoning or
/// verbosity settings. Everything else is the metadata's.
pub open spec fn describes(
    model: ModelInfo,
    metadata: ModelInfo,
    model_id: Seq<char>,
    priority: int,
    has_native_metadata: bool,
) -> bool {
    &&& model.slug@ == model_id
    &&& model.priority == priority
    &&& model.visibility == ModelVisibility::List
    &&& model.supported_in_api
    &&& model.availability_nux is None
    &&& model.upgrade is None
    &&& model.additional_speed_tiers@.len() == 0
    &&& model.service_tiers@.len() == 0
    &&& model.default_service_tier is None
    &&& !model.used_fallback_model_metadata
    &&& model.context_window == metadata.context_window
    &&& model.base_instructions == metadata.base_instructions
    &&& if has_native_metadata {
        &&& model.display_name == metadata.display_name
        &&& model.description == metadata.description
        &&& model.default_reasoning_level == metadata.default_reasoning_level
        &&& model.supported_reasoning_levels@ == metadata.supported_reasoning_levels@
        &&& model.support_verbosity == metadata.support_verbosity
        &&& model.default_verbosity == metadata.default_verbosity
    } else {
        &&& model.display_name@ == model_id
        &&& model.description matches Some(d) && d@ == model_id + " via TAMU AI Chat"@
        &&& model.default_reasoning_level is None
        &&& model.supported_reasoning_levels@.len() == 0
        &&& !model.support_verbosity
        &&& model.default_verbosity is None
    }
}

/// The catalog of `model_ids` from `bundled`: one entry per id, in order,
/// each described by the metadata that the id finds.
pub open spec fn is_catalog(bundled: Seq<ModelInfo>, model_ids: Seq<Seq<char>>, models: Seq<ModelInfo>) -> bool {
    &&& models.len() == model_ids.len()
    &&& forall|i: int|
        0 <= i < models.len() ==> describes(
            #[trigger] models[i],
            metadata_for(bundled, model_ids[i]),
            model_ids[i],
            i,
            find_slug(bundled, model_ids[i]) is Some,
        )
}

proof fn lemma_find_slug_first(models: Seq<ModelInfo>, slug: Seq<char>, i: int)
    requires
        0 <= i < models.len(),
        models[i].slug@ == slug,
        forall|j: int| 0 <= j < i ==> models[j].slug@ != slug,
    ensures
        find_slug(models, slug) == Some(models[i]),
    decreases i,
{
    if i > 0 {
        lemma_find_slug_first(models.drop_first(), slug, i - 1);
    }
}

proof fn lemma_find_slug_none(models: Seq<ModelInfo>, slug: Seq<char>)
    requires
        forall|j: int| 0 <= j < models.len() ==> models[j].slug@ != slug,
    ensures
        find_slug(models, slug) is None,
    decreases models.len(),
{
    if models.len() > 0 {
        lemma_find_slug_none(models.drop_first(), slug);
    }
}

/// The first model with this slug.
fn find_model<'a>(models: &'a Vec<ModelInfo>, slug: &str) -> (r: Option<&'a ModelInfo>)
    ensures
        find_slug(models@, slug@) == match r {
            Some(m) => Some(*m),
            None => None::<ModelInfo>,
        },
{
    let mut i: usize = 0;
    while i < models.len()
        invariant
            i <= models@.len(),
            forall|j: int| 0 <= j < i ==> models@[j].slug@ != slug@,
        decreases models@.len() - i,
    {
        if str_eq(models[i].slug.as_str(), slug) {
            proof {
                lemma_find_slug_first(models@, slug@, i as int);
            }
            return Some(&models[i]);
        }
        i = i + 1;
    }
    proof {
        lemma_find_slug_none(models@, slug@);
    }
    None
}

fn copy_text(s: &Option<String>) -> (r: Option<String>)
    ensures
        r == *s,
{
    match s {
        Some(t) => Some(t.clone()),
        None => None,
    }
}

fn copy_texts(v: &Vec<String>) -> (r: Vec<String>)
    ensures
        r@ == v@,
{
    let mut out: Vec<String> = Vec::new();
    let mut i: usize = 0;
    while i < v.len()
        invariant
            i <= v@.len(),
            out@ == v@.take(i as int),
        decreases v@.len() - i,
    {
        out.push(v[i].clone());
        assert(out@ =~= v@.take(i + 1));
        i = i + 1;
    }
    assert(v@.take(v@.len() as int) =~= v@);
    out
}

/// The catalog entry of `model_id` at this priority, described by `metadata`.
pub fn tamu_model(metadata: &ModelInfo, model_id: &str, priority: i32, has_native_metadata: bool) -> (r:
    ModelInfo)
    ensures
        describes(r, *metadata, model_id@, priority as int, has_native_metadata),
{
    let (display_name, description, default_reasoning_level, supported_reasoning_levels,
        support_verbosity, default_verbosity) = if has_native_metadata {
        (
            metadata.display_name.clone(),
            copy_text(&metadata.description),
            copy_text(&metadata.default_reasoning_level),
            copy_texts(&metadata.supported_reasoning_levels),
            metadata.support_verbosity,
            copy_text(&metadata.default_verbosity),
        )
    } else {
        let mut description = model_id.to_owned();
        description.append(" via TAMU AI Chat");
        (model_id.to_owned(), Some(description), None, Vec::new(), false, None)
    };
    ModelInfo {
        slug: model_id.to_owned(),
        display_name,
        description,
        default_reasoning_level,
        supported_reasoning_levels,
        visibility: ModelVisibility::List,
        supported_in_api: true,
        priority,
        availability_nux: None,
        upgrade: None,
        support_verbosity,
        default_verbosity,
        additional_speed_tiers: Vec::new(),
        service_tiers: Vec::new(),
        default_service_tier: None,
        used_fallback_model_metadata: false,
        context_window: metadata.context_window,
        base_instructions: metadata.base_instructions.clone(),
    }
}

/// The identifiers of the chat models, the preferred default first.
pub fn tamu_ai_chat_model_ids() -> (r: Vec<&'static str>)
    ensures
        r@.len() == tamu_ai_chat_models().len(),
        forall|i: int| 0 <= i < r@.len() ==> #[trigger] r@[i]@ == tamu_ai_chat_models()[i],
        r@.map_values(|id: &str| id@) == seq![
            "gpt-5.4"@,
            "gpt-5.4-mini"@,
            "gpt-5.4-nano"@,
            "gpt-5.5"@,
            "gpt-5.2"@,
            "gpt-5.1"@,
            "gpt-5"@,
            "gpt-5-mini"@,
            "gpt-5-nano"@,
            "gemini-3.5-flash"@,
            "gemini-3.1-flash-lite"@,
            "gemini-2.5-pro"@,
            "gemini-2.5-flash"@,
            "gemini-2.5-flash-lite"@,
            "o3"@,
            "o3-mini"@,
            "o4-mini"@,
            "gpt-4o"@,
            "gpt-4.1"@,
            "gpt-4.1-mini"@,
            "gpt-4.1-nano"@,
            "llama3.2"@,
        ],
{
    let r = vec![
        "gpt-5.4",
        "gpt-5.4-mini",
        "gpt-5.4-nano",
        "gpt-5.5",
        "gpt-5.2",
        "gpt-5.1",
        "gpt-5",
        "gpt-5-mini",
        "gpt-5-nano",
        "gemini-3.5-flash",
        "gemini-3.1-flash-lite",
        "gemini-2.5-pro",
        "gemini-2.5-flash",
        "gemini-2.5-flash-lite",
        "o3",
        "o3-mini",
        "o4-mini",
        "gpt-4o",
        "gpt-4.1",
        "gpt-4.1-mini",
        "gpt-4.1-nano",
        "llama3.2",
    ];
    assert(r@.map_values(|s: &str| s@) =~= tamu_ai_chat_models());
    r
}

/// The catalog of the given chat models: each in order, its priority its
/// place, described by its own bundled metadata where there is some, else by
/// that of the fallback model, which the bundled models must hold.
pub fn static_model_catalog(bundled: &ModelsResponse, model_ids: &Vec<&str>) -> (r: ModelsResponse)
    requires
        find_slug(bundled.models@, fallback_metadata_model()) is Some,
        model_ids@.len() <= i32::MAX,
    ensures
        is_catalog(bundled.models@, model_ids@.map_values(|id: &str| id@), r.models@),
{
    let fallback = match find_model(&bundled.models, "gpt-5.4") {
        Some(m) => m,
        None => {
            assert(false);
            return ModelsResponse { models: Vec::new() };
        },
    };
    let mut models: Vec<ModelInfo> = Vec::new();
    let mut i: usize = 0;
    while i < model_ids.len()
        invariant
            i <= model_ids@.len(),
            model_ids@.len() <= i32::MAX,
            find_slug(bundled.models@, fallback_metadata_model()) == Some(*fallback),
            models@.len() == i,
            forall|j: int|
                0 <= j < i ==> describes(
                    #[trigger] models@[j],
                    metadata_for(bundled.models@, model_ids@[j]@),
                    model_ids@[j]@,
                    j,
                    find_slug(bundled.models@, model_ids@[j]@) is Some,
                ),
        decreases model_ids@.len() - i,
    {
        let model_id = model_ids[i];
        let own = find_model(&bundled.models, model_id);
        let entry = match own {
            Some(m) => tamu_model(m, model_id, i as i32, true),
            None => tamu_model(fallback, model_id, i as i32, false),
        };
        models.push(entry);
        i = i + 1;
    }
    assert(is_catalog(bundled.models@, model_ids@.map_values(|id: &str| id@), models@));
    ModelsResponse { models }
}

} // verus!
