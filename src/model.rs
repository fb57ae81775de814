//! The catalog's record types and their mathematical views.
use vstd::prelude::*;
use vstd::string::StringExecFns;

verus! {

/// Modalities a model accepts as input.
#[derive(Debug, Clone, Copy, PartialEq, Eq, Structural)]
pub enum InputModality {
    Text,
    File,
    Image,
    Audio,
    Video,
}

/// Modalities a model produces as output.
#[derive(Debug, Clone, Copy, PartialEq, Eq, Structural)]
pub enum OutputModality {
    Text,
    Image,
}

/// Numeric precision of a model's weights.
#[derive(Debug, Clone, Copy, PartialEq, Eq, Structural)]
pub enum Quantization {
    Int4,
    Int8,
    Fp4,
    Fp6,
    Fp8,
    Fp16,
    Bf16,
    Fp32,
}

/// Generation-time controls a model honours.
#[derive(Debug, Clone, Copy, PartialEq, Eq, Structural)]
pub enum SamplingParameter {
    Temperature,
    TopP,
    TopK,
    RepetitionPenalty,
    FrequencyPenalty,
    PresencePenalty,
    Stop,
    Seed,
}

/// Capabilities a model supports.
#[derive(Debug, Clone, Copy, PartialEq, Eq, Structural)]
pub enum Feature {
    Tools,
    JsonMode,
    StructuredOutputs,
    WebSearch,
    Reasoning,
}

/// Routing information for a model.
#[derive(Debug, Clone, PartialEq)]
pub struct OpenRouterInfo {
    /// Conventionally "<org>/<name>".
    pub slug: String,
}

/// USD pricing, kept as decimal strings so that no rounding ever happens.
#[derive(Debug, Clone, PartialEq)]
pub struct Pricing {
    pub prompt: String,
    pub completion: String,
    pub image: Option<String>,
    pub request: Option<String>,
    pub input_cache_read: Option<String>,
    pub input_cache_write: Option<String>,
}

/// A location where a model is served.
#[derive(Debug, Clone, PartialEq)]
pub struct Datacenter {
    /// ISO 3166-1 alpha-2 code (e.g. "US", "DE"); not validated.
    pub country_code: String,
}

/// One entry of the catalog.
#[derive(Debug, Clone, PartialEq)]
pub struct Model {
    /// Conventionally "<org>/<name>".
    pub id: String,
    pub name: String,
    /// Unix timestamp, in seconds.
    pub created: i64,
    pub input_modalities: Vec<InputModality>,
    pub output_modalities: Vec<OutputModality>,
    pub quantization: Quantization,
    /// Max input tokens.
    pub context_length: u64,
    /// Max output tokens.
    pub max_output_length: u64,
    pub pricing: Pricing,
    pub supported_sampling_parameters: Vec<SamplingParameter>,
    pub supported_features: Vec<Feature>,
    pub openrouter: Option<OpenRouterInfo>,
    /// Required for Hugging Face models.
    pub hugging_face_id: Option<String>,
    pub description: Option<String>,
    pub datacenters: Option<Vec<Datacenter>>,
}

/// Response of the list-models endpoint.
#[derive(Debug, Clone, PartialEq)]
pub struct ListModelsResponse {
    pub data: Vec<Model>,
}

/// The value of a `Pricing`, with its strings as character sequences.
pub struct PricingView {
    pub prompt: Seq<char>,
    pub completion: Seq<char>,
    pub image: Option<Seq<char>>,
    pub request: Option<Seq<char>>,
    pub input_cache_read: Option<Seq<char>>,
    pub input_cache_write: Option<Seq<char>>,
}

/// The value of a `Model`. A routing record is its slug, a datacenter its
/// country code.
pub struct ModelView {
    pub id: Seq<char>,
    pub name: Seq<char>,
    pub created: i64,
    pub input_modalities: Seq<InputModality>,
    pub output_modalities: Seq<OutputModality>,
    pub quantization: Quantization,
    pub context_length: u64,
    pub max_output_length: u64,
    pub pricing: PricingView,
    pub supported_sampling_parameters: Seq<SamplingParameter>,
    pub supported_features: Seq<Feature>,
    pub openrouter: Option<Seq<char>>,
    pub hugging_face_id: Option<Seq<char>>,
    pub description: Option<Seq<char>>,
    pub datacenters: Option<Seq<Seq<char>>>,
}

pub open spec fn opt_view(o: Option<String>) -> Option<Seq<char>> {
    match o {
        Some(s) => Some(s@),
        None => None,
    }
}

pub open spec fn datacenters_view(v: Seq<Datacenter>) -> Seq<Seq<char>> {
    v.map_values(|d: Datacenter| d.country_code@)
}

impl View for Pricing {
    type V = PricingView;

    open spec fn view(&self) -> PricingView {
        PricingView {
            prompt: self.prompt@,
            completion: self.completion@,
            image: opt_view(self.image),
            request: opt_view(self.request),
            input_cache_read: opt_view(self.input_cache_read),
            input_cache_write: opt_view(self.input_cache_write),
        }
    }
}

impl View for Model {
    type V = ModelView;

    open spec fn view(&self) -> ModelView {
        ModelView {
            id: self.id@,
            name: self.name@,
            created: self.created,
            input_modalities: self.input_modalities@,
            output_modalities: self.output_modalities@,
            quantization: self.quantization,
            context_length: self.context_length,
            max_output_length: self.max_output_length,
            pricing: self.pricing@,
            supported_sampling_parameters: self.supported_sampling_parameters@,
            supported_features: self.supported_features@,
            openrouter: match self.openrouter {
                Some(o) => Some(o.slug@),
                None => None,
            },
            hugging_face_id: opt_view(self.hugging_face_id),
            description: opt_view(self.description),
            datacenters: match self.datacenters {
                Some(d) => Some(datacenters_view(d@)),
                None => None,
            },
        }
    }
}

impl View for ListModelsResponse {
    type V = Seq<ModelView>;

    open spec fn view(&self) -> Seq<ModelView> {
        self.data@.map_values(|m: Model| m@)
    }
}

impl Pricing {
    /// Pricing with the two required rates and every optional rate absent.
    pub fn new(prompt: &str, completion: &str) -> (r: Pricing)
        ensures
            r@ == (PricingView {
                prompt: prompt@,
                completion: completion@,
                image: None,
                request: None,
                input_cache_read: None,
                input_cache_write: None,
            }),
    {
        Pricing {
            prompt: String::from_str(prompt),
            completion: String::from_str(completion),
            image: None,
            request: None,
            input_cache_read: None,
            input_cache_write: None,
        }
    }
}

impl Datacenter {
    pub fn new(country_code: &str) -> (r: Datacenter)
        ensures
            r.country_code@ == country_code@,
    {
        Datacenter { country_code: String::from_str(country_code) }
    }
}

} // verus!
