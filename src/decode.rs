//! Reading catalog values from JSON text.
//!
//! Members may come in any order and with whitespace between tokens; a member
//! whose key is not part of the schema is read over and dropped. A key of the
//! schema that appears twice, a `null` where a value is expected, a number
//! that is out of range or not an integer, and an enumeration string outside
//! its fixed set are all refused.
use vstd::prelude::*;
use crate::model::{
    datacenters_view, opt_view, Datacenter, Feature, InputModality, ListModelsResponse, Model, ModelView,
    OpenRouterInfo, OutputModality, Pricing, PricingView, Quantization, SamplingParameter,
};
use crate::scan::{
    expect, json_int, json_string, punct, read_i64, read_string, read_u64, skip_value,
    skip_value_at, skip_ws, ws,
};
use crate::text::to_chars;
use crate::wire::chars_eq;

verus! {

/// Whitespace, then an array whose items `p` reads; the items and the input
/// after the `]`.
pub open spec fn json_array<T>(s: Seq<char>, p: spec_fn(Seq<char>) -> Option<(T, Seq<char>)>) -> Option<(Seq<T>, Seq<char>)> {
    match punct(s, '[') {
        None => None,
        Some(u) => match punct(u, ']') {
            Some(r) => Some((Seq::empty(), r)),
            None => array_items(u, p),
        },
    }
}

/// The items of an array after its `[`, up to and including its `]`.
pub open spec fn array_items<T>(s: Seq<char>, p: spec_fn(Seq<char>) -> Option<(T, Seq<char>)>) -> Option<(Seq<T>, Seq<char>)>
    decreases s.len(),
{
    match p(s) {
        None => None,
        Some((v, r)) => match punct(r, ',') {
            Some(r2) => if r2.len() < s.len() {
                match array_items(r2, p) {
                    Some((vs, r3)) => Some((seq![v] + vs, r3)),
                    None => None,
                }
            } else {
                None
            },
            None => match punct(r, ']') {
                Some(r3) => Some((seq![v], r3)),
                None => None,
            },
        },
    }
}

/// Whitespace, then an object; `step` reads the value of each member into
/// the record under construction.
pub open spec fn json_object<S>(s: Seq<char>, init: S, step: spec_fn(Seq<char>, Seq<char>, S) -> Option<(S, Seq<char>)>) -> Option<(S, Seq<char>)> {
    match punct(s, '{') {
        None => None,
        Some(u) => match punct(u, '}') {
            Some(r) => Some((init, r)),
            None => members(u, init, step),
        },
    }
}

/// The members of an object after its `{`, up to and including its `}`.
pub open spec fn members<S>(s: Seq<char>, acc: S, step: spec_fn(Seq<char>, Seq<char>, S) -> Option<(S, Seq<char>)>) -> Option<(S, Seq<char>)>
    decreases s.len(),
{
    match json_string(s) {
        None => None,
        Some((k, t)) => match punct(t, ':') {
            None => None,
            Some(u) => match step(k, u, acc) {
                None => None,
                Some((acc2, r)) => match punct(r, ',') {
                    Some(r2) => if r2.len() < s.len() {
                        members(r2, acc2, step)
                    } else {
                        None
                    },
                    None => match punct(r, '}') {
                        Some(r3) => Some((acc2, r3)),
                        None => None,
                    },
                },
            },
        },
    }
}

/// A member value that the schema does not know: read over, nothing kept.
pub open spec fn ignore_member<S>(u: Seq<char>, acc: S) -> Option<(S, Seq<char>)> {
    match skip_value(u) {
        Some(r) => Some((acc, r)),
        None => None,
    }
}

pub open spec fn i64_value(u: Seq<char>) -> Option<(i64, Seq<char>)> {
    match json_int(u) {
        Some((v, r)) => if i64::MIN <= v <= i64::MAX {
            Some((v as i64, r))
        } else {
            None
        },
        None => None,
    }
}

pub open spec fn u64_value(u: Seq<char>) -> Option<(u64, Seq<char>)> {
    match json_int(u) {
        Some((v, r)) => if 0 <= v <= u64::MAX {
            Some((v as u64, r))
        } else {
            None
        },
        None => None,
    }
}

pub open spec fn input_modality_value(u: Seq<char>) -> Option<(InputModality, Seq<char>)> {
    match json_string(u) {
        Some((w, r)) => match InputModality::from_wire_spec(w) {
            Some(x) => Some((x, r)),
            None => None,
        },
        None => None,
    }
}

pub open spec fn input_modality_fn() -> spec_fn(Seq<char>) -> Option<(InputModality, Seq<char>)> {
    |u: Seq<char>| input_modality_value(u)
}

fn read_input_modality(s: &Vec<char>, pos: usize) -> (r: Option<(InputModality, usize)>)
    requires
        pos <= s@.len(),
    ensures
        match input_modality_value(s@.skip(pos as int)) {
            Some((x, t)) => r is Some && (r->0).0 == x && pos < (r->0).1 <= s@.len()
                && s@.skip((r->0).1 as int) == t,
            None => r is None,
        },
{
    match read_string(s, pos) {
        Some((w, p)) => {
            let cs = to_chars(w.as_str());
            match InputModality::from_wire(cs.as_slice()) {
                Some(x) => Some((x, p)),
                None => None,
            }
        },
        None => None,
    }
}

pub open spec fn output_modality_value(u: Seq<char>) -> Option<(OutputModality, Seq<char>)> {
    match json_string(u) {
        Some((w, r)) => match OutputModality::from_wire_spec(w) {
            Some(x) => Some((x, r)),
            None => None,
        },
        None => None,
    }
}

pub open spec fn output_modality_fn() -> spec_fn(Seq<char>) -> Option<(OutputModality, Seq<char>)> {
    |u: Seq<char>| output_modality_value(u)
}

fn read_output_modality(s: &Vec<char>, pos: usize) -> (r: Option<(OutputModality, usize)>)
    requires
        pos <= s@.len(),
    ensures
        match output_modality_value(s@.skip(pos as int)) {
            Some((x, t)) => r is Some && (r->0).0 == x && pos < (r->0).1 <= s@.len()
                && s@.skip((r->0).1 as int) == t,
            None => r is None,
        },
{
    match read_string(s, pos) {
        Some((w, p)) => {
            let cs = to_chars(w.as_str());
            match OutputModality::from_wire(cs.as_slice()) {
                Some(x) => Some((x, p)),
                None => None,
            }
        },
        None => None,
    }
}

pub open spec fn quantization_value(u: Seq<char>) -> Option<(Quantization, Seq<char>)> {
    match json_string(u) {
        Some((w, r)) => match Quantization::from_wire_spec(w) {
            Some(x) => Some((x, r)),
            None => None,
        },
        None => None,
    }
}

fn read_quantization(s: &Vec<char>, pos: usize) -> (r: Option<(Quantization, usize)>)
    requires
        pos <= s@.len(),
    ensures
        match quantization_value(s@.skip(pos as int)) {
            Some((x, t)) => r is Some && (r->0).0 == x && pos < (r->0).1 <= s@.len()
                && s@.skip((r->0).1 as int) == t,
            None => r is None,
        },
{
    match read_string(s, pos) {
        Some((w, p)) => {
            let cs = to_chars(w.as_str());
            match Quantization::from_wire(cs.as_slice()) {
                Some(x) => Some((x, p)),
                None => None,
            }
        },
        None => None,
    }
}

pub open spec fn sampling_parameter_value(u: Seq<char>) -> Option<(SamplingParameter, Seq<char>)> {
    match json_string(u) {
        Some((w, r)) => match SamplingParameter::from_wire_spec(w) {
            Some(x) => Some((x, r)),
            None => None,
        },
        None => None,
    }
}

pub open spec fn sampling_parameter_fn() -> spec_fn(Seq<char>) -> Option<(SamplingParameter, Seq<char>)> {
    |u: Seq<char>| sampling_parameter_value(u)
}

fn read_sampling_parameter(s: &Vec<char>, pos: usize) -> (r: Option<(SamplingParameter, usize)>)
    requires
        pos <= s@.len(),
    ensures
        match sampling_parameter_value(s@.skip(pos as int)) {
            Some((x, t)) => r is Some && (r->0).0 == x && pos < (r->0).1 <= s@.len()
                && s@.skip((r->0).1 as int) == t,
            None => r is None,
        },
{
    match read_string(s, pos) {
        Some((w, p)) => {
            let cs = to_chars(w.as_str());
            match SamplingParameter::from_wire(cs.as_slice()) {
                Some(x) => Some((x, p)),
                None => None,
            }
        },
        None => None,
    }
}

pub open spec fn feature_value(u: Seq<char>) -> Option<(Feature, Seq<char>)> {
    match json_string(u) {
        Some((w, r)) => match Feature::from_wire_spec(w) {
            Some(x) => Some((x, r)),
            None => None,
        },
        None => None,
    }
}

pub open spec fn feature_fn() -> spec_fn(Seq<char>) -> Option<(Feature, Seq<char>)> {
    |u: Seq<char>| feature_value(u)
}

fn read_feature(s: &Vec<char>, pos: usize) -> (r: Option<(Feature, usize)>)
    requires
        pos <= s@.len(),
    ensures
        match feature_value(s@.skip(pos as int)) {
            Some((x, t)) => r is Some && (r->0).0 == x && pos < (r->0).1 <= s@.len()
                && s@.skip((r->0).1 as int) == t,
            None => r is None,
        },
{
    match read_string(s, pos) {
        Some((w, p)) => {
            let cs = to_chars(w.as_str());
            match Feature::from_wire(cs.as_slice()) {
                Some(x) => Some((x, p)),
                None => None,
            }
        },
        None => None,
    }
}

/// Whitespace, then an object with the one string member `key`.
pub open spec fn single_value(u: Seq<char>, key: Seq<char>) -> Option<(Seq<char>, Seq<char>)> {
    match json_object(u, None, single_step(key)) {
        Some((Some(v), r)) => Some((v, r)),
        _ => None,
    }
}

pub open spec fn single_step(key: Seq<char>) -> spec_fn(Seq<char>, Seq<char>, Option<Seq<char>>) -> Option<(Option<Seq<char>>, Seq<char>)> {
    |k: Seq<char>, u: Seq<char>, acc: Option<Seq<char>>| if k == key {
        if acc is Some {
            None
        } else {
            match json_string(u) {
                Some((v, r)) => Some((Some(v), r)),
                None => None,
            }
        }
    } else {
        ignore_member(u, acc)
    }
}

pub open spec fn datacenter_fn() -> spec_fn(Seq<char>) -> Option<(Seq<char>, Seq<char>)> {
    |u: Seq<char>| single_value(u, "country_code"@)
}

pub open spec fn model_fn() -> spec_fn(Seq<char>) -> Option<(ModelView, Seq<char>)> {
    |u: Seq<char>| model_value(u)
}

/// A `Pricing` whose members have been read so far.
pub struct PricingSlots {

    pub prompt: Option<Seq<char>>,
    pub completion: Option<Seq<char>>,
    pub image: Option<Seq<char>>,
    pub request: Option<Seq<char>>,
    pub input_cache_read: Option<Seq<char>>,
    pub input_cache_write: Option<Seq<char>>,
}

/// A `Model` whose members have been read so far.
pub struct ModelSlots {
    pub id: Option<Seq<char>>,
    pub name: Option<Seq<char>>,
    pub created: Option<i64>,
    pub input_modalities: Option<Seq<InputModality>>,
    pub output_modalities: Option<Seq<OutputModality>>,
    pub quantization: Option<Quantization>,
    pub context_length: Option<u64>,
    pub max_output_length: Option<u64>,
    pub pricing: Option<PricingView>,
    pub supported_sampling_parameters: Option<Seq<SamplingParameter>>,
    pub supported_features: Option<Seq<Feature>>,
    pub openrouter: Option<Seq<char>>,
    pub hugging_face_id: Option<Seq<char>>,
    pub description: Option<Seq<char>>,
    pub datacenters: Option<Seq<Seq<char>>>,
}

pub open spec fn pricing_step(k: Seq<char>, u: Seq<char>, acc: PricingSlots) -> Option<(PricingSlots, Seq<char>)> {
    if k == "prompt"@ {
        if acc.prompt is Some {
            None
        } else {
            match json_string(u) {
                Some((v, r)) => Some((PricingSlots { prompt: Some(v), ..acc }, r)),
                None => None,
            }
        }
    } else if k == "completion"@ {
        if acc.completion is Some {
            None
        } else {
            match json_string(u) {
                Some((v, r)) => Some((PricingSlots { completion: Some(v), ..acc }, r)),
                None => None,
            }
        }
    } else if k == "image"@ {
        if acc.image is Some {
            None
        } else {
            match json_string(u) {
                Some((v, r)) => Some((PricingSlots { image: Some(v), ..acc }, r)),
                None => None,
            }
        }
    } else if k == "request"@ {
        if acc.request is Some {
            None
        } else {
            match json_string(u) {
                Some((v, r)) => Some((PricingSlots { request: Some(v), ..acc }, r)),
                None => None,
            }
        }
    } else if k == "input_cache_read"@ {
        if acc.input_cache_read is Some {
            None
        } else {
            match json_string(u) {
                Some((v, r)) => Some((PricingSlots { input_cache_read: Some(v), ..acc }, r)),
                None => None,
            }
        }
    } else if k == "input_cache_write"@ {
        if acc.input_cache_write is Some {
            None
        } else {
            match json_string(u) {
                Some((v, r)) => Some((PricingSlots { input_cache_write: Some(v), ..acc }, r)),
                None => None,
            }
        }
    } else {
        ignore_member(u, acc)
    }
}

pub open spec fn model_step(k: Seq<char>, u: Seq<char>, acc: ModelSlots) -> Option<(ModelSlots, Seq<char>)> {
    if k == "id"@ {
        if acc.id is Some {
            None
        } else {
            match json_string(u) {
                Some((v, r)) => Some((ModelSlots { id: Some(v), ..acc }, r)),
                None => None,
            }
        }
    } else if k == "name"@ {
        if acc.name is Some {
            None
        } else {
            match json_string(u) {
                Some((v, r)) => Some((ModelSlots { name: Some(v), ..acc }, r)),
                None => None,
            }
        }
    } else if k == "created"@ {
        if acc.created is Some {
            None
        } else {
            match i64_value(u) {
                Some((v, r)) => Some((ModelSlots { created: Some(v), ..acc }, r)),
                None => None,
            }
        }
    } else if k == "input_modalities"@ {
        if acc.input_modalities is Some {
            None
        } else {
            match json_array(u, input_modality_fn()) {
                Some((v, r)) => Some((ModelSlots { input_modalities: Some(v), ..acc }, r)),
                None => None,
            }
        }
    } else if k == "output_modalities"@ {
        if acc.output_modalities is Some {
            None
        } else {
            match json_array(u, output_modality_fn()) {
                Some((v, r)) => Some((ModelSlots { output_modalities: Some(v), ..acc }, r)),
                None => None,
            }
        }
    } else if k == "quantization"@ {
        if acc.quantization is Some {
            None
        } else {
            match quantization_value(u) {
                Some((v, r)) => Some((ModelSlots { quantization: Some(v), ..acc }, r)),
                None => None,
            }
        }
    } else if k == "context_length"@ {
        if acc.context_length is Some {
            None
        } else {
            match u64_value(u) {
                Some((v, r)) => Some((ModelSlots { context_length: Some(v), ..acc }, r)),
                None => None,
            }
        }
    } else if k == "max_output_length"@ {
        if acc.max_output_length is Some {
            None
        } else {
            match u64_value(u) {
                Some((v, r)) => Some((ModelSlots { max_output_length: Some(v), ..acc }, r)),
                None => None,
            }
        }
    } else if k == "pricing"@ {
        if acc.pricing is Some {
            None
        } else {
            match pricing_value(u) {
                Some((v, r)) => Some((ModelSlots { pricing: Some(v), ..acc }, r)),
                None => None,
            }
        }
    } else if k == "supported_sampling_parameters"@ {
        if acc.supported_sampling_parameters is Some {
            None
        } else {
            match json_array(u, sampling_parameter_fn()) {
                Some((v, r)) => Some((ModelSlots { supported_sampling_parameters: Some(v), ..acc }, r)),
                None => None,
            }
        }
    } else if k == "supported_features"@ {
        if acc.supported_features is Some {
            None
        } else {
            match json_array(u, feature_fn()) {
                Some((v, r)) => Some((ModelSlots { supported_features: Some(v), ..acc }, r)),
                None => None,
            }
        }
    } else if k == "openrouter"@ {
        if acc.openrouter is Some {
            None
        } else {
            match single_value(u, "slug"@) {
                Some((v, r)) => Some((ModelSlots { openrouter: Some(v), ..acc }, r)),
                None => None,
            }
        }
    } else if k == "hugging_face_id"@ {
        if acc.hugging_face_id is Some {
            None
        } else {
            match json_string(u) {
                Some((v, r)) => Some((ModelSlots { hugging_face_id: Some(v), ..acc }, r)),
                None => None,
            }
        }
    } else if k == "description"@ {
        if acc.description is Some {
            None
        } else {
            match json_string(u) {
                Some((v, r)) => Some((ModelSlots { description: Some(v), ..acc }, r)),
                None => None,
            }
        }
    } else if k == "datacenters"@ {
        if acc.datacenters is Some {
            None
        } else {
            match json_array(u, datacenter_fn()) {
                Some((v, r)) => Some((ModelSlots { datacenters: Some(v), ..acc }, r)),
                None => None,
            }
        }
    } else {
        ignore_member(u, acc)
    }
}

pub open spec fn pricing_step_fn() -> spec_fn(Seq<char>, Seq<char>, PricingSlots) -> Option<(PricingSlots, Seq<char>)> {
    |k: Seq<char>, u: Seq<char>, acc: PricingSlots| pricing_step(k, u, acc)
}

pub open spec fn model_step_fn() -> spec_fn(Seq<char>, Seq<char>, ModelSlots) -> Option<(ModelSlots, Seq<char>)> {
    |k: Seq<char>, u: Seq<char>, acc: ModelSlots| model_step(k, u, acc)
}

pub open spec fn no_pricing_slots() -> PricingSlots {
    PricingSlots { prompt: None, completion: None, image: None, request: None, input_cache_read: None, input_cache_write: None }
}

pub open spec fn no_model_slots() -> ModelSlots {
    ModelSlots { id: None, name: None, created: None, input_modalities: None, output_modalities: None, quantization: None, context_length: None, max_output_length: None, pricing: None, supported_sampling_parameters: None, supported_features: None, openrouter: None, hugging_face_id: None, description: None, datacenters: None }
}

/// Whitespace, then a `Pricing` object with its required members.
pub open spec fn pricing_value(u: Seq<char>) -> Option<(PricingView, Seq<char>)> {
    match json_object(u, no_pricing_slots(), pricing_step_fn()) {
        Some((a, r)) => if a.prompt is Some && a.completion is Some {
            Some((PricingView { prompt: a.prompt->0, completion: a.completion->0, image: a.image, request: a.request, input_cache_read: a.input_cache_read, input_cache_write: a.input_cache_write }, r))
        } else {
            None
        },
        None => None,
    }
}

/// Whitespace, then a `Model` object with its required members.
#[verifier::opaque]
pub open spec fn model_value(u: Seq<char>) -> Option<(ModelView, Seq<char>)> {
    match json_object(u, no_model_slots(), model_step_fn()) {
        Some((a, r)) => if a.id is Some && a.name is Some && a.created is Some && a.input_modalities is Some && a.output_modalities is Some && a.quantization is Some && a.context_length is Some && a.max_output_length is Some && a.pricing is Some && a.supported_sampling_parameters is Some && a.supported_features is Some {
            Some((ModelView { id: a.id->0, name: a.name->0, created: a.created->0, input_modalities: a.input_modalities->0, output_modalities: a.output_modalities->0, quantization: a.quantization->0, context_length: a.context_length->0, max_output_length: a.max_output_length->0, pricing: a.pricing->0, supported_sampling_parameters: a.supported_sampling_parameters->0, supported_features: a.supported_features->0, openrouter: a.openrouter, hugging_face_id: a.hugging_face_id, description: a.description, datacenters: a.datacenters }, r))
        } else {
            None
        },
        None => None,
    }
}

/// The response object: its `data` member is required.
pub open spec fn response_step(k: Seq<char>, u: Seq<char>, acc: Option<Seq<ModelView>>) -> Option<(Option<Seq<ModelView>>, Seq<char>)> {
    if k == "data"@ {
        if acc is Some {
            None
        } else {
            match json_array(u, model_fn()) {
                Some((v, r)) => Some((Some(v), r)),
                None => None,
            }
        }
    } else {
        ignore_member(u, acc)
    }
}

pub open spec fn response_step_fn() -> spec_fn(Seq<char>, Seq<char>, Option<Seq<ModelView>>) -> Option<(Option<Seq<ModelView>>, Seq<char>)> {
    |k: Seq<char>, u: Seq<char>, acc: Option<Seq<ModelView>>| response_step(k, u, acc)
}

/// The models that a whole document describes, when it describes a response.
pub open spec fn parse_response(text: Seq<char>) -> Option<Seq<ModelView>> {
    match json_object(text, None, response_step_fn()) {
        Some((Some(v), r)) => if ws(r).len() == 0 {
            Some(v)
        } else {
            None
        },
        _ => None,
    }
}

/// Whether `text` is one JSON object, alone but for whitespace.
pub open spec fn is_json_object(text: Seq<char>) -> bool {
    &&& ws(text).len() > 0
    &&& ws(text)[0] == '{'
    &&& match skip_value(text) {
        Some(r) => ws(r).len() == 0,
        None => false,
    }
}

/// Why a document could not be read.
#[derive(Debug, Clone, Copy, PartialEq, Eq, Structural)]
pub enum DecodeError {
    /// The text is not a JSON object.
    MalformedJson,
    /// The text is a JSON object that does not describe a response.
    SchemaMismatch,
}

fn read_input_modalitys(s: &Vec<char>, pos: usize) -> (r: Option<(Vec<InputModality>, usize)>)
    requires
        pos <= s@.len(),
    ensures
        match json_array(s@.skip(pos as int), input_modality_fn()) {
            Some((v, t)) => r is Some && (r->0).0@ == v && pos < (r->0).1 <= s@.len()
                && s@.skip((r->0).1 as int) == t,
            None => r is None,
        },
{
    let start = match expect(s, pos, '[') {
        Some(p) => p,
        None => return None,
    };
    let mut out: Vec<InputModality> = Vec::new();
    match expect(s, start, ']') {
        Some(p) => {
            assert(out@ =~= Seq::<InputModality>::empty());
            return Some((out, p));
        },
        None => {},
    }
    let mut i = start;
    loop
        invariant
            pos < start <= i <= s@.len(),
            json_array(s@.skip(pos as int), input_modality_fn()) == match array_items(s@.skip(i as int), input_modality_fn()) {
                Some((vs, t)) => Some((out@ + vs, t)),
                None => None,
            },
        decreases s@.len() - i,
    {
        let ghost before = out@;
        let (x, p) = match read_input_modality(s, i) {
            Some(xp) => xp,
            None => return None,
        };
        out.push(x);
        assert(out@ =~= before.push(x));
        match expect(s, p, ',') {
            Some(q) => {
                if q <= i {
                    return None;
                }
                proof {
                    match array_items(s@.skip(q as int), input_modality_fn()) {
                        Some((vs, t)) => {
                            assert(before + (seq![x] + vs) =~= out@ + vs);
                        },
                        None => {},
                    }
                }
                i = q;
            },
            None => match expect(s, p, ']') {
                Some(q) => {
                    assert(before + seq![x] =~= out@);
                    return Some((out, q));
                },
                None => return None,
            },
        }
    }
}

fn read_output_modalitys(s: &Vec<char>, pos: usize) -> (r: Option<(Vec<OutputModality>, usize)>)
    requires
        pos <= s@.len(),
    ensures
        match json_array(s@.skip(pos as int), output_modality_fn()) {
            Some((v, t)) => r is Some && (r->0).0@ == v && pos < (r->0).1 <= s@.len()
                && s@.skip((r->0).1 as int) == t,
            None => r is None,
        },
{
    let start = match expect(s, pos, '[') {
        Some(p) => p,
        None => return None,
    };
    let mut out: Vec<OutputModality> = Vec::new();
    match expect(s, start, ']') {
        Some(p) => {
            assert(out@ =~= Seq::<OutputModality>::empty());
            return Some((out, p));
        },
        None => {},
    }
    let mut i = start;
    loop
        invariant
            pos < start <= i <= s@.len(),
            json_array(s@.skip(pos as int), output_modality_fn()) == match array_items(s@.skip(i as int), output_modality_fn()) {
                Some((vs, t)) => Some((out@ + vs, t)),
                None => None,
            },
        decreases s@.len() - i,
    {
        let ghost before = out@;
        let (x, p) = match read_output_modality(s, i) {
            Some(xp) => xp,
            None => return None,
        };
        out.push(x);
        assert(out@ =~= before.push(x));
        match expect(s, p, ',') {
            Some(q) => {
                if q <= i {
                    return None;
                }
                proof {
                    match array_items(s@.skip(q as int), output_modality_fn()) {
                        Some((vs, t)) => {
                            assert(before + (seq![x] + vs) =~= out@ + vs);
                        },
                        None => {},
                    }
                }
                i = q;
            },
            None => match expect(s, p, ']') {
                Some(q) => {
                    assert(before + seq![x] =~= out@);
                    return Some((out, q));
                },
                None => return None,
            },
        }
    }
}

fn read_sampling_parameters(s: &Vec<char>, pos: usize) -> (r: Option<(Vec<SamplingParameter>, usize)>)
    requires
        pos <= s@.len(),
    ensures
        match json_array(s@.skip(pos as int), sampling_parameter_fn()) {
            Some((v, t)) => r is Some && (r->0).0@ == v && pos < (r->0).1 <= s@.len()
                && s@.skip((r->0).1 as int) == t,
            None => r is None,
        },
{
    let start = match expect(s, pos, '[') {
        Some(p) => p,
        None => return None,
    };
    let mut out: Vec<SamplingParameter> = Vec::new();
    match expect(s, start, ']') {
        Some(p) => {
            assert(out@ =~= Seq::<SamplingParameter>::empty());
            return Some((out, p));
        },
        None => {},
    }
    let mut i = start;
    loop
        invariant
            pos < start <= i <= s@.len(),
            json_array(s@.skip(pos as int), sampling_parameter_fn()) == match array_items(s@.skip(i as int), sampling_parameter_fn()) {
                Some((vs, t)) => Some((out@ + vs, t)),
                None => None,
            },
        decreases s@.len() - i,
    {
        let ghost before = out@;
        let (x, p) = match read_sampling_parameter(s, i) {
            Some(xp) => xp,
            None => return None,
        };
        out.push(x);
        assert(out@ =~= before.push(x));
        match expect(s, p, ',') {
            Some(q) => {
                if q <= i {
                    return None;
                }
                proof {
                    match array_items(s@.skip(q as int), sampling_parameter_fn()) {
                        Some((vs, t)) => {
                            assert(before + (seq![x] + vs) =~= out@ + vs);
                        },
                        None => {},
                    }
                }
                i = q;
            },
            None => match expect(s, p, ']') {
                Some(q) => {
                    assert(before + seq![x] =~= out@);
                    return Some((out, q));
                },
                None => return None,
            },
        }
    }
}

fn read_features(s: &Vec<char>, pos: usize) -> (r: Option<(Vec<Feature>, usize)>)
    requires
        pos <= s@.len(),
    ensures
        match json_array(s@.skip(pos as int), feature_fn()) {
            Some((v, t)) => r is Some && (r->0).0@ == v && pos < (r->0).1 <= s@.len()
                && s@.skip((r->0).1 as int) == t,
            None => r is None,
        },
{
    let start = match expect(s, pos, '[') {
        Some(p) => p,
        None => return None,
    };
    let mut out: Vec<Feature> = Vec::new();
    match expect(s, start, ']') {
        Some(p) => {
            assert(out@ =~= Seq::<Feature>::empty());
            return Some((out, p));
        },
        None => {},
    }
    let mut i = start;
    loop
        invariant
            pos < start <= i <= s@.len(),
            json_array(s@.skip(pos as int), feature_fn()) == match array_items(s@.skip(i as int), feature_fn()) {
                Some((vs, t)) => Some((out@ + vs, t)),
                None => None,
            },
        decreases s@.len() - i,
    {
        let ghost before = out@;
        let (x, p) = match read_feature(s, i) {
            Some(xp) => xp,
            None => return None,
        };
        out.push(x);
        assert(out@ =~= before.push(x));
        match expect(s, p, ',') {
            Some(q) => {
                if q <= i {
                    return None;
                }
                proof {
                    match array_items(s@.skip(q as int), feature_fn()) {
                        Some((vs, t)) => {
                            assert(before + (seq![x] + vs) =~= out@ + vs);
                        },
                        None => {},
                    }
                }
                i = q;
            },
            None => match expect(s, p, ']') {
                Some(q) => {
                    assert(before + seq![x] =~= out@);
                    return Some((out, q));
                },
                None => return None,
            },
        }
    }
}

fn read_datacenters(s: &Vec<char>, pos: usize) -> (r: Option<(Vec<Datacenter>, usize)>)
    requires
        pos <= s@.len(),
    ensures
        match json_array(s@.skip(pos as int), datacenter_fn()) {
            Some((v, t)) => r is Some && datacenters_view((r->0).0@) == v && pos < (r->0).1 <= s@.len()
                && s@.skip((r->0).1 as int) == t,
            None => r is None,
        },
{
    let start = match expect(s, pos, '[') {
        Some(p) => p,
        None => return None,
    };
    let mut out: Vec<Datacenter> = Vec::new();
    match expect(s, start, ']') {
        Some(p) => {
            assert(datacenters_view(out@) =~= Seq::<Seq<char>>::empty());
            return Some((out, p));
        },
        None => {},
    }
    let mut i = start;
    loop
        invariant
            pos < start <= i <= s@.len(),
            json_array(s@.skip(pos as int), datacenter_fn()) == match array_items(s@.skip(i as int), datacenter_fn()) {
                Some((vs, t)) => Some((datacenters_view(out@) + vs, t)),
                None => None,
            },
        decreases s@.len() - i,
    {
        let ghost before = datacenters_view(out@);
        let (x, p) = match read_datacenter(s, i) {
            Some(xp) => xp,
            None => return None,
        };
        out.push(x);
        assert(datacenters_view(out@) =~= before.push(x.country_code@));
        match expect(s, p, ',') {
            Some(q) => {
                if q <= i {
                    return None;
                }
                proof {
                    match array_items(s@.skip(q as int), datacenter_fn()) {
                        Some((vs, t)) => {
                            assert(before + (seq![x.country_code@] + vs) =~= datacenters_view(out@) + vs);
                        },
                        None => {},
                    }
                }
                i = q;
            },
            None => match expect(s, p, ']') {
                Some(q) => {
                    assert(before + seq![x.country_code@] =~= datacenters_view(out@));
                    return Some((out, q));
                },
                None => return None,
            },
        }
    }
}

fn read_models(s: &Vec<char>, pos: usize) -> (r: Option<(Vec<Model>, usize)>)
    requires
        pos <= s@.len(),
    ensures
        match json_array(s@.skip(pos as int), model_fn()) {
            Some((v, t)) => r is Some && (r->0).0@.map_values(|m: Model| m@) == v && pos < (r->0).1 <= s@.len()
                && s@.skip((r->0).1 as int) == t,
            None => r is None,
        },
{
    let start = match expect(s, pos, '[') {
        Some(p) => p,
        None => return None,
    };
    let mut out: Vec<Model> = Vec::new();
    match expect(s, start, ']') {
        Some(p) => {
            assert(out@.map_values(|m: Model| m@) =~= Seq::<ModelView>::empty());
            return Some((out, p));
        },
        None => {},
    }
    let mut i = start;
    loop
        invariant
            pos < start <= i <= s@.len(),
            json_array(s@.skip(pos as int), model_fn()) == match array_items(s@.skip(i as int), model_fn()) {
                Some((vs, t)) => Some((out@.map_values(|m: Model| m@) + vs, t)),
                None => None,
            },
        decreases s@.len() - i,
    {
        let ghost before = out@.map_values(|m: Model| m@);
        let (x, p) = match read_model(s, i) {
            Some(xp) => xp,
            None => return None,
        };
        out.push(x);
        assert(out@.map_values(|m: Model| m@) =~= before.push(x@));
        match expect(s, p, ',') {
            Some(q) => {
                if q <= i {
                    return None;
                }
                proof {
                    match array_items(s@.skip(q as int), model_fn()) {
                        Some((vs, t)) => {
                            assert(before + (seq![x@] + vs) =~= out@.map_values(|m: Model| m@) + vs);
                        },
                        None => {},
                    }
                }
                i = q;
            },
            None => match expect(s, p, ']') {
                Some(q) => {
                    assert(before + seq![x@] =~= out@.map_values(|m: Model| m@));
                    return Some((out, q));
                },
                None => return None,
            },
        }
    }
}

struct PricingFields {
    prompt: Option<String>,
    completion: Option<String>,
    image: Option<String>,
    request: Option<String>,
    input_cache_read: Option<String>,
    input_cache_write: Option<String>,
}

impl View for PricingFields {
    type V = PricingSlots;

    closed spec fn view(&self) -> PricingSlots {
        PricingSlots {
            prompt: match self.prompt { Some(v) => Some(v@), None => None },
            completion: match self.completion { Some(v) => Some(v@), None => None },
            image: match self.image { Some(v) => Some(v@), None => None },
            request: match self.request { Some(v) => Some(v@), None => None },
            input_cache_read: match self.input_cache_read { Some(v) => Some(v@), None => None },
            input_cache_write: match self.input_cache_write { Some(v) => Some(v@), None => None },
        }
    }
}

struct ModelFields {
    id: Option<String>,
    name: Option<String>,
    created: Option<i64>,
    input_modalities: Option<Vec<InputModality>>,
    output_modalities: Option<Vec<OutputModality>>,
    quantization: Option<Quantization>,
    context_length: Option<u64>,
    max_output_length: Option<u64>,
    pricing: Option<Pricing>,
    supported_sampling_parameters: Option<Vec<SamplingParameter>>,
    supported_features: Option<Vec<Feature>>,
    openrouter: Option<OpenRouterInfo>,
    hugging_face_id: Option<String>,
    description: Option<String>,
    datacenters: Option<Vec<Datacenter>>,
}

impl View for ModelFields {
    type V = ModelSlots;

    closed spec fn view(&self) -> ModelSlots {
        ModelSlots {
            id: match self.id { Some(v) => Some(v@), None => None },
            name: match self.name { Some(v) => Some(v@), None => None },
            created: match self.created { Some(v) => Some(v), None => None },
            input_modalities: match self.input_modalities { Some(v) => Some(v@), None => None },
            output_modalities: match self.output_modalities { Some(v) => Some(v@), None => None },
            quantization: match self.quantization { Some(v) => Some(v), None => None },
            context_length: match self.context_length { Some(v) => Some(v), None => None },
            max_output_length: match self.max_output_length { Some(v) => Some(v), None => None },
            pricing: match self.pricing { Some(v) => Some(v@), None => None },
            supported_sampling_parameters: match self.supported_sampling_parameters { Some(v) => Some(v@), None => None },
            supported_features: match self.supported_features { Some(v) => Some(v@), None => None },
            openrouter: match self.openrouter { Some(v) => Some(v.slug@), None => None },
            hugging_face_id: match self.hugging_face_id { Some(v) => Some(v@), None => None },
            description: match self.description { Some(v) => Some(v@), None => None },
            datacenters: match self.datacenters { Some(v) => Some(datacenters_view(v@)), None => None },
        }
    }
}

fn read_pricing_member(s: &Vec<char>, v: usize, key: &Vec<char>, acc: &mut PricingFields) -> (r: Option<usize>)
    requires
        v <= s@.len(),
    ensures
        match pricing_step(key@, s@.skip(v as int), old(acc)@) {
            Some((a, t)) => r is Some && final(acc)@ == a && v < r->0 <= s@.len()
                && s@.skip(r->0 as int) == t,
            None => r is None,
        },
{
    if chars_eq(key.as_slice(), "prompt") {
        if acc.prompt.is_some() {
            return None;
        }
        match read_string(s, v) {
            Some((x, p)) => {
                acc.prompt = Some(x);
                Some(p)
            },
            None => None,
        }
    } else if chars_eq(key.as_slice(), "completion") {
        if acc.completion.is_some() {
            return None;
        }
        match read_string(s, v) {
            Some((x, p)) => {
                acc.completion = Some(x);
                Some(p)
            },
            None => None,
        }
    } else if chars_eq(key.as_slice(), "image") {
        if acc.image.is_some() {
            return None;
        }
        match read_string(s, v) {
            Some((x, p)) => {
                acc.image = Some(x);
                Some(p)
            },
            None => None,
        }
    } else if chars_eq(key.as_slice(), "request") {
        if acc.request.is_some() {
            return None;
        }
        match read_string(s, v) {
            Some((x, p)) => {
                acc.request = Some(x);
                Some(p)
            },
            None => None,
        }
    } else if chars_eq(key.as_slice(), "input_cache_read") {
        if acc.input_cache_read.is_some() {
            return None;
        }
        match read_string(s, v) {
            Some((x, p)) => {
                acc.input_cache_read = Some(x);
                Some(p)
            },
            None => None,
        }
    } else if chars_eq(key.as_slice(), "input_cache_write") {
        if acc.input_cache_write.is_some() {
            return None;
        }
        match read_string(s, v) {
            Some((x, p)) => {
                acc.input_cache_write = Some(x);
                Some(p)
            },
            None => None,
        }
    } else {
        skip_value_at(s, v)
    }
}

fn read_model_member(s: &Vec<char>, v: usize, key: &Vec<char>, acc: &mut ModelFields) -> (r: Option<usize>)
    requires
        v <= s@.len(),
    ensures
        match model_step(key@, s@.skip(v as int), old(acc)@) {
            Some((a, t)) => r is Some && final(acc)@ == a && v < r->0 <= s@.len()
                && s@.skip(r->0 as int) == t,
            None => r is None,
        },
{
    if chars_eq(key.as_slice(), "id") {
        if acc.id.is_some() {
            return None;
        }
        match read_string(s, v) {
            Some((x, p)) => {
                acc.id = Some(x);
                Some(p)
            },
            None => None,
        }
    } else if chars_eq(key.as_slice(), "name") {
        if acc.name.is_some() {
            return None;
        }
        match read_string(s, v) {
            Some((x, p)) => {
                acc.name = Some(x);
                Some(p)
            },
            None => None,
        }
    } else if chars_eq(key.as_slice(), "created") {
        if acc.created.is_some() {
            return None;
        }
        match read_i64(s, v) {
            Some((x, p)) => {
                acc.created = Some(x);
                Some(p)
            },
            None => None,
        }
    } else if chars_eq(key.as_slice(), "input_modalities") {
        if acc.input_modalities.is_some() {
            return None;
        }
        match read_input_modalitys(s, v) {
            Some((x, p)) => {
                acc.input_modalities = Some(x);
                Some(p)
            },
            None => None,
        }
    } else if chars_eq(key.as_slice(), "output_modalities") {
        if acc.output_modalities.is_some() {
            return None;
        }
        match read_output_modalitys(s, v) {
            Some((x, p)) => {
                acc.output_modalities = Some(x);
                Some(p)
            },
            None => None,
        }
    } else if chars_eq(key.as_slice(), "quantization") {
        if acc.quantization.is_some() {
            return None;
        }
        match read_quantization(s, v) {
            Some((x, p)) => {
                acc.quantization = Some(x);
                Some(p)
            },
            None => None,
        }
    } else if chars_eq(key.as_slice(), "context_length") {
        if acc.context_length.is_some() {
            return None;
        }
        match read_u64(s, v) {
            Some((x, p)) => {
                acc.context_length = Some(x);
                Some(p)
            },
            None => None,
        }
    } else if chars_eq(key.as_slice(), "max_output_length") {
        if acc.max_output_length.is_some() {
            return None;
        }
        match read_u64(s, v) {
            Some((x, p)) => {
                acc.max_output_length = Some(x);
                Some(p)
            },
            None => None,
        }
    } else if chars_eq(key.as_slice(), "pricing") {
        if acc.pricing.is_some() {
            return None;
        }
        match read_pricing(s, v) {
            Some((x, p)) => {
                acc.pricing = Some(x);
                Some(p)
            },
            None => None,
        }
    } else if chars_eq(key.as_slice(), "supported_sampling_parameters") {
        if acc.supported_sampling_parameters.is_some() {
            return None;
        }
        match read_sampling_parameters(s, v) {
            Some((x, p)) => {
                acc.supported_sampling_parameters = Some(x);
                Some(p)
            },
            None => None,
        }
    } else if chars_eq(key.as_slice(), "supported_features") {
        if acc.supported_features.is_some() {
            return None;
        }
        match read_features(s, v) {
            Some((x, p)) => {
                acc.supported_features = Some(x);
                Some(p)
            },
            None => None,
        }
    } else if chars_eq(key.as_slice(), "openrouter") {
        if acc.openrouter.is_some() {
            return None;
        }
        match read_open_router(s, v) {
            Some((x, p)) => {
                acc.openrouter = Some(x);
                Some(p)
            },
            None => None,
        }
    } else if chars_eq(key.as_slice(), "hugging_face_id") {
        if acc.hugging_face_id.is_some() {
            return None;
        }
        match read_string(s, v) {
            Some((x, p)) => {
                acc.hugging_face_id = Some(x);
                Some(p)
            },
            None => None,
        }
    } else if chars_eq(key.as_slice(), "description") {
        if acc.description.is_some() {
            return None;
        }
        match read_string(s, v) {
            Some((x, p)) => {
                acc.description = Some(x);
                Some(p)
            },
            None => None,
        }
    } else if chars_eq(key.as_slice(), "datacenters") {
        if acc.datacenters.is_some() {
            return None;
        }
        match read_datacenters(s, v) {
            Some((x, p)) => {
                acc.datacenters = Some(x);
                Some(p)
            },
            None => None,
        }
    } else {
        skip_value_at(s, v)
    }
}

fn read_pricing(s: &Vec<char>, pos: usize) -> (r: Option<(Pricing, usize)>)
    requires
        pos <= s@.len(),
    ensures
        match pricing_value(s@.skip(pos as int)) {
            Some((x, t)) => r is Some && (r->0).0@ == x && pos < (r->0).1 <= s@.len()
                && s@.skip((r->0).1 as int) == t,
            None => r is None,
        },
{
    let start = match expect(s, pos, '{') {
        Some(p) => p,
        None => return None,
    };
    let mut acc = PricingFields { prompt: None, completion: None, image: None, request: None, input_cache_read: None, input_cache_write: None };
    let mut end: usize = start;
    match expect(s, start, '}') {
        Some(p) => {
            end = p;
        },
        None => {
            let mut i = start;
            loop
                invariant_except_break
                    json_object(s@.skip(pos as int), no_pricing_slots(), pricing_step_fn()) == members(s@.skip(i as int), acc@, pricing_step_fn()),
                invariant
                    pos < start <= i <= s@.len(),
                ensures
                    pos < end <= s@.len(),
                    json_object(s@.skip(pos as int), no_pricing_slots(), pricing_step_fn()) == Some((acc@, s@.skip(end as int))),
                decreases s@.len() - i,
            {
                let (k, kp) = match read_string(s, i) {
                    Some(kk) => kk,
                    None => return None,
                };
                let v = match expect(s, kp, ':') {
                    Some(v) => v,
                    None => return None,
                };
                let key = to_chars(k.as_str());
                let p = match read_pricing_member(s, v, &key, &mut acc) {
                    Some(p) => p,
                    None => return None,
                };
                match expect(s, p, ',') {
                    Some(q) => {
                        if q <= i {
                            return None;
                        }
                        i = q;
                    },
                    None => match expect(s, p, '}') {
                        Some(q) => {
                            end = q;
                            break;
                        },
                        None => return None,
                    },
                }
            }
        },
    }
    match (acc.prompt, acc.completion) {
        (Some(prompt), Some(completion)) => Some((
            Pricing {
                prompt,
                completion,
                image: acc.image,
                request: acc.request,
                input_cache_read: acc.input_cache_read,
                input_cache_write: acc.input_cache_write,
            },
            end,
        )),
        _ => None,
    }
}

fn read_model(s: &Vec<char>, pos: usize) -> (r: Option<(Model, usize)>)
    requires
        pos <= s@.len(),
    ensures
        match model_value(s@.skip(pos as int)) {
            Some((x, t)) => r is Some && (r->0).0@ == x && pos < (r->0).1 <= s@.len()
                && s@.skip((r->0).1 as int) == t,
            None => r is None,
        },
{
    reveal(model_value);
    let start = match expect(s, pos, '{') {
        Some(p) => p,
        None => return None,
    };
    let mut acc = ModelFields { id: None, name: None, created: None, input_modalities: None, output_modalities: None, quantization: None, context_length: None, max_output_length: None, pricing: None, supported_sampling_parameters: None, supported_features: None, openrouter: None, hugging_face_id: None, description: None, datacenters: None };
    let mut end: usize = start;
    match expect(s, start, '}') {
        Some(p) => {
            end = p;
        },
        None => {
            let mut i = start;
            loop
                invariant_except_break
                    json_object(s@.skip(pos as int), no_model_slots(), model_step_fn()) == members(s@.skip(i as int), acc@, model_step_fn()),
                invariant
                    pos < start <= i <= s@.len(),
                ensures
                    pos < end <= s@.len(),
                    json_object(s@.skip(pos as int), no_model_slots(), model_step_fn()) == Some((acc@, s@.skip(end as int))),
                decreases s@.len() - i,
            {
                proof { reveal(model_value); }
                let (k, kp) = match read_string(s, i) {
                    Some(kk) => kk,
                    None => return None,
                };
                let v = match expect(s, kp, ':') {
                    Some(v) => v,
                    None => return None,
                };
                let key = to_chars(k.as_str());
                let p = match read_model_member(s, v, &key, &mut acc) {
                    Some(p) => p,
                    None => return None,
                };
                match expect(s, p, ',') {
                    Some(q) => {
                        if q <= i {
                            return None;
                        }
                        i = q;
                    },
                    None => match expect(s, p, '}') {
                        Some(q) => {
                            end = q;
                            break;
                        },
                        None => return None,
                    },
                }
            }
        },
    }
    match (
        acc.id,
        acc.name,
        acc.created,
        acc.input_modalities,
        acc.output_modalities,
        acc.quantization,
        acc.context_length,
        acc.max_output_length,
        acc.pricing,
        acc.supported_sampling_parameters,
        acc.supported_features,
    ) {
        (
            Some(id),
            Some(name),
            Some(created),
            Some(input_modalities),
            Some(output_modalities),
            Some(quantization),
            Some(context_length),
            Some(max_output_length),
            Some(pricing),
            Some(supported_sampling_parameters),
            Some(supported_features),
        ) => Some((
            Model {
                id,
                name,
                created,
                input_modalities,
                output_modalities,
                quantization,
                context_length,
                max_output_length,
                pricing,
                supported_sampling_parameters,
                supported_features,
                openrouter: acc.openrouter,
                hugging_face_id: acc.hugging_face_id,
                description: acc.description,
                datacenters: acc.datacenters,
            },
            end,
        )),
        _ => None,
    }
}

fn read_single_member(s: &Vec<char>, v: usize, key: &Vec<char>, name: &str, acc: &mut Option<String>) -> (r: Option<usize>)
    requires
        v <= s@.len(),
    ensures
        match single_step(name@)(key@, s@.skip(v as int), opt_view(*old(acc))) {
            Some((a, t)) => r is Some && opt_view(*final(acc)) == a && v < r->0 <= s@.len()
                && s@.skip(r->0 as int) == t,
            None => r is None,
        },
{
    if chars_eq(key.as_slice(), name) {
        if acc.is_some() {
            return None;
        }
        match read_string(s, v) {
            Some((x, p)) => {
                *acc = Some(x);
                Some(p)
            },
            None => None,
        }
    } else {
        skip_value_at(s, v)
    }
}

fn read_single(s: &Vec<char>, pos: usize, name: &str) -> (r: Option<(String, usize)>)
    requires
        pos <= s@.len(),
    ensures
        match single_value(s@.skip(pos as int), name@) {
            Some((x, t)) => r is Some && (r->0).0@ == x && pos < (r->0).1 <= s@.len()
                && s@.skip((r->0).1 as int) == t,
            None => r is None,
        },
{
    let start = match expect(s, pos, '{') {
        Some(p) => p,
        None => return None,
    };
    let mut acc = None;
    let mut end: usize = start;
    match expect(s, start, '}') {
        Some(p) => {
            end = p;
        },
        None => {
            let mut i = start;
            loop
                invariant_except_break
                    json_object(s@.skip(pos as int), None, single_step(name@)) == members(s@.skip(i as int), opt_view(acc), single_step(name@)),
                invariant
                    pos < start <= i <= s@.len(),
                ensures
                    pos < end <= s@.len(),
                    json_object(s@.skip(pos as int), None, single_step(name@)) == Some((opt_view(acc), s@.skip(end as int))),
                decreases s@.len() - i,
            {
                let (k, kp) = match read_string(s, i) {
                    Some(kk) => kk,
                    None => return None,
                };
                let v = match expect(s, kp, ':') {
                    Some(v) => v,
                    None => return None,
                };
                let key = to_chars(k.as_str());
                let p = match read_single_member(s, v, &key, name, &mut acc) {
                    Some(p) => p,
                    None => return None,
                };
                match expect(s, p, ',') {
                    Some(q) => {
                        if q <= i {
                            return None;
                        }
                        i = q;
                    },
                    None => match expect(s, p, '}') {
                        Some(q) => {
                            end = q;
                            break;
                        },
                        None => return None,
                    },
                }
            }
        },
    }
    match acc {
        Some(x) => Some((x, end)),
        None => None,
    }
}

fn read_open_router(s: &Vec<char>, pos: usize) -> (r: Option<(OpenRouterInfo, usize)>)
    requires
        pos <= s@.len(),
    ensures
        match single_value(s@.skip(pos as int), "slug"@) {
            Some((x, t)) => r is Some && (r->0).0.slug@ == x && pos < (r->0).1 <= s@.len()
                && s@.skip((r->0).1 as int) == t,
            None => r is None,
        },
{
    match read_single(s, pos, "slug") {
        Some((slug, p)) => Some((OpenRouterInfo { slug }, p)),
        None => None,
    }
}

fn read_datacenter(s: &Vec<char>, pos: usize) -> (r: Option<(Datacenter, usize)>)
    requires
        pos <= s@.len(),
    ensures
        match single_value(s@.skip(pos as int), "country_code"@) {
            Some((x, t)) => r is Some && (r->0).0.country_code@ == x && pos < (r->0).1 <= s@.len()
                && s@.skip((r->0).1 as int) == t,
            None => r is None,
        },
{
    match read_single(s, pos, "country_code") {
        Some((country_code, p)) => Some((Datacenter { country_code }, p)),
        None => None,
    }
}


pub open spec fn opt_models_view(o: Option<Vec<Model>>) -> Option<Seq<ModelView>> {
    match o {
        Some(v) => Some(v@.map_values(|m: Model| m@)),
        None => None,
    }
}

fn read_response_member(s: &Vec<char>, v: usize, key: &Vec<char>, acc: &mut Option<Vec<Model>>) -> (r: Option<usize>)
    requires
        v <= s@.len(),
    ensures
        match response_step(key@, s@.skip(v as int), opt_models_view(*old(acc))) {
            Some((a, t)) => r is Some && opt_models_view(*final(acc)) == a && v < r->0 <= s@.len()
                && s@.skip(r->0 as int) == t,
            None => r is None,
        },
{
    if chars_eq(key.as_slice(), "data") {
        if acc.is_some() {
            return None;
        }
        match read_models(s, v) {
            Some((x, p)) => {
                *acc = Some(x);
                Some(p)
            },
            None => None,
        }
    } else {
        skip_value_at(s, v)
    }
}

fn read_response(s: &Vec<char>) -> (r: Option<Vec<Model>>)
    ensures
        match parse_response(s@) {
            Some(v) => r is Some && (r->0)@.map_values(|m: Model| m@) == v,
            None => r is None,
        },
{
    assert(s@.skip(0) =~= s@);
    let start = match expect(s, 0, '{') {
        Some(p) => p,
        None => return None,
    };
    let mut acc: Option<Vec<Model>> = None;
    let mut end: usize = start;
    match expect(s, start, '}') {
        Some(p) => {
            end = p;
        },
        None => {
            let mut i = start;
            loop
                invariant_except_break
                    json_object(s@, None, response_step_fn()) == members(s@.skip(i as int), opt_models_view(acc), response_step_fn()),
                invariant
                    0 < start <= i <= s@.len(),
                    s@.skip(0) == s@,
                ensures
                    0 < end <= s@.len(),
                    json_object(s@, None, response_step_fn()) == Some((opt_models_view(acc), s@.skip(end as int))),
                decreases s@.len() - i,
            {
                let (k, kp) = match read_string(s, i) {
                    Some(kk) => kk,
                    None => return None,
                };
                let v = match expect(s, kp, ':') {
                    Some(v) => v,
                    None => return None,
                };
                let key = to_chars(k.as_str());
                let p = match read_response_member(s, v, &key, &mut acc) {
                    Some(p) => p,
                    None => return None,
                };
                match expect(s, p, ',') {
                    Some(q) => {
                        if q <= i {
                            return None;
                        }
                        i = q;
                    },
                    None => match expect(s, p, '}') {
                        Some(q) => {
                            end = q;
                            break;
                        },
                        None => return None,
                    },
                }
            }
        },
    }
    let e = skip_ws(s, end);
    if e < s.len() {
        return None;
    }
    assert(s@.skip(e as int).len() == 0);
    acc
}

/// Whether the characters are one JSON object, alone but for whitespace.
fn check_json_object(s: &Vec<char>) -> (r: bool)
    ensures
        r == is_json_object(s@),
{
    assert(s@.skip(0) =~= s@);
    let i = skip_ws(s, 0);
    if i >= s.len() || s[i] != '{' {
        return false;
    }
    proof { crate::scan::lemma_skip_step(s@, i as int); }
    match skip_value_at(s, 0) {
        Some(p) => skip_ws(s, p) == s.len(),
        None => false,
    }
}

impl ListModelsResponse {
    /// Reads a response from JSON text. Text that is not a JSON object is
    /// `MalformedJson`; an object that does not describe a response is
    /// `SchemaMismatch`.
    pub fn from_json(text: &str) -> (r: Result<ListModelsResponse, DecodeError>)
        ensures
            match parse_response(text@) {
                Some(v) => r is Ok && (r->Ok_0)@ == v,
                None => r == Err::<ListModelsResponse, DecodeError>(
                    if is_json_object(text@) {
                        DecodeError::SchemaMismatch
                    } else {
                        DecodeError::MalformedJson
                    },
                ),
            },
    {
        let cs = to_chars(text);
        match read_response(&cs) {
            Some(data) => Ok(ListModelsResponse { data }),
            None => if check_json_object(&cs) {
                Err(DecodeError::SchemaMismatch)
            } else {
                Err(DecodeError::MalformedJson)
            },
        }
    }
}

} // verus!
