//! Typed schema and JSON wire format for a provider-facing model catalog.
use vstd::prelude::*;

pub mod model;
pub mod wire;
pub mod text;
pub mod encode;
pub mod scan;
pub mod decode;
pub mod laws;

pub use decode::DecodeError;
pub use model::{
    Datacenter, Feature, InputModality, ListModelsResponse, Model, OpenRouterInfo, OutputModality,
    Pricing, Quantization, SamplingParameter,
};

verus! {

} // verus!
