use crate::light::LightSampling;
use vstd::prelude::*;

verus! {

/// The sampling named for a spherical light in a scene description.
#[derive(Clone, Copy, Debug, PartialEq, Eq, Structural)]
pub enum JsonLightSamplingType {
    Random,
    Uniform,
}

/// Number of sample points of a spherical light when the description gives none.
pub const DEFAULT_SAMPLES: usize = 10;

/// The sampling of a spherical light when the description names none.
pub fn default_sampling() -> (r: JsonLightSamplingType)
    ensures
        r == JsonLightSamplingType::Random,
{
    JsonLightSamplingType::Random
}

/// The number of sample points of a spherical light when the description gives none.
pub fn default_samples() -> (r: usize)
    ensures
        r == DEFAULT_SAMPLES,
{
    DEFAULT_SAMPLES
}

/// Whether a light with this sampling keeps its sample points when the
/// description does not say.
pub fn default_cache_samples(sampling: &JsonLightSamplingType) -> (r: bool)
    ensures
        r == (*sampling == JsonLightSamplingType::Uniform),
{
    sampling.to_light_sampling().caches_by_default()
}

/// Whether a spherical light keeps its sample points: as the description
/// says, else by default for its sampling.
pub fn resolve_cache_samples(cache_samples: Option<bool>, sampling: &JsonLightSamplingType) -> (r:
    bool)
    ensures
        r == match cache_samples {
            Some(c) => c,
            None => *sampling == JsonLightSamplingType::Uniform,
        },
{
    match cache_samples {
        Some(c) => c,
        None => default_cache_samples(sampling),
    }
}

impl JsonLightSamplingType {
    pub fn to_light_sampling(&self) -> (r: LightSampling)
        ensures
            r == match *self {
                JsonLightSamplingType::Random => LightSampling::Random,
                JsonLightSamplingType::Uniform => LightSampling::Uniform,
            },
    {
        match self {
            JsonLightSamplingType::Random => LightSampling::Random,
            JsonLightSamplingType::Uniform => LightSampling::Uniform,
        }
    }
}

} // verus!
