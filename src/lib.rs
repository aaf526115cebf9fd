//! Verified core of an offline ray tracer: pixels and image buffers, sub-pixel
//! sampling, light-sampling policy, and the decisions of the recursive shading
//! algorithm.
pub mod configuration;
pub mod json_light;
pub mod light;
pub mod ray_tracing;
pub mod render;
pub mod rgb;
pub mod rgb_image;
pub mod sampling;
pub mod texture;

pub use configuration::{Configuration, Error};
pub use json_light::JsonLightSamplingType;
pub use light::{LightSampling, UniformSample};
pub use ray_tracing::{ObjectHandle, RayTracing, SampleOutcome};
pub use render::{pixel_ranges, PixelRange};
pub use rgb::Rgb;
pub use rgb_image::{pixel_position, RgbImage};
pub use sampling::{PixelOffset, SubPixelSampling};
pub use texture::is_first_tile;
