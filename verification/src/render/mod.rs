//! Rendering support: the animation-frame cache, profiling counters and the
//! integer helpers of the rasterizing pipeline.

pub mod frame_cache;
pub mod metrics;
pub mod pipeline;

pub use frame_cache::{FrameCacheConfig, FrameCacheStats};
pub use metrics::RenderProfile;
