//! Terminal 3D mesh viewer core: mesh file parsing (OBJ, MTL, STL and the
//! integer side of glTF), texture data, keyboard controls and the
//! animation-frame cache, with their contracts proved by Verus.

pub mod animation;
pub mod config;
pub mod controls;
pub mod error;
pub mod loader;
pub mod model;
pub mod render;
pub mod text;

pub use animation::{AnimatedProperty, Interpolation, MeshRange};
pub use config::{ColorMode, ProjectionMode, RenderMode, TextureFilter, TextureWrap};
pub use controls::ControlAction;
pub use error::Error;
pub use loader::MeshLoadOptions;
pub use model::{AlphaMode, Texture, TextureRef};
pub use render::{FrameCacheConfig, FrameCacheStats, RenderProfile};
