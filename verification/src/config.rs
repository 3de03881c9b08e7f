//! Rendering modes chosen by the user.

use vstd::prelude::*;

verus! {

/// High-level rasterization mode.
#[derive(Debug, Clone, Copy, PartialEq, Eq, Hash, Structural)]
pub enum RenderMode {
    /// Filled triangles with depth buffering and lighting.
    Solid,
    /// Edges only.
    Wireframe,
    /// Vertices only.
    Points,
}

impl Default for RenderMode {
    fn default() -> (m: Self)
        ensures
            m == RenderMode::Solid,
    {
        RenderMode::Solid
    }
}

/// Projection model used by the camera.
#[derive(Debug, Clone, Copy, PartialEq, Eq, Hash, Structural)]
pub enum ProjectionMode {
    /// Perspective projection with configurable field of view.
    Perspective,
    /// Orthographic projection.
    Orthographic,
}

impl Default for ProjectionMode {
    fn default() -> (m: Self)
        ensures
            m == ProjectionMode::Perspective,
    {
        ProjectionMode::Perspective
    }
}

/// How the widget chooses terminal colors.
#[derive(Debug, Clone, Copy, PartialEq, Eq, Hash, Structural)]
pub enum ColorMode {
    /// Ignore model colors and render with the configured foreground style.
    Off,
    /// Use material diffuse colors when present, otherwise configured foreground.
    Material,
    /// Map lighting intensity to grayscale terminal colors.
    Lighting,
    /// Prefer sampled texture colors, falling back to material/foreground when unavailable.
    Texture,
    /// Prefer texture, then material, then lighting fallback.
    Auto,
}

impl Default for ColorMode {
    fn default() -> (m: Self)
        ensures
            m == ColorMode::Material,
    {
        ColorMode::Material
    }
}

/// Texture filtering mode.
#[derive(Debug, Clone, Copy, PartialEq, Eq, Hash, Structural)]
pub enum TextureFilter {
    /// Fast nearest-neighbor sampling.
    Nearest,
    /// Smooth bilinear sampling.
    Bilinear,
}

impl Default for TextureFilter {
    fn default() -> (f: Self)
        ensures
            f == TextureFilter::Nearest,
    {
        TextureFilter::Nearest
    }
}

/// Behavior for UVs outside the `[0, 1]` range.
#[derive(Debug, Clone, Copy, PartialEq, Eq, Hash, Structural)]
pub enum TextureWrap {
    /// Repeat the image.
    Repeat,
    /// Clamp to the image edge.
    Clamp,
}

impl Default for TextureWrap {
    fn default() -> (w: Self)
        ensures
            w == TextureWrap::Repeat,
    {
        TextureWrap::Repeat
    }
}

/// The glyph at `level` of a glyph ramp, clamped to its last glyph; `'#'`
/// for an empty ramp.
pub open spec fn ramp_glyph(ramp: Seq<char>, level: nat) -> char {
    if ramp.len() == 0 {
        '#'
    } else if level < ramp.len() {
        ramp[level as int]
    } else {
        ramp.last()
    }
}

/// The glyph at `level` of a glyph ramp ordered from darkest to brightest,
/// clamped to its brightest glyph; `'#'` for an empty ramp.
pub fn glyph_at_level(ramp: &Vec<char>, level: usize) -> (c: char)
    ensures
        c == ramp_glyph(ramp@, level as nat),
{
    if ramp.len() == 0 {
        '#'
    } else if level < ramp.len() {
        ramp[level]
    } else {
        ramp[ramp.len() - 1]
    }
}

} // verus!
