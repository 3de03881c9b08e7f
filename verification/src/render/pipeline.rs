//! Integer helpers of the rasterizing pipeline: polygon fans, texture
//! sampling by pixel, which color modes read textures, and which passes a
//! prepared mesh needs.

use vstd::prelude::*;
use crate::config::ColorMode;
use crate::model::{AlphaMode, Texture};

verus! {

/// The fan triangulation of a polygon with `len` corners: corner 0 with each
/// pair of consecutive later corners.
pub fn triangulate_corners(len: usize) -> (tris: Vec<[usize; 3]>)
    ensures
        tris@.len() == if len >= 2 { len - 2 } else { 0 },
        forall|k: int| 0 <= k < tris@.len() ==> tris@[k]@[0] == 0 && tris@[k]@[1] == k + 1 && tris@[k]@[2] == k + 2,
{
    let mut tris: Vec<[usize; 3]> = Vec::new();
    let end: usize = if len >= 1 { len - 1 } else { 0 };
    let mut i: usize = 1;
    while i < end
        invariant
            1 <= i,
            end == if len >= 1 { len - 1 } else { 0 },
            i <= end || (end == 0 && i == 1),
            tris@.len() == i - 1,
            forall|k: int| 0 <= k < tris@.len() ==> tris@[k]@[0] == 0 && tris@[k]@[1] == k + 1 && tris@[k]@[2] == k + 2,
        decreases end - i,
    {
        let t = [0, i, i + 1];
        tris.push(t);
        i += 1;
    }
    tris
}

/// Whether a color mode samples textures.
pub fn texture_enabled(color_mode: ColorMode) -> (b: bool)
    ensures
        b == (color_mode == ColorMode::Texture || color_mode == ColorMode::Auto),
{
    match color_mode {
        ColorMode::Texture | ColorMode::Auto => true,
        _ => false,
    }
}

/// The RGBA value of pixel `(x, y)`, or opaque white when it lies outside the
/// pixel data. Pixels are addressed by their row-major index alone.
pub open spec fn texel(rgba: Seq<u8>, width: u32, x: u32, y: u32) -> Seq<u8> {
    let index = (y as int * width as int + x as int) * 4;
    if index + 4 <= rgba.len() {
        rgba.subrange(index, index + 4)
    } else {
        seq![255u8, 255u8, 255u8, 255u8]
    }
}

/// The RGBA value of pixel `(x, y)` of a texture, or opaque white outside its
/// pixel data.
pub fn texture_pixel(texture: &Texture, x: u32, y: u32) -> (p: [u8; 4])
    ensures
        p@ == texel(texture.rgba@, texture.width, x, y),
{
    let yy = y as u128;
    let ww = texture.width as u128;
    assert(yy * ww <= 0xffff_ffffu128 * 0xffff_ffffu128) by (nonlinear_arith)
        requires
            yy <= 0xffff_ffff,
            ww <= 0xffff_ffff,
    ;
    let index: u128 = (yy * ww + x as u128) * 4;
    if index + 4 <= texture.rgba.len() as u128 {
        let i = index as usize;
        let p = [texture.rgba[i], texture.rgba[i + 1], texture.rgba[i + 2], texture.rgba[i + 3]];
        assert(p@ =~= texel(texture.rgba@, texture.width, x, y));
        p
    } else {
        let p = [255u8, 255, 255, 255];
        assert(p@ =~= texel(texture.rgba@, texture.width, x, y));
        p
    }
}

/// A face can be drawn in the deferred opaque pass: its alpha mode is opaque
/// and its diffuse texture, if it has a loaded one, is opaque. A texture
/// index with no texture behind it counts as opaque.
pub open spec fn face_deferrable(face: (AlphaMode, Option<usize>), opaque: Seq<bool>) -> bool {
    &&& face.0 == AlphaMode::Opaque
    &&& face.1 matches Some(i) ==> (i >= opaque.len() || opaque[i as int])
}

/// The passes a prepared mesh needs, from each face's alpha mode and loaded
/// diffuse texture index, the opacity of each texture and the number of
/// triangles: whether any face blends, and whether the whole mesh can use the
/// deferred opaque pass (no face blends, every face is deferrable, and the
/// triangles can be numbered in 32 bits).
pub fn render_passes(
    faces: &Vec<(AlphaMode, Option<usize>)>,
    texture_opaque: &Vec<bool>,
    triangle_count: usize,
) -> (r: (bool, bool))
    ensures
        r.0 <==> exists|i: int| 0 <= i < faces@.len() && #[trigger] faces@[i].0 == AlphaMode::Blend,
        r.1 <==> !r.0 && triangle_count <= u32::MAX && forall|i: int|
            0 <= i < faces@.len() ==> face_deferrable(#[trigger] faces@[i], texture_opaque@),
{
    let mut has_blend = false;
    let mut deferred = true;
    let mut k: usize = 0;
    while k < faces.len()
        invariant
            k <= faces@.len(),
            has_blend <==> exists|i: int| 0 <= i < k && #[trigger] faces@[i].0 == AlphaMode::Blend,
            deferred <==> forall|i: int| 0 <= i < k ==> face_deferrable(#[trigger] faces@[i], texture_opaque@),
        decreases faces@.len() - k,
    {
        let (mode, texture) = faces[k];
        let is_blend = match mode {
            AlphaMode::Blend => true,
            _ => false,
        };
        let texture_ok = match texture {
            Some(i) => i >= texture_opaque.len() || texture_opaque[i],
            None => true,
        };
        let is_opaque = match mode {
            AlphaMode::Opaque => true,
            _ => false,
        };
        proof {
            assert(is_blend <==> faces@[k as int].0 == AlphaMode::Blend);
            assert(is_opaque && texture_ok <==> face_deferrable(faces@[k as int], texture_opaque@));
        }
        has_blend = has_blend || is_blend;
        deferred = deferred && is_opaque && texture_ok;
        k += 1;
    }
    let passes = (has_blend, deferred && !has_blend && triangle_count <= 0xffff_ffff);
    passes
}

} // verus!
