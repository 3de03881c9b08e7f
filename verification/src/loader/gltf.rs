//! The integer side of glTF/GLB loading: pixel-format conversion of decoded
//! images, texture naming, node parents and implicit index lists.
//!
//! The document itself is read by the `gltf` crate; its decoded images are
//! handed to this module as [`ImageData`], its node hierarchy as the list of
//! each node's children.

use vstd::prelude::*;
use crate::error::Error;
use crate::loader::paths::{base_dir, dir_of, join_path, joined_to_dir_of};
use crate::loader::MeshLoadOptions;
use crate::loader::obj::FaceCorner;
use crate::model::{Texture, average_rgb};
use crate::text::{decimal, decimal_chars, string_of};

verus! {

/// Integer pixel layouts of decoded glTF images. Floating-point layouts are
/// quantized to the 8-bit layout with the same channels before they get here.
#[derive(Debug, Clone, Copy, PartialEq, Eq, Structural)]
pub enum PixelFormat {
    R8,
    R8G8,
    R8G8B8,
    R8G8B8A8,
    R16,
    R16G16,
    R16G16B16,
    R16G16B16A16,
}

/// A decoded glTF image.
#[derive(Debug, Clone)]
pub struct ImageData {
    /// Layout of `pixels`.
    pub format: PixelFormat,
    /// Width in pixels.
    pub width: u32,
    /// Height in pixels.
    pub height: u32,
    /// Packed pixel bytes, little-endian for 16-bit channels.
    pub pixels: Vec<u8>,
}

/// Bytes per pixel of a layout.
pub open spec fn bytes_per_pixel(f: PixelFormat) -> nat {
    match f {
        PixelFormat::R8 => 1,
        PixelFormat::R8G8 => 2,
        PixelFormat::R8G8B8 => 3,
        PixelFormat::R8G8B8A8 => 4,
        PixelFormat::R16 => 2,
        PixelFormat::R16G16 => 4,
        PixelFormat::R16G16B16 => 6,
        PixelFormat::R16G16B16A16 => 8,
    }
}

/// Where RGBA channel `c` of a pixel comes from: the byte at that offset in
/// the pixel (the high byte for 16-bit channels), or `None` for an opaque 255.
/// Gray layouts repeat their one channel in red, green and blue.
pub open spec fn channel_source(f: PixelFormat, c: int) -> Option<int> {
    match f {
        PixelFormat::R8 => if c < 3 { Some(0) } else { None },
        PixelFormat::R8G8 => if c < 3 { Some(0) } else { Some(1) },
        PixelFormat::R8G8B8 => if c < 3 { Some(c) } else { None },
        PixelFormat::R8G8B8A8 => Some(c),
        PixelFormat::R16 => if c < 3 { Some(1) } else { None },
        PixelFormat::R16G16 => if c < 3 { Some(1) } else { Some(3) },
        PixelFormat::R16G16B16 => if c < 3 { Some(2 * c + 1) } else { None },
        PixelFormat::R16G16B16A16 => Some(2 * c + 1),
    }
}

/// Byte `j` of the RGBA8 conversion of whole pixels.
pub open spec fn rgba_byte(f: PixelFormat, px: Seq<u8>, j: int) -> u8 {
    match channel_source(f, j % 4) {
        Some(o) => px[bytes_per_pixel(f) * (j / 4) + o],
        None => 255u8,
    }
}

/// The RGBA8 conversion of packed pixels. RGBA8 input is kept as it is; other
/// layouts convert every whole pixel and drop a trailing partial one.
pub open spec fn rgba_pixels(f: PixelFormat, px: Seq<u8>) -> Seq<u8> {
    if f == PixelFormat::R8G8B8A8 {
        px
    } else {
        Seq::new(4 * (px.len() / bytes_per_pixel(f)), |j: int| rgba_byte(f, px, j))
    }
}

/// Name given to an embedded glTF image: `gltf-image-` and its index.
pub open spec fn embedded_image_name(index: nat) -> Seq<char> {
    seq!['g', 'l', 't', 'f', '-', 'i', 'm', 'a', 'g', 'e', '-'] + decimal(index)
}

/// The texture made from a decoded image.
pub open spec fn image_texture(t: Texture, index: nat, image: ImageData) -> bool {
    &&& t.path@ == embedded_image_name(index)
    &&& t.width == image.width
    &&& t.height == image.height
    &&& t.rgba@ == rgba_pixels(image.format, image.pixels@)
    &&& t.average_color@ == average_rgb(t.rgba@)
}

/// The last node, in document order, that lists `child` among its children.
pub open spec fn parent_in(children: Seq<Seq<usize>>, child: int) -> Option<usize>
    decreases children.len(),
{
    if children.len() == 0 {
        None
    } else if children.last().contains(child as usize) {
        Some((children.len() - 1) as usize)
    } else {
        parent_in(children.drop_last(), child)
    }
}

/// The views of the children lists.
pub open spec fn children_view(children: Seq<Vec<usize>>) -> Seq<Seq<usize>> {
    Seq::new(children.len(), |i: int| children[i]@)
}

/// The top byte of a little-endian `u16`.
pub fn u16_to_u8(bytes: &[u8]) -> (b: u8)
    requires
        bytes@.len() >= 2,
    ensures
        b == bytes@[1],
{
    let value: u16 = bytes[0] as u16 + bytes[1] as u16 * 256;
    (value / 256) as u8
}

/// The RGBA8 pixel at byte offset `base` of packed pixels in layout `f`.
fn pixel_rgba(f: PixelFormat, px: &Vec<u8>, base: usize) -> (p: [u8; 4])
    requires
        base + bytes_per_pixel(f) <= px@.len(),
    ensures
        forall|c: int|
            0 <= c < 4 ==> p@[c] == match channel_source(f, c) {
                Some(o) => px@[base + o],
                None => 255u8,
            },
{
    let len = px.len();
    assert(base + bytes_per_pixel(f) <= len);
    match f {
        PixelFormat::R8 => {
            let v = px[base];
            [v, v, v, 255]
        },
        PixelFormat::R8G8 => [px[base], px[base], px[base], px[base + 1]],
        PixelFormat::R8G8B8 => [px[base], px[base + 1], px[base + 2], 255],
        PixelFormat::R8G8B8A8 => [px[base], px[base + 1], px[base + 2], px[base + 3]],
        PixelFormat::R16 => {
            let v = u16_to_u8(&px.as_slice()[base..base + 2]);
            [v, v, v, 255]
        },
        PixelFormat::R16G16 => {
            let r = u16_to_u8(&px.as_slice()[base..base + 2]);
            [r, r, r, u16_to_u8(&px.as_slice()[base + 2..base + 4])]
        },
        PixelFormat::R16G16B16 => [
            u16_to_u8(&px.as_slice()[base..base + 2]),
            u16_to_u8(&px.as_slice()[base + 2..base + 4]),
            u16_to_u8(&px.as_slice()[base + 4..base + 6]),
            255,
        ],
        PixelFormat::R16G16B16A16 => [
            u16_to_u8(&px.as_slice()[base..base + 2]),
            u16_to_u8(&px.as_slice()[base + 2..base + 4]),
            u16_to_u8(&px.as_slice()[base + 4..base + 6]),
            u16_to_u8(&px.as_slice()[base + 6..base + 8]),
        ],
    }
}

/// Convert a decoded image to packed RGBA8 pixels.
pub fn convert_image_rgba(image: &ImageData) -> (rgba: Vec<u8>)
    ensures
        rgba@ == rgba_pixels(image.format, image.pixels@),
{
    let f = image.format;
    let px = &image.pixels;
    if f == PixelFormat::R8G8B8A8 {
        return px.clone();
    }
    let bpp: usize = match f {
        PixelFormat::R8 => 1,
        PixelFormat::R8G8 => 2,
        PixelFormat::R8G8B8 => 3,
        PixelFormat::R8G8B8A8 => 4,
        PixelFormat::R16 => 2,
        PixelFormat::R16G16 => 4,
        PixelFormat::R16G16B16 => 6,
        PixelFormat::R16G16B16A16 => 8,
    };
    let len = px.len();
    let count = len / bpp;
    let ghost target = rgba_pixels(f, px@);
    let mut out: Vec<u8> = Vec::new();
    let mut k: usize = 0;
    while k < count
        invariant
            bpp == bytes_per_pixel(f),
            f != PixelFormat::R8G8B8A8,
            count == px@.len() / (bpp as nat),
            len == px@.len(),
            target == rgba_pixels(f, px@),
            k <= count,
            out@.len() == 4 * k,
            forall|j: int| 0 <= j < 4 * k ==> out@[j] == target[j],
        decreases count - k,
    {
        proof {
            assert((k + 1) * bpp <= count * bpp) by (nonlinear_arith)
                requires
                    k < count,
            ;
            assert(count * bpp <= len) by (nonlinear_arith)
                requires
                    count == len / bpp,
                    bpp > 0,
            ;
            assert(k * bpp + bpp == (k + 1) * bpp) by (nonlinear_arith);
        }
        let base = k * bpp;
        let p = pixel_rgba(f, px, base);
        out.push(p[0]);
        out.push(p[1]);
        out.push(p[2]);
        out.push(p[3]);
        proof {
            assert forall|j: int| 4 * k <= j < 4 * k + 4 implies out@[j] == target[j] by {
                assert(j / 4 == k && j % 4 == j - 4 * k);
                assert(bytes_per_pixel(f) * (j / 4) == base);
            }
        }
        k += 1;
    }
    proof {
        assert(out@ =~= target);
    }
    out
}

/// Parent of every node: the node that lists it as a child, the last such
/// node when several do. Children outside the node list are ignored.
pub fn collect_node_parents(children: &Vec<Vec<usize>>) -> (parents: Vec<Option<usize>>)
    ensures
        parents@.len() == children@.len(),
        forall|c: int|
            0 <= c < parents@.len() ==> parents@[c] == parent_in(children_view(children@), c),
{
    let n = children.len();
    let mut parents: Vec<Option<usize>> = Vec::new();
    let mut i: usize = 0;
    while i < n
        invariant
            i <= n == children@.len(),
            parents@.len() == i,
            forall|c: int| 0 <= c < i ==> parents@[c] is None,
        decreases n - i,
    {
        parents.push(None);
        i += 1;
    }
    let ghost cv = children_view(children@);
    let mut node: usize = 0;
    while node < n
        invariant
            node <= n == children@.len(),
            cv == children_view(children@),
            parents@.len() == n,
            forall|c: int|
                0 <= c < n ==> parents@[c] == parent_in(cv.take(node as int), c),
        decreases n - node,
    {
        let kids = &children[node];
        let ghost before = parents@;
        let mut j: usize = 0;
        while j < kids.len()
            invariant
                node < n == children@.len(),
                kids@ == cv[node as int],
                j <= kids@.len(),
                parents@.len() == n,
                forall|c: int|
                    0 <= c < n ==> parents@[c] == if kids@.take(j as int).contains(c as usize) {
                        Some(node)
                    } else {
                        before[c]
                    },
            decreases kids.len() - j,
        {
            let child = kids[j];
            if child < n {
                parents.set(child, Some(node));
            }
            proof {
                let t0 = kids@.take(j as int);
                let t1 = kids@.take(j + 1);
                assert(t1 =~= t0.push(child));
                assert forall|c: int| 0 <= c < n implies parents@[c] == if t1.contains(c as usize) {
                    Some(node)
                } else {
                    before[c]
                } by {
                    if t1.contains(c as usize) {
                        let w = choose|w: int| 0 <= w < t1.len() && #[trigger] t1[w] == c as usize;
                        if w < j {
                            assert(t0[w] == c as usize);
                        }
                    }
                    if t0.contains(c as usize) {
                        let w = choose|w: int| 0 <= w < t0.len() && #[trigger] t0[w] == c as usize;
                        assert(t1[w] == c as usize);
                    }
                    if c as usize == child {
                        assert(t1[j as int] == child);
                    }
                }
            }
            j += 1;
        }
        proof {
            assert(kids@.take(kids@.len() as int) =~= kids@);
            assert(cv.take(node + 1).drop_last() =~= cv.take(node as int));
            assert(cv.take(node + 1).last() == cv[node as int]);
        }
        node += 1;
    }
    proof {
        assert(cv.take(n as int) =~= cv);
    }
    parents
}

/// Implicit triangle indices for a primitive without an index buffer: every
/// position in order, as far as a `u32` reaches.
pub fn indices_for_positions(len: usize) -> (indices: Vec<u32>)
    ensures
        indices@.len() == if len <= 0x1_0000_0000 { len as int } else { 0x1_0000_0000 },
        forall|i: int| 0 <= i < indices@.len() ==> indices@[i] == i,
{
    let mut indices: Vec<u32> = Vec::new();
    let mut i: usize = 0;
    while i < len
        invariant
            i <= len,
            indices@.len() == if i <= 0x1_0000_0000 { i as int } else { 0x1_0000_0000 },
            forall|k: int| 0 <= k < indices@.len() ==> indices@[k] == k,
        decreases len - i,
    {
        if i <= 0xffff_ffff {
            indices.push(i as u32);
        }
        i += 1;
    }
    indices
}

/// Path of a glTF image: `uri` resolved against the directory of the document
/// for an external image, `gltf-image-{index}` for an embedded one.
pub fn image_path(path: &str, index: usize, uri: Option<&str>) -> (p: String)
    ensures
        match uri {
            Some(u) => joined_to_dir_of(path@, u@, p@),
            None => p@ == embedded_image_name(index as nat),
        },
{
    match uri {
        Some(u) => {
            let base = base_dir(path);
            let p = join_path(base.as_str(), u);
            assert(joined_to_dir_of(path@, u@, p@)) by {
                assert(dir_of(path@, base@));
            }
            p
        },
        None => {
            let mut name: Vec<char> = vec!['g', 'l', 't', 'f', '-', 'i', 'm', 'a', 'g', 'e', '-'];
            let mut digits = decimal_chars(index);
            name.append(&mut digits);
            string_of(name.as_slice())
        },
    }
}

/// The texture of an embedded glTF image.
pub fn gltf_image_to_texture(path: &str, index: usize, image: &ImageData) -> (t: Texture)
    ensures
        image_texture(t, index as nat, *image),
{
    Texture::new(image_path(path, index, None), image.width, image.height, convert_image_rgba(image))
}

/// The textures of a document's decoded images, in order. Every layout
/// converts, so this does not fail.
pub fn load_textures(path: &str, options: &MeshLoadOptions, images: &Vec<ImageData>) -> (r: Result<
    Vec<Texture>,
    Error,
>)
    ensures
        r matches Ok(ts) && ts@.len() == images@.len() && forall|i: int|
            0 <= i < ts@.len() ==> image_texture(#[trigger] ts@[i], i as nat, images@[i]),
{
    let mut textures: Vec<Texture> = Vec::new();
    let mut i: usize = 0;
    while i < images.len()
        invariant
            i <= images@.len(),
            textures@.len() == i,
            forall|k: int| 0 <= k < i ==> image_texture(#[trigger] textures@[k], k as nat, images@[k]),
        decreases images.len() - i,
    {
        let t = gltf_image_to_texture(path, i, &images[i]);
        textures.push(t);
        i += 1;
    }
    Ok(textures)
}

/// The triangles among the first `k` index triples of a primitive whose
/// three corners all name one of its `n` positions, in order.
pub open spec fn kept_triangles(ix: Seq<u32>, n: nat, k: nat) -> Seq<(usize, usize, usize)>
    decreases k,
{
    if k == 0 {
        seq![]
    } else {
        let prev = kept_triangles(ix, n, (k - 1) as nat);
        let a = ix[3 * (k - 1)];
        let b = ix[3 * (k - 1) + 1];
        let c = ix[3 * (k - 1) + 2];
        if a < n && b < n && c < n {
            prev.push((a as usize, b as usize, c as usize))
        } else {
            prev
        }
    }
}

/// The triangles of a primitive: its index list read three at a time (a
/// trailing partial triple is dropped), keeping the triples whose corners all
/// name one of the `vertex_count` positions of the primitive.
pub fn primitive_triangles(indices: &Vec<u32>, vertex_count: usize) -> (tris: Vec<(usize, usize, usize)>)
    ensures
        tris@ == kept_triangles(indices@, vertex_count as nat, indices@.len() / 3),
{
    let len = indices.len();
    let count = len / 3;
    let mut tris: Vec<(usize, usize, usize)> = Vec::new();
    let mut k: usize = 0;
    while k < count
        invariant
            k <= count,
            len == indices@.len(),
            count == len / 3,
            tris@ == kept_triangles(indices@, vertex_count as nat, k as nat),
        decreases count - k,
    {
        let a = indices[3 * k];
        let b = indices[3 * k + 1];
        let c = indices[3 * k + 2];
        if (a as usize) < vertex_count && (b as usize) < vertex_count && (c as usize) < vertex_count {
            tris.push((a as usize, b as usize, c as usize));
        }
        k += 1;
    }
    tris
}

/// The corner of a primitive's local index `idx` in the mesh's flattened
/// attribute lists: its position follows the `base_vertex` positions added
/// before the primitive, and its texture coordinate and normal follow theirs
/// when the primitive has one for that index.
pub open spec fn primitive_corner(
    idx: usize,
    base_vertex: usize,
    base_uv: usize,
    uv_count: usize,
    base_normal: usize,
    normal_count: usize,
) -> FaceCorner {
    FaceCorner {
        vertex: (base_vertex + idx) as usize,
        tex_coord: if idx < uv_count { Some((base_uv + idx) as usize) } else { None },
        normal: if idx < normal_count { Some((base_normal + idx) as usize) } else { None },
    }
}

/// The corners of a primitive triangle in the mesh's flattened attribute
/// lists, and the normal of the first corner that has one, which becomes the
/// face normal.
pub fn triangle_face_corners(
    local: (usize, usize, usize),
    base_vertex: usize,
    base_uv: usize,
    uv_count: usize,
    base_normal: usize,
    normal_count: usize,
) -> (r: (Vec<FaceCorner>, Option<usize>))
    requires
        base_vertex + local.0 <= usize::MAX,
        base_vertex + local.1 <= usize::MAX,
        base_vertex + local.2 <= usize::MAX,
        base_uv + uv_count <= usize::MAX,
        base_normal + normal_count <= usize::MAX,
    ensures
        r.0@ == seq![
            primitive_corner(local.0, base_vertex, base_uv, uv_count, base_normal, normal_count),
            primitive_corner(local.1, base_vertex, base_uv, uv_count, base_normal, normal_count),
            primitive_corner(local.2, base_vertex, base_uv, uv_count, base_normal, normal_count),
        ],
        r.1 == (if local.0 < normal_count {
            Some((base_normal + local.0) as usize)
        } else if local.1 < normal_count {
            Some((base_normal + local.1) as usize)
        } else if local.2 < normal_count {
            Some((base_normal + local.2) as usize)
        } else {
            None
        }),
{
    let mut corners: Vec<FaceCorner> = Vec::new();
    let mut normal: Option<usize> = None;
    let idxs = [local.0, local.1, local.2];
    let mut k: usize = 0;
    while k < 3
        invariant
            k <= 3,
            idxs@ == seq![local.0, local.1, local.2],
            base_vertex + local.0 <= usize::MAX,
            base_vertex + local.1 <= usize::MAX,
            base_vertex + local.2 <= usize::MAX,
            base_uv + uv_count <= usize::MAX,
            base_normal + normal_count <= usize::MAX,
            corners@.len() == k,
            forall|j: int|
                0 <= j < k ==> corners@[j] == primitive_corner(
                    idxs@[j],
                    base_vertex,
                    base_uv,
                    uv_count,
                    base_normal,
                    normal_count,
                ),
            normal == (if k > 0 && local.0 < normal_count {
                Some((base_normal + local.0) as usize)
            } else if k > 1 && local.1 < normal_count {
                Some((base_normal + local.1) as usize)
            } else if k > 2 && local.2 < normal_count {
                Some((base_normal + local.2) as usize)
            } else {
                None
            }),
        decreases 3 - k,
    {
        let idx = idxs[k];
        let tex_coord = if idx < uv_count {
            Some(base_uv + idx)
        } else {
            None
        };
        let corner_normal = if idx < normal_count {
            Some(base_normal + idx)
        } else {
            None
        };
        if normal.is_none() {
            normal = corner_normal;
        }
        corners.push(FaceCorner { vertex: base_vertex + idx, tex_coord, normal: corner_normal });
        k += 1;
    }
    assert(corners@ =~= seq![
        primitive_corner(local.0, base_vertex, base_uv, uv_count, base_normal, normal_count),
        primitive_corner(local.1, base_vertex, base_uv, uv_count, base_normal, normal_count),
        primitive_corner(local.2, base_vertex, base_uv, uv_count, base_normal, normal_count),
    ]);
    (corners, normal)
}

} // verus!
