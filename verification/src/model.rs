//! Texture data and material metadata shared by loaders and the renderer.

use vstd::prelude::*;

verus! {

/// Reference to a texture image on disk or inside a loaded mesh.
#[derive(Debug, Clone, PartialEq, Eq)]
pub struct TextureRef {
    /// Source path as resolved by the loader.
    pub path: String,
    /// Loaded texture index inside the mesh's texture list, when available.
    pub index: Option<usize>,
}

impl TextureRef {
    /// Create a texture reference with no loaded index.
    pub fn new(path: String) -> (r: Self)
        ensures
            r.path == path,
            r.index is None,
    {
        TextureRef { path, index: None }
    }
}

/// Sum of channel `c` over the first `n` whole RGBA pixels.
pub open spec fn channel_sum(rgba: Seq<u8>, c: int, n: nat) -> int
    decreases n,
{
    if n == 0 {
        0
    } else {
        channel_sum(rgba, c, (n - 1) as nat) + rgba[4 * (n - 1) + c] as int
    }
}

/// Number of whole RGBA pixels in a buffer; a trailing partial pixel is ignored.
pub open spec fn pixel_count(rgba: Seq<u8>) -> nat {
    rgba.len() / 4
}

/// Average RGB color of the whole pixels, or white when there is none.
pub open spec fn average_rgb(rgba: Seq<u8>) -> Seq<u8> {
    let n = pixel_count(rgba);
    if n == 0 {
        seq![255u8, 255u8, 255u8]
    } else {
        seq![
            (channel_sum(rgba, 0, n) / n as int) as u8,
            (channel_sum(rgba, 1, n) / n as int) as u8,
            (channel_sum(rgba, 2, n) / n as int) as u8,
        ]
    }
}

proof fn lemma_channel_sum_bound(rgba: Seq<u8>, c: int, n: nat)
    requires
        0 <= c < 4,
        4 * n <= rgba.len(),
    ensures
        0 <= channel_sum(rgba, c, n) <= 255 * n,
    decreases n,
{
    if n > 0 {
        lemma_channel_sum_bound(rgba, c, (n - 1) as nat);
    }
}

proof fn lemma_average_fits(sum: int, n: int)
    requires
        n > 0,
        0 <= sum <= 255 * n,
    ensures
        0 <= sum / n <= 255,
{
    assert(0 <= sum / n <= 255) by (nonlinear_arith)
        requires
            n > 0,
            0 <= sum <= 255 * n,
    ;
}

/// Average RGB color of the whole RGBA pixels, white for an empty buffer.
pub fn average_rgba_color(rgba: &Vec<u8>) -> (avg: [u8; 3])
    ensures
        avg@ == average_rgb(rgba@),
{
    let count = rgba.len() / 4;
    let mut total: [u128; 3] = [0, 0, 0];
    let mut i: usize = 0;
    while i < count
        invariant
            i <= count,
            count == rgba.len() / 4,
            total[0] == channel_sum(rgba@, 0, i as nat),
            total[1] == channel_sum(rgba@, 1, i as nat),
            total[2] == channel_sum(rgba@, 2, i as nat),
            total[0] <= 255 * i,
            total[1] <= 255 * i,
            total[2] <= 255 * i,
        decreases count - i,
    {
        let base = 4 * i;
        total[0] = total[0] + rgba[base] as u128;
        total[1] = total[1] + rgba[base + 1] as u128;
        total[2] = total[2] + rgba[base + 2] as u128;
        i += 1;
    }
    if count == 0 {
        assert([255u8, 255u8, 255u8]@ =~= seq![255u8, 255u8, 255u8]);
        return [255, 255, 255];
    }
    let n = count as u128;
    proof {
        lemma_channel_sum_bound(rgba@, 0, count as nat);
        lemma_channel_sum_bound(rgba@, 1, count as nat);
        lemma_channel_sum_bound(rgba@, 2, count as nat);
        lemma_average_fits(total[0] as int, count as int);
        lemma_average_fits(total[1] as int, count as int);
        lemma_average_fits(total[2] as int, count as int);
    }
    let avg = [(total[0] / n) as u8, (total[1] / n) as u8, (total[2] / n) as u8];
    assert(avg@ =~= average_rgb(rgba@));
    avg
}

/// Smallest alpha of a texel that still counts as opaque.
pub const MIN_OPAQUE_ALPHA: u8 = 16;

/// Every whole RGBA pixel of `rgba` has an alpha of at least
/// [`MIN_OPAQUE_ALPHA`]; trailing bytes that make no whole pixel are ignored.
pub open spec fn rgba_opaque(rgba: Seq<u8>) -> bool {
    forall|k: int| 0 <= k < rgba.len() / 4 ==> #[trigger] rgba[4 * k + 3] >= MIN_OPAQUE_ALPHA
}

/// Loaded RGBA texture image.
#[derive(Debug, Clone, PartialEq)]
pub struct Texture {
    /// Source path.
    pub path: String,
    /// Image width in pixels.
    pub width: u32,
    /// Image height in pixels.
    pub height: u32,
    /// Average RGB color, precomputed for wireframe/points texture fallback.
    pub average_color: [u8; 3],
    /// Packed RGBA8 pixels in row-major order.
    pub rgba: Vec<u8>,
}

impl Texture {
    /// Create a loaded texture from RGBA8 pixels.
    pub fn new(path: String, width: u32, height: u32, rgba: Vec<u8>) -> (t: Self)
        ensures
            t.path == path,
            t.width == width,
            t.height == height,
            t.rgba == rgba,
            t.average_color@ == average_rgb(rgba@),
    {
        let average_color = average_rgba_color(&rgba);
        Texture { path, width, height, average_color, rgba }
    }

    /// Whether every pixel is opaque enough to draw without blending.
    pub fn is_opaque(&self) -> (b: bool)
        ensures
            b <==> rgba_opaque(self.rgba@),
    {
        let len = self.rgba.len();
        let n = len / 4;
        let mut k: usize = 0;
        while k < n
            invariant
                len == self.rgba@.len(),
                n == len / 4,
                k <= n,
                forall|j: int| 0 <= j < k ==> #[trigger] self.rgba@[4 * j + 3] >= MIN_OPAQUE_ALPHA,
            decreases n - k,
        {
            assert(4 * k + 3 < len) by (nonlinear_arith)
                requires
                    k < n,
                    n == len / 4,
            ;
            if self.rgba[4 * k + 3] < MIN_OPAQUE_ALPHA {
                return false;
            }
            k += 1;
        }
        true
    }

    /// Return the precomputed average RGB color for fast non-solid texture coloring.
    pub fn average_color(&self) -> (c: [u8; 3])
        ensures
            c == self.average_color,
    {
        self.average_color
    }
}

/// How a material's alpha channel is interpreted, mirroring glTF `alphaMode`.
#[derive(Debug, Clone, Copy, PartialEq, Eq)]
pub enum AlphaMode {
    /// Alpha is ignored; the surface is fully opaque.
    Opaque,
    /// Alpha acts as a hard cutout against the material's cutoff.
    Mask,
    /// Alpha blends the surface over what is behind it.
    Blend,
}

impl Default for AlphaMode {
    fn default() -> (m: Self)
        ensures
            m == AlphaMode::Opaque,
    {
        AlphaMode::Opaque
    }
}

} // verus!
