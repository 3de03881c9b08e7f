//! In-memory cache of rendered animation frames.
//!
//! A cached frame is an exact sparse patch of terminal cells (glyph and
//! foreground color at an offset in the viewport), not an image, so replaying
//! it reproduces the cells that were painted when it was stored. The cache is
//! keyed by a render signature and a frame count: a different key drops every
//! cached frame. Its logical size never exceeds the configured ceiling; when
//! one animation loop does not fit, caching is suspended until the key changes.

use std::collections::HashMap;
use vstd::prelude::*;

verus! {

broadcast use vstd::std_specs::hash::group_hash_axioms;

/// Logical bytes of one frame slot.
pub const FRAME_SLOT_BYTES: usize = 24;

/// Logical bytes of one cached cell.
pub const CELL_BYTES: usize = 8;

/// Logical bytes of one palette entry.
pub const PAINT_BYTES: usize = 8;

/// Logical bytes of one entry of the palette's lookup index.
pub const INDEX_ENTRY_BYTES: usize = 4;

/// Default memory ceiling: 256 MiB.
pub const DEFAULT_MAX_BYTES: usize = 268435456;

/// Settings for an in-memory cache of rendered animation frames.
#[derive(Debug, Clone, Copy, PartialEq, Eq)]
pub struct FrameCacheConfig {
    frames_per_second: u16,
    max_bytes: usize,
}

impl View for FrameCacheConfig {
    /// Sampling rate and memory ceiling.
    type V = (u16, usize);

    closed spec fn view(&self) -> (u16, usize) {
        (self.frames_per_second, self.max_bytes)
    }
}

impl FrameCacheConfig {
    /// Configure a memory cache sampled at `frames_per_second`, with the default
    /// 256 MiB ceiling. A zero frame rate is clamped to one.
    pub fn memory(frames_per_second: u16) -> (c: Self)
        ensures
            c@.0 == (if frames_per_second == 0 {
                1
            } else {
                frames_per_second
            }),
            c@.1 == DEFAULT_MAX_BYTES,
    {
        FrameCacheConfig {
            frames_per_second: if frames_per_second == 0 {
                1
            } else {
                frames_per_second
            },
            max_bytes: DEFAULT_MAX_BYTES,
        }
    }

    /// Set the maximum logical cache size.
    pub fn max_bytes(self, max_bytes: usize) -> (c: Self)
        ensures
            c@ == (self@.0, max_bytes),
    {
        FrameCacheConfig { frames_per_second: self.frames_per_second, max_bytes }
    }

    /// Return the configured animation sampling rate.
    pub fn frames_per_second(self) -> (f: u16)
        ensures
            f == self@.0,
    {
        self.frames_per_second
    }

    /// Return the configured logical memory ceiling.
    pub fn maximum_bytes(self) -> (m: usize)
        ensures
            m == self@.1,
    {
        self.max_bytes
    }
}

/// Runtime counters for a prepared mesh's optional animation-frame cache.
#[derive(Debug, Clone, Copy, PartialEq, Eq)]
pub struct FrameCacheStats {
    /// Frames restored from the cache.
    pub hits: u64,
    /// Frames rendered while populating the cache.
    pub misses: u64,
    /// Cache resets caused by viewport, state, or configuration changes.
    pub invalidations: u64,
    /// Number of cached animation frames.
    pub cached_frames: usize,
    /// Number of frame slots in one animation loop.
    pub total_frames: usize,
    /// Logical bytes retained by frame data and its cell palette.
    pub bytes: usize,
    /// Whether the most recent cache generation exceeded its memory ceiling.
    pub memory_limit_reached: bool,
}

impl Default for FrameCacheStats {
    fn default() -> (s: Self)
        ensures
            s == (FrameCacheStats {
                hits: 0,
                misses: 0,
                invalidations: 0,
                cached_frames: 0,
                total_frames: 0,
                bytes: 0,
                memory_limit_reached: false,
            }),
    {
        FrameCacheStats {
            hits: 0,
            misses: 0,
            invalidations: 0,
            cached_frames: 0,
            total_frames: 0,
            bytes: 0,
            memory_limit_reached: false,
        }
    }
}

/// A terminal foreground color.
#[derive(Debug, Clone, Copy, PartialEq, Eq, Structural)]
pub enum CellColor {
    Reset,
    Black,
    Red,
    Green,
    Yellow,
    Blue,
    Magenta,
    Cyan,
    Gray,
    DarkGray,
    LightRed,
    LightGreen,
    LightYellow,
    LightBlue,
    LightMagenta,
    LightCyan,
    White,
    Rgb(u8, u8, u8),
    Indexed(u8),
}

/// What a painted cell shows: a glyph and its foreground color.
#[derive(Debug, Clone, Copy, PartialEq, Eq, Structural)]
pub struct Paint {
    /// Glyph.
    pub ch: char,
    /// Foreground color.
    pub fg: CellColor,
}

/// A painted cell at a row-major offset inside the viewport.
#[derive(Debug, Clone, Copy, PartialEq, Eq, Structural)]
pub struct PaintedCell {
    /// Row-major cell offset in the viewport.
    pub offset: u32,
    /// What the cell shows.
    pub paint: Paint,
}

/// Number of a color's variant.
pub open spec fn color_tag(c: CellColor) -> int {
    match c {
        CellColor::Reset => 0,
        CellColor::Black => 1,
        CellColor::Red => 2,
        CellColor::Green => 3,
        CellColor::Yellow => 4,
        CellColor::Blue => 5,
        CellColor::Magenta => 6,
        CellColor::Cyan => 7,
        CellColor::Gray => 8,
        CellColor::DarkGray => 9,
        CellColor::LightRed => 10,
        CellColor::LightGreen => 11,
        CellColor::LightYellow => 12,
        CellColor::LightBlue => 13,
        CellColor::LightMagenta => 14,
        CellColor::LightCyan => 15,
        CellColor::White => 16,
        CellColor::Rgb(..) => 17,
        CellColor::Indexed(_) => 18,
    }
}

/// The values a color carries, packed below 2^24.
pub open spec fn color_payload(c: CellColor) -> int {
    match c {
        CellColor::Rgb(r, g, b) => r * 65536 + g * 256 + b,
        CellColor::Indexed(i) => i as int,
        _ => 0,
    }
}

/// A paint packed into one integer: the glyph above bit 32, the color's
/// variant above bit 24 and its values below.
pub open spec fn paint_key(p: Paint) -> int {
    (p.ch as int) * 4294967296 + color_tag(p.fg) * 16777216 + color_payload(p.fg)
}

/// Distinct paints have distinct keys.
proof fn lemma_paint_key_injective(a: Paint, b: Paint)
    requires
        paint_key(a) == paint_key(b),
    ensures
        a == b,
{
    let ta = color_tag(a.fg) * 16777216 + color_payload(a.fg);
    let tb = color_tag(b.fg) * 16777216 + color_payload(b.fg);
    assert(0 <= ta < 4294967296 && 0 <= tb < 4294967296);
    assert(a.ch as int == b.ch as int);
    assert(ta == tb);
    assert(color_tag(a.fg) == color_tag(b.fg));
    assert(color_payload(a.fg) == color_payload(b.fg));
}

/// The key of `p`, see [`paint_key`].
fn paint_key_of(p: Paint) -> (k: u64)
    ensures
        k == paint_key(p),
{
    let (tag, payload): (u64, u64) = match p.fg {
        CellColor::Reset => (0, 0),
        CellColor::Black => (1, 0),
        CellColor::Red => (2, 0),
        CellColor::Green => (3, 0),
        CellColor::Yellow => (4, 0),
        CellColor::Blue => (5, 0),
        CellColor::Magenta => (6, 0),
        CellColor::Cyan => (7, 0),
        CellColor::Gray => (8, 0),
        CellColor::DarkGray => (9, 0),
        CellColor::LightRed => (10, 0),
        CellColor::LightGreen => (11, 0),
        CellColor::LightYellow => (12, 0),
        CellColor::LightBlue => (13, 0),
        CellColor::LightMagenta => (14, 0),
        CellColor::LightCyan => (15, 0),
        CellColor::White => (16, 0),
        CellColor::Rgb(r, g, b) => (17, r as u64 * 65536 + g as u64 * 256 + b as u64),
        CellColor::Indexed(i) => (18, i as u64),
    };
    let ch: u32 = p.ch as u32;
    ch as u64 * 4294967296 + tag * 16777216 + payload
}

/// `index` finds every paint of `palette` by its key, and only those.
pub open spec fn index_ok(palette: Seq<Paint>, index: Map<u64, usize>) -> bool {
    &&& forall|k: u64|
        #[trigger] index.contains_key(k) ==> index[k] < palette.len() && paint_key(
            palette[index[k] as int],
        ) == k
    &&& forall|i: int|
        0 <= i < palette.len() ==> #[trigger] index.contains_key(paint_key(palette[i]) as u64)
}

#[derive(Debug)]
struct CachedCell {
    offset: u32,
    palette_index: usize,
}

#[derive(Debug)]
struct CachedFrame {
    cells: Vec<CachedCell>,
}

/// What the renderer must do for a frame.
#[derive(Debug)]
pub enum CacheStep {
    /// Paint these cached cells; nothing needs rendering.
    Replay(Vec<PaintedCell>),
    /// Render without caching: the cache is over its memory ceiling.
    RenderOnly,
    /// Render, then hand the painted cells to [`FrameCache::store`].
    RenderAndStore,
}

/// Abstract cache state.
#[verifier::ext_equal]
pub struct CacheModel {
    /// Memory ceiling.
    pub max_bytes: nat,
    /// Signature and frame count of the current generation.
    pub key: Option<(u64, usize)>,
    /// One slot per animation frame.
    pub frames: Seq<Option<Seq<PaintedCell>>>,
    /// Distinct paints of the cached frames.
    pub palette: Seq<Paint>,
    /// Palette entries held by the lookup index that speeds up storing: all
    /// of them while frames are being stored, none once every frame of the
    /// generation is cached.
    pub indexed: nat,
    /// Whether the current generation exceeded the memory ceiling.
    pub limited: bool,
    pub hits: u64,
    pub misses: u64,
    pub invalidations: u64,
}

/// Abstract step.
pub enum StepModel {
    Replay(Seq<PaintedCell>),
    RenderOnly,
    RenderAndStore,
}

pub open spec fn step_view(s: CacheStep) -> StepModel {
    match s {
        CacheStep::Replay(cells) => StepModel::Replay(cells@),
        CacheStep::RenderOnly => StepModel::RenderOnly,
        CacheStep::RenderAndStore => StepModel::RenderAndStore,
    }
}

/// Cells held by all cached frames.
pub open spec fn cells_total(fs: Seq<Option<Seq<PaintedCell>>>) -> nat
    decreases fs.len(),
{
    if fs.len() == 0 {
        0
    } else {
        cells_total(fs.drop_last()) + match fs.last() {
            Some(c) => c.len(),
            None => 0,
        }
    }
}

/// Number of cached frames.
pub open spec fn cached_count(fs: Seq<Option<Seq<PaintedCell>>>) -> nat
    decreases fs.len(),
{
    if fs.len() == 0 {
        0
    } else {
        cached_count(fs.drop_last()) + if fs.last() is Some {
            1nat
        } else {
            0nat
        }
    }
}

/// Logical size of the cache.
pub open spec fn cache_bytes(m: CacheModel) -> int {
    FRAME_SLOT_BYTES * m.frames.len() + CELL_BYTES * cells_total(m.frames) + PAINT_BYTES
        * m.palette.len() + INDEX_ENTRY_BYTES * m.indexed
}

/// Every frame slot holds a cached frame.
pub open spec fn all_cached(fs: Seq<Option<Seq<PaintedCell>>>) -> bool {
    forall|i: int| 0 <= i < fs.len() ==> #[trigger] fs[i] is Some
}

pub open spec fn empty_frames(n: nat) -> Seq<Option<Seq<PaintedCell>>> {
    Seq::new(n, |i: int| None)
}

/// The cache invariant: within its ceiling, empty while suspended, and one
/// slot per frame of its generation.
pub open spec fn model_wf(m: CacheModel) -> bool {
    &&& cache_bytes(m) <= m.max_bytes
    &&& m.limited ==> cells_total(m.frames) == 0 && m.palette.len() == 0
    &&& (m.key is Some && !m.limited) ==> m.frames.len() == (m.key->Some_0).1
    &&& m.key is None ==> m.frames.len() == 0 && !m.limited
    &&& m.indexed == m.palette.len() || (m.indexed == 0 && all_cached(m.frames))
}

/// The state after switching to the generation `(sig, fc)`.
pub open spec fn rekey(m: CacheModel, sig: u64, fc: usize) -> CacheModel {
    if m.key == Some((sig, fc)) {
        m
    } else {
        let too_big = FRAME_SLOT_BYTES * fc > m.max_bytes;
        CacheModel {
            key: Some((sig, fc)),
            frames: if too_big {
                seq![]
            } else {
                empty_frames(fc as nat)
            },
            palette: seq![],
            indexed: 0,
            limited: too_big,
            invalidations: if m.key is Some {
                (m.invalidations + 1) as u64
            } else {
                m.invalidations
            },
            ..m
        }
    }
}

/// The decision for frame `i` of the generation `(sig, fc)`: replay a cached
/// frame (a hit), or render (a miss), storing the result unless suspended.
pub open spec fn begin_spec(m: CacheModel, sig: u64, fc: usize, i: usize) -> (CacheModel, StepModel) {
    let r = rekey(m, sig, fc);
    if !r.limited && i < r.frames.len() && r.frames[i as int] is Some {
        (CacheModel { hits: (r.hits + 1) as u64, ..r }, StepModel::Replay(r.frames[i as int]->Some_0))
    } else if r.limited {
        (CacheModel { misses: (r.misses + 1) as u64, ..r }, StepModel::RenderOnly)
    } else {
        (CacheModel { misses: (r.misses + 1) as u64, ..r }, StepModel::RenderAndStore)
    }
}

pub open spec fn intern_one(pal: Seq<Paint>, p: Paint) -> Seq<Paint> {
    if pal.contains(p) {
        pal
    } else {
        pal.push(p)
    }
}

/// The palette after interning the paints of `cells` in order.
pub open spec fn intern_all(pal: Seq<Paint>, cells: Seq<PaintedCell>) -> Seq<Paint>
    decreases cells.len(),
{
    if cells.len() == 0 {
        pal
    } else {
        intern_one(intern_all(pal, cells.drop_last()), cells.last().paint)
    }
}

/// The state after storing `cells` as frame `i`: kept when the cache stays
/// within its ceiling, otherwise every frame is dropped and caching suspends.
/// Once every frame is cached the lookup index is dropped.
pub open spec fn store_spec(m: CacheModel, i: usize, cells: Seq<PaintedCell>) -> CacheModel {
    let palette = intern_all(m.palette, cells);
    let grown = CacheModel {
        frames: m.frames.update(i as int, Some(cells)),
        palette: palette,
        indexed: palette.len(),
        ..m
    };
    if cache_bytes(grown) > m.max_bytes {
        CacheModel {
            frames: empty_frames(m.frames.len()),
            palette: seq![],
            indexed: 0,
            limited: true,
            ..m
        }
    } else if all_cached(grown.frames) {
        CacheModel { indexed: 0, ..grown }
    } else {
        grown
    }
}

/// The state after an explicit reset.
pub open spec fn clear_spec(m: CacheModel) -> CacheModel {
    CacheModel {
        key: None,
        frames: seq![],
        palette: seq![],
        indexed: 0,
        limited: false,
        hits: 0,
        misses: 0,
        invalidations: 0,
        ..m
    }
}

pub open spec fn stats_spec(m: CacheModel) -> FrameCacheStats {
    FrameCacheStats {
        hits: m.hits,
        misses: m.misses,
        invalidations: m.invalidations,
        cached_frames: cached_count(m.frames) as usize,
        total_frames: m.frames.len() as usize,
        bytes: cache_bytes(m) as usize,
        memory_limit_reached: m.limited,
    }
}

spec fn resolve(cells: Seq<CachedCell>, palette: Seq<Paint>) -> Seq<PaintedCell> {
    Seq::new(
        cells.len(),
        |k: int| PaintedCell { offset: cells[k].offset, paint: palette[cells[k].palette_index as int] },
    )
}

spec fn frame_view(f: Option<CachedFrame>, palette: Seq<Paint>) -> Option<Seq<PaintedCell>> {
    match f {
        Some(fr) => Some(resolve(fr.cells@, palette)),
        None => None,
    }
}

spec fn indices_ok(f: Option<CachedFrame>, n: nat) -> bool {
    f matches Some(fr) ==> forall|k: int|
        0 <= k < fr.cells@.len() ==> (#[trigger] fr.cells@[k]).palette_index < n
}

proof fn lemma_cells_total_update(fs: Seq<Option<Seq<PaintedCell>>>, i: int, x: Option<Seq<PaintedCell>>)
    requires
        0 <= i < fs.len(),
    ensures
        cells_total(fs.update(i, x)) + match fs[i] {
            Some(c) => c.len(),
            None => 0,
        } == cells_total(fs) + match x {
            Some(c) => c.len(),
            None => 0,
        },
    decreases fs.len(),
{
    let u = fs.update(i, x);
    if i < fs.len() - 1 {
        assert(u.drop_last() =~= fs.drop_last().update(i, x));
        lemma_cells_total_update(fs.drop_last(), i, x);
    } else {
        assert(u.drop_last() =~= fs.drop_last());
    }
}

proof fn lemma_cached_count_bound(fs: Seq<Option<Seq<PaintedCell>>>)
    ensures
        cached_count(fs) <= fs.len(),
    decreases fs.len(),
{
    if fs.len() > 0 {
        lemma_cached_count_bound(fs.drop_last());
    }
}

proof fn lemma_empty_frames_total(n: nat)
    ensures
        cells_total(empty_frames(n)) == 0,
    decreases n,
{
    if n > 0 {
        assert(empty_frames(n).drop_last() =~= empty_frames((n - 1) as nat));
        lemma_empty_frames_total((n - 1) as nat);
    }
}

/// Every operation keeps the cache invariant; in particular the logical size
/// never exceeds the configured ceiling.
pub proof fn law_ceiling_kept(m: CacheModel, sig: u64, fc: usize, i: usize, cells: Seq<PaintedCell>)
    requires
        model_wf(m),
    ensures
        model_wf(begin_spec(m, sig, fc, i).0),
        cache_bytes(begin_spec(m, sig, fc, i).0) <= m.max_bytes,
        !m.limited && i < m.frames.len() ==> model_wf(store_spec(m, i, cells)),
        model_wf(clear_spec(m)),
{
    lemma_empty_frames_total(fc as nat);
    lemma_empty_frames_total(m.frames.len());
    assert(cells_total(Seq::<Option<Seq<PaintedCell>>>::empty()) == 0);
}

/// Replaying a stored frame gives back exactly the stored cells and counts a
/// hit, as long as the store kept the cache within its ceiling.
pub proof fn law_replay_returns_stored(
    m: CacheModel,
    sig: u64,
    fc: usize,
    i: usize,
    cells: Seq<PaintedCell>,
)
    requires
        model_wf(m),
        m.key == Some((sig, fc)),
        !m.limited,
        i < fc,
        !store_spec(m, i, cells).limited,
        m.hits < u64::MAX,
    ensures
        begin_spec(store_spec(m, i, cells), sig, fc, i).1 == StepModel::Replay(cells),
        begin_spec(store_spec(m, i, cells), sig, fc, i).0.hits == m.hits + 1,
{
}

/// A new render signature or frame count invalidates the previous generation:
/// the invalidation counter grows by one and nothing is replayed.
pub proof fn law_new_key_invalidates(m: CacheModel, sig: u64, fc: usize, i: usize)
    requires
        model_wf(m),
        m.key is Some,
        m.key != Some((sig, fc)),
        m.invalidations < u64::MAX,
    ensures
        begin_spec(m, sig, fc, i).0.invalidations == m.invalidations + 1,
        begin_spec(m, sig, fc, i).0.key == Some((sig, fc)),
        !(begin_spec(m, sig, fc, i).1 is Replay),
        cached_count(begin_spec(m, sig, fc, i).0.frames) == 0,
{
    lemma_empty_count(fc as nat);
    assert(cached_count(Seq::<Option<Seq<PaintedCell>>>::empty()) == 0);
}

/// Each frame counts exactly one hit or one miss.
pub proof fn law_one_hit_or_miss(m: CacheModel, sig: u64, fc: usize, i: usize)
    requires
        m.hits < u64::MAX,
        m.misses < u64::MAX,
    ensures
        begin_spec(m, sig, fc, i).0.hits + begin_spec(m, sig, fc, i).0.misses == m.hits + m.misses + 1,
        (begin_spec(m, sig, fc, i).1 is Replay) <==> begin_spec(m, sig, fc, i).0.hits == m.hits + 1,
{
}

/// Once a generation is over the ceiling, further frames of it are rendered
/// without caching until the key changes.
pub proof fn law_suspended_bypasses(m: CacheModel, sig: u64, fc: usize, i: usize)
    requires
        m.key == Some((sig, fc)),
        m.limited,
    ensures
        begin_spec(m, sig, fc, i).1 == StepModel::RenderOnly,
        begin_spec(m, sig, fc, i).0.limited,
{
}

/// Clearing drops every frame and resets every counter; the next frame after
/// a clear, whatever its key and index, is a miss that counts no
/// invalidation.
pub proof fn law_clear_resets(m: CacheModel, sig: u64, fc: usize, i: usize)
    ensures
        stats_spec(clear_spec(m)).hits == 0,
        stats_spec(clear_spec(m)).misses == 0,
        stats_spec(clear_spec(m)).invalidations == 0,
        stats_spec(clear_spec(m)).cached_frames == 0,
        stats_spec(clear_spec(m)).total_frames == 0,
        !stats_spec(clear_spec(m)).memory_limit_reached,
        begin_spec(clear_spec(m), sig, fc, i).0.hits == 0,
        begin_spec(clear_spec(m), sig, fc, i).0.misses == 1,
        begin_spec(clear_spec(m), sig, fc, i).0.invalidations == 0,
        !(begin_spec(clear_spec(m), sig, fc, i).1 is Replay),
{
    assert(cached_count(Seq::<Option<Seq<PaintedCell>>>::empty()) == 0);
}

proof fn lemma_empty_count(n: nat)
    ensures
        cached_count(empty_frames(n)) == 0,
    decreases n,
{
    if n > 0 {
        assert(empty_frames(n).drop_last() =~= empty_frames((n - 1) as nat));
        lemma_empty_count((n - 1) as nat);
    }
}

/// An in-memory cache of rendered animation frames for one prepared mesh.
#[derive(Debug)]
pub struct FrameCache {
    config: FrameCacheConfig,
    key: Option<(u64, usize)>,
    frames: Vec<Option<CachedFrame>>,
    palette: Vec<Paint>,
    palette_index: HashMap<u64, usize>,
    index_held: bool,
    cached_cells: usize,
    stats: FrameCacheStats,
}

impl FrameCache {
    /// The abstract state.
    pub closed spec fn model(&self) -> CacheModel {
        CacheModel {
            max_bytes: self.config.max_bytes as nat,
            key: self.key,
            frames: Seq::new(
                self.frames@.len(),
                |i: int| frame_view(self.frames@[i], self.palette@),
            ),
            palette: self.palette@,
            indexed: if self.index_held {
                self.palette@.len()
            } else {
                0
            },
            limited: self.stats.memory_limit_reached,
            hits: self.stats.hits,
            misses: self.stats.misses,
            invalidations: self.stats.invalidations,
        }
    }

    /// The cache invariant.
    pub closed spec fn wf(&self) -> bool {
        &&& model_wf(self.model())
        &&& forall|i: int|
            0 <= i < self.frames@.len() ==> indices_ok(#[trigger] self.frames@[i], self.palette@.len())
        &&& self.cached_cells == cells_total(self.model().frames)
        &&& self.index_held ==> index_ok(self.palette@, self.palette_index@)
        &&& !self.index_held ==> all_cached(self.model().frames)
    }

    /// A well-formed cache satisfies the abstract invariant.
    pub proof fn lemma_wf_model(&self)
        requires
            self.wf(),
        ensures
            model_wf(self.model()),
    {
    }

    /// The configuration this cache was created with.
    pub closed spec fn config(&self) -> FrameCacheConfig {
        self.config
    }

    /// An empty cache.
    pub fn new(config: FrameCacheConfig) -> (c: Self)
        ensures
            c.wf(),
            c.config() == config,
            c.model() == (CacheModel {
                max_bytes: config@.1 as nat,
                key: None,
                frames: seq![],
                palette: seq![],
                indexed: 0,
                limited: false,
                hits: 0,
                misses: 0,
                invalidations: 0,
            }),
    {
        let c = FrameCache {
            config,
            key: None,
            frames: Vec::new(),
            palette: Vec::new(),
            palette_index: HashMap::new(),
            index_held: true,
            cached_cells: 0,
            stats: FrameCacheStats::default(),
        };
        assert(c.model().frames =~= Seq::<Option<Seq<PaintedCell>>>::empty());
        c
    }

    /// Whether every counter can still be incremented.
    pub fn can_count(&self) -> (b: bool)
        ensures
            b == (self.model().hits < u64::MAX && self.model().misses < u64::MAX
                && self.model().invalidations < u64::MAX),
    {
        self.stats.hits < u64::MAX && self.stats.misses < u64::MAX && self.stats.invalidations
            < u64::MAX
    }

    /// Whether frame `frame_index` of the current generation can be stored:
    /// caching is not suspended and the generation has that frame slot, not
    /// yet filled.
    pub fn accepts_frame(&self, frame_index: usize) -> (b: bool)
        requires
            self.wf(),
        ensures
            b == (!self.model().limited && frame_index < self.model().frames.len()
                && self.model().frames[frame_index as int] is None),
    {
        !self.stats.memory_limit_reached && frame_index < self.frames.len()
            && self.frames[frame_index].is_none()
    }

    /// Counters, sizes and the suspension flag.
    pub fn stats(&self) -> (s: FrameCacheStats)
        requires
            self.wf(),
        ensures
            s == stats_spec(self.model()),
    {
        let ghost fs = self.model().frames;
        let mut count: usize = 0;
        let mut i: usize = 0;
        while i < self.frames.len()
            invariant
                i <= self.frames.len(),
                fs == self.model().frames,
                count == cached_count(fs.take(i as int)),
                count <= i,
            decreases self.frames.len() - i,
        {
            proof {
                assert(fs.take(i + 1).drop_last() =~= fs.take(i as int));
                assert(fs.take(i + 1).last() == fs[i as int]);
            }
            if self.frames[i].is_some() {
                count += 1;
            }
            i += 1;
        }
        proof {
            assert(fs.take(i as int) =~= fs);
        }
        let indexed: usize = if self.index_held {
            self.palette.len()
        } else {
            0
        };
        let bytes = FRAME_SLOT_BYTES as u128 * self.frames.len() as u128 + CELL_BYTES as u128
            * self.cached_cells as u128 + PAINT_BYTES as u128 * self.palette.len() as u128
            + INDEX_ENTRY_BYTES as u128 * indexed as u128;
        FrameCacheStats {
            hits: self.stats.hits,
            misses: self.stats.misses,
            invalidations: self.stats.invalidations,
            cached_frames: count,
            total_frames: self.frames.len(),
            bytes: bytes as usize,
            memory_limit_reached: self.stats.memory_limit_reached,
        }
    }

    /// Drop all retained frames and reset the counters.
    pub fn clear(&mut self)
        ensures
            final(self).wf(),
            final(self).config() == old(self).config(),
            final(self).model() == clear_spec(old(self).model()),
    {
        self.key = None;
        self.frames = Vec::new();
        self.palette = Vec::new();
        self.palette_index = HashMap::new();
        self.index_held = true;
        self.cached_cells = 0;
        self.stats = FrameCacheStats::default();
        proof {
            assert(self.model() =~= clear_spec(old(self).model()));
        }
    }

    /// Index of `paint` in the palette, appending it when absent.
    fn intern(&mut self, paint: Paint) -> (idx: usize)
        requires
            index_ok(old(self).palette@, old(self).palette_index@),
        ensures
            index_ok(final(self).palette@, final(self).palette_index@),
            final(self).palette@ == intern_one(old(self).palette@, paint),
            idx < final(self).palette@.len(),
            final(self).palette@[idx as int] == paint,
            final(self).config == old(self).config,
            final(self).key == old(self).key,
            final(self).frames == old(self).frames,
            final(self).cached_cells == old(self).cached_cells,
            final(self).stats == old(self).stats,
            final(self).index_held == old(self).index_held,
    {
        let key = paint_key_of(paint);
        match self.palette_index.get(&key) {
            Some(i) => {
                let i = *i;
                proof {
                    lemma_paint_key_injective(self.palette@[i as int], paint);
                    assert(self.palette@.contains(paint));
                }
                return i;
            },
            None => {},
        }
        proof {
            if self.palette@.contains(paint) {
                let i = self.palette@.index_of(paint);
                assert(self.palette_index@.contains_key(paint_key(self.palette@[i]) as u64));
            }
        }
        let ghost before = self.palette@;
        let idx = self.palette.len();
        self.palette.push(paint);
        self.palette_index.insert(key, idx);
        proof {
            assert forall|i: int| 0 <= i < self.palette@.len() implies #[trigger] self.palette_index@.contains_key(
                paint_key(self.palette@[i]) as u64,
            ) by {
                if i < before.len() {
                    assert(before[i] == self.palette@[i]);
                }
            }
        }
        idx
    }

    /// Decide what to do for frame `frame_index` of the generation identified
    /// by `signature` and `frame_count`, updating the counters. A new
    /// generation drops every cached frame.
    pub fn begin(&mut self, signature: u64, frame_count: usize, frame_index: usize) -> (step:
        CacheStep)
        requires
            old(self).wf(),
            frame_index < frame_count,
            old(self).model().hits < u64::MAX,
            old(self).model().misses < u64::MAX,
            old(self).model().invalidations < u64::MAX,
        ensures
            final(self).wf(),
            final(self).config() == old(self).config(),
            (final(self).model(), step_view(step)) == begin_spec(
                old(self).model(),
                signature,
                frame_count,
                frame_index,
            ),
    {
        let ghost m0 = self.model();
        let same = match self.key {
            Some((s, c)) => s == signature && c == frame_count,
            None => false,
        };
        if !same {
            if self.key.is_some() {
                self.stats.invalidations = self.stats.invalidations + 1;
            }
            self.key = Some((signature, frame_count));
            self.frames = Vec::new();
            self.palette = Vec::new();
            self.palette_index = HashMap::new();
            self.index_held = true;
            self.cached_cells = 0;
            self.stats.memory_limit_reached = false;
            let table: u128 = FRAME_SLOT_BYTES as u128 * frame_count as u128;
            if table > self.config.max_bytes as u128 {
                self.stats.memory_limit_reached = true;
            } else {
                let ghost st = self.stats;
                let mut k: usize = 0;
                while k < frame_count
                    invariant
                        k <= frame_count,
                        self.frames@.len() == k,
                        forall|j: int| 0 <= j < k ==> self.frames@[j] is None,
                        self.stats == st,
                        self.config == old(self).config,
                        self.key == Some((signature, frame_count)),
                        self.palette@.len() == 0,
                        self.palette_index@ == Map::<u64, usize>::empty(),
                        self.index_held,
                        self.cached_cells == 0,
                    decreases frame_count - k,
                {
                    self.frames.push(None);
                    k += 1;
                }
            }
            proof {
                let r = rekey(m0, signature, frame_count);
                lemma_empty_frames_total(frame_count as nat);
                assert(self.model() =~= r);
            }
        }
        let ghost r = self.model();
        proof {
            assert(r == rekey(m0, signature, frame_count));
        }
        if !self.stats.memory_limit_reached && frame_index < self.frames.len() {
            match &self.frames[frame_index] {
                Some(frame) => {
                    let mut cells: Vec<PaintedCell> = Vec::new();
                    let mut k: usize = 0;
                    proof {
                        assert(indices_ok(self.frames@[frame_index as int], self.palette@.len()));
                    }
                    while k < frame.cells.len()
                        invariant
                            k <= frame.cells.len(),
                            forall|j: int|
                                0 <= j < frame.cells@.len() ==> (#[trigger] frame.cells@[j]).palette_index
                                    < self.palette@.len(),
                            cells@ == resolve(frame.cells@, self.palette@).take(k as int),
                        decreases frame.cells.len() - k,
                    {
                        let c = &frame.cells[k];
                        let p = PaintedCell { offset: c.offset, paint: self.palette[c.palette_index] };
                        cells.push(p);
                        k += 1;
                        proof {
                            assert(cells@ =~= resolve(frame.cells@, self.palette@).take(k as int));
                        }
                    }
                    proof {
                        assert(resolve(frame.cells@, self.palette@).take(k as int) =~= resolve(
                            frame.cells@,
                            self.palette@,
                        ));
                    }
                    self.stats.hits = self.stats.hits + 1;
                    proof {
                        assert(self.model() =~= CacheModel { hits: (r.hits + 1) as u64, ..r });
                    }
                    return CacheStep::Replay(cells);
                },
                None => {},
            }
        }
        self.stats.misses = self.stats.misses + 1;
        proof {
            assert(self.model() =~= CacheModel { misses: (r.misses + 1) as u64, ..r });
        }
        if self.stats.memory_limit_reached {
            CacheStep::RenderOnly
        } else {
            CacheStep::RenderAndStore
        }
    }

    /// Store the cells painted for frame `frame_index`. When the cache would
    /// exceed its ceiling, every frame is dropped and caching suspends.
    pub fn store(&mut self, frame_index: usize, cells: Vec<PaintedCell>)
        requires
            old(self).wf(),
            !old(self).model().limited,
            frame_index < old(self).model().frames.len(),
            old(self).model().frames[frame_index as int] is None,
        ensures
            final(self).wf(),
            final(self).config() == old(self).config(),
            final(self).model() == store_spec(old(self).model(), frame_index, cells@),
    {
        let ghost m0 = self.model();
        let ghost pal0 = self.palette@;
        let mut cached: Vec<CachedCell> = Vec::new();
        let mut k: usize = 0;
        proof {
            assert(cells@.take(0) =~= Seq::<PaintedCell>::empty());
            // The slot is empty, so not every frame is cached and the index is held.
            if !self.index_held {
                assert(m0.frames[frame_index as int] is Some);
            }
        }
        while k < cells.len()
            invariant
                k <= cells.len(),
                self.config == old(self).config,
                self.key == old(self).key,
                self.frames == old(self).frames,
                self.cached_cells == old(self).cached_cells,
                self.stats == old(self).stats,
                self.palette@ == intern_all(pal0, cells@.take(k as int)),
                index_ok(self.palette@, self.palette_index@),
                self.index_held,
                pal0.len() <= self.palette@.len(),
                forall|j: int| 0 <= j < pal0.len() ==> self.palette@[j] == pal0[j],
                cached@.len() == k,
                forall|j: int|
                    0 <= j < k ==> (#[trigger] cached@[j]).palette_index < self.palette@.len()
                        && self.palette@[cached@[j].palette_index as int] == cells@[j].paint
                        && cached@[j].offset == cells@[j].offset,
            decreases cells.len() - k,
        {
            let ghost before = self.palette@;
            let idx = self.intern(cells[k].paint);
            cached.push(CachedCell { offset: cells[k].offset, palette_index: idx });
            proof {
                assert(cells@.take(k + 1).drop_last() =~= cells@.take(k as int));
                assert(cells@.take(k + 1).last() == cells@[k as int]);
                assert forall|j: int| 0 <= j < before.len() implies self.palette@[j] == before[j] by {
                    if !before.contains(cells@[k as int].paint) {
                        assert(self.palette@ == before.push(cells@[k as int].paint));
                    }
                }
            }
            k += 1;
        }
        proof {
            assert(cells@.take(k as int) =~= cells@);
        }
        let ghost pal1 = self.palette@;
        // The cached frames resolve as before: their indices point into the
        // unchanged prefix of the palette.
        proof {
            assert forall|i: int| 0 <= i < self.frames@.len() implies frame_view(
                #[trigger] self.frames@[i],
                pal1,
            ) == frame_view(self.frames@[i], pal0) by {
                assert(indices_ok(self.frames@[i], pal0.len()));
                if let Some(fr) = self.frames@[i] {
                    assert(resolve(fr.cells@, pal1) =~= resolve(fr.cells@, pal0));
                }
            }
            assert(resolve(cached@, pal1) =~= cells@);
        }
        let old_len: usize = match &self.frames[frame_index] {
            Some(f) => f.cells.len(),
            None => 0,
        };
        proof {
            let fs = m0.frames;
            lemma_cells_total_update(fs, frame_index as int, Some(cells@));
            assert(fs[frame_index as int] == frame_view(self.frames@[frame_index as int], pal0));
        }
        let total: u128 = self.cached_cells as u128 + cells.len() as u128 - old_len as u128;
        let bytes: u128 = FRAME_SLOT_BYTES as u128 * self.frames.len() as u128 + CELL_BYTES as u128
            * total + PAINT_BYTES as u128 * self.palette.len() as u128 + INDEX_ENTRY_BYTES as u128
            * self.palette.len() as u128;
        let ghost grown = CacheModel {
            frames: m0.frames.update(frame_index as int, Some(cells@)),
            palette: intern_all(m0.palette, cells@),
            indexed: intern_all(m0.palette, cells@).len(),
            ..m0
        };
        if bytes > self.config.max_bytes as u128 {
            let n = self.frames.len();
            let mut j: usize = 0;
            while j < n
                invariant
                    j <= n == self.frames@.len(),
                    forall|t: int| 0 <= t < j ==> self.frames@[t] is None,
                    self.stats == old(self).stats,
                    self.config == old(self).config,
                    self.key == old(self).key,
                decreases n - j,
            {
                self.frames.set(j, None);
                j += 1;
            }
            self.palette = Vec::new();
            self.palette_index = HashMap::new();
            self.index_held = true;
            self.cached_cells = 0;
            self.stats.memory_limit_reached = true;
            proof {
                lemma_empty_frames_total(n as nat);
                assert(self.model() =~= CacheModel {
                    frames: empty_frames(m0.frames.len()),
                    palette: seq![],
                    indexed: 0,
                    limited: true,
                    ..m0
                });
            }
        } else {
            self.frames.set(frame_index, Some(CachedFrame { cells: cached }));
            self.cached_cells = total as usize;
            proof {
                assert(self.model() =~= grown);
                assert forall|i: int| 0 <= i < self.frames@.len() implies indices_ok(
                    #[trigger] self.frames@[i],
                    self.palette@.len(),
                ) by {
                    if i != frame_index {
                        assert(indices_ok(old(self).frames@[i], pal0.len()));
                    }
                }
            }
            // After one complete loop the index only costs memory: drop it.
            let n = self.frames.len();
            let mut j: usize = 0;
            while j < n && self.frames[j].is_some()
                invariant
                    j <= n == self.frames@.len(),
                    forall|t: int| 0 <= t < j ==> #[trigger] self.frames@[t] is Some,
                decreases n - j,
            {
                j += 1;
            }
            if j == n {
                self.palette_index = HashMap::new();
                self.index_held = false;
                proof {
                    assert(all_cached(grown.frames)) by {
                        assert forall|t: int| 0 <= t < grown.frames.len() implies #[trigger] grown.frames[t] is Some by {
                            assert(self.frames@[t] is Some);
                            assert(grown.frames[t] == self.model().frames[t]);
                        }
                    }
                    assert(self.model() =~= CacheModel { indexed: 0, ..grown });
                }
            } else {
                proof {
                    assert(self.frames@[j as int] is None);
                    assert(self.model().frames[j as int] is None);
                }
            }
        }
    }
}

} // verus!
