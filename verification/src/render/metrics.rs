//! Counters and timings collected while rendering a mesh.

use vstd::prelude::*;
use std::time::Duration;

verus! {

/// `Duration::default()`, the zero duration. Durations are opaque to the
/// proofs, so nothing is stated of it; callers that need several zero
/// durations copy one result.
#[verifier::external_body]
fn zero_duration() -> Duration {
    Duration::default()
}

/// `Clone` of `Duration`, a `Copy` type: the clone is the same duration.
pub assume_specification[ <Duration as Clone>::clone ](d: &Duration) -> (r: Duration)
    ensures
        r == *d,
;

/// Detailed measurements collected while rendering.
///
/// Timings cover mutually exclusive top-level phases. Counters describe how
/// much work reached each part of the software rasterizer, which makes it
/// possible to distinguish expensive geometry from overdraw, depth rejection,
/// shading, and buffer writes.
#[derive(Debug, Clone)]
pub struct RenderProfile {
    pub total: Duration,
    pub animation: Duration,
    pub projection: Duration,
    pub depth_buffer: Duration,
    pub face_rendering: Duration,
    pub faces_considered: u64,
    pub blend_faces: u64,
    pub triangles_considered: u64,
    pub triangles_culled: u64,
    pub triangles_degenerate_or_offscreen: u64,
    pub raster_bbox_cells: u64,
    pub raster_visited_cells: u64,
    pub raster_inside_cells: u64,
    pub depth_rejected_cells: u64,
    pub shade_calls: u64,
    pub shade_discarded_cells: u64,
    pub coplanar_rejected_cells: u64,
    pub cells_written: u64,
}

/// All counters of a profile, in declaration order.
pub open spec fn counters(p: RenderProfile) -> Seq<u64> {
    seq![
        p.faces_considered,
        p.blend_faces,
        p.triangles_considered,
        p.triangles_culled,
        p.triangles_degenerate_or_offscreen,
        p.raster_bbox_cells,
        p.raster_visited_cells,
        p.raster_inside_cells,
        p.depth_rejected_cells,
        p.shade_calls,
        p.shade_discarded_cells,
        p.coplanar_rejected_cells,
        p.cells_written,
    ]
}

impl Default for RenderProfile {
    fn default() -> (p: Self)
        ensures
            counters(p) == Seq::new(13, |i: int| 0u64),
            p.animation == p.total,
            p.projection == p.total,
            p.depth_buffer == p.total,
            p.face_rendering == p.total,
    {
        let zero = zero_duration();
        let p = RenderProfile {
            total: zero,
            animation: zero,
            projection: zero,
            depth_buffer: zero,
            face_rendering: zero,
            faces_considered: 0,
            blend_faces: 0,
            triangles_considered: 0,
            triangles_culled: 0,
            triangles_degenerate_or_offscreen: 0,
            raster_bbox_cells: 0,
            raster_visited_cells: 0,
            raster_inside_cells: 0,
            depth_rejected_cells: 0,
            shade_calls: 0,
            shade_discarded_cells: 0,
            coplanar_rejected_cells: 0,
            cells_written: 0,
        };
        assert(counters(p) =~= Seq::new(13, |i: int| 0u64));
        p
    }
}

impl RenderProfile {
    /// A face was considered for drawing.
    pub fn face(&mut self)
        requires
            old(self).faces_considered < u64::MAX,
        ensures
            *final(self) == (RenderProfile { faces_considered: (old(self).faces_considered + 1) as u64, ..*old(self) }),
    {
        self.faces_considered = self.faces_considered + 1;
    }

    /// A face was deferred to the blended pass.
    pub fn blend_face(&mut self)
        requires
            old(self).blend_faces < u64::MAX,
        ensures
            *final(self) == (RenderProfile { blend_faces: (old(self).blend_faces + 1) as u64, ..*old(self) }),
    {
        self.blend_faces = self.blend_faces + 1;
    }

    /// A triangle was considered for rasterization.
    pub fn triangle(&mut self)
        requires
            old(self).triangles_considered < u64::MAX,
        ensures
            *final(self) == (RenderProfile { triangles_considered: (old(self).triangles_considered + 1) as u64, ..*old(self) }),
    {
        self.triangles_considered = self.triangles_considered + 1;
    }

    /// A triangle was dropped by back-face culling.
    pub fn culled_triangle(&mut self)
        requires
            old(self).triangles_culled < u64::MAX,
        ensures
            *final(self) == (RenderProfile { triangles_culled: (old(self).triangles_culled + 1) as u64, ..*old(self) }),
    {
        self.triangles_culled = self.triangles_culled + 1;
    }

    /// A triangle was degenerate or off screen.
    pub fn skipped_triangle(&mut self)
        requires
            old(self).triangles_degenerate_or_offscreen < u64::MAX,
        ensures
            *final(self) == (RenderProfile { triangles_degenerate_or_offscreen: (old(self).triangles_degenerate_or_offscreen + 1) as u64, ..*old(self) }),
    {
        self.triangles_degenerate_or_offscreen = self.triangles_degenerate_or_offscreen + 1;
    }

    /// A visited cell lay inside its triangle.
    pub fn raster_inside(&mut self)
        requires
            old(self).raster_inside_cells < u64::MAX,
        ensures
            *final(self) == (RenderProfile { raster_inside_cells: (old(self).raster_inside_cells + 1) as u64, ..*old(self) }),
    {
        self.raster_inside_cells = self.raster_inside_cells + 1;
    }

    /// A cell lost the depth test.
    pub fn depth_rejected(&mut self)
        requires
            old(self).depth_rejected_cells < u64::MAX,
        ensures
            *final(self) == (RenderProfile { depth_rejected_cells: (old(self).depth_rejected_cells + 1) as u64, ..*old(self) }),
    {
        self.depth_rejected_cells = self.depth_rejected_cells + 1;
    }

    /// A cell was shaded.
    pub fn shade_call(&mut self)
        requires
            old(self).shade_calls < u64::MAX,
        ensures
            *final(self) == (RenderProfile { shade_calls: (old(self).shade_calls + 1) as u64, ..*old(self) }),
    {
        self.shade_calls = self.shade_calls + 1;
    }

    /// A shaded cell was discarded.
    pub fn shade_discarded(&mut self)
        requires
            old(self).shade_discarded_cells < u64::MAX,
        ensures
            *final(self) == (RenderProfile { shade_discarded_cells: (old(self).shade_discarded_cells + 1) as u64, ..*old(self) }),
    {
        self.shade_discarded_cells = self.shade_discarded_cells + 1;
    }

    /// A nearly coplanar fragment kept the existing cell.
    pub fn coplanar_rejected(&mut self)
        requires
            old(self).coplanar_rejected_cells < u64::MAX,
        ensures
            *final(self) == (RenderProfile { coplanar_rejected_cells: (old(self).coplanar_rejected_cells + 1) as u64, ..*old(self) }),
    {
        self.coplanar_rejected_cells = self.coplanar_rejected_cells + 1;
    }

    /// A cell was written to the buffer.
    pub fn cell_written(&mut self)
        requires
            old(self).cells_written < u64::MAX,
        ensures
            *final(self) == (RenderProfile { cells_written: (old(self).cells_written + 1) as u64, ..*old(self) }),
    {
        self.cells_written = self.cells_written + 1;
    }

    /// Cells in a triangle's bounding box.
    pub fn raster_bbox(&mut self, cells: u64)
        requires
            old(self).raster_bbox_cells + cells <= u64::MAX,
        ensures
            *final(self) == (RenderProfile { raster_bbox_cells: (old(self).raster_bbox_cells + cells) as u64, ..*old(self) }),
    {
        self.raster_bbox_cells = self.raster_bbox_cells + cells;
    }

    /// Cells visited while rasterizing a triangle.
    pub fn raster_visited(&mut self, cells: u64)
        requires
            old(self).raster_visited_cells + cells <= u64::MAX,
        ensures
            *final(self) == (RenderProfile { raster_visited_cells: (old(self).raster_visited_cells + cells) as u64, ..*old(self) }),
    {
        self.raster_visited_cells = self.raster_visited_cells + cells;
    }

}

} // verus!
