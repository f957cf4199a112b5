use vstd::prelude::*;
use crate::picture::{Color, Picture, PictureView, line_steps};
use crate::scan_line::{Rgb, Vertex, faces_viewer, flat, gouraud, normal_z};

verus! {

impl PictureView {
    /// The picture after drawing the first `n` edges of an edge list, edge `i`
    /// running from point `2 i` to point `2 i + 1`.
    pub open spec fn with_edges(self, e: Seq<Vertex>, c: Color, n: nat) -> PictureView
        decreases n,
    {
        if n == 0 {
            self
        } else {
            let (a, b) = (e[2 * n - 2], e[2 * n - 1]);
            self.with_edges(e, c, (n - 1) as nat).with_line(
                a.x as int,
                a.y as int,
                a.z,
                b.x as int,
                b.y as int,
                b.z,
                c,
                (line_steps(a.x as int, a.y as int, b.x as int, b.y as int) + 1) as nat,
            )
        }
    }

    /// The picture after the first `n` triangles of a polygon list (triangle
    /// `i` made of points `3 i`, `3 i + 1`, `3 i + 2`), each filled flat in
    /// color `c` when it faces the viewer and skipped otherwise.
    pub open spec fn with_polygons(self, p: Seq<Vertex>, c: Color, n: nat) -> PictureView
        decreases n,
    {
        if n == 0 {
            self
        } else {
            let k = 3 * n - 3;
            let v = self.with_polygons(p, c, (n - 1) as nat);
            if normal_z(p[k], p[k + 1], p[k + 2]) > 0 {
                v.with_flat_triangle(p[k], p[k + 1], p[k + 2], c)
            } else {
                v
            }
        }
    }

    /// As `with_polygons`, with each visible triangle filled by interpolating
    /// the colors `q` given at its points.
    pub open spec fn with_shaded_polygons(self, p: Seq<Vertex>, q: Seq<Rgb>, n: nat) -> PictureView
        decreases n,
    {
        if n == 0 {
            self
        } else {
            let k = 3 * n - 3;
            let v = self.with_shaded_polygons(p, q, (n - 1) as nat);
            if normal_z(p[k], p[k + 1], p[k + 2]) > 0 {
                v.with_gouraud_triangle([p[k], p[k + 1], p[k + 2]], [q[k], q[k + 1], q[k + 2]])
            } else {
                v
            }
        }
    }
}

/// Draws each consecutive pair of points of `edges` as a line; a last point
/// without a partner is ignored.
pub fn render_edges(edges: &Vec<Vertex>, picture: &mut Picture, color: &Color)
    requires
        old(picture).wf(),
    ensures
        final(picture).wf(),
        final(picture)@ == old(picture)@.with_edges(edges@, *color, (edges@.len() / 2) as nat),
{
    let ghost start = picture@;
    let len = edges.len();
    let n = len / 2;
    let mut i: usize = 0;
    while i < n
        invariant
            picture.wf(),
            len == edges@.len(),
            n == len / 2,
            i <= n,
            picture@ == start.with_edges(edges@, *color, i as nat),
        decreases n - i,
    {
        let a = edges[2 * i];
        let b = edges[2 * i + 1];
        picture.draw_line(a.x as i64, a.y as i64, a.z, b.x as i64, b.y as i64, b.z, color);
        i = i + 1;
    }
}

/// Fills each consecutive triple of points of `polygons` that faces the
/// viewer with `color`; triangles facing away are culled, and one or two
/// trailing points are ignored.
pub fn render_polygons(polygons: &Vec<Vertex>, picture: &mut Picture, color: &Color)
    requires
        old(picture).wf(),
    ensures
        final(picture).wf(),
        final(picture)@ == old(picture)@.with_polygons(polygons@, *color, (polygons@.len() / 3) as nat),
{
    let ghost start = picture@;
    let len = polygons.len();
    let n = len / 3;
    let mut i: usize = 0;
    while i < n
        invariant
            picture.wf(),
            len == polygons@.len(),
            n == len / 3,
            i <= n,
            picture@ == start.with_polygons(polygons@, *color, i as nat),
        decreases n - i,
    {
        let tri = [polygons[3 * i], polygons[3 * i + 1], polygons[3 * i + 2]];
        if faces_viewer(&tri[0], &tri[1], &tri[2]) {
            flat(picture, &tri, color);
        }
        i = i + 1;
    }
}

/// Fills each consecutive triple of points of `polygons` that faces the
/// viewer, interpolating the colors that `colors` gives at each point.
pub fn render_shaded_polygons(polygons: &Vec<Vertex>, colors: &Vec<Rgb>, picture: &mut Picture)
    requires
        old(picture).wf(),
        colors@.len() == polygons@.len(),
    ensures
        final(picture).wf(),
        final(picture)@ == old(picture)@.with_shaded_polygons(polygons@, colors@, (polygons@.len() / 3) as nat),
{
    let ghost start = picture@;
    let len = polygons.len();
    let n = len / 3;
    let mut i: usize = 0;
    while i < n
        invariant
            picture.wf(),
            len == polygons@.len(),
            n == len / 3,
            colors@.len() == polygons@.len(),
            i <= n,
            picture@ == start.with_shaded_polygons(polygons@, colors@, i as nat),
        decreases n - i,
    {
        let tri = [polygons[3 * i], polygons[3 * i + 1], polygons[3 * i + 2]];
        let shades = [colors[3 * i], colors[3 * i + 1], colors[3 * i + 2]];
        if faces_viewer(&tri[0], &tri[1], &tri[2]) {
            gouraud(picture, &tri, &shades);
        }
        i = i + 1;
    }
}

} // verus!
