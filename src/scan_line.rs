use vstd::prelude::*;
use crate::interpolate::{lerp, lemma_lerp_between, lerp_i64};
use crate::picture::{Color, Picture, PictureView, abs_diff, line_steps};

verus! {

/// A triangle corner in screen space: pixel coordinates and fixed-point depth.
#[derive(Clone, Copy, Debug, PartialEq, Eq, Structural)]
pub struct Vertex {
    pub x: i32,
    pub y: i32,
    pub z: i64,
}

/// A color with one byte per channel, as interpolated across a triangle.
pub type Rgb = (u8, u8, u8);

/// z component of the normal `(p1 - p0) x (p2 - p0)`.
pub open spec fn normal_z(p0: Vertex, p1: Vertex, p2: Vertex) -> int {
    (p1.x - p0.x) * (p2.y - p0.y) - (p1.y - p0.y) * (p2.x - p0.x)
}

/// Whether a triangle faces a viewer looking down from `<0, 0, 1>`.
pub fn faces_viewer(p0: &Vertex, p1: &Vertex, p2: &Vertex) -> (r: bool)
    ensures
        r == (normal_z(*p0, *p1, *p2) > 0),
{
    let ax = p1.x as i128 - p0.x as i128;
    let ay = p1.y as i128 - p0.y as i128;
    let bx = p2.x as i128 - p0.x as i128;
    let by = p2.y as i128 - p0.y as i128;
    assert(-0x1_0000_0000 * 0x1_0000_0000 <= ax * by <= 0x1_0000_0000 * 0x1_0000_0000) by (nonlinear_arith)
        requires -0x1_0000_0000 <= ax <= 0x1_0000_0000, -0x1_0000_0000 <= by <= 0x1_0000_0000;
    assert(-0x1_0000_0000 * 0x1_0000_0000 <= ay * bx <= 0x1_0000_0000 * 0x1_0000_0000) by (nonlinear_arith)
        requires -0x1_0000_0000 <= ay <= 0x1_0000_0000, -0x1_0000_0000 <= bx <= 0x1_0000_0000;
    ax * by - ay * bx > 0
}

/// Reversing the winding of a triangle reverses its normal, so of a triangle
/// and its mirror twin at most one faces the viewer, and exactly one unless
/// the triangle is degenerate.
pub proof fn lemma_winding_flips_facing(p0: Vertex, p1: Vertex, p2: Vertex)
    ensures
        normal_z(p0, p2, p1) == -normal_z(p0, p1, p2),
        normal_z(p0, p1, p2) != 0 ==> (normal_z(p0, p1, p2) > 0) != (normal_z(p0, p2, p1) > 0),
{
    assert(normal_z(p0, p2, p1) == -normal_z(p0, p1, p2)) by (nonlinear_arith);
}

/// The three corners ordered bottom, middle, top by `y`, through three
/// conditional swaps; whatever travels with a corner is permuted with it.
pub open spec fn sort_by_y<A>(p0: (Vertex, A), p1: (Vertex, A), p2: (Vertex, A)) -> ((Vertex, A), (Vertex, A), (Vertex, A)) {
    let (b, m) = if p0.0.y > p1.0.y { (p1, p0) } else { (p0, p1) };
    let (m, t) = if m.0.y > p2.0.y { (p2, m) } else { (m, p2) };
    let (b, m) = if b.0.y > m.0.y { (m, b) } else { (b, m) };
    (b, m, t)
}

pub fn sort_corners<A: Copy>(p0: (Vertex, A), p1: (Vertex, A), p2: (Vertex, A)) -> (r: ((Vertex, A), (Vertex, A), (Vertex, A)))
    ensures
        r == sort_by_y(p0, p1, p2),
        r.0.0.y <= r.1.0.y <= r.2.0.y,
{
    let mut b = p0;
    let mut m = p1;
    let mut t = p2;
    if b.0.y > m.0.y {
        let s = b;
        b = m;
        m = s;
    }
    if m.0.y > t.0.y {
        let s = m;
        m = t;
        t = s;
    }
    if b.0.y > m.0.y {
        let s = b;
        b = m;
        m = s;
    }
    (b, m, t)
}

/// Value at scanline `y` of an attribute that runs from `a` at row `ya` to
/// `b` at row `yb`, in `yb - ya + 1` equal increments.
pub open spec fn along(a: int, b: int, ya: int, yb: int, y: int) -> int {
    lerp(a, b, y - ya, yb - ya + 1)
}

fn along_i64(a: i64, b: i64, ya: i32, yb: i32, y: i64) -> (r: i64)
    requires
        ya <= y <= yb,
    ensures
        r == along(a as int, b as int, ya as int, yb as int, y as int),
{
    lerp_i64(a, b, (y - ya as i64) as u128, (yb as i64 - ya as i64 + 1) as u128)
}

/// The ends of scanline `y` of the sorted triangle `b, m, t`: the first runs
/// along the edge from bottom to top, the second along bottom to middle
/// below the middle row and middle to top from it on. Each end is `(x, z)`.
pub open spec fn span_ends(b: Vertex, m: Vertex, t: Vertex, y: int) -> ((int, int), (int, int)) {
    let first = (along(b.x as int, t.x as int, b.y as int, t.y as int, y), along(b.z as int, t.z as int, b.y as int, t.y as int, y));
    let second = if y < m.y {
        (along(b.x as int, m.x as int, b.y as int, m.y as int, y), along(b.z as int, m.z as int, b.y as int, m.y as int, y))
    } else {
        (along(m.x as int, t.x as int, m.y as int, t.y as int, y), along(m.z as int, t.z as int, m.y as int, t.y as int, y))
    };
    (first, second)
}

impl PictureView {
    /// The picture after the first `r` scanlines of a flat fill of the sorted
    /// triangle `b, m, t` in color `c`, one line per scanline.
    pub open spec fn with_flat_rows(self, b: Vertex, m: Vertex, t: Vertex, c: Color, r: nat) -> PictureView
        decreases r,
    {
        if r == 0 {
            self
        } else {
            let y = b.y + r - 1;
            let (first, second) = span_ends(b, m, t, y);
            self.with_flat_rows(b, m, t, c, (r - 1) as nat).with_line(
                first.0,
                y,
                first.1 as i64,
                second.0,
                y,
                second.1 as i64,
                c,
                (line_steps(first.0, y, second.0, y) + 1) as nat,
            )
        }
    }

    /// The picture after a flat fill of the triangle `p0, p1, p2` in color `c`.
    pub open spec fn with_flat_triangle(self, p0: Vertex, p1: Vertex, p2: Vertex, c: Color) -> PictureView {
        let (b, m, t) = sort_by_y((p0, ()), (p1, ()), (p2, ()));
        self.with_flat_rows(b.0, m.0, t.0, c, (t.0.y - b.0.y + 1) as nat)
    }
}

proof fn lemma_span_ends_fit(b: Vertex, m: Vertex, t: Vertex, y: int)
    requires
        b.y <= m.y <= t.y,
        b.y <= y <= t.y,
    ensures
        i32::MIN <= span_ends(b, m, t, y).0.0 <= i32::MAX,
        i32::MIN <= span_ends(b, m, t, y).1.0 <= i32::MAX,
        i64::MIN <= span_ends(b, m, t, y).0.1 <= i64::MAX,
        i64::MIN <= span_ends(b, m, t, y).1.1 <= i64::MAX,
{
    let (ya, yb) = (b.y as int, t.y as int);
    lemma_lerp_between(b.x as int, t.x as int, y - ya, yb - ya + 1);
    lemma_lerp_between(b.z as int, t.z as int, y - ya, yb - ya + 1);
    if y < m.y {
        lemma_lerp_between(b.x as int, m.x as int, y - b.y, m.y - b.y + 1);
        lemma_lerp_between(b.z as int, m.z as int, y - b.y, m.y - b.y + 1);
    } else {
        lemma_lerp_between(m.x as int, t.x as int, y - m.y, t.y - m.y + 1);
        lemma_lerp_between(m.z as int, t.z as int, y - m.y, t.y - m.y + 1);
    }
}

/// A triangle whose three corners share one row is filled by a single line on
/// that row, from its first corner to its second.
pub proof fn lemma_flat_single_row(v: PictureView, p0: Vertex, p1: Vertex, p2: Vertex, c: Color)
    requires
        p0.y == p1.y,
        p1.y == p2.y,
    ensures
        v.with_flat_triangle(p0, p1, p2, c) == v.with_line(
            p0.x as int,
            p0.y as int,
            p0.z,
            p1.x as int,
            p0.y as int,
            p1.z,
            c,
            (abs_diff(p0.x as int, p1.x as int) + 1) as nat,
        ),
{
    lemma_lerp_between(p0.x as int, p2.x as int, 0, 1);
    lemma_lerp_between(p0.z as int, p2.z as int, 0, 1);
    lemma_lerp_between(p1.x as int, p2.x as int, 0, 1);
    lemma_lerp_between(p1.z as int, p2.z as int, 0, 1);
    let (b, m, t) = sort_by_y((p0, ()), (p1, ()), (p2, ()));
    assert(b.0 == p0 && m.0 == p1 && t.0 == p2);
    assert(v.with_flat_triangle(p0, p1, p2, c) == v.with_flat_rows(p0, p1, p2, c, 1));
    assert(v.with_flat_rows(p0, p1, p2, c, 0) == v);
}

/// Fills the triangle `polygon[0..3]` with one color, drawing one horizontal
/// line per scanline from the bottom corner's row to the top corner's.
pub fn flat(picture: &mut Picture, polygon: &[Vertex; 3], color: &Color)
    requires
        old(picture).wf(),
    ensures
        final(picture).wf(),
        final(picture)@ == old(picture)@.with_flat_triangle(polygon[0], polygon[1], polygon[2], *color),
{
    let (b, m, t) = sort_corners((polygon[0], ()), (polygon[1], ()), (polygon[2], ()));
    let (b, m, t) = (b.0, m.0, t.0);
    let ghost start = picture@;
    let mut y: i64 = b.y as i64;
    while y <= t.y as i64
        invariant
            picture.wf(),
            b.y <= m.y <= t.y,
            b.y <= y <= t.y + 1,
            picture@ == start.with_flat_rows(b, m, t, *color, (y - b.y) as nat),
        decreases t.y + 1 - y,
    {
        proof {
            lemma_span_ends_fit(b, m, t, y as int);
        }
        let x0 = along_i64(b.x as i64, t.x as i64, b.y, t.y, y);
        let z0 = along_i64(b.z, t.z, b.y, t.y, y);
        let (x1, z1) = if y < m.y as i64 {
            (along_i64(b.x as i64, m.x as i64, b.y, m.y, y), along_i64(b.z, m.z, b.y, m.y, y))
        } else {
            (along_i64(m.x as i64, t.x as i64, m.y, t.y, y), along_i64(m.z, t.z, m.y, t.y, y))
        };
        picture.draw_line(x0, y, z0, x1, y, z1, color);
        y = y + 1;
    }
}

/// Position, depth and color at scanline `y` on the edge from corner `a` to
/// corner `b`.
pub open spec fn shade_at(a: (Vertex, Rgb), b: (Vertex, Rgb), y: int) -> (int, int, Rgb) {
    let (ya, yb) = (a.0.y as int, b.0.y as int);
    (
        along(a.0.x as int, b.0.x as int, ya, yb, y),
        along(a.0.z as int, b.0.z as int, ya, yb, y),
        (
            along(a.1.0 as int, b.1.0 as int, ya, yb, y) as u8,
            along(a.1.1 as int, b.1.1 as int, ya, yb, y) as u8,
            along(a.1.2 as int, b.1.2 as int, ya, yb, y) as u8,
        ),
    )
}

/// Channel-wise mix of two colors at step `j` of `den`.
pub open spec fn mix(a: Rgb, b: Rgb, j: int, den: int) -> Color {
    (
        lerp(a.0 as int, b.0 as int, j, den) as usize,
        lerp(a.1 as int, b.1 as int, j, den) as usize,
        lerp(a.2 as int, b.2 as int, j, den) as usize,
    )
}

/// The ends of scanline `y` of a sorted triangle with a color at each corner,
/// each end being `(x, z, color)`; see `span_ends`.
pub open spec fn shaded_ends(b: (Vertex, Rgb), m: (Vertex, Rgb), t: (Vertex, Rgb), y: int) -> ((int, int, Rgb), (int, int, Rgb)) {
    (shade_at(b, t, y), if y < m.0.y { shade_at(b, m, y) } else { shade_at(m, t, y) })
}

impl PictureView {
    /// The picture after the first `m` pixels of the span from `xs` to `xe`
    /// on row `y`, with depth and color interpolated between the ends.
    pub open spec fn with_shaded_span(
        self,
        xs: int,
        xe: int,
        y: int,
        zs: int,
        ze: int,
        cs: Rgb,
        ce: Rgb,
        m: nat,
    ) -> PictureView
        decreases m,
    {
        if m == 0 {
            self
        } else {
            let j = m - 1;
            let den = xe - xs + 1;
            self.with_shaded_span(xs, xe, y, zs, ze, cs, ce, (m - 1) as nat).plotted(
                xs + j,
                y,
                lerp(zs, ze, j, den) as i64,
                mix(cs, ce, j, den),
            )
        }
    }

    /// The picture after one full span between two ends, walked left to right.
    pub open spec fn with_shaded_row(self, y: int, e0: (int, int, Rgb), e1: (int, int, Rgb)) -> PictureView {
        if e0.0 <= e1.0 {
            self.with_shaded_span(e0.0, e1.0, y, e0.1, e1.1, e0.2, e1.2, (e1.0 - e0.0 + 1) as nat)
        } else {
            self.with_shaded_span(e1.0, e0.0, y, e1.1, e0.1, e1.2, e0.2, (e0.0 - e1.0 + 1) as nat)
        }
    }

    /// The picture after the first `r` scanlines of a color-interpolating
    /// fill of a sorted triangle.
    pub open spec fn with_gouraud_rows(self, b: (Vertex, Rgb), m: (Vertex, Rgb), t: (Vertex, Rgb), r: nat) -> PictureView
        decreases r,
    {
        if r == 0 {
            self
        } else {
            let y = b.0.y + r - 1;
            let (e0, e1) = shaded_ends(b, m, t, y);
            self.with_gouraud_rows(b, m, t, (r - 1) as nat).with_shaded_row(y, e0, e1)
        }
    }

    /// The picture after a color-interpolating fill of the triangle `p` with
    /// corner colors `c`.
    pub open spec fn with_gouraud_triangle(self, p: [Vertex; 3], c: [Rgb; 3]) -> PictureView {
        let (b, m, t) = sort_by_y((p[0], c[0]), (p[1], c[1]), (p[2], c[2]));
        self.with_gouraud_rows(b, m, t, (t.0.y - b.0.y + 1) as nat)
    }
}

fn channel_along(a: u8, b: u8, ya: i32, yb: i32, y: i64) -> (r: u8)
    requires
        ya <= y <= yb,
    ensures
        r == along(a as int, b as int, ya as int, yb as int, y as int),
{
    proof {
        lemma_lerp_between(a as int, b as int, y - ya, yb - ya + 1);
    }
    along_i64(a as i64, b as i64, ya, yb, y) as u8
}

fn shade_along(a: (Vertex, Rgb), b: (Vertex, Rgb), y: i64) -> (r: (i64, i64, Rgb))
    requires
        a.0.y <= y <= b.0.y,
    ensures
        (r.0 as int, r.1 as int, r.2) == shade_at(a, b, y as int),
        i32::MIN <= r.0 <= i32::MAX,
{
    proof {
        lemma_lerp_between(a.0.x as int, b.0.x as int, y - a.0.y, b.0.y - a.0.y + 1);
        lemma_lerp_between(a.1.0 as int, b.1.0 as int, y - a.0.y, b.0.y - a.0.y + 1);
        lemma_lerp_between(a.1.1 as int, b.1.1 as int, y - a.0.y, b.0.y - a.0.y + 1);
        lemma_lerp_between(a.1.2 as int, b.1.2 as int, y - a.0.y, b.0.y - a.0.y + 1);
    }
    let x = along_i64(a.0.x as i64, b.0.x as i64, a.0.y, b.0.y, y);
    let z = along_i64(a.0.z, b.0.z, a.0.y, b.0.y, y);
    let c = (
        channel_along(a.1.0, b.1.0, a.0.y, b.0.y, y),
        channel_along(a.1.1, b.1.1, a.0.y, b.0.y, y),
        channel_along(a.1.2, b.1.2, a.0.y, b.0.y, y),
    );
    (x, z, c)
}

fn mix_channel(a: u8, b: u8, j: u128, den: u128) -> (r: usize)
    requires
        0 < den <= 0x1_0000_0000_0000_0000,
        j <= den,
    ensures
        r == lerp(a as int, b as int, j as int, den as int),
{
    proof {
        lemma_lerp_between(a as int, b as int, j as int, den as int);
    }
    lerp_i64(a as i64, b as i64, j, den) as usize
}

/// Plots every pixel from `xs` to `xe` on row `y`, interpolating depth and
/// color between the two ends.
fn shaded_span(picture: &mut Picture, xs: i64, xe: i64, y: i64, zs: i64, ze: i64, cs: Rgb, ce: Rgb)
    requires
        old(picture).wf(),
        i32::MIN <= xs <= xe <= i32::MAX,
    ensures
        final(picture).wf(),
        final(picture)@ == old(picture)@.with_shaded_span(
            xs as int,
            xe as int,
            y as int,
            zs as int,
            ze as int,
            cs,
            ce,
            (xe - xs + 1) as nat,
        ),
{
    let ghost start = picture@;
    let den: u128 = (xe - xs + 1) as u128;
    let mut j: i64 = 0;
    while j <= xe - xs
        invariant
            picture.wf(),
            i32::MIN <= xs <= xe <= i32::MAX,
            den == xe - xs + 1,
            0 <= j <= xe - xs + 1,
            picture@ == start.with_shaded_span(xs as int, xe as int, y as int, zs as int, ze as int, cs, ce, j as nat),
        decreases xe - xs + 1 - j,
    {
        let z = lerp_i64(zs, ze, j as u128, den);
        let c = (mix_channel(cs.0, ce.0, j as u128, den), mix_channel(cs.1, ce.1, j as u128, den), mix_channel(cs.2, ce.2, j as u128, den));
        picture.plot(xs + j, y, z, &c);
        j = j + 1;
    }
}

/// Fills the triangle `polygon` with the colors `colors` given at its
/// corners, interpolated along the edges and then across each scanline.
pub fn gouraud(picture: &mut Picture, polygon: &[Vertex; 3], colors: &[Rgb; 3])
    requires
        old(picture).wf(),
    ensures
        final(picture).wf(),
        final(picture)@ == old(picture)@.with_gouraud_triangle(*polygon, *colors),
{
    let (b, m, t) = sort_corners((polygon[0], colors[0]), (polygon[1], colors[1]), (polygon[2], colors[2]));
    let ghost start = picture@;
    let mut y: i64 = b.0.y as i64;
    while y <= t.0.y as i64
        invariant
            picture.wf(),
            b.0.y <= m.0.y <= t.0.y,
            b.0.y <= y <= t.0.y + 1,
            picture@ == start.with_gouraud_rows(b, m, t, (y - b.0.y) as nat),
        decreases t.0.y + 1 - y,
    {
        let e0 = shade_along(b, t, y);
        let e1 = if y < m.0.y as i64 { shade_along(b, m, y) } else { shade_along(m, t, y) };
        if e0.0 <= e1.0 {
            shaded_span(picture, e0.0, e1.0, y, e0.1, e1.1, e0.2, e1.2);
        } else {
            shaded_span(picture, e1.0, e0.0, y, e1.1, e0.1, e1.2, e0.2);
        }
        y = y + 1;
    }
}

} // verus!
