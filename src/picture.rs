use vstd::prelude::*;
use vstd::arithmetic::div_mod::{lemma_fundamental_div_mod, lemma_fundamental_div_mod_converse, lemma_mod_bound};
use crate::interpolate::{lerp, lerp_i64};

verus! {

/// An RGB triple; each channel is stored in the buffer truncated to a byte.
pub type Color = (usize, usize, usize);

/// The byte that channel `k` (0, 1 or 2) of `c` is stored as.
pub open spec fn channel(c: Color, k: int) -> u8 {
    if k == 0 {
        c.0 as u8
    } else if k == 1 {
        c.1 as u8
    } else {
        c.2 as u8
    }
}

/// The mathematical content of a picture: its size, the flat RGB buffer
/// (rows stored top-down) and the depth of each pixel (`None` when nothing
/// was drawn there, which loses every depth test).
pub ghost struct PictureView {
    pub xres: nat,
    pub yres: nat,
    pub max_color: nat,
    pub default_color: Color,
    pub data: Seq<u8>,
    pub depth: Seq<Option<i64>>,
}

/// A picture of the given size in which every pixel has the background color
/// and no depth.
pub open spec fn blank(xres: nat, yres: nat, max_color: nat, default_color: Color) -> PictureView {
    PictureView {
        xres,
        yres,
        max_color,
        default_color,
        data: Seq::new(xres * yres * 3, |i: int| channel(default_color, i % 3)),
        depth: Seq::new(xres * yres, |i: int| None),
    }
}

impl PictureView {
    pub open spec fn wf(self) -> bool {
        &&& self.data.len() == self.xres * self.yres * 3
        &&& self.depth.len() == self.xres * self.yres
    }

    pub open spec fn in_bounds(self, x: int, y: int) -> bool {
        0 <= x < self.xres && 0 <= y < self.yres
    }

    /// Index of the pixel at logical `(x, y)`; the origin is the bottom-left
    /// corner, while storage runs from the top row down.
    pub open spec fn cell(self, x: int, y: int) -> int {
        (self.yres - 1 - y) * self.xres + x
    }

    /// The stored color of logical pixel `(x, y)`.
    pub open spec fn pixel(self, x: int, y: int) -> (u8, u8, u8) {
        let k = self.cell(x, y);
        (self.data[3 * k], self.data[3 * k + 1], self.data[3 * k + 2])
    }

    /// The stored depth of logical pixel `(x, y)`.
    pub open spec fn depth_at(self, x: int, y: int) -> Option<i64> {
        self.depth[self.cell(x, y)]
    }

    /// A write of depth `z` at cell `k` loses the depth test: something
    /// strictly deeper in `z` (larger) is already there.
    pub open spec fn rejects(self, k: int, z: i64) -> bool {
        match self.depth[k] {
            Some(d) => z < d,
            None => false,
        }
    }

    /// The picture after plotting `c` at `(x, y)` with depth `z`: outside the
    /// picture, or behind what is there, nothing changes; otherwise color and
    /// depth of that pixel are both replaced.
    pub open spec fn plotted(self, x: int, y: int, z: i64, c: Color) -> PictureView {
        if !self.in_bounds(x, y) {
            self
        } else {
            let k = self.cell(x, y);
            if self.rejects(k, z) {
                self
            } else {
                PictureView {
                    data: self.data.update(3 * k, c.0 as u8).update(3 * k + 1, c.1 as u8).update(
                        3 * k + 2,
                        c.2 as u8,
                    ),
                    depth: self.depth.update(k, Some(z)),
                    ..self
                }
            }
        }
    }
}

pub open spec fn abs_diff(a: int, b: int) -> int {
    if a <= b {
        b - a
    } else {
        a - b
    }
}

/// The unit step that moves from `a` toward `b` (`-1` when they are equal).
pub open spec fn step_toward(a: int, b: int) -> int {
    if b > a {
        1
    } else {
        -1
    }
}

/// How far the minor coordinate of a line has moved after `i` steps along its
/// major axis: `i * minor / major` rounded to nearest, halves rounded down.
pub open spec fn minor_offset(major: int, minor: int, i: int) -> int {
    if major == 0 {
        0
    } else {
        (2 * minor * i + major - 1) / (2 * major)
    }
}

/// Number of steps of a line; it plots one more pixel than this.
pub open spec fn line_steps(x0: int, y0: int, x1: int, y1: int) -> int {
    let dx = abs_diff(x0, x1);
    let dy = abs_diff(y0, y1);
    if dy <= dx {
        dx
    } else {
        dy
    }
}

/// Pixel `i` of the line from `(x0, y0)` to `(x1, y1)`: the axis with the
/// larger extent advances by one each step, the other follows the ideal line.
pub open spec fn line_point(x0: int, y0: int, x1: int, y1: int, i: int) -> (int, int) {
    let dx = abs_diff(x0, x1);
    let dy = abs_diff(y0, y1);
    if dy <= dx {
        (x0 + step_toward(x0, x1) * i, y0 + step_toward(y0, y1) * minor_offset(dx, dy, i))
    } else {
        (x0 + step_toward(x0, x1) * minor_offset(dy, dx, i), y0 + step_toward(y0, y1) * i)
    }
}

/// Depth of pixel `i` of a line of `n` steps: `z0` plus `i` increments of
/// `(z1 - z0) / (n + 1)`.
pub open spec fn line_depth(z0: i64, z1: i64, n: int, i: int) -> i64 {
    lerp(z0 as int, z1 as int, i, n + 1) as i64
}

impl PictureView {
    /// The picture after plotting the first `m` pixels of a line.
    pub open spec fn with_line(
        self,
        x0: int,
        y0: int,
        z0: i64,
        x1: int,
        y1: int,
        z1: i64,
        c: Color,
        m: nat,
    ) -> PictureView
        decreases m,
    {
        if m == 0 {
            self
        } else {
            let p = line_point(x0, y0, x1, y1, m - 1);
            let z = line_depth(z0, z1, line_steps(x0, y0, x1, y1), m - 1);
            self.with_line(x0, y0, z0, x1, y1, z1, c, (m - 1) as nat).plotted(p.0, p.1, z, c)
        }
    }
}

/// Each step of `minor_offset` moves the minor coordinate by zero or one.
proof fn lemma_minor_offset_step(major: int, minor: int, i: int)
    requires
        0 <= minor <= major,
        0 <= i,
    ensures
        0 <= minor_offset(major, minor, i),
        minor_offset(major, minor, i) <= minor_offset(major, minor, i + 1) <= minor_offset(major, minor, i) + 1,
        i == major ==> minor_offset(major, minor, i) == minor,
{
    if major > 0 {
        let d = 2 * major;
        let a = 2 * minor * i + major - 1;
        let b = 2 * minor * (i + 1) + major - 1;
        assert(2 * minor * (i + 1) == 2 * minor * i + 2 * minor) by (nonlinear_arith);
        assert(0 <= 2 * minor * i) by (nonlinear_arith)
            requires minor >= 0, i >= 0;
        lemma_fundamental_div_mod(a, d);
        lemma_mod_bound(a, d);
        let q = a / d;
        let r = a % d;
        assert(q * d == d * q) by (nonlinear_arith);
        assert(0 <= q) by (nonlinear_arith)
            requires a >= 0, a == d * q + r, r < d, d > 0;
        if r + 2 * minor < d {
            lemma_fundamental_div_mod_converse(b, d, q, r + 2 * minor);
        } else {
            assert((q + 1) * d == q * d + d) by (nonlinear_arith);
            lemma_fundamental_div_mod_converse(b, d, q + 1, r + 2 * minor - d);
        }
        if i == major {
            assert(2 * minor * i == minor * d) by (nonlinear_arith)
                requires i == major, d == 2 * major;
            lemma_fundamental_div_mod_converse(a, d, minor, major - 1);
        }
    }
}

/// The pixels of a line: the first is its start and the last its end; from
/// one to the next the major coordinate advances by exactly one and the other
/// by at most one, so no pixel repeats and none is skipped.
pub proof fn lemma_line_shape(x0: int, y0: int, x1: int, y1: int, i: int, j: int)
    requires
        0 <= i < j <= line_steps(x0, y0, x1, y1),
    ensures
        line_point(x0, y0, x1, y1, 0) == (x0, y0),
        line_point(x0, y0, x1, y1, line_steps(x0, y0, x1, y1)) == (x1, y1),
        abs_diff(line_point(x0, y0, x1, y1, i).0, line_point(x0, y0, x1, y1, i + 1).0) <= 1,
        abs_diff(line_point(x0, y0, x1, y1, i).1, line_point(x0, y0, x1, y1, i + 1).1) <= 1,
        line_point(x0, y0, x1, y1, i) != line_point(x0, y0, x1, y1, j),
{
    let dx = abs_diff(x0, x1);
    let dy = abs_diff(y0, y1);
    let n = line_steps(x0, y0, x1, y1);
    let sx = step_toward(x0, x1);
    let sy = step_toward(y0, y1);
    let (major, minor) = if dy <= dx { (dx, dy) } else { (dy, dx) };
    lemma_minor_offset_step(major, minor, 0);
    lemma_minor_offset_step(major, minor, i);
    lemma_minor_offset_step(major, minor, n);
    if major > 0 {
        lemma_fundamental_div_mod_converse(major - 1, 2 * major, 0, major - 1);
    }
    let a = minor_offset(major, minor, i);
    let b = minor_offset(major, minor, i + 1);
    lemma_unit_scale(sx, i, j, a, b, n, major, minor);
    lemma_unit_scale(sy, i, j, a, b, n, major, minor);
    if sx == 1 {
        assert(sx * dx == x1 - x0);
    } else {
        assert(sx * dx == x1 - x0);
    }
    if sy == 1 {
        assert(sy * dy == y1 - y0);
    } else {
        assert(sy * dy == y1 - y0);
    }
}

proof fn lemma_unit_scale(s: int, i: int, j: int, a: int, b: int, n: int, major: int, minor: int)
    requires
        s == 1 || s == -1,
    ensures
        s * (i + 1) == s * i + s,
        i != j ==> s * i != s * j,
        a <= b <= a + 1 ==> abs_diff(s * a, s * b) <= 1,
        s * 0 == 0,
        s * n == if s == 1 { n } else { -n },
        s * minor == if s == 1 { minor } else { -minor },
        s * major == if s == 1 { major } else { -major },
{
}

/// Depth test: once a pixel holds depth `z1`, a later write at a smaller depth
/// `z2` changes nothing, whatever its color.
pub proof fn lemma_nearer_write_wins(v: PictureView, x: int, y: int, z1: i64, c1: Color, z2: i64, c2: Color)
    requires
        v.wf(),
        z2 < z1,
    ensures
        v.plotted(x, y, z1, c1).plotted(x, y, z2, c2) == v.plotted(x, y, z1, c1),
{
    if v.in_bounds(x, y) {
        lemma_cell_in_range(v, x, y);
    }
}

proof fn lemma_cell_in_range(v: PictureView, x: int, y: int)
    requires
        v.in_bounds(x, y),
    ensures
        0 <= v.cell(x, y) < v.xres * v.yres,
{
    let row = v.yres - 1 - y;
    assert(0 <= row * v.xres + x < v.xres * v.yres) by (nonlinear_arith)
        requires 0 <= row < v.yres, 0 <= x < v.xres;
}

/// An RGB raster with a per-pixel depth buffer.
pub struct Picture {
    xres: usize,
    yres: usize,
    max_color: usize,
    data: Vec<u8>,
    default_color: Color,
    z_buffer: Vec<Option<i64>>,
}

impl View for Picture {
    type V = PictureView;

    closed spec fn view(&self) -> PictureView {
        PictureView {
            xres: self.xres as nat,
            yres: self.yres as nat,
            max_color: self.max_color as nat,
            default_color: self.default_color,
            data: self.data@,
            depth: self.z_buffer@,
        }
    }
}

fn filled_buffer(pixels: usize, color: &Color) -> (r: Vec<u8>)
    requires
        pixels * 3 <= usize::MAX,
    ensures
        r@ == Seq::new((pixels * 3) as nat, |i: int| channel(*color, i % 3)),
{
    let mut r: Vec<u8> = Vec::new();
    let mut i: usize = 0;
    while i < pixels
        invariant
            i <= pixels,
            pixels * 3 <= usize::MAX,
            r@.len() == 3 * i,
            forall|j: int| 0 <= j < 3 * i ==> #[trigger] r@[j] == channel(*color, j % 3),
        decreases pixels - i,
    {
        r.push(#[verifier::truncate] (color.0 as u8));
        r.push(#[verifier::truncate] (color.1 as u8));
        r.push(#[verifier::truncate] (color.2 as u8));
        i = i + 1;
    }
    assert(r@ =~= Seq::new((pixels * 3) as nat, |i: int| channel(*color, i % 3)));
    r
}

fn empty_depth(pixels: usize) -> (r: Vec<Option<i64>>)
    ensures
        r@ == Seq::new(pixels as nat, |i: int| None::<i64>),
{
    let mut r: Vec<Option<i64>> = Vec::new();
    let mut i: usize = 0;
    while i < pixels
        invariant
            i <= pixels,
            r@.len() == i,
            forall|j: int| 0 <= j < i ==> #[trigger] r@[j] == None::<i64>,
        decreases pixels - i,
    {
        r.push(None);
        i = i + 1;
    }
    assert(r@ =~= Seq::new(pixels as nat, |i: int| None::<i64>));
    r
}

impl Picture {
    pub open spec fn wf(&self) -> bool {
        self@.wf()
    }

    /// A picture of `xres` by `yres` pixels, all of `default_color`, with an
    /// empty depth buffer.
    pub fn new(xres: usize, yres: usize, max_color: usize, default_color: &Color) -> (r: Self)
        requires
            xres * yres * 3 <= usize::MAX,
        ensures
            r.wf(),
            r@ == blank(xres as nat, yres as nat, max_color as nat, *default_color),
    {
        let pixels = xres * yres;
        let data = filled_buffer(pixels, default_color);
        let z_buffer = empty_depth(pixels);
        let r = Picture { xres, yres, max_color, data, default_color: *default_color, z_buffer };
        assert(r@ =~= blank(xres as nat, yres as nat, max_color as nat, *default_color));
        r
    }

    /// Resets every pixel to the background color and empties the depth buffer.
    pub fn clear(&mut self)
        requires
            old(self).wf(),
        ensures
            final(self).wf(),
            final(self)@ == blank(
                old(self)@.xres,
                old(self)@.yres,
                old(self)@.max_color,
                old(self)@.default_color,
            ),
    {
        let total = self.data.len();
        proof {
            let n = self@.xres * self@.yres;
            assert(n * 3 == 3 * n);
            assert(n <= n * 3);
        }
        let pixels = self.xres * self.yres;
        self.data = filled_buffer(pixels, &self.default_color);
        self.z_buffer = empty_depth(pixels);
        assert(self@ =~= blank(self@.xres, self@.yres, self@.max_color, self@.default_color));
    }

    pub fn xres(&self) -> (r: usize)
        ensures
            r == self@.xres,
    {
        self.xres
    }

    pub fn yres(&self) -> (r: usize)
        ensures
            r == self@.yres,
    {
        self.yres
    }

    pub fn max_color(&self) -> (r: usize)
        ensures
            r == self@.max_color,
    {
        self.max_color
    }

    /// The flat RGB buffer, top row first.
    pub fn data(&self) -> (r: &Vec<u8>)
        ensures
            r@ == self@.data,
    {
        &self.data
    }

    fn cell_index(&self, x: i64, y: i64) -> (k: usize)
        requires
            self.wf(),
            self@.in_bounds(x as int, y as int),
        ensures
            k == self@.cell(x as int, y as int),
            3 * k + 2 < self@.data.len(),
            3 * k + 2 < usize::MAX,
            k < self@.depth.len(),
    {
        let total = self.data.len();
        proof {
            lemma_cell_in_range(self@, x as int, y as int);
            let n = self@.xres * self@.yres;
            assert(n * 3 == 3 * n);
        }
        (self.yres - 1 - y as usize) * self.xres + x as usize
    }

    /// The color at logical `(x, y)`, or `None` outside the picture.
    pub fn pixel(&self, x: i64, y: i64) -> (r: Option<(u8, u8, u8)>)
        requires
            self.wf(),
        ensures
            self@.in_bounds(x as int, y as int) ==> r == Some(self@.pixel(x as int, y as int)),
            !self@.in_bounds(x as int, y as int) ==> r is None,
    {
        if x < 0 || y < 0 || x as i128 >= self.xres as i128 || y as i128 >= self.yres as i128 {
            return None;
        }
        let k = self.cell_index(x, y);
        Some((self.data[3 * k], self.data[3 * k + 1], self.data[3 * k + 2]))
    }

    /// The depth at logical `(x, y)`, or `None` outside the picture or where
    /// nothing was drawn.
    pub fn depth(&self, x: i64, y: i64) -> (r: Option<i64>)
        requires
            self.wf(),
        ensures
            self@.in_bounds(x as int, y as int) ==> r == self@.depth_at(x as int, y as int),
            !self@.in_bounds(x as int, y as int) ==> r is None,
    {
        if x < 0 || y < 0 || x as i128 >= self.xres as i128 || y as i128 >= self.yres as i128 {
            return None;
        }
        let k = self.cell_index(x, y);
        self.z_buffer[k]
    }

    /// Draws the line from `(x0, y0)` to `(x1, y1)` with the midpoint
    /// (Bresenham) algorithm, interpolating depth from `z0` toward `z1`.
    /// Every pixel of the line, both ends included, is plotted exactly once.
    pub fn draw_line(&mut self, x0: i64, y0: i64, z0: i64, x1: i64, y1: i64, z1: i64, color: &Color)
        requires
            old(self).wf(),
        ensures
            final(self).wf(),
            final(self)@ == old(self)@.with_line(
                x0 as int,
                y0 as int,
                z0,
                x1 as int,
                y1 as int,
                z1,
                *color,
                (line_steps(x0 as int, y0 as int, x1 as int, y1 as int) + 1) as nat,
            ),
    {
        let dx: i128 = if x1 >= x0 { x1 as i128 - x0 as i128 } else { x0 as i128 - x1 as i128 };
        let dy: i128 = if y1 >= y0 { y1 as i128 - y0 as i128 } else { y0 as i128 - y1 as i128 };
        let step_x: i64 = if x1 > x0 { 1 } else { -1 };
        let step_y: i64 = if y1 > y0 { 1 } else { -1 };
        let small_slope = dy <= dx;
        let major: i128 = if small_slope { dx } else { dy };
        let minor: i128 = if small_slope { dy } else { dx };
        let mut x = x0;
        let mut y = y0;
        let mut i: i128 = 0;
        // midpoint error term, kept in [0, 2 * major)
        let mut err: i128 = major - 1;
        let ghost mut k: int = 0;
        let ghost start = self@;
        proof {
            assert(2 * minor * 0 == 0 && 2 * major * 0 == 0);
            if major > 0 {
                lemma_fundamental_div_mod_converse(major - 1, 2 * major, 0, major - 1);
            }
        }
        while i <= major
            invariant
                self.wf(),
                0 <= minor <= major < 0x1_0000_0000_0000_0000,
                dx == abs_diff(x0 as int, x1 as int),
                dy == abs_diff(y0 as int, y1 as int),
                small_slope == (dy <= dx),
                major == (if small_slope { dx } else { dy }),
                minor == (if small_slope { dy } else { dx }),
                step_x == step_toward(x0 as int, x1 as int),
                step_y == step_toward(y0 as int, y1 as int),
                major == line_steps(x0 as int, y0 as int, x1 as int, y1 as int),
                0 <= i <= major + 1,
                self@ == start.with_line(x0 as int, y0 as int, z0, x1 as int, y1 as int, z1, *color, i as nat),
                i <= major ==> (x as int, y as int) == line_point(x0 as int, y0 as int, x1 as int, y1 as int, i as int),
                i <= major ==> k == minor_offset(major as int, minor as int, i as int),
                i <= major ==> 0 <= k <= minor,
                i <= major && major > 0 ==> 0 <= err < 2 * major,
                i <= major && major > 0 ==> 2 * minor * i + major - 1 == 2 * major * k + err,
            decreases major + 1 - i,
        {
            let z = lerp_i64(z0, z1, i as u128, (major + 1) as u128);
            self.plot(x, y, z, color);
            if i < major {
                let ghost ii = i as int;
                let ghost old_err = err as int;
                let ghost old_k = k;
                let bump = err + 2 * minor >= 2 * major;
                let ghost new_k: int = if bump { old_k + 1 } else { old_k };
                let ghost new_err: int = if bump { old_err + 2 * minor - 2 * major } else { old_err + 2 * minor };
                proof {
                    assert(2 * minor * (ii + 1) == 2 * minor * ii + 2 * minor) by (nonlinear_arith);
                    assert(2 * major * (old_k + 1) == 2 * major * old_k + 2 * major) by (nonlinear_arith);
                    assert(2 * major * new_k + new_err == 2 * minor * (ii + 1) + major - 1);
                    assert(new_k * (2 * major) == 2 * major * new_k) by (nonlinear_arith);
                    lemma_fundamental_div_mod_converse(2 * minor * (ii + 1) + major - 1, 2 * major, new_k, new_err);
                    assert(2 * minor * (ii + 1) <= 2 * minor * major) by (nonlinear_arith)
                        requires ii + 1 <= major, minor >= 0;
                    assert(new_k <= minor) by (nonlinear_arith)
                        requires 2 * major * new_k + new_err == 2 * minor * (ii + 1) + major - 1,
                            2 * minor * (ii + 1) <= 2 * minor * major, new_err >= 0, major > 0;
                }
                if bump {
                    if small_slope {
                        y = y + step_y;
                    } else {
                        x = x + step_x;
                    }
                    err = err + 2 * minor - 2 * major;
                } else {
                    err = err + 2 * minor;
                }
                if small_slope {
                    x = x + step_x;
                } else {
                    y = y + step_y;
                }
                proof { k = new_k; }
            }
            i = i + 1;
        }
    }

    /// Writes `color` at logical `(x, y)` with depth `z`, unless the pixel is
    /// outside the picture or holds a larger depth.
    pub fn plot(&mut self, x: i64, y: i64, z: i64, color: &Color)
        requires
            old(self).wf(),
        ensures
            final(self).wf(),
            final(self)@ == old(self)@.plotted(x as int, y as int, z, *color),
    {
        if x < 0 || y < 0 || x as i128 >= self.xres as i128 || y as i128 >= self.yres as i128 {
            return;
        }
        let k = self.cell_index(x, y);
        if let Some(d) = self.z_buffer[k] {
            if z < d {
                return;
            }
        }
        self.data.set(3 * k, #[verifier::truncate] (color.0 as u8));
        self.data.set(3 * k + 1, #[verifier::truncate] (color.1 as u8));
        self.data.set(3 * k + 2, #[verifier::truncate] (color.2 as u8));
        self.z_buffer.set(k, Some(z));
    }
}

} // verus!
