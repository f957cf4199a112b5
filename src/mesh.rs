use vstd::prelude::*;
use vstd::arithmetic::div_mod::lemma_fundamental_div_mod_converse;

verus! {

/// Position of grid point `(ring, k)` in a parametric grid of `steps + 1`
/// rings of `steps + 1` points each, stored ring after ring.
pub open spec fn grid_index(steps: int, ring: int, k: int) -> int {
    ring * (steps + 1) + k
}

/// The ring after `ring`, wrapping around after `steps` rings.
pub open spec fn next_ring(steps: int, ring: int) -> int {
    (ring + 1) % steps
}

/// Latitude bands of a sphere that are split into two triangles per quad:
/// all but the two next to the poles.
pub open spec fn sphere_bands(steps: int) -> int {
    if steps >= 2 {
        steps - 2
    } else {
        0
    }
}

/// Triangles emitted per longitude of a sphere: two per band and one fan
/// triangle at each pole.
pub open spec fn sphere_block(steps: int) -> int {
    2 * sphere_bands(steps) + 2
}

/// Triangle `j` of the block of longitude `lon` of a sphere.
pub open spec fn sphere_triangle_in(steps: int, lon: int, j: int) -> [int; 3] {
    let next = next_ring(steps, lon);
    let g = |r: int, k: int| grid_index(steps, r, k);
    if j < 2 * sphere_bands(steps) {
        let lat = 1 + j / 2;
        if j % 2 == 0 {
            [g(lon, lat), g(lon, lat + 1), g(next, lat + 1)]
        } else {
            [g(lon, lat), g(next, lat + 1), g(next, lat)]
        }
    } else if j == 2 * sphere_bands(steps) {
        [g(lon, 0), g(lon, 1), g(next, 1)]
    } else {
        [g(lon, steps), g(next, steps - 1), g(lon, steps - 1)]
    }
}

/// Triangle `i` of a sphere tessellated with `steps` steps.
pub open spec fn sphere_triangle(steps: int, i: int) -> [int; 3] {
    sphere_triangle_in(steps, i / sphere_block(steps), i % sphere_block(steps))
}

/// Triangle `j` of the block of ring `ring` of a torus: two per quad.
pub open spec fn torus_triangle_in(steps: int, ring: int, j: int) -> [int; 3] {
    let next = next_ring(steps, ring);
    let g = |r: int, k: int| grid_index(steps, r, k);
    let on = j / 2;
    if j % 2 == 0 {
        [g(ring, on), g(ring, on + 1), g(next, on + 1)]
    } else {
        [g(ring, on), g(next, on + 1), g(next, on)]
    }
}

/// Triangle `i` of a torus tessellated with `steps` steps.
pub open spec fn torus_triangle(steps: int, i: int) -> [int; 3] {
    torus_triangle_in(steps, i / (2 * steps), i % (2 * steps))
}

pub open spec fn as_ints(t: [usize; 3]) -> [int; 3] {
    [t[0] as int, t[1] as int, t[2] as int]
}

/// The corner indices of the twelve triangles of a box, two per face, over
/// its eight corners numbered as `add_box` lists them.
pub open spec fn box_faces() -> Seq<[int; 3]> {
    seq![
        [0, 2, 1], [0, 3, 2], [4, 1, 5], [4, 0, 1], [7, 0, 4], [7, 3, 0],
        [6, 3, 7], [6, 2, 3], [5, 2, 6], [5, 1, 2], [7, 5, 6], [7, 4, 5],
    ]
}

/// The twelve corner-index triangles of a box.
pub fn box_triangles() -> (r: Vec<[usize; 3]>)
    ensures
        r@.len() == 12,
        forall|i: int| 0 <= i < 12 ==> as_ints(#[trigger] r@[i]) == box_faces()[i],
{
    let r: Vec<[usize; 3]> = vec![
        [0, 2, 1], [0, 3, 2], [4, 1, 5], [4, 0, 1], [7, 0, 4], [7, 3, 0],
        [6, 3, 7], [6, 2, 3], [5, 2, 6], [5, 1, 2], [7, 5, 6], [7, 4, 5],
    ];
    assert(forall|i: int| 0 <= i < 12 ==> as_ints(#[trigger] r@[i]) == box_faces()[i]) by {
        assert(r@.len() == 12);
    }
    r
}

fn grid(steps: usize, ring: usize, k: usize) -> (r: usize)
    requires
        ring <= steps,
        k <= steps,
        (steps + 1) * (steps + 1) <= usize::MAX,
    ensures
        r == grid_index(steps as int, ring as int, k as int),
        r < (steps + 1) * (steps + 1),
{
    assert(ring * (steps + 1) + k < (steps + 1) * (steps + 1)) by (nonlinear_arith)
        requires ring <= steps, k <= steps;
    assert(steps + 1 <= (steps + 1) * (steps + 1)) by (nonlinear_arith);
    ring * (steps + 1) + k
}

proof fn lemma_block_position(i: int, block: int, q: int, j: int)
    requires
        0 < block,
        0 <= j < block,
        i == q * block + j,
    ensures
        i / block == q,
        i % block == j,
{
    lemma_fundamental_div_mod_converse(i, block, q, j);
}

/// Corner indices, into a grid of `steps + 1` by `steps + 1` points, of the
/// triangles of a sphere: per longitude, two triangles for each quad of the
/// inner latitude bands, then one at each pole.
pub fn sphere_triangles(steps: usize) -> (r: Vec<[usize; 3]>)
    requires
        (steps + 1) * (steps + 1) <= usize::MAX,
    ensures
        r@.len() == steps * sphere_block(steps as int),
        forall|i: int| 0 <= i < r@.len() ==> as_ints(#[trigger] r@[i]) == sphere_triangle(steps as int, i),
{
    let mut r: Vec<[usize; 3]> = Vec::new();
    let bands: usize = if steps >= 2 { steps - 2 } else { 0 };
    let ghost block = sphere_block(steps as int);
    let mut lon: usize = 0;
    while lon < steps
        invariant
            lon <= steps,
            (steps + 1) * (steps + 1) <= usize::MAX,
            bands == sphere_bands(steps as int),
            block == 2 * bands + 2,
            r@.len() == lon * block,
            forall|i: int| 0 <= i < r@.len() ==> as_ints(#[trigger] r@[i]) == sphere_triangle(steps as int, i),
        decreases steps - lon,
    {
        let next = (lon + 1) % steps;
        let ghost base = lon * block;
        let mut lat: usize = 1;
        while lat <= bands
            invariant
                lon < steps,
                next == next_ring(steps as int, lon as int),
                1 <= lat <= bands + 1,
                (steps + 1) * (steps + 1) <= usize::MAX,
                bands == sphere_bands(steps as int),
                block == 2 * bands + 2,
                base == lon * block,
                r@.len() == base + 2 * (lat - 1),
                forall|i: int| 0 <= i < r@.len() ==> as_ints(#[trigger] r@[i]) == sphere_triangle(steps as int, i),
            decreases bands + 1 - lat,
        {
            let p1 = grid(steps, lon, lat);
            let p2 = grid(steps, lon, lat + 1);
            let p1_across = grid(steps, next, lat);
            let p2_across = grid(steps, next, lat + 1);
            proof {
                let j = 2 * (lat - 1);
                lemma_block_position(base + j, block, lon as int, j);
                lemma_block_position(base + j + 1, block, lon as int, j + 1);
                assert(j / 2 == lat - 1);
                assert((j + 1) / 2 == lat - 1);
            }
            r.push([p1, p2, p2_across]);
            r.push([p1, p2_across, p1_across]);
            lat = lat + 1;
        }
        proof {
            let j = 2 * bands;
            lemma_block_position(base + j, block, lon as int, j);
            lemma_block_position(base + j + 1, block, lon as int, j + 1);
        }
        r.push([grid(steps, lon, 0), grid(steps, lon, 1), grid(steps, next, 1)]);
        r.push([grid(steps, lon, steps), grid(steps, next, steps - 1), grid(steps, lon, steps - 1)]);
        proof {
            assert((lon + 1) * block == lon * block + block) by (nonlinear_arith);
        }
        lon = lon + 1;
    }
    r
}

/// Corner indices, into a grid of `steps + 1` by `steps + 1` points, of the
/// triangles of a torus: two triangles for each quad of the grid.
pub fn torus_triangles(steps: usize) -> (r: Vec<[usize; 3]>)
    requires
        (steps + 1) * (steps + 1) <= usize::MAX,
    ensures
        r@.len() == 2 * steps * steps,
        forall|i: int| 0 <= i < r@.len() ==> as_ints(#[trigger] r@[i]) == torus_triangle(steps as int, i),
{
    let mut r: Vec<[usize; 3]> = Vec::new();
    let mut ring: usize = 0;
    while ring < steps
        invariant
            ring <= steps,
            (steps + 1) * (steps + 1) <= usize::MAX,
            r@.len() == ring * (2 * steps),
            forall|i: int| 0 <= i < r@.len() ==> as_ints(#[trigger] r@[i]) == torus_triangle(steps as int, i),
        decreases steps - ring,
    {
        let next = (ring + 1) % steps;
        let ghost base = ring * (2 * steps);
        let mut on: usize = 0;
        while on < steps
            invariant
                ring < steps,
                next == next_ring(steps as int, ring as int),
                on <= steps,
                (steps + 1) * (steps + 1) <= usize::MAX,
                base == ring * (2 * steps),
                r@.len() == base + 2 * on,
                forall|i: int| 0 <= i < r@.len() ==> as_ints(#[trigger] r@[i]) == torus_triangle(steps as int, i),
            decreases steps - on,
        {
            let p1 = grid(steps, ring, on);
            let p2 = grid(steps, ring, on + 1);
            let p1_across = grid(steps, next, on);
            let p2_across = grid(steps, next, on + 1);
            proof {
                let j = 2 * on;
                lemma_block_position(base + j, 2 * steps, ring as int, j);
                lemma_block_position(base + j + 1, 2 * steps, ring as int, j + 1);
                assert(j / 2 == on);
                assert((j + 1) / 2 == on);
            }
            r.push([p1, p2, p2_across]);
            r.push([p1, p2_across, p1_across]);
            on = on + 1;
        }
        proof {
            assert((ring + 1) * (2 * steps) == ring * (2 * steps) + 2 * steps) by (nonlinear_arith);
        }
        ring = ring + 1;
    }
    proof {
        assert(steps * (2 * steps) == 2 * steps * steps) by (nonlinear_arith);
    }
    r
}

/// A tessellated sphere has two triangles per quad of its inner bands and
/// one per pole on every longitude: `2 s (s - 2) + 2 s` triangles in all,
/// and every corner index lies in the grid.
pub proof fn lemma_sphere_count(steps: int, i: int)
    requires
        steps >= 2,
        0 <= i < steps * sphere_block(steps),
    ensures
        steps * sphere_block(steps) == 2 * steps * (steps - 2) + 2 * steps,
        0 <= sphere_triangle(steps, i)[0] < (steps + 1) * (steps + 1),
        0 <= sphere_triangle(steps, i)[1] < (steps + 1) * (steps + 1),
        0 <= sphere_triangle(steps, i)[2] < (steps + 1) * (steps + 1),
{
    let block = sphere_block(steps);
    assert(steps * block == 2 * steps * (steps - 2) + 2 * steps) by (nonlinear_arith)
        requires block == 2 * (steps - 2) + 2;
    let lon = i / block;
    let j = i % block;
    assert(0 <= lon < steps && 0 <= j < block) by {
        vstd::arithmetic::div_mod::lemma_fundamental_div_mod(i, block);
        vstd::arithmetic::div_mod::lemma_mod_bound(i, block);
        assert(0 <= lon < steps) by (nonlinear_arith)
            requires i == block * lon + j, 0 <= j < block, 0 <= i < steps * block, block > 0;
    }
    let next = next_ring(steps, lon);
    assert(0 <= next < steps);
    assert forall|r: int, k: int| 0 <= r <= steps && 0 <= k <= steps implies 0 <= #[trigger] grid_index(steps, r, k) < (steps + 1) * (steps + 1) by {
        assert(0 <= r * (steps + 1) + k < (steps + 1) * (steps + 1)) by (nonlinear_arith)
            requires 0 <= r <= steps, 0 <= k <= steps;
    }
}

/// A tessellated torus has two triangles per quad: `2 s s` in all, and every
/// corner index lies in the grid.
pub proof fn lemma_torus_count(steps: int, i: int)
    requires
        steps >= 1,
        0 <= i < 2 * steps * steps,
    ensures
        0 <= torus_triangle(steps, i)[0] < (steps + 1) * (steps + 1),
        0 <= torus_triangle(steps, i)[1] < (steps + 1) * (steps + 1),
        0 <= torus_triangle(steps, i)[2] < (steps + 1) * (steps + 1),
{
    let block = 2 * steps;
    let ring = i / block;
    let j = i % block;
    assert(0 <= ring < steps && 0 <= j < block) by {
        vstd::arithmetic::div_mod::lemma_fundamental_div_mod(i, block);
        vstd::arithmetic::div_mod::lemma_mod_bound(i, block);
        assert(0 <= ring < steps) by (nonlinear_arith)
            requires i == block * ring + j, 0 <= j < block, 0 <= i < 2 * steps * steps, block == 2 * steps;
    }
    assert forall|r: int, k: int| 0 <= r <= steps && 0 <= k <= steps implies 0 <= #[trigger] grid_index(steps, r, k) < (steps + 1) * (steps + 1) by {
        assert(0 <= r * (steps + 1) + k < (steps + 1) * (steps + 1)) by (nonlinear_arith)
            requires 0 <= r <= steps, 0 <= k <= steps;
    }
}

} // verus!
