use vstd::prelude::*;

verus! {

/// Position of slot `k` of tile `t` in an index buffer of `per_tile` slots a tile.
pub open spec fn slot(per_tile: int, t: int, k: int) -> int {
    per_tile * t + k
}

/// Vertex of slot `k` (`0 <= k < 18`) of a tile drawn as a pyramid: vertex 0 is
/// the apex, 1 to 6 the corners, and triangle `j` is (apex, corner `j + 2`
/// wrapping to 1, corner `j + 1`).
pub open spec fn pyramid_vertex(k: int) -> int {
    if k % 3 == 0 {
        0
    } else if k % 3 == 1 {
        (k / 3 + 1) % 6 + 1
    } else {
        k / 3 + 1
    }
}

/// Vertex of slot `k` (`0 <= k < 12`) of a flat hexagon of six corners, fanned
/// from corner 0: triangle `j` is (0, `j + 2`, `j + 1`).
pub open spec fn hexagon_vertex(k: int) -> int {
    if k % 3 == 0 {
        0
    } else if k % 3 == 1 {
        k / 3 + 2
    } else {
        k / 3 + 1
    }
}

/// Triangle indices of `tiles` pyramids of seven vertices each (apex, then
/// six corners), tile `t` using vertices `7 t .. 7 t + 7`.
pub fn pyramid_indices(tiles: usize) -> (v: Vec<u32>)
    requires
        7 * tiles <= u32::MAX + 1,
    ensures
        v@.len() == 18 * tiles,
        forall|t: int, k: int|
            0 <= t < tiles && 0 <= k < 18 ==> v@[#[trigger] slot(18, t, k)] == 7 * t
                + pyramid_vertex(k),
{
    let mut v: Vec<u32> = Vec::new();
    let mut t: usize = 0;
    while t < tiles
        invariant
            7 * tiles <= u32::MAX + 1,
            0 <= t <= tiles,
            v@.len() == 18 * t,
            forall|tt: int, k: int|
                0 <= tt < t && 0 <= k < 18 ==> v@[#[trigger] slot(18, tt, k)] == 7 * tt
                    + pyramid_vertex(k),
        decreases tiles - t,
    {
        let base: u32 = (7 * t) as u32;
        let mut j: u32 = 0;
        while j < 6
            invariant
                7 * tiles <= u32::MAX + 1,
                0 <= t < tiles,
                base == 7 * t,
                0 <= j <= 6,
                v@.len() == 18 * t + 3 * j,
                forall|tt: int, k: int|
                    0 <= tt < t && 0 <= k < 18 ==> v@[#[trigger] slot(18, tt, k)] == 7 * tt
                        + pyramid_vertex(k),
                forall|k: int|
                    0 <= k < 3 * j ==> v@[#[trigger] slot(18, t as int, k)] == 7 * t
                        + pyramid_vertex(k),
            decreases 6 - j,
        {
            let next: u32 = if j == 5 { 1 } else { j + 2 };
            v.push(base);
            v.push(base + next);
            v.push(base + j + 1);
            proof {
                assert(pyramid_vertex(3 * j as int) == 0);
                assert(pyramid_vertex(3 * j + 1) == next);
                assert(pyramid_vertex(3 * j + 2) == j + 1);
            }
            j = j + 1;
        }
        t = t + 1;
    }
    v
}

/// Triangle indices of `tiles` flat hexagons of six vertices each, tile `t`
/// using vertices `6 t .. 6 t + 6`.
pub fn hexagon_indices(tiles: usize) -> (v: Vec<u32>)
    requires
        6 * tiles <= u32::MAX + 1,
    ensures
        v@.len() == 12 * tiles,
        forall|t: int, k: int|
            0 <= t < tiles && 0 <= k < 12 ==> v@[#[trigger] slot(12, t, k)] == 6 * t
                + hexagon_vertex(k),
{
    let mut v: Vec<u32> = Vec::new();
    let mut t: usize = 0;
    while t < tiles
        invariant
            6 * tiles <= u32::MAX + 1,
            0 <= t <= tiles,
            v@.len() == 12 * t,
            forall|tt: int, k: int|
                0 <= tt < t && 0 <= k < 12 ==> v@[#[trigger] slot(12, tt, k)] == 6 * tt
                    + hexagon_vertex(k),
        decreases tiles - t,
    {
        let base: u32 = (6 * t) as u32;
        let mut j: u32 = 0;
        while j < 4
            invariant
                6 * tiles <= u32::MAX + 1,
                0 <= t < tiles,
                base == 6 * t,
                0 <= j <= 4,
                v@.len() == 12 * t + 3 * j,
                forall|tt: int, k: int|
                    0 <= tt < t && 0 <= k < 12 ==> v@[#[trigger] slot(12, tt, k)] == 6 * tt
                        + hexagon_vertex(k),
                forall|k: int|
                    0 <= k < 3 * j ==> v@[#[trigger] slot(12, t as int, k)] == 6 * t
                        + hexagon_vertex(k),
            decreases 4 - j,
        {
            v.push(base);
            v.push(base + j + 2);
            v.push(base + j + 1);
            proof {
                assert(hexagon_vertex(3 * j as int) == 0);
                assert(hexagon_vertex(3 * j + 1) == j + 2);
                assert(hexagon_vertex(3 * j + 2) == j + 1);
            }
            j = j + 1;
        }
        t = t + 1;
    }
    v
}

} // verus!
