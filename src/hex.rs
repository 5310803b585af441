use vstd::prelude::*;
use crate::tile::TileCoord;

verus! {

/// The hex-disk constraint: `(q, r)` lies within `radius` steps of the origin.
pub open spec fn in_disk(radius: int, q: int, r: int) -> bool {
    -radius <= q <= radius && -radius <= r <= radius && -radius <= q + r <= radius
}

pub open spec fn coord_in_disk(radius: int, c: TileCoord) -> bool {
    in_disk(radius, c.q as int, c.r as int)
}

/// Smallest `r` of row `q` of the disk.
pub open spec fn row_min(radius: int, q: int) -> int {
    if -radius >= -q - radius { -radius } else { -q - radius }
}

/// Largest `r` of row `q` of the disk.
pub open spec fn row_max(radius: int, q: int) -> int {
    if radius <= radius - q { radius } else { radius - q }
}

/// Closed form of the number of cells of a disk.
pub open spec fn disk_count(radius: int) -> int {
    3 * radius * radius + 3 * radius + 1
}

/// Number of cells in the rows `-radius .. q` (exclusive).
pub open spec fn cells_before(radius: int, q: int) -> int
    decreases q + radius,
{
    if q <= -radius {
        0
    } else {
        cells_before(radius, q - 1) + (row_max(radius, q - 1) - row_min(radius, q - 1) + 1)
    }
}

/// Position of `(q, r)` in the traversal order: rows by ascending `q`, cells
/// of a row by ascending `r`.
pub open spec fn disk_index(radius: int, q: int, r: int) -> int {
    cells_before(radius, q) + (r - row_min(radius, q))
}

proof fn lemma_cells_before_closed(radius: int, q: int)
    requires
        radius >= 0,
        -radius <= q <= radius + 1,
    ensures
        q <= 0 ==> 2 * cells_before(radius, q) == 2 * (q + radius) * (radius + 1) + (q + radius) * (q
            + radius - 1),
        q >= 0 ==> 2 * cells_before(radius, q) == 2 * radius * (radius + 1) + radius * (radius - 1)
            + 2 * q * (2 * radius + 1) - q * (q - 1),
    decreases q + radius,
{
    if q > -radius {
        lemma_cells_before_closed(radius, q - 1);
        let k = q - 1;
        if k < 0 {
            assert(row_max(radius, k) - row_min(radius, k) + 1 == 2 * radius + k + 1);
            let n = k + radius;
            assert(2 * (n + 1) * (radius + 1) + (n + 1) * n == 2 * n * (radius + 1) + n * (n - 1) + 2
                * (2 * radius + k + 1)) by (nonlinear_arith)
                requires
                    n == k + radius,
            ;
            if q == 0 {
                assert(2 * (q + radius) * (radius + 1) + (q + radius) * (q + radius - 1) == 2 * radius
                    * (radius + 1) + radius * (radius - 1) + 2 * q * (2 * radius + 1) - q * (q - 1))
                    by (nonlinear_arith)
                    requires
                        q == 0,
                ;
            }
        } else {
            assert(row_max(radius, k) - row_min(radius, k) + 1 == 2 * radius - k + 1);
            assert(2 * q * (2 * radius + 1) - q * (q - 1) == 2 * k * (2 * radius + 1) - k * (k - 1) + 2
                * (2 * radius - k + 1)) by (nonlinear_arith)
                requires
                    q == k + 1,
            ;
        }
    } else {
        assert((q + radius) * (q + radius - 1) == 0) by (nonlinear_arith)
            requires
                q + radius == 0,
        ;
    }
}

/// All rows together hold exactly `disk_count(radius)` cells.
pub proof fn lemma_cells_total(radius: int)
    requires
        radius >= 0,
    ensures
        cells_before(radius, radius + 1) == disk_count(radius),
{
    lemma_cells_before_closed(radius, radius + 1);
    assert(2 * radius * (radius + 1) + radius * (radius - 1) + 2 * (radius + 1) * (2 * radius + 1)
        - (radius + 1) * radius == 2 * disk_count(radius)) by (nonlinear_arith);
}

proof fn lemma_cells_monotone(radius: int, a: int, b: int)
    requires
        radius >= 0,
        -radius <= a <= b <= radius + 1,
    ensures
        cells_before(radius, a) <= cells_before(radius, b),
    decreases b - a,
{
    if a < b {
        lemma_cells_monotone(radius, a, b - 1);
    }
}

/// `disk_index` numbers the cells of the disk `0 .. disk_count(radius)`
/// without gaps or repeats.
pub proof fn lemma_disk_index_bounds(radius: int, q: int, r: int)
    requires
        radius >= 0,
        in_disk(radius, q, r),
    ensures
        cells_before(radius, q) <= disk_index(radius, q, r) < cells_before(radius, q + 1),
        0 <= disk_index(radius, q, r) < disk_count(radius),
{
    lemma_cells_monotone(radius, -radius, q);
    lemma_cells_monotone(radius, q + 1, radius + 1);
    lemma_cells_total(radius);
}

/// Distinct cells of a disk have distinct positions in the traversal order.
pub proof fn lemma_disk_index_injective(radius: int, q1: int, r1: int, q2: int, r2: int)
    requires
        radius >= 0,
        in_disk(radius, q1, r1),
        in_disk(radius, q2, r2),
        disk_index(radius, q1, r1) == disk_index(radius, q2, r2),
    ensures
        q1 == q2 && r1 == r2,
{
    lemma_disk_index_bounds(radius, q1, r1);
    lemma_disk_index_bounds(radius, q2, r2);
    if q1 < q2 {
        lemma_cells_monotone(radius, q1 + 1, q2);
    } else if q2 < q1 {
        lemma_cells_monotone(radius, q2 + 1, q1);
    }
}

proof fn lemma_radius_fits(radius: int)
    requires
        0 <= radius,
        disk_count(radius) <= usize::MAX,
    ensures
        2 * radius + 1 <= isize::MAX,
{
    assert(usize::MAX == 2 * isize::MAX + 1);
    assert(2 * radius + 1 <= 2 * isize::MAX / 3 + 2) by (nonlinear_arith)
        requires
            3 * radius * radius + 3 * radius + 1 <= 2 * isize::MAX + 1,
            0 <= radius,
    ;
    assert(isize::MAX >= 0x7fff_ffff);
}

/// The cells of the disk of `radius` around the origin, rows by ascending
/// `q` and each row by ascending `r`.
pub fn hex_disk(radius: u32) -> (coords: Vec<TileCoord>)
    requires
        disk_count(radius as int) <= usize::MAX,
    ensures
        coords@.len() == disk_count(radius as int),
        forall|i: int|
            0 <= i < coords@.len() ==> coord_in_disk(radius as int, #[trigger] coords@[i])
                && disk_index(radius as int, coords@[i].q as int, coords@[i].r as int) == i,
        forall|q: int, r: int|
            #![trigger disk_index(radius as int, q, r)]
            in_disk(radius as int, q, r) ==> coords@[disk_index(radius as int, q, r)]
                == (TileCoord { q: q as isize, r: r as isize }),
{
    let ghost rad = radius as int;
    proof {
        lemma_radius_fits(rad);
    }
    let rr: isize = radius as isize;
    let mut coords: Vec<TileCoord> = Vec::new();
    let mut q: isize = -rr;
    while q <= rr
        invariant
            rad == rr,
            0 <= 2 * rr + 1 <= isize::MAX,
            -rr <= q <= rr + 1,
            coords@.len() == cells_before(rad, q as int),
            forall|i: int|
                0 <= i < coords@.len() ==> coord_in_disk(rad, #[trigger] coords@[i]) && disk_index(
                    rad,
                    coords@[i].q as int,
                    coords@[i].r as int,
                ) == i,
            forall|qq: int, r: int|
                #![trigger disk_index(rad, qq, r)]
                in_disk(rad, qq, r) && qq < q ==> disk_index(rad, qq, r) < coords@.len()
                    && coords@[disk_index(rad, qq, r)] == (TileCoord { q: qq as isize, r: r as isize }),
        decreases rr + 1 - q,
    {
        let rmin: isize = if -rr >= -q - rr { -rr } else { -q - rr };
        let rmax: isize = if rr <= rr - q { rr } else { rr - q };
        let mut r: isize = rmin;
        while r <= rmax
            invariant
                rad == rr,
                0 <= 2 * rr + 1 <= isize::MAX,
                -rr <= q <= rr,
                rmin == row_min(rad, q as int),
                rmax == row_max(rad, q as int),
                rmin <= r <= rmax + 1,
                coords@.len() == cells_before(rad, q as int) + (r - rmin),
                forall|i: int|
                    0 <= i < coords@.len() ==> coord_in_disk(rad, #[trigger] coords@[i])
                        && disk_index(rad, coords@[i].q as int, coords@[i].r as int) == i,
                forall|qq: int, r2: int|
                    #![trigger disk_index(rad, qq, r2)]
                    in_disk(rad, qq, r2) && (qq < q || (qq == q && r2 < r)) ==> disk_index(rad, qq, r2)
                        < coords@.len() && coords@[disk_index(rad, qq, r2)] == (TileCoord {
                        q: qq as isize,
                        r: r2 as isize,
                    }),
            decreases rmax + 1 - r,
        {
            proof {
                assert(disk_index(rad, q as int, r as int) == coords@.len());
            }
            let ghost before = coords@;
            coords.push(TileCoord { q, r });
            proof {
                assert forall|qq: int, r2: int|
                    #![trigger disk_index(rad, qq, r2)]
                    in_disk(rad, qq, r2) && (qq < q || (qq == q && r2 < r + 1)) implies disk_index(
                        rad,
                        qq,
                        r2,
                    ) < coords@.len() && coords@[disk_index(rad, qq, r2)] == (TileCoord {
                        q: qq as isize,
                        r: r2 as isize,
                    }) by {
                    if qq == q && r2 == r {
                        assert(coords@[disk_index(rad, qq, r2)] == TileCoord { q, r });
                    } else {
                        lemma_disk_index_bounds(rad, qq, r2);
                    }
                }
            }
            r = r + 1;
        }
        q = q + 1;
    }
    proof {
        lemma_cells_total(rad);
    }
    coords
}

/// Number of cells of the disk of `radius`, or `None` where it exceeds the
/// largest `usize`.
pub fn cell_count(radius: u32) -> (n: Option<usize>)
    ensures
        n.is_some() == (disk_count(radius as int) <= usize::MAX),
        n.is_some() ==> n.unwrap() == disk_count(radius as int),
{
    let r: u128 = radius as u128;
    proof {
        assert(r * r <= 0xffff_ffff * 0xffff_ffff) by (nonlinear_arith)
            requires
                r <= 0xffff_ffff,
        ;
    }
    let c: u128 = 3 * (r * r) + 3 * r + 1;
    proof {
        assert(c == disk_count(radius as int)) by (nonlinear_arith)
            requires
                c == 3 * (r * r) + 3 * r + 1,
                r == radius,
        ;
    }
    if c <= usize::MAX as u128 {
        Some(c as usize)
    } else {
        None
    }
}

/// `n * (n - 1) / 2`, the number of pairs among `n` items.
fn pairs(n: i128) -> (h: i128)
    requires
        0 <= n <= 0x4_0000_0000,
    ensures
        2 * h == n * (n - 1),
        0 <= h <= 0x10_0000_0000_0000_0000,
{
    if n % 2 == 0 {
        let half = n / 2;
        proof {
            assert(2 * (half * (n - 1)) == n * (n - 1) && 0 <= half * (n - 1) <= 0x10_0000_0000_0000_0000)
                by (nonlinear_arith)
                requires
                    n == 2 * half,
                    0 <= n <= 0x4_0000_0000,
            ;
        }
        half * (n - 1)
    } else {
        let half = (n - 1) / 2;
        proof {
            assert(2 * (n * half) == n * (n - 1) && 0 <= n * half <= 0x10_0000_0000_0000_0000)
                by (nonlinear_arith)
                requires
                    n - 1 == 2 * half,
                    0 <= n <= 0x4_0000_0000,
            ;
        }
        n * half
    }
}

/// Position of `c` in the traversal order of the disk of `radius`, from the
/// closed form of the row sizes; `None` where `c` lies outside the disk.
pub fn disk_position(radius: u32, c: TileCoord) -> (p: Option<usize>)
    requires
        disk_count(radius as int) <= usize::MAX,
    ensures
        p.is_some() == coord_in_disk(radius as int, c),
        p.is_some() ==> p.unwrap() == disk_index(radius as int, c.q as int, c.r as int),
{
    let rr: i128 = radius as i128;
    let q: i128 = c.q as i128;
    let r: i128 = c.r as i128;
    if !(-rr <= q && q <= rr && -rr <= r && r <= rr && -rr <= q + r && q + r <= rr) {
        return None;
    }
    let rmin: i128 = if -rr >= -q - rr { -rr } else { -q - rr };
    proof {
        lemma_cells_before_closed(radius as int, q as int);
        lemma_disk_index_bounds(radius as int, q as int, r as int);
    }
    let before: i128 = if q <= 0 {
        let n = q + rr;
        let p = pairs(n);
        proof {
            assert(0 <= n * (rr + 1) <= 0x4_0000_0000 * 0x4_0000_0000) by (nonlinear_arith)
                requires
                    0 <= n <= 0x4_0000_0000,
                    0 <= rr + 1 <= 0x4_0000_0000,
            ;
            assert(2 * (n * (rr + 1) + p) == 2 * cells_before(radius as int, q as int)) by (
            nonlinear_arith)
                requires
                    n == q + rr,
                    2 * p == n * (n - 1),
                    2 * cells_before(radius as int, q as int) == 2 * (q + rr) * (rr + 1) + (q + rr) * (q
                        + rr - 1),
            ;
        }
        n * (rr + 1) + p
    } else {
        let a = pairs(rr);
        let b = pairs(q);
        proof {
            assert(0 <= rr * (rr + 1) <= 0x4_0000_0000 * 0x4_0000_0000 && 0 <= q * (2 * rr + 1)
                <= 0x4_0000_0000 * 0x4_0000_0000) by (nonlinear_arith)
                requires
                    0 <= rr <= 0x1_0000_0000,
                    0 < q <= rr,
            ;
            assert(2 * (rr * (rr + 1) + a + q * (2 * rr + 1) - b) == 2 * cells_before(
                radius as int,
                q as int,
            )) by (nonlinear_arith)
                requires
                    2 * a == rr * (rr - 1),
                    2 * b == q * (q - 1),
                    2 * cells_before(radius as int, q as int) == 2 * rr * (rr + 1) + rr * (rr - 1) + 2
                        * q * (2 * rr + 1) - q * (q - 1),
            ;
        }
        rr * (rr + 1) + a + q * (2 * rr + 1) - b
    };
    proof {
        assert(before == cells_before(radius as int, q as int));
    }
    Some((before + r - rmin) as usize)
}

} // verus!
