use vstd::prelude::*;
use crate::tile::TileType;

verus! {

/// Fixed-point scale: a noise value or an elevation `v` is held as
/// `v * NOISE_UNIT`, rounded to an integer.
pub const NOISE_UNIT: i64 = 1_000_000;

/// Continentalness below this is deep ocean (0.0).
pub const OCEAN_LIMIT: i32 = 0;

/// Continentalness below this (and not ocean) is shallow sea (0.2).
pub const SEA_LIMIT: i32 = 200_000;

/// Continentalness at or above this on stable ground is interior plateau (0.9).
pub const INTERIOR_LIMIT: i32 = 900_000;

/// Erosion below this is the mountainous regime (-0.3).
pub const EROSION_LIMIT: i32 = -300_000;

/// Peaks noise strictly within this distance of zero makes a sharp peak (0.1).
pub const PEAK_WIDTH: i32 = 100_000;

/// Coordinate divisors of the four noise channels.
pub const CONTINENTALNESS_SCALE: u32 = 64;

pub const EROSION_SCALE: u32 = 64;

pub const PEAKS_SCALE: u32 = 16;

pub const TERRAIN_SCALE: u32 = 32;

/// The four noise channels read at one point, in fixed point: continentalness
/// and erosion at `(x, z) / 64`, peaks at `(x, z) / 16`, terrain at
/// `(x, z) / 32`.
#[derive(Clone, Copy, Debug, PartialEq, Eq, Structural)]
pub struct NoiseSample {
    pub continentalness: i32,
    pub erosion: i32,
    pub peaks: i32,
    pub terrain: i32,
}

/// The elevation band `(min, max)` picked by the coarse channels.
pub open spec fn band(continentalness: int, erosion: int, peaks: int) -> (int, int) {
    if continentalness < OCEAN_LIMIT {
        (0, 10)
    } else if continentalness < SEA_LIMIT {
        (10, 20)
    } else if erosion < EROSION_LIMIT {
        if -PEAK_WIDTH < peaks < PEAK_WIDTH {
            (240, 256)
        } else {
            (80, 224)
        }
    } else if continentalness < INTERIOR_LIMIT {
        (20, 144)
    } else {
        (96, 208)
    }
}

pub open spec fn sample_band(s: NoiseSample) -> (int, int) {
    band(s.continentalness as int, s.erosion as int, s.peaks as int)
}

/// Terrain noise `t` placed in the band `(lo, hi)` after the shift
/// `t' = (t + 1) / 1`, so that `t` in `[-1, 1)` lands in
/// `[lo, lo + 2 * (hi - lo))`. Result in fixed point.
pub open spec fn fine_elevation(lo: int, hi: int, terrain: int) -> int {
    (terrain + NOISE_UNIT) * (hi - lo) + lo * NOISE_UNIT
}

/// Elevation at a point, in fixed point.
pub open spec fn sample_elevation(s: NoiseSample) -> int {
    fine_elevation(sample_band(s).0, sample_band(s).1, s.terrain as int)
}

/// Class of a fixed-point elevation.
pub open spec fn class_of(elevation: int) -> TileType {
    if elevation < 10 * NOISE_UNIT {
        TileType::Ocean
    } else if elevation < 20 * NOISE_UNIT {
        TileType::Sea
    } else if elevation < 128 * NOISE_UNIT {
        TileType::LowLand
    } else if elevation < 224 * NOISE_UNIT {
        TileType::Plateau
    } else {
        TileType::Mountain
    }
}

/// Picks the elevation band of a point from its coarse noise channels.
pub fn elevation_range(s: &NoiseSample) -> (b: (u32, u32))
    ensures
        (b.0 as int, b.1 as int) == sample_band(*s),
        b.0 < b.1 <= 256,
{
    if s.continentalness < OCEAN_LIMIT {
        (0, 10)
    } else if s.continentalness < SEA_LIMIT {
        (10, 20)
    } else if s.erosion < EROSION_LIMIT {
        if -PEAK_WIDTH < s.peaks && s.peaks < PEAK_WIDTH {
            (240, 256)
        } else {
            (80, 224)
        }
    } else if s.continentalness < INTERIOR_LIMIT {
        (20, 144)
    } else {
        (96, 208)
    }
}

/// Elevation of a point: its band, filled by the shifted terrain channel.
pub fn elevation(s: &NoiseSample) -> (e: i64)
    ensures
        e == sample_elevation(*s),
        -ELEVATION_BOUND <= e <= ELEVATION_BOUND,
{
    let (lo, hi) = elevation_range(s);
    let t: i64 = s.terrain as i64 + NOISE_UNIT;
    let span: i64 = (hi - lo) as i64;
    proof {
        assert(-0x1_0000_0000 * 256 <= t * span <= 0x1_0000_0000 * 256) by (nonlinear_arith)
            requires
                -0x1_0000_0000 <= t <= 0x1_0000_0000,
                0 < span <= 256,
        ;
    }
    t * span + lo as i64 * NOISE_UNIT
}

/// Every elevation lies within this distance of zero.
pub const ELEVATION_BOUND: i64 = 0x1_0000_0000 * 257;

/// Class of a fixed-point elevation: `Ocean` below 10, `Sea` below 20,
/// `LowLand` below 128, `Plateau` below 224, `Mountain` above.
pub fn classify(elevation: i64) -> (t: TileType)
    ensures
        t == class_of(elevation as int),
        t != TileType::Lake,
{
    if elevation < 10 * NOISE_UNIT {
        TileType::Ocean
    } else if elevation < 20 * NOISE_UNIT {
        TileType::Sea
    } else if elevation < 128 * NOISE_UNIT {
        TileType::LowLand
    } else if elevation < 224 * NOISE_UNIT {
        TileType::Plateau
    } else {
        TileType::Mountain
    }
}

/// With the shift `(t + 1) / 1` a terrain value in `[-1, 1)` puts the
/// elevation in `[min, min + 2 * (max - min))` of its band, and it stays
/// below `max` exactly when the terrain value is negative.
pub proof fn lemma_band_containment(s: NoiseSample)
    requires
        -NOISE_UNIT <= s.terrain < NOISE_UNIT,
    ensures
        sample_band(s).0 * NOISE_UNIT <= sample_elevation(s),
        sample_elevation(s) < (2 * sample_band(s).1 - sample_band(s).0) * NOISE_UNIT,
        sample_elevation(s) < sample_band(s).1 * NOISE_UNIT <==> s.terrain < 0,
{
    let lo = sample_band(s).0;
    let hi = sample_band(s).1;
    let t = s.terrain as int;
    assert(lo < hi);
    assert(0 <= (t + NOISE_UNIT) * (hi - lo) < 2 * NOISE_UNIT * (hi - lo)) by (nonlinear_arith)
        requires
            -NOISE_UNIT <= t < NOISE_UNIT,
            lo < hi,
    ;
    assert(2 * NOISE_UNIT * (hi - lo) + lo * NOISE_UNIT == (2 * hi - lo) * NOISE_UNIT) by (
    nonlinear_arith);
    assert((t + NOISE_UNIT) * (hi - lo) < NOISE_UNIT * (hi - lo) <==> t < 0) by (nonlinear_arith)
        requires
            lo < hi,
    ;
}

} // verus!
