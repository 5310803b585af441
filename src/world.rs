use vstd::prelude::*;
use crate::elevation::{classify, class_of, fine_elevation, sample_band, elevation, sample_elevation, NoiseSample, ELEVATION_BOUND, NOISE_UNIT};
use crate::hex::{
    coord_in_disk, disk_count, disk_index, disk_position, hex_disk, in_disk, lemma_disk_index_bounds,
    lemma_disk_index_injective,
};
use crate::tile::{Tile, TileCoord, TileType};

verus! {

/// The noise read at a tile's centre and at the six points one tile radius
/// away from it, at 0, 60, ..., 300 degrees clockwise from north.
#[derive(Clone, Copy, Debug)]
pub struct TileSamples {
    pub center: NoiseSample,
    pub edges: [NoiseSample; 6],
}

/// `t` is the tile built at `coord` from the samples `s`.
pub open spec fn tile_matches(t: Tile, coord: TileCoord, s: TileSamples) -> bool {
    &&& t.coord == coord
    &&& t.elevation == sample_elevation(s.center)
    &&& t.ttype == class_of(t.elevation as int)
    &&& forall|i: int|
        0 <= i < 6 ==> #[trigger] t.slopes@[i] == t.elevation - sample_elevation(s.edges@[i])
}

/// Builds one tile: the centre elevation, its class, and the drop from the
/// centre to each of the six edge points.
pub fn build_tile(coord: TileCoord, samples: &TileSamples) -> (t: Tile)
    ensures
        tile_matches(t, coord, *samples),
{
    let center = elevation(&samples.center);
    let ttype = classify(center);
    let mut slopes: [i64; 6] = [0; 6];
    let mut i: usize = 0;
    while i < 6
        invariant
            0 <= i <= 6,
            center == sample_elevation(samples.center),
            -ELEVATION_BOUND <= center <= ELEVATION_BOUND,
            forall|j: int|
                0 <= j < i ==> #[trigger] slopes@[j] == center - sample_elevation(
                    samples.edges@[j],
                ),
        decreases 6 - i,
    {
        let neighbor = elevation(&samples.edges[i]);
        slopes.set(i, center - neighbor);
        i = i + 1;
    }
    Tile { coord, ttype, elevation: center, slopes }
}

/// A generated map: one tile for every cell of the disk of `radius`, stored
/// in traversal order (rows by ascending `q`, each by ascending `r`).
pub struct World {
    radius: u32,
    tiles: Vec<Tile>,
}

impl World {
    pub closed spec fn radius_spec(&self) -> int {
        self.radius as int
    }

    pub closed spec fn tiles_spec(&self) -> Seq<Tile> {
        self.tiles@
    }

    /// One tile per cell of the disk, the cell at `disk_index` holding
    /// position `i`, each classified by its own elevation.
    pub open spec fn wf(&self) -> bool {
        &&& self.radius_spec() >= 0
        &&& self.tiles_spec().len() == disk_count(self.radius_spec())
        &&& forall|i: int|
            0 <= i < self.tiles_spec().len() ==> {
                let t = #[trigger] self.tiles_spec()[i];
                &&& coord_in_disk(self.radius_spec(), t.coord)
                &&& disk_index(self.radius_spec(), t.coord.q as int, t.coord.r as int) == i
                &&& t.ttype == class_of(t.elevation as int)
            }
    }

    /// The world of `radius` built from `samples`, given in traversal order.
    pub open spec fn built_from(&self, radius: int, samples: Seq<TileSamples>) -> bool {
        &&& self.wf()
        &&& self.radius_spec() == radius
        &&& samples.len() == self.tiles_spec().len()
        &&& forall|i: int|
            0 <= i < samples.len() ==> tile_matches(
                #[trigger] self.tiles_spec()[i],
                self.tiles_spec()[i].coord,
                samples[i],
            )
    }

    /// Builds the world of `radius` from the samples of its cells, taken in
    /// the order of `hex_disk(radius)`.
    pub fn build(radius: u32, samples: &Vec<TileSamples>) -> (w: World)
        requires
            samples@.len() == disk_count(radius as int),
            disk_count(radius as int) <= usize::MAX,
        ensures
            w.built_from(radius as int, samples@),
    {
        let coords = hex_disk(radius);
        let mut tiles: Vec<Tile> = Vec::new();
        let mut i: usize = 0;
        while i < coords.len()
            invariant
                coords@.len() == samples@.len(),
                coords@.len() == disk_count(radius as int),
                0 <= i <= coords@.len(),
                tiles@.len() == i,
                forall|k: int|
                    0 <= k < coords@.len() ==> coord_in_disk(radius as int, #[trigger] coords@[k])
                        && disk_index(radius as int, coords@[k].q as int, coords@[k].r as int) == k,
                forall|k: int|
                    0 <= k < i ==> tile_matches(#[trigger] tiles@[k], coords@[k], samples@[k]),
            decreases coords@.len() - i,
        {
            let t = build_tile(coords[i], &samples[i]);
            tiles.push(t);
            i = i + 1;
        }
        let w = World { radius, tiles };
        assert forall|k: int| 0 <= k < w.tiles@.len() implies #[trigger] w.tiles@[k].coord == coords@[k] by {
            assert(tile_matches(tiles@[k], coords@[k], samples@[k]));
        }
        w
    }

    pub fn radius(&self) -> (r: u32)
        ensures
            r as int == self.radius_spec(),
    {
        self.radius
    }

    /// The tiles in traversal order.
    pub fn tiles(&self) -> (t: &Vec<Tile>)
        ensures
            t@ == self.tiles_spec(),
    {
        &self.tiles
    }

    /// The tile at `coord`, or `None` where `coord` lies outside the disk.
    pub fn get(&self, coord: TileCoord) -> (r: Option<&Tile>)
        requires
            self.wf(),
        ensures
            r.is_some() == coord_in_disk(self.radius_spec(), coord),
            r.is_some() ==> r.unwrap().coord == coord && *r.unwrap() == self.tiles_spec()[disk_index(
                self.radius_spec(),
                coord.q as int,
                coord.r as int,
            )],
    {
        let len = self.tiles.len();
        proof {
            assert(disk_count(self.radius as int) == len);
        }
        match disk_position(self.radius, coord) {
            Some(p) => {
                proof {
                    let rad = self.radius as int;
                    let c = self.tiles@[p as int].coord;
                    lemma_disk_index_bounds(rad, coord.q as int, coord.r as int);
                    lemma_disk_index_injective(
                        rad,
                        c.q as int,
                        c.r as int,
                        coord.q as int,
                        coord.r as int,
                    );
                }
                Some(&self.tiles[p])
            },
            None => None,
        }
    }
}

/// A world holds exactly `3 r^2 + 3 r + 1` tiles, every one at a cell of the
/// disk of its radius, every cell of the disk at exactly one tile.
pub proof fn lemma_world_complete(w: &World)
    requires
        w.wf(),
    ensures
        w.tiles_spec().len() == 3 * w.radius_spec() * w.radius_spec() + 3 * w.radius_spec() + 1,
        forall|i: int|
            0 <= i < w.tiles_spec().len() ==> coord_in_disk(
                w.radius_spec(),
                #[trigger] w.tiles_spec()[i].coord,
            ),
        forall|q: int, r: int|
            #![trigger disk_index(w.radius_spec(), q, r)]
            in_disk(w.radius_spec(), q, r) ==> {
                let i = disk_index(w.radius_spec(), q, r);
                0 <= i < w.tiles_spec().len() && w.tiles_spec()[i].coord.q == q
                    && w.tiles_spec()[i].coord.r == r
            },
        forall|i: int, j: int|
            0 <= i < j < w.tiles_spec().len() ==> #[trigger] w.tiles_spec()[i].coord
                != #[trigger] w.tiles_spec()[j].coord,
{
    let rad = w.radius_spec();
    assert forall|q: int, r: int|
        #![trigger disk_index(rad, q, r)]
        in_disk(rad, q, r) implies {
            let i = disk_index(rad, q, r);
            0 <= i < w.tiles_spec().len() && w.tiles_spec()[i].coord.q == q
                && w.tiles_spec()[i].coord.r == r
        } by {
        lemma_disk_index_bounds(rad, q, r);
        let c = w.tiles_spec()[disk_index(rad, q, r)].coord;
        lemma_disk_index_injective(rad, c.q as int, c.r as int, q, r);
    }
}

/// Every tile's class is the band of its own elevation, and never `Lake`.
pub proof fn lemma_classification_consistent(w: &World)
    requires
        w.wf(),
    ensures
        forall|i: int|
            0 <= i < w.tiles_spec().len() ==> {
                let t = #[trigger] w.tiles_spec()[i];
                t.ttype == class_of(t.elevation as int) && t.ttype != TileType::Lake
            },
{
}

/// Two worlds built from the same radius and samples agree tile for tile:
/// same coordinates, elevations, classes and slopes.
pub proof fn lemma_generation_deterministic(
    w1: &World,
    w2: &World,
    radius: int,
    samples: Seq<TileSamples>,
)
    requires
        w1.built_from(radius, samples),
        w2.built_from(radius, samples),
    ensures
        w1.tiles_spec().len() == w2.tiles_spec().len(),
        forall|i: int|
            0 <= i < w1.tiles_spec().len() ==> {
                let a = #[trigger] w1.tiles_spec()[i];
                let b = w2.tiles_spec()[i];
                a.coord == b.coord && a.elevation == b.elevation && a.ttype == b.ttype
                    && a.slopes@ == b.slopes@
            },
{
    assert forall|i: int| 0 <= i < w1.tiles_spec().len() implies {
        let a = #[trigger] w1.tiles_spec()[i];
        let b = w2.tiles_spec()[i];
        a.coord == b.coord && a.elevation == b.elevation && a.ttype == b.ttype && a.slopes@
            == b.slopes@
    } by {
        let a = w1.tiles_spec()[i];
        let b = w2.tiles_spec()[i];
        assert(tile_matches(a, a.coord, samples[i]));
        assert(tile_matches(b, b.coord, samples[i]));
        lemma_disk_index_injective(
            radius,
            a.coord.q as int,
            a.coord.r as int,
            b.coord.q as int,
            b.coord.r as int,
        );
        assert(a.slopes@ =~= b.slopes@);
    }
}

pub open spec fn flat_sample() -> NoiseSample {
    NoiseSample { continentalness: 0, erosion: 0, peaks: 0, terrain: 0 }
}

/// Where every channel reads 0 everywhere, every tile is flat: all six slopes
/// are 0, and the elevation is 20 (band `(10, 20)` with the terrain shifted
/// to 1), which is `LowLand`.
pub proof fn lemma_flat_world(w: &World, radius: int, samples: Seq<TileSamples>)
    requires
        w.built_from(radius, samples),
        forall|i: int|
            0 <= i < samples.len() ==> (#[trigger] samples[i]).center == flat_sample() && forall|
                k: int,
            |
                0 <= k < 6 ==> #[trigger] samples[i].edges@[k] == flat_sample(),
    ensures
        forall|i: int|
            0 <= i < w.tiles_spec().len() ==> {
                let t = #[trigger] w.tiles_spec()[i];
                &&& t.elevation == 20 * NOISE_UNIT
                &&& t.ttype == TileType::LowLand
                &&& forall|k: int| 0 <= k < 6 ==> #[trigger] t.slopes@[k] == 0
            },
{
    assert(sample_band(flat_sample()) == (10int, 20int));
    assert(fine_elevation(10, 20, 0) == 20 * NOISE_UNIT);
    assert(sample_elevation(flat_sample()) == 20 * NOISE_UNIT);
    assert forall|i: int| 0 <= i < w.tiles_spec().len() implies {
        let t = #[trigger] w.tiles_spec()[i];
        &&& t.elevation == 20 * NOISE_UNIT
        &&& t.ttype == TileType::LowLand
        &&& forall|k: int| 0 <= k < 6 ==> #[trigger] t.slopes@[k] == 0
    } by {
        let t = w.tiles_spec()[i];
        assert(tile_matches(t, t.coord, samples[i]));
        assert forall|k: int| 0 <= k < 6 implies #[trigger] t.slopes@[k] == 0 by {
            assert(samples[i].edges@[k] == flat_sample());
        }
    }
}

/// A world of radius 0 is the single tile at the origin.
pub proof fn lemma_single_tile(w: &World)
    requires
        w.wf(),
        w.radius_spec() == 0,
    ensures
        w.tiles_spec().len() == 1,
        w.tiles_spec()[0].coord == (TileCoord { q: 0, r: 0 }),
{
    let c = w.tiles_spec()[0].coord;
    assert(coord_in_disk(0, c));
}

} // verus!
