use vstd::prelude::*;

verus! {

/// Axial coordinate of a cell of the hex grid.
#[derive(Clone, Copy, Debug, PartialEq, Eq, Structural, Hash)]
pub struct TileCoord {
    pub q: isize,
    pub r: isize,
}

/// Terrain classification of a tile.
///
/// `Lake` is part of the domain but no elevation maps to it: consumers that
/// match on every variant keep working if it is produced one day.
#[derive(Clone, Copy, Debug, PartialEq, Eq, Structural)]
pub enum TileType {
    Ocean,
    Sea,
    Lake,
    LowLand,
    Plateau,
    Mountain,
}

/// One generated cell: its coordinate, class, centre elevation and the six
/// signed drops from the centre to the points towards its neighbours.
/// Elevations and slopes are fixed-point values in millionths.
#[derive(Clone, Copy, Debug)]
pub struct Tile {
    pub coord: TileCoord,
    pub ttype: TileType,
    pub elevation: i64,
    pub slopes: [i64; 6],
}

} // verus!
