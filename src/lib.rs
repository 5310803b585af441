//! Procedural generation of hexagonal terrain maps.
//!
//! Noise values and elevations are carried as fixed-point integers in
//! millionths (see [`elevation::NOISE_UNIT`]); everything that decides the
//! shape of a world (the hex-disk traversal, the elevation bands, the
//! classification of tiles and their edge slopes) is verified here.
pub mod tile;
pub mod hex;
pub mod elevation;
pub mod world;
pub mod gen;
pub mod mesh;
