use hexterrain::elevation::{classify, elevation, elevation_range, NoiseSample, NOISE_UNIT};
use hexterrain::gen::{channel_seeds, field_seed, ChannelSeeds, WorldGenerator, MAX_FIELD_SEED};
use hexterrain::hex::{cell_count, disk_position, hex_disk};
use hexterrain::tile::{TileCoord, TileType};
use hexterrain::world::{build_tile, TileSamples, World};

fn sample(c: i32, e: i32, p: i32, t: i32) -> NoiseSample {
    NoiseSample { continentalness: c, erosion: e, peaks: p, terrain: t }
}

fn flat() -> NoiseSample {
    sample(0, 0, 0, 0)
}

fn uniform(s: NoiseSample) -> TileSamples {
    TileSamples { center: s, edges: [s; 6] }
}

#[test]
fn disk_of_radius_zero_is_origin() {
    let coords = hex_disk(0);
    assert_eq!(coords, vec![TileCoord { q: 0, r: 0 }]);
}

#[test]
fn disk_of_radius_one_in_row_order() {
    let coords = hex_disk(1);
    let expected = vec![
        TileCoord { q: -1, r: 0 },
        TileCoord { q: -1, r: 1 },
        TileCoord { q: 0, r: -1 },
        TileCoord { q: 0, r: 0 },
        TileCoord { q: 0, r: 1 },
        TileCoord { q: 1, r: -1 },
        TileCoord { q: 1, r: 0 },
    ];
    assert_eq!(coords, expected);
}

#[test]
fn disk_sizes_follow_closed_form() {
    for radius in 0u32..12 {
        let coords = hex_disk(radius);
        let r = radius as usize;
        assert_eq!(coords.len(), 3 * r * r + 3 * r + 1);
        let rad = radius as isize;
        for c in &coords {
            assert!(c.q.abs() <= rad && c.r.abs() <= rad && (c.q + c.r).abs() <= rad);
        }
        for i in 1..coords.len() {
            let a = coords[i - 1];
            let b = coords[i];
            assert!((a.q, a.r) < (b.q, b.r));
        }
    }
}

#[test]
fn cell_count_values() {
    assert_eq!(cell_count(0), Some(1));
    assert_eq!(cell_count(1), Some(7));
    assert_eq!(cell_count(64), Some(12481));
    if usize::BITS == 64 {
        assert_eq!(cell_count(u32::MAX), None);
    }
}

#[test]
fn bands_of_each_branch() {
    assert_eq!(elevation_range(&sample(-1, 0, 0, 0)), (0, 10));
    assert_eq!(elevation_range(&sample(0, 0, 0, 0)), (10, 20));
    assert_eq!(elevation_range(&sample(199_999, 0, 0, 0)), (10, 20));
    assert_eq!(elevation_range(&sample(200_000, -300_001, 99_999, 0)), (240, 256));
    assert_eq!(elevation_range(&sample(200_000, -300_001, -99_999, 0)), (240, 256));
    assert_eq!(elevation_range(&sample(200_000, -300_001, 100_000, 0)), (80, 224));
    assert_eq!(elevation_range(&sample(200_000, -300_001, -100_000, 0)), (80, 224));
    assert_eq!(elevation_range(&sample(200_000, -300_000, 0, 0)), (20, 144));
    assert_eq!(elevation_range(&sample(899_999, 0, 0, 0)), (20, 144));
    assert_eq!(elevation_range(&sample(900_000, 0, 0, 0)), (96, 208));
}

#[test]
fn terrain_shift_is_plus_one_over_one() {
    // t = 0 lands on the top of the band, t = -1 on its bottom.
    assert_eq!(elevation(&sample(-1, 0, 0, 0)), 10 * NOISE_UNIT);
    assert_eq!(elevation(&sample(-1, 0, 0, -1_000_000)), 0);
    // t = 0.5 in band (20, 144): 1.5 * 124 + 20 = 206.
    assert_eq!(elevation(&sample(300_000, 0, 0, 500_000)), 206 * NOISE_UNIT);
}

#[test]
fn band_containment_with_shift() {
    for &(c, e, p) in &[(-5, 0, 0), (100_000, 0, 0), (500_000, -400_000, 0), (500_000, -400_000, 500_000), (500_000, 0, 0), (950_000, 0, 0)] {
        let (lo, hi) = elevation_range(&sample(c, e, p, 0));
        let (lo, hi) = (lo as i64, hi as i64);
        for t in [-1_000_000, -400_000, -1, 0, 1, 700_000, 999_999] {
            let v = elevation(&sample(c, e, p, t));
            assert!(lo * NOISE_UNIT <= v);
            assert!(v < (2 * hi - lo) * NOISE_UNIT);
            assert_eq!(v < hi * NOISE_UNIT, t < 0);
        }
    }
}

#[test]
fn classification_thresholds() {
    assert_eq!(classify(-1), TileType::Ocean);
    assert_eq!(classify(10 * NOISE_UNIT - 1), TileType::Ocean);
    assert_eq!(classify(10 * NOISE_UNIT), TileType::Sea);
    assert_eq!(classify(20 * NOISE_UNIT - 1), TileType::Sea);
    assert_eq!(classify(20 * NOISE_UNIT), TileType::LowLand);
    assert_eq!(classify(128 * NOISE_UNIT - 1), TileType::LowLand);
    assert_eq!(classify(128 * NOISE_UNIT), TileType::Plateau);
    assert_eq!(classify(224 * NOISE_UNIT - 1), TileType::Plateau);
    assert_eq!(classify(224 * NOISE_UNIT), TileType::Mountain);
    assert_eq!(classify(512 * NOISE_UNIT), TileType::Mountain);
}

#[test]
fn tile_slopes_are_drops_to_edges() {
    let center = sample(300_000, 0, 0, 0); // band (20, 144): 144
    let mut edges = [center; 6];
    edges[1] = sample(-1, 0, 0, 0); // 10
    edges[4] = sample(950_000, 0, 0, 0); // 208
    let t = build_tile(TileCoord { q: 2, r: -1 }, &TileSamples { center, edges });
    assert_eq!(t.coord, TileCoord { q: 2, r: -1 });
    assert_eq!(t.elevation, 144 * NOISE_UNIT);
    assert_eq!(t.ttype, TileType::Plateau);
    assert_eq!(t.slopes, [0, 134 * NOISE_UNIT, 0, 0, -64 * NOISE_UNIT, 0]);
}

#[test]
fn flat_world_has_no_slopes() {
    for radius in 0u32..4 {
        let n = cell_count(radius).unwrap();
        let samples = vec![uniform(flat()); n];
        let w = World::build(radius, &samples);
        assert_eq!(w.tiles().len(), n);
        for t in w.tiles() {
            assert_eq!(t.elevation, 20 * NOISE_UNIT);
            assert_eq!(t.ttype, TileType::LowLand);
            assert_eq!(t.slopes, [0; 6]);
        }
    }
}

#[test]
fn lookup_inside_and_outside() {
    let samples: Vec<TileSamples> =
        (0..7).map(|i| uniform(sample(-1, 0, 0, -1_000_000 + i * 100_000))).collect();
    let w = World::build(1, &samples);
    for (i, c) in hex_disk(1).iter().enumerate() {
        let t = w.get(*c).unwrap();
        assert_eq!(t.coord, *c);
        assert_eq!(t.elevation, i as i64 * 1_000_000);
    }
    assert!(w.get(TileCoord { q: 1, r: 1 }).is_none());
    assert!(w.get(TileCoord { q: 2, r: 0 }).is_none());
    assert!(w.get(TileCoord { q: -1, r: -1 }).is_none());
}

#[test]
fn classes_match_elevations_and_never_lake() {
    let samples: Vec<TileSamples> = (0..19)
        .map(|i| uniform(sample(-200_000 + i * 70_000, -500_000 + i * 40_000, i * 10_000, -900_000 + i * 95_000)))
        .collect();
    let w = World::build(2, &samples);
    for t in w.tiles() {
        assert_eq!(t.ttype, classify(t.elevation));
        assert_ne!(t.ttype, TileType::Lake);
    }
}

#[test]
fn same_samples_same_world() {
    let samples: Vec<TileSamples> = (0..7)
        .map(|i| TileSamples {
            center: sample(i * 150_000, -i * 90_000, 0, i * 100_000 - 300_000),
            edges: [sample(i * 120_000, 0, 0, 0); 6],
        })
        .collect();
    let a = World::build(1, &samples);
    let b = World::build(1, &samples);
    assert_eq!(a.tiles().len(), b.tiles().len());
    for (x, y) in a.tiles().iter().zip(b.tiles().iter()) {
        assert_eq!(x.coord, y.coord);
        assert_eq!(x.elevation, y.elevation);
        assert_eq!(x.ttype, y.ttype);
        assert_eq!(x.slopes, y.slopes);
    }
}

#[test]
fn same_seed_same_channel_seeds() {
    let a = WorldGenerator::new(12345, 64);
    let b = WorldGenerator::new(12345, 64);
    assert_eq!(a.seeds(), b.seeds());
    assert_eq!(a.radius(), 64);
    assert_eq!(a.base_seed(), 12345u32.wrapping_mul(64).wrapping_mul(0xAFB333FE));
    assert_eq!(a.base_seed(), 697_099_136);
}

#[test]
fn different_seeds_differ() {
    let a = WorldGenerator::new(1, 1);
    let b = WorldGenerator::new(2, 1);
    assert_ne!(a.seeds(), b.seeds());
}

#[test]
fn radius_zero_gives_zero_seeds_and_one_tile() {
    let g = WorldGenerator::new(987_654, 0);
    assert_eq!(
        g.seeds(),
        ChannelSeeds { continentalness: 0, erosion: 0, peaks: 0, terrain: 0 }
    );
    let w = g.generate(&vec![uniform(sample(-1, 0, 0, 0))]);
    assert_eq!(w.tiles().len(), 1);
    assert_eq!(w.tiles()[0].coord, TileCoord { q: 0, r: 0 });
    assert_eq!(w.tiles()[0].ttype, TileType::Sea);
}

#[test]
fn channel_seeds_wrap() {
    let s = channel_seeds(2, [1, 2, 3, 0x8000_0000]);
    assert_eq!(s, ChannelSeeds { continentalness: 2, erosion: 4, peaks: 6, terrain: 0 });
    let s = channel_seeds(0xFFFF_FFFF, [1, 2, 0, 0xFFFF_FFFF]);
    assert_eq!(s, ChannelSeeds { continentalness: 0xFFFF_FFFF, erosion: 0xFFFF_FFFE, peaks: 0, terrain: 1 });
}

#[test]
fn field_seeds_stay_in_range() {
    assert_eq!(field_seed(10), 10);
    assert_eq!(field_seed(MAX_FIELD_SEED), MAX_FIELD_SEED);
    assert_eq!(field_seed(0xFFFF_FFFC), MAX_FIELD_SEED);
    assert_eq!(field_seed(0xFFFF_FFFE), MAX_FIELD_SEED);
    let g = WorldGenerator::new(777, 5);
    let s = g.seeds();
    let f = g.field_seeds();
    assert_eq!(f.continentalness, field_seed(s.continentalness));
    assert_eq!(f.terrain, field_seed(s.terrain));
}

#[test]
fn draws_are_not_the_seed_itself() {
    let g = WorldGenerator::new(3, 7);
    let b = g.base_seed();
    assert_ne!(g.seeds(), channel_seeds(b, [b; 4]));
    assert_ne!(g.seeds().continentalness, g.seeds().erosion);
}

#[test]
fn seed_and_radius_swap() {
    assert_eq!(WorldGenerator::new(11, 40).seeds(), WorldGenerator::new(40, 11).seeds());
}

#[test]
fn seed_top_bit_is_lost() {
    assert_eq!(
        WorldGenerator::new(1234, 9).seeds(),
        WorldGenerator::new(1234 ^ 0x8000_0000, 9).seeds()
    );
}

#[test]
fn positions_match_traversal() {
    for radius in 0u32..6 {
        let coords = hex_disk(radius);
        for (i, c) in coords.iter().enumerate() {
            assert_eq!(disk_position(radius, *c), Some(i));
        }
        let r = radius as isize;
        assert_eq!(disk_position(radius, TileCoord { q: r + 1, r: 0 }), None);
        assert_eq!(disk_position(radius, TileCoord { q: r, r: 1 }), None);
        assert_eq!(disk_position(radius, TileCoord { q: -r, r: -1 }), None);
        assert_eq!(disk_position(radius, TileCoord { q: isize::MIN, r: isize::MAX }), None);
    }
}
