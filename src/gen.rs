use vstd::prelude::*;
use noise::{Fbm, Perlin};
use rand::rngs::StdRng;
use rand::{RngCore, SeedableRng};
use crate::hex::disk_count;
use crate::world::{TileSamples, World};

verus! {

#[verifier::external_type_specification]
#[verifier::external_body]
#[verifier::reject_recursive_types(T)]
pub struct ExFbm<T>(Fbm<T>);

#[verifier::external_type_specification]
#[verifier::external_body]
pub struct ExPerlin(Perlin);

/// The first four 32-bit values of a `StdRng` seeded with `state`.
pub uninterp spec fn first_draws(state: u64) -> Seq<u32>;

/// Relies on rand's `SeedableRng::seed_from_u64` and `RngCore::next_u32` for
/// `StdRng`: seeding expands `state` with PCG32 into the ChaCha key, so the
/// first four draws depend on `state` alone.
#[verifier::external_body]
fn draws_from(state: u64) -> (d: [u32; 4])
    ensures
        d@ == first_draws(state),
{
    let mut rng = StdRng::seed_from_u64(state);
    [rng.next_u32(), rng.next_u32(), rng.next_u32(), rng.next_u32()]
}

/// Largest seed a noise field takes: noise's `Fbm::new` seeds its six
/// octaves with `seed + 0 ..= seed + 5`, unwrapped.
pub const MAX_FIELD_SEED: u32 = 0xFFFF_FFFA;

/// Relies on noise's `Fbm::<Perlin>::new`: a fractal Brownian motion field
/// over Perlin noise, seeded with `seed`.
#[verifier::external_body]
fn fbm_field(seed: u32) -> Fbm<Perlin>
    requires
        seed <= MAX_FIELD_SEED,
{
    Fbm::<Perlin>::new(seed)
}

/// The seed a noise field is built from for a channel seed: the channel
/// seed itself, or `MAX_FIELD_SEED` for the few above it.
pub open spec fn field_seed_of(s: u32) -> u32 {
    if s <= MAX_FIELD_SEED {
        s
    } else {
        MAX_FIELD_SEED
    }
}

pub fn field_seed(s: u32) -> (f: u32)
    ensures
        f == field_seed_of(s),
        f <= MAX_FIELD_SEED,
{
    if s <= MAX_FIELD_SEED {
        s
    } else {
        MAX_FIELD_SEED
    }
}

/// The channel seeds of a generator made with `seed` and `radius`.
pub open spec fn derived_seeds(seed: u32, radius: u32) -> ChannelSeeds {
    seeds_from(base_seed(seed, radius), first_draws(base_seed(seed, radius) as u64))
}

/// The seeds the noise fields are built from.
pub open spec fn field_seeds_of(s: ChannelSeeds) -> ChannelSeeds {
    ChannelSeeds {
        continentalness: field_seed_of(s.continentalness),
        erosion: field_seed_of(s.erosion),
        peaks: field_seed_of(s.peaks),
        terrain: field_seed_of(s.terrain),
    }
}

/// Multiplier of the root seed.
pub const SEED_MIX: u32 = 0xAFB333FE;

/// `seed * radius * SEED_MIX`, wrapping at 32 bits.
pub open spec fn base_seed(seed: u32, radius: u32) -> u32 {
    seed.wrapping_mul(radius).wrapping_mul(SEED_MIX)
}

/// Seeds of the four noise channels.
#[derive(Clone, Copy, Debug, PartialEq, Eq, Structural)]
pub struct ChannelSeeds {
    pub continentalness: u32,
    pub erosion: u32,
    pub peaks: u32,
    pub terrain: u32,
}

/// Each channel seed is the base seed times one draw, wrapping at 32 bits;
/// the draws are taken in the order continentalness, erosion, peaks, terrain.
pub open spec fn seeds_from(base: u32, draws: Seq<u32>) -> ChannelSeeds {
    ChannelSeeds {
        continentalness: base.wrapping_mul(draws[0]),
        erosion: base.wrapping_mul(draws[1]),
        peaks: base.wrapping_mul(draws[2]),
        terrain: base.wrapping_mul(draws[3]),
    }
}

/// The channel seeds made from the base seed and four draws.
pub fn channel_seeds(base: u32, draws: [u32; 4]) -> (s: ChannelSeeds)
    ensures
        s == seeds_from(base, draws@),
{
    ChannelSeeds {
        continentalness: base.wrapping_mul(draws[0]),
        erosion: base.wrapping_mul(draws[1]),
        peaks: base.wrapping_mul(draws[2]),
        terrain: base.wrapping_mul(draws[3]),
    }
}

/// Terrain generator: the radius of the world it makes, its root seed and
/// its four noise channels (continentalness, erosion, peaks, terrain).
pub struct WorldGenerator {
    radius: u32,
    base: u32,
    seeds: ChannelSeeds,
    field_seeds: ChannelSeeds,
    continentalness: Fbm<Perlin>,
    erosion: Fbm<Perlin>,
    peaks: Fbm<Perlin>,
    terrain: Fbm<Perlin>,
}

impl WorldGenerator {
    pub closed spec fn radius_spec(&self) -> u32 {
        self.radius
    }

    pub closed spec fn base_spec(&self) -> u32 {
        self.base
    }

    pub closed spec fn seeds_spec(&self) -> ChannelSeeds {
        self.seeds
    }

    pub closed spec fn field_seeds_spec(&self) -> ChannelSeeds {
        self.field_seeds
    }

    /// Derives the channel seeds from `seed` and `radius` and builds the four
    /// noise fields from them. Noise fields take seeds up to
    /// `MAX_FIELD_SEED`; a channel seed above it (`0xFFFF_FFFC` or
    /// `0xFFFF_FFFE`, as channel seeds are even) builds its field from
    /// `MAX_FIELD_SEED` instead.
    pub fn new(seed: u32, radius: u32) -> (g: WorldGenerator)
        ensures
            g.radius_spec() == radius,
            g.base_spec() == base_seed(seed, radius),
            g.seeds_spec() == derived_seeds(seed, radius),
            g.field_seeds_spec() == field_seeds_of(g.seeds_spec()),
            base_seed(seed, radius) == 0 ==> g.seeds_spec() == (ChannelSeeds {
                continentalness: 0,
                erosion: 0,
                peaks: 0,
                terrain: 0,
            }),
    {
        let base = seed.wrapping_mul(radius).wrapping_mul(SEED_MIX);
        let draws = draws_from(base as u64);
        let seeds = channel_seeds(base, draws);
        let field_seeds = ChannelSeeds {
            continentalness: field_seed(seeds.continentalness),
            erosion: field_seed(seeds.erosion),
            peaks: field_seed(seeds.peaks),
            terrain: field_seed(seeds.terrain),
        };
        proof {
            if base == 0 {
                assert(base.wrapping_mul(draws@[0]) == 0);
                assert(base.wrapping_mul(draws@[1]) == 0);
                assert(base.wrapping_mul(draws@[2]) == 0);
                assert(base.wrapping_mul(draws@[3]) == 0);
            }
        }
        WorldGenerator {
            radius,
            base,
            seeds,
            field_seeds,
            continentalness: fbm_field(field_seeds.continentalness),
            erosion: fbm_field(field_seeds.erosion),
            peaks: fbm_field(field_seeds.peaks),
            terrain: fbm_field(field_seeds.terrain),
        }
    }

    pub fn radius(&self) -> (r: u32)
        ensures
            r == self.radius_spec(),
    {
        self.radius
    }

    /// The root seed, `seed * radius * SEED_MIX` wrapping at 32 bits.
    pub fn base_seed(&self) -> (b: u32)
        ensures
            b == self.base_spec(),
    {
        self.base
    }

    /// The seeds the four noise fields were built from.
    pub fn field_seeds(&self) -> (s: ChannelSeeds)
        ensures
            s == self.field_seeds_spec(),
    {
        self.field_seeds
    }

    pub fn seeds(&self) -> (s: ChannelSeeds)
        ensures
            s == self.seeds_spec(),
    {
        self.seeds
    }

    pub fn continentalness(&self) -> &Fbm<Perlin> {
        &self.continentalness
    }

    pub fn erosion(&self) -> &Fbm<Perlin> {
        &self.erosion
    }

    pub fn peaks(&self) -> &Fbm<Perlin> {
        &self.peaks
    }

    pub fn terrain(&self) -> &Fbm<Perlin> {
        &self.terrain
    }

    /// Builds the world from the noise read at each cell of the disk, in
    /// the order of `hex_disk(self.radius())`.
    pub fn generate(&self, samples: &Vec<TileSamples>) -> (w: World)
        requires
            samples@.len() == disk_count(self.radius_spec() as int),
            disk_count(self.radius_spec() as int) <= usize::MAX,
        ensures
            w.built_from(self.radius_spec() as int, samples@),
    {
        World::build(self.radius, samples)
    }
}

/// The seeds depend on `seed * radius` alone: swapping the two gives the
/// same generator seeds.
pub proof fn lemma_seed_radius_swap(seed: u32, radius: u32)
    ensures
        base_seed(seed, radius) == base_seed(radius, seed),
        derived_seeds(seed, radius) == derived_seeds(radius, seed),
{
    assert(seed as nat * radius as nat == radius as nat * seed as nat) by (nonlinear_arith);
}

/// `SEED_MIX` is even, so the top bit of `seed` is lost in the root seed:
/// seeds that differ only there give the same generator seeds.
pub proof fn lemma_seed_top_bit(seed: u32, radius: u32)
    ensures
        base_seed(seed ^ 0x8000_0000, radius) == base_seed(seed, radius),
        derived_seeds(seed ^ 0x8000_0000, radius) == derived_seeds(seed, radius),
{
    let t = seed ^ 0x8000_0000u32;
    assert(t.wrapping_mul(radius).wrapping_mul(0xAFB333FEu32) == seed.wrapping_mul(radius).wrapping_mul(
        0xAFB333FEu32,
    )) by (bit_vector)
        requires
            t == seed ^ 0x8000_0000u32,
    ;
}

} // verus!
