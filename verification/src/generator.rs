//! World generation: the generator interface and the normal generator,
//! which draws its generation data from the random number generator.

use vstd::prelude::*;

verus! {

use crate::world_types::{
    GenerationData, CorruptionType, CopperTier, IronTier, SilverTier, GoldTier, CobaltTier,
    MythrilTier, AdamantiteTier,
};
use crate::chunk::Chunk;
use crate::tile::TileCoord;

/// A source of generation data and terrain.
pub trait WorldGenerator {
    /// Fresh generation data.
    fn calculate_gen_data(&mut self) -> GenerationData;

    /// The chunks of a newly generated world.
    fn generate(&mut self, seed: u64) -> Vec<Chunk>;
}

/// The three standard world sizes.
#[derive(Debug, Clone, Copy, PartialEq, Eq, Structural)]
pub enum WorldSize {
    Small,
    Medium,
    Large,
}

/// Randomly drawn generation data: the surface sits between 100 and 200
/// tiles down, the rock layer between 3000 and 3100; each ore tier is one
/// of its two variants; the evil biome is as asked.
pub fn random_gen_data(corruption_type: CorruptionType) -> (r: GenerationData)
    ensures
        r.corruption_type == corruption_type,
        100 <= r.surface_y < 200,
        3000 <= r.rock_layer_y < 3100,
{
    GenerationData {
        seed: crate::rng::random_u64(),
        corruption_type,
        surface_y: crate::rng::random_range_u32(100, 200),
        rock_layer_y: crate::rng::random_range_u32(3000, 3100),
        copper_tier: if crate::rng::random_flag() {
            CopperTier::CopperOre
        } else {
            CopperTier::TinOre
        },
        iron_tier: if crate::rng::random_flag() {
            IronTier::IronOre
        } else {
            IronTier::LeadOre
        },
        silver_tier: if crate::rng::random_flag() {
            SilverTier::SilverOre
        } else {
            SilverTier::TungstenOre
        },
        gold_tier: if crate::rng::random_flag() {
            GoldTier::GoldOre
        } else {
            GoldTier::PlatinumOre
        },
        cobalt_tier: if crate::rng::random_flag() {
            CobaltTier::CobaltOre
        } else {
            CobaltTier::PalladiumOre
        },
        mythril_tier: if crate::rng::random_flag() {
            MythrilTier::MythilTier
        } else {
            MythrilTier::OrichalcumOre
        },
        adamantite_tier: if crate::rng::random_flag() {
            AdamantiteTier::AdamantiteTier
        } else {
            AdamantiteTier::TitaniumTier
        },
    }
}

/// The normal generator: standard sizes, a drawn or given evil biome.
#[derive(Debug, Clone, Copy, PartialEq, Eq, Structural)]
pub struct NormalGen {
    /// The world size in tiles.
    pub size: TileCoord,
    /// The evil biome of the world to generate.
    pub corruption_type: CorruptionType,
}

impl NormalGen {
    /// A generator for the given size; the evil biome is as given, or
    /// drawn at random when left open.
    pub fn new(world_size: WorldSize, corruption_type: Option<CorruptionType>) -> (r: NormalGen)
        ensures
            world_size is Small ==> r.size == (TileCoord { x: 4200, y: 1200 }),
            world_size is Medium ==> r.size == (TileCoord { x: 6200, y: 1800 }),
            world_size is Large ==> r.size == (TileCoord { x: 8200, y: 2400 }),
            corruption_type matches Some(c) ==> r.corruption_type == c,
    {
        NormalGen {
            size: match world_size {
                WorldSize::Small => TileCoord { x: 4200, y: 1200 },
                WorldSize::Medium => TileCoord { x: 6200, y: 1800 },
                WorldSize::Large => TileCoord { x: 8200, y: 2400 },
            },
            corruption_type: match corruption_type {
                Some(c) => c,
                None => {
                    if crate::rng::random_flag() {
                        CorruptionType::Corruption
                    } else {
                        CorruptionType::Crimson
                    }
                },
            },
        }
    }
}

impl WorldGenerator for NormalGen {
    /// Generation data for the configured evil biome.
    fn calculate_gen_data(&mut self) -> GenerationData {
        random_gen_data(self.corruption_type)
    }

    /// Terrain synthesis is outside this library's scope: no chunks yet.
    fn generate(&mut self, _seed: u64) -> Vec<Chunk> {
        Vec::new()
    }
}

} // verus!
