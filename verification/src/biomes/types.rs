use vstd::prelude::*;
use crate::blocks::types::BlockType;

verus! {

/// Biome number.
pub type BiomeId = u8;

pub const BIOME_OCEAN: BiomeId = 0;
pub const BIOME_PLAINS: BiomeId = 1;
pub const BIOME_DESERT: BiomeId = 2;
pub const BIOME_FOREST: BiomeId = 3;
pub const BIOME_TAIGA: BiomeId = 4;
pub const BIOME_TUNDRA: BiomeId = 5;
pub const BIOME_SWAMP: BiomeId = 6;
pub const BIOME_MOUNTAINS: BiomeId = 7;
pub const BIOME_SAVANNA: BiomeId = 8;
pub const BIOME_JUNGLE: BiomeId = 9;

/// How a biome's terrain is shaped.
#[derive(Clone, Copy, Debug, PartialEq, Eq, Structural)]
pub enum TerrainType {
    /// Flat (swamps, plains).
    Flat,
    /// Ordinary hills.
    Rolling,
    /// Mountains with overhangs.
    Mountains3D,
    /// Valleys with steep walls.
    Valley,
    /// Sea floor.
    Ocean,
}

/// A biome: its blocks, terrain shape and climate. The `_bits` fields hold `f32` values as bit
/// patterns.
#[derive(Clone, Copy, Debug)]
pub struct BiomeDefinition {
    pub id: BiomeId,
    pub name: &'static str,
    /// The block on top.
    pub surface_block: BlockType,
    /// The blocks just under the surface.
    pub subsurface_block: BlockType,
    /// The blocks deep down.
    pub deep_block: BlockType,
    /// Base terrain height.
    pub base_height_bits: u32,
    /// How far the terrain rises and falls around the base height.
    pub height_variation_bits: u32,
    pub terrain_type: TerrainType,
    /// Temperature, 0 cold to 1 hot.
    pub temperature_bits: u32,
    /// Humidity, 0 dry to 1 wet.
    pub humidity_bits: u32,
    /// Strength of the 3D noise of mountains, 0 to 1.
    pub noise_3d_strength_bits: u32,
    /// Trees per column.
    pub tree_density_bits: u32,
}

/// Bit pattern of the `f32` 20.0, the default base height.
pub const BASE_HEIGHT_BITS: u32 = 0x41A0_0000;

/// Bit pattern of the `f32` 10.0, the default height variation.
pub const HEIGHT_VARIATION_BITS: u32 = 0x4120_0000;

/// Bit pattern of the `f32` 0.5, the default temperature and humidity.
pub const MILD_BITS: u32 = 0x3F00_0000;

/// A biome with the given blocks, rolling terrain of base height 20 varying by 10, mild
/// climate (one half for temperature and humidity), no 3D noise and no trees.
pub open spec fn spec_biome(
    id: BiomeId,
    name: &'static str,
    surface_block: BlockType,
    subsurface_block: BlockType,
    deep_block: BlockType,
) -> BiomeDefinition {
    BiomeDefinition {
        id,
        name,
        surface_block,
        subsurface_block,
        deep_block,
        base_height_bits: BASE_HEIGHT_BITS,
        height_variation_bits: HEIGHT_VARIATION_BITS,
        terrain_type: TerrainType::Rolling,
        temperature_bits: MILD_BITS,
        humidity_bits: MILD_BITS,
        noise_3d_strength_bits: 0,
        tree_density_bits: 0,
    }
}

impl BiomeDefinition {
    /// A biome with the given blocks and the default terrain and climate (see `spec_biome`).
    pub fn new(
        id: BiomeId,
        name: &'static str,
        surface_block: BlockType,
        subsurface_block: BlockType,
        deep_block: BlockType,
    ) -> (r: Self)
        ensures
            r == spec_biome(id, name, surface_block, subsurface_block, deep_block),
    {
        BiomeDefinition {
            id,
            name,
            surface_block,
            subsurface_block,
            deep_block,
            base_height_bits: BASE_HEIGHT_BITS,
            height_variation_bits: HEIGHT_VARIATION_BITS,
            terrain_type: TerrainType::Rolling,
            temperature_bits: MILD_BITS,
            humidity_bits: MILD_BITS,
            noise_3d_strength_bits: 0,
            tree_density_bits: 0,
        }
    }

    /// The same biome with another terrain shape.
    pub fn with_terrain(self, base_height_bits: u32, height_variation_bits: u32, terrain_type: TerrainType) -> (r: Self)
        ensures
            r == (BiomeDefinition { base_height_bits, height_variation_bits, terrain_type, ..self }),
    {
        BiomeDefinition { base_height_bits, height_variation_bits, terrain_type, ..self }
    }

    /// The same biome with another climate.
    pub fn with_climate(self, temperature_bits: u32, humidity_bits: u32) -> (r: Self)
        ensures
            r == (BiomeDefinition { temperature_bits, humidity_bits, ..self }),
    {
        BiomeDefinition { temperature_bits, humidity_bits, ..self }
    }

    /// The same biome with another 3D noise strength.
    pub fn with_3d_noise(self, noise_3d_strength_bits: u32) -> (r: Self)
        ensures
            r == (BiomeDefinition { noise_3d_strength_bits, ..self }),
    {
        BiomeDefinition { noise_3d_strength_bits, ..self }
    }

    /// The same biome with another tree density.
    pub fn with_trees(self, tree_density_bits: u32) -> (r: Self)
        ensures
            r == (BiomeDefinition { tree_density_bits, ..self }),
    {
        BiomeDefinition { tree_density_bits, ..self }
    }
}

} // verus!
