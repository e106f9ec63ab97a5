use vstd::prelude::*;
use crate::blocks::types::{SAND, STONE, GRASS, DIRT, SNOW};
use crate::biomes::types::{
    BiomeDefinition, BiomeId, TerrainType, spec_biome, BASE_HEIGHT_BITS, HEIGHT_VARIATION_BITS,
    BIOME_OCEAN, BIOME_PLAINS, BIOME_DESERT, BIOME_FOREST, BIOME_TAIGA, BIOME_TUNDRA, BIOME_SWAMP,
    BIOME_MOUNTAINS, BIOME_SAVANNA, BIOME_JUNGLE,
};

verus! {

/// The biome that fills the gaps when a biome is registered past the end of an empty list: an
/// all-stone biome numbered 0 with the default terrain and climate.
pub open spec fn unknown_biome() -> BiomeDefinition {
    spec_biome(0, "unknown", STONE, STONE, STONE)
}

/// The biome list after registering `b` under its id: a list too short for the id is first
/// grown to reach it, with copies of its first biome (or of `unknown_biome` when it is empty),
/// then slot `b.id` gets `b`.
pub open spec fn with_biome(s: Seq<BiomeDefinition>, b: BiomeDefinition) -> Seq<BiomeDefinition> {
    if (b.id as int) < s.len() {
        s.update(b.id as int, b)
    } else {
        let fill = if s.len() > 0 { s[0] } else { unknown_biome() };
        (s + Seq::new((b.id + 1 - s.len()) as nat, |i: int| fill)).update(b.id as int, b)
    }
}

/// The built-in biomes, numbered 0 to 9. Heights, climate values, noise strengths and tree
/// densities are `f32` bit patterns.
pub open spec fn default_biomes() -> Seq<BiomeDefinition> {
    seq![
        BiomeDefinition {
            base_height_bits: 0xC170_0000,
            height_variation_bits: 0x40A0_0000,
            terrain_type: TerrainType::Ocean,
            temperature_bits: 0x3F00_0000,
            humidity_bits: 0x3F80_0000,
            ..spec_biome(BIOME_OCEAN, "ocean", SAND, SAND, STONE)
        },
        BiomeDefinition {
            base_height_bits: 0x41A0_0000,
            height_variation_bits: 0x4100_0000,
            terrain_type: TerrainType::Rolling,
            temperature_bits: 0x3F00_0000,
            humidity_bits: 0x3ECC_CCCD,
            tree_density_bits: 0x3A83_126F,
            ..spec_biome(BIOME_PLAINS, "plains", GRASS, DIRT, STONE)
        },
        BiomeDefinition {
            base_height_bits: 0x41B0_0000,
            height_variation_bits: 0x40C0_0000,
            terrain_type: TerrainType::Rolling,
            temperature_bits: 0x3F66_6666,
            humidity_bits: 0x3DCC_CCCD,
            ..spec_biome(BIOME_DESERT, "desert", SAND, SAND, STONE)
        },
        BiomeDefinition {
            base_height_bits: 0x41C8_0000,
            height_variation_bits: 0x4140_0000,
            terrain_type: TerrainType::Rolling,
            temperature_bits: 0x3F00_0000,
            humidity_bits: 0x3F19_999A,
            tree_density_bits: 0x3C75_C28F,
            ..spec_biome(BIOME_FOREST, "forest", GRASS, DIRT, STONE)
        },
        BiomeDefinition {
            base_height_bits: 0x41B0_0000,
            height_variation_bits: 0x4120_0000,
            terrain_type: TerrainType::Rolling,
            temperature_bits: 0x3E80_0000,
            humidity_bits: 0x3F19_999A,
            tree_density_bits: 0x3C44_9BA6,
            ..spec_biome(BIOME_TAIGA, "taiga", GRASS, DIRT, STONE)
        },
        BiomeDefinition {
            base_height_bits: 0x4190_0000,
            height_variation_bits: 0x4080_0000,
            terrain_type: TerrainType::Flat,
            temperature_bits: 0,
            humidity_bits: 0x3E99_999A,
            tree_density_bits: 0x3B03_126F,
            ..spec_biome(BIOME_TUNDRA, "tundra", SNOW, DIRT, STONE)
        },
        BiomeDefinition {
            base_height_bits: 0x4100_0000,
            height_variation_bits: 0x4000_0000,
            terrain_type: TerrainType::Flat,
            temperature_bits: 0x3F19_999A,
            humidity_bits: 0x3F66_6666,
            tree_density_bits: 0x3C03_126F,
            ..spec_biome(BIOME_SWAMP, "swamp", GRASS, DIRT, STONE)
        },
        BiomeDefinition {
            base_height_bits: 0x41C8_0000,
            height_variation_bits: 0x4270_0000,
            terrain_type: TerrainType::Mountains3D,
            temperature_bits: 0x3E99_999A,
            humidity_bits: 0x3E99_999A,
            noise_3d_strength_bits: 0x3E4C_CCCD,
            ..spec_biome(BIOME_MOUNTAINS, "mountains", STONE, STONE, STONE)
        },
        BiomeDefinition {
            base_height_bits: 0x41A0_0000,
            height_variation_bits: 0x40A0_0000,
            terrain_type: TerrainType::Flat,
            temperature_bits: 0x3F4C_CCCD,
            humidity_bits: 0x3E99_999A,
            tree_density_bits: 0x3B03_126F,
            ..spec_biome(BIOME_SAVANNA, "savanna", GRASS, DIRT, STONE)
        },
        BiomeDefinition {
            base_height_bits: 0x41E0_0000,
            height_variation_bits: 0x4170_0000,
            terrain_type: TerrainType::Rolling,
            temperature_bits: 0x3F66_6666,
            humidity_bits: 0x3F66_6666,
            tree_density_bits: 0x3CCC_CCCD,
            ..spec_biome(BIOME_JUNGLE, "jungle", GRASS, DIRT, STONE)
        },
    ]
}

/// Law: the built-in biomes are numbered 0 to 9 in order and built from these blocks (surface,
/// under the surface, deep down) and terrain shapes:
/// ocean sand, sand, stone, sea floor; plains grass, dirt, stone, rolling; desert sand, sand,
/// stone, rolling; forest grass, dirt, stone, rolling; taiga grass, dirt, stone, rolling;
/// tundra snow, dirt, stone, flat; swamp grass, dirt, stone, flat; mountains stone, stone,
/// stone, mountains; savanna grass, dirt, stone, flat; jungle grass, dirt, stone, rolling.
/// Only the mountains have 3D noise, and the ocean, desert and mountains have no trees.
pub proof fn lemma_default_biome_table()
    ensures
        default_biomes().len() == 10,
        forall|i: int| 0 <= i < 10 ==> #[trigger] default_biomes()[i].id == i,
        ({
            let d = default_biomes();
            &&& (d[0].surface_block, d[0].subsurface_block, d[0].deep_block, d[0].terrain_type) == (4u8, 4u8, 1u8, TerrainType::Ocean)
            &&& (d[1].surface_block, d[1].subsurface_block, d[1].deep_block, d[1].terrain_type) == (3u8, 2u8, 1u8, TerrainType::Rolling)
            &&& (d[2].surface_block, d[2].subsurface_block, d[2].deep_block, d[2].terrain_type) == (4u8, 4u8, 1u8, TerrainType::Rolling)
            &&& (d[3].surface_block, d[3].subsurface_block, d[3].deep_block, d[3].terrain_type) == (3u8, 2u8, 1u8, TerrainType::Rolling)
            &&& (d[4].surface_block, d[4].subsurface_block, d[4].deep_block, d[4].terrain_type) == (3u8, 2u8, 1u8, TerrainType::Rolling)
            &&& (d[5].surface_block, d[5].subsurface_block, d[5].deep_block, d[5].terrain_type) == (53u8, 2u8, 1u8, TerrainType::Flat)
            &&& (d[6].surface_block, d[6].subsurface_block, d[6].deep_block, d[6].terrain_type) == (3u8, 2u8, 1u8, TerrainType::Flat)
            &&& (d[7].surface_block, d[7].subsurface_block, d[7].deep_block, d[7].terrain_type) == (1u8, 1u8, 1u8, TerrainType::Mountains3D)
            &&& (d[8].surface_block, d[8].subsurface_block, d[8].deep_block, d[8].terrain_type) == (3u8, 2u8, 1u8, TerrainType::Flat)
            &&& (d[9].surface_block, d[9].subsurface_block, d[9].deep_block, d[9].terrain_type) == (3u8, 2u8, 1u8, TerrainType::Rolling)
            &&& forall|i: int| 0 <= i < 10 ==> (#[trigger] d[i].noise_3d_strength_bits != 0 <==> i == 7)
            &&& d[0].tree_density_bits == 0 && d[2].tree_density_bits == 0 && d[7].tree_density_bits == 0
            &&& d[1].tree_density_bits != 0 && d[3].tree_density_bits != 0 && d[4].tree_density_bits != 0
            &&& d[5].tree_density_bits != 0 && d[6].tree_density_bits != 0 && d[8].tree_density_bits != 0
            &&& d[9].tree_density_bits != 0
        }),
        SAND == 4 && GRASS == 3 && DIRT == 2 && STONE == 1 && SNOW == 53,
{
    let d = default_biomes();
    assert forall|i: int| 0 <= i < 10 implies (#[trigger] d[i].noise_3d_strength_bits != 0 <==> i == 7) by {
        if i == 0 {} else if i == 1 {} else if i == 2 {} else if i == 3 {} else if i == 4 {}
        else if i == 5 {} else if i == 6 {} else if i == 7 {} else if i == 8 {} else {}
    }
    assert forall|i: int| 0 <= i < 10 implies #[trigger] d[i].id == i by {
        if i == 0 {} else if i == 1 {} else if i == 2 {} else if i == 3 {} else if i == 4 {}
        else if i == 5 {} else if i == 6 {} else if i == 7 {} else if i == 8 {} else {}
    }
}

/// Law: the names, base heights, height variations, temperatures and humidities of the
/// built-in biomes, the numbers as `f32` bit patterns: ocean -15, 5, 0.5, 1; plains 20, 8,
/// 0.5, 0.4; desert 22, 6, 0.9, 0.1; forest 25, 12, 0.5, 0.6; taiga 22, 10, 0.25, 0.6; tundra
/// 18, 4, 0, 0.3; swamp 8, 2, 0.6, 0.9; mountains 25, 60, 0.3, 0.3; savanna 20, 5, 0.8, 0.3;
/// jungle 28, 15, 0.9, 0.9.
pub proof fn lemma_default_biome_climate()
    ensures
        ({
            let d = default_biomes();
            &&& d[0].name@ == "ocean"@ && d[0].base_height_bits == 0xC1700000u32 && d[0].height_variation_bits == 0x40A00000u32
                && d[0].temperature_bits == 0x3F000000u32 && d[0].humidity_bits == 0x3F800000u32
            &&& d[1].name@ == "plains"@ && d[1].base_height_bits == 0x41A00000u32 && d[1].height_variation_bits == 0x41000000u32
                && d[1].temperature_bits == 0x3F000000u32 && d[1].humidity_bits == 0x3ECCCCCDu32
            &&& d[2].name@ == "desert"@ && d[2].base_height_bits == 0x41B00000u32 && d[2].height_variation_bits == 0x40C00000u32
                && d[2].temperature_bits == 0x3F666666u32 && d[2].humidity_bits == 0x3DCCCCCDu32
            &&& d[3].name@ == "forest"@ && d[3].base_height_bits == 0x41C80000u32 && d[3].height_variation_bits == 0x41400000u32
                && d[3].temperature_bits == 0x3F000000u32 && d[3].humidity_bits == 0x3F19999Au32
            &&& d[4].name@ == "taiga"@ && d[4].base_height_bits == 0x41B00000u32 && d[4].height_variation_bits == 0x41200000u32
                && d[4].temperature_bits == 0x3E800000u32 && d[4].humidity_bits == 0x3F19999Au32
            &&& d[5].name@ == "tundra"@ && d[5].base_height_bits == 0x41900000u32 && d[5].height_variation_bits == 0x40800000u32
                && d[5].temperature_bits == 0x0u32 && d[5].humidity_bits == 0x3E99999Au32
            &&& d[6].name@ == "swamp"@ && d[6].base_height_bits == 0x41000000u32 && d[6].height_variation_bits == 0x40000000u32
                && d[6].temperature_bits == 0x3F19999Au32 && d[6].humidity_bits == 0x3F666666u32
            &&& d[7].name@ == "mountains"@ && d[7].base_height_bits == 0x41C80000u32 && d[7].height_variation_bits == 0x42700000u32
                && d[7].temperature_bits == 0x3E99999Au32 && d[7].humidity_bits == 0x3E99999Au32
            &&& d[8].name@ == "savanna"@ && d[8].base_height_bits == 0x41A00000u32 && d[8].height_variation_bits == 0x40A00000u32
                && d[8].temperature_bits == 0x3F4CCCCDu32 && d[8].humidity_bits == 0x3E99999Au32
            &&& d[9].name@ == "jungle"@ && d[9].base_height_bits == 0x41E00000u32 && d[9].height_variation_bits == 0x41700000u32
                && d[9].temperature_bits == 0x3F666666u32 && d[9].humidity_bits == 0x3F666666u32
        }),
{
}

/// Registering a biome whose id is the next free number appends it.
proof fn lemma_with_next(s: Seq<BiomeDefinition>, b: BiomeDefinition)
    requires
        b.id == s.len(),
    ensures
        with_biome(s, b) == s.push(b),
{
    assert(with_biome(s, b) =~= s.push(b));
}

/// Grows `biomes` to the length of `with_biome` and sets the biome.
fn put_biome(biomes: &mut Vec<BiomeDefinition>, biome: BiomeDefinition)
    ensures
        final(biomes)@ == with_biome(old(biomes)@, biome),
{
    let id = biome.id as usize;
    if id >= biomes.len() {
        let fill = if biomes.len() > 0 {
            biomes[0]
        } else {
            BiomeDefinition::new(0, "unknown", STONE, STONE, STONE).with_terrain(
                BASE_HEIGHT_BITS,
                HEIGHT_VARIATION_BITS,
                TerrainType::Rolling,
            )
        };
        let ghost start = biomes@;
        while biomes.len() <= id
            invariant
                id == biome.id,
                start == old(biomes)@,
                id >= start.len(),
                start.len() <= biomes@.len() <= id + 1,
                fill == if start.len() > 0 { start[0] } else { unknown_biome() },
                biomes@ == start + Seq::new((biomes@.len() - start.len()) as nat, |i: int| fill),
            decreases id + 1 - biomes@.len(),
        {
            biomes.push(fill);
            assert(biomes@ =~= start + Seq::new((biomes@.len() - start.len()) as nat, |i: int| fill));
        }
    }
    biomes.set(id, biome);
}

/// The biomes, indexed by id.
pub struct BiomeRegistry {
    biomes: Vec<BiomeDefinition>,
}

impl View for BiomeRegistry {
    type V = Seq<BiomeDefinition>;

    closed spec fn view(&self) -> Seq<BiomeDefinition> {
        self.biomes@
    }
}

impl BiomeRegistry {
    /// The registry holds a biome, so lookups have one to fall back to.
    pub open spec fn wf(&self) -> bool {
        self@.len() > 0
    }

    /// The registry of the built-in biomes.
    pub fn new() -> (r: Self)
        ensures
            r@ == default_biomes(),
            r.wf(),
    {
        let mut biomes: Vec<BiomeDefinition> = Vec::new();
        let ghost mut s = Seq::<BiomeDefinition>::empty();
        let list = [
            BiomeDefinition::new(BIOME_OCEAN, "ocean", SAND, SAND, STONE)
                .with_terrain(0xC170_0000, 0x40A0_0000, TerrainType::Ocean)
                .with_climate(0x3F00_0000, 0x3F80_0000),
            BiomeDefinition::new(BIOME_PLAINS, "plains", GRASS, DIRT, STONE)
                .with_terrain(0x41A0_0000, 0x4100_0000, TerrainType::Rolling)
                .with_climate(0x3F00_0000, 0x3ECC_CCCD)
                .with_trees(0x3A83_126F),
            BiomeDefinition::new(BIOME_DESERT, "desert", SAND, SAND, STONE)
                .with_terrain(0x41B0_0000, 0x40C0_0000, TerrainType::Rolling)
                .with_climate(0x3F66_6666, 0x3DCC_CCCD),
            BiomeDefinition::new(BIOME_FOREST, "forest", GRASS, DIRT, STONE)
                .with_terrain(0x41C8_0000, 0x4140_0000, TerrainType::Rolling)
                .with_climate(0x3F00_0000, 0x3F19_999A)
                .with_trees(0x3C75_C28F),
            BiomeDefinition::new(BIOME_TAIGA, "taiga", GRASS, DIRT, STONE)
                .with_terrain(0x41B0_0000, 0x4120_0000, TerrainType::Rolling)
                .with_climate(0x3E80_0000, 0x3F19_999A)
                .with_trees(0x3C44_9BA6),
            BiomeDefinition::new(BIOME_TUNDRA, "tundra", SNOW, DIRT, STONE)
                .with_terrain(0x4190_0000, 0x4080_0000, TerrainType::Flat)
                .with_climate(0, 0x3E99_999A)
                .with_trees(0x3B03_126F),
            BiomeDefinition::new(BIOME_SWAMP, "swamp", GRASS, DIRT, STONE)
                .with_terrain(0x4100_0000, 0x4000_0000, TerrainType::Flat)
                .with_climate(0x3F19_999A, 0x3F66_6666)
                .with_trees(0x3C03_126F),
            BiomeDefinition::new(BIOME_MOUNTAINS, "mountains", STONE, STONE, STONE)
                .with_terrain(0x41C8_0000, 0x4270_0000, TerrainType::Mountains3D)
                .with_climate(0x3E99_999A, 0x3E99_999A)
                .with_3d_noise(0x3E4C_CCCD),
            BiomeDefinition::new(BIOME_SAVANNA, "savanna", GRASS, DIRT, STONE)
                .with_terrain(0x41A0_0000, 0x40A0_0000, TerrainType::Flat)
                .with_climate(0x3F4C_CCCD, 0x3E99_999A)
                .with_trees(0x3B03_126F),
            BiomeDefinition::new(BIOME_JUNGLE, "jungle", GRASS, DIRT, STONE)
                .with_terrain(0x41E0_0000, 0x4170_0000, TerrainType::Rolling)
                .with_climate(0x3F66_6666, 0x3F66_6666)
                .with_trees(0x3CCC_CCCD),
        ];
        let ghost d = default_biomes();
        assert(list@ =~= d);
        let mut i: usize = 0;
        while i < 10
            invariant
                0 <= i <= 10,
                list@ == d,
                d == default_biomes(),
                biomes@ == d.take(i as int),
            decreases 10 - i,
        {
            proof {
                assert(list@[i as int].id == i);
                lemma_with_next(biomes@, list@[i as int]);
                assert(d.take(i + 1) =~= d.take(i as int).push(d[i as int]));
            }
            put_biome(&mut biomes, list[i]);
            i = i + 1;
        }
        assert(d.take(10) =~= d);
        BiomeRegistry { biomes }
    }

    /// Registers `biome` under its id (see `with_biome`).
    pub fn register(&mut self, biome: BiomeDefinition)
        ensures
            final(self)@ == with_biome(old(self)@, biome),
    {
        put_biome(&mut self.biomes, biome);
    }

    /// The biome numbered `id`, or the first biome for a number with no biome.
    pub fn get(&self, id: BiomeId) -> (r: &BiomeDefinition)
        requires
            self.wf(),
        ensures
            *r == if (id as int) < self@.len() { self@[id as int] } else { self@[0] },
    {
        if (id as usize) < self.biomes.len() {
            &self.biomes[id as usize]
        } else {
            &self.biomes[0]
        }
    }

    /// How many biome numbers are in use.
    pub fn count(&self) -> (r: usize)
        ensures
            r == self@.len(),
    {
        self.biomes.len()
    }
}

impl Default for BiomeRegistry {
    /// The registry of the built-in biomes.
    fn default() -> (r: Self)
        ensures
            r@ == default_biomes(),
            r.wf(),
    {
        Self::new()
    }
}

/// Law: registering keeps a registry non-empty, and afterwards looking up the registered id
/// gives the registered biome while every other id in use keeps its biome.
pub proof fn lemma_register_then_get(s: Seq<BiomeDefinition>, b: BiomeDefinition, id: BiomeId)
    ensures
        with_biome(s, b).len() > b.id,
        with_biome(s, b)[b.id as int] == b,
        id != b.id && (id as int) < s.len() ==> with_biome(s, b)[id as int] == s[id as int],
{
}

} // verus!
