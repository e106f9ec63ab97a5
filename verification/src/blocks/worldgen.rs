use vstd::prelude::*;
use vstd::utf8::{encode_utf8, encode_utf8_decode_utf8};
use crate::blocks::types::{
    BlockType, AIR, STONE, DIRT, GRASS, SAND, GRAVEL, DEEPSLATE, SNOW, WATER, LAVA, COAL_ORE,
    IRON_ORE, GOLD_ORE, DIAMOND_ORE, COPPER_ORE,
};
use crate::blocks::registry::BlockRegistry;

verus! {

/// Whether two texts are equal, compared byte by byte.
pub fn str_eq(a: &str, b: &str) -> (r: bool)
    ensures
        r == (a@ == b@),
{
    let x = a.as_bytes();
    let y = b.as_bytes();
    proof {
        encode_utf8_decode_utf8(a@);
        encode_utf8_decode_utf8(b@);
    }
    if x.len() != y.len() {
        return false;
    }
    let mut i: usize = 0;
    while i < x.len()
        invariant
            x@.len() == y@.len(),
            x@ == encode_utf8(a@),
            y@ == encode_utf8(b@),
            0 <= i <= x@.len(),
            forall|j: int| 0 <= j < i ==> x@[j] == y@[j],
        decreases x@.len() - i,
    {
        if x[i] != y[i] {
            return false;
        }
        i = i + 1;
    }
    assert(x@ =~= y@);
    true
}

/// The block kind assumed for a text id that the registry does not know: the built-in kinds of
/// the terrain generator by name, stone for any other.
pub open spec fn fallback_block(id: Seq<char>) -> BlockType {
    if id == "air"@ {
        AIR
    } else if id == "stone"@ {
        STONE
    } else if id == "dirt"@ {
        DIRT
    } else if id == "grass"@ {
        GRASS
    } else if id == "sand"@ {
        SAND
    } else if id == "gravel"@ {
        GRAVEL
    } else if id == "deepslate"@ {
        DEEPSLATE
    } else if id == "snow"@ {
        SNOW
    } else if id == "water"@ {
        WATER
    } else if id == "lava"@ {
        LAVA
    } else if id == "coal_ore"@ {
        COAL_ORE
    } else if id == "iron_ore"@ {
        IRON_ORE
    } else if id == "gold_ore"@ {
        GOLD_ORE
    } else if id == "diamond_ore"@ {
        DIAMOND_ORE
    } else if id == "copper_ore"@ {
        COPPER_ORE
    } else {
        STONE
    }
}

/// The block kind of text id `id`: the registered numeric id, or the built-in fallback.
pub open spec fn spec_resolve_block(registry: BlockRegistry, id: Seq<char>) -> BlockType {
    if registry@.2.contains_key(id) {
        registry@.2[id]
    } else {
        fallback_block(id)
    }
}

/// The text id assumed for a block kind the registry does not know: the names of the basic
/// built-in kinds, `"unknown"` for any other.
pub open spec fn fallback_id(block: BlockType) -> Seq<char> {
    if block == AIR {
        "air"@
    } else if block == STONE {
        "stone"@
    } else if block == DIRT {
        "dirt"@
    } else if block == GRASS {
        "grass"@
    } else if block == SAND {
        "sand"@
    } else if block == GRAVEL {
        "gravel"@
    } else if block == DEEPSLATE {
        "deepslate"@
    } else if block == SNOW {
        "snow"@
    } else if block == WATER {
        "water"@
    } else if block == LAVA {
        "lava"@
    } else {
        "unknown"@
    }
}

/// Law: for the block kinds that have a built-in text id (air 0, stone 1, dirt 2, grass 3,
/// sand 4, gravel 5, deepslate 15, snow 53, water 50, lava 51), the id leads back to the kind;
/// every other kind has the id `"unknown"`, which falls back to stone.
pub proof fn lemma_fallback_round_trip(b: BlockType)
    ensures
        (b == 0 || b == 1 || b == 2 || b == 3 || b == 4 || b == 5 || b == 15 || b == 53 || b == 50 || b == 51)
            ==> fallback_block(fallback_id(b)) == b,
        !(b == 0 || b == 1 || b == 2 || b == 3 || b == 4 || b == 5 || b == 15 || b == 53 || b == 50 || b == 51)
            ==> fallback_id(b) == "unknown"@,
        fallback_block("unknown"@) == 1,
        fallback_block("coal_ore"@) == 20 && fallback_block("iron_ore"@) == 21,
        fallback_block("gold_ore"@) == 22 && fallback_block("diamond_ore"@) == 23,
        fallback_block("copper_ore"@) == 27,
{
    reveal_strlit("air");
    reveal_strlit("stone");
    reveal_strlit("dirt");
    reveal_strlit("grass");
    reveal_strlit("sand");
    reveal_strlit("gravel");
    reveal_strlit("deepslate");
    reveal_strlit("snow");
    reveal_strlit("water");
    reveal_strlit("lava");
    reveal_strlit("coal_ore");
    reveal_strlit("iron_ore");
    reveal_strlit("gold_ore");
    reveal_strlit("diamond_ore");
    reveal_strlit("copper_ore");
    reveal_strlit("unknown");
    assert("air"@.len() == 3);
    assert("stone"@.len() == 5);
    assert("dirt"@.len() == 4);
    assert("grass"@.len() == 5);
    assert("sand"@.len() == 4);
    assert("gravel"@.len() == 6);
    assert("deepslate"@.len() == 9);
    assert("snow"@.len() == 4);
    assert("water"@.len() == 5);
    assert("lava"@.len() == 4);
    assert("coal_ore"@.len() == 8);
    assert("iron_ore"@.len() == 8);
    assert("gold_ore"@.len() == 8);
    assert("diamond_ore"@.len() == 11);
    assert("copper_ore"@.len() == 10);
    assert("unknown"@.len() == 7);
    assert("stone"@[0] != "grass"@[0]);
    assert("stone"@[0] != "water"@[0]);
    assert("dirt"@[0] != "sand"@[0]);
    assert("dirt"@[0] != "snow"@[0]);
    assert("dirt"@[0] != "lava"@[0]);
    assert("grass"@[0] != "water"@[0]);
    assert("sand"@[1] != "snow"@[1]);
    assert("sand"@[0] != "lava"@[0]);
    assert("snow"@[0] != "lava"@[0]);
    assert("coal_ore"@[0] != "iron_ore"@[0]);
    assert("coal_ore"@[0] != "gold_ore"@[0]);
    assert("iron_ore"@[0] != "gold_ore"@[0]);
}

/// Resolves a text id to a block kind through the registry, falling back to the built-in kinds.
pub fn resolve_block(registry: &BlockRegistry, id: &str) -> (r: BlockType)
    ensures
        r == spec_resolve_block(*registry, id@),
{
    if let Some(numeric_id) = registry.get_numeric_id(id) {
        return numeric_id;
    }
    if str_eq(id, "air") {
        AIR
    } else if str_eq(id, "stone") {
        STONE
    } else if str_eq(id, "dirt") {
        DIRT
    } else if str_eq(id, "grass") {
        GRASS
    } else if str_eq(id, "sand") {
        SAND
    } else if str_eq(id, "gravel") {
        GRAVEL
    } else if str_eq(id, "deepslate") {
        DEEPSLATE
    } else if str_eq(id, "snow") {
        SNOW
    } else if str_eq(id, "water") {
        WATER
    } else if str_eq(id, "lava") {
        LAVA
    } else if str_eq(id, "coal_ore") {
        COAL_ORE
    } else if str_eq(id, "iron_ore") {
        IRON_ORE
    } else if str_eq(id, "gold_ore") {
        GOLD_ORE
    } else if str_eq(id, "diamond_ore") {
        DIAMOND_ORE
    } else if str_eq(id, "copper_ore") {
        COPPER_ORE
    } else {
        STONE
    }
}

/// Resolves a block kind to its text id through the registry, falling back to built-in names.
pub fn block_to_id<'a>(registry: &'a BlockRegistry, block: BlockType) -> (r: &'a str)
    ensures
        r@ == if registry@.3.contains_key(block) {
            registry@.3[block]
        } else {
            fallback_id(block)
        },
{
    if let Some(id) = registry.get_string_id(block) {
        return id;
    }
    match block {
        AIR => "air",
        STONE => "stone",
        DIRT => "dirt",
        GRASS => "grass",
        SAND => "sand",
        GRAVEL => "gravel",
        DEEPSLATE => "deepslate",
        SNOW => "snow",
        WATER => "water",
        LAVA => "lava",
        _ => "unknown",
    }
}

/// Block kinds used by the terrain generator, resolved once by text id.
#[derive(Debug, Clone, Copy, PartialEq, Eq)]
pub struct WorldGenBlocks {
    pub bedrock: BlockType,
    pub stone: BlockType,
    pub dirt: BlockType,
    pub air: BlockType,
    pub sand: BlockType,
    pub grass: BlockType,
    pub snow: BlockType,
    pub coal_ore: BlockType,
    pub iron_ore: BlockType,
    pub gold_ore: BlockType,
    pub diamond_ore: BlockType,
    pub copper_ore: BlockType,
    pub water: BlockType,
    pub lava: BlockType,
}

impl WorldGenBlocks {
    /// Resolves the generator's blocks; bedrock is the `"deepslate"` block.
    pub fn new(registry: &BlockRegistry) -> (r: Self)
        ensures
            r.bedrock == spec_resolve_block(*registry, "deepslate"@),
            r.stone == spec_resolve_block(*registry, "stone"@),
            r.dirt == spec_resolve_block(*registry, "dirt"@),
            r.air == spec_resolve_block(*registry, "air"@),
            r.sand == spec_resolve_block(*registry, "sand"@),
            r.grass == spec_resolve_block(*registry, "grass"@),
            r.snow == spec_resolve_block(*registry, "snow"@),
            r.coal_ore == spec_resolve_block(*registry, "coal_ore"@),
            r.iron_ore == spec_resolve_block(*registry, "iron_ore"@),
            r.gold_ore == spec_resolve_block(*registry, "gold_ore"@),
            r.diamond_ore == spec_resolve_block(*registry, "diamond_ore"@),
            r.copper_ore == spec_resolve_block(*registry, "copper_ore"@),
            r.water == spec_resolve_block(*registry, "water"@),
            r.lava == spec_resolve_block(*registry, "lava"@),
    {
        WorldGenBlocks {
            bedrock: resolve_block(registry, "deepslate"),
            stone: resolve_block(registry, "stone"),
            dirt: resolve_block(registry, "dirt"),
            air: resolve_block(registry, "air"),
            sand: resolve_block(registry, "sand"),
            grass: resolve_block(registry, "grass"),
            snow: resolve_block(registry, "snow"),
            coal_ore: resolve_block(registry, "coal_ore"),
            iron_ore: resolve_block(registry, "iron_ore"),
            gold_ore: resolve_block(registry, "gold_ore"),
            diamond_ore: resolve_block(registry, "diamond_ore"),
            copper_ore: resolve_block(registry, "copper_ore"),
            water: resolve_block(registry, "water"),
            lava: resolve_block(registry, "lava"),
        }
    }
}

/// The layer a height falls in, counted from a column's surface.
#[derive(Debug, Clone, Copy, PartialEq, Eq, Structural)]
pub enum DepthLayer {
    /// Above the surface.
    Air,
    /// Below height -29.
    Bedrock,
    /// More than four blocks under the surface.
    Stone,
    /// Up to four blocks under the surface.
    Subsurface,
    /// The surface block itself.
    Surface,
}

/// The layer of height `y` in a column whose surface is at `surface_y`: air above the surface,
/// bedrock below -29, stone more than four blocks down, the subsurface kind up to four blocks
/// down, and the surface kind at the surface.
pub fn depth_layer(y: i32, surface_y: i32) -> (r: DepthLayer)
    ensures
        r == if y > surface_y {
            DepthLayer::Air
        } else if y < -29 {
            DepthLayer::Bedrock
        } else if y < surface_y - 4 {
            DepthLayer::Stone
        } else if y < surface_y {
            DepthLayer::Subsurface
        } else {
            DepthLayer::Surface
        },
{
    if y > surface_y {
        DepthLayer::Air
    } else if y < -29 {
        DepthLayer::Bedrock
    } else if y < surface_y - 4 {
        DepthLayer::Stone
    } else if y < surface_y {
        DepthLayer::Subsurface
    } else {
        DepthLayer::Surface
    }
}

} // verus!
