use vstd::prelude::*;
use vstd::string::*;
use crate::blocks::registry::BlockRegistry;
use crate::blocks::definition::{HALF_BITS, ONE_BITS};

verus! {

/// A block kind is its numeric id.
pub type BlockType = u8;

pub const AIR: BlockType = 0;
pub const STONE: BlockType = 1;
pub const DIRT: BlockType = 2;
pub const GRASS: BlockType = 3;
pub const SAND: BlockType = 4;
pub const GRAVEL: BlockType = 5;
pub const COBBLESTONE: BlockType = 10;
pub const MOSSY_COBBLESTONE: BlockType = 11;
pub const GRANITE: BlockType = 12;
pub const DIORITE: BlockType = 13;
pub const ANDESITE: BlockType = 14;
pub const DEEPSLATE: BlockType = 15;
pub const COAL_ORE: BlockType = 20;
pub const IRON_ORE: BlockType = 21;
pub const GOLD_ORE: BlockType = 22;
pub const DIAMOND_ORE: BlockType = 23;
pub const EMERALD_ORE: BlockType = 24;
pub const REDSTONE_ORE: BlockType = 25;
pub const LAPIS_ORE: BlockType = 26;
pub const COPPER_ORE: BlockType = 27;
pub const OAK_LOG: BlockType = 30;
pub const OAK_PLANKS: BlockType = 31;
pub const OAK_LEAVES: BlockType = 32;
pub const BIRCH_LOG: BlockType = 33;
pub const BIRCH_PLANKS: BlockType = 34;
pub const BIRCH_LEAVES: BlockType = 35;
pub const SPRUCE_LOG: BlockType = 36;
pub const SPRUCE_PLANKS: BlockType = 37;
pub const SPRUCE_LEAVES: BlockType = 38;
pub const WATER: BlockType = 50;
pub const LAVA: BlockType = 51;
pub const ICE: BlockType = 52;
pub const SNOW: BlockType = 53;
pub const CLAY: BlockType = 54;
pub const BRICKS: BlockType = 60;
pub const STONE_BRICKS: BlockType = 61;
pub const OBSIDIAN: BlockType = 62;
pub const GLASS: BlockType = 63;
pub const IRON_BLOCK: BlockType = 70;
pub const GOLD_BLOCK: BlockType = 71;
pub const DIAMOND_BLOCK: BlockType = 72;
pub const EMERALD_BLOCK: BlockType = 73;
pub const COPPER_BLOCK: BlockType = 74;

pub const CUSTOM_100: BlockType = 100;
pub const CUSTOM_101: BlockType = 101;
pub const CUSTOM_102: BlockType = 102;
pub const CUSTOM_103: BlockType = 103;
pub const CUSTOM_104: BlockType = 104;

/// A block stops movement unless it is air, water or glass.
pub open spec fn spec_is_solid(block: BlockType) -> bool {
    block != AIR && block != WATER && block != GLASS
}

/// Light passes through air, water, glass and the three kinds of leaves.
pub open spec fn spec_is_transparent(block: BlockType) -> bool {
    block == AIR || block == WATER || block == GLASS || block == OAK_LEAVES || block
        == BIRCH_LEAVES || block == SPRUCE_LEAVES
}

/// The three kinds of leaves.
pub open spec fn spec_is_leaf_block(block: BlockType) -> bool {
    block == OAK_LEAVES || block == BIRCH_LEAVES || block == SPRUCE_LEAVES
}

pub fn is_solid(block: BlockType) -> (r: bool)
    ensures
        r == spec_is_solid(block),
{
    block != AIR && block != WATER && block != GLASS
}

pub fn is_transparent(block: BlockType) -> (r: bool)
    ensures
        r == spec_is_transparent(block),
{
    block == AIR || block == WATER || block == GLASS || block == OAK_LEAVES || block
        == BIRCH_LEAVES || block == SPRUCE_LEAVES
}


/// The character of a decimal digit.
pub open spec fn digit_char(d: int) -> char {
    ('0' as int + d) as char
}

/// Decimal notation of `n`, without leading zeros.
pub open spec fn decimal(n: nat) -> Seq<char>
    decreases n,
{
    if n < 10 {
        seq![digit_char(n as int)]
    } else {
        decimal(n / 10).push(digit_char((n % 10) as int))
    }
}

/// Text of one decimal digit.
fn digit_str(d: u8) -> (r: &'static str)
    requires
        d < 10,
    ensures
        r@ == seq![digit_char(d as int)],
{
    match d {
        0 => {
            proof {
                reveal_strlit("0");
            }
            "0"
        },
        1 => {
            proof {
                reveal_strlit("1");
            }
            "1"
        },
        2 => {
            proof {
                reveal_strlit("2");
            }
            "2"
        },
        3 => {
            proof {
                reveal_strlit("3");
            }
            "3"
        },
        4 => {
            proof {
                reveal_strlit("4");
            }
            "4"
        },
        5 => {
            proof {
                reveal_strlit("5");
            }
            "5"
        },
        6 => {
            proof {
                reveal_strlit("6");
            }
            "6"
        },
        7 => {
            proof {
                reveal_strlit("7");
            }
            "7"
        },
        8 => {
            proof {
                reveal_strlit("8");
            }
            "8"
        },
        _ => {
            proof {
                reveal_strlit("9");
            }
            "9"
        },
    }
}

/// The name shown for a block kind: the registered definition's name, or `block_` followed by
/// the numeric id in decimal.
pub fn get_block_name(registry: &BlockRegistry, block: BlockType) -> (r: String)
    requires
        registry.wf(),
    ensures
        r@ == if registry@.1.contains_key(block) {
            registry@.1[block].name@
        } else {
            "block_"@ + decimal(block as nat)
        },
{
    if let Some(def) = registry.get_by_numeric(block) {
        return def.name.clone();
    }
    let mut name = String::from_str("block_");
    if block >= 100 {
        name.append(digit_str(block / 100));
    }
    if block >= 10 {
        name.append(digit_str((block / 10) % 10));
    }
    name.append(digit_str(block % 10));
    proof {
        reveal_with_fuel(decimal, 3);
        if block >= 100 {
            assert(decimal(block as nat) =~= seq![
                digit_char((block / 100) as int),
                digit_char(((block / 10) % 10) as int),
                digit_char((block % 10) as int),
            ]);
        } else if block >= 10 {
            assert(decimal(block as nat) =~= seq![
                digit_char((block / 10) as int),
                digit_char((block % 10) as int),
            ]);
        }
    }
    name
}
/// Law: every block kind is solid except air (0), water (50) and glass (63); the see-through
/// kinds are those three and the three leaves (32, 35, 38); the leaves are exactly oak, birch
/// and spruce leaves.
pub proof fn lemma_block_kind_classes(b: BlockType)
    ensures
        spec_is_solid(b) <==> (b != 0 && b != 50 && b != 63),
        spec_is_transparent(b) <==> (b == 0 || b == 50 || b == 63 || b == 32 || b == 35 || b == 38),
        spec_is_leaf_block(b) <==> (b == 32 || b == 35 || b == 38),
{
}

/// Bit pattern of the `f32` 0.4, the side shade of an unknown block.
pub const SHADE_BITS: u32 = 0x3ECC_CCCD;

/// The top colour of a block kind (as `f32` bit patterns): the registered definition's, or grey
/// (one half on each channel) for an unknown kind.
pub fn get_block_color(registry: &BlockRegistry, block: BlockType) -> (r: [u32; 3])
    requires
        registry.wf(),
    ensures
        r == if registry@.1.contains_key(block) {
            match registry@.1[block].color {
                crate::blocks::definition::ColorDef::Uniform(c) => c,
                crate::blocks::definition::ColorDef::PerFace { top, .. } => top,
            }
        } else {
            [HALF_BITS, HALF_BITS, HALF_BITS]
        },
{
    match registry.get_by_numeric(block) {
        Some(def) => def.color.top(),
        None => [HALF_BITS, HALF_BITS, HALF_BITS],
    }
}

/// The top and side colours of a colour definition.
pub open spec fn face_colors(c: crate::blocks::definition::ColorDef) -> ([u32; 3], [u32; 3]) {
    match c {
        crate::blocks::definition::ColorDef::Uniform(c) => (c, c),
        crate::blocks::definition::ColorDef::PerFace { top, side, .. } => (top, side),
    }
}

/// The top and side colours of a block kind: the registered definition's, or a grey top (one
/// half) and a darker side (0.4) for an unknown kind.
pub open spec fn spec_face_colors(registry: BlockRegistry, block: BlockType) -> ([u32; 3], [u32; 3]) {
    if registry@.1.contains_key(block) {
        face_colors(registry@.1[block].color)
    } else {
        ([HALF_BITS, HALF_BITS, HALF_BITS], [SHADE_BITS, SHADE_BITS, SHADE_BITS])
    }
}

/// The top and side colours of a block kind (as `f32` bit patterns; see `spec_face_colors`).
pub fn get_face_colors(registry: &BlockRegistry, block: BlockType) -> (r: ([u32; 3], [u32; 3]))
    requires
        registry.wf(),
    ensures
        r == spec_face_colors(*registry, block),
{
    match registry.get_by_numeric(block) {
        Some(def) => (def.color.top(), def.color.side()),
        None => ([HALF_BITS, HALF_BITS, HALF_BITS], [SHADE_BITS, SHADE_BITS, SHADE_BITS]),
    }
}

/// The hardness of a block kind (as an `f32` bit pattern): the registered definition's, or one
/// for an unknown kind.
pub fn get_block_hardness(registry: &BlockRegistry, block: BlockType) -> (r: u32)
    requires
        registry.wf(),
    ensures
        r == if registry@.1.contains_key(block) {
            registry@.1[block].hardness_bits
        } else {
            ONE_BITS
        },
{
    match registry.get_by_numeric(block) {
        Some(def) => def.hardness_bits,
        None => ONE_BITS,
    }
}

} // verus!
