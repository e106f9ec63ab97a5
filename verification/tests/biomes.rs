use kimi_voxel::biomes::climate::{ClimateMap, DEFAULT_CLIMATE_SEED};
use kimi_voxel::biomes::features::{place_basic_tree, place_spruce_tree, ChunkWriter, TreeType};
use kimi_voxel::biomes::foliage::{
    basic_foliage_blocks, foliage_leaf_type, foliage_tree_height, is_leaf_block, outside_foliage_area,
    spruce_foliage_blocks, tree_foliage_blocks, FoliageCache, FOLIAGE_DISTANCE,
};
use kimi_voxel::biomes::registry::BiomeRegistry;
use kimi_voxel::biomes::types::{
    BiomeDefinition, TerrainType, BIOME_DESERT, BIOME_FOREST, BIOME_MOUNTAINS, BIOME_OCEAN, BIOME_PLAINS,
    BIOME_TAIGA, BIOME_TUNDRA,
};
use kimi_voxel::blocks::types::{
    AIR, BIRCH_LEAVES, BIRCH_LOG, DIRT, GRASS, OAK_LEAVES, OAK_LOG, SAND, SNOW, SPRUCE_LEAVES, SPRUCE_LOG, STONE,
};
use kimi_voxel::terrain::{CHUNK_VOLUME, MIN_HEIGHT};

fn index(lx: i32, y: i32, lz: i32) -> usize {
    (((y - MIN_HEIGHT) * 16 + lz) * 16 + lx) as usize
}

fn air_chunk() -> Vec<u8> {
    vec![AIR; CHUNK_VOLUME]
}

#[test]
fn climate_seeds() {
    assert_eq!(ClimateMap::new(7).seed(), 7);
    assert_eq!(ClimateMap::default().seed(), DEFAULT_CLIMATE_SEED);
}

#[test]
fn writer_set_block_only_fills_air() {
    let mut blocks = air_chunk();
    blocks[index(1, 0, 1)] = STONE;
    let mut w = ChunkWriter::new(blocks, None, 0, 0);
    w.set_block(1, 0, 1, OAK_LOG);
    w.set_block(2, 0, 2, OAK_LOG);
    w.set_block(16, 0, 0, OAK_LOG);
    w.set_block(0, 400, 0, OAK_LOG);
    let b = w.into_blocks();
    assert_eq!(b[index(1, 0, 1)], STONE);
    assert_eq!(b[index(2, 0, 2)], OAK_LOG);
    assert_eq!(b.iter().filter(|x| **x != AIR).count(), 2);
}

#[test]
fn writer_set_solid_overwrites() {
    let mut blocks = air_chunk();
    blocks[index(1, 0, 1)] = STONE;
    let mut w = ChunkWriter::new(blocks, None, 0, 0);
    w.set_solid(1, 0, 1, OAK_LOG);
    assert_eq!(w.blocks()[index(1, 0, 1)], OAK_LOG);
}

#[test]
fn writer_respects_player_changes() {
    let changes = [(33, 10, 17)];
    let mut w = ChunkWriter::new(air_chunk(), Some(&changes[..]), 32, 16);
    w.set_solid(1, 10, 1, STONE);
    w.set_block(1, 10, 2, STONE);
    w.set_leaf(1, 10, 1, OAK_LEAVES);
    assert_eq!(w.blocks()[index(1, 10, 1)], AIR);
    assert_eq!(w.blocks()[index(1, 10, 2)], STONE);
    assert!(w.take_leaf_subvoxels().is_empty());
}

#[test]
fn writer_records_leaves_in_air_only() {
    let mut blocks = air_chunk();
    blocks[index(3, 5, 3)] = STONE;
    let mut w = ChunkWriter::new(blocks, None, 16, -32);
    w.set_leaf(3, 5, 3, OAK_LEAVES);
    w.set_leaf(4, 5, 3, BIRCH_LEAVES);
    let leaves = w.take_leaf_subvoxels();
    assert_eq!(leaves.len(), 1);
    assert_eq!((leaves[0].world_x, leaves[0].world_y, leaves[0].world_z), (20, 5, -29));
    assert_eq!(leaves[0].block_type, BIRCH_LEAVES);
    assert!(w.take_leaf_subvoxels().is_empty());
    assert_eq!(w.blocks()[index(4, 5, 3)], AIR);
}

#[test]
fn oak_tree_in_open_air() {
    let mut w = ChunkWriter::new(air_chunk(), None, 0, 0);
    place_basic_tree(&mut w, 8, 64, 8, TreeType::Oak, 5);
    let leaves = w.take_leaf_subvoxels();
    assert_eq!(leaves.len(), 81);
    assert!(leaves.iter().all(|l| l.block_type == OAK_LEAVES));
    assert!(leaves.iter().all(|l| l.world_y >= 66 && l.world_y <= 70));
    let b = w.into_blocks();
    for y in 64..69 {
        assert_eq!(b[index(8, y, 8)], OAK_LOG);
    }
    assert_eq!(b[index(8, 69, 8)], AIR);
    assert_eq!(b.iter().filter(|x| **x != AIR).count(), 5);
}

#[test]
fn birch_tree_corners_are_rounded() {
    let mut w = ChunkWriter::new(air_chunk(), None, 0, 0);
    place_basic_tree(&mut w, 8, 10, 8, TreeType::Birch, 6);
    let leaves = w.take_leaf_subvoxels();
    assert!(leaves.iter().all(|l| l.block_type == BIRCH_LEAVES));
    assert!(!leaves.iter().any(|l| l.world_x == 6 && l.world_z == 6 && l.world_y == 13));
    assert!(leaves.iter().any(|l| l.world_x == 6 && l.world_z == 7 && l.world_y == 13));
    assert!(leaves.iter().any(|l| l.world_x == 7 && l.world_z == 7 && l.world_y == 17));
    assert_eq!(w.blocks()[index(8, 15, 8)], BIRCH_LOG);
}

#[test]
fn tree_at_chunk_edge_is_clipped() {
    let mut w = ChunkWriter::new(air_chunk(), None, 0, 0);
    place_basic_tree(&mut w, 0, 64, 0, TreeType::Oak, 5);
    let leaves = w.take_leaf_subvoxels();
    assert!(leaves.iter().all(|l| l.world_x >= 0 && l.world_z >= 0));
    assert!(leaves.len() < 81);
}

#[test]
fn spruce_tree_shape() {
    let mut w = ChunkWriter::new(air_chunk(), None, 0, 0);
    place_spruce_tree(&mut w, 8, 0, 8, 6);
    let leaves = w.take_leaf_subvoxels();
    assert!(leaves.iter().all(|l| l.block_type == SPRUCE_LEAVES));
    assert_eq!((leaves[0].world_x, leaves[0].world_y, leaves[0].world_z), (8, 6, 8));
    assert_eq!((leaves[1].world_x, leaves[1].world_y, leaves[1].world_z), (8, 7, 8));
    for y in 0..6 {
        assert_eq!(w.blocks()[index(8, y, 8)], SPRUCE_LOG);
    }
    // the trunk is already there, so its column gets no leaves below the tip
    assert!(!leaves.iter().any(|l| l.world_x == 8 && l.world_z == 8 && l.world_y < 6));
    assert_eq!(leaves.len(), 2 + 8 + 4 + 8 + 4);
}

#[test]
fn leaf_kinds() {
    assert!(is_leaf_block(OAK_LEAVES));
    assert!(is_leaf_block(BIRCH_LEAVES));
    assert!(is_leaf_block(SPRUCE_LEAVES));
    assert!(!is_leaf_block(OAK_LOG));
    assert!(!is_leaf_block(AIR));
}

#[test]
fn basic_foliage_shape() {
    let b = basic_foliage_blocks(0, 0, 0, 5);
    assert_eq!(b.len(), 81);
    assert_eq!(b[0], (-2, 2, -1));
    assert!(!b.contains(&(-2, 2, -2)));
    assert!(b.contains(&(1, 6, 1)));
    assert!(!b.contains(&(2, 5, 0)));
    assert_eq!(*b.last().unwrap(), (1, 6, 1));
}

#[test]
fn spruce_foliage_shape() {
    let b = spruce_foliage_blocks(10, 0, 10, 6);
    assert_eq!(b.len(), 28);
    assert_eq!(b[0], (10, 6, 10));
    assert_eq!(b[1], (10, 7, 10));
    assert_eq!(b[2], (9, 5, 9));
    assert_eq!(&b[11..15], &[(11, 4, 10), (9, 4, 10), (10, 4, 11), (10, 4, 9)]);
    let short = spruce_foliage_blocks(0, 0, 0, 2);
    assert_eq!(short, vec![(0, 2, 0), (0, 3, 0)]);
}

#[test]
fn tree_foliage_by_biome() {
    assert_eq!(tree_foliage_blocks(0, 0, 0, 6, BIOME_TAIGA), spruce_foliage_blocks(0, 0, 0, 6));
    assert_eq!(tree_foliage_blocks(0, 0, 0, 6, BIOME_TUNDRA), spruce_foliage_blocks(0, 0, 0, 6));
    assert_eq!(tree_foliage_blocks(0, 0, 0, 6, BIOME_FOREST), basic_foliage_blocks(0, 0, 0, 6));
}

#[test]
fn leaf_type_by_biome() {
    assert_eq!(foliage_leaf_type(BIOME_TAIGA, 5), SPRUCE_LEAVES);
    assert_eq!(foliage_leaf_type(BIOME_TUNDRA, 3), SPRUCE_LEAVES);
    assert_eq!(foliage_leaf_type(BIOME_FOREST, 35), BIRCH_LEAVES);
    assert_eq!(foliage_leaf_type(BIOME_FOREST, 36), OAK_LEAVES);
    assert_eq!(foliage_leaf_type(BIOME_FOREST, -10), BIRCH_LEAVES);
    assert_eq!(foliage_leaf_type(BIOME_PLAINS, 0), OAK_LEAVES);
    assert_eq!(foliage_leaf_type(BIOME_DESERT, 10), OAK_LEAVES);
}

#[test]
fn tree_heights_follow_rust_remainder() {
    assert_eq!(foliage_tree_height(0), 5);
    assert_eq!(foliage_tree_height(7), 6);
    assert_eq!(foliage_tree_height(998), 7);
    assert_eq!(foliage_tree_height(-7), 5 + (-7 % 3));
    assert_eq!(foliage_tree_height(i32::MIN), 5 + (i32::MIN % 3));
}

#[test]
fn far_columns() {
    assert!(!outside_foliage_area(0, 0, 0, 0, 9));
    assert!(!outside_foliage_area(-144, 159, 0, 0, 9));
    assert!(outside_foliage_area(-145, 0, 0, 0, 9));
    assert!(outside_foliage_area(0, 160, 0, 0, 9));
    assert!(outside_foliage_area(500, 500, 10, 10, 9));
}

#[test]
fn new_cache_is_empty() {
    let c = FoliageCache::new();
    assert!(!c.is_generated(0, 0));
    assert!(c.is_near(0, 0));
}

#[test]
fn first_update_marks_the_whole_area() {
    let mut c = FoliageCache::new();
    let (added, removed) = c.update_chunks(0, 0);
    assert_eq!(added.len(), 289);
    assert_eq!(added[0], (-8, -8));
    assert_eq!(added[1], (-7, -8));
    assert_eq!(added[288], (8, 8));
    assert!(!removed);
    for x in -FOLIAGE_DISTANCE..=FOLIAGE_DISTANCE {
        for z in -FOLIAGE_DISTANCE..=FOLIAGE_DISTANCE {
            assert!(c.is_generated(x, z));
        }
    }
    assert!(!c.is_generated(9, 0));
}

#[test]
fn staying_put_adds_nothing() {
    let mut c = FoliageCache::new();
    c.update_chunks(0, 0);
    let (added, removed) = c.update_chunks(0, 0);
    assert!(added.is_empty());
    assert!(!removed);
}

#[test]
fn moving_adds_a_row_and_keeps_the_margin() {
    let mut c = FoliageCache::new();
    c.update_chunks(0, 0);
    let (added, removed) = c.update_chunks(1, 0);
    assert_eq!(added.len(), 17);
    assert!(added.iter().all(|(x, _)| *x == 9));
    assert!(!removed);
    assert!(c.is_generated(-8, 0));
}

#[test]
fn moving_far_forgets_old_chunks() {
    let mut c = FoliageCache::new();
    c.update_chunks(0, 0);
    let (added, removed) = c.update_chunks(2, 0);
    assert_eq!(added.len(), 34);
    assert!(removed);
    assert!(!c.is_generated(-8, 0));
    assert!(c.is_generated(-7, 0));
    assert!(c.is_generated(10, 3));
}

#[test]
fn default_cache_is_new() {
    let c = FoliageCache::default();
    assert!(!c.is_generated(0, 0));
}

#[test]
fn tree_keeps_player_changed_trunk_cell() {
    let changes = [(8, 66, 8), (9, 68, 8)];
    let mut w = ChunkWriter::new(air_chunk(), Some(&changes[..]), 0, 0);
    place_basic_tree(&mut w, 8, 64, 8, TreeType::Oak, 5);
    let leaves = w.take_leaf_subvoxels();
    assert!(!leaves.iter().any(|l| (l.world_x, l.world_y, l.world_z) == (9, 68, 8)));
    assert_eq!(leaves.len(), 79);
    let b = w.into_blocks();
    assert_eq!(b[index(8, 66, 8)], AIR);
    assert_eq!(b[index(8, 65, 8)], OAK_LOG);
    assert_eq!(b[index(8, 67, 8)], OAK_LOG);
}

#[test]
fn builtin_biomes() {
    let reg = BiomeRegistry::new();
    assert_eq!(reg.count(), 10);
    for i in 0..10u8 {
        assert_eq!(reg.get(i).id, i);
    }
    assert_eq!(reg.get(BIOME_TAIGA).name, "taiga");
    assert_eq!(reg.get(BIOME_TUNDRA).surface_block, SNOW);
    assert_eq!(f32::from_bits(reg.get(BIOME_OCEAN).base_height_bits), -15.0);
    assert_eq!(f32::from_bits(reg.get(BIOME_FOREST).tree_density_bits), 0.015);
    assert_eq!(reg.get(BIOME_MOUNTAINS).terrain_type, TerrainType::Mountains3D);
    assert_eq!(f32::from_bits(reg.get(BIOME_MOUNTAINS).noise_3d_strength_bits), 0.2);
    assert_eq!(reg.get(200).name, "ocean");
    assert_eq!(BiomeRegistry::default().count(), 10);
}

#[test]
fn registering_biomes_past_the_end_fills_with_the_first() {
    let mut reg = BiomeRegistry::new();
    let b = BiomeDefinition::new(12, "mesa", SAND, STONE, STONE).with_trees(0.5f32.to_bits());
    reg.register(b);
    assert_eq!(reg.count(), 13);
    assert_eq!(reg.get(12).name, "mesa");
    assert_eq!(f32::from_bits(reg.get(12).tree_density_bits), 0.5);
    assert_eq!(reg.get(10).name, "ocean");
    assert_eq!(reg.get(11).name, "ocean");
    let plains = BiomeDefinition::new(1, "meadow", GRASS, DIRT, STONE)
        .with_terrain(1.0f32.to_bits(), 2.0f32.to_bits(), TerrainType::Flat)
        .with_climate(0.1f32.to_bits(), 0.2f32.to_bits())
        .with_3d_noise(0.3f32.to_bits());
    reg.register(plains);
    assert_eq!(reg.count(), 13);
    assert_eq!(reg.get(1).name, "meadow");
    assert_eq!(reg.get(1).terrain_type, TerrainType::Flat);
    assert_eq!(f32::from_bits(reg.get(1).humidity_bits), 0.2);
}

#[test]
fn new_biome_defaults() {
    let b = BiomeDefinition::new(3, "x", GRASS, DIRT, STONE);
    assert_eq!(f32::from_bits(b.base_height_bits), 20.0);
    assert_eq!(f32::from_bits(b.height_variation_bits), 10.0);
    assert_eq!(b.terrain_type, TerrainType::Rolling);
    assert_eq!(f32::from_bits(b.temperature_bits), 0.5);
    assert_eq!(f32::from_bits(b.humidity_bits), 0.5);
    assert_eq!(b.noise_3d_strength_bits, 0);
    assert_eq!(b.tree_density_bits, 0);
}

#[test]
fn writer_far_origin_without_changes() {
    let mut w = ChunkWriter::new(air_chunk(), None, i32::MAX - 3, i32::MAX - 3);
    w.set_block(10, 0, 10, STONE);
    w.set_solid(11, 0, 11, OAK_LOG);
    assert_eq!(w.blocks()[index(10, 0, 10)], STONE);
    assert_eq!(w.blocks()[index(11, 0, 11)], OAK_LOG);
}
