use kimi_voxel::blocks::definition::{
    parse_hex_color, hex_color_is_cuttable, default_true, default_version, BlockCategory, BlockDefinition, BlocksFile,
    ColorDef, FaceTextures, PixelValue, ProceduralParams, ProceduralType, TextureDef,
};
use kimi_voxel::blocks::registry::BlockRegistry;
use kimi_voxel::blocks::texture_atlas::{simple_hash, BlockTextureAtlas, ATLAS_BYTES};
use kimi_voxel::blocks::types::{
    get_block_name, is_solid, is_transparent, AIR, DEEPSLATE, DIRT, GLASS, GRASS, OAK_LEAVES, SAND,
    STONE, WATER, COAL_ORE, SNOW, LAVA,
};
use kimi_voxel::blocks::worldgen::{block_to_id, depth_layer, resolve_block, str_eq, DepthLayer, WorldGenBlocks};
use kimi_voxel::blocks::types::{get_block_color, get_face_colors, get_block_hardness};

fn def(id: &str, numeric_id: u8, name: &str) -> BlockDefinition {
    BlockDefinition {
        id: id.to_string(),
        numeric_id,
        name: name.to_string(),
        ..Default::default()
    }
}

fn pixel(atlas: &BlockTextureAtlas, x: usize, y: usize) -> [u8; 4] {
    let i = (y * 256 + x) * 4;
    [atlas.data[i], atlas.data[i + 1], atlas.data[i + 2], atlas.data[i + 3]]
}

#[test]
fn hex_color_six_digits() {
    assert_eq!(parse_hex_color("#ff8000"), [255, 128, 0, 255]);
    assert_eq!(parse_hex_color("00ff00"), [0, 255, 0, 255]);
}

#[test]
fn hex_color_eight_digits_and_many_hashes() {
    assert_eq!(parse_hex_color("##11223344"), [0x11, 0x22, 0x33, 0x44]);
}

#[test]
fn hex_color_wrong_length_is_magenta() {
    assert_eq!(parse_hex_color("#fff"), [255, 0, 255, 255]);
    assert_eq!(parse_hex_color(""), [255, 0, 255, 255]);
}

#[test]
fn hex_color_unreadable_components_fall_back() {
    assert_eq!(parse_hex_color("zz0000"), [255, 0, 0, 255]);
    assert_eq!(parse_hex_color("00zz00"), [0, 0, 0, 255]);
    assert_eq!(parse_hex_color("0000zz"), [0, 0, 255, 255]);
    assert_eq!(parse_hex_color("000000zz"), [0, 0, 0, 255]);
}

#[test]
fn hex_color_plus_sign_is_read() {
    assert_eq!(parse_hex_color("+f+f+f"), [15, 15, 15, 255]);
}

#[test]
fn pixel_values_to_rgba() {
    assert_eq!(PixelValue::RGB([1, 2, 3]).to_rgba(), [1, 2, 3, 255]);
    assert_eq!(PixelValue::RGBA([1, 2, 3, 4]).to_rgba(), [1, 2, 3, 4]);
    assert_eq!(PixelValue::Hex("#102030".to_string()).to_rgba(), [16, 32, 48, 255]);
    assert_eq!(PixelValue::Index(3).to_rgba(), [255, 0, 255, 255]);
}

#[test]
fn defaults_of_block_files() {
    assert!(default_true());
    assert_eq!(default_version(), "1.0");
    let d = BlockDefinition::default();
    assert_eq!(d.id, "unknown");
    assert_eq!(d.name, "Unknown");
    assert_eq!(d.numeric_id, 0);
    assert!(d.solid && d.breakable && !d.transparent);
    assert_eq!(d.category, BlockCategory::Basic);
    assert_eq!(f32::from_bits(d.hardness_bits), 1.0);
    assert_eq!(d.color, ColorDef::Uniform([0.5f32.to_bits(); 3]));
}

#[test]
fn color_faces() {
    let c = ColorDef::PerFace { top: [1, 2, 3], side: [4, 5, 6], bottom: [7, 8, 9] };
    assert_eq!(c.top(), [1, 2, 3]);
    assert_eq!(c.side(), [4, 5, 6]);
    assert_eq!(c.bottom(), [7, 8, 9]);
    let u = ColorDef::Uniform([3, 3, 3]);
    assert_eq!(u.side(), [3, 3, 3]);
}

#[test]
fn solid_and_transparent_kinds() {
    assert!(is_solid(STONE));
    assert!(!is_solid(AIR));
    assert!(!is_solid(WATER));
    assert!(is_transparent(AIR));
    assert!(is_transparent(GLASS));
    assert!(is_transparent(OAK_LEAVES));
    assert!(!is_transparent(STONE));
}

#[test]
fn simple_hash_values() {
    assert_eq!(simple_hash(0, 0), 0);
    assert_eq!(simple_hash(1, 2), 95);
    assert_eq!(simple_hash(5, 7), 107);
    assert_eq!(simple_hash(100, 200), 194);
}

#[test]
fn registry_register_and_lookup() {
    let mut reg = BlockRegistry::new();
    assert_eq!(reg.count(), 0);
    reg.register(def("stone", 1, "Stone"));
    reg.register(def("dirt", 2, "Dirt"));
    assert_eq!(reg.count(), 2);
    assert_eq!(reg.get("stone").unwrap().name, "Stone");
    assert!(reg.get("lava").is_none());
    assert_eq!(reg.get_by_numeric(2).unwrap().id, "dirt");
    assert!(reg.get_by_numeric(9).is_none());
    assert_eq!(reg.get_numeric_id("dirt"), Some(2));
    assert_eq!(reg.get_numeric_id("sand"), None);
    assert_eq!(reg.get_string_id(1), Some("stone"));
    assert_eq!(reg.get_string_id(7), None);
}

#[test]
fn registry_reregistering_replaces_and_keeps_order() {
    let mut reg = BlockRegistry::new();
    reg.register(def("stone", 1, "Stone"));
    reg.register(def("dirt", 2, "Dirt"));
    reg.register(def("stone", 1, "Smooth Stone"));
    assert_eq!(reg.count(), 2);
    let all = reg.all_blocks();
    assert_eq!(all.len(), 2);
    assert_eq!(all[0].name, "Smooth Stone");
    assert_eq!(all[1].name, "Dirt");
}

#[test]
fn registry_by_category() {
    let mut reg = BlockRegistry::new();
    let mut ore = def("coal_ore", 20, "Coal Ore");
    ore.category = BlockCategory::Ore;
    reg.register(def("stone", 1, "Stone"));
    reg.register(ore);
    let ores = reg.blocks_by_category(BlockCategory::Ore);
    assert_eq!(ores.len(), 1);
    assert_eq!(ores[0].id, "coal_ore");
    assert_eq!(reg.blocks_by_category(BlockCategory::Metal).len(), 0);
}

#[test]
fn registry_loads_a_block_file() {
    let mut reg = BlockRegistry::new();
    let file = BlocksFile {
        version: "1.0".to_string(),
        blocks: vec![def("a", 100, "A"), def("b", 101, "B"), def("c", 102, "C")],
    };
    assert_eq!(reg.load_blocks_file(file), 3);
    assert_eq!(reg.count(), 3);
    assert_eq!(reg.get_numeric_id("c"), Some(102));
}

#[test]
fn block_names_from_registry_or_number() {
    let mut reg = BlockRegistry::new();
    reg.register(def("stone", 1, "Stone"));
    assert_eq!(get_block_name(&reg, 1), "Stone");
    assert_eq!(get_block_name(&reg, 42), "block_42");
    assert_eq!(get_block_name(&reg, 7), "block_7");
    assert_eq!(get_block_name(&reg, 200), "block_200");
    assert_eq!(get_block_name(&reg, 0), "block_0");
}

#[test]
fn string_equality() {
    assert!(str_eq("grass", "grass"));
    assert!(!str_eq("grass", "gras"));
    assert!(!str_eq("grass", "glass"));
}

#[test]
fn resolve_uses_registry_then_fallback() {
    let mut reg = BlockRegistry::new();
    reg.register(def("marble", 120, "Marble"));
    assert_eq!(resolve_block(&reg, "marble"), 120);
    assert_eq!(resolve_block(&reg, "grass"), GRASS);
    assert_eq!(resolve_block(&reg, "deepslate"), DEEPSLATE);
    assert_eq!(resolve_block(&reg, "coal_ore"), COAL_ORE);
    assert_eq!(resolve_block(&reg, "gravel"), 5);
    assert_eq!(resolve_block(&reg, "no_such_block"), STONE);
}

#[test]
fn block_ids_from_registry_or_fallback() {
    let mut reg = BlockRegistry::new();
    reg.register(def("marble", 120, "Marble"));
    assert_eq!(block_to_id(&reg, 120), "marble");
    assert_eq!(block_to_id(&reg, SAND), "sand");
    assert_eq!(block_to_id(&reg, LAVA), "lava");
    assert_eq!(block_to_id(&reg, 99), "unknown");
}

#[test]
fn worldgen_blocks_from_registry_and_fallbacks() {
    let mut reg = BlockRegistry::new();
    reg.register(def("grass", 3, "Grass"));
    let w = WorldGenBlocks::new(&reg);
    assert_eq!(w.bedrock, DEEPSLATE);
    assert_eq!(w.stone, STONE);
    assert_eq!(w.dirt, DIRT);
    assert_eq!(w.grass, GRASS);
    assert_eq!(w.sand, SAND);
    assert_eq!(w.air, AIR);
    assert_eq!(w.coal_ore, COAL_ORE);
    assert_eq!(w.lava, LAVA);
    assert_eq!(w.snow, SNOW);
    assert_eq!(w.water, WATER);
}

#[test]
fn atlas_starts_blank() {
    let atlas = BlockTextureAtlas::new();
    assert_eq!(atlas.data.len(), ATLAS_BYTES);
    assert!(atlas.data.iter().all(|b| *b == 0));
    assert!(atlas.block_positions.is_empty());
}

#[test]
fn atlas_magenta_checkerboard() {
    let mut atlas = BlockTextureAtlas::new();
    atlas.fill_magenta(16, 0);
    assert_eq!(pixel(&atlas, 16, 0), [255, 0, 255, 255]);
    assert_eq!(pixel(&atlas, 20, 0), [0, 0, 0, 255]);
    assert_eq!(pixel(&atlas, 24, 8), [255, 0, 255, 255]);
    assert_eq!(pixel(&atlas, 28, 8), [0, 0, 0, 255]);
    assert_eq!(pixel(&atlas, 0, 0), [0, 0, 0, 0]);
}

#[test]
fn atlas_solid_color_has_darker_frame() {
    let mut atlas = BlockTextureAtlas::new();
    atlas.render_solid_color([100, 200, 50], 0, 0);
    assert_eq!(pixel(&atlas, 5, 5), [100, 200, 50, 255]);
    assert_eq!(pixel(&atlas, 0, 5), [70, 140, 35, 255]);
    assert_eq!(pixel(&atlas, 15, 15), [70, 140, 35, 255]);
}

#[test]
fn atlas_pixels_are_stretched() {
    let mut atlas = BlockTextureAtlas::new();
    let pixels = vec![
        PixelValue::RGB([1, 1, 1]),
        PixelValue::RGB([2, 2, 2]),
        PixelValue::RGB([3, 3, 3]),
        PixelValue::RGB([4, 4, 4]),
    ];
    atlas.render_pixels(2, 2, &pixels, 0, 0);
    assert_eq!(pixel(&atlas, 0, 0), [1, 1, 1, 255]);
    assert_eq!(pixel(&atlas, 8, 0), [2, 2, 2, 255]);
    assert_eq!(pixel(&atlas, 0, 8), [3, 3, 3, 255]);
    assert_eq!(pixel(&atlas, 15, 15), [4, 4, 4, 255]);
}

#[test]
fn atlas_missing_pixels_are_magenta() {
    let mut atlas = BlockTextureAtlas::new();
    atlas.render_pixels(2, 2, &[PixelValue::RGB([9, 9, 9])], 0, 0);
    assert_eq!(pixel(&atlas, 0, 0), [9, 9, 9, 255]);
    assert_eq!(pixel(&atlas, 8, 0), [255, 0, 255, 255]);
}

#[test]
fn atlas_indexed_palette() {
    let mut atlas = BlockTextureAtlas::new();
    let palette = vec![PixelValue::RGB([10, 0, 0]), PixelValue::RGB([0, 20, 0])];
    let indices = vec![0u8, 1, 5, 0];
    atlas.render_indexed(&palette, &indices, 2, 2, 0, 0);
    assert_eq!(pixel(&atlas, 0, 0), [10, 0, 0, 255]);
    assert_eq!(pixel(&atlas, 8, 0), [0, 20, 0, 255]);
    assert_eq!(pixel(&atlas, 0, 8), [255, 0, 255, 255]);
    assert_eq!(pixel(&atlas, 8, 8), [10, 0, 0, 255]);
}

#[test]
fn atlas_procedural_checker() {
    let mut atlas = BlockTextureAtlas::new();
    let params = ProceduralParams {
        color1: Some(PixelValue::RGB([200, 0, 0])),
        color2: Some(PixelValue::RGB([0, 0, 200])),
        ..Default::default()
    };
    atlas.render_procedural(&ProceduralType::Checker, &params, 0, 0);
    assert_eq!(pixel(&atlas, 0, 0), [200, 0, 0, 255]);
    assert_eq!(pixel(&atlas, 2, 0), [0, 0, 200, 255]);
    assert_eq!(pixel(&atlas, 2, 2), [200, 0, 0, 255]);
    assert_eq!(pixel(&atlas, 1, 1), [200, 0, 0, 255]);
}

#[test]
fn atlas_procedural_gradient_matches_float_lerp() {
    let mut atlas = BlockTextureAtlas::new();
    let params = ProceduralParams {
        color1: Some(PixelValue::RGB([0, 100, 255])),
        color2: Some(PixelValue::RGB([255, 0, 17])),
        ..Default::default()
    };
    atlas.render_procedural(&ProceduralType::Gradient, &params, 0, 0);
    for y in 0..16u32 {
        let t = y as f32 / 16.0;
        let lerp = |a: u8, b: u8| (a as f32 * (1.0 - t) + b as f32 * t) as u8;
        assert_eq!(pixel(&atlas, 3, y as usize), [lerp(0, 255), lerp(100, 0), lerp(255, 17), 255]);
    }
}

#[test]
fn atlas_set_pixel_and_out_of_range() {
    let mut atlas = BlockTextureAtlas::new();
    atlas.set_pixel(3, 4, [1, 2, 3, 4]);
    assert_eq!(pixel(&atlas, 3, 4), [1, 2, 3, 4]);
    let before = atlas.data.clone();
    atlas.set_pixel(300, 300, [9, 9, 9, 9]);
    assert_eq!(atlas.data, before);
}

#[test]
fn atlas_block_texture_prefers_side_then_north() {
    let mut atlas = BlockTextureAtlas::new();
    let mut d = def("x", 5, "X");
    d.textures = Some(FaceTextures::PerFace {
        top: None,
        bottom: None,
        north: Some(TextureDef::Pixels { width: 1, height: 1, pixels: vec![PixelValue::RGB([7, 7, 7])] }),
        south: None,
        east: None,
        west: None,
        side: None,
    });
    atlas.render_block_texture(&d, 1, 0, [0, 0, 0]);
    assert_eq!(pixel(&atlas, 20, 3), [7, 7, 7, 255]);
}

#[test]
fn atlas_file_texture_draws_checkerboard() {
    let mut atlas = BlockTextureAtlas::new();
    atlas.render_texture_def(&TextureDef::File("stone.png".to_string()), 0, 0);
    assert_eq!(pixel(&atlas, 0, 0), [255, 0, 255, 255]);
    assert_eq!(pixel(&atlas, 4, 0), [0, 0, 0, 255]);
}

#[test]
fn atlas_from_registry_skips_air_and_numbers_tiles() {
    let mut reg = BlockRegistry::new();
    reg.register(def("air", 0, "Air"));
    reg.register(def("stone", 1, "Stone"));
    reg.register(def("dirt", 2, "Dirt"));
    let colors = vec![[0, 0, 0], [100, 100, 100], [50, 60, 70]];
    let atlas = BlockTextureAtlas::from_registry(&reg, &colors);
    assert_eq!(atlas.block_positions.len(), 2);
    assert_eq!(atlas.block_positions.get(&1), Some(&(0, 0)));
    assert_eq!(atlas.block_positions.get(&2), Some(&(1, 0)));
    assert_eq!(pixel(&atlas, 5, 5), [100, 100, 100, 255]);
    assert_eq!(pixel(&atlas, 21, 5), [50, 60, 70, 255]);
    assert_eq!(pixel(&atlas, 37, 5), [0, 0, 0, 0]);
}

#[test]
fn block_colors_and_hardness() {
    let mut reg = BlockRegistry::new();
    let mut grass = def("grass", 3, "Grass");
    grass.color = ColorDef::PerFace {
        top: [0.36f32.to_bits(), 0.6f32.to_bits(), 0.28f32.to_bits()],
        side: [0.55f32.to_bits(), 0.4f32.to_bits(), 0.26f32.to_bits()],
        bottom: [0.55f32.to_bits(), 0.4f32.to_bits(), 0.26f32.to_bits()],
    };
    grass.hardness_bits = 0.6f32.to_bits();
    reg.register(grass);
    let top = get_block_color(&reg, 3).map(f32::from_bits);
    assert_eq!(top, [0.36, 0.6, 0.28]);
    let (t, side) = get_face_colors(&reg, 3);
    assert_eq!(t.map(f32::from_bits), [0.36, 0.6, 0.28]);
    assert_eq!(side.map(f32::from_bits), [0.55, 0.4, 0.26]);
    assert_eq!(f32::from_bits(get_block_hardness(&reg, 3)), 0.6);
    assert_eq!(get_block_color(&reg, 9).map(f32::from_bits), [0.5, 0.5, 0.5]);
    let (t, side) = get_face_colors(&reg, 9);
    assert_eq!(t.map(f32::from_bits), [0.5, 0.5, 0.5]);
    assert_eq!(side.map(f32::from_bits), [0.4, 0.4, 0.4]);
    assert_eq!(f32::from_bits(get_block_hardness(&reg, 9)), 1.0);
}

#[test]
fn depth_layers_of_a_column() {
    assert_eq!(depth_layer(70, 64), DepthLayer::Air);
    assert_eq!(depth_layer(64, 64), DepthLayer::Surface);
    assert_eq!(depth_layer(63, 64), DepthLayer::Subsurface);
    assert_eq!(depth_layer(60, 64), DepthLayer::Subsurface);
    assert_eq!(depth_layer(59, 64), DepthLayer::Stone);
    assert_eq!(depth_layer(-29, 64), DepthLayer::Stone);
    assert_eq!(depth_layer(-30, 64), DepthLayer::Bedrock);
    assert_eq!(depth_layer(-40, -35), DepthLayer::Bedrock);
    assert_eq!(depth_layer(i32::MIN, i32::MIN), DepthLayer::Bedrock);
}

#[test]
fn registering_twice_is_like_once() {
    let mut once = BlockRegistry::new();
    once.register(def("stone", 1, "Stone"));
    let mut twice = BlockRegistry::new();
    twice.register(def("stone", 1, "Stone"));
    twice.register(def("stone", 1, "Stone"));
    assert_eq!(once.count(), twice.count());
    assert_eq!(twice.get("stone").unwrap().name, "Stone");
    assert_eq!(twice.get_by_numeric(1).unwrap().id, "stone");
    assert_eq!(twice.get_numeric_id("stone"), Some(1));
    assert_eq!(twice.get_string_id(1), Some("stone"));
}

#[test]
fn colour_texts_that_can_be_cut() {
    assert!(hex_color_is_cuttable("#ff8000"));
    assert!(hex_color_is_cuttable("abc"));
    assert!(hex_color_is_cuttable("ab\u{e9}cd"));
    assert!(!hex_color_is_cuttable("a\u{e9}bcd"));
    assert_eq!(parse_hex_color("ab\u{e9}cd"), [171, 0, 205, 255]);
    assert!(PixelValue::Hex("#102030".to_string()).is_readable());
    assert!(!PixelValue::Hex("#a\u{e9}bcd".to_string()).is_readable());
    assert!(PixelValue::Index(1).is_readable());
}

#[test]
fn drawable_textures_and_blocks() {
    let bad = PixelValue::Hex("#a\u{e9}bcd".to_string());
    let good = PixelValue::RGB([1, 2, 3]);
    let pixels = TextureDef::Pixels { width: 1, height: 1, pixels: vec![bad.clone()] };
    assert!(!BlockTextureAtlas::texture_is_drawable(&pixels, 0, 0));
    let unsampled = TextureDef::Pixels { width: 1, height: 1, pixels: vec![good.clone(), bad.clone()] };
    assert!(BlockTextureAtlas::texture_is_drawable(&unsampled, 0, 0));
    let unused_bad = TextureDef::Indexed { palette: vec![good.clone(), bad.clone()], indices: vec![0], width: 1, height: 1 };
    assert!(BlockTextureAtlas::texture_is_drawable(&unused_bad, 0, 0));
    let unsampled_bad = TextureDef::Indexed { palette: vec![good.clone(), bad.clone()], indices: vec![0, 1], width: 1, height: 1 };
    assert!(BlockTextureAtlas::texture_is_drawable(&unsampled_bad, 0, 0));
    let palette = TextureDef::Indexed { palette: vec![good.clone(), bad.clone()], indices: vec![1], width: 1, height: 1 };
    assert!(!BlockTextureAtlas::texture_is_drawable(&palette, 0, 0));
    let mut atlas = BlockTextureAtlas::new();
    atlas.render_texture_def(&unused_bad, 0, 0);
    assert_eq!(pixel(&atlas, 7, 7), [1, 2, 3, 255]);
    let proc_ok = TextureDef::Procedural { proc_type: ProceduralType::Noise, params: ProceduralParams::default() };
    assert!(BlockTextureAtlas::texture_is_drawable(&proc_ok, 240, 240));
    assert!(!BlockTextureAtlas::texture_is_drawable(&proc_ok, 50_000_000, 0));
    let mut d = def("x", 5, "X");
    assert!(BlockTextureAtlas::block_is_drawable(&d));
    d.textures = Some(FaceTextures::All(palette));
    assert!(!BlockTextureAtlas::block_is_drawable(&d));
}

#[test]
fn atlas_tiles_are_distinct_even_when_full() {
    let mut reg = BlockRegistry::new();
    for i in 0..300u32 {
        reg.register(def(&format!("b{}", i), (i % 255 + 1) as u8, "B"));
    }
    let colors = vec![[10u8, 20, 30]; reg.all_blocks().len()];
    let atlas = BlockTextureAtlas::from_registry(&reg, &colors);
    let mut seen = std::collections::HashSet::new();
    for (_, pos) in atlas.block_positions.iter() {
        assert!(pos.0 < 16 && pos.1 < 16);
        assert!(seen.insert(*pos));
    }
    assert_eq!(atlas.block_positions.len(), 255);
    // the 256th block took the last tile; numeric id 1 was handed out again at slot 255
    assert_eq!(atlas.block_positions.get(&1), Some(&(15, 15)));
}

#[test]
fn atlas_ignores_textures_of_blocks_without_a_tile() {
    let bad = TextureDef::Indexed {
        palette: vec![PixelValue::Hex("#a\u{e9}bcd".to_string())],
        indices: vec![0],
        width: 1,
        height: 1,
    };
    let mut reg = BlockRegistry::new();
    let mut air = def("air", 0, "Air");
    air.textures = Some(FaceTextures::All(bad.clone()));
    reg.register(air);
    reg.register(def("stone", 1, "Stone"));
    assert!(BlockTextureAtlas::registry_is_drawable(&reg));
    let atlas = BlockTextureAtlas::from_registry(&reg, &[[0, 0, 0], [9, 9, 9]]);
    assert_eq!(atlas.block_positions.len(), 1);
    assert!(!atlas.block_positions.contains_key(&0));
    let mut broken = def("dirt", 2, "Dirt");
    broken.textures = Some(FaceTextures::All(bad));
    reg.register(broken);
    assert!(!BlockTextureAtlas::registry_is_drawable(&reg));
}

#[test]
fn fallback_blocks() {
    let mut reg = BlockRegistry::new();
    kimi_voxel::blocks::registry::register_fallback_blocks(&mut reg);
    assert_eq!(reg.count(), 3);
    let air = reg.get("air").unwrap();
    assert_eq!(air.numeric_id, 0);
    assert!(air.transparent && !air.solid && !air.breakable);
    let stone = reg.get_by_numeric(1).unwrap();
    assert_eq!(stone.name, "Stone");
    assert_eq!(stone.color.side().map(f32::from_bits), [0.5, 0.5, 0.52]);
    let grass = reg.get("grass").unwrap();
    assert_eq!(grass.numeric_id, 3);
    assert_eq!(grass.color.top().map(f32::from_bits), [0.36, 0.60, 0.28]);
    assert_eq!(grass.color.bottom().map(f32::from_bits), [0.55, 0.40, 0.26]);
    assert_eq!(f32::from_bits(grass.hardness_bits), 1.0);
}
