use vstd::prelude::*;
use vstd::arithmetic::div_mod::lemma_fundamental_div_mod_converse;
use vstd::wrapping::u32_specs;
use std::collections::HashMap;
use crate::blocks::definition::{
    BlockDefinition, FaceTextures, PixelValue, ProceduralParams, ProceduralType, TextureDef,
    PixelRGBA, magenta,
};
use crate::blocks::registry::BlockRegistry;

verus! {

/// Side of one block texture in the atlas, in pixels.
pub const TEXTURE_SIZE: u32 = 16;

/// Textures per atlas row (and rows per atlas): room for 256 blocks.
pub const ATLAS_SIZE: u32 = 16;

/// Side of the atlas, in pixels.
pub const ATLAS_PIXELS: u32 = 256;

/// Number of bytes of atlas data: four per pixel.
pub const ATLAS_BYTES: usize = 262144;

/// Position of the first byte of pixel `(x, y)` in the atlas data.
pub open spec fn pixel_offset(x: int, y: int) -> int {
    (y * ATLAS_PIXELS + x) * 4
}

/// `data` with pixel `(x, y)` set to `rgba`, when all four of its bytes exist.
pub open spec fn with_pixel(data: Seq<u8>, x: int, y: int, rgba: Seq<u8>) -> Seq<u8> {
    let i = pixel_offset(x, y);
    if 0 <= i && i + 3 < data.len() {
        data.update(i, rgba[0]).update(i + 1, rgba[1]).update(i + 2, rgba[2]).update(i + 3, rgba[3])
    } else {
        data
    }
}

/// `data` after painting the first `k` pixels of the 16 x 16 tile whose top left pixel is
/// `(bx, by)`, row by row, pixel `(x, y)` of the tile getting `pattern(x, y)`.
pub open spec fn paint_tile(data: Seq<u8>, bx: int, by: int, pattern: spec_fn(int, int) -> Seq<u8>, k: nat) -> Seq<u8>
    decreases k,
{
    if k == 0 {
        data
    } else {
        let j = k - 1;
        with_pixel(
            paint_tile(data, bx, by, pattern, j as nat),
            bx + j % 16,
            by + j / 16,
            pattern(j % 16, j / 16),
        )
    }
}

/// `data` after painting the whole tile at `(bx, by)` with `pattern`.
pub open spec fn painted(data: Seq<u8>, bx: int, by: int, pattern: spec_fn(int, int) -> Seq<u8>) -> Seq<u8> {
    paint_tile(data, bx, by, pattern, 256)
}

/// The byte offsets of every pixel of the tile at `(bx, by)` fit a `u32`.
pub open spec fn tile_fits(bx: int, by: int) -> bool {
    0 <= bx && 0 <= by && pixel_offset(bx + 15, by + 15) + 3 <= u32::MAX
}

/// Magenta and black squares of 4 x 4 pixels: the texture of a missing file.
pub open spec fn magenta_pattern() -> spec_fn(int, int) -> Seq<u8> {
    |x: int, y: int|
        if (x / 4 + y / 4) % 2 == 0 {
            magenta()
        } else {
            seq![0u8, 0u8, 0u8, 255u8]
        }
}

/// Index of the image pixel shown at tile pixel `(x, y)` when a `width` x `height` image is
/// stretched over the 16 x 16 tile.
pub open spec fn sample_index(width: int, height: int, x: int, y: int) -> int {
    (y * height / 16) * width + x * width / 16
}

/// Inline pixels of a `width` x `height` image, stretched to 16 x 16: pixel `(x, y)` shows the
/// image pixel at `(x * width / 16, y * height / 16)`, or magenta when the image has no such pixel.
pub open spec fn pixels_pattern(width: int, height: int, pixels: Seq<PixelValue>) -> spec_fn(int, int) -> Seq<u8> {
    |x: int, y: int|
        {
            let i = sample_index(width, height, x, y);
            if i < pixels.len() {
                pixels[i].spec_rgba()
            } else {
                magenta()
            }
        }
}

/// A palette image stretched to 16 x 16 like `pixels_pattern`; an index that is missing or
/// points past the palette shows magenta.
pub open spec fn indexed_pattern(palette: Seq<PixelValue>, indices: Seq<u8>, width: int, height: int) -> spec_fn(int, int) -> Seq<u8> {
    |x: int, y: int|
        {
            let i = sample_index(width, height, x, y);
            if i < indices.len() && (indices[i] as int) < palette.len() {
                palette[indices[i] as int].spec_rgba()
            } else {
                magenta()
            }
        }
}

/// The pixel hash used for noise textures.
pub open spec fn spec_simple_hash(x: u32, y: u32) -> u8 {
    let n = u32_specs::wrapping_add(
        u32_specs::wrapping_mul(x, 374761393),
        u32_specs::wrapping_mul(y, 668265263),
    );
    let n = u32_specs::wrapping_mul(n ^ (n >> 13u32), 1274126177);
    ((n ^ (n >> 16u32)) & 0xFF) as u8
}

/// Component-wise blend from `a` (top row) to `b` (16 rows down), opaque.
pub open spec fn gradient_row(a: Seq<u8>, b: Seq<u8>, y: int) -> Seq<u8> {
    seq![
        ((a[0] * (16 - y) + b[0] * y) / 16) as u8,
        ((a[1] * (16 - y) + b[1] * y) / 16) as u8,
        ((a[2] * (16 - y) + b[2] * y) / 16) as u8,
        255u8,
    ]
}

/// A generated texture in the colours `c1` and `c2` for the tile at `(bx, by)`: a checkerboard of
/// 2 x 2 squares, hash noise, a vertical gradient, or bricks of 8 x 4 pixels with a one-pixel
/// mortar line in `c2`; other kinds are plain `c1`.
pub open spec fn procedural_pattern(kind: ProceduralType, c1: Seq<u8>, c2: Seq<u8>, bx: int, by: int) -> spec_fn(int, int) -> Seq<u8> {
    |x: int, y: int|
        match kind {
            ProceduralType::Checker => if (x / 2 + y / 2) % 2 == 0 {
                c1
            } else {
                c2
            },
            ProceduralType::Noise => if spec_simple_hash((x + bx * 100) as u32, (y + by * 100) as u32)
                > 128 {
                c1
            } else {
                c2
            },
            ProceduralType::Gradient => gradient_row(c1, c2, y),
            ProceduralType::Bricks => {
                let offset: int = if (y / 4) % 2 == 0 {
                    0
                } else {
                    4
                };
                if (x + offset) % 8 < 1 || y % 4 < 1 {
                    c2
                } else {
                    c1
                }
            },
            _ => c1,
        }
}

/// A plain colour with a frame darkened to seven tenths.
pub open spec fn solid_pattern(rgb: Seq<u8>) -> spec_fn(int, int) -> Seq<u8> {
    |x: int, y: int|
        if x == 0 || y == 0 || x == 15 || y == 15 {
            seq![(rgb[0] * 7 / 10) as u8, (rgb[1] * 7 / 10) as u8, (rgb[2] * 7 / 10) as u8, 255u8]
        } else {
            seq![rgb[0], rgb[1], rgb[2], 255u8]
        }
}

/// The colour a procedural texture uses for an optional parameter colour.
pub open spec fn param_color(c: Option<PixelValue>, default: Seq<u8>) -> Seq<u8> {
    match c {
        Some(p) => p.spec_rgba(),
        None => default,
    }
}

/// The pattern drawn for a texture definition at tile `(bx, by)`; a file texture (not loaded
/// here) draws the missing-texture checkerboard.
pub open spec fn texture_pattern(tex: TextureDef, bx: int, by: int) -> spec_fn(int, int) -> Seq<u8> {
    match tex {
        TextureDef::Pixels { width, height, pixels } => pixels_pattern(width as int, height as int, pixels@),
        TextureDef::Indexed { palette, indices, width, height } => indexed_pattern(
            palette@,
            indices@,
            width as int,
            height as int,
        ),
        TextureDef::Procedural { proc_type, params } => procedural_pattern(
            proc_type,
            param_color(params.color1, seq![128u8, 128u8, 128u8, 255u8]),
            param_color(params.color2, seq![64u8, 64u8, 64u8, 255u8]),
            bx,
            by,
        ),
        TextureDef::File(_) => magenta_pattern(),
    }
}

/// Every image pixel that a stretched `width` x `height` image samples can be converted.
pub open spec fn sampled_pixels_readable(width: int, height: int, pixels: Seq<PixelValue>) -> bool {
    forall|x: int, y: int|
        0 <= x < 16 && 0 <= y < 16 && #[trigger] sample_index(width, height, x, y) < pixels.len()
            ==> pixels[sample_index(width, height, x, y)].readable()
}

/// Every palette entry that a stretched `width` x `height` image of palette indices points to,
/// at a pixel it samples, can be converted.
pub open spec fn sampled_palette_readable(palette: Seq<PixelValue>, indices: Seq<u8>, width: int, height: int) -> bool {
    forall|x: int, y: int|
        0 <= x < 16 && 0 <= y < 16 && #[trigger] sample_index(width, height, x, y) < indices.len() && (indices[sample_index(
            width,
            height,
            x,
            y,
        )] as int) < palette.len() ==> palette[indices[sample_index(width, height, x, y)] as int].readable()
}

/// A texture can be drawn at tile `(bx, by)` without a panic.
pub open spec fn texture_drawable(tex: TextureDef, bx: int, by: int) -> bool {
    match tex {
        TextureDef::Pixels { width, height, pixels } => sampled_pixels_readable(
            width as int,
            height as int,
            pixels@,
        ),
        TextureDef::Indexed { palette, indices, width, height } => sampled_palette_readable(
            palette@,
            indices@,
            width as int,
            height as int,
        ),
        TextureDef::Procedural { params, .. } => {
            &&& (params.color1 matches Some(p) ==> p.readable())
            &&& (params.color2 matches Some(p) ==> p.readable())
            &&& bx * 100 + 15 <= u32::MAX
            &&& by * 100 + 15 <= u32::MAX
        },
        TextureDef::File(_) => true,
    }
}

/// A block can be drawn on any tile without a panic: its side texture, if any, can be drawn at the first tile.
pub open spec fn block_drawable(def: BlockDefinition) -> bool {
    spec_side_texture(def) matches Some(t) ==> texture_drawable(t, 0, 0)
}

/// What a block's tile at `(bx, by)` shows: its side texture, or else its side colour `rgb` framed.
pub open spec fn block_pattern(def: BlockDefinition, rgb: Seq<u8>, bx: int, by: int) -> spec_fn(int, int) -> Seq<u8> {
    match spec_side_texture(def) {
        Some(t) => texture_pattern(t, bx, by),
        None => solid_pattern(rgb),
    }
}

/// The atlas bytes, tile positions and next free tile after offering block `def` with side colour
/// `rgb`: air and blocks that come after the atlas is full get no tile; any other block gets the
/// next tile, row by row.
pub open spec fn atlas_step(
    state: (Seq<u8>, Map<u8, (u32, u32)>, nat),
    def: BlockDefinition,
    rgb: Seq<u8>,
) -> (Seq<u8>, Map<u8, (u32, u32)>, nat) {
    let slot = state.2;
    if def.numeric_id == 0 || slot >= 256 {
        state
    } else {
        let ax: int = (slot % 16) as int;
        let ay: int = (slot / 16) as int;
        (
            painted(state.0, ax * 16, ay * 16, block_pattern(def, rgb, ax * 16, ay * 16)),
            state.1.insert(def.numeric_id, (ax as u32, ay as u32)),
            slot + 1,
        )
    }
}

/// The atlas built from the first `n` blocks of `defs`, whose side colours are `colors`, starting
/// from a blank atlas.
pub open spec fn atlas_from(defs: Seq<BlockDefinition>, colors: Seq<[u8; 3]>, n: nat) -> (Seq<u8>, Map<u8, (u32, u32)>, nat)
    decreases n,
{
    if n == 0 {
        (Seq::new(ATLAS_BYTES as nat, |i: int| 0u8), Map::empty(), 0)
    } else {
        atlas_step(atlas_from(defs, colors, (n - 1) as nat), defs[n - 1], colors[n - 1]@)
    }
}

/// How many tiles the first `n` blocks of `defs` are given: one for each block but air, until
/// all 256 tiles are taken.
pub open spec fn tiles_before(defs: Seq<BlockDefinition>, n: nat) -> nat
    decreases n,
{
    if n == 0 {
        0
    } else {
        let t = tiles_before(defs, (n - 1) as nat);
        if defs[n - 1].numeric_id == 0 || t >= 256 {
            t
        } else {
            t + 1
        }
    }
}

/// Block `i` of `defs` is given a tile: it is not air and tiles are left when its turn comes.
pub open spec fn gets_tile(defs: Seq<BlockDefinition>, i: int) -> bool {
    defs[i].numeric_id != 0 && tiles_before(defs, i as nat) < 256
}

/// Every block of `defs` that is given a tile can be drawn there.
pub open spec fn tiled_blocks_drawable(defs: Seq<BlockDefinition>) -> bool {
    forall|i: int| 0 <= i < defs.len() && #[trigger] gets_tile(defs, i) ==> block_drawable(defs[i])
}

/// The next free tile while building the atlas is the number of tiles handed out so far.
pub proof fn lemma_atlas_next_tile(defs: Seq<BlockDefinition>, colors: Seq<[u8; 3]>, n: nat)
    ensures
        atlas_from(defs, colors, n).2 == tiles_before(defs, n),
    decreases n,
{
    if n > 0 {
        lemma_atlas_next_tile(defs, colors, (n - 1) as nat);
    }
}

/// Law: building the atlas never gives two blocks the same tile; every tile lies inside the
/// atlas, and fewer than `next` tiles (at most 256) are handed out.
pub proof fn lemma_atlas_tiles_distinct(defs: Seq<BlockDefinition>, colors: Seq<[u8; 3]>, n: nat)
    ensures
        ({
            let st = atlas_from(defs, colors, n);
            &&& st.2 <= 256
            &&& forall|k: u8| #[trigger] st.1.contains_key(k) ==> {
                &&& st.1[k].0 < 16
                &&& st.1[k].1 < 16
                &&& st.1[k].1 * 16 + st.1[k].0 < st.2
            }
            &&& forall|k1: u8, k2: u8|
                #[trigger] st.1.contains_key(k1) && #[trigger] st.1.contains_key(k2) && k1 != k2 ==> st.1[k1] != st.1[k2]
        }),
    decreases n,
{
    if n > 0 {
        lemma_atlas_tiles_distinct(defs, colors, (n - 1) as nat);
        let prev = atlas_from(defs, colors, (n - 1) as nat);
        let def = defs[n - 1];
        let st = atlas_from(defs, colors, n);
        if !(def.numeric_id == 0 || prev.2 >= 256) {
            let slot = prev.2;
            let v = ((slot % 16) as u32, (slot / 16) as u32);
            assert(v.1 * 16 + v.0 == slot);
            assert forall|k: u8| #[trigger] st.1.contains_key(k) implies {
                &&& st.1[k].0 < 16
                &&& st.1[k].1 < 16
                &&& st.1[k].1 * 16 + st.1[k].0 < st.2
            } by {
                if k != def.numeric_id {
                    assert(prev.1.contains_key(k));
                }
            }
            assert forall|k1: u8, k2: u8|
                #[trigger] st.1.contains_key(k1) && #[trigger] st.1.contains_key(k2) && k1 != k2 implies st.1[k1]
                != st.1[k2] by {
                if k1 != def.numeric_id && k2 != def.numeric_id {
                    assert(prev.1.contains_key(k1) && prev.1.contains_key(k2));
                } else if k1 == def.numeric_id {
                    assert(prev.1.contains_key(k2));
                } else {
                    assert(prev.1.contains_key(k1));
                }
            }
        }
    }
}

/// Law: the atlas has tiles exactly for the blocks given one: never for air, for every block
/// given a tile (under its numeric id), for no id that no such block has, and for at most as
/// many ids as tiles were handed out.
pub proof fn lemma_atlas_keys(defs: Seq<BlockDefinition>, colors: Seq<[u8; 3]>, n: nat)
    requires
        n <= defs.len(),
    ensures
        ({
            let st = atlas_from(defs, colors, n);
            &&& !st.1.contains_key(0u8)
            &&& forall|i: int| 0 <= i < n && #[trigger] gets_tile(defs, i) ==> st.1.contains_key(defs[i].numeric_id)
            &&& forall|k: u8| #[trigger] st.1.contains_key(k) ==> exists|i: int|
                0 <= i < n && #[trigger] gets_tile(defs, i) && defs[i].numeric_id == k
            &&& st.1.dom().finite()
            &&& st.1.dom().len() <= st.2
        }),
    decreases n,
{
    lemma_atlas_next_tile(defs, colors, n);
    if n == 0 {
        let st = atlas_from(defs, colors, n);
        assert(st.1.dom() =~= Set::<u8>::empty());
    } else {
        lemma_atlas_keys(defs, colors, (n - 1) as nat);
        lemma_atlas_next_tile(defs, colors, (n - 1) as nat);
        let prev = atlas_from(defs, colors, (n - 1) as nat);
        let st = atlas_from(defs, colors, n);
        let def = defs[n - 1];
        if def.numeric_id == 0 || prev.2 >= 256 {
            assert(!gets_tile(defs, n - 1));
            assert forall|k: u8| #[trigger] st.1.contains_key(k) implies exists|i: int|
                0 <= i < n && #[trigger] gets_tile(defs, i) && defs[i].numeric_id == k by {
                let i = choose|i: int| 0 <= i < n - 1 && #[trigger] gets_tile(defs, i) && defs[i].numeric_id == k;
            }
        } else {
            assert(gets_tile(defs, n - 1));
            assert(st.1.dom() == prev.1.dom().insert(def.numeric_id));
            assert forall|k: u8| #[trigger] st.1.contains_key(k) implies exists|i: int|
                0 <= i < n && #[trigger] gets_tile(defs, i) && defs[i].numeric_id == k by {
                if k == def.numeric_id {
                    assert(gets_tile(defs, n - 1) && defs[n - 1].numeric_id == k);
                } else {
                    let i = choose|i: int| 0 <= i < n - 1 && #[trigger] gets_tile(defs, i) && defs[i].numeric_id == k;
                }
            }
        }
    }
}

/// Law: a bricks texture is rows of bricks four pixels high and eight wide, each row shifted
/// half a brick from the one above, separated by one-pixel mortar lines: every fourth row
/// (0, 4, 8, 12) is mortar, and so is the first column of each brick (x = 0 and 8 in the rows
/// of the first, third, ... brick row; x = 4 and 12 in the others). Mortar takes the second
/// colour, every other pixel the first.
pub proof fn lemma_bricks_layout(c1: Seq<u8>, c2: Seq<u8>, bx: int, by: int, x: int, y: int)
    requires
        0 <= x < 16,
        0 <= y < 16,
    ensures
        ({
            let pattern = procedural_pattern(ProceduralType::Bricks, c1, c2, bx, by);
            let even_row = y < 4 || (8 <= y && y < 12);
            let mortar = y == 0 || y == 4 || y == 8 || y == 12 || (even_row && (x == 0 || x == 8)) || (!even_row
                && (x == 4 || x == 12));
            &&& mortar ==> pattern(x, y) == c2
            &&& !mortar ==> pattern(x, y) == c1
        }),
        procedural_pattern(ProceduralType::Bricks, c1, c2, bx, by)(1, 1) == c1,
        procedural_pattern(ProceduralType::Bricks, c1, c2, bx, by)(0, 0) == c2,
        procedural_pattern(ProceduralType::Bricks, c1, c2, bx, by)(0, 5) == c1,
        procedural_pattern(ProceduralType::Bricks, c1, c2, bx, by)(4, 5) == c2,
{
}

/// Law: a checker texture alternates the two colours in two-by-two squares: the top-left
/// square has the first colour, moving two pixels across or down swaps the colours, and the
/// pattern repeats every four pixels both ways.
pub proof fn lemma_checker_layout(c1: Seq<u8>, c2: Seq<u8>, bx: int, by: int, x: int, y: int)
    requires
        0 <= x < 12,
        0 <= y < 12,
    ensures
        ({
            let p = procedural_pattern(ProceduralType::Checker, c1, c2, bx, by);
            &&& p(0, 0) == c1 && p(1, 1) == c1 && p(2, 0) == c2 && p(0, 2) == c2 && p(2, 2) == c1
            &&& p(x + 4, y) == p(x, y) && p(x, y + 4) == p(x, y)
            &&& (p(x, y) == c1 ==> p(x + 2, y) == c2 && p(x, y + 2) == c2)
            &&& (p(x, y) == c2 ==> p(x + 2, y) == c1 && p(x, y + 2) == c1)
            &&& (p(x, y) == c1 || p(x, y) == c2)
        }),
{
}

/// Law: a missing texture shows a magenta and black checkerboard of four-pixel squares, magenta
/// in the top-left corner.
pub proof fn lemma_magenta_layout(x: int, y: int)
    requires
        0 <= x < 12,
        0 <= y < 12,
    ensures
        magenta_pattern()(0, 0) == seq![255u8, 0u8, 255u8, 255u8],
        magenta_pattern()(4, 0) == seq![0u8, 0u8, 0u8, 255u8],
        magenta_pattern()(x + 4, y) != magenta_pattern()(x, y),
        magenta_pattern()(x, y + 4) != magenta_pattern()(x, y),
{
}

/// Law: a gradient starts at the first colour on the top row, and every channel of every row
/// lies between the two colours' values of that channel.
pub proof fn lemma_gradient_bounds(c1: Seq<u8>, c2: Seq<u8>, bx: int, by: int, x: int, y: int, k: int)
    requires
        c1.len() >= 3,
        c2.len() >= 3,
        0 <= y < 16,
        0 <= k < 3,
    ensures
        ({
            let p = procedural_pattern(ProceduralType::Gradient, c1, c2, bx, by);
            &&& p(x, 0)[k] == c1[k]
            &&& (c1[k] <= c2[k] ==> c1[k] <= p(x, y)[k] <= c2[k])
            &&& (c2[k] <= c1[k] ==> c2[k] <= p(x, y)[k] <= c1[k])
            &&& p(x, y)[3] == 255
        }),
{
    let a = c1[k] as int;
    let b = c2[k] as int;
    assert(a * (16 - y) + b * y <= 16 * (if a <= b { b } else { a })) by (nonlinear_arith)
        requires
            0 <= y < 16,
            0 <= a,
            0 <= b,
    ;
    assert(a * (16 - y) + b * y >= 16 * (if a <= b { a } else { b })) by (nonlinear_arith)
        requires
            0 <= y < 16,
            0 <= a,
            0 <= b,
    ;
    assert(a * 16 / 16 == a);
    let v = (a * (16 - y) + b * y) / 16;
    let lo = if a <= b { a } else { b };
    let hi = if a <= b { b } else { a };
    assert(lo <= v <= hi) by (nonlinear_arith)
        requires
            v == (a * (16 - y) + b * y) / 16,
            16 * lo <= a * (16 - y) + b * y <= 16 * hi,
    ;
    assert(v <= 255);
    if k == 0 {
    } else if k == 1 {
    } else {
    }
}

/// Law: a block with no texture shows its colour inside a frame one pixel wide whose channels
/// are seven tenths of the colour's, rounded down; the whole tile is opaque.
pub proof fn lemma_solid_frame(rgb: Seq<u8>, x: int, y: int, k: int)
    requires
        rgb.len() >= 3,
        0 <= x < 16,
        0 <= y < 16,
        0 <= k < 3,
    ensures
        ({
            let p = solid_pattern(rgb)(x, y);
            let edge = x == 0 || y == 0 || x == 15 || y == 15;
            &&& edge ==> p[k] * 10 <= rgb[k] * 7 < p[k] * 10 + 10
            &&& !edge ==> p[k] == rgb[k]
            &&& p[3] == 255
        }),
{
}

/// A texture that can be drawn at the first tile can be drawn at any tile.
pub proof fn lemma_drawable_anywhere(t: TextureDef, bx: int, by: int)
    requires
        texture_drawable(t, 0, 0),
        0 <= bx <= 240,
        0 <= by <= 240,
    ensures
        texture_drawable(t, bx, by),
{
}

/// The texture shown on a block's side in the inventory: the single texture, or the `side`
/// texture, else the `north` one.
pub open spec fn spec_side_texture(def: BlockDefinition) -> Option<TextureDef> {
    match def.textures {
        Some(FaceTextures::All(tex)) => Some(tex),
        Some(FaceTextures::PerFace { side, north, .. }) => match side {
            Some(t) => Some(t),
            None => north,
        },
        None => None,
    }
}

/// Painting one more pixel of a tile.
pub proof fn lemma_paint_step(data: Seq<u8>, bx: int, by: int, pattern: spec_fn(int, int) -> Seq<u8>, x: int, y: int)
    requires
        0 <= x < 16,
        0 <= y < 16,
    ensures
        paint_tile(data, bx, by, pattern, (y * 16 + x + 1) as nat) == with_pixel(
            paint_tile(data, bx, by, pattern, (y * 16 + x) as nat),
            bx + x,
            by + y,
            pattern(x, y),
        ),
{
    lemma_fundamental_div_mod_converse(y * 16 + x, 16, y, x);
}

/// Painting never changes the length of the data.
pub proof fn lemma_paint_len(data: Seq<u8>, bx: int, by: int, pattern: spec_fn(int, int) -> Seq<u8>, k: nat)
    ensures
        paint_tile(data, bx, by, pattern, k).len() == data.len(),
    decreases k,
{
    if k > 0 {
        lemma_paint_len(data, bx, by, pattern, (k - 1) as nat);
    }
}

/// The pixel hash used for noise textures.
pub fn simple_hash(x: u32, y: u32) -> (r: u8)
    ensures
        r == spec_simple_hash(x, y),
{
    let n = x.wrapping_mul(374761393).wrapping_add(y.wrapping_mul(668265263));
    let n = (n ^ (n >> 13)).wrapping_mul(1274126177);
    ((n ^ (n >> 16)) & 0xFF) as u8
}

/// A gradient component at row `y`: `(a * (16 - y) + b * y) / 16`, exactly what blending
/// `a` and `b` in single precision with the weight `y / 16` and truncating gives.
fn gradient_component(a: u8, b: u8, y: u32) -> (r: u8)
    requires
        y < 16,
    ensures
        r == ((a * (16 - y) + b * y) / 16) as u8,
{
    proof {
        assert(a * (16 - y) <= 255 * 16) by (nonlinear_arith)
            requires
                a <= 255,
                y < 16,
        ;
        assert(b * y <= 255 * 16) by (nonlinear_arith)
            requires
                b <= 255,
                y < 16,
        ;
        assert(a * (16 - y) + b * y <= 255 * 16) by (nonlinear_arith)
            requires
                a <= 255,
                b <= 255,
                y < 16,
        ;
    }
    let v = (a as u32 * (16 - y) + b as u32 * y) / 16;
    v as u8
}

/// A colour component darkened to seven tenths: `c * 7 / 10`, exactly what multiplying by 0.7 in
/// single precision and truncating gives for every byte.
fn darken(c: u8) -> (r: u8)
    ensures
        r == (c * 7 / 10) as u8,
{
    ((c as u32 * 7) / 10) as u8
}

/// Texture atlas of the blocks: 16 x 16 tiles of 16 x 16 RGBA pixels.
pub struct BlockTextureAtlas {
    /// RGBA bytes, row by row, `ATLAS_PIXELS` pixels per row.
    pub data: Vec<u8>,
    /// Tile `(column, row)` of each numeric block id.
    pub block_positions: HashMap<u8, (u32, u32)>,
}

impl BlockTextureAtlas {
    /// An all-zero (transparent black) atlas with no blocks placed.
    pub fn new() -> (r: Self)
        ensures
            r.data@ == Seq::new(ATLAS_BYTES as nat, |i: int| 0u8),
            r.block_positions@ == Map::<u8, (u32, u32)>::empty(),
    {
        let mut data: Vec<u8> = Vec::new();
        let mut i: usize = 0;
        while i < ATLAS_BYTES
            invariant
                0 <= i <= ATLAS_BYTES,
                data@ == Seq::new(i as nat, |j: int| 0u8),
            decreases ATLAS_BYTES - i,
        {
            data.push(0);
            i = i + 1;
            assert(data@ =~= Seq::new(i as nat, |j: int| 0u8));
        }
        BlockTextureAtlas { data, block_positions: HashMap::new() }
    }

    /// Paints the tile at `(base_x, base_y)` row by row with the colours `color` gives, which
    /// follow `pattern`.
    fn paint<F: Fn(u32, u32) -> [u8; 4]>(
        &mut self,
        base_x: u32,
        base_y: u32,
        color: F,
        Ghost(pattern): Ghost<spec_fn(int, int) -> Seq<u8>>,
    )
        requires
            tile_fits(base_x as int, base_y as int),
            forall|x: u32, y: u32| x < 16 && y < 16 ==> #[trigger] color.requires((x, y)),
            forall|x: u32, y: u32, c: [u8; 4]|
                x < 16 && y < 16 && #[trigger] color.ensures((x, y), c) ==> c@ == pattern(
                    x as int,
                    y as int,
                ),
        ensures
            final(self).data@ == painted(old(self).data@, base_x as int, base_y as int, pattern),
            final(self).block_positions == old(self).block_positions,
    {
        let ghost d0 = self.data@;
        let mut y: u32 = 0;
        while y < TEXTURE_SIZE
            invariant
                0 <= y <= 16,
                tile_fits(base_x as int, base_y as int),
                forall|x: u32, y: u32| x < 16 && y < 16 ==> #[trigger] color.requires((x, y)),
                forall|x: u32, y: u32, c: [u8; 4]|
                    x < 16 && y < 16 && #[trigger] color.ensures((x, y), c) ==> c@ == pattern(
                        x as int,
                        y as int,
                    ),
                self.block_positions == old(self).block_positions,
                self.data@ == paint_tile(d0, base_x as int, base_y as int, pattern, (y * 16) as nat),
            decreases 16 - y,
        {
            let mut x: u32 = 0;
            while x < TEXTURE_SIZE
                invariant
                    0 <= y < 16,
                    0 <= x <= 16,
                    tile_fits(base_x as int, base_y as int),
                    forall|x: u32, y: u32| x < 16 && y < 16 ==> #[trigger] color.requires((x, y)),
                    forall|x: u32, y: u32, c: [u8; 4]|
                        x < 16 && y < 16 && #[trigger] color.ensures((x, y), c) ==> c@ == pattern(
                            x as int,
                            y as int,
                        ),
                    self.block_positions == old(self).block_positions,
                    self.data@ == paint_tile(
                        d0,
                        base_x as int,
                        base_y as int,
                        pattern,
                        (y * 16 + x) as nat,
                    ),
                decreases 16 - x,
            {
                let rgba = color(x, y);
                proof {
                    lemma_paint_step(d0, base_x as int, base_y as int, pattern, x as int, y as int);
                    assert(pixel_offset((base_x + x) as int, (base_y + y) as int) <= pixel_offset(
                        base_x + 15,
                        base_y + 15,
                    ));
                }
                self.set_pixel(base_x + x, base_y + y, rgba);
                x = x + 1;
            }
            y = y + 1;
        }
    }

    /// Draws the missing-texture checkerboard on the tile at `(base_x, base_y)`.
    pub fn fill_magenta(&mut self, base_x: u32, base_y: u32)
        requires
            tile_fits(base_x as int, base_y as int),
        ensures
            final(self).data@ == painted(old(self).data@, base_x as int, base_y as int, magenta_pattern()),
            final(self).block_positions == old(self).block_positions,
    {
        let color = |x: u32, y: u32| -> (c: [u8; 4])
            ensures
                c@ == magenta_pattern()(x as int, y as int),
            {
                let c: [u8; 4] = if (x / 4 + y / 4) % 2 == 0 {
                    [255, 0, 255, 255]
                } else {
                    [0, 0, 0, 255]
                };
                assert(c@ =~= magenta_pattern()(x as int, y as int));
                c
            };
        self.paint(base_x, base_y, color, Ghost(magenta_pattern()));
    }

    /// Draws an inline `width` x `height` image stretched over the tile at `(base_x, base_y)`.
    pub fn render_pixels(&mut self, width: u32, height: u32, pixels: &[PixelValue], base_x: u32, base_y: u32)
        requires
            tile_fits(base_x as int, base_y as int),
            15 * width <= u32::MAX,
            15 * height <= u32::MAX,
            width * height <= usize::MAX,
            sampled_pixels_readable(width as int, height as int, pixels@),
        ensures
            final(self).data@ == painted(
                old(self).data@,
                base_x as int,
                base_y as int,
                pixels_pattern(width as int, height as int, pixels@),
            ),
            final(self).block_positions == old(self).block_positions,
    {
        let color = |x: u32, y: u32| -> (c: [u8; 4])
            requires
                x < 16,
                y < 16,
            ensures
                c@ == pixels_pattern(width as int, height as int, pixels@)(x as int, y as int),
            {
                let idx = Self::sample(width, height, x, y);
                if idx < pixels.len() {
                    proof {
                        assert(sample_index(width as int, height as int, x as int, y as int) < pixels@.len());
                    }
                    pixels[idx].to_rgba()
                } else {
                    let c: [u8; 4] = [255, 0, 255, 255];
                    assert(c@ =~= magenta());
                    c
                }
            };
        self.paint(base_x, base_y, color, Ghost(pixels_pattern(width as int, height as int, pixels@)));
    }

    /// Index of the image pixel shown at tile pixel `(x, y)` of a stretched `width` x `height` image.
    fn sample(width: u32, height: u32, x: u32, y: u32) -> (r: usize)
        requires
            x < 16,
            y < 16,
            15 * width <= u32::MAX,
            15 * height <= u32::MAX,
            width * height <= usize::MAX,
        ensures
            r == sample_index(width as int, height as int, x as int, y as int),
    {
        proof {
            assert(x * width <= 15 * width) by (nonlinear_arith)
                requires
                    x < 16,
            ;
            assert(y * height <= 15 * height) by (nonlinear_arith)
                requires
                    y < 16,
            ;
        }
        let src_x = (x * width / TEXTURE_SIZE) as usize;
        let src_y = (y * height / TEXTURE_SIZE) as usize;
        proof {
            assert(src_x < width || width == 0) by (nonlinear_arith)
                requires
                    x < 16,
                    src_x == x * width / 16,
            ;
            assert(src_y < height || height == 0) by (nonlinear_arith)
                requires
                    y < 16,
                    src_y == y * height / 16,
            ;
            if width > 0 && height > 0 {
                assert(src_y * width + src_x < height * width) by (nonlinear_arith)
                    requires
                        src_y < height,
                        src_x < width,
                ;
            } else if height == 0 {
                assert(src_y == 0);
                assert(src_y * width == 0);
            } else {
                assert(src_x == 0);
                assert(src_y * width == 0);
            }
        }
        src_y * width as usize + src_x
    }

    /// Draws a palette image stretched over the tile at `(base_x, base_y)`.
    pub fn render_indexed(&mut self, palette: &[PixelValue], indices: &[u8], width: u32, height: u32, base_x: u32, base_y: u32)
        requires
            tile_fits(base_x as int, base_y as int),
            15 * width <= u32::MAX,
            15 * height <= u32::MAX,
            width * height <= usize::MAX,
            sampled_palette_readable(palette@, indices@, width as int, height as int),
        ensures
            final(self).data@ == painted(
                old(self).data@,
                base_x as int,
                base_y as int,
                indexed_pattern(palette@, indices@, width as int, height as int),
            ),
            final(self).block_positions == old(self).block_positions,
    {
        let color = |x: u32, y: u32| -> (c: [u8; 4])
            requires
                x < 16,
                y < 16,
            ensures
                c@ == indexed_pattern(palette@, indices@, width as int, height as int)(x as int, y as int),
            {
                let idx = Self::sample(width, height, x, y);
                let c: [u8; 4] = if idx < indices.len() {
                    let palette_idx = indices[idx] as usize;
                    if palette_idx < palette.len() {
                        palette[palette_idx].to_rgba()
                    } else {
                        [255, 0, 255, 255]
                    }
                } else {
                    [255, 0, 255, 255]
                };
                assert(c@ =~= indexed_pattern(palette@, indices@, width as int, height as int)(x as int, y as int));
                c
            };
        self.paint(
            base_x,
            base_y,
            color,
            Ghost(indexed_pattern(palette@, indices@, width as int, height as int)),
        );
    }

    /// Draws a generated texture on the tile at `(base_x, base_y)`; missing colours default to
    /// grey (128) and dark grey (64).
    pub fn render_procedural(&mut self, proc_type: &ProceduralType, params: &ProceduralParams, base_x: u32, base_y: u32)
        requires
            tile_fits(base_x as int, base_y as int),
            params.color1 matches Some(p) ==> p.readable(),
            params.color2 matches Some(p) ==> p.readable(),
            base_x * 100 + 15 <= u32::MAX,
            base_y * 100 + 15 <= u32::MAX,
        ensures
            final(self).data@ == painted(
                old(self).data@,
                base_x as int,
                base_y as int,
                procedural_pattern(
                    *proc_type,
                    param_color(params.color1, seq![128u8, 128u8, 128u8, 255u8]),
                    param_color(params.color2, seq![64u8, 64u8, 64u8, 255u8]),
                    base_x as int,
                    base_y as int,
                ),
            ),
            final(self).block_positions == old(self).block_positions,
    {
        let color1: [u8; 4] = match &params.color1 {
            Some(c) => c.to_rgba(),
            None => [128, 128, 128, 255],
        };
        let color2: [u8; 4] = match &params.color2 {
            Some(c) => c.to_rgba(),
            None => [64, 64, 64, 255],
        };
        let ghost c1 = param_color(params.color1, seq![128u8, 128u8, 128u8, 255u8]);
        let ghost c2 = param_color(params.color2, seq![64u8, 64u8, 64u8, 255u8]);
        assert(color1@ =~= c1);
        assert(color2@ =~= c2);
        let kind = *proc_type;
        let color = |x: u32, y: u32| -> (c: [u8; 4])
            requires
                x < 16,
                y < 16,
            ensures
                c@ == procedural_pattern(kind, color1@, color2@, base_x as int, base_y as int)(x as int, y as int),
            {
                match kind {
                    ProceduralType::Checker => {
                        if (x / 2 + y / 2) % 2 == 0 {
                            color1
                        } else {
                            color2
                        }
                    },
                    ProceduralType::Noise => {
                        let noise = simple_hash(x + base_x * 100, y + base_y * 100);
                        if noise > 128 {
                            color1
                        } else {
                            color2
                        }
                    },
                    ProceduralType::Gradient => {
                        let c: [u8; 4] = [
                            gradient_component(color1[0], color2[0], y),
                            gradient_component(color1[1], color2[1], y),
                            gradient_component(color1[2], color2[2], y),
                            255,
                        ];
                        assert(c@ =~= gradient_row(color1@, color2@, y as int));
                        c
                    },
                    ProceduralType::Bricks => {
                        let brick_h: u32 = 4;
                        let brick_w: u32 = 8;
                        let mortar: u32 = 1;
                        let row = y / brick_h;
                        let offset = if row % 2 == 0 { 0 } else { brick_w / 2 };
                        let bx = (x + offset) % brick_w;
                        let by = y % brick_h;
                        if bx < mortar || by < mortar {
                            color2
                        } else {
                            color1
                        }
                    },
                    _ => color1,
                }
            };
        self.paint(base_x, base_y, color, Ghost(procedural_pattern(kind, c1, c2, base_x as int, base_y as int)));
    }

    /// Draws the tile at `(base_x, base_y)` in the block's side colour `rgb`, with a frame
    /// darkened to seven tenths.
    pub fn render_solid_color(&mut self, rgb: [u8; 3], base_x: u32, base_y: u32)
        requires
            tile_fits(base_x as int, base_y as int),
        ensures
            final(self).data@ == painted(old(self).data@, base_x as int, base_y as int, solid_pattern(rgb@)),
            final(self).block_positions == old(self).block_positions,
    {
        let rgba: [u8; 4] = [rgb[0], rgb[1], rgb[2], 255];
        let color = |x: u32, y: u32| -> (c: [u8; 4])
            ensures
                c@ == solid_pattern(rgb@)(x as int, y as int),
            {
                let edge = x == 0 || y == 0 || x == TEXTURE_SIZE - 1 || y == TEXTURE_SIZE - 1;
                let c: [u8; 4] = if edge {
                    [darken(rgba[0]), darken(rgba[1]), darken(rgba[2]), 255]
                } else {
                    rgba
                };
                assert(c@ =~= solid_pattern(rgb@)(x as int, y as int));
                c
            };
        self.paint(base_x, base_y, color, Ghost(solid_pattern(rgb@)));
    }

    /// The texture shown on a block's side.
    fn get_side_texture<'b>(def: &'b BlockDefinition) -> (r: Option<&'b TextureDef>)
        ensures
            r == match spec_side_texture(*def) {
                Some(t) => Some(&t),
                None => None::<&TextureDef>,
            },
    {
        match &def.textures {
            Some(FaceTextures::All(tex)) => Some(tex),
            Some(FaceTextures::PerFace { side, north, .. }) => match side {
                Some(t) => Some(t),
                None => north.as_ref(),
            },
            None => None,
        }
    }

    /// Draws a texture definition on the tile at `(base_x, base_y)`.
    pub fn render_texture_def(&mut self, tex: &TextureDef, base_x: u32, base_y: u32)
        requires
            tile_fits(base_x as int, base_y as int),
            texture_drawable(*tex, base_x as int, base_y as int),
        ensures
            final(self).data@ == painted(
                old(self).data@,
                base_x as int,
                base_y as int,
                texture_pattern(*tex, base_x as int, base_y as int),
            ),
            final(self).block_positions == old(self).block_positions,
    {
        match tex {
            TextureDef::Pixels { width, height, pixels } => {
                proof {
                    assert((*width as u32) * (*height as u32) <= 255 * 255) by (nonlinear_arith)
                        requires
                            *width <= 255u8,
                            *height <= 255u8,
                    ;
                }
                self.render_pixels(*width as u32, *height as u32, pixels.as_slice(), base_x, base_y);
            },
            TextureDef::Indexed { palette, indices, width, height } => {
                proof {
                    assert((*width as u32) * (*height as u32) <= 255 * 255) by (nonlinear_arith)
                        requires
                            *width <= 255u8,
                            *height <= 255u8,
                    ;
                }
                self.render_indexed(
                    palette.as_slice(),
                    indices.as_slice(),
                    *width as u32,
                    *height as u32,
                    base_x,
                    base_y,
                );
            },
            TextureDef::Procedural { proc_type, params } => {
                self.render_procedural(proc_type, params, base_x, base_y);
            },
            TextureDef::File(_) => {
                self.fill_magenta(base_x, base_y);
            },
        }
    }

    /// Whether every image pixel that a stretched `width` x `height` image samples can be converted.
    fn sampled_readable(width: u8, height: u8, pixels: &[PixelValue]) -> (r: bool)
        ensures
            r == sampled_pixels_readable(width as int, height as int, pixels@),
    {
        assert(width * height <= 65025) by (nonlinear_arith)
            requires
                width <= 255,
                height <= 255,
        ;
        let mut y: u32 = 0;
        while y < 16
            invariant
                0 <= y <= 16,
                width * height <= 65025,
                forall|xx: int, yy: int|
                    0 <= xx < 16 && 0 <= yy < y && #[trigger] sample_index(width as int, height as int, xx, yy)
                        < pixels@.len() ==> pixels@[sample_index(width as int, height as int, xx, yy)].readable(),
            decreases 16 - y,
        {
            let mut x: u32 = 0;
            while x < 16
                invariant
                    0 <= x <= 16,
                    0 <= y < 16,
                    width * height <= 65025,
                    forall|xx: int, yy: int|
                        0 <= xx < 16 && 0 <= yy < y && #[trigger] sample_index(width as int, height as int, xx, yy)
                            < pixels@.len() ==> pixels@[sample_index(width as int, height as int, xx, yy)].readable(),
                    forall|xx: int|
                        0 <= xx < x && #[trigger] sample_index(width as int, height as int, xx, y as int)
                            < pixels@.len() ==> pixels@[sample_index(width as int, height as int, xx, y as int)].readable(),
                decreases 16 - x,
            {
                let idx = Self::sample(width as u32, height as u32, x, y);
                if idx < pixels.len() && !pixels[idx].is_readable() {
                    return false;
                }
                x = x + 1;
            }
            y = y + 1;
        }
        true
    }

    /// Whether every palette entry that a stretched `width` x `height` image of palette indices
    /// points to, at a pixel it samples, can be converted.
    fn sampled_palette_is_readable(palette: &[PixelValue], indices: &[u8], width: u8, height: u8) -> (r: bool)
        ensures
            r == sampled_palette_readable(palette@, indices@, width as int, height as int),
    {
        assert(width * height <= 65025) by (nonlinear_arith)
            requires
                width <= 255,
                height <= 255,
        ;
        let mut y: u32 = 0;
        while y < 16
            invariant
                0 <= y <= 16,
                width * height <= 65025,
                forall|xx: int, yy: int|
                    0 <= xx < 16 && 0 <= yy < y && #[trigger] sample_index(width as int, height as int, xx, yy)
                        < indices@.len() && (indices@[sample_index(width as int, height as int, xx, yy)] as int)
                        < palette@.len() ==> palette@[indices@[sample_index(width as int, height as int, xx, yy)] as int].readable(),
            decreases 16 - y,
        {
            let mut x: u32 = 0;
            while x < 16
                invariant
                    0 <= x <= 16,
                    0 <= y < 16,
                    width * height <= 65025,
                    forall|xx: int, yy: int|
                        0 <= xx < 16 && 0 <= yy < y && #[trigger] sample_index(width as int, height as int, xx, yy)
                            < indices@.len() && (indices@[sample_index(width as int, height as int, xx, yy)] as int)
                            < palette@.len() ==> palette@[indices@[sample_index(width as int, height as int, xx, yy)] as int].readable(),
                    forall|xx: int|
                        0 <= xx < x && #[trigger] sample_index(width as int, height as int, xx, y as int)
                            < indices@.len() && (indices@[sample_index(width as int, height as int, xx, y as int)] as int)
                            < palette@.len() ==> palette@[indices@[sample_index(width as int, height as int, xx, y as int)] as int].readable(),
                decreases 16 - x,
            {
                let idx = Self::sample(width as u32, height as u32, x, y);
                if idx < indices.len() {
                    let p = indices[idx] as usize;
                    if p < palette.len() && !palette[p].is_readable() {
                        return false;
                    }
                }
                x = x + 1;
            }
            y = y + 1;
        }
        true
    }

    /// Whether a texture can be drawn at tile `(bx, by)` without a panic.
    pub fn texture_is_drawable(tex: &TextureDef, bx: u32, by: u32) -> (r: bool)
        ensures
            r == texture_drawable(*tex, bx as int, by as int),
    {
        match tex {
            TextureDef::Pixels { width, height, pixels } => Self::sampled_readable(*width, *height, pixels.as_slice()),
            TextureDef::Indexed { palette, indices, width, height } => Self::sampled_palette_is_readable(
                palette.as_slice(),
                indices.as_slice(),
                *width,
                *height,
            ),
            TextureDef::Procedural { params, .. } => {
                let c1 = match &params.color1 {
                    Some(p) => p.is_readable(),
                    None => true,
                };
                let c2 = match &params.color2 {
                    Some(p) => p.is_readable(),
                    None => true,
                };
                c1 && c2 && bx <= 42949672 && by <= 42949672
            },
            TextureDef::File(_) => true,
        }
    }

    /// Whether a block can be drawn on any tile without a panic (see `block_drawable`).
    pub fn block_is_drawable(def: &BlockDefinition) -> (r: bool)
        ensures
            r == block_drawable(*def),
    {
        match Self::get_side_texture(def) {
            Some(t) => Self::texture_is_drawable(t, 0, 0),
            None => true,
        }
    }

    /// Whether every block of `registry` that is given a tile can be drawn there (see
    /// `tiled_blocks_drawable`).
    pub fn registry_is_drawable(registry: &BlockRegistry) -> (r: bool)
        requires
            registry.wf(),
        ensures
            r == tiled_blocks_drawable(registry.defs_in_order()),
    {
        let ghost defs = registry.defs_in_order();
        let blocks = registry.all_blocks();
        proof {
            assert(blocks@.map_values(|d: &BlockDefinition| *d).len() == blocks@.len());
        }
        let mut slot: u32 = 0;
        let mut i: usize = 0;
        while i < blocks.len()
            invariant
                defs == registry.defs_in_order(),
                blocks@.map_values(|d: &BlockDefinition| *d) == defs,
                blocks@.len() == defs.len(),
                0 <= i <= blocks@.len(),
                slot as nat == tiles_before(defs, i as nat),
                slot <= 256,
                forall|j: int| 0 <= j < i && #[trigger] gets_tile(defs, j) ==> block_drawable(defs[j]),
            decreases blocks@.len() - i,
        {
            let def = blocks[i];
            proof {
                assert(*def == blocks@.map_values(|d: &BlockDefinition| *d)[i as int]);
            }
            if def.numeric_id != 0 && slot < 256 {
                if !Self::block_is_drawable(def) {
                    assert(defs[i as int] == *def);
                    assert(gets_tile(defs, i as int) && !block_drawable(defs[i as int]));
                    assert(!tiled_blocks_drawable(defs));
                    return false;
                }
                slot = slot + 1;
            }
            i = i + 1;
        }
        true
    }

    /// Builds the atlas for the blocks of `registry`: every block but air, in registration order,
    /// gets the next tile, row by row, until the atlas is full; `side_colors[i]` is the side colour
    /// (already converted to bytes) of the `i`-th block, drawn when it has no texture.
    pub fn from_registry(registry: &BlockRegistry, side_colors: &[[u8; 3]]) -> (r: Self)
        requires
            registry.wf(),
            side_colors@.len() == registry.defs_in_order().len(),
            tiled_blocks_drawable(registry.defs_in_order()),
        ensures
            r.data@ == atlas_from(registry.defs_in_order(), side_colors@, registry.defs_in_order().len()).0,
            r.block_positions@ == atlas_from(registry.defs_in_order(), side_colors@, registry.defs_in_order().len()).1,
    {
        let ghost defs = registry.defs_in_order();
        let mut atlas = Self::new();
        let blocks = registry.all_blocks();
        let mut slot: u32 = 0;
        let mut i: usize = 0;
        proof {
            assert(blocks@.len() == defs.len()) by {
                assert(blocks@.map_values(|d: &BlockDefinition| *d).len() == blocks@.len());
            }
        }
        while i < blocks.len()
            invariant
                defs == registry.defs_in_order(),
                blocks@.map_values(|d: &BlockDefinition| *d) == defs,
                blocks@.len() == defs.len(),
                side_colors@.len() == defs.len(),
                tiled_blocks_drawable(defs),
                0 <= i <= blocks@.len(),
                atlas.data@ == atlas_from(defs, side_colors@, i as nat).0,
                atlas.block_positions@ == atlas_from(defs, side_colors@, i as nat).1,
                slot as nat == atlas_from(defs, side_colors@, i as nat).2,
                slot <= 256,
            decreases blocks@.len() - i,
        {
            let def = blocks[i];
            proof {
                assert(*def == blocks@.map_values(|d: &BlockDefinition| *d)[i as int]);
                lemma_atlas_next_tile(defs, side_colors@, i as nat);
            }
            if def.numeric_id != 0 && slot < ATLAS_SIZE * ATLAS_SIZE {
                assert(gets_tile(defs, i as int));
                let atlas_x = slot % ATLAS_SIZE;
                let atlas_y = slot / ATLAS_SIZE;
                atlas.block_positions.insert(def.numeric_id, (atlas_x, atlas_y));
                proof {
                    if let Some(t) = spec_side_texture(*def) {
                        lemma_drawable_anywhere(t, atlas_x * 16, atlas_y * 16);
                    }
                }
                atlas.render_block_texture(def, atlas_x, atlas_y, side_colors[i]);
                slot = slot + 1;
            }
            i = i + 1;
        }
        atlas
    }

    /// Draws a block's side texture on atlas tile `(atlas_x, atlas_y)`; a block without textures
    /// gets its side colour `side_rgb` (already converted to bytes) with a darker frame.
    pub fn render_block_texture(&mut self, def: &BlockDefinition, atlas_x: u32, atlas_y: u32, side_rgb: [u8; 3])
        requires
            atlas_x < ATLAS_SIZE,
            atlas_y < ATLAS_SIZE,
            spec_side_texture(*def) matches Some(t) ==> texture_drawable(
                t,
                atlas_x * 16,
                atlas_y * 16,
            ),
        ensures
            final(self).data@ == match spec_side_texture(*def) {
                Some(t) => painted(
                    old(self).data@,
                    atlas_x * 16,
                    atlas_y * 16,
                    texture_pattern(t, atlas_x * 16, atlas_y * 16),
                ),
                None => painted(old(self).data@, atlas_x * 16, atlas_y * 16, solid_pattern(side_rgb@)),
            },
            final(self).block_positions == old(self).block_positions,
    {
        let base_x = atlas_x * TEXTURE_SIZE;
        let base_y = atlas_y * TEXTURE_SIZE;
        let texture = Self::get_side_texture(def);
        match texture {
            Some(tex) => self.render_texture_def(tex, base_x, base_y),
            None => self.render_solid_color(side_rgb, base_x, base_y),
        }
    }

    /// Sets atlas pixel `(x, y)` to `rgba`; a pixel past the end of the data is ignored.
    pub fn set_pixel(&mut self, x: u32, y: u32, rgba: [u8; 4])
        requires
            pixel_offset(x as int, y as int) + 3 <= u32::MAX,
        ensures
            final(self).data@ == with_pixel(old(self).data@, x as int, y as int, rgba@),
            final(self).block_positions == old(self).block_positions,
    {
        let idx = ((y * ATLAS_PIXELS + x) * 4) as usize;
        if idx + 3 < self.data.len() {
            self.data.set(idx, rgba[0]);
            self.data.set(idx + 1, rgba[1]);
            self.data.set(idx + 2, rgba[2]);
            self.data.set(idx + 3, rgba[3]);
        }
    }
}

} // verus!
