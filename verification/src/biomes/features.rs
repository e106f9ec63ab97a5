use vstd::prelude::*;
use vstd::arithmetic::div_mod::lemma_fundamental_div_mod_converse;
use crate::blocks::types::{
    BlockType, AIR, OAK_LOG, OAK_LEAVES, BIRCH_LOG, BIRCH_LEAVES, SPRUCE_LOG, SPRUCE_LEAVES,
};
use crate::terrain::{CHUNK_SIZE, MIN_HEIGHT, WORLD_HEIGHT, CHUNK_VOLUME};

verus! {

/// Kind of tree.
#[derive(Clone, Copy, PartialEq, Eq, Debug)]
pub enum TreeType {
    Oak,
    Birch,
    Spruce,
}

/// A leaf block recorded for later conversion into sub-voxels.
#[derive(Clone, Copy, PartialEq, Eq, Debug)]
pub struct LeafSubVoxel {
    pub world_x: i32,
    pub world_y: i32,
    pub world_z: i32,
    pub block_type: BlockType,
}

/// Absolute value on mathematical integers.
pub open spec fn iabs(v: int) -> int {
    if v < 0 { -v } else { v }
}

/// `(lx, y, lz)` lies inside a chunk column, in chunk-local coordinates.
pub open spec fn in_chunk(lx: int, y: int, lz: int) -> bool {
    0 <= lx < CHUNK_SIZE && 0 <= lz < CHUNK_SIZE && MIN_HEIGHT <= y < WORLD_HEIGHT
}

/// Position of a chunk-local cell in the flat block array: layer by layer, then row by row.
pub open spec fn chunk_index(lx: int, y: int, lz: int) -> int {
    (y - MIN_HEIGHT) * (CHUNK_SIZE * CHUNK_SIZE) + lz * CHUNK_SIZE + lx
}

/// The chunk-local cell `(lx, y, lz)` stored at position `i` of the flat block array.
pub open spec fn cell_of_index(i: int) -> (int, int, int) {
    (i % CHUNK_SIZE as int, MIN_HEIGHT + i / (CHUNK_SIZE * CHUNK_SIZE) as int, (i / CHUNK_SIZE as int)
        % CHUNK_SIZE as int)
}

/// Every cell of a chunk has its own slot in the block array, and the slot leads back to the cell.
pub proof fn lemma_chunk_index_bijective(lx: int, y: int, lz: int)
    requires
        in_chunk(lx, y, lz),
    ensures
        0 <= chunk_index(lx, y, lz) < CHUNK_VOLUME,
        cell_of_index(chunk_index(lx, y, lz)) == (lx, y, lz),
{
    let i = chunk_index(lx, y, lz);
    let r = lz * 16 + lx;
    lemma_fundamental_div_mod_converse(i, 256, y - MIN_HEIGHT, r);
    lemma_fundamental_div_mod_converse(i, 16, (y - MIN_HEIGHT) * 16 + lz, lx);
    lemma_fundamental_div_mod_converse((y - MIN_HEIGHT) * 16 + lz, 16, y - MIN_HEIGHT, lz);
}

/// Every slot of a full block array holds exactly one cell of the chunk.
pub proof fn lemma_cell_of_index_inverse(i: int)
    requires
        0 <= i < CHUNK_VOLUME,
    ensures
        in_chunk(cell_of_index(i).0, cell_of_index(i).1, cell_of_index(i).2),
        chunk_index(cell_of_index(i).0, cell_of_index(i).1, cell_of_index(i).2) == i,
{
    let q = i / 256;
    let q16 = i / 16;
    vstd::arithmetic::div_mod::lemma_fundamental_div_mod(i, 256);
    vstd::arithmetic::div_mod::lemma_fundamental_div_mod(i, 16);
    vstd::arithmetic::div_mod::lemma_fundamental_div_mod(q16, 16);
    assert(q16 / 16 == q) by {
        vstd::arithmetic::div_mod::lemma_div_denominator(i, 16, 16);
    }
}

/// Slots of the block array past the last cell of the chunk belong to no cell.
pub proof fn lemma_cell_of_index_past_end(i: int)
    requires
        i >= CHUNK_VOLUME,
    ensures
        !in_chunk(cell_of_index(i).0, cell_of_index(i).1, cell_of_index(i).2),
{
    vstd::arithmetic::div_mod::lemma_fundamental_div_mod(i, 256);
}

/// The cells of a `(2r+1) x (2r+1)` square layer around `(cx, cz)` at height `y`, row by row
/// (`x` outer, `z` inner). The last component marks a corner that is skipped when `rounded`.
pub open spec fn square_cells(cx: int, y: int, cz: int, r: int, rounded: bool) -> Seq<(int, int, int, bool)> {
    Seq::new(
        ((2 * r + 1) * (2 * r + 1)) as nat,
        |i: int|
            {
                let dx = i / (2 * r + 1) - r;
                let dz = i % (2 * r + 1) - r;
                (cx + dx, y, cz + dz, rounded && iabs(dx) == r && iabs(dz) == r)
            },
    )
}

/// The `k`-th layer of an oak or birch crown whose trunk top is `top`: the three layers below
/// the top are 5 x 5 with their corners cut, the two from the top up are 3 x 3.
pub open spec fn basic_crown_layer(cx: int, top: int, cz: int, k: int) -> Seq<(int, int, int, bool)> {
    if k < 3 {
        square_cells(cx, top - 3 + k, cz, 2, true)
    } else {
        square_cells(cx, top - 3 + k, cz, 1, false)
    }
}

/// The first `k` layers of an oak or birch crown, bottom to top.
pub open spec fn basic_crown_layers(cx: int, top: int, cz: int, k: nat) -> Seq<(int, int, int, bool)>
    decreases k,
{
    if k == 0 {
        Seq::empty()
    } else {
        basic_crown_layers(cx, top, cz, (k - 1) as nat) + basic_crown_layer(cx, top, cz, k - 1)
    }
}

/// All cells that an oak or birch crown visits, in the order they are visited.
pub open spec fn basic_crown(cx: int, top: int, cz: int) -> Seq<(int, int, int, bool)> {
    basic_crown_layers(cx, top, cz, 5)
}

/// The four horizontal neighbours of `(cx, y, cz)`: +x, -x, +z, -z.
pub open spec fn cross_cells(cx: int, y: int, cz: int) -> Seq<(int, int, int, bool)> {
    seq![(cx + 1, y, cz, false), (cx - 1, y, cz, false), (cx, y, cz + 1, false), (cx, y, cz - 1, false)]
}

/// The spruce layer `t` steps below the top: a full 3 x 3 square when `t % 4` is odd, otherwise a cross.
pub open spec fn spruce_layer(cx: int, top: int, cz: int, t: int) -> Seq<(int, int, int, bool)> {
    if t % 4 == 1 || t % 4 == 3 {
        square_cells(cx, top - t, cz, 1, false)
    } else {
        cross_cells(cx, top - t, cz)
    }
}

/// The spruce layers from `top - 1` down to `top - n`.
pub open spec fn spruce_layers(cx: int, top: int, cz: int, n: nat) -> Seq<(int, int, int, bool)>
    decreases n,
{
    if n == 0 {
        Seq::empty()
    } else {
        spruce_layers(cx, top, cz, (n - 1) as nat) + spruce_layer(cx, top, cz, n as int)
    }
}

/// All cells a spruce crown visits, in order: the two cells of the tip, then the layers going down
/// to two blocks above the base.
pub open spec fn spruce_crown(cx: int, base_y: int, cz: int, height: int) -> Seq<(int, int, int, bool)> {
    let top = base_y + height;
    let n = if top - base_y - 2 > 0 { top - base_y - 2 } else { 0 };
    seq![(cx, top, cz, false), (cx, top + 1, cz, false)] + spruce_layers(cx, top, cz, n as nat)
}

/// The trunk block and leaf block of a tree kind.
pub open spec fn tree_blocks(tree_type: TreeType) -> (BlockType, BlockType) {
    match tree_type {
        TreeType::Birch => (BIRCH_LOG, BIRCH_LEAVES),
        TreeType::Spruce => (SPRUCE_LOG, SPRUCE_LEAVES),
        TreeType::Oak => (OAK_LOG, OAK_LEAVES),
    }
}

/// `s.push(a).filter_map(f)` adds `f(a)` when there is one.
pub proof fn lemma_filter_map_push<A, B>(s: Seq<A>, a: A, f: spec_fn(A) -> Option<B>)
    ensures
        s.push(a).filter_map(f) == s.filter_map(f) + match f(a) {
            Some(b) => seq![b],
            None => Seq::<B>::empty(),
        },
{
    assert(s.push(a).drop_last() =~= s);
    assert(s.push(a).last() == a);
    match f(a) {
        Some(b) => {},
        None => {
            assert(s.filter_map(f) + Seq::<B>::empty() =~= s.filter_map(f));
        },
    }
}

/// `filter_map` of a concatenation is the concatenation of the `filter_map`s.
pub proof fn lemma_filter_map_add<A, B>(s: Seq<A>, t: Seq<A>, f: spec_fn(A) -> Option<B>)
    ensures
        (s + t).filter_map(f) == s.filter_map(f) + t.filter_map(f),
    decreases t.len(),
{
    if t.len() == 0 {
        assert(s + t =~= s);
        assert(s.filter_map(f) + t.filter_map(f) =~= s.filter_map(f));
    } else {
        let t0 = t.drop_last();
        let a = t.last();
        lemma_filter_map_add(s, t0, f);
        assert(s + t =~= (s + t0).push(a));
        assert(t =~= t0.push(a));
        lemma_filter_map_push(s + t0, a, f);
        lemma_filter_map_push(t0, a, f);
        match f(a) {
            Some(b) => {
                assert(s.filter_map(f) + t0.filter_map(f) + seq![b] =~= s.filter_map(f) + (
                t0.filter_map(f) + seq![b]));
            },
            None => {
                assert(t0.filter_map(f) + Seq::<B>::empty() =~= t0.filter_map(f));
                assert(s.filter_map(f) + t0.filter_map(f) + Seq::<B>::empty() =~= s.filter_map(f)
                    + t0.filter_map(f));
            },
        }
    }
}

/// Whether the chunk-local position `(x, y, z)` occurs among `changes`.
fn contains_pos(changes: &[(i32, i32, i32)], x: i32, y: i32, z: i32) -> (r: bool)
    ensures
        r == changes@.contains((x, y, z)),
{
    let mut i: usize = 0;
    while i < changes.len()
        invariant
            0 <= i <= changes@.len(),
            forall|j: int| 0 <= j < i ==> changes@[j] != (x, y, z),
        decreases changes@.len() - i,
    {
        let p = changes[i];
        if p.0 == x && p.1 == y && p.2 == z {
            assert(changes@[i as int] == (x, y, z));
            return true;
        }
        i = i + 1;
    }
    false
}

/// Writes generated features (trees) into the blocks of one chunk, leaving alone the positions
/// that the player has changed.
pub struct ChunkWriter<'a> {
    blocks: Vec<BlockType>,
    world_changes: Option<&'a [(i32, i32, i32)]>,
    base_x: i32,
    base_z: i32,
    /// Leaf positions recorded for later conversion into sub-voxels.
    pub leaf_positions: Vec<LeafSubVoxel>,
}

impl<'a> ChunkWriter<'a> {
    /// The chunk's blocks.
    pub closed spec fn blocks_view(&self) -> Seq<BlockType> {
        self.blocks@
    }

    /// The recorded leaves.
    pub closed spec fn leaves(&self) -> Seq<LeafSubVoxel> {
        self.leaf_positions@
    }

    /// World x of the chunk's local origin.
    pub closed spec fn origin_x(&self) -> int {
        self.base_x as int
    }

    /// World z of the chunk's local origin.
    pub closed spec fn origin_z(&self) -> int {
        self.base_z as int
    }

    /// The world positions changed by the player, if any were given.
    pub closed spec fn changes(&self) -> Option<Seq<(i32, i32, i32)>> {
        match self.world_changes {
            Some(c) => Some(c@),
            None => None,
        }
    }

    /// Two writers for the same chunk and the same changes.
    pub open spec fn same_frame(&self, other: &Self) -> bool {
        &&& self.origin_x() == other.origin_x()
        &&& self.origin_z() == other.origin_z()
        &&& self.changes() == other.changes()
        &&& self.blocks_view().len() == other.blocks_view().len()
    }

    /// The player changed the block at chunk-local `(lx, y, lz)`.
    pub open spec fn changed(&self, lx: int, y: int, lz: int) -> bool {
        match self.changes() {
            Some(c) => c.contains(
                ((self.origin_x() + lx) as i32, y as i32, (self.origin_z() + lz) as i32),
            ),
            None => false,
        }
    }

    /// Generation may write chunk-local `(lx, y, lz)`.
    pub open spec fn writable(&self, lx: int, y: int, lz: int) -> bool {
        in_chunk(lx, y, lz) && !self.changed(lx, y, lz)
    }

    /// A write at `(lx, y, lz)` is safe: its world position fits an `i32` and its slot exists.
    pub open spec fn can_write(&self, lx: int, y: int, lz: int) -> bool {
        in_chunk(lx, y, lz) ==> {
            &&& self.origin_x() + lx <= i32::MAX
            &&& self.origin_z() + lz <= i32::MAX
            &&& chunk_index(lx, y, lz) < self.blocks_view().len()
        }
    }

    /// A block write at `(lx, y, lz)` is safe: its slot exists, and when there are player changes
    /// to look up, its world position fits an `i32`.
    pub open spec fn can_set(&self, lx: int, y: int, lz: int) -> bool {
        in_chunk(lx, y, lz) ==> {
            &&& self.changes() is Some ==> self.origin_x() + lx <= i32::MAX && self.origin_z() + lz <= i32::MAX
            &&& chunk_index(lx, y, lz) < self.blocks_view().len()
        }
    }

    /// Every cell of `cells` can be written safely.
    pub open spec fn cells_writable(&self, cells: Seq<(int, int, int, bool)>) -> bool {
        forall|i: int| 0 <= i < cells.len() ==> #[trigger] self.can_write(cells[i].0, cells[i].1, cells[i].2)
    }

    /// The leaf recorded by `set_leaf(lx, y, lz, leaf)` when the blocks are `blocks`: one exactly
    /// when the cell is writable and holds air.
    pub open spec fn leaf_entry(&self, blocks: Seq<BlockType>, lx: int, y: int, lz: int, leaf: BlockType) -> Option<LeafSubVoxel> {
        if self.writable(lx, y, lz) && blocks[chunk_index(lx, y, lz)] == AIR {
            Some(
                LeafSubVoxel {
                    world_x: (self.origin_x() + lx) as i32,
                    world_y: y as i32,
                    world_z: (self.origin_z() + lz) as i32,
                    block_type: leaf,
                },
            )
        } else {
            None
        }
    }

    /// The leaves recorded by setting leaves, in order, on the unskipped cells of `cells`.
    pub open spec fn leaf_entries(&self, blocks: Seq<BlockType>, cells: Seq<(int, int, int, bool)>, leaf: BlockType) -> Seq<LeafSubVoxel> {
        cells.filter_map(
            |c: (int, int, int, bool)|
                if c.3 {
                    None
                } else {
                    self.leaf_entry(blocks, c.0, c.1, c.2, leaf)
                },
        )
    }

    /// Slot `i` belongs to the column `(lx, lz)` between heights `y0` (inclusive) and `y0 + n`,
    /// and may be written.
    pub open spec fn in_column(&self, i: int, lx: int, y0: int, lz: int, n: int) -> bool {
        let c = cell_of_index(i);
        &&& c.0 == lx
        &&& c.2 == lz
        &&& y0 <= c.1 < y0 + n
        &&& self.writable(c.0, c.1, c.2)
    }

    /// `blocks` after forcing `b` into the writable cells of a column.
    pub open spec fn column_written(&self, blocks: Seq<BlockType>, lx: int, y0: int, lz: int, n: int, b: BlockType) -> Seq<BlockType> {
        Seq::new(blocks.len(), |i: int| if self.in_column(i, lx, y0, lz, n) { b } else { blocks[i] })
    }

    /// Every leaf recorded for `cells` with leaf block `leaf` has block `leaf`, and sits at a
    /// writable cell of the chunk.
    pub proof fn lemma_leaf_entries_kind(&self, blocks: Seq<BlockType>, cells: Seq<(int, int, int, bool)>, leaf: BlockType)
        ensures
            forall|i: int|
                0 <= i < self.leaf_entries(blocks, cells, leaf).len() ==> #[trigger] self.leaf_entries(
                    blocks,
                    cells,
                    leaf,
                )[i].block_type == leaf,
        decreases cells.len(),
    {
        if cells.len() > 0 {
            let rest = cells.drop_last();
            self.lemma_leaf_entries_kind(blocks, rest, leaf);
            assert(rest.push(cells.last()) =~= cells);
            self.lemma_leaf_entries_push(blocks, rest, cells.last(), leaf);
            let a = self.leaf_entries(blocks, rest, leaf);
            assert forall|i: int| 0 <= i < self.leaf_entries(blocks, cells, leaf).len() implies #[trigger] self.leaf_entries(
                blocks,
                cells,
                leaf,
            )[i].block_type == leaf by {
                if i < a.len() {
                    assert(self.leaf_entries(blocks, cells, leaf)[i] == a[i]);
                }
            }
        } else {
            assert(self.leaf_entries(blocks, cells, leaf) =~= Seq::<LeafSubVoxel>::empty());
        }
    }

    /// Law: planting never touches a cell that the player changed: writing a trunk column keeps
    /// the block there, and no leaf is recorded for it.
    pub proof fn lemma_changed_cells_kept(
        &self,
        blocks: Seq<BlockType>,
        lx: int,
        y0: int,
        lz: int,
        n: int,
        b: BlockType,
        leaf: BlockType,
        x: int,
        y: int,
        z: int,
    )
        requires
            in_chunk(x, y, z),
            self.changed(x, y, z),
            chunk_index(x, y, z) < blocks.len(),
        ensures
            self.column_written(blocks, lx, y0, lz, n, b)[chunk_index(x, y, z)] == blocks[chunk_index(x, y, z)],
            self.leaf_entry(blocks, x, y, z, leaf) is None,
    {
        lemma_chunk_index_bijective(x, y, z);
    }

    /// A writer over `blocks` for the chunk whose local origin is `(base_x, base_z)`.
    pub fn new(
        blocks: Vec<BlockType>,
        world_changes: Option<&'a [(i32, i32, i32)]>,
        base_x: i32,
        base_z: i32,
    ) -> (r: Self)
        ensures
            r.blocks_view() == blocks@,
            r.leaves() == Seq::<LeafSubVoxel>::empty(),
            r.origin_x() == base_x,
            r.origin_z() == base_z,
            r.changes() == match world_changes {
                Some(c) => Some(c@),
                None => None::<Seq<(i32, i32, i32)>>,
            },
    {
        ChunkWriter { blocks, world_changes, base_x, base_z, leaf_positions: Vec::new() }
    }

    /// The chunk's blocks.
    pub fn blocks(&self) -> (r: &Vec<BlockType>)
        ensures
            r@ == self.blocks_view(),
    {
        &self.blocks
    }

    /// Gives back the chunk's blocks.
    pub fn into_blocks(self) -> (r: Vec<BlockType>)
        ensures
            r@ == self.blocks_view(),
    {
        self.blocks
    }

    /// Whether the player changed chunk-local `(lx, y, lz)`; asks only for cells inside the chunk.
    fn is_changed(&self, lx: i32, y: i32, lz: i32) -> (r: bool)
        requires
            in_chunk(lx as int, y as int, lz as int),
            self.can_set(lx as int, y as int, lz as int),
        ensures
            r == self.changed(lx as int, y as int, lz as int),
    {
        match self.world_changes {
            Some(changes) => contains_pos(changes, self.base_x + lx, y, self.base_z + lz),
            None => false,
        }
    }

    /// Sets the block at chunk-local `(lx, y, lz)` to `block` if the cell is writable and holds air.
    pub fn set_block(&mut self, lx: i32, y: i32, lz: i32, block: BlockType)
        requires
            old(self).can_set(lx as int, y as int, lz as int),
        ensures
            final(self).same_frame(old(self)),
            final(self).leaves() == old(self).leaves(),
            final(self).blocks_view() == if old(self).writable(lx as int, y as int, lz as int)
                && old(self).blocks_view()[chunk_index(lx as int, y as int, lz as int)] == AIR {
                old(self).blocks_view().update(chunk_index(lx as int, y as int, lz as int), block)
            } else {
                old(self).blocks_view()
            },
    {
        if lx < 0 || lx >= CHUNK_SIZE || lz < 0 || lz >= CHUNK_SIZE || y < MIN_HEIGHT || y
            >= WORLD_HEIGHT {
            return ;
        }
        if self.is_changed(lx, y, lz) {
            return ;
        }
        let idx = Self::index(lx, y, lz);
        if self.blocks[idx] == AIR {
            self.blocks.set(idx, block);
        }
    }

    /// Records a leaf at chunk-local `(lx, y, lz)` if the cell is writable and holds air; leaves
    /// are kept as sub-voxels only, so no block is written.
    pub fn set_leaf(&mut self, lx: i32, y: i32, lz: i32, leaf_type: BlockType)
        requires
            old(self).can_write(lx as int, y as int, lz as int),
        ensures
            final(self).same_frame(old(self)),
            final(self).blocks_view() == old(self).blocks_view(),
            final(self).leaves() == old(self).leaves() + match old(self).leaf_entry(
                old(self).blocks_view(),
                lx as int,
                y as int,
                lz as int,
                leaf_type,
            ) {
                Some(e) => seq![e],
                None => Seq::<LeafSubVoxel>::empty(),
            },
    {
        if lx < 0 || lx >= CHUNK_SIZE || lz < 0 || lz >= CHUNK_SIZE || y < MIN_HEIGHT || y
            >= WORLD_HEIGHT {
            assert(old(self).leaves() + Seq::<LeafSubVoxel>::empty() =~= old(self).leaves());
            return ;
        }
        if self.is_changed(lx, y, lz) {
            assert(old(self).leaves() + Seq::<LeafSubVoxel>::empty() =~= old(self).leaves());
            return ;
        }
        let idx = Self::index(lx, y, lz);
        if self.blocks[idx] != AIR {
            assert(old(self).leaves() + Seq::<LeafSubVoxel>::empty() =~= old(self).leaves());
            return ;
        }
        self.leaf_positions.push(
            LeafSubVoxel {
                world_x: self.base_x + lx,
                world_y: y,
                world_z: self.base_z + lz,
                block_type: leaf_type,
            },
        );
    }

    /// Forces `block` into chunk-local `(lx, y, lz)` if the cell is writable (used for trunks).
    pub fn set_solid(&mut self, lx: i32, y: i32, lz: i32, block: BlockType)
        requires
            old(self).can_set(lx as int, y as int, lz as int),
        ensures
            final(self).same_frame(old(self)),
            final(self).leaves() == old(self).leaves(),
            final(self).blocks_view() == if old(self).writable(lx as int, y as int, lz as int) {
                old(self).blocks_view().update(chunk_index(lx as int, y as int, lz as int), block)
            } else {
                old(self).blocks_view()
            },
    {
        if lx < 0 || lx >= CHUNK_SIZE || lz < 0 || lz >= CHUNK_SIZE || y < MIN_HEIGHT || y
            >= WORLD_HEIGHT {
            return ;
        }
        if self.is_changed(lx, y, lz) {
            return ;
        }
        let idx = Self::index(lx, y, lz);
        self.blocks.set(idx, block);
    }

    /// Slot of chunk-local `(lx, y, lz)` in the block array.
    fn index(lx: i32, y: i32, lz: i32) -> (r: usize)
        requires
            in_chunk(lx as int, y as int, lz as int),
        ensures
            r == chunk_index(lx as int, y as int, lz as int),
    {
        let ly = y - MIN_HEIGHT;
        assert(0 <= ly < 320);
        assert((ly as usize) * 256 <= 319 * 256) by (nonlinear_arith)
            requires
                0 <= ly < 320,
        ;
        (ly as usize) * (CHUNK_SIZE as usize * CHUNK_SIZE as usize) + (lz as usize) * (
        CHUNK_SIZE as usize) + (lx as usize)
    }

    /// Hands out the recorded leaves and forgets them.
    pub fn take_leaf_subvoxels(&mut self) -> (r: Vec<LeafSubVoxel>)
        ensures
            r@ == old(self).leaves(),
            final(self).leaves() == Seq::<LeafSubVoxel>::empty(),
            final(self).same_frame(old(self)),
            final(self).blocks_view() == old(self).blocks_view(),
    {
        let mut out: Vec<LeafSubVoxel> = Vec::new();
        std::mem::swap(&mut out, &mut self.leaf_positions);
        out
    }
}


impl<'a> ChunkWriter<'a> {
    /// Adding one cell to a run of leaf settings adds that cell's leaf, if any.
    pub proof fn lemma_leaf_entries_push(&self, blocks: Seq<BlockType>, cells: Seq<(int, int, int, bool)>, c: (int, int, int, bool), leaf: BlockType)
        ensures
            self.leaf_entries(blocks, cells.push(c), leaf) == self.leaf_entries(blocks, cells, leaf)
                + if c.3 {
                Seq::<LeafSubVoxel>::empty()
            } else {
                match self.leaf_entry(blocks, c.0, c.1, c.2, leaf) {
                    Some(e) => seq![e],
                    None => Seq::<LeafSubVoxel>::empty(),
                }
            },
    {
        let f = |c: (int, int, int, bool)|
            if c.3 {
                None
            } else {
                self.leaf_entry(blocks, c.0, c.1, c.2, leaf)
            };
        lemma_filter_map_push(cells, c, f);
    }

    /// Leaf settings over two runs of cells record the leaves of the first run, then of the second.
    pub proof fn lemma_leaf_entries_add(&self, blocks: Seq<BlockType>, a: Seq<(int, int, int, bool)>, b: Seq<(int, int, int, bool)>, leaf: BlockType)
        ensures
            self.leaf_entries(blocks, a + b, leaf) == self.leaf_entries(blocks, a, leaf)
                + self.leaf_entries(blocks, b, leaf),
    {
        let f = |c: (int, int, int, bool)|
            if c.3 {
                None
            } else {
                self.leaf_entry(blocks, c.0, c.1, c.2, leaf)
            };
        lemma_filter_map_add(a, b, f);
    }

    /// Both parts of a safely writable run of cells are safely writable.
    pub proof fn lemma_cells_writable_add(&self, a: Seq<(int, int, int, bool)>, b: Seq<(int, int, int, bool)>)
        requires
            self.cells_writable(a + b),
        ensures
            self.cells_writable(a),
            self.cells_writable(b),
    {
        assert forall|i: int| 0 <= i < a.len() implies #[trigger] self.can_write(a[i].0, a[i].1, a[i].2) by {
            assert((a + b)[i] == a[i]);
        }
        assert forall|i: int| 0 <= i < b.len() implies #[trigger] self.can_write(b[i].0, b[i].1, b[i].2) by {
            assert((a + b)[a.len() + i] == b[i]);
        }
    }

    /// Every layer of a safely writable oak or birch crown is safely writable.
    pub proof fn lemma_basic_layers_writable(&self, cx: int, top: int, cz: int, k: nat)
        requires
            self.cells_writable(basic_crown_layers(cx, top, cz, k)),
        ensures
            forall|j: int| 0 <= j < k ==> #[trigger] self.cells_writable(basic_crown_layer(cx, top, cz, j)),
        decreases k,
    {
        if k > 0 {
            self.lemma_cells_writable_add(
                basic_crown_layers(cx, top, cz, (k - 1) as nat),
                basic_crown_layer(cx, top, cz, k - 1),
            );
            self.lemma_basic_layers_writable(cx, top, cz, (k - 1) as nat);
        }
    }

    /// Every layer of a safely writable spruce crown is safely writable.
    pub proof fn lemma_spruce_layers_writable(&self, cx: int, top: int, cz: int, n: nat)
        requires
            self.cells_writable(spruce_layers(cx, top, cz, n)),
        ensures
            forall|t: int| 1 <= t <= n ==> #[trigger] self.cells_writable(spruce_layer(cx, top, cz, t)),
        decreases n,
    {
        if n > 0 {
            self.lemma_cells_writable_add(
                spruce_layers(cx, top, cz, (n - 1) as nat),
                spruce_layer(cx, top, cz, n as int),
            );
            self.lemma_spruce_layers_writable(cx, top, cz, (n - 1) as nat);
        }
    }

    /// Forcing one more cell on top of a partly written column gives the longer column.
    pub proof fn lemma_column_step(&self, blocks: Seq<BlockType>, lx: int, y0: int, lz: int, k: int, b: BlockType)
        requires
            k >= 0,
            self.writable(lx, y0 + k, lz) ==> chunk_index(lx, y0 + k, lz) < blocks.len(),
        ensures
            ({
                let prev = self.column_written(blocks, lx, y0, lz, k, b);
                let y = y0 + k;
                self.column_written(blocks, lx, y0, lz, k + 1, b) == if self.writable(lx, y, lz) {
                    prev.update(chunk_index(lx, y, lz), b)
                } else {
                    prev
                }
            }),
    {
        let prev = self.column_written(blocks, lx, y0, lz, k, b);
        let next = self.column_written(blocks, lx, y0, lz, k + 1, b);
        let y = y0 + k;
        if self.writable(lx, y, lz) {
            let idx = chunk_index(lx, y, lz);
            lemma_chunk_index_bijective(lx, y, lz);
            assert forall|i: int| 0 <= i < blocks.len() implies next[i] == prev.update(idx, b)[i] by {
                if i != idx {
                    if i < CHUNK_VOLUME {
                        lemma_cell_of_index_inverse(i);
                    } else {
                        lemma_cell_of_index_past_end(i);
                    }
                }
            }
            assert(next =~= prev.update(idx, b));
        } else {
            assert(next =~= prev);
        }
    }

    /// Two writers with the same frame agree on which cells are safe and on the leaves recorded.
    pub proof fn lemma_same_frame(&self, other: &Self, blocks: Seq<BlockType>, cells: Seq<(int, int, int, bool)>, leaf: BlockType)
        requires
            self.same_frame(other),
        ensures
            self.cells_writable(cells) == other.cells_writable(cells),
            self.leaf_entries(blocks, cells, leaf) == other.leaf_entries(blocks, cells, leaf),
    {
        let f1 = |c: (int, int, int, bool)|
            if c.3 {
                None
            } else {
                self.leaf_entry(blocks, c.0, c.1, c.2, leaf)
            };
        let f2 = |c: (int, int, int, bool)|
            if c.3 {
                None
            } else {
                other.leaf_entry(blocks, c.0, c.1, c.2, leaf)
            };
        assert(f1 =~= f2);
        if self.cells_writable(cells) {
            assert forall|i: int| 0 <= i < cells.len() implies #[trigger] other.can_write(cells[i].0, cells[i].1, cells[i].2) by {
                assert(self.can_write(cells[i].0, cells[i].1, cells[i].2));
            }
        }
        if other.cells_writable(cells) {
            assert forall|i: int| 0 <= i < cells.len() implies #[trigger] self.can_write(cells[i].0, cells[i].1, cells[i].2) by {
                assert(other.can_write(cells[i].0, cells[i].1, cells[i].2));
            }
        }
    }
}

/// Forces `log` into the column `(lx, lz)` from `base_y` up to `base_y + height` (exclusive).
fn place_trunk(writer: &mut ChunkWriter, lx: i32, base_y: i32, lz: i32, height: i32, log: BlockType)
    requires
        base_y + height <= i32::MAX,
        forall|y: int| base_y <= y < base_y + height ==> old(writer).can_set(lx as int, y, lz as int),
    ensures
        final(writer).same_frame(old(writer)),
        final(writer).leaves() == old(writer).leaves(),
        final(writer).blocks_view() == old(writer).column_written(
            old(writer).blocks_view(),
            lx as int,
            base_y as int,
            lz as int,
            height as int,
            log,
        ),
{
    let ghost w0 = *writer;
    proof {
        assert(w0.column_written(w0.blocks_view(), lx as int, base_y as int, lz as int, 0, log)
            =~= w0.blocks_view());
    }
    let mut y: i32 = 0;
    while y < height
        invariant
            0 <= y,
            y < height ==> y <= height,
            height <= 0 ==> y == 0,
            height > 0 ==> y <= height,
            base_y + height <= i32::MAX,
            forall|yy: int| base_y <= yy < base_y + height ==> w0.can_set(lx as int, yy, lz as int),
            writer.same_frame(&w0),
            writer.leaves() == w0.leaves(),
            writer.blocks_view() == w0.column_written(
                w0.blocks_view(),
                lx as int,
                base_y as int,
                lz as int,
                y as int,
                log,
            ),
        decreases height - y,
    {
        proof {
            assert(w0.can_set(lx as int, (base_y + y) as int, lz as int));
            w0.lemma_column_step(w0.blocks_view(), lx as int, base_y as int, lz as int, y as int, log);
        }
        writer.set_solid(lx, base_y + y, lz, log);
        y = y + 1;
    }
    proof {
        if height <= 0 {
            assert(w0.column_written(w0.blocks_view(), lx as int, base_y as int, lz as int, 0, log)
                =~= w0.column_written(
                w0.blocks_view(),
                lx as int,
                base_y as int,
                lz as int,
                height as int,
                log,
            ));
        }
    }
}

/// Records leaves on the `(2r+1) x (2r+1)` square around `(cx, cz)` at height `y`, row by row;
/// when `rounded`, the four corners are left out.
fn leaf_square(writer: &mut ChunkWriter, cx: i32, y: i32, cz: i32, radius: i32, rounded: bool, leaf: BlockType)
    requires
        radius == 1 || radius == 2,
        i32::MIN <= cx - radius,
        cx + radius <= i32::MAX,
        i32::MIN <= cz - radius,
        cz + radius <= i32::MAX,
        old(writer).cells_writable(square_cells(cx as int, y as int, cz as int, radius as int, rounded)),
    ensures
        final(writer).same_frame(old(writer)),
        final(writer).blocks_view() == old(writer).blocks_view(),
        final(writer).leaves() == old(writer).leaves() + old(writer).leaf_entries(
            old(writer).blocks_view(),
            square_cells(cx as int, y as int, cz as int, radius as int, rounded),
            leaf,
        ),
{
    let ghost w0 = *writer;
    let ghost cells = square_cells(cx as int, y as int, cz as int, radius as int, rounded);
    let side: i32 = 2 * radius + 1;
    proof {
        assert(cells.take(0) =~= Seq::<(int, int, int, bool)>::empty());
        assert(w0.leaf_entries(w0.blocks_view(), Seq::<(int, int, int, bool)>::empty(), leaf)
            =~= Seq::<LeafSubVoxel>::empty());
        assert(w0.leaves() + Seq::<LeafSubVoxel>::empty() =~= w0.leaves());
    }
    let mut x: i32 = -radius;
    while x <= radius
        invariant
            radius == 1 || radius == 2,
            side == 2 * radius + 1,
            -radius <= x <= radius + 1,
            i32::MIN <= cx - radius,
            cx + radius <= i32::MAX,
            i32::MIN <= cz - radius,
            cz + radius <= i32::MAX,
            cells == square_cells(cx as int, y as int, cz as int, radius as int, rounded),
            w0.cells_writable(cells),
            writer.same_frame(&w0),
            writer.blocks_view() == w0.blocks_view(),
            writer.leaves() == w0.leaves() + w0.leaf_entries(
                w0.blocks_view(),
                cells.take((x + radius) * side),
                leaf,
            ),
        decreases radius + 1 - x,
    {
        let mut z: i32 = -radius;
        proof {
            assert((x + radius) * side + (z + radius) == (x + radius) * side);
        }
        while z <= radius
            invariant
                radius == 1 || radius == 2,
                side == 2 * radius + 1,
                -radius <= x <= radius,
                -radius <= z <= radius + 1,
                i32::MIN <= cx - radius,
                cx + radius <= i32::MAX,
                i32::MIN <= cz - radius,
                cz + radius <= i32::MAX,
                cells == square_cells(cx as int, y as int, cz as int, radius as int, rounded),
                w0.cells_writable(cells),
                writer.same_frame(&w0),
                writer.blocks_view() == w0.blocks_view(),
                writer.leaves() == w0.leaves() + w0.leaf_entries(
                    w0.blocks_view(),
                    cells.take((x + radius) * side + (z + radius)),
                    leaf,
                ),
            decreases radius + 1 - z,
        {
            let ghost n = (x + radius) * side + (z + radius);
            proof {
                lemma_fundamental_div_mod_converse(n, side as int, (x + radius) as int, (z + radius) as int);
                assert(0 <= n < side * side) by (nonlinear_arith)
                    requires
                        n == (x + radius) * side + (z + radius),
                        0 <= x + radius < side,
                        0 <= z + radius < side,
                ;
                assert(cells.take(n + 1) =~= cells.take(n).push(cells[n]));
                w0.lemma_leaf_entries_push(w0.blocks_view(), cells.take(n), cells[n], leaf);
                assert(w0.can_write(cells[n].0, cells[n].1, cells[n].2));
            }
            let ax: i32 = if x < 0 { -x } else { x };
            let az: i32 = if z < 0 { -z } else { z };
            if !(rounded && ax == radius && az == radius) {
                writer.set_leaf(cx + x, y, cz + z, leaf);
                proof {
                    assert(writer.leaves() =~= w0.leaves() + w0.leaf_entries(
                        w0.blocks_view(),
                        cells.take(n + 1),
                        leaf,
                    ));
                }
            } else {
                proof {
                    assert(w0.leaf_entries(w0.blocks_view(), cells.take(n), leaf)
                        + Seq::<LeafSubVoxel>::empty() =~= w0.leaf_entries(
                        w0.blocks_view(),
                        cells.take(n),
                        leaf,
                    ));
                }
            }
            z = z + 1;
        }
        proof {
            assert((x + radius) * side + (radius + 1 + radius) == (x + 1 + radius) * side)
                by (nonlinear_arith)
                requires
                    side == 2 * radius + 1,
            ;
        }
        x = x + 1;
    }
    proof {
        assert((radius + 1 + radius) * side == cells.len()) by (nonlinear_arith)
            requires
                side == 2 * radius + 1,
                cells.len() == (2 * radius + 1) * (2 * radius + 1),
        ;
        assert(cells.take(cells.len() as int) =~= cells);
    }
}

/// Places an oak or birch tree (a spruce kind gets spruce blocks in the same shape) whose trunk
/// stands on `(lx, base_y, lz)`: first the crown's leaves, then the trunk of `height` logs, which
/// overwrites whatever is in its column. The leaves are recorded while the trunk column is still
/// empty, so the crown cells of that column below the trunk top get leaves too.
pub fn place_basic_tree(writer: &mut ChunkWriter, lx: i32, base_y: i32, lz: i32, tree_type: TreeType, height: i32)
    requires
        i32::MIN <= base_y + height - 3,
        base_y + height + 1 <= i32::MAX,
        i32::MIN <= lx - 2,
        lx + 2 <= i32::MAX,
        i32::MIN <= lz - 2,
        lz + 2 <= i32::MAX,
        old(writer).cells_writable(basic_crown(lx as int, base_y + height, lz as int)),
        forall|y: int| base_y <= y < base_y + height ==> old(writer).can_set(lx as int, y, lz as int),
    ensures
        final(writer).same_frame(old(writer)),
        final(writer).leaves() == old(writer).leaves() + old(writer).leaf_entries(
            old(writer).blocks_view(),
            basic_crown(lx as int, base_y + height, lz as int),
            tree_blocks(tree_type).1,
        ),
        final(writer).blocks_view() == old(writer).column_written(
            old(writer).blocks_view(),
            lx as int,
            base_y as int,
            lz as int,
            height as int,
            tree_blocks(tree_type).0,
        ),
{
    let (log, leaves) = match tree_type {
        TreeType::Birch => (BIRCH_LOG, BIRCH_LEAVES),
        TreeType::Spruce => (SPRUCE_LOG, SPRUCE_LEAVES),
        TreeType::Oak => (OAK_LOG, OAK_LEAVES),
    };
    let ghost w0 = *writer;
    let top = base_y + height;
    proof {
        w0.lemma_basic_layers_writable(lx as int, top as int, lz as int, 5);
        assert(basic_crown_layers(lx as int, top as int, lz as int, 0) =~= Seq::<(int, int, int, bool)>::empty());
        assert(w0.leaf_entries(w0.blocks_view(), Seq::<(int, int, int, bool)>::empty(), leaves)
            =~= Seq::<LeafSubVoxel>::empty());
        assert(w0.leaves() + Seq::<LeafSubVoxel>::empty() =~= w0.leaves());
    }
    let mut k: i32 = 0;
    while k < 5
        invariant
            0 <= k <= 5,
            top == base_y + height,
            i32::MIN <= top - 3,
            top + 1 <= i32::MAX,
            i32::MIN <= lx - 2,
            lx + 2 <= i32::MAX,
            i32::MIN <= lz - 2,
            lz + 2 <= i32::MAX,
            forall|j: int| 0 <= j < 5 ==> #[trigger] w0.cells_writable(basic_crown_layer(lx as int, top as int, lz as int, j)),
            writer.same_frame(&w0),
            writer.blocks_view() == w0.blocks_view(),
            writer.leaves() == w0.leaves() + w0.leaf_entries(
                w0.blocks_view(),
                basic_crown_layers(lx as int, top as int, lz as int, k as nat),
                leaves,
            ),
        decreases 5 - k,
    {
        let y = top - 3 + k;
        let y_offset = y - top;
        let radius: i32 = if y_offset >= 0 { 1 } else { 2 };
        let ghost wk = *writer;
        proof {
            assert(w0.cells_writable(basic_crown_layer(lx as int, top as int, lz as int, k as int)));
            wk.lemma_same_frame(
                &w0,
                w0.blocks_view(),
                basic_crown_layer(lx as int, top as int, lz as int, k as int),
                leaves,
            );
        }
        leaf_square(writer, lx, y, lz, radius, y_offset < 0, leaves);
        proof {
            w0.lemma_leaf_entries_add(
                w0.blocks_view(),
                basic_crown_layers(lx as int, top as int, lz as int, k as nat),
                basic_crown_layer(lx as int, top as int, lz as int, k as int),
                leaves,
            );
            assert(basic_crown_layers(lx as int, top as int, lz as int, (k + 1) as nat)
                == basic_crown_layers(lx as int, top as int, lz as int, k as nat) + basic_crown_layer(
                lx as int,
                top as int,
                lz as int,
                k as int,
            ));
            assert(writer.leaves() =~= w0.leaves() + w0.leaf_entries(
                w0.blocks_view(),
                basic_crown_layers(lx as int, top as int, lz as int, (k + 1) as nat),
                leaves,
            ));
        }
        k = k + 1;
    }
    proof {
        assert forall|yy: int| base_y <= yy < base_y + height implies writer.can_set(lx as int, yy, lz as int) by {
            assert(w0.can_set(lx as int, yy, lz as int));
        }
        writer.lemma_same_frame(&w0, w0.blocks_view(), Seq::empty(), leaves);
    }
    place_trunk(writer, lx, base_y, lz, height, log);
    proof {
        let c1 = writer.column_written(w0.blocks_view(), lx as int, base_y as int, lz as int, height as int, log);
        let c2 = w0.column_written(w0.blocks_view(), lx as int, base_y as int, lz as int, height as int, log);
        assert(c1 =~= c2);
    }
}

/// Records the leaves of one spruce layer at height `y`: the four neighbours of the trunk when
/// `radius` is 1, the full 3 x 3 square otherwise.
fn spruce_ring(writer: &mut ChunkWriter, lx: i32, y: i32, lz: i32, radius: i32, leaves: BlockType)
    requires
        i32::MIN <= lx - 1,
        lx + 1 <= i32::MAX,
        i32::MIN <= lz - 1,
        lz + 1 <= i32::MAX,
        radius == 1 ==> old(writer).cells_writable(cross_cells(lx as int, y as int, lz as int)),
        radius != 1 ==> old(writer).cells_writable(square_cells(lx as int, y as int, lz as int, 1, false)),
    ensures
        final(writer).same_frame(old(writer)),
        final(writer).blocks_view() == old(writer).blocks_view(),
        final(writer).leaves() == old(writer).leaves() + old(writer).leaf_entries(
            old(writer).blocks_view(),
            if radius == 1 {
                cross_cells(lx as int, y as int, lz as int)
            } else {
                square_cells(lx as int, y as int, lz as int, 1, false)
            },
            leaves,
        ),
{
    if radius == 1 {
        let ghost w0 = *writer;
        let ghost mid = w0.blocks_view();
        let ghost cells = cross_cells(lx as int, y as int, lz as int);
        proof {
            assert(w0.can_write(cells[0].0, cells[0].1, cells[0].2));
            assert(w0.can_write(cells[1].0, cells[1].1, cells[1].2));
            assert(w0.can_write(cells[2].0, cells[2].1, cells[2].2));
            assert(w0.can_write(cells[3].0, cells[3].1, cells[3].2));
            let e = Seq::<(int, int, int, bool)>::empty();
            w0.lemma_leaf_entries_push(mid, e, cells[0], leaves);
            w0.lemma_leaf_entries_push(mid, e.push(cells[0]), cells[1], leaves);
            w0.lemma_leaf_entries_push(mid, e.push(cells[0]).push(cells[1]), cells[2], leaves);
            w0.lemma_leaf_entries_push(
                mid,
                e.push(cells[0]).push(cells[1]).push(cells[2]),
                cells[3],
                leaves,
            );
            assert(e.push(cells[0]).push(cells[1]).push(cells[2]).push(cells[3]) =~= cells);
            assert(w0.leaf_entries(mid, e, leaves) =~= Seq::<LeafSubVoxel>::empty());
        }
        writer.set_leaf(lx + 1, y, lz, leaves);
        writer.set_leaf(lx - 1, y, lz, leaves);
        writer.set_leaf(lx, y, lz + 1, leaves);
        writer.set_leaf(lx, y, lz - 1, leaves);
        proof {
            let e = Seq::<(int, int, int, bool)>::empty();
            let p1 = w0.leaf_entries(mid, e.push(cells[0]), leaves);
            let p2 = w0.leaf_entries(mid, e.push(cells[0]).push(cells[1]), leaves);
            let p3 = w0.leaf_entries(mid, e.push(cells[0]).push(cells[1]).push(cells[2]), leaves);
            assert(writer.leaves() =~= w0.leaves() + w0.leaf_entries(mid, cells, leaves));
        }
    } else {
        leaf_square(writer, lx, y, lz, 1, false, leaves);
    }
}

/// Places a spruce standing on `(lx, base_y, lz)`: first a trunk of `height` logs, then a tip of
/// two leaves above it, then cone layers going down to two blocks above the base.
pub fn place_spruce_tree(writer: &mut ChunkWriter, lx: i32, base_y: i32, lz: i32, height: i32)
    requires
        i32::MIN <= base_y + height,
        base_y + height + 1 <= i32::MAX,
        base_y + 2 <= i32::MAX,
        i32::MIN <= lx - 1,
        lx + 1 <= i32::MAX,
        i32::MIN <= lz - 1,
        lz + 1 <= i32::MAX,
        forall|y: int| base_y <= y < base_y + height ==> old(writer).can_set(lx as int, y, lz as int),
        old(writer).cells_writable(spruce_crown(lx as int, base_y as int, lz as int, height as int)),
    ensures
        final(writer).same_frame(old(writer)),
        final(writer).blocks_view() == old(writer).column_written(
            old(writer).blocks_view(),
            lx as int,
            base_y as int,
            lz as int,
            height as int,
            SPRUCE_LOG,
        ),
        final(writer).leaves() == old(writer).leaves() + old(writer).leaf_entries(
            final(writer).blocks_view(),
            spruce_crown(lx as int, base_y as int, lz as int, height as int),
            SPRUCE_LEAVES,
        ),
{
    let log = SPRUCE_LOG;
    let leaves = SPRUCE_LEAVES;
    let ghost w0 = *writer;
    place_trunk(writer, lx, base_y, lz, height, log);
    let ghost w1 = *writer;
    let ghost mid = w1.blocks_view();
    let top_y = base_y + height;
    let ghost n: int = if top_y - base_y - 2 > 0 { top_y - base_y - 2 } else { 0 };
    let ghost tip = seq![(lx as int, top_y as int, lz as int, false), (lx as int, top_y + 1, lz as int, false)];
    proof {
        w0.lemma_cells_writable_add(tip, spruce_layers(lx as int, top_y as int, lz as int, n as nat));
        w0.lemma_spruce_layers_writable(lx as int, top_y as int, lz as int, n as nat);
        assert(w0.can_write(tip[0].0, tip[0].1, tip[0].2));
        assert(w0.can_write(tip[1].0, tip[1].1, tip[1].2));
    }
    writer.set_leaf(lx, top_y, lz, leaves);
    writer.set_leaf(lx, top_y + 1, lz, leaves);
    proof {
        let e = Seq::<(int, int, int, bool)>::empty();
        w0.lemma_leaf_entries_push(mid, e, tip[0], leaves);
        w0.lemma_leaf_entries_push(mid, e.push(tip[0]), tip[1], leaves);
        assert(e.push(tip[0]).push(tip[1]) =~= tip);
        assert(w0.leaf_entries(mid, e, leaves) =~= Seq::<LeafSubVoxel>::empty());
        assert(spruce_layers(lx as int, top_y as int, lz as int, 0) =~= Seq::<(int, int, int, bool)>::empty());
        assert(tip + spruce_layers(lx as int, top_y as int, lz as int, 0) =~= tip);
        assert(writer.leaves() =~= w0.leaves() + w0.leaf_entries(
            mid,
            tip + spruce_layers(lx as int, top_y as int, lz as int, 0),
            leaves,
        ));
    }
    let lower = base_y + 2;
    let mut y = top_y;
    while y > lower
        invariant
            top_y == base_y + height,
            lower == base_y + 2,
            lower <= y <= top_y || y == top_y,
            n == if top_y - base_y - 2 > 0 { top_y - base_y - 2 } else { 0 },
            i32::MIN <= lx - 1,
            lx + 1 <= i32::MAX,
            i32::MIN <= lz - 1,
            lz + 1 <= i32::MAX,
            forall|t: int| 1 <= t <= n ==> #[trigger] w0.cells_writable(spruce_layer(lx as int, top_y as int, lz as int, t)),
            writer.same_frame(&w0),
            writer.blocks_view() == mid,
            writer.leaves() == w0.leaves() + w0.leaf_entries(
                mid,
                tip + spruce_layers(lx as int, top_y as int, lz as int, (top_y - y) as nat),
                leaves,
            ),
        decreases y - lower,
    {
        y = y - 1;
        let layer = (top_y - y) % 4;
        let radius = if layer == 1 || layer == 3 { 2i32 } else { 1i32 };
        let ghost t: int = top_y - y;
        let ghost before = tip + spruce_layers(lx as int, top_y as int, lz as int, (t - 1) as nat);
        let ghost cells = spruce_layer(lx as int, top_y as int, lz as int, t);
        let ghost wk = *writer;
        proof {
            assert(w0.cells_writable(cells));
            wk.lemma_same_frame(&w0, mid, cells, leaves);
        }
        spruce_ring(writer, lx, y, lz, radius, leaves);
        proof {
            assert(radius == 2 ==> cells == square_cells(lx as int, y as int, lz as int, 1, false));
            assert(radius == 1 ==> cells == cross_cells(lx as int, y as int, lz as int));
            w0.lemma_leaf_entries_add(mid, before, cells, leaves);
            assert(tip + spruce_layers(lx as int, top_y as int, lz as int, t as nat) =~= before + cells);
        }
    }
    proof {
        assert((top_y - y) as nat == n as nat);
    }
}

/// Law: each kind of tree is built from its own blocks: an oak from oak logs and oak leaves, a
/// birch from birch logs and birch leaves, a spruce from spruce logs and spruce leaves; so every
/// leaf `place_basic_tree` records for a tree of kind `kind` carries that kind's leaves.
pub proof fn lemma_tree_kind_blocks(w: ChunkWriter, blocks: Seq<BlockType>, cx: int, top: int, cz: int, kind: TreeType)
    ensures
        tree_blocks(TreeType::Oak) == (OAK_LOG, OAK_LEAVES),
        tree_blocks(TreeType::Birch) == (BIRCH_LOG, BIRCH_LEAVES),
        tree_blocks(TreeType::Spruce) == (SPRUCE_LOG, SPRUCE_LEAVES),
        OAK_LEAVES == 32 && BIRCH_LEAVES == 35 && SPRUCE_LEAVES == 38,
        OAK_LOG == 30 && BIRCH_LOG == 33 && SPRUCE_LOG == 36,
        forall|i: int|
            0 <= i < w.leaf_entries(blocks, basic_crown(cx, top, cz), tree_blocks(kind).1).len()
                ==> #[trigger] w.leaf_entries(blocks, basic_crown(cx, top, cz), tree_blocks(kind).1)[i].block_type
                == match kind {
                TreeType::Oak => OAK_LEAVES,
                TreeType::Birch => BIRCH_LEAVES,
                TreeType::Spruce => SPRUCE_LEAVES,
            },
{
    w.lemma_leaf_entries_kind(blocks, basic_crown(cx, top, cz), tree_blocks(kind).1);
}

} // verus!
