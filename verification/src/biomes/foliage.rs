use vstd::prelude::*;
use vstd::arithmetic::div_mod::{lemma_fundamental_div_mod, lemma_fundamental_div_mod_converse};
use crate::blocks::types::{BlockType, OAK_LEAVES, BIRCH_LEAVES, SPRUCE_LEAVES, spec_is_leaf_block};
use crate::biomes::types::{BiomeId, BIOME_FOREST, BIOME_TAIGA, BIOME_TUNDRA};
use crate::terrain::CHUNK_SIZE;
use crate::biomes::features::{
    square_cells, cross_cells, basic_crown, basic_crown_layer, basic_crown_layers, spruce_crown, spruce_layer,
    spruce_layers, lemma_filter_map_push, lemma_filter_map_add,
};

verus! {

/// How many chunks around the player's chunk, in each direction, get foliage.
pub const FOLIAGE_DISTANCE: i32 = 8;

/// Whether a block is leaves.
pub fn is_leaf_block(block: BlockType) -> (r: bool)
    ensures
        r == spec_is_leaf_block(block),
{
    block == OAK_LEAVES || block == BIRCH_LEAVES || block == SPRUCE_LEAVES
}

/// Chunk `c` lies within `d` chunks of `(x, z)` on both axes.
pub open spec fn within(c: (i32, i32), x: int, z: int, d: int) -> bool {
    -d <= c.0 - x <= d && -d <= c.1 - z <= d
}

/// The 17 x 17 chunks within `FOLIAGE_DISTANCE` of `(px, pz)` that get foliage, row by row (`z`
/// outer, `x` inner).
pub open spec fn chunks_around(px: int, pz: int) -> Seq<(i32, i32)> {
    Seq::new(289, |i: int| ((px + i % 17 - 8) as i32, (pz + i / 17 - 8) as i32))
}

/// A player chunk coordinate leaves room for the whole foliage area around it.
pub open spec fn area_fits(x: int) -> bool {
    i32::MIN + FOLIAGE_DISTANCE <= x <= i32::MAX - FOLIAGE_DISTANCE
}

/// Chunks that are not in `s`.
pub open spec fn not_in(s: Set<(i32, i32)>) -> spec_fn((i32, i32)) -> bool {
    |c: (i32, i32)| !s.contains(c)
}

proof fn lemma_chunks_around_index(px: int, pz: int, i: int)
    requires
        area_fits(px),
        area_fits(pz),
        0 <= i < 289,
    ensures
        chunks_around(px, pz)[i].0 == px + i % 17 - 8,
        chunks_around(px, pz)[i].1 == pz + i / 17 - 8,
        0 <= i % 17 < 17,
        0 <= i / 17 < 17,
        within(chunks_around(px, pz)[i], px, pz, FOLIAGE_DISTANCE as int),
{
    lemma_fundamental_div_mod(i, 17);
}

proof fn lemma_chunks_around_distinct(px: int, pz: int)
    requires
        area_fits(px),
        area_fits(pz),
    ensures
        chunks_around(px, pz).no_duplicates(),
{
    let s = chunks_around(px, pz);
    assert forall|i: int, j: int| 0 <= i < s.len() && 0 <= j < s.len() && i != j implies s[i] != s[j] by {
        lemma_chunks_around_index(px, pz, i);
        lemma_chunks_around_index(px, pz, j);
        lemma_fundamental_div_mod(i, 17);
        lemma_fundamental_div_mod(j, 17);
    }
}

proof fn lemma_chunks_around_covers(px: int, pz: int, c: (i32, i32))
    requires
        area_fits(px),
        area_fits(pz),
        within(c, px, pz, FOLIAGE_DISTANCE as int),
    ensures
        chunks_around(px, pz).contains(c),
{
    let i = (c.1 - pz + 8) * 17 + (c.0 - px + 8);
    lemma_fundamental_div_mod_converse(i, 17, c.1 - pz + 8, c.0 - px + 8);
    lemma_chunks_around_index(px, pz, i);
    assert(chunks_around(px, pz)[i] == c);
}

proof fn lemma_push_fresh<A>(s: Seq<A>, x: A)
    requires
        s.no_duplicates(),
        !s.contains(x),
    ensures
        s.push(x).no_duplicates(),
{
    let t = s.push(x);
    assert forall|a: int, b: int| 0 <= a < t.len() && 0 <= b < t.len() && a != b implies t[a] != t[b] by {
        if a == s.len() {
            assert(s[b] == t[b]);
        } else if b == s.len() {
            assert(s[a] == t[a]);
        } else {
            assert(s[a] == t[a] && s[b] == t[b]);
        }
    }
}

/// Law: once every chunk within `FOLIAGE_DISTANCE` of the player's chunk has foliage (as
/// `update_chunks` leaves it), updating again from the same chunk marks no new chunk.
pub proof fn lemma_update_again_adds_nothing(px: int, pz: int, generated: Set<(i32, i32)>)
    requires
        area_fits(px),
        area_fits(pz),
        forall|c: (i32, i32)| within(c, px, pz, FOLIAGE_DISTANCE as int) ==> #[trigger] generated.contains(c),
    ensures
        chunks_around(px, pz).filter(not_in(generated)) == Seq::<(i32, i32)>::empty(),
{
    let s = chunks_around(px, pz);
    let pred = not_in(generated);
    assert forall|i: int| 0 <= i < s.len() implies !pred(s[i]) by {
        lemma_chunks_around_index(px, pz, i);
        assert(generated.contains(s[i]));
    }
    assert(s.all(|x: (i32, i32)| !pred(x)));
    s.lemma_all_neg_filter_empty(pred);
    assert(s.filter(pred) =~= Seq::<(i32, i32)>::empty());
}

/// Which chunks already have foliage, and where the player was last seen.
pub struct FoliageCache {
    generated_chunks: Vec<(i32, i32)>,
    last_player_chunk: (i32, i32),
}

impl FoliageCache {
    /// Chunks that have foliage.
    pub closed spec fn generated(&self) -> Set<(i32, i32)> {
        self.generated_chunks@.to_set()
    }

    /// The player's chunk at the last update.
    pub closed spec fn last_chunk(&self) -> (i32, i32) {
        self.last_player_chunk
    }

    /// No chunk is listed twice.
    pub closed spec fn wf(&self) -> bool {
        self.generated_chunks@.no_duplicates()
    }

    /// Every chunk with foliage is close enough to `(x, z)` for its distance to be computed.
    pub open spec fn near(&self, x: int, z: int) -> bool {
        forall|c: (i32, i32)| #[trigger] self.generated().contains(c) ==> within(c, x, z, i32::MAX as int)
    }

    /// An empty cache; the player is taken to be in chunk `(0, 0)`.
    pub fn new() -> (r: Self)
        ensures
            r.wf(),
            r.generated() == Set::<(i32, i32)>::empty(),
            r.last_chunk() == (0i32, 0i32),
    {
        let r = FoliageCache { generated_chunks: Vec::new(), last_player_chunk: (0, 0) };
        assert(r.generated() =~= Set::<(i32, i32)>::empty());
        r
    }

    /// Whether chunk `(cx, cz)` has foliage.
    pub fn is_generated(&self, cx: i32, cz: i32) -> (r: bool)
        ensures
            r == self.generated().contains((cx, cz)),
    {
        let mut i: usize = 0;
        while i < self.generated_chunks.len()
            invariant
                0 <= i <= self.generated_chunks@.len(),
                forall|j: int| 0 <= j < i ==> self.generated_chunks@[j] != (cx, cz),
            decreases self.generated_chunks@.len() - i,
        {
            let c = self.generated_chunks[i];
            if c.0 == cx && c.1 == cz {
                assert(self.generated_chunks@[i as int] == (cx, cz));
                return true;
            }
            i = i + 1;
        }
        false
    }

    /// Whether every chunk with foliage is close enough to `(x, z)` for its distance to be computed.
    pub fn is_near(&self, x: i32, z: i32) -> (r: bool)
        ensures
            r == self.near(x as int, z as int),
    {
        let mut i: usize = 0;
        while i < self.generated_chunks.len()
            invariant
                0 <= i <= self.generated_chunks@.len(),
                forall|j: int| 0 <= j < i ==> within(self.generated_chunks@[j], x as int, z as int, i32::MAX as int),
            decreases self.generated_chunks@.len() - i,
        {
            let c = self.generated_chunks[i];
            let dx = c.0 as i64 - x as i64;
            let dz = c.1 as i64 - z as i64;
            if dx < -(i32::MAX as i64) || dx > i32::MAX as i64 || dz < -(i32::MAX as i64) || dz > i32::MAX as i64 {
                assert(self.generated().contains(c));
                return false;
            }
            i = i + 1;
        }
        assert forall|c: (i32, i32)| #[trigger] self.generated().contains(c) implies within(
            c,
            x as int,
            z as int,
            i32::MAX as int,
        ) by {
            let j = choose|j: int| 0 <= j < self.generated_chunks@.len() && self.generated_chunks@[j] == c;
        }
        true
    }

    /// Marks every chunk within `FOLIAGE_DISTANCE` of the player's chunk as having foliage and,
    /// when the player has moved to another chunk, forgets the chunks farther than one more.
    /// Returns the chunks newly marked, row by row, and whether any chunk was forgotten; the
    /// caller grows foliage in the first and clears the far foliage on the second.
    pub fn update_chunks(&mut self, player_cx: i32, player_cz: i32) -> (r: (Vec<(i32, i32)>, bool))
        requires
            old(self).wf(),
            area_fits(player_cx as int),
            area_fits(player_cz as int),
            (player_cx, player_cz) != old(self).last_chunk() ==> old(self).near(player_cx as int, player_cz as int),
        ensures
            final(self).wf(),
            r.0@ == chunks_around(player_cx as int, player_cz as int).filter(not_in(old(self).generated())),
            ({
                let grown = old(self).generated() + chunks_around(player_cx as int, player_cz as int).to_set();
                if (player_cx, player_cz) != old(self).last_chunk() {
                    &&& final(self).generated() == grown.filter(
                        |c: (i32, i32)| within(c, player_cx as int, player_cz as int, FOLIAGE_DISTANCE + 1),
                    )
                    &&& r.1 == exists|c: (i32, i32)| #[trigger] grown.contains(c) && !within(
                        c,
                        player_cx as int,
                        player_cz as int,
                        FOLIAGE_DISTANCE + 1,
                    )
                    &&& final(self).last_chunk() == (player_cx, player_cz)
                } else {
                    &&& final(self).generated() == grown
                    &&& !r.1
                    &&& final(self).last_chunk() == old(self).last_chunk()
                }
            }),
            forall|c: (i32, i32)| within(c, player_cx as int, player_cz as int, FOLIAGE_DISTANCE as int)
                ==> #[trigger] final(self).generated().contains(c),
    {
        let ghost px = player_cx as int;
        let ghost pz = player_cz as int;
        let ghost old_list = self.generated_chunks@;
        let ghost old_set = self.generated();
        let ghost around = chunks_around(px, pz);
        proof {
            lemma_chunks_around_distinct(px, pz);
        }
        let mut added: Vec<(i32, i32)> = Vec::new();
        let mut k: usize = 0;
        while k < 289
            invariant
                0 <= k <= 289,
                px == player_cx,
                pz == player_cz,
                area_fits(px),
                area_fits(pz),
                around == chunks_around(px, pz),
                around.no_duplicates(),
                old_set == old_list.to_set(),
                self.generated_chunks@ == old_list + added@,
                self.generated_chunks@.no_duplicates(),
                added@ == around.take(k as int).filter(not_in(old_set)),
                self.last_player_chunk == old(self).last_player_chunk,
            decreases 289 - k,
        {
            let dx: i32 = (k % 17) as i32 - 8;
            let dz: i32 = (k / 17) as i32 - 8;
            proof {
                lemma_chunks_around_index(px, pz, k as int);
            }
            let c = (player_cx + dx, player_cz + dz);
            assert(c == around[k as int]);
            let ghost before = added@;
            let fresh = !self.is_generated(c.0, c.1);
            proof {
                broadcast use vstd::seq_lib::group_seq_properties;
                assert(around.take(k + 1) =~= around.take(k as int).push(c));
                around.take(k as int).lemma_filter_push(c, not_in(old_set));
                if before.contains(c) {
                    around.take(k as int).lemma_filter_contains_rev(not_in(old_set), c);
                    let j = choose|j: int| 0 <= j < k && #[trigger] around.take(k as int)[j] == c;
                    assert(around[j] == around[k as int]);
                }
                assert(self.generated().contains(c) == (old_list + before).contains(c));
                assert((old_list + before).contains(c) <==> (old_list.contains(c) || before.contains(c)));
                assert(old_list.contains(c) <==> old_set.contains(c));
            }
            if fresh {
                proof {
                    lemma_push_fresh(self.generated_chunks@, c);
                }
                self.generated_chunks.push(c);
                added.push(c);
                assert(self.generated_chunks@ =~= old_list + added@);
            }
            k = k + 1;
        }
        let ghost grown = old_set + around.to_set();
        proof {
            broadcast use vstd::seq_lib::group_seq_properties;
            assert(around.take(289) =~= around);
            assert forall|x: (i32, i32)| #[trigger] self.generated().contains(x) <==> grown.contains(x) by {
                assert((old_list + added@).contains(x) <==> (old_list.contains(x) || added@.contains(x)));
                if added@.contains(x) {
                    around.lemma_filter_contains_rev(not_in(old_set), x);
                }
                if around.contains(x) && !old_set.contains(x) {
                    let j = choose|j: int| 0 <= j < around.len() && around[j] == x;
                    around.lemma_filter_contains(not_in(old_set), j);
                }
            }
            assert(self.generated() =~= grown);
            assert forall|c: (i32, i32)| within(c, px, pz, FOLIAGE_DISTANCE as int) implies #[trigger] grown.contains(c) by {
                lemma_chunks_around_covers(px, pz, c);
            }
        }
        let mut removed = false;
        if player_cx != self.last_player_chunk.0 || player_cz != self.last_player_chunk.1 {
            let old_count = self.generated_chunks.len();
            proof {
                assert forall|c: (i32, i32)| #[trigger] self.generated().contains(c) implies within(
                    c,
                    px,
                    pz,
                    i32::MAX as int,
                ) by {
                    if !old_set.contains(c) {
                        let j = choose|j: int| 0 <= j < around.len() && around[j] == c;
                        lemma_chunks_around_index(px, pz, j);
                    }
                }
            }
            self.cleanup(player_cx, player_cz, FOLIAGE_DISTANCE + 1);
            removed = self.generated_chunks.len() < old_count;
            self.last_player_chunk = (player_cx, player_cz);
        }
        (added, removed)
    }

    /// Forgets the chunks farther than `max_distance` chunks from `(center_x, center_z)`.
    fn cleanup(&mut self, center_x: i32, center_z: i32, max_distance: i32)
        requires
            old(self).wf(),
            old(self).near(center_x as int, center_z as int),
            max_distance >= 0,
        ensures
            final(self).wf(),
            final(self).generated() == old(self).generated().filter(
                |c: (i32, i32)| within(c, center_x as int, center_z as int, max_distance as int),
            ),
            final(self).last_chunk() == old(self).last_chunk(),
            final(self).generated_chunks@.len() < old(self).generated_chunks@.len() <==> exists|c: (i32, i32)|
                #[trigger] old(self).generated().contains(c) && !within(c, center_x as int, center_z as int, max_distance as int),
    {
        let ghost old_list = self.generated_chunks@;
        let ghost cx = center_x as int;
        let ghost cz = center_z as int;
        let ghost d = max_distance as int;
        assert forall|c: (i32, i32)| #[trigger] old_list.to_set().contains(c) implies within(c, cx, cz, i32::MAX as int) by {
            assert(old(self).generated().contains(c));
        }
        let mut kept: Vec<(i32, i32)> = Vec::new();
        let mut i: usize = 0;
        while i < self.generated_chunks.len()
            invariant
                old_list == self.generated_chunks@,
                old_list.no_duplicates(),
                forall|c: (i32, i32)| #[trigger] old_list.to_set().contains(c) ==> within(c, cx, cz, i32::MAX as int),
                cx == center_x,
                cz == center_z,
                d == max_distance,
                0 <= i <= old_list.len(),
                kept@.no_duplicates(),
                forall|c: (i32, i32)| #[trigger] kept@.contains(c) <==> (old_list.take(i as int).contains(c) && within(c, cx, cz, d)),
                kept@.len() <= i,
                kept@.len() == i <==> forall|j: int| 0 <= j < i ==> within(#[trigger] old_list[j], cx, cz, d),
            decreases old_list.len() - i,
        {
            let c = self.generated_chunks[i];
            proof {
                broadcast use vstd::seq_lib::group_seq_properties;
                assert(old_list.to_set().contains(c));
                assert(old_list.take(i + 1) =~= old_list.take(i as int).push(c));
                if old_list.take(i as int).contains(c) {
                    let j = choose|j: int| 0 <= j < i && #[trigger] old_list.take(i as int)[j] == c;
                    assert(old_list[j] == old_list[i as int]);
                }
            }
            let dx = c.0 - center_x;
            let dz = c.1 - center_z;
            let adx = if dx < 0 { -dx } else { dx };
            let adz = if dz < 0 { -dz } else { dz };
            let ghost before = kept@;
            if adx <= max_distance && adz <= max_distance {
                kept.push(c);
                proof {
                    broadcast use vstd::seq_lib::group_seq_properties;
                    assert(!before.contains(c));
                    assert(kept@ == before.push(c));
                    assert forall|a: int, b: int|
                        0 <= a < kept@.len() && 0 <= b < kept@.len() && a != b implies kept@[a] != kept@[b] by {
                        if a == before.len() {
                            assert(before[b] == kept@[b]);
                        } else if b == before.len() {
                            assert(before[a] == kept@[a]);
                        } else {
                            assert(before[a] == kept@[a] && before[b] == kept@[b]);
                        }
                    }
                    assert forall|x: (i32, i32)| #[trigger] kept@.contains(x) <==> (old_list.take(i + 1).contains(x)
                        && within(x, cx, cz, d)) by {
                        assert(kept@.contains(x) <==> (before.contains(x) || x == c));
                        assert(old_list.take(i + 1).contains(x) <==> (old_list.take(i as int).contains(x) || x == c));
                    }
                }
            } else {
                proof {
                    broadcast use vstd::seq_lib::group_seq_properties;
                    assert forall|x: (i32, i32)| #[trigger] kept@.contains(x) <==> (old_list.take(i + 1).contains(x)
                        && within(x, cx, cz, d)) by {
                        assert(old_list.take(i + 1).contains(x) <==> (old_list.take(i as int).contains(x) || x == c));
                    }
                    assert(!within(old_list[i as int], cx, cz, d));
                }
            }
            i = i + 1;
        }
        proof {
            broadcast use vstd::seq_lib::group_seq_properties;
            assert(old_list.take(old_list.len() as int) =~= old_list);
            assert(kept@.to_set() =~= old_list.to_set().filter(
                |c: (i32, i32)| within(c, cx, cz, d),
            ));
            if kept@.len() < old_list.len() {
                let j = choose|j: int| 0 <= j < old_list.len() && !within(#[trigger] old_list[j], cx, cz, d);
                assert(old(self).generated().contains(old_list[j]));
            } else {
                assert forall|c: (i32, i32)| #[trigger] old(self).generated().contains(c) implies within(c, cx, cz, d) by {
                    assert(old_list.to_set().contains(c));
                    let j = choose|j: int| 0 <= j < old_list.len() && old_list[j] == c;
                }
            }
        }
        self.generated_chunks = kept;
    }
}



/// The block of a crown cell that gets leaves; a skipped corner gets none.
pub open spec fn foliage_block(c: (int, int, int, bool)) -> Option<(i32, i32, i32)> {
    if c.3 {
        None
    } else {
        Some((c.0 as i32, c.1 as i32, c.2 as i32))
    }
}

/// `foliage_block` as a value.
pub open spec fn foliage_block_fn() -> spec_fn((int, int, int, bool)) -> Option<(i32, i32, i32)> {
    |c: (int, int, int, bool)| foliage_block(c)
}

/// The blocks that get leaves among `cells`, in order.
pub open spec fn foliage_blocks(cells: Seq<(int, int, int, bool)>) -> Seq<(i32, i32, i32)> {
    cells.filter_map(foliage_block_fn())
}

/// The coordinates an oak or birch crown of a tree at `(x, base_y, z)` with a trunk of `height` reaches fit in `i32`.
pub open spec fn basic_foliage_fits(x: int, base_y: int, z: int, height: int) -> bool {
    &&& i32::MIN <= base_y + height - 3
    &&& base_y + height + 1 <= i32::MAX
    &&& i32::MIN <= x - 2 && x + 2 <= i32::MAX
    &&& i32::MIN <= z - 2 && z + 2 <= i32::MAX
}

/// The coordinates a spruce crown of a tree at `(x, base_y, z)` with a trunk of `height` reaches fit in `i32`.
pub open spec fn spruce_foliage_fits(x: int, base_y: int, z: int, height: int) -> bool {
    &&& i32::MIN <= base_y + height
    &&& base_y + height + 1 <= i32::MAX
    &&& base_y + 2 <= i32::MAX
    &&& i32::MIN <= x - 1 && x + 1 <= i32::MAX
    &&& i32::MIN <= z - 1 && z + 1 <= i32::MAX
}

/// Appends the blocks of the `(2r+1) x (2r+1)` square around `(cx, cz)` at height `y`, row by
/// row; when `rounded`, the four corners are left out.
fn push_square(out: &mut Vec<(i32, i32, i32)>, cx: i32, y: i32, cz: i32, radius: i32, rounded: bool)
    requires
        radius == 1 || radius == 2,
        i32::MIN <= cx - radius,
        cx + radius <= i32::MAX,
        i32::MIN <= cz - radius,
        cz + radius <= i32::MAX,
    ensures
        final(out)@ == old(out)@ + foliage_blocks(square_cells(cx as int, y as int, cz as int, radius as int, rounded)),
{
    let ghost start = out@;
    let ghost cells = square_cells(cx as int, y as int, cz as int, radius as int, rounded);
    let side: i32 = 2 * radius + 1;
    proof {
        assert(cells.take(0) =~= Seq::<(int, int, int, bool)>::empty());
        assert(foliage_blocks(Seq::<(int, int, int, bool)>::empty()) =~= Seq::<(i32, i32, i32)>::empty());
        assert(start + Seq::<(i32, i32, i32)>::empty() =~= start);
    }
    let mut x: i32 = -radius;
    while x <= radius
        invariant
            radius == 1 || radius == 2,
            side == 2 * radius + 1,
            -radius <= x <= radius + 1,
            i32::MIN <= cx - radius,
            cx + radius <= i32::MAX,
            i32::MIN <= cz - radius,
            cz + radius <= i32::MAX,
            cells == square_cells(cx as int, y as int, cz as int, radius as int, rounded),
            out@ == start + foliage_blocks(cells.take((x + radius) * side)),
        decreases radius + 1 - x,
    {
        let mut z: i32 = -radius;
        proof {
            assert((x + radius) * side + (z + radius) == (x + radius) * side);
        }
        while z <= radius
            invariant
                radius == 1 || radius == 2,
                side == 2 * radius + 1,
                -radius <= x <= radius,
                -radius <= z <= radius + 1,
                i32::MIN <= cx - radius,
                cx + radius <= i32::MAX,
                i32::MIN <= cz - radius,
                cz + radius <= i32::MAX,
                cells == square_cells(cx as int, y as int, cz as int, radius as int, rounded),
                out@ == start + foliage_blocks(cells.take((x + radius) * side + (z + radius))),
            decreases radius + 1 - z,
        {
            let ghost n = (x + radius) * side + (z + radius);
            proof {
                lemma_fundamental_div_mod_converse(n, side as int, (x + radius) as int, (z + radius) as int);
                assert(0 <= n < side * side) by (nonlinear_arith)
                    requires
                        n == (x + radius) * side + (z + radius),
                        0 <= x + radius < side,
                        0 <= z + radius < side,
                ;
                assert(cells.take(n + 1) =~= cells.take(n).push(cells[n]));
                lemma_filter_map_push(cells.take(n), cells[n], foliage_block_fn());
            }
            let ax: i32 = if x < 0 { -x } else { x };
            let az: i32 = if z < 0 { -z } else { z };
            if !(rounded && ax == radius && az == radius) {
                out.push((cx + x, y, cz + z));
                proof {
                    assert(out@ =~= start + foliage_blocks(cells.take(n + 1)));
                }
            } else {
                proof {
                    assert(foliage_blocks(cells.take(n)) + Seq::<(i32, i32, i32)>::empty() =~= foliage_blocks(
                        cells.take(n),
                    ));
                }
            }
            z = z + 1;
        }
        proof {
            assert((x + radius) * side + (radius + 1 + radius) == (x + 1 + radius) * side)
                by (nonlinear_arith)
                requires
                    side == 2 * radius + 1,
            ;
        }
        x = x + 1;
    }
    proof {
        assert((radius + 1 + radius) * side == cells.len()) by (nonlinear_arith)
            requires
                side == 2 * radius + 1,
                cells.len() == (2 * radius + 1) * (2 * radius + 1),
        ;
        assert(cells.take(cells.len() as int) =~= cells);
    }
}

/// Appends the four horizontal neighbours of `(cx, y, cz)`: +x, -x, +z, -z.
fn push_cross(out: &mut Vec<(i32, i32, i32)>, cx: i32, y: i32, cz: i32)
    requires
        i32::MIN <= cx - 1,
        cx + 1 <= i32::MAX,
        i32::MIN <= cz - 1,
        cz + 1 <= i32::MAX,
    ensures
        final(out)@ == old(out)@ + foliage_blocks(cross_cells(cx as int, y as int, cz as int)),
{
    let ghost start = out@;
    let ghost cells = cross_cells(cx as int, y as int, cz as int);
    out.push((cx + 1, y, cz));
    out.push((cx - 1, y, cz));
    out.push((cx, y, cz + 1));
    out.push((cx, y, cz - 1));
    proof {
        let e = Seq::<(int, int, int, bool)>::empty();
        let f = foliage_block_fn();
        lemma_filter_map_push(e, cells[0], f);
        lemma_filter_map_push(e.push(cells[0]), cells[1], f);
        lemma_filter_map_push(e.push(cells[0]).push(cells[1]), cells[2], f);
        lemma_filter_map_push(e.push(cells[0]).push(cells[1]).push(cells[2]), cells[3], f);
        assert(e.push(cells[0]).push(cells[1]).push(cells[2]).push(cells[3]) =~= cells);
        assert(e.filter_map(f) =~= Seq::<(i32, i32, i32)>::empty());
        assert(out@ =~= start + foliage_blocks(cells));
    }
}

/// The leaf blocks of an oak or birch crown over a trunk of `height` standing on
/// `(tree_x, base_y, tree_z)`, in the order they are visited: five layers from three below the
/// trunk top up to one above it, 5 x 5 without corners below the top and 3 x 3 from it up.
pub fn basic_foliage_blocks(tree_x: i32, base_y: i32, tree_z: i32, height: i32) -> (r: Vec<(i32, i32, i32)>)
    requires
        basic_foliage_fits(tree_x as int, base_y as int, tree_z as int, height as int),
    ensures
        r@ == foliage_blocks(basic_crown(tree_x as int, base_y + height, tree_z as int)),
{
    let top = base_y + height;
    let mut out: Vec<(i32, i32, i32)> = Vec::new();
    proof {
        assert(basic_crown_layers(tree_x as int, top as int, tree_z as int, 0) =~= Seq::<(int, int, int, bool)>::empty());
        assert(foliage_blocks(Seq::<(int, int, int, bool)>::empty()) =~= Seq::<(i32, i32, i32)>::empty());
    }
    let mut k: i32 = 0;
    while k < 5
        invariant
            0 <= k <= 5,
            top == base_y + height,
            basic_foliage_fits(tree_x as int, base_y as int, tree_z as int, height as int),
            out@ == foliage_blocks(basic_crown_layers(tree_x as int, top as int, tree_z as int, k as nat)),
        decreases 5 - k,
    {
        let y = top - 3 + k;
        let y_offset = y - top;
        let radius: i32 = if y_offset >= 0 { 1 } else { 2 };
        let ghost before = out@;
        push_square(&mut out, tree_x, y, tree_z, radius, y_offset < 0);
        proof {
            let layers = basic_crown_layers(tree_x as int, top as int, tree_z as int, k as nat);
            let layer = basic_crown_layer(tree_x as int, top as int, tree_z as int, k as int);
            lemma_filter_map_add(layers, layer, foliage_block_fn());
            assert(basic_crown_layers(tree_x as int, top as int, tree_z as int, (k + 1) as nat) == layers + layer);
        }
        k = k + 1;
    }
    out
}

/// The leaf blocks of a spruce crown over a trunk of `height` standing on
/// `(tree_x, base_y, tree_z)`, in the order they are visited: the two blocks of the tip, then
/// the layers going down to two blocks above the base, a full 3 x 3 square on every other layer
/// and the four neighbours of the trunk on the rest.
pub fn spruce_foliage_blocks(tree_x: i32, base_y: i32, tree_z: i32, height: i32) -> (r: Vec<(i32, i32, i32)>)
    requires
        spruce_foliage_fits(tree_x as int, base_y as int, tree_z as int, height as int),
    ensures
        r@ == foliage_blocks(spruce_crown(tree_x as int, base_y as int, tree_z as int, height as int)),
{
    let top_y = base_y + height;
    let ghost n: int = if top_y - base_y - 2 > 0 { top_y - base_y - 2 } else { 0 };
    let ghost tip = seq![(tree_x as int, top_y as int, tree_z as int, false), (tree_x as int, top_y + 1, tree_z as int, false)];
    let mut out: Vec<(i32, i32, i32)> = Vec::new();
    out.push((tree_x, top_y, tree_z));
    out.push((tree_x, top_y + 1, tree_z));
    proof {
        let e = Seq::<(int, int, int, bool)>::empty();
        let f = foliage_block_fn();
        lemma_filter_map_push(e, tip[0], f);
        lemma_filter_map_push(e.push(tip[0]), tip[1], f);
        assert(e.push(tip[0]).push(tip[1]) =~= tip);
        assert(e.filter_map(f) =~= Seq::<(i32, i32, i32)>::empty());
        assert(spruce_layers(tree_x as int, top_y as int, tree_z as int, 0) =~= Seq::<(int, int, int, bool)>::empty());
        assert(tip + spruce_layers(tree_x as int, top_y as int, tree_z as int, 0) =~= tip);
        assert(out@ =~= foliage_blocks(tip));
    }
    let lower = base_y + 2;
    let mut y = top_y;
    while y > lower
        invariant
            top_y == base_y + height,
            lower == base_y + 2,
            lower <= y <= top_y || y == top_y,
            n == if top_y - base_y - 2 > 0 { top_y - base_y - 2 } else { 0 },
            tip == seq![(tree_x as int, top_y as int, tree_z as int, false), (tree_x as int, top_y + 1, tree_z as int, false)],
            spruce_foliage_fits(tree_x as int, base_y as int, tree_z as int, height as int),
            out@ == foliage_blocks(tip + spruce_layers(tree_x as int, top_y as int, tree_z as int, (top_y - y) as nat)),
        decreases y - lower,
    {
        y = y - 1;
        let layer = (top_y - y) % 4;
        let radius = if layer == 1 || layer == 3 { 2i32 } else { 1i32 };
        let ghost t: int = top_y - y;
        let ghost before = tip + spruce_layers(tree_x as int, top_y as int, tree_z as int, (t - 1) as nat);
        let ghost cells = spruce_layer(tree_x as int, top_y as int, tree_z as int, t);
        if radius == 1 {
            push_cross(&mut out, tree_x, y, tree_z);
        } else {
            push_square(&mut out, tree_x, y, tree_z, 1, false);
        }
        proof {
            assert(radius == 2 ==> cells == square_cells(tree_x as int, y as int, tree_z as int, 1, false));
            assert(radius == 1 ==> cells == cross_cells(tree_x as int, y as int, tree_z as int));
            lemma_filter_map_add(before, cells, foliage_block_fn());
            assert(tip + spruce_layers(tree_x as int, top_y as int, tree_z as int, t as nat) =~= before + cells);
        }
    }
    proof {
        assert((top_y - y) as nat == n as nat);
    }
    out
}

/// Whether a tree of biome `biome_id` grows a spruce crown.
pub open spec fn has_spruce_crown(biome_id: BiomeId) -> bool {
    biome_id == BIOME_TAIGA || biome_id == BIOME_TUNDRA
}

/// The leaf blocks of a tree of biome `biome_id` over a trunk of `height` standing on
/// `(tree_x, base_y, tree_z)`: a spruce crown in taiga and tundra, an oak or birch crown elsewhere.
pub fn tree_foliage_blocks(tree_x: i32, base_y: i32, tree_z: i32, height: i32, biome_id: BiomeId) -> (r: Vec<(i32, i32, i32)>)
    requires
        has_spruce_crown(biome_id) ==> spruce_foliage_fits(tree_x as int, base_y as int, tree_z as int, height as int),
        !has_spruce_crown(biome_id) ==> basic_foliage_fits(tree_x as int, base_y as int, tree_z as int, height as int),
    ensures
        has_spruce_crown(biome_id) ==> r@ == foliage_blocks(spruce_crown(tree_x as int, base_y as int, tree_z as int, height as int)),
        !has_spruce_crown(biome_id) ==> r@ == foliage_blocks(basic_crown(tree_x as int, base_y + height, tree_z as int)),
{
    if biome_id == BIOME_TAIGA || biome_id == BIOME_TUNDRA {
        spruce_foliage_blocks(tree_x, base_y, tree_z, height)
    } else {
        basic_foliage_blocks(tree_x, base_y, tree_z, height)
    }
}

/// The leaves a tree of biome `biome_id` gets, where `roll` is its random number scaled by 100:
/// spruce leaves in taiga and tundra; in forest birch leaves for one roll in five and oak leaves
/// otherwise; oak leaves everywhere else.
pub fn foliage_leaf_type(biome_id: BiomeId, roll: i32) -> (r: BlockType)
    ensures
        r == foliage_leaf_spec(biome_id, roll),
{
    if biome_id == BIOME_TAIGA || biome_id == BIOME_TUNDRA {
        SPRUCE_LEAVES
    } else if biome_id == BIOME_FOREST {
        if roll % 5 == 0 {
            BIRCH_LEAVES
        } else {
            OAK_LEAVES
        }
    } else {
        OAK_LEAVES
    }
}

/// The leaves a tree of biome `biome_id` gets for random number `roll` (see `foliage_leaf_type`).
pub open spec fn foliage_leaf_spec(biome_id: BiomeId, roll: i32) -> BlockType {
    if has_spruce_crown(biome_id) {
        SPRUCE_LEAVES
    } else if biome_id == BIOME_FOREST && roll % 5 == 0 {
        BIRCH_LEAVES
    } else {
        OAK_LEAVES
    }
}

/// Law: taiga (4) and tundra (5) trees are spruces with spruce leaves (38) whatever the roll;
/// forest (3) trees get birch leaves (35) on rolls divisible by five and oak leaves (32) on the
/// others; the trees of every other biome are oaks with oak leaves.
pub proof fn lemma_foliage_kinds(biome_id: BiomeId, roll: i32)
    ensures
        has_spruce_crown(biome_id) <==> (biome_id == 4 || biome_id == 5),
        (biome_id == 4 || biome_id == 5) ==> foliage_leaf_spec(biome_id, roll) == 38,
        biome_id == 3 && roll % 5 == 0 ==> foliage_leaf_spec(biome_id, roll) == 35,
        biome_id == 3 && roll % 5 != 0 ==> foliage_leaf_spec(biome_id, roll) == 32,
        !(biome_id == 3 || biome_id == 4 || biome_id == 5) ==> foliage_leaf_spec(biome_id, roll) == 32,
{
}

/// The trunk height of a tree whose random number scaled by 1000 is `roll`: five plus the
/// remainder of `roll` by three, which takes the sign of `roll`.
pub fn foliage_tree_height(roll: i32) -> (r: i32)
    ensures
        r == 5 + if roll >= 0 { (roll as int) % 3 } else { -((-(roll as int)) % 3) },
{
    if roll >= 0 {
        5 + roll % 3
    } else {
        let m: i64 = (-(roll as i64)) % 3;
        5 - m as i32
    }
}

/// The block coordinates of the edges of the chunks within `d` of chunk coordinate `c` fit in `i32`.
pub open spec fn area_edges_fit(c: int, d: int) -> bool {
    &&& i32::MIN <= (c - d) * CHUNK_SIZE <= i32::MAX
    &&& i32::MIN <= (c + d + 1) * CHUNK_SIZE <= i32::MAX
    &&& i32::MIN <= c + d
}

/// Whether block column `(x, z)` lies outside the chunks within `max_distance` of chunk
/// `(center_x, center_z)`.
pub fn outside_foliage_area(x: i32, z: i32, center_x: i32, center_z: i32, max_distance: i32) -> (r: bool)
    requires
        area_edges_fit(center_x as int, max_distance as int),
        area_edges_fit(center_z as int, max_distance as int),
    ensures
        r == (x < (center_x - max_distance) * CHUNK_SIZE || x >= (center_x + max_distance + 1) * CHUNK_SIZE
            || z < (center_z - max_distance) * CHUNK_SIZE || z >= (center_z + max_distance + 1) * CHUNK_SIZE),
{
    let min_x = (center_x - max_distance) * CHUNK_SIZE;
    let max_x = (center_x + max_distance + 1) * CHUNK_SIZE;
    let min_z = (center_z - max_distance) * CHUNK_SIZE;
    let max_z = (center_z + max_distance + 1) * CHUNK_SIZE;
    x < min_x || x >= max_x || z < min_z || z >= max_z
}

impl Default for FoliageCache {
    /// An empty cache; the player is taken to be in chunk `(0, 0)`.
    fn default() -> (r: Self)
        ensures
            r.wf(),
            r.generated() == Set::<(i32, i32)>::empty(),
            r.last_chunk() == (0i32, 0i32),
    {
        Self::new()
    }
}

} // verus!
