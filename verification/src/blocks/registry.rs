use vstd::prelude::*;
use vstd::hash_map::StringHashMap;
use std::collections::HashMap;
use crate::blocks::definition::{BlockCategory, BlockDefinition, BlocksFile, ColorDef, BlockSounds, ONE_BITS};

verus! {

broadcast use vstd::std_specs::hash::group_hash_axioms;

/// What a registry answers: blocks by text id, blocks by numeric id, text id to numeric id, and
/// numeric id to text id.
pub type RegistryView = (
    Map<Seq<char>, BlockDefinition>,
    Map<u8, BlockDefinition>,
    Map<Seq<char>, u8>,
    Map<u8, Seq<char>>,
);

/// The registry's answers after registering `b`: each of the four lookups now gives `b` (or
/// its ids) for `b`'s ids, the rest unchanged.
pub open spec fn view_with(v: RegistryView, b: BlockDefinition) -> RegistryView {
    (
        v.0.insert(b.id@, b),
        v.1.insert(b.numeric_id, b),
        v.2.insert(b.id@, b.numeric_id),
        v.3.insert(b.numeric_id, b.id@),
    )
}

/// The registry's answers after registering `blocks` in order.
pub open spec fn view_with_all(v: RegistryView, blocks: Seq<BlockDefinition>) -> RegistryView
    decreases blocks.len(),
{
    if blocks.len() == 0 {
        v
    } else {
        view_with(view_with_all(v, blocks.drop_last()), blocks.last())
    }
}

/// Law: after registering `b`, looking it up by its text id or by its numeric id gives `b` and
/// the id lookups give its ids; registering the same definition twice is the same as once.
pub proof fn lemma_register_then_lookup(v: RegistryView, b: BlockDefinition)
    ensures
        view_with(v, b).0.contains_key(b.id@) && view_with(v, b).0[b.id@] == b,
        view_with(v, b).1.contains_key(b.numeric_id) && view_with(v, b).1[b.numeric_id] == b,
        view_with(v, b).2.contains_key(b.id@) && view_with(v, b).2[b.id@] == b.numeric_id,
        view_with(v, b).3.contains_key(b.numeric_id) && view_with(v, b).3[b.numeric_id] == b.id@,
        view_with(view_with(v, b), b) == view_with(v, b),
{
    let w = view_with(v, b);
    assert(view_with(w, b).0 =~= w.0);
    assert(view_with(w, b).1 =~= w.1);
    assert(view_with(w, b).2 =~= w.2);
    assert(view_with(w, b).3 =~= w.3);
}

/// Whether a definition belongs to `category`.
pub open spec fn in_category(category: BlockCategory) -> spec_fn(BlockDefinition) -> bool {
    |d: BlockDefinition| d.category == category
}

/// The registry of block definitions, filled from block files.
///
/// Every registered definition is kept in `defs`, in registration order; the lookups hold
/// positions in `defs`, so each lookup gives the last definition registered under its key.
pub struct BlockRegistry {
    defs: Vec<BlockDefinition>,
    blocks_by_id: StringHashMap<usize>,
    blocks_by_numeric: HashMap<u8, usize>,
    id_to_numeric: StringHashMap<u8>,
    numeric_to_id: HashMap<u8, String>,
    /// The distinct text ids, in the order they were first registered.
    ids: Vec<String>,
}

impl View for BlockRegistry {
    type V = RegistryView;

    closed spec fn view(&self) -> RegistryView {
        (
            self.blocks_by_id@.map_values(|i: usize| self.defs@[i as int]),
            self.blocks_by_numeric@.map_values(|i: usize| self.defs@[i as int]),
            self.id_to_numeric@,
            self.numeric_to_id@.map_values(|s: String| s@),
        )
    }
}

impl BlockRegistry {
    /// The text ids, in the order they were first registered.
    pub closed spec fn id_order(&self) -> Seq<Seq<char>> {
        self.ids@.map_values(|s: String| s@)
    }

    /// The lookups agree with one another and with the kept definitions.
    pub closed spec fn wf(&self) -> bool {
        &&& forall|k: Seq<char>| #[trigger]
            self.blocks_by_id@.contains_key(k) ==> self.blocks_by_id@[k] < self.defs@.len()
                && self.defs@[self.blocks_by_id@[k] as int].id@ == k
        &&& forall|n: u8| #[trigger]
            self.blocks_by_numeric@.contains_key(n) ==> self.blocks_by_numeric@[n] < self.defs@.len()
                && self.defs@[self.blocks_by_numeric@[n] as int].numeric_id == n
        &&& forall|k: Seq<char>| #[trigger]
            self.id_to_numeric@.contains_key(k) <==> self.blocks_by_id@.contains_key(k)
        &&& forall|k: Seq<char>| #[trigger]
            self.id_to_numeric@.contains_key(k) ==> self.id_to_numeric@[k]
                == self.defs@[self.blocks_by_id@[k] as int].numeric_id
        &&& forall|n: u8| #[trigger]
            self.numeric_to_id@.contains_key(n) <==> self.blocks_by_numeric@.contains_key(n)
        &&& forall|n: u8| #[trigger]
            self.numeric_to_id@.contains_key(n) ==> self.numeric_to_id@[n]@
                == self.defs@[self.blocks_by_numeric@[n] as int].id@
        &&& forall|i: int, j: int|
            0 <= i < j < self.ids@.len() ==> #[trigger] self.ids@[i]@ != #[trigger] self.ids@[j]@
        &&& forall|i: int| 0 <= i < self.ids@.len() ==> self.blocks_by_id@.contains_key(#[trigger] self.ids@[i]@)
        &&& forall|k: Seq<char>| #[trigger]
            self.blocks_by_id@.contains_key(k) ==> exists|i: int|
                0 <= i < self.ids@.len() && #[trigger] self.ids@[i]@ == k
    }

    /// An empty registry.
    pub fn new() -> (r: Self)
        ensures
            r.wf(),
            r.id_order() == Seq::<Seq<char>>::empty(),
            r@.0 == Map::<Seq<char>, BlockDefinition>::empty(),
            r@.1 == Map::<u8, BlockDefinition>::empty(),
            r@.2 == Map::<Seq<char>, u8>::empty(),
            r@.3 == Map::<u8, Seq<char>>::empty(),
    {
        let r = BlockRegistry {
            defs: Vec::new(),
            blocks_by_id: StringHashMap::new(),
            blocks_by_numeric: HashMap::new(),
            id_to_numeric: StringHashMap::new(),
            numeric_to_id: HashMap::new(),
            ids: Vec::new(),
        };
        assert(r@.0 =~= Map::<Seq<char>, BlockDefinition>::empty());
        assert(r@.1 =~= Map::<u8, BlockDefinition>::empty());
        assert(r@.3 =~= Map::<u8, Seq<char>>::empty());
        assert(r.id_order() =~= Seq::<Seq<char>>::empty());
        r
    }

    /// The definitions of the distinct text ids, in the order the ids were first registered.
    pub open spec fn defs_in_order(&self) -> Seq<BlockDefinition> {
        self.id_order().map_values(|k: Seq<char>| self@.0[k])
    }

    /// What a well-formed registry promises: each id lookup gives a definition with that id and
    /// the numeric id that the id-to-numeric lookup gives; each numeric lookup gives a
    /// definition with that numeric id and the text id that the numeric-to-id lookup gives; the
    /// registration order lists every text id exactly once.
    pub proof fn lemma_consistent(&self)
        requires
            self.wf(),
        ensures
            forall|k: Seq<char>| #[trigger] self@.0.contains_key(k) ==> self@.0[k].id@ == k,
            forall|k: Seq<char>| #[trigger] self@.2.contains_key(k) <==> self@.0.contains_key(k),
            forall|k: Seq<char>| #[trigger] self@.2.contains_key(k) ==> self@.2[k] == self@.0[k].numeric_id,
            forall|n: u8| #[trigger] self@.1.contains_key(n) ==> self@.1[n].numeric_id == n,
            forall|n: u8| #[trigger] self@.3.contains_key(n) <==> self@.1.contains_key(n),
            forall|n: u8| #[trigger] self@.3.contains_key(n) ==> self@.3[n] == self@.1[n].id@,
            forall|i: int, j: int|
                0 <= i < j < self.id_order().len() ==> #[trigger] self.id_order()[i] != #[trigger] self.id_order()[j],
            forall|i: int| 0 <= i < self.id_order().len() ==> self@.0.contains_key(#[trigger] self.id_order()[i]),
            forall|k: Seq<char>| #[trigger]
                self@.0.contains_key(k) ==> exists|i: int|
                    0 <= i < self.id_order().len() && #[trigger] self.id_order()[i] == k,
    {
        assert forall|k: Seq<char>| #[trigger]
            self@.0.contains_key(k) implies exists|i: int|
                0 <= i < self.id_order().len() && #[trigger] self.id_order()[i] == k by {
            let i = choose|i: int| 0 <= i < self.ids@.len() && #[trigger] self.ids@[i]@ == k;
            assert(self.id_order()[i] == k);
        }
    }

    /// Registers a block definition under its text id and its numeric id; a definition
    /// registered before under either id is shadowed there.
    pub fn register(&mut self, block: BlockDefinition)
        requires
            old(self).wf(),
        ensures
            final(self).wf(),
            final(self)@ == view_with(old(self)@, block),
            final(self).id_order() == if old(self)@.0.contains_key(block.id@) {
                old(self).id_order()
            } else {
                old(self).id_order().push(block.id@)
            },
    {
        let id = block.id.clone();
        let numeric = block.numeric_id;
        let is_new = !self.blocks_by_id.contains_key(id.as_str());
        let idx = self.defs.len();
        let ghost old_defs = self.defs@;
        self.defs.push(block);
        self.id_to_numeric.insert(id.clone(), numeric);
        self.numeric_to_id.insert(numeric, id.clone());
        self.blocks_by_numeric.insert(numeric, idx);
        if is_new {
            self.ids.push(id.clone());
        }
        self.blocks_by_id.insert(id, idx);
        proof {
            let v = view_with(old(self)@, block);
            assert(forall|i: int| 0 <= i < old_defs.len() ==> self.defs@[i] == old_defs[i]);
            assert(self@.0 =~= v.0);
            assert(self@.1 =~= v.1);
            assert(self@.2 =~= v.2);
            assert(self@.3 =~= v.3);
            if is_new {
                assert(self.id_order() =~= old(self).id_order().push(block.id@));
                assert forall|k: Seq<char>| #[trigger]
                    self.blocks_by_id@.contains_key(k) implies exists|i: int|
                        0 <= i < self.ids@.len() && #[trigger] self.ids@[i]@ == k by {
                    if k == block.id@ {
                        assert(self.ids@[self.ids@.len() - 1]@ == k);
                    } else {
                        let i = choose|i: int|
                            0 <= i < old(self).ids@.len() && #[trigger] old(self).ids@[i]@ == k;
                        assert(self.ids@[i]@ == k);
                    }
                }
            } else {
                assert(self.id_order() =~= old(self).id_order());
            }
        }
    }

    /// Registers every block of a block file, in order, and returns how many there were.
    pub fn load_blocks_file(&mut self, file: BlocksFile) -> (r: usize)
        requires
            old(self).wf(),
        ensures
            final(self).wf(),
            final(self)@ == view_with_all(old(self)@, file.blocks@),
            r == file.blocks@.len(),
    {
        let mut blocks = file.blocks;
        let count = blocks.len();
        let ghost all = blocks@;
        let mut done: usize = 0;
        while done < count
            invariant
                0 <= done <= count,
                count == all.len(),
                blocks@ == all.subrange(done as int, count as int),
                self.wf(),
                self@ == view_with_all(old(self)@, all.take(done as int)),
            decreases count - done,
        {
            let b = blocks.remove(0);
            proof {
                assert(all.take(done + 1).drop_last() =~= all.take(done as int));
                assert(all.take(done + 1).last() == b);
            }
            self.register(b);
            done = done + 1;
            proof {
                assert(blocks@ =~= all.subrange(done as int, count as int));
            }
        }
        proof {
            assert(all.take(count as int) =~= all);
        }
        count
    }

    /// The definition registered under text id `id`.
    pub fn get(&self, id: &str) -> (r: Option<&BlockDefinition>)
        requires
            self.wf(),
        ensures
            r is Some <==> self@.0.contains_key(id@),
            r matches Some(d) ==> *d == self@.0[id@],
    {
        match self.blocks_by_id.get(id) {
            Some(i) => Some(&self.defs[*i]),
            None => None,
        }
    }

    /// The definition registered under numeric id `id`.
    pub fn get_by_numeric(&self, id: u8) -> (r: Option<&BlockDefinition>)
        requires
            self.wf(),
        ensures
            r is Some <==> self@.1.contains_key(id),
            r matches Some(d) ==> *d == self@.1[id],
    {
        match self.blocks_by_numeric.get(&id) {
            Some(i) => Some(&self.defs[*i]),
            None => None,
        }
    }

    /// The numeric id registered for text id `id`.
    pub fn get_numeric_id(&self, id: &str) -> (r: Option<u8>)
        ensures
            r is Some <==> self@.2.contains_key(id@),
            r matches Some(n) ==> n == self@.2[id@],
    {
        match self.id_to_numeric.get(id) {
            Some(n) => Some(*n),
            None => None,
        }
    }

    /// The text id registered for numeric id `numeric`.
    pub fn get_string_id(&self, numeric: u8) -> (r: Option<&str>)
        ensures
            r is Some <==> self@.3.contains_key(numeric),
            r matches Some(s) ==> s@ == self@.3[numeric],
    {
        match self.numeric_to_id.get(&numeric) {
            Some(s) => Some(s.as_str()),
            None => None,
        }
    }

    /// Every registered block: the definition of each distinct text id, in the order the ids
    /// were first registered.
    pub fn all_blocks(&self) -> (r: Vec<&BlockDefinition>)
        requires
            self.wf(),
        ensures
            r@.map_values(|d: &BlockDefinition| *d) == self.defs_in_order(),
    {
        let mut out: Vec<&BlockDefinition> = Vec::new();
        let mut i: usize = 0;
        while i < self.ids.len()
            invariant
                self.wf(),
                0 <= i <= self.ids@.len(),
                out@.map_values(|d: &BlockDefinition| *d) == self.defs_in_order().take(i as int),
            decreases self.ids@.len() - i,
        {
            let k = &self.ids[i];
            let idx = *self.blocks_by_id.get(k.as_str()).unwrap();
            let ghost before = out@;
            out.push(&self.defs[idx]);
            proof {
                assert(self.blocks_by_id@.contains_key(self.ids@[i as int]@));
                assert(out@ =~= before.push(&self.defs@[idx as int]));
                assert(self.defs_in_order().take(i + 1) =~= self.defs_in_order().take(i as int).push(
                    self.defs_in_order()[i as int],
                ));
                assert(out@.map_values(|d: &BlockDefinition| *d) =~= before.map_values(
                    |d: &BlockDefinition| *d,
                ).push(self.defs@[idx as int]));
            }
            i = i + 1;
        }
        proof {
            assert(self.defs_in_order().take(self.ids@.len() as int) =~= self.defs_in_order());
        }
        out
    }

    /// The registered blocks of one category, in registration order of their ids.
    pub fn blocks_by_category(&self, category: BlockCategory) -> (r: Vec<&BlockDefinition>)
        requires
            self.wf(),
        ensures
            r@.map_values(|d: &BlockDefinition| *d) == self.defs_in_order().filter(in_category(category)),
    {
        let all = self.all_blocks();
        let ghost defs = self.defs_in_order();
        let mut out: Vec<&BlockDefinition> = Vec::new();
        let mut i: usize = 0;
        while i < all.len()
            invariant
                0 <= i <= all@.len(),
                all@.map_values(|d: &BlockDefinition| *d) == defs,
                out@.map_values(|d: &BlockDefinition| *d) == defs.take(i as int).filter(in_category(category)),
            decreases all@.len() - i,
        {
            let d = all[i];
            let ghost before = out@;
            proof {
                assert(defs.take(i + 1) =~= defs.take(i as int).push(defs[i as int]));
                defs.take(i as int).lemma_filter_push(defs[i as int], in_category(category));
                assert(defs[i as int] == *d);
            }
            if d.category == category {
                out.push(d);
                proof {
                    assert(in_category(category)(defs[i as int]));
                    assert(out@.map_values(|d: &BlockDefinition| *d) =~= before.map_values(
                        |d: &BlockDefinition| *d,
                    ).push(*d));
                }
            } else {
                proof {
                    assert(!in_category(category)(defs[i as int]));
                }
            }
            i = i + 1;
        }
        proof {
            assert(defs.take(all@.len() as int) =~= defs);
        }
        out
    }

    /// Number of distinct text ids registered.
    pub fn count(&self) -> (r: usize)
        ensures
            r == self@.0.len(),
    {
        proof {
            assert(self@.0.dom() =~= self.blocks_by_id@.dom());
        }
        self.blocks_by_id.len()
    }
}

/// The fields a fallback block keeps from the default definition: hardness one, no light, the
/// basic category, no textures, sounds or tags.
pub open spec fn default_rest(d: BlockDefinition) -> bool {
    &&& d.hardness_bits == ONE_BITS
    &&& !d.emissive
    &&& d.light_level == 0
    &&& d.category == BlockCategory::Basic
    &&& d.textures is None
    &&& d.sounds.place is None && d.sounds.break_sound is None && d.sounds.step is None
    &&& d.tags@.len() == 0
}

/// The blocks registered when the default block file cannot be loaded, in order: air (numeric 0,
/// black, see-through, not solid, unbreakable), stone (numeric 1, grey 0.5, 0.5, 0.52) and grass
/// (numeric 3, green top 0.36, 0.6, 0.28 over brown sides and bottom 0.55, 0.4, 0.26), colours as
/// `f32` bit patterns.
pub open spec fn fallback_blocks_ok(s: Seq<BlockDefinition>) -> bool {
    &&& s.len() == 3
    &&& s[0].id@ == "air"@ && s[0].numeric_id == 0 && s[0].name@ == "Air"@
    &&& s[0].color == ColorDef::Uniform([0, 0, 0])
    &&& s[0].transparent && !s[0].solid && !s[0].breakable && default_rest(s[0])
    &&& s[1].id@ == "stone"@ && s[1].numeric_id == 1 && s[1].name@ == "Stone"@
    &&& s[1].color == ColorDef::Uniform([0x3F00_0000, 0x3F00_0000, 0x3F05_1EB8])
    &&& !s[1].transparent && s[1].solid && s[1].breakable && default_rest(s[1])
    &&& s[2].id@ == "grass"@ && s[2].numeric_id == 3 && s[2].name@ == "Grass"@
    &&& s[2].color == ColorDef::PerFace {
        top: [0x3EB8_51EC, 0x3F19_999A, 0x3E8F_5C29],
        side: [0x3F0C_CCCD, 0x3ECC_CCCD, 0x3E85_1EB8],
        bottom: [0x3F0C_CCCD, 0x3ECC_CCCD, 0x3E85_1EB8],
    }
    &&& !s[2].transparent && s[2].solid && s[2].breakable && default_rest(s[2])
}

/// A default definition with the given ids, name and colour.
fn fallback_block(id: &str, numeric_id: u8, name: &str, color: ColorDef) -> (r: BlockDefinition)
    ensures
        r.id@ == id@,
        r.numeric_id == numeric_id,
        r.name@ == name@,
        r.color == color,
        !r.transparent && r.solid && r.breakable,
        default_rest(r),
{
    BlockDefinition {
        id: String::from_str(id),
        numeric_id,
        name: String::from_str(name),
        color,
        hardness_bits: ONE_BITS,
        transparent: false,
        emissive: false,
        light_level: 0,
        solid: true,
        breakable: true,
        category: BlockCategory::Basic,
        textures: None,
        sounds: BlockSounds { place: None, break_sound: None, step: None },
        tags: Vec::new(),
    }
}

/// Registers the fallback blocks (see `fallback_blocks_ok`) in order.
pub fn register_fallback_blocks(registry: &mut BlockRegistry)
    requires
        old(registry).wf(),
    ensures
        final(registry).wf(),
        exists|s: Seq<BlockDefinition>| #[trigger] fallback_blocks_ok(s) && final(registry)@ == view_with_all(old(registry)@, s),
{
    let mut air = fallback_block("air", 0, "Air", ColorDef::Uniform([0, 0, 0]));
    air.transparent = true;
    air.solid = false;
    air.breakable = false;
    let stone = fallback_block("stone", 1, "Stone", ColorDef::Uniform([0x3F00_0000, 0x3F00_0000, 0x3F05_1EB8]));
    let grass = fallback_block(
        "grass",
        3,
        "Grass",
        ColorDef::PerFace {
            top: [0x3EB8_51EC, 0x3F19_999A, 0x3E8F_5C29],
            side: [0x3F0C_CCCD, 0x3ECC_CCCD, 0x3E85_1EB8],
            bottom: [0x3F0C_CCCD, 0x3ECC_CCCD, 0x3E85_1EB8],
        },
    );
    let blocks = vec![air, stone, grass];
    let ghost s = blocks@;
    assert(fallback_blocks_ok(s));
    registry.load_blocks_file(BlocksFile { version: String::from_str("1.0"), blocks });
}

impl Default for BlockRegistry {
    /// An empty registry.
    fn default() -> (r: Self)
        ensures
            r.wf(),
            r.id_order() == Seq::<Seq<char>>::empty(),
            r@.0 == Map::<Seq<char>, BlockDefinition>::empty(),
            r@.1 == Map::<u8, BlockDefinition>::empty(),
            r@.2 == Map::<Seq<char>, u8>::empty(),
            r@.3 == Map::<u8, Seq<char>>::empty(),
    {
        Self::new()
    }
}

} // verus!
