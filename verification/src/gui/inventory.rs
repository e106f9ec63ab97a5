use vstd::prelude::*;
use crate::blocks::definition::BlockCategory as DataBlockCategory;
use crate::blocks::registry::BlockRegistry;
use crate::blocks::types::{
    BlockType, decimal, get_block_name, get_face_colors, spec_face_colors, face_colors, AIR, STONE, DIRT, GRASS, SAND, GRAVEL, COBBLESTONE,
    MOSSY_COBBLESTONE, GRANITE, DIORITE, ANDESITE, DEEPSLATE, COAL_ORE, IRON_ORE, GOLD_ORE,
    DIAMOND_ORE, EMERALD_ORE, REDSTONE_ORE, LAPIS_ORE, COPPER_ORE, OAK_LOG, OAK_PLANKS,
    OAK_LEAVES, BIRCH_LOG, BIRCH_PLANKS, BIRCH_LEAVES, SPRUCE_LOG, SPRUCE_PLANKS, SPRUCE_LEAVES,
    WATER, LAVA, ICE, SNOW, CLAY, BRICKS, STONE_BRICKS, OBSIDIAN, GLASS, IRON_BLOCK, GOLD_BLOCK,
    DIAMOND_BLOCK, EMERALD_BLOCK, COPPER_BLOCK, CUSTOM_100, CUSTOM_101, CUSTOM_102, CUSTOM_103,
    CUSTOM_104,
};

verus! {

/// Number of columns of the inventory grid.
pub const INVENTORY_COLS: usize = 8;

/// Inventory tab: one category of blocks, or all of them.
#[derive(Clone, Copy, Debug, PartialEq, Eq, Structural)]
pub enum BlockCategory {
    All,
    Basic,
    Stone,
    Ores,
    Wood,
    Nature,
    Building,
    Metal,
}

impl BlockCategory {
    /// Title of the tab.
    pub fn name(&self) -> (r: &'static str)
        ensures
            r@ == match *self {
                BlockCategory::All => "All Blocks"@,
                BlockCategory::Basic => "Basic"@,
                BlockCategory::Stone => "Stone"@,
                BlockCategory::Ores => "Ores"@,
                BlockCategory::Wood => "Wood"@,
                BlockCategory::Nature => "Nature"@,
                BlockCategory::Building => "Building"@,
                BlockCategory::Metal => "Metal"@,
            },
    {
        match self {
            BlockCategory::All => "All Blocks",
            BlockCategory::Basic => "Basic",
            BlockCategory::Stone => "Stone",
            BlockCategory::Ores => "Ores",
            BlockCategory::Wood => "Wood",
            BlockCategory::Nature => "Nature",
            BlockCategory::Building => "Building",
            BlockCategory::Metal => "Metal",
        }
    }
}

/// The inventory tab of a block file category.
pub open spec fn tab_of(c: DataBlockCategory) -> BlockCategory {
    match c {
        DataBlockCategory::Basic => BlockCategory::Basic,
        DataBlockCategory::Stone => BlockCategory::Stone,
        DataBlockCategory::Ore => BlockCategory::Ores,
        DataBlockCategory::Wood => BlockCategory::Wood,
        DataBlockCategory::Nature => BlockCategory::Nature,
        DataBlockCategory::Building => BlockCategory::Building,
        DataBlockCategory::Metal => BlockCategory::Metal,
    }
}

/// Law: every file category is shown under the tab of the same name (basic, stone, ores, wood,
/// nature, building, metal), never under "All Blocks", and no two categories share a tab.
pub proof fn lemma_tab_of_names(c: DataBlockCategory, d: DataBlockCategory)
    ensures
        tab_of(DataBlockCategory::Basic) == BlockCategory::Basic,
        tab_of(DataBlockCategory::Stone) == BlockCategory::Stone,
        tab_of(DataBlockCategory::Ore) == BlockCategory::Ores,
        tab_of(DataBlockCategory::Wood) == BlockCategory::Wood,
        tab_of(DataBlockCategory::Nature) == BlockCategory::Nature,
        tab_of(DataBlockCategory::Building) == BlockCategory::Building,
        tab_of(DataBlockCategory::Metal) == BlockCategory::Metal,
        tab_of(c) != BlockCategory::All,
        tab_of(c) == tab_of(d) ==> c == d,
{
}

/// Law: the built-in block kinds are filed by their number ranges: 1 to 5 basic, 10 to 15
/// stone, 20 to 27 ores, 30 to 38 wood, 50 to 54 nature, 60 to 63 building, 70 to 74 metal;
/// any other kind is basic.
pub proof fn lemma_fallback_tab_ranges(b: BlockType)
    ensures
        fallback_tab(b) == if 10 <= b <= 15 {
            BlockCategory::Stone
        } else if 20 <= b <= 27 {
            BlockCategory::Ores
        } else if 30 <= b <= 38 {
            BlockCategory::Wood
        } else if 50 <= b <= 54 {
            BlockCategory::Nature
        } else if 60 <= b <= 63 {
            BlockCategory::Building
        } else if 70 <= b <= 74 {
            BlockCategory::Metal
        } else {
            BlockCategory::Basic
        },
{
}

/// Law: a registered block is filed under the tab named like its definition's category; so
/// a metal block shows under Metal, an ore under Ores, and so on.
pub proof fn lemma_registered_tab(registry: BlockRegistry, b: BlockType)
    requires
        registry@.1.contains_key(b),
    ensures
        registry@.1[b].category == DataBlockCategory::Metal ==> spec_category(registry, b) == BlockCategory::Metal,
        registry@.1[b].category == DataBlockCategory::Ore ==> spec_category(registry, b) == BlockCategory::Ores,
        registry@.1[b].category == DataBlockCategory::Building ==> spec_category(registry, b) == BlockCategory::Building,
        registry@.1[b].category == DataBlockCategory::Nature ==> spec_category(registry, b) == BlockCategory::Nature,
        registry@.1[b].category == DataBlockCategory::Wood ==> spec_category(registry, b) == BlockCategory::Wood,
        registry@.1[b].category == DataBlockCategory::Stone ==> spec_category(registry, b) == BlockCategory::Stone,
        registry@.1[b].category == DataBlockCategory::Basic ==> spec_category(registry, b) == BlockCategory::Basic,
{
}

fn tab_of_exec(c: DataBlockCategory) -> (r: BlockCategory)
    ensures
        r == tab_of(c),
{
    match c {
        DataBlockCategory::Basic => BlockCategory::Basic,
        DataBlockCategory::Stone => BlockCategory::Stone,
        DataBlockCategory::Ore => BlockCategory::Ores,
        DataBlockCategory::Wood => BlockCategory::Wood,
        DataBlockCategory::Nature => BlockCategory::Nature,
        DataBlockCategory::Building => BlockCategory::Building,
        DataBlockCategory::Metal => BlockCategory::Metal,
    }
}

/// The tab of a built-in block kind that the registry does not know.
pub open spec fn fallback_tab(b: BlockType) -> BlockCategory {
    if b == STONE || b == DIRT || b == GRASS || b == SAND || b == GRAVEL {
        BlockCategory::Basic
    } else if b == COBBLESTONE || b == MOSSY_COBBLESTONE || b == GRANITE || b == DIORITE || b
        == ANDESITE || b == DEEPSLATE {
        BlockCategory::Stone
    } else if b == COAL_ORE || b == IRON_ORE || b == GOLD_ORE || b == DIAMOND_ORE || b
        == EMERALD_ORE || b == REDSTONE_ORE || b == LAPIS_ORE || b == COPPER_ORE {
        BlockCategory::Ores
    } else if b == OAK_LOG || b == OAK_PLANKS || b == OAK_LEAVES || b == BIRCH_LOG || b
        == BIRCH_PLANKS || b == BIRCH_LEAVES || b == SPRUCE_LOG || b == SPRUCE_PLANKS || b
        == SPRUCE_LEAVES {
        BlockCategory::Wood
    } else if b == WATER || b == LAVA || b == ICE || b == SNOW || b == CLAY {
        BlockCategory::Nature
    } else if b == BRICKS || b == STONE_BRICKS || b == OBSIDIAN || b == GLASS {
        BlockCategory::Building
    } else if b == IRON_BLOCK || b == GOLD_BLOCK || b == DIAMOND_BLOCK || b == EMERALD_BLOCK || b
        == COPPER_BLOCK {
        BlockCategory::Metal
    } else {
        BlockCategory::Basic
    }
}

/// The tab of a block kind: from its registered definition, else from the built-in table.
pub open spec fn spec_category(registry: BlockRegistry, b: BlockType) -> BlockCategory {
    if registry@.1.contains_key(b) {
        tab_of(registry@.1[b].category)
    } else {
        fallback_tab(b)
    }
}

/// The name shown for a block kind (see `get_block_name`).
pub open spec fn spec_block_name(registry: BlockRegistry, b: BlockType) -> Seq<char> {
    if registry@.1.contains_key(b) {
        registry@.1[b].name@
    } else {
        "block_"@ + decimal(b as nat)
    }
}

/// A block in the inventory.
#[derive(Debug)]
pub struct InventoryItem {
    pub block_type: BlockType,
    pub name: String,
    /// Top colour, as `f32` bit patterns.
    pub top_color: [u32; 3],
    /// Side colour, as `f32` bit patterns.
    pub side_color: [u32; 3],
    pub category: BlockCategory,
}

impl Clone for InventoryItem {
    fn clone(&self) -> (r: Self)
        ensures
            r == *self,
    {
        InventoryItem {
            block_type: self.block_type,
            name: self.name.clone(),
            top_color: self.top_color,
            side_color: self.side_color,
            category: self.category,
        }
    }
}

impl InventoryItem {
    /// The inventory entry of a block kind, named, coloured and filed by the registry.
    pub fn from_block(registry: &BlockRegistry, block_type: BlockType) -> (r: Self)
        requires
            registry.wf(),
        ensures
            r.block_type == block_type,
            r.name@ == spec_block_name(*registry, block_type),
            (r.top_color, r.side_color) == spec_face_colors(*registry, block_type),
            r.category == spec_category(*registry, block_type),
    {
        let name = get_block_name(registry, block_type);
        let (top_color, side_color) = get_face_colors(registry, block_type);
        let category = Self::categorize(registry, block_type);
        InventoryItem { block_type, name, top_color, side_color, category }
    }

    /// The tab of a block kind.
    pub fn categorize(registry: &BlockRegistry, block_type: BlockType) -> (r: BlockCategory)
        requires
            registry.wf(),
        ensures
            r == spec_category(*registry, block_type),
    {
        if let Some(def) = registry.get_by_numeric(block_type) {
            return tab_of_exec(def.category);
        }
        let b = block_type;
        if b == STONE || b == DIRT || b == GRASS || b == SAND || b == GRAVEL {
            BlockCategory::Basic
        } else if b == COBBLESTONE || b == MOSSY_COBBLESTONE || b == GRANITE || b == DIORITE || b
            == ANDESITE || b == DEEPSLATE {
            BlockCategory::Stone
        } else if b == COAL_ORE || b == IRON_ORE || b == GOLD_ORE || b == DIAMOND_ORE || b
            == EMERALD_ORE || b == REDSTONE_ORE || b == LAPIS_ORE || b == COPPER_ORE {
            BlockCategory::Ores
        } else if b == OAK_LOG || b == OAK_PLANKS || b == OAK_LEAVES || b == BIRCH_LOG || b
            == BIRCH_PLANKS || b == BIRCH_LEAVES || b == SPRUCE_LOG || b == SPRUCE_PLANKS || b
            == SPRUCE_LEAVES {
            BlockCategory::Wood
        } else if b == WATER || b == LAVA || b == ICE || b == SNOW || b == CLAY {
            BlockCategory::Nature
        } else if b == BRICKS || b == STONE_BRICKS || b == OBSIDIAN || b == GLASS {
            BlockCategory::Building
        } else if b == IRON_BLOCK || b == GOLD_BLOCK || b == DIAMOND_BLOCK || b == EMERALD_BLOCK
            || b == COPPER_BLOCK {
            BlockCategory::Metal
        } else {
            BlockCategory::Basic
        }
    }
}


/// What an inventory entry shows: block kind, name, tab, top and side colours.
pub type ItemView = (BlockType, Seq<char>, BlockCategory, [u32; 3], [u32; 3]);

/// The view of an inventory entry.
pub open spec fn item_view(i: InventoryItem) -> ItemView {
    (i.block_type, i.name@, i.category, i.top_color, i.side_color)
}

/// Views of a run of inventory entries.
pub open spec fn item_views(s: Seq<InventoryItem>) -> Seq<ItemView> {
    s.map_values(|i: InventoryItem| item_view(i))
}

/// The entry is of block kind `k`.
pub open spec fn has_kind(k: int) -> spec_fn(ItemView) -> bool {
    |e: ItemView| e.0 == k
}

/// The entry belongs to tab `c`.
pub open spec fn in_tab(c: BlockCategory) -> spec_fn(ItemView) -> bool {
    |e: ItemView| e.2 == c
}

/// The entries of kinds below `k`, kind by kind, each kind's entries in their given order.
pub open spec fn by_kind_upto(s: Seq<ItemView>, k: nat) -> Seq<ItemView>
    decreases k,
{
    if k == 0 {
        Seq::empty()
    } else {
        by_kind_upto(s, (k - 1) as nat) + s.filter(has_kind(k - 1))
    }
}

/// The entries sorted by block kind, keeping the given order among entries of one kind.
pub open spec fn sorted_by_kind(s: Seq<ItemView>) -> Seq<ItemView> {
    by_kind_upto(s, 256)
}

/// The built-in block kinds offered when the registry holds no blocks.
pub open spec fn builtin_kinds() -> Seq<BlockType> {
    seq![
        STONE, DIRT, GRASS, SAND, GRAVEL,
        COBBLESTONE, MOSSY_COBBLESTONE, GRANITE, DIORITE, ANDESITE, DEEPSLATE,
        COAL_ORE, IRON_ORE, GOLD_ORE, DIAMOND_ORE, EMERALD_ORE, REDSTONE_ORE, LAPIS_ORE, COPPER_ORE,
        OAK_LOG, OAK_PLANKS, OAK_LEAVES, BIRCH_LOG, BIRCH_PLANKS, BIRCH_LEAVES,
        SPRUCE_LOG, SPRUCE_PLANKS, SPRUCE_LEAVES,
        WATER, LAVA, ICE, SNOW, CLAY,
        BRICKS, STONE_BRICKS, OBSIDIAN, GLASS,
        IRON_BLOCK, GOLD_BLOCK, DIAMOND_BLOCK, EMERALD_BLOCK, COPPER_BLOCK,
        CUSTOM_100, CUSTOM_101, CUSTOM_102, CUSTOM_103, CUSTOM_104,
    ]
}

/// The entry of a built-in block kind.
pub open spec fn builtin_entry(registry: BlockRegistry, b: BlockType) -> ItemView {
    (
        b,
        spec_block_name(registry, b),
        spec_category(registry, b),
        spec_face_colors(registry, b).0,
        spec_face_colors(registry, b).1,
    )
}

/// Entries of the built-in block kinds other than air, in table order.
pub open spec fn builtin_entries(registry: BlockRegistry) -> Seq<ItemView> {
    builtin_kinds().filter(|b: BlockType| b != AIR).map_values(|b: BlockType| builtin_entry(registry, b))
}

/// The entry of a registered definition.
pub open spec fn def_entry(d: DefinitionAlias) -> ItemView {
    (d.numeric_id, d.name@, tab_of(d.category), face_colors(d.color).0, face_colors(d.color).1)
}

/// A registered definition.
pub type DefinitionAlias = crate::blocks::definition::BlockDefinition;

/// Entries of the registered blocks other than air, in registration order of their ids.
pub open spec fn registry_entries(registry: BlockRegistry) -> Seq<ItemView> {
    registry.defs_in_order().filter(|d: DefinitionAlias| d.numeric_id != 0).map_values(
        |d: DefinitionAlias| def_entry(d),
    )
}

/// All inventory entries: those of the registry, or the built-in ones when the registry has
/// none, sorted by block kind.
pub open spec fn all_entries(registry: BlockRegistry) -> Seq<ItemView> {
    if registry_entries(registry).len() > 0 {
        sorted_by_kind(registry_entries(registry))
    } else {
        sorted_by_kind(builtin_entries(registry))
    }
}

/// Sorts entries by block kind, keeping the order of entries of the same kind.
fn sort_by_kind(items: &Vec<InventoryItem>) -> (r: Vec<InventoryItem>)
    ensures
        item_views(r@) == sorted_by_kind(item_views(items@)),
{
    let ghost v = item_views(items@);
    let mut out: Vec<InventoryItem> = Vec::new();
    let mut k: u32 = 0;
    proof {
        assert(item_views(out@) =~= by_kind_upto(v, 0));
    }
    while k < 256
        invariant
            0 <= k <= 256,
            v == item_views(items@),
            item_views(out@) == by_kind_upto(v, k as nat),
        decreases 256 - k,
    {
        let mut j: usize = 0;
        proof {
            assert(v.take(0).filter(has_kind(k as int)) =~= Seq::<ItemView>::empty());
            assert(by_kind_upto(v, k as nat) + Seq::<ItemView>::empty() =~= by_kind_upto(v, k as nat));
        }
        while j < items.len()
            invariant
                0 <= k < 256,
                0 <= j <= items@.len(),
                v == item_views(items@),
                item_views(out@) == by_kind_upto(v, k as nat) + v.take(j as int).filter(has_kind(k as int)),
            decreases items@.len() - j,
        {
            let ghost before = out@;
            proof {
                assert(v.take(j + 1) =~= v.take(j as int).push(v[j as int]));
                v.take(j as int).lemma_filter_push(v[j as int], has_kind(k as int));
            }
            if items[j].block_type as u32 == k {
                out.push(items[j].clone());
                proof {
                    assert(item_views(out@) =~= item_views(before).push(v[j as int]));
                }
            }
            j = j + 1;
        }
        proof {
            assert(v.take(items@.len() as int) =~= v);
        }
        k = k + 1;
    }
    out
}

/// Entries of the built-in block kinds, air left out.
fn create_builtin_items(registry: &BlockRegistry) -> (r: Vec<InventoryItem>)
    requires
        registry.wf(),
    ensures
        item_views(r@) == builtin_entries(*registry),
{
    let block_types: [BlockType; 47] = [
        STONE, DIRT, GRASS, SAND, GRAVEL,
        COBBLESTONE, MOSSY_COBBLESTONE, GRANITE, DIORITE, ANDESITE, DEEPSLATE,
        COAL_ORE, IRON_ORE, GOLD_ORE, DIAMOND_ORE, EMERALD_ORE, REDSTONE_ORE, LAPIS_ORE, COPPER_ORE,
        OAK_LOG, OAK_PLANKS, OAK_LEAVES, BIRCH_LOG, BIRCH_PLANKS, BIRCH_LEAVES,
        SPRUCE_LOG, SPRUCE_PLANKS, SPRUCE_LEAVES,
        WATER, LAVA, ICE, SNOW, CLAY,
        BRICKS, STONE_BRICKS, OBSIDIAN, GLASS,
        IRON_BLOCK, GOLD_BLOCK, DIAMOND_BLOCK, EMERALD_BLOCK, COPPER_BLOCK,
        CUSTOM_100, CUSTOM_101, CUSTOM_102, CUSTOM_103, CUSTOM_104,
    ];
    let ghost kinds = builtin_kinds();
    assert(block_types@ =~= kinds);
    let mut out: Vec<InventoryItem> = Vec::new();
    let mut i: usize = 0;
    while i < 47
        invariant
            registry.wf(),
            0 <= i <= 47,
            block_types@ == kinds,
            kinds == builtin_kinds(),
            item_views(out@) == kinds.take(i as int).filter(|b: BlockType| b != AIR).map_values(
                |b: BlockType| builtin_entry(*registry, b),
            ),
        decreases 47 - i,
    {
        let bt = block_types[i];
        let ghost before = out@;
        proof {
            assert(kinds.take(i + 1) =~= kinds.take(i as int).push(kinds[i as int]));
            kinds.take(i as int).lemma_filter_push(kinds[i as int], |b: BlockType| b != AIR);
        }
        if bt != AIR {
            out.push(InventoryItem::from_block(registry, bt));
            proof {
                assert(item_views(out@) =~= item_views(before).push(builtin_entry(*registry, bt)));
                assert(kinds.take(i + 1).filter(|b: BlockType| b != AIR).map_values(
                    |b: BlockType| builtin_entry(*registry, b),
                ) =~= kinds.take(i as int).filter(|b: BlockType| b != AIR).map_values(
                    |b: BlockType| builtin_entry(*registry, b),
                ).push(builtin_entry(*registry, bt)));
            }
        }
        i = i + 1;
    }
    proof {
        assert(kinds.take(47) =~= kinds);
    }
    out
}

/// All inventory entries of a registry (see `all_entries`).
fn create_all_items(registry: &BlockRegistry) -> (r: Vec<InventoryItem>)
    requires
        registry.wf(),
    ensures
        item_views(r@) == all_entries(*registry),
{
    let all = registry.all_blocks();
    let ghost defs = registry.defs_in_order();
    let mut items: Vec<InventoryItem> = Vec::new();
    let mut i: usize = 0;
    while i < all.len()
        invariant
            0 <= i <= all@.len(),
            all@.map_values(|d: &DefinitionAlias| *d) == defs,
            item_views(items@) == defs.take(i as int).filter(|d: DefinitionAlias| d.numeric_id != 0).map_values(
                |d: DefinitionAlias| def_entry(d),
            ),
        decreases all@.len() - i,
    {
        let def = all[i];
        let ghost before = items@;
        proof {
            assert(defs[i as int] == *def);
            assert(defs.take(i + 1) =~= defs.take(i as int).push(defs[i as int]));
            defs.take(i as int).lemma_filter_push(defs[i as int], |d: DefinitionAlias| d.numeric_id != 0);
        }
        if def.numeric_id != 0 {
            let block_type: BlockType = def.numeric_id;
            let category = tab_of_exec(def.category);
            let top_color = def.color.top();
            let side_color = def.color.side();
            items.push(InventoryItem { block_type, name: def.name.clone(), top_color, side_color, category });
            proof {
                assert(item_views(items@) =~= item_views(before).push(def_entry(*def)));
                assert(defs.take(i + 1).filter(|d: DefinitionAlias| d.numeric_id != 0).map_values(
                    |d: DefinitionAlias| def_entry(d),
                ) =~= defs.take(i as int).filter(|d: DefinitionAlias| d.numeric_id != 0).map_values(
                    |d: DefinitionAlias| def_entry(d),
                ).push(def_entry(*def)));
            }
        }
        i = i + 1;
    }
    proof {
        assert(defs.take(all@.len() as int) =~= defs);
    }
    if items.len() == 0 {
        items = create_builtin_items(registry);
    }
    sort_by_kind(&items)
}

/// Entries shown under tab `c`: all of them under `All`, else those of the tab, in order.
pub open spec fn shown_under(items: Seq<ItemView>, c: BlockCategory) -> Seq<ItemView> {
    if c == BlockCategory::All {
        items
    } else {
        items.filter(in_tab(c))
    }
}

/// State of the full-screen block inventory (scrolling is kept by the renderer).
pub struct Inventory {
    items: Vec<InventoryItem>,
    visible: bool,
    selected_block: Option<BlockType>,
    category: BlockCategory,
    hovered_slot: Option<usize>,
    dragging_block: Option<BlockType>,
}

impl Inventory {
    /// The entries, sorted by block kind.
    pub closed spec fn items_view(&self) -> Seq<ItemView> {
        item_views(self.items@)
    }

    pub closed spec fn visible_view(&self) -> bool {
        self.visible
    }

    /// The block chosen for the hotbar, not yet taken.
    pub closed spec fn selected_view(&self) -> Option<BlockType> {
        self.selected_block
    }

    /// The open tab.
    pub closed spec fn category_view(&self) -> BlockCategory {
        self.category
    }

    /// The slot under the cursor.
    pub closed spec fn hovered_view(&self) -> Option<usize> {
        self.hovered_slot
    }

    /// The block being dragged.
    pub closed spec fn dragging_view(&self) -> Option<BlockType> {
        self.dragging_block
    }

    /// A hidden inventory with every entry of the registry, showing all tabs, nothing selected,
    /// hovered or dragged.
    pub fn new(registry: &BlockRegistry) -> (r: Self)
        requires
            registry.wf(),
        ensures
            r.items_view() == all_entries(*registry),
            !r.visible_view(),
            r.selected_view() is None,
            r.category_view() == BlockCategory::All,
            r.hovered_view() is None,
            r.dragging_view() is None,
    {
        let items = create_all_items(registry);
        Inventory {
            items,
            visible: false,
            selected_block: None,
            category: BlockCategory::All,
            hovered_slot: None,
            dragging_block: None,
        }
    }

    /// Rebuilds the entries from the registry (after mods were loaded).
    pub fn reload_from_registry(&mut self, registry: &BlockRegistry)
        requires
            registry.wf(),
        ensures
            final(self).items_view() == all_entries(*registry),
            final(self).visible_view() == old(self).visible_view(),
            final(self).selected_view() == old(self).selected_view(),
            final(self).category_view() == old(self).category_view(),
            final(self).hovered_view() == old(self).hovered_view(),
            final(self).dragging_view() == old(self).dragging_view(),
    {
        self.items = create_all_items(registry);
    }

    /// Shows or hides the inventory; showing it forgets the selected block and the hovered slot.
    pub fn toggle(&mut self)
        ensures
            final(self).visible_view() == !old(self).visible_view(),
            final(self).items_view() == old(self).items_view(),
            final(self).category_view() == old(self).category_view(),
            final(self).dragging_view() == old(self).dragging_view(),
            final(self).selected_view() == if final(self).visible_view() {
                None
            } else {
                old(self).selected_view()
            },
            final(self).hovered_view() == if final(self).visible_view() {
                None
            } else {
                old(self).hovered_view()
            },
    {
        self.visible = !self.visible;
        if self.visible {
            self.selected_block = None;
            self.hovered_slot = None;
        }
    }

    /// Shows the inventory and forgets the selected block.
    pub fn show(&mut self)
        ensures
            final(self).visible_view(),
            final(self).selected_view() is None,
            final(self).items_view() == old(self).items_view(),
            final(self).category_view() == old(self).category_view(),
            final(self).hovered_view() == old(self).hovered_view(),
            final(self).dragging_view() == old(self).dragging_view(),
    {
        self.visible = true;
        self.selected_block = None;
    }

    /// Closes (hides) the inventory.
    pub fn close(&mut self)
        ensures
            !final(self).visible_view(),
            final(self).selected_view() == old(self).selected_view(),
            final(self).items_view() == old(self).items_view(),
            final(self).category_view() == old(self).category_view(),
            final(self).hovered_view() == old(self).hovered_view(),
            final(self).dragging_view() == old(self).dragging_view(),
    {
        self.visible = false;
    }

    /// Whether the inventory is shown.
    pub fn is_visible(&self) -> (r: bool)
        ensures
            r == self.visible_view(),
    {
        self.visible
    }

    /// The entries shown under the open tab.
    pub fn filtered_items(&self) -> (r: Vec<&InventoryItem>)
        ensures
            r@.map_values(|i: &InventoryItem| item_view(*i)) == shown_under(
                self.items_view(),
                self.category_view(),
            ),
    {
        let ghost v = self.items_view();
        let mut out: Vec<&InventoryItem> = Vec::new();
        let mut i: usize = 0;
        while i < self.items.len()
            invariant
                0 <= i <= self.items@.len(),
                v == self.items_view(),
                out@.map_values(|i: &InventoryItem| item_view(*i)) == if self.category
                    == BlockCategory::All {
                    v.take(i as int)
                } else {
                    v.take(i as int).filter(in_tab(self.category))
                },
            decreases self.items@.len() - i,
        {
            let item = &self.items[i];
            let ghost before = out@;
            proof {
                assert(v.take(i + 1) =~= v.take(i as int).push(v[i as int]));
                v.take(i as int).lemma_filter_push(v[i as int], in_tab(self.category));
            }
            if self.category == BlockCategory::All || item.category == self.category {
                out.push(item);
                proof {
                    assert(out@.map_values(|i: &InventoryItem| item_view(*i)) =~= before.map_values(
                        |i: &InventoryItem| item_view(*i),
                    ).push(v[i as int]));
                }
            }
            i = i + 1;
        }
        proof {
            assert(v.take(self.items@.len() as int) =~= v);
        }
        out
    }

    /// All entries.
    pub fn items(&self) -> (r: &[InventoryItem])
        ensures
            item_views(r@) == self.items_view(),
    {
        self.items.as_slice()
    }

    /// Hands out the block chosen for the hotbar and forgets it.
    pub fn take_selected_block(&mut self) -> (r: Option<BlockType>)
        ensures
            r == old(self).selected_view(),
            final(self).selected_view() is None,
            final(self).visible_view() == old(self).visible_view(),
            final(self).items_view() == old(self).items_view(),
            final(self).category_view() == old(self).category_view(),
            final(self).hovered_view() == old(self).hovered_view(),
            final(self).dragging_view() == old(self).dragging_view(),
    {
        let r = self.selected_block;
        self.selected_block = None;
        r
    }

    /// Chooses a block for the hotbar.
    pub fn select_block(&mut self, block_type: BlockType)
        ensures
            final(self).selected_view() == Some(block_type),
            final(self).visible_view() == old(self).visible_view(),
            final(self).items_view() == old(self).items_view(),
            final(self).category_view() == old(self).category_view(),
            final(self).hovered_view() == old(self).hovered_view(),
            final(self).dragging_view() == old(self).dragging_view(),
    {
        self.selected_block = Some(block_type);
    }

    /// The open tab.
    pub fn category(&self) -> (r: BlockCategory)
        ensures
            r == self.category_view(),
    {
        self.category
    }

    /// Opens a tab (the renderer scrolls back to the top).
    pub fn set_category(&mut self, category: BlockCategory)
        ensures
            final(self).category_view() == category,
            final(self).selected_view() == old(self).selected_view(),
            final(self).visible_view() == old(self).visible_view(),
            final(self).items_view() == old(self).items_view(),
            final(self).hovered_view() == old(self).hovered_view(),
            final(self).dragging_view() == old(self).dragging_view(),
    {
        self.category = category;
    }

    /// Sets the slot under the cursor.
    pub fn set_hovered(&mut self, slot: Option<usize>)
        ensures
            final(self).hovered_view() == slot,
            final(self).category_view() == old(self).category_view(),
            final(self).selected_view() == old(self).selected_view(),
            final(self).visible_view() == old(self).visible_view(),
            final(self).items_view() == old(self).items_view(),
            final(self).dragging_view() == old(self).dragging_view(),
    {
        self.hovered_slot = slot;
    }

    /// The slot under the cursor.
    pub fn hovered(&self) -> (r: Option<usize>)
        ensures
            r == self.hovered_view(),
    {
        self.hovered_slot
    }

    /// A click on shown slot `slot_index`: starts dragging that slot's block and returns it;
    /// a click past the shown entries does nothing.
    pub fn handle_click(&mut self, slot_index: usize) -> (r: Option<BlockType>)
        ensures
            ({
                let shown = shown_under(old(self).items_view(), old(self).category_view());
                &&& r == if slot_index < shown.len() {
                    Some(shown[slot_index as int].0)
                } else {
                    None::<BlockType>
                }
                &&& final(self).dragging_view() == if slot_index < shown.len() {
                    Some(shown[slot_index as int].0)
                } else {
                    old(self).dragging_view()
                }
            }),
            final(self).category_view() == old(self).category_view(),
            final(self).selected_view() == old(self).selected_view(),
            final(self).visible_view() == old(self).visible_view(),
            final(self).items_view() == old(self).items_view(),
            final(self).hovered_view() == old(self).hovered_view(),
    {
        let items = self.filtered_items();
        if slot_index < items.len() {
            let block_type = items[slot_index].block_type;
            proof {
                let m = items@.map_values(|i: &InventoryItem| item_view(*i));
                assert(m[slot_index as int] == item_view(*items@[slot_index as int]));
            }
            self.dragging_block = Some(block_type);
            return Some(block_type);
        }
        None
    }

    /// Starts dragging a block.
    pub fn start_drag(&mut self, block_type: BlockType)
        ensures
            final(self).dragging_view() == Some(block_type),
            final(self).category_view() == old(self).category_view(),
            final(self).selected_view() == old(self).selected_view(),
            final(self).visible_view() == old(self).visible_view(),
            final(self).items_view() == old(self).items_view(),
            final(self).hovered_view() == old(self).hovered_view(),
    {
        self.dragging_block = Some(block_type);
    }

    /// The block being dragged.
    pub fn dragging(&self) -> (r: Option<BlockType>)
        ensures
            r == self.dragging_view(),
    {
        self.dragging_block
    }

    /// Drops the dragged block: hands it out and stops dragging.
    pub fn end_drag(&mut self) -> (r: Option<BlockType>)
        ensures
            r == old(self).dragging_view(),
            final(self).dragging_view() is None,
            final(self).category_view() == old(self).category_view(),
            final(self).selected_view() == old(self).selected_view(),
            final(self).visible_view() == old(self).visible_view(),
            final(self).items_view() == old(self).items_view(),
            final(self).hovered_view() == old(self).hovered_view(),
    {
        let r = self.dragging_block;
        self.dragging_block = None;
        r
    }

    /// Stops dragging without dropping.
    pub fn cancel_drag(&mut self)
        ensures
            final(self).dragging_view() is None,
            final(self).category_view() == old(self).category_view(),
            final(self).selected_view() == old(self).selected_view(),
            final(self).visible_view() == old(self).visible_view(),
            final(self).items_view() == old(self).items_view(),
            final(self).hovered_view() == old(self).hovered_view(),
    {
        self.dragging_block = None;
    }
}

} // verus!
