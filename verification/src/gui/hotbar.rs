use vstd::prelude::*;
use crate::blocks::types::{BlockType, AIR, STONE, DIRT, GRASS, OAK_PLANKS, COBBLESTONE, WATER};

verus! {

/// Number of hotbar slots.
pub const HOTBAR_SLOTS: usize = 9;

/// An item in a hotbar slot.
#[derive(Clone, Copy, Debug, PartialEq, Eq)]
pub struct HotbarItem {
    /// Kind of block.
    pub block_type: BlockType,
    /// How many of it (for stacking items).
    pub count: u32,
}

impl HotbarItem {
    /// One block of the given kind.
    pub fn from_block(block_type: BlockType) -> (r: Self)
        ensures
            r == spec_item(block_type),
    {
        HotbarItem { block_type, count: 1 }
    }
}

/// The item that picking `block_type` puts into a slot.
pub open spec fn spec_item(block_type: BlockType) -> HotbarItem {
    HotbarItem { block_type, count: 1 }
}

/// Slot `i` of `slots` holds a block of kind `b`.
pub open spec fn slot_holds(slots: Seq<Option<HotbarItem>>, i: int, b: BlockType) -> bool {
    slots[i] matches Some(item) && item.block_type == b
}

/// Some slot holds a block of kind `b`.
pub open spec fn any_holds(slots: Seq<Option<HotbarItem>>, b: BlockType) -> bool {
    exists|i: int| 0 <= i < slots.len() && #[trigger] slot_holds(slots, i, b)
}

/// Some slot is empty.
pub open spec fn any_empty(slots: Seq<Option<HotbarItem>>) -> bool {
    exists|i: int| 0 <= i < slots.len() && #[trigger] slots[i] is None
}

/// The slot selected after scrolling by `delta` from slot `selected`: one to the right for a
/// positive delta, one to the left for a negative one, wrapping around.
pub open spec fn scrolled(selected: int, delta: int) -> int {
    if delta > 0 {
        (selected + 1) % (HOTBAR_SLOTS as int)
    } else if delta < 0 {
        (selected + HOTBAR_SLOTS - 1) % (HOTBAR_SLOTS as int)
    } else {
        selected
    }
}

/// The slots a new hotbar starts with: stone, dirt, grass, oak planks, cobblestone and water,
/// then three empty slots.
pub open spec fn starting_slots() -> Seq<Option<HotbarItem>> {
    seq![
        Some(spec_item(STONE)),
        Some(spec_item(DIRT)),
        Some(spec_item(GRASS)),
        Some(spec_item(OAK_PLANKS)),
        Some(spec_item(COBBLESTONE)),
        Some(spec_item(WATER)),
        None,
        None,
        None,
    ]
}

/// Law: a new hotbar holds, left to right, one each of stone (1), dirt (2), grass (3), oak planks
/// (31), cobblestone (10) and water (50), and its last three slots are empty.
pub proof fn lemma_starting_slots_table()
    ensures
        starting_slots().len() == 9,
        starting_slots()[0] == Some(HotbarItem { block_type: 1, count: 1 }),
        starting_slots()[1] == Some(HotbarItem { block_type: 2, count: 1 }),
        starting_slots()[2] == Some(HotbarItem { block_type: 3, count: 1 }),
        starting_slots()[3] == Some(HotbarItem { block_type: 31, count: 1 }),
        starting_slots()[4] == Some(HotbarItem { block_type: 10, count: 1 }),
        starting_slots()[5] == Some(HotbarItem { block_type: 50, count: 1 }),
        starting_slots()[6] is None && starting_slots()[7] is None && starting_slots()[8] is None,
{
}

/// The first slot holding a block of kind `b` (meaningful when there is one).
pub open spec fn first_holding(slots: Seq<Option<HotbarItem>>, b: BlockType) -> int {
    choose|i: int|
        0 <= i < slots.len() && slot_holds(slots, i, b) && forall|j: int|
            0 <= j < i ==> !#[trigger] slot_holds(slots, j, b)
}

/// The first empty slot (meaningful when there is one).
pub open spec fn first_empty(slots: Seq<Option<HotbarItem>>) -> int {
    choose|i: int|
        0 <= i < slots.len() && slots[i] is None && forall|j: int|
            0 <= j < i ==> #[trigger] slots[j] is Some
}

/// Slots and selected slot after picking a block of kind `b` with slot `selected` selected:
/// air changes nothing; a block already held selects its first slot; otherwise it fills and
/// selects the first empty slot, or, with none empty, replaces the selected slot's item.
pub open spec fn picked(slots: Seq<Option<HotbarItem>>, selected: int, b: BlockType) -> (Seq<Option<HotbarItem>>, int) {
    if b == AIR {
        (slots, selected)
    } else if any_holds(slots, b) {
        (slots, first_holding(slots, b))
    } else if any_empty(slots) {
        (slots.update(first_empty(slots), Some(spec_item(b))), first_empty(slots))
    } else {
        (slots.update(selected, Some(spec_item(b))), selected)
    }
}

/// `i` is the first slot holding `b`.
pub proof fn lemma_first_holding(slots: Seq<Option<HotbarItem>>, b: BlockType, i: int)
    requires
        0 <= i < slots.len(),
        slot_holds(slots, i, b),
        forall|j: int| 0 <= j < i ==> !#[trigger] slot_holds(slots, j, b),
    ensures
        first_holding(slots, b) == i,
{
    let k = first_holding(slots, b);
    assert(0 <= k < slots.len() && slot_holds(slots, k, b) && forall|j: int|
        0 <= j < k ==> !#[trigger] slot_holds(slots, j, b));
    if k < i {
        assert(!slot_holds(slots, k, b));
    }
    if k > i {
        assert(!slot_holds(slots, i, b));
    }
}

/// `i` is the first empty slot.
pub proof fn lemma_first_empty(slots: Seq<Option<HotbarItem>>, i: int)
    requires
        0 <= i < slots.len(),
        slots[i] is None,
        forall|j: int| 0 <= j < i ==> #[trigger] slots[j] is Some,
    ensures
        first_empty(slots) == i,
{
    let k = first_empty(slots);
    assert(0 <= k < slots.len() && slots[k] is None && forall|j: int|
        0 <= j < k ==> #[trigger] slots[j] is Some);
    if k < i {
        assert(slots[k] is Some);
    }
    if k > i {
        assert(slots[i] is Some);
    }
}

/// When a slot holds `b`, some slot is the first one to hold it.
pub proof fn lemma_first_holding_exists(slots: Seq<Option<HotbarItem>>, b: BlockType)
    requires
        any_holds(slots, b),
    ensures
        0 <= first_holding(slots, b) < slots.len(),
        slot_holds(slots, first_holding(slots, b), b),
        forall|j: int| 0 <= j < first_holding(slots, b) ==> !#[trigger] slot_holds(slots, j, b),
    decreases slots.len(),
{
    let w = choose|i: int| 0 <= i < slots.len() && #[trigger] slot_holds(slots, i, b);
    if exists|i: int| 0 <= i < w && #[trigger] slot_holds(slots, i, b) {
        let prefix = slots.take(w);
        assert(any_holds(prefix, b)) by {
            let i = choose|i: int| 0 <= i < w && #[trigger] slot_holds(slots, i, b);
            assert(slot_holds(prefix, i, b));
        }
        lemma_first_holding_exists(prefix, b);
        let f = first_holding(prefix, b);
        assert(slot_holds(slots, f, b));
        assert forall|j: int| 0 <= j < f implies !#[trigger] slot_holds(slots, j, b) by {
            assert(!slot_holds(prefix, j, b));
        }
        lemma_first_holding(slots, b, f);
    } else {
        lemma_first_holding(slots, b, w);
    }
}

/// When a slot is empty, some slot is the first empty one.
pub proof fn lemma_first_empty_exists(slots: Seq<Option<HotbarItem>>)
    requires
        any_empty(slots),
    ensures
        0 <= first_empty(slots) < slots.len(),
        slots[first_empty(slots)] is None,
        forall|j: int| 0 <= j < first_empty(slots) ==> #[trigger] slots[j] is Some,
    decreases slots.len(),
{
    let w = choose|i: int| 0 <= i < slots.len() && #[trigger] slots[i] is None;
    if exists|i: int| 0 <= i < w && #[trigger] slots[i] is None {
        let prefix = slots.take(w);
        assert(any_empty(prefix)) by {
            let i = choose|i: int| 0 <= i < w && #[trigger] slots[i] is None;
            assert(prefix[i] is None);
        }
        lemma_first_empty_exists(prefix);
        let f = first_empty(prefix);
        assert(slots[f] is None);
        assert forall|j: int| 0 <= j < f implies #[trigger] slots[j] is Some by {
            assert(prefix[j] is Some);
        }
        lemma_first_empty(slots, f);
    } else {
        lemma_first_empty(slots, w);
    }
}

/// Law: picking a block other than air leaves the selected slot holding that block.
pub proof fn lemma_pick_selects_block(slots: Seq<Option<HotbarItem>>, selected: int, b: BlockType)
    requires
        slots.len() == HOTBAR_SLOTS,
        0 <= selected < HOTBAR_SLOTS,
        b != AIR,
    ensures
        0 <= picked(slots, selected, b).1 < HOTBAR_SLOTS,
        slot_holds(picked(slots, selected, b).0, picked(slots, selected, b).1, b),
{
    if any_holds(slots, b) {
        lemma_first_holding_exists(slots, b);
    } else if any_empty(slots) {
        lemma_first_empty_exists(slots);
    }
}

/// Law: picking the same block twice in a row does nothing the second time.
pub proof fn lemma_pick_twice(slots: Seq<Option<HotbarItem>>, selected: int, b: BlockType)
    requires
        slots.len() == HOTBAR_SLOTS,
        0 <= selected < HOTBAR_SLOTS,
    ensures
        ({
            let (s1, i1) = picked(slots, selected, b);
            picked(s1, i1, b) == (s1, i1)
        }),
{
    if b != AIR {
        lemma_pick_selects_block(slots, selected, b);
        let (s1, i1) = picked(slots, selected, b);
        assert(any_holds(s1, b));
        lemma_first_holding_exists(s1, b);
        let f = first_holding(s1, b);
        if any_holds(slots, b) {
            lemma_first_holding_exists(slots, b);
            lemma_first_holding(s1, b, i1);
        } else if any_empty(slots) {
            lemma_first_empty_exists(slots);
            assert forall|j: int| 0 <= j < i1 implies !#[trigger] slot_holds(s1, j, b) by {
                assert(s1[j] == slots[j]);
                assert(!slot_holds(slots, j, b));
            }
            lemma_first_holding(s1, b, i1);
        } else {
            assert(f == i1) by {
                if f != i1 {
                    assert(s1[f] == slots[f]);
                    assert(slot_holds(slots, f, b));
                }
            }
        }
    }
}

/// Law: scrolling one slot forward and then one back (or back then forward) returns to the
/// slot one started from.
pub proof fn lemma_scroll_round_trip(selected: int, forward: int, back: int)
    requires
        0 <= selected < HOTBAR_SLOTS,
        forward > 0,
        back < 0,
    ensures
        scrolled(scrolled(selected, forward), back) == selected,
        scrolled(scrolled(selected, back), forward) == selected,
        0 <= scrolled(selected, forward) < HOTBAR_SLOTS,
        0 <= scrolled(selected, back) < HOTBAR_SLOTS,
{
}

/// The hotbar: nine slots, one of them selected.
pub struct Hotbar {
    slots: [Option<HotbarItem>; HOTBAR_SLOTS],
    selected: usize,
    visible: bool,
}

impl Hotbar {
    #[verifier::type_invariant]
    spec fn inv(self) -> bool {
        self.selected < HOTBAR_SLOTS
    }

    /// The slots, left to right.
    pub closed spec fn slots_view(&self) -> Seq<Option<HotbarItem>> {
        self.slots@
    }

    /// Index of the selected slot.
    pub closed spec fn selected_view(&self) -> int {
        self.selected as int
    }

    /// Whether the hotbar is shown.
    pub closed spec fn visible_view(&self) -> bool {
        self.visible
    }

    /// A visible hotbar holding the starting blocks, with the first slot selected.
    pub fn new() -> (r: Self)
        ensures
            r.slots_view() == starting_slots(),
            r.selected_view() == 0,
            r.visible_view(),
    {
        let slots: [Option<HotbarItem>; HOTBAR_SLOTS] = [
            Some(HotbarItem::from_block(STONE)),
            Some(HotbarItem::from_block(DIRT)),
            Some(HotbarItem::from_block(GRASS)),
            Some(HotbarItem::from_block(OAK_PLANKS)),
            Some(HotbarItem::from_block(COBBLESTONE)),
            Some(HotbarItem::from_block(WATER)),
            None,
            None,
            None,
        ];
        let r = Hotbar { slots, selected: 0, visible: true };
        assert(r.slots_view() =~= starting_slots());
        r
    }

    /// Selects slot `index`; an index past the last slot is ignored.
    pub fn select(&mut self, index: usize)
        ensures
            final(self).slots_view() == old(self).slots_view(),
            final(self).visible_view() == old(self).visible_view(),
            final(self).selected_view() == if index < HOTBAR_SLOTS {
                index as int
            } else {
                old(self).selected_view()
            },
    {
        if index < HOTBAR_SLOTS {
            self.selected = index;
        }
    }

    /// Selects a slot by its number key: keys 1 to 9 select slots 0 to 8, other keys are ignored.
    pub fn select_by_key(&mut self, key: u32)
        ensures
            final(self).slots_view() == old(self).slots_view(),
            final(self).visible_view() == old(self).visible_view(),
            final(self).selected_view() == if 1 <= key <= 9 {
                key - 1
            } else {
                old(self).selected_view()
            },
    {
        if key >= 1 && key <= 9 {
            self.selected = (key - 1) as usize;
        }
    }

    /// Index of the selected slot.
    pub fn selected(&self) -> (r: usize)
        ensures
            r == self.selected_view(),
            r < HOTBAR_SLOTS,
    {
        proof {
            use_type_invariant(self);
        }
        self.selected
    }

    /// The item in the selected slot.
    pub fn selected_item(&self) -> (r: Option<&HotbarItem>)
        ensures
            r == match self.slots_view()[self.selected_view()] {
                Some(item) => Some(&item),
                None => None::<&HotbarItem>,
            },
    {
        proof {
            use_type_invariant(self);
        }
        self.slots[self.selected].as_ref()
    }

    /// Kind of block in the selected slot (the one to place).
    pub fn selected_block_type(&self) -> (r: Option<BlockType>)
        ensures
            r == match self.slots_view()[self.selected_view()] {
                Some(item) => Some(item.block_type),
                None => None::<BlockType>,
            },
    {
        proof {
            use_type_invariant(self);
        }
        match &self.slots[self.selected] {
            Some(item) => Some(item.block_type),
            None => None,
        }
    }

    /// The item in slot `index`; none past the last slot.
    pub fn get_item(&self, index: usize) -> (r: Option<&HotbarItem>)
        ensures
            r == if index < HOTBAR_SLOTS {
                match self.slots_view()[index as int] {
                    Some(item) => Some(&item),
                    None => None::<&HotbarItem>,
                }
            } else {
                None::<&HotbarItem>
            },
    {
        if index < HOTBAR_SLOTS {
            self.slots[index].as_ref()
        } else {
            None
        }
    }

    /// Puts `item` into slot `index`; an index past the last slot is ignored.
    pub fn set_item(&mut self, index: usize, item: Option<HotbarItem>)
        ensures
            final(self).selected_view() == old(self).selected_view(),
            final(self).visible_view() == old(self).visible_view(),
            final(self).slots_view() == if index < HOTBAR_SLOTS {
                old(self).slots_view().update(index as int, item)
            } else {
                old(self).slots_view()
            },
    {
        proof {
            use_type_invariant(&*self);
        }
        if index < HOTBAR_SLOTS {
            self.slots[index] = item;
        }
    }

    /// Picks a block into the hotbar and returns whether it was added to a slot. Air is
    /// refused. A block already in a slot only selects the first such slot; otherwise it goes
    /// into the first empty slot, which gets selected; with no empty slot it replaces the
    /// selected slot's item.
    pub fn pick_block(&mut self, block_type: BlockType) -> (r: bool)
        ensures
            r == (block_type != AIR && !any_holds(old(self).slots_view(), block_type)),
            r == (final(self).slots_view() != old(self).slots_view()),
            final(self).visible_view() == old(self).visible_view(),
            (final(self).slots_view(), final(self).selected_view()) == picked(
                old(self).slots_view(),
                old(self).selected_view(),
                block_type,
            ),
            0 <= final(self).selected_view() < HOTBAR_SLOTS,
    {
        proof {
            use_type_invariant(&*self);
        }
        if block_type == AIR {
            return false;
        }
        let mut i: usize = 0;
        while i < HOTBAR_SLOTS
            invariant
                0 <= i <= HOTBAR_SLOTS,
                block_type != AIR,
                self.selected < HOTBAR_SLOTS,
                self.slots@ == old(self).slots@,
                self.selected == old(self).selected,
                self.visible == old(self).visible,
                forall|j: int| 0 <= j < i ==> !#[trigger] slot_holds(self.slots@, j, block_type),
            decreases HOTBAR_SLOTS - i,
        {
            let found = match &self.slots[i] {
                Some(item) => item.block_type == block_type,
                None => false,
            };
            if found {
                proof {
                    assert(slot_holds(self.slots@, i as int, block_type));
                    assert(any_holds(old(self).slots_view(), block_type));
                    lemma_first_holding(self.slots@, block_type, i as int);
                }
                self.selected = i;
                return false;
            }
            i = i + 1;
        }
        assert(!any_holds(old(self).slots_view(), block_type));
        let mut k: usize = 0;
        while k < HOTBAR_SLOTS
            invariant
                0 <= k <= HOTBAR_SLOTS,
                block_type != AIR,
                self.selected < HOTBAR_SLOTS,
                !any_holds(old(self).slots_view(), block_type),
                self.slots@ == old(self).slots@,
                self.selected == old(self).selected,
                self.visible == old(self).visible,
                forall|j: int| 0 <= j < k ==> #[trigger] self.slots@[j] is Some,
            decreases HOTBAR_SLOTS - k,
        {
            if self.slots[k].is_none() {
                proof {
                    lemma_first_empty(self.slots@, k as int);
                }
                self.slots[k] = Some(HotbarItem::from_block(block_type));
                self.selected = k;
                proof {
                    assert(old(self).slots@[k as int] is None);
                    assert(any_empty(old(self).slots_view()));
                    assert(self.slots@ =~= old(self).slots@.update(k as int, Some(spec_item(block_type))));
                    assert(self.slots@[k as int] != old(self).slots@[k as int]);
                }
                return true;
            }
            k = k + 1;
        }
        assert(!any_empty(old(self).slots_view()));
        self.slots[self.selected] = Some(HotbarItem::from_block(block_type));
        proof {
            let j = old(self).selected as int;
            assert(self.slots@ =~= old(self).slots@.update(j, Some(spec_item(block_type))));
            assert(!slot_holds(old(self).slots@, j, block_type));
            assert(slot_holds(self.slots@, j, block_type));
            assert(self.slots@[j] != old(self).slots@[j]);
        }
        true
    }

    /// The slots, left to right.
    pub fn slots(&self) -> (r: &[Option<HotbarItem>; HOTBAR_SLOTS])
        ensures
            r@ == self.slots_view(),
    {
        &self.slots
    }

    /// Shows or hides the hotbar.
    pub fn set_visible(&mut self, visible: bool)
        ensures
            final(self).visible_view() == visible,
            final(self).slots_view() == old(self).slots_view(),
            final(self).selected_view() == old(self).selected_view(),
    {
        proof {
            use_type_invariant(&*self);
        }
        self.visible = visible;
    }

    /// Whether the hotbar is shown.
    pub fn is_visible(&self) -> (r: bool)
        ensures
            r == self.visible_view(),
    {
        self.visible
    }

    /// Mouse-wheel scrolling: a positive delta selects the next slot, a negative one the
    /// previous slot, wrapping around at both ends.
    pub fn scroll(&mut self, delta: i32)
        ensures
            final(self).slots_view() == old(self).slots_view(),
            final(self).visible_view() == old(self).visible_view(),
            final(self).selected_view() == scrolled(old(self).selected_view(), delta as int),
    {
        proof {
            use_type_invariant(&*self);
        }
        if delta > 0 {
            self.selected = (self.selected + 1) % HOTBAR_SLOTS;
        } else if delta < 0 {
            self.selected = (self.selected + HOTBAR_SLOTS - 1) % HOTBAR_SLOTS;
        }
    }
}

impl Default for Hotbar {
    /// The starting hotbar (see `new`).
    fn default() -> (r: Self)
        ensures
            r.slots_view() == starting_slots(),
            r.selected_view() == 0,
            r.visible_view(),
    {
        Self::new()
    }
}

} // verus!
