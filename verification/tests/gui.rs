use kimi_voxel::blocks::definition::{BlockCategory as DataCategory, BlockDefinition};
use kimi_voxel::blocks::registry::BlockRegistry;
use kimi_voxel::blocks::types::{
    AIR, COBBLESTONE, COAL_ORE, DIRT, GLASS, GRASS, IRON_BLOCK, OAK_LOG, OAK_PLANKS, SAND, STONE,
    WATER, CUSTOM_104,
};
use kimi_voxel::blocks::block_breaker::MouseButton;
use kimi_voxel::gui::mouse::{route_mouse, MouseRoute};
use kimi_voxel::gui::fps::{decimal_digits, digit_segments};
use kimi_voxel::gui::hotbar::{Hotbar, HotbarItem, HOTBAR_SLOTS};
use kimi_voxel::gui::inventory::{BlockCategory, Inventory, InventoryItem};
use kimi_voxel::gui::menu::{element_state, handle_menu_click, ElementType, GameMenu, MenuAction, MenuState};

fn def(id: &str, numeric_id: u8, name: &str, category: DataCategory) -> BlockDefinition {
    BlockDefinition {
        id: id.to_string(),
        numeric_id,
        name: name.to_string(),
        category,
        ..Default::default()
    }
}

#[test]
fn hotbar_starts_with_basic_blocks() {
    let h = Hotbar::new();
    assert_eq!(h.selected(), 0);
    assert!(h.is_visible());
    assert_eq!(h.selected_block_type(), Some(STONE));
    let kinds: Vec<Option<u8>> = h.slots().iter().map(|s| s.map(|i| i.block_type)).collect();
    assert_eq!(
        kinds,
        vec![Some(STONE), Some(DIRT), Some(GRASS), Some(OAK_PLANKS), Some(COBBLESTONE), Some(WATER), None, None, None]
    );
    assert_eq!(HotbarItem::from_block(SAND), HotbarItem { block_type: SAND, count: 1 });
}

#[test]
fn hotbar_selection() {
    let mut h = Hotbar::new();
    h.select(4);
    assert_eq!(h.selected(), 4);
    h.select(HOTBAR_SLOTS);
    assert_eq!(h.selected(), 4);
    h.select_by_key(9);
    assert_eq!(h.selected(), 8);
    assert_eq!(h.selected_item(), None);
    h.select_by_key(0);
    assert_eq!(h.selected(), 8);
    h.select_by_key(10);
    assert_eq!(h.selected(), 8);
}

#[test]
fn hotbar_scroll_wraps() {
    let mut h = Hotbar::new();
    h.scroll(-1);
    assert_eq!(h.selected(), 8);
    h.scroll(1);
    assert_eq!(h.selected(), 0);
    h.scroll(0);
    assert_eq!(h.selected(), 0);
    h.scroll(5);
    assert_eq!(h.selected(), 1);
}

#[test]
fn hotbar_items_by_index() {
    let mut h = Hotbar::new();
    assert_eq!(h.get_item(1).map(|i| i.block_type), Some(DIRT));
    assert!(h.get_item(20).is_none());
    h.set_item(7, Some(HotbarItem::from_block(GLASS)));
    assert_eq!(h.get_item(7).map(|i| i.block_type), Some(GLASS));
    h.set_item(0, None);
    assert!(h.get_item(0).is_none());
    h.set_item(30, Some(HotbarItem::from_block(GLASS)));
    h.set_visible(false);
    assert!(!h.is_visible());
}

#[test]
fn pick_selects_existing_slot() {
    let mut h = Hotbar::new();
    let before = *h.slots();
    assert!(!h.pick_block(WATER));
    assert_eq!(h.selected(), 5);
    assert_eq!(*h.slots(), before);
}

#[test]
fn pick_fills_first_empty_slot() {
    let mut h = Hotbar::new();
    assert!(h.pick_block(IRON_BLOCK));
    assert_eq!(h.selected(), 6);
    assert_eq!(h.selected_block_type(), Some(IRON_BLOCK));
    assert!(h.pick_block(COAL_ORE));
    assert_eq!(h.selected(), 7);
}

#[test]
fn pick_replaces_selected_when_full() {
    let mut h = Hotbar::new();
    for (i, b) in [100u8, 101, 102].iter().enumerate() {
        h.set_item(6 + i, Some(HotbarItem::from_block(*b)));
    }
    h.select(2);
    assert!(h.pick_block(OAK_LOG));
    assert_eq!(h.selected(), 2);
    assert_eq!(h.selected_block_type(), Some(OAK_LOG));
    assert_eq!(h.get_item(1).map(|i| i.block_type), Some(DIRT));
}

#[test]
fn pick_air_does_nothing() {
    let mut h = Hotbar::new();
    h.select(3);
    assert!(!h.pick_block(AIR));
    assert_eq!(h.selected(), 3);
    assert_eq!(h.get_item(6), None);
}

#[test]
fn pick_twice_is_stable() {
    let mut h = Hotbar::new();
    assert!(h.pick_block(GLASS));
    let first = h.selected();
    assert!(!h.pick_block(GLASS));
    assert_eq!(h.selected(), first);
    assert_eq!(h.slots().iter().filter(|s| s.map(|i| i.block_type) == Some(GLASS)).count(), 1);
}

#[test]
fn category_names() {
    assert_eq!(BlockCategory::All.name(), "All Blocks");
    assert_eq!(BlockCategory::Ores.name(), "Ores");
    assert_eq!(BlockCategory::Metal.name(), "Metal");
}

#[test]
fn inventory_items_from_block_and_categories() {
    let mut reg = BlockRegistry::new();
    reg.register(def("marble", 120, "Marble", DataCategory::Building));
    let item = InventoryItem::from_block(&reg, 120);
    assert_eq!(item.name, "Marble");
    assert_eq!(item.category, BlockCategory::Building);
    assert_eq!(InventoryItem::categorize(&reg, COAL_ORE), BlockCategory::Ores);
    assert_eq!(InventoryItem::categorize(&reg, OAK_LOG), BlockCategory::Wood);
    assert_eq!(InventoryItem::categorize(&reg, 250), BlockCategory::Basic);
    assert_eq!(InventoryItem::from_block(&reg, 250).name, "block_250");
}

#[test]
fn inventory_of_empty_registry_lists_builtin_blocks_sorted() {
    let reg = BlockRegistry::new();
    let inv = Inventory::new(&reg);
    let items = inv.items();
    assert_eq!(items.len(), 47);
    assert_eq!(items[0].block_type, STONE);
    assert_eq!(items[46].block_type, CUSTOM_104);
    assert!(items.windows(2).all(|w| w[0].block_type <= w[1].block_type));
    assert_eq!(items[0].category, BlockCategory::Basic);
    assert!(!inv.is_visible());
    assert_eq!(inv.category(), BlockCategory::All);
}

#[test]
fn inventory_of_registry_skips_air_and_sorts() {
    let mut reg = BlockRegistry::new();
    reg.register(def("glass", 63, "Glass", DataCategory::Building));
    reg.register(def("air", 0, "Air", DataCategory::Basic));
    reg.register(def("stone", 1, "Stone", DataCategory::Stone));
    let inv = Inventory::new(&reg);
    let kinds: Vec<u8> = inv.items().iter().map(|i| i.block_type).collect();
    assert_eq!(kinds, vec![1, 63]);
    assert_eq!(inv.items()[0].category, BlockCategory::Stone);
}

#[test]
fn inventory_filter_by_tab() {
    let mut reg = BlockRegistry::new();
    reg.register(def("glass", 63, "Glass", DataCategory::Building));
    reg.register(def("stone", 1, "Stone", DataCategory::Stone));
    reg.register(def("bricks", 60, "Bricks", DataCategory::Building));
    let mut inv = Inventory::new(&reg);
    assert_eq!(inv.filtered_items().len(), 3);
    inv.set_category(BlockCategory::Building);
    let shown: Vec<u8> = inv.filtered_items().iter().map(|i| i.block_type).collect();
    assert_eq!(shown, vec![60, 63]);
    assert_eq!(inv.handle_click(1), Some(63));
    assert_eq!(inv.dragging(), Some(63));
    assert_eq!(inv.handle_click(5), None);
    assert_eq!(inv.dragging(), Some(63));
    inv.set_category(BlockCategory::Metal);
    assert!(inv.filtered_items().is_empty());
}

#[test]
fn inventory_visibility_and_selection() {
    let reg = BlockRegistry::new();
    let mut inv = Inventory::new(&reg);
    inv.toggle();
    assert!(inv.is_visible());
    inv.select_block(GLASS);
    inv.toggle();
    assert!(!inv.is_visible());
    assert_eq!(inv.take_selected_block(), Some(GLASS));
    assert_eq!(inv.take_selected_block(), None);
    inv.select_block(DIRT);
    inv.show();
    assert!(inv.is_visible());
    assert_eq!(inv.take_selected_block(), None);
    inv.close();
    assert!(!inv.is_visible());
}

#[test]
fn inventory_drag_and_hover() {
    let reg = BlockRegistry::new();
    let mut inv = Inventory::new(&reg);
    inv.set_hovered(Some(3));
    assert_eq!(inv.hovered(), Some(3));
    inv.start_drag(SAND);
    assert_eq!(inv.dragging(), Some(SAND));
    assert_eq!(inv.end_drag(), Some(SAND));
    assert_eq!(inv.dragging(), None);
    inv.start_drag(SAND);
    inv.cancel_drag();
    assert_eq!(inv.end_drag(), None);
}

#[test]
fn inventory_reload() {
    let mut reg = BlockRegistry::new();
    let mut inv = Inventory::new(&reg);
    assert_eq!(inv.items().len(), 47);
    reg.register(def("stone", 1, "Stone", DataCategory::Stone));
    inv.reload_from_registry(&reg);
    assert_eq!(inv.items().len(), 1);
}

#[test]
fn menu_shader_numbers() {
    assert_eq!(ElementType::Button.shader_index(), 0);
    assert_eq!(ElementType::Overlay.shader_index(), 8);
    assert_eq!(element_state(ElementType::Button, true), 1);
    assert_eq!(element_state(ElementType::Button, false), 0);
    assert_eq!(element_state(ElementType::ButtonDanger, true), 3);
}

#[test]
fn full_menu_clicks() {
    assert_eq!(handle_menu_click(MenuState::Main, "resume"), (MenuState::Hidden, MenuAction::Resume));
    assert_eq!(handle_menu_click(MenuState::Main, "settings"), (MenuState::Settings, MenuAction::Settings));
    assert_eq!(handle_menu_click(MenuState::Main, "quit"), (MenuState::Main, MenuAction::QuitToDesktop));
    assert_eq!(handle_menu_click(MenuState::Main, "back"), (MenuState::Main, MenuAction::NoAction));
    assert_eq!(handle_menu_click(MenuState::Settings, "save"), (MenuState::Main, MenuAction::SaveSettings));
    assert_eq!(handle_menu_click(MenuState::Settings, "back"), (MenuState::Main, MenuAction::BackToMain));
    assert_eq!(handle_menu_click(MenuState::Settings, "resume"), (MenuState::Settings, MenuAction::NoAction));
    assert_eq!(handle_menu_click(MenuState::Hidden, "resume"), (MenuState::Hidden, MenuAction::NoAction));
}

#[test]
fn game_menu_toggles_and_presses() {
    let mut m = GameMenu::new(800, 600);
    assert!(!m.is_visible());
    assert_eq!(m.press("resume"), MenuAction::NoAction);
    m.toggle();
    assert_eq!(m.state(), MenuState::Main);
    m.toggle();
    assert_eq!(m.state(), MenuState::Hidden);
    m.toggle();
    assert_eq!(m.press("settings"), MenuAction::Settings);
    assert_eq!(m.state(), MenuState::Settings);
    assert_eq!(m.press("quit"), MenuAction::QuitToDesktop);
    assert_eq!(m.press("resume"), MenuAction::Resume);
    assert!(!m.is_visible());
    m.toggle();
    m.close();
    assert_eq!(m.state(), MenuState::Hidden);
    m.resize(1024, 768);
    assert_eq!((m.width(), m.height()), (1024, 768));
}

#[test]
fn hotbar_default_is_new() {
    let h = Hotbar::default();
    assert_eq!(h.selected(), 0);
    assert_eq!(h.selected_block_type(), Some(STONE));
}

#[test]
fn frame_counter_digits() {
    assert_eq!(decimal_digits(0), vec![0]);
    assert_eq!(decimal_digits(7), vec![7]);
    assert_eq!(decimal_digits(120), vec![1, 2, 0]);
    assert_eq!(decimal_digits(u32::MAX), vec![4, 2, 9, 4, 9, 6, 7, 2, 9, 5]);
    for n in [0u32, 9, 10, 59, 60, 144, 1000, 65535] {
        let text: String = decimal_digits(n).iter().map(|d| char::from(b'0' + d)).collect();
        assert_eq!(text, n.to_string());
    }
    assert_eq!(digit_segments(8), [true; 7]);
    assert_eq!(digit_segments(1), [false, true, true, false, false, false, false]);
    assert_eq!(digit_segments(0), [true, true, true, true, true, true, false]);
    assert_eq!(digit_segments(12), [false; 7]);
}

#[test]
fn escape_toggles_full_menu() {
    assert_eq!(kimi_voxel::gui::menu::toggle_state(MenuState::Hidden), MenuState::Main);
    assert_eq!(kimi_voxel::gui::menu::toggle_state(MenuState::Main), MenuState::Hidden);
    assert_eq!(kimi_voxel::gui::menu::toggle_state(MenuState::Settings), MenuState::Hidden);
}

#[test]
fn inventory_items_carry_block_colours() {
    let mut reg = BlockRegistry::new();
    let mut d = def("marble", 120, "Marble", DataCategory::Building);
    d.color = kimi_voxel::blocks::definition::ColorDef::PerFace { top: [1, 2, 3], side: [4, 5, 6], bottom: [7, 8, 9] };
    reg.register(d);
    let item = InventoryItem::from_block(&reg, 120);
    assert_eq!((item.top_color, item.side_color), ([1, 2, 3], [4, 5, 6]));
    let inv = Inventory::new(&reg);
    assert_eq!((inv.items()[0].top_color, inv.items()[0].side_color), ([1, 2, 3], [4, 5, 6]));
    let unknown = InventoryItem::from_block(&reg, 9);
    assert_eq!(unknown.top_color.map(f32::from_bits), [0.5; 3]);
    assert_eq!(unknown.side_color.map(f32::from_bits), [0.4; 3]);
}

#[test]
fn mouse_routing() {
    assert_eq!(route_mouse(true, true, true, MouseButton::Left, true), MouseRoute::InventoryDown);
    assert_eq!(route_mouse(true, false, false, MouseButton::Left, false), MouseRoute::InventoryUp);
    assert_eq!(route_mouse(true, false, true, MouseButton::Right, true), MouseRoute::Ignore);
    assert_eq!(route_mouse(false, true, true, MouseButton::Left, true), MouseRoute::MenuButton { pressed: true, click: true });
    assert_eq!(route_mouse(false, true, true, MouseButton::Left, false), MouseRoute::MenuButton { pressed: false, click: false });
    assert_eq!(route_mouse(false, true, true, MouseButton::Middle, true), MouseRoute::Ignore);
    assert_eq!(route_mouse(false, false, true, MouseButton::Left, true), MouseRoute::BreakBlock);
    assert_eq!(route_mouse(false, false, true, MouseButton::Right, true), MouseRoute::PlaceBlock);
    assert_eq!(route_mouse(false, false, true, MouseButton::Middle, true), MouseRoute::PickBlock);
    assert_eq!(route_mouse(false, false, true, MouseButton::Left, false), MouseRoute::Ignore);
    assert_eq!(route_mouse(false, false, false, MouseButton::Left, true), MouseRoute::Ignore);
}
