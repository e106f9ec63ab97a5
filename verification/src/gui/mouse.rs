use vstd::prelude::*;
use crate::blocks::block_breaker::MouseButton;

verus! {

/// What a mouse button event is for.
#[derive(Debug, Clone, Copy, PartialEq, Eq, Structural)]
pub enum MouseRoute {
    /// The left button went down over the open inventory.
    InventoryDown,
    /// The left button came up over the open inventory.
    InventoryUp,
    /// The left button changed over the open menu: remember whether it is held, and click the
    /// menu when it went down.
    MenuButton { pressed: bool, click: bool },
    /// Break the targeted block.
    BreakBlock,
    /// Place a block against the targeted one.
    PlaceBlock,
    /// Pick the targeted block into the hotbar.
    PickBlock,
    /// Nothing to do.
    Ignore,
}

/// Where a mouse button event goes: the open inventory takes the left button first, then the
/// open menu takes it; otherwise, while the cursor is grabbed for play, a press of the left,
/// right or middle button breaks, places or picks a block. Anything else is ignored.
pub open spec fn spec_route_mouse(
    inventory_visible: bool,
    menu_visible: bool,
    cursor_grabbed: bool,
    button: MouseButton,
    pressed: bool,
) -> MouseRoute {
    if inventory_visible {
        if button == MouseButton::Left {
            if pressed { MouseRoute::InventoryDown } else { MouseRoute::InventoryUp }
        } else {
            MouseRoute::Ignore
        }
    } else if menu_visible {
        if button == MouseButton::Left {
            MouseRoute::MenuButton { pressed, click: pressed }
        } else {
            MouseRoute::Ignore
        }
    } else if cursor_grabbed && pressed {
        match button {
            MouseButton::Left => MouseRoute::BreakBlock,
            MouseButton::Right => MouseRoute::PlaceBlock,
            MouseButton::Middle => MouseRoute::PickBlock,
        }
    } else {
        MouseRoute::Ignore
    }
}

/// Where a mouse button event goes (see `spec_route_mouse`).
pub fn route_mouse(
    inventory_visible: bool,
    menu_visible: bool,
    cursor_grabbed: bool,
    button: MouseButton,
    pressed: bool,
) -> (r: MouseRoute)
    ensures
        r == spec_route_mouse(inventory_visible, menu_visible, cursor_grabbed, button, pressed),
{
    if inventory_visible {
        match button {
            MouseButton::Left => if pressed { MouseRoute::InventoryDown } else { MouseRoute::InventoryUp },
            _ => MouseRoute::Ignore,
        }
    } else if menu_visible {
        match button {
            MouseButton::Left => MouseRoute::MenuButton { pressed, click: pressed },
            _ => MouseRoute::Ignore,
        }
    } else if cursor_grabbed && pressed {
        match button {
            MouseButton::Left => MouseRoute::BreakBlock,
            MouseButton::Right => MouseRoute::PlaceBlock,
            MouseButton::Middle => MouseRoute::PickBlock,
        }
    } else {
        MouseRoute::Ignore
    }
}

/// Law: no block is broken, placed or picked while the inventory or the menu is open, or
/// while the cursor is free, or on a button release.
pub proof fn lemma_world_only_in_play(
    inventory_visible: bool,
    menu_visible: bool,
    cursor_grabbed: bool,
    button: MouseButton,
    pressed: bool,
)
    ensures
        ({
            let r = spec_route_mouse(inventory_visible, menu_visible, cursor_grabbed, button, pressed);
            (r == MouseRoute::BreakBlock || r == MouseRoute::PlaceBlock || r == MouseRoute::PickBlock) ==> (
            !inventory_visible && !menu_visible && cursor_grabbed && pressed)
        }),
{
}

} // verus!
