use vstd::prelude::*;

verus! {

/// Mouse buttons the block breaker reacts to.
#[derive(Debug, Clone, Copy, PartialEq, Eq, Structural)]
pub enum MouseButton {
    Left,
    Right,
    Middle,
}

} // verus!
