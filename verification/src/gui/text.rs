use vstd::prelude::*;

verus! {

/// Horizontal alignment of a text.
#[derive(Debug, Clone, Copy, PartialEq, Eq, Structural)]
pub enum TextAlign {
    Left,
    Center,
    Right,
}

} // verus!
