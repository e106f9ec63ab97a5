use vstd::prelude::*;

verus! {

/// Kind of surroundings, for sound effects.
#[derive(Clone, Copy, Debug, PartialEq, Eq, Structural)]
pub enum EnvironmentType {
    OpenField,
    Forest,
    Cave,
    TightSpace,
    DeepUnderground,
}

impl Default for EnvironmentType {
    /// Open field.
    fn default() -> (r: Self)
        ensures
            r == EnvironmentType::OpenField,
    {
        EnvironmentType::OpenField
    }
}

} // verus!
