use vstd::prelude::*;

verus! {

/// The world's climate map, determined by its seed.
#[derive(Clone, Copy, Debug, PartialEq, Eq)]
pub struct ClimateMap {
    seed: u64,
}

/// The seed of the default climate map.
pub const DEFAULT_CLIMATE_SEED: u64 = 42;

impl ClimateMap {
    /// The seed.
    pub closed spec fn seed_view(&self) -> u64 {
        self.seed
    }

    /// The climate map of a seed.
    pub fn new(seed: u64) -> (r: Self)
        ensures
            r.seed_view() == seed,
    {
        ClimateMap { seed }
    }

    /// The seed.
    pub fn seed(&self) -> (r: u64)
        ensures
            r == self.seed_view(),
    {
        self.seed
    }
}

impl Default for ClimateMap {
    /// The climate map of the default seed.
    fn default() -> (r: Self)
        ensures
            r.seed_view() == DEFAULT_CLIMATE_SEED,
    {
        ClimateMap::new(DEFAULT_CLIMATE_SEED)
    }
}

} // verus!
