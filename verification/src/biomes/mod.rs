pub mod types;
pub mod climate;
pub mod features;
pub mod foliage;
pub mod registry;
