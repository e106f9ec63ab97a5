pub mod types;
pub mod definition;
pub mod texture_atlas;
pub mod registry;
pub mod worldgen;
pub mod block_breaker;
