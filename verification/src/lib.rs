pub mod terrain;
pub mod blocks;
pub mod biomes;
pub mod gui;
pub mod player;
pub mod audio;
