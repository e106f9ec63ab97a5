# kimi_voxel

The game logic of a voxel sandbox, written in Verus and proved against its contracts.

- `src/` is the verified library:
  - `blocks/`: block kinds, block definitions and colour parsing, the block registry, the
    block texture atlas, and the block kinds the terrain generator uses.
  - `biomes/`: biome ids and the biome registry, tree placement into a chunk, and the foliage
    around the player.
  - `gui/`: hotbar, inventory, pause menu, mouse routing and frame-counter digits.
  - `player/`: camera modes and flight controls.
  - `audio/`, `terrain.rs`: shared enums and world-size constants.
- `tests/` runs the library on concrete values.
- `app/` is ordinary Rust around it: block files in JSON, the process-wide registries,
  floating-point colours, climate and hit-testing.
