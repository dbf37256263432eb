# holyland

The rules and world-building of a survival game set in medieval Cornwall,
written in Verus: every function of the library carries a contract that
Verus proves.

## Layout

- `src/` — the verified library.
  - `calendar`, `needs`, `rng`: game time, survival needs, the seeded
    generator.
  - `items`, `crafting`, `combat`, `flora`, `action`: items and the pack,
    recipes and cooking, melee and ranged rolls, plants, the action
    catalogue and what the action menu shows for each verb.
  - `geometry`, `line`, `cornwall`, `frontier`, `fasttravel`: integer
    geometry, Bresenham lines, the overmap of Cornwall (biomes, rivers,
    roads, named sites), exploration and chunk-level route planning.
  - `chunkgen`: the passes that fill a chunk's cells.
  - `city`, `city_stamp`, `buildings`: authored city skeletons, what is
    derived from them, stamping a city into a chunk, and the catalogue of
    building prefabs.
  - `fov`, `screen`, `atlases`, `input`, `debug_console`, `text`, `save`,
    `world`: shadowcast field of view, screen layout and the status lines,
    glyph atlases, input timing, the debug console's grammar and its
    commands, string helpers, save records, shared world types.
  - `ui`, `overmap_view`: the game screen's input modes as a state
    machine (pause menu, info hub, command menu, hold-Y radial, glyph
    palette, aiming cursor, overmap, death screen, the frame's travel and
    action ticks) and what the overmap shows.
  - `prefab_model`, `editor`, `edit_view`: the prefab editor's model, its
    answers to clicks and keys, and what its edit screen shows.
- `tests/` — tests of the library, run against the compiled crate.
- `app/` — the desktop driver: logging, the stdin console applying its
  commands, a window shell that runs key presses through the input modes,
  input devices, atlas discovery, persisted forms, and the
  floating-point terrain noise.
