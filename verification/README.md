# bevy_trenchbroom

TrenchBroom integration logic for Bevy games, verified with Verus: entity classes and their
FGD definitions, FGD property values, the TrenchBroom game configuration, and the irradiance
volumes and textures built from BSP data.

## Layout

- `src/` — the verified library.
  - `class.rs`, `registry.rs` — entity classes, the registry of types and classes, class
    conflicts, spawn order.
  - `fgd.rs`, `fgd_write.rs`, `definitions.rs`, `builtin.rs` — reading and writing FGD values,
    writing FGD files, data-driven entity definitions, the built-in classes.
  - `tb_types.rs`, `json.rs`, `game_config.rs`, `manifest.rs` — the game configuration and
    asset manifests.
  - `irradiance.rs`, `light_grid.rs`, `images.rs`, `shape.rs` — irradiance volumes, light
    grids and BSP textures.
  - `insertion.rs`, `bsp_models.rs` — choosing the map to spawn, reading entity properties,
    and the BSP models of entities.
  - `preferences.rs` — adding a game to TrenchBroom's preferences file.
  - `class_name.rs` — the classname a class attribute gives a type.
  - `text.rs`, `hooks.rs` — text helpers and replaceable hooks.
- `tests/` — tests of the library.
- `app/` — what stands around the library: files, directories, the environment, and
  floating-point settings.
