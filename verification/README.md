# ldtk_integration

Game-facing data model and rules for LDtk worlds, verified with Verus.

The library (`src/`) holds everything that decides or computes:

- `catalog`, `builder`, `refresh`: the map catalog of worlds, levels, layers,
  tilesets, tiles, spawn points, entity snapshots and neighbour links, built
  from plain project data; the load statistics and load status after a
  rebuild.
- `config`, `capture`: layer filters, IntGrid collision rules, and the
  runtime capture of collision cells and entity instances, with the clean-up
  when a level is despawned.
- `registry`, `validation`: spawner lookup by layer and entity, and the
  validation report.
- `level_manager`, `state`: level transitions, spawn-point resolution,
  clean-up decisions, runtime state and queued commands.
- `animation`, `fields`, `text`, `geometry`, `keyed_map`: the tile animation
  convention in tile custom data, typed field values, the string and
  coordinate helpers, and the insertion-ordered maps the catalogs use.

`app/` is the Bevy plugin around it: asset loading through `bevy_ecs_ldtk`,
ECS systems that hand the library plain values, and the engine work that its
decisions call for (spawning, despawning, moving the player, frame timers).
