# shipcraft

The rules of a 2D space-ship building game, written in Verus and proved against their
contracts: the module and turret content tables, build mode, buildable hull sides and
room sides, blueprints (the order in which a structure's modules are replayed),
docking latches, projectile hits, inventories and their stat lines, the chunked save
file, instance ids, the station layout, the starting ship's fit-out, character actions
and animation frames, and the simulation bubble.

- `src/` is the verified library. Entities are carried as their `u64` bits; positions
  on a hull side are integer world units.
- `tests/` runs the library on concrete values.
- `app/` is the Bevy shell: the ECS systems, physics bodies, and reading and writing
  the save file. Floating-point work (motion, aiming, health arithmetic, rendering)
  stays there.
