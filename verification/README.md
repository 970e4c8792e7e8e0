# csgo_runtime

A reader of CS:GO's process memory, split into a verified library and a thin
Windows program.

- `src/` (verified with Verus)
  - `mem/signature.rs`: the textual signature format (`"8B 0D ? ?"`), the
    byte regex pattern generated from it, and what such a pattern matches.
  - `mem/mod.rs`: `generate_regex` and `find_pattern` on top of the `regex`
    crate; where the `regex` crate accepts the generated pattern,
    `find_pattern` returns the first offset at which a well-formed signature
    occurs, and the generated regex matches exactly that signature.
  - `mem/process.rs`: picking the game among the process snapshot entries,
    the process record, and the cache of its modules.
  - `runtime.rs`: module-relative addresses, typed remote pointers, and the
    scan of the entity list that keeps the living players.
  - `player.rs`: entity players and the addresses and values of their
    fields.
  - `hazedumper.rs`: the offsets of a game build, read from hazedumper's
    JSON output.
- `app/`: the Windows side: snapshots, opening the process, reading and
  writing its memory, loading the offsets, and the main loop.
- `tests/`: tests of the library.
