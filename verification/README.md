# asciirogue

A Korean-first terminal roguelike: BSP-generated floors drawn with half-block
walls, a hero who fights, picks up and wears items, and descends eight floors
to a boss, with a soul remembrance carried between runs.

The rules are a library verified with Verus:

- `src/` — the verified library: components, i18n, meta progression, the
  damage and attack formulas, enemy AI, the BSP generator, wall glyphs, field
  of view (through `doryen-fov`), and the game itself (`src/game/`): the
  floor's entities, items and pickup, spawning, the key-driven state machine,
  the nearest-item and stairs searches, the status lines and the laws that
  hold across operations (`src/game/laws.rs`).
  The entities of a floor live in the library's own `World` (the hero, a
  `Vec` of monsters, a `Vec` of ground items), not in an ECS such as `hecs`:
  the game logic reads every component of every entity, and an ECS keeps them
  in type-erased storage reached through generic, trait-bound queries, which
  verified code cannot call or see into. Keeping `hecs` behind trusted items
  was not attempted for that reason: every query result would have been
  opaque to the proofs.
- `app/` — the terminal program: the event loop (`crossterm`), drawing
  (`ratatui`), the save file (`serde` + `ron`), command-line handling, the
  line-of-sight walk and the knob sliders (both work in `f32`).
- `tests/` — tests of the library run against the real outside crates.

Keys: `hjkl`/`yubn`/arrows move, `.` waits, `g` picks up, `i` opens the
inventory, `p` drinks a potion, `y`/`n` answer the stairs prompt, `R`
restarts, `S` saves, `L` toggles the language, `?` shows help, `q` quits.
Gold never takes an inventory slot: it goes straight to the wallet. Other
items are picked up all or nothing: when they do not all fit, none is taken.
Only one monster attacks per turn, and a monster that has just attacked sits
out the rest of that enemy phase.
