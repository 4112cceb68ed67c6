# litadventure

A point-and-click 3D adventure game engine whose game rules are a library
verified with Verus, and whose rendering, input and UI run in Bevy.

## Layout

- `src/`: the verified library, one module per part of the game.
  - `inventory`: stacked items, two-item recipes (order-independent),
    picking items up.
  - `objectives`: objectives with conflicts and unlocks, completion by
    items held and camera spots reached.
  - `camera`, `navigation`: camera spot history, rooms, portals and the
    staged room transition.
  - `interaction`: what a click or a keyboard confirm does to the feedback
    line, camera and play state, and the effect left for the scene.
  - `input`: key bindings, raw input to intents, keyboard focus cycling.
  - `states`, `ui`: game states, pause, overlay panels, restart and the
    inventory panel's combine.
  - `hints`, `save`, `scene`, `item_preview`, `debug`, `game_data`: hint
    tiers, save/load and restoring scene state, scene links, preview slots,
    debug overlay classification, data readiness.
  - `seqs`, `text`: sequence search and string helpers shared by the proofs.
- `tests/`: executable tests of the library.
- `app/`: the Bevy program: ECS systems, rendering, egui panels, RON asset
  loading and file/browser storage. It hands plain values to the library and
  carries out what the library decides.

Contracts are stated over views (`Seq`, `Option`, plain integers) of the
library's types; the public `law_*` proof functions state properties that
span several operations (undoing, idempotence, order independence, round
trips).
