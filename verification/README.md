# apprentice

The rules of a small roguelike — an apprentice descends into a fortress to bring back a
talisman — written as a library whose behaviour is stated in `requires`/`ensures` contracts and
proved with Verus.

## Layout

- `src/` — the verified library.
  - `components.rs`, `ecs.rs`: the components of the world and their storages (one
    `Vec<Option<C>>` per component, indexed by entity).
  - `level.rs`, `dungeon.rs`, `geometry.rs`: levels, tiles and coordinates.
  - `systems/`, `combat.rs`, `damage.rs`: the systems that update the world each turn. Each one
    is specified as a fold of a per-entity step over the entities in order.
  - `run_state.rs`, `schedule.rs`: the game's screens as a state machine from state and input to
    next state and commands, and the systems run in each state.
  - `screens.rs`, `map_view.rs`, `render.rs`: what each screen shows.
  - `queries.rs`: what the player sees and can do.
  - `spawner.rs`, `services.rs`: what new entities are made of, and queued requests for them.
  - `settings.rs`: key bindings.
  - `rng.rs`, `glyphs.rs`: the calls into `rltk` and what they are trusted to do.
  - `laws.rs`: properties that relate several functions.
- `tests/`: tests run against the compiled library.
- `app/`: the console, keyboard and disk around the library: colours and drawing with `rltk`,
  key codes, RON key-binding files, path searches, and entities built from blueprints.
