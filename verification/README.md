# eldiron

The game logic of the Eldiron role playing game creator as a verified library: behavior
graphs and their node values, region tiles, path finding, conversations and waiting,
items, skills and level trees, targeted actions, map topology, the node libraries of the
material and region effect editors, the code editor widget, the start and end of each
instance's turn in a tick, creating and respawning instances, the settings read when a
region is set up or an item's state is created, the editor's server controls, the server's
bookkeeping of players and the routing of their actions, and the distribution of regions
over server threads. Every function in `src/` carries a contract that Verus proves.

- `src/` — the library. Data that the engine keeps in hash maps is held in vectors
  searched in order, except the tables keyed by player id, which stay hash maps;
  single-precision coordinates of the map are held by their bit patterns.
- `src/roots.rs` — the single-precision square root the game measures distances with,
  computed exactly with whole numbers.
- `src/laws.rs` — properties that span several functions (reading back stored values,
  distances, walking, numbers as text, routing of player actions, respawns, materials,
  slot settings, regions over threads).
- `tests/` — tests of the library on concrete values.
- `app/` — a command line front end: threads running region pools, reading script files,
  the clock, reading packed player actions, and triangulation with `earcutr`.
