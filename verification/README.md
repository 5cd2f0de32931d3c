# wow_ui_sim

The logic of a World of Warcraft UI simulator, verified with Verus: WoW
markup and `string.format`, texture paths, crops and edge bleeding, the glyph
atlas, read-back images, the UI template registry and its inheritance chains,
saved-variable layout, crafting in bags, and the meaning of the Lua server's
replies.

- `src/` is the verified library. Each public function states its result in
  its contract; the `lemma_*` proof functions state properties that span
  several functions (what a cache gives back of what was stored, what a
  state machine allows, how an inheritance chain is ordered, ...).
- `tests/` runs the library on concrete values.
- `app/` is the I/O around it: the Lua server's Unix socket and JSON
  messages, environment settings, texture files and the persistent crop
  cache on disk, saved-variable files, and images read back from the GPU.
