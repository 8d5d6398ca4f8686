# rl2_launcher

The decision logic of a launcher for Rogue Legacy 2 and its mods, verified with Verus.

- `src/paths.rs`: the game's files inside an installation, the saved-path file,
  and the choice of the mods' description files.
- `src/manifest.rs`: reading a mod's name, author and version from its
  description file (parsed by `serde_json`).
- `src/selection.rs`: the sets of enabled and disabled mods, and the laws of a
  click, of loading an installation and of the mod loader's list.
- `src/launch.rs`: what a launch writes and how it starts the game.
- `src/window.rs`: the title bar's buttons.
- `src/frontend.rs`: the launcher page's steps between its requests.
- `app/`: the Tauri host, which does the file and process work.
