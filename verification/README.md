# libloadorder

A library for reading and changing the load order and the active state of the
plugins of Bethesda's games (Morrowind, OpenMW, Oblivion, Skyrim, Skyrim
Special Edition and VR, Fallout 3, New Vegas, Fallout 4 and VR, Starfield),
verified with Verus.

## Layout

- `src/` is the verified library. Its functions take and give plain values:
  the bytes and text of the games' files, the names of the installed plugins,
  the plugins' headers. Each public function states what it computes in its
  contract, and the load order operations are related to each other by laws
  (`src/load_order/laws.rs`, and beside the functions they concern).
  - `load_order/`: the load order and its operations: reading it
    (`readable`), changing it (`writable`, `mutable`, `hoist`), the rules that
    a valid load order follows (`validate`, `consistency`), what loading and
    saving read and write (`load`, `save`, `timestamp`, `openmw`).
  - `game_settings.rs`: where a game keeps its plugins and files, and which
    plugins it loads early or always activates.
  - `ini.rs`, `openmw_config.rs`: the games' ini files and OpenMW's configs.
  - `vdf.rs`: Steam's app manifests (KeyValues text) and the language they
    hold.
  - `plugin.rs`, `ghostable_path.rs`: plugins and their (ghosted) paths.
  - `encoding.rs`, `text.rs`, `paths.rs`, `message.rs`, `seqs.rs`: text,
    Windows-1252 encoding, paths and the error messages.
- `app/` is the file-system side: it finds a game's files, reads them into the
  library's values, and writes back what the library computes.
- `tests/` holds the tests, run against the compiled library.
