# text_macro

The logic of a desktop text-macro picker, verified with Verus.

- `src/store.rs` — the macro list and settings (`AppState`): add, update,
  delete, reorder, export and import-merge, with their contracts over
  `Seq<Macro>` and the spec functions `without_id`, `reorder_list`,
  `upsert` and `merge_all`; a reorder (which passes over unknown
  identifiers) must name every macro once and then yields a permutation of
  the list.
- `src/shortcut.rs` — parsing of hotkey strings such as `Ctrl+Shift+K`
  into a `Shortcut`.
- `src/text.rs` — splitting on `'+'` and string comparison.
- `src/laws.rs` — properties that span several operations (import is
  idempotent, a backup imported into its own list changes nothing, deleting
  undoes adding, reordering by the list's own identifiers is the identity,
  hotkey word order, ASCII letter case in hotkeys does not matter).
- `src/focus.rs` — showing or hiding the picker, and which application to
  hand focus back to before pasting.
- `src/ids.rs`, `src/paths.rs` — the calls into `uuid` and `std::path`.
- `app/` — the Tauri shell: windows, tray, clipboard, key simulation,
  file I/O and JSON.
