# schemaic_ui

The logic behind the screens of a database client: the results grid, its toolbar and row panel, the
import modal, the event editor and the query history. What each of them shows, allows and asks for is
decided here, by functions whose contracts are proved with Verus.

- `src/` is the library. `model`, `keymap` and `text` hold what everything else is built from; `state`
  is the grid, and `sort`, `find`, `selection`, `geometry`, `keys`, `cell`, `headers` and `toolbar` say
  how it is ordered, searched, walked and drawn. `staged`, `plan` and `commit` carry an edit from the
  cell to the write; `query`, `paste` and `assistant` are the other ways in. `json` and `row_panel` are
  the panel of one row, `import_read` and `import_modal` the import, `events` the event editor and
  `history` the query history.
- `app/` draws it with floem: lengths and numbers in floating point, the clipboard, files and the
  network stay there.
- `tests/` runs the library on concrete values.
