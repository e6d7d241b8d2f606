# tvision

A terminal user-interface toolkit in the Turbo Vision tradition whose logic
is specified and proved with Verus.

- `src/` is the verified library: geometry and view state, colours and
  themes, commands and events, the drawing context (each drawing operation
  is described by the cells it writes), the list viewer and list boxes with
  type-to-search, the file dialog's directory tree and file listing, the
  status line, the window's focus cycling and sizing, and case-insensitive
  collation. Each public function states what it returns or changes; the
  `law_*` proof functions state properties that span several calls.
- `tests/` runs the library on concrete values.
- `app/` holds what touches the outside world: reading directories for the
  file dialog's panes and the status line's hint closure.
