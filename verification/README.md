# vellum

The logic of `vellum`, a Wayland overlay for drawing over the desktop, as a
library verified with Verus, and the `vellum` command around it.

## Layout

- `src/` — the verified library.
  - `document.rs`, `history.rs`: the annotations, the selection, and undo and
    redo of every edit, with the round trip of undo and redo proved.
  - `text_edit.rs`: typing into a text annotation; the cursor moves by
    grapheme clusters and words as `unicode-segmentation` finds them.
  - `editor.rs`, `tool.rs`: the active tool, the eraser toggle, per-tool
    properties and fills, the tool and color wheels, what pressing, moving
    and releasing do with each tool given the hit tests' results (strokes,
    shapes, moves and resizes become recorded edits), committing typed text
    as an annotation, and what each editing action (undo, redo, select all,
    delete, clear, Escape, typing) does to the editor.
  - `adjust.rs`: which property a wheel step adjusts, and the note showing
    its new value and when it expires.
  - `damage.rs`: how much of the picture an event asks to redraw.
  - `input.rs`, `keys.rs`, `handles.rs`: pointer, pen and key events turned
    into the actions the overlay performs (press, move, release, wheel,
    undo), and cursor shapes; where the pointer is stays the caller's.
  - `settings.rs`, `config_files.rs`: checking the configuration, its
    defaults, and finding the configuration file.
  - `protocol.rs`: the datagrams of the control socket.
  - `stroke.rs`: the last segment of a path and the runs of a live stroke.
- `tests/` — tests of the library.
- `app/` — the command: argument parsing, reading the configuration file,
  and the control socket. It holds no Wayland surface or renderer.
