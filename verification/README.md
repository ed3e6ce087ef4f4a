# ui

The view layer of a small text editor, verified with Verus.

`src/` is the library. Each module states what its functions do in
`requires`/`ensures` over mathematical models (characters as `Seq<char>`,
byte and UTF-16 offsets as spec functions over them) and proves it:

- `text`: UTF-8 and UTF-16 widths of characters, byte offsets of columns.
- `layout`: pixel geometry of the editor (whole pixels), display columns of
  byte offsets, mouse positions to display points.
- `render_model`: rendered lines (text with markers, style fragments,
  overlay boxes), the header, and the scrollbar thumb.
- `command`: keys to editor commands, selection states and command outcomes.
- `clipboard`: whole-line copy and cut, line-wise paste, spreading pasted
  lines over selections.
- `input`: UTF-16 and UTF-8 offset conversions for platform text input.
- `view`: the editor view's state machine (viewport, scrollbar, mouse, text
  input, cursor blink) and the plans it hands its caller for the editor.
- `paint`: layers and colors of what is painted.
- `workspace`: open editors, the active one, and their tabs.

The editor model, display snapshots and the project are owned by the caller:
the library takes what it needs of them as plain values and returns what to
do with them. `app/` is that caller for a GPUI window.
