# herdr_gui

The desktop GUI client of herdr, with its decision-making and drawing
logic verified by Verus.

`src/` is the verified library:

- `color`, `draw`, `render`: wire-color decoding, a clipped CPU canvas
  (fills, outlines, blending, dots, glyphs, text runs) and the rasterizer
  that paints a terminal frame cell by cell, with the cursor on top.
- `layout`, `view`, `chrome`, `settings`: where the sidebar rows, tabs,
  toolbar buttons, pane slots and settings popup go, and the ordered list
  of paint operations that draws them.
- `model`, `worker`, `panes`, `connection`: the UI model, the commands the
  UI sends, the step-by-step fetch of a fresh model, the table of
  per-pane terminal streams, and the handshake verdict.
- `input`, `native`, `selection`, `mirror`, `args`: key and mouse
  mapping, chrome clicks, text selection and its copy, the mirror
  window's grid and held buttons, and command-line parsing.
- `schema`, `frame`, `protocol`, `font`, `theme`: the records the server
  sends and the input events sent back, glyph bitmaps and text styles, and
  the chrome palette derived from a theme.

Each public function states its result in `ensures`; laws that span
several functions are public proof functions next to them.

`app/` holds what Verus does not see: the fontdue glyph cache, winit input
conversion, float geometry (scroll wheels, the settings gear), the paint
executor and PNG output. `tests/` exercises the library on concrete values.

`app/` does not yet hold the window event loops, the API worker thread,
the server connection, the per-pane terminal streams or snapshot capture:
they rest on the herdr server's client protocol, IPC transport,
configuration and application state, which this repository does not
contain. Until they are added, nothing runs `ModelFetch`, `chrome_click`
or `PaneTable` outside the tests; the library states what each of them
does with the events and replies those loops would hand it.
