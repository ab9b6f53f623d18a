# GrabIt

A screenshot, annotation and GIF tool. The library under `src/` holds what the program
decides and computes, each function with a contract that Verus proves. The program under
`app/` holds files, the operating system, floating point and the fonts.

## Layout

- `text`, `px`, `image`, `clock`, `capture`: plain values. A pixel distance is a `Px`,
  the bits of a 32-bit float; the library compares and clamps it but does not calculate
  with it.
- `codec`: reading, writing, turning and scaling of pictures by the crate `image`, and
  base64. Here and in `clock`, `hotkeys::bindings`, `export::gif`, `editor::document`,
  `editor::preset_panel`, `presets` and `text` stand the functions whose contracts are
  believed rather than proved; each says so in its doc comment.
- `presets`, `settings`, `hotkeys`, `history`, `app`, `platform`: the rules around
  captures, from chords and file names to the event loop.
- `editor`: the document and its history of commands, the two editor windows (`session`
  and `app`), their panels, the GIF editor, and the way a document is baked into a
  picture (`flatten`, `paint`, `layout`, `rasterize`).
- `export`: PNG files, GIF frames and clipboard formats.

What only floating point can decide is handed to the library as plain values or as
functions: whether a pixel lies in a shape, how a picture is softened, whether a word
still fits on a line. The contracts hold whatever these answer.

The public proof functions whose names begin with `law_` state what holds of the library
as a whole.
