# screenshot_tool

A full-screen screenshot annotation tool: it captures the screen, lets the user
select a region, draw rectangles, ellipses, arrows, brush strokes, text
(including input-method composition for Chinese and other languages) and
mosaics on it, and saves the result as a PNG file or copies it to the
clipboard.

The core is a library verified with Verus:

- `src/text_input.rs` — text entry: committed text, input-method composition
  (preedit/commit) and Backspace, per event and per frame.
- `src/editor.rs` — the editor state machine: region selection and resizing,
  the toolbar, tools and their settings, canvas drags, text entry, undo, and
  the end-of-frame actions (save, copy, close with a countdown). Every
  operation is specified as a function on the editor's mathematical view.
- `src/raster.rs` — pixel work on an `image::RgbaImage`: cropping the
  selection out of the screenshot, mosaics, rectangle outlines and line
  cross-sections.
- `src/style.rs` — tools, line widths, text sizes and colours.
- `src/laws.rs` — properties that span several operations: what every
  reachable editor satisfies and that its state never goes back, the order
  in which annotations are painted, saving text with Enter, undo, the exit
  countdown, and that pixelating twice changes nothing.

`app/` is the program around it: the egui/eframe window, floating-point
geometry (toolbar placement, hit tests, resizing, ellipses, line
interpolation, glyph rendering), screen capture, font loading, file saving and
the clipboard.
