# wayruler

The logic of WayRuler, a Wayland screen-measurement overlay, as a verified
library.

- `src/pixels.rs`: the captured screenshot (an `image::RgbaImage`): decoding
  it from the captured file's bytes, its size and its pixels.
- `src/edge_detector.rs`: edge detection along a row or column from the
  cursor; an edge is where the luminance contrast to the last edge exceeds
  the threshold, 25 by default.
- `src/overlay.rs`: overlay modes and how they are saved, the interaction
  state machine (mode buttons, pointer, wheel, close), the measured span, the
  strokes to draw and the label text.
- `src/project_content.rs`: rules of the project-content dump tool.
- `src/text.rs`: string equality, decimal numerals, trimming.

`app/` holds the GTK4 layer-shell window, running `spectacle` and reading
the captured file, and the file-system walk of the dump tool (run when the
program is started as `generate-full-project-content`).
