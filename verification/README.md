# ratatui-3dmesh

Core of a terminal 3D mesh viewer for Ratatui, written in Verus.

- `src/` is the verified library: OBJ, MTL and STL parsing (numbers are kept as
  validated float tokens), the integer side of glTF loading (pixel-format
  conversion, node parents, index lists, face corners), texture decoding
  through the `image` crate, keyboard command decisions, and the
  animation-frame cache with its laws (`law_*` proof functions).
- `app/` is ordinary Rust around it: file I/O, float geometry, projection and
  rasterization into a Ratatui buffer, the widget and the crossterm key map.
- `tests/` exercises the library on concrete inputs.
