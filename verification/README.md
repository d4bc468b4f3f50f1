# gnworld

A voxel-terrain viewer with a start menu and a free-flying camera, plus
SDL/OpenGL screens that draw a glyph and a textured cube.

- `src/` is the verified library (Verus): SDL-style rectangles, the
  decisions of the SDL screens and event loops, glyph bookkeeping and text
  quad geometry, camera movement input, the menu state machine, the OpenGL
  driver lookup, PNG-to-texture conversion (decoding through the `image`
  crate) and the height map's integer settings.
- `app/` is the program around it: the Bevy scene and systems, the SDL,
  GL, FreeType and glium calls, and everything computed in floating point.
- `tests/` runs the library on concrete inputs.
