//! Decision logic of a small voxel-terrain viewer and its SDL/OpenGL
//! experiments: screen hit-testing, event handling, glyph bookkeeping,
//! text-quad geometry, PNG-to-texture conversion, camera movement input
//! and menu state.
//!
//! Everything that touches a window, the GPU, a font file or floating
//! point numbers lives in the application around this library.

pub mod rect;
pub mod screens;
pub mod glyphs;
pub mod input;
pub mod menu;
pub mod drivers;
pub mod terrain;
pub mod texture;
