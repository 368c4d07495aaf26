//! Core of an interactive bitmap editor: pointer-to-pixel hit testing,
//! incremental canvas redraw planning, tool selection with keyboard cycling,
//! keybind dispatch, and a bounded undo system built on per-pixel diffs.
//! The raster buffer itself and its editing primitives come from the
//! `bmp_rust` crate, which this library drives through a small trusted
//! boundary in `image`.

pub mod color;
pub mod editor;
pub mod image;
pub mod keybinds;
pub mod mapper;
pub mod render;
pub mod text;
pub mod tools;
pub mod undo;
