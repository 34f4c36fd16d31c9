//! A software 2D compositor: geometry, premultiplied colors, pixel buffers,
//! glyph layout and progress widgets.
pub mod geometry;
pub mod color;
pub mod buffer;
pub mod font;
pub mod layout;
pub mod widget;
pub mod screen;
