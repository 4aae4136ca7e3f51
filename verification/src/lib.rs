//! A slide renderer for a stylized markdown dialect, built on a packed
//! bitmap-font format.
//!
//! The library decodes packed glyph tables, measures and word-wraps byte
//! text, walks a parsed document tree and a slide/grid content tree, and
//! turns them into a deterministic stream of pixel-level draw operations
//! (points, filled rectangles, image blits). Reading source files, parsing
//! markdown text into a tree, and presenting the draw stream on a window
//! are left to the surrounding program.

pub mod draw;
pub mod md;
pub mod slide;
pub mod uf2;
