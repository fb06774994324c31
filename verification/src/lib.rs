//! A Markdown-to-terminal rendering core.
//!
//! The library turns a stream of enter/exit traversal events over a parsed
//! Markdown document into renderable units with known cell heights, and packs
//! those units into a bounded viewport. Heading pixel buffers are built here
//! from glyph coverage data; fonts, terminals and image decoding live with
//! the host.

pub mod doc;
pub mod input;
pub mod model;
pub mod pack;
pub mod parse;
pub mod raster;
pub mod render;
pub mod style;
