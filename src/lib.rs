//! Bitmap-font text for a small 2D renderer: a verified BMFont descriptor
//! parser, a per-character glyph table, and a text layout that turns a
//! string into an ordered list of draw commands; with the small pieces of
//! engine state around them (shaders, textures, input, a fixed-step clock).
pub mod chars;
pub mod command;
pub mod descriptor;
pub mod font;
pub mod geometry;
pub mod input;
pub mod number;
pub mod shader;
pub mod text;
pub mod texture;
pub mod timestep;
pub mod window;
