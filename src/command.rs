//! The commands that the library hands to the graphics backend, in the order
//! in which the backend must carry them out.
use vstd::prelude::*;
use crate::geometry::Vector2;

verus! {

/// One quad to draw for one glyph: where it goes on screen, how large it is
/// there, and which rectangle of the atlas it shows.
#[derive(Clone, Copy, Debug, PartialEq, Eq, Structural)]
pub struct GlyphQuad {
    /// Top-left corner on screen.
    pub position: Vector2,
    /// Width and height on screen.
    pub size: Vector2,
    /// Top-left corner of the glyph's image in the atlas.
    pub atlas_position: Vector2,
    /// Width and height of the glyph's image in the atlas.
    pub atlas_size: Vector2,
}

/// A step of work for the graphics backend.
#[derive(Clone, Copy, Debug, PartialEq, Eq, Structural)]
pub enum RenderCommand {
    /// Make the texture with this object id the one that draws sample.
    BindTexture(u32),
    /// Leave no texture bound.
    UnbindTexture,
    /// Delete the texture with this object id from the device.
    DeleteTexture(u32),
    /// Make the shader program with this object id the active one.
    UseProgram(u32),
    /// Turn the shader's text mode on or off: in text mode the fragment
    /// stage reads the texture as a one-channel mask.
    SetTextMode(bool),
    /// Upload the atlas rectangle and the transform of one quad, then draw
    /// the shared unit quad (six indices, two triangles).
    DrawQuad(GlyphQuad),
}

} // verus!
