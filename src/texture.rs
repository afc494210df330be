//! The handle of a texture that lives on the graphics device, with the size
//! of the image it was made from.
use vstd::prelude::*;
use crate::command::RenderCommand;

verus! {

/// A texture object of the graphics device and the image's dimensions.
///
/// The handle is not `Clone`: whoever holds it owns the device object and
/// gives it back once, with `release`.
#[derive(Debug, PartialEq, Eq, Structural)]
pub struct Texture {
    opengl_object_id: u32,
    width: usize,
    height: usize,
    depth: usize,
}

impl Texture {
    pub closed spec fn id_spec(&self) -> u32 {
        self.opengl_object_id
    }

    pub closed spec fn width_spec(&self) -> usize {
        self.width
    }

    pub closed spec fn height_spec(&self) -> usize {
        self.height
    }

    pub closed spec fn depth_spec(&self) -> usize {
        self.depth
    }

    /// Records a texture object that was uploaded from an image of
    /// `width` by `height` pixels with `depth` channels.
    pub fn new(opengl_object_id: u32, width: usize, height: usize, depth: usize) -> (r: Texture)
        ensures
            r.id_spec() == opengl_object_id,
            r.width_spec() == width,
            r.height_spec() == height,
            r.depth_spec() == depth,
    {
        Texture { opengl_object_id, width, height, depth }
    }

    pub fn get_opengl_object_id(&self) -> (r: u32)
        ensures
            r == self.id_spec(),
    {
        self.opengl_object_id
    }

    pub fn get_width(&self) -> (r: usize)
        ensures
            r == self.width_spec(),
    {
        self.width
    }

    pub fn get_height(&self) -> (r: usize)
        ensures
            r == self.height_spec(),
    {
        self.height
    }

    pub fn get_depth(&self) -> (r: usize)
        ensures
            r == self.depth_spec(),
    {
        self.depth
    }

    /// The command that makes this texture the one that draws sample.
    pub fn activate(&self) -> (r: RenderCommand)
        ensures
            r == RenderCommand::BindTexture(self.id_spec()),
    {
        RenderCommand::BindTexture(self.opengl_object_id)
    }

    /// Gives the texture up: the command that deletes the device object.
    pub fn release(self) -> (r: RenderCommand)
        ensures
            r == RenderCommand::DeleteTexture(self.id_spec()),
    {
        RenderCommand::DeleteTexture(self.opengl_object_id)
    }
}

} // verus!
