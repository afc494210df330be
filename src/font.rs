//! Glyph metrics and the font atlas: one texture with every glyph's image,
//! and a table from character code (one byte) to the glyph's metrics.
use vstd::prelude::*;
use crate::command::RenderCommand;
use crate::descriptor::FontDescriptor;
use crate::geometry::Vector2;
use crate::texture::Texture;

verus! {

/// The number of character codes a font can hold: one for each byte value.
pub const CHARACTER_CODES: usize = 256;

/// How one glyph is placed in the atlas and on screen.
#[derive(Clone, Copy, Debug, PartialEq, Eq, Structural)]
pub struct Character {
    /// Top-left corner of the glyph's image within the atlas.
    pub font_texture_atlas_position: Vector2,
    /// Width and height of the glyph's image within the atlas.
    pub font_texture_atlas_size: Vector2,
    /// Offset from the pen to the top-left corner where the glyph is drawn.
    pub bearing: Vector2,
    /// How far the pen moves right after the glyph. A descriptor may give a
    /// negative advance once the padding is taken off; it is kept as it is,
    /// and the pen then moves left.
    pub advance: i64,
}

impl Character {
    pub fn new(
        font_texture_atlas_position: Vector2,
        font_texture_atlas_size: Vector2,
        bearing: Vector2,
        advance: i64,
    ) -> (r: Character)
        ensures
            r == (Character { font_texture_atlas_position, font_texture_atlas_size, bearing, advance }),
    {
        Character { font_texture_atlas_position, font_texture_atlas_size, bearing, advance }
    }

    pub fn get_font_texture_atlas_position(&self) -> (r: Vector2)
        ensures
            r == self.font_texture_atlas_position,
    {
        self.font_texture_atlas_position
    }

    pub fn get_font_texture_atlas_size(&self) -> (r: Vector2)
        ensures
            r == self.font_texture_atlas_size,
    {
        self.font_texture_atlas_size
    }

    pub fn get_bearing(&self) -> (r: Vector2)
        ensures
            r == self.bearing,
    {
        self.bearing
    }

    pub fn get_advance(&self) -> (r: i64)
        ensures
            r == self.advance,
    {
        self.advance
    }
}

/// Why a font could not be loaded.
#[derive(Clone, Copy, Debug, PartialEq, Eq, Structural)]
pub enum FontError {
    /// The first three lines lack a readable `padding`, `lineHeight` or
    /// `file` entry.
    MalformedHeader,
    /// The glyph record on this line (counted from zero) is not eight
    /// readable `key=value` fields.
    MalformedGlyphRecord(usize),
    /// A glyph record names a character code outside `0..=255`.
    UnsupportedCharacterCode(i32),
    /// The atlas image could not be loaded.
    ImageLoadError,
}

/// A loaded font: its atlas texture, its line height and its glyph table.
pub struct Font {
    texture: Texture,
    line_spacing: u32,
    characters: Vec<Option<Character>>,
}

/// What a font holds, seen as values.
pub struct FontModel {
    pub texture: Texture,
    pub line_spacing: u32,
    /// The glyph of each character code, at that code's index.
    pub glyphs: Seq<Option<Character>>,
}

impl View for Font {
    type V = FontModel;

    closed spec fn view(&self) -> FontModel {
        FontModel {
            texture: self.texture,
            line_spacing: self.line_spacing,
            glyphs: self.characters@,
        }
    }
}

impl Font {
    /// The glyph table has one entry for each character code.
    pub closed spec fn wf(&self) -> bool {
        self.characters@.len() == CHARACTER_CODES
    }

    /// Builds the font of a parsed descriptor, whose atlas image has been
    /// uploaded as `texture`.
    pub fn new(descriptor: FontDescriptor, texture: Texture) -> (r: Font)
        requires
            descriptor.wf(),
        ensures
            r.wf(),
            r@.texture == texture,
            r@.line_spacing == descriptor@.line_height,
            r@.glyphs == descriptor@.characters,
    {
        Font {
            texture,
            line_spacing: descriptor.line_height,
            characters: descriptor.characters,
        }
    }

    /// Gives the font up, with its atlas: the command that deletes the
    /// atlas texture.
    pub fn release(self) -> (r: RenderCommand)
        ensures
            r == RenderCommand::DeleteTexture(self@.texture.id_spec()),
    {
        self.texture.release()
    }

    /// The atlas texture.
    pub fn get_texture_atlas(&self) -> (r: &Texture)
        ensures
            *r == self@.texture,
    {
        &self.texture
    }

    /// The atlas texture.
    pub fn get_opengl_texture_atlas_id(&self) -> (r: &Texture)
        ensures
            *r == self@.texture,
    {
        &self.texture
    }

    /// The distance between baselines that the descriptor gives.
    pub fn get_line_spacing(&self) -> (r: u32)
        ensures
            r == self@.line_spacing,
    {
        self.line_spacing
    }

    /// The glyph of a character code, if the font has one.
    pub fn get_character(&self, code: u8) -> (r: Option<Character>)
        requires
            self.wf(),
        ensures
            r == self@.glyphs[code as int],
    {
        self.characters[code as usize]
    }
}

} // verus!
