use beagle_text::command::RenderCommand;
use beagle_text::descriptor::{parse_descriptor, FontDescriptor, Padding};
use beagle_text::font::{Character, Font, FontError};
use beagle_text::geometry::Vector2;
use beagle_text::texture::Texture;

const SAMPLE: &str = "info face=\"Arial\" size=32 bold=0 italic=0 charset=\"\" unicode=0 stretchH=100 smooth=1 aa=1 padding=2,3,4,5 spacing=1,1\n\
common lineHeight=36 base=29 scaleW=256 scaleH=256 pages=1 packed=0\n\
page id=0 file=\"arial.png\"\n\
chars count=2\n\
char id=65 x=0 y=0 width=10 height=12 xoffset=1 yoffset=2 xadvance=9 page=0 chnl=0\n\
char id=66 x=10 y=0 width=8 height=12 xoffset=-1 yoffset=2 xadvance=10 page=0 chnl=0\n";

fn header(padding: &str) -> String {
    format!(
        "info face=\"F\" size=16 padding={} spacing=1,1\ncommon lineHeight=20 base=16\npage id=0 file=\"f.png\"\nchars count=1\n",
        padding
    )
}

fn parse_ok(text: &str) -> FontDescriptor {
    match parse_descriptor(text) {
        Ok(d) => d,
        Err(e) => panic!("descriptor rejected: {:?}", e),
    }
}

#[test]
fn reads_header_fields() {
    let d = parse_ok(SAMPLE);
    assert_eq!(d.padding, Padding { up: 2, right: 3, down: 4, left: 5 });
    assert_eq!(d.line_height, 36);
    assert_eq!(d.page_file, "arial.png");
    assert_eq!(d.characters.len(), 256);
}

#[test]
fn round_trip_of_padded_glyph() {
    let d = parse_ok(SAMPLE);
    let g = d.characters[65].expect("glyph 65");
    assert_eq!(g.get_bearing(), Vector2::new(6, 2));
    assert_eq!(g.get_font_texture_atlas_size(), Vector2::new(10, 12));
    assert_eq!(g.get_font_texture_atlas_position(), Vector2::new(0, 0));
    assert_eq!(g.get_advance(), 1);
}

#[test]
fn padding_correction_on_every_glyph() {
    let d = parse_ok(SAMPLE);
    let b = d.characters[66].expect("glyph 66");
    assert_eq!(b.get_bearing(), Vector2::new(-1 + 5, 2));
    assert_eq!(b.get_advance(), 10 - (5 + 3));
    assert_eq!(b.get_font_texture_atlas_position(), Vector2::new(10, 0));
    let count = d.characters.iter().filter(|c| c.is_some()).count();
    assert_eq!(count, 2);
    assert!(d.characters[67].is_none());
}

#[test]
fn loading_twice_gives_equal_tables() {
    let a = parse_ok(SAMPLE);
    let b = parse_ok(SAMPLE);
    assert_eq!(a.characters, b.characters);
    assert_eq!(a.padding, b.padding);
    let fa = Font::new(a, Texture::new(1, 256, 256, 4));
    let fb = Font::new(b, Texture::new(2, 256, 256, 4));
    for code in 0..=255u8 {
        assert_eq!(fa.get_character(code), fb.get_character(code));
    }
}

#[test]
fn code_256_is_unsupported() {
    let text = header("0,0,0,0")
        + "char id=256 x=0 y=0 width=1 height=1 xoffset=0 yoffset=0 xadvance=1\n";
    assert_eq!(parse_descriptor(&text).err(), Some(FontError::UnsupportedCharacterCode(256)));
}

#[test]
fn negative_code_is_unsupported() {
    let text = header("0,0,0,0")
        + "char id=-1 x=0 y=0 width=1 height=1 xoffset=0 yoffset=0 xadvance=1\n";
    assert_eq!(parse_descriptor(&text).err(), Some(FontError::UnsupportedCharacterCode(-1)));
}

#[test]
fn code_255_is_accepted() {
    let text = header("0,0,0,0")
        + "char id=255 x=0 y=0 width=1 height=1 xoffset=0 yoffset=0 xadvance=1\n";
    let d = parse_ok(&text);
    assert!(d.characters[255].is_some());
}

#[test]
fn missing_padding_is_header_error() {
    let text = "info face=\"F\" size=16 spacing=1,1\ncommon lineHeight=20\npage id=0 file=\"f.png\"\n";
    assert_eq!(parse_descriptor(text).err(), Some(FontError::MalformedHeader));
}

#[test]
fn short_padding_is_header_error() {
    let text = header("1,2,3");
    assert_eq!(parse_descriptor(&text).err(), Some(FontError::MalformedHeader));
}

#[test]
fn non_numeric_padding_is_header_error() {
    let text = header("1,a,3,4");
    assert_eq!(parse_descriptor(&text).err(), Some(FontError::MalformedHeader));
}

#[test]
fn negative_padding_is_header_error() {
    let text = header("1,-2,3,4");
    assert_eq!(parse_descriptor(&text).err(), Some(FontError::MalformedHeader));
}

#[test]
fn missing_line_height_is_header_error() {
    let text = "info padding=0,0,0,0\ncommon base=16\npage id=0 file=\"f.png\"\n";
    assert_eq!(parse_descriptor(text).err(), Some(FontError::MalformedHeader));
}

#[test]
fn missing_file_is_header_error() {
    let text = "info padding=0,0,0,0\ncommon lineHeight=16\npage id=0\n";
    assert_eq!(parse_descriptor(text).err(), Some(FontError::MalformedHeader));
}

#[test]
fn too_few_lines_is_header_error() {
    assert_eq!(parse_descriptor("info padding=0,0,0,0").err(), Some(FontError::MalformedHeader));
    assert_eq!(parse_descriptor("").err(), Some(FontError::MalformedHeader));
}

#[test]
fn short_record_names_its_line() {
    let text = header("0,0,0,0") + "char id=65 x=0 y=0\n";
    assert_eq!(parse_descriptor(&text).err(), Some(FontError::MalformedGlyphRecord(4)));
}

#[test]
fn non_integer_field_names_its_line() {
    let text = header("0,0,0,0")
        + "char id=65 x=0 y=0 width=1 height=1 xoffset=0 yoffset=0 xadvance=1\n"
        + "char id=66 x=abc y=0 width=1 height=1 xoffset=0 yoffset=0 xadvance=1\n";
    assert_eq!(parse_descriptor(&text).err(), Some(FontError::MalformedGlyphRecord(5)));
}

#[test]
fn field_without_equals_names_its_line() {
    let text = header("0,0,0,0") + "char id=65 x0 y=0 width=1 height=1 xoffset=0 yoffset=0 xadvance=1\n";
    assert_eq!(parse_descriptor(&text).err(), Some(FontError::MalformedGlyphRecord(4)));
}

#[test]
fn out_of_range_integer_is_malformed() {
    let text = header("0,0,0,0")
        + "char id=65 x=2147483648 y=0 width=1 height=1 xoffset=0 yoffset=0 xadvance=1\n";
    assert_eq!(parse_descriptor(&text).err(), Some(FontError::MalformedGlyphRecord(4)));
}

#[test]
fn i32_extremes_are_read() {
    let text = header("0,0,0,0")
        + "char id=65 x=2147483647 y=-2147483648 width=1 height=1 xoffset=+3 yoffset=0 xadvance=1\n";
    let g = parse_ok(&text).characters[65].unwrap();
    assert_eq!(g.get_font_texture_atlas_position(), Vector2::new(2147483647, -2147483648));
    assert_eq!(g.get_bearing(), Vector2::new(3, 0));
}

#[test]
fn later_record_replaces_earlier() {
    let text = header("0,0,0,0")
        + "char id=65 x=0 y=0 width=1 height=1 xoffset=0 yoffset=0 xadvance=1\n"
        + "char id=65 x=5 y=6 width=7 height=8 xoffset=0 yoffset=0 xadvance=9\n";
    let g = parse_ok(&text).characters[65].unwrap();
    assert_eq!(g.get_font_texture_atlas_position(), Vector2::new(5, 6));
    assert_eq!(g.get_advance(), 9);
}

#[test]
fn other_lines_are_skipped() {
    let text = header("0,0,0,0")
        + "kernings count=1\n"
        + "kerning first=65 second=66 amount=-1\n"
        + "charx id=1\n"
        + "\n";
    let d = parse_ok(&text);
    assert!(d.characters.iter().all(|c| c.is_none()));
}

#[test]
fn crlf_line_endings_are_read() {
    let text = "info padding=1,2,3,4\r\ncommon lineHeight=16\r\npage id=0 file=\"a b.png\"\r\nchars count=1\r\nchar id=32 x=1 y=2 width=3 height=4 xoffset=5 yoffset=6 xadvance=7\r\n";
    let d = parse_ok(text);
    assert_eq!(d.line_height, 16);
    let g = d.characters[32].unwrap();
    assert_eq!(g.get_bearing(), Vector2::new(5 + 4, 6));
    assert_eq!(g.get_advance(), 7 - (4 + 2));
}

#[test]
fn file_name_loses_its_quotes() {
    let text = "info padding=0,0,0,0\ncommon lineHeight=16\npage id=0 file=\"\"atlas_0.png\"\n";
    assert_eq!(parse_ok(text).page_file, "atlas_0.png");
    let bare = "info padding=0,0,0,0\ncommon lineHeight=16\npage id=0 file=plain.png\n";
    assert_eq!(parse_ok(bare).page_file, "plain.png");
}

#[test]
fn font_keeps_descriptor_and_texture() {
    let d = parse_ok(SAMPLE);
    let font = Font::new(d, Texture::new(9, 128, 64, 4));
    assert_eq!(font.get_line_spacing(), 36);
    assert_eq!(font.get_texture_atlas().get_opengl_object_id(), 9);
    assert_eq!(font.get_opengl_texture_atlas_id().get_width(), 128);
    let expected = Character::new(Vector2::new(0, 0), Vector2::new(10, 12), Vector2::new(6, 2), 1);
    assert_eq!(font.get_character(65), Some(expected));
    assert_eq!(font.get_character(0), None);
    assert_eq!(font.release(), RenderCommand::DeleteTexture(9));
}

#[test]
fn image_error_is_a_font_error() {
    let e = FontError::ImageLoadError;
    assert_ne!(e, FontError::MalformedHeader);
}
