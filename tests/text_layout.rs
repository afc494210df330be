use beagle_text::command::{GlyphQuad, RenderCommand};
use beagle_text::descriptor::parse_descriptor;
use beagle_text::font::Font;
use beagle_text::geometry::Vector2;
use beagle_text::text::{draw_text, TextError};
use beagle_text::texture::Texture;

const ATLAS_ID: u32 = 7;

/// 'A': advance 9, bearing (1, 2), size 10x12; 'B': advance 5, bearing
/// (0, -3), size 4x6.
fn font() -> Font {
    let text = "info padding=0,0,0,0\n\
common lineHeight=20\n\
page id=0 file=\"f.png\"\n\
chars count=2\n\
char id=65 x=3 y=4 width=10 height=12 xoffset=1 yoffset=2 xadvance=9\n\
char id=66 x=20 y=4 width=4 height=6 xoffset=0 yoffset=-3 xadvance=5\n";
    let d = parse_descriptor(text).expect("descriptor");
    Font::new(d, Texture::new(ATLAS_ID, 64, 64, 4))
}

fn quads(cmds: &[RenderCommand]) -> Vec<GlyphQuad> {
    cmds.iter()
        .filter_map(|c| match c {
            RenderCommand::DrawQuad(q) => Some(*q),
            _ => None,
        })
        .collect()
}

#[test]
fn pen_advances_by_glyph_advance() {
    let f = font();
    let r = draw_text(&f, "AAA", Vector2::new(100, 50), 1);
    assert_eq!(r.result, Ok(()));
    let qs = quads(&r.commands);
    assert_eq!(qs.len(), 3);
    let pens: Vec<i64> = qs.iter().map(|q| q.position.x - 1).collect();
    assert_eq!(pens, vec![100, 109, 118]);
    for q in &qs {
        assert_eq!(q.position.y, 52);
        assert_eq!(q.size, Vector2::new(10, 12));
        assert_eq!(q.atlas_position, Vector2::new(3, 4));
        assert_eq!(q.atlas_size, Vector2::new(10, 12));
    }
}

#[test]
fn commands_are_framed_by_text_mode() {
    let f = font();
    let r = draw_text(&f, "AB", Vector2::new(0, 0), 1);
    assert_eq!(r.result, Ok(()));
    assert_eq!(r.commands.len(), 6);
    assert_eq!(r.commands[0], RenderCommand::BindTexture(ATLAS_ID));
    assert_eq!(r.commands[1], RenderCommand::SetTextMode(true));
    assert_eq!(
        r.commands[3],
        RenderCommand::DrawQuad(GlyphQuad {
            position: Vector2::new(9, -3),
            size: Vector2::new(4, 6),
            atlas_position: Vector2::new(20, 4),
            atlas_size: Vector2::new(4, 6),
        })
    );
    assert_eq!(r.commands[4], RenderCommand::SetTextMode(false));
    assert_eq!(r.commands[5], RenderCommand::UnbindTexture);
}

#[test]
fn missing_glyph_halts_and_clears_text_mode() {
    let f = font();
    let r = draw_text(&f, "AZA", Vector2::new(0, 0), 1);
    assert_eq!(r.result, Err(TextError::GlyphNotFound(b'Z')));
    assert_eq!(quads(&r.commands).len(), 1);
    assert_eq!(r.commands.len(), 5);
    assert_eq!(r.commands[3], RenderCommand::SetTextMode(false));
    assert_eq!(r.commands[4], RenderCommand::UnbindTexture);
}

#[test]
fn double_scale_doubles_size_and_advance() {
    let f = font();
    let origin = Vector2::new(10, 20);
    let one = quads(&draw_text(&f, "ABA", origin, 1).commands);
    let two = quads(&draw_text(&f, "ABA", origin, 2).commands);
    assert_eq!(one.len(), 3);
    assert_eq!(two.len(), 3);
    for (a, b) in one.iter().zip(two.iter()) {
        assert_eq!(b.size.x, 2 * a.size.x);
        assert_eq!(b.size.y, 2 * a.size.y);
        assert_eq!(b.position.x - origin.x, 2 * (a.position.x - origin.x));
        assert_eq!(b.position.y - origin.y, 2 * (a.position.y - origin.y));
    }
    assert_eq!(two[2].position.x, 10 + 2 * (9 + 5) + 2);
}

#[test]
fn empty_text_draws_nothing_but_the_frame() {
    let f = font();
    let r = draw_text(&f, "", Vector2::new(0, 0), 1);
    assert_eq!(r.result, Ok(()));
    assert_eq!(
        r.commands,
        vec![
            RenderCommand::BindTexture(ATLAS_ID),
            RenderCommand::SetTextMode(true),
            RenderCommand::SetTextMode(false),
            RenderCommand::UnbindTexture,
        ]
    );
}

#[test]
fn wide_character_is_unsupported() {
    let f = font();
    let r = draw_text(&f, "A\u{20AC}", Vector2::new(0, 0), 1);
    assert_eq!(r.result, Err(TextError::UnsupportedEncoding));
    assert!(r.commands.is_empty());
}

#[test]
fn latin1_character_is_looked_up() {
    let f = font();
    let r = draw_text(&f, "\u{e9}", Vector2::new(0, 0), 1);
    assert_eq!(r.result, Err(TextError::GlyphNotFound(0xE9)));
}

#[test]
fn overflowing_coordinate_stops_drawing() {
    let f = font();
    let r = draw_text(&f, "AA", Vector2::new(i64::MAX - 12, 0), 1);
    assert_eq!(r.result, Err(TextError::CoordinateOverflow));
    assert_eq!(quads(&r.commands).len(), 1);
    assert_eq!(r.commands.last(), Some(&RenderCommand::UnbindTexture));
}

#[test]
fn zero_scale_collapses_quads() {
    let f = font();
    let r = draw_text(&f, "AB", Vector2::new(5, 6), 0);
    let qs = quads(&r.commands);
    assert!(qs.iter().all(|q| q.position == Vector2::new(5, 6) && q.size == Vector2::new(0, 0)));
}
