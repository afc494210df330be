//! Text layout: a string becomes one textured quad per character, placed at
//! a pen that starts at the origin and moves right by each glyph's advance.
//!
//! Everything is in integer pixels and the scale is a whole factor, which
//! keeps bitmap glyphs pixel-exact. The commands switch the shader's text
//! mode on before the first quad and off after the last one, on every path
//! that switched it on.
use vstd::prelude::*;
use crate::chars::chars_of;
use crate::command::{GlyphQuad, RenderCommand};
use crate::font::{Character, Font, FontModel};
use crate::geometry::Vector2;

verus! {

/// Why a string could not be drawn in full.
#[derive(Clone, Copy, Debug, PartialEq, Eq, Structural)]
pub enum TextError {
    /// The font has no glyph for this character code.
    GlyphNotFound(u8),
    /// The string holds a character whose code does not fit in one byte.
    UnsupportedEncoding,
    /// A coordinate of the next glyph does not fit in an `i64`.
    CoordinateOverflow,
}

/// The commands that draw a string, and whether all of it was drawn.
pub struct TextDraw {
    pub commands: Vec<RenderCommand>,
    pub result: Result<(), TextError>,
}

/// The code of a character, as the glyph table indexes it.
pub open spec fn code_of(c: char) -> int {
    (c as u32) as int
}

/// Every character of the text has a one-byte code.
pub open spec fn single_byte(text: Seq<char>) -> bool {
    forall|i: int| 0 <= i < text.len() ==> code_of(#[trigger] text[i]) < 256
}

/// The glyph of a character, if the font has one.
pub open spec fn glyph_of(glyphs: Seq<Option<Character>>, c: char) -> Option<Character> {
    glyphs[code_of(c)]
}

/// The sum, in font units, of the advances of the first `i` characters.
pub open spec fn pen_units(glyphs: Seq<Option<Character>>, text: Seq<char>, i: int) -> int
    decreases i,
{
    if i <= 0 {
        0
    } else {
        pen_units(glyphs, text, i - 1) + match glyph_of(glyphs, text[i - 1]) {
            Some(g) => g.advance as int,
            None => 0,
        }
    }
}

pub open spec fn fits_i64(v: int) -> bool {
    i64::MIN <= v <= i64::MAX
}

/// The pen's x before character `i` is drawn.
pub open spec fn pen_x(glyphs: Seq<Option<Character>>, text: Seq<char>, origin: Vector2, scale: int, i: int) -> int {
    origin.x + pen_units(glyphs, text, i) * scale
}

/// The quad of glyph `g` drawn at the pen of character `i`, as exact
/// integers: x, y, width, height.
pub open spec fn quad_numbers(
    glyphs: Seq<Option<Character>>,
    text: Seq<char>,
    origin: Vector2,
    scale: int,
    i: int,
    g: Character,
) -> (int, int, int, int) {
    (
        pen_x(glyphs, text, origin, scale, i) + g.bearing.x * scale,
        origin.y + g.bearing.y * scale,
        g.font_texture_atlas_size.x * scale,
        g.font_texture_atlas_size.y * scale,
    )
}

/// Drawing character `i`: its quad, or why it cannot be drawn.
pub open spec fn glyph_step(
    glyphs: Seq<Option<Character>>,
    text: Seq<char>,
    origin: Vector2,
    scale: int,
    i: int,
) -> Result<GlyphQuad, TextError> {
    match glyph_of(glyphs, text[i]) {
        None => Err(TextError::GlyphNotFound(code_of(text[i]) as u8)),
        Some(g) => {
            let (x, y, w, h) = quad_numbers(glyphs, text, origin, scale, i, g);
            let next = pen_x(glyphs, text, origin, scale, i + 1);
            if fits_i64(x) && fits_i64(y) && fits_i64(w) && fits_i64(h) && fits_i64(next) {
                Ok(
                    GlyphQuad {
                        position: Vector2 { x: x as i64, y: y as i64 },
                        size: Vector2 { x: w as i64, y: h as i64 },
                        atlas_position: g.font_texture_atlas_position,
                        atlas_size: g.font_texture_atlas_size,
                    },
                )
            } else {
                Err(TextError::CoordinateOverflow)
            }
        },
    }
}

/// The quads of the first `n` characters, up to the first that cannot be
/// drawn, and the reason it cannot.
pub open spec fn glyph_quads(
    glyphs: Seq<Option<Character>>,
    text: Seq<char>,
    origin: Vector2,
    scale: int,
    n: int,
) -> (Seq<GlyphQuad>, Option<TextError>)
    decreases n,
{
    if n <= 0 {
        (Seq::empty(), None)
    } else {
        let (qs, err) = glyph_quads(glyphs, text, origin, scale, n - 1);
        if err is Some {
            (qs, err)
        } else {
            match glyph_step(glyphs, text, origin, scale, n - 1) {
                Ok(q) => (qs.push(q), None),
                Err(e) => (qs, Some(e)),
            }
        }
    }
}

pub open spec fn draw_commands(qs: Seq<GlyphQuad>) -> Seq<RenderCommand> {
    qs.map_values(|q: GlyphQuad| RenderCommand::DrawQuad(q))
}

/// The commands that draw `text` with `font`, and the outcome.
pub open spec fn text_draw(font: FontModel, text: Seq<char>, origin: Vector2, scale: int) -> (
    Seq<RenderCommand>,
    Result<(), TextError>,
) {
    if !single_byte(text) {
        (Seq::empty(), Err(TextError::UnsupportedEncoding))
    } else {
        let (qs, err) = glyph_quads(font.glyphs, text, origin, scale, text.len() as int);
        (
            seq![
                RenderCommand::BindTexture(font.texture.id_spec()),
                RenderCommand::SetTextMode(true),
            ] + draw_commands(qs) + seq![
                RenderCommand::SetTextMode(false),
                RenderCommand::UnbindTexture,
            ],
            match err {
                None => Ok(()),
                Some(e) => Err(e),
            },
        )
    }
}

proof fn lemma_scaled_bound(a: i64, s: u32)
    ensures
        -0x1_0000_0000_0000_0000_0000_0000 <= (a as int) * (s as int) <= 0x1_0000_0000_0000_0000_0000_0000,
{
    assert(-0x8000_0000_0000_0000 <= (a as int) <= 0x8000_0000_0000_0000);
    assert(0 <= (s as int) <= 0x1_0000_0000);
    assert(-0x1_0000_0000_0000_0000_0000_0000 <= (a as int) * (s as int) <= 0x1_0000_0000_0000_0000_0000_0000) by (nonlinear_arith)
        requires
            -0x8000_0000_0000_0000 <= (a as int) <= 0x8000_0000_0000_0000,
            0 <= (s as int) <= 0x1_0000_0000,
    ;
}

proof fn lemma_quads_stop(
    glyphs: Seq<Option<Character>>,
    text: Seq<char>,
    origin: Vector2,
    scale: int,
    n: int,
    m: int,
)
    requires
        0 <= n <= m,
        glyph_quads(glyphs, text, origin, scale, n).1 is Some,
    ensures
        glyph_quads(glyphs, text, origin, scale, m) == glyph_quads(glyphs, text, origin, scale, n),
    decreases m - n,
{
    if n < m {
        lemma_quads_stop(glyphs, text, origin, scale, n, m - 1);
    }
}

/// Lays out `text` at `origin`, magnified by `scale`, and lists the
/// commands that draw it.
pub fn draw_text(font: &Font, text: &str, origin: Vector2, scale: u32) -> (r: TextDraw)
    requires
        font.wf(),
    ensures
        r.commands@ == text_draw(font@, text@, origin, scale as int).0,
        r.result == text_draw(font@, text@, origin, scale as int).1,
{
    let cs = chars_of(text);
    let mut k: usize = 0;
    while k < cs.len()
        invariant
            k <= cs@.len(),
            cs@ == text@,
            forall|j: int| 0 <= j < k ==> code_of(#[trigger] cs@[j]) < 256,
        decreases cs@.len() - k,
    {
        if cs[k] as u32 > 255 {
            return TextDraw { commands: Vec::new(), result: Err(TextError::UnsupportedEncoding) };
        }
        k = k + 1;
    }
    let ghost glyphs = font@.glyphs;
    let ghost sc = scale as int;
    let mut commands: Vec<RenderCommand> = Vec::new();
    commands.push(font.get_texture_atlas().activate());
    commands.push(RenderCommand::SetTextMode(true));
    let mut result: Result<(), TextError> = Ok(());
    let mut pen: i64 = origin.x;
    let mut i: usize = 0;
    let mut stop = false;
    assert(commands@ =~= seq![
        RenderCommand::BindTexture(font@.texture.id_spec()),
        RenderCommand::SetTextMode(true),
    ] + draw_commands(Seq::empty()));
    while i < cs.len() && !stop
        invariant
            i <= cs@.len(),
            cs@ == text@,
            single_byte(text@),
            font.wf(),
            glyphs == font@.glyphs,
            sc == scale as int,
            stop ==> i < cs@.len(),
            ({
                let n = if stop { i + 1 } else { i as int };
                let (qs, err) = glyph_quads(glyphs, text@, origin, sc, n);
                &&& stop == err is Some
                &&& result == match err {
                    None => Ok::<(), TextError>(()),
                    Some(e) => Err(e),
                }
                &&& commands@ == seq![
                    RenderCommand::BindTexture(font@.texture.id_spec()),
                    RenderCommand::SetTextMode(true),
                ] + draw_commands(qs)
            }),
            !stop ==> pen as int == pen_x(glyphs, text@, origin, sc, i as int),
        decreases cs@.len() - i + (if stop { 0int } else { 1int }),
    {
        let code: u8 = cs[i] as u32 as u8;
        assert(code as int == code_of(text@[i as int])) by {
            assert(code_of(cs@[i as int]) < 256);
        }
        let ghost qs = glyph_quads(glyphs, text@, origin, sc, i as int).0;
        match font.get_character(code) {
            None => {
                result = Err(TextError::GlyphNotFound(code));
                stop = true;
            },
            Some(g) => {
                let s: i128 = scale as i128;
                proof {
                    lemma_scaled_bound(g.bearing.x, scale);
                    lemma_scaled_bound(g.bearing.y, scale);
                    lemma_scaled_bound(g.font_texture_atlas_size.x, scale);
                    lemma_scaled_bound(g.font_texture_atlas_size.y, scale);
                    lemma_scaled_bound(g.advance, scale);
                }
                let x: i128 = pen as i128 + g.bearing.x as i128 * s;
                let y: i128 = origin.y as i128 + g.bearing.y as i128 * s;
                let w: i128 = g.font_texture_atlas_size.x as i128 * s;
                let h: i128 = g.font_texture_atlas_size.y as i128 * s;
                let next: i128 = pen as i128 + g.advance as i128 * s;
                assert(next == pen_x(glyphs, text@, origin, sc, i + 1)) by (nonlinear_arith)
                    requires
                        pen as int == origin.x + pen_units(glyphs, text@, i as int) * sc,
                        pen_units(glyphs, text@, i + 1) == pen_units(glyphs, text@, i as int)
                            + g.advance,
                        next == pen + g.advance * s,
                        s == sc,
                        pen_x(glyphs, text@, origin, sc, i + 1) == origin.x + pen_units(
                            glyphs,
                            text@,
                            i + 1,
                        ) * sc,
                ;
                let lo: i128 = i64::MIN as i128;
                let hi: i128 = i64::MAX as i128;
                if lo <= x && x <= hi && lo <= y && y <= hi && lo <= w && w <= hi && lo <= h && h
                    <= hi && lo <= next && next <= hi {
                    let q = GlyphQuad {
                        position: Vector2 { x: x as i64, y: y as i64 },
                        size: Vector2 { x: w as i64, y: h as i64 },
                        atlas_position: g.font_texture_atlas_position,
                        atlas_size: g.font_texture_atlas_size,
                    };
                    assert(glyph_step(glyphs, text@, origin, sc, i as int) == Ok::<
                        GlyphQuad,
                        TextError,
                    >(q));
                    commands.push(RenderCommand::DrawQuad(q));
                    assert(draw_commands(qs.push(q)) =~= draw_commands(qs).push(
                        RenderCommand::DrawQuad(q),
                    ));
                    pen = next as i64;
                    i = i + 1;
                } else {
                    result = Err(TextError::CoordinateOverflow);
                    stop = true;
                }
            },
        }
    }
    proof {
        let n = if stop { i + 1 } else { i as int };
        if stop {
            lemma_quads_stop(glyphs, text@, origin, sc, n, text@.len() as int);
        }
    }
    commands.push(RenderCommand::SetTextMode(false));
    commands.push(RenderCommand::UnbindTexture);
    TextDraw { commands, result }
}

/// The quads drawn for the first `n` characters are those of the first
/// characters in order; they stop only at a character that cannot be drawn.
pub proof fn lemma_quads_in_order(
    glyphs: Seq<Option<Character>>,
    text: Seq<char>,
    origin: Vector2,
    scale: int,
    n: int,
)
    requires
        0 <= n,
    ensures
        ({
            let (qs, err) = glyph_quads(glyphs, text, origin, scale, n);
            &&& qs.len() <= n
            &&& forall|j: int|
                0 <= j < qs.len() ==> glyph_step(glyphs, text, origin, scale, j) == Ok::<
                    GlyphQuad,
                    TextError,
                >(#[trigger] qs[j])
            &&& err is None ==> qs.len() == n
            &&& err matches Some(e) ==> qs.len() < n && glyph_step(
                glyphs,
                text,
                origin,
                scale,
                qs.len() as int,
            ) == Err::<GlyphQuad, TextError>(e)
        }),
    decreases n,
{
    if n > 0 {
        lemma_quads_in_order(glyphs, text, origin, scale, n - 1);
    }
}

/// The pen starts at the origin and, between two glyphs drawn one after the
/// other, moves right by the first glyph's advance times the scale: each
/// quad's x is the pen's x plus the glyph's scaled bearing.
pub proof fn lemma_pen_advance(font: FontModel, text: Seq<char>, origin: Vector2, scale: int, i: int)
    requires
        0 <= i < glyph_quads(font.glyphs, text, origin, scale, text.len() as int).0.len(),
    ensures
        ({
            let qs = glyph_quads(font.glyphs, text, origin, scale, text.len() as int).0;
            let g = glyph_of(font.glyphs, text[i])->0;
            &&& glyph_of(font.glyphs, text[i]) is Some
            &&& qs[i].position.x - g.bearing.x * scale == pen_x(font.glyphs, text, origin, scale, i)
            &&& i == 0 ==> pen_x(font.glyphs, text, origin, scale, i) == origin.x
            &&& pen_x(font.glyphs, text, origin, scale, i + 1) == pen_x(
                font.glyphs,
                text,
                origin,
                scale,
                i,
            ) + g.advance * scale
        }),
{
    lemma_quads_in_order(font.glyphs, text, origin, scale, text.len() as int);
    let qs = glyph_quads(font.glyphs, text, origin, scale, text.len() as int).0;
    assert(glyph_step(font.glyphs, text, origin, scale, i) == Ok::<GlyphQuad, TextError>(qs[i]));
    let g = glyph_of(font.glyphs, text[i])->0;
    assert((pen_units(font.glyphs, text, i) + g.advance) * scale == pen_units(font.glyphs, text, i)
        * scale + g.advance * scale) by (nonlinear_arith);
}

/// A character without a glyph stops the drawing: no quad is drawn for it or
/// for any character after it, the call reports an error, and the commands
/// still end by switching text mode off. When every character before it can
/// be drawn, exactly those are drawn and the error names its code.
pub proof fn lemma_missing_glyph_stops(font: FontModel, text: Seq<char>, origin: Vector2, scale: int, m: int)
    requires
        single_byte(text),
        0 <= m < text.len(),
        glyph_of(font.glyphs, text[m]) is None,
    ensures
        ({
            let (cmds, res) = text_draw(font, text, origin, scale);
            let (qs, err) = glyph_quads(font.glyphs, text, origin, scale, text.len() as int);
            &&& qs.len() <= m
            &&& res is Err
            &&& cmds.len() == qs.len() + 4
            &&& cmds[1] == RenderCommand::SetTextMode(true)
            &&& cmds[cmds.len() - 2] == RenderCommand::SetTextMode(false)
            &&& cmds[cmds.len() - 1] == RenderCommand::UnbindTexture
            &&& (forall|j: int| 0 <= j < m ==> #[trigger] glyph_step(font.glyphs, text, origin, scale, j) is Ok)
                ==> qs.len() == m && res == Err::<(), TextError>(
                TextError::GlyphNotFound(code_of(text[m]) as u8),
            )
        }),
{
    let glyphs = font.glyphs;
    lemma_quads_in_order(glyphs, text, origin, scale, text.len() as int);
    let (qs, err) = glyph_quads(glyphs, text, origin, scale, text.len() as int);
    assert(glyph_step(glyphs, text, origin, scale, m) is Err);
    if qs.len() > m {
        assert(glyph_step(glyphs, text, origin, scale, m) == Ok::<GlyphQuad, TextError>(qs[m]));
    }
    if (forall|j: int| 0 <= j < m ==> #[trigger] glyph_step(glyphs, text, origin, scale, j) is Ok) {
        if qs.len() < m {
            assert(glyph_step(glyphs, text, origin, scale, qs.len() as int) is Ok);
        }
    }
}

/// Drawing with twice the scale draws each glyph twice as large, at twice
/// the distance from the origin, so the pen also moves twice as far.
pub proof fn lemma_scale_doubles(font: FontModel, text: Seq<char>, origin: Vector2, scale: int, i: int)
    requires
        0 <= i < glyph_quads(font.glyphs, text, origin, scale, text.len() as int).0.len(),
        i < glyph_quads(font.glyphs, text, origin, 2 * scale, text.len() as int).0.len(),
    ensures
        ({
            let q1 = glyph_quads(font.glyphs, text, origin, scale, text.len() as int).0[i];
            let q2 = glyph_quads(font.glyphs, text, origin, 2 * scale, text.len() as int).0[i];
            &&& q2.size.x == 2 * q1.size.x
            &&& q2.size.y == 2 * q1.size.y
            &&& q2.position.x - origin.x == 2 * (q1.position.x - origin.x)
            &&& q2.position.y - origin.y == 2 * (q1.position.y - origin.y)
            &&& pen_x(font.glyphs, text, origin, 2 * scale, i + 1) - origin.x == 2 * (pen_x(
                font.glyphs,
                text,
                origin,
                scale,
                i + 1,
            ) - origin.x)
        }),
{
    let glyphs = font.glyphs;
    let n = text.len() as int;
    lemma_quads_in_order(glyphs, text, origin, scale, n);
    lemma_quads_in_order(glyphs, text, origin, 2 * scale, n);
    let q1 = glyph_quads(glyphs, text, origin, scale, n).0[i];
    let q2 = glyph_quads(glyphs, text, origin, 2 * scale, n).0[i];
    assert(glyph_step(glyphs, text, origin, scale, i) == Ok::<GlyphQuad, TextError>(q1));
    assert(glyph_step(glyphs, text, origin, 2 * scale, i) == Ok::<GlyphQuad, TextError>(q2));
    let g = glyph_of(glyphs, text[i])->0;
    let u = pen_units(glyphs, text, i);
    let u1 = pen_units(glyphs, text, i + 1);
    assert(u * (2 * scale) + g.bearing.x * (2 * scale) == 2 * (u * scale + g.bearing.x * scale))
        by (nonlinear_arith);
    assert(g.bearing.y * (2 * scale) == 2 * (g.bearing.y * scale)) by (nonlinear_arith);
    assert(g.font_texture_atlas_size.x * (2 * scale) == 2 * (g.font_texture_atlas_size.x * scale))
        by (nonlinear_arith);
    assert(g.font_texture_atlas_size.y * (2 * scale) == 2 * (g.font_texture_atlas_size.y * scale))
        by (nonlinear_arith);
    assert(u1 * (2 * scale) == 2 * (u1 * scale)) by (nonlinear_arith);
}

/// Text mode never stays on: a string with a character that does not fit in
/// one byte yields no command at all, and any other string's commands bind
/// the atlas, switch text mode on, draw quads only, then switch text mode off
/// and unbind the atlas, whether or not every character was drawn.
pub proof fn lemma_text_mode_restored(font: FontModel, text: Seq<char>, origin: Vector2, scale: int)
    ensures
        ({
            let (cmds, res) = text_draw(font, text, origin, scale);
            &&& !single_byte(text) ==> cmds.len() == 0 && res == Err::<(), TextError>(
                TextError::UnsupportedEncoding,
            )
            &&& single_byte(text) ==> {
                &&& cmds.len() >= 4
                &&& cmds[0] == RenderCommand::BindTexture(font.texture.id_spec())
                &&& cmds[1] == RenderCommand::SetTextMode(true)
                &&& forall|j: int| 2 <= j < cmds.len() - 2 ==> #[trigger] cmds[j] is DrawQuad
                &&& cmds[cmds.len() - 2] == RenderCommand::SetTextMode(false)
                &&& cmds[cmds.len() - 1] == RenderCommand::UnbindTexture
            }
        }),
{
    if single_byte(text) {
        let (cmds, res) = text_draw(font, text, origin, scale);
        let qs = glyph_quads(font.glyphs, text, origin, scale, text.len() as int).0;
        assert forall|j: int| 2 <= j < cmds.len() - 2 implies #[trigger] cmds[j] is DrawQuad by {
            assert(cmds[j] == draw_commands(qs)[j - 2]);
        }
    }
}

} // verus!
