//! The BMFont text descriptor: three header lines (`info` with `padding`,
//! `common` with `lineHeight`, `page` with `file`), then one `char` line per
//! glyph with the fields `id x y width height xoffset yoffset xadvance`.
//!
//! The glyph metrics are corrected for the padding the atlas was exported
//! with: the bearing's x gains the left padding, and the advance loses the
//! left and right padding.
use vstd::prelude::*;
use crate::chars::{
    chars_of, find_char, find_value, find_value_span, has_value, span_equals, spans_text,
    spans_within, split_on, split_spans, token_spans, tokens, value_of,
};
use crate::font::{Character, FontError, CHARACTER_CODES};
use crate::geometry::Vector2;
use crate::number::{parse_int, parse_int_span};

verus! {

/// The padding around each glyph image, in atlas pixels.
#[derive(Clone, Copy, Debug, PartialEq, Eq, Structural)]
pub struct Padding {
    pub up: i64,
    pub right: i64,
    pub down: i64,
    pub left: i64,
}

/// A parsed descriptor: everything a font needs but its texture.
pub struct FontDescriptor {
    pub padding: Padding,
    pub line_height: u32,
    /// The atlas image's file name, relative to the descriptor's directory.
    pub page_file: String,
    /// The glyph of each character code, at that code's index.
    pub characters: Vec<Option<Character>>,
}

/// What a descriptor holds, seen as values.
pub struct DescriptorModel {
    pub padding: Padding,
    pub line_height: u32,
    pub page_file: Seq<char>,
    pub characters: Seq<Option<Character>>,
}

impl View for FontDescriptor {
    type V = DescriptorModel;

    open spec fn view(&self) -> DescriptorModel {
        DescriptorModel {
            padding: self.padding,
            line_height: self.line_height,
            page_file: self.page_file@,
            characters: self.characters@,
        }
    }
}

impl FontDescriptor {
    pub open spec fn wf(&self) -> bool {
        self.characters@.len() == CHARACTER_CODES
    }
}

/// Each padding value is a non-negative `i32`.
pub open spec fn padding_ok(p: Padding) -> bool {
    0 <= p.up <= i32::MAX && 0 <= p.right <= i32::MAX && 0 <= p.down <= i32::MAX && 0 <= p.left
        <= i32::MAX
}

/// A non-negative integer that `s` spells.
pub open spec fn parse_natural(s: Seq<char>) -> Option<int> {
    match parse_int(s) {
        Some(v) => if v >= 0 {
            Some(v)
        } else {
            None
        },
        None => None,
    }
}

/// The `padding=up,right,down,left` entry of the first header line.
pub open spec fn header_padding(line: Seq<char>) -> Option<Padding> {
    match find_value(tokens(line), "padding"@) {
        None => None,
        Some(v) => {
            let parts = split_on(v, ',');
            if parts.len() >= 4 && parse_natural(parts[0]) is Some && parse_natural(parts[1]) is Some
                && parse_natural(parts[2]) is Some && parse_natural(parts[3]) is Some {
                Some(
                    Padding {
                        up: parse_natural(parts[0])->0 as i64,
                        right: parse_natural(parts[1])->0 as i64,
                        down: parse_natural(parts[2])->0 as i64,
                        left: parse_natural(parts[3])->0 as i64,
                    },
                )
            } else {
                None
            }
        },
    }
}

/// The `lineHeight=N` entry of the second header line.
pub open spec fn header_line_height(line: Seq<char>) -> Option<u32> {
    match find_value(tokens(line), "lineHeight"@) {
        None => None,
        Some(v) => match parse_natural(v) {
            Some(n) => Some(n as u32),
            None => None,
        },
    }
}

pub open spec fn trim_leading_quotes(s: Seq<char>) -> Seq<char>
    decreases s.len(),
{
    if s.len() > 0 && s[0] == '"' {
        trim_leading_quotes(s.drop_first())
    } else {
        s
    }
}

pub open spec fn trim_trailing_quotes(s: Seq<char>) -> Seq<char>
    decreases s.len(),
{
    if s.len() > 0 && s.last() == '"' {
        trim_trailing_quotes(s.drop_last())
    } else {
        s
    }
}

/// The `file="name"` entry of the third header line, without its quotes.
pub open spec fn header_page_file(line: Seq<char>) -> Option<Seq<char>> {
    match find_value(tokens(line), "file"@) {
        None => None,
        Some(v) => Some(trim_trailing_quotes(trim_leading_quotes(v))),
    }
}

/// Field `k` of a glyph record, counted after the leading `char` token.
pub open spec fn record_field(toks: Seq<Seq<char>>, k: int) -> Option<int> {
    if has_value(toks[k + 1]) {
        parse_int(value_of(toks[k + 1]))
    } else {
        None
    }
}

/// A glyph record has eight readable fields.
pub open spec fn record_fields_ok(toks: Seq<Seq<char>>) -> bool {
    toks.len() >= 9 && forall|k: int| 0 <= k < 8 ==> #[trigger] record_field(toks, k) is Some
}

/// The metrics of a glyph given its raw fields, corrected for the padding.
pub open spec fn corrected_glyph(f: Seq<int>, pad: Padding) -> Character {
    Character {
        font_texture_atlas_position: Vector2 { x: f[1] as i64, y: f[2] as i64 },
        font_texture_atlas_size: Vector2 { x: f[3] as i64, y: f[4] as i64 },
        bearing: Vector2 { x: (f[5] + pad.left) as i64, y: f[6] as i64 },
        advance: (f[7] - (pad.left + pad.right)) as i64,
    }
}

/// The eight field values of a glyph record.
pub open spec fn record_values(toks: Seq<Seq<char>>) -> Seq<int> {
    Seq::new(8, |k: int| record_field(toks, k)->0)
}

/// Whether a line is a glyph record: its first token is `char`.
pub open spec fn is_record(toks: Seq<Seq<char>>) -> bool {
    toks.len() > 0 && toks[0] == "char"@
}

/// What line `idx` contributes to the glyph table: nothing, a glyph for a
/// character code, or an error.
pub open spec fn line_glyph(line: Seq<char>, idx: int, pad: Padding) -> Result<
    Option<(int, Character)>,
    FontError,
> {
    let toks = tokens(line);
    if !is_record(toks) {
        Ok(None)
    } else if !record_fields_ok(toks) {
        Err(FontError::MalformedGlyphRecord(idx as usize))
    } else {
        let f = record_values(toks);
        if 0 <= f[0] < CHARACTER_CODES {
            Ok(Some((f[0], corrected_glyph(f, pad))))
        } else {
            Err(FontError::UnsupportedCharacterCode(f[0] as i32))
        }
    }
}

/// The table with no glyph at all.
pub open spec fn empty_table() -> Seq<Option<Character>> {
    Seq::new(CHARACTER_CODES as nat, |i: int| None)
}

/// The glyph table after the lines from the fourth one up to `n`; a later
/// record for a code replaces an earlier one.
pub open spec fn glyph_table(lines: Seq<Seq<char>>, pad: Padding, n: int) -> Result<
    Seq<Option<Character>>,
    FontError,
>
    decreases n,
{
    if n <= 3 {
        Ok(empty_table())
    } else {
        match glyph_table(lines, pad, n - 1) {
            Err(e) => Err(e),
            Ok(t) => match line_glyph(lines[n - 1], n - 1, pad) {
                Err(e) => Err(e),
                Ok(None) => Ok(t),
                Ok(Some((code, g))) => Ok(t.update(code, Some(g))),
            },
        }
    }
}

/// What a descriptor text describes, or the first thing wrong with it.
pub open spec fn descriptor_of(text: Seq<char>) -> Result<DescriptorModel, FontError> {
    let lines = split_on(text, '\n');
    if lines.len() < 3 {
        Err(FontError::MalformedHeader)
    } else {
        match header_padding(lines[0]) {
            None => Err(FontError::MalformedHeader),
            Some(pad) => match header_line_height(lines[1]) {
                None => Err(FontError::MalformedHeader),
                Some(lh) => match header_page_file(lines[2]) {
                    None => Err(FontError::MalformedHeader),
                    Some(file) => match glyph_table(lines, pad, lines.len() as int) {
                        Err(e) => Err(e),
                        Ok(t) => Ok(
                            DescriptorModel {
                                padding: pad,
                                line_height: lh,
                                page_file: file,
                                characters: t,
                            },
                        ),
                    },
                },
            },
        }
    }
}

/// Reads a non-negative integer from `s[lo..hi]`.
fn parse_natural_span(s: &Vec<char>, lo: usize, hi: usize) -> (r: Option<i32>)
    requires
        lo <= hi <= s@.len(),
    ensures
        match r {
            Some(v) => v >= 0 && parse_natural(s@.subrange(lo as int, hi as int)) == Some(v as int),
            None => parse_natural(s@.subrange(lo as int, hi as int)) is None,
        },
{
    match parse_int_span(s, lo, hi) {
        Some(v) => if v >= 0 {
            Some(v)
        } else {
            None
        },
        None => None,
    }
}

/// The value span of the first `key=value` token of `s[lo..hi]` with this key.
fn line_value(s: &Vec<char>, lo: usize, hi: usize, key: &str) -> (r: Option<(usize, usize)>)
    requires
        lo <= hi <= s@.len(),
    ensures
        match r {
            Some(sp) => sp.0 <= sp.1 <= s@.len() && find_value(
                tokens(s@.subrange(lo as int, hi as int)),
                key@,
            ) == Some(s@.subrange(sp.0 as int, sp.1 as int)),
            None => find_value(tokens(s@.subrange(lo as int, hi as int)), key@) is None,
        },
{
    let toks = token_spans(s, lo, hi);
    let word = chars_of(key);
    find_value_span(s, &toks, &word)
}

/// Reads the padding entry of the line `s[lo..hi]`.
fn read_padding(s: &Vec<char>, lo: usize, hi: usize) -> (r: Option<Padding>)
    requires
        lo <= hi <= s@.len(),
    ensures
        r == header_padding(s@.subrange(lo as int, hi as int)),
        r matches Some(p) ==> padding_ok(p),
{
    let (va, vb) = match line_value(s, lo, hi, "padding") {
        Some(sp) => sp,
        None => return None,
    };
    let parts = split_spans(s, va, vb, ',');
    if parts.len() < 4 {
        return None;
    }
    let ghost pt = spans_text(s@, parts@);
    assert(pt[0] == s@.subrange(parts@[0].0 as int, parts@[0].1 as int));
    assert(pt[1] == s@.subrange(parts@[1].0 as int, parts@[1].1 as int));
    assert(pt[2] == s@.subrange(parts@[2].0 as int, parts@[2].1 as int));
    assert(pt[3] == s@.subrange(parts@[3].0 as int, parts@[3].1 as int));
    let up = match parse_natural_span(s, parts[0].0, parts[0].1) {
        Some(v) => v,
        None => return None,
    };
    let right = match parse_natural_span(s, parts[1].0, parts[1].1) {
        Some(v) => v,
        None => return None,
    };
    let down = match parse_natural_span(s, parts[2].0, parts[2].1) {
        Some(v) => v,
        None => return None,
    };
    let left = match parse_natural_span(s, parts[3].0, parts[3].1) {
        Some(v) => v,
        None => return None,
    };
    Some(Padding { up: up as i64, right: right as i64, down: down as i64, left: left as i64 })
}

/// Reads the line height entry of the line `s[lo..hi]`.
fn read_line_height(s: &Vec<char>, lo: usize, hi: usize) -> (r: Option<u32>)
    requires
        lo <= hi <= s@.len(),
    ensures
        r == header_line_height(s@.subrange(lo as int, hi as int)),
{
    match line_value(s, lo, hi, "lineHeight") {
        Some((va, vb)) => match parse_natural_span(s, va, vb) {
            Some(v) => Some(v as u32),
            None => None,
        },
        None => None,
    }
}

/// Finds the atlas file name of the line `s[lo..hi]`, without its quotes.
fn read_page_file(s: &Vec<char>, lo: usize, hi: usize) -> (r: Option<(usize, usize)>)
    requires
        lo <= hi <= s@.len(),
    ensures
        match r {
            Some(sp) => sp.0 <= sp.1 <= s@.len() && header_page_file(
                s@.subrange(lo as int, hi as int),
            ) == Some(s@.subrange(sp.0 as int, sp.1 as int)),
            None => header_page_file(s@.subrange(lo as int, hi as int)) is None,
        },
{
    let (va, vb) = match line_value(s, lo, hi, "file") {
        Some(sp) => sp,
        None => return None,
    };
    let ghost v = s@.subrange(va as int, vb as int);
    let mut a: usize = va;
    while a < vb && s[a] == '"'
        invariant
            va <= a <= vb <= s@.len(),
            trim_leading_quotes(v) == trim_leading_quotes(s@.subrange(a as int, vb as int)),
        decreases vb - a,
    {
        assert(s@.subrange(a as int, vb as int).drop_first() =~= s@.subrange(a + 1, vb as int));
        a = a + 1;
    }
    let ghost lead = s@.subrange(a as int, vb as int);
    assert(trim_leading_quotes(lead) == lead);
    let mut b: usize = vb;
    while b > a && s[b - 1] == '"'
        invariant
            a <= b <= vb <= s@.len(),
            trim_trailing_quotes(lead) == trim_trailing_quotes(s@.subrange(a as int, b as int)),
        decreases b - a,
    {
        assert(s@.subrange(a as int, b as int).drop_last() =~= s@.subrange(a as int, b - 1));
        b = b - 1;
    }
    assert(trim_trailing_quotes(s@.subrange(a as int, b as int)) == s@.subrange(a as int, b as int));
    Some((a, b))
}

/// Reads field `k` of a glyph record whose token spans are `toks`.
fn read_field(s: &Vec<char>, toks: &Vec<(usize, usize)>, k: usize) -> (r: Option<i32>)
    requires
        spans_within(toks@, 0, s@.len() as int),
        k < 8,
        k + 1 < toks@.len(),
    ensures
        match r {
            Some(v) => record_field(spans_text(s@, toks@), k as int) == Some(v as int),
            None => record_field(spans_text(s@, toks@), k as int) is None,
        },
{
    let (ta, tb) = toks[k + 1];
    let ghost t = s@.subrange(ta as int, tb as int);
    assert(spans_text(s@, toks@)[k + 1] == t);
    let p: usize = find_char(s, ta, tb, '=');
    if p == tb {
        return None;
    }
    assert(t.skip(p - ta + 1) =~= s@.subrange(p + 1, tb as int));
    parse_int_span(s, p + 1, tb)
}

/// What the line `s[lo..hi]`, line `idx` of the descriptor, adds to the
/// glyph table.
fn read_glyph_line(s: &Vec<char>, lo: usize, hi: usize, idx: usize, pad: Padding) -> (r: Result<
    Option<(u8, Character)>,
    FontError,
>)
    requires
        lo <= hi <= s@.len(),
        padding_ok(pad),
    ensures
        match r {
            Ok(None) => line_glyph(s@.subrange(lo as int, hi as int), idx as int, pad) == Ok::<
                Option<(int, Character)>,
                FontError,
            >(None),
            Ok(Some((c, g))) => line_glyph(s@.subrange(lo as int, hi as int), idx as int, pad)
                == Ok::<Option<(int, Character)>, FontError>(Some((c as int, g))),
            Err(e) => line_glyph(s@.subrange(lo as int, hi as int), idx as int, pad) == Err::<
                Option<(int, Character)>,
                FontError,
            >(e),
        },
{
    let toks = token_spans(s, lo, hi);
    let ghost tt = spans_text(s@, toks@);
    assert(spans_within(toks@, 0, s@.len() as int));
    if toks.len() == 0 {
        return Ok(None);
    }
    let word = chars_of("char");
    assert(tt[0] == s@.subrange(toks@[0].0 as int, toks@[0].1 as int));
    if !span_equals(s, toks[0].0, toks[0].1, &word) {
        return Ok(None);
    }
    assert(is_record(tt));
    if toks.len() < 9 {
        return Err(FontError::MalformedGlyphRecord(idx));
    }
    let mut vals: Vec<i32> = Vec::new();
    let mut k: usize = 0;
    while k < 8
        invariant
            k <= 8,
            toks@.len() >= 9,
            tt == spans_text(s@, toks@),
            lo <= hi <= s@.len(),
            tt == tokens(s@.subrange(lo as int, hi as int)),
            is_record(tt),
            spans_within(toks@, 0, s@.len() as int),
            vals@.len() == k,
            forall|j: int| 0 <= j < k ==> record_field(tt, j) == Some(vals@[j] as int),
        decreases 8 - k,
    {
        match read_field(s, &toks, k) {
            Some(v) => vals.push(v),
            None => {
                assert(!record_fields_ok(tt));
                assert(is_record(tt));
                assert(tt == tokens(s@.subrange(lo as int, hi as int)));
                return Err(FontError::MalformedGlyphRecord(idx));
            },
        }
        k = k + 1;
    }
    let ghost f = record_values(tt);
    assert(forall|j: int| 0 <= j < 8 ==> f[j] == vals@[j] as int);
    let id: i32 = vals[0];
    if id < 0 || id >= 256 {
        return Err(FontError::UnsupportedCharacterCode(id));
    }
    let g = Character {
        font_texture_atlas_position: Vector2 { x: vals[1] as i64, y: vals[2] as i64 },
        font_texture_atlas_size: Vector2 { x: vals[3] as i64, y: vals[4] as i64 },
        bearing: Vector2 { x: vals[5] as i64 + pad.left, y: vals[6] as i64 },
        advance: vals[7] as i64 - (pad.left + pad.right),
    };
    assert(g == corrected_glyph(f, pad));
    Ok(Some((id as u8, g)))
}

proof fn lemma_table_error_stays(lines: Seq<Seq<char>>, pad: Padding, n: int, m: int, e: FontError)
    requires
        n <= m,
        glyph_table(lines, pad, n) == Err::<Seq<Option<Character>>, FontError>(e),
    ensures
        glyph_table(lines, pad, m) == Err::<Seq<Option<Character>>, FontError>(e),
    decreases m - n,
{
    if n < m {
        lemma_table_error_stays(lines, pad, n, m - 1, e);
    }
}

/// Parses the text of a BMFont descriptor.
pub fn parse_descriptor(text: &str) -> (r: Result<FontDescriptor, FontError>)
    ensures
        match r {
            Ok(d) => d.wf() && descriptor_of(text@) == Ok::<DescriptorModel, FontError>(d@),
            Err(e) => descriptor_of(text@) == Err::<DescriptorModel, FontError>(e),
        },
{
    let s = chars_of(text);
    let lines = split_spans(&s, 0, s.len(), '\n');
    let ghost ls = spans_text(s@, lines@);
    assert(s@.subrange(0, s@.len() as int) =~= s@);
    if lines.len() < 3 {
        return Err(FontError::MalformedHeader);
    }
    assert(ls[0] == s@.subrange(lines@[0].0 as int, lines@[0].1 as int));
    assert(ls[1] == s@.subrange(lines@[1].0 as int, lines@[1].1 as int));
    assert(ls[2] == s@.subrange(lines@[2].0 as int, lines@[2].1 as int));
    let pad = match read_padding(&s, lines[0].0, lines[0].1) {
        Some(p) => p,
        None => return Err(FontError::MalformedHeader),
    };
    let line_height = match read_line_height(&s, lines[1].0, lines[1].1) {
        Some(h) => h,
        None => return Err(FontError::MalformedHeader),
    };
    let (fa, fb) = match read_page_file(&s, lines[2].0, lines[2].1) {
        Some(sp) => sp,
        None => return Err(FontError::MalformedHeader),
    };
    let page_file = text.substring_char(fa, fb).to_owned();
    let mut table: Vec<Option<Character>> = Vec::new();
    let mut c: usize = 0;
    while c < CHARACTER_CODES
        invariant
            c <= CHARACTER_CODES,
            table@ =~= Seq::new(c as nat, |i: int| None::<Character>),
        decreases CHARACTER_CODES - c,
    {
        table.push(None);
        c = c + 1;
    }
    assert(table@ =~= empty_table());
    let mut i: usize = 3;
    while i < lines.len()
        invariant
            3 <= i <= lines@.len(),
            ls == spans_text(s@, lines@),
            s@ == text@,
            ls == split_on(text@, '\n'),
            header_padding(ls[0]) == Some(pad),
            header_line_height(ls[1]) == Some(line_height),
            header_page_file(ls[2]) == Some(page_file@),
            spans_within(lines@, 0, s@.len() as int),
            padding_ok(pad),
            table@.len() == CHARACTER_CODES,
            glyph_table(ls, pad, i as int) == Ok::<Seq<Option<Character>>, FontError>(table@),
        decreases lines@.len() - i,
    {
        let (a, b) = lines[i];
        assert(ls[i as int] == s@.subrange(a as int, b as int));
        match read_glyph_line(&s, a, b, i, pad) {
            Ok(None) => {},
            Ok(Some((code, g))) => {
                table.set(code as usize, Some(g));
            },
            Err(e) => {
                proof {
                    lemma_table_error_stays(ls, pad, i + 1, ls.len() as int, e);
                }
                return Err(e);
            },
        }
        i = i + 1;
    }
    Ok(FontDescriptor { padding: pad, line_height, page_file, characters: table })
}

proof fn lemma_table_source(lines: Seq<Seq<char>>, pad: Padding, n: int, code: int)
    requires
        glyph_table(lines, pad, n) is Ok,
        0 <= code < CHARACTER_CODES,
    ensures
        glyph_table(lines, pad, n)->Ok_0.len() == CHARACTER_CODES,
        glyph_table(lines, pad, n)->Ok_0[code] matches Some(g) ==> exists|i: int|
            3 <= i < n && #[trigger] line_glyph(lines[i], i, pad) == Ok::<
                Option<(int, Character)>,
                FontError,
            >(Some((code, g))),
    decreases n,
{
    if n > 3 {
        lemma_table_source(lines, pad, n - 1, code);
        let t = glyph_table(lines, pad, n - 1)->Ok_0;
        match line_glyph(lines[n - 1], n - 1, pad) {
            Ok(Some((c, g))) => {
                if c == code {
                    assert(line_glyph(lines[n - 1], n - 1, pad) == Ok::<
                        Option<(int, Character)>,
                        FontError,
                    >(Some((code, g))));
                }
            },
            _ => {},
        }
    }
}

/// Every glyph of a parsed descriptor comes from a `char` record for its
/// code, with the bearing's x equal to `xoffset` plus the left padding, the
/// bearing's y equal to `yoffset`, and the advance equal to `xadvance` less
/// the left and right padding; position and size are those of the record.
pub proof fn lemma_padding_correction(text: Seq<char>, code: int)
    requires
        descriptor_of(text) is Ok,
        0 <= code < CHARACTER_CODES,
        descriptor_of(text)->Ok_0.characters[code] is Some,
    ensures
        ({
            let d = descriptor_of(text)->Ok_0;
            let lines = split_on(text, '\n');
            let g = d.characters[code]->0;
            exists|i: int|
                3 <= i < lines.len() && is_record(tokens(#[trigger] lines[i])) && record_fields_ok(
                    tokens(lines[i]),
                ) && ({
                    let f = record_values(tokens(lines[i]));
                    &&& f[0] == code
                    &&& g.font_texture_atlas_position.x == f[1]
                    &&& g.font_texture_atlas_position.y == f[2]
                    &&& g.font_texture_atlas_size.x == f[3]
                    &&& g.font_texture_atlas_size.y == f[4]
                    &&& g.bearing.x == f[5] + d.padding.left
                    &&& g.bearing.y == f[6]
                    &&& g.advance == f[7] - (d.padding.left + d.padding.right)
                })
        }),
{
    let d = descriptor_of(text)->Ok_0;
    let lines = split_on(text, '\n');
    let pad = d.padding;
    let g = d.characters[code]->0;
    lemma_table_source(lines, pad, lines.len() as int, code);
    let i = choose|i: int|
        3 <= i < lines.len() && #[trigger] line_glyph(lines[i], i, pad) == Ok::<
            Option<(int, Character)>,
            FontError,
        >(Some((code, g)));
    let toks = tokens(lines[i]);
    let f = record_values(toks);
    assert(is_record(toks));
    assert(record_fields_ok(toks));
    assert forall|k: int| 0 <= k < 8 implies i32::MIN <= #[trigger] f[k] <= i32::MAX by {
        assert(record_field(toks, k) is Some);
    }
}

/// Parsing is a function of the text alone: parsing one text twice gives
/// equal descriptors, and so equal glyph tables.
pub proof fn lemma_parse_deterministic(text: Seq<char>, first: FontDescriptor, second: FontDescriptor)
    requires
        descriptor_of(text) == Ok::<DescriptorModel, FontError>(first@),
        descriptor_of(text) == Ok::<DescriptorModel, FontError>(second@),
    ensures
        first@ == second@,
        first@.characters == second@.characters,
{
}

/// A well-formed `char` record whose code is 256 or more (or negative), on a
/// line reached without an earlier error, makes the whole descriptor fail
/// with that code.
pub proof fn lemma_code_out_of_range(text: Seq<char>, i: int)
    requires
        ({
            let lines = split_on(text, '\n');
            &&& 3 <= i < lines.len()
            &&& header_padding(lines[0]) is Some
            &&& header_line_height(lines[1]) is Some
            &&& header_page_file(lines[2]) is Some
            &&& glyph_table(lines, header_padding(lines[0])->0, i) is Ok
            &&& is_record(tokens(lines[i]))
            &&& record_fields_ok(tokens(lines[i]))
            &&& !(0 <= record_values(tokens(lines[i]))[0] < CHARACTER_CODES)
        }),
    ensures
        descriptor_of(text) == Err::<DescriptorModel, FontError>(
            FontError::UnsupportedCharacterCode(
                record_values(tokens(split_on(text, '\n')[i]))[0] as i32,
            ),
        ),
{
    let lines = split_on(text, '\n');
    let pad = header_padding(lines[0])->0;
    let e = FontError::UnsupportedCharacterCode(record_values(tokens(lines[i]))[0] as i32);
    assert(glyph_table(lines, pad, i + 1) == Err::<Seq<Option<Character>>, FontError>(e));
    lemma_table_error_stays(lines, pad, i + 1, lines.len() as int, e);
}

/// A first line without a `padding` entry makes the descriptor fail with a
/// header error.
pub proof fn lemma_missing_padding(text: Seq<char>)
    requires
        find_value(tokens(split_on(text, '\n')[0]), "padding"@) is None,
    ensures
        descriptor_of(text) == Err::<DescriptorModel, FontError>(FontError::MalformedHeader),
{
}

} // verus!
