//! Shaping one word with one font: the HarfBuzz call, the ink bounding-box
//! query, and the verified derivation of per-glyph metrics from both.
//!
//! HarfBuzz reports positions in 1/64 units at the scale the font was set to;
//! they are de-scaled by a truncating division by 64. Bounding boxes come in
//! font units and are scaled by `size / units_per_em`, truncating toward
//! zero.

use vstd::prelude::*;
use crate::num::{scale_i32, scale_trunc};
use crate::segment::Direction;
use crate::style::FontId;

verus! {

/// Bound on every scaled metric field of a glyph produced by this module:
/// a bounding-box coordinate is at most `2^15` font units in magnitude and a
/// size is below `2^16`, so a scaled metric stays below `2^47` in magnitude.
pub const METRIC_MAX: i64 = 0x8000_0000_0000;

/// One glyph instance: source character, resolved font, glyph codepoint
/// (0 signals a missing glyph), ink metrics, advances and offsets, and the
/// pen position and render offset that layout fills in.
#[derive(Clone, Copy, Debug, PartialEq, Eq, Structural)]
pub struct ShapedGlyph {
    /// Final pen x position; written by layout.
    pub x: i128,
    /// Final pen y position; written by layout.
    pub y: i128,
    /// The character this glyph was shaped from.
    pub c: char,
    pub index: usize,
    /// The font the word was resolved to.
    pub font_id: FontId,
    /// Glyph codepoint in that font; 0 means missing.
    pub codepoint: u32,
    /// Ink width at the requested size.
    pub width: i64,
    /// Ink height at the requested size.
    pub height: i64,
    pub advance_x: i64,
    pub advance_y: i64,
    pub offset_x: i64,
    pub offset_y: i64,
    /// Left bearing at the requested size.
    pub bearing_x: i64,
    /// Top bearing at the requested size.
    pub bearing_y: i64,
    /// Render offset compensating for padding; written by layout.
    pub calc_offset_x: i64,
    /// Render offset compensating for padding; written by layout.
    pub calc_offset_y: i64,
}

/// What the shaping engine reports for one glyph, as returned by HarfBuzz:
/// codepoint, advances and offsets in 1/64 units at the set scale.
#[derive(Clone, Copy, Debug, PartialEq, Eq, Structural)]
pub struct RawGlyph {
    pub codepoint: u32,
    pub x_advance: i32,
    pub y_advance: i32,
    pub x_offset: i32,
    pub y_offset: i32,
}

/// What HarfBuzz returns when a word is shaped: a function of the font
/// bytes, the scale, the word, the direction and the script tag alone.
pub uninterp spec fn hb_shaped(
    data: Seq<u8>,
    scale: int,
    word: Seq<char>,
    rtl: bool,
    script: u32,
) -> Seq<RawGlyph>;

/// The ink bounding box `(x_min, y_min, x_max, y_max)` of a glyph, in font
/// units: a function of the font bytes and the glyph id alone; `None` when
/// the face does not parse or the glyph has no box.
pub uninterp spec fn glyph_bbox_of(data: Seq<u8>, glyph: u16) -> Option<(i16, i16, i16, i16)>;

/// Relies on `harfbuzz_rs` (`Face::new`, `Font::new`, `Font::set_scale`,
/// `UnicodeBuffer` construction, `shape`, `GlyphBuffer::get_glyph_positions`
/// and `get_glyph_infos`): shaping a word with a font at a fixed scale,
/// direction and script. The buffer language is pinned, since HarfBuzz
/// would otherwise guess it from the process locale; with every segment
/// property set, HarfBuzz is deterministic and the reported glyphs are a
/// function of the stated inputs alone, which `hb_shaped` names.
#[verifier::external_body]
fn hb_shape_word(data: &Vec<u8>, scale: i32, word: &str, direction: Direction, script: u32) -> (r:
    Vec<RawGlyph>)
    ensures
        r@ == hb_shaped(data@, scale as int, word@, direction is Rtl, script),
{
    let dir = match direction {
        Direction::Ltr => harfbuzz_rs::Direction::Ltr,
        Direction::Rtl => harfbuzz_rs::Direction::Rtl,
    };
    let mut font = harfbuzz_rs::Font::new(harfbuzz_rs::Face::new(data.clone(), 0));
    font.set_scale(scale, scale);
    let buffer = harfbuzz_rs::UnicodeBuffer::new().add_str(word).set_direction(dir)
        .set_language("en".parse().unwrap()).set_script(harfbuzz_rs::Tag(script));
    let output = harfbuzz_rs::shape(&font, buffer, &[]);
    output.get_glyph_positions().iter().zip(output.get_glyph_infos().iter()).map(
        |(p, i)| RawGlyph { codepoint: i.codepoint, x_advance: p.x_advance,
            y_advance: p.y_advance, x_offset: p.x_offset, y_offset: p.y_offset }).collect()
}

/// Relies on `owned_ttf_parser` (`Face::parse`, `Face::glyph_bounding_box`):
/// the ink bounding box of a glyph in font units, a function of the font
/// bytes and the glyph id alone, which `glyph_bbox_of` names.
#[verifier::external_body]
fn glyph_bounding_box(data: &Vec<u8>, glyph: u16) -> (r: Option<(i16, i16, i16, i16)>)
    ensures
        r == glyph_bbox_of(data@, glyph),
{
    match owned_ttf_parser::Face::parse(data, 0) {
        Ok(face) => face.glyph_bounding_box(owned_ttf_parser::GlyphId(glyph)).map(
            |b| (b.x_min, b.y_min, b.x_max, b.y_max),
        ),
        Err(_) => None,
    }
}

/// The scale HarfBuzz is set to for a point size.
pub open spec fn hb_scale(size: u16) -> int {
    size * 72
}

/// Scaled ink width of a glyph: bounding-box extent times `size / upem`.
pub open spec fn spec_glyph_width(data: Seq<u8>, glyph: u16, size: u16, upem: u16) -> int {
    match glyph_bbox_of(data, glyph) {
        Some(b) => scale_trunc(b.2 - b.0, size as int, upem as int),
        None => 0,
    }
}

/// Scaled ink height of a glyph.
pub open spec fn spec_glyph_height(data: Seq<u8>, glyph: u16, size: u16, upem: u16) -> int {
    match glyph_bbox_of(data, glyph) {
        Some(b) => scale_trunc(b.3 - b.1, size as int, upem as int),
        None => 0,
    }
}

/// Scaled left bearing of a glyph: its `x_min` times `size / upem`.
pub open spec fn spec_glyph_bearing_x(data: Seq<u8>, glyph: u16, size: u16, upem: u16) -> int {
    match glyph_bbox_of(data, glyph) {
        Some(b) => scale_trunc(b.0 as int, size as int, upem as int),
        None => 0,
    }
}

/// Scaled top bearing of a glyph: its `y_max` times `size / upem`.
pub open spec fn spec_glyph_bearing_y(data: Seq<u8>, glyph: u16, size: u16, upem: u16) -> int {
    match glyph_bbox_of(data, glyph) {
        Some(b) => scale_trunc(b.3 as int, size as int, upem as int),
        None => 0,
    }
}

/// The glyph derived from one engine report: advances and offsets de-scaled
/// from 1/64 units, ink metrics from the bounding box at the requested size,
/// pen position and render offset still zero.
pub open spec fn spec_shaped_glyph(
    raw: RawGlyph,
    c: char,
    font_id: FontId,
    size: u16,
    upem: u16,
    data: Seq<u8>,
) -> ShapedGlyph {
    ShapedGlyph {
        x: 0,
        y: 0,
        c: c,
        index: 0,
        font_id: font_id,
        codepoint: raw.codepoint,
        width: spec_glyph_width(data, raw.codepoint as u16, size, upem) as i64,
        height: spec_glyph_height(data, raw.codepoint as u16, size, upem) as i64,
        advance_x: scale_trunc(raw.x_advance as int, 1, 64) as i64,
        advance_y: scale_trunc(raw.y_advance as int, 1, 64) as i64,
        offset_x: scale_trunc(raw.x_offset as int, 1, 64) as i64,
        offset_y: scale_trunc(raw.y_offset as int, 1, 64) as i64,
        bearing_x: spec_glyph_bearing_x(data, raw.codepoint as u16, size, upem) as i64,
        bearing_y: spec_glyph_bearing_y(data, raw.codepoint as u16, size, upem) as i64,
        calc_offset_x: 0,
        calc_offset_y: 0,
    }
}

/// Every metric field of `g` is bounded by `METRIC_MAX` in magnitude, so
/// layout sums cannot overflow.
pub open spec fn glyph_fits(g: ShapedGlyph) -> bool {
    &&& -METRIC_MAX <= g.width <= METRIC_MAX
    &&& -METRIC_MAX <= g.height <= METRIC_MAX
    &&& -METRIC_MAX <= g.advance_x <= METRIC_MAX
    &&& -METRIC_MAX <= g.advance_y <= METRIC_MAX
    &&& -METRIC_MAX <= g.offset_x <= METRIC_MAX
    &&& -METRIC_MAX <= g.offset_y <= METRIC_MAX
    &&& -METRIC_MAX <= g.bearing_x <= METRIC_MAX
    &&& -METRIC_MAX <= g.bearing_y <= METRIC_MAX
}

/// The glyph sequence for a word: one glyph per engine report, paired with
/// the word's characters in order; extra reports or extra characters beyond
/// the shorter of the two are dropped.
pub open spec fn spec_shaped_word(
    raws: Seq<RawGlyph>,
    word: Seq<char>,
    font_id: FontId,
    size: u16,
    upem: u16,
    data: Seq<u8>,
) -> Seq<ShapedGlyph> {
    Seq::new(
        vstd::math::min(raws.len() as int, word.len() as int) as nat,
        |i: int| spec_shaped_glyph(raws[i], word[i], font_id, size, upem, data),
    )
}

/// Whether any paired engine report came back with codepoint 0.
pub open spec fn spec_has_missing(raws: Seq<RawGlyph>, word: Seq<char>) -> bool {
    exists|i: int|
        0 <= i < vstd::math::min(raws.len() as int, word.len() as int) && raws[i].codepoint == 0
}

/// Shape one word with one font: run the engine, pair each reported glyph
/// with its character, de-scale positions, and derive ink metrics from the
/// font's bounding boxes. Also reports whether any glyph came back missing.
pub fn shape_word_with_font(
    data: &Vec<u8>,
    word: &str,
    direction: Direction,
    script: u32,
    font_id: FontId,
    size: u16,
    upem: u16,
) -> (out: (Vec<ShapedGlyph>, bool))
    requires
        upem > 0,
    ensures
        out.0@ == spec_shaped_word(
            hb_shaped(data@, hb_scale(size), word@, direction is Rtl, script),
            word@,
            font_id,
            size,
            upem,
            data@,
        ),
        out.1 == spec_has_missing(
            hb_shaped(data@, hb_scale(size), word@, direction is Rtl, script),
            word@,
        ),
        forall|i: int| 0 <= i < out.0@.len() ==> glyph_fits(#[trigger] out.0@[i]),
{
    let scale: i32 = (size as i32) * 72;
    let raws = hb_shape_word(data, scale, word, direction, script);
    let ghost raws_spec = hb_shaped(data@, hb_scale(size), word@, direction is Rtl, script);
    let wlen = word.unicode_len();
    let n = if raws.len() <= wlen {
        raws.len()
    } else {
        wlen
    };
    let ghost expected = spec_shaped_word(raws_spec, word@, font_id, size, upem, data@);
    let mut glyphs: Vec<ShapedGlyph> = Vec::new();
    let mut missing = false;
    let mut i: usize = 0;
    while i < n
        invariant
            upem > 0,
            raws@ == raws_spec,
            wlen == word@.len(),
            n == vstd::math::min(raws_spec.len() as int, word@.len() as int),
            expected == spec_shaped_word(raws_spec, word@, font_id, size, upem, data@),
            i <= n,
            glyphs@.len() == i,
            forall|j: int| 0 <= j < i ==> glyphs@[j] == expected[j],
            forall|j: int| 0 <= j < i ==> glyph_fits(#[trigger] glyphs@[j]),
            missing == exists|j: int| 0 <= j < i && raws_spec[j].codepoint == 0,
        decreases n - i,
    {
        let raw = raws[i];
        let c = word.get_char(i);
        let glyph_id: u16 = #[verifier::truncate] (raw.codepoint as u16);
        let (width, height, bearing_x, bearing_y) = match glyph_bounding_box(data, glyph_id) {
            Some(b) => {
                let (x_min, y_min, x_max, y_max) = b;
                (
                    scale_i32((x_max as i32) - (x_min as i32), size, upem),
                    scale_i32((y_max as i32) - (y_min as i32), size, upem),
                    scale_i32(x_min as i32, size, upem),
                    scale_i32(y_max as i32, size, upem),
                )
            },
            None => (0i64, 0i64, 0i64, 0i64),
        };
        let g = ShapedGlyph {
            x: 0,
            y: 0,
            c: c,
            index: 0,
            font_id: font_id,
            codepoint: raw.codepoint,
            width: width,
            height: height,
            advance_x: scale_i32(raw.x_advance, 1, 64),
            advance_y: scale_i32(raw.y_advance, 1, 64),
            offset_x: scale_i32(raw.x_offset, 1, 64),
            offset_y: scale_i32(raw.y_offset, 1, 64),
            bearing_x: bearing_x,
            bearing_y: bearing_y,
            calc_offset_x: 0,
            calc_offset_y: 0,
        };
        proof {
            assert(g == expected[i as int]);
        }
        if raw.codepoint == 0 {
            missing = true;
        }
        glyphs.push(g);
        i = i + 1;
    }
    proof {
        assert(glyphs@ =~= expected);
    }
    (glyphs, missing)
}

} // verus!
