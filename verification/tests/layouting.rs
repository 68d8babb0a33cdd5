use textshape::glyph::ShapedGlyph;
use textshape::layout::{layout_glyphs, TextLayout};
use textshape::shaper::Shaper;
use textshape::style::{
    Align, Baseline, ErrorKind, FontDb, FontId, FontMetrics, FontStyle, RenderStyle, TextStyle,
    Weight, WidthClass,
};

fn style() -> TextStyle {
    TextStyle {
        size: 1000,
        weight: Weight::Normal,
        width_class: WidthClass::Normal,
        font_style: FontStyle::Normal,
        font_families: Vec::new(),
        align: Align::Left,
        baseline: Baseline::Alphabetic,
        letter_spacing: 0,
        blur: 0,
        render_style: RenderStyle::Fill,
    }
}

/// A face whose units scale one-to-one at the test size of 1000.
fn unit_metrics() -> FontMetrics {
    FontMetrics { ascender: 800, descender: -200, height: 1200, units_per_em: 1000 }
}

fn glyph(c: char, advance_x: i64) -> ShapedGlyph {
    ShapedGlyph {
        x: 0,
        y: 0,
        c,
        index: 0,
        font_id: FontId(1),
        codepoint: 7,
        width: 0,
        height: 0,
        advance_x,
        advance_y: 0,
        offset_x: 0,
        offset_y: 0,
        bearing_x: 0,
        bearing_y: 0,
        calc_offset_x: 0,
        calc_offset_y: 0,
    }
}

struct MetricsOnly {
    fonts: Vec<(FontId, FontMetrics)>,
}

impl FontDb for MetricsOnly {
    fn candidates(&mut self, _style: &TextStyle, _word: &str) -> Vec<FontId> {
        self.fonts.iter().map(|f| f.0).collect()
    }

    fn font_data(&mut self, _id: FontId) -> Option<Vec<u8>> {
        None
    }

    fn metrics(&mut self, id: FontId) -> Option<FontMetrics> {
        self.fonts.iter().find(|f| f.0 == id).map(|f| f.1)
    }
}

#[test]
fn alignment_shifts_the_origin_by_none_half_and_all_of_the_width() {
    let glyphs = vec![glyph('a', 10), glyph('b', 20)];
    let metrics = vec![unit_metrics(), unit_metrics()];

    let mut left = style();
    left.align = Align::Left;
    let l = layout_glyphs(100, 0, &glyphs, &metrics, &left);
    assert_eq!(l.width, 30);
    assert_eq!(l.x, 100);

    let mut center = style();
    center.align = Align::Center;
    let c = layout_glyphs(100, 0, &glyphs, &metrics, &center);
    assert_eq!(c.width, 30);
    assert_eq!(c.x, 100 - 15);

    let mut right = style();
    right.align = Align::Right;
    let r = layout_glyphs(100, 0, &glyphs, &metrics, &right);
    assert_eq!(r.width, 30);
    assert_eq!(r.x, 100 - 30);
}

#[test]
fn letter_spacing_joins_every_advance() {
    let glyphs = vec![glyph('a', 10), glyph('b', 20)];
    let metrics = vec![unit_metrics(), unit_metrics()];
    let mut st = style();
    st.letter_spacing = 5;
    let l = layout_glyphs(0, 0, &glyphs, &metrics, &st);
    assert_eq!(l.width, 10 + 5 + 20 + 5);
    // The second glyph starts after the first advance plus one spacing,
    // pulled back by the fixed glyph padding of two units.
    assert_eq!(l.glyphs[0].x, -2);
    assert_eq!(l.glyphs[1].x, 15 - 2);
}

#[test]
fn top_and_bottom_baselines_differ_by_ascender_minus_descender() {
    let glyphs = vec![glyph('a', 10)];
    let metrics = vec![unit_metrics()];

    let mut top = style();
    top.baseline = Baseline::Top;
    let t = layout_glyphs(0, 0, &glyphs, &metrics, &top);

    let mut bottom = style();
    bottom.baseline = Baseline::Bottom;
    let b = layout_glyphs(0, 0, &glyphs, &metrics, &bottom);

    // ascender − descender at size 1000 over 1000 units per em: 800 − (−200).
    assert_eq!(t.glyphs[0].y - b.glyphs[0].y, 1000);

    let mut alpha = style();
    alpha.baseline = Baseline::Alphabetic;
    let a = layout_glyphs(0, 0, &glyphs, &metrics, &alpha);
    assert_eq!(t.glyphs[0].y - a.glyphs[0].y, 800);
    assert_eq!(b.glyphs[0].y - a.glyphs[0].y, -200);

    let mut middle = style();
    middle.baseline = Baseline::Middle;
    let m = layout_glyphs(0, 0, &glyphs, &metrics, &middle);
    assert_eq!(m.glyphs[0].y - a.glyphs[0].y, (800 - 200) / 2);
}

#[test]
fn blur_and_stroke_widen_the_padding_ring() {
    let glyphs = vec![glyph('a', 10)];
    let metrics = vec![unit_metrics()];
    let mut st = style();
    st.blur = 3;
    st.render_style = RenderStyle::Stroke { width: 4 };
    let l = layout_glyphs(0, 0, &glyphs, &metrics, &st);
    // padding = 2 + 2·3 + 4 = 12, and half the stroke width pulls 2 more.
    assert_eq!(l.glyphs[0].calc_offset_x, -14);
    assert_eq!(l.glyphs[0].calc_offset_y, -14);
    assert_eq!(l.glyphs[0].x, -14);
}

#[test]
fn bearings_and_offsets_place_the_ink() {
    let mut g = glyph('a', 600);
    g.offset_x = 30;
    g.offset_y = -7;
    g.bearing_x = 50;
    g.bearing_y = 700;
    let glyphs = vec![g];
    let metrics = vec![unit_metrics()];
    let l = layout_glyphs(1000, 2000, &glyphs, &metrics, &style());
    // calc_offset_x = 30 + 50 − 2; calc_offset_y = −7 − 700 − 2.
    assert_eq!(l.glyphs[0].x, 1000 + 78);
    assert_eq!(l.glyphs[0].y, 2000 - 709);
    // The output y captures the highest glyph top.
    assert_eq!(l.y, 2000 - 709);
}

#[test]
fn height_is_the_tallest_line_among_mixed_fonts() {
    let mut g2 = glyph('b', 10);
    g2.font_id = FontId(2);
    let glyphs = vec![glyph('a', 10), g2];
    let metrics = vec![
        unit_metrics(),
        FontMetrics { ascender: 1000, descender: -500, height: 1600, units_per_em: 1000 },
    ];
    let l = layout_glyphs(0, 0, &glyphs, &metrics, &style());
    assert_eq!(l.height, 1600);
}

#[test]
fn metrics_scale_with_the_requested_size() {
    let glyphs = vec![glyph('a', 10)];
    let metrics = vec![unit_metrics()];
    let mut st = style();
    st.size = 500;
    st.baseline = Baseline::Top;
    let l = layout_glyphs(0, 0, &glyphs, &metrics, &st);
    // ascender 800 at half the em size: 400; line height 1200 → 600.
    assert_eq!(l.glyphs[0].y, 400 - 2);
    assert_eq!(l.height, 600);
}

#[test]
fn missing_font_fails_the_whole_layout() {
    let mut shaper = Shaper::default();
    let mut fonts = MetricsOnly { fonts: vec![(FontId(1), unit_metrics())] };
    let mut res = TextLayout {
        x: 0,
        y: 0,
        width: 0,
        height: 0,
        glyphs: vec![glyph('a', 10), {
            let mut g = glyph('b', 10);
            g.font_id = FontId(9);
            g
        }],
    };
    // The second glyph's font is not in the store: the whole layout fails
    // and the input is left untouched.
    let r = shaper.layout(0, 0, &mut fonts, &mut res, &style());
    assert_eq!(r, Err(ErrorKind::NoFontFound));
    assert_eq!(res.glyphs.len(), 2);
    assert_eq!(res.width, 0);

    // With every font registered the same layout succeeds.
    fonts.fonts.push((FontId(9), unit_metrics()));
    let ok = shaper.layout(0, 0, &mut fonts, &mut res, &style());
    assert_eq!(ok, Ok(()));
    assert_eq!(res.width, 20);
}

/// A store whose single font can vanish, as after a font-set change.
struct VanishingStore {
    present: bool,
}

impl FontDb for VanishingStore {
    fn candidates(&mut self, _style: &TextStyle, _word: &str) -> Vec<FontId> {
        if self.present {
            vec![FontId(1)]
        } else {
            Vec::new()
        }
    }

    fn font_data(&mut self, id: FontId) -> Option<Vec<u8>> {
        if self.present && id == FontId(1) {
            Some(b"stub font bytes".to_vec())
        } else {
            None
        }
    }

    fn metrics(&mut self, id: FontId) -> Option<FontMetrics> {
        if self.present && id == FontId(1) {
            Some(FontMetrics { ascender: 1, descender: 0, height: 1, units_per_em: 1 })
        } else {
            None
        }
    }
}

#[test]
fn stale_cache_after_font_change_surfaces_no_font_found() {
    let mut shaper = Shaper::default();
    let st = style();

    let mut store = VanishingStore { present: true };
    let first = shaper.shape(0, 0, &mut store, &st, "hi").expect("shapes");
    assert!(!first.glyphs.is_empty());

    // The font set changes without clear_cache: the cached glyphs still
    // name the vanished font, and shaping the same text now fails whole.
    store.present = false;
    let second = shaper.shape(0, 0, &mut store, &st, "hi");
    assert_eq!(second.err(), Some(ErrorKind::NoFontFound));

    // After clearing, the text reshapes against the store as it now is:
    // no font, so the words are skipped and an empty layout comes back.
    shaper.clear_cache();
    let third = shaper.shape(0, 0, &mut store, &st, "hi").expect("shapes empty");
    assert!(third.glyphs.is_empty());
}
