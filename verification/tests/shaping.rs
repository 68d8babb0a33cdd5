use textshape::cache::ShapingId;
use textshape::segment::Direction;
use textshape::shaper::{Shaper, LRU_CACHE_CAPACITY};
use textshape::style::{
    Align, Baseline, ErrorKind, FontDb, FontId, FontMetrics, FontStyle, RenderStyle, TextStyle,
    Weight, WidthClass,
};

// The ISO 15924 tag of the Latin script, big-endian "Latn".
const LATN: u32 = 0x4C61_746E;

fn style() -> TextStyle {
    TextStyle {
        size: 16,
        weight: Weight::Normal,
        width_class: WidthClass::Normal,
        font_style: FontStyle::Normal,
        font_families: Vec::new(),
        align: Align::Left,
        baseline: Baseline::Alphabetic,
        letter_spacing: 0,
        blur: 0,
        render_style: RenderStyle::Fill,
    }
}

/// A font store over in-memory blobs; counts candidate enumerations, which
/// happen exactly once per cache miss.
struct TestFonts {
    fonts: Vec<(FontId, Vec<u8>, FontMetrics)>,
    candidate_calls: usize,
}

impl TestFonts {
    fn empty() -> TestFonts {
        TestFonts { fonts: Vec::new(), candidate_calls: 0 }
    }

    fn single() -> TestFonts {
        TestFonts {
            fonts: vec![(
                FontId(1),
                b"not a real font, shaped best-effort".to_vec(),
                FontMetrics { ascender: 800, descender: -200, height: 1200, units_per_em: 1000 },
            )],
            candidate_calls: 0,
        }
    }
}

impl FontDb for TestFonts {
    fn candidates(&mut self, _style: &TextStyle, _word: &str) -> Vec<FontId> {
        self.candidate_calls += 1;
        self.fonts.iter().map(|f| f.0).collect()
    }

    fn font_data(&mut self, id: FontId) -> Option<Vec<u8>> {
        self.fonts.iter().find(|f| f.0 == id).map(|f| f.1.clone())
    }

    fn metrics(&mut self, id: FontId) -> Option<FontMetrics> {
        self.fonts.iter().find(|f| f.0 == id).map(|f| f.2)
    }
}

#[test]
fn shaping_id_ignores_layout_only_fields() {
    let base = style();
    let mut layout_variant = style();
    layout_variant.align = Align::Right;
    layout_variant.baseline = Baseline::Top;
    layout_variant.letter_spacing = 7;
    layout_variant.blur = 3;
    layout_variant.render_style = RenderStyle::Stroke { width: 2 };

    assert_eq!(ShapingId::new(&base, "word"), ShapingId::new(&layout_variant, "word"));
}

#[test]
fn shaping_id_tracks_shape_relevant_fields_and_text() {
    let base = style();

    let mut bigger = style();
    bigger.size = 17;
    assert_ne!(ShapingId::new(&base, "word"), ShapingId::new(&bigger, "word"));

    let mut bolder = style();
    bolder.weight = Weight::Bold;
    assert_ne!(ShapingId::new(&base, "word"), ShapingId::new(&bolder, "word"));

    assert_ne!(ShapingId::new(&base, "word"), ShapingId::new(&base, "sword"));
    assert_eq!(ShapingId::new(&base, "word"), ShapingId::new(&base, "word"));
}

#[test]
fn second_identical_shape_hits_the_cache() {
    let mut shaper = Shaper::default();
    let mut fonts = TestFonts::single();
    let st = style();

    let first = shaper.shape(0, 0, &mut fonts, &st, "hello world").expect("shapes");
    let misses = fonts.candidate_calls;
    assert!(misses > 0);
    assert!(shaper.is_cached(&st, "hello "));
    assert!(shaper.is_cached(&st, "world"));

    let second = shaper.shape(0, 0, &mut fonts, &st, "hello world").expect("shapes");
    // No resolver work on the second call: every word was a cache hit.
    assert_eq!(fonts.candidate_calls, misses);
    // And the glyph sequences are identical.
    assert_eq!(first.glyphs, second.glyphs);
    assert_eq!(first.width, second.width);
    assert_eq!(first.x, second.x);
    assert_eq!(first.y, second.y);
    assert_eq!(first.height, second.height);
}

#[test]
fn layout_only_style_change_reuses_the_cache() {
    let mut shaper = Shaper::default();
    let mut fonts = TestFonts::single();
    let st = style();

    shaper.shape(0, 0, &mut fonts, &st, "cached").expect("shapes");
    let misses = fonts.candidate_calls;

    let mut centered = style();
    centered.align = Align::Center;
    centered.blur = 2;
    shaper.shape(50, 0, &mut fonts, &centered, "cached").expect("shapes");
    assert_eq!(fonts.candidate_calls, misses);
}

#[test]
fn default_capacity_is_the_reference_capacity() {
    assert_eq!(LRU_CACHE_CAPACITY, 1000);
    let shaper = Shaper::default();
    assert_eq!(shaper.cache_size(), 0);
}

#[test]
fn filling_past_capacity_evicts_exactly_the_least_recent() {
    let mut shaper = Shaper::with_capacity(3);
    let mut fonts = TestFonts::single();
    let st = style();

    for word in ["w0", "w1", "w2"] {
        let _ = shaper.get_or_shape(&mut fonts, &st, Direction::Ltr, LATN, word);
    }
    assert_eq!(shaper.cache_size(), 3);

    // One more distinct key: the size stays at capacity and exactly the
    // least-recently-used entry, the first one, is gone.
    let _ = shaper.get_or_shape(&mut fonts, &st, Direction::Ltr, LATN, "w3");
    assert_eq!(shaper.cache_size(), 3);
    assert!(!shaper.is_cached(&st, "w0"));
    assert!(shaper.is_cached(&st, "w1"));
    assert!(shaper.is_cached(&st, "w2"));
    assert!(shaper.is_cached(&st, "w3"));
}

#[test]
fn touching_an_entry_saves_it_from_eviction() {
    let mut shaper = Shaper::with_capacity(3);
    let mut fonts = TestFonts::single();
    let st = style();

    for word in ["w0", "w1", "w2"] {
        let _ = shaper.get_or_shape(&mut fonts, &st, Direction::Ltr, LATN, word);
    }
    // Touch w0: it becomes the most recently used.
    let _ = shaper.get_or_shape(&mut fonts, &st, Direction::Ltr, LATN, "w0");
    // The next fresh key now evicts w1, the least recently used.
    let _ = shaper.get_or_shape(&mut fonts, &st, Direction::Ltr, LATN, "w3");
    assert!(shaper.is_cached(&st, "w0"));
    assert!(!shaper.is_cached(&st, "w1"));
    assert!(shaper.is_cached(&st, "w2"));
    assert!(shaper.is_cached(&st, "w3"));
}

#[test]
fn capacity_bound_holds_at_the_reference_capacity() {
    let mut shaper = Shaper::default();
    let mut fonts = TestFonts::single();
    let st = style();

    for i in 0..=1000 {
        let word = format!("w{}", i);
        let _ = shaper.get_or_shape(&mut fonts, &st, Direction::Ltr, LATN, &word);
    }
    assert_eq!(shaper.cache_size(), 1000);
    assert!(!shaper.is_cached(&st, "w0"));
    assert!(shaper.is_cached(&st, "w1"));
    assert!(shaper.is_cached(&st, "w500"));
    assert!(shaper.is_cached(&st, "w1000"));
}

#[test]
fn shaping_failure_is_cached_negatively() {
    let mut shaper = Shaper::default();
    let mut fonts = TestFonts::empty();
    let st = style();

    let r = shaper.get_or_shape(&mut fonts, &st, Direction::Ltr, LATN, "word");
    assert_eq!(r, Err(ErrorKind::ShapingFailed));
    assert_eq!(fonts.candidate_calls, 1);
    assert!(shaper.is_cached(&st, "word"));

    // The cached failure is returned without renewed resolver work.
    let again = shaper.get_or_shape(&mut fonts, &st, Direction::Ltr, LATN, "word");
    assert_eq!(again, Err(ErrorKind::ShapingFailed));
    assert_eq!(fonts.candidate_calls, 1);
}

#[test]
fn a_failed_word_still_lets_the_rest_shape() {
    let mut shaper = Shaper::default();
    let mut fonts = TestFonts::empty();
    let st = style();

    // No font at all: every word fails to shape, contributes no glyphs, and
    // the call still succeeds with an empty layout.
    let l = shaper.shape(10, 20, &mut fonts, &st, "no fonts here").expect("still lays out");
    assert!(l.glyphs.is_empty());
    assert_eq!(l.width, 0);
    assert_eq!(l.x, 10);
    assert_eq!(l.y, 20);
}

#[test]
fn clear_cache_drops_every_entry() {
    let mut shaper = Shaper::default();
    let mut fonts = TestFonts::single();
    let st = style();

    shaper.shape(0, 0, &mut fonts, &st, "one two").expect("shapes");
    assert!(shaper.cache_size() > 0);

    shaper.clear_cache();
    assert_eq!(shaper.cache_size(), 0);
    assert!(!shaper.is_cached(&st, "one "));

    // After a clear the same text shapes again from scratch.
    let misses = fonts.candidate_calls;
    shaper.shape(0, 0, &mut fonts, &st, "one two").expect("shapes");
    assert!(fonts.candidate_calls > misses);
}

#[test]
fn empty_text_shapes_to_an_empty_layout() {
    let mut shaper = Shaper::default();
    let mut fonts = TestFonts::single();
    let st = style();

    let l = shaper.shape(42, 17, &mut fonts, &st, "").expect("empty text always shapes");
    assert!(l.glyphs.is_empty());
    assert_eq!(l.x, 42);
    assert_eq!(l.y, 17);
    assert_eq!(l.width, 0);
    assert_eq!(l.height, 0);
}

#[test]
fn shaping_is_deterministic_across_fresh_shapers() {
    let st = style();

    let mut shaper_a = Shaper::default();
    let mut fonts_a = TestFonts::single();
    let a = shaper_a.get_or_shape(&mut fonts_a, &st, Direction::Ltr, LATN, "same");

    let mut shaper_b = Shaper::default();
    let mut fonts_b = TestFonts::single();
    let b = shaper_b.get_or_shape(&mut fonts_b, &st, Direction::Ltr, LATN, "same");

    assert_eq!(a, b);
}

#[test]
fn fallback_uses_the_last_attempt_when_no_font_shapes_cleanly() {
    let mut shaper = Shaper::default();
    let st = style();
    // Two candidate blobs, neither a real font: every attempt reports
    // missing glyphs, so the resolver keeps the last attempt best-effort.
    let metrics = FontMetrics { ascender: 1, descender: 0, height: 1, units_per_em: 1 };
    let mut fonts = TestFonts {
        fonts: vec![
            (FontId(1), b"first candidate blob".to_vec(), metrics),
            (FontId(2), b"second candidate blob".to_vec(), metrics),
        ],
        candidate_calls: 0,
    };

    let r = shaper.get_or_shape(&mut fonts, &st, Direction::Ltr, LATN, "word").expect("best effort");
    assert!(!r.is_empty());
    for g in &r {
        assert_eq!(g.font_id, FontId(2));
    }
}

#[test]
fn glyphs_carry_their_source_characters() {
    let mut shaper = Shaper::default();
    let mut fonts = TestFonts::single();
    let st = style();

    let l = shaper.shape(0, 0, &mut fonts, &st, "ab").expect("shapes");
    let chars: Vec<char> = l.glyphs.iter().map(|g| g.c).collect();
    assert_eq!(chars, vec!['a', 'b']);
    // The blob is no real font: every glyph is the missing glyph, with no
    // ink box, and tagged with the resolved font.
    for g in &l.glyphs {
        assert_eq!(g.codepoint, 0);
        assert_eq!(g.width, 0);
        assert_eq!(g.bearing_x, 0);
        assert_eq!(g.font_id, FontId(1));
    }
}
