//! Style descriptors, font identifiers and metrics, error kinds, and the
//! font-store capability through which fonts are looked up.

use vstd::prelude::*;

verus! {

/// Fixed ink padding added around every glyph, in layout units.
pub const GLYPH_PADDING: u16 = 2;

/// Identifier of a font inside a font store.
#[derive(Clone, Copy, Debug, PartialEq, Eq, Structural, Hash)]
pub struct FontId(pub u64);

/// Weight class of a face, from thinnest to blackest.
#[derive(Clone, Copy, Debug, PartialEq, Eq, Structural, Hash)]
pub enum Weight {
    Thin,
    ExtraLight,
    Light,
    Normal,
    Medium,
    SemiBold,
    Bold,
    ExtraBold,
    Black,
}

/// Width class of a face, from most condensed to most expanded.
#[derive(Clone, Copy, Debug, PartialEq, Eq, Structural, Hash)]
pub enum WidthClass {
    UltraCondensed,
    ExtraCondensed,
    Condensed,
    SemiCondensed,
    Normal,
    SemiExpanded,
    Expanded,
    ExtraExpanded,
    UltraExpanded,
}

/// Slant of a face.
#[derive(Clone, Copy, Debug, PartialEq, Eq, Structural, Hash)]
pub enum FontStyle {
    Normal,
    Italic,
    Oblique,
}

/// Horizontal alignment of the laid-out text relative to the input origin.
#[derive(Clone, Copy, Debug, PartialEq, Eq, Structural, Hash)]
pub enum Align {
    Left,
    Center,
    Right,
}

/// Vertical reference line used when positioning glyphs.
#[derive(Clone, Copy, Debug, PartialEq, Eq, Structural, Hash)]
pub enum Baseline {
    Top,
    Middle,
    Alphabetic,
    Bottom,
}

/// How the text will be rendered; stroking widens the padding ring.
#[derive(Clone, Copy, Debug, PartialEq, Eq, Structural, Hash)]
pub enum RenderStyle {
    Fill,
    Stroke { width: u16 },
}

/// A text style. Only `size`, `weight`, `width_class` and `font_style` affect
/// glyph shapes (and therefore the shaping cache key); the remaining fields
/// affect layout only.
#[derive(Clone, Debug)]
pub struct TextStyle {
    /// Point size the text is shaped and laid out at.
    pub size: u16,
    pub weight: Weight,
    pub width_class: WidthClass,
    pub font_style: FontStyle,
    /// Ordered family preference consulted by the font store.
    pub font_families: Vec<String>,
    pub align: Align,
    pub baseline: Baseline,
    /// Extra advance added after every glyph, in layout units.
    pub letter_spacing: i32,
    /// Blur radius; widens the padding ring by twice its value.
    pub blur: u16,
    pub render_style: RenderStyle,
}

/// Vertical metrics of a face, in font units, plus the scale divisor.
/// A usable face has `units_per_em > 0`.
#[derive(Clone, Copy, Debug, PartialEq, Eq, Structural)]
pub struct FontMetrics {
    /// Maximum extent above the baseline, in font units.
    pub ascender: i32,
    /// Maximum extent below the baseline, in font units; typically negative.
    pub descender: i32,
    /// Line height, in font units.
    pub height: i32,
    /// Font units per em square; the divisor when scaling to a size.
    pub units_per_em: u16,
}

/// Everything the engine can fail with.
#[derive(Clone, Copy, Debug, PartialEq, Eq, Structural)]
pub enum ErrorKind {
    /// A glyph's font identifier is absent from the font store at layout
    /// time; fatal for the whole `shape` call.
    NoFontFound,
    /// No candidate font produced a shaping result for a word; the failure is
    /// cached and the word contributes no glyphs.
    ShapingFailed,
}

/// The font-store capability the engine is handed: candidate enumeration for
/// the fallback search, font bytes for shaping, and vertical metrics for
/// layout. The engine makes no assumption about the answers beyond their
/// types; every outcome is handled.
pub trait FontDb {
    /// Candidate fonts for `word` under `style`, best first: explicit family
    /// preferences, then registered fallback fonts.
    fn candidates(&mut self, style: &TextStyle, word: &str) -> Vec<FontId>;

    /// The raw bytes of the face behind `id`, if it is registered.
    fn font_data(&mut self, id: FontId) -> Option<Vec<u8>>;

    /// Vertical metrics of the face behind `id`, if it is registered.
    fn metrics(&mut self, id: FontId) -> Option<FontMetrics>;
}

} // verus!
