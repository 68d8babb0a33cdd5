//! The layout engine: pen positions, alignment, baseline offsets and
//! aggregate bounds for a fully shaped glyph sequence.
//!
//! The computation is a single left-to-right pass in logical order. The
//! total advance width fixes the alignment shift of the origin; each glyph
//! is placed at the running pen position plus its render offset and the
//! baseline delta of its font; the output height is the tallest scaled line
//! height, and the output y is the highest glyph top among mixed fonts.

use vstd::prelude::*;
use crate::glyph::{glyph_fits, ShapedGlyph, METRIC_MAX};
use crate::num::{half_i128, half_i64, half_trunc, scale_i32, scale_trunc};
use crate::style::{Align, Baseline, FontMetrics, RenderStyle, TextStyle, GLYPH_PADDING};

verus! {

/// Bound on the input origin, so that no pen position can overflow even for
/// a glyph sequence as long as the address space allows.
pub const ORIGIN_MAX: i128 = 0x100000000000000000000;

/// Bound on one glyph's contribution to the running x advance: a metric
/// plus the widest letter spacing.
pub const ADVANCE_STEP_MAX: i64 = 0x8000_8000_0000;

/// The aggregate output of a layout: origin after alignment, total advance
/// width, line height, and the positioned glyphs. Transient, owned by the
/// caller.
#[derive(Clone, Debug)]
pub struct TextLayout {
    /// Output origin x: the input x shifted left by the alignment.
    pub x: i128,
    /// Output origin y: the smallest glyph pen y, capturing the highest
    /// ascent; the input y when there are no glyphs.
    pub y: i128,
    /// Total advance width of the glyph sequence.
    pub width: i128,
    /// The tallest scaled line height among the glyphs' fonts.
    pub height: i64,
    /// The glyph sequence with pen positions and render offsets filled in.
    pub glyphs: Vec<ShapedGlyph>,
}

/// Stroke line width of a style: the stroke width when stroking, else zero.
pub open spec fn spec_line_width(style: TextStyle) -> int {
    match style.render_style {
        RenderStyle::Stroke { width } => width as int,
        RenderStyle::Fill => 0,
    }
}

/// The padding ring around every glyph: the fixed padding, twice the blur
/// radius, and the stroke line width.
pub open spec fn spec_padding(style: TextStyle) -> int {
    GLYPH_PADDING + 2 * style.blur + spec_line_width(style)
}

/// Total advance width of a glyph sequence: the sum of every glyph's x
/// advance plus one letter spacing each.
pub open spec fn spec_total_advance(gs: Seq<ShapedGlyph>, ls: int) -> int
    decreases gs.len(),
{
    if gs.len() == 0 {
        0
    } else {
        spec_total_advance(gs.drop_last(), ls) + gs.last().advance_x + ls
    }
}

/// Sum of the y advances of a glyph sequence.
pub open spec fn spec_total_advance_y(gs: Seq<ShapedGlyph>) -> int
    decreases gs.len(),
{
    if gs.len() == 0 {
        0
    } else {
        spec_total_advance_y(gs.drop_last()) + gs.last().advance_y
    }
}

/// The output origin x: the input x, shifted left by half the total width
/// when centering and by the whole width when right-aligning.
pub open spec fn spec_aligned_x(x: int, width: int, align: Align) -> int {
    match align {
        Align::Left => x,
        Align::Center => x - half_trunc(width),
        Align::Right => x - width,
    }
}

/// Ascender of a face scaled to the requested size.
pub open spec fn spec_ascender(m: FontMetrics, size: u16) -> int {
    scale_trunc(m.ascender as int, size as int, m.units_per_em as int)
}

/// Descender of a face scaled to the requested size; typically negative.
pub open spec fn spec_descender(m: FontMetrics, size: u16) -> int {
    scale_trunc(m.descender as int, size as int, m.units_per_em as int)
}

/// Line height of a face scaled to the requested size.
pub open spec fn spec_line_height(m: FontMetrics, size: u16) -> int {
    scale_trunc(m.height as int, size as int, m.units_per_em as int)
}

/// The baseline delta added to a glyph's pen y: the scaled ascender for a
/// Top baseline, the truncated midpoint of ascender and descender for
/// Middle, nothing for Alphabetic, the scaled descender for Bottom.
pub open spec fn spec_baseline_delta(baseline: Baseline, asc: int, desc: int) -> int {
    match baseline {
        Baseline::Top => asc,
        Baseline::Middle => half_trunc(asc + desc),
        Baseline::Alphabetic => 0,
        Baseline::Bottom => desc,
    }
}

/// The render x offset of a glyph: shaping offset plus left bearing, pulled
/// back by the padding ring and half the stroke width.
pub open spec fn spec_calc_offset_x(g: ShapedGlyph, style: TextStyle) -> int {
    g.offset_x + g.bearing_x - spec_padding(style) - half_trunc(spec_line_width(style))
}

/// The render y offset of a glyph: shaping offset minus top bearing, pulled
/// back by the padding ring and half the stroke width.
pub open spec fn spec_calc_offset_y(g: ShapedGlyph, style: TextStyle) -> int {
    g.offset_y - g.bearing_y - spec_padding(style) - half_trunc(spec_line_width(style))
}

/// Pen x of glyph `i`: the aligned origin, advanced by every earlier glyph,
/// plus the glyph's own render offset.
pub open spec fn spec_glyph_x(origin_x: int, gs: Seq<ShapedGlyph>, i: int, style: TextStyle) -> int {
    origin_x + spec_total_advance(gs.take(i), style.letter_spacing as int) + spec_calc_offset_x(
        gs[i],
        style,
    )
}

/// Pen y of glyph `i`: the input y, advanced by every earlier glyph's y
/// advance, plus the glyph's render offset and its font's baseline delta.
pub open spec fn spec_glyph_y(
    y: int,
    gs: Seq<ShapedGlyph>,
    i: int,
    style: TextStyle,
    m: FontMetrics,
) -> int {
    y + spec_total_advance_y(gs.take(i)) + spec_calc_offset_y(gs[i], style) + spec_baseline_delta(
        style.baseline,
        spec_ascender(m, style.size),
        spec_descender(m, style.size),
    )
}

/// Glyph `i` with its pen position and render offsets filled in.
pub open spec fn spec_laid_glyph(g: ShapedGlyph, gx: int, gy: int, style: TextStyle) -> ShapedGlyph {
    ShapedGlyph {
        x: gx as i128,
        y: gy as i128,
        calc_offset_x: spec_calc_offset_x(g, style) as i64,
        calc_offset_y: spec_calc_offset_y(g, style) as i64,
        ..g
    }
}

/// The tallest scaled line height among the first `n` faces, at least zero.
pub open spec fn spec_max_height_upto(ms: Seq<FontMetrics>, size: u16, n: int) -> int
    decreases n,
{
    if n <= 0 {
        0
    } else {
        let prev = spec_max_height_upto(ms, size, n - 1);
        let lh = spec_line_height(ms[n - 1], size);
        if lh > prev {
            lh
        } else {
            prev
        }
    }
}

/// The smallest pen y among the first `n` glyphs, starting from the input y.
pub open spec fn spec_min_y_upto(
    y: int,
    gs: Seq<ShapedGlyph>,
    ms: Seq<FontMetrics>,
    style: TextStyle,
    n: int,
) -> int
    decreases n,
{
    if n <= 0 {
        y
    } else {
        let prev = spec_min_y_upto(y, gs, ms, style, n - 1);
        let gy = spec_glyph_y(y, gs, n - 1, style, ms[n - 1]);
        if gy < prev {
            gy
        } else {
            prev
        }
    }
}

/// Everything `layout_glyphs` promises of its output, over the input
/// origin, the glyphs in logical order and their faces' metrics.
pub open spec fn spec_layout_result(
    out: TextLayout,
    x: int,
    y: int,
    gs: Seq<ShapedGlyph>,
    ms: Seq<FontMetrics>,
    style: TextStyle,
) -> bool {
    &&& out.width as int == spec_total_advance(gs, style.letter_spacing as int)
    &&& out.x as int == spec_aligned_x(x, out.width as int, style.align)
    &&& out.height as int == spec_max_height_upto(ms, style.size, gs.len() as int)
    &&& out.y as int == spec_min_y_upto(y, gs, ms, style, gs.len() as int)
    &&& out.glyphs@.len() == gs.len()
    &&& forall|i: int|
        0 <= i < gs.len() ==> #[trigger] out.glyphs@[i] == spec_laid_glyph(
            gs[i],
            spec_glyph_x(out.x as int, gs, i, style),
            spec_glyph_y(y, gs, i, style, ms[i]),
            style,
        )
}

/// The layout output arose from `gs` under some per-glyph metric
/// assignment (one face's vertical metrics per glyph, each with a nonzero
/// scale divisor).
pub open spec fn laid_out_from(
    out: TextLayout,
    x: int,
    y: int,
    gs: Seq<ShapedGlyph>,
    style: TextStyle,
) -> bool {
    exists|ms: Seq<FontMetrics>|
        ms.len() == gs.len() && #[trigger] spec_layout_result(out, x, y, gs, ms, style)
}

/// The total advance of `n` bounded glyphs stays within `n` advance steps.
pub proof fn lemma_total_advance_bound(gs: Seq<ShapedGlyph>, ls: int)
    requires
        forall|i: int| 0 <= i < gs.len() ==> glyph_fits(#[trigger] gs[i]),
        -0x8000_0000 <= ls <= 0x8000_0000,
    ensures
        -(gs.len() * ADVANCE_STEP_MAX as int) <= spec_total_advance(gs, ls) <= gs.len()
            * ADVANCE_STEP_MAX as int,
    decreases gs.len(),
{
    if gs.len() > 0 {
        assert(forall|i: int|
            0 <= i < gs.drop_last().len() ==> #[trigger] gs.drop_last()[i] == gs[i]);
        lemma_total_advance_bound(gs.drop_last(), ls);
        assert(glyph_fits(gs.last()));
        assert(gs.drop_last().len() * ADVANCE_STEP_MAX as int + ADVANCE_STEP_MAX as int == gs.len()
            * ADVANCE_STEP_MAX as int) by {
            vstd::arithmetic::mul::lemma_mul_is_distributive_add_other_way(
                ADVANCE_STEP_MAX as int,
                gs.drop_last().len() as int,
                1,
            );
        }
    }
}

/// The total y advance of `n` bounded glyphs stays within `n` metric bounds.
pub proof fn lemma_total_advance_y_bound(gs: Seq<ShapedGlyph>)
    requires
        forall|i: int| 0 <= i < gs.len() ==> glyph_fits(#[trigger] gs[i]),
    ensures
        -(gs.len() * METRIC_MAX as int) <= spec_total_advance_y(gs) <= gs.len() * METRIC_MAX as int,
    decreases gs.len(),
{
    if gs.len() > 0 {
        assert(forall|i: int|
            0 <= i < gs.drop_last().len() ==> #[trigger] gs.drop_last()[i] == gs[i]);
        lemma_total_advance_y_bound(gs.drop_last());
        assert(glyph_fits(gs.last()));
        assert(gs.drop_last().len() * METRIC_MAX as int + METRIC_MAX as int == gs.len()
            * METRIC_MAX as int) by {
            vstd::arithmetic::mul::lemma_mul_is_distributive_add_other_way(
                METRIC_MAX as int,
                gs.drop_last().len() as int,
                1,
            );
        }
    }
}

/// Alignment law: for a glyph sequence of total advance width `w` laid out
/// at input x, a Left layout keeps the origin at `x`, Center shifts it left
/// by `w / 2` (truncated), and Right shifts it left by `w`.
pub proof fn lemma_alignment(x: int, w: int)
    ensures
        spec_aligned_x(x, w, Align::Left) == x,
        spec_aligned_x(x, w, Align::Center) == x - half_trunc(w),
        spec_aligned_x(x, w, Align::Right) == x - w,
{
}

/// Baseline law: the same glyph of the same sequence, laid out under two
/// styles that differ only in baseline — Top against Bottom — sits higher
/// by exactly the scaled ascender minus the scaled descender of its face.
pub proof fn lemma_baseline_top_bottom(
    y: int,
    gs: Seq<ShapedGlyph>,
    i: int,
    top: TextStyle,
    bottom: TextStyle,
    m: FontMetrics,
)
    requires
        0 <= i < gs.len(),
        top.baseline == Baseline::Top,
        bottom.baseline == Baseline::Bottom,
        top.size == bottom.size,
        top.blur == bottom.blur,
        top.render_style == bottom.render_style,
    ensures
        spec_glyph_y(y, gs, i, top, m) - spec_glyph_y(y, gs, i, bottom, m) == spec_ascender(
            m,
            top.size,
        ) - spec_descender(m, top.size),
{
}

/// Lay out a fully shaped glyph sequence: compute the total advance width,
/// shift the origin by the alignment, and place every glyph at the running
/// pen position with its render offset and its face's baseline delta, while
/// tracking the tallest line height and the highest glyph top.
pub fn layout_glyphs(
    x: i128,
    y: i128,
    glyphs: &Vec<ShapedGlyph>,
    metrics: &Vec<FontMetrics>,
    style: &TextStyle,
) -> (out: TextLayout)
    requires
        metrics@.len() == glyphs@.len(),
        forall|i: int| 0 <= i < glyphs@.len() ==> glyph_fits(#[trigger] glyphs@[i]),
        forall|i: int| 0 <= i < metrics@.len() ==> (#[trigger] metrics@[i]).units_per_em > 0,
        -ORIGIN_MAX <= x <= ORIGIN_MAX,
        -ORIGIN_MAX <= y <= ORIGIN_MAX,
    ensures
        spec_layout_result(out, x as int, y as int, glyphs@, metrics@, *style),
{
    let ghost gs = glyphs@;
    let ghost ls = style.letter_spacing as int;
    let n = glyphs.len();

    let line_width: u16 = match style.render_style {
        RenderStyle::Stroke { width } => width,
        RenderStyle::Fill => 0,
    };
    let padding: u32 = (GLYPH_PADDING as u32) + 2 * (style.blur as u32) + (line_width as u32);
    let half_lw: u16 = line_width / 2;
    proof {
        assert(padding == spec_padding(*style));
        assert(half_lw == half_trunc(spec_line_width(*style)));
    }

    // Total advance width.
    let mut width: i128 = 0;
    let mut i: usize = 0;
    proof {
        assert(gs.take(0) =~= Seq::<ShapedGlyph>::empty());
    }
    while i < n
        invariant
            n == gs.len(),
            glyphs@ == gs,
            ls == style.letter_spacing as int,
            forall|j: int| 0 <= j < gs.len() ==> glyph_fits(#[trigger] gs[j]),
            i <= n,
            width as int == spec_total_advance(gs.take(i as int), ls),
            -(i as int * ADVANCE_STEP_MAX as int) <= width as int <= i as int
                * ADVANCE_STEP_MAX as int,
        decreases n - i,
    {
        proof {
            assert(gs.take(i + 1).drop_last() =~= gs.take(i as int));
            assert(gs.take(i + 1).last() == gs[i as int]);
            lemma_total_advance_bound(gs.take(i + 1), ls);
            assert(forall|j: int| 0 <= j < i + 1 ==> #[trigger] gs.take(i + 1)[j] == gs[j]);
            vstd::arithmetic::mul::lemma_mul_inequality(
                i + 1,
                n as int,
                ADVANCE_STEP_MAX as int,
            );
        }
        width = width + (glyphs[i].advance_x as i128) + (style.letter_spacing as i128);
        i = i + 1;
    }
    proof {
        assert(gs.take(n as int) =~= gs);
        vstd::arithmetic::mul::lemma_mul_inequality(n as int, 0x10000000000000000, ADVANCE_STEP_MAX as int);
        vstd::arithmetic::mul::lemma_mul_upper_bound(
            n as int,
            0x10000000000000000,
            ADVANCE_STEP_MAX as int,
            ADVANCE_STEP_MAX as int,
        );
    }

    // Alignment of the origin.
    let origin_x: i128 = match style.align {
        Align::Left => x,
        Align::Center => x - half_i128(width),
        Align::Right => x - width,
    };

    // One pass in logical order.
    let mut out_glyphs: Vec<ShapedGlyph> = Vec::new();
    let mut cursor_x: i128 = origin_x;
    let mut cursor_y: i128 = y;
    let mut height: i64 = 0;
    let mut out_y: i128 = y;
    let mut i: usize = 0;
    proof {
        assert(gs.take(0) =~= Seq::<ShapedGlyph>::empty());
    }
    while i < n
        invariant
            n == gs.len(),
            glyphs@ == gs,
            metrics@.len() == gs.len(),
            ls == style.letter_spacing as int,
            forall|j: int| 0 <= j < gs.len() ==> glyph_fits(#[trigger] gs[j]),
            forall|j: int| 0 <= j < metrics@.len() ==> (#[trigger] metrics@[j]).units_per_em > 0,
            i <= n,
            padding == spec_padding(*style),
            half_lw == half_trunc(spec_line_width(*style)),
            -ORIGIN_MAX <= y <= ORIGIN_MAX,
            -ORIGIN_MAX - 0x10000000000000000 * (ADVANCE_STEP_MAX as int) * 2 <= origin_x
                <= ORIGIN_MAX + 0x10000000000000000 * (ADVANCE_STEP_MAX as int) * 2,
            cursor_x as int == origin_x + spec_total_advance(gs.take(i as int), ls),
            cursor_y as int == y + spec_total_advance_y(gs.take(i as int)),
            height as int == spec_max_height_upto(metrics@, style.size, i as int),
            out_y as int == spec_min_y_upto(y as int, gs, metrics@, *style, i as int),
            out_glyphs@.len() == i,
            forall|j: int|
                0 <= j < i ==> #[trigger] out_glyphs@[j] == spec_laid_glyph(
                    gs[j],
                    spec_glyph_x(origin_x as int, gs, j, *style),
                    spec_glyph_y(y as int, gs, j, *style, metrics@[j]),
                    *style,
                ),
        decreases n - i,
    {
        let g = glyphs[i];
        let m = metrics[i];
        proof {
            assert(glyph_fits(g));
            lemma_total_advance_bound(gs.take(i as int), ls);
            lemma_total_advance_y_bound(gs.take(i as int));
            assert(forall|j: int| 0 <= j < i ==> #[trigger] gs.take(i as int)[j] == gs[j]);
            vstd::arithmetic::mul::lemma_mul_inequality(i as int, 0x10000000000000000, ADVANCE_STEP_MAX as int);
            vstd::arithmetic::mul::lemma_mul_inequality(i as int, 0x10000000000000000, METRIC_MAX as int);
        }
        let calc_offset_x: i64 = g.offset_x + g.bearing_x - (padding as i64) - (half_lw as i64);
        let calc_offset_y: i64 = g.offset_y - g.bearing_y - (padding as i64) - (half_lw as i64);

        let ascender: i64 = scale_i32(m.ascender, style.size, m.units_per_em);
        let descender: i64 = scale_i32(m.descender, style.size, m.units_per_em);
        let delta: i64 = match style.baseline {
            Baseline::Top => ascender,
            Baseline::Middle => half_i64(ascender + descender),
            Baseline::Alphabetic => 0,
            Baseline::Bottom => descender,
        };
        let gx: i128 = cursor_x + (calc_offset_x as i128);
        let gy: i128 = cursor_y + (calc_offset_y as i128) + (delta as i128);
        proof {
            assert(gx as int == spec_glyph_x(origin_x as int, gs, i as int, *style));
            assert(gy as int == spec_glyph_y(y as int, gs, i as int, *style, metrics@[i as int]));
        }

        let lh: i64 = scale_i32(m.height, style.size, m.units_per_em);
        if lh > height {
            height = lh;
        }
        if gy < out_y {
            out_y = gy;
        }

        let laid = ShapedGlyph {
            x: gx,
            y: gy,
            c: g.c,
            index: g.index,
            font_id: g.font_id,
            codepoint: g.codepoint,
            width: g.width,
            height: g.height,
            advance_x: g.advance_x,
            advance_y: g.advance_y,
            offset_x: g.offset_x,
            offset_y: g.offset_y,
            bearing_x: g.bearing_x,
            bearing_y: g.bearing_y,
            calc_offset_x: calc_offset_x,
            calc_offset_y: calc_offset_y,
        };
        proof {
            assert(laid == spec_laid_glyph(
                gs[i as int],
                spec_glyph_x(origin_x as int, gs, i as int, *style),
                spec_glyph_y(y as int, gs, i as int, *style, metrics@[i as int]),
                *style,
            ));
        }
        out_glyphs.push(laid);

        proof {
            assert(gs.take(i + 1).drop_last() =~= gs.take(i as int));
            assert(gs.take(i + 1).last() == gs[i as int]);
            lemma_total_advance_bound(gs.take(i + 1), ls);
            lemma_total_advance_y_bound(gs.take(i + 1));
            assert(forall|j: int| 0 <= j < i + 1 ==> #[trigger] gs.take(i + 1)[j] == gs[j]);
            vstd::arithmetic::mul::lemma_mul_inequality(
                i + 1,
                0x10000000000000000,
                ADVANCE_STEP_MAX as int,
            );
            vstd::arithmetic::mul::lemma_mul_inequality(i + 1, 0x10000000000000000, METRIC_MAX as int);
        }
        cursor_x = cursor_x + (g.advance_x as i128) + (style.letter_spacing as i128);
        cursor_y = cursor_y + (g.advance_y as i128);
        i = i + 1;
    }
    proof {
        assert(gs.take(n as int) =~= gs);
    }

    TextLayout { x: origin_x, y: out_y, width, height, glyphs: out_glyphs }
}

} // verus!
