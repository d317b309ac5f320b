//! Laying the glyphs of one line out along the pen's path, and measuring it.

use vstd::prelude::*;
use crate::font::{FontMetrics, GlyphId, MAX_PEN_STEP};

verus! {

/// The pen while it moves along a line: how far it has come, in design units,
/// and the last glyph with an outline that it passed.
pub struct Pen {
    pub width: int,
    pub last: Option<GlyphId>,
}

/// An outlined glyph of a line and the pen position, in design units, at
/// which it is drawn.
#[derive(Clone, Copy, Debug, PartialEq, Eq, Structural)]
pub struct GlyphPlacement {
    pub glyph: GlyphId,
    pub pen: i128,
}

/// The glyphs of a line that are to be drawn, and the line's advance width in
/// design units.
#[derive(Debug)]
pub struct GlyphRun {
    pub glyphs: Vec<GlyphPlacement>,
    pub width: i128,
}

/// The pen after one more character.
///
/// A character without a glyph leaves the pen where it is. Any other moves it
/// by the glyph's advance. A glyph with an outline is also kerned against the
/// outlined glyph before it, whatever lies between them; the pair is looked up
/// with the later glyph first, and the adjustment moves the pen after the
/// glyph has been placed.
pub open spec fn pen_step(m: FontMetrics, pen: Pen, c: char) -> Pen {
    match m.glyph_of(c) {
        None => pen,
        Some(glyph) => {
            let advanced = pen.width + m.advance_of(glyph);
            if m.is_outlined(glyph) {
                let kerned = match pen.last {
                    Some(last) => advanced + m.kerning_of(glyph, last),
                    None => advanced,
                };
                Pen { width: kerned, last: Some(glyph) }
            } else {
                Pen { width: advanced, last: pen.last }
            }
        },
    }
}

/// The pen at the end of `text`.
pub open spec fn pen_after(m: FontMetrics, text: Seq<char>) -> Pen
    decreases text.len(),
{
    if text.len() == 0 {
        Pen { width: 0, last: None }
    } else {
        pen_step(m, pen_after(m, text.drop_last()), text.last())
    }
}

/// The advance width of `text` in design units: the advances of its glyphs
/// and the kerning between its consecutive outlined glyphs.
pub open spec fn line_width(m: FontMetrics, text: Seq<char>) -> int {
    pen_after(m, text).width
}

/// The outlined glyphs of `text` in order, each with the pen position that
/// the text before it leads to.
pub open spec fn placements(m: FontMetrics, text: Seq<char>) -> Seq<GlyphPlacement>
    decreases text.len(),
{
    if text.len() == 0 {
        Seq::empty()
    } else {
        let before = text.drop_last();
        let placed = placements(m, before);
        match m.glyph_of(text.last()) {
            Some(glyph) => if m.is_outlined(glyph) {
                placed.push(GlyphPlacement { glyph, pen: pen_after(m, before).width as i128 })
            } else {
                placed
            },
            None => placed,
        }
    }
}

/// Whether a length of `width` design units, at `scale` millionths of a pixel
/// to the font's `height`, is longer than `max_width` millionths of a pixel.
pub open spec fn exceeds(width: int, height: int, scale: int, max_width: int) -> bool {
    width * scale > max_width * height
}

/// The pen cannot move further than one full step for each character.
pub proof fn lemma_pen_bounds(m: FontMetrics, text: Seq<char>)
    ensures
        -(text.len() * MAX_PEN_STEP) <= pen_after(m, text).width <= text.len() * MAX_PEN_STEP,
    decreases text.len(),
{
    if text.len() > 0 {
        lemma_pen_bounds(m, text.drop_last());
        let n = text.len() as int;
        assert((n - 1) * MAX_PEN_STEP + MAX_PEN_STEP == n * MAX_PEN_STEP) by (nonlinear_arith);
    }
}

/// The pen at the end of `text` when it starts out as `start`.
pub open spec fn pen_from(m: FontMetrics, start: Pen, text: Seq<char>) -> Pen
    decreases text.len(),
{
    if text.len() == 0 {
        start
    } else {
        pen_step(m, pen_from(m, start, text.drop_last()), text.last())
    }
}

/// Whether the font stores no kerning adjustment that pulls glyphs together.
pub open spec fn no_negative_kerning(m: FontMetrics) -> bool {
    forall|key: u32| m.kerning@.contains_key(key) ==> (#[trigger] m.kerning@[key]) >= 0
}

/// The pen walks a text in one go as it walks it in two parts.
pub proof fn lemma_pen_concat(m: FontMetrics, a: Seq<char>, b: Seq<char>)
    ensures
        pen_after(m, a + b) == pen_from(m, pen_after(m, a), b),
    decreases b.len(),
{
    if b.len() == 0 {
        assert(a + b =~= a);
    } else {
        lemma_pen_concat(m, a, b.drop_last());
        assert((a + b).drop_last() =~= a + b.drop_last());
    }
}

/// Where no kerning is negative, a text set behind another is no narrower
/// there than it is alone.
pub proof fn lemma_pen_from_grows(m: FontMetrics, start: Pen, text: Seq<char>)
    requires
        no_negative_kerning(m),
    ensures
        ({
            let moved = pen_from(m, start, text);
            let alone = pen_after(m, text);
            &&& moved.width >= start.width + alone.width
            &&& alone.width >= 0
            &&& alone.last is Some ==> moved.last == alone.last
            &&& alone.last is None ==> moved.last == start.last
        }),
    decreases text.len(),
{
    if text.len() > 0 {
        lemma_pen_from_grows(m, start, text.drop_last());
        lemma_pen_from_is_after(m, text.drop_last());
        lemma_pen_from_is_after(m, text);
    } else {
        lemma_pen_from_is_after(m, text);
    }
}

proof fn lemma_pen_from_is_after(m: FontMetrics, text: Seq<char>)
    ensures
        pen_after(m, text) == pen_from(m, Pen { width: 0, last: None }, text),
    decreases text.len(),
{
    if text.len() > 0 {
        lemma_pen_from_is_after(m, text.drop_last());
    }
}

/// Where no kerning is negative, a text made of two parts is at least as wide
/// as both parts together.
pub proof fn lemma_width_superadditive(m: FontMetrics, a: Seq<char>, b: Seq<char>)
    requires
        no_negative_kerning(m),
    ensures
        line_width(m, a + b) >= line_width(m, a) + line_width(m, b),
        line_width(m, a) >= 0,
        line_width(m, b) >= 0,
{
    lemma_pen_concat(m, a, b);
    lemma_pen_from_grows(m, pen_after(m, a), b);
    lemma_pen_from_grows(m, Pen { width: 0, last: None }, a);
}

/// Moves the pen by one character.
fn step_pen(metrics: &FontMetrics, width: i128, last: Option<GlyphId>, c: char) -> (next: (
    i128,
    Option<GlyphId>,
))
    requires
        -(i128::MAX - MAX_PEN_STEP) <= width <= i128::MAX - MAX_PEN_STEP,
    ensures
        (Pen { width: next.0 as int, last: next.1 }) == pen_step(
            *metrics,
            Pen { width: width as int, last },
            c,
        ),
        width - MAX_PEN_STEP <= next.0 <= width + MAX_PEN_STEP,
{
    match metrics.glyph_for(c) {
        None => (width, last),
        Some(glyph) => {
            let advanced: i128 = width + metrics.advance_width(glyph) as i128;
            if metrics.has_outline(glyph) {
                let kerned: i128 = match last {
                    Some(before) => advanced + metrics.kerning(glyph, before) as i128,
                    None => advanced,
                };
                (kerned, Some(glyph))
            } else {
                (advanced, last)
            }
        },
    }
}

/// Lays out the glyphs of one line: which are drawn, where the pen stands for
/// each, and how wide the line is.
pub fn layout_glyphs(metrics: &FontMetrics, text: &Vec<char>) -> (run: GlyphRun)
    ensures
        run.width == line_width(*metrics, text@),
        run.glyphs@ == placements(*metrics, text@),
{
    let mut glyphs: Vec<GlyphPlacement> = Vec::new();
    let mut width: i128 = 0;
    let mut last: Option<GlyphId> = None;
    let mut i: usize = 0;
    assert(text@.take(0) =~= Seq::<char>::empty());
    while i < text.len()
        invariant
            i <= text.len(),
            (Pen { width: width as int, last }) == pen_after(*metrics, text@.take(i as int)),
            glyphs@ == placements(*metrics, text@.take(i as int)),
        decreases text.len() - i,
    {
        let c = text[i];
        proof {
            lemma_pen_bounds(*metrics, text@.take(i as int));
            lemma_pen_bounds(*metrics, text@.take(i + 1));
            assert(i * MAX_PEN_STEP <= usize::MAX * MAX_PEN_STEP) by (nonlinear_arith)
                requires
                    i <= usize::MAX,
            ;
            assert(text@.take(i + 1).drop_last() =~= text@.take(i as int));
            assert(text@.take(i + 1).last() == c);
        }
        if let Some(glyph) = metrics.glyph_for(c) {
            if metrics.has_outline(glyph) {
                glyphs.push(GlyphPlacement { glyph, pen: width });
            }
        }
        let next = step_pen(metrics, width, last, c);
        width = next.0;
        last = next.1;
        i += 1;
    }
    assert(text@.take(text.len() as int) =~= text@);
    GlyphRun { glyphs, width }
}

/// Measures the advance width of one line in design units.
pub fn text_width(metrics: &FontMetrics, text: &Vec<char>) -> (width: i128)
    ensures
        width == line_width(*metrics, text@),
        -(text@.len() * MAX_PEN_STEP) <= width <= text@.len() * MAX_PEN_STEP,
{
    let mut width: i128 = 0;
    let mut last: Option<GlyphId> = None;
    let mut i: usize = 0;
    assert(text@.take(0) =~= Seq::<char>::empty());
    while i < text.len()
        invariant
            i <= text.len(),
            (Pen { width: width as int, last }) == pen_after(*metrics, text@.take(i as int)),
        decreases text.len() - i,
    {
        proof {
            lemma_pen_bounds(*metrics, text@.take(i as int));
            assert(i * MAX_PEN_STEP <= usize::MAX * MAX_PEN_STEP) by (nonlinear_arith)
                requires
                    i <= usize::MAX,
            ;
            assert(text@.take(i + 1).drop_last() =~= text@.take(i as int));
        }
        let next = step_pen(metrics, width, last, text[i]);
        width = next.0;
        last = next.1;
        i += 1;
    }
    proof {
        assert(text@.take(text.len() as int) =~= text@);
        lemma_pen_bounds(*metrics, text@);
    }
    width
}

/// Decides whether a line of `width` design units is too wide.
pub fn line_exceeds(width: i128, height: u32, scale: u128, max_width: u64) -> (too_wide: bool)
    requires
        0 < height <= 0xffff,
    ensures
        too_wide == exceeds(width as int, height as int, scale as int, max_width as int),
{
    if width <= 0 || scale == 0 {
        assert(width * scale <= 0) by (nonlinear_arith)
            requires
                width <= 0 || scale == 0,
                scale >= 0,
        ;
        assert(max_width * height >= 0) by (nonlinear_arith)
            requires
                max_width >= 0,
                height > 0,
        ;
        false
    } else {
        assert(max_width * height <= 0xffff_ffff_ffff_ffff * 0xffff) by (nonlinear_arith)
            requires
                0 <= max_width <= 0xffff_ffff_ffff_ffff,
                0 < height <= 0xffff,
        ;
        let room: u128 = max_width as u128 * height as u128;
        let limit: u128 = room / scale;
        proof {
            let w = width as int;
            let s = scale as int;
            let n = room as int;
            let q = limit as int;
            vstd::arithmetic::div_mod::lemma_fundamental_div_mod(n, s);
            vstd::arithmetic::div_mod::lemma_mod_bound(n, s);
            assert(n == s * q + n % s);
            assert(w > q ==> w * s > n) by (nonlinear_arith)
                requires
                    n == s * q + n % s,
                    0 <= n % s < s,
                    s > 0,
            ;
            assert(w <= q ==> w * s <= n) by (nonlinear_arith)
                requires
                    n == s * q + n % s,
                    0 <= n % s < s,
                    s > 0,
            ;
        }
        width as u128 > limit
    }
}

} // verus!
