//! The stamped outline: a line drawn at offsets round its anchor, beneath the
//! line itself.

use vstd::prelude::*;
use crate::canvas::{Canvas, Raster};
use crate::color::Rgba;
use crate::draw::{draw_glyphs_at, drawn, lemma_drawn_wf, masks_wf, CoverageMask, ANCHOR_LIMIT};

verus! {

/// Number of stamps on the circle round the anchor.
pub const OUTLINE_STEPS: u32 = 32;

/// Room that an anchor leaves for the offset of a stamp.
pub const OFFSET_LIMIT: i128 = 0x1_0000_0000_0000_0000;

/// The cosine of `k` sixteenths of a half turn, in thousand-millionths, for
/// the first quarter of the circle.
pub open spec fn quarter_cosine(k: int) -> int {
    if k == 0 {
        1_000_000_000
    } else if k == 1 {
        980_785_280
    } else if k == 2 {
        923_879_533
    } else if k == 3 {
        831_469_612
    } else if k == 4 {
        707_106_781
    } else if k == 5 {
        555_570_233
    } else if k == 6 {
        382_683_432
    } else if k == 7 {
        195_090_322
    } else {
        0
    }
}

/// The cosine of the angle of stamp `step`, in thousand-millionths. The
/// stamps divide the full turn evenly, so the quarter table gives every
/// value by symmetry.
pub open spec fn unit_cosine(step: int) -> int {
    let s = step % 32;
    if s <= 8 {
        quarter_cosine(s)
    } else if s <= 16 {
        -quarter_cosine(16 - s)
    } else if s <= 24 {
        -quarter_cosine(s - 16)
    } else {
        quarter_cosine(32 - s)
    }
}

/// The sine of the angle of stamp `step`, in thousand-millionths.
pub open spec fn unit_sine(step: int) -> int {
    unit_cosine(step + 24)
}

/// A length in units of `10^-15` pixels rounded to whole pixels, halves away
/// from zero.
pub open spec fn rounded_pixels(n: int) -> int {
    if n >= 0 {
        (n + 500_000_000_000_000) / 1_000_000_000_000_000
    } else {
        -((-n + 500_000_000_000_000) / 1_000_000_000_000_000)
    }
}

/// The whole-pixel offset of stamp `step` for an outline radius given in
/// millionths of a pixel: the point of the circle at that stamp's angle, each
/// coordinate rounded on its own.
pub open spec fn outline_offset(radius: int, step: int) -> (int, int) {
    (rounded_pixels(radius * unit_cosine(step)), rounded_pixels(radius * unit_sine(step)))
}

/// The picture after the first `steps` stamps of a line in the outline colour.
pub open spec fn stamped(
    r: Raster,
    glyphs: Seq<CoverageMask>,
    x: int,
    y: int,
    radius: int,
    color: Rgba,
    steps: int,
) -> Raster
    decreases steps,
{
    if steps <= 0 {
        r
    } else {
        let offset = outline_offset(radius, steps - 1);
        drawn(
            stamped(r, glyphs, x, y, radius, color, steps - 1),
            glyphs,
            x + offset.0,
            y + offset.1,
            color,
        )
    }
}

/// The picture after a line has been drawn with its outline: for a positive
/// radius every stamp in the outline colour, in the order of their angles, and
/// then, on top of them, the line itself at the anchor in the text colour.
pub open spec fn outlined(
    r: Raster,
    glyphs: Seq<CoverageMask>,
    x: int,
    y: int,
    color: Rgba,
    outline_color: Rgba,
    radius: int,
) -> Raster {
    let under = if radius > 0 {
        stamped(r, glyphs, x, y, radius, outline_color, OUTLINE_STEPS as int)
    } else {
        r
    };
    drawn(under, glyphs, x, y, color)
}

/// Without an outline radius the result is that of drawing the line alone.
pub proof fn lemma_no_outline(
    r: Raster,
    glyphs: Seq<CoverageMask>,
    x: int,
    y: int,
    color: Rgba,
    outline_color: Rgba,
)
    ensures
        outlined(r, glyphs, x, y, color, outline_color, 0) == drawn(r, glyphs, x, y, color),
{
}

/// No coordinate of an offset is longer than the radius rounded up.
pub proof fn lemma_offset_bounds(radius: int, step: int)
    requires
        0 <= radius,
    ensures
        -(radius / 1_000_000 + 1) <= outline_offset(radius, step).0 <= radius / 1_000_000 + 1,
        -(radius / 1_000_000 + 1) <= outline_offset(radius, step).1 <= radius / 1_000_000 + 1,
{
    lemma_scaled_bounds(radius, unit_cosine(step));
    lemma_scaled_bounds(radius, unit_sine(step));
}

proof fn lemma_scaled_bounds(radius: int, unit: int)
    requires
        0 <= radius,
        -1_000_000_000 <= unit <= 1_000_000_000,
    ensures
        -(radius * 1_000_000_000) <= radius * unit <= radius * 1_000_000_000,
        -(radius / 1_000_000 + 1) <= rounded_pixels(radius * unit) <= radius / 1_000_000 + 1,
{
    assert(-(radius * 1_000_000_000) <= radius * unit <= radius * 1_000_000_000)
        by (nonlinear_arith)
        requires
            0 <= radius,
            -1_000_000_000 <= unit <= 1_000_000_000,
    ;
}

/// Stamping keeps the picture's size and well-formedness.
pub proof fn lemma_stamped_wf(
    r: Raster,
    glyphs: Seq<CoverageMask>,
    x: int,
    y: int,
    radius: int,
    color: Rgba,
    steps: int,
)
    requires
        r.wf(),
    ensures
        stamped(r, glyphs, x, y, radius, color, steps).wf(),
        stamped(r, glyphs, x, y, radius, color, steps).width == r.width,
        stamped(r, glyphs, x, y, radius, color, steps).height == r.height,
    decreases steps,
{
    if steps > 0 {
        lemma_stamped_wf(r, glyphs, x, y, radius, color, steps - 1);
        let offset = outline_offset(radius, steps - 1);
        lemma_drawn_wf(
            stamped(r, glyphs, x, y, radius, color, steps - 1),
            glyphs,
            x + offset.0,
            y + offset.1,
            color,
        );
    }
}

/// Drawing an outlined line keeps the picture's size and well-formedness.
pub proof fn lemma_outlined_wf(
    r: Raster,
    glyphs: Seq<CoverageMask>,
    x: int,
    y: int,
    color: Rgba,
    outline_color: Rgba,
    radius: int,
)
    requires
        r.wf(),
    ensures
        outlined(r, glyphs, x, y, color, outline_color, radius).wf(),
        outlined(r, glyphs, x, y, color, outline_color, radius).width == r.width,
        outlined(r, glyphs, x, y, color, outline_color, radius).height == r.height,
{
    lemma_stamped_wf(r, glyphs, x, y, radius, outline_color, OUTLINE_STEPS as int);
    let under = if radius > 0 {
        stamped(r, glyphs, x, y, radius, outline_color, OUTLINE_STEPS as int)
    } else {
        r
    };
    lemma_drawn_wf(under, glyphs, x, y, color);
}

/// The table of `quarter_cosine`.
fn quarter_cosine_of(k: u32) -> (c: i128)
    requires
        k <= 8,
    ensures
        c == quarter_cosine(k as int),
        0 <= c <= 1_000_000_000,
{
    if k == 0 {
        1_000_000_000
    } else if k == 1 {
        980_785_280
    } else if k == 2 {
        923_879_533
    } else if k == 3 {
        831_469_612
    } else if k == 4 {
        707_106_781
    } else if k == 5 {
        555_570_233
    } else if k == 6 {
        382_683_432
    } else if k == 7 {
        195_090_322
    } else {
        0
    }
}

/// Computes `unit_cosine`.
fn unit_cosine_of(step: u32) -> (c: i128)
    requires
        step < 64,
    ensures
        c == unit_cosine(step as int),
        -1_000_000_000 <= c <= 1_000_000_000,
{
    let s: u32 = step % 32;
    if s <= 8 {
        quarter_cosine_of(s)
    } else if s <= 16 {
        -quarter_cosine_of(16 - s)
    } else if s <= 24 {
        -quarter_cosine_of(s - 16)
    } else {
        quarter_cosine_of(32 - s)
    }
}

/// Computes `rounded_pixels` of the product of a radius and a unit value.
fn rounded_product(radius: u64, unit: i128) -> (px: i64)
    requires
        -1_000_000_000 <= unit <= 1_000_000_000,
    ensures
        px == rounded_pixels(radius * unit),
{
    proof {
        lemma_scaled_bounds(radius as int, unit as int);
    }
    let n: i128 = radius as i128 * unit;
    if n >= 0 {
        ((n + 500_000_000_000_000) / 1_000_000_000_000_000) as i64
    } else {
        -(((-n + 500_000_000_000_000) / 1_000_000_000_000_000) as i64)
    }
}

/// The whole-pixel offset of one stamp of the outline.
pub fn stamp_offset(radius: u64, step: u32) -> (offset: (i64, i64))
    requires
        step < OUTLINE_STEPS,
    ensures
        offset.0 == outline_offset(radius as int, step as int).0,
        offset.1 == outline_offset(radius as int, step as int).1,
{
    let dx = rounded_product(radius, unit_cosine_of(step));
    let dy = rounded_product(radius, unit_cosine_of(step + 24));
    (dx, dy)
}

/// Draws a line with its outline, the anchor at `(x, y)`.
pub(crate) fn draw_outlined_at(
    canvas: &mut Canvas,
    color: Rgba,
    outline_color: Rgba,
    radius: u64,
    x: i128,
    y: i128,
    glyphs: &Vec<CoverageMask>,
)
    requires
        old(canvas).wf(),
        masks_wf(glyphs@),
        -ANCHOR_LIMIT + OFFSET_LIMIT <= x <= ANCHOR_LIMIT - OFFSET_LIMIT,
        -ANCHOR_LIMIT + OFFSET_LIMIT <= y <= ANCHOR_LIMIT - OFFSET_LIMIT,
    ensures
        final(canvas).wf(),
        final(canvas).width == old(canvas).width,
        final(canvas).height == old(canvas).height,
        final(canvas)@ == outlined(
            old(canvas)@,
            glyphs@,
            x as int,
            y as int,
            color,
            outline_color,
            radius as int,
        ),
{
    let ghost start = canvas@;
    if radius > 0 {
        let mut step: u32 = 0;
        while step < OUTLINE_STEPS
            invariant
                step <= OUTLINE_STEPS,
                canvas.wf(),
                masks_wf(glyphs@),
                start.width == canvas.width,
                start.height == canvas.height,
                -ANCHOR_LIMIT + OFFSET_LIMIT <= x <= ANCHOR_LIMIT - OFFSET_LIMIT,
                -ANCHOR_LIMIT + OFFSET_LIMIT <= y <= ANCHOR_LIMIT - OFFSET_LIMIT,
                canvas@ == stamped(
                    start,
                    glyphs@,
                    x as int,
                    y as int,
                    radius as int,
                    outline_color,
                    step as int,
                ),
            decreases OUTLINE_STEPS - step,
        {
            let offset = stamp_offset(radius, step);
            draw_glyphs_at(canvas, outline_color, x + offset.0 as i128, y + offset.1 as i128, glyphs);
            step += 1;
        }
    }
    draw_glyphs_at(canvas, color, x, y, glyphs);
}

/// Draws a line of rasterised glyphs with a stamped outline, the line's
/// anchor at `(x, y)`. `thickness` is the outline's radius in millionths of a
/// pixel; at zero only the line itself is drawn.
pub fn draw_text_outline_mut(
    canvas: &mut Canvas,
    color: Rgba,
    outline_color: Rgba,
    thickness: u64,
    x: i32,
    y: i32,
    glyphs: &Vec<CoverageMask>,
)
    requires
        old(canvas).wf(),
        masks_wf(glyphs@),
    ensures
        final(canvas).wf(),
        final(canvas).width == old(canvas).width,
        final(canvas).height == old(canvas).height,
        final(canvas)@ == outlined(
            old(canvas)@,
            glyphs@,
            x as int,
            y as int,
            color,
            outline_color,
            thickness as int,
        ),
        thickness == 0 ==> final(canvas)@ == drawn(
            old(canvas)@,
            glyphs@,
            x as int,
            y as int,
            color,
        ),
{
    draw_outlined_at(canvas, color, outline_color, thickness, x as i128, y as i128, glyphs)
}

} // verus!
