//! Compositing rasterised glyphs onto a canvas.

use vstd::prelude::*;
use crate::canvas::{lemma_pixel_index_bounds, pixel_index, Canvas, Raster};
use crate::color::{blend, blended, lemma_blend_boundary, quantize, quantized, Rgba};

verus! {

/// Largest magnitude of an anchor coordinate that the drawing routines take.
/// It is far beyond any coordinate that a layout can produce.
pub const ANCHOR_LIMIT: i128 = 0x100_0000_0000_0000_0000_0000_0000_0000;

/// The coverage of one rasterised glyph over a rectangle of pixels.
///
/// `left` and `top` place the rectangle's first pixel relative to the anchor
/// of the line that the glyph belongs to. `coverage` holds one value for each
/// pixel, row by row, in millionths.
#[derive(Debug)]
pub struct CoverageMask {
    pub left: i32,
    pub top: i32,
    pub width: u32,
    pub height: u32,
    pub coverage: Vec<i32>,
}

impl CoverageMask {
    /// The mask holds one coverage for each pixel of its rectangle.
    pub open spec fn wf(&self) -> bool {
        self.coverage@.len() == self.width * self.height
    }

    /// Whether `(gx, gy)` is a pixel of the mask's rectangle.
    pub open spec fn covers(&self, gx: int, gy: int) -> bool {
        0 <= gx < self.width && 0 <= gy < self.height
    }

    /// The blend weight of the mask's pixel `(gx, gy)`.
    pub open spec fn weight(&self, gx: int, gy: int) -> int {
        quantized(self.coverage@[pixel_index(self.width as int, gx, gy)] as int)
    }

    /// A mask over the given row-major coverage, or `None` where the number
    /// of values is not `width * height`.
    pub fn new(left: i32, top: i32, width: u32, height: u32, coverage: Vec<i32>) -> (made: Option<
        CoverageMask,
    >)
        ensures
            made is Some <==> coverage@.len() == width * height,
            made is Some ==> made->0 == (CoverageMask { left, top, width, height, coverage }),
            made is Some ==> made->0.wf(),
    {
        assert(width * height <= 0xffff_ffff * 0xffff_ffff) by (nonlinear_arith)
            requires
                0 <= width <= 0xffff_ffff,
                0 <= height <= 0xffff_ffff,
        ;
        let total: u64 = width as u64 * height as u64;
        if coverage.len() as u64 == total {
            Some(CoverageMask { left, top, width, height, coverage })
        } else {
            None
        }
    }
}

/// Whether every mask of a line is well formed.
pub open spec fn masks_wf(glyphs: Seq<CoverageMask>) -> bool {
    forall|i: int| 0 <= i < glyphs.len() ==> (#[trigger] glyphs[i]).wf()
}

/// The picture after the mask's pixels that come before row `rows`, and those
/// of row `rows` before column `cols`, have been blended in.
pub open spec fn composited_partial(
    r: Raster,
    mask: CoverageMask,
    x: int,
    y: int,
    color: Rgba,
    rows: int,
    cols: int,
) -> Raster {
    Raster {
        pixels: Map::new(
            |p: (int, int)| r.contains(p.0, p.1),
            |p: (int, int)|
                {
                    let gx = p.0 - x - mask.left;
                    let gy = p.1 - y - mask.top;
                    if mask.covers(gx, gy) && (gy < rows || (gy == rows && gx < cols)) {
                        blended(r.pixels[p], color, mask.weight(gx, gy))
                    } else {
                        r.pixels[p]
                    }
                },
        ),
        ..r
    }
}

/// The picture after `mask` has been blended in with its anchor at `(x, y)`.
///
/// The mask's pixel `(gx, gy)` lands on `(gx + x + mask.left, gy + y +
/// mask.top)`. A pixel of the picture that a mask pixel lands on becomes the
/// blend of `color` over what it was, weighted by the quantised coverage;
/// every other pixel stays, and mask pixels that land outside are dropped.
pub open spec fn composited(r: Raster, mask: CoverageMask, x: int, y: int, color: Rgba) -> Raster {
    Raster {
        pixels: Map::new(
            |p: (int, int)| r.contains(p.0, p.1),
            |p: (int, int)|
                {
                    let gx = p.0 - x - mask.left;
                    let gy = p.1 - y - mask.top;
                    if mask.covers(gx, gy) {
                        blended(r.pixels[p], color, mask.weight(gx, gy))
                    } else {
                        r.pixels[p]
                    }
                },
        ),
        ..r
    }
}

/// The picture after the masks of a line have been blended in, first to last,
/// all with the same anchor.
pub open spec fn drawn(r: Raster, glyphs: Seq<CoverageMask>, x: int, y: int, color: Rgba) -> Raster
    decreases glyphs.len(),
{
    if glyphs.len() == 0 {
        r
    } else {
        composited(drawn(r, glyphs.drop_last(), x, y, color), glyphs.last(), x, y, color)
    }
}

/// Compositing keeps the picture's size and well-formedness.
pub proof fn lemma_composited_wf(r: Raster, mask: CoverageMask, x: int, y: int, color: Rgba)
    requires
        r.wf(),
    ensures
        composited(r, mask, x, y, color).wf(),
        composited(r, mask, x, y, color).width == r.width,
        composited(r, mask, x, y, color).height == r.height,
{
}

/// Drawing a line keeps the picture's size and well-formedness.
pub proof fn lemma_drawn_wf(r: Raster, glyphs: Seq<CoverageMask>, x: int, y: int, color: Rgba)
    requires
        r.wf(),
    ensures
        drawn(r, glyphs, x, y, color).wf(),
        drawn(r, glyphs, x, y, color).width == r.width,
        drawn(r, glyphs, x, y, color).height == r.height,
    decreases glyphs.len(),
{
    if glyphs.len() > 0 {
        lemma_drawn_wf(r, glyphs.drop_last(), x, y, color);
        lemma_composited_wf(drawn(r, glyphs.drop_last(), x, y, color), glyphs.last(), x, y, color);
    }
}

/// A pixel under a mask pixel of full weight becomes exactly the colour
/// drawn; a pixel under a mask pixel of no weight, or under none, is
/// unchanged.
pub proof fn lemma_composited_boundary(
    r: Raster,
    mask: CoverageMask,
    x: int,
    y: int,
    color: Rgba,
    px: int,
    py: int,
)
    requires
        r.contains(px, py),
    ensures
        ({
            let gx = px - x - mask.left;
            let gy = py - y - mask.top;
            let after = composited(r, mask, x, y, color).at(px, py);
            &&& mask.covers(gx, gy) && mask.weight(gx, gy) == 100 ==> after == color
            &&& mask.covers(gx, gy) && mask.weight(gx, gy) == 0 ==> after == r.at(px, py)
            &&& !mask.covers(gx, gy) ==> after == r.at(px, py)
        }),
{
    lemma_blend_boundary(r.at(px, py), color);
}

/// Blends `mask` onto the canvas with its anchor at `(x, y)`.
pub(crate) fn composite_at(canvas: &mut Canvas, x: i128, y: i128, mask: &CoverageMask, color: Rgba)
    requires
        old(canvas).wf(),
        mask.wf(),
        -ANCHOR_LIMIT <= x <= ANCHOR_LIMIT,
        -ANCHOR_LIMIT <= y <= ANCHOR_LIMIT,
    ensures
        final(canvas).wf(),
        final(canvas).width == old(canvas).width,
        final(canvas).height == old(canvas).height,
        final(canvas)@ == composited(old(canvas)@, *mask, x as int, y as int, color),
{
    let ghost start = canvas@;
    assert(canvas@.pixels =~= composited_partial(start, *mask, x as int, y as int, color, 0, 0).pixels);
    let mut gy: u32 = 0;
    while gy < mask.height
        invariant
            gy <= mask.height,
            canvas.wf(),
            mask.wf(),
            start.width == canvas.width,
            start.height == canvas.height,
            start.wf(),
            -ANCHOR_LIMIT <= x <= ANCHOR_LIMIT,
            -ANCHOR_LIMIT <= y <= ANCHOR_LIMIT,
            canvas@ == composited_partial(start, *mask, x as int, y as int, color, gy as int, 0),
        decreases mask.height - gy,
    {
        let ay: i128 = gy as i128 + y + mask.top as i128;
        if 0 <= ay && ay < canvas.height as i128 {
            let mut gx: u32 = 0;
            while gx < mask.width
                invariant
                    gx <= mask.width,
                    gy < mask.height,
                    canvas.wf(),
                    mask.wf(),
                    start.width == canvas.width,
                    start.height == canvas.height,
                    start.wf(),
                    -ANCHOR_LIMIT <= x <= ANCHOR_LIMIT,
                    ay == gy + y + mask.top,
                    0 <= ay < canvas.height,
                    canvas@ == composited_partial(
                        start,
                        *mask,
                        x as int,
                        y as int,
                        color,
                        gy as int,
                        gx as int,
                    ),
                decreases mask.width - gx,
            {
                let ax: i128 = gx as i128 + x + mask.left as i128;
                if 0 <= ax && ax < canvas.width as i128 {
                    proof {
                        lemma_pixel_index_bounds(
                            mask.width as int,
                            mask.height as int,
                            gx as int,
                            gy as int,
                        );
                        assert(mask.coverage.len() <= usize::MAX);
                        assert(gy * mask.width <= pixel_index(
                            mask.width as int,
                            gx as int,
                            gy as int,
                        ));
                    }
                    let existing = canvas.get_pixel(ax as u32, ay as u32);
                    let raw = mask.coverage[gy as usize * mask.width as usize + gx as usize];
                    let weight = quantize(raw);
                    canvas.put_pixel(ax as u32, ay as u32, blend(existing, color, weight));
                }
                assert(canvas@.pixels =~= composited_partial(
                    start,
                    *mask,
                    x as int,
                    y as int,
                    color,
                    gy as int,
                    gx + 1,
                ).pixels);
                gx += 1;
            }
        }
        assert(canvas@.pixels =~= composited_partial(
            start,
            *mask,
            x as int,
            y as int,
            color,
            gy + 1,
            0,
        ).pixels);
        gy += 1;
    }
    assert(canvas@.pixels =~= composited(start, *mask, x as int, y as int, color).pixels);
}

/// Blends every mask of a line onto the canvas, first to last, with the
/// line's anchor at `(x, y)`.
pub(crate) fn draw_glyphs_at(
    canvas: &mut Canvas,
    color: Rgba,
    x: i128,
    y: i128,
    glyphs: &Vec<CoverageMask>,
)
    requires
        old(canvas).wf(),
        masks_wf(glyphs@),
        -ANCHOR_LIMIT <= x <= ANCHOR_LIMIT,
        -ANCHOR_LIMIT <= y <= ANCHOR_LIMIT,
    ensures
        final(canvas).wf(),
        final(canvas).width == old(canvas).width,
        final(canvas).height == old(canvas).height,
        final(canvas)@ == drawn(old(canvas)@, glyphs@, x as int, y as int, color),
{
    let ghost start = canvas@;
    let mut i: usize = 0;
    assert(glyphs@.take(0) =~= Seq::<CoverageMask>::empty());
    while i < glyphs.len()
        invariant
            i <= glyphs.len(),
            canvas.wf(),
            masks_wf(glyphs@),
            start.width == canvas.width,
            start.height == canvas.height,
            -ANCHOR_LIMIT <= x <= ANCHOR_LIMIT,
            -ANCHOR_LIMIT <= y <= ANCHOR_LIMIT,
            canvas@ == drawn(start, glyphs@.take(i as int), x as int, y as int, color),
        decreases glyphs.len() - i,
    {
        composite_at(canvas, x, y, &glyphs[i], color);
        proof {
            let next = glyphs@.take(i + 1);
            assert(next.drop_last() =~= glyphs@.take(i as int));
            assert(next.last() == glyphs@[i as int]);
        }
        i += 1;
    }
    assert(glyphs@.take(glyphs.len() as int) =~= glyphs@);
}

/// Blends one mask onto the canvas with its anchor at `(dest_x, dest_y)`.
/// Mask pixels that land outside the canvas are dropped.
pub fn composite(canvas: &mut Canvas, dest_x: i32, dest_y: i32, mask: &CoverageMask, color: Rgba)
    requires
        old(canvas).wf(),
        mask.wf(),
    ensures
        final(canvas).wf(),
        final(canvas).width == old(canvas).width,
        final(canvas).height == old(canvas).height,
        final(canvas)@ == composited(old(canvas)@, *mask, dest_x as int, dest_y as int, color),
{
    composite_at(canvas, dest_x as i128, dest_y as i128, mask, color)
}

/// Draws a line of rasterised glyphs in one colour with the line's anchor at
/// `(x, y)`, each glyph blended over what the ones before it left.
pub fn draw_text_mut(canvas: &mut Canvas, color: Rgba, x: i32, y: i32, glyphs: &Vec<CoverageMask>)
    requires
        old(canvas).wf(),
        masks_wf(glyphs@),
    ensures
        final(canvas).wf(),
        final(canvas).width == old(canvas).width,
        final(canvas).height == old(canvas).height,
        final(canvas)@ == drawn(old(canvas)@, glyphs@, x as int, y as int, color),
{
    draw_glyphs_at(canvas, color, x as i128, y as i128, glyphs)
}

} // verus!
