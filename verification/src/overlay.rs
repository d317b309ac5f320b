//! The overlay itself: layout constants from the image's size, the plan of
//! lines, and the drawing of rasterised lines onto the image.
//!
//! Layout and drawing are separate passes. `layout` breaks the text and says
//! which glyph goes where; the caller rasterises those glyphs; `overlay` draws
//! the rasterised lines.

use vstd::prelude::*;
use crate::canvas::{lemma_view_determines_pixels, Canvas, Raster};
use crate::color::Rgba;
use crate::draw::{drawn, masks_wf, CoverageMask};
use crate::font::{FontMetrics, MAX_FONT_SCALE};
use crate::layout::{layout_glyphs, line_width, placements, GlyphPlacement};
use crate::outline::{draw_outlined_at, lemma_outlined_wf, outlined, stamped, OUTLINE_STEPS};
use crate::words::{join_words, joined, split_words, word_views, words_of};
use crate::wrap::{
    break_lines, broken_lines, lemma_lines_hold_words, lemma_partition_unique, line_slices,
    partitions, Line,
};

verus! {

/// The lengths that a layout works with, derived from the size of the image
/// and the style. All are in millionths of a pixel.
#[derive(Clone, Copy, Debug, PartialEq, Eq, Structural)]
pub struct LayoutConstants {
    /// The smaller of the image's width and height, in pixels.
    pub image_min: u32,
    /// Distance of the text from the left and top edge.
    pub margin: u64,
    /// Size of the font, which is also the distance between lines.
    pub font_scale: u128,
    /// Widest line that is not broken.
    pub max_line_width: u64,
    /// Radius of the outline.
    pub outline_radius: u64,
}

/// The smaller of an image's width and height.
pub open spec fn image_min_of(width: int, height: int) -> int {
    if width <= height {
        width
    } else {
        height
    }
}

/// The margin: a twentieth of the smaller side.
pub open spec fn margin_of(width: int, height: int) -> int {
    image_min_of(width, height) * 50_000
}

/// The font scale: a tenth of the smaller side at a text scale of one. The
/// text scale is given in thousandths.
pub open spec fn font_scale_of(width: int, height: int, text_scale: int) -> int {
    text_scale * image_min_of(width, height) * 100
}

/// The widest line: three quarters of the width less both margins.
pub open spec fn max_line_width_of(width: int, height: int) -> int {
    width * 750_000 - 2 * margin_of(width, height)
}

/// The outline radius: a thousandth of the smaller side at a thickness of
/// one. The thickness is given in thousandths.
pub open spec fn outline_radius_of(width: int, height: int, outline_thickness: int) -> int {
    outline_thickness * image_min_of(width, height)
}

/// The constants of an image of the given size and a style whose scale and
/// thickness are given in thousandths.
pub open spec fn constants_of(
    width: u32,
    height: u32,
    text_scale: u32,
    outline_thickness: u32,
) -> LayoutConstants {
    LayoutConstants {
        image_min: image_min_of(width as int, height as int) as u32,
        margin: margin_of(width as int, height as int) as u64,
        font_scale: font_scale_of(width as int, height as int, text_scale as int) as u128,
        max_line_width: max_line_width_of(width as int, height as int) as u64,
        outline_radius: outline_radius_of(
            width as int,
            height as int,
            outline_thickness as int,
        ) as u64,
    }
}

impl LayoutConstants {
    /// Whether the fields hold, exactly, the constants of an image and a
    /// style.
    pub open spec fn derived_from(
        self,
        width: int,
        height: int,
        text_scale: int,
        outline_thickness: int,
    ) -> bool {
        &&& self.image_min == image_min_of(width, height)
        &&& self.margin == margin_of(width, height)
        &&& self.font_scale == font_scale_of(width, height, text_scale)
        &&& self.max_line_width == max_line_width_of(width, height)
        &&& self.outline_radius == outline_radius_of(width, height, outline_thickness)
    }

    /// The constants are no larger than an image and a style can make them.
    pub open spec fn wf(self) -> bool {
        &&& self.margin <= 214_748_364_750_000
        &&& self.font_scale <= MAX_FONT_SCALE
    }

    /// The anchor's distance from the left and top edge in whole pixels.
    pub open spec fn margin_pixels(self) -> int {
        self.margin as int / 1_000_000
    }

    /// The distance between the anchors of two lines in whole pixels.
    pub open spec fn line_height(self) -> int {
        self.font_scale as int / 1_000_000
    }

    /// The vertical anchor of the line with the given index.
    pub open spec fn line_y(self, index: int) -> int {
        self.margin_pixels() + index * self.line_height()
    }

    /// Derives the constants from the size of the image and the style.
    pub fn derive(width: u32, height: u32, text_scale: u32, outline_thickness: u32) -> (constants:
        LayoutConstants)
        ensures
            constants == constants_of(width, height, text_scale, outline_thickness),
            constants.wf(),
            constants.derived_from(
                width as int,
                height as int,
                text_scale as int,
                outline_thickness as int,
            ),
    {
        let image_min: u32 = if width <= height {
            width
        } else {
            height
        };
        assert(text_scale * image_min <= 0xffff_ffff * 0xffff_ffff) by (nonlinear_arith)
            requires
                0 <= text_scale <= 0xffff_ffff,
                0 <= image_min <= 0xffff_ffff,
        ;
        assert(outline_thickness * image_min <= 0xffff_ffff * 0xffff_ffff) by (nonlinear_arith)
            requires
                0 <= outline_thickness <= 0xffff_ffff,
                0 <= image_min <= 0xffff_ffff,
        ;
        let margin: u64 = image_min as u64 * 50_000;
        LayoutConstants {
            image_min,
            margin,
            font_scale: text_scale as u128 * image_min as u128 * 100,
            max_line_width: width as u64 * 750_000 - 2 * margin,
            outline_radius: outline_thickness as u64 * image_min as u64,
        }
    }

    /// The anchor of line `index`: the margin from the left, and from the
    /// top the margin and one line height for each line before it.
    pub fn line_anchor(&self, index: usize) -> (anchor: (i128, i128))
        requires
            self.wf(),
        ensures
            anchor.0 == self.margin_pixels(),
            anchor.1 == self.line_y(index as int),
            0 <= anchor.0 <= 0xffff_ffff,
            0 <= anchor.1 <= 0xffff_ffff + 0xffff_ffff_ffff_ffff * 0x8_0000_0000_0000,
    {
        let margin_px: i128 = (self.margin / 1_000_000) as i128;
        let line_height: i128 = (self.font_scale / 1_000_000) as i128;
        assert(line_height <= 0x8_0000_0000_0000);
        assert(index * line_height <= 0xffff_ffff_ffff_ffff * 0x8_0000_0000_0000 && index
            * line_height >= 0) by (nonlinear_arith)
            requires
                0 <= index <= 0xffff_ffff_ffff_ffff,
                0 <= line_height <= 0x8_0000_0000_0000,
        ;
        (margin_px, margin_px + index as i128 * line_height)
    }
}

/// The picture after the first `count` rasterised lines have been drawn with
/// their outlines, each at its anchor.
pub open spec fn overlaid(
    r: Raster,
    lines: Seq<Vec<CoverageMask>>,
    constants: LayoutConstants,
    text_color: Rgba,
    outline_color: Rgba,
    count: int,
) -> Raster
    decreases count,
{
    if count <= 0 {
        r
    } else {
        outlined(
            overlaid(r, lines, constants, text_color, outline_color, count - 1),
            lines[count - 1]@,
            constants.margin_pixels(),
            constants.line_y(count - 1),
            text_color,
            outline_color,
            constants.outline_radius as int,
        )
    }
}

/// The picture after the first `count` rasterised lines have been drawn
/// without any outline, each at its anchor.
pub open spec fn overlaid_plainly(
    r: Raster,
    lines: Seq<Vec<CoverageMask>>,
    constants: LayoutConstants,
    text_color: Rgba,
    count: int,
) -> Raster
    decreases count,
{
    if count <= 0 {
        r
    } else {
        drawn(
            overlaid_plainly(r, lines, constants, text_color, count - 1),
            lines[count - 1]@,
            constants.margin_pixels(),
            constants.line_y(count - 1),
            text_color,
        )
    }
}

/// Whether every mask of every line is well formed.
pub open spec fn lines_wf(lines: Seq<Vec<CoverageMask>>) -> bool {
    forall|k: int| 0 <= k < lines.len() ==> masks_wf(#[trigger] lines[k]@)
}

/// Whether `result` is `image` with the rasterised lines drawn on it: of the
/// same size, and holding the picture that drawing every line with its
/// outline at its anchor gives, under the constants of the image's size and
/// the style.
pub open spec fn is_overlay_of(
    result: Canvas,
    image: Canvas,
    lines: Seq<Vec<CoverageMask>>,
    text_color: Rgba,
    outline_color: Rgba,
    text_scale: u32,
    outline_thickness: u32,
) -> bool {
    &&& result.wf()
    &&& result.width == image.width
    &&& result.height == image.height
    &&& result@ == overlaid(
        image@,
        lines,
        constants_of(image.width, image.height, text_scale, outline_thickness),
        text_color,
        outline_color,
        lines.len() as int,
    )
}

/// Draws rasterised lines of text onto an image and returns it.
///
/// The constants of the layout come from the image's own size. Line `k` is
/// drawn with its outline at the margin from the left and, from the top, the
/// margin and `k` line heights. The scale and the thickness are given in
/// thousandths.
pub fn overlay(
    image: Canvas,
    lines: &Vec<Vec<CoverageMask>>,
    text_color: Rgba,
    outline_color: Rgba,
    text_scale: u32,
    outline_thickness: u32,
) -> (result: Canvas)
    requires
        image.wf(),
        lines_wf(lines@),
    ensures
        is_overlay_of(
            result,
            image,
            lines@,
            text_color,
            outline_color,
            text_scale,
            outline_thickness,
        ),
        (forall|k: int| 0 <= k < lines@.len() ==> (#[trigger] lines@[k])@.len() == 0) ==> result@
            == image@,
{
    let mut canvas = image;
    let ghost start = canvas@;
    let constants = LayoutConstants::derive(
        canvas.width(),
        canvas.height(),
        text_scale,
        outline_thickness,
    );
    let mut k: usize = 0;
    while k < lines.len()
        invariant
            k <= lines.len(),
            canvas.wf(),
            lines_wf(lines@),
            canvas.width == start.width,
            canvas.height == start.height,
            constants.wf(),
            canvas@ == overlaid(start, lines@, constants, text_color, outline_color, k as int),
        decreases lines.len() - k,
    {
        let anchor = constants.line_anchor(k);
        draw_outlined_at(
            &mut canvas,
            text_color,
            outline_color,
            constants.outline_radius,
            anchor.0,
            anchor.1,
            &lines[k],
        );
        k += 1;
    }
    proof {
        if forall|k: int| 0 <= k < lines@.len() ==> (#[trigger] lines@[k])@.len() == 0 {
            lemma_nothing_to_draw(
                start,
                lines@,
                constants,
                text_color,
                outline_color,
                lines@.len() as int,
            );
        }
    }
    canvas
}

/// Drawing lines keeps the picture's size and well-formedness.
pub proof fn lemma_overlaid_wf(
    r: Raster,
    lines: Seq<Vec<CoverageMask>>,
    constants: LayoutConstants,
    text_color: Rgba,
    outline_color: Rgba,
    count: int,
)
    requires
        r.wf(),
    ensures
        overlaid(r, lines, constants, text_color, outline_color, count).wf(),
        overlaid(r, lines, constants, text_color, outline_color, count).width == r.width,
        overlaid(r, lines, constants, text_color, outline_color, count).height == r.height,
    decreases count,
{
    if count > 0 {
        lemma_overlaid_wf(r, lines, constants, text_color, outline_color, count - 1);
        lemma_outlined_wf(
            overlaid(r, lines, constants, text_color, outline_color, count - 1),
            lines[count - 1]@,
            constants.margin_pixels(),
            constants.line_y(count - 1),
            text_color,
            outline_color,
            constants.outline_radius as int,
        );
    }
}

/// One line of a plan.
#[derive(Debug)]
pub struct PlannedLine {
    /// The words of the line, as a range of the plan's words.
    pub words: Line,
    /// The vertical anchor of the line in pixels.
    pub y: i128,
    /// The advance width of the line in design units.
    pub width: i128,
    /// The glyphs to rasterise and draw, with their pen positions.
    pub glyphs: Vec<GlyphPlacement>,
}

/// What is to be drawn where, settled before a pixel is touched.
#[derive(Debug)]
pub struct RenderPlan {
    pub constants: LayoutConstants,
    /// The words of the text.
    pub words: Vec<Vec<char>>,
    /// The lines in the order in which they are drawn.
    pub lines: Vec<PlannedLine>,
}

impl RenderPlan {
    /// The word ranges of the lines.
    pub open spec fn ranges(&self) -> Seq<Line> {
        Seq::new(self.lines@.len(), |k: int| self.lines@[k].words)
    }

    /// Whether this is the plan for `text` on an image of the given size:
    /// the constants are those of the image and the style, the words are
    /// those of the text, and the lines are the ones that the words break
    /// into at the font scale and the widest line of the constants, each
    /// with its anchor, its width and the placements of its glyphs.
    pub open spec fn is_plan_of(
        &self,
        width: u32,
        height: u32,
        text: Seq<char>,
        text_scale: u32,
        outline_thickness: u32,
        m: FontMetrics,
    ) -> bool {
        let broken = broken_lines(
            m,
            self.constants.font_scale as int,
            self.constants.max_line_width as int,
            words_of(text),
        );
        &&& self.constants == constants_of(width, height, text_scale, outline_thickness)
        &&& word_views(self.words@) == words_of(text)
        &&& partitions(self.ranges(), self.words@.len() as int)
        &&& line_slices(words_of(text), self.ranges()) == broken
        &&& forall|k: int|
            0 <= k < self.lines@.len() ==> {
                let line = #[trigger] self.lines@[k];
                &&& line.y == self.constants.line_y(k)
                &&& line.width == line_width(m, joined(broken[k]))
                &&& line.glyphs@ == placements(m, joined(broken[k]))
            }
    }
}

/// Plans one line: joins its words and lays out their glyphs.
fn plan_line(
    words: &Vec<Vec<char>>,
    range: Line,
    index: usize,
    constants: &LayoutConstants,
    metrics: &FontMetrics,
) -> (line: PlannedLine)
    requires
        constants.wf(),
        range.start <= range.end <= words@.len(),
    ensures
        line.words == range,
        line.y == constants.line_y(index as int),
        line.width == line_width(
            *metrics,
            joined(word_views(words@).subrange(range.start as int, range.end as int)),
        ),
        line.glyphs@ == placements(
            *metrics,
            joined(word_views(words@).subrange(range.start as int, range.end as int)),
        ),
{
    let text = join_words(words, range.start, range.end);
    let run = layout_glyphs(metrics, &text);
    let anchor = constants.line_anchor(index);
    PlannedLine { words: range, y: anchor.1, width: run.width, glyphs: run.glyphs }
}

/// Plans the overlay of `text` on an image of the given size: derives the
/// constants, splits the text into words, breaks the words into lines and
/// lays out the glyphs of each line. The scale and the thickness are given in
/// thousandths.
pub fn layout(
    width: u32,
    height: u32,
    text: &str,
    text_scale: u32,
    outline_thickness: u32,
    metrics: &FontMetrics,
) -> (plan: RenderPlan)
    requires
        metrics.wf(),
    ensures
        plan.is_plan_of(width, height, text@, text_scale, outline_thickness, *metrics),
{
    let constants = LayoutConstants::derive(width, height, text_scale, outline_thickness);
    let words = split_words(text);
    let ranges = break_lines(&words, metrics, constants.font_scale, constants.max_line_width);
    let ghost views = word_views(words@);
    let ghost broken = line_slices(views, ranges@);
    let mut lines: Vec<PlannedLine> = Vec::new();
    let mut k: usize = 0;
    while k < ranges.len()
        invariant
            k <= ranges.len(),
            constants.wf(),
            views == word_views(words@),
            broken == line_slices(views, ranges@),
            partitions(ranges@, words@.len() as int),
            lines@.len() == k,
            forall|j: int|
                0 <= j < k ==> {
                    let line = #[trigger] lines@[j];
                    &&& line.words == ranges@[j]
                    &&& line.y == constants.line_y(j)
                    &&& line.width == line_width(*metrics, joined(broken[j]))
                    &&& line.glyphs@ == placements(*metrics, joined(broken[j]))
                },
        decreases ranges.len() - k,
    {
        let line = plan_line(&words, ranges[k], k, &constants, metrics);
        lines.push(line);
        k += 1;
    }
    let plan = RenderPlan { constants, words, lines };
    assert(plan.ranges() =~= ranges@);
    plan
}

/// The constants of an image and a style are exactly what their formulas
/// say: no field is too narrow for its value. The widest line is never less
/// than sixty-five hundredths of the width.
pub proof fn lemma_constants_exact(
    width: u32,
    height: u32,
    text_scale: u32,
    outline_thickness: u32,
)
    ensures
        constants_of(width, height, text_scale, outline_thickness).derived_from(
            width as int,
            height as int,
            text_scale as int,
            outline_thickness as int,
        ),
        constants_of(width, height, text_scale, outline_thickness).wf(),
        max_line_width_of(width as int, height as int) >= 650_000 * width,
        outline_thickness == 0 ==> constants_of(
            width,
            height,
            text_scale,
            outline_thickness,
        ).outline_radius == 0,
{
    let image_min = image_min_of(width as int, height as int);
    assert(0 <= text_scale * image_min <= 0xffff_ffff * 0xffff_ffff) by (nonlinear_arith)
        requires
            0 <= text_scale <= 0xffff_ffff,
            0 <= image_min <= 0xffff_ffff,
    ;
    assert(0 <= outline_thickness * image_min <= 0xffff_ffff * 0xffff_ffff) by (nonlinear_arith)
        requires
            0 <= outline_thickness <= 0xffff_ffff,
            0 <= image_min <= 0xffff_ffff,
    ;
}

/// Each line is anchored one line height below the line before it, and the
/// first at the margin; the anchors never move up.
pub proof fn lemma_line_anchors_descend(constants: LayoutConstants, index: int)
    ensures
        constants.line_y(0) == constants.margin_pixels(),
        constants.line_y(index + 1) == constants.line_y(index) + constants.line_height(),
        constants.line_y(index + 1) >= constants.line_y(index),
{
    let h = constants.line_height();
    assert((index + 1) * h == index * h + h) by (nonlinear_arith);
    assert(0 * h == 0);
}

/// The same text, image size, style and font always give the same plan: two
/// plans of the same inputs agree in their constants, their words and every
/// part of every line.
pub proof fn lemma_plan_deterministic(
    first: RenderPlan,
    second: RenderPlan,
    width: u32,
    height: u32,
    text: Seq<char>,
    text_scale: u32,
    outline_thickness: u32,
    m: FontMetrics,
)
    requires
        first.is_plan_of(width, height, text, text_scale, outline_thickness, m),
        second.is_plan_of(width, height, text, text_scale, outline_thickness, m),
    ensures
        first.constants == second.constants,
        word_views(first.words@) == word_views(second.words@),
        first.lines@.len() == second.lines@.len(),
        forall|k: int|
            0 <= k < first.lines@.len() ==> {
                let a = #[trigger] first.lines@[k];
                let b = second.lines@[k];
                &&& a.words == b.words
                &&& a.y == b.y
                &&& a.width == b.width
                &&& a.glyphs@ == b.glyphs@
            },
{
    assert(first.words@.len() == word_views(first.words@).len());
    assert(second.words@.len() == word_views(second.words@).len());
    lemma_partition_unique(words_of(text), first.ranges(), second.ranges());
    assert forall|k: int| 0 <= k < first.lines@.len() implies ({
        let a = #[trigger] first.lines@[k];
        let b = second.lines@[k];
        &&& a.words == b.words
        &&& a.y == b.y
        &&& a.width == b.width
        &&& a.glyphs@ == b.glyphs@
    }) by {
        assert(first.ranges()[k] == second.ranges()[k]);
    }
}

/// The same image, lines and style always give the same bytes: two canvases
/// that are overlays of the same inputs are equal pixel for pixel.
pub proof fn lemma_overlay_deterministic(
    first: Canvas,
    second: Canvas,
    image: Canvas,
    lines: Seq<Vec<CoverageMask>>,
    text_color: Rgba,
    outline_color: Rgba,
    text_scale: u32,
    outline_thickness: u32,
)
    requires
        is_overlay_of(
            first,
            image,
            lines,
            text_color,
            outline_color,
            text_scale,
            outline_thickness,
        ),
        is_overlay_of(
            second,
            image,
            lines,
            text_color,
            outline_color,
            text_scale,
            outline_thickness,
        ),
    ensures
        first.width == second.width,
        first.height == second.height,
        first.pixels@ == second.pixels@,
{
    lemma_view_determines_pixels(first, second);
}

/// With an outline thickness of nothing the overlay is that of the lines
/// drawn in the text colour alone, without a stamp.
pub proof fn lemma_overlay_without_outline(
    r: Raster,
    lines: Seq<Vec<CoverageMask>>,
    constants: LayoutConstants,
    text_color: Rgba,
    outline_color: Rgba,
    count: int,
)
    requires
        constants.outline_radius == 0,
    ensures
        overlaid(r, lines, constants, text_color, outline_color, count) == overlaid_plainly(
            r,
            lines,
            constants,
            text_color,
            count,
        ),
    decreases count,
{
    if count > 0 {
        lemma_overlay_without_outline(r, lines, constants, text_color, outline_color, count - 1);
    }
}

/// Stamping a line without glyphs leaves the picture as it is.
proof fn lemma_stamped_nothing(
    r: Raster,
    x: int,
    y: int,
    radius: int,
    color: Rgba,
    steps: int,
)
    ensures
        stamped(r, Seq::<CoverageMask>::empty(), x, y, radius, color, steps) == r,
    decreases steps,
{
    if steps > 0 {
        lemma_stamped_nothing(r, x, y, radius, color, steps - 1);
    }
}

/// Where no line holds a glyph to draw, the image stays exactly as it is,
/// with or without an outline.
pub proof fn lemma_nothing_to_draw(
    r: Raster,
    lines: Seq<Vec<CoverageMask>>,
    constants: LayoutConstants,
    text_color: Rgba,
    outline_color: Rgba,
    count: int,
)
    requires
        count <= lines.len(),
        forall|k: int| 0 <= k < lines.len() ==> (#[trigger] lines[k])@.len() == 0,
    ensures
        overlaid(r, lines, constants, text_color, outline_color, count) == r,
    decreases count,
{
    if count > 0 {
        lemma_nothing_to_draw(r, lines, constants, text_color, outline_color, count - 1);
        assert(lines[count - 1]@ =~= Seq::<CoverageMask>::empty());
        lemma_stamped_nothing(
            r,
            constants.margin_pixels(),
            constants.line_y(count - 1),
            constants.outline_radius as int,
            outline_color,
            OUTLINE_STEPS as int,
        );
    }
}

/// The plan of the empty text is one line without a word or a glyph, so its
/// overlay draws nothing.
pub proof fn lemma_empty_text(
    plan: RenderPlan,
    width: u32,
    height: u32,
    text_scale: u32,
    outline_thickness: u32,
    m: FontMetrics,
)
    requires
        plan.is_plan_of(width, height, Seq::<char>::empty(), text_scale, outline_thickness, m),
    ensures
        plan.words@.len() == 0,
        plan.lines@.len() == 1,
        plan.lines@[0].words == (Line { start: 0, end: 0 }),
        plan.lines@[0].width == 0,
        plan.lines@[0].glyphs@.len() == 0,
{
    let words = words_of(Seq::<char>::empty());
    assert(words =~= Seq::<Seq<char>>::empty());
    assert(plan.words@.len() == word_views(plan.words@).len());
    lemma_lines_hold_words(
        m,
        plan.constants.font_scale as int,
        plan.constants.max_line_width as int,
        words,
    );
    assert(plan.ranges().len() == line_slices(words, plan.ranges()).len());
    assert(plan.ranges()[0] == plan.lines@[0].words);
    assert(joined(Seq::<Seq<char>>::empty()) =~= Seq::<char>::empty());
}

} // verus!
