//! Font metrics and the measuring of a line of text.
//!
//! Metrics are held in font design units, unscaled. A length in design units
//! stands for `length * scale / height` pixels, where `height` is the distance
//! from the font's descent to its ascent; comparisons against pixel lengths
//! are made exactly, without dividing.

use std::collections::HashMap;
use vstd::prelude::*;

verus! {

broadcast use vstd::std_specs::hash::group_hash_axioms;

/// The most that one character can move the pen, either way, in design units:
/// a full advance and a full kerning adjustment.
pub const MAX_PEN_STEP: i128 = 0x1_8000;

/// The largest font scale, in millionths of a pixel, that metrics are scaled
/// to: no image and style make a larger one.
pub const MAX_FONT_SCALE: u128 = 1_844_674_406_511_961_702_500;

/// A length of `units` design units in millionths of a pixel, rounded down,
/// at `scale` millionths of a pixel to the font's `height`.
pub open spec fn scaled(units: int, height: int, scale: int) -> int {
    (units * scale) / height
}

/// Identifies a glyph of a font.
#[derive(Clone, Copy, Debug, PartialEq, Eq, Structural)]
pub struct GlyphId(pub u16);

/// What the layout needs to know of one glyph.
#[derive(Clone, Copy, Debug, PartialEq, Eq, Structural)]
pub struct GlyphMetrics {
    /// Horizontal advance in design units.
    pub advance: u16,
    /// Whether the glyph has an outline to draw. A space has none.
    pub outlined: bool,
}

/// The metrics of a font face: vertical extent, the glyph of each character,
/// the metrics of each glyph and the kerning of glyph pairs.
pub struct FontMetrics {
    pub ascent: i16,
    pub descent: i16,
    pub charmap: HashMap<u32, u16>,
    pub glyphs: HashMap<u16, GlyphMetrics>,
    pub kerning: HashMap<u32, i16>,
}

/// The key under which the kerning of the ordered pair `(first, second)` is
/// stored.
pub open spec fn kerning_key(first: GlyphId, second: GlyphId) -> u32 {
    (first.0 as int * 0x1_0000 + second.0 as int) as u32
}

impl FontMetrics {
    /// The font has a positive height.
    pub open spec fn wf(&self) -> bool {
        self.ascent - self.descent > 0
    }

    /// Distance from descent to ascent in design units.
    pub open spec fn height(&self) -> int {
        self.ascent - self.descent
    }

    /// The glyph that the font maps `c` to, if any.
    pub open spec fn glyph_of(&self, c: char) -> Option<GlyphId> {
        if self.charmap@.contains_key(c as u32) {
            Some(GlyphId(self.charmap@[c as u32]))
        } else {
            None
        }
    }

    /// The advance of `glyph`; a glyph that the font does not describe has none.
    pub open spec fn advance_of(&self, glyph: GlyphId) -> int {
        if self.glyphs@.contains_key(glyph.0) {
            self.glyphs@[glyph.0].advance as int
        } else {
            0
        }
    }

    /// Whether `glyph` has an outline.
    pub open spec fn is_outlined(&self, glyph: GlyphId) -> bool {
        self.glyphs@.contains_key(glyph.0) && self.glyphs@[glyph.0].outlined
    }

    /// The kerning adjustment stored for the ordered pair; a pair that the
    /// font does not list has none.
    pub open spec fn kerning_of(&self, first: GlyphId, second: GlyphId) -> int {
        let key = kerning_key(first, second);
        if self.kerning@.contains_key(key) {
            self.kerning@[key] as int
        } else {
            0
        }
    }

    /// Metrics without glyphs for a font of the given vertical extent, or
    /// `None` where the ascent does not lie above the descent.
    pub fn new(ascent: i16, descent: i16) -> (made: Option<FontMetrics>)
        ensures
            made is Some <==> ascent > descent,
            made is Some ==> {
                let m = made->0;
                &&& m.wf()
                &&& m.ascent == ascent
                &&& m.descent == descent
                &&& m.charmap@ == Map::<u32, u16>::empty()
                &&& m.glyphs@ == Map::<u16, GlyphMetrics>::empty()
                &&& m.kerning@ == Map::<u32, i16>::empty()
            },
    {
        if ascent > descent {
            Some(
                FontMetrics {
                    ascent,
                    descent,
                    charmap: HashMap::new(),
                    glyphs: HashMap::new(),
                    kerning: HashMap::new(),
                },
            )
        } else {
            None
        }
    }

    /// Records the metrics of a glyph, replacing what was recorded for it.
    pub fn set_glyph(&mut self, glyph: GlyphId, advance: u16, outlined: bool)
        ensures
            final(self).glyphs@ == old(self).glyphs@.insert(
                glyph.0,
                GlyphMetrics { advance, outlined },
            ),
            final(self).ascent == old(self).ascent,
            final(self).descent == old(self).descent,
            final(self).charmap@ == old(self).charmap@,
            final(self).kerning@ == old(self).kerning@,
    {
        self.glyphs.insert(glyph.0, GlyphMetrics { advance, outlined });
    }

    /// Maps a character to a glyph, replacing what it was mapped to.
    pub fn map_char(&mut self, c: char, glyph: GlyphId)
        ensures
            final(self).charmap@ == old(self).charmap@.insert(c as u32, glyph.0),
            final(self).glyph_of(c) == Some(glyph),
            final(self).ascent == old(self).ascent,
            final(self).descent == old(self).descent,
            final(self).glyphs@ == old(self).glyphs@,
            final(self).kerning@ == old(self).kerning@,
    {
        self.charmap.insert(c as u32, glyph.0);
    }

    /// Records the kerning adjustment of an ordered pair of glyphs.
    pub fn set_kerning(&mut self, first: GlyphId, second: GlyphId, adjust: i16)
        ensures
            final(self).kerning@ == old(self).kerning@.insert(kerning_key(first, second), adjust),
            final(self).kerning_of(first, second) == adjust,
            final(self).ascent == old(self).ascent,
            final(self).descent == old(self).descent,
            final(self).charmap@ == old(self).charmap@,
            final(self).glyphs@ == old(self).glyphs@,
    {
        let key: u32 = first.0 as u32 * 0x1_0000 + second.0 as u32;
        self.kerning.insert(key, adjust);
    }

    /// The glyph of a character, or `None` where the font has none for it.
    pub fn glyph_for(&self, c: char) -> (glyph: Option<GlyphId>)
        ensures
            glyph == self.glyph_of(c),
    {
        match self.charmap.get(&(c as u32)) {
            Some(id) => Some(GlyphId(*id)),
            None => None,
        }
    }

    /// The advance of a glyph in design units.
    pub fn advance_width(&self, glyph: GlyphId) -> (advance: u16)
        ensures
            advance == self.advance_of(glyph),
    {
        match self.glyphs.get(&glyph.0) {
            Some(metrics) => metrics.advance,
            None => 0,
        }
    }

    /// Whether a glyph has an outline to draw.
    pub fn has_outline(&self, glyph: GlyphId) -> (outlined: bool)
        ensures
            outlined == self.is_outlined(glyph),
    {
        match self.glyphs.get(&glyph.0) {
            Some(metrics) => metrics.outlined,
            None => false,
        }
    }

    /// The kerning adjustment of an ordered pair of glyphs in design units.
    pub fn kerning(&self, first: GlyphId, second: GlyphId) -> (adjust: i16)
        ensures
            adjust == self.kerning_of(first, second),
    {
        let key: u32 = first.0 as u32 * 0x1_0000 + second.0 as u32;
        match self.kerning.get(&key) {
            Some(adjust) => *adjust,
            None => 0,
        }
    }

    /// The ascent in design units.
    pub fn ascent(&self) -> (ascent: i16)
        ensures
            ascent == self.ascent,
    {
        self.ascent
    }

    /// Scales a length in design units to millionths of a pixel.
    pub fn scale_units(&self, units: i32, scale: u128) -> (length: i128)
        requires
            self.wf(),
            scale <= MAX_FONT_SCALE,
        ensures
            length == scaled(units as int, self.height(), scale as int),
    {
        let height: i128 = self.units_per_height() as i128;
        proof {
            let bound: int = 0x8000_0000int * 1_844_674_406_511_961_702_500int;
            assert(-bound <= units * scale <= bound) by (nonlinear_arith)
                requires
                    -0x8000_0000 <= units <= 0x8000_0000,
                    0 <= scale <= 1_844_674_406_511_961_702_500,
                    bound == 0x8000_0000 * 1_844_674_406_511_961_702_500,
            ;
        }
        let product: i128 = units as i128 * scale as i128;
        if product >= 0 {
            product / height
        } else {
            let whole: i128 = (-product) / height;
            let rest: i128 = (-product) % height;
            proof {
                let p = product as int;
                let h = height as int;
                vstd::arithmetic::div_mod::lemma_fundamental_div_mod(-p, h);
                assert(-p == h * whole + rest);
                if rest == 0 {
                    assert(p == (-whole) * h + 0) by (nonlinear_arith)
                        requires
                            -p == h * whole,
                    ;
                    vstd::arithmetic::div_mod::lemma_fundamental_div_mod_converse(
                        p,
                        h,
                        -whole,
                        0,
                    );
                } else {
                    assert(p == (-whole - 1) * h + (h - rest)) by (nonlinear_arith)
                        requires
                            -p == h * whole + rest,
                    ;
                    vstd::arithmetic::div_mod::lemma_fundamental_div_mod_converse(
                        p,
                        h,
                        -whole - 1,
                        h - rest,
                    );
                }
            }
            if rest == 0 {
                -whole
            } else {
                -whole - 1
            }
        }
    }

    /// The advance of a glyph at a scale, in millionths of a pixel.
    pub fn advance_width_at(&self, glyph: GlyphId, scale: u128) -> (advance: i128)
        requires
            self.wf(),
            scale <= MAX_FONT_SCALE,
        ensures
            advance == scaled(self.advance_of(glyph), self.height(), scale as int),
    {
        self.scale_units(self.advance_width(glyph) as i32, scale)
    }

    /// The kerning adjustment of an ordered pair of glyphs at a scale, in
    /// millionths of a pixel.
    pub fn kerning_at(&self, first: GlyphId, second: GlyphId, scale: u128) -> (adjust: i128)
        requires
            self.wf(),
            scale <= MAX_FONT_SCALE,
        ensures
            adjust == scaled(self.kerning_of(first, second), self.height(), scale as int),
    {
        self.scale_units(self.kerning(first, second) as i32, scale)
    }

    /// The ascent at a scale, in millionths of a pixel.
    pub fn ascent_at(&self, scale: u128) -> (ascent: i128)
        requires
            self.wf(),
            scale <= MAX_FONT_SCALE,
        ensures
            ascent == scaled(self.ascent as int, self.height(), scale as int),
    {
        self.scale_units(self.ascent as i32, scale)
    }

    /// Distance from descent to ascent in design units.
    pub fn units_per_height(&self) -> (height: u32)
        requires
            self.wf(),
        ensures
            height == self.height(),
            0 < height <= 0xffff,
    {
        (self.ascent as i32 - self.descent as i32) as u32
    }
}

} // verus!
