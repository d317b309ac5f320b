//! The style of an overlay, and its defaults.

use vstd::prelude::*;
use crate::color::{parse_color, parsed_color, ColorError, Rgba};

verus! {

/// Text scale where a request names none: one, in thousandths.
pub const DEFAULT_TEXT_SCALE: u32 = 1000;

/// Outline thickness where a request names none: no outline.
pub const DEFAULT_OUTLINE_THICKNESS: u32 = 0;

/// What a request for an overlay may name. Colours are hexadecimal strings;
/// scale and thickness are in thousandths.
#[derive(Debug)]
pub struct OverlayQuery {
    pub text: Option<String>,
    pub text_color: Option<String>,
    pub text_scale: Option<u32>,
    pub outline_color: Option<String>,
    pub outline_thickness: Option<u32>,
}

/// The style of an overlay. Scale and thickness are in thousandths.
#[derive(Debug)]
pub struct StyleParameters {
    pub text: String,
    pub text_color: Rgba,
    pub outline_color: Rgba,
    pub text_scale: u32,
    pub outline_thickness: u32,
}

/// Why a request was turned down.
#[derive(Clone, Copy, Debug, PartialEq, Eq, Structural)]
pub enum StyleError {
    /// The text colour does not parse.
    TextColor(ColorError),
    /// The outline colour does not parse.
    OutlineColor(ColorError),
}

/// Text colour where a request names none: opaque white.
pub open spec fn default_text_color() -> Rgba {
    Rgba { r: 255, g: 255, b: 255, a: 255 }
}

/// Outline colour where a request names none: opaque black.
pub open spec fn default_outline_color() -> Rgba {
    Rgba { r: 0, g: 0, b: 0, a: 255 }
}

/// The colour that an optional colour string stands for.
pub open spec fn color_or(named: Option<String>, default: Rgba) -> Result<Rgba, ColorError> {
    match named {
        Some(text) => parsed_color(text@),
        None => Ok(default),
    }
}

/// The first fault of a request, if it has one: the text colour is looked at
/// before the outline colour.
pub open spec fn style_fault(query: OverlayQuery) -> Option<StyleError> {
    match color_or(query.text_color, default_text_color()) {
        Err(e) => Some(StyleError::TextColor(e)),
        Ok(_) => match color_or(query.outline_color, default_outline_color()) {
            Err(e) => Some(StyleError::OutlineColor(e)),
            Ok(_) => None,
        },
    }
}

/// Whether `style` is what `query` asks for, defaults filled in.
pub open spec fn is_style_of(style: StyleParameters, query: OverlayQuery) -> bool {
    &&& style.text@ == match query.text {
        Some(text) => text@,
        None => Seq::<char>::empty(),
    }
    &&& Ok::<Rgba, ColorError>(style.text_color) == color_or(
        query.text_color,
        default_text_color(),
    )
    &&& Ok::<Rgba, ColorError>(style.outline_color) == color_or(
        query.outline_color,
        default_outline_color(),
    )
    &&& style.text_scale == match query.text_scale {
        Some(scale) => scale,
        None => DEFAULT_TEXT_SCALE,
    }
    &&& style.outline_thickness == match query.outline_thickness {
        Some(thickness) => thickness,
        None => DEFAULT_OUTLINE_THICKNESS,
    }
}

/// Parses an optional colour string.
fn parse_or(named: &Option<String>, default: Rgba) -> (color: Result<Rgba, ColorError>)
    ensures
        color == color_or(*named, default),
{
    match named {
        Some(text) => parse_color(text.as_str()),
        None => Ok(default),
    }
}

/// Fills in the defaults of a request and parses its colours.
pub fn resolve_style(query: OverlayQuery) -> (resolved: Result<StyleParameters, StyleError>)
    ensures
        match resolved {
            Ok(style) => style_fault(query) is None && is_style_of(style, query),
            Err(e) => style_fault(query) == Some(e),
        },
{
    let text_color = match parse_or(&query.text_color, Rgba { r: 255, g: 255, b: 255, a: 255 }) {
        Ok(color) => color,
        Err(e) => {
            return Err(StyleError::TextColor(e));
        },
    };
    let outline_color = match parse_or(&query.outline_color, Rgba { r: 0, g: 0, b: 0, a: 255 }) {
        Ok(color) => color,
        Err(e) => {
            return Err(StyleError::OutlineColor(e));
        },
    };
    let text = match query.text {
        Some(text) => text,
        None => String::new(),
    };
    let text_scale = match query.text_scale {
        Some(scale) => scale,
        None => DEFAULT_TEXT_SCALE,
    };
    let outline_thickness = match query.outline_thickness {
        Some(thickness) => thickness,
        None => DEFAULT_OUTLINE_THICKNESS,
    };
    Ok(StyleParameters { text, text_color, outline_color, text_scale, outline_thickness })
}

} // verus!
