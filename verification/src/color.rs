//! Colours, coverage quantisation and alpha blending.

use vstd::prelude::*;

verus! {

/// Glyph coverage is expressed in millionths: this value is a fully covered pixel.
pub const FULL_COVERAGE: i32 = 1_000_000;

/// Blend weights are whole hundredths: this weight replaces the pixel outright.
pub const FULL_WEIGHT: u8 = 100;

/// An 8-bit RGBA colour.
#[derive(Clone, Copy, Debug, PartialEq, Eq, Structural)]
pub struct Rgba {
    pub r: u8,
    pub g: u8,
    pub b: u8,
    pub a: u8,
}

/// The blend weight, in hundredths, of a raw coverage in millionths: the
/// coverage is cut down to a whole number of hundredths and then clamped to
/// the range from nothing to full.
pub open spec fn quantized(coverage: int) -> int {
    if coverage < 0 {
        0
    } else if coverage >= 1_000_000 {
        100
    } else {
        coverage / 10_000
    }
}

/// One channel of `color` laid over `existing` with `weight` hundredths of
/// coverage, rounded down.
pub open spec fn blended_channel(existing: int, color: int, weight: int) -> int {
    (color * weight + existing * (100 - weight)) / 100
}

/// `color` laid over `existing` with `weight` hundredths of coverage, each of
/// the four channels on its own.
pub open spec fn blended(existing: Rgba, color: Rgba, weight: int) -> Rgba {
    Rgba {
        r: blended_channel(existing.r as int, color.r as int, weight) as u8,
        g: blended_channel(existing.g as int, color.g as int, weight) as u8,
        b: blended_channel(existing.b as int, color.b as int, weight) as u8,
        a: blended_channel(existing.a as int, color.a as int, weight) as u8,
    }
}

/// A blended channel lies between the two channels it mixes, so it is a byte.
pub proof fn lemma_blended_channel_bounds(existing: int, color: int, weight: int)
    requires
        0 <= existing <= 255,
        0 <= color <= 255,
        0 <= weight <= 100,
    ensures
        0 <= blended_channel(existing, color, weight) <= 255,
        existing <= color ==> existing <= blended_channel(existing, color, weight) <= color,
        color <= existing ==> color <= blended_channel(existing, color, weight) <= existing,
{
    let n = color * weight + existing * (100 - weight);
    assert(existing <= color ==> existing * 100 <= n <= color * 100) by (nonlinear_arith)
        requires
            n == color * weight + existing * (100 - weight),
            0 <= weight <= 100,
    ;
    assert(color <= existing ==> color * 100 <= n <= existing * 100) by (nonlinear_arith)
        requires
            n == color * weight + existing * (100 - weight),
            0 <= weight <= 100,
    ;
}

/// Full coverage yields exactly the colour drawn; no coverage leaves the
/// pixel exactly as it was.
pub proof fn lemma_blend_boundary(existing: Rgba, color: Rgba)
    ensures
        quantized(FULL_COVERAGE as int) == 100,
        quantized(0) == 0,
        blended(existing, color, 100) == color,
        blended(existing, color, 0) == existing,
{
}

/// Quantises a raw coverage to its blend weight.
pub fn quantize(coverage: i32) -> (weight: u8)
    ensures
        weight as int == quantized(coverage as int),
        weight <= FULL_WEIGHT,
{
    if coverage < 0 {
        0
    } else if coverage >= FULL_COVERAGE {
        FULL_WEIGHT
    } else {
        (coverage / 10_000) as u8
    }
}

/// Blends one channel.
pub fn blend_channel(existing: u8, color: u8, weight: u8) -> (out: u8)
    requires
        weight <= FULL_WEIGHT,
    ensures
        out as int == blended_channel(existing as int, color as int, weight as int),
{
    proof {
        lemma_blended_channel_bounds(existing as int, color as int, weight as int);
    }
    let sum: u32 = color as u32 * weight as u32 + existing as u32 * (100 - weight as u32);
    (sum / 100) as u8
}

/// Blends `color` over `existing` with the given weight.
pub fn blend(existing: Rgba, color: Rgba, weight: u8) -> (out: Rgba)
    requires
        weight <= FULL_WEIGHT,
    ensures
        out == blended(existing, color, weight as int),
{
    Rgba {
        r: blend_channel(existing.r, color.r, weight),
        g: blend_channel(existing.g, color.g, weight),
        b: blend_channel(existing.b, color.b, weight),
        a: blend_channel(existing.a, color.a, weight),
    }
}

/// Why a colour string was turned down.
#[derive(Clone, Copy, Debug, PartialEq, Eq, Structural)]
pub enum ColorError {
    /// The string is not an even number of hexadecimal digits.
    InvalidHex,
    /// The string decodes to fewer than four bytes.
    TooShort,
}

#[verifier::external_type_specification]
#[verifier::external_body]
pub struct ExFromHexError(hex::FromHexError);

/// The value of a hexadecimal digit, upper or lower case.
pub open spec fn hex_digit(c: char) -> Option<int> {
    let n = c as u32 as int;
    if 0x30 <= n <= 0x39 {
        Some(n - 0x30)
    } else if 0x41 <= n <= 0x46 {
        Some(n - 0x41 + 10)
    } else if 0x61 <= n <= 0x66 {
        Some(n - 0x61 + 10)
    } else {
        None
    }
}

/// Whether `text` is an even number of hexadecimal digits and nothing else.
pub open spec fn is_hex(text: Seq<char>) -> bool {
    &&& text.len() % 2 == 0
    &&& forall|i: int| 0 <= i < text.len() ==> (#[trigger] hex_digit(text[i])) is Some
}

/// The byte that the digit pair at `2 * i` stands for.
pub open spec fn hex_byte(text: Seq<char>, i: int) -> u8 {
    (16 * hex_digit(text[2 * i])->0 + hex_digit(text[2 * i + 1])->0) as u8
}

/// The bytes that a hexadecimal string stands for, two digits to the byte.
pub open spec fn hex_bytes(text: Seq<char>) -> Seq<u8> {
    Seq::new(text.len() / 2, |i: int| hex_byte(text, i))
}

/// What a colour string parses to: its first four bytes are red, green, blue
/// and alpha; bytes after them are ignored.
pub open spec fn parsed_color(text: Seq<char>) -> Result<Rgba, ColorError> {
    if !is_hex(text) {
        Err(ColorError::InvalidHex)
    } else if text.len() < 8 {
        Err(ColorError::TooShort)
    } else {
        Ok((Rgba {
            r: hex_byte(text, 0),
            g: hex_byte(text, 1),
            b: hex_byte(text, 2),
            a: hex_byte(text, 3),
        }))
    }
}

/// Calls `hex::decode` on the string's bytes. That function fails on an odd
/// number of bytes and on any byte that is not one of `0-9`, `a-f`, `A-F`;
/// otherwise it returns one byte for each pair, the first digit of the pair
/// being the high half. A character outside ASCII is encoded in bytes that
/// are no digits, so the claim is stated over characters.
#[verifier::external_body]
fn decode_hex(text: &str) -> (decoded: Result<Vec<u8>, hex::FromHexError>)
    ensures
        decoded is Ok <==> is_hex(text@),
        decoded is Ok ==> decoded->Ok_0@ == hex_bytes(text@),
{
    hex::decode(text)
}

/// Parses a colour written as eight or more hexadecimal digits.
pub fn parse_color(text: &str) -> (parsed: Result<Rgba, ColorError>)
    ensures
        parsed == parsed_color(text@),
{
    match decode_hex(text) {
        Err(_) => Err(ColorError::InvalidHex),
        Ok(bytes) => {
            if bytes.len() < 4 {
                Err(ColorError::TooShort)
            } else {
                Ok(Rgba { r: bytes[0], g: bytes[1], b: bytes[2], a: bytes[3] })
            }
        },
    }
}

} // verus!
