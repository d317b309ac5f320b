use overlad::color::{blend, blend_channel, parse_color, quantize, ColorError, Rgba};

const WHITE: Rgba = Rgba { r: 255, g: 255, b: 255, a: 255 };
const BLACK: Rgba = Rgba { r: 0, g: 0, b: 0, a: 255 };

#[test]
fn quantize_cuts_to_hundredths() {
    assert_eq!(quantize(0), 0);
    assert_eq!(quantize(9_999), 0);
    assert_eq!(quantize(10_000), 1);
    assert_eq!(quantize(19_999), 1);
    assert_eq!(quantize(505_000), 50);
    assert_eq!(quantize(999_999), 99);
    assert_eq!(quantize(1_000_000), 100);
}

#[test]
fn quantize_clamps_both_ways() {
    assert_eq!(quantize(-1), 0);
    assert_eq!(quantize(i32::MIN), 0);
    assert_eq!(quantize(1_000_001), 100);
    assert_eq!(quantize(i32::MAX), 100);
}

#[test]
fn blend_channel_rounds_down() {
    assert_eq!(blend_channel(0, 255, 50), 127);
    assert_eq!(blend_channel(255, 0, 50), 127);
    assert_eq!(blend_channel(10, 20, 25), 12);
    assert_eq!(blend_channel(200, 100, 99), 101);
    assert_eq!(blend_channel(7, 7, 33), 7);
}

#[test]
fn full_weight_gives_the_colour() {
    let existing = Rgba { r: 1, g: 2, b: 3, a: 4 };
    let color = Rgba { r: 250, g: 128, b: 0, a: 77 };
    assert_eq!(blend(existing, color, 100), color);
    assert_eq!(blend(WHITE, BLACK, 100), BLACK);
}

#[test]
fn no_weight_keeps_the_pixel() {
    let existing = Rgba { r: 1, g: 2, b: 3, a: 4 };
    let color = Rgba { r: 250, g: 128, b: 0, a: 77 };
    assert_eq!(blend(existing, color, 0), existing);
}

#[test]
fn blend_mixes_every_channel() {
    let existing = Rgba { r: 0, g: 100, b: 200, a: 255 };
    let color = Rgba { r: 100, g: 0, b: 100, a: 0 };
    assert_eq!(blend(existing, color, 30), Rgba { r: 30, g: 70, b: 170, a: 178 });
}

#[test]
fn parse_color_reads_four_bytes() {
    assert_eq!(parse_color("ff0080c0"), Ok(Rgba { r: 255, g: 0, b: 128, a: 192 }));
    assert_eq!(parse_color("ffffffff"), Ok(WHITE));
    assert_eq!(parse_color("000000ff"), Ok(BLACK));
    assert_eq!(parse_color("01020304"), Ok(Rgba { r: 1, g: 2, b: 3, a: 4 }));
}

#[test]
fn parse_color_takes_either_case() {
    assert_eq!(parse_color("AbCdEf09"), Ok(Rgba { r: 0xab, g: 0xcd, b: 0xef, a: 0x09 }));
    assert_eq!(parse_color("ABCDEF09"), parse_color("abcdef09"));
}

#[test]
fn parse_color_ignores_further_bytes() {
    assert_eq!(parse_color("0102030405"), Ok(Rgba { r: 1, g: 2, b: 3, a: 4 }));
}

#[test]
fn parse_color_rejects_what_is_not_hex() {
    assert_eq!(parse_color("fffffff"), Err(ColorError::InvalidHex));
    assert_eq!(parse_color("gggggggg"), Err(ColorError::InvalidHex));
    assert_eq!(parse_color("#fffffff"), Err(ColorError::InvalidHex));
    assert_eq!(parse_color("ffff ffff"), Err(ColorError::InvalidHex));
    assert_eq!(parse_color("ffffffé"), Err(ColorError::InvalidHex));
    assert_eq!(parse_color("éééé"), Err(ColorError::InvalidHex));
}

#[test]
fn parse_color_rejects_short_strings() {
    assert_eq!(parse_color(""), Err(ColorError::TooShort));
    assert_eq!(parse_color("ff"), Err(ColorError::TooShort));
    assert_eq!(parse_color("ffffff"), Err(ColorError::TooShort));
}
