use overlad::api::{DbImage, DbUser, Image, User};
use overlad::canvas::Canvas;
use overlad::color::{ColorError, Rgba};
use overlad::draw::CoverageMask;
use overlad::font::{FontMetrics, GlyphId};
use overlad::layout::GlyphPlacement;
use overlad::outline::draw_text_outline_mut;
use overlad::overlay::{layout, overlay, LayoutConstants};
use overlad::style::{resolve_style, OverlayQuery, StyleError};
use overlad::wrap::Line;

const WHITE: Rgba = Rgba { r: 255, g: 255, b: 255, a: 255 };
const BLACK: Rgba = Rgba { r: 0, g: 0, b: 0, a: 255 };
const RED: Rgba = Rgba { r: 255, g: 0, b: 0, a: 255 };

fn font() -> FontMetrics {
    let mut m = FontMetrics::new(800, -200).unwrap();
    for (i, c) in ['A', 'B', 'C'].into_iter().enumerate() {
        m.set_glyph(GlyphId(i as u16 + 1), 600, true);
        m.map_char(c, GlyphId(i as u16 + 1));
    }
    m.set_glyph(GlyphId(4), 250, false);
    m.map_char(' ', GlyphId(4));
    m
}

fn block(w: u32, h: u32) -> CoverageMask {
    CoverageMask::new(0, 0, w, h, vec![1_000_000; (w * h) as usize]).unwrap()
}

fn query() -> OverlayQuery {
    OverlayQuery {
        text: None,
        text_color: None,
        text_scale: None,
        outline_color: None,
        outline_thickness: None,
    }
}

#[test]
fn constants_of_a_square_thousand() {
    let c = LayoutConstants::derive(1000, 1000, 1000, 0);
    assert_eq!(c.image_min, 1000);
    assert_eq!(c.margin, 50_000_000);
    assert_eq!(c.font_scale, 100_000_000);
    assert_eq!(c.max_line_width, 650_000_000);
    assert_eq!(c.outline_radius, 0);
    assert_eq!(c.line_anchor(0), (50, 50));
    assert_eq!(c.line_anchor(3), (50, 350));
}

#[test]
fn constants_follow_the_smaller_side() {
    let c = LayoutConstants::derive(1920, 1080, 1500, 2500);
    assert_eq!(c.image_min, 1080);
    assert_eq!(c.margin, 54_000_000);
    assert_eq!(c.font_scale, 162_000_000);
    assert_eq!(c.max_line_width, 1_440_000_000 - 108_000_000);
    assert_eq!(c.outline_radius, 2_700_000);
    let c = LayoutConstants::derive(300, 4000, 1000, 1000);
    assert_eq!(c.image_min, 300);
    assert_eq!(c.max_line_width, 225_000_000 - 30_000_000);
    assert_eq!(c.outline_radius, 300_000);
}

#[test]
fn constants_keep_fractions_but_anchors_are_whole() {
    let c = LayoutConstants::derive(99, 33, 1234, 1);
    assert_eq!(c.margin, 1_650_000);
    assert_eq!(c.font_scale, 4_072_200);
    assert_eq!(c.max_line_width, 74_250_000 - 3_300_000);
    assert_eq!(c.outline_radius, 33);
    assert_eq!(c.line_anchor(0), (1, 1));
    assert_eq!(c.line_anchor(1), (1, 5));
    assert_eq!(c.line_anchor(10), (1, 41));
}

#[test]
fn constants_of_extreme_sizes_do_not_overflow() {
    let c = LayoutConstants::derive(u32::MAX, u32::MAX, u32::MAX, u32::MAX);
    assert_eq!(c.margin, 214_748_364_750_000);
    assert_eq!(c.font_scale, 1_844_674_406_511_961_702_500);
    assert_eq!(c.max_line_width, 3_221_225_471_250_000 - 429_496_729_500_000);
    assert_eq!(c.outline_radius, 18_446_744_065_119_617_025);
    assert_eq!(
        c.line_anchor(usize::MAX).1,
        4_294_967_295 / 20 + usize::MAX as i128 * 1_844_674_406_511_961
    );
    let c = LayoutConstants::derive(0, 0, 1000, 1000);
    assert_eq!(c, LayoutConstants {
        image_min: 0,
        margin: 0,
        font_scale: 0,
        max_line_width: 0,
        outline_radius: 0,
    });
}

#[test]
fn plan_of_three_words_on_a_square_thousand() {
    let plan = layout(1000, 1000, "AAAA BBBB CCCC", 1000, 0, &font());
    assert_eq!(plan.constants, LayoutConstants::derive(1000, 1000, 1000, 0));
    assert_eq!(plan.words.len(), 3);
    assert_eq!(plan.lines.len(), 2);
    assert_eq!(plan.lines[0].words, Line { start: 0, end: 2 });
    assert_eq!(plan.lines[1].words, Line { start: 2, end: 3 });
    assert_eq!(plan.lines[0].y, 50);
    assert_eq!(plan.lines[1].y, 150);
    assert_eq!(plan.lines[0].width, 5050);
    assert_eq!(plan.lines[1].width, 2400);
    let pens: Vec<i128> = plan.lines[0].glyphs.iter().map(|g| g.pen).collect();
    assert_eq!(pens, [0, 600, 1200, 1800, 2650, 3250, 3850, 4450]);
    assert_eq!(plan.lines[0].glyphs[4], GlyphPlacement { glyph: GlyphId(2), pen: 2650 });
    assert_eq!(plan.lines[1].glyphs.len(), 4);
    assert_eq!(plan.lines[1].glyphs[0], GlyphPlacement { glyph: GlyphId(3), pen: 0 });
}

#[test]
fn plan_breaks_more_at_a_larger_scale() {
    let plan = layout(1000, 1000, "AAAA BBBB CCCC", 2000, 0, &font());
    assert_eq!(plan.lines.len(), 3);
    assert_eq!(plan.lines[2].y, 50 + 2 * 200);
    let plan = layout(1000, 1000, "AAAA BBBB CCCC", 500, 0, &font());
    assert_eq!(plan.lines.len(), 1);
}

#[test]
fn plan_of_empty_text_is_one_line_without_glyphs() {
    for text in ["", "   ", "xyz"] {
        let plan = layout(640, 480, text, 1000, 3000, &font());
        assert_eq!(plan.lines.len(), 1);
        assert!(plan.lines[0].glyphs.is_empty());
        assert_eq!(plan.lines[0].width, 0);
        assert_eq!(plan.lines[0].y, 24);
    }
}

#[test]
fn overlay_of_empty_text_changes_no_pixel() {
    let pixels: Vec<Rgba> =
        (0..64u32).map(|i| Rgba { r: i as u8, g: 2 * i as u8, b: 255, a: 9 }).collect();
    let image = Canvas::from_pixels(8, 8, pixels.clone()).unwrap();
    let plan = layout(8, 8, "", 1000, 5000, &font());
    let lines: Vec<Vec<CoverageMask>> = plan.lines.iter().map(|_| vec![]).collect();
    let out = overlay(image, &lines, WHITE, BLACK, 1000, 5000);
    assert_eq!(out.width(), 8);
    assert_eq!(out.height(), 8);
    assert_eq!(out.pixels, pixels);
    let image = Canvas::from_pixels(8, 8, pixels.clone()).unwrap();
    assert_eq!(overlay(image, &vec![], WHITE, BLACK, 1000, 5000).pixels, pixels);
}

#[test]
fn overlay_draws_each_line_at_its_anchor() {
    // 100 by 40: the margin is two pixels, a line is four pixels high.
    let image = Canvas::new(100, 40, WHITE).unwrap();
    let lines = vec![vec![block(3, 1)], vec![], vec![block(1, 2)]];
    let out = overlay(image, &lines, RED, BLACK, 1000, 0);
    for y in 0..40 {
        for x in 0..100 {
            let first = y == 2 && (2..5).contains(&x);
            let third = x == 2 && (10..12).contains(&y);
            assert_eq!(out.get_pixel(x, y), if first || third { RED } else { WHITE });
        }
    }
}

#[test]
fn overlay_is_the_lines_drawn_one_after_another() {
    let lines = vec![
        vec![block(3, 2), CoverageMask::new(2, 1, 2, 2, vec![250_000; 4]).unwrap()],
        vec![CoverageMask::new(-1, -3, 4, 4, vec![777_777; 16]).unwrap()],
    ];
    let out = overlay(Canvas::new(60, 50, WHITE).unwrap(), &lines, RED, BLACK, 1500, 40_000);
    let c = LayoutConstants::derive(60, 50, 1500, 40_000);
    assert_eq!(c.outline_radius, 2_000_000);
    let mut by_hand = Canvas::new(60, 50, WHITE).unwrap();
    draw_text_outline_mut(&mut by_hand, RED, BLACK, c.outline_radius, 2, 2, &lines[0]);
    draw_text_outline_mut(&mut by_hand, RED, BLACK, c.outline_radius, 2, 2 + 7, &lines[1]);
    assert_eq!(out.pixels, by_hand.pixels);
    assert!(out.pixels.contains(&BLACK));
}

#[test]
fn overlay_gives_the_same_bytes_every_time() {
    let lines = vec![
        vec![block(3, 2), CoverageMask::new(2, 1, 2, 2, vec![250_000; 4]).unwrap()],
        vec![CoverageMask::new(-1, -3, 4, 4, vec![777_777; 16]).unwrap()],
    ];
    let first = overlay(Canvas::new(60, 50, WHITE).unwrap(), &lines, RED, BLACK, 1500, 40_000);
    let second = overlay(Canvas::new(60, 50, WHITE).unwrap(), &lines, RED, BLACK, 1500, 40_000);
    assert_eq!(first.pixels, second.pixels);
    let a = layout(60, 50, "AB  C A", 1500, 40_000, &font());
    let b = layout(60, 50, "AB  C A", 1500, 40_000, &font());
    assert_eq!(a.words, b.words);
    assert_eq!(a.lines.len(), b.lines.len());
    for (x, y) in a.lines.iter().zip(b.lines.iter()) {
        assert_eq!((x.words, x.y, x.width, &x.glyphs), (y.words, y.y, y.width, &y.glyphs));
    }
}

#[test]
fn overlay_on_an_empty_image_draws_nothing() {
    let out = overlay(Canvas::new(0, 10, WHITE).unwrap(), &vec![vec![block(2, 2)]], RED, BLACK, 1000, 1000);
    assert_eq!(out.pixels.len(), 0);
    assert_eq!((out.width(), out.height()), (0, 10));
}

#[test]
fn style_defaults() {
    let style = resolve_style(query()).unwrap();
    assert_eq!(style.text, "");
    assert_eq!(style.text_color, WHITE);
    assert_eq!(style.outline_color, BLACK);
    assert_eq!(style.text_scale, 1000);
    assert_eq!(style.outline_thickness, 0);
}

#[test]
fn style_takes_what_the_query_names() {
    let style = resolve_style(OverlayQuery {
        text: Some(String::from("hello there")),
        text_color: Some(String::from("ff000080")),
        text_scale: Some(2500),
        outline_color: Some(String::from("00FF00ff")),
        outline_thickness: Some(12),
    })
    .unwrap();
    assert_eq!(style.text, "hello there");
    assert_eq!(style.text_color, Rgba { r: 255, g: 0, b: 0, a: 128 });
    assert_eq!(style.outline_color, Rgba { r: 0, g: 255, b: 0, a: 255 });
    assert_eq!(style.text_scale, 2500);
    assert_eq!(style.outline_thickness, 12);
}

#[test]
fn style_reports_the_first_bad_colour() {
    let bad_text = OverlayQuery { text_color: Some(String::from("xyz")), ..query() };
    assert_eq!(resolve_style(bad_text).unwrap_err(), StyleError::TextColor(ColorError::InvalidHex));
    let short_text = OverlayQuery { text_color: Some(String::from("ffffff")), ..query() };
    assert_eq!(resolve_style(short_text).unwrap_err(), StyleError::TextColor(ColorError::TooShort));
    let bad_outline = OverlayQuery { outline_color: Some(String::from("0")), ..query() };
    assert_eq!(
        resolve_style(bad_outline).unwrap_err(),
        StyleError::OutlineColor(ColorError::InvalidHex)
    );
    let short_outline = OverlayQuery { outline_color: Some(String::new()), ..query() };
    assert_eq!(
        resolve_style(short_outline).unwrap_err(),
        StyleError::OutlineColor(ColorError::TooShort)
    );
    let both = OverlayQuery {
        text_color: Some(String::from("ff")),
        outline_color: Some(String::from("zz")),
        ..query()
    };
    assert_eq!(resolve_style(both).unwrap_err(), StyleError::TextColor(ColorError::TooShort));
}

#[test]
fn stored_rows_become_what_clients_see() {
    let row = DbUser { id: 7, username: String::from("ada"), passhash: String::from("$argon2") };
    let user = User::from(row);
    assert_eq!(user, User { id: 7, username: String::from("ada") });
    let image = DbImage { id: String::from("abc"), user_id: 7, extension: String::from("png") };
    assert_eq!(
        image.into_image(user.clone()),
        Image { id: String::from("abc"), user, extension: String::from("png") }
    );
}
