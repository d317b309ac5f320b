use overlad::canvas::Canvas;
use overlad::color::Rgba;
use overlad::draw::{draw_text_mut, CoverageMask};
use overlad::outline::{draw_text_outline_mut, stamp_offset, OUTLINE_STEPS};

const WHITE: Rgba = Rgba { r: 255, g: 255, b: 255, a: 255 };
const BLACK: Rgba = Rgba { r: 0, g: 0, b: 0, a: 255 };
const RED: Rgba = Rgba { r: 255, g: 0, b: 0, a: 255 };

fn dot() -> Vec<CoverageMask> {
    vec![CoverageMask::new(0, 0, 1, 1, vec![1_000_000]).unwrap()]
}

#[test]
fn offsets_lie_on_the_circle() {
    let radius = 10_000_000;
    assert_eq!(stamp_offset(radius, 0), (10, 0));
    assert_eq!(stamp_offset(radius, 1), (10, 2));
    assert_eq!(stamp_offset(radius, 2), (9, 4));
    assert_eq!(stamp_offset(radius, 3), (8, 6));
    assert_eq!(stamp_offset(radius, 4), (7, 7));
    assert_eq!(stamp_offset(radius, 8), (0, 10));
    assert_eq!(stamp_offset(radius, 12), (-7, 7));
    assert_eq!(stamp_offset(radius, 16), (-10, 0));
    assert_eq!(stamp_offset(radius, 20), (-7, -7));
    assert_eq!(stamp_offset(radius, 24), (0, -10));
    assert_eq!(stamp_offset(radius, 28), (7, -7));
    assert_eq!(stamp_offset(radius, 31), (10, -2));
}

#[test]
fn offsets_match_floating_point_rounding() {
    for radius_px in [0.3f64, 0.5, 1.0, 1.5, 2.0, 3.7, 12.25, 100.0, 1234.567] {
        let radius = (radius_px * 1_000_000.0).round() as u64;
        for step in 0..OUTLINE_STEPS {
            let theta = std::f64::consts::TAU * step as f64 / OUTLINE_STEPS as f64;
            let dx = (theta.cos() * radius_px).round() as i64;
            let dy = (theta.sin() * radius_px).round() as i64;
            assert_eq!(stamp_offset(radius, step), (dx, dy));
        }
    }
}

#[test]
fn offsets_round_halves_away_from_zero() {
    assert_eq!(stamp_offset(500_000, 0), (1, 0));
    assert_eq!(stamp_offset(500_000, 16), (-1, 0));
    assert_eq!(stamp_offset(499_999, 0), (0, 0));
    assert_eq!(stamp_offset(1_500_000, 8), (0, 2));
    assert_eq!(stamp_offset(1_500_000, 24), (0, -2));
}

#[test]
fn offsets_of_no_radius_are_zero() {
    for step in 0..OUTLINE_STEPS {
        assert_eq!(stamp_offset(0, step), (0, 0));
    }
}

#[test]
fn offsets_of_the_largest_radius_do_not_overflow() {
    assert_eq!(stamp_offset(u64::MAX, 0), (18_446_744_073_710, 0));
    assert_eq!(stamp_offset(u64::MAX, 16), (-18_446_744_073_710, 0));
}

#[test]
fn no_thickness_draws_only_the_text() {
    let glyphs = vec![
        CoverageMask::new(0, 0, 2, 2, vec![1_000_000, 330_000, 0, 990_000]).unwrap(),
        CoverageMask::new(1, 1, 2, 1, vec![500_000, 1_000_000]).unwrap(),
    ];
    let mut outlined = Canvas::new(6, 6, WHITE).unwrap();
    draw_text_outline_mut(&mut outlined, RED, BLACK, 0, 2, 2, &glyphs);
    let mut plain = Canvas::new(6, 6, WHITE).unwrap();
    draw_text_mut(&mut plain, RED, 2, 2, &glyphs);
    assert_eq!(outlined.pixels, plain.pixels);
}

#[test]
fn outline_surrounds_the_text() {
    let mut canvas = Canvas::new(5, 5, WHITE).unwrap();
    draw_text_outline_mut(&mut canvas, RED, BLACK, 1_000_000, 2, 2, &dot());
    for y in 0..5u32 {
        for x in 0..5u32 {
            let dx = x as i32 - 2;
            let dy = y as i32 - 2;
            let expected = if dx == 0 && dy == 0 {
                RED
            } else if dx.abs() <= 1 && dy.abs() <= 1 {
                BLACK
            } else {
                WHITE
            };
            assert_eq!(canvas.get_pixel(x, y), expected, "at ({x}, {y})");
        }
    }
}

#[test]
fn text_is_drawn_over_the_outline() {
    let mut canvas = Canvas::new(3, 3, WHITE).unwrap();
    draw_text_outline_mut(&mut canvas, RED, BLACK, 300_000, 1, 1, &dot());
    assert_eq!(canvas.get_pixel(1, 1), RED);
    assert_eq!(canvas.get_pixel(0, 1), WHITE);
    assert_eq!(canvas.get_pixel(2, 1), WHITE);
}

#[test]
fn small_radius_stamps_the_outline_at_the_anchor() {
    let glyphs = vec![CoverageMask::new(0, 0, 1, 1, vec![500_000]).unwrap()];
    let mut canvas = Canvas::new(1, 1, WHITE).unwrap();
    draw_text_outline_mut(&mut canvas, WHITE, BLACK, 1, 0, 0, &glyphs);
    assert_eq!(canvas.get_pixel(0, 0), Rgba { r: 127, g: 127, b: 127, a: 255 });
}

#[test]
fn outline_of_a_wide_radius_leaves_gaps() {
    let mut canvas = Canvas::new(41, 41, WHITE).unwrap();
    draw_text_outline_mut(&mut canvas, RED, BLACK, 20_000_000, 20, 20, &dot());
    let black = canvas.pixels.iter().filter(|p| **p == BLACK).count();
    assert_eq!(black, 32);
    assert_eq!(canvas.get_pixel(40, 20), BLACK);
    assert_eq!(canvas.get_pixel(0, 20), BLACK);
    assert_eq!(canvas.get_pixel(20, 40), BLACK);
    assert_eq!(canvas.get_pixel(20, 0), BLACK);
    assert_eq!(canvas.get_pixel(20, 20), RED);
}
