use overlad::canvas::Canvas;
use overlad::color::Rgba;
use overlad::draw::{composite, draw_text_mut, CoverageMask};

const WHITE: Rgba = Rgba { r: 255, g: 255, b: 255, a: 255 };
const RED: Rgba = Rgba { r: 255, g: 0, b: 0, a: 255 };
const BLUE: Rgba = Rgba { r: 0, g: 0, b: 255, a: 255 };

#[test]
fn new_canvas_is_filled() {
    let canvas = Canvas::new(3, 2, RED).unwrap();
    assert_eq!(canvas.width(), 3);
    assert_eq!(canvas.height(), 2);
    assert_eq!(canvas.pixels, vec![RED; 6]);
}

#[test]
fn empty_canvas_has_no_pixels() {
    let canvas = Canvas::new(0, 7, RED).unwrap();
    assert_eq!(canvas.pixels.len(), 0);
}

#[test]
fn from_pixels_checks_the_count() {
    assert!(Canvas::from_pixels(2, 2, vec![RED; 3]).is_none());
    assert!(Canvas::from_pixels(2, 2, vec![RED; 5]).is_none());
    let canvas = Canvas::from_pixels(2, 2, vec![RED, WHITE, BLUE, RED]).unwrap();
    assert_eq!(canvas.get_pixel(0, 0), RED);
    assert_eq!(canvas.get_pixel(1, 0), WHITE);
    assert_eq!(canvas.get_pixel(0, 1), BLUE);
    assert_eq!(canvas.get_pixel(1, 1), RED);
}

#[test]
fn put_pixel_changes_one_pixel() {
    let mut canvas = Canvas::new(4, 3, WHITE).unwrap();
    canvas.put_pixel(2, 1, RED);
    for y in 0..3 {
        for x in 0..4 {
            let expected = if (x, y) == (2, 1) { RED } else { WHITE };
            assert_eq!(canvas.get_pixel(x, y), expected);
        }
    }
    assert_eq!(canvas.pixels[6], RED);
}

#[test]
fn mask_checks_the_count() {
    assert!(CoverageMask::new(0, 0, 2, 2, vec![0; 3]).is_none());
    assert!(CoverageMask::new(0, 0, 2, 2, vec![0; 4]).is_some());
    assert!(CoverageMask::new(0, 0, 0, 9, vec![]).is_some());
}

#[test]
fn composite_blends_by_quantised_coverage() {
    let mut canvas = Canvas::new(3, 1, WHITE).unwrap();
    let mask = CoverageMask::new(0, 0, 3, 1, vec![1_000_000, 505_000, 9_999]).unwrap();
    composite(&mut canvas, 0, 0, &mask, BLUE);
    assert_eq!(canvas.get_pixel(0, 0), BLUE);
    assert_eq!(canvas.get_pixel(1, 0), Rgba { r: 127, g: 127, b: 255, a: 255 });
    assert_eq!(canvas.get_pixel(2, 0), WHITE);
}

#[test]
fn composite_places_the_mask_at_anchor_and_offset() {
    let mut canvas = Canvas::new(5, 5, WHITE).unwrap();
    let mask = CoverageMask::new(1, -1, 2, 2, vec![1_000_000; 4]).unwrap();
    composite(&mut canvas, 2, 3, &mask, RED);
    for y in 0..5 {
        for x in 0..5 {
            let inside = (3..5).contains(&x) && (2..4).contains(&y);
            assert_eq!(canvas.get_pixel(x, y), if inside { RED } else { WHITE });
        }
    }
}

#[test]
fn composite_clips_to_the_canvas() {
    let mut canvas = Canvas::new(2, 2, WHITE).unwrap();
    let mask = CoverageMask::new(0, 0, 3, 3, vec![1_000_000; 9]).unwrap();
    composite(&mut canvas, -2, -2, &mask, RED);
    assert_eq!(canvas.pixels, vec![RED, WHITE, WHITE, WHITE]);
    composite(&mut canvas, 1, 1, &mask, BLUE);
    assert_eq!(canvas.pixels, vec![RED, WHITE, WHITE, BLUE]);
}

#[test]
fn composite_far_outside_changes_nothing() {
    let mut canvas = Canvas::new(2, 2, WHITE).unwrap();
    let far = CoverageMask::new(i32::MAX, i32::MAX, 2, 2, vec![1_000_000; 4]).unwrap();
    composite(&mut canvas, i32::MAX, i32::MAX, &far, RED);
    let near = CoverageMask::new(i32::MIN, i32::MIN, 2, 2, vec![1_000_000; 4]).unwrap();
    composite(&mut canvas, i32::MIN, i32::MIN, &near, RED);
    let beside = CoverageMask::new(0, 0, 2, 2, vec![1_000_000; 4]).unwrap();
    composite(&mut canvas, 2, 0, &beside, RED);
    composite(&mut canvas, 0, -2, &beside, RED);
    assert_eq!(canvas.pixels, vec![WHITE; 4]);
}

#[test]
fn composite_adds_anchor_and_offset_without_wrapping() {
    let mut canvas = Canvas::new(2, 2, WHITE).unwrap();
    let mask = CoverageMask::new(i32::MAX, i32::MIN, 2, 2, vec![1_000_000; 4]).unwrap();
    composite(&mut canvas, i32::MIN, i32::MAX, &mask, RED);
    assert_eq!(canvas.pixels, vec![RED, WHITE, WHITE, WHITE]);
}

#[test]
fn composite_reads_the_mask_row_by_row() {
    let mut canvas = Canvas::new(2, 2, WHITE).unwrap();
    let mask = CoverageMask::new(0, 0, 2, 2, vec![1_000_000, 0, 0, 1_000_000]).unwrap();
    composite(&mut canvas, 0, 0, &mask, RED);
    assert_eq!(canvas.pixels, vec![RED, WHITE, WHITE, RED]);
}

#[test]
fn draw_text_blends_glyphs_in_order() {
    let mut canvas = Canvas::new(3, 1, WHITE).unwrap();
    let first = CoverageMask::new(0, 0, 2, 1, vec![1_000_000, 1_000_000]).unwrap();
    let second = CoverageMask::new(1, 0, 2, 1, vec![500_000, 500_000]).unwrap();
    draw_text_mut(&mut canvas, Rgba { r: 0, g: 0, b: 0, a: 255 }, 0, 0, &vec![first, second]);
    assert_eq!(canvas.get_pixel(0, 0), Rgba { r: 0, g: 0, b: 0, a: 255 });
    assert_eq!(canvas.get_pixel(1, 0), Rgba { r: 0, g: 0, b: 0, a: 255 });
    assert_eq!(canvas.get_pixel(2, 0), Rgba { r: 127, g: 127, b: 127, a: 255 });
}

#[test]
fn draw_text_without_glyphs_changes_nothing() {
    let mut canvas = Canvas::new(3, 3, WHITE).unwrap();
    draw_text_mut(&mut canvas, RED, 1, 1, &vec![]);
    assert_eq!(canvas.pixels, vec![WHITE; 9]);
}
