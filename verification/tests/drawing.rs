//! Drawing primitives: lines, rectangles, the canvas capability, and
//! monospace text.

use ssd1312::bus::RecordingBus;
use ssd1312::canvas::Canvas;
use ssd1312::canvas::Pixel;
use ssd1312::Ssd1312;
use ssd1312::TextStyles;

fn fresh() -> Ssd1312<RecordingBus> {
    Ssd1312::new(RecordingBus::new())
}

fn pixel_lit(d: &Ssd1312<RecordingBus>, x: usize, y: usize) -> bool {
    d.buffer[(y / 8) * 128 + x] & (1 << (y % 8)) != 0
}

#[test]
fn canvas_reports_panel_dimensions() {
    let d = fresh();
    assert_eq!(d.size(), (128, 64));
}

#[test]
fn canvas_draw_iter_clips_and_last_write_wins() {
    let mut d = fresh();
    d.draw_iter(&[
        Pixel { x: 3, y: 5, on: true },
        Pixel { x: -1, y: 5, on: true },
        Pixel { x: 3, y: 64, on: true },
        Pixel { x: 4, y: 5, on: true },
        Pixel { x: 4, y: 5, on: false },
    ]);
    assert!(pixel_lit(&d, 3, 5));
    assert!(!pixel_lit(&d, 4, 5));
    assert_eq!(d.bus.writes.len(), 0);
}

#[test]
fn horizontal_line_is_clipped_at_the_right_edge() {
    let mut d = fresh();
    assert!(d.draw_horizontal_line(126, 5, 10).is_ok());
    assert!(!pixel_lit(&d, 125, 5));
    assert!(pixel_lit(&d, 126, 5));
    assert!(pixel_lit(&d, 127, 5));
    assert!(!pixel_lit(&d, 126, 4));
    assert_eq!(d.bus.writes.len(), 32);
}

#[test]
fn vertical_line_is_clipped_at_the_bottom_edge() {
    let mut d = fresh();
    assert!(d.draw_vertical_line(3, 60, 10).is_ok());
    assert_eq!(d.buffer[7 * 128 + 3], 0xF0);
    assert!(!pixel_lit(&d, 3, 59));
    assert!(!pixel_lit(&d, 2, 60));
}

#[test]
fn rect_stroke_lights_only_the_border() {
    let mut d = fresh();
    assert!(d.draw_rect(2, 3, 4, 3).is_ok());
    assert_eq!(d.buffer[2], 0x38);
    assert_eq!(d.buffer[3], 0x28);
    assert_eq!(d.buffer[4], 0x28);
    assert_eq!(d.buffer[5], 0x38);
    assert_eq!(d.buffer[1], 0x00);
    assert_eq!(d.buffer[6], 0x00);
}

#[test]
fn rect_fill_lights_the_whole_rectangle() {
    let mut d = fresh();
    assert!(d.fill_rect(2, 3, 4, 3).is_ok());
    for col in 2..6 {
        assert_eq!(d.buffer[col], 0x38);
    }
    assert_eq!(d.buffer[1], 0x00);
    assert_eq!(d.buffer[6], 0x00);
}

#[test]
fn zero_sized_rect_draws_nothing() {
    let mut d = fresh();
    assert!(d.draw_rect(10, 10, 0, 5).is_ok());
    assert!(d.fill_rect(10, 10, 5, 0).is_ok());
    for i in 0..1024 {
        assert_eq!(d.buffer[i], 0);
    }
}

#[test]
fn diagonal_line_hits_every_step() {
    let mut d = fresh();
    assert!(d.draw_line(0, 0, 3, 3).is_ok());
    for i in 0..4 {
        assert_eq!(d.buffer[i], 1 << i);
    }
    assert_eq!(d.buffer[4], 0);
}

#[test]
fn line_endpoints_may_be_given_in_either_order() {
    let mut d1 = fresh();
    let mut d2 = fresh();
    assert!(d1.draw_line(5, 7, 20, 12).is_ok());
    assert!(d2.draw_line(20, 12, 5, 7).is_ok());
    for x in 0..128 {
        for y in 0..64 {
            assert_eq!(pixel_lit(&d1, x, y), pixel_lit(&d2, x, y));
        }
    }
}

#[test]
fn line_off_panel_is_clipped() {
    let mut d = fresh();
    assert!(d.draw_line(-5, -5, 2, 2).is_ok());
    assert!(pixel_lit(&d, 0, 0));
    assert!(pixel_lit(&d, 2, 2));
}

#[test]
fn small_text_renders_the_6x10_glyph() {
    let mut d = fresh();
    assert!(d.draw_text_small("H", 0, 0).is_ok());
    assert!(pixel_lit(&d, 0, 1));
    assert!(pixel_lit(&d, 4, 1));
    assert!(!pixel_lit(&d, 1, 1));
    assert!(pixel_lit(&d, 2, 4));
    assert!(!pixel_lit(&d, 5, 5));
    assert_eq!(d.bus.writes.len(), 32);
}

#[test]
fn medium_text_renders_the_8x13_glyph() {
    let mut d = fresh();
    assert!(d.draw_text_medium("A", 0, 0).is_ok());
    assert!(pixel_lit(&d, 3, 2));
    assert!(pixel_lit(&d, 4, 2));
    assert!(pixel_lit(&d, 1, 7));
    assert!(!pixel_lit(&d, 0, 2));
}

#[test]
fn text_advances_one_glyph_width_per_character() {
    let mut d = fresh();
    assert!(d.draw_text_small("HH", 0, 0).is_ok());
    assert!(pixel_lit(&d, 0, 1));
    assert!(pixel_lit(&d, 6, 1));
    assert!(pixel_lit(&d, 10, 1));
}

#[test]
fn inverted_text_clears_glyph_pixels() {
    let mut d = fresh();
    assert!(d.fill_rect(0, 0, 12, 12).is_ok());
    assert!(d.draw_text("H", 0, 0, TextStyles::small_inverted()).is_ok());
    assert!(!pixel_lit(&d, 0, 1));
    assert!(pixel_lit(&d, 1, 1));
}

#[test]
fn centered_text_matches_explicit_position() {
    let mut d1 = fresh();
    let mut d2 = fresh();
    assert!(d1.draw_text_centered("Hi", 10, 6).is_ok());
    assert!(d2.draw_text_small("Hi", 58, 10).is_ok());
    assert!(d1.buffer == d2.buffer);
    let mut any = false;
    for i in 0..1024 {
        if d1.buffer[i] != 0 {
            any = true;
        }
    }
    assert!(any);
    let mut d3 = fresh();
    assert!(d3.draw_text_small("Hi", 57, 10).is_ok());
    assert!(d1.buffer != d3.buffer);
}

#[test]
fn text_wider_than_the_panel_is_centered_with_a_negative_left_edge() {
    let text = "HHHHHHHHHHHHHHHHHHHHHH";
    let mut d1 = fresh();
    let mut d2 = fresh();
    assert!(d1.draw_text_centered(text, 0, 6).is_ok());
    assert!(d2.draw_text_small(text, -2, 0).is_ok());
    assert!(d1.buffer == d2.buffer);
    assert!(pixel_lit(&d1, 2, 1));
}

#[test]
fn unmapped_characters_fall_back_to_the_question_mark_glyph() {
    let mut d1 = fresh();
    let mut d2 = fresh();
    assert!(d1.draw_text_small("\u{4F60}", 0, 0).is_ok());
    assert!(d2.draw_text_small("?", 0, 0).is_ok());
    assert!(d1.buffer == d2.buffer);
    assert!(pixel_lit(&d1, 2, 1));
    assert!(pixel_lit(&d1, 2, 7));
    assert!(!pixel_lit(&d1, 0, 1));
}

#[test]
fn text_styles_name_their_fonts() {
    let small = TextStyles::small();
    let medium = TextStyles::medium();
    let inverted = TextStyles::small_inverted();
    assert!(small.on);
    assert!(medium.on);
    assert!(!inverted.on);
    assert_eq!(small.font, inverted.font);
    assert_ne!(small.font, medium.font);
}
