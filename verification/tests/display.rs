//! The display: XOR compositing, wraparound, collision reporting and
//! dirty tracking.

use chip8::screen::{get_bit, Screen};

#[test]
fn bit_reading_counts_from_the_low_end() {
    assert!(get_bit(0b1000_0000, 7));
    assert!(!get_bit(0b1000_0000, 6));
    assert!(get_bit(0b0000_0001, 0));
    assert!(!get_bit(0, 5));
    assert!(get_bit(0xF0, 4));
    assert!(!get_bit(0xF0, 3));
}

#[test]
fn sprite_rows_draw_left_to_right_from_the_high_bit() {
    let mut s = Screen::new();
    let collided = s.render_sprite(0, 0, &[0xF0]);
    assert!(!collided);
    for x in 0..4usize {
        assert!(s.get_pixel(x, 0));
    }
    for x in 4..8usize {
        assert!(!s.get_pixel(x, 0));
    }
}

#[test]
fn drawing_twice_restores_the_pixel_state() {
    let mut s = Screen::new();
    s.render_sprite(10, 5, &[0x3C, 0x42]);
    let mut before: Vec<bool> = Vec::new();
    for y in 0..32usize {
        for x in 0..64usize {
            before.push(s.get_pixel(x, y));
        }
    }
    s.render_sprite(9, 4, &[0xAA, 0x55, 0xFF]);
    s.render_sprite(9, 4, &[0xAA, 0x55, 0xFF]);
    for y in 0..32usize {
        for x in 0..64usize {
            assert_eq!(s.get_pixel(x, y), before[y * 64 + x]);
        }
    }
}

#[test]
fn collision_reports_exactly_the_on_to_off_transition() {
    let mut s = Screen::new();
    assert!(!s.render_sprite(0, 0, &[0x80]));
    assert!(s.render_sprite(0, 0, &[0x80]));
    assert!(!s.get_pixel(0, 0));
}

#[test]
fn drawing_on_an_all_off_screen_never_collides() {
    let mut s = Screen::new();
    assert!(!s.render_sprite(12, 20, &[0xFF, 0xFF, 0xFF]));
    assert!(!s.render_sprite(60, 30, &[0x01, 0x80]));
}

#[test]
fn coordinates_wrap_per_pixel() {
    let mut s = Screen::new();
    s.render_sprite(70, 35, &[0x80]);
    assert!(s.get_pixel(6, 3));

    let mut s2 = Screen::new();
    s2.render_sprite(60, 31, &[0xFF, 0xFF]);
    for x in [60usize, 61, 62, 63, 0, 1, 2, 3] {
        assert!(s2.get_pixel(x, 31));
        assert!(s2.get_pixel(x, 0));
    }
}

#[test]
fn clear_screen_switches_everything_off() {
    let mut s = Screen::new();
    s.render_sprite(0, 0, &[0xFF, 0xFF]);
    s.clear_screen();
    for y in 0..32usize {
        for x in 0..64usize {
            assert!(!s.get_pixel(x, y));
        }
    }
}

#[test]
fn first_render_repaints_the_whole_grid() {
    let mut s = Screen::new();
    let cells = s.render_pixels();
    assert_eq!(cells.len(), 2048);
    assert_eq!(cells[0], (0usize, 0usize, false));
    assert_eq!(cells[2047], (63usize, 31usize, false));
    let cells2 = s.render_pixels();
    assert_eq!(cells2.len(), 0);
}

#[test]
fn render_reports_only_the_changed_cells() {
    let mut s = Screen::new();
    s.render_pixels();
    s.render_sprite(0, 0, &[0x80]);
    let cells = s.render_pixels();
    assert_eq!(cells, vec![(0usize, 0usize, true)]);
    s.clear_screen();
    let cells = s.render_pixels();
    assert_eq!(cells.len(), 2048);
    assert_eq!(cells[0], (0usize, 0usize, false));
}

#[test]
fn pixel_writes_report_the_on_to_off_case() {
    let mut s = Screen::new();
    assert!(!s.set_pixel(5, 5, true));
    assert!(s.get_pixel(5, 5));
    assert!(s.set_pixel(5, 5, false));
    assert!(!s.xor_pixel(6, 6, true));
    assert!(s.get_pixel(6, 6));
    assert!(s.xor_pixel(6, 6, true));
    assert!(!s.get_pixel(6, 6));
    assert!(!s.xor_pixel(6, 6, false));
}
