use stackchan::framebuffer::{Area, Color, FbdevDisplay, Pixel};

const RED: Color = Color { r: 31, g: 0, b: 0 };
const GREEN: Color = Color { r: 0, g: 63, b: 0 };
const BLUE: Color = Color { r: 0, g: 0, b: 31 };

fn at(x: i32, y: i32, color: Color) -> Pixel {
    Pixel { x, y, color }
}

fn word(display: &FbdevDisplay, x: usize, y: usize, width: usize, height: usize) -> u16 {
    let index = ((width - 1 - x) + (height - 1 - y) * width) * 2;
    let frame = display.update();
    u16::from_le_bytes([frame[index], frame[index + 1]])
}

#[test]
fn new_screen_is_black() {
    let display = FbdevDisplay::new(3, 2);
    assert_eq!(display.update(), &vec![0u8; 12]);
}

#[test]
fn screen_without_pixels_takes_none() {
    let mut display = FbdevDisplay::new(0, 5);
    display.draw_iter(&vec![at(0, 0, RED)]);
    assert!(display.update().is_empty());
}

#[test]
fn bounding_box_is_the_screen() {
    let display = FbdevDisplay::new(320, 240);
    assert_eq!(display.bounding_box(), Area { x: 0, y: 0, width: 320, height: 240 });
}

#[test]
fn first_pixel_is_stored_last() {
    let mut display = FbdevDisplay::new(2, 2);
    display.draw_iter(&vec![at(0, 0, RED)]);
    assert_eq!(display.update(), &vec![0, 0, 0, 0, 0, 0, 0x00, 0xf8]);
}

#[test]
fn last_pixel_is_stored_first() {
    let mut display = FbdevDisplay::new(2, 2);
    display.draw_iter(&vec![at(1, 1, GREEN)]);
    assert_eq!(display.update(), &vec![0xe0, 0x07, 0, 0, 0, 0, 0, 0]);
}

#[test]
fn rows_and_columns_are_kept_apart() {
    let mut display = FbdevDisplay::new(3, 2);
    display.draw_iter(&vec![at(1, 0, BLUE), at(0, 1, RED)]);
    assert_eq!(display.update(), &vec![0, 0, 0, 0, 0x00, 0xf8, 0, 0, 0x1f, 0x00, 0, 0]);
}

#[test]
fn channels_share_a_word() {
    let mut display = FbdevDisplay::new(1, 1);
    display.draw_iter(&vec![at(0, 0, Color { r: 1, g: 2, b: 3 })]);
    assert_eq!(word(&display, 0, 0, 1, 1), 2048 + 64 + 3);
    display.draw_iter(&vec![at(0, 0, Color { r: 31, g: 63, b: 31 })]);
    assert_eq!(word(&display, 0, 0, 1, 1), 0xffff);
}

#[test]
fn bits_beyond_a_channel_do_not_count() {
    let mut display = FbdevDisplay::new(1, 1);
    display.draw_iter(&vec![at(0, 0, Color { r: 32 + 5, g: 64 + 6, b: 224 + 7 })]);
    assert_eq!(word(&display, 0, 0, 1, 1), 5 * 2048 + 6 * 32 + 7);
}

#[test]
fn pixels_outside_the_screen_are_left_out() {
    let mut display = FbdevDisplay::new(2, 2);
    display.draw_iter(&vec![at(1, 0, BLUE)]);
    let before = display.update().clone();
    display.draw_iter(&vec![
        at(2, 0, RED),
        at(0, 2, RED),
        at(-1, 0, RED),
        at(0, -1, RED),
        at(i32::MIN, i32::MAX, RED),
        at(i32::MAX, i32::MIN, RED),
    ]);
    assert_eq!(display.update(), &before);
}

#[test]
fn later_pixel_stays() {
    let mut display = FbdevDisplay::new(2, 1);
    display.draw_iter(&vec![at(0, 0, RED), at(1, 0, BLUE), at(0, 0, GREEN)]);
    assert_eq!(word(&display, 0, 0, 2, 1), 0x07e0);
    assert_eq!(word(&display, 1, 0, 2, 1), 0x001f);
}

#[test]
fn drawing_in_parts_is_drawing_at_once() {
    let pixels = vec![at(0, 0, RED), at(1, 1, BLUE), at(0, 0, GREEN), at(5, 5, RED)];
    let mut once = FbdevDisplay::new(2, 2);
    once.draw_iter(&pixels);
    let mut parts = FbdevDisplay::new(2, 2);
    parts.draw_iter(&pixels[..2].to_vec());
    parts.draw_iter(&pixels[2..].to_vec());
    assert_eq!(once.update(), parts.update());
}

#[test]
fn covering_picture_hides_what_was_there() {
    let mut cover = Vec::new();
    for y in 0..2 {
        for x in 0..3 {
            cover.push(at(x, y, BLUE));
        }
    }
    let mut used = FbdevDisplay::new(3, 2);
    used.draw_iter(&vec![at(0, 0, RED), at(2, 1, GREEN)]);
    used.draw_iter(&cover);
    let mut fresh = FbdevDisplay::new(3, 2);
    fresh.draw_iter(&cover);
    assert_eq!(used.update(), fresh.update());
    assert_eq!(used.update(), &[0x1f, 0x00].repeat(6));
}
