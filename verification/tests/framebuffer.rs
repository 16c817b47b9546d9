use charlotte_core::framebuffer::colors::{blend_colors, Color};
use charlotte_core::framebuffer::console::{parse_hex, Console, ConsoleChar, InnerPrintStyle};
use charlotte_core::framebuffer::framebuffer::{init_framebuffer, FrameBufferInfo, Point};

/// An 8 x 6 screen, 32 bits per pixel, rows 32 bytes apart: pixel (x, y) is word
/// 8 * y + x.
fn small_fb() -> FrameBufferInfo {
    FrameBufferInfo::new(vec![0u32; 48], 8, 6, 32, 32)
}

/// A 640 x 400 screen, on which glyphs are drawn at scale 1.
fn console_fb() -> FrameBufferInfo {
    FrameBufferInfo::new(vec![0u32; 640 * 400], 640, 400, 2560, 32)
}

fn at(fb: &FrameBufferInfo, x: usize, y: usize) -> u32 {
    fb.pixels()[y * 8 + x]
}

fn lit(fb: &FrameBufferInfo) -> Vec<(usize, usize)> {
    let mut v = Vec::new();
    for y in 0..6 {
        for x in 0..8 {
            if at(fb, x, y) != 0 {
                v.push((x, y));
            }
        }
    }
    v
}

/// A font of 128 one-row glyphs whose row has every pixel set.
fn bar_font() -> Vec<Vec<u8>> {
    vec![vec![0xFFu8]; 128]
}

#[test]
fn draw_pixel_writes_the_pixel_word_and_ignores_off_screen_points() {
    let mut fb = small_fb();
    fb.draw_pixel(1, 2, 7);
    assert_eq!(at(&fb, 1, 2), 7);
    fb.draw_pixel(8, 0, 9);
    fb.draw_pixel(0, 6, 9);
    assert_eq!(lit(&fb), vec![(1, 2)]);
}

#[test]
fn horizontal_line_covers_every_column() {
    let mut fb = small_fb();
    fb.draw_line(Point { x: 0, y: 1 }, Point { x: 3, y: 1 }, 5);
    assert_eq!(lit(&fb), vec![(0, 1), (1, 1), (2, 1), (3, 1)]);
}

#[test]
fn diagonal_and_reversed_lines() {
    let mut fb = small_fb();
    fb.draw_line(Point { x: 3, y: 3 }, Point { x: 0, y: 0 }, 5);
    assert_eq!(lit(&fb), vec![(0, 0), (1, 1), (2, 2), (3, 3)]);
}

#[test]
fn steep_line_steps_by_rows() {
    let mut fb = small_fb();
    fb.draw_line(Point { x: 0, y: 0 }, Point { x: 1, y: 3 }, 5);
    assert_eq!(lit(&fb), vec![(0, 0), (0, 1), (1, 2), (1, 3)]);
}

#[test]
fn single_point_line() {
    let mut fb = small_fb();
    fb.draw_line(Point { x: 2, y: 2 }, Point { x: 2, y: 2 }, 5);
    assert_eq!(lit(&fb), vec![(2, 2)]);
}

#[test]
fn rectangle_fills_its_area() {
    let mut fb = small_fb();
    fb.draw_rect(1, 1, 2, 2, 3);
    assert_eq!(lit(&fb), vec![(1, 1), (2, 1), (1, 2), (2, 2)]);
    fb.clear_screen(4);
    assert!(fb.pixels().iter().all(|p| *p == 4));
}

#[test]
fn triangle_fills_between_its_edges() {
    let mut fb = small_fb();
    fb.draw_triangle(Point { x: 0, y: 0 }, Point { x: 4, y: 0 }, Point { x: 0, y: 4 }, 6);
    let mut expected = Vec::new();
    for y in 0..5usize {
        for x in 0..(5 - y) {
            expected.push((x, y));
        }
    }
    assert_eq!(lit(&fb), expected);
}

#[test]
fn flat_triangle_fills_its_row() {
    let mut fb = small_fb();
    fb.draw_triangle(Point { x: 5, y: 2 }, Point { x: 0, y: 2 }, Point { x: 7, y: 2 }, 6);
    let expected: Vec<(usize, usize)> = (0..8usize).map(|x| (x, 2)).collect();
    assert_eq!(lit(&fb), expected);
}

#[test]
fn glyph_bits_pick_the_colors() {
    let mut fb = console_fb();
    assert_eq!(fb.get_scale(), 1);
    fb.draw_char(0, 0, &[0b1000_0001], 1, 2);
    let row: Vec<u32> = fb.pixels()[0..9].to_vec();
    assert_eq!(row, vec![1, 2, 2, 2, 2, 2, 2, 1, 0]);
    assert_eq!(fb.pixels()[640], 0);
}

#[test]
fn text_advances_and_breaks_lines() {
    let mut fb = console_fb();
    let font = bar_font();
    fb.draw_text(0, 0, "ab\nc", &font, 9, 0);
    let px = fb.pixels();
    assert_eq!(px[0], 9);
    assert_eq!(px[8], 9);
    assert_eq!(px[15], 9);
    assert_eq!(px[16], 0);
    assert_eq!(px[640], 0);
    assert_eq!(px[17 * 640], 9);
    assert_eq!(px[17 * 640 + 8], 0);
}

#[test]
fn scale_follows_the_resolution() {
    let fb = FrameBufferInfo::new(vec![0u32; 1280], 1280, 1200, 0, 32);
    assert_eq!(fb.get_scale(), 2);
    let fb = init_framebuffer(8, 6, 32, 32);
    assert_eq!(fb.get_scale(), 0);
    assert_eq!(fb.pixels().len(), 48);
    assert_eq!(fb.width(), 8);
    assert_eq!(fb.height(), 6);
    assert_eq!(fb.pitch(), 32);
    assert_eq!(fb.bpp(), 32);
}

#[test]
fn blending_mixes_each_channel() {
    assert_eq!(blend_colors(0x00FF_0000, 0x0000_00FF, 255), 0x00FF_0000);
    assert_eq!(blend_colors(0x00FF_0000, 0x0000_00FF, 0), 0x0000_00FF);
    assert_eq!(blend_colors(0x00FF_0000, 0x0000_00FF, 128), 0x0080_007F);
    assert_eq!(blend_colors(Color::WHITE, Color::BLACK, 255), 0x00FF_FFFF);
}

#[test]
fn console_starts_empty() {
    let c = Console::new();
    assert_eq!(c.cursor(), (0, 0));
    assert_eq!(c.colors(), (Color::WHITE, Color::BLACK));
    assert_eq!(c.cell(0, 0).character, '\0');
}

#[test]
fn console_writes_characters_in_default_or_given_colors() {
    let mut c = Console::new();
    c.write_char('A', None, None);
    c.write_char('B', Some(Color::RED), Some(Color::BLUE));
    assert_eq!(c.cell(0, 0), ConsoleChar { character: 'A', color: Color::WHITE, background_color: Color::BLACK });
    assert_eq!(c.cell(1, 0), ConsoleChar { character: 'B', color: Color::RED, background_color: Color::BLUE });
    assert_eq!(c.cursor(), (2, 0));
    c.set_colors(Color::GREEN, Color::CYAN);
    c.write_char('C', None, None);
    assert_eq!(c.cell(2, 0).color, Color::GREEN);
    assert_eq!(c.cell(2, 0).background_color, Color::CYAN);
}

#[test]
fn console_control_characters() {
    let mut c = Console::new();
    c.write_char('A', None, None);
    c.write_char('\n', None, None);
    assert_eq!(c.cursor(), (0, 1));
    c.write_char('\t', None, None);
    assert_eq!(c.cursor(), (4, 1));
    assert_eq!(c.cell(3, 1).character, ' ');
    c.write_char('\r', None, None);
    assert_eq!(c.cursor(), (0, 1));
    c.write_char('x', None, None);
    c.write_char('y', None, None);
    c.write_char('\x08', None, None);
    assert_eq!(c.cursor(), (1, 1));
    assert_eq!(c.cell(1, 1).character, ' ');
    assert_eq!(c.cell(0, 1).character, 'x');
    c.write_char('\r', None, None);
    c.write_char('\x08', None, None);
    assert_eq!(c.cursor(), (0, 1));
}

#[test]
fn console_wraps_long_lines() {
    let mut c = Console::new();
    for _ in 0..80 {
        c.write_char('w', None, None);
    }
    assert_eq!(c.cursor(), (0, 1));
    assert_eq!(c.cell(79, 0).character, 'w');
}

#[test]
fn console_scrolls_at_the_bottom() {
    let mut c = Console::new();
    c.write_char('\n', None, None);
    c.write_char('X', None, None);
    for _ in 0..24 {
        c.write_char('\n', None, None);
    }
    assert_eq!(c.cursor(), (0, 24));
    assert_eq!(c.cell(0, 0).character, 'X');
    assert_eq!(c.cell(0, 1).character, '\0');
    c.clear();
    assert_eq!(c.cursor(), (0, 0));
    assert_eq!(c.cell(0, 0).character, '\0');
}

#[test]
fn console_write_str_updates_cells_and_screen() {
    let mut c = Console::new();
    let mut fb = console_fb();
    let font = bar_font();
    c.write_str("hi", Some(3), Some(4), &mut fb, &font);
    assert_eq!(c.cell(0, 0).character, 'h');
    assert_eq!(c.cell(1, 0).character, 'i');
    assert_eq!(c.cursor(), (2, 0));
    let px = fb.pixels();
    // cell (0, 0) is drawn at (1, 1), cell (1, 0) at (9, 1)
    assert_eq!(px[640 + 1], 3);
    assert_eq!(px[640 + 9], 3);
    // an empty cell draws the glyph of NUL in its (zero) colors
    assert_eq!(px[640 + 17], 0);
}

#[test]
fn hexadecimal_parsing_matches_from_str_radix() {
    assert_eq!(parse_hex("ff"), Some(255));
    assert_eq!(parse_hex("+1F"), Some(31));
    assert_eq!(parse_hex("FFFFFFFF"), Some(u32::MAX));
    assert_eq!(parse_hex("100000000"), None);
    assert_eq!(parse_hex(""), None);
    assert_eq!(parse_hex("+"), None);
    assert_eq!(parse_hex("-1"), None);
    assert_eq!(parse_hex("1g"), None);
    for s in ["0", "abc", "+7", "DEADBEEF", "x1", "12 "] {
        assert_eq!(parse_hex(s), u32::from_str_radix(s, 16).ok());
    }
}

#[test]
fn styled_text_picks_colors_from_markers() {
    let mut c = Console::new();
    let mut fb = console_fb();
    let font = bar_font();
    let mut style = InnerPrintStyle::new();
    c.write_styled(&mut style, "[f", &mut fb, &font);
    assert!(style.setting_text_color);
    c.write_styled(&mut style, "00FF00", &mut fb, &font);
    assert_eq!(style.text_color, Some(0x00FF00));
    assert!(!style.setting_text_color);
    c.write_styled(&mut style, "[b", &mut fb, &font);
    c.write_styled(&mut style, "zz", &mut fb, &font);
    assert_eq!(style.background_color, Some(Color::BLACK));
    c.write_styled(&mut style, "Z", &mut fb, &font);
    assert_eq!(c.cell(0, 0), ConsoleChar { character: 'Z', color: 0x00FF00, background_color: Color::BLACK });
    c.clear_inner_styling(&mut style);
    assert_eq!(style, InnerPrintStyle::new());
}
