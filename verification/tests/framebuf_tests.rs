use grandma_launcher::framebuf::{device_mode_ok, glyph_in_range, Color, Framebuffer};

#[test]
fn test_dim_rect() {
    let mut fb = Framebuffer::mock(100, 100);
    fb.fill_rect(0, 0, 100, 100, Color::white());
    fb.dim_rect(0, 0, 100, 100, 128);
    let offset = (50 * 100 + 50) * 4;
    assert!(fb.buffer[offset + 2] < 200); // R channel is dimmed
    assert!(fb.buffer[offset + 2] > 100); // But not black
}

#[test]
fn test_mock_framebuffer() {
    let mut fb = Framebuffer::mock(320, 240);
    fb.clear(Color::black());
    fb.set_pixel(10, 10, Color::white());
    assert_eq!(fb.width(), 320);
    assert_eq!(fb.height(), 240);
}

#[test]
fn test_fill_rect() {
    let mut fb = Framebuffer::mock(100, 100);
    fb.fill_rect(10, 10, 50, 50, Color::white());
    let offset = (20 * 100 + 20) * 4;
    assert_eq!(fb.buffer[offset + 2], 255); // R
}

fn pixel(fb: &Framebuffer, x: usize, y: usize, w: usize) -> [u8; 4] {
    let o = (y * w + x) * 4;
    [fb.buffer[o], fb.buffer[o + 1], fb.buffer[o + 2], fb.buffer[o + 3]]
}

#[test]
fn set_pixel_writes_bgra() {
    let mut fb = Framebuffer::mock(4, 3);
    fb.set_pixel(2, 1, Color { r: 1, g: 2, b: 3, a: 4 });
    assert_eq!(pixel(&fb, 2, 1, 4), [3, 2, 1, 4]);
    assert_eq!(fb.buffer.iter().filter(|b| **b != 0).count(), 4);
}

#[test]
fn set_pixel_offscreen_changes_nothing() {
    let mut fb = Framebuffer::mock(4, 3);
    fb.set_pixel(4, 0, Color::white());
    fb.set_pixel(0, 3, Color::white());
    assert!(fb.buffer.iter().all(|b| *b == 0));
}

#[test]
fn mock_geometry_and_zeroed() {
    let fb = Framebuffer::mock(7, 5);
    assert_eq!(fb.buffer.len(), 7 * 5 * 4);
    assert!(fb.buffer.iter().all(|b| *b == 0));
    let empty = Framebuffer::mock(0, 10);
    assert_eq!(empty.buffer.len(), 0);
}

#[test]
fn fill_rect_clips_to_screen() {
    let mut fb = Framebuffer::mock(10, 10);
    fb.fill_rect(8, 8, u32::MAX, u32::MAX, Color { r: 9, g: 8, b: 7, a: 6 });
    assert_eq!(pixel(&fb, 9, 9, 10), [7, 8, 9, 6]);
    assert_eq!(pixel(&fb, 8, 8, 10), [7, 8, 9, 6]);
    assert_eq!(pixel(&fb, 7, 9, 10), [0, 0, 0, 0]);
    assert_eq!(fb.buffer.iter().filter(|b| **b != 0).count(), 4 * 4);
}

#[test]
fn dim_rect_keeps_alpha_and_scales() {
    let mut fb = Framebuffer::mock(2, 1);
    fb.fill_rect(0, 0, 2, 1, Color { r: 200, g: 100, b: 255, a: 77 });
    fb.dim_rect(1, 0, 1, 1, 80);
    // factor 175: 255*175/255 = 175, 100*175/255 = 68, 200*175/255 = 137
    assert_eq!(pixel(&fb, 1, 0, 2), [175, 68, 137, 77]);
    assert_eq!(pixel(&fb, 0, 0, 2), [255, 100, 200, 77]);
}

#[test]
fn dim_by_zero_keeps_everything() {
    let mut fb = Framebuffer::mock(3, 3);
    fb.fill_rect(0, 0, 3, 3, Color { r: 13, g: 200, b: 99, a: 1 });
    let before = fb.buffer.clone();
    fb.dim_rect(0, 0, 3, 3, 0);
    assert_eq!(fb.buffer, before);
}

#[test]
fn draw_rect_draws_border_only() {
    let mut fb = Framebuffer::mock(6, 6);
    fb.draw_rect(0, 0, 6, 6, 1, Color::white());
    for y in 0..6 {
        for x in 0..6 {
            let border = x == 0 || y == 0 || x == 5 || y == 5;
            let expect = if border { [255, 255, 255, 255] } else { [0, 0, 0, 0] };
            assert_eq!(pixel(&fb, x, y, 6), expect, "pixel {},{}", x, y);
        }
    }
}

#[test]
fn blit_skips_transparent_and_short_sources() {
    let mut fb = Framebuffer::mock(4, 4);
    // 2x2 image: opaque red, transparent, opaque blue; the fourth pixel is missing.
    let rgba = [255, 0, 0, 255, 0, 255, 0, 0, 0, 0, 255, 200];
    fb.blit_rgba(1, 1, 2, 2, &rgba);
    assert_eq!(pixel(&fb, 1, 1, 4), [0, 0, 255, 255]);
    assert_eq!(pixel(&fb, 2, 1, 4), [0, 0, 0, 0]);
    assert_eq!(pixel(&fb, 1, 2, 4), [255, 0, 0, 200]);
    assert_eq!(pixel(&fb, 2, 2, 4), [0, 0, 0, 0]);
}

#[test]
fn blit_clips_at_the_edge() {
    let mut fb = Framebuffer::mock(2, 2);
    let rgba = [10u8, 20, 30, 40].repeat(9);
    fb.blit_rgba(1, 1, 3, 3, &rgba);
    assert_eq!(pixel(&fb, 1, 1, 2), [30, 20, 10, 40]);
    assert_eq!(pixel(&fb, 0, 0, 2), [0, 0, 0, 0]);
}

#[test]
fn padded_rows_keep_their_padding() {
    let mut fb = Framebuffer::with_geometry(2, 2, 12);
    fb.clear(Color::white());
    assert_eq!(fb.buffer.len(), 24);
    assert_eq!(&fb.buffer[0..8], &[255u8; 8]);
    assert_eq!(&fb.buffer[8..12], &[0u8; 4]);
    assert_eq!(&fb.buffer[12..20], &[255u8; 8]);
    assert_eq!(&fb.buffer[20..24], &[0u8; 4]);
}

#[test]
fn device_mode_checks() {
    assert!(device_mode_ok(1920, 1080, 32, 7680, 8294400));
    assert!(!device_mode_ok(1920, 1080, 32, 7680, 0));
    assert!(!device_mode_ok(1920, 1080, 16, 7680, 8294400));
    assert!(!device_mode_ok(1920, 1080, 32, 7000, 8294400));
    assert!(!device_mode_ok(100000, 100000, 32, 400000, 1));
}

#[test]
fn fill_twice_is_fill_once() {
    let mut once = Framebuffer::mock(8, 8);
    once.fill_rect(2, 3, 4, 9, Color::highlight());
    let mut twice = Framebuffer::mock(8, 8);
    twice.fill_rect(2, 3, 4, 9, Color::highlight());
    twice.fill_rect(2, 3, 4, 9, Color::highlight());
    assert_eq!(once.buffer, twice.buffer);
}

#[test]
fn dimming_never_brightens() {
    let mut fb = Framebuffer::mock(4, 4);
    fb.fill_rect(0, 0, 4, 4, Color { r: 200, g: 100, b: 7, a: 255 });
    let before = fb.buffer.clone();
    fb.dim_rect(1, 1, 2, 2, 200);
    assert!(fb.buffer.iter().zip(before.iter()).all(|(a, b)| a <= b));
    assert_eq!(&fb.buffer[0..4], &before[0..4]);
}

#[test]
fn plot_glyph_sets_covered_pixels_only() {
    let mut fb = Framebuffer::mock(6, 4);
    // A 3 x 2 glyph: coverage above 128 is drawn, 128 itself is not.
    let bitmap = [255, 128, 129, 0, 200, 10];
    fb.plot_glyph(1, 1, 1, 0, 3, 2, &bitmap, Color::white());
    let drawn: Vec<(usize, usize)> = (0..4)
        .flat_map(|y| (0..6).map(move |x| (x, y)))
        .filter(|&(x, y)| fb.buffer[(y * 6 + x) * 4] == 255)
        .collect();
    assert_eq!(drawn, vec![(2, 1), (4, 1), (3, 2)]);
    assert_eq!(fb.contents(), &fb.buffer);
}

#[test]
fn glyph_range_check() {
    assert!(glyph_in_range(10, 10, 2, 3, 2, 1, &[255, 255]));
    assert!(!glyph_in_range(u32::MAX - 1, 0, 1, 0, 2, 1, &[0, 255]));
    assert!(glyph_in_range(u32::MAX - 1, 0, 1, 0, 2, 1, &[255, 0]));
    assert!(!glyph_in_range(0, u32::MAX, 0, 1, 1, 1, &[200]));
}
