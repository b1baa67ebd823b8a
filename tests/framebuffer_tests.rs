use rugui::framebuffer::{Color, Framebuffer, PixelDraw};

fn display(width: i32, height: i32) -> Framebuffer {
    let bands = (height + 7) / 8;
    Framebuffer::new(width, height, vec![0u8; (width * bands) as usize]).unwrap()
}

#[test]
fn draw_then_get_returns_drawn_color() {
    let mut fb = display(16, 20);
    for &(x, y) in &[(0, 0), (15, 19), (7, 8), (3, 17), (15, 0), (0, 19)] {
        assert!(fb.draw_pixel(x, y, &Color::Black));
        assert_eq!(fb.get_pixel(x, y), Color::Black);
        assert!(fb.draw_pixel(x, y, &Color::White));
        assert_eq!(fb.get_pixel(x, y), Color::White);
    }
}

#[test]
fn draw_leaves_other_pixels() {
    let mut fb = display(8, 16);
    fb.draw_pixel(2, 3, &Color::Black);
    fb.draw_pixel(2, 4, &Color::Black);
    fb.draw_pixel(2, 3, &Color::White);
    assert_eq!(fb.get_pixel(2, 3), Color::White);
    assert_eq!(fb.get_pixel(2, 4), Color::Black);
    assert_eq!(fb.get_pixel(3, 3), Color::White);
    assert_eq!(fb.get_pixel(2, 11), Color::White);
}

#[test]
fn out_of_bounds_draw_is_clipped() {
    let mut fb = display(10, 8);
    fb.draw_pixel(1, 1, &Color::Black);
    let before = fb.as_bytes().to_vec();
    for &(x, y) in &[(10, 0), (0, 8), (10, 8), (100, 3), (-1, 0), (0, -1), (i32::MAX, i32::MAX), (i32::MIN, 2)] {
        assert!(!fb.draw_pixel(x, y, &Color::Black));
        assert!(!fb.draw_pixel(x, y, &Color::White));
    }
    assert_eq!(fb.as_bytes(), &before[..]);
}

#[test]
fn byte_layout_groups_eight_rows() {
    let mut fb = display(4, 16);
    fb.draw_pixel(1, 0, &Color::Black);
    fb.draw_pixel(1, 7, &Color::Black);
    fb.draw_pixel(2, 9, &Color::Black);
    let bytes = fb.into_bytes();
    assert_eq!(bytes, vec![0, 0b1000_0001, 0, 0, 0, 0, 0b0000_0010, 0]);
}

#[test]
fn new_checks_capacity() {
    // 16 x 16 needs 32 bytes
    assert!(Framebuffer::new(16, 16, vec![0u8; 31]).is_none());
    assert!(Framebuffer::new(16, 16, vec![0u8; 32]).is_some());
    assert!(Framebuffer::new(16, 16, vec![0u8; 40]).is_some());
    // a partial last band still takes a byte per column
    assert!(Framebuffer::new(3, 4, vec![0u8; 2]).is_none());
    assert!(Framebuffer::new(3, 4, vec![0u8; 3]).is_some());
    assert!(Framebuffer::new(0, 5, Vec::new()).is_some());
    let fb = Framebuffer::new(160, 32, vec![0u8; 640]).unwrap();
    assert_eq!(fb.get_width(), 160);
    assert_eq!(fb.get_height(), 32);
    assert_eq!(fb.get_row_height(), 8);
}

#[test]
fn custom_row_height() {
    assert!(Framebuffer::with_row_height(4, 8, 4, vec![0u8; 7]).is_none());
    let mut fb = Framebuffer::with_row_height(4, 8, 4, vec![0u8; 8]).unwrap();
    fb.draw_pixel(1, 5, &Color::Black);
    assert_eq!(fb.get_pixel(1, 5), Color::Black);
    assert_eq!(fb.as_bytes()[5], 0b0000_0010);
}

#[test]
fn new_keeps_initial_bytes() {
    let fb = Framebuffer::new(2, 8, vec![0b0000_0100, 0]).unwrap();
    assert_eq!(fb.get_pixel(0, 2), Color::Black);
    assert_eq!(fb.get_pixel(0, 3), Color::White);
    assert_eq!(fb.get_pixel(1, 2), Color::White);
}
