use rugui::emulator::DisplayEmulator;
use rugui::framebuffer::Color;

#[test]
fn default_scene() {
    let settings = DisplayEmulator::default();
    assert_eq!(settings.resolution, (160, 32));
    let fb = settings.render();
    assert_eq!(fb.get_width(), 160);
    assert_eq!(fb.get_height(), 32);
    // progress bar outline, empty inside
    assert_eq!(fb.get_pixel(15, 5), Color::Black);
    assert_eq!(fb.get_pixel(90, 15), Color::Black);
    assert_eq!(fb.get_pixel(50, 10), Color::White);
    // circle ring around (120, 16)
    assert_eq!(fb.get_pixel(124, 16), Color::Black);
    assert_eq!(fb.get_pixel(120, 16), Color::White);
    // ellipse ring around (25, 25)
    assert_eq!(fb.get_pixel(29, 25), Color::Black);
    assert_eq!(fb.get_pixel(25, 27), Color::Black);
    assert_eq!(fb.get_pixel(25, 25), Color::White);
    assert_eq!(fb.get_pixel(0, 0), Color::White);
}

#[test]
fn scene_follows_settings() {
    let mut settings = DisplayEmulator::default();
    settings.progress = 100;
    settings.radius = 4;
    settings.circle_thickness = 9;
    settings.resolution = (200, 40);
    let fb = settings.render();
    assert_eq!(fb.get_width(), 200);
    assert_eq!(fb.get_height(), 40);
    assert_eq!(fb.get_pixel(50, 10), Color::Black);
    assert_eq!(fb.get_pixel(120, 16), Color::Black);
}

#[test]
fn markers_follow_progress() {
    let mut settings = DisplayEmulator::default();
    settings.progress = 3;
    let mut fb = settings.render();
    assert_eq!(fb.get_pixel(3, 3), Color::White);
    settings.draw_markers(&mut fb);
    assert_eq!(fb.get_pixel(3, 3), Color::Black);
    assert_eq!(fb.get_pixel(3, 5), Color::Black);
    assert_eq!(fb.get_pixel(3, 4), Color::White);
}

#[test]
fn blank_display_is_white() {
    let fb = rugui::framebuffer::Framebuffer::blank(10, 9).unwrap();
    assert_eq!(fb.as_bytes().len(), 20);
    assert_eq!(fb.get_pixel(9, 8), Color::White);
}
