use rugui::coordinates::bounding_box::BBox;
use rugui::framebuffer::{Color, Framebuffer, Orientation};
use rugui::geometry::rect::Rect;
use rugui::geometry::Drawable;
use rugui::widgets::progress_bar::ProgressBar;
use rugui::widgets::scroller::Scroller;
use rugui::widgets::table::Table;

fn display(width: i32, height: i32) -> Framebuffer {
    let bands = (height + 7) / 8;
    Framebuffer::new(width, height, vec![0u8; (width * bands) as usize]).unwrap()
}

fn interior_colors(fb: &Framebuffer, row: i32) -> Vec<Color> {
    (1..=10).map(|x| fb.get_pixel(x, row)).collect()
}

fn bar_display(progress: u8) -> Framebuffer {
    let mut fb = display(16, 8);
    // the interior starts out black, so that the white part shows
    Rect::new_filled(BBox::new((0, 0), (11, 5)), Color::Black).draw(&mut fb);
    ProgressBar::new(BBox::new((0, 0), (11, 5)), progress, Color::Black).draw(&mut fb);
    fb
}

#[test]
fn progress_bar_at_zero_fills_nothing() {
    let fb = bar_display(0);
    for y in 1..=4 {
        assert_eq!(interior_colors(&fb, y), vec![Color::White; 10]);
    }
    assert_eq!(fb.get_pixel(0, 2), Color::Black);
    assert_eq!(fb.get_pixel(11, 2), Color::Black);
    assert_eq!(fb.get_pixel(5, 0), Color::Black);
    assert_eq!(fb.get_pixel(5, 5), Color::Black);
}

#[test]
fn progress_bar_at_hundred_fills_everything() {
    for progress in [100u8, 101, 255] {
        let mut fb = display(16, 8);
        ProgressBar::new(BBox::new((0, 0), (11, 5)), progress, Color::Black).draw(&mut fb);
        for y in 0..=5 {
            for x in 0..=11 {
                assert_eq!(fb.get_pixel(x, y), Color::Black);
            }
        }
    }
}

#[test]
fn progress_bar_at_half_splits_in_the_middle() {
    let fb = bar_display(50);
    let mut expected = vec![Color::Black; 5];
    expected.extend(vec![Color::White; 5]);
    assert_eq!(interior_colors(&fb, 1), expected);
    assert_eq!(interior_colors(&fb, 4), expected);
    let fb = bar_display(33);
    let mut expected = vec![Color::Black; 3];
    expected.extend(vec![Color::White; 7]);
    assert_eq!(interior_colors(&fb, 2), expected);
}

#[test]
fn framebuffer_progress_bar_rejects_over_hundred() {
    let mut fb = display(16, 8);
    assert!(!fb.progress_bar(BBox::new((0, 0), (11, 5)), 101, &Color::Black));
    assert!(fb.as_bytes().iter().all(|b| *b == 0));
    assert!(fb.progress_bar(BBox::new((0, 0), (11, 5)), 100, &Color::Black));
    assert_eq!(fb.get_pixel(10, 4), Color::Black);
}

#[test]
fn vertical_scroller_draws_guide_and_thumb() {
    let mut fb = display(8, 24);
    Rect::new_filled(BBox::new((0, 0), (7, 23)), Color::Black).draw(&mut fb);
    Scroller::new(BBox::new((0, 0), (6, 20)), 50, 4, Orientation::Vertical, Color::Black)
        .draw(&mut fb);
    assert_eq!(fb.get_pixel(3, 0), Color::Black);
    assert_eq!(fb.get_pixel(3, 20), Color::Black);
    assert_eq!(fb.get_pixel(0, 5), Color::White);
    assert_eq!(fb.get_pixel(1, 8), Color::White);
    assert_eq!(fb.get_pixel(4, 8), Color::Black);
    assert_eq!(fb.get_pixel(6, 10), Color::Black);
    assert_eq!(fb.get_pixel(5, 12), Color::Black);
    assert_eq!(fb.get_pixel(5, 10), Color::White);
    assert_eq!(fb.get_pixel(5, 7), Color::White);
    assert_eq!(fb.get_pixel(7, 10), Color::Black);
}

#[test]
fn scroller_position_is_clamped() {
    let mut fb = display(8, 24);
    assert!(fb.scroller(BBox::new((0, 0), (6, 20)), 250, 4, Orientation::Vertical, &Color::Black));
    // the thumb sits at the bottom of the track
    assert_eq!(fb.get_pixel(5, 16), Color::Black);
    assert_eq!(fb.get_pixel(5, 20), Color::Black);
    assert_eq!(fb.get_pixel(5, 15), Color::White);
    let mut fb = display(8, 24);
    Scroller::new(BBox::new((0, 0), (6, 20)), -30, 4, Orientation::Vertical, Color::Black)
        .draw(&mut fb);
    assert_eq!(fb.get_pixel(5, 0), Color::Black);
    assert_eq!(fb.get_pixel(5, 4), Color::Black);
    assert_eq!(fb.get_pixel(5, 5), Color::White);
}

#[test]
fn horizontal_scroller_draws_nothing() {
    let mut fb = display(8, 24);
    Scroller::new(BBox::new((0, 0), (6, 20)), 50, 4, Orientation::Horizontal, Color::Black)
        .draw(&mut fb);
    assert!(fb.as_bytes().iter().all(|b| *b == 0));
}

#[test]
fn table_steps_are_rounded_down_extents() {
    let mut fb = display(160, 32);
    Table::new(BBox::new((0, 0), (150, 30)), 3, 3, Color::Black).draw(&mut fb);
    for x in [0, 50, 100, 150] {
        for y in 0..=30 {
            assert_eq!(fb.get_pixel(x, y), Color::Black);
        }
    }
    for y in [0, 10, 20, 30] {
        for x in 0..=150 {
            assert_eq!(fb.get_pixel(x, y), Color::Black);
        }
    }
    assert_eq!(fb.get_pixel(25, 5), Color::White);
    assert_eq!(fb.get_pixel(151, 30), Color::White);
    assert_eq!(fb.get_pixel(150, 31), Color::White);
    let mut count = 0;
    for x in 0..160 {
        for y in 0..32 {
            if fb.get_pixel(x, y) == Color::Black {
                count += 1;
            }
        }
    }
    assert_eq!(count, 4 * 31 + 4 * 151 - 16);
}

#[test]
fn table_divider_count_follows_truncation() {
    let mut fb = display(120, 24);
    assert!(fb.table(&BBox::new((0, 0), (100, 20)), 1, 3, &Color::Black));
    // 100 / 3 = 33: dividers at 0, 33, 66 and 99
    for x in [0, 33, 66, 99] {
        assert_eq!(fb.get_pixel(x, 10), Color::Black);
    }
    assert_eq!(fb.get_pixel(100, 10), Color::White);
    assert_eq!(fb.get_pixel(34, 10), Color::White);
    // a single row: lines at the top and the bottom edge
    assert_eq!(fb.get_pixel(50, 0), Color::Black);
    assert_eq!(fb.get_pixel(50, 20), Color::Black);
}

#[test]
fn table_with_no_columns_counts_one() {
    let mut fb = display(20, 8);
    Table::new(BBox::new((2, 1), (12, 6)), 1, 0, Color::Black).draw(&mut fb);
    assert_eq!(fb.get_pixel(2, 3), Color::Black);
    assert_eq!(fb.get_pixel(12, 3), Color::Black);
    assert_eq!(fb.get_pixel(7, 3), Color::White);
}
