use rugui::coordinates::bounding_box::BBox;
use rugui::framebuffer::{Color, Framebuffer};
use rugui::geometry::circle::Circle;
use rugui::geometry::ellipse::Ellipse;
use rugui::geometry::line::{ConstructMethod, Line};
use rugui::geometry::rect::Rect;
use rugui::geometry::triangle::Triangle;
use rugui::geometry::Drawable;

fn display() -> Framebuffer {
    Framebuffer::new(40, 24, vec![0u8; 120]).unwrap()
}

fn black(fb: &Framebuffer) -> Vec<(i32, i32)> {
    let mut out = Vec::new();
    for x in 0..fb.get_width() {
        for y in 0..fb.get_height() {
            if fb.get_pixel(x, y) == Color::Black {
                out.push((x, y));
            }
        }
    }
    out
}

#[test]
fn line_across_box_climbs_by_error_term() {
    let mut fb = display();
    let method = ConstructMethod::FromBbox { bbox: BBox::new((0, 0), (4, 2)), vertical: false };
    Line::new(method, Color::Black).draw(&mut fb);
    assert_eq!(black(&fb), vec![(0, 0), (1, 0), (2, 1), (3, 1), (4, 2)]);
}

#[test]
fn line_one_column_wide_is_vertical() {
    let mut fb = display();
    let method = ConstructMethod::FromBbox { bbox: BBox::new((3, 1), (3, 4)), vertical: false };
    Line::new(method, Color::Black).draw(&mut fb);
    assert_eq!(black(&fb), vec![(3, 1), (3, 2), (3, 3), (3, 4)]);
}

#[test]
fn vertical_line_runs_down_left_edge() {
    let mut fb = display();
    Line::new_vertical(BBox::new((5, 2), (9, 4)), Color::Black).draw(&mut fb);
    assert_eq!(black(&fb), vec![(5, 2), (5, 3), (5, 4)]);
}

#[test]
fn line_by_points_includes_both_ends() {
    let mut fb = display();
    let method = ConstructMethod::ByPoints { p1: (0, 0), p2: (3, 1) };
    Line::new(method, Color::Black).draw(&mut fb);
    assert_eq!(black(&fb), vec![(0, 0), (1, 0), (2, 1), (3, 1)]);

    let mut fb = display();
    let method = ConstructMethod::ByPoints { p1: (6, 6), p2: (2, 2) };
    Line::new(method, Color::Black).draw(&mut fb);
    assert_eq!(black(&fb), vec![(2, 2), (3, 3), (4, 4), (5, 5), (6, 6)]);

    let mut fb = display();
    let method = ConstructMethod::ByPoints { p1: (7, 7), p2: (7, 7) };
    Line::new(method, Color::Black).draw(&mut fb);
    assert_eq!(black(&fb), vec![(7, 7)]);
}

#[test]
fn rect_outline_and_fill() {
    let mut fb = display();
    Rect::new(BBox::new((1, 1), (3, 3)), Color::Black).draw(&mut fb);
    assert_eq!(
        black(&fb),
        vec![(1, 1), (1, 2), (1, 3), (2, 1), (2, 3), (3, 1), (3, 2), (3, 3)]
    );
    Rect::new_filled(BBox::new((1, 1), (3, 3)), Color::Black).draw(&mut fb);
    assert_eq!(black(&fb).len(), 9);
    Rect::new_filled(BBox::new((2, 2), (2, 2)), Color::White).draw(&mut fb);
    assert_eq!(black(&fb).len(), 8);
    assert_eq!(fb.get_pixel(2, 2), Color::White);
}

#[test]
fn shapes_partly_off_screen_are_clipped() {
    let mut fb = display();
    Rect::new_filled(BBox::new((-5, -5), (1, 1)), Color::Black).draw(&mut fb);
    assert_eq!(black(&fb), vec![(0, 0), (0, 1), (1, 0), (1, 1)]);
}

#[test]
fn circle_ring_and_disc() {
    let mut fb = display();
    Circle::new((10, 10), 5, Color::Black).draw(&mut fb);
    let ring = black(&fb);
    assert_eq!(ring.len(), 24);
    assert!(ring.contains(&(14, 10)));
    assert!(ring.contains(&(6, 10)));
    assert!(!ring.contains(&(10, 10)));
    assert!(!ring.contains(&(15, 10)));

    let mut fb = display();
    Circle::new((10, 10), 5, Color::Black).filled(true).draw(&mut fb);
    assert_eq!(black(&fb).len(), 69);
    assert_eq!(fb.get_pixel(10, 10), Color::Black);
}

#[test]
fn circle_of_radius_one_is_its_centre() {
    let mut fb = display();
    Circle::new((4, 4), 1, Color::Black).filled(true).draw(&mut fb);
    assert_eq!(black(&fb), vec![(4, 4)]);
}

#[test]
fn circle_thickness_is_kept_between_one_and_radius() {
    let c = Circle::new((4, 4), 5, Color::Black);
    assert_eq!(c.thickness(9), Circle::new((4, 4), 5, Color::Black).filled(true));
    let c = Circle::new((4, 4), 5, Color::Black).filled(true);
    assert_eq!(c.thickness(0), Circle::new((4, 4), 5, Color::Black));
}

#[test]
fn ellipse_ring_and_fill() {
    let mut fb = display();
    Ellipse::new(5, 3, (20, 10), Color::Black).draw(&mut fb);
    let ring = black(&fb);
    assert_eq!(ring.len(), 20);
    assert!(ring.contains(&(24, 10)));
    assert!(ring.contains(&(20, 12)));
    assert!(!ring.contains(&(20, 10)));
    assert!(!ring.contains(&(25, 10)));

    let mut fb = display();
    Ellipse::new(5, 3, (20, 10), Color::Black).filled(true).draw(&mut fb);
    assert_eq!(black(&fb).len(), 41);
    assert_eq!(fb.get_pixel(20, 10), Color::Black);
}

#[test]
fn ellipse_thickness_is_capped() {
    let e = Ellipse::new(5, 3, (20, 10), Color::Black).thickness(7);
    assert_eq!(e, Ellipse::new(5, 3, (20, 10), Color::Black).filled(true));
    let e = Ellipse::from_bbox(BBox::new((10, 4), (20, 10)), Color::Black);
    assert_eq!(e, Ellipse::new(5, 3, (15, 7), Color::Black));
}

#[test]
fn triangle_joins_its_corners() {
    let mut fb = display();
    Triangle::new(((0, 0), (4, 0), (0, 4)), Color::Black).draw(&mut fb);
    let px = black(&fb);
    for p in [(0, 0), (2, 0), (4, 0), (0, 2), (0, 4), (2, 2), (3, 1), (1, 3)] {
        assert!(px.contains(&p));
    }
    assert_eq!(px.len(), 12);
}
