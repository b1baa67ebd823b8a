use rugui::coordinates::bounding_box::{Axis, BBox};
use rugui::coordinates::cvec::{CVec, Vector2};

#[test]
fn split_along_x() {
    let bbox = BBox::new((0, 0), (10, 10));
    let (left, right) = bbox.split(Axis::X, 5);
    assert_eq!(left, BBox::new((0, 0), (4, 10)));
    assert_eq!(right, BBox::new((5, 0), (10, 10)));
}

#[test]
fn split_along_y() {
    let bbox = BBox::new((2, 3), (8, 9));
    let (top, bottom) = bbox.split(Axis::Y, 6);
    assert_eq!(top, BBox::new((2, 3), (8, 5)));
    assert_eq!(bottom, BBox::new((2, 6), (8, 9)));
}

#[test]
fn transform_moves_ends_apart_by_delta() {
    let bbox = BBox::new((10, 20), (30, 40));
    assert_eq!(bbox.transform(Axis::X, 2), BBox::new((8, 20), (32, 40)));
    assert_eq!(bbox.transform(Axis::Y, -3), BBox::new((10, 23), (30, 37)));
    assert_eq!(bbox.transform_both(-1), BBox::new((11, 21), (29, 39)));
    assert_eq!(bbox.transform_both(5), BBox::new((5, 15), (35, 45)));
}

#[test]
fn from_relative_and_sizes() {
    let bbox = BBox::from_relative((3, 4), (10, 5));
    assert_eq!(bbox, BBox::new((3, 4), (13, 9)));
    assert_eq!(bbox.width(), 10);
    assert_eq!(bbox.height(), 5);
    assert_eq!(BBox::new((7, 7), (7, 7)).width(), 0);
}

#[test]
fn iterator_yields_coordinates_in_order() {
    let bbox = BBox::new((5, 10), (8, 12));
    let mut xs = bbox.iter_x();
    assert_eq!(xs.next(), Some(5));
    assert_eq!(xs.next(), Some(6));
    assert_eq!(xs.next(), Some(7));
    assert_eq!(xs.next(), Some(8));
    assert_eq!(xs.next(), None);
    assert_eq!(xs.next(), None);
    let mut ys = bbox.iter_y();
    assert_eq!(ys.next(), Some(10));
    assert_eq!(ys.count(), 2);
}

#[test]
fn inverted_box_iterates_nothing() {
    let bbox = BBox::new((5, 10), (4, 9));
    assert_eq!(bbox.iter_x().count(), 0);
    assert_eq!(bbox.iter_y().next(), None);
}

#[test]
fn iterator_reaches_largest_coordinate() {
    let bbox = BBox::new((i32::MAX - 1, 0), (i32::MAX, 0));
    let mut xs = bbox.iter_x();
    assert_eq!(xs.next(), Some(i32::MAX - 1));
    assert_eq!(xs.next(), Some(i32::MAX));
    assert_eq!(xs.next(), None);
}

#[test]
fn tuple_vector_scaling() {
    let v: (i32, i32) = (3, -7);
    assert_eq!(v.scale(4), (12, -28));
    assert_eq!(v.scale(-2), (-6, 14));
    assert_eq!(v.div(2), (1, -3));
    assert_eq!(v.div(-2), (-1, 3));
}

#[test]
fn cvec_scaling() {
    let v = CVec::new(9, -7);
    assert_eq!(v.scale(3), CVec::new(27, -21));
    assert_eq!(v.scale(-2), CVec::new(-4, 3));
    assert_eq!(CVec::from((1, 2)), CVec::new(1, 2));
}
