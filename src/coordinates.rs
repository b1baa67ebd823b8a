//! Integer vectors and axis-aligned bounding boxes.
pub mod bounding_box;
pub mod cvec;
