//! Rasterization for monochrome, bit-packed framebuffers: a bounding-box
//! algebra, a packed pixel store, geometric primitives and small widgets.
//!
//! Conventions that hold throughout:
//! - a sink's pixels are modelled as a map from positions to colours; every shape
//!   states what it makes of that map, and positions off the sink are left alone;
//! - a bounding box whose start lies past its end on an axis holds nothing on that
//!   axis, so iterating it or drawing over it does nothing there;
//! - `BBox::transform` moves `start` back and `end` forward by `delta`, so a negative
//!   `delta` shrinks the box, which is how a progress bar steps inside its border;
//! - out-of-range widget parameters are clamped, never rejected.

pub mod coordinates;
pub mod emulator;
pub mod framebuffer;
pub mod geometry;
pub mod widgets;
