//! Exact outlines of rounded rectangles.
//!
//! A rounded rectangle is an axis-aligned rectangle whose four corners are
//! replaced by quadratic Bézier arcs. This crate produces its outline as an
//! ordered list of vertices for a polygon filler.
//!
//! All arithmetic is exact. Input coordinates are integers on a lattice the
//! caller chooses (pixels, sub-pixels, ...). A curve sampled with `steps`
//! segments is returned on the lattice refined by `steps * steps`: every
//! vertex is an integer numerator over that common denominator, so no
//! rounding ever takes place inside the library.

pub mod curve;
pub mod error;
pub mod outline;
pub mod point;
pub mod rect;
pub mod shape;
