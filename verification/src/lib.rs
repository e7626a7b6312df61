//! A small data-parallel geometry engine over tagged two-dimensional shapes.
//!
//! Given a collection of circles and rectangles the engine computes the
//! axis-aligned bounding-box "occupation" area covering all of them, a
//! kind-filtered subset, and a structural rewrite of circles into their
//! enclosing rectangles.  Each operation runs either as a sequential left
//! fold or split across a caller-chosen number of rayon workers, and the
//! two paths are proved to produce the same result.

pub mod coordinates;
pub mod laws;
pub mod ops;
pub mod shape;
pub mod strategy;
