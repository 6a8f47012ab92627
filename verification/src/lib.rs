//! Constructors for flat single-precision point buffers and small labeled
//! geometry records: points, polylines, closed contours, point grids, markers,
//! text-anchored segments and a unit-style square.
//!
//! Scalars travel through the library as the 32-bit patterns of IEEE-754
//! single-precision values (`f32::to_bits` form), so that every buffer layout
//! and every edge-case decision is stated and checked exactly. A host that
//! works with `f32` values converts at the boundary with `f32::to_bits` and
//! `f32::from_bits`.

pub mod builders;
pub mod scalar;

pub use builders::GeomError;
pub use builders::Marker;
pub use builders::TextLine;
pub use builders::make_contour;
pub use builders::make_marker;
pub use builders::make_point;
pub use builders::make_point_matrix;
pub use builders::make_polyline;
pub use builders::make_square;
pub use builders::make_text_line;
