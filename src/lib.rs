//! Adaptive flattening of cubic Bézier curves into polylines.
//!
//! The flattener decides, segment by segment, whether a piece of the curve is
//! flat enough to stand as emitted points or must be split in two by de
//! Casteljau's construction. It is generic over the point type: the caller
//! hands it the geometry (`measure` and `halve`), and the flattener owns the
//! recursion, its depth limit, the choice of what to emit and its order.
pub mod decision;
pub mod flatten;
pub mod laws;

pub use decision::{is_flat, shape_of, step_for, Measure, Shape, Step, RECURSION_LIMIT};
pub use flatten::{adaptive_bezier_curve, adaptive_bezier_curve_impl, Halves, Quad};
