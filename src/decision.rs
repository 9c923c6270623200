use vstd::prelude::*;

verus! {

/// Deepest subdivision level at which a segment is still examined; segments
/// below it are dropped without emitting anything.
pub const RECURSION_LIMIT: u32 = 8;

/// What the geometry reports about one control quad `(p1, p2, p3, p4)`,
/// against the distance tolerance of the current flattening.
///
/// With `d = p4 - p1`, `d2 = |perp(p2 - p4, d)|` and `d3 = |perp(p3 - p4, d)|`:
#[derive(Clone, Copy, Debug)]
pub struct Measure {
    /// `d2` is above the numerical noise floor.
    pub d2_significant: bool,
    /// `d3` is above the numerical noise floor.
    pub d3_significant: bool,
    /// `(d2 + d3)^2 <= tolerance * |d|^2`.
    pub general_flat: bool,
    /// `d2^2 <= tolerance * |d|^2`.
    pub p2_flat: bool,
    /// `d3^2 <= tolerance * |d|^2`.
    pub p3_flat: bool,
    /// `|p1234 - (p1 + p4) / 2|^2 < tolerance`, with `p1234` the curve point
    /// at the middle of the segment.
    pub collinear_flat: bool,
}

/// How the inner control points of a quad sit against its chord `p1 -> p4`.
#[derive(Clone, Copy, Debug, PartialEq, Eq, Structural)]
pub enum Shape {
    /// Both inner control points are off the chord.
    General,
    /// Only `p2` is off the chord (`p1`, `p3`, `p4` are collinear).
    OnlyP2,
    /// Only `p3` is off the chord (`p1`, `p2`, `p4` are collinear).
    OnlyP3,
    /// All four control points are collinear, or the chord is empty.
    Collinear,
}

/// What to do with one control quad.
#[derive(Clone, Copy, Debug, PartialEq, Eq, Structural)]
pub enum Step {
    /// The quad lies below the recursion limit: emit nothing.
    Cutoff,
    /// Split at the middle and treat both halves, left first.
    Split,
    /// Emit the curve point at the middle of the segment.
    EmitMid,
    /// Emit the control point `p2`.
    EmitP2,
    /// Emit the control points `p2` then `p3`. The two one-sided cases are not
    /// mirror images of each other (`EmitP2` emits one point); the asymmetry is
    /// kept as the algorithm has it, though it may be an inconsistency there.
    EmitP2P3,
}

pub open spec fn shape_spec(m: Measure) -> Shape {
    if m.d2_significant && m.d3_significant {
        Shape::General
    } else if m.d2_significant {
        Shape::OnlyP2
    } else if m.d3_significant {
        Shape::OnlyP3
    } else {
        Shape::Collinear
    }
}

/// Whether the flatness test that belongs to the quad's shape passes.
pub open spec fn flat_spec(m: Measure) -> bool {
    match shape_spec(m) {
        Shape::General => m.general_flat,
        Shape::OnlyP2 => m.p2_flat,
        Shape::OnlyP3 => m.p3_flat,
        Shape::Collinear => m.collinear_flat,
    }
}

pub open spec fn step_spec(level: u32, m: Measure) -> Step {
    if level > RECURSION_LIMIT {
        Step::Cutoff
    } else if level == 0 || !flat_spec(m) {
        Step::Split
    } else {
        match shape_spec(m) {
            Shape::OnlyP2 => Step::EmitP2,
            Shape::OnlyP3 => Step::EmitP2P3,
            _ => Step::EmitMid,
        }
    }
}

/// Classifies a quad by which of its inner control points are off the chord.
pub fn shape_of(m: &Measure) -> (r: Shape)
    ensures
        r == shape_spec(*m),
{
    if m.d2_significant && m.d3_significant {
        Shape::General
    } else if m.d2_significant {
        Shape::OnlyP2
    } else if m.d3_significant {
        Shape::OnlyP3
    } else {
        Shape::Collinear
    }
}

/// Whether the quad may be replaced by what its shape emits.
pub fn is_flat(m: &Measure) -> (r: bool)
    ensures
        r == flat_spec(*m),
{
    match shape_of(m) {
        Shape::General => m.general_flat,
        Shape::OnlyP2 => m.p2_flat,
        Shape::OnlyP3 => m.p3_flat,
        Shape::Collinear => m.collinear_flat,
    }
}

/// Decides what to do with a quad met at `level`: nothing below the recursion
/// limit, a split at the top level or where the flatness test fails, and
/// otherwise the points that the quad's shape emits.
pub fn step_for(level: u32, m: &Measure) -> (r: Step)
    ensures
        r == step_spec(level, *m),
{
    if level > RECURSION_LIMIT {
        Step::Cutoff
    } else if level == 0 || !is_flat(m) {
        Step::Split
    } else {
        match shape_of(m) {
            Shape::OnlyP2 => Step::EmitP2,
            Shape::OnlyP3 => Step::EmitP2P3,
            _ => Step::EmitMid,
        }
    }
}

} // verus!
