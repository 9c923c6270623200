use vstd::prelude::*;
use crate::decision::{step_for, step_spec, Measure, Step, RECURSION_LIMIT};

verus! {

/// The four control points of one cubic Bézier segment.
#[derive(Clone, Copy, Debug)]
pub struct Quad<P> {
    pub p1: P,
    pub p2: P,
    pub p3: P,
    pub p4: P,
}

/// A quad split at its middle parameter by de Casteljau's construction:
/// `left.p4` (equal to `right.p1`) is the curve point at the middle.
#[derive(Clone, Copy, Debug)]
pub struct Halves<P> {
    pub left: Quad<P>,
    pub right: Quad<P>,
}

/// The geometry handed to the flattener: `measure` reports on a quad against
/// the tolerance, `halve` splits it. Both accept every quad and each gives
/// one result per quad.
pub open spec fn geometry_ok<P, M: Fn(Quad<P>) -> Measure, H: Fn(Quad<P>) -> Halves<P>>(
    measure: M,
    halve: H,
) -> bool {
    &&& forall|q: Quad<P>| measure.requires((q,))
    &&& forall|q: Quad<P>| halve.requires((q,))
    &&& forall|q: Quad<P>, a: Measure, b: Measure|
        measure.ensures((q,), a) && measure.ensures((q,), b) ==> a == b
    &&& forall|q: Quad<P>, a: Halves<P>, b: Halves<P>|
        halve.ensures((q,), a) && halve.ensures((q,), b) ==> a == b
}

/// The measure that `measure` gives for `q`.
pub open spec fn measure_at<P, M: Fn(Quad<P>) -> Measure>(measure: M, q: Quad<P>) -> Measure {
    choose|m: Measure| measure.ensures((q,), m)
}

/// The halves that `halve` gives for `q`.
pub open spec fn halves_at<P, H: Fn(Quad<P>) -> Halves<P>>(halve: H, q: Quad<P>) -> Halves<P> {
    choose|h: Halves<P>| halve.ensures((q,), h)
}

/// Number of levels left above and including the recursion limit.
pub open spec fn levels_left(level: u32) -> nat {
    if level > RECURSION_LIMIT {
        0
    } else {
        (RECURSION_LIMIT + 1 - level) as nat
    }
}

/// The points that subdividing `q` at `level` appends, in order.
pub open spec fn emitted<P, M: Fn(Quad<P>) -> Measure, H: Fn(Quad<P>) -> Halves<P>>(
    measure: M,
    halve: H,
    q: Quad<P>,
    level: u32,
) -> Seq<P>
    decreases levels_left(level),
{
    if level > RECURSION_LIMIT {
        seq![]
    } else {
        let h = halves_at(halve, q);
        match step_spec(level, measure_at(measure, q)) {
            Step::Split => emitted(measure, halve, h.left, (level + 1) as u32) + emitted(
                measure,
                halve,
                h.right,
                (level + 1) as u32,
            ),
            Step::EmitMid => seq![h.left.p4],
            Step::EmitP2 => seq![q.p2],
            Step::EmitP2P3 => seq![q.p2, q.p3],
            Step::Cutoff => seq![],
        }
    }
}

/// The polyline for the curve `start, c1, c2, end`: its start, the points
/// that subdivision emits, its end.
pub open spec fn flattened<P, M: Fn(Quad<P>) -> Measure, H: Fn(Quad<P>) -> Halves<P>>(
    start: P,
    c1: P,
    c2: P,
    end: P,
    measure: M,
    halve: H,
) -> Seq<P> {
    seq![start] + emitted(measure, halve, Quad { p1: start, p2: c1, p3: c2, p4: end }, 0)
        + seq![end]
}

/// Appends to `points` what the segment `q` met at `level` contributes: nothing
/// below the recursion limit; the points of a flat enough segment; or else the
/// contributions of its two halves, left before right.
pub fn adaptive_bezier_curve_impl<P: Copy, M: Fn(Quad<P>) -> Measure, H: Fn(Quad<P>) -> Halves<P>>(
    q: Quad<P>,
    points: &mut Vec<P>,
    measure: &M,
    halve: &H,
    level: u32,
)
    requires
        geometry_ok(*measure, *halve),
    ensures
        final(points)@ == old(points)@ + emitted(*measure, *halve, q, level),
    decreases levels_left(level),
{
    if level > RECURSION_LIMIT {
        assert(old(points)@ + seq![] =~= old(points)@);
        return ;
    }
    let h = halve(q);
    let m = measure(q);
    assert(halves_at(*halve, q) == h);
    assert(measure_at(*measure, q) == m);
    match step_for(level, &m) {
        Step::Split => {
            let ghost before = points@;
            adaptive_bezier_curve_impl(h.left, points, measure, halve, level + 1);
            adaptive_bezier_curve_impl(h.right, points, measure, halve, level + 1);
            assert(points@ =~= before + emitted(*measure, *halve, q, level));
        },
        Step::EmitMid => {
            points.push(h.left.p4);
        },
        Step::EmitP2 => {
            points.push(q.p2);
        },
        Step::EmitP2P3 => {
            let ghost before = points@;
            points.push(q.p2);
            points.push(q.p3);
            assert(points@ =~= before + emitted(*measure, *halve, q, level));
        },
        Step::Cutoff => {
            assert(points@ =~= old(points)@ + emitted(*measure, *halve, q, level));
        },
    }
}

/// Flattens the cubic Bézier curve `start, c1, c2, end` into a polyline that
/// begins with `start` exactly, ends with `end` exactly, and holds in between
/// the points that adaptive subdivision emits, in curve order.
pub fn adaptive_bezier_curve<P: Copy, M: Fn(Quad<P>) -> Measure, H: Fn(Quad<P>) -> Halves<P>>(
    start: P,
    c1: P,
    c2: P,
    end: P,
    measure: &M,
    halve: &H,
) -> (r: Vec<P>)
    requires
        geometry_ok(*measure, *halve),
    ensures
        r@ == flattened(start, c1, c2, end, *measure, *halve),
        r@.len() >= 2,
        r@[0] == start,
        r@.last() == end,
{
    let mut sample_points: Vec<P> = Vec::new();
    sample_points.push(start);
    adaptive_bezier_curve_impl(
        Quad { p1: start, p2: c1, p3: c2, p4: end },
        &mut sample_points,
        measure,
        halve,
        0,
    );
    sample_points.push(end);
    assert(sample_points@ =~= flattened(start, c1, c2, end, *measure, *halve));
    sample_points
}

} // verus!
