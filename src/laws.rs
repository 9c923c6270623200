use vstd::prelude::*;
use vstd::arithmetic::power2::{lemma2_to64, pow2};
use crate::decision::{step_spec, Measure, Step, RECURSION_LIMIT};
use crate::flatten::{emitted, flattened, geometry_ok, halves_at, levels_left, measure_at, Halves, Quad};

verus! {

/// Most points that a segment met at `level` can emit: one doubling per level
/// left, from the two points of a single segment at the recursion limit.
pub open spec fn emission_cap(level: u32) -> nat
    decreases levels_left(level),
{
    if level > RECURSION_LIMIT {
        1
    } else {
        2 * emission_cap((level + 1) as u32)
    }
}

/// Length of the parameter interval of a segment met at `level`, on an integer
/// grid over which the whole curve spans `span(0)`; every width met is a
/// multiple of six, so halves, thirds and two thirds fall on the grid.
pub open spec fn span(level: u32) -> int {
    3 * emission_cap(level) as int
}

/// The curve parameters, on the grid of `span`, of the points that a segment
/// met at `level` and starting at parameter `lo` emits: the middle for the
/// curve point there, one third for `p2` and two thirds for `p3`.
pub open spec fn positions<P, M: Fn(Quad<P>) -> Measure, H: Fn(Quad<P>) -> Halves<P>>(
    measure: M,
    halve: H,
    q: Quad<P>,
    level: u32,
    lo: int,
) -> Seq<int>
    decreases levels_left(level),
{
    if level > RECURSION_LIMIT {
        seq![]
    } else {
        let h = halves_at(halve, q);
        let w = span(level);
        match step_spec(level, measure_at(measure, q)) {
            Step::Split => positions(measure, halve, h.left, (level + 1) as u32, lo) + positions(
                measure,
                halve,
                h.right,
                (level + 1) as u32,
                lo + w / 2,
            ),
            Step::EmitMid => seq![lo + w / 2],
            Step::EmitP2 => seq![lo + w / 3],
            Step::EmitP2P3 => seq![lo + w / 3, lo + (2 * w) / 3],
            Step::Cutoff => seq![],
        }
    }
}

/// The curve parameters of the points of `flattened`, from `0` for `start` to
/// `span(0)` for `end`.
pub open spec fn sample_parameters<P, M: Fn(Quad<P>) -> Measure, H: Fn(Quad<P>) -> Halves<P>>(
    start: P,
    c1: P,
    c2: P,
    end: P,
    measure: M,
    halve: H,
) -> Seq<int> {
    seq![0int] + positions(measure, halve, Quad { p1: start, p2: c1, p3: c2, p4: end }, 0, 0)
        + seq![span(0)]
}

pub open spec fn strictly_increasing(s: Seq<int>) -> bool {
    forall|i: int, j: int| 0 <= i < j < s.len() ==> s[i] < s[j]
}

proof fn lemma_emission_cap(level: u32)
    ensures
        emission_cap(level) >= 1,
        level <= RECURSION_LIMIT ==> emission_cap(level) >= 2,
        level <= RECURSION_LIMIT ==> emission_cap(level) == 2 * emission_cap((level + 1) as u32),
    decreases levels_left(level),
{
    if level <= RECURSION_LIMIT {
        lemma_emission_cap((level + 1) as u32);
    }
}

proof fn lemma_emitted_count<P, M: Fn(Quad<P>) -> Measure, H: Fn(Quad<P>) -> Halves<P>>(
    measure: M,
    halve: H,
    q: Quad<P>,
    level: u32,
)
    ensures
        emitted(measure, halve, q, level).len() <= emission_cap(level),
    decreases levels_left(level),
{
    lemma_emission_cap(level);
    if level <= RECURSION_LIMIT {
        let h = halves_at(halve, q);
        lemma_emitted_count(measure, halve, h.left, (level + 1) as u32);
        lemma_emitted_count(measure, halve, h.right, (level + 1) as u32);
    }
}

proof fn lemma_positions_ordered<P, M: Fn(Quad<P>) -> Measure, H: Fn(Quad<P>) -> Halves<P>>(
    measure: M,
    halve: H,
    q: Quad<P>,
    level: u32,
    lo: int,
)
    ensures
        positions(measure, halve, q, level, lo).len() == emitted(measure, halve, q, level).len(),
        strictly_increasing(positions(measure, halve, q, level, lo)),
        forall|i: int|
            0 <= i < positions(measure, halve, q, level, lo).len() ==> lo < #[trigger] positions(
                measure,
                halve,
                q,
                level,
                lo,
            )[i] < lo + span(level),
    decreases levels_left(level),
{
    lemma_emission_cap(level);
    if level <= RECURSION_LIMIT {
        let h = halves_at(halve, q);
        let w = span(level);
        let next = (level + 1) as u32;
        lemma_emission_cap(next);
        assert(w == 2 * span(next));
        assert(w / 2 == span(next));
        lemma_positions_ordered(measure, halve, h.left, next, lo);
        lemma_positions_ordered(measure, halve, h.right, next, lo + w / 2);
        let a = positions(measure, halve, h.left, next, lo);
        let b = positions(measure, halve, h.right, next, lo + w / 2);
        if step_spec(level, measure_at(measure, q)) == Step::Split {
            let s = a + b;
            assert forall|i: int, j: int| 0 <= i < j < s.len() implies s[i] < s[j] by {
                if j < a.len() {
                    assert(s[i] == a[i] && s[j] == a[j]);
                } else if i >= a.len() {
                    assert(s[i] == b[i - a.len()] && s[j] == b[j - a.len()]);
                } else {
                    assert(s[i] == a[i] && s[j] == b[j - a.len()]);
                }
            }
            assert forall|i: int| 0 <= i < s.len() implies lo < #[trigger] s[i] < lo + w by {
                if i < a.len() {
                    assert(s[i] == a[i]);
                } else {
                    assert(s[i] == b[i - a.len()]);
                }
            }
        } else {
            assert(w >= 6);
        }
    }
}

/// The first point of a flattening is the curve's start and the last is its
/// end, exactly, whatever the geometry reports.
pub proof fn lemma_endpoints_exact<P, M: Fn(Quad<P>) -> Measure, H: Fn(Quad<P>) -> Halves<P>>(
    start: P,
    c1: P,
    c2: P,
    end: P,
    measure: M,
    halve: H,
)
    ensures
        flattened(start, c1, c2, end, measure, halve).len() >= 2,
        flattened(start, c1, c2, end, measure, halve)[0] == start,
        flattened(start, c1, c2, end, measure, halve).last() == end,
{
}

/// The points of a flattening come in strictly increasing curve parameter:
/// each gets a parameter in `sample_parameters`, from `0` at the start to
/// `span(0)` at the end, and no two appear out of order.
pub proof fn lemma_points_in_curve_order<P, M: Fn(Quad<P>) -> Measure, H: Fn(Quad<P>) -> Halves<P>>(
    start: P,
    c1: P,
    c2: P,
    end: P,
    measure: M,
    halve: H,
)
    ensures
        sample_parameters(start, c1, c2, end, measure, halve).len() == flattened(
            start,
            c1,
            c2,
            end,
            measure,
            halve,
        ).len(),
        sample_parameters(start, c1, c2, end, measure, halve)[0] == 0,
        sample_parameters(start, c1, c2, end, measure, halve).last() == span(0),
        strictly_increasing(sample_parameters(start, c1, c2, end, measure, halve)),
{
    let q = Quad { p1: start, p2: c1, p3: c2, p4: end };
    lemma_positions_ordered(measure, halve, q, 0, 0);
    let mid = positions(measure, halve, q, 0, 0);
    let s = sample_parameters(start, c1, c2, end, measure, halve);
    lemma_emission_cap(0);
    assert(s.len() == mid.len() + 2);
    assert(s[0] == 0);
    assert(s[s.len() - 1] == span(0));
    assert forall|k: int| 1 <= k < s.len() - 1 implies s[k] == mid[k - 1] && 0 < s[k] < span(0) by {
        assert(s[k] == mid[k - 1]);
    }
    assert(strictly_increasing(s));
}

/// A flattening holds at most `2 + 2^(RECURSION_LIMIT + 1)` points: the two
/// ends, and at most two points for each segment at the deepest level.
pub proof fn lemma_output_bounded<P, M: Fn(Quad<P>) -> Measure, H: Fn(Quad<P>) -> Halves<P>>(
    start: P,
    c1: P,
    c2: P,
    end: P,
    measure: M,
    halve: H,
)
    ensures
        flattened(start, c1, c2, end, measure, halve).len() <= 2 + pow2((RECURSION_LIMIT + 1) as nat),
{
    lemma_emitted_count(measure, halve, Quad { p1: start, p2: c1, p3: c2, p4: end }, 0);
    reveal_with_fuel(emission_cap, 11);
    assert(emission_cap(0) == 512);
    lemma2_to64();
}

/// When all four control points coincide, the flattening still holds that
/// point as its first and its last element.
pub proof fn lemma_coincident_controls<P, M: Fn(Quad<P>) -> Measure, H: Fn(Quad<P>) -> Halves<P>>(
    p: P,
    measure: M,
    halve: H,
)
    ensures
        flattened(p, p, p, p, measure, halve).len() >= 2,
        flattened(p, p, p, p, measure, halve)[0] == p,
        flattened(p, p, p, p, measure, halve).last() == p,
{
}

proof fn lemma_emitted_same<
    P,
    M1: Fn(Quad<P>) -> Measure,
    H1: Fn(Quad<P>) -> Halves<P>,
    M2: Fn(Quad<P>) -> Measure,
    H2: Fn(Quad<P>) -> Halves<P>,
>(measure1: M1, halve1: H1, measure2: M2, halve2: H2, q: Quad<P>, level: u32)
    requires
        forall|x: Quad<P>|
            measure_at(measure1, x) == measure_at(measure2, x) && halves_at(halve1, x) == halves_at(
                halve2,
                x,
            ),
    ensures
        emitted(measure1, halve1, q, level) == emitted(measure2, halve2, q, level),
    decreases levels_left(level),
{
    if level <= RECURSION_LIMIT {
        let h = halves_at(halve1, q);
        assert(h == halves_at(halve2, q));
        assert(measure_at(measure1, q) == measure_at(measure2, q));
        lemma_emitted_same(measure1, halve1, measure2, halve2, h.left, (level + 1) as u32);
        lemma_emitted_same(measure1, halve1, measure2, halve2, h.right, (level + 1) as u32);
    }
}

/// Flattening keeps no hidden state: two runs whose geometry gives the same
/// answers on every quad produce the same points, so running it again on the
/// same curve and tolerance gives the same output.
pub proof fn lemma_same_answers_same_output<
    P,
    M1: Fn(Quad<P>) -> Measure,
    H1: Fn(Quad<P>) -> Halves<P>,
    M2: Fn(Quad<P>) -> Measure,
    H2: Fn(Quad<P>) -> Halves<P>,
>(start: P, c1: P, c2: P, end: P, measure1: M1, halve1: H1, measure2: M2, halve2: H2)
    requires
        forall|x: Quad<P>|
            measure_at(measure1, x) == measure_at(measure2, x) && halves_at(halve1, x) == halves_at(
                halve2,
                x,
            ),
    ensures
        flattened(start, c1, c2, end, measure1, halve1) == flattened(
            start,
            c1,
            c2,
            end,
            measure2,
            halve2,
        ),
{
    lemma_emitted_same(measure1, halve1, measure2, halve2, Quad { p1: start, p2: c1, p3: c2, p4: end }, 0);
}

} // verus!
