use adaptive_bezier::{
    adaptive_bezier_curve, is_flat, shape_of, step_for, Halves, Measure, Quad, Shape, Step,
    RECURSION_LIMIT,
};

fn measure(d2: bool, d3: bool, flat: bool) -> Measure {
    Measure {
        d2_significant: d2,
        d3_significant: d3,
        general_flat: flat,
        p2_flat: flat,
        p3_flat: flat,
        collinear_flat: flat,
    }
}

/// Points are (depth, position) pairs: halving adds one to the depth of
/// every point, so a quad's depth tells the level it is met at.
fn halve_tagged(q: Quad<(u32, u64)>) -> Halves<(u32, u64)> {
    let d = q.p1.0 + 1;
    let lo = q.p1.1 * 2;
    let hi = q.p4.1 * 2;
    let mid = lo + (hi - lo) / 2;
    Halves {
        left: Quad { p1: (d, lo), p2: (d, lo), p3: (d, mid), p4: (d, mid) },
        right: Quad { p1: (d, mid), p2: (d, mid), p3: (d, hi), p4: (d, hi) },
    }
}

fn tagged_root() -> [(u32, u64); 4] {
    [(0, 0), (0, 1), (0, 2), (0, 4)]
}

#[test]
fn shape_follows_significant_points() {
    assert_eq!(shape_of(&measure(true, true, false)), Shape::General);
    assert_eq!(shape_of(&measure(true, false, false)), Shape::OnlyP2);
    assert_eq!(shape_of(&measure(false, true, false)), Shape::OnlyP3);
    assert_eq!(shape_of(&measure(false, false, false)), Shape::Collinear);
}

#[test]
fn flatness_uses_the_test_of_the_shape() {
    let mut m = measure(true, true, false);
    m.general_flat = true;
    assert!(is_flat(&m));
    m.d3_significant = false;
    assert!(!is_flat(&m));
    m.p2_flat = true;
    assert!(is_flat(&m));
    let mut c = measure(false, false, false);
    c.general_flat = true;
    assert!(!is_flat(&c));
    c.collinear_flat = true;
    assert!(is_flat(&c));
}

#[test]
fn steps_for_each_case() {
    assert_eq!(step_for(1, &measure(true, true, true)), Step::EmitMid);
    assert_eq!(step_for(1, &measure(true, false, true)), Step::EmitP2);
    assert_eq!(step_for(1, &measure(false, true, true)), Step::EmitP2P3);
    assert_eq!(step_for(1, &measure(false, false, true)), Step::EmitMid);
    assert_eq!(step_for(3, &measure(true, true, false)), Step::Split);
    assert_eq!(step_for(RECURSION_LIMIT, &measure(false, false, false)), Step::Split);
}

#[test]
fn top_level_always_splits() {
    assert_eq!(step_for(0, &measure(true, true, true)), Step::Split);
    assert_eq!(step_for(0, &measure(false, false, true)), Step::Split);
}

#[test]
fn below_the_limit_is_cut_off() {
    assert_eq!(RECURSION_LIMIT, 8);
    assert_eq!(step_for(RECURSION_LIMIT + 1, &measure(true, true, false)), Step::Cutoff);
    assert_eq!(step_for(u32::MAX, &measure(false, false, true)), Step::Cutoff);
}

#[test]
fn only_p2_emits_one_point_only_p3_emits_two() {
    let r = [(0u32, 0u64), (0, 1), (0, 2), (0, 4)];
    let p2 = adaptive_bezier_curve(r[0], r[1], r[2], r[3], &|_q| measure(true, false, true), &halve_tagged);
    assert_eq!(p2, vec![(0, 0), (1, 0), (1, 4), (0, 4)]);
    let p3 = adaptive_bezier_curve(r[0], r[1], r[2], r[3], &|_q| measure(false, true, true), &halve_tagged);
    assert_eq!(p3, vec![(0, 0), (1, 0), (1, 4), (1, 4), (1, 8), (0, 4)]);
}

#[test]
fn never_flat_emits_only_the_ends() {
    let r = tagged_root();
    let out = adaptive_bezier_curve(r[0], r[1], r[2], r[3], &|_q| measure(true, true, false), &halve_tagged);
    assert_eq!(out, vec![(0, 0), (0, 4)]);
}

#[test]
fn largest_output_reaches_the_bound() {
    // flat only at the deepest level, where each segment emits two points
    let r = tagged_root();
    let out = adaptive_bezier_curve(
        r[0],
        r[1],
        r[2],
        r[3],
        &|q: Quad<(u32, u64)>| measure(false, true, q.p1.0 == RECURSION_LIMIT),
        &halve_tagged,
    );
    assert_eq!(out.len(), 2 + (1usize << (RECURSION_LIMIT + 1)));
    for w in out[1..out.len() - 1].windows(2) {
        assert!(w[0].1 <= w[1].1);
    }
}

#[test]
fn middle_points_come_from_the_left_half() {
    let r = tagged_root();
    let out = adaptive_bezier_curve(
        r[0],
        r[1],
        r[2],
        r[3],
        &|q: Quad<(u32, u64)>| measure(true, true, q.p1.0 >= 2),
        &halve_tagged,
    );
    assert_eq!(out, vec![(0, 0), (3, 4), (3, 12), (3, 20), (3, 28), (0, 4)]);
}
