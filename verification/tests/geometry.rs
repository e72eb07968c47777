//! Ray/primitive intersections, transforms and the acceleration tree.
use ray_tracer_challenge::bvh::BVHNode;
use ray_tracer_challenge::csg::csg;
use ray_tracer_challenge::fx::{HUGE, NEG_HUGE};
use ray_tracer_challenge::matrices::{identity_matrix, inverse, Matrix};
use ray_tracer_challenge::rays::{ray, transform};
use ray_tracer_challenge::shapes::{
    cone, cube, cylinder, glass_sphere, group, include_transformed_shape, local_intersect, plane,
    smooth_triangle, sphere, test_shape, triangle, ShapeType,
};
use ray_tracer_challenge::transformations::{rotation_y, scaling, shearing, translation};
use ray_tracer_challenge::tuples::{point, vector};

fn fx(x: f64) -> i64 {
    (x * 100000.0).round() as i64
}

fn close(a: i64, b: f64, tol: f64) {
    let av = a as f64 / 100000.0;
    assert!((av - b).abs() < tol, "{} vs {}", av, b);
}

#[test]
fn sphere_hits_at_four_and_six() {
    let s = sphere();
    let r = ray(&point(0, 0, fx(-5.0)), &vector(0, 0, fx(1.0)));
    let xs = local_intersect(&s, &r);
    assert_eq!(xs.count, 2);
    assert_eq!(xs.data[0].t, fx(4.0));
    assert_eq!(xs.data[1].t, fx(6.0));
}

#[test]
fn sphere_hit_from_inside_straddles_origin() {
    let s = sphere();
    let r = ray(&point(0, 0, 0), &vector(0, 0, fx(1.0)));
    let xs = local_intersect(&s, &r);
    assert_eq!(xs.count, 2);
    assert_eq!(xs.data[0].t, fx(-1.0));
    assert_eq!(xs.data[1].t, fx(1.0));
}

#[test]
fn sphere_missed_beyond_radius() {
    let s = sphere();
    let r = ray(&point(0, fx(2.0), fx(-5.0)), &vector(0, 0, fx(1.0)));
    let xs = local_intersect(&s, &r);
    assert_eq!(xs.count, 0);
}

#[test]
fn cube_hit_on_every_face_origin() {
    let c = cube();
    let cases = [
        (point(fx(5.0), fx(0.5), 0), vector(fx(-1.0), 0, 0)),
        (point(fx(-5.0), fx(0.5), 0), vector(fx(1.0), 0, 0)),
        (point(fx(0.5), fx(5.0), 0), vector(0, fx(-1.0), 0)),
        (point(fx(0.5), fx(-5.0), 0), vector(0, fx(1.0), 0)),
        (point(fx(0.5), 0, fx(5.0)), vector(0, 0, fx(-1.0))),
        (point(fx(0.5), 0, fx(-5.0)), vector(0, 0, fx(1.0))),
    ];
    for (o, d) in cases {
        let r = ray(&o, &d);
        let xs = local_intersect(&c, &r);
        assert_eq!(xs.count, 2);
        assert_eq!(xs.data[0].t, fx(4.0));
        assert_eq!(xs.data[1].t, fx(6.0));
    }
}

#[test]
fn cube_missed_past_a_corner() {
    let c = cube();
    let r = ray(
        &point(fx(2.0), fx(2.0), 0),
        &vector(fx(-0.70711), fx(0.70711), 0),
    );
    let xs = local_intersect(&c, &r);
    assert_eq!(xs.count, 0);
}

#[test]
fn plane_parallel_ray_misses() {
    let p = plane();
    let r = ray(&point(0, fx(10.0), 0), &vector(fx(1.0), 0, fx(1.0)));
    let xs = local_intersect(&p, &r);
    assert_eq!(xs.count, 0);
}

#[test]
fn plane_hit_from_above_at_one() {
    let p = plane();
    let r = ray(&point(0, fx(1.0), 0), &vector(0, fx(-1.0), 0));
    let xs = local_intersect(&p, &r);
    assert_eq!(xs.count, 1);
    assert_eq!(xs.data[0].t, fx(1.0));
}

#[test]
fn cylinder_and_cone_are_unbounded_and_open_by_default() {
    let c = cylinder();
    assert_eq!(c.minimum(), NEG_HUGE);
    assert_eq!(c.maximum(), HUGE);
    assert!(!c.closed());
    let k = cone();
    assert_eq!(k.minimum(), NEG_HUGE);
    assert_eq!(k.maximum(), HUGE);
    assert!(!k.closed());
}

#[test]
fn closing_a_cylinder_adds_cap_hits_within_bounds() {
    let mut c = cylinder();
    c.set_minimum(&fx(1.0));
    c.set_maximum(&fx(2.0));
    // Open: a ray down the axis sees no wall hits at all.
    let r = ray(&point(0, fx(3.0), 0), &vector(0, fx(-1.0), 0));
    let xs = local_intersect(&c, &r);
    assert_eq!(xs.count, 0);
    // Closed: the same ray now crosses both caps.
    c.set_closed(&true);
    let xs = local_intersect(&c, &r);
    assert_eq!(xs.count, 2);
    // And a sideways ray through the band is unaffected by the caps.
    let r2 = ray(&point(0, fx(1.5), fx(-2.0)), &vector(0, 0, fx(1.0)));
    let xs2 = local_intersect(&c, &r2);
    assert_eq!(xs2.count, 2);
}

#[test]
fn closing_a_cone_adds_cap_hits_within_bounds() {
    let mut k = cone();
    k.set_minimum(&fx(-0.5));
    k.set_maximum(&fx(0.5));
    c_open_then_closed(&mut k);
}

fn c_open_then_closed(k: &mut ray_tracer_challenge::shapes::Shape) {
    // Open: straight down the axis, no wall hit is reported.
    let r = ray(&point(0, fx(5.0), 0), &vector(0, fx(-1.0), 0));
    let open_count = local_intersect(k, &r).count;
    k.set_closed(&true);
    let closed_count = local_intersect(k, &r).count;
    // Closing adds at most two hits, all on the caps.
    assert!(closed_count >= open_count);
    assert!(closed_count - open_count <= 2);
    assert!(closed_count >= 1);
}

#[test]
fn triangle_edge_misses_and_uv() {
    let t = triangle(
        &point(0, fx(1.0), 0),
        &point(fx(-1.0), 0, 0),
        &point(fx(1.0), 0, 0),
    );
    // over the p1-p3 edge
    let r = ray(&point(fx(1.0), fx(1.0), fx(-2.0)), &vector(0, 0, fx(1.0)));
    assert_eq!(local_intersect(&t, &r).count, 0);
    // over the p1-p2 edge
    let r = ray(&point(fx(-1.0), fx(1.0), fx(-2.0)), &vector(0, 0, fx(1.0)));
    assert_eq!(local_intersect(&t, &r).count, 0);
    // under the p2-p3 edge
    let r = ray(&point(0, fx(-1.0), fx(-2.0)), &vector(0, 0, fx(1.0)));
    assert_eq!(local_intersect(&t, &r).count, 0);
    // a hit lands inside
    let r = ray(&point(0, fx(0.5), fx(-2.0)), &vector(0, 0, fx(1.0)));
    let xs = local_intersect(&t, &r);
    assert_eq!(xs.count, 1);
    assert_eq!(xs.data[0].t, fx(2.0));
}

#[test]
fn smooth_triangle_uv_is_interpolated() {
    let t = smooth_triangle(
        &point(0, fx(1.0), 0),
        &point(fx(-1.0), 0, 0),
        &point(fx(1.0), 0, 0),
        &vector(0, fx(1.0), 0),
        &vector(fx(-1.0), 0, 0),
        &vector(fx(1.0), 0, 0),
    );
    let r = ray(&point(fx(-0.2), fx(0.3), fx(-2.0)), &vector(0, 0, fx(1.0)));
    let xs = local_intersect(&t, &r);
    assert_eq!(xs.count, 1);
    close(xs.data[0].u, 0.45, 1e-4);
    close(xs.data[0].v, 0.25, 1e-4);
}

#[test]
fn object_space_equivalence_under_a_transform() {
    // A shape's world intersect equals its local intersect of the
    // inverse-transformed ray.
    let mut s = sphere();
    s.set_transform(&scaling(fx(2.0), fx(2.0), fx(2.0)));
    let r = ray(&point(0, 0, fx(-5.0)), &vector(0, 0, fx(1.0)));
    let world = ray_tracer_challenge::shapes::intersect(&s, &r);
    let local_ray = transform(&r, &s.local_inverse());
    let local = local_intersect(&s, &local_ray);
    assert_eq!(world.count, local.count);
    for i in 0..world.count {
        assert_eq!(world.data[i].t, local.data[i].t);
    }
    assert_eq!(world.data[0].t, fx(3.0));
    assert_eq!(world.data[1].t, fx(7.0));
}

#[test]
fn ray_transform_round_trips_over_sampled_transforms() {
    let r = ray(
        &point(fx(1.0), fx(2.0), fx(3.0)),
        &vector(0, fx(1.0), 0),
    );
    let samples: Vec<Matrix> = vec![
        translation(fx(5.0), fx(-3.0), fx(2.0)),
        scaling(fx(2.0), fx(4.0), fx(5.0)),
        shearing(fx(1.0), 0, 0, 0, 0, 0),
        identity_matrix(),
    ];
    for m in samples {
        let inv = inverse(&m);
        let back = transform(&transform(&r, &m), &inv);
        let eps = 10i64;
        assert!((back.origin.x - r.origin.x).abs() <= eps);
        assert!((back.origin.y - r.origin.y).abs() <= eps);
        assert!((back.origin.z - r.origin.z).abs() <= eps);
        assert!((back.direction.x - r.direction.x).abs() <= eps);
        assert!((back.direction.y - r.direction.y).abs() <= eps);
        assert!((back.direction.z - r.direction.z).abs() <= eps);
    }
    // A rotation's trigonometric entries carry rounding: allow a looser
    // tolerance there.
    let ang = std::f64::consts::FRAC_PI_3;
    let m = rotation_y(fx(ang.sin()), fx(ang.cos()));
    let inv = inverse(&m);
    let back = transform(&transform(&r, &m), &inv);
    let eps = 300i64;
    assert!((back.origin.x - r.origin.x).abs() <= eps);
    assert!((back.origin.z - r.origin.z).abs() <= eps);
}

#[test]
fn freezing_builds_a_tree_once_and_refreeze_is_a_no_op() {
    let mut g = group();
    for i in 0..6 {
        let mut s = sphere();
        s.set_transform(&translation(fx(i as f64 * 3.0), 0, 0));
        g.add_child(s);
    }
    g.freeze_and_optimize();
    let frozen = g.as_group().unwrap();
    assert!(frozen.bvh.is_some());
    let node = frozen.bvh.as_ref().unwrap();
    assert_eq!(node.count_shapes(), 6);
    // Re-freezing changes nothing.
    let depth_before = node.max_depth();
    g.freeze_and_optimize();
    let again = g.as_group().unwrap();
    assert_eq!(again.bvh.as_ref().unwrap().max_depth(), depth_before);
    assert_eq!(again.bvh.as_ref().unwrap().count_shapes(), 6);
}

#[test]
fn tree_over_spread_shapes_splits_with_counts_summing() {
    let mut g = group();
    for i in 0..8 {
        let mut s = sphere();
        s.set_transform(&translation(fx(i as f64 * 10.0), 0, 0));
        g.add_child(s);
    }
    g.freeze_and_optimize();
    let frozen = g.as_group().unwrap();
    let node = frozen.bvh.as_ref().unwrap();
    match node.child_nodes() {
        Some((l, r)) => {
            assert_eq!(l.count_shapes() + r.count_shapes(), 8);
            assert!(l.count_shapes() >= 1 && r.count_shapes() >= 1);
        },
        None => panic!("expected a split over spread shapes"),
    }
    // The closest-hit and any-hit probes return at most one hit.
    let r = ray(&point(fx(-5.0), 0, 0), &vector(fx(1.0), 0, 0));
    let closest = g.intersect_closest_hit(&r);
    assert!(closest.len() <= 1);
    let any = g.intersect_any_hit(&r);
    assert!(any.len() <= 1);
    // The full probe sees both sides of the nearest sphere, sorted.
    let all = ray_tracer_challenge::shapes::intersect(&g, &r);
    assert!(all.count >= 2);
    for i in 1..all.count {
        assert!(all.data[i - 1].t <= all.data[i].t);
    }
    assert_eq!(all.data[0].t, fx(4.0));
    // And the closest hit is the first forward hit of the full list.
    assert_eq!(closest[0].t, fx(4.0));
}

#[test]
fn tree_over_two_far_clusters_splits_three_and_three() {
    // Six unit spheres, three far left and three far right: the cost
    // heuristic must cut between the clusters, three positions a side.
    let mut shapes: Vec<ray_tracer_challenge::shapes::Shape> = Vec::new();
    for i in 0..6 {
        let mut s = sphere();
        let x = if i < 3 { fx(-10.0) } else { fx(10.0) };
        s.set_transform(&translation(x, fx(i as f64), 0));
        shapes.push(s);
    }
    let mut bb = ray_tracer_challenge::bounds::BoundingBox::new_empty();
    for s in &shapes {
        include_transformed_shape(&mut bb, s);
    }
    let idxs: Vec<usize> = (0..6).collect();
    let node = BVHNode::build(bb, &shapes, idxs);
    let (l, r) = node.child_nodes().expect("two far clusters split");
    assert_eq!(l.count_shapes(), 3);
    assert_eq!(r.count_shapes(), 3);
    assert!(l.shapes().is_some());
    assert!(r.shapes().is_some());
    // The two leaves partition the six positions.
    let mut all: Vec<usize> = Vec::new();
    all.extend(l.shapes().unwrap());
    all.extend(r.shapes().unwrap());
    all.sort_unstable();
    assert_eq!(all, vec![0, 1, 2, 3, 4, 5]);
}

#[test]
fn csg_union_keeps_outer_boundary() {
    let s1 = sphere();
    let mut s2 = sphere();
    s2.set_transform(&translation(0, 0, fx(0.5)));
    let c = csg("union", s1, s2);
    let r = ray(&point(0, 0, fx(-5.0)), &vector(0, 0, fx(1.0)));
    let xs = local_intersect(&c, &r);
    assert_eq!(xs.count, 2);
    assert_eq!(xs.data[0].t, fx(4.0));
    assert_eq!(xs.data[1].t, fx(6.5));
}

#[test]
fn test_shape_records_its_ray() {
    let s = test_shape();
    let r = ray(&point(fx(1.0), fx(2.0), fx(3.0)), &vector(0, fx(1.0), 0));
    let hits = s.intersect(&r);
    assert_eq!(hits.len(), 6);
    let xs = ray_tracer_challenge::intersections::Intersections {
        count: hits.len(),
        data: hits,
    };
    let saved = ray_tracer_challenge::shapes::unpack_saved_ray(&xs);
    assert_eq!(saved.origin, point(fx(1.0), fx(2.0), fx(3.0)));
    assert_eq!(saved.direction, vector(0, fx(1.0), 0));
}

#[test]
fn glass_sphere_material() {
    let s = glass_sphere();
    assert_eq!(s.material.transparency, fx(1.0));
    assert_eq!(s.material.refractive_index, fx(1.5));
    assert!(matches!(s.shape_type, ShapeType::Sphere(_)));
}
