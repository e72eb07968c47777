//! Lighting, hit bookkeeping and refraction bookkeeping.
use ray_tracer_challenge::intersections::{
    intersection, intersections, prepare_computations3, schlick, Intersections,
};
use ray_tracer_challenge::lights::point_light;
use ray_tracer_challenge::materials::material;
use ray_tracer_challenge::patterns::{pattern_at, stripe_pattern, PatternType};
use ray_tracer_challenge::rays::ray;
use ray_tracer_challenge::shapes::{glass_sphere, sphere};
use ray_tracer_challenge::transformations::scaling;
use ray_tracer_challenge::tuples::{color, point, vector};
use ray_tracer_challenge::world::{
    color_at, default_world, is_shadowed3, lighting5, lighting6, reflected_color3,
    refracted_color, world,
};

fn fx(x: f64) -> i64 {
    (x * 100000.0).round() as i64
}

fn close(a: i64, b: f64, tol: f64) {
    let av = a as f64 / 100000.0;
    assert!((av - b).abs() < tol, "{} vs {}", av, b);
}

#[test]
fn lighting_with_eye_between_light_and_surface() {
    let m = material();
    let pos = point(0, 0, 0);
    let eyev = vector(0, 0, fx(-1.0));
    let normalv = vector(0, 0, fx(-1.0));
    let light = point_light(&point(0, 0, fx(-10.0)), &color(fx(1.0), fx(1.0), fx(1.0)));
    let result = lighting5(&m, &light, &pos, &eyev, &normalv);
    close(result.red, 1.9, 1e-3);
    close(result.green, 1.9, 1e-3);
    close(result.blue, 1.9, 1e-3);
}

#[test]
fn lighting_in_shadow_keeps_only_ambient() {
    let m = material();
    let pos = point(0, 0, 0);
    let eyev = vector(0, 0, fx(-1.0));
    let normalv = vector(0, 0, fx(-1.0));
    let light = point_light(&point(0, 0, fx(-10.0)), &color(fx(1.0), fx(1.0), fx(1.0)));
    let result = lighting6(&m, &light, &pos, &eyev, &normalv, &true);
    assert_eq!(result.red, fx(0.1));
    assert_eq!(result.green, fx(0.1));
    assert_eq!(result.blue, fx(0.1));
}

#[test]
fn color_of_a_missing_ray_is_black() {
    let w = default_world();
    let r = ray(&point(0, 0, fx(-5.0)), &vector(0, fx(1.0), 0));
    let c = color_at(&w, &r);
    assert_eq!(c, color(0, 0, 0));
}

#[test]
fn color_of_a_hit_ray_is_lit() {
    let w = default_world();
    let r = ray(&point(0, 0, fx(-5.0)), &vector(0, 0, fx(1.0)));
    let c = color_at(&w, &r);
    close(c.red, 0.38066, 3e-3);
    close(c.green, 0.47583, 3e-3);
    close(c.blue, 0.2855, 3e-3);
}

#[test]
fn nothing_is_shadowed_in_an_empty_world() {
    let w = world();
    let light = point_light(&point(0, fx(10.0), 0), &color(fx(1.0), fx(1.0), fx(1.0)));
    assert!(!is_shadowed3(&w, &point(0, 0, 0), &light));
}

#[test]
fn shadow_when_an_object_blocks_the_light() {
    let w = default_world();
    let light = w.light();
    // Behind the outer sphere, away from the light.
    assert!(is_shadowed3(&w, &point(fx(10.0), fx(-10.0), fx(10.0)), &light));
    // On the light's side of everything.
    assert!(!is_shadowed3(&w, &point(fx(-20.0), fx(20.0), fx(-20.0)), &light));
}

#[test]
fn refractive_pair_through_nested_glass_spheres() {
    // Three overlapping glass spheres: the classic n1/n2 walk.
    let mut a = glass_sphere();
    a.set_transform(&scaling(fx(2.0), fx(2.0), fx(2.0)));
    let mut b = glass_sphere();
    b.set_transform(&ray_tracer_challenge::transformations::translation(0, 0, fx(-0.25)));
    let mut bm = b.material;
    bm.refractive_index = fx(2.0);
    b.material = bm;
    let mut c = glass_sphere();
    c.set_transform(&ray_tracer_challenge::transformations::translation(0, 0, fx(0.25)));
    let mut cm = c.material;
    cm.refractive_index = fx(2.5);
    c.material = cm;

    let r = ray(&point(0, 0, fx(-4.0)), &vector(0, 0, fx(1.0)));
    let mut v = Vec::new();
    v.push(intersection(fx(2.0), &a));
    v.push(intersection(fx(2.75), &b));
    v.push(intersection(fx(3.25), &c));
    v.push(intersection(fx(4.75), &b));
    v.push(intersection(fx(5.25), &c));
    v.push(intersection(fx(6.0), &a));
    let xs: Intersections = intersections(v);
    let expected = [
        (1.0, 1.5),
        (1.5, 2.0),
        (2.0, 2.5),
        (2.5, 2.5),
        (2.5, 1.5),
        (1.5, 1.0),
    ];
    for (i, (n1, n2)) in expected.iter().enumerate() {
        let comps = prepare_computations3(&xs.data[i], &r, &xs);
        assert_eq!(comps.n1, fx(*n1), "n1 at {}", i);
        assert_eq!(comps.n2, fx(*n2), "n2 at {}", i);
    }
}

#[test]
fn schlick_under_total_internal_reflection_is_one() {
    let s = glass_sphere();
    let half_rt2 = fx(std::f64::consts::FRAC_1_SQRT_2);
    let r = ray(&point(0, 0, half_rt2), &vector(0, fx(1.0), 0));
    let mut v = Vec::new();
    v.push(intersection(-half_rt2, &s));
    v.push(intersection(half_rt2, &s));
    let xs = intersections(v);
    let comps = prepare_computations3(&xs.data[1], &r, &xs);
    let reflectance = schlick(&comps);
    assert_eq!(reflectance, fx(1.0));
}

#[test]
fn schlick_is_small_at_a_perpendicular_hit() {
    let s = glass_sphere();
    let r = ray(&point(0, 0, 0), &vector(0, fx(1.0), 0));
    let mut v = Vec::new();
    v.push(intersection(fx(-1.0), &s));
    v.push(intersection(fx(1.0), &s));
    let xs = intersections(v);
    let comps = prepare_computations3(&xs.data[1], &r, &xs);
    let reflectance = schlick(&comps);
    close(reflectance, 0.04, 2e-3);
}

#[test]
fn reflection_and_refraction_stop_at_the_budget() {
    let w = default_world();
    let mut s = glass_sphere();
    let mut m = s.material;
    m.reflective = fx(0.5);
    s.material = m;
    let r = ray(&point(0, 0, fx(-5.0)), &vector(0, 0, fx(1.0)));
    let mut v = Vec::new();
    v.push(intersection(fx(4.0), &s));
    let xs = intersections(v);
    let comps = prepare_computations3(&xs.data[0], &r, &xs);
    // Depth zero yields black from both recursive arms.
    assert_eq!(reflected_color3(&w, &comps, 0), color(0, 0, 0));
    assert_eq!(refracted_color(&w, &comps, 0), color(0, 0, 0));
}

#[test]
fn refraction_through_an_opaque_surface_is_black() {
    let w = default_world();
    let s = sphere();
    let r = ray(&point(0, 0, fx(-5.0)), &vector(0, 0, fx(1.0)));
    let mut v = Vec::new();
    v.push(intersection(fx(4.0), &s));
    v.push(intersection(fx(6.0), &s));
    let xs = intersections(v);
    let comps = prepare_computations3(&xs.data[0], &r, &xs);
    assert_eq!(refracted_color(&w, &comps, 5), color(0, 0, 0));
}

#[test]
fn stripe_pattern_alternates_in_x() {
    let p = stripe_pattern(&color(fx(1.0), fx(1.0), fx(1.0)), &color(0, 0, 0));
    assert_eq!(p.pattern_type, PatternType::Stripe);
    let white = color(fx(1.0), fx(1.0), fx(1.0));
    let black = color(0, 0, 0);
    assert_eq!(pattern_at(&p, &point(0, 0, 0)), white);
    assert_eq!(pattern_at(&p, &point(fx(0.9), 0, 0)), white);
    assert_eq!(pattern_at(&p, &point(fx(1.0), 0, 0)), black);
    assert_eq!(pattern_at(&p, &point(fx(-0.1), 0, 0)), black);
    assert_eq!(pattern_at(&p, &point(fx(-1.1), 0, 0)), white);
}

#[test]
fn hit_skips_nonpositive_times() {
    let s = sphere();
    let mut v = Vec::new();
    v.push(intersection(fx(-2.0), &s));
    v.push(intersection(fx(-1.0), &s));
    v.push(intersection(fx(3.0), &s));
    v.push(intersection(fx(5.0), &s));
    let xs = intersections(v);
    let h = xs.hit().unwrap();
    assert_eq!(h.t, fx(3.0));
    let mut v2 = Vec::new();
    v2.push(intersection(fx(-2.0), &s));
    let xs2 = intersections(v2);
    assert!(xs2.hit().is_none());
}

#[test]
fn shadow_hit_respects_the_shadow_flag() {
    let mut s = sphere();
    s.shadow = false;
    let mut v = Vec::new();
    v.push(intersection(fx(1.0), &s));
    let xs = intersections(v);
    assert!(xs.hit().is_some());
    assert!(xs.hit_for_shadow().is_none());
}
