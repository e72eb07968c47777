//! The world: lights and top-level shapes, and the recursive shading model
//! over them (Phong illumination, shadow tests, reflection and refraction
//! with Schlick blending, bounded by a recursion-depth budget).
use crate::fx::{fx_add, fx_div, fx_mul, fx_neg, fx_sqrt, fx_sub, sfadd, sfdiv, sfmul, sfneg,
    sfpow, sfsqrt, sfsub, EPSILON, SCALE};
use crate::intersections::{
    all_primitive, intersections, prepare_computations3, s_comps, s_first_hit,
    s_first_shadow_hit, schlick, s_schlick, s_sort_by_t,
    Intersection, Intersections, C,
};
use crate::lights::{point_light, Light};
use crate::materials::{material, Material};
use crate::matrices::s_mat_tuple;
use crate::patterns::{pattern_at, s_pattern_at, Pattern};
use crate::rays::{ray, s_position, s_transform, Ray};
use crate::shapes::{
    is_primitive, s_local_hits, s_wf_shape, sphere, world_to_object, Shape,
};
use crate::transformations::scaling;
use crate::tuples::{
    black, c_add, c_mul, c_scale, color, dot, normalize, point, reflect, s_dot, s_magnitude,
    s_neg, s_normalize, s_reflect, s_sub, Color, Tuple,
};
use vstd::prelude::*;

verus! {

/// The default recursion budget of the shading model.
pub const DEFAULT_REMAINING: usize = 5;

pub struct World {
    pub count: usize,
    pub lights: Vec<Light>,
    pub objects: Vec<Shape>,
}

/// The hits of the first `k` objects against a world ray, each probed
/// through its own cached local inverse.
pub open spec fn s_world_gather(objects: Seq<Shape>, r: Ray, k: int) -> Seq<Intersection>
    decreases k,
{
    if k <= 0 || k > objects.len() {
        Seq::empty()
    } else {
        s_world_gather(objects, r, k - 1) + s_local_hits(
            objects[k - 1],
            s_transform(r, objects[k - 1].cached_local_inverse),
        )
    }
}

/// Whether any record of a list lies in front of the ray.
pub open spec fn has_positive(xs: Seq<Intersection>) -> bool {
    exists|k: int| 0 <= k < xs.len() && #[trigger] xs[k].t > 0
}

/// The closest-hit probes of the first `k` objects against a world ray.
pub open spec fn s_world_closest_gather(objects: Seq<Shape>, r: Ray, k: int) -> Seq<Intersection>
    decreases k,
{
    if k <= 0 || k > objects.len() {
        Seq::empty()
    } else {
        s_world_closest_gather(objects, r, k - 1) + crate::shapes::s_local_closest_hits(
            objects[k - 1],
            s_transform(r, objects[k - 1].cached_local_inverse),
        )
    }
}

impl World {
    /// Every owned shape is a well-formed tree.
    pub open spec fn wf(&self) -> bool {
        forall|i: int| 0 <= i < self.objects@.len() ==> s_wf_shape(#[trigger] self.objects@[i])
    }

    pub fn add(&mut self, shape: Shape)
        requires
            s_wf_shape(shape),
            old(self).wf(),
        ensures
            final(self).wf(),
            final(self).objects@ == old(self).objects@.push(shape),
            final(self).lights@ == old(self).lights@,
            final(self).count == old(self).count,
    {
        self.objects.push(shape);
    }

    pub fn add_light(&mut self, light: &Light)
        ensures
            final(self).lights@ == old(self).lights@.push(*light),
            final(self).objects@ == old(self).objects@,
            final(self).count == old(self).count,
    {
        self.lights.push(*light);
    }

    /// The first light (for tests with a single light).
    pub fn light(&self) -> (r: Light)
        requires
            self.lights@.len() > 0,
        ensures
            r == self.lights@[0],
    {
        self.lights[0]
    }

    pub fn set_light(&mut self, light: &Light)
        ensures
            final(self).lights@ == seq![*light],
            final(self).objects@ == old(self).objects@,
            final(self).count == old(self).count,
    {
        let mut v: Vec<Light> = Vec::new();
        v.push(*light);
        proof {
            assert(v@ =~= seq![*light]);
        }
        self.lights = v;
    }

    /// Every hit of every object, sorted by hit time.
    pub fn intersect(&self, r: &Ray) -> (rv: Intersections)
        requires
            self.wf(),
        ensures
            rv.wf(),
            rv.data@ == s_sort_by_t(
                s_world_gather(self.objects@, *r, self.objects@.len() as int),
            ),
    {
        let mut v: Vec<Intersection> = Vec::new();
        let n: usize = self.objects.len();
        let mut k: usize = 0;
        while k < n
            invariant
                k <= n,
                n == self.objects@.len(),
                self.wf(),
                v@ == s_world_gather(self.objects@, *r, k as int),
                all_primitive(v@),
            decreases n - k,
        {
            let mut ts: Vec<Intersection> = self.objects[k].intersect(r);
            v.append(&mut ts);
            proof {
                assert(v@ =~= s_world_gather(self.objects@, *r, k as int + 1));
                crate::shapes::lemma_local_hits_primitive(
                    self.objects@[k as int],
                    s_transform(*r, self.objects@[k as int].cached_local_inverse),
                );
                assert(all_primitive(v@)) by {
                    crate::shapes::lemma_all_primitive_concat(
                        s_world_gather(self.objects@, *r, k as int),
                        s_local_hits(
                            self.objects@[k as int],
                            s_transform(*r, self.objects@[k as int].cached_local_inverse),
                        ),
                    );
                }
            }
            k = k + 1;
        }
        intersections(v)
    }

    /// At most one forward hit per object, gathered and sorted (the faster
    /// probe for shadow rays).
    pub fn intersect_closest_hit(&self, r: &Ray) -> (rv: Intersections)
        requires
            self.wf(),
        ensures
            rv.wf(),
            rv.data@ == s_sort_by_t(
                s_world_closest_gather(self.objects@, *r, self.objects@.len() as int),
            ),
            self.objects@.len() == 0 ==> rv.data@.len() == 0,
    {
        let mut v: Vec<Intersection> = Vec::new();
        let n: usize = self.objects.len();
        let mut k: usize = 0;
        while k < n
            invariant
                k <= n,
                n == self.objects@.len(),
                self.wf(),
                v@ == s_world_closest_gather(self.objects@, *r, k as int),
                all_primitive(v@),
            decreases n - k,
        {
            let ts: Vec<Intersection> = self.objects[k].intersect_closest_hit(r);
            let ghost before = v@;
            let ghost tsv = ts@;
            let mut ts2: Vec<Intersection> = ts;
            v.append(&mut ts2);
            proof {
                assert(v@ =~= s_world_closest_gather(self.objects@, *r, k as int + 1));
                assert forall|i: int| 0 <= i < v@.len() implies is_primitive(
                    #[trigger] v@[i].object,
                ) by {
                    if i < before.len() {
                        assert(v@[i] == before[i]);
                    } else {
                        assert(v@[i] == tsv[i - before.len()]);
                    }
                }
            }
            k = k + 1;
        }
        intersections(v)
    }
}

/// An empty world.
pub fn world() -> (r: World)
    ensures
        r.wf(),
        r.lights@.len() == 0,
        r.objects@.len() == 0,
        r.count == 0,
{
    World { count: 0, lights: Vec::new(), objects: Vec::new() }
}

/// The two-sphere test world: a white light, an outer colored sphere and
/// an inner half-size sphere.
pub fn default_world() -> (r: World)
    ensures
        r.wf(),
        r.lights@.len() == 1,
        r.lights@[0] == (Light {
            position: Tuple { x: -1_000_000i64, y: 1_000_000i64, z: -1_000_000i64, w: SCALE },
            intensity: Color { red: SCALE, green: SCALE, blue: SCALE },
        }),
        r.objects@.len() == 2,
        r.objects@[0].material.color == (Color { red: 80_000i64, green: 100_000i64, blue: 60_000i64 }),
        r.objects@[0].material.diffuse == 70_000i64,
        r.objects@[0].material.specular == 20_000i64,
        r.objects@[0].shape_type is Sphere,
        r.objects@[1].shape_type is Sphere,
        r.count == 2,
{
    let light: Light = point_light(
        &point(-1_000_000, 1_000_000, -1_000_000),
        &color(SCALE, SCALE, SCALE),
    );
    let mut s1: Shape = sphere();
    s1.material.color = color(80_000, 100_000, 60_000);
    s1.material.diffuse = 70_000;
    s1.material.specular = 20_000;
    let mut s2: Shape = sphere();
    s2.set_transform(&scaling(50_000, 50_000, 50_000));
    let mut objects: Vec<Shape> = Vec::new();
    objects.push(s1);
    objects.push(s2);
    let mut lights: Vec<Light> = Vec::new();
    lights.push(light);
    World { count: 2, lights, objects }
}

pub fn intersect_world(world: &World, r: &Ray) -> (rv: Intersections)
    requires
        world.wf(),
    ensures
        rv.wf(),
        rv.data@ == s_sort_by_t(
            s_world_gather(world.objects@, *r, world.objects@.len() as int),
        ),
{
    world.intersect(r)
}

/// The Phong illumination of one light at a surface point: the pattern or
/// base color modulated by the light, an ambient term always, and diffuse
/// and specular terms when the point faces the light unshadowed.
pub open spec fn s_lighting(
    m: Material,
    object: Option<Shape>,
    light: Light,
    pos: Tuple,
    eyev: Tuple,
    normalv: Tuple,
    in_shadow: bool,
) -> Color {
    let base = match m.pattern {
        Some(p) => match object {
            Some(o) => s_pattern_at(p, s_mat_tuple(p.inverse, s_mat_tuple(o.cached_inverse, pos))),
            None => s_pattern_at(p, pos),
        },
        None => m.color,
    };
    let effective = c_mul(base, light.intensity);
    let lightv = s_normalize(s_sub(light.position, pos));
    let ambient = c_scale(effective, m.ambient);
    let ldn = s_dot(lightv, normalv);
    if in_shadow || ldn < 0 {
        c_add(
            c_add(ambient, Color { red: 0i64, green: 0i64, blue: 0i64 }),
            Color { red: 0i64, green: 0i64, blue: 0i64 },
        )
    } else {
        let diffuse = c_scale(c_scale(effective, m.diffuse), ldn);
        let reflectv = s_reflect(s_neg(lightv), normalv);
        let rde = s_dot(reflectv, eyev);
        let specular = if rde <= 0 {
            Color { red: 0i64, green: 0i64, blue: 0i64 }
        } else {
            c_scale(c_scale(light.intensity, m.specular), sfpow(rde, m.shininess as nat))
        };
        c_add(c_add(ambient, diffuse), specular)
    }
}

/// Whether the path from a point to a light is blocked: the shadow ray's
/// closest-hit gather holds a shadow-casting forward hit nearer than the
/// light.
pub open spec fn s_is_shadowed(objects: Seq<Shape>, pt: Tuple, light: Light) -> bool {
    let to_light = s_sub(light.position, pt);
    let distance = s_magnitude(to_light);
    let shadow_ray = Ray { origin: pt, direction: s_normalize(to_light) };
    match s_first_shadow_hit(
        s_sort_by_t(s_world_closest_gather(objects, shadow_ray, objects.len() as int)),
    ) {
        Some(i) => i.t < distance,
        None => false,
    }
}

/// The summed Phong terms of the first `k` lights at a hit, each gated by
/// its own shadow test.
pub open spec fn s_surface_color(objects: Seq<Shape>, lights: Seq<Light>, comps: C, k: int) -> Color
    decreases k,
{
    if k <= 0 || k > lights.len() {
        Color { red: 0i64, green: 0i64, blue: 0i64 }
    } else {
        c_add(
            s_surface_color(objects, lights, comps, k - 1),
            s_lighting(
                comps.object.material,
                Some(comps.object),
                lights[k - 1],
                comps.over_point,
                comps.eyev,
                comps.normalv,
                s_is_shadowed(objects, comps.over_point, lights[k - 1]),
            ),
        )
    }
}

/// The color a ray sees, as a value: black on a miss, else the closest
/// forward hit shaded under the remaining recursion budget.
pub open spec fn s_color_at(objects: Seq<Shape>, lights: Seq<Light>, r: Ray, remaining: nat) -> Color
    decreases remaining, 3int,
{
    let xs = s_sort_by_t(s_world_gather(objects, r, objects.len() as int));
    match s_first_hit(xs) {
        None => Color { red: 0i64, green: 0i64, blue: 0i64 },
        Some(i) => s_shade_hit(objects, lights, s_comps(i, r, xs), remaining),
    }
}

/// The shade of a hit: the per-light surface sum plus the reflected and
/// refracted colors, Schlick-blended when the material both reflects and
/// refracts.
pub open spec fn s_shade_hit(objects: Seq<Shape>, lights: Seq<Light>, comps: C, remaining: nat) -> Color
    decreases remaining, 2int,
{
    let m = comps.object.material;
    let surface = s_surface_color(objects, lights, comps, lights.len() as int);
    let reflected = s_reflected_color(objects, lights, comps, remaining);
    let refracted = s_refracted_color(objects, lights, comps, remaining);
    if m.reflective > 0 && m.transparency > 0 {
        let reflectance = s_schlick(comps);
        c_add(
            c_add(surface, c_scale(reflected, reflectance)),
            c_scale(refracted, sfsub(SCALE, reflectance)),
        )
    } else {
        c_add(c_add(surface, reflected), refracted)
    }
}

/// The mirror-reflected contribution: black past the budget or on a matte
/// surface, else the reflected ray's color scaled by reflectivity.
pub open spec fn s_reflected_color(
    objects: Seq<Shape>,
    lights: Seq<Light>,
    comps: C,
    remaining: nat,
) -> Color
    decreases remaining, 1int,
{
    if remaining == 0 || comps.object.material.reflective == 0 {
        Color { red: 0i64, green: 0i64, blue: 0i64 }
    } else {
        c_scale(
            s_color_at(
                objects,
                lights,
                Ray { origin: comps.over_point, direction: comps.reflectv },
                (remaining - 1) as nat,
            ),
            comps.object.material.reflective,
        )
    }
}

/// The refracted contribution: black past the budget, through an opaque
/// surface, on a degenerate refractive pair, or under total internal
/// reflection; else the Snell-refracted ray's color scaled by transparency.
pub open spec fn s_refracted_color(
    objects: Seq<Shape>,
    lights: Seq<Light>,
    comps: C,
    remaining: nat,
) -> Color
    decreases remaining, 1int,
{
    if remaining == 0 || comps.object.material.transparency == 0 {
        Color { red: 0i64, green: 0i64, blue: 0i64 }
    } else if comps.n2 == 0 {
        Color { red: 0i64, green: 0i64, blue: 0i64 }
    } else {
        let n_ratio = sfdiv(comps.n1, comps.n2);
        let cos_i = s_dot(comps.eyev, comps.normalv);
        let sin2_t = sfmul(sfmul(n_ratio, n_ratio), sfsub(SCALE, sfmul(cos_i, cos_i)));
        if sin2_t >= SCALE {
            Color { red: 0i64, green: 0i64, blue: 0i64 }
        } else {
            let cos_t = sfsqrt(sfsub(SCALE, sin2_t));
            let direction = s_sub(
                crate::tuples::s_scale(comps.normalv, sfsub(sfmul(n_ratio, cos_i), cos_t)),
                crate::tuples::s_scale(comps.eyev, n_ratio),
            );
            c_scale(
                s_color_at(
                    objects,
                    lights,
                    Ray { origin: comps.under_point, direction },
                    (remaining - 1) as nat,
                ),
                comps.object.material.transparency,
            )
        }
    }
}

/// A surface in shadow, or facing away, keeps exactly the ambient term
/// (with no pattern in play, the ambient-scaled material color).
pub proof fn lemma_lighting_in_shadow(
    m: Material,
    object: Option<Shape>,
    light: Light,
    pos: Tuple,
    eyev: Tuple,
    normalv: Tuple,
)
    ensures
        m.pattern is None ==> s_lighting(m, object, light, pos, eyev, normalv, true) == c_scale(
            c_mul(m.color, light.intensity),
            m.ambient,
        ),
{
}

pub fn lighting7(
    m: &Material,
    object: Option<&Shape>,
    light: &Light,
    pos: &Tuple,
    eyev: &Tuple,
    normalv: &Tuple,
    in_shadow: &bool,
) -> (r: Color)
    ensures
        r == s_lighting(
            *m,
            (match object {
                Some(o) => Some(*o),
                None => None::<Shape>,
            }),
            *light,
            *pos,
            *eyev,
            *normalv,
            *in_shadow,
        ),
{
    let base: Color = match &m.pattern {
        Some(p) => match object {
            Some(o) => {
                let object_point: Tuple = world_to_object(o, pos);
                let pattern_point: Tuple = p.inverse.mul_tuple(&object_point);
                pattern_at(p, &pattern_point)
            },
            None => pattern_at(p, pos),
        },
        None => m.color,
    };
    let effective: Color = base.mul(&light.intensity);
    let lightv: Tuple = normalize(&light.position.sub(pos));
    let ambient: Color = effective.scale(m.ambient);
    let ldn: i64 = dot(&lightv, normalv);
    let diffuse: Color;
    let specular: Color;
    if *in_shadow || ldn < 0 {
        diffuse = black();
        specular = black();
    } else {
        diffuse = effective.scale(m.diffuse).scale(ldn);
        let reflectv: Tuple = lightv.neg().reflect(normalv);
        let rde: i64 = dot(&reflectv, eyev);
        if rde <= 0 {
            specular = black();
        } else {
            let factor: i64 = crate::fx::fx_pow(rde, m.shininess);
            specular = light.intensity.scale(m.specular).scale(factor);
        }
    }
    ambient.add(&diffuse).add(&specular)
}

pub fn lighting6(
    m: &Material,
    light: &Light,
    pos: &Tuple,
    eyev: &Tuple,
    normalv: &Tuple,
    in_shadow: &bool,
) -> (r: Color)
    ensures
        r == s_lighting(*m, None::<Shape>, *light, *pos, *eyev, *normalv, *in_shadow),
{
    lighting7(m, None, light, pos, eyev, normalv, in_shadow)
}

pub fn lighting5(m: &Material, light: &Light, pos: &Tuple, eyev: &Tuple, normalv: &Tuple) -> (r:
    Color)
    ensures
        r == s_lighting(*m, None::<Shape>, *light, *pos, *eyev, *normalv, false),
{
    lighting6(m, light, pos, eyev, normalv, &false)
}

/// Whether the path from a point to a light is blocked by a shadow-casting
/// shape (probed with the closest-hit policy).
pub fn is_shadowed3(world: &World, pt: &Tuple, light: &Light) -> (r: bool)
    requires
        world.wf(),
    ensures
        r == s_is_shadowed(world.objects@, *pt, *light),
        world.objects@.len() == 0 ==> r == false,
{
    let to_light: Tuple = light.position.sub(pt);
    let distance: i64 = to_light.magnitude();
    let shadow_ray: Ray = ray(pt, &normalize(&to_light));
    let xs: Intersections = world.intersect_closest_hit(&shadow_ray);
    match xs.hit_for_shadow() {
        Some(i) => i.t < distance,
        None => false,
    }
}

pub fn is_shadowed(world: &World, pt: &Tuple) -> (r: bool)
    requires
        world.wf(),
        world.lights@.len() > 0,
    ensures
        r == s_is_shadowed(world.objects@, *pt, world.lights@[0]),
        world.objects@.len() == 0 ==> r == false,
{
    let light: Light = world.light();
    is_shadowed3(world, pt, &light)
}

/// The color a ray sees: black past the recursion budget or a miss, else
/// the closest forward hit shaded.
pub fn color_at3(world: &World, r: &Ray, remaining: usize) -> (c: Color)
    requires
        world.wf(),
    ensures
        c == s_color_at(world.objects@, world.lights@, *r, remaining as nat),
        !has_positive(
            s_sort_by_t(s_world_gather(world.objects@, *r, world.objects@.len() as int)),
        ) ==> c == (Color { red: 0i64, green: 0i64, blue: 0i64 }),
    decreases remaining, 2int,
{
    let is: Intersections = intersect_world(world, r);
    proof {
        crate::intersections::lemma_first_hit_props(is.data@);
    }
    match is.hit() {
        Some(i) => {
            proof {
                let k = choose|k: int| 0 <= k < is.data@.len() && #[trigger] is.data@[k] == i;
                assert(is_primitive(is.data@[k].object));
            }
            let comps: C = prepare_computations3(&i, r, &is);
            shade_hit3(world, &comps, remaining)
        },
        None => black(),
    }
}

pub fn color_at(world: &World, r: &Ray) -> (c: Color)
    requires
        world.wf(),
    ensures
        c == s_color_at(world.objects@, world.lights@, *r, DEFAULT_REMAINING as nat),
        !has_positive(
            s_sort_by_t(s_world_gather(world.objects@, *r, world.objects@.len() as int)),
        ) ==> c == (Color { red: 0i64, green: 0i64, blue: 0i64 }),
{
    color_at3(world, r, DEFAULT_REMAINING)
}

/// The summed surface, reflected and refracted colors of a hit, the last
/// two blended by the Schlick reflectance when the material both reflects
/// and refracts.
pub fn shade_hit3(world: &World, comps: &C, remaining: usize) -> (r: Color)
    requires
        world.wf(),
        is_primitive(comps.object),
    ensures
        r == s_shade_hit(world.objects@, world.lights@, *comps, remaining as nat),
    decreases remaining, 1int,
{
    let m: Material = comps.object.material;
    let mut surface: Color = black();
    let n: usize = world.lights.len();
    let mut k: usize = 0;
    while k < n
        invariant
            k <= n,
            n == world.lights@.len(),
            world.wf(),
            is_primitive(comps.object),
            m == comps.object.material,
            surface == s_surface_color(world.objects@, world.lights@, *comps, k as int),
        decreases n - k,
    {
        let light: Light = world.lights[k];
        let shadowed: bool = is_shadowed3(world, &comps.over_point, &light);
        let lit: Color = lighting7(
            &m,
            Some(&comps.object),
            &light,
            &comps.over_point,
            &comps.eyev,
            &comps.normalv,
            &shadowed,
        );
        surface = surface.add(&lit);
        proof {
            assert(surface == s_surface_color(
                world.objects@,
                world.lights@,
                *comps,
                k as int + 1,
            ));
        }
        k = k + 1;
    }
    let reflected: Color = reflected_color3(world, comps, remaining);
    let refractive: Color = refracted_color(world, comps, remaining);
    if m.reflective > 0 && m.transparency > 0 {
        let reflectance: i64 = schlick(comps);
        surface.add(&reflected.scale(reflectance)).add(
            &refractive.scale(fx_sub(SCALE, reflectance)),
        )
    } else {
        surface.add(&reflected).add(&refractive)
    }
}

pub fn shade_hit2(world: &World, comps: &C) -> (r: Color)
    requires
        world.wf(),
        is_primitive(comps.object),
    ensures
        r == s_shade_hit(world.objects@, world.lights@, *comps, DEFAULT_REMAINING as nat),
{
    shade_hit3(world, comps, DEFAULT_REMAINING)
}

/// The color arriving by mirror reflection: black past the budget or on a
/// matte surface, else the reflected ray's color scaled by reflectivity.
pub fn reflected_color3(world: &World, comps: &C, remaining: usize) -> (r: Color)
    requires
        world.wf(),
    ensures
        r == s_reflected_color(world.objects@, world.lights@, *comps, remaining as nat),
        remaining == 0 || comps.object.material.reflective == 0 ==> r == (Color {
            red: 0i64,
            green: 0i64,
            blue: 0i64,
        }),
    decreases remaining, 0int,
{
    if remaining == 0 || comps.object.material.reflective == 0 {
        return black();
    }
    let reflect_ray: Ray = ray(&comps.over_point, &comps.reflectv);
    let c: Color = color_at3(world, &reflect_ray, remaining - 1);
    c.scale(comps.object.material.reflective)
}

pub fn reflected_color2(world: &World, comps: &C) -> (r: Color)
    requires
        world.wf(),
    ensures
        r == s_reflected_color(world.objects@, world.lights@, *comps, DEFAULT_REMAINING as nat),
        comps.object.material.reflective == 0 ==> r == (Color {
            red: 0i64,
            green: 0i64,
            blue: 0i64,
        }),
{
    reflected_color3(world, comps, DEFAULT_REMAINING)
}

/// The color arriving by refraction: black past the budget, through an
/// opaque surface, under a degenerate refractive pair, or under total
/// internal reflection; else the refracted ray's color scaled by
/// transparency.
pub fn refracted_color(world: &World, comps: &C, remaining: usize) -> (r: Color)
    requires
        world.wf(),
    ensures
        r == s_refracted_color(world.objects@, world.lights@, *comps, remaining as nat),
        remaining == 0 || comps.object.material.transparency == 0 || comps.n2 == 0 ==> r == (Color {
            red: 0i64,
            green: 0i64,
            blue: 0i64,
        }),
        (comps.n2 != 0 && sfmul(
            sfmul(sfdiv(comps.n1, comps.n2), sfdiv(comps.n1, comps.n2)),
            sfsub(SCALE, sfmul(s_dot(comps.eyev, comps.normalv), s_dot(comps.eyev, comps.normalv))),
        ) >= SCALE) ==> r == (Color { red: 0i64, green: 0i64, blue: 0i64 }),
    decreases remaining, 0int,
{
    if remaining == 0 || comps.object.material.transparency == 0 {
        return black();
    }
    if comps.n2 == 0 {
        return black();
    }
    let n_ratio: i64 = fx_div(comps.n1, comps.n2);
    let cos_i: i64 = dot(&comps.eyev, &comps.normalv);
    let sin2_t: i64 = fx_mul(fx_mul(n_ratio, n_ratio), fx_sub(SCALE, fx_mul(cos_i, cos_i)));
    if sin2_t >= SCALE {
        return black();
    }
    let cos_t: i64 = fx_sqrt(fx_sub(SCALE, sin2_t));
    let direction: Tuple = comps.normalv.scale(fx_sub(fx_mul(n_ratio, cos_i), cos_t)).sub(
        &comps.eyev.scale(n_ratio),
    );
    let refract_ray: Ray = ray(&comps.under_point, &direction);
    let c: Color = color_at3(world, &refract_ray, remaining - 1);
    c.scale(comps.object.material.transparency)
}

} // verus!
