//! The shape system: a closed sum of primitive surfaces plus two composite
//! variants (groups and CSG nodes), each instance carrying its material and
//! its transform chain with cached composites and inverses.
use crate::bounds::{s_box_hit, s_empty_box, BoundingBox};
use crate::bvh::{node_valid, BVHNode};
use crate::csg::CSG;
use crate::fx::{
    fx_abs, fx_add, fx_div, fx_equal, fx_equal_s, fx_max, fx_min, fx_mul, fx_neg, fx_sqrt, fx_sub,
    sfabs, sfadd, sfdiv, sfmax, sfmin, sfmul, sfneg, sfsqrt, sfsub, EPSILON, HUGE, NEG_HUGE, SCALE,
};
use crate::materials::{material, s_default_material, Material};
use crate::matrices::{
    identity_matrix, inverse_or_identity, s_det, s_identity, s_inverse, s_mat_mul, s_mat_tuple,
    s_transpose, transpose, Matrix,
};
use crate::rays::Ray;
use crate::tuples::{
    lemma_dot_self_nonneg, point, s_dot, s_normalize, s_sub, vector, Tuple,
};
use vstd::prelude::*;

verus! {

#[derive(Clone, Copy, Debug, PartialEq, Eq, Structural)]
pub struct Sphere {}

#[derive(Clone, Copy, Debug, PartialEq, Eq, Structural)]
pub struct Plane {}

#[derive(Clone, Copy, Debug, PartialEq, Eq, Structural)]
pub struct Cube {}

#[derive(Clone, Copy, Debug, PartialEq, Eq, Structural)]
pub struct TestShape {}

#[derive(Clone, Copy, Debug, PartialEq, Eq, Structural)]
pub struct Cylinder {
    pub minimum: i64,
    pub maximum: i64,
    pub closed: bool,
}

#[derive(Clone, Copy, Debug, PartialEq, Eq, Structural)]
pub struct Cone {
    pub minimum: i64,
    pub maximum: i64,
    pub closed: bool,
}

#[derive(Clone, Copy, Debug, PartialEq, Eq, Structural)]
pub struct Triangle {
    pub p1: Tuple,
    pub p2: Tuple,
    pub p3: Tuple,
    pub e1: Tuple,
    pub e2: Tuple,
    pub normal: Tuple,
}

#[derive(Clone, Copy, Debug, PartialEq, Eq, Structural)]
pub struct SmoothTriangle {
    pub p1: Tuple,
    pub p2: Tuple,
    pub p3: Tuple,
    pub e1: Tuple,
    pub e2: Tuple,
    pub n1: Tuple,
    pub n2: Tuple,
    pub n3: Tuple,
}

/// A collection of child shapes with a joint local-space bounding box and,
/// once frozen, a bounding-volume hierarchy over the children.
pub struct Group {
    pub children: Vec<Shape>,
    pub bb: BoundingBox,
    pub bvh: Option<BVHNode>,
}

pub enum ShapeType {
    Sphere(Sphere),
    Plane(Plane),
    Cube(Cube),
    Cylinder(Cylinder),
    Cone(Cone),
    Group(Group),
    Triangle(Triangle),
    SmoothTriangle(SmoothTriangle),
    CSG(CSG),
    TestShape(TestShape),
}

/// A shape instance: variant payload, material, shadow flag, and the
/// transform chain.  The three cached matrices are derived: the composed
/// local-to-world transform, its inverse, and the local transform's inverse.
pub struct Shape {
    pub material: Material,
    pub shape_type: ShapeType,
    pub shadow: bool,
    pub local_to_parent_transform: Matrix,
    pub parent_to_global_transform: Matrix,
    pub cached_transform: Matrix,
    pub cached_inverse: Matrix,
    pub cached_local_inverse: Matrix,
}

/// Every shape of a list is a primitive.
pub open spec fn all_prim_shapes(s: Seq<Shape>) -> bool {
    forall|i: int| 0 <= i < s.len() ==> is_primitive(#[trigger] s[i])
}

/// A shape with a single local surface (not a group or CSG node).
pub open spec fn is_primitive(s: Shape) -> bool {
    !(s.shape_type is Group) && !(s.shape_type is CSG)
}

/// Structural equality of two primitive shapes: material, payload and
/// local transform; the cached fields are derived and deliberately ignored.
pub open spec fn prim_eq(a: Shape, b: Shape) -> bool {
    a.material == b.material && a.shape_type == b.shape_type && a.local_to_parent_transform
        == b.local_to_parent_transform
}

/// Whether a (possibly composite) shape contains a shape structurally equal
/// to the primitive `q`, itself included.
pub open spec fn s_includes(s: Shape, q: Shape) -> bool
    decreases s, 0int,
{
    match s.shape_type {
        ShapeType::Group(g) => exists|i: int|
            0 <= i < g.children@.len() && s_includes(#[trigger] g.children@[i], q),
        ShapeType::CSG(c) => exists|i: int|
            0 <= i < c.children@.len() && s_includes(#[trigger] c.children@[i], q),
        _ => prim_eq(s, q),
    }
}

/// Well-formedness of a shape tree: every CSG node has exactly two
/// children, and every frozen group's tree indexes within its child list.
pub open spec fn s_wf_shape(s: Shape) -> bool
    decreases s, 0int,
{
    match s.shape_type {
        ShapeType::Group(g) => {
            &&& (match g.bvh {
                Some(node) => node_valid(node, g.children@.len() as int),
                None => true,
            })
            &&& forall|i: int|
                0 <= i < g.children@.len() ==> s_wf_shape(#[trigger] g.children@[i])
        },
        ShapeType::CSG(c) => {
            &&& c.children@.len() == 2
            &&& forall|i: int|
                0 <= i < c.children@.len() ==> s_wf_shape(#[trigger] c.children@[i])
        },
        _ => true,
    }
}

impl Shape {
    pub open spec fn wf_shape(&self) -> bool {
        s_wf_shape(*self)
    }

    pub fn transform(&self) -> (r: Matrix)
        ensures
            r == self.cached_transform,
    {
        self.cached_transform
    }

    pub fn inverse(&self) -> (r: Matrix)
        ensures
            r == self.cached_inverse,
    {
        self.cached_inverse
    }

    pub fn local_transform(&self) -> (r: Matrix)
        ensures
            r == self.local_to_parent_transform,
    {
        self.local_to_parent_transform
    }

    pub fn local_inverse(&self) -> (r: Matrix)
        ensures
            r == self.cached_local_inverse,
    {
        self.cached_local_inverse
    }

    /// An equal copy of a primitive shape (its payload carries no heap).
    pub fn snapshot(&self) -> (r: Shape)
        requires
            is_primitive(*self),
        ensures
            r == *self,
    {
        let shape_type: ShapeType = match &self.shape_type {
            ShapeType::Sphere(p) => ShapeType::Sphere(*p),
            ShapeType::Plane(p) => ShapeType::Plane(*p),
            ShapeType::Cube(p) => ShapeType::Cube(*p),
            ShapeType::Cylinder(p) => ShapeType::Cylinder(*p),
            ShapeType::Cone(p) => ShapeType::Cone(*p),
            ShapeType::Triangle(p) => ShapeType::Triangle(*p),
            ShapeType::SmoothTriangle(p) => ShapeType::SmoothTriangle(*p),
            ShapeType::TestShape(p) => ShapeType::TestShape(*p),
            ShapeType::Group(_) => {
                proof {
                    assert(false);
                }
                ShapeType::TestShape(TestShape {  })
            },
            ShapeType::CSG(_) => {
                proof {
                    assert(false);
                }
                ShapeType::TestShape(TestShape {  })
            },
        };
        Shape {
            material: self.material,
            shape_type,
            shadow: self.shadow,
            local_to_parent_transform: self.local_to_parent_transform,
            parent_to_global_transform: self.parent_to_global_transform,
            cached_transform: self.cached_transform,
            cached_inverse: self.cached_inverse,
            cached_local_inverse: self.cached_local_inverse,
        }
    }

    /// Structural equality with a primitive shape (the query is always a
    /// primitive: hit records only ever hold primitives).
    pub fn equals_primitive(&self, q: &Shape) -> (r: bool)
        requires
            is_primitive(*self),
            is_primitive(*q),
        ensures
            r == prim_eq(*self, *q),
    {
        if !crate::materials::material_eq(&self.material, &q.material) {
            return false;
        }
        if !(self.local_to_parent_transform == q.local_to_parent_transform) {
            return false;
        }
        match (&self.shape_type, &q.shape_type) {
            (ShapeType::Sphere(a), ShapeType::Sphere(b)) => a == b,
            (ShapeType::Plane(a), ShapeType::Plane(b)) => a == b,
            (ShapeType::Cube(a), ShapeType::Cube(b)) => a == b,
            (ShapeType::Cylinder(a), ShapeType::Cylinder(b)) => a == b,
            (ShapeType::Cone(a), ShapeType::Cone(b)) => a == b,
            (ShapeType::Triangle(a), ShapeType::Triangle(b)) => a == b,
            (ShapeType::SmoothTriangle(a), ShapeType::SmoothTriangle(b)) => a == b,
            (ShapeType::TestShape(a), ShapeType::TestShape(b)) => a == b,
            _ => false,
        }
    }

    /// Whether this shape or any descendant equals the primitive `q`.
    pub fn includes(&self, q: &Shape) -> (r: bool)
        requires
            is_primitive(*q),
        ensures
            r == s_includes(*self, *q),
        decreases *self, 1int,
    {
        match &self.shape_type {
            ShapeType::Group(g) => includes_in_children(&g.children, q),
            ShapeType::CSG(c) => includes_in_children(&c.children, q),
            _ => self.equals_primitive(q),
        }
    }
}

/// An equal copy of a primitive shape.
pub fn primitive_snapshot(s: &Shape) -> (r: Shape)
    requires
        is_primitive(*s),
    ensures
        r == *s,
{
    s.snapshot()
}

/// A placeholder shape: identity transforms, default material, a test
/// surface that records the ray it is probed with.
pub fn test_shape() -> (r: Shape)
    ensures
        r.material == s_default_material(),
        r.shape_type == ShapeType::TestShape(TestShape {  }),
        r.shadow == true,
        r.local_to_parent_transform == s_identity(),
        r.parent_to_global_transform == s_identity(),
        r.cached_transform == s_identity(),
        r.cached_inverse == s_identity(),
        r.cached_local_inverse == s_identity(),
        is_primitive(r),
        r.wf_shape(),
{
    Shape {
        parent_to_global_transform: identity_matrix(),
        local_to_parent_transform: identity_matrix(),
        cached_transform: identity_matrix(),
        cached_inverse: identity_matrix(),
        cached_local_inverse: identity_matrix(),
        shadow: true,
        material: material(),
        shape_type: ShapeType::TestShape(TestShape {  }),
    }
}

/// The unit sphere at the origin.
pub fn sphere() -> (r: Shape)
    ensures
        r == (Shape { shape_type: ShapeType::Sphere(Sphere {  }), ..test_shape_value() }),
{
    let mut s: Shape = test_shape();
    s.shape_type = ShapeType::Sphere(Sphere {  });
    s
}

/// The value `test_shape` builds, named for contracts.
pub open spec fn test_shape_value() -> Shape {
    Shape {
        parent_to_global_transform: s_identity(),
        local_to_parent_transform: s_identity(),
        cached_transform: s_identity(),
        cached_inverse: s_identity(),
        cached_local_inverse: s_identity(),
        shadow: true,
        material: s_default_material(),
        shape_type: ShapeType::TestShape(TestShape {  }),
    }
}

/// A sphere of glass: fully transparent, refractive index 1.5.
pub fn glass_sphere() -> (r: Shape)
    ensures
        r == (Shape {
            shape_type: ShapeType::Sphere(Sphere {  }),
            material: Material {
                transparency: 100_000i64,
                refractive_index: 150_000i64,
                ..s_default_material()
            },
            ..test_shape_value()
        }),
{
    let mut m: Material = material();
    m.transparency = 100_000;
    m.refractive_index = 150_000;
    let mut s: Shape = sphere();
    s.material = m;
    s
}

/// The plane `y == 0`.
pub fn plane() -> (r: Shape)
    ensures
        r == (Shape { shape_type: ShapeType::Plane(Plane {  }), ..test_shape_value() }),
{
    let mut s: Shape = test_shape();
    s.shape_type = ShapeType::Plane(Plane {  });
    s
}

/// The axis-aligned cube from -1 to 1.
pub fn cube() -> (r: Shape)
    ensures
        r == (Shape { shape_type: ShapeType::Cube(Cube {  }), ..test_shape_value() }),
{
    let mut s: Shape = test_shape();
    s.shape_type = ShapeType::Cube(Cube {  });
    s
}

/// The unit cylinder along the y axis, unbounded and open by default.
pub fn cylinder() -> (r: Shape)
    ensures
        r == (Shape {
            shape_type: ShapeType::Cylinder(
                Cylinder { maximum: HUGE, minimum: NEG_HUGE, closed: false },
            ),
            ..test_shape_value()
        }),
{
    let mut s: Shape = test_shape();
    s.shape_type = ShapeType::Cylinder(Cylinder { maximum: HUGE, minimum: NEG_HUGE, closed: false });
    s
}

/// The unit double cone along the y axis, unbounded and open by default.
pub fn cone() -> (r: Shape)
    ensures
        r == (Shape {
            shape_type: ShapeType::Cone(Cone { maximum: HUGE, minimum: NEG_HUGE, closed: false }),
            ..test_shape_value()
        }),
{
    let mut s: Shape = test_shape();
    s.shape_type = ShapeType::Cone(Cone { maximum: HUGE, minimum: NEG_HUGE, closed: false });
    s
}

/// A flat triangle with its edges and face normal derived from the corners.
pub fn triangle(p1: &Tuple, p2: &Tuple, p3: &Tuple) -> (r: Shape)
    ensures
        r == (Shape {
            shape_type: ShapeType::Triangle(
                Triangle {
                    p1: *p1,
                    p2: *p2,
                    p3: *p3,
                    e1: s_sub(*p2, *p1),
                    e2: s_sub(*p3, *p1),
                    normal: s_normalize(crate::tuples::s_cross(s_sub(*p3, *p1), s_sub(*p2, *p1))),
                },
            ),
            ..test_shape_value()
        }),
{
    let mut s: Shape = test_shape();
    let e1: Tuple = p2.sub(p1);
    let e2: Tuple = p3.sub(p1);
    let normal: Tuple = e2.cross(&e1).normalized();
    s.shape_type = ShapeType::Triangle(Triangle { p1: *p1, p2: *p2, p3: *p3, e1, e2, normal });
    s
}

/// A triangle with a normal at each corner, interpolated at hits.
pub fn smooth_triangle(p1: &Tuple, p2: &Tuple, p3: &Tuple, n1: &Tuple, n2: &Tuple, n3: &Tuple) -> (r:
    Shape)
    ensures
        r == (Shape {
            shape_type: ShapeType::SmoothTriangle(
                SmoothTriangle {
                    p1: *p1,
                    p2: *p2,
                    p3: *p3,
                    e1: s_sub(*p2, *p1),
                    e2: s_sub(*p3, *p1),
                    n1: *n1,
                    n2: *n2,
                    n3: *n3,
                },
            ),
            ..test_shape_value()
        }),
{
    let mut s: Shape = test_shape();
    let e1: Tuple = p2.sub(p1);
    let e2: Tuple = p3.sub(p1);
    s.shape_type = ShapeType::SmoothTriangle(
        SmoothTriangle { p1: *p1, p2: *p2, p3: *p3, e1, e2, n1: *n1, n2: *n2, n3: *n3 },
    );
    s
}

/// An empty, unfrozen group.
pub fn group() -> (r: Shape)
    ensures
        r.shape_type matches ShapeType::Group(g) && g.children@.len() == 0 && g.bb == s_empty_box()
            && g.bvh is None,
        r.material == s_default_material(),
        r.shadow == true,
        r.local_to_parent_transform == s_identity(),
        r.parent_to_global_transform == s_identity(),
        r.cached_transform == s_identity(),
        r.cached_inverse == s_identity(),
        r.cached_local_inverse == s_identity(),
        r.wf_shape(),
{
    let mut s: Shape = test_shape();
    s.shape_type = ShapeType::Group(
        Group { children: Vec::new(), bb: BoundingBox::new_empty(), bvh: None },
    );
    s
}

/// Hit times of a ray against the unit sphere, by the quadratic formula.
/// A degenerate (zero-ish) direction yields no hits.
pub open spec fn s_sphere_ts(ray: Ray) -> Seq<i64> {
    let sphere_to_ray = s_sub(ray.origin, Tuple { x: 0i64, y: 0i64, z: 0i64, w: SCALE });
    let a = s_dot(ray.direction, ray.direction);
    let b = sfmul(200_000i64, s_dot(ray.direction, sphere_to_ray));
    let c = sfsub(s_dot(sphere_to_ray, sphere_to_ray), SCALE);
    let disc = sfsub(sfmul(b, b), sfmul(sfmul(400_000i64, a), c));
    if a == 0 || disc < 0 {
        Seq::empty()
    } else {
        let sq = sfsqrt(disc);
        let two_a = sfmul(200_000i64, a);
        seq![sfdiv(sfsub(sfneg(b), sq), two_a), sfdiv(sfadd(sfneg(b), sq), two_a)]
    }
}

impl Sphere {
    pub fn local_intersect_ts(&self, ray: &Ray) -> (r: Vec<i64>)
        ensures
            r@ == s_sphere_ts(*ray),
    {
        let origin: Tuple = point(0, 0, 0);
        let sphere_to_ray: Tuple = ray.origin.sub(&origin);
        let a: i64 = ray.direction.dot(&ray.direction);
        let b: i64 = fx_mul(200_000, ray.direction.dot(&sphere_to_ray));
        let c: i64 = fx_sub(sphere_to_ray.dot(&sphere_to_ray), SCALE);
        let disc: i64 = fx_sub(fx_mul(b, b), fx_mul(fx_mul(400_000, a), c));
        let mut v: Vec<i64> = Vec::new();
        if a == 0 || disc < 0 {
            proof {
                assert(v@ =~= s_sphere_ts(*ray));
            }
            return v;
        }
        let sq: i64 = fx_sqrt(disc);
        let two_a: i64 = fx_mul(200_000, a);
        proof {
            crate::fx::lemma_fmul_units(2, a as int);
        }
        v.push(fx_div(fx_sub(fx_neg(b), sq), two_a));
        v.push(fx_div(fx_add(fx_neg(b), sq), two_a));
        proof {
            assert(v@ =~= s_sphere_ts(*ray));
        }
        v
    }

    pub fn local_normal_at(&self, object_point: &Tuple) -> (r: Tuple)
        ensures
            r == s_sub(*object_point, Tuple { x: 0i64, y: 0i64, z: 0i64, w: SCALE }),
    {
        let origin: Tuple = point(0, 0, 0);
        object_point.sub(&origin)
    }

    pub fn local_bounding_box(&self) -> (r: BoundingBox)
        ensures
            r == (BoundingBox {
                min: Tuple { x: -SCALE as i64, y: -SCALE as i64, z: -SCALE as i64, w: SCALE },
                max: Tuple { x: SCALE, y: SCALE, z: SCALE, w: SCALE },
            }),
    {
        BoundingBox::new(point(-SCALE, -SCALE, -SCALE), point(SCALE, SCALE, SCALE))
    }
}

/// Hit time of a ray against the plane `y == 0`: a near-horizontal ray
/// misses.
pub open spec fn s_plane_ts(ray: Ray) -> Seq<i64> {
    if sfabs(ray.direction.y) < EPSILON {
        Seq::empty()
    } else {
        seq![sfdiv(sfneg(ray.origin.y), ray.direction.y)]
    }
}

impl Plane {
    pub fn local_intersect_ts(&self, ray: &Ray) -> (r: Vec<i64>)
        ensures
            r@ == s_plane_ts(*ray),
    {
        let mut v: Vec<i64> = Vec::new();
        if fx_abs(ray.direction.y) < EPSILON {
            proof {
                assert(v@ =~= s_plane_ts(*ray));
            }
            return v;
        }
        v.push(fx_div(fx_neg(ray.origin.y), ray.direction.y));
        proof {
            assert(v@ =~= s_plane_ts(*ray));
        }
        v
    }

    pub fn local_normal_at(&self) -> (r: Tuple)
        ensures
            r == (Tuple { x: 0i64, y: SCALE, z: 0i64, w: 0i64 }),
    {
        vector(0, SCALE, 0)
    }

    pub fn local_bounding_box(&self) -> (r: BoundingBox)
        ensures
            r == (BoundingBox {
                min: Tuple { x: NEG_HUGE, y: 0i64, z: NEG_HUGE, w: SCALE },
                max: Tuple { x: HUGE, y: 0i64, z: HUGE, w: SCALE },
            }),
    {
        BoundingBox::new(point(NEG_HUGE, 0, NEG_HUGE), point(HUGE, 0, HUGE))
    }
}

/// Hit times of a ray against the unit cube, by the slab test.
pub open spec fn s_cube_ts(ray: Ray) -> Seq<i64> {
    let bb = BoundingBox {
        min: Tuple { x: -SCALE as i64, y: -SCALE as i64, z: -SCALE as i64, w: SCALE },
        max: Tuple { x: SCALE, y: SCALE, z: SCALE, w: SCALE },
    };
    if s_box_hit(bb, ray) {
        seq![
            crate::bounds::s_box_tmin_tmax(bb, ray).0,
            crate::bounds::s_box_tmin_tmax(bb, ray).1,
        ]
    } else {
        Seq::empty()
    }
}

impl Cube {
    pub fn local_intersect_ts(&self, ray: &Ray) -> (r: Vec<i64>)
        ensures
            r@ == s_cube_ts(*ray),
    {
        let bb: BoundingBox = BoundingBox::new(
            point(-SCALE, -SCALE, -SCALE),
            point(SCALE, SCALE, SCALE),
        );
        bb.local_intersect_ts(ray)
    }

    /// The face normal: the axis of the largest coordinate magnitude.
    pub fn local_normal_at(&self, object_point: &Tuple) -> (r: Tuple)
        ensures
            r == ({
                let p = *object_point;
                let m = sfmax(sfmax(sfabs(p.x), sfabs(p.y)), sfabs(p.z));
                if m == sfabs(p.x) {
                    Tuple { x: p.x, y: 0i64, z: 0i64, w: 0i64 }
                } else if m == sfabs(p.y) {
                    Tuple { x: 0i64, y: p.y, z: 0i64, w: 0i64 }
                } else {
                    Tuple { x: 0i64, y: 0i64, z: p.z, w: 0i64 }
                }
            }),
    {
        let ax: i64 = fx_abs(object_point.x);
        let ay: i64 = fx_abs(object_point.y);
        let az: i64 = fx_abs(object_point.z);
        let m: i64 = fx_max(fx_max(ax, ay), az);
        if m == ax {
            vector(object_point.x, 0, 0)
        } else if m == ay {
            vector(0, object_point.y, 0)
        } else {
            vector(0, 0, object_point.z)
        }
    }

    pub fn local_bounding_box(&self) -> (r: BoundingBox)
        ensures
            r == (BoundingBox {
                min: Tuple { x: -SCALE as i64, y: -SCALE as i64, z: -SCALE as i64, w: SCALE },
                max: Tuple { x: SCALE, y: SCALE, z: SCALE, w: SCALE },
            }),
    {
        BoundingBox::new(point(-SCALE, -SCALE, -SCALE), point(SCALE, SCALE, SCALE))
    }
}

/// Whether the point reached at `t` lies within one unit of the y axis
/// (the round face of a cylinder cap).
pub open spec fn s_check_cap(ray: Ray, t: i64) -> bool {
    let x = sfadd(ray.origin.x, sfmul(t, ray.direction.x));
    let z = sfadd(ray.origin.z, sfmul(t, ray.direction.z));
    sfadd(sfmul(x, x), sfmul(z, z)) <= SCALE
}

fn check_cap(ray: &Ray, t: i64) -> (r: bool)
    ensures
        r == s_check_cap(*ray, t),
{
    let x: i64 = fx_add(ray.origin.x, fx_mul(t, ray.direction.x));
    let z: i64 = fx_add(ray.origin.z, fx_mul(t, ray.direction.z));
    fx_add(fx_mul(x, x), fx_mul(z, z)) <= SCALE
}

/// Cap hits of a closed cylinder: at most one per bound, where the ray
/// meets the bounding plane within the cap's radius.
pub open spec fn s_cyl_caps(cyl: Cylinder, ray: Ray) -> Seq<i64> {
    if !cyl.closed || fx_equal_s(ray.direction.y as int, 0) {
        Seq::empty()
    } else {
        let tlo = sfdiv(sfsub(cyl.minimum, ray.origin.y), ray.direction.y);
        let thi = sfdiv(sfsub(cyl.maximum, ray.origin.y), ray.direction.y);
        let lo: Seq<i64> = if s_check_cap(ray, tlo) {
            seq![tlo]
        } else {
            Seq::empty()
        };
        let hi: Seq<i64> = if s_check_cap(ray, thi) {
            seq![thi]
        } else {
            Seq::empty()
        };
        lo + hi
    }
}

fn cyl_intersect_caps(cyl: &Cylinder, ray: &Ray, xs: &mut Vec<i64>)
    ensures
        final(xs)@ == old(xs)@ + s_cyl_caps(*cyl, *ray),
{
    if !cyl.closed || fx_equal(ray.direction.y, 0) {
        proof {
            assert(old(xs)@ + s_cyl_caps(*cyl, *ray) =~= old(xs)@);
        }
        return ;
    }
    let tlo: i64 = fx_div(fx_sub(cyl.minimum, ray.origin.y), ray.direction.y);
    if check_cap(ray, tlo) {
        xs.push(tlo);
    }
    let thi: i64 = fx_div(fx_sub(cyl.maximum, ray.origin.y), ray.direction.y);
    if check_cap(ray, thi) {
        xs.push(thi);
    }
    proof {
        assert(xs@ =~= old(xs)@ + s_cyl_caps(*cyl, *ray));
    }
}

/// Side hits of a cylinder: quadratic in x/z, kept when the hit's height
/// lies strictly between the bounds; cap hits appended.
pub open spec fn s_cylinder_ts(cyl: Cylinder, ray: Ray) -> Seq<i64> {
    let d = ray.direction;
    let o = ray.origin;
    let a = sfadd(sfmul(d.x, d.x), sfmul(d.z, d.z));
    if fx_equal_s(a as int, 0) {
        s_cyl_caps(cyl, ray)
    } else {
        let b = sfadd(sfmul(sfmul(200_000i64, o.x), d.x), sfmul(sfmul(200_000i64, o.z), d.z));
        let c = sfsub(sfadd(sfmul(o.x, o.x), sfmul(o.z, o.z)), SCALE);
        let disc = sfsub(sfmul(b, b), sfmul(sfmul(400_000i64, a), c));
        if disc < 0 {
            Seq::empty()
        } else {
            let sq = sfsqrt(disc);
            let two_a = sfmul(200_000i64, a);
            let ta = sfdiv(sfsub(sfneg(b), sq), two_a);
            let tb = sfdiv(sfadd(sfneg(b), sq), two_a);
            let t0 = sfmin(ta, tb);
            let t1 = sfmax(ta, tb);
            let y0 = sfadd(o.y, sfmul(t0, d.y));
            let s0: Seq<i64> = if cyl.minimum < y0 && y0 < cyl.maximum {
                seq![t0]
            } else {
                Seq::empty()
            };
            let y1 = sfadd(o.y, sfmul(t1, d.y));
            let s1: Seq<i64> = if cyl.minimum < y1 && y1 < cyl.maximum {
                seq![t1]
            } else {
                Seq::empty()
            };
            s0 + s1 + s_cyl_caps(cyl, ray)
        }
    }
}

impl Cylinder {
    pub fn local_intersect_ts(&self, ray: &Ray) -> (r: Vec<i64>)
        ensures
            r@ == s_cylinder_ts(*self, *ray),
    {
        let mut xs: Vec<i64> = Vec::new();
        let d: Tuple = ray.direction;
        let o: Tuple = ray.origin;
        let a: i64 = fx_add(fx_mul(d.x, d.x), fx_mul(d.z, d.z));
        if fx_equal(a, 0) {
            cyl_intersect_caps(self, ray, &mut xs);
            proof {
                assert(xs@ =~= s_cylinder_ts(*self, *ray));
            }
            return xs;
        }
        let b: i64 = fx_add(fx_mul(fx_mul(200_000, o.x), d.x), fx_mul(fx_mul(200_000, o.z), d.z));
        let c: i64 = fx_sub(fx_add(fx_mul(o.x, o.x), fx_mul(o.z, o.z)), SCALE);
        let disc: i64 = fx_sub(fx_mul(b, b), fx_mul(fx_mul(400_000, a), c));
        if disc < 0 {
            let v: Vec<i64> = Vec::new();
            proof {
                assert(v@ =~= s_cylinder_ts(*self, *ray));
            }
            return v;
        }
        let sq: i64 = fx_sqrt(disc);
        proof {
            crate::fx::lemma_fmul_units(2, a as int);
        }
        let two_a: i64 = fx_mul(200_000, a);
        let ta: i64 = fx_div(fx_sub(fx_neg(b), sq), two_a);
        let tb: i64 = fx_div(fx_add(fx_neg(b), sq), two_a);
        let t0: i64 = fx_min(ta, tb);
        let t1: i64 = fx_max(ta, tb);
        let y0: i64 = fx_add(o.y, fx_mul(t0, d.y));
        if self.minimum < y0 && y0 < self.maximum {
            xs.push(t0);
        }
        let y1: i64 = fx_add(o.y, fx_mul(t1, d.y));
        if self.minimum < y1 && y1 < self.maximum {
            xs.push(t1);
        }
        cyl_intersect_caps(self, ray, &mut xs);
        proof {
            assert(xs@ =~= s_cylinder_ts(*self, *ray));
        }
        xs
    }

    /// The side or cap normal, split by the hit's height.
    pub fn local_normal_at(&self, p: &Tuple) -> (r: Tuple)
        ensures
            r == ({
                let dist = sfadd(sfmul(p.x, p.x), sfmul(p.z, p.z));
                if dist < SCALE && p.y >= sfsub(self.maximum, EPSILON) {
                    Tuple { x: 0i64, y: SCALE, z: 0i64, w: 0i64 }
                } else if dist < SCALE && p.y <= sfadd(self.minimum, EPSILON) {
                    Tuple { x: 0i64, y: -SCALE as i64, z: 0i64, w: 0i64 }
                } else {
                    Tuple { x: p.x, y: 0i64, z: p.z, w: 0i64 }
                }
            }),
    {
        let dist: i64 = fx_add(fx_mul(p.x, p.x), fx_mul(p.z, p.z));
        if dist < SCALE && p.y >= fx_sub(self.maximum, EPSILON) {
            vector(0, SCALE, 0)
        } else if dist < SCALE && p.y <= fx_add(self.minimum, EPSILON) {
            vector(0, -SCALE, 0)
        } else {
            vector(p.x, 0, p.z)
        }
    }

    pub fn local_bounding_box(&self) -> (r: BoundingBox)
        ensures
            r == (BoundingBox {
                min: Tuple { x: -SCALE as i64, y: self.minimum, z: -SCALE as i64, w: SCALE },
                max: Tuple { x: SCALE, y: self.maximum, z: SCALE, w: SCALE },
            }),
    {
        BoundingBox::new(point(-SCALE, self.minimum, -SCALE), point(SCALE, self.maximum, SCALE))
    }
}

/// Cap hits of a closed cone: the cap radius grows with its height.
pub open spec fn s_cone_caps(cone: Cone, ray: Ray) -> Seq<i64> {
    if !cone.closed || fx_equal_s(ray.direction.y as int, 0) {
        Seq::empty()
    } else {
        let tlo = sfdiv(sfsub(cone.minimum, ray.origin.y), ray.direction.y);
        let thi = sfdiv(sfsub(cone.maximum, ray.origin.y), ray.direction.y);
        let lo: Seq<i64> = if s_cone_cap_hit(ray, tlo, cone.minimum) {
            seq![tlo]
        } else {
            Seq::empty()
        };
        let hi: Seq<i64> = if s_cone_cap_hit(ray, thi, cone.maximum) {
            seq![thi]
        } else {
            Seq::empty()
        };
        lo + hi
    }
}

pub open spec fn s_cone_cap_hit(ray: Ray, t: i64, bound: i64) -> bool {
    let x = sfadd(ray.origin.x, sfmul(t, ray.direction.x));
    let z = sfadd(ray.origin.z, sfmul(t, ray.direction.z));
    sfadd(sfmul(x, x), sfmul(z, z)) < sfabs(bound)
}

fn cone_intersect_caps(cone: &Cone, ray: &Ray, xs: &mut Vec<i64>)
    ensures
        final(xs)@ == old(xs)@ + s_cone_caps(*cone, *ray),
{
    if !cone.closed || fx_equal(ray.direction.y, 0) {
        proof {
            assert(old(xs)@ + s_cone_caps(*cone, *ray) =~= old(xs)@);
        }
        return ;
    }
    let tlo: i64 = fx_div(fx_sub(cone.minimum, ray.origin.y), ray.direction.y);
    let xlo: i64 = fx_add(ray.origin.x, fx_mul(tlo, ray.direction.x));
    let zlo: i64 = fx_add(ray.origin.z, fx_mul(tlo, ray.direction.z));
    if fx_add(fx_mul(xlo, xlo), fx_mul(zlo, zlo)) < fx_abs(cone.minimum) {
        xs.push(tlo);
    }
    let thi: i64 = fx_div(fx_sub(cone.maximum, ray.origin.y), ray.direction.y);
    let xhi: i64 = fx_add(ray.origin.x, fx_mul(thi, ray.direction.x));
    let zhi: i64 = fx_add(ray.origin.z, fx_mul(thi, ray.direction.z));
    if fx_add(fx_mul(xhi, xhi), fx_mul(zhi, zhi)) < fx_abs(cone.maximum) {
        xs.push(thi);
    }
    proof {
        assert(xs@ =~= old(xs)@ + s_cone_caps(*cone, *ray));
    }
}

/// Side hits of a double cone, with the same height filter as the
/// cylinder; a ray parallel to one half's surface yields a single hit.
pub open spec fn s_cone_ts(cone: Cone, ray: Ray) -> Seq<i64> {
    let d = ray.direction;
    let o = ray.origin;
    let a = sfadd(sfsub(sfmul(d.x, d.x), sfmul(d.y, d.y)), sfmul(d.z, d.z));
    let b = sfmul(
        200_000i64,
        sfadd(sfsub(sfmul(o.x, d.x), sfmul(o.y, d.y)), sfmul(o.z, d.z)),
    );
    let c = sfadd(sfsub(sfmul(o.x, o.x), sfmul(o.y, o.y)), sfmul(o.z, o.z));
    if fx_equal_s(a as int, 0) {
        let head: Seq<i64> = if !fx_equal_s(b as int, 0) {
            seq![sfdiv(sfneg(c), sfmul(200_000i64, b))]
        } else {
            Seq::empty()
        };
        head + s_cone_caps(cone, ray)
    } else {
        let disc = sfsub(sfmul(b, b), sfmul(sfmul(400_000i64, a), c));
        if disc < 0 {
            Seq::empty()
        } else {
            let sq = sfsqrt(disc);
            let two_a = sfmul(200_000i64, a);
            let ta = sfdiv(sfsub(sfneg(b), sq), two_a);
            let tb = sfdiv(sfadd(sfneg(b), sq), two_a);
            let t0 = sfmin(ta, tb);
            let t1 = sfmax(ta, tb);
            let y0 = sfadd(o.y, sfmul(t0, d.y));
            let s0: Seq<i64> = if cone.minimum < y0 && y0 < cone.maximum {
                seq![t0]
            } else {
                Seq::empty()
            };
            let y1 = sfadd(o.y, sfmul(t1, d.y));
            let s1: Seq<i64> = if cone.minimum < y1 && y1 < cone.maximum {
                seq![t1]
            } else {
                Seq::empty()
            };
            s0 + s1 + s_cone_caps(cone, ray)
        }
    }
}

impl Cone {
    #[verifier::rlimit(60)]
    pub fn local_intersect_ts(&self, ray: &Ray) -> (r: Vec<i64>)
        ensures
            r@ == s_cone_ts(*self, *ray),
    {
        let mut xs: Vec<i64> = Vec::new();
        let d: Tuple = ray.direction;
        let o: Tuple = ray.origin;
        let a: i64 = fx_add(fx_sub(fx_mul(d.x, d.x), fx_mul(d.y, d.y)), fx_mul(d.z, d.z));
        let b: i64 = fx_mul(
            200_000,
            fx_add(fx_sub(fx_mul(o.x, d.x), fx_mul(o.y, d.y)), fx_mul(o.z, d.z)),
        );
        let c: i64 = fx_add(fx_sub(fx_mul(o.x, o.x), fx_mul(o.y, o.y)), fx_mul(o.z, o.z));
        if fx_equal(a, 0) {
            if !fx_equal(b, 0) {
                proof {
                    crate::fx::lemma_fmul_units(2, b as int);
                }
                xs.push(fx_div(fx_neg(c), fx_mul(200_000, b)));
            }
            cone_intersect_caps(self, ray, &mut xs);
            proof {
                assert(xs@ =~= s_cone_ts(*self, *ray));
            }
            return xs;
        }
        let disc: i64 = fx_sub(fx_mul(b, b), fx_mul(fx_mul(400_000, a), c));
        if disc < 0 {
            let v: Vec<i64> = Vec::new();
            proof {
                assert(v@ =~= s_cone_ts(*self, *ray));
            }
            return v;
        }
        let sq: i64 = fx_sqrt(disc);
        proof {
            crate::fx::lemma_fmul_units(2, a as int);
        }
        let two_a: i64 = fx_mul(200_000, a);
        let ta: i64 = fx_div(fx_sub(fx_neg(b), sq), two_a);
        let tb: i64 = fx_div(fx_add(fx_neg(b), sq), two_a);
        let t0: i64 = fx_min(ta, tb);
        let t1: i64 = fx_max(ta, tb);
        let y0: i64 = fx_add(o.y, fx_mul(t0, d.y));
        if self.minimum < y0 && y0 < self.maximum {
            xs.push(t0);
        }
        let y1: i64 = fx_add(o.y, fx_mul(t1, d.y));
        if self.minimum < y1 && y1 < self.maximum {
            xs.push(t1);
        }
        cone_intersect_caps(self, ray, &mut xs);
        proof {
            assert(xs@ =~= s_cone_ts(*self, *ray));
        }
        xs
    }

    /// The cap or slant normal; on the slant the vertical part is the
    /// distance from the axis, pointing against the hit's half.
    pub fn local_normal_at(&self, p: &Tuple) -> (r: Tuple)
        ensures
            r == ({
                let dist = sfadd(sfmul(p.x, p.x), sfmul(p.z, p.z));
                if dist < SCALE && p.y >= sfsub(self.maximum, EPSILON) {
                    Tuple { x: 0i64, y: SCALE, z: 0i64, w: 0i64 }
                } else if dist < SCALE && p.y <= sfadd(self.minimum, EPSILON) {
                    Tuple { x: 0i64, y: -SCALE as i64, z: 0i64, w: 0i64 }
                } else {
                    let yy = sfsqrt(dist);
                    let y2 = if p.y > 0 {
                        sfneg(yy)
                    } else {
                        yy
                    };
                    Tuple { x: p.x, y: y2, z: p.z, w: 0i64 }
                }
            }),
    {
        let dist: i64 = fx_add(fx_mul(p.x, p.x), fx_mul(p.z, p.z));
        if dist < SCALE && p.y >= fx_sub(self.maximum, EPSILON) {
            vector(0, SCALE, 0)
        } else if dist < SCALE && p.y <= fx_add(self.minimum, EPSILON) {
            vector(0, -SCALE, 0)
        } else {
            proof {
                crate::fx::lemma_square_nonneg(p.x);
                crate::fx::lemma_square_nonneg(p.z);
            }
            let mut y: i64 = fx_sqrt(dist);
            if p.y > 0 {
                y = fx_neg(y);
            }
            vector(p.x, y, p.z)
        }
    }

    pub fn local_bounding_box(&self) -> (r: BoundingBox)
        ensures
            r == ({
                let extent = sfmax(sfabs(self.minimum), self.maximum);
                BoundingBox {
                    min: Tuple { x: sfneg(extent), y: self.minimum, z: sfneg(extent), w: SCALE },
                    max: Tuple { x: extent, y: self.maximum, z: extent, w: SCALE },
                }
            }),
    {
        let extent: i64 = fx_max(fx_abs(self.minimum), self.maximum);
        BoundingBox::new(
            point(fx_neg(extent), self.minimum, fx_neg(extent)),
            point(extent, self.maximum, extent),
        )
    }
}

/// The Moeller-Trumbore walk shared by both triangle kinds: the hit time
/// and barycentric coordinates, or nothing when the ray misses an edge or
/// runs parallel to the face.
pub open spec fn s_triangle_hit(e1: Tuple, e2: Tuple, p1: Tuple, ray: Ray) -> Option<
    (i64, i64, i64),
> {
    let dir_cross_e2 = crate::tuples::s_cross(ray.direction, e2);
    let det = s_dot(e1, dir_cross_e2);
    if fx_equal_s(det as int, 0) {
        None
    } else {
        let f = sfdiv(SCALE, det);
        let p1_to_origin = s_sub(ray.origin, p1);
        let u = sfmul(f, s_dot(p1_to_origin, dir_cross_e2));
        if !(0 <= u && u <= SCALE) {
            None
        } else {
            let origin_cross_e1 = crate::tuples::s_cross(p1_to_origin, e1);
            let v = sfmul(f, s_dot(ray.direction, origin_cross_e1));
            if !(0 <= v && sfadd(u, v) <= SCALE) {
                None
            } else {
                Some((sfmul(f, s_dot(e2, origin_cross_e1)), u, v))
            }
        }
    }
}

/// The hit walk as executable code.
fn triangle_hit(e1: &Tuple, e2: &Tuple, p1: &Tuple, ray: &Ray) -> (r: Option<(i64, i64, i64)>)
    ensures
        r == s_triangle_hit(*e1, *e2, *p1, *ray),
{
    let dir_cross_e2: Tuple = ray.direction.cross(e2);
    let det: i64 = e1.dot(&dir_cross_e2);
    if fx_equal(det, 0) {
        return None;
    }
    let f: i64 = fx_div(SCALE, det);
    let p1_to_origin: Tuple = ray.origin.sub(p1);
    let u: i64 = fx_mul(f, p1_to_origin.dot(&dir_cross_e2));
    if !(0 <= u && u <= SCALE) {
        return None;
    }
    let origin_cross_e1: Tuple = p1_to_origin.cross(e1);
    let v: i64 = fx_mul(f, ray.direction.dot(&origin_cross_e1));
    if !(0 <= v && fx_add(u, v) <= SCALE) {
        return None;
    }
    Some((fx_mul(f, e2.dot(&origin_cross_e1)), u, v))
}

impl Triangle {
    pub fn local_intersect_ts(&self, ray: &Ray) -> (r: Vec<i64>)
        ensures
            r@ == (match s_triangle_hit(self.e1, self.e2, self.p1, *ray) {
                Some(huv) => seq![huv.0],
                None => Seq::<i64>::empty(),
            }),
    {
        let mut v: Vec<i64> = Vec::new();
        match triangle_hit(&self.e1, &self.e2, &self.p1, ray) {
            Some(huv) => {
                v.push(huv.0);
                proof {
                    assert(v@ =~= seq![
                        s_triangle_hit(self.e1, self.e2, self.p1, *ray)->Some_0.0,
                    ]);
                }
            },
            None => {
                proof {
                    assert(v@ =~= Seq::<i64>::empty());
                }
            },
        }
        v
    }

    pub fn local_normal_at(&self) -> (r: Tuple)
        ensures
            r == self.normal,
    {
        self.normal
    }

    pub fn local_bounding_box(&self) -> (r: BoundingBox)
        ensures
            r == s_empty_box().s_with_point(self.p1).s_with_point(self.p2).s_with_point(self.p3),
    {
        let mut bb: BoundingBox = BoundingBox::new_empty();
        bb.add_point(&self.p1);
        bb.add_point(&self.p2);
        bb.add_point(&self.p3);
        bb
    }
}

impl SmoothTriangle {
    /// The interpolated normal: the corner normals weighted by the hit's
    /// barycentric coordinates.
    pub fn local_normal_at(&self, u: i64, v: i64) -> (r: Tuple)
        ensures
            r == crate::tuples::s_add(
                crate::tuples::s_add(
                    crate::tuples::s_scale(self.n2, u),
                    crate::tuples::s_scale(self.n3, v),
                ),
                crate::tuples::s_scale(self.n1, sfsub(sfsub(SCALE, u), v)),
            ),
    {
        let a: Tuple = self.n2.scale(u);
        let b: Tuple = self.n3.scale(v);
        let c: Tuple = self.n1.scale(fx_sub(fx_sub(SCALE, u), v));
        a.add(&b).add(&c)
    }

    pub fn local_bounding_box(&self) -> (r: BoundingBox)
        ensures
            r == s_empty_box().s_with_point(self.p1).s_with_point(self.p2).s_with_point(self.p3),
    {
        let mut bb: BoundingBox = BoundingBox::new_empty();
        bb.add_point(&self.p1);
        bb.add_point(&self.p2);
        bb.add_point(&self.p3);
        bb
    }
}

/// Hit times reported by the probe shape: the ray's own components, so a
/// test can recover the ray a probe was handed.
pub open spec fn s_test_shape_ts(ray: Ray) -> Seq<i64> {
    seq![
        ray.origin.x,
        ray.origin.y,
        ray.origin.z,
        ray.direction.x,
        ray.direction.y,
        ray.direction.z,
    ]
}

impl TestShape {
    pub fn local_intersect_ts(&self, ray: &Ray) -> (r: Vec<i64>)
        ensures
            r@ == s_test_shape_ts(*ray),
    {
        let mut v: Vec<i64> = Vec::new();
        v.push(ray.origin.x);
        v.push(ray.origin.y);
        v.push(ray.origin.z);
        v.push(ray.direction.x);
        v.push(ray.direction.y);
        v.push(ray.direction.z);
        proof {
            assert(v@ =~= s_test_shape_ts(*ray));
        }
        v
    }

    pub fn local_normal_at(&self, object_point: &Tuple) -> (r: Tuple)
        ensures
            r == (Tuple { x: object_point.x, y: object_point.y, z: object_point.z, w: 0i64 }),
    {
        vector(object_point.x, object_point.y, object_point.z)
    }

    pub fn local_bounding_box(&self) -> (r: BoundingBox)
        ensures
            r == s_empty_box(),
    {
        BoundingBox::new_empty()
    }
}

/// Hit times turned into hit records against a shape.
pub open spec fn ts_to_hits(ts: Seq<i64>, s: Shape) -> Seq<crate::intersections::Intersection> {
    ts.map_values(|t: i64| crate::intersections::Intersection { t, object: s, u: 0i64, v: 0i64 })
}

/// Local-space hits of a primitive shape.
pub open spec fn s_prim_hits(s: Shape, ray: Ray) -> Seq<crate::intersections::Intersection> {
    match s.shape_type {
        ShapeType::Sphere(_) => ts_to_hits(s_sphere_ts(ray), s),
        ShapeType::Plane(_) => ts_to_hits(s_plane_ts(ray), s),
        ShapeType::Cube(_) => ts_to_hits(s_cube_ts(ray), s),
        ShapeType::Cylinder(c) => ts_to_hits(s_cylinder_ts(c, ray), s),
        ShapeType::Cone(c) => ts_to_hits(s_cone_ts(c, ray), s),
        ShapeType::Triangle(t) => match s_triangle_hit(t.e1, t.e2, t.p1, ray) {
            Some(huv) => seq![
                crate::intersections::Intersection { t: huv.0, object: s, u: 0i64, v: 0i64 },
            ],
            None => Seq::empty(),
        },
        ShapeType::SmoothTriangle(t) => match s_triangle_hit(t.e1, t.e2, t.p1, ray) {
            Some(huv) => seq![
                crate::intersections::Intersection { t: huv.0, object: s, u: huv.1, v: huv.2 },
            ],
            None => Seq::empty(),
        },
        ShapeType::TestShape(_) => ts_to_hits(s_test_shape_ts(ray), s),
        _ => Seq::empty(),
    }
}

/// Local-space hits of any shape: primitives report their own surface,
/// an unfrozen group gathers from its children behind a box test, a frozen
/// group walks its tree, and a CSG node filters its children's sorted hits.
pub open spec fn s_local_hits(s: Shape, ray: Ray) -> Seq<crate::intersections::Intersection>
    decreases s, 0int, 0int, 0int,
{
    match s.shape_type {
        ShapeType::Group(g) => match g.bvh {
            Some(node) => if s_box_hit(node.bb, ray) {
                s_bvh_all_hits(node, g.children@, ray)
            } else {
                Seq::empty()
            },
            None => if !s_box_hit(g.bb, ray) {
                Seq::empty()
            } else {
                s_children_hits(g.children@, s.cached_transform, ray, g.children@.len() as int)
            },
        },
        ShapeType::CSG(c) => crate::csg::s_filter_walk(
            c.children@[0],
            c.op,
            crate::intersections::s_sort_by_t(s_csg_gather(c.children@, ray, c.children@.len() as int)),
            crate::intersections::s_sort_by_t(
                s_csg_gather(c.children@, ray, c.children@.len() as int),
            ).len() as int,
        ).0,
        _ => s_prim_hits(s, ray),
    }
}

/// Hits of the first `k` children of an unfrozen group, each probed in its
/// own space through its world inverse composed with the group transform.
pub open spec fn s_children_hits(children: Seq<Shape>, gt: Matrix, ray: Ray, k: int) -> Seq<
    crate::intersections::Intersection,
>
    decreases children, 0int, 0int, k,
{
    if k <= 0 || k > children.len() {
        Seq::empty()
    } else {
        s_children_hits(children, gt, ray, k - 1) + s_local_hits(
            children[k - 1],
            crate::rays::s_transform(ray, s_mat_mul(children[k - 1].cached_inverse, gt)),
        )
    }
}

/// Hits of the first `k` children of a CSG node, each probed through its
/// local inverse.
pub open spec fn s_csg_gather(children: Seq<Shape>, ray: Ray, k: int) -> Seq<
    crate::intersections::Intersection,
>
    decreases children, 0int, 0int, k,
{
    if k <= 0 || k > children.len() {
        Seq::empty()
    } else {
        s_csg_gather(children, ray, k - 1) + s_local_hits(
            children[k - 1],
            crate::rays::s_transform(ray, children[k - 1].cached_local_inverse),
        )
    }
}

/// All hits found by walking a tree: a leaf probes each of its shapes,
/// an internal node visits whichever subtrees' boxes the ray meets.
pub open spec fn s_bvh_all_hits(node: BVHNode, children: Seq<Shape>, ray: Ray) -> Seq<
    crate::intersections::Intersection,
>
    decreases children, 1int, node.rank() as int, 0int,
{
    match node.ntype {
        crate::bvh::BVHNodeType::Leaf(idxs) => s_idx_hits(idxs@, children, ray, idxs@.len() as int),
        crate::bvh::BVHNodeType::Internal(l, r) => (if s_box_hit(l.bb, ray) {
            s_bvh_all_hits(*l, children, ray)
        } else {
            Seq::empty()
        }) + (if s_box_hit(r.bb, ray) {
            s_bvh_all_hits(*r, children, ray)
        } else {
            Seq::empty()
        }),
    }
}

/// Hits of the shapes at the first `k` leaf positions.
pub open spec fn s_idx_hits(idxs: Seq<usize>, children: Seq<Shape>, ray: Ray, k: int) -> Seq<
    crate::intersections::Intersection,
>
    decreases children, 1int, 0int, k,
{
    if k <= 0 || k > idxs.len() {
        Seq::empty()
    } else {
        let prev = s_idx_hits(idxs, children, ray, k - 1);
        let idx = idxs[k - 1] as int;
        if idx < children.len() {
            prev + s_local_hits(
                children[idx],
                crate::rays::s_transform(ray, children[idx].cached_local_inverse),
            )
        } else {
            prev
        }
    }
}

/// Builds hit records from hit times against a primitive shape.
fn ts_into_hits(ts: Vec<i64>, s: &Shape) -> (r: Vec<crate::intersections::Intersection>)
    requires
        is_primitive(*s),
    ensures
        r@ == ts_to_hits(ts@, *s),
{
    let mut r: Vec<crate::intersections::Intersection> = Vec::new();
    let n: usize = ts.len();
    let mut i: usize = 0;
    while i < n
        invariant
            i <= n,
            n == ts@.len(),
            is_primitive(*s),
            r@ == ts_to_hits(ts@.take(i as int), *s),
        decreases n - i,
    {
        r.push(crate::intersections::intersection(ts[i], s));
        proof {
            assert(r@ =~= ts_to_hits(ts@.take(i as int + 1), *s)) by {
                assert(ts@.take(i as int + 1).drop_last() =~= ts@.take(i as int));
                assert(ts_to_hits(ts@.take(i as int + 1), *s) =~= ts_to_hits(
                    ts@.take(i as int),
                    *s,
                ).push(
                    crate::intersections::Intersection {
                        t: ts@[i as int],
                        object: *s,
                        u: 0i64,
                        v: 0i64,
                    },
                ));
            }
        }
        i = i + 1;
    }
    proof {
        assert(ts@.take(n as int) =~= ts@);
    }
    r
}

/// The hits scale with `all_primitive`: the mirror only ever stores
/// primitive shapes into hit records.
#[verifier::rlimit(60)]
pub proof fn lemma_local_hits_primitive(s: Shape, ray: Ray)
    ensures
        crate::intersections::all_primitive(s_local_hits(s, ray)),
    decreases s, 0int, 0int, 0int,
{
    match s.shape_type {
        ShapeType::Group(g) => {
            match g.bvh {
                Some(node) => {
                    if s_box_hit(node.bb, ray) {
                        lemma_bvh_hits_primitive(node, g.children@, ray);
                    }
                },
                None => {
                    if s_box_hit(g.bb, ray) {
                        lemma_children_hits_primitive(
                            g.children@,
                            s.cached_transform,
                            ray,
                            g.children@.len() as int,
                        );
                    }
                },
            }
        },
        ShapeType::CSG(c) => {
            let gathered = s_csg_gather(c.children@, ray, c.children@.len() as int);
            lemma_csg_gather_primitive(c.children@, ray, c.children@.len() as int);
            crate::intersections::lemma_sort_props(gathered);
            let sorted = crate::intersections::s_sort_by_t(gathered);
            crate::csg::lemma_filter_walk_wf(c.children@[0], c.op, sorted, sorted.len() as int);
        },
        _ => {
            assert forall|i: int|
                0 <= i < s_local_hits(s, ray).len() implies is_primitive(
                #[trigger] s_local_hits(s, ray)[i].object,
            ) by {
                assert(s_local_hits(s, ray)[i].object == s);
            }
        },
    }
}

pub proof fn lemma_children_hits_primitive(children: Seq<Shape>, gt: Matrix, ray: Ray, k: int)
    ensures
        crate::intersections::all_primitive(s_children_hits(children, gt, ray, k)),
    decreases children, 0int, 0int, k,
{
    if k <= 0 || k > children.len() {
    } else {
        lemma_children_hits_primitive(children, gt, ray, k - 1);
        lemma_local_hits_primitive(
            children[k - 1],
            crate::rays::s_transform(ray, s_mat_mul(children[k - 1].cached_inverse, gt)),
        );
        lemma_all_primitive_concat(
            s_children_hits(children, gt, ray, k - 1),
            s_local_hits(
                children[k - 1],
                crate::rays::s_transform(ray, s_mat_mul(children[k - 1].cached_inverse, gt)),
            ),
        );
    }
}

pub proof fn lemma_csg_gather_primitive(children: Seq<Shape>, ray: Ray, k: int)
    ensures
        crate::intersections::all_primitive(s_csg_gather(children, ray, k)),
    decreases children, 0int, 0int, k,
{
    if k <= 0 || k > children.len() {
    } else {
        lemma_csg_gather_primitive(children, ray, k - 1);
        lemma_local_hits_primitive(
            children[k - 1],
            crate::rays::s_transform(ray, children[k - 1].cached_local_inverse),
        );
        lemma_all_primitive_concat(
            s_csg_gather(children, ray, k - 1),
            s_local_hits(
                children[k - 1],
                crate::rays::s_transform(ray, children[k - 1].cached_local_inverse),
            ),
        );
    }
}

pub proof fn lemma_bvh_hits_primitive(node: BVHNode, children: Seq<Shape>, ray: Ray)
    ensures
        crate::intersections::all_primitive(s_bvh_all_hits(node, children, ray)),
    decreases children, 1int, node.rank() as int, 0int,
{
    match node.ntype {
        crate::bvh::BVHNodeType::Leaf(idxs) => {
            lemma_idx_hits_primitive(idxs@, children, ray, idxs@.len() as int);
        },
        crate::bvh::BVHNodeType::Internal(l, r) => {
            if s_box_hit(l.bb, ray) {
                lemma_bvh_hits_primitive(*l, children, ray);
            }
            if s_box_hit(r.bb, ray) {
                lemma_bvh_hits_primitive(*r, children, ray);
            }
            lemma_all_primitive_concat(
                if s_box_hit(l.bb, ray) {
                    s_bvh_all_hits(*l, children, ray)
                } else {
                    Seq::empty()
                },
                if s_box_hit(r.bb, ray) {
                    s_bvh_all_hits(*r, children, ray)
                } else {
                    Seq::empty()
                },
            );
        },
    }
}

pub proof fn lemma_idx_hits_primitive(idxs: Seq<usize>, children: Seq<Shape>, ray: Ray, k: int)
    ensures
        crate::intersections::all_primitive(s_idx_hits(idxs, children, ray, k)),
    decreases children, 1int, 0int, k,
{
    if k <= 0 || k > idxs.len() {
    } else {
        lemma_idx_hits_primitive(idxs, children, ray, k - 1);
        let idx = idxs[k - 1] as int;
        if idx < children.len() {
            lemma_local_hits_primitive(
                children[idx],
                crate::rays::s_transform(ray, children[idx].cached_local_inverse),
            );
            lemma_all_primitive_concat(
                s_idx_hits(idxs, children, ray, k - 1),
                s_local_hits(
                    children[idx],
                    crate::rays::s_transform(ray, children[idx].cached_local_inverse),
                ),
            );
        }
    }
}

pub proof fn lemma_all_primitive_concat(
    a: Seq<crate::intersections::Intersection>,
    b: Seq<crate::intersections::Intersection>,
)
    requires
        crate::intersections::all_primitive(a),
        crate::intersections::all_primitive(b),
    ensures
        crate::intersections::all_primitive(a + b),
{
    assert forall|i: int| 0 <= i < (a + b).len() implies is_primitive(
        #[trigger] (a + b)[i].object,
    ) by {
        if i < a.len() {
            assert((a + b)[i] == a[i]);
        } else {
            assert((a + b)[i] == b[i - a.len()]);
        }
    }
}

/// All hits found by walking the tree (the policy of plain ray casts).
fn bvh_intersect_all(node: &BVHNode, shapes: &Vec<Shape>, ray: &Ray) -> (r: Vec<
    crate::intersections::Intersection,
>)
    requires
        node_valid(*node, shapes@.len() as int),
        forall|i: int| 0 <= i < shapes@.len() ==> s_wf_shape(#[trigger] shapes@[i]),
    ensures
        r@ == s_bvh_all_hits(*node, shapes@, *ray),
    decreases *shapes, 1int, node.rank() as int, 0int,
{
    match &node.ntype {
        crate::bvh::BVHNodeType::Leaf(idxs) => {
            let mut r: Vec<crate::intersections::Intersection> = Vec::new();
            let n: usize = idxs.len();
            let mut k: usize = 0;
            while k < n
                invariant
                    k <= n,
                    n == idxs@.len(),
                    node.ntype matches crate::bvh::BVHNodeType::Leaf(ii) && ii@ == idxs@,
                    node_valid(*node, shapes@.len() as int),
                    forall|i: int| 0 <= i < shapes@.len() ==> s_wf_shape(#[trigger] shapes@[i]),
                    r@ == s_idx_hits(idxs@, shapes@, *ray, k as int),
                decreases n - k,
            {
                let idx: usize = idxs[k];
                let child: &Shape = &shapes[idx];
                let t: Matrix = child.local_inverse();
                let object_ray: Ray = crate::rays::transform(ray, &t);
                proof {
                    assert(decreases_to!(*shapes => shapes@[idx as int]));
                }
                let mut ts: Vec<crate::intersections::Intersection> = child.local_intersect(
                    &object_ray,
                );
                r.append(&mut ts);
                proof {
                    assert(r@ =~= s_idx_hits(idxs@, shapes@, *ray, k as int + 1));
                }
                k = k + 1;
            }
            r
        },
        crate::bvh::BVHNodeType::Internal(left, right) => {
            let mut r: Vec<crate::intersections::Intersection> = Vec::new();
            let (lhit, _lmin, _lmax) = left.bb.local_intersect_tmin_tmax(ray);
            if lhit {
                let mut ls: Vec<crate::intersections::Intersection> = bvh_intersect_all(
                    left,
                    shapes,
                    ray,
                );
                r.append(&mut ls);
            }
            let (rhit, _rmin, _rmax) = right.bb.local_intersect_tmin_tmax(ray);
            if rhit {
                let mut rs: Vec<crate::intersections::Intersection> = bvh_intersect_all(
                    right,
                    shapes,
                    ray,
                );
                r.append(&mut rs);
            }
            proof {
                assert(r@ =~= s_bvh_all_hits(*node, shapes@, *ray));
            }
            r
        },
    }
}

impl Shape {
    /// Local-space hits: the mirror `s_local_hits`, executed.
    #[verifier::rlimit(100)]
    pub fn local_intersect(&self, object_ray: &Ray) -> (r: Vec<
        crate::intersections::Intersection,
    >)
        requires
            self.wf_shape(),
        ensures
            r@ == s_local_hits(*self, *object_ray),
            crate::intersections::all_primitive(r@),
        decreases *self, 0int, 0int, 0int,
    {
        proof {
            lemma_local_hits_primitive(*self, *object_ray);
        }
        match &self.shape_type {
            ShapeType::Sphere(p) => ts_into_hits(p.local_intersect_ts(object_ray), self),
            ShapeType::Plane(p) => ts_into_hits(p.local_intersect_ts(object_ray), self),
            ShapeType::Cube(p) => ts_into_hits(p.local_intersect_ts(object_ray), self),
            ShapeType::Cylinder(p) => ts_into_hits(p.local_intersect_ts(object_ray), self),
            ShapeType::Cone(p) => ts_into_hits(p.local_intersect_ts(object_ray), self),
            ShapeType::TestShape(p) => ts_into_hits(p.local_intersect_ts(object_ray), self),
            ShapeType::Triangle(p) => {
                let mut r: Vec<crate::intersections::Intersection> = Vec::new();
                match triangle_hit(&p.e1, &p.e2, &p.p1, object_ray) {
                    Some(huv) => {
                        r.push(crate::intersections::intersection(huv.0, self));
                        proof {
                            assert(r@ =~= s_local_hits(*self, *object_ray));
                        }
                    },
                    None => {
                        proof {
                            assert(r@ =~= s_local_hits(*self, *object_ray));
                        }
                    },
                }
                r
            },
            ShapeType::SmoothTriangle(p) => {
                let mut r: Vec<crate::intersections::Intersection> = Vec::new();
                match triangle_hit(&p.e1, &p.e2, &p.p1, object_ray) {
                    Some(huv) => {
                        r.push(
                            crate::intersections::intersection_with_uv(huv.0, self, huv.1, huv.2),
                        );
                        proof {
                            assert(r@ =~= s_local_hits(*self, *object_ray));
                        }
                    },
                    None => {
                        proof {
                            assert(r@ =~= s_local_hits(*self, *object_ray));
                        }
                    },
                }
                r
            },
            ShapeType::Group(g) => {
                match &g.bvh {
                    Some(node) => {
                        let (hit, _tmin, _tmax) = node.bb.local_intersect_tmin_tmax(object_ray);
                        if hit {
                            bvh_intersect_all(node, &g.children, object_ray)
                        } else {
                            let r: Vec<crate::intersections::Intersection> = Vec::new();
                            proof {
                                assert(r@ =~= s_local_hits(*self, *object_ray));
                            }
                            r
                        }
                    },
                    None => {
                        let (hit, _tmin, _tmax) = g.bb.local_intersect_tmin_tmax(object_ray);
                        if !hit {
                            let r: Vec<crate::intersections::Intersection> = Vec::new();
                            proof {
                                assert(r@ =~= s_local_hits(*self, *object_ray));
                            }
                            r
                        } else {
                            let mut xs: Vec<crate::intersections::Intersection> = Vec::new();
                            let n: usize = g.children.len();
                            let mut k: usize = 0;
                            while k < n
                                invariant
                                    k <= n,
                                    n == g.children@.len(),
                                    self.shape_type matches ShapeType::Group(gg) && gg.children@
                                        == g.children@,
                                    forall|i: int|
                                        0 <= i < g.children@.len() ==> s_wf_shape(
                                            #[trigger] g.children@[i],
                                        ),
                                    xs@ == s_children_hits(
                                        g.children@,
                                        self.cached_transform,
                                        *object_ray,
                                        k as int,
                                    ),
                                decreases n - k,
                            {
                                let child: &Shape = &g.children[k];
                                let t: Matrix = child.inverse().mul(&self.transform());
                                let child_ray: Ray = crate::rays::transform(object_ray, &t);
                                proof {
                                    assert(decreases_to!(*self => g.children@[k as int]));
                                }
                                let mut ts: Vec<crate::intersections::Intersection> =
                                    child.local_intersect(&child_ray);
                                xs.append(&mut ts);
                                proof {
                                    assert(xs@ =~= s_children_hits(
                                        g.children@,
                                        self.cached_transform,
                                        *object_ray,
                                        k as int + 1,
                                    ));
                                }
                                k = k + 1;
                            }
                            xs
                        }
                    },
                }
            },
            ShapeType::CSG(c) => {
                let mut xs: Vec<crate::intersections::Intersection> = Vec::new();
                let n: usize = c.children.len();
                let mut k: usize = 0;
                while k < n
                    invariant
                        k <= n,
                        n == c.children@.len(),
                        self.shape_type matches ShapeType::CSG(cc) && cc.children@ == c.children@
                            && cc.op == c.op,
                        self.wf_shape(),
                        forall|i: int|
                            0 <= i < c.children@.len() ==> s_wf_shape(#[trigger] c.children@[i]),
                        xs@ == s_csg_gather(c.children@, *object_ray, k as int),
                        crate::intersections::all_primitive(xs@),
                    decreases n - k,
                {
                    let child: &Shape = &c.children[k];
                    let t: Matrix = child.local_inverse();
                    let child_ray: Ray = crate::rays::transform(object_ray, &t);
                    proof {
                        assert(decreases_to!(*self => c.children@[k as int]));
                    }
                    let mut ts: Vec<crate::intersections::Intersection> = child.local_intersect(
                        &child_ray,
                    );
                    xs.append(&mut ts);
                    proof {
                        assert(xs@ =~= s_csg_gather(c.children@, *object_ray, k as int + 1));
                        lemma_csg_gather_primitive(c.children@, *object_ray, k as int + 1);
                    }
                    k = k + 1;
                }
                let is: crate::intersections::Intersections = crate::intersections::intersections(
                    xs,
                );
                let filtered: crate::intersections::Intersections =
                    crate::csg::filter_intersections(self, &is);
                filtered.data
            },
        }
    }

    /// The incoming ray carried into this shape's own space.
    pub fn local_from_parent_ray(&self, parent_ray: &Ray) -> (r: Ray)
        ensures
            r == crate::rays::s_transform(*parent_ray, self.cached_local_inverse),
    {
        let t: Matrix = self.local_inverse();
        crate::rays::transform(parent_ray, &t)
    }

    /// Hits of a ray given in the parent's space: the ray is carried into
    /// local space through the cached local inverse and probed locally.
    pub fn intersect(&self, parent_ray: &Ray) -> (r: Vec<crate::intersections::Intersection>)
        requires
            self.wf_shape(),
        ensures
            r@ == s_local_hits(
                *self,
                crate::rays::s_transform(*parent_ray, self.cached_local_inverse),
            ),
            crate::intersections::all_primitive(r@),
    {
        let local_ray: Ray = self.local_from_parent_ray(parent_ray);
        self.local_intersect(&local_ray)
    }
}

/// The local-space bounding box of any shape: primitives report their own
/// extent, a group its cached box, and a CSG node its children's joined
/// boxes (only the left child's for a difference, conservatively).
pub open spec fn s_shape_bb(s: Shape) -> BoundingBox
    decreases s, 0int,
{
    match s.shape_type {
        ShapeType::Sphere(_) => BoundingBox {
            min: Tuple { x: -SCALE as i64, y: -SCALE as i64, z: -SCALE as i64, w: SCALE },
            max: Tuple { x: SCALE, y: SCALE, z: SCALE, w: SCALE },
        },
        ShapeType::Cube(_) => BoundingBox {
            min: Tuple { x: -SCALE as i64, y: -SCALE as i64, z: -SCALE as i64, w: SCALE },
            max: Tuple { x: SCALE, y: SCALE, z: SCALE, w: SCALE },
        },
        ShapeType::Plane(_) => BoundingBox {
            min: Tuple { x: NEG_HUGE, y: 0i64, z: NEG_HUGE, w: SCALE },
            max: Tuple { x: HUGE, y: 0i64, z: HUGE, w: SCALE },
        },
        ShapeType::Cylinder(c) => BoundingBox {
            min: Tuple { x: -SCALE as i64, y: c.minimum, z: -SCALE as i64, w: SCALE },
            max: Tuple { x: SCALE, y: c.maximum, z: SCALE, w: SCALE },
        },
        ShapeType::Cone(c) => {
            let extent = sfmax(sfabs(c.minimum), c.maximum);
            BoundingBox {
                min: Tuple { x: sfneg(extent), y: c.minimum, z: sfneg(extent), w: SCALE },
                max: Tuple { x: extent, y: c.maximum, z: extent, w: SCALE },
            }
        },
        ShapeType::Triangle(t) => s_empty_box().s_with_point(t.p1).s_with_point(
            t.p2,
        ).s_with_point(t.p3),
        ShapeType::SmoothTriangle(t) => s_empty_box().s_with_point(t.p1).s_with_point(
            t.p2,
        ).s_with_point(t.p3),
        ShapeType::TestShape(_) => s_empty_box(),
        ShapeType::Group(g) => g.bb,
        ShapeType::CSG(c) => match c.op {
            crate::csg::Operation::Difference => if c.children@.len() >= 1 {
                s_shape_bb(c.children@[0])
            } else {
                s_empty_box()
            },
            _ => s_csg_bb(c.children@, c.children@.len() as int),
        },
    }
}

/// The joined local boxes of the first `k` children.
pub open spec fn s_csg_bb(children: Seq<Shape>, k: int) -> BoundingBox
    decreases children, k,
{
    if k <= 0 || k > children.len() {
        s_empty_box()
    } else {
        s_csg_bb(children, k - 1).s_with_bb(s_shape_bb(children[k - 1]))
    }
}

/// A box grown around a shape's local box carried through the shape's
/// local transform: the eight transformed corners, added in order.
pub open spec fn s_with_transformed_shape(bb: BoundingBox, s: Shape) -> BoundingBox {
    let inner = s_shape_bb(s);
    let m = s.local_to_parent_transform;
    bb.s_with_point(s_mat_tuple(m, corner_of(inner, 0))).s_with_point(
        s_mat_tuple(m, corner_of(inner, 1)),
    ).s_with_point(s_mat_tuple(m, corner_of(inner, 2))).s_with_point(
        s_mat_tuple(m, corner_of(inner, 3)),
    ).s_with_point(s_mat_tuple(m, corner_of(inner, 4))).s_with_point(
        s_mat_tuple(m, corner_of(inner, 5)),
    ).s_with_point(s_mat_tuple(m, corner_of(inner, 6))).s_with_point(
        s_mat_tuple(m, corner_of(inner, 7)),
    )
}

/// Corner `i` of a box, bits of `i` picking min or max per axis.
pub open spec fn corner_of(bb: BoundingBox, i: int) -> Tuple {
    Tuple {
        x: if i % 2 == 0 {
            bb.min.x
        } else {
            bb.max.x
        },
        y: if (i / 2) % 2 == 0 {
            bb.min.y
        } else {
            bb.max.y
        },
        z: if (i / 4) % 2 == 0 {
            bb.min.z
        } else {
            bb.max.z
        },
        w: SCALE,
    }
}

impl Shape {
    /// The shape's own local bounding box.
    pub fn local_bounding_box(&self) -> (r: BoundingBox)
        ensures
            r == s_shape_bb(*self),
        decreases *self, 1int,
    {
        match &self.shape_type {
            ShapeType::Sphere(p) => p.local_bounding_box(),
            ShapeType::Cube(p) => p.local_bounding_box(),
            ShapeType::Plane(p) => p.local_bounding_box(),
            ShapeType::Cylinder(p) => p.local_bounding_box(),
            ShapeType::Cone(p) => p.local_bounding_box(),
            ShapeType::Triangle(p) => p.local_bounding_box(),
            ShapeType::SmoothTriangle(p) => p.local_bounding_box(),
            ShapeType::TestShape(p) => p.local_bounding_box(),
            ShapeType::Group(g) => g.bb,
            ShapeType::CSG(c) => {
                match c.op {
                    crate::csg::Operation::Difference => {
                        if c.children.len() >= 1 {
                            proof {
                                assert(decreases_to!(*self => c.children@[0]));
                            }
                            c.children[0].local_bounding_box()
                        } else {
                            BoundingBox::new_empty()
                        }
                    },
                    _ => {
                        let mut bb: BoundingBox = BoundingBox::new_empty();
                        let n: usize = c.children.len();
                        let mut k: usize = 0;
                        while k < n
                            invariant
                                k <= n,
                                n == c.children@.len(),
                                self.shape_type matches ShapeType::CSG(cc) && cc.children@
                                    == c.children@,
                                bb == s_csg_bb(c.children@, k as int),
                            decreases n - k,
                        {
                            proof {
                                assert(decreases_to!(*self => c.children@[k as int]));
                            }
                            let inner: BoundingBox = c.children[k].local_bounding_box();
                            bb.include_bb(&inner);
                            k = k + 1;
                        }
                        bb
                    },
                }
            },
        }
    }
}

/// Grows a box to hold a shape's local box carried through the shape's
/// local transform.
pub fn include_transformed_shape(bb: &mut BoundingBox, s: &Shape)
    ensures
        *final(bb) == s_with_transformed_shape(*old(bb), *s),
{
    let inner: BoundingBox = s.local_bounding_box();
    let corners: Vec<Tuple> = inner.corners();
    let mut i: usize = 0;
    while i < 8
        invariant
            i <= 8,
            corners@.len() == 8,
            forall|j: int| 0 <= j < 8 ==> #[trigger] corners@[j] == corner_of(s_shape_bb(*s), j),
            *bb == fold_corners(*old(bb), *s, i as int),
        decreases 8 - i,
    {
        let p: Tuple = s.local_to_parent_transform.mul_tuple(&corners[i]);
        bb.add_point(&p);
        i = i + 1;
    }
    proof {
        assert(fold_corners(*old(bb), *s, 8) == s_with_transformed_shape(*old(bb), *s)) by {
            reveal_with_fuel(fold_corners, 10);
        }
    }
}

/// The first `k` transformed corners of a shape's box folded into `bb`.
pub open spec fn fold_corners(bb: BoundingBox, s: Shape, k: int) -> BoundingBox
    decreases k,
{
    if k <= 0 {
        bb
    } else {
        fold_corners(bb, s, k - 1).s_with_point(
            s_mat_tuple(s.local_to_parent_transform, corner_of(s_shape_bb(s), k - 1)),
        )
    }
}

/// How a recomputed shape relates to the one it came from: the composed
/// transform becomes the parent's global transform times the local one,
/// both cached inverses are refreshed (the identity standing in for a
/// singular matrix), and a group pushes the new composite down into every
/// child as that child's parent transform.  Everything else is kept.
pub open spec fn recomputed_rel(s: Shape, parent: Matrix, r: Shape) -> bool
    decreases s, 0int,
{
    let ct = s_mat_mul(parent, s.local_to_parent_transform);
    &&& r.material == s.material
    &&& r.shadow == s.shadow
    &&& r.local_to_parent_transform == s.local_to_parent_transform
    &&& r.parent_to_global_transform == parent
    &&& r.cached_transform == ct
    &&& r.cached_inverse == (if s_det(ct) != 0 {
        s_inverse(ct)
    } else {
        s_identity()
    })
    &&& r.cached_local_inverse == (if s_det(s.local_to_parent_transform) != 0 {
        s_inverse(s.local_to_parent_transform)
    } else {
        s_identity()
    })
    &&& (if s.shape_type is Group {
        match (s.shape_type, r.shape_type) {
            (ShapeType::Group(g), ShapeType::Group(g2)) => {
                &&& g2.bb == g.bb
                &&& g2.bvh == g.bvh
                &&& g2.children@.len() == g.children@.len()
                &&& forall|i: int|
                    0 <= i < g.children@.len() ==> recomputed_rel(
                        #[trigger] g.children@[i],
                        ct,
                        g2.children@[i],
                    )
            },
            _ => false,
        }
    } else {
        r.shape_type == s.shape_type
    })
}

/// Recomputes a shape's caches by value.
#[verifier::loop_isolation(false)]
fn recomputed_shape(s: Shape, parent: Matrix) -> (r: Shape)
    ensures
        recomputed_rel(s, parent, r),
    decreases s,
{
    let ct: Matrix = parent.mul(&s.local_to_parent_transform);
    let ci: Matrix = inverse_or_identity(&ct);
    let cli: Matrix = inverse_or_identity(&s.local_to_parent_transform);
    let ghost s0 = s;
    let shape_type: ShapeType = match s.shape_type {
        ShapeType::Group(g) => {
            let ghost g0 = g;
            let ghost children0 = g.children@;
            let mut cs: Vec<Shape> = g.children;
            let mut out: Vec<Shape> = Vec::new();
            let n: usize = cs.len();
            let mut k: usize = 0;
            while k < n
                invariant
                    k <= n,
                    n == children0.len(),
                    s0.shape_type == ShapeType::Group(g0),
                    g0.children@ == children0,
                    cs@ == children0.skip(k as int),
                    out@.len() == k,
                    forall|j: int|
                        0 <= j < k ==> recomputed_rel(children0[j], ct, #[trigger] out@[j]),
                decreases n - k,
            {
                let c: Shape = cs.remove(0);
                proof {
                    assert(children0.skip(k as int)[0] == children0[k as int]);
                    assert(c == children0[k as int]);
                    assert(decreases_to!(s0 => s0.shape_type));
                    assert(s0.shape_type->Group_0 == g0);
                    assert(decreases_to!(s0.shape_type => s0.shape_type->Group_0));
                    assert(decreases_to!(g0 => g0.children));
                    assert(decreases_to!(g0.children => g0.children@));
                    assert(decreases_to!(g0.children@ => children0[k as int]));
                    assert(decreases_to!(s0 => children0[k as int]));
                    assert(cs@ =~= children0.skip(k as int + 1)) by {
                        assert(forall|j: int|
                            0 <= j < cs@.len() ==> cs@[j] == children0.skip(k as int)[j + 1]);
                    }
                }
                let rc: Shape = recomputed_shape(c, ct);
                out.push(rc);
                k = k + 1;
            }
            ShapeType::Group(Group { children: out, bb: g.bb, bvh: g.bvh })
        },
        other => other,
    };
    Shape {
        material: s.material,
        shape_type,
        shadow: s.shadow,
        local_to_parent_transform: s.local_to_parent_transform,
        parent_to_global_transform: parent,
        cached_transform: ct,
        cached_inverse: ci,
        cached_local_inverse: cli,
    }
}

impl Shape {
    /// Refreshes the cached transforms from the current local and parent
    /// transforms, pushing the composite down into group children.
    pub fn recompute_transform(&mut self)
        ensures
            recomputed_rel(*old(self), old(self).parent_to_global_transform, *final(self)),
    {
        let mut tmp: Shape = test_shape();
        core::mem::swap(self, &mut tmp);
        let parent: Matrix = tmp.parent_to_global_transform;
        let mut done: Shape = recomputed_shape(tmp, parent);
        core::mem::swap(self, &mut done);
    }

    /// Sets the local transform and refreshes every derived cache.
    pub fn set_transform(&mut self, m: &Matrix)
        ensures
            recomputed_rel(
                Shape { local_to_parent_transform: *m, ..*old(self) },
                old(self).parent_to_global_transform,
                *final(self),
            ),
    {
        self.local_to_parent_transform = *m;
        self.recompute_transform();
    }
}

/// Sets a shape's local transform and refreshes its caches.
pub fn set_transform(s: &mut Shape, t: &Matrix)
    ensures
        recomputed_rel(
            Shape { local_to_parent_transform: *t, ..*old(s) },
            old(s).parent_to_global_transform,
            *final(s),
        ),
{
    s.set_transform(t);
}

/// How a frozen shape relates to the one it came from: primitives and
/// already-frozen groups are untouched (re-freezing is a no-op), and an
/// unfrozen group keeps everything but gains a valid tree over its
/// recursively frozen children.
pub open spec fn frozen_rel(s: Shape, r: Shape) -> bool
    decreases s, 0int,
{
    if !(s.shape_type is Group) {
        r == s
    } else {
        match (s.shape_type, r.shape_type) {
            (ShapeType::Group(g), ShapeType::Group(g2)) => {
                if g.bvh is Some {
                    r == s
                } else {
                    &&& r.material == s.material
                    &&& r.shadow == s.shadow
                    &&& r.local_to_parent_transform == s.local_to_parent_transform
                    &&& r.parent_to_global_transform == s.parent_to_global_transform
                    &&& r.cached_transform == s.cached_transform
                    &&& r.cached_inverse == s.cached_inverse
                    &&& r.cached_local_inverse == s.cached_local_inverse
                    &&& g2.bb == g.bb
                    &&& g2.children@.len() == g.children@.len()
                    &&& (forall|i: int|
                        0 <= i < g.children@.len() ==> frozen_rel(
                            #[trigger] g.children@[i],
                            g2.children@[i],
                        ))
                    &&& (g2.bvh matches Some(node) && node.bb == g.bb && node_valid(
                        node,
                        g2.children@.len() as int,
                    ) && crate::bvh::node_count(node) == g2.children@.len() && (
                    g2.children@.len() < 4 ==> node.ntype is Leaf))
                }
            },
            _ => false,
        }
    }
}

/// Freezes a shape by value: children first, then the tree.
#[verifier::loop_isolation(false)]
fn frozen_shape(s: Shape) -> (r: Shape)
    ensures
        frozen_rel(s, r),
    decreases s,
{
    let ghost s0 = s;
    match s.shape_type {
        ShapeType::Group(g) => {
            if g.bvh.is_some() {
                let r = Shape {
                    material: s.material,
                    shape_type: ShapeType::Group(g),
                    shadow: s.shadow,
                    local_to_parent_transform: s.local_to_parent_transform,
                    parent_to_global_transform: s.parent_to_global_transform,
                    cached_transform: s.cached_transform,
                    cached_inverse: s.cached_inverse,
                    cached_local_inverse: s.cached_local_inverse,
                };
                proof {
                    assert(r == s0);
                }
                return r;
            }
            let ghost g0 = g;
            let ghost children0 = g.children@;
            let bb: BoundingBox = g.bb;
            let mut cs: Vec<Shape> = g.children;
            let mut out: Vec<Shape> = Vec::new();
            let n: usize = cs.len();
            let mut k: usize = 0;
            while k < n
                invariant
                    k <= n,
                    n == children0.len(),
                    s0.shape_type == ShapeType::Group(g0),
                    g0.children@ == children0,
                    cs@ == children0.skip(k as int),
                    out@.len() == k,
                    forall|j: int| 0 <= j < k ==> frozen_rel(children0[j], #[trigger] out@[j]),
                decreases n - k,
            {
                let c: Shape = cs.remove(0);
                proof {
                    assert(children0.skip(k as int)[0] == children0[k as int]);
                    assert(c == children0[k as int]);
                    assert(decreases_to!(s0 => s0.shape_type));
                    assert(s0.shape_type->Group_0 == g0);
                    assert(decreases_to!(s0.shape_type => s0.shape_type->Group_0));
                    assert(decreases_to!(g0 => g0.children));
                    assert(decreases_to!(g0.children => g0.children@));
                    assert(decreases_to!(g0.children@ => children0[k as int]));
                    assert(decreases_to!(s0 => children0[k as int]));
                    assert(cs@ =~= children0.skip(k as int + 1)) by {
                        assert(forall|j: int|
                            0 <= j < cs@.len() ==> cs@[j] == children0.skip(k as int)[j + 1]);
                    }
                }
                let fc: Shape = frozen_shape(c);
                out.push(fc);
                k = k + 1;
            }
            let m: usize = out.len();
            let mut idxs: Vec<usize> = Vec::new();
            let mut j: usize = 0;
            while j < m
                invariant
                    j <= m,
                    idxs@.len() == j,
                    forall|i: int| 0 <= i < j ==> #[trigger] idxs@[i] == i,
                decreases m - j,
            {
                idxs.push(j);
                j = j + 1;
            }
            let node: BVHNode = BVHNode::build(bb, &out, idxs);
            Shape {
                material: s.material,
                shape_type: ShapeType::Group(Group { children: out, bb, bvh: Some(node) }),
                shadow: s.shadow,
                local_to_parent_transform: s.local_to_parent_transform,
                parent_to_global_transform: s.parent_to_global_transform,
                cached_transform: s.cached_transform,
                cached_inverse: s.cached_inverse,
                cached_local_inverse: s.cached_local_inverse,
            }
        },
        other => {
            let r = Shape {
                material: s.material,
                shape_type: other,
                shadow: s.shadow,
                local_to_parent_transform: s.local_to_parent_transform,
                parent_to_global_transform: s.parent_to_global_transform,
                cached_transform: s.cached_transform,
                cached_inverse: s.cached_inverse,
                cached_local_inverse: s.cached_local_inverse,
            };
            proof {
                assert(r == s0);
            }
            r
        },
    }
}

impl Shape {
    /// Builds the tree of a group (children first) exactly once: freezing
    /// an already-frozen group, or a shape that is no group, changes
    /// nothing, so a second freeze is a no-op.
    pub fn freeze_and_optimize(&mut self)
        ensures
            frozen_rel(*old(self), *final(self)),
            (match old(self).shape_type {
                ShapeType::Group(g) => g.bvh is Some,
                _ => true,
            }) ==> *final(self) == *old(self),
    {
        let mut tmp: Shape = test_shape();
        core::mem::swap(self, &mut tmp);
        let mut done: Shape = frozen_shape(tmp);
        core::mem::swap(self, &mut done);
    }

    /// Hands a shape to a group: the child is re-parented under the
    /// group's composed transform, its caches recomputed, and the group's
    /// box grown around it.  The group must not be frozen yet.
    pub fn add_child(&mut self, s: Shape)
        requires
            old(self).shape_type matches ShapeType::Group(g) && g.bvh is None,
        ensures
            final(self).material == old(self).material,
            final(self).shadow == old(self).shadow,
            final(self).local_to_parent_transform == old(self).local_to_parent_transform,
            final(self).parent_to_global_transform == old(self).parent_to_global_transform,
            final(self).cached_transform == old(self).cached_transform,
            final(self).cached_inverse == old(self).cached_inverse,
            final(self).cached_local_inverse == old(self).cached_local_inverse,
            (match (old(self).shape_type, final(self).shape_type) {
                (ShapeType::Group(g), ShapeType::Group(g2)) => {
                    &&& g2.bvh is None
                    &&& g2.children@.len() == g.children@.len() + 1
                    &&& (forall|i: int|
                        0 <= i < g.children@.len() ==> #[trigger] g2.children@[i]
                            == g.children@[i])
                    &&& recomputed_rel(
                        Shape { parent_to_global_transform: old(self).cached_transform, ..s },
                        old(self).cached_transform,
                        g2.children@.last(),
                    )
                    &&& g2.bb == s_with_transformed_shape(g.bb, g2.children@.last())
                },
                _ => false,
            }),
    {
        let parent_t: Matrix = self.cached_transform;
        let mut c: Shape = s;
        c.parent_to_global_transform = parent_t;
        let c2: Shape = recomputed_shape(c, parent_t);
        let mut tmp: Shape = test_shape();
        core::mem::swap(self, &mut tmp);
        let done: Shape = match tmp.shape_type {
            ShapeType::Group(g) => {
                let mut bb: BoundingBox = g.bb;
                include_transformed_shape(&mut bb, &c2);
                let mut children: Vec<Shape> = g.children;
                children.push(c2);
                Shape {
                    material: tmp.material,
                    shape_type: ShapeType::Group(Group { children, bb, bvh: None }),
                    shadow: tmp.shadow,
                    local_to_parent_transform: tmp.local_to_parent_transform,
                    parent_to_global_transform: tmp.parent_to_global_transform,
                    cached_transform: tmp.cached_transform,
                    cached_inverse: tmp.cached_inverse,
                    cached_local_inverse: tmp.cached_local_inverse,
                }
            },
            _ => {
                proof {
                    assert(false);
                }
                tmp
            },
        };
        let mut done2: Shape = done;
        core::mem::swap(self, &mut done2);
    }
}

/// Hands a shape to a group (the free-function spelling).
pub fn add_child(shape: &mut Shape, s: Shape)
    requires
        old(shape).shape_type matches ShapeType::Group(g) && g.bvh is None,
    ensures
        (match (old(shape).shape_type, final(shape).shape_type) {
            (ShapeType::Group(g), ShapeType::Group(g2)) => {
                &&& g2.bvh is None
                &&& g2.children@.len() == g.children@.len() + 1
            },
            _ => false,
        }),
{
    shape.add_child(s);
}

/// A hit option as a hit list: one entry or none.
pub open spec fn s_opt_hits(o: Option<crate::intersections::Intersection>) -> Seq<
    crate::intersections::Intersection,
> {
    match o {
        Some(x) => seq![x],
        None => Seq::empty(),
    }
}

/// The closest-hit fold over one probe's hit list: a record with
/// nonnegative time replaces the carried best when it is strictly nearer
/// (or when nothing is carried yet).
pub open spec fn s_fold_min(
    cur: Option<crate::intersections::Intersection>,
    ts: Seq<crate::intersections::Intersection>,
    k: int,
) -> Option<crate::intersections::Intersection>
    decreases k,
{
    if k <= 0 || k > ts.len() {
        cur
    } else {
        let prev = s_fold_min(cur, ts, k - 1);
        let x = ts[k - 1];
        let better = match prev {
            Some(b) => x.t >= 0 && x.t < b.t,
            None => x.t >= 0,
        };
        if better {
            Some(x)
        } else {
            prev
        }
    }
}

/// The any-hit fold: any record with nonnegative time is taken (the last
/// qualifying one wins).
pub open spec fn s_fold_any(
    cur: Option<crate::intersections::Intersection>,
    ts: Seq<crate::intersections::Intersection>,
    k: int,
) -> Option<crate::intersections::Intersection>
    decreases k,
{
    if k <= 0 || k > ts.len() {
        cur
    } else {
        let prev = s_fold_any(cur, ts, k - 1);
        if ts[k - 1].t >= 0 {
            Some(ts[k - 1])
        } else {
            prev
        }
    }
}

/// What the closest-hit fold accumulates: the result is the carried best
/// or a fold element with nonnegative time; it never exceeds the carried
/// best and never exceeds any nonnegative-time element folded so far; and
/// it is empty only when nothing was carried and nothing folded qualifies.
pub proof fn lemma_fold_min_is_min(
    cur: Option<crate::intersections::Intersection>,
    ts: Seq<crate::intersections::Intersection>,
    k: int,
)
    requires
        k <= ts.len(),
    ensures
        match s_fold_min(cur, ts, k) {
            Some(x) => {
                &&& (cur == Some(x) || (exists|i: int| 0 <= i < k && #[trigger] ts[i] == x)
                    && x.t >= 0)
                &&& (match cur {
                    Some(b) => x.t <= b.t,
                    None => true,
                })
                &&& forall|i: int| 0 <= i < k && #[trigger] ts[i].t >= 0 ==> x.t <= ts[i].t
            },
            None => cur is None && forall|i: int| 0 <= i < k ==> #[trigger] ts[i].t < 0,
        },
    decreases k,
{
    if k > 0 {
        lemma_fold_min_is_min(cur, ts, k - 1);
        match s_fold_min(cur, ts, k) {
            Some(x) => {
                if !(cur == Some(x)) && x == ts[k - 1] {
                    assert(ts[k - 1] == x);
                }
            },
            None => {},
        }
    }
}

/// What the any-hit fold accumulates: the carried hit or some folded
/// element with nonnegative time; empty only when nothing qualifies.
pub proof fn lemma_fold_any_member(
    cur: Option<crate::intersections::Intersection>,
    ts: Seq<crate::intersections::Intersection>,
    k: int,
)
    requires
        k <= ts.len(),
    ensures
        match s_fold_any(cur, ts, k) {
            Some(x) => cur == Some(x) || (exists|i: int| 0 <= i < k && #[trigger] ts[i] == x)
                && x.t >= 0,
            None => cur is None && forall|i: int| 0 <= i < k ==> #[trigger] ts[i].t < 0,
        },
    decreases k,
{
    if k > 0 {
        lemma_fold_any_member(cur, ts, k - 1);
        match s_fold_any(cur, ts, k) {
            Some(x) => {
                if !(cur == Some(x)) && x == ts[k - 1] {
                    assert(ts[k - 1] == x);
                }
            },
            None => {},
        }
    }
}

/// The closest-hit walk over the first `k` leaf positions.
pub open spec fn s_closest_from(
    idxs: Seq<usize>,
    children: Seq<Shape>,
    ray: Ray,
    best: Option<crate::intersections::Intersection>,
    k: int,
) -> Option<crate::intersections::Intersection>
    decreases children, 1int, 0int, k,
{
    if k <= 0 || k > idxs.len() {
        best
    } else {
        let prev = s_closest_from(idxs, children, ray, best, k - 1);
        let idx = idxs[k - 1] as int;
        if idx < children.len() {
            let ts = s_local_closest_hits(
                children[idx],
                crate::rays::s_transform(ray, children[idx].cached_local_inverse),
            );
            s_fold_min(prev, ts, ts.len() as int)
        } else {
            prev
        }
    }
}

/// The closest-hit tree walk as a value: a leaf folds each shape's probe
/// into the carried best; an internal node visits a subtree only when its
/// box is met ahead of the origin and not beyond the best so far, nearer
/// subtree first, the farther one re-checked against the improved best.
pub open spec fn s_bvh_closest(
    node: BVHNode,
    children: Seq<Shape>,
    ray: Ray,
    best: Option<crate::intersections::Intersection>,
) -> Option<crate::intersections::Intersection>
    decreases children, 1int, node.rank() as int, 0int,
{
    match node.ntype {
        crate::bvh::BVHNodeType::Leaf(idxs) => s_closest_from(
            idxs@,
            children,
            ray,
            best,
            idxs@.len() as int,
        ),
        crate::bvh::BVHNodeType::Internal(l, r) => {
            let cur_t = match best {
                Some(x) => x.t,
                None => i64::MAX,
            };
            let lt = crate::bounds::s_box_tmin_tmax(l.bb, ray);
            let rt = crate::bounds::s_box_tmin_tmax(r.bb, ray);
            let lgo = s_box_hit(l.bb, ray) && lt.0 <= cur_t && 0 <= lt.1;
            let rgo = s_box_hit(r.bb, ray) && rt.0 <= cur_t && 0 <= rt.1;
            if lgo && rgo {
                if lt.0 > rt.0 {
                    let mid = s_bvh_closest(*r, children, ray, best);
                    let mid_t = match mid {
                        Some(x) => x.t,
                        None => i64::MAX,
                    };
                    if s_box_hit(l.bb, ray) && lt.0 <= mid_t && 0 <= lt.1 {
                        s_bvh_closest(*l, children, ray, mid)
                    } else {
                        mid
                    }
                } else {
                    let mid = s_bvh_closest(*l, children, ray, best);
                    let mid_t = match mid {
                        Some(x) => x.t,
                        None => i64::MAX,
                    };
                    if s_box_hit(r.bb, ray) && rt.0 <= mid_t && 0 <= rt.1 {
                        s_bvh_closest(*r, children, ray, mid)
                    } else {
                        mid
                    }
                }
            } else if lgo {
                s_bvh_closest(*l, children, ray, best)
            } else if rgo {
                s_bvh_closest(*r, children, ray, best)
            } else {
                best
            }
        },
    }
}

/// The closest-hit probe of any shape: a frozen group walks its tree
/// behind the root box test; everything else reports its plain local hits.
pub open spec fn s_local_closest_hits(s: Shape, ray: Ray) -> Seq<
    crate::intersections::Intersection,
>
    decreases s, 0int, 0int, 1int,
{
    match s.shape_type {
        ShapeType::Group(g) => match g.bvh {
            Some(node) => {
                let bt = crate::bounds::s_box_tmin_tmax(node.bb, ray);
                if s_box_hit(node.bb, ray) && 0 <= bt.1 {
                    s_opt_hits(s_bvh_closest(node, g.children@, ray, None))
                } else {
                    Seq::empty()
                }
            },
            None => s_local_hits(s, ray),
        },
        _ => s_local_hits(s, ray),
    }
}

/// The any-hit walk over the first `k` leaf positions.
pub open spec fn s_any_from(
    idxs: Seq<usize>,
    children: Seq<Shape>,
    ray: Ray,
    found: Option<crate::intersections::Intersection>,
    k: int,
) -> Option<crate::intersections::Intersection>
    decreases children, 1int, 0int, k,
{
    if k <= 0 || k > idxs.len() {
        found
    } else {
        let prev = s_any_from(idxs, children, ray, found, k - 1);
        let idx = idxs[k - 1] as int;
        if idx < children.len() {
            let ts = s_local_any_hits(
                children[idx],
                crate::rays::s_transform(ray, children[idx].cached_local_inverse),
            );
            s_fold_any(prev, ts, ts.len() as int)
        } else {
            prev
        }
    }
}

/// The any-hit tree walk as a value: once a hit is carried, nothing more
/// is visited; otherwise box-met subtrees are visited left to right.
pub open spec fn s_bvh_any(
    node: BVHNode,
    children: Seq<Shape>,
    ray: Ray,
    found: Option<crate::intersections::Intersection>,
) -> Option<crate::intersections::Intersection>
    decreases children, 1int, node.rank() as int, 0int,
{
    if found is Some {
        found
    } else {
        match node.ntype {
            crate::bvh::BVHNodeType::Leaf(idxs) => s_any_from(
                idxs@,
                children,
                ray,
                found,
                idxs@.len() as int,
            ),
            crate::bvh::BVHNodeType::Internal(l, r) => {
                let c1 = if s_box_hit(l.bb, ray) {
                    s_bvh_any(*l, children, ray, found)
                } else {
                    found
                };
                if c1 is Some {
                    c1
                } else if s_box_hit(r.bb, ray) {
                    s_bvh_any(*r, children, ray, c1)
                } else {
                    c1
                }
            },
        }
    }
}

/// The any-hit probe of any shape.
pub open spec fn s_local_any_hits(s: Shape, ray: Ray) -> Seq<crate::intersections::Intersection>
    decreases s, 0int, 0int, 1int,
{
    match s.shape_type {
        ShapeType::Group(g) => match g.bvh {
            Some(node) => {
                if s_box_hit(node.bb, ray) {
                    s_opt_hits(s_bvh_any(node, g.children@, ray, None))
                } else {
                    Seq::empty()
                }
            },
            None => s_local_hits(s, ray),
        },
        _ => s_local_hits(s, ray),
    }
}

/// The closest-hit tree walk: carries the best hit so far, skips subtrees
/// whose boxes cannot beat it, and visits nearer subtrees first.
fn bvh_intersect_closest(
    node: &BVHNode,
    shapes: &Vec<Shape>,
    ray: &Ray,
    best: Option<crate::intersections::Intersection>,
) -> (r: Option<crate::intersections::Intersection>)
    requires
        node_valid(*node, shapes@.len() as int),
        forall|i: int| 0 <= i < shapes@.len() ==> s_wf_shape(#[trigger] shapes@[i]),
        best matches Some(b) ==> is_primitive(b.object) && b.t >= 0,
    ensures
        r == s_bvh_closest(*node, shapes@, *ray, best),
        (match r {
            Some(x) => is_primitive(x.object) && x.t >= 0 && (best matches Some(b) ==> x.t <= b.t),
            None => best is None,
        }),
    decreases *shapes, 1int, node.rank() as int, 0int,
{
    match &node.ntype {
        crate::bvh::BVHNodeType::Leaf(idxs) => {
            let mut cur: Option<crate::intersections::Intersection> = best;
            let n: usize = idxs.len();
            let mut k: usize = 0;
            while k < n
                invariant
                    k <= n,
                    n == idxs@.len(),
                    node.ntype matches crate::bvh::BVHNodeType::Leaf(ii) && ii@ == idxs@,
                    node_valid(*node, shapes@.len() as int),
                    forall|i: int| 0 <= i < shapes@.len() ==> s_wf_shape(#[trigger] shapes@[i]),
                    cur == s_closest_from(idxs@, shapes@, *ray, best, k as int),
                    cur matches Some(x) ==> is_primitive(x.object) && x.t >= 0 && (
                    best matches Some(b) ==> x.t <= b.t),
                    cur is None ==> best is None,
                decreases n - k,
            {
                let idx: usize = idxs[k];
                let child: &Shape = &shapes[idx];
                let t: Matrix = child.local_inverse();
                let object_ray: Ray = crate::rays::transform(ray, &t);
                proof {
                    assert(decreases_to!(*shapes => shapes@[idx as int]));
                }
                let ts: Vec<crate::intersections::Intersection> = child.local_intersect_closest_hit(
                    &object_ray,
                );
                let ghost prev_cur = cur;
                let m: usize = ts.len();
                let mut j: usize = 0;
                while j < m
                    invariant
                        j <= m,
                        m == ts@.len(),
                        ts@ == s_local_closest_hits(
                            shapes@[idxs@[k as int] as int],
                            crate::rays::s_transform(
                                *ray,
                                shapes@[idxs@[k as int] as int].cached_local_inverse,
                            ),
                        ),
                        crate::intersections::all_primitive(ts@),
                        cur == s_fold_min(prev_cur, ts@, j as int),
                        prev_cur matches Some(x) ==> is_primitive(x.object) && x.t >= 0 && (
                        best matches Some(b) ==> x.t <= b.t),
                        prev_cur is None ==> best is None,
                        cur matches Some(x) ==> is_primitive(x.object) && x.t >= 0 && (
                        best matches Some(b) ==> x.t <= b.t),
                        cur is None ==> best is None,
                    decreases m - j,
                {
                    let better: bool = match &cur {
                        Some(x) => ts[j].t >= 0 && ts[j].t < x.t,
                        None => ts[j].t >= 0,
                    };
                    if better {
                        cur = Some(crate::intersections::intersection_dup(&ts[j]));
                    }
                    j = j + 1;
                }
                proof {
                    assert(cur == s_closest_from(idxs@, shapes@, *ray, best, k as int + 1));
                }
                k = k + 1;
            }
            cur
        },
        crate::bvh::BVHNodeType::Internal(left, right) => {
            let cur_t: i64 = match &best {
                Some(x) => x.t,
                None => i64::MAX,
            };
            let (lbb, ltmin, ltmax) = left.bb.local_intersect_tmin_tmax(ray);
            let (rbb, rtmin, rtmax) = right.bb.local_intersect_tmin_tmax(ray);
            let lgo: bool = lbb && ltmin <= cur_t && 0 <= ltmax;
            let rgo: bool = rbb && rtmin <= cur_t && 0 <= rtmax;
            if lgo && rgo {
                let (near, far): (&Box<BVHNode>, &Box<BVHNode>) = if ltmin > rtmin {
                    (right, left)
                } else {
                    (left, right)
                };
                let mid: Option<crate::intersections::Intersection> = bvh_intersect_closest(
                    near,
                    shapes,
                    ray,
                    best,
                );
                let mid_t: i64 = match &mid {
                    Some(x) => x.t,
                    None => i64::MAX,
                };
                let (fbb, ftmin, ftmax) = far.bb.local_intersect_tmin_tmax(ray);
                if fbb && ftmin <= mid_t && 0 <= ftmax {
                    bvh_intersect_closest(far, shapes, ray, mid)
                } else {
                    mid
                }
            } else if lgo {
                bvh_intersect_closest(left, shapes, ray, best)
            } else if rgo {
                bvh_intersect_closest(right, shapes, ray, best)
            } else {
                best
            }
        },
    }
}

/// The any-hit tree walk: stops looking once one forward hit is known.
fn bvh_intersect_any(
    node: &BVHNode,
    shapes: &Vec<Shape>,
    ray: &Ray,
    found: Option<crate::intersections::Intersection>,
) -> (r: Option<crate::intersections::Intersection>)
    requires
        node_valid(*node, shapes@.len() as int),
        forall|i: int| 0 <= i < shapes@.len() ==> s_wf_shape(#[trigger] shapes@[i]),
        found matches Some(b) ==> is_primitive(b.object) && b.t >= 0,
    ensures
        r == s_bvh_any(*node, shapes@, *ray, found),
        (match r {
            Some(x) => is_primitive(x.object) && x.t >= 0,
            None => found is None,
        }),
    decreases *shapes, 1int, node.rank() as int, 0int,
{
    if found.is_some() {
        return found;
    }
    match &node.ntype {
        crate::bvh::BVHNodeType::Leaf(idxs) => {
            let mut cur: Option<crate::intersections::Intersection> = found;
            let n: usize = idxs.len();
            let mut k: usize = 0;
            while k < n
                invariant
                    k <= n,
                    n == idxs@.len(),
                    node.ntype matches crate::bvh::BVHNodeType::Leaf(ii) && ii@ == idxs@,
                    node_valid(*node, shapes@.len() as int),
                    forall|i: int| 0 <= i < shapes@.len() ==> s_wf_shape(#[trigger] shapes@[i]),
                    cur == s_any_from(idxs@, shapes@, *ray, found, k as int),
                    cur matches Some(x) ==> is_primitive(x.object) && x.t >= 0,
                decreases n - k,
            {
                let idx: usize = idxs[k];
                let child: &Shape = &shapes[idx];
                let t: Matrix = child.local_inverse();
                let object_ray: Ray = crate::rays::transform(ray, &t);
                proof {
                    assert(decreases_to!(*shapes => shapes@[idx as int]));
                }
                let ts: Vec<crate::intersections::Intersection> = child.local_intersect_any_hit(
                    &object_ray,
                );
                let ghost prev_cur = cur;
                let m: usize = ts.len();
                let mut j: usize = 0;
                while j < m
                    invariant
                        j <= m,
                        m == ts@.len(),
                        ts@ == s_local_any_hits(
                            shapes@[idxs@[k as int] as int],
                            crate::rays::s_transform(
                                *ray,
                                shapes@[idxs@[k as int] as int].cached_local_inverse,
                            ),
                        ),
                        crate::intersections::all_primitive(ts@),
                        cur == s_fold_any(prev_cur, ts@, j as int),
                        cur matches Some(x) ==> is_primitive(x.object) && x.t >= 0,
                        prev_cur matches Some(x) ==> is_primitive(x.object) && x.t >= 0,
                    decreases m - j,
                {
                    if ts[j].t >= 0 {
                        cur = Some(crate::intersections::intersection_dup(&ts[j]));
                    }
                    j = j + 1;
                }
                proof {
                    assert(cur == s_any_from(idxs@, shapes@, *ray, found, k as int + 1));
                }
                k = k + 1;
            }
            cur
        },
        crate::bvh::BVHNodeType::Internal(left, right) => {
            let (lbb, _lmin, _lmax) = left.bb.local_intersect_tmin_tmax(ray);
            let mut cur: Option<crate::intersections::Intersection> = found;
            if lbb {
                cur = bvh_intersect_any(left, shapes, ray, cur);
            }
            if cur.is_some() {
                return cur;
            }
            let (rbb, _rmin, _rmax) = right.bb.local_intersect_tmin_tmax(ray);
            if rbb {
                cur = bvh_intersect_any(right, shapes, ray, cur);
            }
            cur
        },
    }
}

impl Shape {
    /// Local hits under the closest-hit policy: a frozen group reports at
    /// most its nearest forward hit; everything else reports as
    /// `local_intersect`.
    pub fn local_intersect_closest_hit(&self, object_ray: &Ray) -> (r: Vec<
        crate::intersections::Intersection,
    >)
        requires
            self.wf_shape(),
        ensures
            r@ == s_local_closest_hits(*self, *object_ray),
            crate::intersections::all_primitive(r@),
            (self.shape_type matches ShapeType::Group(g) && g.bvh is Some) ==> r@.len() <= 1
                && (forall|i: int| 0 <= i < r@.len() ==> #[trigger] r@[i].t >= 0),
        decreases *self, 0int, 0int, 1int,
    {
        match &self.shape_type {
            ShapeType::Group(g) => {
                match &g.bvh {
                    Some(node) => {
                        let (hit, _tmin, tmax) = node.bb.local_intersect_tmin_tmax(object_ray);
                        let mut r: Vec<crate::intersections::Intersection> = Vec::new();
                        if hit && 0 <= tmax {
                            proof {
                                assert(decreases_to!(*self => g.children));
                            }
                            let best: Option<crate::intersections::Intersection> =
                                bvh_intersect_closest(node, &g.children, object_ray, None);
                            match best {
                                Some(x) => {
                                    r.push(x);
                                },
                                None => {},
                            }
                        }
                        proof {
                            assert(r@ =~= s_local_closest_hits(*self, *object_ray));
                        }
                        r
                    },
                    None => self.local_intersect(object_ray),
                }
            },
            _ => self.local_intersect(object_ray),
        }
    }

    /// Local hits under the any-hit policy: a frozen group reports at most
    /// one forward hit, not further constrained.
    pub fn local_intersect_any_hit(&self, object_ray: &Ray) -> (r: Vec<
        crate::intersections::Intersection,
    >)
        requires
            self.wf_shape(),
        ensures
            r@ == s_local_any_hits(*self, *object_ray),
            crate::intersections::all_primitive(r@),
            (self.shape_type matches ShapeType::Group(g) && g.bvh is Some) ==> r@.len() <= 1
                && (forall|i: int| 0 <= i < r@.len() ==> #[trigger] r@[i].t >= 0),
        decreases *self, 0int, 0int, 1int,
    {
        match &self.shape_type {
            ShapeType::Group(g) => {
                match &g.bvh {
                    Some(node) => {
                        let (hit, _tmin, _tmax) = node.bb.local_intersect_tmin_tmax(object_ray);
                        let mut r: Vec<crate::intersections::Intersection> = Vec::new();
                        if hit {
                            proof {
                                assert(decreases_to!(*self => g.children));
                            }
                            let best: Option<crate::intersections::Intersection> =
                                bvh_intersect_any(node, &g.children, object_ray, None);
                            match best {
                                Some(x) => {
                                    r.push(x);
                                },
                                None => {},
                            }
                        }
                        proof {
                            assert(r@ =~= s_local_any_hits(*self, *object_ray));
                        }
                        r
                    },
                    None => self.local_intersect(object_ray),
                }
            },
            _ => self.local_intersect(object_ray),
        }
    }

    /// The nearest-forward-hit probe from the parent's space.
    pub fn intersect_closest_hit(&self, parent_ray: &Ray) -> (r: Vec<
        crate::intersections::Intersection,
    >)
        requires
            self.wf_shape(),
        ensures
            r@ == s_local_closest_hits(
                *self,
                crate::rays::s_transform(*parent_ray, self.cached_local_inverse),
            ),
            crate::intersections::all_primitive(r@),
            (self.shape_type matches ShapeType::Group(g) && g.bvh is Some) ==> r@.len() <= 1
                && (forall|i: int| 0 <= i < r@.len() ==> #[trigger] r@[i].t >= 0),
    {
        let local_ray: Ray = self.local_from_parent_ray(parent_ray);
        self.local_intersect_closest_hit(&local_ray)
    }

    /// The any-forward-hit probe from the parent's space.
    pub fn intersect_any_hit(&self, parent_ray: &Ray) -> (r: Vec<
        crate::intersections::Intersection,
    >)
        requires
            self.wf_shape(),
        ensures
            r@ == s_local_any_hits(
                *self,
                crate::rays::s_transform(*parent_ray, self.cached_local_inverse),
            ),
            crate::intersections::all_primitive(r@),
            (self.shape_type matches ShapeType::Group(g) && g.bvh is Some) ==> r@.len() <= 1
                && (forall|i: int| 0 <= i < r@.len() ==> #[trigger] r@[i].t >= 0),
    {
        let local_ray: Ray = self.local_from_parent_ray(parent_ray);
        self.local_intersect_any_hit(&local_ray)
    }
}

/// Object-space equivalence: after a shape's local transform is set to `t`
/// (and its caches recomputed), the local inverse it probes rays through is
/// exactly `t`'s inverse — so `intersect` of a world ray reports the local
/// hits of the ray carried through that inverse, as `intersect`'s own
/// contract states over `s_local_hits`.
pub proof fn lemma_object_space_equivalence(
    s0: Shape,
    t: Matrix,
    parent: Matrix,
    s: Shape,
    r: Ray,
)
    requires
        recomputed_rel(Shape { local_to_parent_transform: t, ..s0 }, parent, s),
        s_det(t) != 0,
    ensures
        s.cached_local_inverse == s_inverse(t),
        crate::rays::s_transform(r, s.cached_local_inverse) == crate::rays::s_transform(
            r,
            s_inverse(t),
        ),
{
}

/// The local-space normal of a primitive at a local point, with the
/// barycentric coordinates a smooth triangle interpolates by.
pub open spec fn s_local_normal(s: Shape, p: Tuple, u: i64, v: i64) -> Tuple {
    match s.shape_type {
        ShapeType::Sphere(_) => s_sub(p, Tuple { x: 0i64, y: 0i64, z: 0i64, w: SCALE }),
        ShapeType::Plane(_) => Tuple { x: 0i64, y: SCALE, z: 0i64, w: 0i64 },
        ShapeType::Cube(_) => {
            let m = sfmax(sfmax(sfabs(p.x), sfabs(p.y)), sfabs(p.z));
            if m == sfabs(p.x) {
                Tuple { x: p.x, y: 0i64, z: 0i64, w: 0i64 }
            } else if m == sfabs(p.y) {
                Tuple { x: 0i64, y: p.y, z: 0i64, w: 0i64 }
            } else {
                Tuple { x: 0i64, y: 0i64, z: p.z, w: 0i64 }
            }
        },
        ShapeType::Cylinder(c) => {
            let dist = sfadd(sfmul(p.x, p.x), sfmul(p.z, p.z));
            if dist < SCALE && p.y >= sfsub(c.maximum, EPSILON) {
                Tuple { x: 0i64, y: SCALE, z: 0i64, w: 0i64 }
            } else if dist < SCALE && p.y <= sfadd(c.minimum, EPSILON) {
                Tuple { x: 0i64, y: -SCALE as i64, z: 0i64, w: 0i64 }
            } else {
                Tuple { x: p.x, y: 0i64, z: p.z, w: 0i64 }
            }
        },
        ShapeType::Cone(c) => {
            let dist = sfadd(sfmul(p.x, p.x), sfmul(p.z, p.z));
            if dist < SCALE && p.y >= sfsub(c.maximum, EPSILON) {
                Tuple { x: 0i64, y: SCALE, z: 0i64, w: 0i64 }
            } else if dist < SCALE && p.y <= sfadd(c.minimum, EPSILON) {
                Tuple { x: 0i64, y: -SCALE as i64, z: 0i64, w: 0i64 }
            } else {
                let yy = sfsqrt(dist);
                Tuple {
                    x: p.x,
                    y: (if p.y > 0 {
                        sfneg(yy)
                    } else {
                        yy
                    }),
                    z: p.z,
                    w: 0i64,
                }
            }
        },
        ShapeType::Triangle(t) => t.normal,
        ShapeType::SmoothTriangle(t) => crate::tuples::s_add(
            crate::tuples::s_add(
                crate::tuples::s_scale(t.n2, u),
                crate::tuples::s_scale(t.n3, v),
            ),
            crate::tuples::s_scale(t.n1, sfsub(sfsub(SCALE, u), v)),
        ),
        ShapeType::TestShape(_) => Tuple { x: p.x, y: p.y, z: p.z, w: 0i64 },
        _ => Tuple { x: 0i64, y: 0i64, z: 0i64, w: 0i64 },
    }
}

/// A world point carried into a shape's own space.
pub fn world_to_object(shape: &Shape, p: &Tuple) -> (r: Tuple)
    ensures
        r == s_mat_tuple(shape.cached_inverse, *p),
{
    shape.inverse().mul_tuple(p)
}

/// A local normal carried back to world space: the transposed inverse,
/// the homogeneous part zeroed, then normalized.
pub open spec fn s_normal_to_world(shape: Shape, v: Tuple) -> Tuple {
    let wn = s_mat_tuple(s_transpose(shape.cached_inverse), v);
    s_normalize(Tuple { x: wn.x, y: wn.y, z: wn.z, w: 0i64 })
}

pub fn normal_to_world(shape: &Shape, v: &Tuple) -> (r: Tuple)
    ensures
        r == s_normal_to_world(*shape, *v),
{
    let inv: Matrix = shape.inverse();
    let tr: Matrix = transpose(&inv);
    let wn: Tuple = tr.mul_tuple(v);
    let fixed: Tuple = Tuple { x: wn.x, y: wn.y, z: wn.z, w: 0 };
    fixed.normalized()
}

/// The world-space surface normal at a world point of a primitive.
pub open spec fn s_normal_at(shape: Shape, world_point: Tuple, u: i64, v: i64) -> Tuple {
    s_normal_to_world(
        shape,
        s_local_normal(shape, s_mat_tuple(shape.cached_inverse, world_point), u, v),
    )
}

/// The primitive's local normal, dispatched by variant.
fn local_normal_dispatch(shape: &Shape, p: &Tuple, u: i64, v: i64) -> (r: Tuple)
    requires
        is_primitive(*shape),
    ensures
        r == s_local_normal(*shape, *p, u, v),
{
    match &shape.shape_type {
        ShapeType::Sphere(s) => s.local_normal_at(p),
        ShapeType::Plane(s) => s.local_normal_at(),
        ShapeType::Cube(s) => s.local_normal_at(p),
        ShapeType::Cylinder(s) => s.local_normal_at(p),
        ShapeType::Cone(s) => s.local_normal_at(p),
        ShapeType::Triangle(s) => s.local_normal_at(),
        ShapeType::SmoothTriangle(s) => s.local_normal_at(u, v),
        ShapeType::TestShape(s) => s.local_normal_at(p),
        _ => {
            proof {
                assert(false);
            }
            vector(0, 0, 0)
        },
    }
}

/// The world normal at a hit, interpolating by the hit's barycentric
/// coordinates where the shape is a smooth triangle.
pub fn normal_at3(shape: &Shape, world_point: &Tuple, hit: &crate::intersections::Intersection) -> (
    r: Tuple)
    requires
        is_primitive(*shape),
    ensures
        r == s_normal_at(*shape, *world_point, hit.u, hit.v),
{
    let object_point: Tuple = world_to_object(shape, world_point);
    let object_normal: Tuple = local_normal_dispatch(shape, &object_point, hit.u, hit.v);
    normal_to_world(shape, &object_normal)
}

/// The world normal of a plain (non-interpolating) hit.
pub fn normal_at2(shape: &Shape, world_point: &Tuple) -> (r: Tuple)
    requires
        is_primitive(*shape),
    ensures
        r == s_normal_at(*shape, *world_point, 0, 0),
{
    let object_point: Tuple = world_to_object(shape, world_point);
    let object_normal: Tuple = local_normal_dispatch(shape, &object_point, 0, 0);
    normal_to_world(shape, &object_normal)
}

/// The local normal of a primitive at a local point.
pub fn local_normal_at(shape: &Shape, object_point: &Tuple) -> (r: Tuple)
    requires
        is_primitive(*shape),
    ensures
        r == s_local_normal(*shape, *object_point, 0, 0),
{
    local_normal_dispatch(shape, object_point, 0, 0)
}

/// A shape's local hits of a ray, as a sorted list (a test convenience).
pub fn local_intersect(shape: &Shape, ray: &Ray) -> (r: crate::intersections::Intersections)
    requires
        shape.wf_shape(),
    ensures
        r.wf(),
        r.data@ == crate::intersections::s_sort_by_t(s_local_hits(*shape, *ray)),
{
    let xs: Vec<crate::intersections::Intersection> = shape.local_intersect(ray);
    crate::intersections::intersections(xs)
}

/// A shape's hits of a world ray, as a sorted list.
pub fn intersect(shape: &Shape, world_ray: &Ray) -> (r: crate::intersections::Intersections)
    requires
        shape.wf_shape(),
    ensures
        r.wf(),
        r.data@ == crate::intersections::s_sort_by_t(
            s_local_hits(
                *shape,
                crate::rays::s_transform(*world_ray, shape.cached_local_inverse),
            ),
        ),
{
    let xs: Vec<crate::intersections::Intersection> = shape.intersect(world_ray);
    crate::intersections::intersections(xs)
}

/// The ray a probe shape was handed, recovered from its recorded hits.
pub fn unpack_saved_ray(is: &crate::intersections::Intersections) -> (r: Ray)
    requires
        is.data@.len() >= 6,
    ensures
        r.origin == (Tuple {
            x: is.data@[0].t,
            y: is.data@[1].t,
            z: is.data@[2].t,
            w: SCALE,
        }),
        r.direction == (Tuple {
            x: is.data@[3].t,
            y: is.data@[4].t,
            z: is.data@[5].t,
            w: 0i64,
        }),
{
    let origin: Tuple = point(is.data[0].t, is.data[1].t, is.data[2].t);
    let direction: Tuple = vector(is.data[3].t, is.data[4].t, is.data[5].t);
    Ray { origin, direction }
}

impl Shape {
    /// The group payload, if this shape is a group.
    pub fn as_group(&self) -> (r: Option<&Group>)
        ensures
            (match r {
                Some(g) => self.shape_type matches ShapeType::Group(gg) && *g == gg,
                None => !(self.shape_type is Group),
            }),
    {
        match &self.shape_type {
            ShapeType::Group(g) => Some(g),
            _ => None,
        }
    }

    /// The CSG payload, if this shape is a CSG node.
    pub fn as_csg(&self) -> (r: Option<&CSG>)
        ensures
            (match r {
                Some(c) => self.shape_type matches ShapeType::CSG(cc) && *c == cc,
                None => !(self.shape_type is CSG),
            }),
    {
        match &self.shape_type {
            ShapeType::CSG(c) => Some(c),
            _ => None,
        }
    }

    /// The children of a composite shape.
    pub fn children(&self) -> (r: &Vec<Shape>)
        requires
            !is_primitive(*self),
        ensures
            (match self.shape_type {
                ShapeType::Group(g) => r@ == g.children@,
                ShapeType::CSG(c) => r@ == c.children@,
                _ => false,
            }),
    {
        match &self.shape_type {
            ShapeType::Group(g) => &g.children,
            ShapeType::CSG(c) => &c.children,
            _ => {
                proof {
                    assert(false);
                }
                unreached()
            },
        }
    }

    /// Whether a composite shape has no children.
    pub fn is_empty(&self) -> (r: bool)
        requires
            !is_primitive(*self),
        ensures
            (match self.shape_type {
                ShapeType::Group(g) => r == (g.children@.len() == 0),
                ShapeType::CSG(c) => r == (c.children@.len() == 0),
                _ => false,
            }),
    {
        self.children().len() == 0
    }

    /// The left child of a CSG node.
    pub fn left(&self) -> (r: &Shape)
        requires
            self.shape_type matches ShapeType::CSG(c) && c.children@.len() == 2,
        ensures
            self.shape_type matches ShapeType::CSG(c) && *r == c.children@[0],
    {
        match &self.shape_type {
            ShapeType::CSG(c) => &c.children[0],
            _ => {
                proof {
                    assert(false);
                }
                unreached()
            },
        }
    }

    /// The right child of a CSG node.
    pub fn right(&self) -> (r: &Shape)
        requires
            self.shape_type matches ShapeType::CSG(c) && c.children@.len() == 2,
        ensures
            self.shape_type matches ShapeType::CSG(c) && *r == c.children@[1],
    {
        match &self.shape_type {
            ShapeType::CSG(c) => &c.children[1],
            _ => {
                proof {
                    assert(false);
                }
                unreached()
            },
        }
    }

    /// The name of a CSG node's boolean operation.
    pub fn operation(&self) -> (r: String)
        requires
            self.shape_type is CSG,
        ensures
            self.shape_type matches ShapeType::CSG(c) && r@ == (match c.op {
                crate::csg::Operation::Union => "union"@,
                crate::csg::Operation::Intersection => "intersection"@,
                crate::csg::Operation::Difference => "difference"@,
            }),
    {
        match &self.shape_type {
            ShapeType::CSG(c) => crate::csg::operation_name(&c.op),
            _ => {
                proof {
                    assert(false);
                }
                unreached()
            },
        }
    }

    /// Whether a cylinder or cone is capped.
    pub fn closed(&self) -> (r: bool)
        requires
            self.shape_type is Cylinder || self.shape_type is Cone,
        ensures
            (match self.shape_type {
                ShapeType::Cylinder(c) => r == c.closed,
                ShapeType::Cone(c) => r == c.closed,
                _ => false,
            }),
    {
        match &self.shape_type {
            ShapeType::Cylinder(c) => c.closed,
            ShapeType::Cone(c) => c.closed,
            _ => {
                proof {
                    assert(false);
                }
                unreached()
            },
        }
    }

    pub fn minimum(&self) -> (r: i64)
        requires
            self.shape_type is Cylinder || self.shape_type is Cone,
        ensures
            (match self.shape_type {
                ShapeType::Cylinder(c) => r == c.minimum,
                ShapeType::Cone(c) => r == c.minimum,
                _ => false,
            }),
    {
        match &self.shape_type {
            ShapeType::Cylinder(c) => c.minimum,
            ShapeType::Cone(c) => c.minimum,
            _ => {
                proof {
                    assert(false);
                }
                unreached()
            },
        }
    }

    pub fn maximum(&self) -> (r: i64)
        requires
            self.shape_type is Cylinder || self.shape_type is Cone,
        ensures
            (match self.shape_type {
                ShapeType::Cylinder(c) => r == c.maximum,
                ShapeType::Cone(c) => r == c.maximum,
                _ => false,
            }),
    {
        match &self.shape_type {
            ShapeType::Cylinder(c) => c.maximum,
            ShapeType::Cone(c) => c.maximum,
            _ => {
                proof {
                    assert(false);
                }
                unreached()
            },
        }
    }

    pub fn set_closed(&mut self, closed: &bool)
        requires
            old(self).shape_type is Cylinder || old(self).shape_type is Cone,
        ensures
            *final(self) == (Shape {
                shape_type: (match old(self).shape_type {
                    ShapeType::Cylinder(c) => ShapeType::Cylinder(
                        Cylinder { closed: *closed, ..c },
                    ),
                    ShapeType::Cone(c) => ShapeType::Cone(Cone { closed: *closed, ..c }),
                    other => other,
                }),
                ..*old(self)
            }),
    {
        let nt: ShapeType = match &self.shape_type {
            ShapeType::Cylinder(c) => ShapeType::Cylinder(Cylinder { closed: *closed, ..*c }),
            ShapeType::Cone(c) => ShapeType::Cone(Cone { closed: *closed, ..*c }),
            _ => {
                proof {
                    assert(false);
                }
                unreached()
            },
        };
        self.shape_type = nt;
    }

    pub fn set_minimum(&mut self, minimum: &i64)
        requires
            old(self).shape_type is Cylinder || old(self).shape_type is Cone,
        ensures
            *final(self) == (Shape {
                shape_type: (match old(self).shape_type {
                    ShapeType::Cylinder(c) => ShapeType::Cylinder(
                        Cylinder { minimum: *minimum, ..c },
                    ),
                    ShapeType::Cone(c) => ShapeType::Cone(Cone { minimum: *minimum, ..c }),
                    other => other,
                }),
                ..*old(self)
            }),
    {
        let nt: ShapeType = match &self.shape_type {
            ShapeType::Cylinder(c) => ShapeType::Cylinder(Cylinder { minimum: *minimum, ..*c }),
            ShapeType::Cone(c) => ShapeType::Cone(Cone { minimum: *minimum, ..*c }),
            _ => {
                proof {
                    assert(false);
                }
                unreached()
            },
        };
        self.shape_type = nt;
    }

    pub fn set_maximum(&mut self, maximum: &i64)
        requires
            old(self).shape_type is Cylinder || old(self).shape_type is Cone,
        ensures
            *final(self) == (Shape {
                shape_type: (match old(self).shape_type {
                    ShapeType::Cylinder(c) => ShapeType::Cylinder(
                        Cylinder { maximum: *maximum, ..c },
                    ),
                    ShapeType::Cone(c) => ShapeType::Cone(Cone { maximum: *maximum, ..c }),
                    other => other,
                }),
                ..*old(self)
            }),
    {
        let nt: ShapeType = match &self.shape_type {
            ShapeType::Cylinder(c) => ShapeType::Cylinder(Cylinder { maximum: *maximum, ..*c }),
            ShapeType::Cone(c) => ShapeType::Cone(Cone { maximum: *maximum, ..*c }),
            _ => {
                proof {
                    assert(false);
                }
                unreached()
            },
        };
        self.shape_type = nt;
    }
}

/// Whether any shape of a child list contains the primitive `q`.
fn includes_in_children(children: &Vec<Shape>, q: &Shape) -> (r: bool)
    requires
        is_primitive(*q),
    ensures
        r == exists|i: int|
            0 <= i < children@.len() && s_includes(#[trigger] children@[i], *q),
    decreases *children, 0int,
{
    let n: usize = children.len();
    let mut i: usize = 0;
    while i < n
        invariant
            i <= n,
            n == children@.len(),
            is_primitive(*q),
            forall|j: int| 0 <= j < i ==> !s_includes(#[trigger] children@[j], *q),
        decreases n - i,
    {
        proof {
            assert(decreases_to!(*children => children@[i as int]));
        }
        if children[i].includes(q) {
            return true;
        }
        i = i + 1;
    }
    false
}

} // verus!
