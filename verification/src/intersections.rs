//! Hit records and sorted hit lists.
//!
//! An `Intersection` stores the hit time `t`, the hit shape itself (always a
//! primitive — composites delegate to their children), and the barycentric
//! `u`/`v` used by smooth triangles.
use crate::shapes::{is_primitive, prim_eq, primitive_snapshot, Shape};
use vstd::prelude::*;

verus! {

pub struct Intersection {
    pub t: i64,
    pub object: Shape,
    pub u: i64,
    pub v: i64,
}

/// Structural equality of two hit records over primitive shapes.
pub open spec fn int_eq(a: Intersection, b: Intersection) -> bool {
    a.t == b.t && prim_eq(a.object, b.object) && a.u == b.u && a.v == b.v
}

/// Every record's shape is a primitive.
pub open spec fn all_primitive(s: Seq<Intersection>) -> bool {
    forall|i: int| 0 <= i < s.len() ==> is_primitive(#[trigger] s[i].object)
}

/// Non-decreasing in `t`.
pub open spec fn sorted_by_t(s: Seq<Intersection>) -> bool {
    forall|i: int, j: int| 0 <= i < j < s.len() ==> #[trigger] s[i].t <= #[trigger] s[j].t
}

pub fn intersection(t: i64, object: &Shape) -> (r: Intersection)
    requires
        is_primitive(*object),
    ensures
        r.t == t && r.object == *object && r.u == 0 && r.v == 0,
{
    intersection_with_uv(t, object, 0, 0)
}

pub fn intersection_with_uv(t: i64, object: &Shape, u: i64, v: i64) -> (r: Intersection)
    requires
        is_primitive(*object),
    ensures
        r.t == t && r.object == *object && r.u == u && r.v == v,
{
    Intersection { t, object: primitive_snapshot(object), u, v }
}

/// An equal copy of a hit record.
pub fn intersection_dup(i: &Intersection) -> (r: Intersection)
    requires
        is_primitive(i.object),
    ensures
        r == *i,
{
    Intersection { t: i.t, object: primitive_snapshot(&i.object), u: i.u, v: i.v }
}

/// A hit list kept sorted by `t`, with its length cached.
pub struct Intersections {
    pub count: usize,
    pub data: Vec<Intersection>,
}

impl Intersections {
    /// The cached count is the length, the list is sorted, and every
    /// entry's shape is a primitive.
    pub open spec fn wf(&self) -> bool {
        &&& self.count == self.data@.len()
        &&& sorted_by_t(self.data@)
        &&& all_primitive(self.data@)
    }

    pub fn is_empty(&self) -> (r: bool)
        ensures
            r == (self.count == 0),
    {
        self.count == 0
    }

    /// The first hit in front of the ray's origin: least positive `t`.
    pub fn hit(&self) -> (r: Option<Intersection>)
        requires
            self.wf(),
        ensures
            r == s_first_hit(self.data@),
    {
        let n: usize = self.data.len();
        let mut k: usize = 0;
        while k < n
            invariant
                k <= n,
                self.wf(),
                n == self.data@.len(),
                forall|j: int| 0 <= j < k ==> #[trigger] self.data@[j].t <= 0,
            decreases n - k,
        {
            if self.data[k].t > 0 {
                proof {
                    lemma_first_hit_at(self.data@, k as int);
                }
                return Some(intersection_dup(&self.data[k]));
            }
            k = k + 1;
        }
        proof {
            lemma_first_hit_none(self.data@);
        }
        None
    }

    /// The first positive hit whose shape casts shadows.
    pub fn hit_for_shadow(&self) -> (r: Option<Intersection>)
        requires
            self.wf(),
        ensures
            r == s_first_shadow_hit(self.data@),
    {
        let n: usize = self.data.len();
        let mut k: usize = 0;
        while k < n
            invariant
                k <= n,
                self.wf(),
                n == self.data@.len(),
                forall|j: int|
                    0 <= j < k ==> !(#[trigger] self.data@[j].t > 0 && self.data@[j].object.shadow),
            decreases n - k,
        {
            if self.data[k].t > 0 && self.data[k].object.shadow {
                proof {
                    lemma_first_shadow_hit_at(self.data@, k as int);
                }
                return Some(intersection_dup(&self.data[k]));
            }
            k = k + 1;
        }
        proof {
            lemma_first_shadow_hit_none(self.data@);
        }
        None
    }
}

/// A sorted list of one record.
pub fn intersections1(i1: Intersection) -> (r: Intersections)
    requires
        is_primitive(i1.object),
    ensures
        r.wf(),
        r.data@ == s_sort_by_t(seq![i1]),
        r.data@.to_multiset() == seq![i1].to_multiset(),
{
    let mut v: Vec<Intersection> = Vec::new();
    v.push(i1);
    proof {
        assert(v@ =~= seq![i1]);
    }
    intersections(v)
}

/// A sorted list of two records.
pub fn intersections2(i1: Intersection, i2: Intersection) -> (r: Intersections)
    requires
        is_primitive(i1.object),
        is_primitive(i2.object),
    ensures
        r.wf(),
        r.data@ == s_sort_by_t(seq![i1, i2]),
        r.data@.to_multiset() == seq![i1, i2].to_multiset(),
{
    let mut v: Vec<Intersection> = Vec::new();
    v.push(i1);
    v.push(i2);
    proof {
        assert(v@ =~= seq![i1, i2]);
    }
    intersections(v)
}

/// A sorted list of three records.
pub fn intersections3(i1: Intersection, i2: Intersection, i3: Intersection) -> (r: Intersections)
    requires
        is_primitive(i1.object),
        is_primitive(i2.object),
        is_primitive(i3.object),
    ensures
        r.wf(),
        r.data@ == s_sort_by_t(seq![i1, i2, i3]),
        r.data@.to_multiset() == seq![i1, i2, i3].to_multiset(),
{
    let mut v: Vec<Intersection> = Vec::new();
    v.push(i1);
    v.push(i2);
    v.push(i3);
    proof {
        assert(v@ =~= seq![i1, i2, i3]);
    }
    intersections(v)
}

/// A sorted list of four records.
pub fn intersections4(i1: Intersection, i2: Intersection, i3: Intersection, i4: Intersection) -> (r:
    Intersections)
    requires
        is_primitive(i1.object),
        is_primitive(i2.object),
        is_primitive(i3.object),
        is_primitive(i4.object),
    ensures
        r.wf(),
        r.data@ == s_sort_by_t(seq![i1, i2, i3, i4]),
        r.data@.to_multiset() == seq![i1, i2, i3, i4].to_multiset(),
{
    let mut v: Vec<Intersection> = Vec::new();
    v.push(i1);
    v.push(i2);
    v.push(i3);
    v.push(i4);
    proof {
        assert(v@ =~= seq![i1, i2, i3, i4]);
    }
    intersections(v)
}

/// The first forward hit of a sorted list.
pub fn hit(is: &Intersections) -> (r: Option<Intersection>)
    requires
        is.wf(),
    ensures
        r == s_first_hit(is.data@),
{
    is.hit()
}

/// The shading record of a hit taken alone (its own one-entry list).
pub fn prepare_computations2(hit: &Intersection, ray: &crate::rays::Ray) -> (r: C)
    requires
        is_primitive(hit.object),
    ensures
        r == s_comps(*hit, *ray, seq![*hit]),
{
    let one: Intersections = intersections1(intersection_dup(hit));
    proof {
        crate::intersections::lemma_sort_props(seq![*hit]);
        assert(seq![*hit].drop_last() =~= Seq::<Intersection>::empty());
        assert(s_sort_by_t(seq![*hit]) == s_insert_by_t(
            s_sort_by_t(Seq::<Intersection>::empty()),
            *hit,
        ));
        assert(s_sort_by_t(Seq::<Intersection>::empty()) == Seq::<Intersection>::empty());
        assert(s_insert_by_t(Seq::<Intersection>::empty(), *hit) == seq![*hit]);
        assert(one.data@ == seq![*hit]);
    }
    prepare_computations3(hit, ray, &one)
}

/// First position in a container stack holding a shape structurally equal
/// to `o`, or -1.
pub open spec fn find_prim(cs: Seq<Shape>, o: Shape) -> int
    decreases cs.len(),
{
    if cs.len() == 0 {
        -1
    } else if prim_eq(cs[0], o) {
        0
    } else {
        let r = find_prim(cs.drop_first(), o);
        if r == -1 {
            -1
        } else {
            r + 1
        }
    }
}

pub proof fn lemma_find_prim(cs: Seq<Shape>, o: Shape)
    ensures
        find_prim(cs, o) == -1 ==> forall|i: int| 0 <= i < cs.len() ==> !prim_eq(#[trigger] cs[i], o),
        find_prim(cs, o) != -1 ==> 0 <= find_prim(cs, o) < cs.len() && prim_eq(
            cs[find_prim(cs, o)],
            o,
        ) && forall|i: int| 0 <= i < find_prim(cs, o) ==> !prim_eq(#[trigger] cs[i], o),
    decreases cs.len(),
{
    if cs.len() == 0 {
    } else if prim_eq(cs[0], o) {
    } else {
        lemma_find_prim(cs.drop_first(), o);
        let rd = find_prim(cs.drop_first(), o);
        if rd == -1 {
            assert forall|i: int| 0 <= i < cs.len() implies !prim_eq(#[trigger] cs[i], o) by {
                if i >= 1 {
                    assert(cs[i] == cs.drop_first()[i - 1]);
                }
            }
        } else {
            assert(cs[rd + 1] == cs.drop_first()[rd]);
            assert forall|i: int| 0 <= i < rd + 1 implies !prim_eq(#[trigger] cs[i], o) by {
                if i >= 1 {
                    assert(cs[i] == cs.drop_first()[i - 1]);
                }
            }
        }
    }
}

/// One step of the refractive-container walk: a shape already on the stack
/// is being exited (removed by swapping the last entry in), a new one is
/// being entered (pushed).
pub open spec fn s_toggle(cs: Seq<Shape>, o: Shape) -> Seq<Shape> {
    let i = find_prim(cs, o);
    if i == -1 {
        cs.push(o)
    } else {
        cs.update(i, cs.last()).drop_last()
    }
}

/// The container stack after replaying the first `k` hits.
pub open spec fn s_containers(xs: Seq<Intersection>, k: int) -> Seq<Shape>
    decreases k,
{
    if k <= 0 || k > xs.len() {
        Seq::empty()
    } else {
        s_toggle(s_containers(xs, k - 1), xs[k - 1].object)
    }
}

/// First position of the record equal to `target`, or -1.
pub open spec fn first_match(xs: Seq<Intersection>, target: Intersection) -> int
    decreases xs.len(),
{
    if xs.len() == 0 {
        -1
    } else if int_eq(xs[0], target) {
        0
    } else {
        let r = first_match(xs.drop_first(), target);
        if r == -1 {
            -1
        } else {
            r + 1
        }
    }
}

pub proof fn lemma_first_match(xs: Seq<Intersection>, target: Intersection)
    ensures
        first_match(xs, target) == -1 ==> forall|i: int|
            0 <= i < xs.len() ==> !int_eq(#[trigger] xs[i], target),
        first_match(xs, target) != -1 ==> 0 <= first_match(xs, target) < xs.len() && int_eq(
            xs[first_match(xs, target)],
            target,
        ) && forall|i: int| 0 <= i < first_match(xs, target) ==> !int_eq(#[trigger] xs[i], target),
    decreases xs.len(),
{
    if xs.len() == 0 {
    } else if int_eq(xs[0], target) {
    } else {
        lemma_first_match(xs.drop_first(), target);
        let rd = first_match(xs.drop_first(), target);
        if rd == -1 {
            assert forall|i: int| 0 <= i < xs.len() implies !int_eq(#[trigger] xs[i], target) by {
                if i >= 1 {
                    assert(xs[i] == xs.drop_first()[i - 1]);
                }
            }
        } else {
            assert(xs[rd + 1] == xs.drop_first()[rd]);
            assert forall|i: int| 0 <= i < rd + 1 implies !int_eq(#[trigger] xs[i], target) by {
                if i >= 1 {
                    assert(xs[i] == xs.drop_first()[i - 1]);
                }
            }
        }
    }
}

/// The refractive index of the medium a hit leaves: the top of the stack
/// just before the hit is replayed, the vacuum's one on an empty stack.
pub open spec fn s_n1(xs: Seq<Intersection>, target: Intersection) -> i64 {
    let k = first_match(xs, target);
    if k == -1 {
        100_000i64
    } else {
        let cs = s_containers(xs, k);
        if cs.len() == 0 {
            100_000i64
        } else {
            cs.last().material.refractive_index
        }
    }
}

/// The refractive index of the medium a hit enters: the top of the stack
/// just after the hit is replayed.
pub open spec fn s_n2(xs: Seq<Intersection>, target: Intersection) -> i64 {
    let k = first_match(xs, target);
    if k == -1 {
        100_000i64
    } else {
        let cs = s_containers(xs, k + 1);
        if cs.len() == 0 {
            100_000i64
        } else {
            cs.last().material.refractive_index
        }
    }
}

/// Everything shading needs of one hit: the world point, eye and surface
/// vectors, the acne-safe offset points, and the refractive pair.
pub struct C {
    pub t: i64,
    pub object: Shape,
    pub point: crate::tuples::Tuple,
    pub eyev: crate::tuples::Tuple,
    pub normalv: crate::tuples::Tuple,
    pub reflectv: crate::tuples::Tuple,
    pub inside: bool,
    pub over_point: crate::tuples::Tuple,
    pub under_point: crate::tuples::Tuple,
    pub n1: i64,
    pub n2: i64,
}

impl C {
    pub fn n1(&self) -> (r: i64)
        ensures
            r == self.n1,
    {
        self.n1
    }

    pub fn n2(&self) -> (r: i64)
        ensures
            r == self.n2,
    {
        self.n2
    }
}

/// The first record in front of the ray: the least-index entry with a
/// positive hit time (the least such time on a sorted list).
pub open spec fn s_first_hit(xs: Seq<Intersection>) -> Option<Intersection>
    decreases xs.len(),
{
    if xs.len() == 0 {
        None
    } else if xs[0].t > 0 {
        Some(xs[0])
    } else {
        s_first_hit(xs.drop_first())
    }
}

/// A witness at position `k` (positive, nothing positive before it) pins
/// the first hit.
pub proof fn lemma_first_hit_at(xs: Seq<Intersection>, k: int)
    requires
        0 <= k < xs.len(),
        xs[k].t > 0,
        forall|j: int| 0 <= j < k ==> #[trigger] xs[j].t <= 0,
    ensures
        s_first_hit(xs) == Some(xs[k]),
    decreases xs.len(),
{
    if k == 0 {
    } else {
        assert(xs[0].t <= 0);
        assert(forall|j: int| 0 <= j < k - 1 ==> #[trigger] xs.drop_first()[j] == xs[j + 1]);
        lemma_first_hit_at(xs.drop_first(), k - 1);
        assert(xs.drop_first()[k - 1] == xs[k]);
    }
}

/// No positive record means no first hit.
pub proof fn lemma_first_hit_none(xs: Seq<Intersection>)
    requires
        forall|j: int| 0 <= j < xs.len() ==> #[trigger] xs[j].t <= 0,
    ensures
        s_first_hit(xs) is None,
    decreases xs.len(),
{
    if xs.len() > 0 {
        assert(forall|j: int|
            0 <= j < xs.len() - 1 ==> #[trigger] xs.drop_first()[j] == xs[j + 1]);
        lemma_first_hit_none(xs.drop_first());
    }
}

/// What the first hit is made of: a positive member of the list, or
/// nothing positive exists.
pub proof fn lemma_first_hit_props(xs: Seq<Intersection>)
    ensures
        match s_first_hit(xs) {
            Some(i) => i.t > 0 && exists|k: int| 0 <= k < xs.len() && #[trigger] xs[k] == i,
            None => forall|j: int| 0 <= j < xs.len() ==> #[trigger] xs[j].t <= 0,
        },
    decreases xs.len(),
{
    if xs.len() == 0 {
    } else if xs[0].t > 0 {
        assert(xs[0] == xs[0]);
    } else {
        lemma_first_hit_props(xs.drop_first());
        match s_first_hit(xs.drop_first()) {
            Some(i) => {
                let k = choose|k: int|
                    0 <= k < xs.drop_first().len() && #[trigger] xs.drop_first()[k] == i;
                assert(xs.drop_first()[k] == xs[k + 1]);
                assert(xs[k + 1] == i);
            },
            None => {
                assert forall|j: int| 0 <= j < xs.len() implies #[trigger] xs[j].t <= 0 by {
                    if j >= 1 {
                        assert(xs.drop_first()[j - 1] == xs[j]);
                    }
                }
            },
        }
    }
}

/// The first record in front of the ray whose shape casts shadows.
pub open spec fn s_first_shadow_hit(xs: Seq<Intersection>) -> Option<Intersection>
    decreases xs.len(),
{
    if xs.len() == 0 {
        None
    } else if xs[0].t > 0 && xs[0].object.shadow {
        Some(xs[0])
    } else {
        s_first_shadow_hit(xs.drop_first())
    }
}

pub proof fn lemma_first_shadow_hit_at(xs: Seq<Intersection>, k: int)
    requires
        0 <= k < xs.len(),
        xs[k].t > 0 && xs[k].object.shadow,
        forall|j: int| 0 <= j < k ==> !(#[trigger] xs[j].t > 0 && xs[j].object.shadow),
    ensures
        s_first_shadow_hit(xs) == Some(xs[k]),
    decreases xs.len(),
{
    if k == 0 {
    } else {
        assert(!(xs[0].t > 0 && xs[0].object.shadow));
        assert(forall|j: int| 0 <= j < k - 1 ==> #[trigger] xs.drop_first()[j] == xs[j + 1]);
        lemma_first_shadow_hit_at(xs.drop_first(), k - 1);
        assert(xs.drop_first()[k - 1] == xs[k]);
    }
}

pub proof fn lemma_first_shadow_hit_none(xs: Seq<Intersection>)
    requires
        forall|j: int| 0 <= j < xs.len() ==> !(#[trigger] xs[j].t > 0 && xs[j].object.shadow),
    ensures
        s_first_shadow_hit(xs) is None,
    decreases xs.len(),
{
    if xs.len() > 0 {
        assert(forall|j: int|
            0 <= j < xs.len() - 1 ==> #[trigger] xs.drop_first()[j] == xs[j + 1]);
        lemma_first_shadow_hit_none(xs.drop_first());
    }
}

/// The derived hit record as a value: every field follows from the hit,
/// its ray, and the full sorted hit list (which fixes n1/n2).
pub open spec fn s_comps(i: Intersection, ray: crate::rays::Ray, xs: Seq<Intersection>) -> C {
    let pt = crate::rays::s_position(ray, i.t);
    let n0 = crate::shapes::s_normal_at(i.object, pt, i.u, i.v);
    let inside = crate::tuples::s_dot(crate::tuples::s_neg(ray.direction), n0) < 0;
    let nv = if inside {
        crate::tuples::s_neg(n0)
    } else {
        n0
    };
    C {
        t: i.t,
        object: i.object,
        point: pt,
        eyev: crate::tuples::s_neg(ray.direction),
        normalv: nv,
        reflectv: crate::tuples::s_reflect(ray.direction, nv),
        inside,
        over_point: crate::tuples::s_add(pt, crate::tuples::s_scale(nv, crate::fx::EPSILON)),
        under_point: crate::tuples::s_sub(pt, crate::tuples::s_scale(nv, crate::fx::EPSILON)),
        n1: s_n1(xs, i),
        n2: s_n2(xs, i),
    }
}

/// Derives the shading record of a hit/// Derives the shading record of a hit: the point along the ray, the
/// (possibly flipped) world normal with the inside flag, the reflection
/// vector, acne-offset points, and the refractive pair read off a replay
/// of the sorted hit list through a container stack.
pub fn prepare_computations3(hit: &Intersection, ray: &crate::rays::Ray, xs: &Intersections) -> (r:
    C)
    requires
        is_primitive(hit.object),
        xs.wf(),
    ensures
        r == s_comps(*hit, *ray, xs.data@),
{
    let pt: crate::tuples::Tuple = crate::rays::position(ray, hit.t);
    let mut normalv: crate::tuples::Tuple = crate::shapes::normal_at3(&hit.object, &pt, hit);
    let eyev: crate::tuples::Tuple = ray.direction.neg();
    let inside: bool;
    if crate::tuples::dot(&eyev, &normalv) < 0 {
        inside = true;
        normalv = normalv.neg();
    } else {
        inside = false;
    }
    let over_point: crate::tuples::Tuple = pt.add(&normalv.scale(crate::fx::EPSILON));
    let under_point: crate::tuples::Tuple = pt.sub(&normalv.scale(crate::fx::EPSILON));
    let reflectv: crate::tuples::Tuple = ray.direction.reflect(&normalv);
    let mut n1: i64 = 100_000;
    let mut n2: i64 = 100_000;
    let mut containers: Vec<Shape> = Vec::new();
    let n: usize = xs.data.len();
    let mut k: usize = 0;
    let mut found: bool = false;
    proof {
        lemma_first_match(xs.data@, *hit);
    }
    while k < n && !found
        invariant
            k <= n,
            n == xs.data@.len(),
            xs.wf(),
            is_primitive(hit.object),
            containers@ == s_containers(xs.data@, k as int),
            crate::shapes::all_prim_shapes(containers@),
            !found ==> forall|j: int| 0 <= j < k ==> !int_eq(#[trigger] xs.data@[j], *hit),
            !found ==> n1 == 100_000i64 && n2 == 100_000i64,
            found ==> n1 == s_n1(xs.data@, *hit) && n2 == s_n2(xs.data@, *hit),
        decreases n - k,
    {
        let i: &Intersection = &xs.data[k];
        let matching: bool = i.t == hit.t && i.u == hit.u && i.v == hit.v
            && i.object.equals_primitive(&hit.object);
        proof {
            if matching {
                lemma_first_match(xs.data@, *hit);
                assert(first_match(xs.data@, *hit) == k as int);
            }
        }
        if matching {
            if containers.len() > 0 {
                n1 = containers[containers.len() - 1].material.refractive_index;
            }
        }
        // Toggle the hit object on the container stack.
        let m: usize = containers.len();
        let mut pos: usize = 0;
        let mut pfound: bool = false;
        proof {
            lemma_find_prim(containers@, i.object);
        }
        while pos < m && !pfound
            invariant
                pos <= m,
                m == containers@.len(),
                is_primitive(i.object),
                crate::shapes::all_prim_shapes(containers@),
                !pfound ==> forall|j: int|
                    0 <= j < pos ==> !prim_eq(#[trigger] containers@[j], i.object),
                pfound ==> pos < m && find_prim(containers@, i.object) == pos as int,
            decreases m - pos + (if pfound {
                0int
            } else {
                1int
            }),
        {
            if containers[pos].equals_primitive(&i.object) {
                pfound = true;
                proof {
                    lemma_find_prim(containers@, i.object);
                }
            } else {
                pos = pos + 1;
            }
        }
        if pfound {
            // Exit the medium: swap-remove the matching container.
            let last: Shape = crate::shapes::primitive_snapshot(
                &containers[containers.len() - 1],
            );
            containers.set(pos, last);
            let ghost before_pop = containers@;
            let popped: Option<Shape> = containers.pop();
            proof {
                assert(containers@ =~= s_containers(xs.data@, k as int).update(
                    pos as int,
                    s_containers(xs.data@, k as int).last(),
                ).drop_last());
                lemma_find_prim(s_containers(xs.data@, k as int), i.object);
            }
        } else {
            proof {
                lemma_find_prim(containers@, i.object);
                assert(find_prim(containers@, i.object) == -1);
            }
            containers.push(crate::shapes::primitive_snapshot(&i.object));
            proof {
                assert(containers@ =~= s_containers(xs.data@, k as int).push(i.object));
            }
        }
        proof {
            assert(containers@ == s_containers(xs.data@, k as int + 1));
            assert(crate::shapes::all_prim_shapes(containers@)) by {
                lemma_containers_prim(xs.data@, k as int + 1);
            }
        }
        if matching {
            if containers.len() > 0 {
                n2 = containers[containers.len() - 1].material.refractive_index;
            }
            found = true;
        }
        k = k + 1;
    }
    proof {
        if !found {
            lemma_first_match(xs.data@, *hit);
            if first_match(xs.data@, *hit) != -1 {
                assert(int_eq(xs.data@[first_match(xs.data@, *hit)], *hit));
                assert(false);
            }
        }
    }
    C {
        t: hit.t,
        object: crate::shapes::primitive_snapshot(&hit.object),
        point: pt,
        eyev,
        normalv,
        inside,
        reflectv,
        over_point,
        under_point,
        n1,
        n2,
    }
}

/// The container stack holds primitives only (it is fed from hit records).
pub proof fn lemma_containers_prim(xs: Seq<Intersection>, k: int)
    requires
        all_primitive(xs),
    ensures
        crate::shapes::all_prim_shapes(s_containers(xs, k)),
    decreases k,
{
    if k <= 0 || k > xs.len() {
    } else {
        lemma_containers_prim(xs, k - 1);
        let cs = s_containers(xs, k - 1);
        let o = xs[k - 1].object;
        let i = find_prim(cs, o);
        if i == -1 {
            assert forall|j: int|
                0 <= j < s_containers(xs, k).len() implies crate::shapes::is_primitive(
                #[trigger] s_containers(xs, k)[j],
            ) by {
                if j < cs.len() {
                    assert(s_containers(xs, k)[j] == cs[j]);
                } else {
                    assert(s_containers(xs, k)[j] == o);
                }
            }
        } else {
            lemma_find_prim(cs, o);
            assert forall|j: int|
                0 <= j < s_containers(xs, k).len() implies crate::shapes::is_primitive(
                #[trigger] s_containers(xs, k)[j],
            ) by {
                let upd = cs.update(i, cs.last());
                assert(s_containers(xs, k)[j] == upd[j]);
                assert(upd[j] == (if j == i {
                    cs.last()
                } else {
                    cs[j]
                }));
            }
        }
    }
}

/// The squared sine of the refraction angle, by Snell's law.
pub open spec fn s_sin2_t(n1: i64, n2: i64, cos0: i64) -> i64 {
    let nr = crate::fx::sfdiv(n1, n2);
    crate::fx::sfmul(
        crate::fx::sfmul(nr, nr),
        crate::fx::sfsub(100_000i64, crate::fx::sfmul(cos0, cos0)),
    )
}

/// The Schlick reflectance of a hit: one under total internal reflection
/// (or a degenerate refractive pair), else the fifth-power blend between
/// the base reflectance and full reflection.
pub open spec fn s_schlick(comps: C) -> i64 {
    if comps.n2 == 0 || crate::fx::sfadd(comps.n1, comps.n2) == 0 {
        100_000i64
    } else {
        let cos0 = crate::tuples::s_dot(comps.eyev, comps.normalv);
        if comps.n1 > comps.n2 && s_sin2_t(comps.n1, comps.n2, cos0) > 100_000i64 {
            100_000i64
        } else {
            let cos = if comps.n1 > comps.n2 {
                crate::fx::sfsqrt(
                    crate::fx::sfsub(100_000i64, s_sin2_t(comps.n1, comps.n2, cos0)),
                )
            } else {
                cos0
            };
            let r0d = crate::fx::sfdiv(
                crate::fx::sfsub(comps.n1, comps.n2),
                crate::fx::sfadd(comps.n1, comps.n2),
            );
            let r0 = crate::fx::sfmul(r0d, r0d);
            crate::fx::sfadd(
                r0,
                crate::fx::sfmul(
                    crate::fx::sfsub(100_000i64, r0),
                    crate::fx::sfpow(crate::fx::sfsub(100_000i64, cos), 5),
                ),
            )
        }
    }
}

/// The Schlick approximation to the Fresnel reflectance.
pub fn schlick(comps: &C) -> (r: i64)
    ensures
        r == s_schlick(*comps),
{
    if comps.n2 == 0 {
        return 100_000;
    }
    let denom: i64 = crate::fx::fx_add(comps.n1, comps.n2);
    if denom == 0 {
        return 100_000;
    }
    let mut cos: i64 = crate::tuples::dot(&comps.eyev, &comps.normalv);
    if comps.n1 > comps.n2 {
        let nr: i64 = crate::fx::fx_div(comps.n1, comps.n2);
        let sin2_t: i64 = crate::fx::fx_mul(
            crate::fx::fx_mul(nr, nr),
            crate::fx::fx_sub(100_000, crate::fx::fx_mul(cos, cos)),
        );
        if sin2_t > 100_000 {
            return 100_000;
        }
        cos = crate::fx::fx_sqrt(crate::fx::fx_sub(100_000, sin2_t));
    }
    let r0d: i64 = crate::fx::fx_div(crate::fx::fx_sub(comps.n1, comps.n2), denom);
    let r0: i64 = crate::fx::fx_mul(r0d, r0d);
    crate::fx::fx_add(
        r0,
        crate::fx::fx_mul(
            crate::fx::fx_sub(100_000, r0),
            crate::fx::fx_pow(crate::fx::fx_sub(100_000, cos), 5),
        ),
    )
}

/// Stable insertion of a record into a sorted list: it lands after every
/// record whose `t` does not exceed its own.
pub open spec fn s_insert_by_t(s: Seq<Intersection>, x: Intersection) -> Seq<Intersection>
    decreases s.len(),
{
    if s.len() == 0 {
        seq![x]
    } else if s.last().t > x.t {
        s_insert_by_t(s.drop_last(), x).push(s.last())
    } else {
        s.push(x)
    }
}

/// Stable insertion sort by `t`.
pub open spec fn s_sort_by_t(s: Seq<Intersection>) -> Seq<Intersection>
    decreases s.len(),
{
    if s.len() == 0 {
        Seq::empty()
    } else {
        s_insert_by_t(s_sort_by_t(s.drop_last()), s.last())
    }
}

/// The stable insert keeps sortedness and primitivity, grows the length by
/// one, and adds no record beyond the inserted one and the list's own.
pub proof fn lemma_insert_props(s: Seq<Intersection>, x: Intersection)
    requires
        sorted_by_t(s),
        all_primitive(s),
        is_primitive(x.object),
    ensures
        sorted_by_t(s_insert_by_t(s, x)),
        all_primitive(s_insert_by_t(s, x)),
        s_insert_by_t(s, x).len() == s.len() + 1,
        forall|i: int|
            0 <= i < s_insert_by_t(s, x).len() ==> (#[trigger] s_insert_by_t(s, x)[i].t <= x.t
                || exists|j: int| 0 <= j < s.len() && s_insert_by_t(s, x)[i] == s[j]),
    decreases s.len(),
{
    let r = s_insert_by_t(s, x);
    if s.len() == 0 {
        assert(r == seq![x]);
        assert(r[0] == x);
    } else if s.last().t > x.t {
        let d = s.drop_last();
        assert(sorted_by_t(d)) by {
            assert(forall|i: int| 0 <= i < d.len() ==> d[i] == s[i]);
        }
        assert(all_primitive(d)) by {
            assert(forall|i: int| 0 <= i < d.len() ==> d[i] == s[i]);
        }
        lemma_insert_props(d, x);
        let r0 = s_insert_by_t(d, x);
        assert(r == r0.push(s.last()));
        assert forall|i: int| 0 <= i < r.len() implies (#[trigger] r[i].t <= x.t || exists|j: int|
            0 <= j < s.len() && r[i] == s[j]) by {
            if i < r0.len() {
                assert(r[i] == r0[i]);
                if !(r0[i].t <= x.t) {
                    let jj = choose|jj: int| 0 <= jj < d.len() && r0[i] == d[jj];
                    assert(d[jj] == s[jj]);
                }
            } else {
                assert(r[i] == s.last());
                assert(s.last() == s[s.len() - 1]);
            }
        }
        assert forall|a: int, b: int| 0 <= a < b < r.len() implies #[trigger] r[a].t
            <= #[trigger] r[b].t by {
            if b < r0.len() {
                assert(r[a] == r0[a] && r[b] == r0[b]);
            } else {
                assert(r[b] == s.last());
                assert(r[a] == r0[a]);
                if !(r0[a].t <= x.t) {
                    let jj = choose|jj: int| 0 <= jj < d.len() && r0[a] == d[jj];
                    assert(d[jj] == s[jj]);
                    assert(s[jj].t <= s[s.len() - 1].t);
                }
            }
        }
        assert(all_primitive(r)) by {
            assert(forall|i: int|
                0 <= i < r.len() ==> #[trigger] r[i] == (if i < r0.len() {
                    r0[i]
                } else {
                    s.last()
                }));
        }
    } else {
        assert(r == s.push(x));
        assert forall|a: int, b: int| 0 <= a < b < r.len() implies #[trigger] r[a].t
            <= #[trigger] r[b].t by {
            if b == r.len() - 1 {
                assert(r[b] == x);
                assert(r[a] == s[a]);
                assert(s[a].t <= s[s.len() - 1].t);
            } else {
                assert(r[a] == s[a] && r[b] == s[b]);
            }
        }
        assert(all_primitive(r)) by {
            assert(forall|i: int|
                0 <= i < r.len() ==> #[trigger] r[i] == (if i < s.len() {
                    s[i]
                } else {
                    x
                }));
        }
        assert forall|i: int| 0 <= i < r.len() implies (#[trigger] r[i].t <= x.t || exists|j: int|
            0 <= j < s.len() && r[i] == s[j]) by {
            if i < s.len() {
                assert(r[i] == s[i]);
            } else {
                assert(r[i] == x);
            }
        }
    }
}

/// The functional sort of a primitive hit list is sorted, primitive, and
/// of the same length.
pub proof fn lemma_sort_props(s: Seq<Intersection>)
    requires
        all_primitive(s),
    ensures
        sorted_by_t(s_sort_by_t(s)),
        all_primitive(s_sort_by_t(s)),
        s_sort_by_t(s).len() == s.len(),
    decreases s.len(),
{
    if s.len() == 0 {
    } else {
        let d = s.drop_last();
        assert(all_primitive(d)) by {
            assert(forall|i: int| 0 <= i < d.len() ==> d[i] == s[i]);
        }
        lemma_sort_props(d);
        assert(is_primitive(s.last().object));
        lemma_insert_props(s_sort_by_t(d), s.last());
    }
}

/// Sorts hit records ascending by `t` (insertion sort: stable).
pub fn sort_intersections(v: Vec<Intersection>) -> (r: Vec<Intersection>)
    requires
        all_primitive(v@),
    ensures
        r@ == s_sort_by_t(v@),
        sorted_by_t(r@),
        all_primitive(r@),
        r@.to_multiset() == v@.to_multiset(),
        r@.len() == v@.len(),
{
    let ghost orig = v@;
    let mut v: Vec<Intersection> = v;
    let n: usize = v.len();
    if n == 0 {
        proof {
            assert(s_sort_by_t(orig) == Seq::<Intersection>::empty());
            assert(v@ =~= Seq::<Intersection>::empty());
        }
        return v;
    }
    let mut i: usize = 1;
    proof {
        assert(s_sort_by_t(Seq::<Intersection>::empty()) == Seq::<Intersection>::empty());
        assert(orig.take(1).drop_last() =~= Seq::<Intersection>::empty());
        assert(orig.take(1).last() == orig[0]);
        assert(s_insert_by_t(Seq::<Intersection>::empty(), orig[0]) == seq![orig[0]]);
        assert(s_sort_by_t(orig.take(1)) == s_insert_by_t(
            s_sort_by_t(orig.take(1).drop_last()),
            orig.take(1).last(),
        ));
        assert(v@.take(1) =~= seq![orig[0]]);
        assert(v@.take(1) =~= s_sort_by_t(orig.take(1)));
        assert(v@.skip(1) =~= orig.skip(1));
    }
    while i < n
        invariant
            1 <= i <= n || n == 0,
            n == v@.len(),
            orig.len() == n,
            all_primitive(v@),
            sorted_by_t(v@.take(i as int)),
            v@.to_multiset() == orig.to_multiset(),
            v@.take(i as int) == s_sort_by_t(orig.take(i as int)),
            v@.skip(i as int) == orig.skip(i as int),
        decreases n - i,
    {
        let ghost prefix = v@.take(i as int);
        let ghost x = v@[i as int];
        proof {
            assert(orig.skip(i as int)[0] == orig[i as int]);
            assert(x == orig[i as int]);
            assert forall|k: int|
                0 <= k < v@.len() - (i + 1) implies #[trigger] v@.skip(i as int + 1)[k]
                == orig.skip(i as int + 1)[k] by {
                assert(v@.skip(i as int + 1)[k] == v@[i + 1 + k]);
                assert(orig.skip(i as int + 1)[k] == orig[i + 1 + k]);
                assert(v@.skip(i as int)[k + 1] == v@[i + 1 + k]);
                assert(orig.skip(i as int)[k + 1] == orig[i + 1 + k]);
            }
            assert(v@.skip(i as int + 1) =~= orig.skip(i as int + 1));
            assert(v@.subrange(i as int + 1, i as int + 1) =~= Seq::<Intersection>::empty());
            assert(s_insert_by_t(v@.take(i as int), x) + Seq::<Intersection>::empty()
                =~= s_insert_by_t(prefix, x));
            assert(v@.take(i as int) + Seq::<Intersection>::empty() =~= prefix);
        }
        let mut j: usize = i;
        while j > 0 && v[j - 1].t > v[j].t
            invariant
                j <= i < n,
                n == v@.len(),
                orig.len() == n,
                all_primitive(v@),
                v@.to_multiset() == orig.to_multiset(),
                sorted_by_t(v@.take(j as int)),
                forall|a: int, b: int| j < a < b <= i ==> #[trigger] v@[a].t <= #[trigger] v@[b].t,
                forall|a: int| (j as int) < a <= i ==> #[trigger] v@[a].t >= v@[j as int].t,
                forall|a: int, b: int|
                    0 <= a < j && j < b <= i ==> #[trigger] v@[a].t <= #[trigger] v@[b].t,
                v@[j as int] == x,
                v@.skip(i as int + 1) == orig.skip(i as int + 1),
                s_insert_by_t(v@.take(j as int), x) + v@.subrange(j as int + 1, i as int + 1)
                    == s_insert_by_t(prefix, x),
                v@.take(j as int) + v@.subrange(j as int + 1, i as int + 1) =~= prefix,
            decreases j,
        {
            let ghost before = v@;
            let a: Intersection = v.remove(j - 1);
            let ghost mid = v@;
            v.insert(j, a);
            proof {
                assert(v@.to_multiset() =~= before.to_multiset()) by {
                    vstd::seq_lib::to_multiset_remove(before, j - 1);
                    vstd::seq_lib::to_multiset_insert(mid, j as int, a);
                    broadcast use vstd::multiset::group_multiset_axioms;

                    before.to_multiset_ensures();
                    assert(before[j - 1 as int] == a);
                    assert(before.contains(a));
                    assert(before.to_multiset().count(a) > 0);
                }
                assert(v@ =~= before.update(j - 1 as int, before[j as int]).update(
                    j as int,
                    before[j - 1 as int],
                ));
                let jj = j as int;
                let ii = i as int;
                // The functional-insert invariant steps down with the swap.
                assert(v@.take(jj - 1) =~= before.take(jj - 1));
                assert(before.take(jj).last() == before[jj - 1]);
                assert(before.take(jj).drop_last() =~= before.take(jj - 1));
                assert(s_insert_by_t(before.take(jj), x) == s_insert_by_t(
                    before.take(jj - 1),
                    x,
                ).push(before[jj - 1]));
                assert(v@.subrange(jj, ii + 1) =~= seq![before[jj - 1]] + before.subrange(
                    jj + 1,
                    ii + 1,
                ));
                assert(s_insert_by_t(before.take(jj - 1), x).push(before[jj - 1]) + before.subrange(
                    jj + 1,
                    ii + 1,
                ) =~= s_insert_by_t(before.take(jj - 1), x) + (seq![before[jj - 1]]
                    + before.subrange(jj + 1, ii + 1)));
                assert(s_insert_by_t(v@.take(jj - 1), x) + v@.subrange(jj, ii + 1)
                    == s_insert_by_t(prefix, x));
                assert(v@.take(jj - 1) + v@.subrange(jj, ii + 1) =~= before.take(jj)
                    + before.subrange(jj + 1, ii + 1));
                assert(v@.skip(ii + 1) =~= before.skip(ii + 1));
            }
            j = j - 1;
        }
        proof {
            let vt = v@;
            let jj = j as int;
            assert forall|a: int, b: int| 0 <= a < b <= i implies #[trigger] vt[a].t
                <= #[trigger] vt[b].t by {
                if b < jj {
                    assert(vt.take(jj)[a] == vt[a]);
                    assert(vt.take(jj)[b] == vt[b]);
                } else if b == jj {
                    assert(vt.take(jj)[a] == vt[a]);
                    if a < jj - 1 {
                        assert(vt.take(jj)[jj - 1] == vt[jj - 1]);
                    }
                }
            }
            assert(sorted_by_t(vt.take(i as int + 1))) by {
                assert forall|a: int, b: int|
                    0 <= a < b < i + 1 implies #[trigger] vt.take(i as int + 1)[a].t <= #[trigger] vt.take(
                    i as int + 1,
                )[b].t by {
                    assert(vt.take(i as int + 1)[a] == vt[a]);
                    assert(vt.take(i as int + 1)[b] == vt[b]);
                    assert(vt[a].t <= vt[b].t);
                }
            }
            // The bubbled element now sits where the functional insert put it.
            let ii = i as int;
            if jj > 0 {
                assert(vt.take(jj).last() == vt[jj - 1]);
                assert(!(vt[jj - 1].t > x.t));
                assert(s_insert_by_t(vt.take(jj), x) == vt.take(jj).push(x));
                assert(vt.take(ii + 1) =~= vt.take(jj).push(x) + vt.subrange(jj + 1, ii + 1));
            } else {
                assert(vt.take(0) =~= Seq::<Intersection>::empty());
                assert(s_insert_by_t(vt.take(0), x) == seq![x]);
                assert(vt.take(ii + 1) =~= seq![x] + vt.subrange(1, ii + 1));
            }
            assert(vt.take(ii + 1) == s_insert_by_t(prefix, x));
            assert(orig.take(ii + 1).drop_last() =~= orig.take(ii));
            assert(orig.take(ii + 1).last() == orig[ii]);
            assert(s_sort_by_t(orig.take(ii + 1)) == s_insert_by_t(s_sort_by_t(orig.take(ii)), x));
            assert(vt.take(ii + 1) == s_sort_by_t(orig.take(ii + 1)));
            assert(vt.skip(ii + 1) =~= orig.skip(ii + 1)) by {
                assert(v@.skip(ii + 1) == orig.skip(ii + 1));
            }
        }
        i = i + 1;
    }
    proof {
        assert(v@.take(n as int) =~= v@);
        assert(orig.take(n as int) =~= orig);
    }
    v
}

/// A sorted hit list from records in any order.
pub fn intersections(is: Vec<Intersection>) -> (r: Intersections)
    requires
        all_primitive(is@),
    ensures
        r.wf(),
        r.data@ == s_sort_by_t(is@),
        r.data@.to_multiset() == is@.to_multiset(),
        r.data@.len() == is@.len(),
{
    let sorted: Vec<Intersection> = sort_intersections(is);
    let count: usize = sorted.len();
    Intersections { count, data: sorted }
}

} // verus!
