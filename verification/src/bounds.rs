//! Axis-aligned bounding boxes in a shape's local space, and the ray/slab
//! test they support.  `HUGE` stands in for an unbounded coordinate.
use crate::fx::{fx_abs, fx_div, fx_max, fx_min, fx_mul, fx_neg, fx_sub, sfabs, sfadd, sfdiv,
    sfmax, sfmin, sfmul, sfneg, sfsub, EPSILON, HUGE, NEG_HUGE, fx_add};
use crate::rays::Ray;
use crate::tuples::{point, Tuple};
use vstd::prelude::*;

verus! {

#[derive(Clone, Copy, Debug, PartialEq, Eq, Structural)]
pub struct BoundingBox {
    pub min: Tuple,
    pub max: Tuple,
}

/// The box holding nothing: its minimum sits above its maximum.
pub open spec fn s_empty_box() -> BoundingBox {
    BoundingBox {
        min: Tuple { x: HUGE, y: HUGE, z: HUGE, w: 100_000i64 },
        max: Tuple { x: NEG_HUGE, y: NEG_HUGE, z: NEG_HUGE, w: 100_000i64 },
    }
}

/// The slab bounds along one axis: where the ray enters and leaves the
/// band between `low` and `high`.  A ray parallel to the band (direction
/// below `EPSILON`) is unconstrained inside it and excluded outside it,
/// with `HUGE` standing in for the unbounded ends.
pub open spec fn s_check_axis(origin: i64, direction: i64, low: i64, high: i64) -> (i64, i64) {
    let tmin_num = sfsub(low, origin);
    let tmax_num = sfsub(high, origin);
    let tmin = if sfabs(direction) >= EPSILON {
        sfdiv(tmin_num, direction)
    } else if tmin_num > 0 {
        HUGE
    } else {
        NEG_HUGE
    };
    let tmax = if sfabs(direction) >= EPSILON {
        sfdiv(tmax_num, direction)
    } else if tmax_num < 0 {
        NEG_HUGE
    } else {
        HUGE
    };
    if tmin > tmax {
        (tmax, tmin)
    } else {
        (tmin, tmax)
    }
}

pub fn check_axis(origin: i64, direction: i64, bounds: (i64, i64)) -> (r: (i64, i64))
    ensures
        r == s_check_axis(origin, direction, bounds.0, bounds.1),
{
    let tmin_num: i64 = fx_sub(bounds.0, origin);
    let tmax_num: i64 = fx_sub(bounds.1, origin);
    let tmin: i64;
    let tmax: i64;
    if fx_abs(direction) >= EPSILON {
        tmin = fx_div(tmin_num, direction);
        tmax = fx_div(tmax_num, direction);
    } else {
        tmin = if tmin_num > 0 {
            HUGE
        } else {
            NEG_HUGE
        };
        tmax = if tmax_num < 0 {
            NEG_HUGE
        } else {
            HUGE
        };
    }
    if tmin > tmax {
        (tmax, tmin)
    } else {
        (tmin, tmax)
    }
}

/// Entry and exit of a ray through a box: the latest slab entry and the
/// earliest slab exit.  The box is hit when entry does not exceed exit.
pub open spec fn s_box_tmin_tmax(bb: BoundingBox, ray: Ray) -> (i64, i64) {
    let xt = s_check_axis(ray.origin.x, ray.direction.x, bb.min.x, bb.max.x);
    let yt = s_check_axis(ray.origin.y, ray.direction.y, bb.min.y, bb.max.y);
    let zt = s_check_axis(ray.origin.z, ray.direction.z, bb.min.z, bb.max.z);
    (sfmax(sfmax(xt.0, yt.0), zt.0), sfmin(sfmin(xt.1, yt.1), zt.1))
}

pub open spec fn s_box_hit(bb: BoundingBox, ray: Ray) -> bool {
    !(s_box_tmin_tmax(bb, ray).0 > s_box_tmin_tmax(bb, ray).1)
}

impl BoundingBox {
    pub fn new(min: Tuple, max: Tuple) -> (r: BoundingBox)
        ensures
            r == (BoundingBox { min, max }),
    {
        BoundingBox { min, max }
    }

    pub fn new_empty() -> (r: BoundingBox)
        ensures
            r == s_empty_box(),
    {
        BoundingBox { min: point(HUGE, HUGE, HUGE), max: point(NEG_HUGE, NEG_HUGE, NEG_HUGE) }
    }

    /// Where the ray enters and leaves the box, and whether it hits at all.
    pub fn local_intersect_tmin_tmax(&self, ray: &Ray) -> (r: (bool, i64, i64))
        ensures
            (r.1, r.2) == s_box_tmin_tmax(*self, *ray),
            r.0 == s_box_hit(*self, *ray),
    {
        let xt: (i64, i64) = check_axis(ray.origin.x, ray.direction.x, (self.min.x, self.max.x));
        let yt: (i64, i64) = check_axis(ray.origin.y, ray.direction.y, (self.min.y, self.max.y));
        let zt: (i64, i64) = check_axis(ray.origin.z, ray.direction.z, (self.min.z, self.max.z));
        let tmin: i64 = fx_max(fx_max(xt.0, yt.0), zt.0);
        let tmax: i64 = fx_min(fx_min(xt.1, yt.1), zt.1);
        (!(tmin > tmax), tmin, tmax)
    }

    /// The entry/exit pair as a hit list: two entries or none.
    pub fn local_intersect_ts(&self, ray: &Ray) -> (r: Vec<i64>)
        ensures
            s_box_hit(*self, *ray) ==> r@ == seq![
                s_box_tmin_tmax(*self, *ray).0,
                s_box_tmin_tmax(*self, *ray).1,
            ],
            !s_box_hit(*self, *ray) ==> r@ == Seq::<i64>::empty(),
    {
        let (hit, tmin, tmax) = self.local_intersect_tmin_tmax(ray);
        let mut v: Vec<i64> = Vec::new();
        if hit {
            v.push(tmin);
            v.push(tmax);
            proof {
                assert(v@ =~= seq![s_box_tmin_tmax(*self, *ray).0, s_box_tmin_tmax(*self, *ray).1]);
            }
        } else {
            proof {
                assert(v@ =~= Seq::<i64>::empty());
            }
        }
        v
    }

    /// Grows the box to hold a point.
    pub open spec fn s_with_point(self, p: Tuple) -> BoundingBox {
        BoundingBox {
            min: Tuple {
                x: sfmin(self.min.x, p.x),
                y: sfmin(self.min.y, p.y),
                z: sfmin(self.min.z, p.z),
                w: self.min.w,
            },
            max: Tuple {
                x: sfmax(self.max.x, p.x),
                y: sfmax(self.max.y, p.y),
                z: sfmax(self.max.z, p.z),
                w: self.max.w,
            },
        }
    }

    pub fn add_point(&mut self, p: &Tuple)
        ensures
            *final(self) == old(self).s_with_point(*p),
    {
        self.min.x = fx_min(self.min.x, p.x);
        self.min.y = fx_min(self.min.y, p.y);
        self.min.z = fx_min(self.min.z, p.z);
        self.max.x = fx_max(self.max.x, p.x);
        self.max.y = fx_max(self.max.y, p.y);
        self.max.z = fx_max(self.max.z, p.z);
    }

    /// Grows the box to hold another box.
    pub open spec fn s_with_bb(self, o: BoundingBox) -> BoundingBox {
        BoundingBox {
            min: Tuple {
                x: sfmin(self.min.x, o.min.x),
                y: sfmin(self.min.y, o.min.y),
                z: sfmin(self.min.z, o.min.z),
                w: self.min.w,
            },
            max: Tuple {
                x: sfmax(self.max.x, o.max.x),
                y: sfmax(self.max.y, o.max.y),
                z: sfmax(self.max.z, o.max.z),
                w: self.max.w,
            },
        }
    }

    pub fn include_bb(&mut self, o: &BoundingBox)
        ensures
            *final(self) == old(self).s_with_bb(*o),
    {
        self.min.x = fx_min(self.min.x, o.min.x);
        self.min.y = fx_min(self.min.y, o.min.y);
        self.min.z = fx_min(self.min.z, o.min.z);
        self.max.x = fx_max(self.max.x, o.max.x);
        self.max.y = fx_max(self.max.y, o.max.y);
        self.max.z = fx_max(self.max.z, o.max.z);
    }

    /// The eight corner points.
    pub fn corners(&self) -> (r: Vec<Tuple>)
        ensures
            r@.len() == 8,
            forall|i: int|
                0 <= i < 8 ==> #[trigger] r@[i] == (Tuple {
                    x: if i % 2 == 0 {
                        self.min.x
                    } else {
                        self.max.x
                    },
                    y: if (i / 2) % 2 == 0 {
                        self.min.y
                    } else {
                        self.max.y
                    },
                    z: if (i / 4) % 2 == 0 {
                        self.min.z
                    } else {
                        self.max.z
                    },
                    w: 100_000i64,
                }),
    {
        let mut r: Vec<Tuple> = Vec::new();
        let mut i: usize = 0;
        while i < 8
            invariant
                i <= 8,
                r@.len() == i,
                forall|j: int|
                    0 <= j < i ==> #[trigger] r@[j] == (Tuple {
                        x: if j % 2 == 0 {
                            self.min.x
                        } else {
                            self.max.x
                        },
                        y: if (j / 2) % 2 == 0 {
                            self.min.y
                        } else {
                            self.max.y
                        },
                        z: if (j / 4) % 2 == 0 {
                            self.min.z
                        } else {
                            self.max.z
                        },
                        w: 100_000i64,
                    }),
            decreases 8 - i,
        {
            let x: i64 = if i % 2 == 0 {
                self.min.x
            } else {
                self.max.x
            };
            let y: i64 = if (i / 2) % 2 == 0 {
                self.min.y
            } else {
                self.max.y
            };
            let z: i64 = if (i / 4) % 2 == 0 {
                self.min.z
            } else {
                self.max.z
            };
            r.push(point(x, y, z));
            i = i + 1;
        }
        r
    }

    /// The box's midpoint.
    pub open spec fn s_centroid(self) -> Tuple {
        Tuple {
            x: sfdiv(sfadd(self.min.x, self.max.x), 200_000i64),
            y: sfdiv(sfadd(self.min.y, self.max.y), 200_000i64),
            z: sfdiv(sfadd(self.min.z, self.max.z), 200_000i64),
            w: 100_000i64,
        }
    }

    pub fn centroid(&self) -> (r: Tuple)
        ensures
            r == self.s_centroid(),
    {
        point(
            fx_div(fx_add(self.min.x, self.max.x), 200_000),
            fx_div(fx_add(self.min.y, self.max.y), 200_000),
            fx_div(fx_add(self.min.z, self.max.z), 200_000),
        )
    }

    /// Twice the sum of the face areas; zero for an inverted (empty) box.
    pub open spec fn s_surface_area(self) -> i64 {
        let dx = sfsub(self.max.x, self.min.x);
        let dy = sfsub(self.max.y, self.min.y);
        let dz = sfsub(self.max.z, self.min.z);
        if dx < 0 || dy < 0 || dz < 0 {
            0i64
        } else {
            sfmul(200_000i64, sfadd(sfadd(sfmul(dx, dy), sfmul(dy, dz)), sfmul(dz, dx)))
        }
    }

    pub fn surface_area(&self) -> (r: i64)
        ensures
            r == self.s_surface_area(),
    {
        let dx: i64 = fx_sub(self.max.x, self.min.x);
        let dy: i64 = fx_sub(self.max.y, self.min.y);
        let dz: i64 = fx_sub(self.max.z, self.min.z);
        if dx < 0 || dy < 0 || dz < 0 {
            return 0;
        }
        fx_mul(200_000, fx_add(fx_add(fx_mul(dx, dy), fx_mul(dy, dz)), fx_mul(dz, dx)))
    }

    pub fn from_points(points: &Vec<Tuple>) -> (r: BoundingBox)
        ensures
            r == Self::s_from_points(points@, points@.len() as int),
    {
        let mut bb: BoundingBox = BoundingBox::new_empty();
        let mut i: usize = 0;
        let n: usize = points.len();
        while i < n
            invariant
                i <= n,
                n == points@.len(),
                bb == Self::s_from_points(points@, i as int),
            decreases n - i,
        {
            bb.add_point(&points[i]);
            i = i + 1;
        }
        bb
    }

    /// The empty box grown around the first `i` points.
    pub open spec fn s_from_points(points: Seq<Tuple>, i: int) -> BoundingBox
        decreases i,
    {
        if i <= 0 {
            s_empty_box()
        } else {
            Self::s_from_points(points, i - 1).s_with_point(points[i - 1])
        }
    }
}

} // verus!
