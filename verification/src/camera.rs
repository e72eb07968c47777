//! The camera: maps pixel coordinates to world rays through a view
//! transform.  The field of view is handed over as the tangent of half the
//! view angle (trigonometry itself lives outside the renderer).
use crate::fx::{fx_div, fx_from_units, fx_mul, fx_neg, fx_sub, sfdiv, sfmul, sfneg, sfsub,
    sf_from_units, SCALE};
use crate::matrices::{identity_matrix, inverse_or_identity, s_det, s_identity, s_inverse,
    s_mat_tuple, Matrix};
use crate::rays::{ray, s_transform, Ray};
use crate::tuples::{normalize, point, s_normalize, s_sub, Color, Tuple};
use crate::world::{color_at, s_color_at, World, DEFAULT_REMAINING};
use vstd::prelude::*;

verus! {

pub struct Camera {
    pub hsize: usize,
    pub vsize: usize,
    pub half_view: i64,
    pub half_height: i64,
    pub half_width: i64,
    pub pixel_size: i64,
    pub transform: Matrix,
    pub inverse: Matrix,
}

impl Camera {
    pub fn set_transform(&mut self, m: &Matrix)
        ensures
            final(self).transform == *m,
            s_det(*m) != 0 ==> final(self).inverse == s_inverse(*m),
            s_det(*m) == 0 ==> final(self).inverse == s_identity(),
            final(self).hsize == old(self).hsize,
            final(self).vsize == old(self).vsize,
            final(self).half_view == old(self).half_view,
            final(self).half_width == old(self).half_width,
            final(self).half_height == old(self).half_height,
            final(self).pixel_size == old(self).pixel_size,
    {
        self.transform = *m;
        self.inverse = inverse_or_identity(m);
    }
}

/// A camera over a pixel grid; `half_view` is the tangent of half the
/// field of view, as a fixed-point scalar.
pub fn camera(hsize: usize, vsize: usize, half_view: i64) -> (r: Camera)
    requires
        hsize > 0,
        vsize > 0,
        hsize < 0x10000,
        vsize < 0x10000,
    ensures
        r.hsize == hsize,
        r.vsize == vsize,
        r.half_view == half_view,
        r.transform == s_identity(),
        r.inverse == s_identity(),
        ({
            let aspect = sfdiv(sf_from_units(hsize as i64), sf_from_units(vsize as i64));
            &&& (aspect >= SCALE ==> r.half_width == half_view && r.half_height == sfdiv(
                half_view,
                aspect,
            ))
            &&& (aspect < SCALE ==> r.half_width == sfmul(half_view, aspect) && r.half_height
                == half_view)
            &&& r.pixel_size == sfdiv(sfmul(r.half_width, 200_000i64), sf_from_units(hsize as i64))
        }),
{
    let hs: i64 = fx_from_units(hsize as i64);
    let vs: i64 = fx_from_units(vsize as i64);
    let aspect: i64 = fx_div(hs, vs);
    let half_width: i64;
    let half_height: i64;
    if aspect >= SCALE {
        half_width = half_view;
        half_height = fx_div(half_view, aspect);
    } else {
        half_width = fx_mul(half_view, aspect);
        half_height = half_view;
    }
    let pixel_size: i64 = fx_div(fx_mul(half_width, 200_000), hs);
    Camera {
        hsize,
        vsize,
        half_view,
        pixel_size,
        half_width,
        half_height,
        transform: identity_matrix(),
        inverse: identity_matrix(),
    }
}

/// The world ray through the middle of a pixel.
pub open spec fn s_ray_for_pixel(c: Camera, x: int, y: int) -> Ray {
    let xoffset = sfmul(crate::fx::sfadd(sf_from_units(x as i64), 50_000i64), c.pixel_size);
    let yoffset = sfmul(crate::fx::sfadd(sf_from_units(y as i64), 50_000i64), c.pixel_size);
    let canvas_point = s_mat_tuple(
        c.inverse,
        Tuple {
            x: sfsub(c.half_width, xoffset),
            y: sfsub(c.half_height, yoffset),
            z: -SCALE as i64,
            w: SCALE,
        },
    );
    let origin = s_mat_tuple(c.inverse, Tuple { x: 0i64, y: 0i64, z: 0i64, w: SCALE });
    Ray { origin, direction: s_normalize(s_sub(canvas_point, origin)) }
}

pub fn ray_for_pixel(c: &Camera, x: usize, y: usize) -> (r: Ray)
    requires
        x < 0x10000,
        y < 0x10000,
    ensures
        r == s_ray_for_pixel(*c, x as int, y as int),
{
    let xoffset: i64 = fx_mul(crate::fx::fx_add(fx_from_units(x as i64), 50_000), c.pixel_size);
    let yoffset: i64 = fx_mul(crate::fx::fx_add(fx_from_units(y as i64), 50_000), c.pixel_size);
    let wx: i64 = fx_sub(c.half_width, xoffset);
    let wy: i64 = fx_sub(c.half_height, yoffset);
    let canvas_point: Tuple = c.inverse.mul_tuple(&point(wx, wy, -SCALE));
    let origin: Tuple = c.inverse.mul_tuple(&point(0, 0, 0));
    let direction: Tuple = normalize(&canvas_point.sub(&origin));
    Ray { origin, direction }
}

/// Renders the world into a row-major pixel buffer: each pixel holds the
/// color seen along its own ray, under the default recursion budget.
/// Callers clamp and quantize when persisting.
pub fn render(c: &Camera, w: &World) -> (buf: Vec<Vec<Color>>)
    requires
        w.wf(),
        c.hsize < 0x10000,
        c.vsize < 0x10000,
    ensures
        buf@.len() == c.vsize,
        forall|y: int| 0 <= y < buf@.len() ==> #[trigger] buf@[y]@.len() == c.hsize,
        forall|y: int, x: int|
            0 <= y < buf@.len() && 0 <= x < buf@[y]@.len() ==> #[trigger] buf@[y]@[x] == s_color_at(
                w.objects@,
                w.lights@,
                s_ray_for_pixel(*c, x, y),
                DEFAULT_REMAINING as nat,
            ),
{
    let mut buf: Vec<Vec<Color>> = Vec::new();
    let mut y: usize = 0;
    while y < c.vsize
        invariant
            y <= c.vsize,
            w.wf(),
            c.hsize < 0x10000,
            c.vsize < 0x10000,
            buf@.len() == y,
            forall|j: int| 0 <= j < y ==> #[trigger] buf@[j]@.len() == c.hsize,
            forall|j: int, x: int|
                0 <= j < y && 0 <= x < c.hsize ==> #[trigger] buf@[j]@[x] == s_color_at(
                    w.objects@,
                    w.lights@,
                    s_ray_for_pixel(*c, x, j),
                    DEFAULT_REMAINING as nat,
                ),
        decreases c.vsize - y,
    {
        let mut row: Vec<Color> = Vec::new();
        let mut x: usize = 0;
        while x < c.hsize
            invariant
                x <= c.hsize,
                w.wf(),
                c.hsize < 0x10000,
                c.vsize < 0x10000,
                y < c.vsize,
                row@.len() == x,
                forall|i: int|
                    0 <= i < x ==> #[trigger] row@[i] == s_color_at(
                        w.objects@,
                        w.lights@,
                        s_ray_for_pixel(*c, i, y as int),
                        DEFAULT_REMAINING as nat,
                    ),
            decreases c.hsize - x,
        {
            let r: Ray = ray_for_pixel(c, x, y);
            let col: Color = color_at(w, &r);
            row.push(col);
            x = x + 1;
        }
        buf.push(row);
        y = y + 1;
    }
    buf
}

} // verus!
