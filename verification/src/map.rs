//! The viewport transform, and the world-space geometry it shares with the
//! tile scheme.
//!
//! [`MapPosition`] owns the view's center, resolution, tilt and yaw, and
//! produces the composed render matrix `screen_scale · scale · rotation ·
//! translate` as well as the screen-to-world conversion that inverts it.
//! All arithmetic is fixed-point with floor rounding and saturation at the
//! 64-bit edges, so every entry of every result is pinned down exactly —
//! the rotation entries in terms of the named CORDIC sine/cosine values.

use vstd::prelude::*;
use crate::fx::{Fx, FX_ONE, fdiv_v, fmul_v, sat64, sat_to_i64};
use crate::trig::{cos_fx, cos_of, sin_fx, sin_of};
use crate::control::PixelPoint;

verus! {

/// The upper tilt bound, 3π/8 in 2^-32 radians, rounded down: the camera
/// never pitches past near-vertical.
pub const TILT_MAX_UNITS: i64 = 5059889139;

/// A tilt value pushed back into its allowed range `[0, 3π/8]`.
pub open spec fn clamp_tilt(v: int) -> int {
    if v < 0 {
        0
    } else if v > TILT_MAX_UNITS as int {
        TILT_MAX_UNITS as int
    } else {
        v
    }
}

/// The inverse rotation — yaw undone, then tilt undone, both with negated
/// angles — applied to the vector `(vx, vy, 0)`, with floor-rounded
/// fixed-point products.
pub open spec fn spec_unrotate(rx: int, rz: int, vx: int, vy: int) -> (int, int, int) {
    let s1 = sin_of(sat64(-rx));
    let c1 = cos_of(sat64(-rx));
    let s2 = sin_of(sat64(-rz));
    let c2 = cos_of(sat64(-rz));
    (
        sat64(fmul_v(c2, vx) - fmul_v(s2, fmul_v(c1, vy))),
        sat64(fmul_v(s2, vx) + fmul_v(c2, fmul_v(c1, vy))),
        fmul_v(s1, vy),
    )
}

/// A point of the planar world coordinate space.
#[derive(Clone, Copy, Debug, PartialEq, Eq, Structural)]
pub struct Point {
    pub x: Fx,
    pub y: Fx,
}

impl Point {
    /// Builds a point from its two coordinates.
    pub fn new(x: Fx, y: Fx) -> (r: Point)
        ensures
            r.x == x,
            r.y == y,
    {
        Point { x, y }
    }
}

/// An axis-aligned bounding box in world coordinates.
#[derive(Clone, Copy, Debug, PartialEq, Eq, Structural)]
pub struct Envelope {
    pub x_min: Fx,
    pub y_min: Fx,
    pub x_max: Fx,
    pub y_max: Fx,
}

impl Envelope {
    /// Builds an envelope from its four bounds.  An inverted envelope is
    /// not rejected: spatial queries against it simply come out empty.
    pub fn new(x_min: Fx, y_min: Fx, x_max: Fx, y_max: Fx) -> (r: Envelope)
        ensures
            r.x_min == x_min,
            r.y_min == y_min,
            r.x_max == x_max,
            r.y_max == y_max,
    {
        Envelope { x_min, y_min, x_max, y_max }
    }
}

/// The viewport: view center (as a negated translation), resolution, tilt
/// and yaw, and the frame size in pixels.
pub struct MapPosition {
    screen_width: u32,
    screen_height: u32,
    resolution: Fx,
    translate_x: Fx,
    translate_y: Fx,
    translate_z: Fx,
    rotation_x: Fx,
    rotation_z: Fx,
}

impl MapPosition {
    /// The resolution is positive, the tilt stays in `[0, 3π/8]`, and the
    /// frame has at least one pixel each way.
    #[verifier::type_invariant]
    closed spec fn inv(self) -> bool {
        &&& 0 < self.resolution.v()
        &&& 0 <= self.rotation_x.v() <= TILT_MAX_UNITS as int
        &&& 1 <= self.screen_width
        &&& 1 <= self.screen_height
    }

    /// World units per pixel, in 2^-32 units.
    pub closed spec fn spec_resolution(self) -> int {
        self.resolution.v()
    }

    /// The translation the view applies: the negated center, in units.
    pub closed spec fn spec_translate(self) -> (int, int, int) {
        (self.translate_x.v(), self.translate_y.v(), self.translate_z.v())
    }

    /// The tilt angle, in 2^-32 radians.
    pub closed spec fn spec_rotation_x(self) -> int {
        self.rotation_x.v()
    }

    /// The yaw angle, in 2^-32 radians.
    pub closed spec fn spec_rotation_z(self) -> int {
        self.rotation_z.v()
    }

    /// Frame width in pixels.
    pub closed spec fn spec_width(self) -> int {
        self.screen_width as int
    }

    /// Frame height in pixels.
    pub closed spec fn spec_height(self) -> int {
        self.screen_height as int
    }

    /// The world position under a pixel: the half-screen offset with the
    /// vertical flip, the inverse rotation, the inverse scale, and the
    /// inverse translation, in that order — the exact algebraic inverse of
    /// the chain [`MapPosition::spec_matrix`] composes, under this crate's
    /// floor-rounded fixed-point arithmetic.
    pub open spec fn spec_map_position(self, px: PixelPoint) -> (int, int) {
        let hx = sat64(px.x * FX_ONE - self.spec_width() * 0x8000_0000);
        let hy = sat64(self.spec_height() * 0x8000_0000 - px.y * FX_ONE);
        let u = spec_unrotate(self.spec_rotation_x(), self.spec_rotation_z(), hx, hy);
        (
            sat64(sat64(-self.spec_translate().0) + fmul_v(self.spec_resolution(), u.0)),
            sat64(sat64(-self.spec_translate().1) + fmul_v(self.spec_resolution(), u.1)),
        )
    }

    /// The world-space delta a pixel drag moves the view by: the inverse
    /// rotation applied to the pixel delta, scaled by the resolution.
    pub open spec fn spec_translate_px_delta(self, dx: int, dy: int) -> (int, int, int) {
        let u = spec_unrotate(
            self.spec_rotation_x(),
            self.spec_rotation_z(),
            dx * FX_ONE,
            dy * FX_ONE,
        );
        (
            fmul_v(self.spec_resolution(), u.0),
            fmul_v(self.spec_resolution(), u.1),
            fmul_v(self.spec_resolution(), u.2),
        )
    }

    /// Where the translation lands after a zoom by the positive factor
    /// `delta` anchored at `center_px`: the center moves so that the world
    /// point under the anchor stays visually stationary.
    pub open spec fn spec_zoomed_translate(self, delta: int, center_px: PixelPoint) -> (
        int,
        int,
        int,
    ) {
        let zc = self.spec_map_position(center_px);
        let t = self.spec_translate();
        let mcx = sat64(-t.0);
        let mcy = sat64(-t.1);
        let f = sat64(FX_ONE - delta);
        let dxs = fmul_v(sat64(mcx - zc.0), f);
        let dys = fmul_v(sat64(mcy - zc.1), f);
        (sat64(-sat64(mcx + dxs)), sat64(-sat64(mcy + dys)), t.2)
    }

    /// Where the resolution lands after a zoom by the positive factor
    /// `delta`: divided by the factor, floored at the smallest positive
    /// representable value.
    pub open spec fn spec_zoomed_resolution(self, delta: int) -> int {
        let nr = fdiv_v(self.spec_resolution(), delta);
        if nr >= 1 {
            nr
        } else {
            1
        }
    }

    /// The composed render matrix `screen_scale · scale · rotation ·
    /// translate`, row-major, each entry with one floor rounding per
    /// fixed-point product: the rotation is tilt times yaw, the scale is
    /// the reciprocal of the resolution, the screen factors map pixels to
    /// normalized device coordinates (`2/width`, `2/height`, and the width
    /// factor again for depth), and the last column carries the rotated,
    /// scaled translation.
    pub open spec fn spec_matrix(self) -> Seq<int> {
        let sxs = (2 * FX_ONE) / self.spec_width();
        let sys = (2 * FX_ONE) / self.spec_height();
        let k = fdiv_v(FX_ONE as int, self.spec_resolution());
        let dx = fmul_v(sxs, k);
        let dy = fmul_v(sys, k);
        let dz = fmul_v(sxs, k);
        let sx = sin_of(self.spec_rotation_x());
        let cx = cos_of(self.spec_rotation_x());
        let sz = sin_of(self.spec_rotation_z());
        let cz = cos_of(self.spec_rotation_z());
        let a00 = fmul_v(dx, cz);
        let a01 = fmul_v(dx, sat64(-sz));
        let a02 = 0;
        let a10 = fmul_v(dy, fmul_v(cx, sz));
        let a11 = fmul_v(dy, fmul_v(cx, cz));
        let a12 = fmul_v(dy, sat64(-sx));
        let a20 = fmul_v(dz, fmul_v(sx, sz));
        let a21 = fmul_v(dz, fmul_v(sx, cz));
        let a22 = fmul_v(dz, cx);
        let t = self.spec_translate();
        let m03 = sat64(sat64(fmul_v(a00, t.0) + fmul_v(a01, t.1)) + fmul_v(a02, t.2));
        let m13 = sat64(sat64(fmul_v(a10, t.0) + fmul_v(a11, t.1)) + fmul_v(a12, t.2));
        let m23 = sat64(sat64(fmul_v(a20, t.0) + fmul_v(a21, t.1)) + fmul_v(a22, t.2));
        seq![
            a00,
            a01,
            a02,
            m03,
            a10,
            a11,
            a12,
            m13,
            a20,
            a21,
            a22,
            m23,
            0,
            0,
            0,
            FX_ONE as int,
        ]
    }

    /// Replaces the view center: the translation becomes its negation.
    pub fn set_center(&mut self, x: Fx, y: Fx)
        ensures
            final(self).spec_translate() == (sat64(-x.v()), sat64(-y.v()), 0int),
            final(self).spec_resolution() == old(self).spec_resolution(),
            final(self).spec_rotation_x() == old(self).spec_rotation_x(),
            final(self).spec_rotation_z() == old(self).spec_rotation_z(),
            final(self).spec_width() == old(self).spec_width(),
            final(self).spec_height() == old(self).spec_height(),
    {
        proof {
            use_type_invariant(&*self);
        }
        self.translate_x = x.neg();
        self.translate_y = y.neg();
        self.translate_z = Fx::zero();
    }

    /// Replaces the resolution; a non-positive value is degenerate and is
    /// absorbed as a no-op.
    pub fn set_resolution(&mut self, resolution: Fx)
        ensures
            resolution.v() > 0 ==> final(self).spec_resolution() == resolution.v(),
            resolution.v() <= 0 ==> final(self).spec_resolution() == old(self).spec_resolution(),
            final(self).spec_translate() == old(self).spec_translate(),
            final(self).spec_rotation_x() == old(self).spec_rotation_x(),
            final(self).spec_rotation_z() == old(self).spec_rotation_z(),
            final(self).spec_width() == old(self).spec_width(),
            final(self).spec_height() == old(self).spec_height(),
    {
        proof {
            use_type_invariant(&*self);
        }
        if resolution.bits > 0 {
            self.resolution = resolution;
        }
    }

    /// Records the frame size the renderer will draw into; a frame with a
    /// zero side is degenerate and is absorbed as a no-op.
    pub fn set_screen_size(&mut self, width: u32, height: u32)
        ensures
            width >= 1 && height >= 1 ==> final(self).spec_width() == width,
            width >= 1 && height >= 1 ==> final(self).spec_height() == height,
            !(width >= 1 && height >= 1) ==> final(self).spec_width() == old(self).spec_width()
                && final(self).spec_height() == old(self).spec_height(),
            final(self).spec_translate() == old(self).spec_translate(),
            final(self).spec_resolution() == old(self).spec_resolution(),
            final(self).spec_rotation_x() == old(self).spec_rotation_x(),
            final(self).spec_rotation_z() == old(self).spec_rotation_z(),
    {
        proof {
            use_type_invariant(&*self);
        }
        if width >= 1 && height >= 1 {
            self.screen_width = width;
            self.screen_height = height;
        }
    }

    /// Frame width in pixels.
    pub fn width_px(&self) -> (r: u32)
        ensures
            r as int == self.spec_width(),
    {
        self.screen_width
    }

    /// Frame height in pixels.
    pub fn height_px(&self) -> (r: u32)
        ensures
            r as int == self.spec_height(),
    {
        self.screen_height
    }

    /// World units per pixel.
    pub fn resolution(&self) -> (r: Fx)
        ensures
            r.v() == self.spec_resolution(),
            r.v() > 0,
    {
        proof {
            use_type_invariant(self);
        }
        self.resolution
    }

    /// The tilt angle, in 2^-32 radians; always in `[0, 3π/8]`.
    pub fn rotation_x(&self) -> (r: Fx)
        ensures
            r.v() == self.spec_rotation_x(),
            0 <= r.v() <= TILT_MAX_UNITS as int,
    {
        proof {
            use_type_invariant(self);
        }
        self.rotation_x
    }

    /// The yaw angle, in 2^-32 radians; accumulates without wraparound.
    pub fn rotation_z(&self) -> (r: Fx)
        ensures
            r.v() == self.spec_rotation_z(),
    {
        self.rotation_z
    }

    /// The view center.
    pub fn center(&self) -> (r: Point)
        ensures
            r.x.v() == sat64(-self.spec_translate().0),
            r.y.v() == sat64(-self.spec_translate().1),
    {
        Point { x: self.translate_x.neg(), y: self.translate_y.neg() }
    }

    /// Adds to the tilt and yaw: the tilt is clamped to `[0, 3π/8]`, the
    /// yaw accumulates freely (saturating only at the numeric range edge).
    pub fn rotate(&mut self, x: Fx, z: Fx)
        ensures
            final(self).spec_rotation_x() == clamp_tilt(
                sat64(old(self).spec_rotation_x() + x.v()),
            ),
            final(self).spec_rotation_z() == sat64(old(self).spec_rotation_z() + z.v()),
            x.v() == 0 ==> final(self).spec_rotation_x() == old(self).spec_rotation_x(),
            z.v() == 0 ==> final(self).spec_rotation_z() == old(self).spec_rotation_z(),
            final(self).spec_translate() == old(self).spec_translate(),
            final(self).spec_resolution() == old(self).spec_resolution(),
            final(self).spec_width() == old(self).spec_width(),
            final(self).spec_height() == old(self).spec_height(),
    {
        proof {
            use_type_invariant(&*self);
        }
        let nrx = self.rotation_x.plus(x);
        self.rotation_x = if nrx.bits < 0 {
            Fx::zero()
        } else if nrx.bits > TILT_MAX_UNITS {
            Fx::from_bits(TILT_MAX_UNITS)
        } else {
            nrx
        };
        self.rotation_z = self.rotation_z.plus(z);
    }

    /// Moves the view by a pixel delta: the delta is carried through the
    /// inverse rotation and the inverse scale into world space, then
    /// composed onto the existing translation — deltas accumulate in the
    /// already-transformed frame.
    pub fn translate_px(&mut self, dx: i32, dy: i32)
        ensures
            ({
                let d = old(self).spec_translate_px_delta(dx as int, dy as int);
                let t = old(self).spec_translate();
                final(self).spec_translate() == (
                    sat64(t.0 + d.0),
                    sat64(t.1 + d.1),
                    sat64(t.2 + d.2),
                )
            }),
            final(self).spec_resolution() == old(self).spec_resolution(),
            final(self).spec_rotation_x() == old(self).spec_rotation_x(),
            final(self).spec_rotation_z() == old(self).spec_rotation_z(),
            final(self).spec_width() == old(self).spec_width(),
            final(self).spec_height() == old(self).spec_height(),
    {
        proof {
            use_type_invariant(&*self);
        }
        let dxf = Fx::from_int(dx);
        let dyf = Fx::from_int(dy);
        let u = self.unrotate(dxf, dyf);
        let sx = self.resolution.times(u.0);
        let sy = self.resolution.times(u.1);
        let sz = self.resolution.times(u.2);
        self.translate_x = self.translate_x.plus(sx);
        self.translate_y = self.translate_y.plus(sy);
        self.translate_z = self.translate_z.plus(sz);
    }

    /// The world position currently under the given pixel.
    pub fn get_map_position(&self, px_position: &PixelPoint) -> (r: Point)
        ensures
            r.x.v() == self.spec_map_position(*px_position).0,
            r.y.v() == self.spec_map_position(*px_position).1,
    {
        let hx = sat_to_i64(
            (px_position.x as i128) * (FX_ONE as i128) - (self.screen_width as i128)
                * 0x8000_0000i128,
        );
        let hy = sat_to_i64(
            (self.screen_height as i128) * 0x8000_0000i128 - (px_position.y as i128) * (
            FX_ONE as i128),
        );
        let u = self.unrotate(hx, hy);
        let wx = self.translate_x.neg().plus(self.resolution.times(u.0));
        let wy = self.translate_y.neg().plus(self.resolution.times(u.1));
        Point { x: wx, y: wy }
    }

    /// Keeps the world point under the cursor visually stationary while
    /// the scale changes by the positive factor `delta`: the center moves
    /// towards (zooming in) or away from (zooming out) the cursor's world
    /// point, and the resolution divides by the factor, flooring at the
    /// smallest representable positive value.
    pub fn zoom(&mut self, delta: Fx, center_px: PixelPoint)
        requires
            delta.v() > 0,
        ensures
            final(self).spec_translate() == old(self).spec_zoomed_translate(
                delta.v(),
                center_px,
            ),
            final(self).spec_resolution() == old(self).spec_zoomed_resolution(delta.v()),
            final(self).spec_rotation_x() == old(self).spec_rotation_x(),
            final(self).spec_rotation_z() == old(self).spec_rotation_z(),
            final(self).spec_width() == old(self).spec_width(),
            final(self).spec_height() == old(self).spec_height(),
    {
        proof {
            use_type_invariant(&*self);
        }
        let zoom_c = self.get_map_position(&center_px);
        let map_c = self.center();
        let dx = map_c.x.minus(zoom_c.x);
        let dy = map_c.y.minus(zoom_c.y);
        let f = Fx::from_bits(FX_ONE).minus(delta);
        let dx_scaled = dx.times(f);
        let dy_scaled = dy.times(f);
        self.translate_x = map_c.x.plus(dx_scaled).neg();
        self.translate_y = map_c.y.plus(dy_scaled).neg();
        let nr = self.resolution.div_by(delta);
        self.resolution = if nr.bits >= 1 {
            nr
        } else {
            Fx::from_bits(1)
        };
    }

    /// The composed render matrix, row-major.
    pub fn matrix(&self) -> (r: [Fx; 16])
        ensures
            forall|i: int| 0 <= i < 16 ==> r@[i].v() == self.spec_matrix()[i],
    {
        proof {
            use_type_invariant(self);
        }
        let sxs = Fx::from_bits((0x2_0000_0000u64 / (self.screen_width as u64)) as i64);
        let sys = Fx::from_bits((0x2_0000_0000u64 / (self.screen_height as u64)) as i64);
        let k = Fx::from_bits(FX_ONE).div_by(self.resolution);
        let dx = sxs.times(k);
        let dy = sys.times(k);
        let dz = sxs.times(k);
        let sx = Fx::from_bits(sin_fx(self.rotation_x.bits));
        let cx = Fx::from_bits(cos_fx(self.rotation_x.bits));
        let sz = Fx::from_bits(sin_fx(self.rotation_z.bits));
        let cz = Fx::from_bits(cos_fx(self.rotation_z.bits));
        let a00 = dx.times(cz);
        let a01 = dx.times(sz.neg());
        let a02 = Fx::zero();
        let a10 = dy.times(cx.times(sz));
        let a11 = dy.times(cx.times(cz));
        let a12 = dy.times(sx.neg());
        let a20 = dz.times(sx.times(sz));
        let a21 = dz.times(sx.times(cz));
        let a22 = dz.times(cx);
        let m03 = a00.times(self.translate_x).plus(a01.times(self.translate_y)).plus(
            a02.times(self.translate_z),
        );
        let m13 = a10.times(self.translate_x).plus(a11.times(self.translate_y)).plus(
            a12.times(self.translate_z),
        );
        let m23 = a20.times(self.translate_x).plus(a21.times(self.translate_y)).plus(
            a22.times(self.translate_z),
        );
        let r = [
            a00,
            a01,
            a02,
            m03,
            a10,
            a11,
            a12,
            m13,
            a20,
            a21,
            a22,
            m23,
            Fx::zero(),
            Fx::zero(),
            Fx::zero(),
            Fx::from_bits(FX_ONE),
        ];
        r
    }

    /// The rotation part of the render matrix, row-major: tilt times yaw,
    /// each mixed entry with one floor-rounded fixed-point product.
    pub fn rotation(&self) -> (r: [Fx; 16])
        ensures
            ({
                let sx = sin_of(self.spec_rotation_x());
                let cx = cos_of(self.spec_rotation_x());
                let sz = sin_of(self.spec_rotation_z());
                let cz = cos_of(self.spec_rotation_z());
                &&& r@[0].v() == cz
                &&& r@[1].v() == sat64(-sz)
                &&& r@[2].v() == 0
                &&& r@[4].v() == fmul_v(cx, sz)
                &&& r@[5].v() == fmul_v(cx, cz)
                &&& r@[6].v() == sat64(-sx)
                &&& r@[8].v() == fmul_v(sx, sz)
                &&& r@[9].v() == fmul_v(sx, cz)
                &&& r@[10].v() == cx
                &&& r@[3].v() == 0 && r@[7].v() == 0 && r@[11].v() == 0
                &&& r@[12].v() == 0 && r@[13].v() == 0 && r@[14].v() == 0
                &&& r@[15].v() == FX_ONE as int
            }),
    {
        let sx = Fx::from_bits(sin_fx(self.rotation_x.bits));
        let cx = Fx::from_bits(cos_fx(self.rotation_x.bits));
        let sz = Fx::from_bits(sin_fx(self.rotation_z.bits));
        let cz = Fx::from_bits(cos_fx(self.rotation_z.bits));
        rotation_entries(sx, cx, sz, cz)
    }

    /// The inverse of the rotation part: yaw undone, then tilt undone,
    /// both with negated angles.
    pub fn inverse_rotation(&self) -> (r: [Fx; 16])
        ensures
            ({
                let s1 = sin_of(sat64(-self.spec_rotation_x()));
                let c1 = cos_of(sat64(-self.spec_rotation_x()));
                let s2 = sin_of(sat64(-self.spec_rotation_z()));
                let c2 = cos_of(sat64(-self.spec_rotation_z()));
                &&& r@[0].v() == c2
                &&& r@[1].v() == fmul_v(sat64(-s2), c1)
                &&& r@[2].v() == fmul_v(s2, s1)
                &&& r@[4].v() == s2
                &&& r@[5].v() == fmul_v(c2, c1)
                &&& r@[6].v() == fmul_v(sat64(-c2), s1)
                &&& r@[8].v() == 0
                &&& r@[9].v() == s1
                &&& r@[10].v() == c1
                &&& r@[3].v() == 0 && r@[7].v() == 0 && r@[11].v() == 0
                &&& r@[12].v() == 0 && r@[13].v() == 0 && r@[14].v() == 0
                &&& r@[15].v() == FX_ONE as int
            }),
    {
        let nx = self.rotation_x.neg();
        let nz = self.rotation_z.neg();
        let s1 = Fx::from_bits(sin_fx(nx.bits));
        let c1 = Fx::from_bits(cos_fx(nx.bits));
        let s2 = Fx::from_bits(sin_fx(nz.bits));
        let c2 = Fx::from_bits(cos_fx(nz.bits));
        let one = Fx::from_bits(FX_ONE);
        [
            c2,
            s2.neg().times(c1),
            s2.times(s1),
            Fx::zero(),
            s2,
            c2.times(c1),
            c2.neg().times(s1),
            Fx::zero(),
            Fx::zero(),
            s1,
            c1,
            Fx::zero(),
            Fx::zero(),
            Fx::zero(),
            Fx::zero(),
            one,
        ]
    }

    /// The inverse rotation applied to `(vx, vy, 0)`.
    fn unrotate(&self, vx: Fx, vy: Fx) -> (u: (Fx, Fx, Fx))
        ensures
            ({
                let s = spec_unrotate(
                    self.spec_rotation_x(),
                    self.spec_rotation_z(),
                    vx.v(),
                    vy.v(),
                );
                u.0.v() == s.0 && u.1.v() == s.1 && u.2.v() == s.2
            }),
    {
        let s1 = Fx::from_bits(sin_fx(self.rotation_x.neg().to_bits()));
        let c1 = Fx::from_bits(cos_fx(self.rotation_x.neg().to_bits()));
        let s2 = Fx::from_bits(sin_fx(self.rotation_z.neg().to_bits()));
        let c2 = Fx::from_bits(cos_fx(self.rotation_z.neg().to_bits()));
        let tilted = c1.times(vy);
        let ux = c2.times(vx).minus(s2.times(tilted));
        let uy = s2.times(vx).plus(c2.times(tilted));
        let uz = s1.times(vy);
        (ux, uy, uz)
    }
}

/// Round-trip law for one rotation block of the transform chain: with any
/// sine/cosine pair satisfying the circle identity at scale `k`, the
/// transposed block undoes the block exactly, scaled by `k`.  This is the
/// algebraic inverse relation between the forward rotation that
/// [`MapPosition::spec_matrix`] composes and the negated-angle rotation
/// that [`MapPosition::spec_map_position`] applies — each of tilt and yaw
/// is one such block; the executable chain adds floor rounding on top, so
/// its round trip is exact only up to that rounding.
pub proof fn lemma_rotation_round_trip(s: int, c: int, k: int, x: int, y: int)
    requires
        s * s + c * c == k,
    ensures
        c * (c * x - s * y) + s * (s * x + c * y) == k * x,
        (-s) * (c * x - s * y) + c * (s * x + c * y) == k * y,
{
    assert(c * (c * x - s * y) + s * (s * x + c * y) == k * x) by (nonlinear_arith)
        requires
            s * s + c * c == k,
    ;
    assert((-s) * (c * x - s * y) + c * (s * x + c * y) == k * y) by (nonlinear_arith)
        requires
            s * s + c * c == k,
    ;
}

/// Round-trip law for the whole rotation chain: with a fixed-point unit
/// `u` and tilt and yaw sine/cosine pairs that each satisfy the circle
/// identity at scale `k == u * u`, undoing the tilt and then the yaw with
/// the transposed blocks returns every vector the chain rotated, scaled by
/// `k * k` (one factor of `k` per rotation undone).  This is the exact
/// algebraic inverse relation between the forward rotation of
/// [`MapPosition::spec_matrix`] and the inverse chain of
/// [`MapPosition::spec_map_position`]; the executable chain adds one floor
/// rounding per product on top.
pub proof fn lemma_rotation_chain_round_trip(
    sx: int,
    cx: int,
    sz: int,
    cz: int,
    u: int,
    k: int,
    vx: int,
    vy: int,
    vz: int,
)
    requires
        sx * sx + cx * cx == k,
        sz * sz + cz * cz == k,
        u * u == k,
    ensures
        ({
            let x1 = cz * vx - sz * vy;
            let y1 = sz * vx + cz * vy;
            let x2 = u * x1;
            let y2 = cx * y1 - sx * (u * vz);
            let z2 = sx * y1 + cx * (u * vz);
            let x3 = u * x2;
            let y3 = cx * y2 + sx * z2;
            let z3 = (-sx) * y2 + cx * z2;
            let x4 = cz * x3 + sz * y3;
            let y4 = (-sz) * x3 + cz * y3;
            x4 == k * k * vx && y4 == k * k * vy && u * z3 == k * k * vz
        }),
{
    let x1 = cz * vx - sz * vy;
    let y1 = sz * vx + cz * vy;
    let w = u * vz;
    let x2 = u * x1;
    let y2 = cx * y1 - sx * w;
    let z2 = sx * y1 + cx * w;
    let x3 = u * x2;
    let y3 = cx * y2 + sx * z2;
    let z3 = (-sx) * y2 + cx * z2;
    lemma_rotation_round_trip(sx, cx, k, y1, w);
    assert(y3 == k * y1);
    assert(z3 == k * w);
    lemma_rotation_round_trip(sz, cz, k, vx, vy);
    assert(cz * x1 + sz * y1 == k * vx);
    assert((-sz) * x1 + cz * y1 == k * vy);
    assert(x3 == k * x1) by (nonlinear_arith)
        requires
            x3 == u * (u * x1),
            u * u == k,
    ;
    assert(cz * x3 + sz * y3 == k * (cz * x1 + sz * y1)) by (nonlinear_arith)
        requires
            x3 == k * x1,
            y3 == k * y1,
    ;
    assert((-sz) * x3 + cz * y3 == k * ((-sz) * x1 + cz * y1)) by (nonlinear_arith)
        requires
            x3 == k * x1,
            y3 == k * y1,
    ;
    assert(k * (k * vx) == k * k * vx) by (nonlinear_arith);
    assert(k * (k * vy) == k * k * vy) by (nonlinear_arith);
    assert(u * z3 == k * k * vz) by (nonlinear_arith)
        requires
            z3 == k * (u * vz),
            u * u == k,
    ;
}

/// The clamp that every rotation applies keeps the tilt inside its range,
/// whatever it was before and whatever was added: the induction step of
/// the tilt-clamp property.
pub proof fn lemma_tilt_clamp_bounds(v: int)
    ensures
        0 <= clamp_tilt(v) <= TILT_MAX_UNITS as int,
{
}

/// The rotation matrix entries for given tilt and yaw sine/cosine values:
/// tilt times yaw, row-major.
fn rotation_entries(sx: Fx, cx: Fx, sz: Fx, cz: Fx) -> (r: [Fx; 16])
    ensures
        r@[0] == cz,
        r@[1].v() == sat64(-sz.v()),
        r@[2].v() == 0,
        r@[4].v() == fmul_v(cx.v(), sz.v()),
        r@[5].v() == fmul_v(cx.v(), cz.v()),
        r@[6].v() == sat64(-sx.v()),
        r@[8].v() == fmul_v(sx.v(), sz.v()),
        r@[9].v() == fmul_v(sx.v(), cz.v()),
        r@[10] == cx,
        r@[3].v() == 0 && r@[7].v() == 0 && r@[11].v() == 0,
        r@[12].v() == 0 && r@[13].v() == 0 && r@[14].v() == 0,
        r@[15].v() == FX_ONE as int,
{
    [
        cz,
        sz.neg(),
        Fx::zero(),
        Fx::zero(),
        cx.times(sz),
        cx.times(cz),
        sx.neg(),
        Fx::zero(),
        sx.times(sz),
        sx.times(cz),
        cx,
        Fx::zero(),
        Fx::zero(),
        Fx::zero(),
        Fx::zero(),
        Fx::from_bits(FX_ONE),
    ]
}

impl Default for MapPosition {
    /// The identity viewport: unit resolution, centered on the origin, no
    /// rotation, and a two-pixel frame so that the screen factors are one.
    fn default() -> (r: Self)
        ensures
            r.spec_resolution() == FX_ONE as int,
            r.spec_translate() == (0int, 0int, 0int),
            r.spec_rotation_x() == 0,
            r.spec_rotation_z() == 0,
            r.spec_width() == 2,
            r.spec_height() == 2,
    {
        Self {
            screen_width: 2,
            screen_height: 2,
            resolution: Fx::from_bits(FX_ONE),
            translate_x: Fx::zero(),
            translate_y: Fx::zero(),
            translate_z: Fx::zero(),
            rotation_x: Fx::zero(),
            rotation_z: Fx::zero(),
        }
    }
}

} // verus!
