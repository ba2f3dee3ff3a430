//! Plane rotations, and turning a unit vector by one.
//!
//! A rotation is held as the pair (cos, sin) of its angle. The sine and cosine
//! themselves are computed by the caller; this module only checks that the pair
//! is of unit length and applies it.

use vstd::prelude::*;
use crate::fixed::{
    SCALE, div_toward_zero, ceil_sqrt, isqrt_ceil, lemma_ceil_sqrt, lemma_component_bound,
    lemma_div_toward_zero,
};
use crate::vector::{Vector2, VectorModel, UNIT_TOLERANCE};

verus! {

/// The cosine and sine of an angle, each a count of millionths.
#[derive(Clone, Copy, Debug, PartialEq, Eq, Structural)]
pub struct Rotation {
    pub cos: i64,
    pub sin: i64,
}

impl VectorModel {
    /// `self` turned by `rot`. The components carry the factor `SCALE` twice.
    pub open spec fn rotated(self, rot: Rotation) -> VectorModel {
        VectorModel {
            x: self.x * rot.cos - self.y * rot.sin,
            y: self.x * rot.sin + self.y * rot.cos,
        }
    }

    /// `self` shrunk to unit length: each component is multiplied by `SCALE`
    /// and divided, toward zero, by the length of `self` rounded up.
    pub open spec fn normalized(self) -> VectorModel {
        let n: int = ceil_sqrt(self.norm_sq());
        VectorModel {
            x: div_toward_zero(self.x * SCALE, n),
            y: div_toward_zero(self.y * SCALE, n),
        }
    }

    /// `self` turned by `rot` and brought back to unit length.
    pub open spec fn turned(self, rot: Rotation) -> VectorModel {
        self.rotated(rot).normalized()
    }
}

impl Rotation {
    /// Square of the length of (cos, sin).
    pub open spec fn norm_sq(&self) -> int {
        self.cos * self.cos + self.sin * self.sin
    }

    /// The pair has length one, give or take `UNIT_TOLERANCE` raw units.
    pub open spec fn wf(&self) -> bool {
        (SCALE - UNIT_TOLERANCE) * (SCALE - UNIT_TOLERANCE) <= self.norm_sq() <= (SCALE
            + UNIT_TOLERANCE) * (SCALE + UNIT_TOLERANCE)
    }

    /// The rotation by the zero angle.
    pub open spec fn spec_identity() -> Rotation {
        Rotation { cos: 1_000_000, sin: 0 }
    }

    /// The rotation by the zero angle.
    pub fn identity() -> (r: Rotation)
        ensures
            r == Rotation::spec_identity(),
            r.wf(),
    {
        Rotation { cos: 1_000_000, sin: 0 }
    }

    /// Whether the pair has length one within the tolerance.
    pub fn is_valid(&self) -> (b: bool)
        ensures
            b == self.wf(),
    {
        let n: u128 = Vector2 { x: self.cos, y: self.sin }.norm_sq();
        let least: u128 = (SCALE - UNIT_TOLERANCE) as u128;
        let most: u128 = (SCALE + UNIT_TOLERANCE) as u128;
        least * least <= n && n <= most * most
    }

    /// The rotation with the given cosine and sine, if the pair has length one
    /// within the tolerance.
    pub fn new(cos: i64, sin: i64) -> (r: Option<Rotation>)
        ensures
            r.is_some() <==> (Rotation { cos, sin }).wf(),
            r.is_some() ==> r.unwrap() == (Rotation { cos, sin }),
    {
        let rot = Rotation { cos, sin };
        if rot.is_valid() {
            Some(rot)
        } else {
            None
        }
    }
}

/// The squared length of a rotated vector is the product of the squared
/// lengths of the vector and of the rotation.
pub proof fn lemma_rotated_norm_sq(v: VectorModel, rot: Rotation)
    ensures
        v.rotated(rot).norm_sq() == v.norm_sq() * rot.norm_sq(),
{
    let x: int = v.x;
    let y: int = v.y;
    let c: int = rot.cos as int;
    let s: int = rot.sin as int;
    let xc: int = x * c;
    let ys: int = y * s;
    let xs: int = x * s;
    let yc: int = y * c;
    assert(xc * ys == xs * yc) by (nonlinear_arith)
        requires
            xc == x * c,
            ys == y * s,
            xs == x * s,
            yc == y * c,
    ;
    assert((xc - ys) * (xc - ys) + (xs + yc) * (xs + yc) == xc * xc + ys * ys + xs * xs + yc * yc)
        by (nonlinear_arith)
        requires
            xc * ys == xs * yc,
    ;
    assert(xc * xc == (x * x) * (c * c)) by (nonlinear_arith)
        requires
            xc == x * c,
    ;
    assert(ys * ys == (y * y) * (s * s)) by (nonlinear_arith)
        requires
            ys == y * s,
    ;
    assert(xs * xs == (x * x) * (s * s)) by (nonlinear_arith)
        requires
            xs == x * s,
    ;
    assert(yc * yc == (y * y) * (c * c)) by (nonlinear_arith)
        requires
            yc == y * c,
    ;
    let xx: int = x * x;
    let yy: int = y * y;
    let cc: int = c * c;
    let ss: int = s * s;
    assert((xx + yy) * (cc + ss) == xx * cc + yy * ss + xx * ss + yy * cc) by (nonlinear_arith);
}

/// A vector at least `SCALE` raw units long, shrunk to unit length, is a unit
/// vector within the tolerance.
pub proof fn lemma_normalized_is_unit(v: VectorModel, n: int)
    requires
        n >= SCALE,
        (n - 1) * (n - 1) < v.norm_sq() <= n * n,
    ensures
        (VectorModel {
            x: div_toward_zero(v.x * SCALE, n),
            y: div_toward_zero(v.y * SCALE, n),
        }).is_unit(),
{
    let s: int = SCALE as int;
    let a: int = div_toward_zero(v.x * s, n);
    let b: int = div_toward_zero(v.y * s, n);
    let ax: int = if v.x >= 0 { v.x } else { -v.x };
    let ay: int = if v.y >= 0 { v.y } else { -v.y };
    let mx: int = if v.x * s >= 0 { v.x * s } else { -(v.x * s) };
    let my: int = if v.y * s >= 0 { v.y * s } else { -(v.y * s) };
    let p: int = if a >= 0 { a } else { -a };
    let q: int = if b >= 0 { b } else { -b };
    lemma_div_toward_zero(v.x * s, n, a, mx, p);
    lemma_div_toward_zero(v.y * s, n, b, my, q);
    assert(mx == ax * s && my == ay * s);
    let n2: int = v.norm_sq();
    assert(ax * ax + ay * ay == n2) by (nonlinear_arith)
        requires
            ax == v.x || ax == -v.x,
            ay == v.y || ay == -v.y,
            n2 == v.x * v.x + v.y * v.y,
    ;
    // Upper bound.
    assert((p * p) * (n * n) <= (ax * ax) * (s * s)) by (nonlinear_arith)
        requires
            0 <= p * n <= ax * s,
    ;
    assert((q * q) * (n * n) <= (ay * ay) * (s * s)) by (nonlinear_arith)
        requires
            0 <= q * n <= ay * s,
    ;
    assert(0 <= p * n && 0 <= q * n) by (nonlinear_arith)
        requires
            0 <= p,
            0 <= q,
            0 < n,
    ;
    let pp: int = p * p;
    let qq: int = q * q;
    let nn: int = n * n;
    let ss: int = s * s;
    let axx: int = ax * ax;
    let ayy: int = ay * ay;
    assert(0 < nn) by (nonlinear_arith)
        requires
            0 < n,
            nn == n * n,
    ;
    assert((pp + qq) * nn <= ss * nn) by (nonlinear_arith)
        requires
            pp * nn <= axx * ss,
            qq * nn <= ayy * ss,
            axx + ayy <= nn,
            0 <= ss,
    ;
    assert(pp + qq <= ss) by (nonlinear_arith)
        requires
            (pp + qq) * nn <= ss * nn,
            0 < nn,
    ;
    // Lower bound.
    assert(((p + 1) * (p + 1)) * (n * n) >= (ax * ax) * (s * s)) by (nonlinear_arith)
        requires
            0 <= ax * s < (p + 1) * n,
    ;
    assert(((q + 1) * (q + 1)) * (n * n) >= (ay * ay) * (s * s)) by (nonlinear_arith)
        requires
            0 <= ay * s < (q + 1) * n,
    ;
    assert(0 <= ax * s && 0 <= ay * s) by (nonlinear_arith)
        requires
            0 <= ax,
            0 <= ay,
            0 < s,
    ;
    let p_up: int = (p + 1) * (p + 1);
    let q_up: int = (q + 1) * (q + 1);
    let k: int = p_up + q_up;
    let m1: int = (n - 1) * (n - 1);
    let s1: int = (s - 1) * (s - 1);
    assert(k * nn >= n2 * ss) by (nonlinear_arith)
        requires
            p_up * nn >= axx * ss,
            q_up * nn >= ayy * ss,
            k == p_up + q_up,
            n2 == axx + ayy,
    ;
    assert(n2 * ss > m1 * ss) by (nonlinear_arith)
        requires
            n2 > m1,
            0 < ss,
    ;
    assert((n - 1) * s >= n * (s - 1) && n * (s - 1) >= 0) by (nonlinear_arith)
        requires
            n >= s,
            s >= 1,
    ;
    assert(m1 * ss >= nn * s1) by (nonlinear_arith)
        requires
            (n - 1) * s >= n * (s - 1),
            n * (s - 1) >= 0,
            m1 == (n - 1) * (n - 1),
            ss == s * s,
            nn == n * n,
            s1 == (s - 1) * (s - 1),
    ;
    assert(k > s1) by (nonlinear_arith)
        requires
            k * nn > nn * s1,
            0 < nn,
    ;
    assert(p + q <= 1_500_000) by (nonlinear_arith)
        requires
            0 <= p,
            0 <= q,
            p * p + q * q <= 1_000_000 * 1_000_000,
    ;
    assert(k == pp + qq + 2 * (p + q) + 2) by (nonlinear_arith)
        requires
            k == (p + 1) * (p + 1) + (q + 1) * (q + 1),
            pp == p * p,
            qq == q * q,
    ;
    assert(a * a + b * b == p * p + q * q);
}

/// A unit vector turned by a rotation, before it is brought back to unit
/// length, is about `SCALE` times one long: its length rounded up is at least
/// `SCALE`, and its components are bounded.
pub proof fn lemma_rotated_length(h: VectorModel, rot: Rotation)
    requires
        h.is_unit(),
        rot.wf(),
    ensures
        0 <= h.rotated(rot).norm_sq(),
        ceil_sqrt(h.rotated(rot).norm_sq()) >= SCALE,
        -2 * SCALE * (SCALE + UNIT_TOLERANCE) <= h.rotated(rot).x <= 2 * SCALE * (SCALE
            + UNIT_TOLERANCE),
        -2 * SCALE * (SCALE + UNIT_TOLERANCE) <= h.rotated(rot).y <= 2 * SCALE * (SCALE
            + UNIT_TOLERANCE),
{
    let h2: int = h.norm_sq();
    let r2: int = rot.norm_sq();
    let n2: int = h.rotated(rot).norm_sq();
    lemma_rotated_norm_sq(h, rot);
    assert(h2 * r2 >= (999_997 * 999_997) * (999_997 * 999_997)) by (nonlinear_arith)
        requires
            h2 >= 999_997 * 999_997,
            r2 >= 999_997 * 999_997,
    ;
    lemma_ceil_sqrt(n2);
    let n: int = ceil_sqrt(n2);
    assert(n >= 1_000_000) by (nonlinear_arith)
        requires
            n * n >= (999_997 * 999_997) * (999_997 * 999_997),
            0 <= n,
    ;
    lemma_component_bound(h.x, h.y, SCALE as int);
    lemma_component_bound(rot.cos as int, rot.sin as int, SCALE + UNIT_TOLERANCE);
    let x: int = h.x;
    let y: int = h.y;
    let c: int = rot.cos as int;
    let s: int = rot.sin as int;
    assert(-1_000_003_000_000 <= x * c <= 1_000_003_000_000 && -1_000_003_000_000 <= y * s
        <= 1_000_003_000_000 && -1_000_003_000_000 <= x * s <= 1_000_003_000_000
        && -1_000_003_000_000 <= y * c <= 1_000_003_000_000) by (nonlinear_arith)
        requires
            -1_000_000 <= x <= 1_000_000,
            -1_000_000 <= y <= 1_000_000,
            -1_000_003 <= c <= 1_000_003,
            -1_000_003 <= s <= 1_000_003,
    ;
}

/// Turning a unit vector by a rotation gives a unit vector.
pub proof fn lemma_turned_is_unit(h: VectorModel, rot: Rotation)
    requires
        h.is_unit(),
        rot.wf(),
    ensures
        h.turned(rot).is_unit(),
{
    let v: VectorModel = h.rotated(rot);
    lemma_rotated_length(h, rot);
    lemma_ceil_sqrt(v.norm_sq());
    lemma_normalized_is_unit(v, ceil_sqrt(v.norm_sq()));
}

impl Vector2 {
    /// `self` turned by `rot` and brought back to unit length.
    pub fn turned(&self, rot: &Rotation) -> (r: Vector2)
        requires
            self@.is_unit(),
            rot.wf(),
        ensures
            r@ == self@.turned(*rot),
            r@.is_unit(),
    {
        proof {
            lemma_rotated_length(self@, *rot);
            lemma_turned_is_unit(self@, *rot);
            lemma_component_bound(self.x as int, self.y as int, SCALE as int);
            lemma_component_bound(rot.cos as int, rot.sin as int, SCALE + UNIT_TOLERANCE);
        }
        let c: i128 = rot.cos as i128;
        let s: i128 = rot.sin as i128;
        let x: i128 = self.x as i128;
        let y: i128 = self.y as i128;
        proof {
            assert(-1_000_003_000_000 <= x * c <= 1_000_003_000_000 && -1_000_003_000_000 <= y * s
                <= 1_000_003_000_000 && -1_000_003_000_000 <= x * s <= 1_000_003_000_000
                && -1_000_003_000_000 <= y * c <= 1_000_003_000_000) by (nonlinear_arith)
                requires
                    -1_000_000 <= x <= 1_000_000,
                    -1_000_000 <= y <= 1_000_000,
                    -1_000_003 <= c <= 1_000_003,
                    -1_000_003 <= s <= 1_000_003,
            ;
        }
        let vx: i128 = x * c - y * s;
        let vy: i128 = x * s + y * c;
        proof {
            assert(0 <= vx * vx <= 2_000_006_000_000 * 2_000_006_000_000 && 0 <= vy * vy
                <= 2_000_006_000_000 * 2_000_006_000_000) by (nonlinear_arith)
                requires
                    -2_000_006_000_000 <= vx <= 2_000_006_000_000,
                    -2_000_006_000_000 <= vy <= 2_000_006_000_000,
            ;
        }
        let n: i128 = isqrt_ceil((vx * vx + vy * vy) as u128) as i128;
        let scale: i128 = SCALE as i128;
        let rx: i128 = (vx * scale) / n;
        let ry: i128 = (vy * scale) / n;
        proof {
            lemma_component_bound(rx as int, ry as int, SCALE as int);
        }
        Vector2 { x: rx as i64, y: ry as i64 }
    }
}

} // verus!
