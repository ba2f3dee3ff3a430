//! Plane vectors over fixed-point scalars.

use vstd::prelude::*;
use crate::fixed::{
    SCALE, rescale, rescale_exec, saturate, saturate_exec, floor_sqrt, isqrt, lemma_component_bound,
    lemma_div_toward_zero,
};

verus! {

/// How far, in raw units, the length of a unit vector may fall short of one.
pub const UNIT_TOLERANCE: i64 = 3;

/// The mathematical value of a `Vector2`: a pair of unbounded integers, each a
/// count of millionths.
pub struct VectorModel {
    pub x: int,
    pub y: int,
}

/// `a + (b - a) * t`, with `t` a fixed-point fraction.
pub open spec fn lerp_scalar(a: int, b: int, t: int) -> int {
    a + rescale((b - a) * t)
}

impl VectorModel {
    pub open spec fn zero() -> VectorModel {
        VectorModel { x: 0, y: 0 }
    }

    pub open spec fn is_zero(self) -> bool {
        self.x == 0 && self.y == 0
    }

    /// Square of the Euclidean length.
    pub open spec fn norm_sq(self) -> int {
        self.x * self.x + self.y * self.y
    }

    /// Euclidean length, rounded down to a whole raw unit.
    pub open spec fn length(self) -> int {
        floor_sqrt(self.norm_sq())
    }

    /// The length is one, short by at most `UNIT_TOLERANCE` raw units and
    /// never long.
    pub open spec fn is_unit(self) -> bool {
        (SCALE - UNIT_TOLERANCE) * (SCALE - UNIT_TOLERANCE) <= self.norm_sq() <= SCALE * SCALE
    }

    /// The point at fraction `t` of the way from `self` to `to`.
    pub open spec fn lerp(self, to: VectorModel, t: int) -> VectorModel {
        VectorModel { x: lerp_scalar(self.x, to.x, t), y: lerp_scalar(self.y, to.y, t) }
    }

    /// `self * k` for a fixed-point `k`, each component limited to 64 bits.
    pub open spec fn scaled(self, k: int) -> VectorModel {
        VectorModel { x: saturate(rescale(self.x * k)), y: saturate(rescale(self.y * k)) }
    }

    /// `self + v * dt`, each component limited to 64 bits.
    pub open spec fn advanced(self, v: VectorModel, dt: int) -> VectorModel {
        VectorModel {
            x: saturate(self.x + rescale(v.x * dt)),
            y: saturate(self.y + rescale(v.y * dt)),
        }
    }
}

/// A vector of the plane; each component counts millionths.
#[derive(Clone, Copy, Debug, PartialEq, Eq, Structural)]
pub struct Vector2 {
    pub x: i64,
    pub y: i64,
}

impl View for Vector2 {
    type V = VectorModel;

    open spec fn view(&self) -> VectorModel {
        VectorModel { x: self.x as int, y: self.y as int }
    }
}

/// A fraction of the way from `a` to `b` lies between them.
pub proof fn lemma_lerp_scalar_between(a: int, b: int, t: int)
    requires
        0 <= t <= SCALE,
    ensures
        a <= b ==> a <= lerp_scalar(a, b, t) <= b,
        b <= a ==> b <= lerp_scalar(a, b, t) <= a,
        t == 0 ==> lerp_scalar(a, b, t) == a,
        t == SCALE ==> lerp_scalar(a, b, t) == b,
{
    let d: int = b - a;
    let s: int = SCALE as int;
    if d >= 0 {
        assert(0 <= d * t <= d * s) by (nonlinear_arith)
            requires
                0 <= d,
                0 <= t <= s,
        ;
    } else {
        assert(0 <= (-d) * t <= (-d) * s && -(d * t) == (-d) * t) by (nonlinear_arith)
            requires
                d < 0,
                0 <= t <= s,
        ;
    }
    if t == 0 {
        assert(d * t == 0) by (nonlinear_arith)
            requires
                t == 0,
        ;
    }
    if t == s {
        assert(d * t == d * s) by (nonlinear_arith)
            requires
                t == s,
        ;
    }
}

/// A vector no longer than one, multiplied by a non-negative `k` that fits in
/// 64 bits, is no longer than `k`, and no component is cut off.
pub proof fn lemma_scaled_bound(h: VectorModel, k: int)
    requires
        h.norm_sq() <= SCALE * SCALE,
        0 <= k <= i64::MAX,
    ensures
        h.scaled(k) == (VectorModel { x: rescale(h.x * k), y: rescale(h.y * k) }),
        h.scaled(k).norm_sq() <= k * k,
        -k <= h.scaled(k).x <= k,
        -k <= h.scaled(k).y <= k,
{
    let s: int = SCALE as int;
    let a: int = rescale(h.x * k);
    let b: int = rescale(h.y * k);
    let ax: int = if h.x >= 0 { h.x } else { -h.x };
    let ay: int = if h.y >= 0 { h.y } else { -h.y };
    let mx: int = if h.x * k >= 0 { h.x * k } else { -(h.x * k) };
    let my: int = if h.y * k >= 0 { h.y * k } else { -(h.y * k) };
    let p: int = if a >= 0 { a } else { -a };
    let q: int = if b >= 0 { b } else { -b };
    lemma_div_toward_zero(h.x * k, s, a, mx, p);
    lemma_div_toward_zero(h.y * k, s, b, my, q);
    assert(mx == ax * k && my == ay * k) by (nonlinear_arith)
        requires
            0 <= k,
            ax == (if h.x >= 0 { h.x } else { -h.x }),
            ay == (if h.y >= 0 { h.y } else { -h.y }),
            mx == (if h.x * k >= 0 { h.x * k } else { -(h.x * k) }),
            my == (if h.y * k >= 0 { h.y * k } else { -(h.y * k) }),
    ;
    let axx: int = ax * ax;
    let ayy: int = ay * ay;
    assert(axx + ayy == h.norm_sq()) by (nonlinear_arith)
        requires
            ax == h.x || ax == -h.x,
            ay == h.y || ay == -h.y,
            axx == ax * ax,
            ayy == ay * ay,
            h.norm_sq() == h.x * h.x + h.y * h.y,
    ;
    let pp: int = p * p;
    let qq: int = q * q;
    let kk: int = k * k;
    let ss: int = s * s;
    assert(0 <= p * s && 0 <= q * s);
    assert(pp * ss <= axx * kk) by (nonlinear_arith)
        requires
            0 <= p * s <= ax * k,
            pp == p * p,
            ss == s * s,
            axx == ax * ax,
            kk == k * k,
    ;
    assert(qq * ss <= ayy * kk) by (nonlinear_arith)
        requires
            0 <= q * s <= ay * k,
            qq == q * q,
            ss == s * s,
            ayy == ay * ay,
            kk == k * k,
    ;
    assert(0 <= kk) by (nonlinear_arith)
        requires
            kk == k * k,
    ;
    assert((pp + qq) * ss <= kk * ss) by (nonlinear_arith)
        requires
            pp * ss <= axx * kk,
            qq * ss <= ayy * kk,
            axx + ayy <= ss,
            0 <= kk,
    ;
    assert(pp + qq <= kk) by (nonlinear_arith)
        requires
            (pp + qq) * ss <= kk * ss,
            0 < ss,
    ;
    assert(a * a + b * b == pp + qq);
    lemma_component_bound(a, b, k);
}

fn lerp_component(a: i64, b: i64, t: i64) -> (r: i64)
    requires
        0 <= t <= SCALE,
    ensures
        r == lerp_scalar(a as int, b as int, t as int),
{
    let d: i128 = b as i128 - a as i128;
    proof {
        lemma_lerp_scalar_between(a as int, b as int, t as int);
        assert(-0x1_0000_0000_0000_0000 * 1_000_000 <= d * t <= 0x1_0000_0000_0000_0000 * 1_000_000)
            by (nonlinear_arith)
            requires
                -0x1_0000_0000_0000_0000 <= d <= 0x1_0000_0000_0000_0000,
                0 <= t <= 1_000_000,
        ;
    }
    let q: i128 = rescale_exec(d * (t as i128));
    (a as i128 + q) as i64
}

fn scale_component(a: i64, k: i64) -> (r: i64)
    ensures
        r == saturate(rescale(a * k)),
{
    proof {
        assert(-0x8000_0000_0000_0000 * 0x8000_0000_0000_0000 <= a * k <= 0x8000_0000_0000_0000
            * 0x8000_0000_0000_0000) by (nonlinear_arith)
            requires
                -0x8000_0000_0000_0000 <= a <= 0x8000_0000_0000_0000,
                -0x8000_0000_0000_0000 <= k <= 0x8000_0000_0000_0000,
        ;
    }
    saturate_exec(rescale_exec((a as i128) * (k as i128)))
}

fn advance_component(p: i64, v: i64, dt: u64) -> (r: i64)
    ensures
        r == saturate(p + rescale(v * dt)),
{
    proof {
        assert(-0x8000_0000_0000_0000 * 0xffff_ffff_ffff_ffff <= v * dt <= 0x8000_0000_0000_0000
            * 0xffff_ffff_ffff_ffff) by (nonlinear_arith)
            requires
                -0x8000_0000_0000_0000 <= v <= 0x8000_0000_0000_0000,
                0 <= dt <= 0xffff_ffff_ffff_ffff,
        ;
    }
    let q: i128 = rescale_exec((v as i128) * (dt as i128));
    saturate_exec(p as i128 + q)
}

fn square(a: i64) -> (r: u128)
    ensures
        r == a * a,
        r <= 0x4000_0000_0000_0000_0000_0000_0000_0000,
{
    proof {
        assert(0 <= a * a <= 0x8000_0000_0000_0000 * 0x8000_0000_0000_0000) by (nonlinear_arith)
            requires
                -0x8000_0000_0000_0000 <= a <= 0x8000_0000_0000_0000,
        ;
    }
    ((a as i128) * (a as i128)) as u128
}

impl Vector2 {
    pub fn new(x: i64, y: i64) -> (v: Vector2)
        ensures
            v.x == x,
            v.y == y,
    {
        Vector2 { x, y }
    }

    pub fn zero() -> (v: Vector2)
        ensures
            v@ == VectorModel::zero(),
    {
        Vector2 { x: 0, y: 0 }
    }

    pub fn is_zero(&self) -> (b: bool)
        ensures
            b == self@.is_zero(),
    {
        self.x == 0 && self.y == 0
    }

    /// Square of the Euclidean length.
    pub fn norm_sq(&self) -> (n: u128)
        ensures
            n == self@.norm_sq(),
    {
        square(self.x) + square(self.y)
    }

    /// Whether the length is one within the tolerance.
    pub fn is_unit(&self) -> (b: bool)
        ensures
            b == self@.is_unit(),
    {
        let n: u128 = self.norm_sq();
        let least: u128 = (SCALE - UNIT_TOLERANCE) as u128;
        let most: u128 = SCALE as u128;
        least * least <= n && n <= most * most
    }

    /// Euclidean length, rounded down to a whole raw unit.
    pub fn length(&self) -> (r: u64)
        ensures
            r == self@.length(),
    {
        isqrt(self.norm_sq())
    }

    /// The point at fraction `t` of the way from `self` to `to`; `t` runs from
    /// 0 (`self`) to `SCALE` (`to`).
    pub fn lerp(&self, to: &Vector2, t: i64) -> (r: Vector2)
        requires
            0 <= t <= SCALE,
        ensures
            r@ == self@.lerp(to@, t as int),
    {
        Vector2 { x: lerp_component(self.x, to.x, t), y: lerp_component(self.y, to.y, t) }
    }

    /// `self * k` for a fixed-point `k`, each component limited to 64 bits.
    pub fn scaled(&self, k: i64) -> (r: Vector2)
        ensures
            r@ == self@.scaled(k as int),
    {
        Vector2 { x: scale_component(self.x, k), y: scale_component(self.y, k) }
    }

    /// `self + v * dt`, each component limited to 64 bits.
    pub fn advanced(&self, v: &Vector2, dt: u64) -> (r: Vector2)
        ensures
            r@ == self@.advanced(v@, dt as int),
    {
        Vector2 { x: advance_component(self.x, v.x, dt), y: advance_component(self.y, v.y, dt) }
    }
}

} // verus!
