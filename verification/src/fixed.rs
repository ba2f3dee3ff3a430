//! Fixed-point scalars.
//!
//! Every physical quantity of the simulation is an integer count of
//! millionths: a raw value `r` stands for the number `r / SCALE`. Products of
//! two such quantities carry the factor `SCALE` twice and are brought back by
//! `rescale`, which rounds toward zero so that a magnitude never grows by
//! rounding.

use vstd::prelude::*;

verus! {

/// Raw units in one whole unit.
pub const SCALE: i64 = 1_000_000;

/// `a / b` for a positive `b`, rounded toward zero.
pub open spec fn div_toward_zero(a: int, b: int) -> int {
    if a >= 0 {
        a / b
    } else {
        -((-a) / b)
    }
}

/// `p / SCALE`, rounded toward zero.
pub open spec fn rescale(p: int) -> int {
    div_toward_zero(p, SCALE as int)
}

/// `x` limited to the range of a 64-bit signed integer.
pub open spec fn saturate(x: int) -> int {
    if x < i64::MIN {
        i64::MIN as int
    } else if x > i64::MAX {
        i64::MAX as int
    } else {
        x
    }
}

/// `r` is the integer part of the square root of `n`.
pub open spec fn is_floor_sqrt(n: int, r: int) -> bool {
    0 <= r && r * r <= n < (r + 1) * (r + 1)
}

/// The integer part of the square root of a non-negative `n`.
pub open spec fn floor_sqrt(n: int) -> int {
    choose|r: int| is_floor_sqrt(n, r)
}

/// The least integer whose square is at least `n`, for a non-negative `n`.
pub open spec fn ceil_sqrt(n: int) -> int {
    let r: int = floor_sqrt(n);
    if r * r == n {
        r
    } else {
        r + 1
    }
}

/// At most one integer is the integer part of the square root of `n`.
pub proof fn lemma_floor_sqrt_unique(n: int, r1: int, r2: int)
    requires
        is_floor_sqrt(n, r1),
        is_floor_sqrt(n, r2),
    ensures
        r1 == r2,
{
    if r1 < r2 {
        assert((r1 + 1) * (r1 + 1) <= r2 * r2) by (nonlinear_arith)
            requires
                0 <= r1,
                r1 + 1 <= r2,
        ;
    } else if r2 < r1 {
        assert((r2 + 1) * (r2 + 1) <= r1 * r1) by (nonlinear_arith)
            requires
                0 <= r2,
                r2 + 1 <= r1,
        ;
    }
}

/// Every non-negative integer has an integer square root, and `floor_sqrt`
/// names it.
pub proof fn lemma_floor_sqrt(n: int)
    requires
        0 <= n,
    ensures
        is_floor_sqrt(n, floor_sqrt(n)),
    decreases n,
{
    if n == 0 {
        assert(is_floor_sqrt(0, 0));
    } else {
        lemma_floor_sqrt(n - 1);
        let r: int = floor_sqrt(n - 1);
        if (r + 1) * (r + 1) <= n {
            assert((r + 2) * (r + 2) > (r + 1) * (r + 1)) by (nonlinear_arith)
                requires
                    0 <= r,
            ;
            assert(is_floor_sqrt(n, r + 1));
        } else {
            assert(is_floor_sqrt(n, r));
        }
    }
}

/// The least integer whose square reaches `n` is just that.
pub proof fn lemma_ceil_sqrt(n: int)
    requires
        0 <= n,
    ensures
        0 <= ceil_sqrt(n),
        n <= ceil_sqrt(n) * ceil_sqrt(n),
        ceil_sqrt(n) > 0 ==> (ceil_sqrt(n) - 1) * (ceil_sqrt(n) - 1) < n,
{
    lemma_floor_sqrt(n);
    let r: int = floor_sqrt(n);
    if r * r == n {
        assert(r > 0 ==> (r - 1) * (r - 1) < r * r) by (nonlinear_arith);
    }
}

/// A component of a vector is no longer than the vector.
pub proof fn lemma_component_bound(a: int, b: int, m: int)
    requires
        0 <= m,
        a * a + b * b <= m * m,
    ensures
        -m <= a <= m,
        -m <= b <= m,
{
    assert(-m <= a <= m && -m <= b <= m) by (nonlinear_arith)
        requires
            0 <= m,
            a * a + b * b <= m * m,
    ;
}

/// Dividing toward zero by a positive number: the quotient has the sign of the
/// dividend, and its magnitude is the floor of the quotient of the magnitudes.
pub proof fn lemma_div_toward_zero(a: int, n: int, q: int, m: int, p: int)
    requires
        n > 0,
        q == div_toward_zero(a, n),
        m == (if a >= 0 { a } else { -a }),
        p == (if q >= 0 { q } else { -q }),
    ensures
        0 <= p,
        p * n <= m < (p + 1) * n,
        q * q == p * p,
{
    assert(0 <= m / n && (m / n) * n <= m < (m / n + 1) * n) by (nonlinear_arith)
        requires
            n > 0,
            m >= 0,
    ;
    assert(q * q == p * p) by (nonlinear_arith)
        requires
            p == q || p == -q,
    ;
}

/// Executable `rescale`.
pub fn rescale_exec(p: i128) -> (q: i128)
    ensures
        q == rescale(p as int),
{
    p / (SCALE as i128)
}

/// Executable `saturate`.
pub fn saturate_exec(x: i128) -> (r: i64)
    ensures
        r == saturate(x as int),
{
    if x < i64::MIN as i128 {
        i64::MIN
    } else if x > i64::MAX as i128 {
        i64::MAX
    } else {
        x as i64
    }
}

/// Integer square root by bisection.
pub fn isqrt(n: u128) -> (r: u64)
    ensures
        is_floor_sqrt(n as int, r as int),
        r == floor_sqrt(n as int),
{
    let mut lo: u128 = 0;
    let mut hi: u128 = 0x1_0000_0000_0000_0000;
    assert(0x1_0000_0000_0000_0000int * 0x1_0000_0000_0000_0000int > u128::MAX) by (nonlinear_arith);
    while hi - lo > 1
        invariant
            lo < hi <= 0x1_0000_0000_0000_0000,
            lo * lo <= n < hi * hi,
        decreases hi - lo,
    {
        let mid: u128 = lo + (hi - lo) / 2;
        assert(mid * mid <= 0xffff_ffff_ffff_ffffint * 0xffff_ffff_ffff_ffffint) by (nonlinear_arith)
            requires
                0 <= mid <= 0xffff_ffff_ffff_ffff,
        ;
        assert(0xffff_ffff_ffff_ffffint * 0xffff_ffff_ffff_ffffint <= u128::MAX) by (nonlinear_arith);
        if mid * mid <= n {
            lo = mid;
        } else {
            hi = mid;
        }
    }
    proof {
        assert(is_floor_sqrt(n as int, lo as int));
        lemma_floor_sqrt(n as int);
        lemma_floor_sqrt_unique(n as int, lo as int, floor_sqrt(n as int));
    }
    lo as u64
}

/// Least integer whose square reaches `n`.
pub fn isqrt_ceil(n: u128) -> (r: u128)
    ensures
        r == ceil_sqrt(n as int),
        r <= 0x1_0000_0000_0000_0000,
        n <= r * r,
        r > 0 ==> (r - 1) * (r - 1) < n,
{
    let f: u64 = isqrt(n);
    let f: u128 = f as u128;
    assert(f * f <= n);
    if f * f == n {
        assert(f > 0 ==> (f - 1) * (f - 1) < f * f) by (nonlinear_arith);
        f
    } else {
        f + 1
    }
}

} // verus!
