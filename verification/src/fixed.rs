//! Fixed-point arithmetic shared by every physics routine.
//!
//! Lengths are counted in thousandths of a world unit, speeds in thousandths
//! of a world unit per second and durations in milliseconds. Every quotient
//! rounds toward zero, so mirrored inputs give mirrored results.

use vstd::prelude::*;

verus! {

/// Scale of the fixed-point representation: one world unit.
pub const UNIT: i64 = 1000;

/// Largest magnitude of a coordinate that the simulation stores.
pub const COORD_LIMIT: i64 = 1_000_000_000;

/// Largest magnitude of a vector component handed to the vector routines.
pub const VEC_LIMIT: i64 = 2_000_000_000;

/// Largest magnitude of a stored velocity component.
pub const SPEED_LIMIT: i64 = 10_000_000;

/// Longest tick, in milliseconds, that the integrators accept.
pub const MAX_TICK_MS: u32 = 1000;

pub open spec fn abs(x: int) -> int {
    if x >= 0 {
        x
    } else {
        -x
    }
}

/// `x`, held within `[lo, hi]`.
pub open spec fn clamp_spec(x: int, lo: int, hi: int) -> int {
    if x < lo {
        lo
    } else if x > hi {
        hi
    } else {
        x
    }
}

/// Quotient rounded toward zero.
pub open spec fn trunc_div(a: int, d: int) -> int {
    if a >= 0 {
        a / d
    } else {
        -((-a) / d)
    }
}

/// `a * num / den`, rounded toward zero.
pub open spec fn scaled(a: int, num: int, den: int) -> int {
    trunc_div(a * num, den)
}

/// Squared length of the vector `(x, y)`.
pub open spec fn norm2(x: int, y: int) -> int {
    x * x + y * y
}

/// `r` is the least non-negative integer whose square reaches `n`.
pub open spec fn is_ceil_sqrt(n: int, r: int) -> bool {
    &&& r >= 0
    &&& r * r >= n
    &&& (r > 0 ==> (r - 1) * (r - 1) < n)
}

/// Square root rounded up.
pub open spec fn ceil_sqrt(n: int) -> int {
    choose|r: int| is_ceil_sqrt(n, r)
}

/// Length of the vector `(x, y)`, rounded up.
pub open spec fn vec_len(x: int, y: int) -> int {
    ceil_sqrt(norm2(x, y))
}

/// The vector `(x, y)` rescaled to length `len` (never longer, because the
/// divisor is the length rounded up). The zero vector stays zero.
pub open spec fn scale_to_spec(x: int, y: int, len: int) -> (int, int) {
    let c = vec_len(x, y);
    if c == 0 {
        (0, 0)
    } else {
        (scaled(x, len, c), scaled(y, len, c))
    }
}

/// The vector `(x, y)`, shortened to length `max` when it is longer.
pub open spec fn cap_speed_spec(x: int, y: int, max: int) -> (int, int) {
    if norm2(x, y) > max * max {
        scale_to_spec(x, y, max)
    } else {
        (x, y)
    }
}

/// A cooldown after `dt` more milliseconds: it counts down and stops at zero.
pub open spec fn decay_spec(c: int, dt: int) -> int {
    if c > dt {
        c - dt
    } else {
        0
    }
}

pub proof fn lemma_square_monotone(a: int, b: int)
    requires
        0 <= a <= b,
    ensures
        a * a <= b * b,
{
    assert(a * a <= b * b) by (nonlinear_arith)
        requires
            0 <= a <= b,
    ;
}

pub proof fn lemma_square_bound(x: int, b: int)
    requires
        -b <= x <= b,
    ensures
        0 <= x * x <= b * b,
{
    assert(0 <= x * x <= b * b) by (nonlinear_arith)
        requires
            -b <= x <= b,
    ;
}

pub proof fn lemma_mul_bound(a: int, b: int, la: int, lb: int)
    requires
        -la <= a <= la,
        -lb <= b <= lb,
    ensures
        -(la * lb) <= a * b <= la * lb,
{
    assert(-(la * lb) <= a * b <= la * lb) by (nonlinear_arith)
        requires
            -la <= a <= la,
            -lb <= b <= lb,
    ;
}

/// The rounded-up square root is unique.
pub proof fn lemma_ceil_sqrt_unique(n: int, r: int)
    requires
        is_ceil_sqrt(n, r),
    ensures
        ceil_sqrt(n) == r,
{
    let c = ceil_sqrt(n);
    assert(is_ceil_sqrt(n, c));
    if c < r {
        lemma_square_monotone(c, r - 1);
    } else if c > r {
        lemma_square_monotone(r, c - 1);
    }
}

/// Rounding toward zero never grows a magnitude: `|a / d| * d <= |a|`.
pub proof fn lemma_trunc_div_bound(a: int, d: int)
    requires
        d > 0,
    ensures
        abs(trunc_div(a, d)) * d <= abs(a),
        abs(trunc_div(a, d)) <= abs(a),
        a >= 0 ==> trunc_div(a, d) >= 0,
        a <= 0 ==> trunc_div(a, d) <= 0,
{
    let m = abs(a);
    assert(0 <= (m / d) * d <= m && 0 <= m / d <= m) by (nonlinear_arith)
        requires
            m >= 0,
            d > 0,
    ;
}

/// Scaling by a ratio of magnitude at most one does not grow a magnitude.
pub proof fn lemma_scaled_bound(a: int, num: int, den: int)
    requires
        den > 0,
        -den <= num <= den,
    ensures
        abs(scaled(a, num, den)) <= abs(a),
        abs(scaled(num, a, den)) <= abs(a),
{
    lemma_trunc_div_bound(a * num, den);
    let q = abs(scaled(a, num, den));
    let m = abs(a);
    let k = abs(num);
    assert(abs(a * num) == m * k) by (nonlinear_arith)
        requires
            m == abs(a),
            k == abs(num),
    ;
    assert(q <= m) by (nonlinear_arith)
        requires
            q * den <= m * k,
            0 <= k <= den,
            den > 0,
            q >= 0,
            m >= 0,
    ;
    assert(a * num == num * a) by (nonlinear_arith);
}

/// A rescaled vector is never longer than the length asked for.
pub proof fn lemma_scale_to_norm(x: int, y: int, len: int)
    requires
        len >= 0,
        exists|r: int| is_ceil_sqrt(norm2(x, y), r),
    ensures
        norm2(scale_to_spec(x, y, len).0, scale_to_spec(x, y, len).1) <= len * len,
        abs(scale_to_spec(x, y, len).0) <= len,
        abs(scale_to_spec(x, y, len).1) <= len,
{
    let c = vec_len(x, y);
    assert(is_ceil_sqrt(norm2(x, y), c));
    let (a, b) = scale_to_spec(x, y, len);
    if c == 0 {
        assert(0 <= len * len) by (nonlinear_arith);
    } else {
        lemma_trunc_div_bound(x * len, c);
        lemma_trunc_div_bound(y * len, c);
        let p = abs(a);
        let q = abs(b);
        let mx = abs(x);
        let my = abs(y);
        assert(abs(x * len) == mx * len && abs(y * len) == my * len) by (nonlinear_arith)
            requires
                mx == abs(x),
                my == abs(y),
                len >= 0,
        ;
        assert(p * c <= mx * len);
        assert(q * c <= my * len);
        assert(mx * mx + my * my == x * x + y * y) by (nonlinear_arith)
            requires
                mx == abs(x),
                my == abs(y),
        ;
        assert((p * c) * (p * c) <= (mx * len) * (mx * len)) by (nonlinear_arith)
            requires
                0 <= p * c <= mx * len,
        ;
        assert((q * c) * (q * c) <= (my * len) * (my * len)) by (nonlinear_arith)
            requires
                0 <= q * c <= my * len,
        ;
        assert((p * p + q * q) * (c * c) == (p * c) * (p * c) + (q * c) * (q * c))
            by (nonlinear_arith);
        assert((mx * len) * (mx * len) + (my * len) * (my * len) == (mx * mx + my * my) * (len
            * len)) by (nonlinear_arith);
        assert((mx * mx + my * my) * (len * len) <= (c * c) * (len * len)) by (nonlinear_arith)
            requires
                mx * mx + my * my <= c * c,
        ;
        let s = p * p + q * q;
        let cc = c * c;
        let ll = len * len;
        assert(s * cc <= cc * ll);
        assert(cc > 0) by (nonlinear_arith)
            requires
                c > 0,
                cc == c * c,
        ;
        assert(s <= ll) by (nonlinear_arith)
            requires
                s * cc <= cc * ll,
                cc > 0,
        ;
        assert(p * p + q * q == a * a + b * b) by (nonlinear_arith)
            requires
                p == abs(a),
                q == abs(b),
        ;
        assert(p <= len && q <= len) by (nonlinear_arith)
            requires
                p * p + q * q <= len * len,
                p >= 0,
                q >= 0,
                len >= 0,
        ;
    }
}

/// Holds `x` within `[lo, hi]`.
pub fn clamp(x: i64, lo: i64, hi: i64) -> (r: i64)
    requires
        lo <= hi,
    ensures
        r == clamp_spec(x as int, lo as int, hi as int),
        lo <= r <= hi,
{
    if x < lo {
        lo
    } else if x > hi {
        hi
    } else {
        x
    }
}

/// Counts a cooldown down by `dt` milliseconds, stopping at zero.
pub fn decay(c: u32, dt: u32) -> (r: u32)
    ensures
        r == decay_spec(c as int, dt as int),
        r <= c,
{
    if c > dt {
        c - dt
    } else {
        0
    }
}

/// `a * b / d`, rounded toward zero.
pub fn mul_div(a: i64, b: i64, d: i64) -> (r: i64)
    requires
        d > 0,
        -0x8000_0000 <= a <= 0x8000_0000,
        -0x8000_0000 <= b <= 0x8000_0000,
    ensures
        r == scaled(a as int, b as int, d as int),
        abs(r as int) <= abs(a * b),
        -d <= b <= d ==> abs(r as int) <= abs(a as int),
        -d <= a <= d ==> abs(r as int) <= abs(b as int),
{
    proof {
        lemma_mul_bound(a as int, b as int, 0x8000_0000, 0x8000_0000);
        lemma_trunc_div_bound(a * b, d as int);
        if -d <= b <= d {
            lemma_scaled_bound(a as int, b as int, d as int);
        }
        if -d <= a <= d {
            lemma_scaled_bound(b as int, a as int, d as int);
        }
    }
    let p: i64 = a * b;
    p / d
}

/// Squared length of the vector `(x, y)`.
pub fn norm2_of(x: i64, y: i64) -> (r: u64)
    requires
        -VEC_LIMIT <= x <= VEC_LIMIT,
        -VEC_LIMIT <= y <= VEC_LIMIT,
    ensures
        r == norm2(x as int, y as int),
        r <= 8_000_000_000_000_000_000,
{
    proof {
        lemma_square_bound(x as int, VEC_LIMIT as int);
        lemma_square_bound(y as int, VEC_LIMIT as int);
    }
    let xx: i64 = x * x;
    let yy: i64 = y * y;
    (xx as u64) + (yy as u64)
}

/// Square root rounded up.
pub fn isqrt_ceil(n: u64) -> (r: u64)
    ensures
        is_ceil_sqrt(n as int, r as int),
        r == ceil_sqrt(n as int),
        r <= 0x1_0000_0000,
{
    if n == 0 {
        proof {
            lemma_ceil_sqrt_unique(0, 0);
        }
        return 0;
    }
    let top: u64 = 0xFFFF_FFFF;
    if n > top * top {
        proof {
            lemma_ceil_sqrt_unique(n as int, 0x1_0000_0000);
        }
        return 0x1_0000_0000;
    }
    let mut lo: u64 = 0;
    let mut hi: u64 = top;
    while hi - lo > 1
        invariant
            lo < hi <= 0xFFFF_FFFF,
            lo * lo < n,
            hi * hi >= n,
        decreases hi - lo,
    {
        let mid: u64 = lo + (hi - lo) / 2;
        proof {
            lemma_square_bound(mid as int, 0xFFFF_FFFF);
        }
        if mid * mid >= n {
            hi = mid;
        } else {
            lo = mid;
        }
    }
    proof {
        lemma_ceil_sqrt_unique(n as int, hi as int);
    }
    hi
}

/// Length of the vector `(x, y)`, rounded up.
pub fn length(x: i64, y: i64) -> (r: i64)
    requires
        -VEC_LIMIT <= x <= VEC_LIMIT,
        -VEC_LIMIT <= y <= VEC_LIMIT,
    ensures
        r == vec_len(x as int, y as int),
        is_ceil_sqrt(norm2(x as int, y as int), r as int),
        0 <= r <= 0x1_0000_0000,
        r == 0 <==> (x == 0 && y == 0),
{
    let n = norm2_of(x, y);
    let r = isqrt_ceil(n);
    proof {
        let xi = x as int;
        let yi = y as int;
        if xi != 0 || yi != 0 {
            assert(xi * xi + yi * yi > 0) by (nonlinear_arith)
                requires
                    xi != 0 || yi != 0,
            ;
            let ri = r as int;
            assert(ri != 0) by (nonlinear_arith)
                requires
                    ri * ri >= xi * xi + yi * yi,
                    xi * xi + yi * yi > 0,
            ;
        } else {
            assert(xi * xi + yi * yi == 0) by (nonlinear_arith)
                requires
                    xi == 0,
                    yi == 0,
            ;
        }
    }
    r as i64
}

/// Rescales the vector `(x, y)` to length `len`.
pub fn scale_to(x: i64, y: i64, len: i64) -> (r: (i64, i64))
    requires
        -VEC_LIMIT <= x <= VEC_LIMIT,
        -VEC_LIMIT <= y <= VEC_LIMIT,
        0 <= len <= 0x8000_0000,
    ensures
        (r.0 as int, r.1 as int) == scale_to_spec(x as int, y as int, len as int),
        norm2(r.0 as int, r.1 as int) <= len * len,
        -len <= r.0 <= len,
        -len <= r.1 <= len,
{
    let c = length(x, y);
    proof {
        lemma_scale_to_norm(x as int, y as int, len as int);
    }
    if c == 0 {
        (0, 0)
    } else {
        (mul_div(x, len, c), mul_div(y, len, c))
    }
}

/// Shortens the vector `(x, y)` to length `max` when it is longer.
pub fn cap_speed(x: i64, y: i64, max: i64) -> (r: (i64, i64))
    requires
        -VEC_LIMIT <= x <= VEC_LIMIT,
        -VEC_LIMIT <= y <= VEC_LIMIT,
        0 <= max <= 0x8000_0000,
    ensures
        (r.0 as int, r.1 as int) == cap_speed_spec(x as int, y as int, max as int),
        norm2(r.0 as int, r.1 as int) <= max * max,
        -max <= r.0 <= max,
        -max <= r.1 <= max,
{
    let n = norm2_of(x, y);
    proof {
        lemma_square_bound(max as int, 0x8000_0000);
    }
    let m: u64 = (max * max) as u64;
    if n > m {
        scale_to(x, y, max)
    } else {
        proof {
            let ax = abs(x as int);
            let ay = abs(y as int);
            assert(ax * ax + ay * ay == x * x + y * y) by (nonlinear_arith)
                requires
                    ax == abs(x as int),
                    ay == abs(y as int),
            ;
            assert(ax <= max && ay <= max) by (nonlinear_arith)
                requires
                    ax * ax + ay * ay <= max * max,
                    ax >= 0,
                    ay >= 0,
                    max >= 0,
            ;
        }
        (x, y)
    }
}

/// `a + b`, held within `[-limit, limit]`.
pub fn add_clamped(a: i64, b: i64, limit: i64) -> (r: i64)
    requires
        0 <= limit <= 0x2000_0000_0000_0000,
        -0x2000_0000_0000_0000 <= a <= 0x2000_0000_0000_0000,
        -0x2000_0000_0000_0000 <= b <= 0x2000_0000_0000_0000,
    ensures
        r == clamp_spec(a + b, -limit, limit as int),
        -limit <= r <= limit,
{
    clamp(a + b, -limit, limit)
}

} // verus!
