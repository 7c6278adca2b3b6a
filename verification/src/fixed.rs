//! Fixed-point scalar arithmetic.
//!
//! A scalar is an `i64` that counts units of `1 / FP_ONE`; the real value
//! it stands for is `n / FP_ONE`. Division always rounds toward negative
//! infinity (floor), matching the Euclidean `/` of specifications, so the
//! executable operations are described exactly by their ghost
//! counterparts.

use vstd::prelude::*;

verus! {

/// The fixed-point unit: the scalar `FP_ONE` stands for the real value 1.
pub const FP_ONE: i64 = 65536;

/// Magnitude bound kept by every coordinate, offset component and scale;
/// small enough that every intermediate product below fits in an `i64`.
pub const COORD_LIMIT: i64 = 0x4000_0000;

/// Magnitude bound on a difference of two in-range coordinates.
pub const DIFF_LIMIT: i64 = 0x8000_0000;

/// True when `v` lies within the coordinate bound.
pub open spec fn in_range(v: int) -> bool {
    -COORD_LIMIT <= v <= COORD_LIMIT
}

/// True when `v` lies within the bound on coordinate differences.
pub open spec fn in_diff_range(v: int) -> bool {
    -DIFF_LIMIT <= v <= DIFF_LIMIT
}

/// `v` clamped into `[lo, hi]`.
pub open spec fn clamp_spec(v: int, lo: int, hi: int) -> int {
    if v < lo {
        lo
    } else if v > hi {
        hi
    } else {
        v
    }
}

/// Clamp `v` into `[lo, hi]`.
pub fn clamp(v: i64, lo: i64, hi: i64) -> (r: i64)
    requires
        lo <= hi,
    ensures
        r == clamp_spec(v as int, lo as int, hi as int),
{
    if v < lo {
        lo
    } else if v > hi {
        hi
    } else {
        v
    }
}

/// The quotient of a floor division lies between zero and the
/// numerator.
pub proof fn lemma_div_bounds(a: int, b: int)
    requires
        1 <= b,
    ensures
        a >= 0 ==> 0 <= a / b <= a,
        a < 0 ==> a <= a / b <= 0,
{
    vstd::arithmetic::div_mod::lemma_fundamental_div_mod(a, b);
    vstd::arithmetic::div_mod::lemma_mod_bound(a, b);
    assert((a >= 0 ==> 0 <= a / b <= a) && (a < 0 ==> a <= a / b <= 0)) by (nonlinear_arith)
        requires
            a == b * (a / b) + a % b,
            0 <= a % b < b,
            1 <= b,
    ;
}

/// Floor division of `a` by a positive `b`. Ghost `/` is Euclidean, which
/// is exactly floor for a positive divisor, so the result is plain
/// `a / b` at spec level. Rust's own `/` truncates toward zero instead;
/// the negative case is corrected here.
pub fn floor_div(a: i64, b: i64) -> (q: i64)
    requires
        0 < b,
        i64::MIN < a,
    ensures
        q == a as int / b as int,
        a >= 0 ==> 0 <= q <= a,
        a < 0 ==> a <= q <= 0,
{
    proof {
        lemma_div_bounds(a as int, b as int);
    }
    let q: i64 = a / b;
    let r: i64 = a % b;
    if r < 0 {
        proof {
            let bi: int = b as int;
            let n: int = -(a as int);
            let t: int = n / bi;
            let m: int = n % bi;
            vstd::arithmetic::div_mod::lemma_fundamental_div_mod(n, bi);
            vstd::arithmetic::div_mod::lemma_mod_pos_bound(n, bi);
            assert(q == -t);
            assert(r == -m);
            assert((q - 1) * bi + (r + bi) == -(bi * t) - m) by (nonlinear_arith)
                requires
                    q == -t,
                    r == -m,
            ;
            vstd::arithmetic::div_mod::lemma_fundamental_div_mod_converse(
                a as int, bi, q - 1, r + b);
        }
        q - 1
    } else {
        proof {
            if a < 0 {
                let bi: int = b as int;
                let n: int = -(a as int);
                let t: int = n / bi;
                let m: int = n % bi;
                vstd::arithmetic::div_mod::lemma_fundamental_div_mod(n, bi);
                vstd::arithmetic::div_mod::lemma_mod_pos_bound(n, bi);
                assert(q == -t);
                assert(m == 0);
                assert(q * bi + 0 == -(bi * t)) by (nonlinear_arith)
                    requires
                        q == -t,
                ;
                vstd::arithmetic::div_mod::lemma_fundamental_div_mod_converse(
                    a as int, bi, q as int, 0);
            }
        }
        q
    }
}

/// Floor division of `a` by a positive `b`, on the wide integers used
/// for intermediate pinch products. Same contract as `floor_div`.
pub fn floor_div128(a: i128, b: i128) -> (q: i128)
    requires
        0 < b,
        i128::MIN < a,
    ensures
        q == a as int / b as int,
        a >= 0 ==> 0 <= q <= a,
        a < 0 ==> a <= q <= 0,
{
    proof {
        lemma_div_bounds(a as int, b as int);
    }
    let q: i128 = a / b;
    let r: i128 = a % b;
    if r < 0 {
        proof {
            let bi: int = b as int;
            let n: int = -(a as int);
            let t: int = n / bi;
            let m: int = n % bi;
            vstd::arithmetic::div_mod::lemma_fundamental_div_mod(n, bi);
            vstd::arithmetic::div_mod::lemma_mod_pos_bound(n, bi);
            assert(q == -t);
            assert(r == -m);
            assert((q - 1) * bi + (r + bi) == -(bi * t) - m) by (nonlinear_arith)
                requires
                    q == -t,
                    r == -m,
            ;
            vstd::arithmetic::div_mod::lemma_fundamental_div_mod_converse(
                a as int, bi, q - 1, r + b);
        }
        q - 1
    } else {
        proof {
            if a < 0 {
                let bi: int = b as int;
                let n: int = -(a as int);
                let t: int = n / bi;
                let m: int = n % bi;
                vstd::arithmetic::div_mod::lemma_fundamental_div_mod(n, bi);
                vstd::arithmetic::div_mod::lemma_mod_pos_bound(n, bi);
                assert(q == -t);
                assert(m == 0);
                assert(q * bi + 0 == -(bi * t)) by (nonlinear_arith)
                    requires
                        q == -t,
                ;
                vstd::arithmetic::div_mod::lemma_fundamental_div_mod_converse(
                    a as int, bi, q as int, 0);
            }
        }
        q
    }
}

/// The product of two fixed-point scalars, floored: the fixed-point
/// representation of `(a/FP_ONE) * (b/FP_ONE)`, rounded toward negative
/// infinity.
pub open spec fn fxmul_spec(a: int, b: int) -> int {
    (a * b) / (FP_ONE as int)
}

/// Fixed-point multiplication, exact per `fxmul_spec`.
pub fn fxmul(a: i64, b: i64) -> (r: i64)
    requires
        in_diff_range(a as int),
        in_range(b as int),
    ensures
        r == fxmul_spec(a as int, b as int),
{
    proof {
        assert((a as int) * (b as int) <= 0x2000_0000_0000_0000
            && -0x2000_0000_0000_0000 <= (a as int) * (b as int)) by (nonlinear_arith)
            requires
                in_diff_range(a as int),
                in_range(b as int),
        ;
    }
    floor_div(a * b, FP_ONE)
}

/// Floor division by `c` and then by `d` is floor division by `c * d`,
/// for every numerator, negative ones included.
pub proof fn lemma_floor_div_compose(x: int, c: int, d: int)
    requires
        0 < c,
        0 < d,
    ensures
        (x / c) / d == x / (c * d),
{
    if x >= 0 {
        vstd::arithmetic::div_mod::lemma_div_denominator(x, c, d);
    } else {
        let cd = c * d;
        assert(0 < c * d) by (nonlinear_arith)
            requires
                0 < c,
                0 < d,
        ;
        vstd::arithmetic::div_mod::lemma_fundamental_div_mod(-x, cd);
        vstd::arithmetic::div_mod::lemma_mod_pos_bound(-x, cd);
        let m = (-x) / cd + 1;
        assert(-x < cd * m) by (nonlinear_arith)
            requires
                -x == cd * ((-x) / cd) + (-x) % cd,
                (-x) % cd < cd,
                m == (-x) / cd + 1,
        ;
        let y = x + m * cd;
        assert(y >= 0);
        vstd::arithmetic::div_mod::lemma_div_denominator(y, c, d);
        vstd::arithmetic::div_mod::lemma_hoist_over_denominator(x, m * d, c as nat);
        assert((m * d) * c == m * cd && m * (cd as nat) == m * cd && (m * d) * (c as nat) == (m * d)
            * c) by (nonlinear_arith)
            requires
                cd == c * d,
                0 < c,
                0 < d,
        ;
        assert(y / c == x / c + m * d);
        vstd::arithmetic::div_mod::lemma_hoist_over_denominator(x / c, m, d as nat);
        assert(m * (d as nat) == m * d) by (nonlinear_arith)
            requires
                0 < d,
        ;
        assert((y / c) / d == (x / c) / d + m);
        vstd::arithmetic::div_mod::lemma_hoist_over_denominator(x, m, cd as nat);
        assert(y / cd == x / cd + m);
    }
}

/// A common positive factor of numerator and denominator cancels in
/// floor division, for every numerator, negative ones included.
pub proof fn lemma_floor_div_cancel_factor(k: int, n: int, s: int)
    requires
        0 < k,
        0 < s,
    ensures
        (k * n) / (k * s) == n / s,
{
    let ks = k * s;
    assert(0 < k * s) by (nonlinear_arith)
        requires
            0 < k,
            0 < s,
    ;
    if n >= 0 {
        vstd::arithmetic::div_mod::lemma_div_multiples_vanish_quotient(k, n, s);
    } else {
        vstd::arithmetic::div_mod::lemma_fundamental_div_mod(-n, s);
        vstd::arithmetic::div_mod::lemma_mod_pos_bound(-n, s);
        let m = (-n) / s + 1;
        assert(-n < s * m) by (nonlinear_arith)
            requires
                -n == s * ((-n) / s) + (-n) % s,
                (-n) % s < s,
                m == (-n) / s + 1,
        ;
        let n2 = n + m * s;
        assert(n2 >= 0) by (nonlinear_arith)
            requires
                -n < s * m,
                n2 == n + m * s,
        ;
        vstd::arithmetic::div_mod::lemma_div_multiples_vanish_quotient(k, n2, s);
        vstd::arithmetic::div_mod::lemma_hoist_over_denominator(n, m, s as nat);
        assert(m * (s as nat) == m * s) by (nonlinear_arith)
            requires
                0 < s,
        ;
        assert(n2 / s == n / s + m);
        vstd::arithmetic::div_mod::lemma_hoist_over_denominator(k * n, m, ks as nat);
        assert(k * n2 == k * n + m * (ks as nat) && k * n2 == k * n + m * ks)
            by (nonlinear_arith)
            requires
                n2 == n + m * s,
                ks == k * s,
                0 < ks,
        ;
        assert((k * n) / ks + m == (k * n2) / ks);
    }
}

/// True when `r` is the floor of the square root of `n`.
pub open spec fn is_sqrt_floor(n: int, r: int) -> bool {
    0 <= r && r * r <= n && n < (r + 1) * (r + 1)
}

/// The floor of the square root of `n` (meaningful for `n >= 0`).
pub open spec fn sqrt_floor(n: int) -> int {
    choose|r: int| is_sqrt_floor(n, r)
}

/// The floor of a square root is unique, so any witness determines
/// `sqrt_floor`.
pub proof fn lemma_sqrt_floor_unique(n: int, r: int)
    requires
        is_sqrt_floor(n, r),
    ensures
        sqrt_floor(n) == r,
{
    let c = choose|r2: int| is_sqrt_floor(n, r2);
    assert(is_sqrt_floor(n, c));
    if c < r {
        assert((c + 1) * (c + 1) <= r * r) by (nonlinear_arith)
            requires
                0 <= c < r,
        ;
        assert(false);
    } else if r < c {
        assert((r + 1) * (r + 1) <= c * c) by (nonlinear_arith)
            requires
                0 <= r < c,
        ;
        assert(false);
    }
}

/// The floor of the square root of `n`, by binary search.
pub fn isqrt(n: u64) -> (r: u64)
    requires
        n <= 0x8000_0000_0000_0000,
    ensures
        is_sqrt_floor(n as int, r as int),
        r as int == sqrt_floor(n as int),
{
    let mut lo: u64 = 0;
    let mut hi: u64 = 3037000500;
    proof {
        assert((3037000500int) * (3037000500int) > 0x8000_0000_0000_0000);
    }
    while lo + 1 < hi
        invariant
            lo < hi <= 3037000500,
            (lo as int) * (lo as int) <= n as int,
            (n as int) < (hi as int) * (hi as int),
        decreases hi - lo,
    {
        let mid: u64 = lo + (hi - lo) / 2;
        proof {
            assert((mid as int) * (mid as int) <= (3037000500int) * (3037000500int))
                by (nonlinear_arith)
                requires
                    0 <= mid as int <= 3037000500int,
            ;
            assert((3037000500int) * (3037000500int) <= u64::MAX);
        }
        if mid * mid <= n {
            lo = mid;
        } else {
            hi = mid;
        }
    }
    proof {
        lemma_sqrt_floor_unique(n as int, lo as int);
    }
    lo
}

} // verus!
