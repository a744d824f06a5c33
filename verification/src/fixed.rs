//! Integer arithmetic for quantities kept in fixed point.
//!
//! The estimator and the detector work on integers. Every quantity is
//! counted in thousandths of its unit: lengths in millimetres, times in
//! milliseconds, speeds in millimetres per second, accelerations in
//! millimetres per second squared, and variances, noise figures and
//! weights in thousandths as well. The product of two such quantities is
//! therefore divided by a thousand. Quotients round down, and a result
//! that leaves the range of its type stays at the nearest end of it.

use vstd::arithmetic::div_mod::lemma_fundamental_div_mod;
use vstd::arithmetic::div_mod::lemma_fundamental_div_mod_converse;
use vstd::arithmetic::div_mod::lemma_mod_bound;
use vstd::prelude::*;

verus! {

/// Milliseconds in a second.
pub const MILLIS: u64 = 1000;

/// `x` if it is a 64-bit signed value, else the nearest such value.
pub open spec fn clamp_i64(x: int) -> i64 {
    if x < i64::MIN {
        i64::MIN
    } else if x > i64::MAX {
        i64::MAX
    } else {
        x as i64
    }
}

/// `x` if it is a 64-bit unsigned value, else the nearest such value.
pub open spec fn clamp_u64(x: int) -> u64 {
    if x < 0 {
        0
    } else if x > u64::MAX {
        u64::MAX
    } else {
        x as u64
    }
}

/// `r` is the square root of `x`, rounded down.
pub open spec fn is_sqrt(x: int, r: int) -> bool {
    0 <= r && r * r <= x < (r + 1) * (r + 1)
}

/// Brings a wide value into the 64-bit signed range.
pub fn saturate_i64(x: i128) -> (r: i64)
    ensures
        r == clamp_i64(x as int),
{
    if x < i64::MIN as i128 {
        i64::MIN
    } else if x > i64::MAX as i128 {
        i64::MAX
    } else {
        x as i64
    }
}

/// Brings a wide value into the 64-bit unsigned range.
pub fn saturate_u64(x: u128) -> (r: u64)
    ensures
        r == clamp_u64(x as int),
{
    if x > u64::MAX as u128 {
        u64::MAX
    } else {
        x as u64
    }
}

/// Quotient of `n` by a positive `d`, rounded down.
pub fn floor_div(n: i128, d: i128) -> (q: i128)
    requires
        d > 0,
    ensures
        q == n as int / d as int,
{
    if n >= 0 {
        n / d
    } else {
        let t: i128 = n / d;
        let r: i128 = n % d;
        proof {
            let m = -(n as int);
            let dd = d as int;
            lemma_fundamental_div_mod(m, dd);
            lemma_mod_bound(m, dd);
            let qm = m / dd;
            let rm = m % dd;
            assert(t == -qm);
            assert(r == -rm);
            if rm == 0 {
                assert((-qm) * dd == -(dd * qm)) by (nonlinear_arith);
                lemma_fundamental_div_mod_converse(n as int, dd, -qm, 0);
            } else {
                assert((-qm - 1) * dd + (dd - rm) == -(dd * qm) - rm) by (nonlinear_arith);
                lemma_fundamental_div_mod_converse(n as int, dd, -qm - 1, dd - rm);
                assert(-qm - 1 >= i128::MIN) by (nonlinear_arith)
                    requires
                        n == (-qm - 1) * dd + (dd - rm),
                        0 < rm < dd,
                        n >= i128::MIN,
                ;
            }
        }
        if r != 0 {
            t - 1
        } else {
            t
        }
    }
}

/// `q` is `d * num / den` rounded down.
proof fn lemma_scaled_quotient(d: int, num: int, den: int, q: int, r: int)
    by (nonlinear_arith)
    requires
        den > 0,
        0 <= r < den,
        d * num == q * den + r,
    ensures
        (d * num) / den == q,
{
    lemma_fundamental_div_mod_converse(d * num, den, q, r);
}

/// `d * num / den` rounded down, for a factor `num / den` of at most one
/// and a `d` of at most 64 bits and a sign. The result is no further from
/// zero than `d` is.
pub fn scale(d: i128, num: u64, den: u128) -> (q: i128)
    requires
        -0x1_0000_0000_0000_0000 < d < 0x1_0000_0000_0000_0000,
        0 < den,
        num <= den,
    ensures
        q == (d * num) / (den as int),
        d >= 0 ==> 0 <= q <= d,
        d < 0 ==> d <= q <= 0,
{
    if d >= 0 {
        let m: u128 = d as u128;
        assert(m * num <= 0xffff_ffff_ffff_ffff * 0xffff_ffff_ffff_ffff) by (nonlinear_arith)
            requires
                0 <= m <= 0xffff_ffff_ffff_ffff,
                0 <= num <= 0xffff_ffff_ffff_ffff,
        ;
        let p: u128 = m * (num as u128);
        let q: u128 = p / den;
        proof {
            lemma_fundamental_div_mod(p as int, den as int);
            lemma_mod_bound(p as int, den as int);
            assert(q <= m) by (nonlinear_arith)
                requires
                    p == m * num,
                    p == den * q + p % den,
                    0 <= p % den,
                    0 <= num <= den,
                    0 < den,
                    0 <= m,
                    0 <= q,
            ;
        }
        q as i128
    } else {
        let m: u128 = (-d) as u128;
        assert(m * num <= 0xffff_ffff_ffff_ffff * 0xffff_ffff_ffff_ffff) by (nonlinear_arith)
            requires
                0 <= m <= 0xffff_ffff_ffff_ffff,
                0 <= num <= 0xffff_ffff_ffff_ffff,
        ;
        let p: u128 = m * (num as u128);
        let t: u128 = p / den;
        let r: u128 = p % den;
        proof {
            lemma_fundamental_div_mod(p as int, den as int);
            lemma_mod_bound(p as int, den as int);
            assert(t <= m && (r != 0 ==> t < m)) by (nonlinear_arith)
                requires
                    p == m * num,
                    p == den * t + r,
                    0 <= r < den,
                    0 <= num <= den,
                    0 <= m,
                    0 <= t,
            ;
            if r == 0 {
                assert(d * num == (-t) * den + 0) by (nonlinear_arith)
                    requires
                        d == -m,
                        m * num == den * t,
                ;
                lemma_scaled_quotient(d as int, num as int, den as int, -(t as int), 0);
            } else {
                assert(d * num == (-t - 1) * den + (den - r)) by (nonlinear_arith)
                    requires
                        d == -m,
                        m * num == den * t + r,
                ;
                lemma_scaled_quotient(d as int, num as int, den as int, -(t as int) - 1, den - r);
            }
        }
        if r != 0 {
            -((t + 1) as i128)
        } else {
            -(t as i128)
        }
    }
}

/// Square root of `x`, rounded down.
pub fn isqrt(x: u64) -> (r: u32)
    ensures
        is_sqrt(x as int, r as int),
{
    let mut lo: u64 = 0;
    let mut hi: u64 = 0x1_0000_0000;
    assert(0x1_0000_0000int * 0x1_0000_0000int > x) by (nonlinear_arith)
        requires
            x <= u64::MAX,
    ;
    while hi - lo > 1
        invariant
            lo < hi <= 0x1_0000_0000,
            lo * lo <= x < hi * hi,
        decreases hi - lo,
    {
        let mid: u64 = lo + (hi - lo) / 2;
        assert(mid * mid <= 0xffff_ffff * 0xffff_ffff) by (nonlinear_arith)
            requires
                0 <= mid <= 0xffff_ffff,
        ;
        if mid * mid <= x {
            lo = mid;
        } else {
            hi = mid;
        }
    }
    lo as u32
}

/// A number has one square root rounded down.
pub proof fn lemma_sqrt_unique(x: int, r: int, s: int)
    by (nonlinear_arith)
    requires
        is_sqrt(x, r),
        is_sqrt(x, s),
    ensures
        r == s,
{
}

} // verus!
