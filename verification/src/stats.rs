//! Mean and spread of a run of samples.
//!
//! Used three ways: to smooth barometric altitude over a rolling window,
//! to fix the baseline altitude from samples taken at rest, and to
//! characterise the noise of a sensor before flight.

use crate::fixed::floor_div;
use crate::fixed::is_sqrt;
use crate::fixed::isqrt;
use vstd::prelude::*;

verus! {

/// Sum of the samples.
pub open spec fn sum(s: Seq<i32>) -> int
    decreases s.len(),
{
    if s.len() == 0 {
        0
    } else {
        sum(s.drop_last()) + s.last()
    }
}

/// Mean of the samples, rounded down. Meaningful for a non-empty run.
pub open spec fn mean_of(s: Seq<i32>) -> int {
    sum(s) / (s.len() as int)
}

/// Sum of the squared distances of the samples from `m`.
pub open spec fn sum_sq_dev(s: Seq<i32>, m: int) -> int
    decreases s.len(),
{
    if s.len() == 0 {
        0
    } else {
        sum_sq_dev(s.drop_last(), m) + (m - s.last()) * (m - s.last())
    }
}

/// Mean squared distance of the samples from their mean, rounded down.
/// Meaningful for a non-empty run.
pub open spec fn variance_of(s: Seq<i32>) -> int {
    sum_sq_dev(s, mean_of(s)) / (s.len() as int)
}

/// The sum of `n` samples lies between `n` times the least and `n` times
/// the greatest value a sample can have.
pub proof fn lemma_sum_bounds(s: Seq<i32>)
    ensures
        s.len() * i32::MIN <= sum(s) <= s.len() * i32::MAX,
    decreases s.len(),
{
    if s.len() > 0 {
        lemma_sum_bounds(s.drop_last());
    }
}

/// The mean of a non-empty run is itself a possible sample.
pub proof fn lemma_mean_bounds(s: Seq<i32>)
    requires
        s.len() > 0,
    ensures
        i32::MIN <= mean_of(s) <= i32::MAX,
{
    lemma_sum_bounds(s);
    let n = s.len() as int;
    let t = sum(s);
    vstd::arithmetic::div_mod::lemma_fundamental_div_mod(t, n);
    vstd::arithmetic::div_mod::lemma_mod_bound(t, n);
    let q = t / n;
    assert(i32::MIN <= q <= i32::MAX) by (nonlinear_arith)
        requires
            n > 0,
            n * i32::MIN <= t <= n * i32::MAX,
            t == n * q + t % n,
            0 <= t % n < n,
    ;
}

/// The squared distances of `n` samples from a possible sample sum to at
/// most `n` times the square of the widest distance there is.
pub proof fn lemma_sum_sq_dev_bounds(s: Seq<i32>, m: int)
    requires
        i32::MIN <= m <= i32::MAX,
    ensures
        0 <= sum_sq_dev(s, m) <= s.len() * 0xffff_fffe_0000_0001,
    decreases s.len(),
{
    if s.len() > 0 {
        lemma_sum_sq_dev_bounds(s.drop_last(), m);
        let d = m - s.last();
        assert(0 <= d * d <= 0xffff_fffe_0000_0001) by (nonlinear_arith)
            requires
                -0xffff_ffff <= d <= 0xffff_ffff,
        ;
    }
}

/// Mean of the samples, rounded down; none for an empty run.
pub fn mean(vals: &Vec<i32>) -> (r: Option<i32>)
    ensures
        match r {
            None => vals@.len() == 0,
            Some(m) => vals@.len() > 0 && m == mean_of(vals@),
        },
{
    if vals.len() == 0 {
        return None;
    }
    let mut total: i128 = 0;
    let mut i: usize = 0;
    while i < vals.len()
        invariant
            i <= vals.len(),
            total == sum(vals@.subrange(0, i as int)),
        decreases vals.len() - i,
    {
        proof {
            lemma_sum_bounds(vals@.subrange(0, i as int));
            assert(vals@.subrange(0, i + 1).drop_last() == vals@.subrange(0, i as int));
        }
        total = total + vals[i] as i128;
        i += 1;
    }
    proof {
        assert(vals@.subrange(0, i as int) == vals@);
        lemma_mean_bounds(vals@);
    }
    let m = floor_div(total, vals.len() as i128);
    Some(m as i32)
}

/// Standard deviation of the samples about their mean, rounded down; none
/// for an empty run. This is the figure a sensor's noise is known by.
pub fn noise(vals: &Vec<i32>) -> (r: Option<u32>)
    ensures
        match r {
            None => vals@.len() == 0,
            Some(sd) => vals@.len() > 0 && is_sqrt(variance_of(vals@), sd as int),
        },
{
    let m: i64 = match mean(vals) {
        Some(m) => m as i64,
        None => {
            return None;
        },
    };
    let mut total: u128 = 0;
    let mut i: usize = 0;
    while i < vals.len()
        invariant
            i <= vals.len(),
            i32::MIN <= m <= i32::MAX,
            total == sum_sq_dev(vals@.subrange(0, i as int), m as int),
        decreases vals.len() - i,
    {
        proof {
            lemma_sum_sq_dev_bounds(vals@.subrange(0, i as int), m as int);
            assert(vals@.subrange(0, i + 1).drop_last() == vals@.subrange(0, i as int));
            assert(i * 0xffff_fffe_0000_0001 + 0xffff_fffe_0000_0001 <= u128::MAX)
                by (nonlinear_arith)
                requires
                    i < usize::MAX <= u64::MAX,
            ;
        }
        let d: i128 = m as i128 - vals[i] as i128;
        assert(0 <= d * d <= 0xffff_fffe_0000_0001) by (nonlinear_arith)
            requires
                -0xffff_ffff <= d <= 0xffff_ffff,
        ;
        total = total + (d * d) as u128;
        i += 1;
    }
    proof {
        assert(vals@.subrange(0, i as int) == vals@);
        lemma_sum_sq_dev_bounds(vals@, m as int);
        let n = vals@.len() as int;
        let t = sum_sq_dev(vals@, m as int);
        vstd::arithmetic::div_mod::lemma_fundamental_div_mod(t, n);
        vstd::arithmetic::div_mod::lemma_mod_bound(t, n);
        let q = t / n;
        assert(0 <= q <= 0xffff_fffe_0000_0001) by (nonlinear_arith)
            requires
                n > 0,
                0 <= t <= n * 0xffff_fffe_0000_0001,
                t == n * q + t % n,
                0 <= t % n < n,
        ;
    }
    let variance: u128 = total / (vals.len() as u128);
    Some(isqrt(variance as u64))
}

} // verus!
