//! A Gaussian belief about one scalar and the two ways it changes.

use crate::fixed::clamp_i64;
use crate::fixed::clamp_u64;
use crate::fixed::saturate_i64;
use crate::fixed::saturate_u64;
use crate::fixed::scale;
use vstd::arithmetic::div_mod::lemma_fundamental_div_mod;
use vstd::arithmetic::div_mod::lemma_fundamental_div_mod_converse;
use vstd::arithmetic::div_mod::lemma_mod_bound;
use vstd::prelude::*;

verus! {

/// An estimate of one quantity: its value and how uncertain it is. A
/// smaller variance means more confidence.
#[derive(Debug, Clone, Copy, PartialEq, Eq, Structural)]
pub struct Filter {
    pub val: i64,
    pub var: u64,
}

/// Value of the blend of a belief `(val, var)` with a measurement
/// `(mean, mvar)`: each weighted by the variance of the other. Two
/// beliefs without any uncertainty cannot be blended; the first stands.
pub open spec fn fused_val(val: int, var: int, mean: int, mvar: int) -> int {
    if var + mvar == 0 {
        val
    } else {
        (val * mvar + mean * var) / (var + mvar)
    }
}

/// Variance of the blend of two beliefs with variances `var` and `mvar`:
/// the inverse of the sum of their inverses.
pub open spec fn fused_var(var: int, mvar: int) -> int {
    if var + mvar == 0 {
        0
    } else {
        (var * mvar) / (var + mvar)
    }
}

impl Filter {
    /// The belief after a correction by the measurement `(mean, var)`.
    pub open spec fn fused(self, mean: int, var: int) -> Filter {
        Filter {
            val: fused_val(self.val as int, self.var as int, mean, var) as i64,
            var: fused_var(self.var as int, var) as u64,
        }
    }

    /// The belief after a prediction that moves the value by `mean` and
    /// adds `var` of uncertainty.
    pub open spec fn predicted(self, mean: int, var: int) -> Filter {
        Filter { val: clamp_i64(self.val + mean), var: clamp_u64(self.var + var) }
    }

    /// Corrects the belief by a measurement `mean` of variance `var`: the
    /// new value is the average of both weighted by precision, and the new
    /// variance is at most the smaller of the two.
    pub fn update(&mut self, mean: i64, var: u64)
        ensures
            *final(self) == old(self).fused(mean as int, var as int),
            final(self).val == fused_val(
                old(self).val as int,
                old(self).var as int,
                mean as int,
                var as int,
            ),
            final(self).var == fused_var(old(self).var as int, var as int),
            final(self).var <= old(self).var,
            final(self).var <= var,
    {
        proof {
            lemma_fusion_monotone(self.var as nat, var as nat);
        }
        let den: u128 = self.var as u128 + var as u128;
        if den == 0 {
            return;
        }
        let d: i128 = mean as i128 - self.val as i128;
        let step: i128 = scale(d, self.var, den);
        proof {
            let v = self.val as int;
            let s = den as int;
            let q = step as int;
            lemma_fundamental_div_mod(d * self.var, s);
            lemma_mod_bound(d * self.var, s);
            let r = (d * self.var) % s;
            assert(v * var + mean * self.var == (v + q) * s + r) by (nonlinear_arith)
                requires
                    d == mean - v,
                    s == self.var + var,
                    d * self.var == s * q + r,
            ;
            lemma_fundamental_div_mod_converse(v * var + mean * self.var, s, v + q, r);
        }
        let fused: i128 = self.val as i128 + step;

        assert(self.var * var <= 0xffff_ffff_ffff_ffff * 0xffff_ffff_ffff_ffff)
            by (nonlinear_arith)
            requires
                0 <= self.var <= 0xffff_ffff_ffff_ffff,
                0 <= var <= 0xffff_ffff_ffff_ffff,
        ;
        let prod: u128 = (self.var as u128) * (var as u128);
        let spread: u128 = prod / den;

        self.val = fused as i64;
        self.var = spread as u64;
    }

    /// Moves the belief by `mean` and adds `var` of uncertainty. A result
    /// beyond the range of its type stays at the end of the range.
    pub fn predict(&mut self, mean: i64, var: u64)
        ensures
            *final(self) == old(self).predicted(mean as int, var as int),
    {
        self.val = saturate_i64(self.val as i128 + mean as i128);
        self.var = saturate_u64(self.var as u128 + var as u128);
    }
}

/// A correction never loses confidence: the variance after blending two
/// beliefs is at most the smaller of their variances.
pub proof fn lemma_fusion_monotone(v1: nat, v2: nat)
    ensures
        0 <= fused_var(v1 as int, v2 as int) <= v1,
        fused_var(v1 as int, v2 as int) <= v2,
{
    let s = (v1 + v2) as int;
    if s != 0 {
        let p = (v1 * v2) as int;
        lemma_fundamental_div_mod(p, s);
        lemma_mod_bound(p, s);
        let q = p / s;
        assert(0 <= q <= v1 && q <= v2) by (nonlinear_arith)
            requires
                p == v1 * v2,
                s == v1 + v2,
                s > 0,
                p == s * q + p % s,
                0 <= p % s < s,
        ;
    }
}

/// A corrected value lies between the value before and the measurement.
pub proof fn lemma_fusion_between(val: int, var: nat, mean: int, mvar: nat)
    ensures
        val <= mean ==> val <= fused_val(val, var as int, mean, mvar as int) <= mean,
        mean <= val ==> mean <= fused_val(val, var as int, mean, mvar as int) <= val,
{
    let s = (var + mvar) as int;
    if s != 0 {
        let p = val * mvar + mean * var;
        lemma_fundamental_div_mod(p, s);
        lemma_mod_bound(p, s);
        let q = p / s;
        assert(val <= mean ==> val <= q <= mean) by (nonlinear_arith)
            requires
                p == val * mvar + mean * var,
                s == var + mvar,
                s > 0,
                p == s * q + p % s,
                0 <= p % s < s,
        ;
        assert(mean <= val ==> mean <= q <= val) by (nonlinear_arith)
            requires
                p == val * mvar + mean * var,
                s == var + mvar,
                s > 0,
                p == s * q + p % s,
                0 <= p % s < s,
        ;
    }
}

/// A measurement without uncertainty replaces an uncertain belief, and a
/// belief without uncertainty is deaf to an uncertain measurement.
pub proof fn lemma_fusion_certain(val: int, var: nat, mean: int, mvar: nat)
    ensures
        var > 0 && mvar == 0 ==> fused_val(val, var as int, mean, 0) == mean,
        var == 0 && mvar > 0 ==> fused_val(val, 0, mean, mvar as int) == val,
{
    if var > 0 && mvar == 0 {
        assert(val * 0 + mean * var == mean * var + 0) by (nonlinear_arith);
        lemma_fundamental_div_mod_converse(val * 0 + mean * var, var as int, mean, 0);
    }
    if var == 0 && mvar > 0 {
        assert(val * mvar + mean * 0 == val * mvar + 0) by (nonlinear_arith);
        lemma_fundamental_div_mod_converse(val * mvar + mean * 0, mvar as int, val, 0);
    }
}

} // verus!
