//! Exact rational scalars for the camera.
//!
//! Screen positions, pan deltas, zoom levels and zoom factors are carried as
//! fractions of machine integers, so every coordinate transform is computed
//! exactly and its result is pinned down field by field in the contracts.
//! Callers state the magnitude bounds that make each product fit in an
//! `i128`; nothing here rounds.

use vstd::prelude::*;
use vstd::arithmetic::div_mod::lemma_fundamental_div_mod;
use vstd::arithmetic::div_mod::lemma_fundamental_div_mod_converse;
use vstd::arithmetic::div_mod::lemma_mod_division_less_than_divisor;

verus! {

/// An exact rational `num / den`. Well-formed values keep `den >= 1`.
#[derive(Clone, Copy, PartialEq, Eq, Structural)]
pub struct Frac {
    pub num: i128,
    pub den: i128,
}

/// The denominator is positive.
pub open spec fn frac_wf(f: Frac) -> bool {
    f.den >= 1
}

/// `x` lies strictly inside the `i128` range, leaving the minimum out so
/// negation is always safe.
pub open spec fn in_i128(x: int) -> bool {
    -(i128::MAX as int) <= x <= i128::MAX as int
}

/// Exact sum: `a/b + c/d == (ad + cb) / bd`.
pub fn rat_add(a: Frac, b: Frac) -> (r: Frac)
    requires
        frac_wf(a),
        frac_wf(b),
        in_i128(a.num * b.den),
        in_i128(b.num * a.den),
        in_i128(a.num * b.den + b.num * a.den),
        in_i128(a.den * b.den),
    ensures
        r.num == a.num * b.den + b.num * a.den,
        r.den == a.den * b.den,
        frac_wf(r),
{
    proof {
        assert(a.den * b.den >= 1) by (nonlinear_arith)
            requires
                a.den >= 1,
                b.den >= 1,
        ;
    }
    Frac { num: a.num * b.den + b.num * a.den, den: a.den * b.den }
}

/// Exact difference: `a/b - c/d == (ad - cb) / bd`.
pub fn rat_sub(a: Frac, b: Frac) -> (r: Frac)
    requires
        frac_wf(a),
        frac_wf(b),
        in_i128(a.num * b.den),
        in_i128(b.num * a.den),
        in_i128(a.num * b.den - b.num * a.den),
        in_i128(a.den * b.den),
    ensures
        r.num == a.num * b.den - b.num * a.den,
        r.den == a.den * b.den,
        frac_wf(r),
{
    proof {
        assert(a.den * b.den >= 1) by (nonlinear_arith)
            requires
                a.den >= 1,
                b.den >= 1,
        ;
    }
    Frac { num: a.num * b.den - b.num * a.den, den: a.den * b.den }
}

/// Exact product.
pub fn rat_mul(a: Frac, b: Frac) -> (r: Frac)
    requires
        frac_wf(a),
        frac_wf(b),
        in_i128(a.num * b.num),
        in_i128(a.den * b.den),
    ensures
        r.num == a.num * b.num,
        r.den == a.den * b.den,
        frac_wf(r),
{
    proof {
        assert(a.den * b.den >= 1) by (nonlinear_arith)
            requires
                a.den >= 1,
                b.den >= 1,
        ;
    }
    Frac { num: a.num * b.num, den: a.den * b.den }
}

/// Exact quotient by a positive fraction.
pub fn rat_div_pos(a: Frac, b: Frac) -> (r: Frac)
    requires
        frac_wf(a),
        frac_wf(b),
        b.num >= 1,
        in_i128(a.num * b.den),
        in_i128(a.den * b.num),
    ensures
        r.num == a.num * b.den,
        r.den == a.den * b.num,
        frac_wf(r),
{
    proof {
        assert(a.den * b.num >= 1) by (nonlinear_arith)
            requires
                a.den >= 1,
                b.num >= 1,
        ;
    }
    Frac { num: a.num * b.den, den: a.den * b.num }
}

/// A product of values bounded in magnitude is bounded by the product of the
/// bounds.
pub proof fn lemma_mul_bound(a: int, b: int, ab: int, bb: int)
    by (nonlinear_arith)
    requires
        -ab <= a <= ab,
        -bb <= b <= bb,
        0 <= ab,
        0 <= bb,
    ensures
        -(ab * bb) <= a * b <= ab * bb,
{
}

/// A product of positive integers is positive.
pub proof fn lemma_mul_pos(a: int, b: int)
    by (nonlinear_arith)
    requires
        a >= 1,
        b >= 1,
    ensures
        a * b >= 1,
{
}

/// Euclid's algorithm. Only positivity is promised of the result; that it
/// divides both arguments is checked at run time where it is used.
fn gcd_u128(a: u128, b: u128) -> (g: u128)
    requires
        a >= 1,
    ensures
        g >= 1,
    decreases b,
{
    if b == 0 {
        a
    } else {
        gcd_u128(b, a % b)
    }
}

/// An equal-valued fraction with parts no larger than the given one's:
/// both parts divided by their greatest common divisor. Lets a caller that
/// chains exact operations bring the parts back within magnitude bounds.
pub fn rat_reduce(f: Frac) -> (r: Frac)
    requires
        frac_wf(f),
        in_i128(f.num as int),
    ensures
        frac_wf(r),
        r.num * f.den == f.num * r.den,
        1 <= r.den <= f.den,
        f.num >= 0 ==> 0 <= r.num <= f.num,
        f.num < 0 ==> f.num <= r.num <= 0,
{
    if f.num == 0 {
        let r0 = Frac { num: 0, den: 1 };
        proof {
            assert(r0.num * f.den == f.num * r0.den) by (nonlinear_arith)
                requires
                    f.num == 0,
                    r0.num == 0,
                    r0.den == 1,
            ;
        }
        return r0;
    }
    let mag: u128 = if f.num > 0 {
        f.num as u128
    } else {
        (-f.num) as u128
    };
    let g: u128 = gcd_u128(f.den as u128, mag);
    let num_q: u128 = mag / g;
    let den_q: u128 = (f.den as u128) / g;
    proof {
        lemma_mod_division_less_than_divisor(mag as int, g as int);
        lemma_fundamental_div_mod(mag as int, g as int);
        lemma_mod_division_less_than_divisor(f.den as int, g as int);
        lemma_fundamental_div_mod(f.den as int, g as int);
        assert(num_q * g == g * num_q) by (nonlinear_arith);
        assert(den_q * g == g * den_q) by (nonlinear_arith);
        assert(num_q <= mag) by (nonlinear_arith)
            requires
                (g as int) * (num_q as int) <= mag as int,
                g >= 1,
        ;
        assert(den_q <= f.den as u128) by (nonlinear_arith)
            requires
                (g as int) * (den_q as int) <= f.den as int,
                g >= 1,
        ;
    }
    if num_q * g == mag && den_q * g == (f.den as u128) && den_q >= 1 {
        proof {
            let nq = num_q as int;
            let dq = den_q as int;
            let gi = g as int;
            let mi = mag as int;
            assert(nq * (dq * gi) == (nq * gi) * dq) by (nonlinear_arith);
            assert((-nq) * (dq * gi) == -((nq * gi) * dq)) by (nonlinear_arith);
            assert((-mi) * dq == -(mi * dq)) by (nonlinear_arith);
        }
        let new_num: i128 = if f.num > 0 {
            num_q as i128
        } else {
            -(num_q as i128)
        };
        Frac { num: new_num, den: den_q as i128 }
    } else {
        f
    }
}

/// The greatest integer at most `n / d` (floor, for a positive divisor).
pub fn floor_div_i128(n: i128, d: i128) -> (q: i128)
    requires
        d >= 1,
        in_i128(n as int),
    ensures
        q == n as int / d as int,
{
    if n >= 0 {
        let qu: u128 = (n as u128) / (d as u128);
        proof {
            lemma_fundamental_div_mod(n as int, d as int);
            assert(qu as int == n as int / d as int);
            assert(d as int * (n as int / d as int) <= n as int);
            assert(n as int / d as int <= n as int) by (nonlinear_arith)
                requires
                    d as int >= 1,
                    n as int >= 0,
                    d as int * (n as int / d as int) <= n as int,
            ;
        }
        qu as i128
    } else {
        let m: u128 = (-n) as u128;
        let t: u128 = (m + (d as u128) - 1) / (d as u128);
        proof {
            let mi = m as int;
            let di = d as int;
            let ti = t as int;
            lemma_mod_division_less_than_divisor(mi + di - 1, di);
            lemma_fundamental_div_mod(mi + di - 1, di);
            let r1 = (mi + di - 1) % di;
            assert(ti == (mi + di - 1) / di);
            // -m == (-t) * d + (d - 1 - r1), with the remainder in [0, d)
            assert((-ti) * di == -(di * ti)) by (nonlinear_arith);
            assert(-mi == (-ti) * di + (di - 1 - r1));
            lemma_fundamental_div_mod_converse(-mi, di, -ti, di - 1 - r1);
            // t is no larger than m, so the negation stays in range
            assert(ti <= mi) by (nonlinear_arith)
                requires
                    mi >= 1,
                    di >= 1,
                    di * ti <= mi + di - 1,
            ;
        }
        -(t as i128)
    }
}

/// The least integer at least `n / d` (ceiling, for a positive divisor),
/// computed as `floor((n + d - 1) / d)`.
pub fn ceil_div_i128(n: i128, d: i128) -> (q: i128)
    requires
        d >= 1,
        in_i128(n as int),
        in_i128(n + d),
    ensures
        q == (n + d - 1) as int / d as int,
{
    floor_div_i128(n + d - 1, d)
}

} // verus!
