//! Exact integer helpers shared by the numeric and thermodynamic modules:
//! an integer power spec function, floor division on `i128`, and small
//! multiplication-bound lemmas used in overflow proofs.

use vstd::prelude::*;

verus! {

use vstd::arithmetic::div_mod::lemma_fundamental_div_mod;
use vstd::arithmetic::div_mod::lemma_fundamental_div_mod_converse;

/// `b` raised to the `m`-th power, as an unbounded integer.
pub open spec fn pow_int(b: int, m: nat) -> int
    decreases m,
{
    if m == 0 {
        1
    } else {
        b * pow_int(b, (m - 1) as nat)
    }
}

/// A power of a positive base is positive.
pub proof fn lemma_pow_int_pos(b: int, m: nat)
    requires
        b >= 1,
    ensures
        pow_int(b, m) >= 1,
    decreases m,
{
    if m > 0 {
        lemma_pow_int_pos(b, (m - 1) as nat);
        let p: int = pow_int(b, (m - 1) as nat);
        assert(b * p >= 1) by (nonlinear_arith)
            requires
                b >= 1,
                p >= 1,
        ;
    }
}

/// A power of a base at least one grows with the exponent.
pub proof fn lemma_pow_int_increases(b: int, m1: nat, m2: nat)
    requires
        b >= 1,
        m1 <= m2,
    ensures
        pow_int(b, m1) <= pow_int(b, m2),
    decreases m2,
{
    if m1 < m2 {
        lemma_pow_int_increases(b, m1, (m2 - 1) as nat);
        lemma_pow_int_pos(b, (m2 - 1) as nat);
        let p: int = pow_int(b, (m2 - 1) as nat);
        assert(p <= b * p) by (nonlinear_arith)
            requires
                b >= 1,
                p >= 1,
        ;
    }
}

/// Bounds on a product from bounds on its factors.
pub proof fn lemma_mul_abs_le(x: int, y: int, bx: int, by: int)
    by (nonlinear_arith)
    requires
        -bx <= x <= bx,
        -by <= y <= by,
        0 <= bx,
        0 <= by,
    ensures
        -(bx * by) <= x * y <= bx * by,
{
}

/// A product of positive integers is positive.
pub proof fn lemma_mul_pos(x: int, y: int)
    by (nonlinear_arith)
    requires
        x > 0,
        y > 0,
    ensures
        x * y > 0,
{
}

/// Floor division of `a` by a positive divisor `d`; agrees with the
/// mathematical (Euclidean) quotient `a / d` on unbounded integers.
pub fn floor_div(a: i128, d: i128) -> (q: i128)
    requires
        d > 0,
        a > i128::MIN,
    ensures
        q == a as int / d as int,
{
    let ud: u128 = d as u128;
    if a >= 0 {
        let ua: u128 = a as u128;
        let uq: u128 = ua / ud;
        proof {
            assert(uq <= ua) by {
                vstd::arithmetic::div_mod::lemma_div_nonincreasing(ua as int, ud as int);
            }
        }
        uq as i128
    } else {
        let m: u128 = (-a) as u128;
        let mq: u128 = m / ud;
        let mr: u128 = m % ud;
        proof {
            lemma_fundamental_div_mod(m as int, ud as int);
            assert(mq <= m) by {
                vstd::arithmetic::div_mod::lemma_div_nonincreasing(m as int, ud as int);
            }
        }
        if mr == 0 {
            let q: i128 = -(mq as i128);
            proof {
                assert(a as int == q as int * d as int + 0) by (nonlinear_arith)
                    requires
                        a as int == -(m as int),
                        m as int == ud as int * mq as int,
                        q as int == -(mq as int),
                        d as int == ud as int,
                ;
                lemma_fundamental_div_mod_converse(a as int, d as int, q as int, 0);
            }
            q
        } else {
            let q: i128 = -(mq as i128) - 1;
            proof {
                let r: int = d as int - mr as int;
                assert(a as int == q as int * d as int + r) by (nonlinear_arith)
                    requires
                        a as int == -(m as int),
                        m as int == ud as int * mq as int + mr as int,
                        q as int == -(mq as int) - 1,
                        d as int == ud as int,
                        r == d as int - mr as int,
                ;
                lemma_fundamental_div_mod_converse(a as int, d as int, q as int, r);
            }
            q
        }
    }
}

} // verus!
