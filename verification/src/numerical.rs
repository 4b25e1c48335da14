//! Pure numeric routines: an exact integer-power helper and an evenly
//! spaced sample generator.  Both state their results as exact rationals.

use vstd::prelude::*;

verus! {

use crate::intmath::lemma_mul_abs_le;
use crate::intmath::lemma_pow_int_pos;
use crate::intmath::pow_int;
use crate::rational::Rat;
use crate::rational::pair_eqv;

/// `p` raised to a nonnegative power, componentwise on the
/// `(numerator, denominator)` pair: `(p.0^m, p.1^m)`.
pub open spec fn rat_pow(p: (int, int), m: nat) -> (int, int)
    decreases m,
{
    if m == 0 {
        (1, 1)
    } else {
        let q = rat_pow(p, (m - 1) as nat);
        (p.0 * q.0, p.1 * q.1)
    }
}

/// `p` raised to any integer power: a negative exponent raises the
/// reciprocal pair to the corresponding positive power.
pub open spec fn rat_pow_int(p: (int, int), e: int) -> (int, int) {
    if e >= 0 {
        rat_pow(p, e as nat)
    } else {
        rat_pow((p.1, p.0), (-e) as nat)
    }
}

/// Componentwise bounds on `rat_pow` from bounds on the base.
proof fn lemma_rat_pow_bounds(p: (int, int), m: nat, b: int)
    requires
        b >= 1,
        -b <= p.0 <= b,
        1 <= p.1 <= b,
    ensures
        -pow_int(b, m) <= rat_pow(p, m).0 <= pow_int(b, m),
        1 <= rat_pow(p, m).1 <= pow_int(b, m),
    decreases m,
{
    if m == 0 {
    } else {
        lemma_rat_pow_bounds(p, (m - 1) as nat, b);
        lemma_pow_int_pos(b, (m - 1) as nat);
        let q = rat_pow(p, (m - 1) as nat);
        let w: int = pow_int(b, (m - 1) as nat);
        lemma_mul_abs_le(p.0, q.0, b, w);
        assert(p.1 * q.1 >= 1 && p.1 * q.1 <= b * w) by (nonlinear_arith)
            requires
                1 <= p.1 <= b,
                1 <= q.1 <= w,
        ;
    }
}

/// Cross-multiplication equality is preserved by `rat_pow`.
proof fn lemma_rat_pow_eqv(p: (int, int), q: (int, int), m: nat)
    requires
        pair_eqv(p, q),
    ensures
        pair_eqv(rat_pow(p, m), rat_pow(q, m)),
    decreases m,
{
    if m > 0 {
        lemma_rat_pow_eqv(p, q, (m - 1) as nat);
        let pp = rat_pow(p, (m - 1) as nat);
        let qq = rat_pow(q, (m - 1) as nat);
        assert((p.0 * pp.0) * (q.1 * qq.1) == (q.0 * qq.0) * (p.1 * pp.1)) by (nonlinear_arith)
            requires
                p.0 * q.1 == q.0 * p.1,
                pp.0 * qq.1 == qq.0 * pp.1,
        ;
    }
}

/// `base` multiplied into an accumulator `m` times, exactly; `None` when a
/// product leaves `i128`.  Success is owed for a small base and `m <= 4`.
fn repeated_mul(base: Rat, m: u32) -> (r: Option<Rat>)
    requires
        base.wf(),
    ensures
        r matches Some(p) ==> p.wf() && p.num == rat_pow(base.pair(), m as nat).0 && p.den
            == rat_pow(base.pair(), m as nat).1,
        base.small() && m <= 4 ==> r is Some,
{
    let mut acc: Rat = Rat::from_int(1);
    let mut i: u32 = 0;
    while i < m
        invariant
            base.wf(),
            acc.wf(),
            i <= m,
            acc.num == rat_pow(base.pair(), i as nat).0,
            acc.den == rat_pow(base.pair(), i as nat).1,
        decreases m - i,
    {
        proof {
            if base.small() && m <= 4 {
                lemma_rat_pow_bounds(base.pair(), i as nat, 1000000000);
                lemma_pow_int_pos(1000000000, i as nat);
                assert(pow_int(1000000000, i as nat) <= pow_int(1000000000, 3)) by {
                    crate::intmath::lemma_pow_int_increases(1000000000, i as nat, 3);
                }
                reveal_with_fuel(pow_int, 4);
                let w: int = pow_int(1000000000, i as nat);
                lemma_mul_abs_le(acc.num as int, base.num as int, w, 1000000000);
                lemma_mul_abs_le(acc.den as int, base.den as int, w, 1000000000);
            }
        }
        match acc.checked_mul(base) {
            Some(next) => {
                proof {
                    let bp: (int, int) = base.pair();
                    let q0: int = rat_pow(bp, i as nat).0;
                    let q1: int = rat_pow(bp, i as nat).1;
                    assert(((i + 1) as nat - 1) as nat == i as nat);
                    assert(rat_pow(bp, (i + 1) as nat) == (bp.0 * q0, bp.1 * q1));
                    assert(next.num == q0 * bp.0 && next.den == q1 * bp.1);
                    assert(q0 * bp.0 == bp.0 * q0) by (nonlinear_arith);
                    assert(q1 * bp.1 == bp.1 * q1) by (nonlinear_arith);
                }
                acc = next;
            },
            None => {
                return None;
            },
        }
        i = i + 1;
    }
    Some(acc)
}

/// Integer power of an exact rational.
///
/// The result, when present, denotes exactly `base^exponent`.  Raising zero
/// to a negative power has no value and yields `None`, never a fabricated
/// number.  For a small base and an exponent between -4 and 4 (the range the
/// thermodynamic evaluation uses), success is owed.
pub fn pow(base: Rat, exponent: i32) -> (r: Option<Rat>)
    requires
        base.wf(),
    ensures
        r matches Some(p) ==> p.wf() && pair_eqv(
            p.pair(),
            rat_pow_int(base.pair(), exponent as int),
        ),
        base.num == 0 && exponent < 0 ==> r is None,
        base.small() && -4 <= exponent <= 4 && !(base.num == 0 && exponent < 0) ==> r is Some,
{
    if exponent >= 0 {
        let m: u32 = exponent as u32;
        let r: Option<Rat> = repeated_mul(base, m);
        r
    } else if base.num == 0 {
        None
    } else if base.num == i128::MIN {
        None
    } else {
        let flipped: Rat = if base.num < 0 {
            Rat { num: -base.den, den: -base.num }
        } else {
            Rat { num: base.den, den: base.num }
        };
        let m: u32 = (-(exponent as i64)) as u32;
        let r: Option<Rat> = repeated_mul(flipped, m);
        proof {
            let recip: (int, int) = (base.pair().1, base.pair().0);
            let bn: int = base.num as int;
            let bd: int = base.den as int;
            if base.num < 0 {
                assert(flipped.num == -bd && flipped.den == -bn);
                assert((-bd) * bn == bd * (-bn)) by (nonlinear_arith);
            }
            assert(pair_eqv(flipped.pair(), recip));
            lemma_rat_pow_eqv(flipped.pair(), recip, m as nat);
            if r is Some {
                let p = r->Some_0;
                assert(p.pair() == rat_pow(flipped.pair(), m as nat));
            }
        }
        r
    }
}

/// The sample `i` of an evenly spaced grid from `s` to `e` with `n` points,
/// as a `(numerator, denominator)` pair:
/// `s + i * (e - s) / (n - 1)` over the common denominator
/// `s.1 * e.1 * (n - 1)`.
pub open spec fn linspace_pair(s: (int, int), e: (int, int), n: int, i: int) -> (int, int) {
    (s.0 * e.1 * (n - 1) + i * (e.0 * s.1 - s.0 * e.1), s.1 * e.1 * (n - 1))
}

/// `n` evenly spaced exact samples from `xstart` to `xend`, both endpoints
/// included.  Sample `i` is exactly `xstart + i * (xend - xstart) / (n - 1)`.
/// `n == 1` is degenerate (the step is undefined) and yields `[xstart]`;
/// `n == 0` yields an empty grid.
pub fn linspace(xstart: Rat, xend: Rat, n: usize) -> (r: Vec<Rat>)
    requires
        xstart.wf(),
        xend.wf(),
        xstart.small(),
        xend.small(),
        n <= 1000000,
    ensures
        r.len() == n,
        n == 1 ==> r[0] == xstart,
        forall|i: int|
            0 <= i < n && n >= 2 ==> (#[trigger] r[i]).wf() && pair_eqv(
                r[i].pair(),
                linspace_pair(xstart.pair(), xend.pair(), n as int, i),
            ),
        n >= 2 ==> pair_eqv(r[0].pair(), xstart.pair()) && pair_eqv(
            r[n - 1].pair(),
            xend.pair(),
        ),
{
    if n == 0 {
        let out: Vec<Rat> = Vec::new();
        return out;
    }
    if n == 1 {
        let mut out: Vec<Rat> = Vec::new();
        out.push(xstart);
        return out;
    }
    let steps: i128 = (n - 1) as i128;
    proof {
        lemma_mul_abs_le(xstart.den as int, xend.den as int, 1000000000, 1000000000);
        lemma_mul_abs_le(
            xstart.den as int * xend.den as int,
            steps as int,
            1000000000000000000,
            1000000,
        );
        crate::intmath::lemma_mul_pos(xstart.den as int, xend.den as int);
        crate::intmath::lemma_mul_pos(xstart.den as int * xend.den as int, steps as int);
        lemma_mul_abs_le(xstart.num as int, xend.den as int, 1000000000, 1000000000);
        lemma_mul_abs_le(
            xstart.num as int * xend.den as int,
            steps as int,
            1000000000000000000,
            1000000,
        );
        lemma_mul_abs_le(xend.num as int, xstart.den as int, 1000000000, 1000000000);
    }
    let den: i128 = xstart.den * xend.den * steps;
    let base_num: i128 = xstart.num * xend.den * steps;
    let step_num: i128 = xend.num * xstart.den - xstart.num * xend.den;
    let mut out: Vec<Rat> = Vec::new();
    let mut i: usize = 0;
    while i < n
        invariant
            2 <= n <= 1000000,
            i <= n,
            out.len() == i,
            steps == n - 1,
            den == xstart.den as int * xend.den as int * steps,
            base_num == xstart.num as int * xend.den as int * steps,
            step_num == xend.num as int * xstart.den as int - xstart.num as int * xend.den as int,
            0 < den <= 1000000000000000000000000,
            -1000000000000000000000000 <= base_num <= 1000000000000000000000000,
            -2000000000000000000 <= step_num <= 2000000000000000000,
            forall|j: int|
                0 <= j < i ==> (#[trigger] out[j]).wf() && out[j].num == base_num + j * step_num
                    && out[j].den == den,
        decreases n - i,
    {
        proof {
            lemma_mul_abs_le(i as int, step_num as int, 1000000, 2000000000000000000);
        }
        let num: i128 = base_num + (i as i128) * step_num;
        out.push(Rat { num, den });
        i = i + 1;
    }
    proof {
        assert forall|i: int| 0 <= i < n implies (#[trigger] out[i]).wf() && pair_eqv(
            out[i].pair(),
            linspace_pair(xstart.pair(), xend.pair(), n as int, i),
        ) by {
            let lp = linspace_pair(xstart.pair(), xend.pair(), n as int, i);
            assert(out[i].num == base_num + i * step_num);
            assert((base_num as int + i * step_num) * lp.1 == lp.0 * den as int)
                by (nonlinear_arith)
                requires
                    base_num as int == xstart.num as int * xend.den as int * (n as int - 1),
                    step_num as int == xend.num as int * xstart.den as int - xstart.num as int
                        * xend.den as int,
                    den as int == xstart.den as int * xend.den as int * (n as int - 1),
                    lp == linspace_pair(xstart.pair(), xend.pair(), n as int, i),
                    lp.0 == xstart.num as int * xend.den as int * (n as int - 1) + i * (
                    xend.num as int * xstart.den as int - xstart.num as int * xend.den as int),
                    lp.1 == xstart.den as int * xend.den as int * (n as int - 1),
            ;
        }
        let sp = xstart.pair();
        let ep = xend.pair();
        assert(out[0].num as int * sp.1 == sp.0 * den as int) by (nonlinear_arith)
            requires
                out[0].num as int == sp.0 * ep.1 * (n as int - 1),
                den as int == sp.1 * ep.1 * (n as int - 1),
        ;
        assert(out[n - 1].num as int * ep.1 == ep.0 * den as int) by (nonlinear_arith)
            requires
                out[n - 1].num as int == sp.0 * ep.1 * (n as int - 1) + (n as int - 1) * (ep.0
                    * sp.1 - sp.0 * ep.1),
                den as int == sp.1 * ep.1 * (n as int - 1),
        ;
    }
    out
}

} // verus!
