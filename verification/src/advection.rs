//! Configuration of the one-dimensional linear-advection demo: the grid,
//! step counts and step sizes each run uses, and the output file-name
//! template handling.  The demo's floating-point time stepping and its
//! plotting are collaborators outside this library; the decisions they
//! consume (how many steps, which step sizes, which file names) are exact
//! and verified here.

use vstd::prelude::*;

verus! {

use crate::rational::Rat;

/// `s` with every leftmost non-overlapping occurrence of `pat` replaced by
/// `rep`, scanning left to right; a pattern that does not fit (or is
/// empty) leaves the rest unchanged.
pub open spec fn replace_seq(s: Seq<char>, pat: Seq<char>, rep: Seq<char>) -> Seq<char>
    decreases s.len(),
{
    if pat.len() == 0 || s.len() < pat.len() {
        s
    } else if s.subrange(0, pat.len() as int) == pat {
        rep + replace_seq(s.skip(pat.len() as int), pat, rep)
    } else {
        seq![s[0]] + replace_seq(s.skip(1), pat, rep)
    }
}

/// The decimal digit character for `d < 10`.
pub open spec fn digit_char(d: nat) -> char {
    if d == 0 {
        '0'
    } else if d == 1 {
        '1'
    } else if d == 2 {
        '2'
    } else if d == 3 {
        '3'
    } else if d == 4 {
        '4'
    } else if d == 5 {
        '5'
    } else if d == 6 {
        '6'
    } else if d == 7 {
        '7'
    } else if d == 8 {
        '8'
    } else {
        '9'
    }
}

/// The decimal digits of `n`, most significant first.
pub open spec fn decimal_digits(n: nat) -> Seq<char>
    decreases n,
{
    if n < 10 {
        seq![digit_char(n)]
    } else {
        decimal_digits(n / 10) + seq![digit_char(n % 10)]
    }
}

/// Relies on `str::replace`: replaces the leftmost non-overlapping
/// occurrences of the (nonempty) pattern with the replacement, scanning
/// left to right.
#[verifier::external_body]
fn replace_all(s: &str, pat: &str, rep: &str) -> (r: String)
    requires
        pat@.len() > 0,
    ensures
        r@ == replace_seq(s@, pat@, rep@),
{
    s.replace(pat, rep)
}

/// Relies on the `Display` implementation for `usize`: it formats the
/// value as its decimal digits.
#[verifier::external_body]
fn decimal_string(n: usize) -> (r: String)
    ensures
        r@ == decimal_digits(n as nat),
{
    n.to_string()
}

/// Instantiate an output file-name template: `{name}` is replaced by the
/// state name and `{nx}` by the grid size, in that order.
pub fn make_filename(base: &str, nx: usize, name: &str) -> (r: String)
    ensures
        r@ == replace_seq(
            replace_seq(base@, "{name}"@, name@),
            "{nx}"@,
            decimal_digits(nx as nat),
        ),
{
    proof {
        reveal_strlit("{name}");
        reveal_strlit("{nx}");
    }
    let step1: String = replace_all(base, "{name}", name);
    let digits: String = decimal_string(nx);
    replace_all(step1.as_str(), "{nx}", digits.as_str())
}

/// Everything one advection run needs: grid size `nx`, step count `nt`,
/// wave speed `c`, domain length, time step `dt`, grid spacing `dx`, and
/// the output file-name template.  All numbers are exact rationals.
pub struct AdvectionConfig {
    pub nx: usize,
    pub nt: usize,
    pub c: Rat,
    pub length: Rat,
    pub dt: Rat,
    pub dx: Rat,
    pub base: String,
}

/// The configuration of the fixed-step run: a unit wave speed on a domain
/// of length 2, twenty steps of `dt = 1/40`, and `dx = 2 / (nx - 1)`.
pub fn linearconv_dummy(nx: usize) -> (cfg: AdvectionConfig)
    requires
        2 <= nx,
    ensures
        cfg.nx == nx,
        cfg.nt == 20,
        cfg.c.num == 1 && cfg.c.den == 1,
        cfg.length.num == 2 && cfg.length.den == 1,
        cfg.dt.num == 1 && cfg.dt.den == 40,
        cfg.dx.num == 2 && cfg.dx.den == nx - 1,
        cfg.base@ == "results/step_03_{name}_dummy_nx{nx}.png"@,
{
    AdvectionConfig {
        nx,
        nt: 20,
        c: Rat::from_int(1),
        length: Rat::from_int(2),
        dt: Rat::new(1, 40),
        dx: Rat::new(2, (nx - 1) as i128),
        base: "results/step_03_{name}_dummy_nx{nx}.png".to_owned(),
    }
}

/// The configuration of the CFL-stable run: with end time `1/2`, Courant
/// number `1/2` and `dx = 2 / (nx - 1)`, the step count
/// `floor(tend / (sigma * dx))` is exactly `(nx - 1) / 2`, and
/// `dt = tend / nt = 1 / (2 nt)`.
pub fn linearconv_cfl(nx: usize) -> (cfg: AdvectionConfig)
    requires
        3 <= nx,
    ensures
        cfg.nx == nx,
        cfg.nt == (nx - 1) as int / 2,
        1 <= cfg.nt,
        cfg.c.num == 1 && cfg.c.den == 1,
        cfg.length.num == 2 && cfg.length.den == 1,
        cfg.dt.num == 1 && cfg.dt.den == 2 * cfg.nt,
        cfg.dx.num == 2 && cfg.dx.den == nx - 1,
        cfg.base@ == "results/step_03_{name}_cfl_nx{nx}.png"@,
{
    let nt: usize = (nx - 1) / 2;
    AdvectionConfig {
        nx,
        nt,
        c: Rat::from_int(1),
        length: Rat::from_int(2),
        dt: Rat::new(1, 2 * (nt as i128)),
        dx: Rat::new(2, (nx - 1) as i128),
        base: "results/step_03_{name}_cfl_nx{nx}.png".to_owned(),
    }
}

} // verus!
