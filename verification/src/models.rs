//! The thermodynamic model: a piecewise NASA-7 polynomial table keyed by
//! temperature sub-ranges, with specific-heat and enthalpy evaluation at a
//! point temperature.
//!
//! Fixed-point conventions, chosen so that every evaluation is exact
//! integer arithmetic inside `i128`:
//! - temperatures are in deci-kelvin (`temp_dk == 10 * kelvin`);
//! - a polynomial coefficient `a` is stored as the integer `a * 10^22`;
//! - results are in micro-units (`10^-6` J/(mol K) for specific heat,
//!   `10^-6` J/mol for enthalpy), the floor of the exact rational value.
//!
//! The gas constant is fixed exactly at `R = 8.31446 = 831446 / 10^5`
//! J/(mol K).

use vstd::prelude::*;

verus! {

use crate::enums::ThermoModelKind;
use crate::intmath::floor_div;
use crate::intmath::lemma_mul_abs_le;
use vstd::arithmetic::div_mod::lemma_fundamental_div_mod;
use vstd::arithmetic::div_mod::lemma_fundamental_div_mod_converse;
use vstd::arithmetic::div_mod::lemma_mod_division_less_than_divisor;

/// Numerator of the exact gas constant: `R == 831446 / 10^5` J/(mol K).
pub const GAS_CONSTANT_NUM: i128 = 831446;

/// Temperature steps per kelvin: temperatures are deci-kelvin integers.
pub const TEMP_STEPS_PER_KELVIN: i64 = 10;

/// Largest representable model temperature, in deci-kelvin (6000 K).
pub const MAX_TEMP_DK: i64 = 60000;

/// Divisor turning `GAS_CONSTANT_NUM * cp_poly` into micro-J/(mol K):
/// `10^5 * 10^22 * 10^4 / 10^6 == 10^25`.
pub const CP_DIVISOR: i128 = 10_000_000_000_000_000_000_000_000;

/// Divisor turning `GAS_CONSTANT_NUM * h_poly` into micro-J/mol:
/// `10^5 * 60 * 10^22 * 10^5 / 10^6 == 6 * 10^27`.
pub const H_DIVISOR: i128 = 6_000_000_000_000_000_000_000_000_000;

/// Magnitude limit on the scaled `a0` coefficient (`|a0| <= 20`).  These
/// limits are generous for tabulated NASA-7 data while keeping every
/// intermediate product of the evaluation inside `i128`.
pub const A0_LIMIT: i128 = 200_000_000_000_000_000_000_000;

/// Magnitude limit on the scaled `a1` coefficient (`|a1| <= 0.1`).
pub const A1_LIMIT: i128 = 1_000_000_000_000_000_000_000;

/// Magnitude limit on the scaled `a2` coefficient (`|a2| <= 10^-3`).
pub const A2_LIMIT: i128 = 10_000_000_000_000_000_000;

/// Magnitude limit on the scaled `a3` coefficient (`|a3| <= 10^-6`).
pub const A3_LIMIT: i128 = 10_000_000_000_000_000;

/// Magnitude limit on the scaled `a4` coefficient (`|a4| <= 10^-10`).
pub const A4_LIMIT: i128 = 1_000_000_000_000;

/// Magnitude limit on the scaled `a5` coefficient (`|a5| <= 10^6`).
pub const A5_LIMIT: i128 = 10_000_000_000_000_000_000_000_000_000;

/// Magnitude limit on the scaled `a6` coefficient (`|a6| <= 10^6`).
pub const A6_LIMIT: i128 = 10_000_000_000_000_000_000_000_000_000;

/// The one error an evaluation can signal: the query temperature lies
/// outside the tabulated range.  No extrapolation is ever performed.
#[derive(Clone, Copy, Debug, PartialEq, Eq, Structural)]
pub enum ThermoError {
    OutOfRange,
}

/// One row of seven NASA-7 coefficients, each scaled by `10^22`.
#[derive(Clone, Copy, Debug, PartialEq, Eq, Structural)]
pub struct CoeffRow {
    pub a0: i128,
    pub a1: i128,
    pub a2: i128,
    pub a3: i128,
    pub a4: i128,
    pub a5: i128,
    pub a6: i128,
}

impl CoeffRow {
    /// Every coefficient within its magnitude limit.
    pub open spec fn wf(self) -> bool {
        &&& -A0_LIMIT <= self.a0 <= A0_LIMIT
        &&& -A1_LIMIT <= self.a1 <= A1_LIMIT
        &&& -A2_LIMIT <= self.a2 <= A2_LIMIT
        &&& -A3_LIMIT <= self.a3 <= A3_LIMIT
        &&& -A4_LIMIT <= self.a4 <= A4_LIMIT
        &&& -A5_LIMIT <= self.a5 <= A5_LIMIT
        &&& -A6_LIMIT <= self.a6 <= A6_LIMIT
    }

    /// A coefficient row, checked against the magnitude limits.
    pub fn new(a0: i128, a1: i128, a2: i128, a3: i128, a4: i128, a5: i128, a6: i128) -> (r:
        Option<CoeffRow>)
        ensures
            r matches Some(c) ==> c == (CoeffRow { a0, a1, a2, a3, a4, a5, a6 }) && c.wf(),
            r is None ==> !(CoeffRow { a0, a1, a2, a3, a4, a5, a6 }).wf(),
    {
        let c = CoeffRow { a0, a1, a2, a3, a4, a5, a6 };
        if c.in_limits() {
            Some(c)
        } else {
            None
        }
    }

    /// Executable check of `wf`.
    pub fn in_limits(&self) -> (b: bool)
        ensures
            b == self.wf(),
    {
        -A0_LIMIT <= self.a0 && self.a0 <= A0_LIMIT && -A1_LIMIT <= self.a1 && self.a1 <= A1_LIMIT
            && -A2_LIMIT <= self.a2 && self.a2 <= A2_LIMIT && -A3_LIMIT <= self.a3 && self.a3
            <= A3_LIMIT && -A4_LIMIT <= self.a4 && self.a4 <= A4_LIMIT && -A5_LIMIT <= self.a5
            && self.a5 <= A5_LIMIT && -A6_LIMIT <= self.a6 && self.a6 <= A6_LIMIT
    }
}

/// A scaled coefficient from scientific notation: the exact integer
/// `mantissa * 10^(22 + exp10)`, so that it denotes `mantissa * 10^exp10`
/// at the model's `10^22` coefficient scale.  `None` when the value is not
/// an integer at that scale or leaves `i128`; success is owed for a
/// mantissa of at most nine digits and `-22 <= exp10 <= 6`.
pub fn coeff_from_sci(mantissa: i64, exp10: i32) -> (r: Option<i128>)
    ensures
        r matches Some(c) ==> exp10 >= -22 && c as int == mantissa * crate::intmath::pow_int(
            10,
            (22 + exp10) as nat,
        ),
        -22 <= exp10 <= 6 && -1000000000 <= mantissa <= 1000000000 ==> r is Some,
{
    if exp10 < -22 {
        return None;
    }
    if exp10 > 16 {
        return None;
    }
    let p: u32 = (exp10 + 22) as u32;
    let mut acc: i128 = mantissa as i128;
    let mut j: u32 = 0;
    proof {
        assert(crate::intmath::pow_int(10, 9) == 1_000_000_000) by {
            reveal_with_fuel(crate::intmath::pow_int, 10);
        }
        assert(acc as int == mantissa * crate::intmath::pow_int(10, 0));
    }
    while j < p
        invariant
            j <= p,
            p == exp10 + 22,
            acc as int == mantissa * crate::intmath::pow_int(10, j as nat),
            -1000000000 <= mantissa <= 1000000000 && p <= 28 ==> -crate::intmath::pow_int(
                10,
                (j + 9) as nat,
            ) <= acc as int <= crate::intmath::pow_int(10, (j + 9) as nat),
        decreases p - j,
    {
        proof {
            if -1000000000 <= mantissa <= 1000000000 && p <= 28 {
                crate::intmath::lemma_pow_int_increases(10, (j + 9) as nat, 37);
                crate::intmath::lemma_pow_int_pos(10, (j + 9) as nat);
                assert(crate::intmath::pow_int(10, 37)
                    == 10_000_000_000_000_000_000_000_000_000_000_000_000) by {
                    reveal_with_fuel(crate::intmath::pow_int, 38);
                }
            }
        }
        match acc.checked_mul(10) {
            Some(x) => {
                proof {
                    let w: int = crate::intmath::pow_int(10, j as nat);
                    assert(crate::intmath::pow_int(10, (j + 1) as nat) == 10 * w) by {
                        assert(((j + 1) as nat - 1) as nat == j as nat);
                    }
                    assert((mantissa * w) * 10 == mantissa * (10 * w)) by (nonlinear_arith);
                    assert(crate::intmath::pow_int(10, ((j + 1) + 9) as nat) == 10
                        * crate::intmath::pow_int(10, (j + 9) as nat)) by {
                        assert((((j + 1) + 9) as nat - 1) as nat == (j + 9) as nat);
                    }
                }
                acc = x;
            },
            None => {
                return None;
            },
        }
        j = j + 1;
    }
    Some(acc)
}

/// The temperature `t` lies within the tabulated breakpoint span.
pub open spec fn in_bounds(bps: Seq<i64>, t: int) -> bool {
    &&& bps.len() >= 2
    &&& bps[0] <= t
    &&& t <= bps[bps.len() - 1]
}

/// The sub-range a scan in breakpoint order selects for temperature `t`:
/// the first `k` with `t <= bps[k + 1]`.  For strictly increasing
/// breakpoints and an in-bounds `t` this is the first `k` with
/// `bps[k] < t <= bps[k + 1]`, except that `t == bps[0]` (which such a
/// strict-lower-bound scan would miss) selects sub-range 0.
pub open spec fn selected_index(bps: Seq<i64>, t: int) -> int
    decreases bps.len(),
{
    if bps.len() < 2 {
        0
    } else if t <= bps[1] {
        0
    } else {
        1 + selected_index(bps.drop_first(), t)
    }
}

/// Numerator of `cp / R` over the common denominator `10^22 * 10^4`:
/// `cp / R == a0 + a1 T + a2 T^2 + a3 T^3 + a4 T^4` with `T == t / 10`
/// kelvin and each stored coefficient `10^22` times its real value.
pub open spec fn cp_poly(row: CoeffRow, t: int) -> int {
    10000 * row.a0 + 1000 * (row.a1 * t) + 100 * (row.a2 * (t * t)) + 10 * (row.a3 * (t * t * t))
        + row.a4 * (t * t * t * t)
}

/// Specific heat in micro-J/(mol K): the floor of
/// `10^6 * R * cp_poly / (10^22 * 10^4)` with `R == 831446 / 10^5`.
pub open spec fn cp_micro_of(row: CoeffRow, t: int) -> int {
    GAS_CONSTANT_NUM * cp_poly(row, t) / (CP_DIVISOR as int)
}

/// Numerator of `h / R` over the common denominator `60 * 10^22 * 10^5`:
/// `h / R == a0 T + (a1/2) T^2 + (a2/3) T^3 + (a3/4) T^4 + (a4/5) T^5 + a5`
/// with `T == t / 10` kelvin.
pub open spec fn h_poly(row: CoeffRow, t: int) -> int {
    600000 * (row.a0 * t) + 30000 * (row.a1 * (t * t)) + 2000 * (row.a2 * (t * t * t)) + 150 * (
    row.a3 * (t * t * t * t)) + 12 * (row.a4 * (t * t * t * t * t)) + 6000000 * row.a5
}

/// Enthalpy in micro-J/mol: the floor of
/// `10^6 * R * h_poly / (60 * 10^22 * 10^5)` with `R == 831446 / 10^5`.
pub open spec fn h_micro_of(row: CoeffRow, t: int) -> int {
    GAS_CONSTANT_NUM * h_poly(row, t) / (H_DIVISOR as int)
}

/// A piecewise polynomial model: `k + 1` breakpoints delimiting `k`
/// contiguous temperature sub-ranges, and one coefficient row per
/// sub-range.
#[derive(Clone, Debug)]
pub struct ThermoModel {
    pub model: ThermoModelKind,
    pub temperature_ranges: Vec<i64>,
    pub data: Vec<CoeffRow>,
}

impl ThermoModel {
    /// Invariant: strictly increasing positive breakpoints capped at
    /// `MAX_TEMP_DK`, one coefficient row per sub-range, every row within
    /// the coefficient limits.
    pub open spec fn wf(self) -> bool {
        &&& self.temperature_ranges@.len() >= 2
        &&& self.data@.len() == self.temperature_ranges@.len() - 1
        &&& forall|i: int|
            0 <= i < self.temperature_ranges@.len() - 1 ==> #[trigger] self.temperature_ranges@[i]
                < self.temperature_ranges@[i + 1]
        &&& self.temperature_ranges@[0] >= 1
        &&& self.temperature_ranges@[self.temperature_ranges@.len() - 1] <= MAX_TEMP_DK
        &&& forall|i: int| 0 <= i < self.data@.len() ==> (#[trigger] self.data@[i]).wf()
    }

    /// A model, validated: `None` exactly when the parts violate the
    /// invariant.
    pub fn new(model: ThermoModelKind, temperature_ranges: Vec<i64>, data: Vec<CoeffRow>) -> (r:
        Option<ThermoModel>)
        ensures
            r matches Some(m) ==> m.model == model && m.temperature_ranges@ == temperature_ranges@
                && m.data@ == data@ && m.wf(),
            r is None ==> !(ThermoModel { model, temperature_ranges, data }).wf(),
    {
        let m = ThermoModel { model, temperature_ranges, data };
        if m.check_wf() {
            Some(m)
        } else {
            None
        }
    }

    /// Executable check of the model invariant `wf`.
    pub fn check_wf(&self) -> (b: bool)
        ensures
            b == self.wf(),
    {
        let n: usize = self.temperature_ranges.len();
        if n < 2 {
            return false;
        }
        if self.data.len() != n - 1 {
            return false;
        }
        if self.temperature_ranges[0] < 1 {
            return false;
        }
        if self.temperature_ranges[n - 1] > MAX_TEMP_DK {
            return false;
        }
        let mut i: usize = 0;
        while i < n - 1
            invariant
                2 <= n == self.temperature_ranges.len(),
                i <= n - 1,
                forall|j: int|
                    0 <= j < i ==> #[trigger] self.temperature_ranges@[j]
                        < self.temperature_ranges@[j + 1],
            decreases n - 1 - i,
        {
            if self.temperature_ranges[i] >= self.temperature_ranges[i + 1] {
                return false;
            }
            i = i + 1;
        }
        let mut k: usize = 0;
        while k < self.data.len()
            invariant
                k <= self.data.len(),
                forall|j: int| 0 <= j < k ==> (#[trigger] self.data@[j]).wf(),
            decreases self.data.len() - k,
        {
            if !self.data[k].in_limits() {
                return false;
            }
            k = k + 1;
        }
        true
    }

    /// The temperature lies within this model's tabulated span.
    pub open spec fn spec_in_range(self, temp_dk: i64) -> bool {
        in_bounds(self.temperature_ranges@, temp_dk as int)
    }

    /// The full outcome of a specific-heat query, as a function of the
    /// model and the temperature alone.
    pub open spec fn spec_specific_heat(self, temp_dk: i64) -> Result<i128, ThermoError> {
        if !self.spec_in_range(temp_dk) {
            Err(ThermoError::OutOfRange)
        } else {
            match self.model {
                ThermoModelKind::NASA7 => Ok(
                    cp_micro_of(
                        self.data@[selected_index(self.temperature_ranges@, temp_dk as int)],
                        temp_dk as int,
                    ) as i128,
                ),
                ThermoModelKind::NASA9 => Ok(0),
            }
        }
    }

    /// The full outcome of an enthalpy query, as a function of the model
    /// and the temperature alone.
    pub open spec fn spec_enthalpy(self, temp_dk: i64) -> Result<i128, ThermoError> {
        if !self.spec_in_range(temp_dk) {
            Err(ThermoError::OutOfRange)
        } else {
            match self.model {
                ThermoModelKind::NASA7 => Ok(
                    h_micro_of(
                        self.data@[selected_index(self.temperature_ranges@, temp_dk as int)],
                        temp_dk as int,
                    ) as i128,
                ),
                ThermoModelKind::NASA9 => Ok(0),
            }
        }
    }

    /// The index of the sub-range containing `temp_dk`, or `None` when the
    /// temperature lies outside the tabulated span.  `temp_dk` equal to the
    /// first breakpoint selects sub-range 0; equal to the last breakpoint,
    /// the final sub-range.
    pub fn select_range(&self, temp_dk: i64) -> (r: Option<usize>)
        requires
            self.wf(),
        ensures
            r is Some <==> self.spec_in_range(temp_dk),
            r matches Some(k) ==> k == selected_index(self.temperature_ranges@, temp_dk as int)
                && k < self.data@.len(),
    {
        let n: usize = self.temperature_ranges.len();
        let t: i64 = temp_dk;
        if t < self.temperature_ranges[0] || t > self.temperature_ranges[n - 1] {
            return None;
        }
        let ghost bps: Seq<i64> = self.temperature_ranges@;
        proof {
            assert(bps.subrange(0, n as int) =~= bps);
        }
        let mut k: usize = 0;
        while t > self.temperature_ranges[k + 1]
            invariant
                self.wf(),
                n == self.temperature_ranges.len(),
                bps == self.temperature_ranges@,
                in_bounds(bps, t as int),
                k <= n - 2,
                selected_index(bps, t as int) == k + selected_index(
                    bps.subrange(k as int, n as int),
                    t as int,
                ),
            decreases n - k,
        {
            proof {
                if k + 1 == n - 1 {
                    assert(false);
                }
                lemma_selected_index_step(bps, t as int, k as int);
            }
            k = k + 1;
        }
        proof {
            let sub = bps.subrange(k as int, n as int);
            assert(sub.len() >= 2);
            assert(sub[1] == bps[k + 1]);
            assert(selected_index(sub, t as int) == 0);
        }
        Some(k)
    }

    /// Molar specific heat at constant pressure, in micro-J/(mol K).
    ///
    /// Fails with `OutOfRange` exactly when the temperature lies outside
    /// the tabulated span; otherwise the result is the NASA-7 degree-4
    /// polynomial of the selected sub-range times the gas constant (or the
    /// placeholder value 0 for a `NASA9` model).
    pub fn specific_heat_mole(&self, temp_dk: i64) -> (r: Result<i128, ThermoError>)
        requires
            self.wf(),
        ensures
            r == self.spec_specific_heat(temp_dk),
            r is Ok <==> self.spec_in_range(temp_dk),
            r is Err ==> r->Err_0 == ThermoError::OutOfRange,
    {
        match self.select_range(temp_dk) {
            None => Err(ThermoError::OutOfRange),
            Some(k) => {
                match self.model {
                    ThermoModelKind::NASA7 => {
                        proof {
                            lemma_in_range_temp_bounds(*self, temp_dk);
                        }
                        let row: &CoeffRow = &self.data[k];
                        let v: i128 = cp_eval(row, temp_dk);
                        Ok(v)
                    },
                    ThermoModelKind::NASA9 => Ok(0),
                }
            },
        }
    }

    /// Molar enthalpy, in micro-J/mol.
    ///
    /// Fails with `OutOfRange` exactly when the temperature lies outside
    /// the tabulated span; otherwise the result is `R * T` times the
    /// NASA-7 enthalpy expansion of the selected sub-range (or the
    /// placeholder value 0 for a `NASA9` model).
    pub fn enthalpy_mole(&self, temp_dk: i64) -> (r: Result<i128, ThermoError>)
        requires
            self.wf(),
        ensures
            r == self.spec_enthalpy(temp_dk),
            r is Ok <==> self.spec_in_range(temp_dk),
            r is Err ==> r->Err_0 == ThermoError::OutOfRange,
    {
        match self.select_range(temp_dk) {
            None => Err(ThermoError::OutOfRange),
            Some(k) => {
                match self.model {
                    ThermoModelKind::NASA7 => {
                        proof {
                            lemma_in_range_temp_bounds(*self, temp_dk);
                        }
                        let row: &CoeffRow = &self.data[k];
                        let v: i128 = h_eval(row, temp_dk);
                        Ok(v)
                    },
                    ThermoModelKind::NASA9 => Ok(0),
                }
            },
        }
    }
}

/// An in-range temperature of a well-formed model lies between 1 and
/// `MAX_TEMP_DK` deci-kelvin.
proof fn lemma_in_range_temp_bounds(m: ThermoModel, temp_dk: i64)
    requires
        m.wf(),
        m.spec_in_range(temp_dk),
    ensures
        1 <= temp_dk <= MAX_TEMP_DK,
{
}

/// Unfolding step for `selected_index` on a subrange suffix.
proof fn lemma_selected_index_step(bps: Seq<i64>, t: int, k: int)
    requires
        0 <= k < bps.len() - 1,
        t > bps[k + 1],
    ensures
        selected_index(bps.subrange(k, bps.len() as int), t) == 1 + selected_index(
            bps.subrange(k + 1, bps.len() as int),
            t,
        ),
{
    let n: int = bps.len() as int;
    let sub = bps.subrange(k, n);
    assert(sub.len() >= 2);
    assert(sub[1] == bps[k + 1]);
    assert(sub.drop_first() =~= bps.subrange(k + 1, n));
}

/// Evaluate the specific-heat polynomial of one coefficient row, exactly.
fn cp_eval(row: &CoeffRow, temp_dk: i64) -> (r: i128)
    requires
        row.wf(),
        1 <= temp_dk <= MAX_TEMP_DK,
    ensures
        r as int == cp_micro_of(*row, temp_dk as int),
{
    let tt: i128 = temp_dk as i128;
    proof {
        lemma_mul_abs_le(tt as int, tt as int, 60000, 60000);
        lemma_mul_abs_le(tt as int * tt as int, tt as int, 3_600_000_000, 60000);
        lemma_mul_abs_le(
            tt as int * tt as int * (tt as int),
            tt as int,
            216_000_000_000_000,
            60000,
        );
        lemma_mul_abs_le(row.a1 as int, tt as int, A1_LIMIT as int, 60000);
        lemma_mul_abs_le(row.a2 as int, tt as int * tt as int, A2_LIMIT as int, 3_600_000_000);
        lemma_mul_abs_le(
            row.a3 as int,
            tt as int * tt as int * (tt as int),
            A3_LIMIT as int,
            216_000_000_000_000,
        );
        lemma_mul_abs_le(
            row.a4 as int,
            tt as int * tt as int * (tt as int) * (tt as int),
            A4_LIMIT as int,
            12_960_000_000_000_000_000,
        );
    }
    let t2: i128 = tt * tt;
    let t3: i128 = t2 * tt;
    let t4: i128 = t3 * tt;
    let n: i128 = 10000 * row.a0 + 1000 * (row.a1 * tt) + 100 * (row.a2 * t2) + 10 * (row.a3 * t3)
        + row.a4 * t4;
    let scaled: i128 = GAS_CONSTANT_NUM * n;
    floor_div(scaled, CP_DIVISOR)
}

/// Evaluate the enthalpy polynomial of one coefficient row, exactly.
fn h_eval(row: &CoeffRow, temp_dk: i64) -> (r: i128)
    requires
        row.wf(),
        1 <= temp_dk <= MAX_TEMP_DK,
    ensures
        r as int == h_micro_of(*row, temp_dk as int),
{
    let tt: i128 = temp_dk as i128;
    proof {
        lemma_mul_abs_le(tt as int, tt as int, 60000, 60000);
        lemma_mul_abs_le(tt as int * tt as int, tt as int, 3_600_000_000, 60000);
        lemma_mul_abs_le(
            tt as int * tt as int * (tt as int),
            tt as int,
            216_000_000_000_000,
            60000,
        );
        lemma_mul_abs_le(
            tt as int * tt as int * (tt as int) * (tt as int),
            tt as int,
            12_960_000_000_000_000_000,
            60000,
        );
        lemma_mul_abs_le(row.a0 as int, tt as int, A0_LIMIT as int, 60000);
        lemma_mul_abs_le(row.a1 as int, tt as int * tt as int, A1_LIMIT as int, 3_600_000_000);
        lemma_mul_abs_le(
            row.a2 as int,
            tt as int * tt as int * (tt as int),
            A2_LIMIT as int,
            216_000_000_000_000,
        );
        lemma_mul_abs_le(
            row.a3 as int,
            tt as int * tt as int * (tt as int) * (tt as int),
            A3_LIMIT as int,
            12_960_000_000_000_000_000,
        );
        lemma_mul_abs_le(
            row.a4 as int,
            tt as int * tt as int * (tt as int) * (tt as int) * (tt as int),
            A4_LIMIT as int,
            777_600_000_000_000_000_000_000,
        );
    }
    let t2: i128 = tt * tt;
    let t3: i128 = t2 * tt;
    let t4: i128 = t3 * tt;
    let t5: i128 = t4 * tt;
    let m: i128 = 600000 * (row.a0 * tt) + 30000 * (row.a1 * t2) + 2000 * (row.a2 * t3) + 150 * (
    row.a3 * t4) + 12 * (row.a4 * t5) + 6000000 * row.a5;
    let q1: i128 = floor_div(m, H_DIVISOR);
    proof {
        lemma_fundamental_div_mod(m as int, H_DIVISOR as int);
        lemma_mod_division_less_than_divisor(m as int, H_DIVISOR as int);
    }
    let rem: i128 = m - q1 * H_DIVISOR;
    proof {
        assert(rem as int == m as int % H_DIVISOR as int);
        let qb: int = q1 as int;
        let d: int = H_DIVISOR as int;
        assert(-7_000_000_000 <= qb <= 7_000_000_000) by (nonlinear_arith)
            requires
                qb * d == m as int - rem as int,
                d == 6_000_000_000_000_000_000_000_000_000,
                -40_000_000_000_000_000_000_000_000_000_000_000_000 <= m as int - rem as int
                    <= 40_000_000_000_000_000_000_000_000_000_000_000_000,
        ;
    }
    let part: i128 = GAS_CONSTANT_NUM * q1;
    let q2: i128 = floor_div(GAS_CONSTANT_NUM * rem, H_DIVISOR);
    let r: i128 = part + q2;
    proof {
        let d: int = H_DIVISOR as int;
        let mi: int = m as int;
        let s: int = GAS_CONSTANT_NUM as int * rem as int;
        lemma_fundamental_div_mod(s, d);
        lemma_mod_division_less_than_divisor(s, d);
        let r2: int = s % d;
        assert(GAS_CONSTANT_NUM as int * mi == (GAS_CONSTANT_NUM as int * q1 as int + q2 as int)
            * d + r2) by (nonlinear_arith)
            requires
                mi == d * (q1 as int) + rem as int,
                s == GAS_CONSTANT_NUM as int * rem as int,
                s == d * (q2 as int) + r2,
                GAS_CONSTANT_NUM == 831446,
        ;
        lemma_fundamental_div_mod_converse(
            GAS_CONSTANT_NUM as int * mi,
            d,
            GAS_CONSTANT_NUM as int * q1 as int + q2 as int,
            r2,
        );
    }
    r
}

/// For any strictly increasing breakpoint table and any in-bounds
/// temperature, the selected sub-range is consistent with a manual scan:
/// it is the first sub-range whose half-open interval contains `t`, with
/// `t` equal to the first breakpoint explicitly assigned to sub-range 0.
pub proof fn lemma_selection_sound(bps: Seq<i64>, t: int)
    requires
        bps.len() >= 2,
        forall|i: int| 0 <= i < bps.len() - 1 ==> #[trigger] bps[i] < bps[i + 1],
        bps[0] <= t <= bps[bps.len() - 1],
    ensures
        0 <= selected_index(bps, t) < bps.len() - 1,
        t == bps[0] ==> selected_index(bps, t) == 0,
        t != bps[0] ==> bps[selected_index(bps, t)] < t,
        t <= bps[selected_index(bps, t) + 1],
        forall|j: int| 0 <= j < selected_index(bps, t) ==> #[trigger] bps[j + 1] < t,
    decreases bps.len(),
{
    if t <= bps[1] {
        assert(selected_index(bps, t) == 0);
    } else {
        let sub = bps.drop_first();
        assert(bps.len() >= 3) by {
            if bps.len() == 2 {
                assert(bps[0] < bps[1]);
            }
        }
        assert(sub.len() == bps.len() - 1);
        assert forall|i: int| 0 <= i < sub.len() - 1 implies #[trigger] sub[i] < sub[i + 1] by {
            assert(sub[i] == bps[i + 1]);
            assert(sub[i + 1] == bps[i + 2]);
        }
        assert(sub[0] == bps[1]);
        assert(sub[sub.len() - 1] == bps[bps.len() - 1]);
        lemma_selection_sound(sub, t);
        let k: int = selected_index(sub, t);
        assert(selected_index(bps, t) == 1 + k);
        assert(bps[1 + k] == sub[k]);
        assert(bps[1 + k + 1] == sub[k + 1]);
        assert forall|j: int| 0 <= j < 1 + k implies #[trigger] bps[j + 1] < t by {
            if j == 0 {
                assert(bps[1] < t);
            } else {
                assert(sub[(j - 1) + 1] < t);
                assert(bps[j + 1] == sub[j]);
            }
        }
    }
}

/// Breakpoints that increase step by step increase across any gap.
pub proof fn lemma_breakpoints_increase(bps: Seq<i64>, i: int, j: int)
    requires
        forall|m: int| 0 <= m < bps.len() - 1 ==> #[trigger] bps[m] < bps[m + 1],
        0 <= i < j < bps.len(),
    ensures
        bps[i] < bps[j],
    decreases j - i,
{
    if j == i + 1 {
    } else {
        lemma_breakpoints_increase(bps, i, j - 1);
    }
}

/// A temperature equal to the last breakpoint selects the final sub-range.
pub proof fn lemma_selects_last_range(bps: Seq<i64>, t: int)
    requires
        bps.len() >= 2,
        forall|i: int| 0 <= i < bps.len() - 1 ==> #[trigger] bps[i] < bps[i + 1],
        t == bps[bps.len() - 1],
        bps[0] <= t,
    ensures
        selected_index(bps, t) == bps.len() - 2,
{
    lemma_selection_sound(bps, t);
    let k: int = selected_index(bps, t);
    if k < bps.len() - 2 {
        lemma_breakpoints_increase(bps, k + 1, bps.len() - 1);
    }
}

/// For every well-formed model and every temperature within the tabulated
/// span, both property queries succeed (with an integer, hence finite,
/// value), and the sub-range they evaluate is the one a manual scan of the
/// breakpoint table selects (`lemma_selection_sound`).
pub proof fn lemma_in_range_queries_succeed(m: ThermoModel, temp_dk: i64)
    requires
        m.wf(),
        m.spec_in_range(temp_dk),
    ensures
        m.spec_specific_heat(temp_dk) is Ok,
        m.spec_enthalpy(temp_dk) is Ok,
{
}

/// Re-running a specific-heat query at the same temperature on the same
/// model yields the identical result: the outcome is a function of the
/// model and the temperature alone.
pub proof fn lemma_specific_heat_repeatable(
    m: ThermoModel,
    temp_dk: i64,
    r1: Result<i128, ThermoError>,
    r2: Result<i128, ThermoError>,
)
    requires
        r1 == m.spec_specific_heat(temp_dk),
        r2 == m.spec_specific_heat(temp_dk),
    ensures
        r1 == r2,
{
}

/// Re-running an enthalpy query at the same temperature on the same model
/// yields the identical result: the outcome is a function of the model and
/// the temperature alone.
pub proof fn lemma_enthalpy_repeatable(
    m: ThermoModel,
    temp_dk: i64,
    r1: Result<i128, ThermoError>,
    r2: Result<i128, ThermoError>,
)
    requires
        r1 == m.spec_enthalpy(temp_dk),
        r2 == m.spec_enthalpy(temp_dk),
    ensures
        r1 == r2,
{
}

} // verus!
