use gas_thermo::enums::ThermoModelKind;
use gas_thermo::models::{coeff_from_sci, CoeffRow, ThermoError, ThermoModel, A0_LIMIT};

fn coeff(mantissa: i64, exp10: i32) -> i128 {
    coeff_from_sci(mantissa, exp10).unwrap()
}

fn row(c: [(i64, i32); 7]) -> CoeffRow {
    CoeffRow::new(
        coeff(c[0].0, c[0].1),
        coeff(c[1].0, c[1].1),
        coeff(c[2].0, c[2].1),
        coeff(c[3].0, c[3].1),
        coeff(c[4].0, c[4].1),
        coeff(c[5].0, c[5].1),
        coeff(c[6].0, c[6].1),
    )
    .unwrap()
}

// Diatomic hydrogen, NASA-7, breakpoints 200 / 1000 / 3500 K.
const H2_LOW: [(i64, i32); 7] = [
    (234433112, -8),
    (798052075, -11),
    (-194781510, -13),
    (201572094, -16),
    (-737611761, -20),
    (-917935173, -6),
    (683010238, -9),
];
const H2_HIGH: [(i64, i32); 7] = [
    (333727920, -8),
    (-494024731, -13),
    (499456778, -15),
    (-179566394, -18),
    (200255376, -22),
    (-950158922, -6),
    (-320502331, -8),
];

fn h2_model() -> ThermoModel {
    ThermoModel::new(
        ThermoModelKind::NASA7,
        vec![2000, 10000, 35000],
        vec![row(H2_LOW), row(H2_HIGH)],
    )
    .unwrap()
}

fn f64_coeffs(c: &[(i64, i32); 7]) -> [f64; 7] {
    let mut out = [0.0; 7];
    for i in 0..7 {
        out[i] = c[i].0 as f64 * 10f64.powi(c[i].1);
    }
    out
}

fn cp_reference(c: &[(i64, i32); 7], t: f64) -> f64 {
    let a = f64_coeffs(c);
    8.31446 * (a[0] + a[1] * t + a[2] * t * t + a[3] * t * t * t + a[4] * t * t * t * t)
}

fn h_reference(c: &[(i64, i32); 7], t: f64) -> f64 {
    let a = f64_coeffs(c);
    8.31446
        * t
        * (a[0] + a[1] / 2.0 * t + a[2] / 3.0 * t * t + a[3] / 4.0 * t * t * t
            + a[4] / 5.0 * t * t * t * t + a[5] / t)
}

#[test]
fn specific_heat_of_h2_at_500_kelvin() {
    let m = h2_model();
    let cp = m.specific_heat_mole(5000).unwrap() as f64 / 1e6;
    let expected = cp_reference(&H2_LOW, 500.0);
    assert!((cp - expected).abs() < 1e-4, "cp {} vs {}", cp, expected);
    assert!(cp > 28.0 && cp < 30.0, "cp {}", cp);
    // The second sub-range's coefficients give a clearly different value:
    // the first sub-range really was selected.
    let wrong = cp_reference(&H2_HIGH, 500.0);
    assert!((cp - wrong).abs() > 0.1, "cp {} vs wrong-row {}", cp, wrong);
}

#[test]
fn enthalpy_of_h2_at_500_kelvin() {
    let m = h2_model();
    let h = m.enthalpy_mole(5000).unwrap() as f64 / 1e6;
    let expected = h_reference(&H2_LOW, 500.0);
    assert!((h - expected).abs() < 1e-3, "h {} vs {}", h, expected);
}

#[test]
fn lower_boundary_temperature_succeeds() {
    let m = h2_model();
    // T exactly at the first breakpoint selects sub-range 0.
    assert_eq!(m.select_range(2000), Some(0));
    let cp = m.specific_heat_mole(2000).unwrap() as f64 / 1e6;
    let expected = cp_reference(&H2_LOW, 200.0);
    assert!((cp - expected).abs() < 1e-4);
}

#[test]
fn upper_boundary_temperature_succeeds() {
    let m = h2_model();
    // T exactly at the last breakpoint selects the final sub-range.
    assert_eq!(m.select_range(35000), Some(1));
    let cp = m.specific_heat_mole(35000).unwrap() as f64 / 1e6;
    let expected = cp_reference(&H2_HIGH, 3500.0);
    assert!((cp - expected).abs() < 1e-4);
}

#[test]
fn out_of_range_fails_without_extrapolation() {
    let m = h2_model();
    // One deci-kelvin below the first breakpoint and above the last.
    assert!(matches!(m.specific_heat_mole(1999), Err(ThermoError::OutOfRange)));
    assert!(matches!(m.specific_heat_mole(35001), Err(ThermoError::OutOfRange)));
    assert!(matches!(m.enthalpy_mole(1999), Err(ThermoError::OutOfRange)));
    assert!(matches!(m.enthalpy_mole(35001), Err(ThermoError::OutOfRange)));
    assert_eq!(m.select_range(1999), None);
    assert_eq!(m.select_range(35001), None);
}

#[test]
fn interior_range_selection() {
    let m = h2_model();
    assert_eq!(m.select_range(5000), Some(0));
    // T == 1000 K is the interior breakpoint: it closes sub-range 0.
    assert_eq!(m.select_range(10000), Some(0));
    assert_eq!(m.select_range(10001), Some(1));
    assert_eq!(m.select_range(20000), Some(1));
}

#[test]
fn every_in_range_query_succeeds() {
    let m = h2_model();
    let mut t = 2000;
    while t <= 35000 {
        assert!(m.specific_heat_mole(t).is_ok());
        assert!(m.enthalpy_mole(t).is_ok());
        t += 500;
    }
}

#[test]
fn evaluation_is_repeatable() {
    let m = h2_model();
    assert_eq!(m.specific_heat_mole(7317), m.specific_heat_mole(7317));
    assert_eq!(m.enthalpy_mole(7317), m.enthalpy_mole(7317));
}

#[test]
fn nasa9_placeholder_evaluates_to_zero() {
    let m = ThermoModel::new(
        ThermoModelKind::NASA9,
        vec![2000, 10000, 35000],
        vec![row(H2_LOW), row(H2_HIGH)],
    )
    .unwrap();
    assert_eq!(m.specific_heat_mole(5000), Ok(0));
    assert_eq!(m.enthalpy_mole(5000), Ok(0));
    // Out-of-range queries still fail, even for the placeholder kind.
    assert!(matches!(m.specific_heat_mole(1999), Err(ThermoError::OutOfRange)));
}

#[test]
fn model_construction_rejects_bad_breakpoints() {
    let rows = vec![row(H2_LOW), row(H2_HIGH)];
    // Not strictly increasing.
    assert!(ThermoModel::new(ThermoModelKind::NASA7, vec![2000, 2000, 35000], rows.clone()).is_none());
    // Too few breakpoints.
    assert!(ThermoModel::new(ThermoModelKind::NASA7, vec![2000], vec![]).is_none());
    // Nonpositive first breakpoint.
    assert!(ThermoModel::new(ThermoModelKind::NASA7, vec![0, 10000, 35000], rows.clone()).is_none());
    // Beyond the representable maximum temperature.
    assert!(ThermoModel::new(ThermoModelKind::NASA7, vec![2000, 10000, 70000], rows.clone()).is_none());
    // Row count must match the sub-range count.
    assert!(ThermoModel::new(ThermoModelKind::NASA7, vec![2000, 10000, 35000], vec![row(H2_LOW)]).is_none());
}

#[test]
fn range_selection_consistent_with_manual_scan() {
    let m = h2_model();
    let mut t = 2001;
    while t <= 35000 {
        let k = m.select_range(t).unwrap();
        // Manual scan: first sub-range k with bps[k] < t <= bps[k + 1].
        let bps = [2000i64, 10000, 35000];
        let manual = (0..2).find(|&j| bps[j] < t && t <= bps[j + 1]).unwrap();
        assert_eq!(k, manual, "at t = {}", t);
        let cp = m.specific_heat_mole(t).unwrap() as f64 / 1e6;
        let rows = [&H2_LOW, &H2_HIGH];
        let expected = cp_reference(rows[manual], t as f64 / 10.0);
        assert!((cp - expected).abs() < 1e-4, "t {} cp {} vs {}", t, cp, expected);
        t += 777;
    }
}

// Molecular nitrogen, NASA-7, breakpoints 300 / 1000 / 5000 K.
#[test]
fn nitrogen_table_with_different_breakpoints() {
    let n2_low: [(i64, i32); 7] = [
        (32986770, -7),
        (14082404, -10),
        (-39632220, -13),
        (56415150, -16),
        (-24448540, -19),
        (-102089990, -5),
        (39503720, -7),
    ];
    let n2_high: [(i64, i32); 7] = [
        (29266400, -7),
        (14879768, -10),
        (-56847600, -14),
        (10097038, -17),
        (-67533510, -22),
        (-92279770, -5),
        (59805280, -7),
    ];
    let m = ThermoModel::new(
        ThermoModelKind::NASA7,
        vec![3000, 10000, 50000],
        vec![row(n2_low), row(n2_high)],
    )
    .unwrap();
    assert!(matches!(m.specific_heat_mole(2999), Err(ThermoError::OutOfRange)));
    let cp = m.specific_heat_mole(3000).unwrap() as f64 / 1e6;
    let expected = cp_reference(&n2_low, 300.0);
    assert!((cp - expected).abs() < 1e-4);
    let cp = m.specific_heat_mole(50000).unwrap() as f64 / 1e6;
    let expected = cp_reference(&n2_high, 5000.0);
    assert!((cp - expected).abs() < 1e-4);
    let h = m.enthalpy_mole(50000).unwrap() as f64 / 1e6;
    let expected = h_reference(&n2_high, 5000.0);
    assert!((h - expected).abs() < 1e-2);
}

#[test]
fn coefficient_limits_are_enforced() {
    assert!(CoeffRow::new(A0_LIMIT + 1, 0, 0, 0, 0, 0, 0).is_none());
    assert!(CoeffRow::new(0, 0, 0, 0, 0, 0, 0).is_some());
    // Finer than the 10^22 coefficient scale cannot be represented.
    assert!(coeff_from_sci(927732332, -30).is_none());
    assert_eq!(coeff_from_sci(25, -1), Some(25 * 10i128.pow(21)));
}
