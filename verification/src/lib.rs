//! Gas-phase thermodynamic property evaluation over piecewise NASA-7
//! polynomial tables, together with the exact-arithmetic numeric helpers
//! (integer powers, evenly spaced sample grids) that property scans and the
//! linear-advection demo share.
//!
//! All arithmetic is exact: temperatures are fixed-point deci-kelvin,
//! polynomial coefficients are fixed-point integers scaled by `10^22`, and
//! general numbers are `Rat` rationals.  Every evaluation result is pinned by
//! its contract to a closed-form integer expression.

pub mod advection;
pub mod enums;
pub mod intmath;
pub mod models;
pub mod numerical;
pub mod rational;
pub mod registry;
pub mod species;
