use gas_thermo::enums::{ThermoModelKind, TransportGeometryKind, TransportPhaseKind};
use gas_thermo::models::{coeff_from_sci, CoeffRow, ThermoModel};
use gas_thermo::registry::SpeciesTable;
use gas_thermo::species::{CompositionEntry, Element, Species, Transport};

fn coeff(mantissa: i64, exp10: i32) -> i128 {
    coeff_from_sci(mantissa, exp10).unwrap()
}

fn row(c: [(i64, i32); 7]) -> CoeffRow {
    CoeffRow::new(
        coeff(c[0].0, c[0].1),
        coeff(c[1].0, c[1].1),
        coeff(c[2].0, c[2].1),
        coeff(c[3].0, c[3].1),
        coeff(c[4].0, c[4].1),
        coeff(c[5].0, c[5].1),
        coeff(c[6].0, c[6].1),
    )
    .unwrap()
}

const H2_LOW: [(i64, i32); 7] = [
    (234433112, -8),
    (798052075, -11),
    (-194781510, -13),
    (201572094, -16),
    (-737611761, -20),
    (-917935173, -6),
    (683010238, -9),
];
const H2_HIGH: [(i64, i32); 7] = [
    (333727920, -8),
    (-494024731, -13),
    (499456778, -15),
    (-179566394, -18),
    (200255376, -22),
    (-950158922, -6),
    (-320502331, -8),
];

fn h2_thermo() -> ThermoModel {
    ThermoModel::new(
        ThermoModelKind::NASA7,
        vec![2000, 10000, 35000],
        vec![row(H2_LOW), row(H2_HIGH)],
    )
    .unwrap()
}

fn elem_h() -> Element {
    Element { name: "H".to_string(), atomic_number: 1, mass_micro: 1_008_000, entropy298_milli: 65_340_000 }
}

fn elem_c() -> Element {
    Element { name: "C".to_string(), atomic_number: 6, mass_micro: 12_011_000, entropy298_milli: 5_740_000 }
}

fn elem_o() -> Element {
    Element { name: "O".to_string(), atomic_number: 8, mass_micro: 15_999_000, entropy298_milli: 102_573_500 }
}

fn linear_transport() -> Transport {
    Transport {
        model: TransportPhaseKind::GAS,
        geometry: TransportGeometryKind::LINEAR,
        well_depth_micro: 38_000_000,
        diameter_micro: 2_920_000,
        polarizability_micro: 790_000,
        rotational_relaxation_micro: 280_000_000,
    }
}

fn entry(e: Element, count: u32) -> CompositionEntry {
    CompositionEntry { element: e, count }
}

fn h2_species() -> Species {
    Species::new(
        "H2".to_string(),
        vec![entry(elem_h(), 2)],
        h2_thermo(),
        linear_transport(),
    )
    .unwrap()
}

fn species_with(name: &str, comp: Vec<CompositionEntry>) -> Species {
    Species::new(name.to_string(), comp, h2_thermo(), linear_transport()).unwrap()
}

#[test]
fn molar_mass_of_h2() {
    assert_eq!(h2_species().molar_mass_micro(), 2_016_000);
}

#[test]
fn molar_mass_of_co2_matches_known_value() {
    let co2 = species_with("CO2", vec![entry(elem_c(), 1), entry(elem_o(), 2)]);
    let mass = co2.molar_mass_micro();
    assert_eq!(mass, 44_009_000);
    // Cross-check against the known molar mass of CO2, about 44.01 g/mol.
    assert!((mass as f64 / 1e6 - 44.01).abs() < 0.01);
}

#[test]
fn molar_mass_of_water_and_methane() {
    let h2o = species_with("H2O", vec![entry(elem_h(), 2), entry(elem_o(), 1)]);
    assert_eq!(h2o.molar_mass_micro(), 18_015_000);
    let ch4 = species_with("CH4", vec![entry(elem_c(), 1), entry(elem_h(), 4)]);
    assert_eq!(ch4.molar_mass_micro(), 16_043_000);
}

#[test]
fn duplicate_element_composition_is_rejected() {
    let r = Species::new(
        "H2x".to_string(),
        vec![entry(elem_h(), 1), entry(elem_h(), 1)],
        h2_thermo(),
        linear_transport(),
    );
    assert!(r.is_none());
}

#[test]
fn zero_count_composition_is_rejected() {
    let r = Species::new(
        "H0".to_string(),
        vec![entry(elem_h(), 0)],
        h2_thermo(),
        linear_transport(),
    );
    assert!(r.is_none());
}

#[test]
fn species_properties_match_model() {
    let s = h2_species();
    assert_eq!(s.specific_heat_mole(5000), s.thermo.specific_heat_mole(5000));
    assert_eq!(s.enthalpy_mole(5000), s.thermo.enthalpy_mole(5000));
    assert!(s.specific_heat_mole(1999).is_err());
}

#[test]
fn describe_lists_name_and_kinds() {
    let s = h2_species();
    let d = s.describe();
    assert_eq!(
        d,
        "\nSpecies ................. H2\
         \n- thermo.model .......... NASA7\
         \n- transport.model ....... GAS\
         \n- transport.geometry .... LINEAR"
    );
}

#[test]
fn registry_add_and_lookup() {
    let mut table = SpeciesTable::new();
    assert!(table.add(h2_species()));
    assert!(table.add(species_with("CO2", vec![entry(elem_c(), 1), entry(elem_o(), 2)])));
    assert_eq!(table.len(), 2);
    let h2 = table.lookup("H2").unwrap();
    assert_eq!(h2.name, "H2");
    assert!(table.lookup("Xe").is_none());
}

#[test]
fn registry_rejects_duplicate_names() {
    let mut table = SpeciesTable::new();
    assert!(table.add(h2_species()));
    assert!(!table.add(h2_species()));
    assert_eq!(table.len(), 1);
}
