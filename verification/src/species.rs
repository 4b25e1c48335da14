//! Chemical species: an element table, per-species elemental composition,
//! one owned thermodynamic model and one owned transport record, with
//! property evaluation forwarded to the model.
//!
//! Fixed-point conventions: element masses are micro-(g/mol), standard
//! molar entropies are milli-(J/(mol K)), transport parameters are stored
//! in micro-units of their customary quantities.

use vstd::prelude::*;

verus! {

use crate::enums::TransportGeometryKind;
use crate::enums::TransportPhaseKind;
use crate::intmath::lemma_mul_abs_le;
use crate::models::ThermoError;
use crate::models::ThermoModel;
use vstd::string::StringExecFns;

/// Largest element mass the composition arithmetic admits, in
/// micro-(g/mol): 1000 g/mol.
pub const MAX_MASS_MICRO: i64 = 1_000_000_000;

/// Largest stoichiometric count an entry may carry.
pub const MAX_COUNT: u32 = 10000;

/// Largest number of composition entries a species may carry.
pub const MAX_ENTRIES: usize = 100;

/// A chemical element: symbol, atomic number, atomic mass in
/// micro-(g/mol), and standard molar entropy at 298 K in milli-(J/(mol K)).
#[derive(Clone, Debug)]
pub struct Element {
    pub name: String,
    pub atomic_number: u32,
    pub mass_micro: i64,
    pub entropy298_milli: i64,
}

impl Element {
    /// Valid element: a nonempty symbol and a positive, bounded mass.
    pub open spec fn wf(self) -> bool {
        &&& self.name@.len() > 0
        &&& 1 <= self.mass_micro <= MAX_MASS_MICRO
    }

    /// Executable check of `wf`.
    pub fn check_wf(&self) -> (b: bool)
        ensures
            b == self.wf(),
    {
        !self.name.as_str().is_empty() && 1 <= self.mass_micro && self.mass_micro
            <= MAX_MASS_MICRO
    }
}

/// Lennard-Jones-type transport descriptors, carried as opaque data: well
/// depth, collision diameter, polarizability and rotational relaxation
/// number, each in micro-units.
#[derive(Clone, Copy, Debug, PartialEq, Eq, Structural)]
pub struct Transport {
    pub model: TransportPhaseKind,
    pub geometry: TransportGeometryKind,
    pub well_depth_micro: i64,
    pub diameter_micro: i64,
    pub polarizability_micro: i64,
    pub rotational_relaxation_micro: i64,
}

/// One composition entry: an element together with its stoichiometric
/// count.
#[derive(Clone, Debug)]
pub struct CompositionEntry {
    pub element: Element,
    pub count: u32,
}

impl CompositionEntry {
    /// Valid entry: a valid element and a positive, bounded count.
    pub open spec fn wf(self) -> bool {
        &&& self.element.wf()
        &&& 1 <= self.count <= MAX_COUNT
    }

    /// Executable check of `wf`.
    pub fn check_wf(&self) -> (b: bool)
        ensures
            b == self.wf(),
    {
        self.element.check_wf() && 1 <= self.count && self.count <= MAX_COUNT
    }
}

/// Total molar mass of a composition, in micro-(g/mol): the sum of
/// `element mass * count` over the entries.
pub open spec fn molar_mass_of(entries: Seq<CompositionEntry>) -> int
    decreases entries.len(),
{
    if entries.len() == 0 {
        0
    } else {
        molar_mass_of(entries.drop_last()) + entries.last().element.mass_micro
            * entries.last().count
    }
}

/// A chemical species: name, elemental composition, exactly one owned
/// thermodynamic model and one owned transport record.
#[derive(Clone, Debug)]
pub struct Species {
    pub name: String,
    pub composition: Vec<CompositionEntry>,
    pub thermo: ThermoModel,
    pub transport: Transport,
}

impl Species {
    /// Valid species: a nonempty name, a nonempty bounded composition of
    /// valid entries naming no element twice, and a valid thermodynamic
    /// model.
    pub open spec fn wf(self) -> bool {
        &&& self.name@.len() > 0
        &&& 1 <= self.composition@.len() <= MAX_ENTRIES
        &&& forall|i: int| 0 <= i < self.composition@.len() ==> (#[trigger] self.composition@[i]).wf()
        &&& forall|i: int, j: int|
            0 <= i < j < self.composition@.len() ==> (#[trigger] self.composition@[i]).element.name@
                != (#[trigger] self.composition@[j]).element.name@
        &&& self.thermo.wf()
    }

    /// A species, validated: `None` exactly when the parts violate the
    /// invariant (in particular, when the composition names the same
    /// element twice).
    pub fn new(
        name: String,
        composition: Vec<CompositionEntry>,
        thermo: ThermoModel,
        transport: Transport,
    ) -> (r: Option<Species>)
        ensures
            r matches Some(s) ==> s == (Species { name, composition, thermo, transport })
                && s.wf(),
            r is None ==> !(Species { name, composition, thermo, transport }).wf(),
    {
        if name.as_str().is_empty() {
            return None;
        }
        if composition.len() < 1 || composition.len() > MAX_ENTRIES {
            return None;
        }
        let n: usize = composition.len();
        let mut i: usize = 0;
        while i < n
            invariant
                n == composition.len(),
                i <= n,
                forall|k: int| 0 <= k < i ==> (#[trigger] composition@[k]).wf(),
                forall|k: int, j: int|
                    0 <= k < j < i ==> (#[trigger] composition@[k]).element.name@ != (
                    #[trigger] composition@[j]).element.name@,
            decreases n - i,
        {
            if !composition[i].check_wf() {
                return None;
            }
            let mut j: usize = 0;
            while j < i
                invariant
                    n == composition.len(),
                    i < n,
                    j <= i,
                    forall|k: int|
                        0 <= k < j ==> (#[trigger] composition@[k]).element.name@
                            != composition@[i as int].element.name@,
                decreases i - j,
            {
                if composition[j].element.name == composition[i].element.name {
                    return None;
                }
                j = j + 1;
            }
            i = i + 1;
        }
        if !thermo.check_wf() {
            return None;
        }
        Some(Species { name, composition, thermo, transport })
    }

    /// Molar mass of the species in micro-(g/mol): the sum of
    /// `element mass * count` over its composition.
    pub fn molar_mass_micro(&self) -> (r: i64)
        requires
            self.wf(),
        ensures
            r as int == molar_mass_of(self.composition@),
            r >= 1,
    {
        let n: usize = self.composition.len();
        let mut sum: i64 = 0;
        let mut i: usize = 0;
        proof {
            assert(self.composition@.subrange(0, 0) =~= Seq::<CompositionEntry>::empty());
        }
        while i < n
            invariant
                self.wf(),
                n == self.composition@.len(),
                i <= n,
                sum as int == molar_mass_of(self.composition@.subrange(0, i as int)),
                0 <= sum <= i * 10_000_000_000_000,
            decreases n - i,
        {
            let e: &CompositionEntry = &self.composition[i];
            proof {
                lemma_mul_abs_le(e.element.mass_micro as int, e.count as int, 1_000_000_000, 10000);
                assert(e.element.mass_micro as int * e.count as int >= 1) by (nonlinear_arith)
                    requires
                        e.element.mass_micro >= 1,
                        e.count >= 1,
                ;
                let pre = self.composition@.subrange(0, i as int + 1);
                assert(pre.drop_last() =~= self.composition@.subrange(0, i as int));
                assert(pre.last() == self.composition@[i as int]);
            }
            let term: i64 = e.element.mass_micro * (e.count as i64);
            sum = sum + term;
            i = i + 1;
        }
        proof {
            assert(self.composition@.subrange(0, n as int) =~= self.composition@);
            assert(molar_mass_of(self.composition@) >= 1) by {
                lemma_molar_mass_pos(self.composition@);
            }
        }
        sum
    }

    /// A multi-line description of the species: its name, the model kind
    /// of its thermodynamic table, and the phase and geometry kinds of its
    /// transport record.
    pub fn describe(&self) -> (r: String)
        ensures
            r@ == "\nSpecies ................. "@ + self.name@
                + "\n- thermo.model .......... "@ + self.thermo.model.spec_label()
                + "\n- transport.model ....... "@ + self.transport.model.spec_label()
                + "\n- transport.geometry .... "@ + self.transport.geometry.spec_label(),
    {
        let mut out: String = "\nSpecies ................. ".to_owned();
        out.append(self.name.as_str());
        out.append("\n- thermo.model .......... ");
        out.append(self.thermo.model.label());
        out.append("\n- transport.model ....... ");
        out.append(self.transport.model.label());
        out.append("\n- transport.geometry .... ");
        out.append(self.transport.geometry.label());
        out
    }

    /// Molar specific heat at constant pressure in micro-J/(mol K),
    /// forwarded to the owned thermodynamic model.  An out-of-range
    /// temperature surfaces as an error for the caller to handle.
    pub fn specific_heat_mole(&self, temp_dk: i64) -> (r: Result<i128, ThermoError>)
        requires
            self.wf(),
        ensures
            r == self.thermo.spec_specific_heat(temp_dk),
            r is Ok <==> self.thermo.spec_in_range(temp_dk),
    {
        self.thermo.specific_heat_mole(temp_dk)
    }

    /// Molar enthalpy in micro-J/mol, forwarded to the owned thermodynamic
    /// model.  An out-of-range temperature surfaces as an error for the
    /// caller to handle.
    pub fn enthalpy_mole(&self, temp_dk: i64) -> (r: Result<i128, ThermoError>)
        requires
            self.wf(),
        ensures
            r == self.thermo.spec_enthalpy(temp_dk),
            r is Ok <==> self.thermo.spec_in_range(temp_dk),
    {
        self.thermo.enthalpy_mole(temp_dk)
    }
}

/// The molar mass of a valid nonempty composition is at least one
/// micro-(g/mol): every entry contributes a positive term.
pub proof fn lemma_molar_mass_pos(entries: Seq<CompositionEntry>)
    requires
        entries.len() >= 1,
        forall|i: int| 0 <= i < entries.len() ==> (#[trigger] entries[i]).wf(),
    ensures
        molar_mass_of(entries) >= 1,
    decreases entries.len(),
{
    let last = entries.last();
    assert(last.element.mass_micro as int * last.count as int >= 1) by (nonlinear_arith)
        requires
            last.element.mass_micro >= 1,
            last.count >= 1,
    ;
    if entries.len() == 1 {
        assert(entries.drop_last().len() == 0);
        assert(molar_mass_of(entries.drop_last()) == 0);
        assert(molar_mass_of(entries) == 0 + last.element.mass_micro * last.count);
    } else {
        let front = entries.drop_last();
        assert(forall|i: int| 0 <= i < front.len() ==> (#[trigger] front[i]).wf());
        lemma_molar_mass_pos(front);
    }
}

} // verus!
