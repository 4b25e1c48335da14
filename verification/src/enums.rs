//! Model and transport classification kinds.

use vstd::prelude::*;

verus! {

/// The polynomial family a thermodynamic model uses.  Only `NASA7` is
/// numerically defined; `NASA9` is a declared placeholder whose property
/// evaluations yield a fixed zero.
#[derive(Clone, Copy, Debug, PartialEq, Eq, Structural)]
pub enum ThermoModelKind {
    NASA7,
    NASA9,
}

/// The phase a transport-parameter record describes.
#[derive(Clone, Copy, Debug, PartialEq, Eq, Structural)]
pub enum TransportPhaseKind {
    GAS,
}

/// Molecular geometry of a species for transport purposes.
#[derive(Clone, Copy, Debug, PartialEq, Eq, Structural)]
pub enum TransportGeometryKind {
    ATOM,
    LINEAR,
}

impl ThermoModelKind {
    /// The view of this kind's label.
    pub open spec fn spec_label(self) -> Seq<char> {
        match self {
            ThermoModelKind::NASA7 => "NASA7"@,
            ThermoModelKind::NASA9 => "NASA9"@,
        }
    }

    /// Human-readable name of the kind.
    pub fn label(&self) -> (s: &'static str)
        ensures
            s@ == self.spec_label(),
    {
        match *self {
            ThermoModelKind::NASA7 => "NASA7",
            ThermoModelKind::NASA9 => "NASA9",
        }
    }
}

impl TransportPhaseKind {
    /// The view of this kind's label.
    pub open spec fn spec_label(self) -> Seq<char> {
        "GAS"@
    }

    /// Human-readable name of the kind.
    pub fn label(&self) -> (s: &'static str)
        ensures
            s@ == self.spec_label(),
    {
        match *self {
            TransportPhaseKind::GAS => "GAS",
        }
    }
}

impl TransportGeometryKind {
    /// The view of this kind's label.
    pub open spec fn spec_label(self) -> Seq<char> {
        match self {
            TransportGeometryKind::ATOM => "ATOM"@,
            TransportGeometryKind::LINEAR => "LINEAR"@,
        }
    }

    /// Human-readable name of the kind.
    pub fn label(&self) -> (s: &'static str)
        ensures
            s@ == self.spec_label(),
    {
        match *self {
            TransportGeometryKind::ATOM => "ATOM",
            TransportGeometryKind::LINEAR => "LINEAR",
        }
    }
}

} // verus!
