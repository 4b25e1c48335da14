//! A name-keyed species registry: read-only after construction, with
//! unique names, so that callers look a species up explicitly instead of
//! holding bare handles.

use vstd::prelude::*;

verus! {

use crate::species::Species;

/// A table of species with pairwise distinct names, each valid.
#[derive(Clone, Debug)]
pub struct SpeciesTable {
    pub entries: Vec<Species>,
}

impl SpeciesTable {
    /// Invariant: every entry valid, all names pairwise distinct.
    pub open spec fn wf(self) -> bool {
        &&& forall|i: int| 0 <= i < self.entries@.len() ==> (#[trigger] self.entries@[i]).wf()
        &&& forall|i: int, j: int|
            0 <= i < j < self.entries@.len() ==> (#[trigger] self.entries@[i]).name@ != (
            #[trigger] self.entries@[j]).name@
    }

    /// Some entry carries this name.
    pub open spec fn spec_contains_name(self, name: Seq<char>) -> bool {
        exists|i: int| 0 <= i < self.entries@.len() && (#[trigger] self.entries@[i]).name@ == name
    }

    /// An empty table.
    pub fn new() -> (r: SpeciesTable)
        ensures
            r.entries@.len() == 0,
            r.wf(),
    {
        SpeciesTable { entries: Vec::new() }
    }

    /// Register a species.  Succeeds, appending the species, exactly when
    /// no entry carries its name yet; otherwise the table is unchanged.
    pub fn add(&mut self, s: Species) -> (r: bool)
        requires
            old(self).wf(),
            s.wf(),
        ensures
            r <==> !old(self).spec_contains_name(s.name@),
            r ==> final(self).entries@ == old(self).entries@.push(s),
            !r ==> *final(self) == *old(self),
            final(self).wf(),
    {
        let n: usize = self.entries.len();
        let mut i: usize = 0;
        while i < n
            invariant
                *self == *old(self),
                old(self).wf(),
                s.wf(),
                n == self.entries@.len(),
                i <= n,
                forall|j: int| 0 <= j < i ==> (#[trigger] self.entries@[j]).name@ != s.name@,
            decreases n - i,
        {
            if self.entries[i].name == s.name {
                return false;
            }
            i = i + 1;
        }
        self.entries.push(s);
        true
    }

    /// Look a species up by name: `Some` of the unique entry with that
    /// name exactly when the table holds one, `None` otherwise.
    pub fn lookup(&self, name: &str) -> (r: Option<&Species>)
        requires
            self.wf(),
        ensures
            r is Some <==> self.spec_contains_name(name@),
            r matches Some(s) ==> s.name@ == name@ && exists|i: int|
                0 <= i < self.entries@.len() && self.entries@[i] == *s,
    {
        let key: String = name.to_owned();
        let n: usize = self.entries.len();
        let mut i: usize = 0;
        while i < n
            invariant
                n == self.entries@.len(),
                i <= n,
                key@ == name@,
                forall|j: int| 0 <= j < i ==> (#[trigger] self.entries@[j]).name@ != name@,
            decreases n - i,
        {
            if self.entries[i].name == key {
                return Some(&self.entries[i]);
            }
            i = i + 1;
        }
        None
    }

    /// Number of registered species.
    pub fn len(&self) -> (n: usize)
        ensures
            n == self.entries@.len(),
    {
        self.entries.len()
    }
}

} // verus!
