//! The major planets and the dispatch from a planet to its coefficient
//! tables.
//!
//! Each planet resolves to one table triple (longitude, latitude, radius
//! series) through a directory built once at start-up.  A planet without a
//! bound table is a data error that the caller must see; the pipeline never
//! falls back to a zero coordinate, which would silently corrupt every
//! geocentric and light-time result downstream.

use crate::Error;
use vstd::pervasive::VecAdditionalExecFns;
use vstd::prelude::*;

verus! {

/// Represents different planets.
#[derive(Clone, Copy, PartialEq, Eq, Structural, Debug)]
pub enum Planet {
    /// Mercury
    Mercury,
    /// Venus
    Venus,
    /// Earth
    Earth,
    /// Mars
    Mars,
    /// Jupiter
    Jupiter,
    /// Saturn
    Saturn,
    /// Uranus
    Uranus,
    /// Neptune
    Neptune,
}

impl Planet {
    /// Slot of this planet in a table directory; every variant has its own.
    pub open spec fn slot_spec(self) -> int {
        match self {
            Planet::Mercury => 0,
            Planet::Venus => 1,
            Planet::Earth => 2,
            Planet::Mars => 3,
            Planet::Jupiter => 4,
            Planet::Saturn => 5,
            Planet::Uranus => 6,
            Planet::Neptune => 7,
        }
    }

    /// Slot of this planet in a table directory.
    pub fn table_slot(&self) -> (i: usize)
        ensures
            i == self.slot_spec(),
            i < 8,
    {
        match self {
            Planet::Mercury => 0,
            Planet::Venus => 1,
            Planet::Earth => 2,
            Planet::Mars => 3,
            Planet::Jupiter => 4,
            Planet::Saturn => 5,
            Planet::Uranus => 6,
            Planet::Neptune => 7,
        }
    }
}

/// Which coefficient table, if any, is bound to each planet.  Built once,
/// read-only afterwards; `lookup` is the only way the pipeline reaches a
/// table, so an unbound planet always surfaces as `Error::Data`.
pub struct SeriesTableDirectory {
    bindings: Vec<Option<usize>>,
}

impl SeriesTableDirectory {
    /// The directory holds exactly one slot per planet.
    pub closed spec fn well_formed(self) -> bool {
        self.bindings@.len() == 8
    }

    /// The table bound to `p`, if any.
    pub closed spec fn binding_of(self, p: Planet) -> Option<usize> {
        self.bindings@[p.slot_spec()]
    }

    /// An empty directory: no planet has a table yet, so every lookup fails.
    pub fn new() -> (d: SeriesTableDirectory)
        ensures
            d.well_formed(),
            forall|p: Planet| #[trigger] d.binding_of(p) is None,
    {
        let mut bindings: Vec<Option<usize>> = Vec::new();
        let mut k: usize = 0;
        while k < 8
            invariant
                k <= 8,
                bindings@.len() == k,
                forall|j: int| 0 <= j < k ==> bindings@[j] is None,
            decreases 8 - k,
        {
            bindings.push(None);
            k += 1;
        }
        SeriesTableDirectory { bindings }
    }

    /// Bind table `table` to planet `p`, replacing any earlier binding and
    /// leaving every other planet's binding unchanged.
    pub fn bind(&mut self, p: Planet, table: usize)
        requires
            old(self).well_formed(),
        ensures
            final(self).well_formed(),
            final(self).binding_of(p) == Some(table),
            forall|q: Planet| q != p ==> #[trigger] final(self).binding_of(q) == old(
                self,
            ).binding_of(q),
    {
        let i = p.table_slot();
        self.bindings.set(i, Some(table));
    }

    /// The table bound to `p`, or `Error::Data` exactly when none is: a
    /// missing table must fail the call, never yield a default coordinate.
    pub fn lookup(&self, p: Planet) -> (r: Result<usize, Error>)
        requires
            self.well_formed(),
        ensures
            r matches Ok(t) ==> self.binding_of(p) == Some(t),
            (r is Err) <==> (self.binding_of(p) is None),
            r matches Err(e) ==> e == Error::Data,
    {
        let i = p.table_slot();
        match self.bindings[i] {
            Some(t) => Ok(t),
            None => Err(Error::Data),
        }
    }
}

} // verus!
