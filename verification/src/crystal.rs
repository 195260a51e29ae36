use vstd::prelude::*;
use crate::geometry::UnitCellBase;
use crate::lattice::LatticeType;

verus! {

/// A two-dimensional periodic structure: a lattice and the base of its unit cell.
#[derive(Debug, Clone)]
pub struct PhotonicCrystal {
    pub lattice: LatticeType,
    pub base: UnitCellBase,
}

impl PhotonicCrystal {
    /// The structure of `base` repeated on `lattice`.
    pub fn new(lattice: LatticeType, base: UnitCellBase) -> (pc: PhotonicCrystal)
        ensures
            pc.lattice == lattice,
            pc.base == base,
    {
        PhotonicCrystal { lattice, base }
    }
}

} // verus!
