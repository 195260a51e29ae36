use vstd::prelude::*;
use crate::material::{diagonal_tensor, Material, EPSILON_AIR, EPSILON_SILICON};

verus! {

/// How many counts make a fractional coordinate of one: a placed shape's centre is a
/// whole number of ten-thousandths of the lattice vectors.
pub const FRACTION_UNIT: i64 = 10_000;

/// The outline of one inclusion. Lengths are in the unit of the lattice constant;
/// a rotation is in degrees, counter-clockwise from the canonical orientation.
///
/// The rasterizer draws circles and the two triangles; a square or a rectangle can be
/// described, and is refused there as unsupported.
#[derive(Debug, Clone, Copy, PartialEq, Eq, Structural)]
pub enum HoleShape {
    Circle { radius: u32 },
    Square { side: u32 },
    Rectangle { width: u32, height: u32 },
    EquilateralTriangle { side: u32, rotation_degrees: i32 },
    RightAngledIsosceles { leg: u32, rotation_degrees: i32 },
}

/// One shape of one material, placed in the unit cell.
#[derive(Debug, Clone, Copy, PartialEq, Eq)]
pub struct AtomInCell {
    pub shape: HoleShape,
    /// Centre `(s, t)` in fractional coordinates, counted in [`FRACTION_UNIT`]s.
    pub center: (i16, i16),
    pub material: Material,
}

/// The radius of the default atom: a tenth of a length unit, where a count is a
/// ten-thousandth of it.
pub const DEFAULT_RADIUS: u32 = 1_000;

impl Default for AtomInCell {
    /// A circle of [`DEFAULT_RADIUS`] about the fractional point (0.5, 0.5), of air.
    fn default() -> (atom: AtomInCell)
        ensures
            atom.shape == (HoleShape::Circle { radius: DEFAULT_RADIUS }),
            atom.center == (5000i16, 5000i16),
            atom.material.epsilon_matrix == diagonal_tensor(EPSILON_AIR, EPSILON_AIR, EPSILON_AIR),
    {
        AtomInCell {
            shape: HoleShape::Circle { radius: DEFAULT_RADIUS },
            center: (5000, 5000),
            material: Material::new_from_eps(EPSILON_AIR),
        }
    }
}

/// The base of the unit cell: its placed shapes, in the order in which they are
/// drawn, and the material between them.
///
/// The engine takes the constant of the background as an argument of its own; a
/// caller that draws over this base's background hands it
/// `background_material.in_plane_eps()`.
#[derive(Debug, Clone)]
pub struct UnitCellBase {
    pub atoms: Vec<AtomInCell>,
    pub background_material: Material,
}

/// The background of a base that was given none: isotropic silicon.
pub open spec fn default_background() -> Material {
    Material {
        epsilon_matrix: diagonal_tensor(EPSILON_SILICON, EPSILON_SILICON, EPSILON_SILICON),
    }
}

impl Default for UnitCellBase {
    /// An empty base over the default background.
    fn default() -> (base: UnitCellBase)
        ensures
            base.atoms@ == Seq::<AtomInCell>::empty(),
            base.background_material == default_background(),
    {
        UnitCellBase { atoms: Vec::new(), background_material: Material::new_from_eps(EPSILON_SILICON) }
    }
}

impl UnitCellBase {
    /// An empty base over the default background.
    pub fn new() -> (base: UnitCellBase)
        ensures
            base.atoms@ == Seq::<AtomInCell>::empty(),
            base.background_material == default_background(),
    {
        UnitCellBase { atoms: Vec::new(), background_material: Material::new_from_eps(EPSILON_SILICON) }
    }

    /// A base of one circle of the given radius and material, centred in the unit
    /// cell, over the default background.
    pub fn from_simple_circle(radius: u32, material: Material) -> (base: UnitCellBase)
        ensures
            base.atoms@ == seq![
                (AtomInCell { shape: HoleShape::Circle { radius }, center: (0i16, 0i16), material }),
            ],
            base.background_material == default_background(),
    {
        let mut base = UnitCellBase::new();
        base.add_atom(HoleShape::Circle { radius }, (0, 0), material);
        proof {
            assert(base.atoms@ =~= seq![
                (AtomInCell { shape: HoleShape::Circle { radius }, center: (0i16, 0i16), material }),
            ]);
        }
        base
    }

    /// Places one more shape, drawn after all that are there.
    pub fn add_atom(&mut self, shape: HoleShape, center: (i16, i16), material: Material)
        ensures
            final(self).atoms@ == old(self).atoms@.push(
                (AtomInCell { shape, center, material }),
            ),
            final(self).background_material == old(self).background_material,
    {
        self.atoms.push(AtomInCell { shape, center, material });
    }
}

} // verus!
