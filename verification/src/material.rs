use vstd::prelude::*;

verus! {

/// How many counts make a dielectric constant (or a refractive index) of one: every
/// such value in this library is a whole number of ten-thousandths.
pub const EPSILON_UNIT: u32 = 10_000;

/// Dielectric constant of silicon at telecom wavelengths, 11.68.
pub const EPSILON_SILICON: u32 = 116_800;

/// Dielectric constant of silicon dioxide at telecom wavelengths, 2.1.
pub const EPSILON_SILICON_DIOXIDE: u32 = 21_000;

/// Dielectric constant of indium phosphide at telecom wavelengths, 3.17.
pub const EPSILON_INDIUM_PHOSPHIDE: u32 = 31_700;

/// Dielectric constant of vacuum, 1.
pub const EPSILON_VACUUM: u32 = 10_000;

/// Dielectric constant of air, 1.
pub const EPSILON_AIR: u32 = 10_000;

/// The largest refractive index whose square is still a dielectric constant that
/// fits: 655.3599.
pub const MAX_REFRACTIVE_INDEX: u32 = 6_553_599;

/// A dielectric tensor, by its nine elements; `m12` stands in row 1, column 2.
///
/// The three diagonal elements are dielectric constants and are not negative; an
/// element off the diagonal may be.
#[derive(Debug, Clone, Copy, PartialEq, Eq, Structural)]
pub struct DielectricTensor {
    pub m11: u32,
    pub m12: i32,
    pub m13: i32,
    pub m21: i32,
    pub m22: u32,
    pub m23: i32,
    pub m31: i32,
    pub m32: i32,
    pub m33: u32,
}

/// The tensor with `(x, y, z)` on its diagonal and zero elsewhere.
pub open spec fn diagonal_tensor(x: u32, y: u32, z: u32) -> DielectricTensor {
    DielectricTensor {
        m11: x,
        m12: 0,
        m13: 0,
        m21: 0,
        m22: y,
        m23: 0,
        m31: 0,
        m32: 0,
        m33: z,
    }
}

impl DielectricTensor {
    /// The tensor of the nine elements, given row by row.
    pub fn new(
        m11: u32,
        m12: i32,
        m13: i32,
        m21: i32,
        m22: u32,
        m23: i32,
        m31: i32,
        m32: i32,
        m33: u32,
    ) -> (t: DielectricTensor)
        ensures
            t == (DielectricTensor { m11, m12, m13, m21, m22, m23, m31, m32, m33 }),
    {
        DielectricTensor { m11, m12, m13, m21, m22, m23, m31, m32, m33 }
    }

    /// The tensor with `eps` on its diagonal and zero elsewhere.
    pub fn from_diagonal_element(eps: u32) -> (t: DielectricTensor)
        ensures
            t == diagonal_tensor(eps, eps, eps),
    {
        DielectricTensor::new(eps, 0, 0, 0, eps, 0, 0, 0, eps)
    }

    /// The tensor with `diagonal` on its diagonal and zero elsewhere.
    pub fn from_diagonal(diagonal: &(u32, u32, u32)) -> (t: DielectricTensor)
        ensures
            t == diagonal_tensor(diagonal.0, diagonal.1, diagonal.2),
    {
        DielectricTensor::new(diagonal.0, 0, 0, 0, diagonal.1, 0, 0, 0, diagonal.2)
    }

    /// The three diagonal elements.
    pub fn diagonal(&self) -> (d: (u32, u32, u32))
        ensures
            d == (self.m11, self.m22, self.m33),
    {
        (self.m11, self.m22, self.m33)
    }
}

/// A dielectric constant: one for all directions, or the whole tensor.
#[derive(Debug, Clone, Copy, PartialEq, Eq, Structural)]
pub enum DielectricConstant {
    Isotropic(u32),
    Anisotropic(DielectricTensor),
}

/// A refractive index, one for all directions or one for each axis.
#[derive(Debug, Clone, Copy, PartialEq, Eq)]
pub enum RefractiveIndex {
    Isotropic(u32),
    Anisotropic((u32, u32, u32)),
}

/// Materials that come up often.
#[derive(Debug, Clone, Copy, PartialEq, Eq, Structural)]
pub enum CommonMaterials {
    Vacuum,
    Air,
    Silicon,
    SiliconDioxide,
    IndiumPhosphide,
}

/// A material, by its dielectric tensor.
#[derive(Debug, Clone, Copy, PartialEq, Eq, Structural)]
pub struct Material {
    pub epsilon_matrix: DielectricTensor,
}

/// The dielectric constant of a refractive index: its square, with what is below one
/// count dropped.
pub open spec fn epsilon_of_index(n: int) -> int {
    n * n / (EPSILON_UNIT as int)
}

/// Whether `n` is the refractive index of the dielectric constant `eps`: the largest
/// whole count whose square does not exceed `eps`, both in ten-thousandths.
pub open spec fn is_index_of(n: int, eps: int) -> bool {
    &&& 0 <= n
    &&& n * n <= eps * EPSILON_UNIT
    &&& eps * EPSILON_UNIT < (n + 1) * (n + 1)
}

/// The dielectric constant of each common material.
pub open spec fn common_epsilon(mat: CommonMaterials) -> u32 {
    match mat {
        CommonMaterials::Vacuum => EPSILON_VACUUM,
        CommonMaterials::Air => EPSILON_AIR,
        CommonMaterials::Silicon => EPSILON_SILICON,
        CommonMaterials::SiliconDioxide => EPSILON_SILICON_DIOXIDE,
        CommonMaterials::IndiumPhosphide => EPSILON_INDIUM_PHOSPHIDE,
    }
}

/// The refractive index of one dielectric constant.
fn index_of(eps: u32) -> (n: u32)
    ensures
        is_index_of(n as int, eps as int),
{
    let x: u64 = (eps as u64) * 10_000;
    let mut lo: u64 = 0;
    let mut hi: u64 = 6_553_600;
    assert(lo * lo <= x < hi * hi) by (nonlinear_arith)
        requires
            lo == 0,
            hi == 6_553_600,
            x <= 42_949_672_950_000,
    ;
    while hi - lo > 1
        invariant
            lo < hi <= 6_553_600,
            lo * lo <= x < hi * hi,
        decreases hi - lo,
    {
        let mid: u64 = lo + (hi - lo) / 2;
        assert(mid * mid <= 6_553_600 * 6_553_600) by (nonlinear_arith)
            requires
                mid <= 6_553_600,
        ;
        if mid * mid <= x {
            lo = mid;
        } else {
            hi = mid;
        }
    }
    lo as u32
}

impl Material {
    /// An isotropic material of refractive index `n`.
    pub fn new_from_n(n: u32) -> (m: Material)
        requires
            n <= MAX_REFRACTIVE_INDEX,
        ensures
            epsilon_of_index(n as int) <= u32::MAX,
            m.epsilon_matrix == diagonal_tensor(
                epsilon_of_index(n as int) as u32,
                epsilon_of_index(n as int) as u32,
                epsilon_of_index(n as int) as u32,
            ),
    {
        assert(n * n <= 6_553_599 * 6_553_599) by (nonlinear_arith)
            requires
                0 <= n <= 6_553_599,
        ;
        let eps: u64 = (n as u64) * (n as u64) / 10_000;
        Material { epsilon_matrix: DielectricTensor::from_diagonal_element(eps as u32) }
    }

    /// An isotropic material of dielectric constant `eps`.
    pub fn new_from_eps(eps: u32) -> (m: Material)
        ensures
            m.epsilon_matrix == diagonal_tensor(eps, eps, eps),
    {
        Material { epsilon_matrix: DielectricTensor::from_diagonal_element(eps) }
    }

    /// A material with one dielectric constant for each axis and a diagonal tensor.
    pub fn new_anisotropic(eps_x: u32, eps_y: u32, eps_z: u32) -> (m: Material)
        ensures
            m.epsilon_matrix == diagonal_tensor(eps_x, eps_y, eps_z),
    {
        Material { epsilon_matrix: DielectricTensor::from_diagonal(&(eps_x, eps_y, eps_z)) }
    }

    /// A material of the given tensor, all nine elements kept.
    pub fn new_from_tensor(epsilon_matrix: DielectricTensor) -> (m: Material)
        ensures
            m.epsilon_matrix == epsilon_matrix,
    {
        Material { epsilon_matrix }
    }

    /// Whether the three diagonal elements are equal.
    pub open spec fn isotropic(&self) -> bool {
        self.epsilon_matrix.m11 == self.epsilon_matrix.m22 && self.epsilon_matrix.m22
            == self.epsilon_matrix.m33
    }

    /// Whether the material has one constant for all directions.
    pub fn is_isotropic(&self) -> (b: bool)
        ensures
            b == self.isotropic(),
    {
        let d = self.epsilon_matrix.diagonal();
        d.0 == d.1 && d.1 == d.2
    }

    /// Whether the material's constants differ between axes.
    pub fn is_anisotropic(&self) -> (b: bool)
        ensures
            b == !self.isotropic(),
    {
        !self.is_isotropic()
    }

    /// The dielectric constant seen in the plane of the lattice: the first diagonal
    /// element.
    pub fn in_plane_eps(&self) -> (eps: u32)
        ensures
            eps == self.epsilon_matrix.m11,
    {
        self.epsilon_matrix.m11
    }

    /// The refractive index: the root of the dielectric constant, one for an isotropic
    /// material and one for each diagonal element otherwise.
    pub fn refractive_index(&self) -> (index: RefractiveIndex)
        ensures
            self.isotropic() ==> (index matches RefractiveIndex::Isotropic(n) && is_index_of(
                n as int,
                self.epsilon_matrix.m11 as int,
            )),
            !self.isotropic() ==> (index matches RefractiveIndex::Anisotropic(n) && is_index_of(
                n.0 as int,
                self.epsilon_matrix.m11 as int,
            ) && is_index_of(n.1 as int, self.epsilon_matrix.m22 as int) && is_index_of(
                n.2 as int,
                self.epsilon_matrix.m33 as int,
            )),
    {
        let d = self.epsilon_matrix.diagonal();
        if self.is_isotropic() {
            RefractiveIndex::Isotropic(index_of(d.0))
        } else {
            RefractiveIndex::Anisotropic((index_of(d.0), index_of(d.1), index_of(d.2)))
        }
    }

    /// The dielectric constant: one for an isotropic material, the tensor otherwise.
    pub fn dielectric_constants(&self) -> (eps: DielectricConstant)
        ensures
            eps == if self.isotropic() {
                DielectricConstant::Isotropic(self.epsilon_matrix.m11)
            } else {
                DielectricConstant::Anisotropic(self.epsilon_matrix)
            },
    {
        if self.is_isotropic() {
            DielectricConstant::Isotropic(self.epsilon_matrix.m11)
        } else {
            DielectricConstant::Anisotropic(self.epsilon_matrix)
        }
    }
}

impl Default for Material {
    /// Isotropic silicon.
    fn default() -> (m: Material)
        ensures
            m.epsilon_matrix == diagonal_tensor(EPSILON_SILICON, EPSILON_SILICON, EPSILON_SILICON),
    {
        Material::new_from_eps(EPSILON_SILICON)
    }
}

impl From<CommonMaterials> for Material {
    fn from(mat: CommonMaterials) -> (m: Material) {
        match mat {
            CommonMaterials::Vacuum => Material::new_from_eps(EPSILON_VACUUM),
            CommonMaterials::Air => Material::new_from_eps(EPSILON_AIR),
            CommonMaterials::Silicon => Material::new_from_eps(EPSILON_SILICON),
            CommonMaterials::IndiumPhosphide => Material::new_from_eps(EPSILON_INDIUM_PHOSPHIDE),
            CommonMaterials::SiliconDioxide => Material::new_from_eps(EPSILON_SILICON_DIOXIDE),
        }
    }
}

impl vstd::std_specs::convert::FromSpecImpl<CommonMaterials> for Material {
    open spec fn obeys_from_spec() -> bool {
        true
    }

    open spec fn from_spec(mat: CommonMaterials) -> Material {
        Material {
            epsilon_matrix: diagonal_tensor(
                common_epsilon(mat),
                common_epsilon(mat),
                common_epsilon(mat),
            ),
        }
    }
}

} // verus!
