use vstd::prelude::*;

verus! {

/// The in-plane area that two lattice vectors span: `|a1.x * a2.y - a1.y * a2.x|`.
pub open spec fn area_of(a1: (i32, i32, i32), a2: (i32, i32, i32)) -> int {
    let d = a1.0 * a2.1 - a1.1 * a2.0;
    if d >= 0 {
        d
    } else {
        -d
    }
}

/// The triple product `a1 . (a2 x a3)`.
pub open spec fn triple_product(a1: (i32, i32, i32), a2: (i32, i32, i32), a3: (i32, i32, i32)) -> int {
    a1.0 * (a2.1 * a3.2 - a2.2 * a3.1) + a1.1 * (a2.2 * a3.0 - a2.0 * a3.2) + a1.2 * (a2.0 * a3.1
        - a2.1 * a3.0)
}

/// `num / den` rounded to the nearest whole number, a half away from zero, for a
/// positive `den`.
pub open spec fn nearest(num: int, den: int) -> int {
    if num >= 0 {
        (2 * num + den) / (2 * den)
    } else {
        -((-2 * num + den) / (2 * den))
    }
}

/// The second basis vector of the triangular lattice of constant `a`:
/// `(a / 2, a * 0.86602540378, 0)`, each part rounded to the nearest whole count.
pub open spec fn triangular_second(a: int) -> (int, int, int) {
    (nearest(a, 2), nearest(a * 86_602_540_378, 100_000_000_000), 0)
}

/// The three basis vectors of a periodic structure, in whole length units.
#[derive(Debug, Clone, Copy, PartialEq, Eq)]
pub struct Lattice {
    pub a1: (i32, i32, i32),
    pub a2: (i32, i32, i32),
    pub a3: (i32, i32, i32),
}

proof fn lemma_product_i32(x: int, y: int)
    requires
        -0x8000_0000 <= x <= 0x8000_0000,
        -0x8000_0000 <= y <= 0x8000_0000,
    ensures
        -0x4000_0000_0000_0000 <= x * y <= 0x4000_0000_0000_0000,
{
    assert(-0x4000_0000_0000_0000 <= x * y <= 0x4000_0000_0000_0000) by (nonlinear_arith)
        requires
            -0x8000_0000 <= x <= 0x8000_0000,
            -0x8000_0000 <= y <= 0x8000_0000,
    ;
}

proof fn lemma_product_wide(x: int, y: int)
    requires
        -0x8000_0000 <= x <= 0x8000_0000,
        -0x8000_0000_0000_0000 <= y <= 0x8000_0000_0000_0000,
    ensures
        -0x4000_0000_0000_0000_0000_0000 <= x * y <= 0x4000_0000_0000_0000_0000_0000,
{
    assert(-0x4000_0000_0000_0000_0000_0000 <= x * y <= 0x4000_0000_0000_0000_0000_0000)
        by (nonlinear_arith)
        requires
            -0x8000_0000 <= x <= 0x8000_0000,
            -0x8000_0000_0000_0000 <= y <= 0x8000_0000_0000_0000,
    ;
}

fn cross_part(p: i32, q: i32, r: i32, s: i32) -> (d: i128)
    ensures
        d == p * q - r * s,
        -0x8000_0000_0000_0000 <= d <= 0x8000_0000_0000_0000,
{
    proof {
        lemma_product_i32(p as int, q as int);
        lemma_product_i32(r as int, s as int);
    }
    (p as i128) * (q as i128) - (r as i128) * (s as i128)
}

impl Lattice {
    /// The in-plane parts `(a1.x, a1.y)` and `(a2.x, a2.y)` of the first two vectors.
    pub fn in_plane_vectors(&self) -> (v: ((i32, i32), (i32, i32)))
        ensures
            v == ((self.a1.0, self.a1.1), (self.a2.0, self.a2.1)),
    {
        ((self.a1.0, self.a1.1), (self.a2.0, self.a2.1))
    }

    /// The area of the in-plane unit cell.
    pub fn unit_cell_area(&self) -> (area: u64)
        ensures
            area == area_of(self.a1, self.a2),
    {
        let d = cross_part(self.a1.0, self.a2.1, self.a1.1, self.a2.0);
        if d >= 0 {
            d as u64
        } else {
            (-d) as u64
        }
    }

    /// The volume of the unit cell: the magnitude of the triple product.
    pub fn unit_cell_volume(&self) -> (volume: u128)
        ensures
            volume == if triple_product(self.a1, self.a2, self.a3) >= 0 {
                triple_product(self.a1, self.a2, self.a3)
            } else {
                -triple_product(self.a1, self.a2, self.a3)
            },
    {
        let cx = cross_part(self.a2.1, self.a3.2, self.a2.2, self.a3.1);
        let cy = cross_part(self.a2.2, self.a3.0, self.a2.0, self.a3.2);
        let cz = cross_part(self.a2.0, self.a3.1, self.a2.1, self.a3.0);
        proof {
            lemma_product_wide(self.a1.0 as int, cx as int);
            lemma_product_wide(self.a1.1 as int, cy as int);
            lemma_product_wide(self.a1.2 as int, cz as int);
        }
        let v: i128 = (self.a1.0 as i128) * cx + (self.a1.1 as i128) * cy + (self.a1.2 as i128)
            * cz;
        if v >= 0 {
            v as u128
        } else {
            (-v) as u128
        }
    }
}

/// A lattice together with its kind.
#[derive(Debug, Clone, Copy, PartialEq, Eq)]
pub enum LatticeType {
    Square(Lattice),
    Triangular(Lattice),
}

fn divide_nearest(num: i128, den: i128) -> (q: i128)
    requires
        0 < den <= 100_000_000_000,
        -0x4000_0000_0000_0000_0000_0000 <= num <= 0x4000_0000_0000_0000_0000_0000,
    ensures
        q == nearest(num as int, den as int),
{
    if num >= 0 {
        (((2 * num + den) as u128) / ((2 * den) as u128)) as i128
    } else {
        let size: i128 = 0 - num;
        let q: u128 = ((2 * size + den) as u128) / ((2 * den) as u128);
        assert(q <= 2 * size + den);
        0 - (q as i128)
    }
}

impl LatticeType {
    /// The square lattice of constant `a` and height `h`: `a1 = (a, 0, 0)`,
    /// `a2 = (0, a, 0)`, `a3 = (0, 0, h)`.
    pub fn new_square(a: i32, h: i32) -> (lattice: LatticeType)
        ensures
            lattice == LatticeType::Square(
                Lattice { a1: (a, 0i32, 0i32), a2: (0i32, a, 0i32), a3: (0i32, 0i32, h) },
            ),
    {
        LatticeType::Square(Lattice { a1: (a, 0, 0), a2: (0, a, 0), a3: (0, 0, h) })
    }

    /// The triangular lattice of constant `a` and height `h`: `a1 = (a, 0, 0)`,
    /// `a2 = triangular_second(a)`, `a3 = (0, 0, h)`.
    pub fn new_triangular(a: i32, h: i32) -> (lattice: LatticeType)
        ensures
            lattice is Triangular,
            lattice.spec_lattice().a1 == (a, 0i32, 0i32),
            lattice.spec_lattice().a2.0 == triangular_second(a as int).0,
            lattice.spec_lattice().a2.1 == triangular_second(a as int).1,
            lattice.spec_lattice().a2.2 == 0,
            lattice.spec_lattice().a3 == (0i32, 0i32, h),
    {
        let half = divide_nearest(a as i128, 2);
        let rise = divide_nearest((a as i128) * 86_602_540_378, 100_000_000_000);
        LatticeType::Triangular(
            Lattice { a1: (a, 0, 0), a2: (half as i32, rise as i32, 0), a3: (0, 0, h) },
        )
    }

    /// The lattice, whatever its kind.
    pub open spec fn spec_lattice(&self) -> Lattice {
        match *self {
            LatticeType::Square(lat) => lat,
            LatticeType::Triangular(lat) => lat,
        }
    }

    /// The lattice, whatever its kind.
    pub fn lattice(&self) -> (lat: &Lattice)
        ensures
            *lat == self.spec_lattice(),
    {
        match self {
            LatticeType::Square(lat) => lat,
            LatticeType::Triangular(lat) => lat,
        }
    }
}

} // verus!
