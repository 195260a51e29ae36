use vstd::prelude::*;
use crate::angles::{cosine, cosine_of, sine, sine_of, ANGLE_UNIT, ROOT_THREE};
use crate::geometry::{AtomInCell, HoleShape, FRACTION_UNIT};
use crate::store::{array_get, array_rows, is_square, IntArray};

verus! {

/// The largest grid side that the engine takes, 16383: the largest whose samples, of
/// eight bytes each, can be allocated on every target (their bytes must not exceed
/// `isize::MAX`, which may be `2^31 - 1`). Up to this side every intermediate value of
/// the membership tests fits 128 bits, and the sum of a grid fits 64.
pub const MAX_GRID_SIZE: usize = 16383;

/// Why a grid or a coefficient table could not be made.
#[derive(Debug, Clone, Copy, PartialEq, Eq, Structural)]
pub enum EngineError {
    /// A lattice constant or grid side that is not positive, or sizes that do not agree.
    InvalidGeometry,
    /// A shape for which the rasterizer has no membership rule.
    UnsupportedShape,
}

/// What every coordinate is multiplied by so that it is a whole number: twice the grid
/// side times [`FRACTION_UNIT`].
pub open spec fn coordinate_scale(n: int) -> int {
    2 * n * FRACTION_UNIT
}

/// The offset from a shape's centre at fraction `frac` to the centre of pixel `index`,
/// along one axis, times `coordinate_scale(n)`.
///
/// The pixel centre lies at `(index - (n - 1) / 2) * a / n` and the shape's centre at
/// `frac / FRACTION_UNIT * a`.
pub open spec fn scaled_offset(a: int, index: int, n: int, frac: int) -> int {
    a * ((2 * index - (n - 1)) * FRACTION_UNIT - 2 * n * frac)
}

/// A length of the shape, times `coordinate_scale(n)`.
pub open spec fn scaled_length(len: int, n: int) -> int {
    len * coordinate_scale(n)
}

/// Whether `(x, y)` lies in the closed disc of radius `r` about the origin.
pub open spec fn in_circle(x: int, y: int, r: int) -> bool {
    x * x + y * y <= r * r
}

/// Whether `sqrt(3) * p <= q`, decided on whole numbers.
pub open spec fn sqrt3_times_at_most(p: int, q: int) -> bool {
    if p <= 0 {
        q >= 0 || 3 * p * p >= q * q
    } else {
        q >= 0 && 3 * p * p <= q * q
    }
}

/// Whether `(x, y)` lies in the canonical equilateral triangle of side `s`: centroid at
/// the origin, one side parallel to the x axis below it, apex on the positive y axis.
/// Its three closed half-planes are `y >= -s / (2 sqrt 3)` and
/// `sqrt(3) * y <= s - 3 x`, `sqrt(3) * y <= s + 3 x`.
pub open spec fn in_equilateral(x: int, y: int, s: int) -> bool {
    &&& sqrt3_times_at_most(-2 * y, s)
    &&& sqrt3_times_at_most(y, s - 3 * x)
    &&& sqrt3_times_at_most(y, s + 3 * x)
}

/// Whether `(x, y)` lies in the canonical right-angled isosceles triangle of leg `l`:
/// centroid at the origin, the legs parallel to the axes, the right angle at
/// `(-l / 3, -l / 3)`. Its three closed half-planes are `x >= -l / 3`, `y >= -l / 3`
/// and `x + y <= l / 3`.
pub open spec fn in_right_isosceles(x: int, y: int, l: int) -> bool {
    &&& 3 * x >= -l
    &&& 3 * y >= -l
    &&& 3 * (x + y) <= l
}

/// Whether a rotation is a whole number of quarter turns.
pub open spec fn whole_quarter_turns(degrees: int) -> bool {
    degrees % 90 == 0
}

/// The quarter turns, 0 to 3, in a rotation that is a whole number of them.
pub open spec fn quarter_turns(degrees: int) -> int {
    (degrees % 360) / 90
}

/// `(x, y)` turned clockwise by `turns` quarter turns: the point as the canonical frame
/// of a shape rotated counter-clockwise by as much sees it.
pub open spec fn turned_back(x: int, y: int, turns: int) -> (int, int) {
    if turns == 0 {
        (x, y)
    } else if turns == 1 {
        (y, -x)
    } else if turns == 2 {
        (-x, -y)
    } else {
        (-y, x)
    }
}

/// `(x, y)` turned clockwise by `degrees`, times [`ANGLE_UNIT`]: the point as the
/// canonical frame of a shape rotated counter-clockwise by as much sees it,
/// `(x cos + y sin, y cos - x sin)`, with the sine and cosine of the table.
pub open spec fn rotated_back(x: int, y: int, degrees: int) -> (int, int) {
    (cosine(degrees) * x + sine(degrees) * y, cosine(degrees) * y - sine(degrees) * x)
}

/// Whether `(x / ANGLE_UNIT, y / ANGLE_UNIT)` lies in the canonical equilateral triangle
/// of side `s`, with [`ROOT_THREE`] for the square root of three: the half-planes of
/// `in_equilateral`, each multiplied through by `ANGLE_UNIT * ANGLE_UNIT`.
pub open spec fn in_equilateral_rounded(x: int, y: int, s: int) -> bool {
    &&& 2 * ROOT_THREE * y >= -(s * ANGLE_UNIT * ANGLE_UNIT)
    &&& ROOT_THREE * y <= s * ANGLE_UNIT * ANGLE_UNIT - 3 * ANGLE_UNIT * x
    &&& ROOT_THREE * y <= s * ANGLE_UNIT * ANGLE_UNIT + 3 * ANGLE_UNIT * x
}

/// Whether the rasterizer can draw `shape`: a circle or a triangle.
pub open spec fn shape_supported(shape: HoleShape) -> bool {
    match shape {
        HoleShape::Circle { .. } => true,
        HoleShape::Square { .. } => false,
        HoleShape::Rectangle { .. } => false,
        HoleShape::EquilateralTriangle { .. } => true,
        HoleShape::RightAngledIsosceles { .. } => true,
    }
}

/// Whether `shape`, with its centre at the origin, contains the point `(x, y)`; every
/// length of the shape is multiplied by `scale`, as the point's coordinates are. A
/// shape without a membership rule contains nothing.
///
/// The circle is decided exactly, and so is the equilateral triangle at a whole
/// number of quarter turns. At any other rotation the point is turned by the sine and
/// cosine of the table and the triangle's slanted sides take [`ROOT_THREE`]. The
/// right-angled triangle is turned by the table at every rotation, which at a whole
/// number of quarter turns is exact.
pub open spec fn shape_contains(shape: HoleShape, x: int, y: int, scale: int) -> bool {
    match shape {
        HoleShape::Circle { radius } => in_circle(x, y, radius * scale),
        HoleShape::Square { .. } => false,
        HoleShape::Rectangle { .. } => false,
        HoleShape::EquilateralTriangle { side, rotation_degrees } => {
            if whole_quarter_turns(rotation_degrees as int) {
                let p = turned_back(x, y, quarter_turns(rotation_degrees as int));
                in_equilateral(p.0, p.1, side * scale)
            } else {
                let p = rotated_back(x, y, rotation_degrees as int);
                in_equilateral_rounded(p.0, p.1, side * scale)
            }
        },
        HoleShape::RightAngledIsosceles { leg, rotation_degrees } => {
            let p = rotated_back(x, y, rotation_degrees as int);
            in_right_isosceles(p.0, p.1, leg * scale * ANGLE_UNIT)
        },
    }
}

/// Whether `atom` covers the centre of pixel `(i, j)` of an `n` by `n` grid over a
/// unit cell of lattice constant `a`. The first index runs along x, the second along y.
pub open spec fn atom_covers(atom: AtomInCell, a: int, n: int, i: int, j: int) -> bool {
    shape_contains(
        atom.shape,
        scaled_offset(a, i, n, atom.center.0 as int),
        scaled_offset(a, j, n, atom.center.1 as int),
        coordinate_scale(n),
    )
}

/// The sample at pixel `(i, j)`: the dielectric constant of the last atom of `atoms`
/// that covers the pixel's centre, or `background` where none does.
pub open spec fn pixel_value(
    atoms: Seq<AtomInCell>,
    a: int,
    background: int,
    n: int,
    i: int,
    j: int,
) -> int
    decreases atoms.len(),
{
    if atoms.len() == 0 {
        background
    } else if atom_covers(atoms.last(), a, n, i, j) {
        atoms.last().material.epsilon_matrix.m11 as int
    } else {
        pixel_value(atoms.drop_last(), a, background, n, i, j)
    }
}

/// The bound on a scaled coordinate: the largest lattice constant times the largest
/// offset, `(MAX_GRID_SIZE - 1) * FRACTION_UNIT + 2 * MAX_GRID_SIZE * 32768`.
pub open spec fn coordinate_limit() -> int {
    5_315_006_084_643_900_960
}

/// The bound on a scaled length: the largest length times the largest scale.
pub open spec fn length_limit() -> int {
    1_407_288_983_879_700_000
}

proof fn lemma_product_within(x: int, y: int, bx: int, by: int)
    requires
        -bx <= x <= bx,
        -by <= y <= by,
    ensures
        -(bx * by) <= x * y <= bx * by,
{
    assert(-(bx * by) <= x * y <= bx * by) by (nonlinear_arith)
        requires
            -bx <= x <= bx,
            -by <= y <= by,
    ;
}

fn offset_of(a: u32, index: usize, n: usize, frac: i16) -> (x: i128)
    requires
        1 <= n <= MAX_GRID_SIZE,
        index < n,
    ensures
        x == scaled_offset(a as int, index as int, n as int, frac as int),
        -coordinate_limit() <= x <= coordinate_limit(),
{
    let pixel: i128 = (2 * (index as i128) - (n as i128 - 1)) * 10_000;
    let span: i128 = 2 * (n as i128);
    proof {
        lemma_product_within(span as int, frac as int, 32_766, 32768);
    }
    let inner: i128 = pixel - span * (frac as i128);
    proof {
        assert(2 * n * frac == span * frac) by (nonlinear_arith)
            requires
                span == 2 * n,
        ;
        lemma_product_within(a as int, inner as int, 0xffff_ffff, 1_237_496_288);
    }
    (a as i128) * inner
}

fn length_of(len: u32, n: usize) -> (l: i128)
    requires
        1 <= n <= MAX_GRID_SIZE,
    ensures
        l == scaled_length(len as int, n as int),
        0 <= l <= length_limit(),
{
    let scale: i128 = 2 * (n as i128) * 10_000;
    proof {
        lemma_product_within(len as int, scale as int, 0xffff_ffff, 327_660_000);
        assert(0 <= len * scale) by (nonlinear_arith)
            requires
                0 <= len,
                0 <= scale,
        ;
    }
    (len as i128) * scale
}

fn circle_test(x: i128, y: i128, r: i128) -> (b: bool)
    requires
        -coordinate_limit() <= x <= coordinate_limit(),
        -coordinate_limit() <= y <= coordinate_limit(),
        -coordinate_limit() <= r <= coordinate_limit(),
    ensures
        b == in_circle(x as int, y as int, r as int),
{
    proof {
        lemma_product_within(x as int, x as int, 5_315_006_084_643_900_960, 5_315_006_084_643_900_960);
        lemma_product_within(y as int, y as int, 5_315_006_084_643_900_960, 5_315_006_084_643_900_960);
        lemma_product_within(r as int, r as int, 5_315_006_084_643_900_960, 5_315_006_084_643_900_960);
    }
    x * x + y * y <= r * r
}

fn magnitude(v: i128) -> (m: u128)
    requires
        v > i128::MIN,
    ensures
        m == if v >= 0 {
            v as int
        } else {
            -v
        },
{
    if v >= 0 {
        v as u128
    } else {
        (-v) as u128
    }
}

fn sqrt3_test(p: i128, q: i128) -> (b: bool)
    requires
        -2 * coordinate_limit() <= p <= 2 * coordinate_limit(),
        -(length_limit() + 3 * coordinate_limit()) <= q <= length_limit() + 3 * coordinate_limit(),
    ensures
        b == sqrt3_times_at_most(p as int, q as int),
{
    let pm = magnitude(p);
    let qm = magnitude(q);
    proof {
        lemma_product_within(3 * pm as int, pm as int, 31_890_036_507_863_405_760, 10_630_012_169_287_801_920);
        lemma_product_within(qm as int, qm as int, 17_352_307_237_811_402_880, 17_352_307_237_811_402_880);
        assert(3 * p * p == 3 * pm * pm && q * q == qm * qm) by (nonlinear_arith)
            requires
                pm == p || pm == -p,
                qm == q || qm == -q,
        ;
    }
    let triple: u128 = 3 * pm;
    let pp: u128 = triple * pm;
    let qq: u128 = qm * qm;
    if p <= 0 {
        q >= 0 || pp >= qq
    } else {
        q >= 0 && pp <= qq
    }
}

fn equilateral_test(x: i128, y: i128, s: i128) -> (b: bool)
    requires
        -coordinate_limit() <= x <= coordinate_limit(),
        -coordinate_limit() <= y <= coordinate_limit(),
        0 <= s <= length_limit(),
    ensures
        b == in_equilateral(x as int, y as int, s as int),
{
    let below: i128 = 0 - 2 * y;
    sqrt3_test(below, s) && sqrt3_test(y, s - 3 * x) && sqrt3_test(y, s + 3 * x)
}

/// The bound on a coordinate once it is turned by the table: twice [`ANGLE_UNIT`]
/// times `coordinate_limit()`.
pub open spec fn rotated_limit() -> int {
    11_413_888_655_793_281_214_531_502_080
}

fn rotate_back(x: i128, y: i128, degrees: i32) -> (p: (i128, i128))
    requires
        -coordinate_limit() <= x <= coordinate_limit(),
        -coordinate_limit() <= y <= coordinate_limit(),
    ensures
        (p.0 as int, p.1 as int) == rotated_back(x as int, y as int, degrees as int),
        -rotated_limit() <= p.0 <= rotated_limit(),
        -rotated_limit() <= p.1 <= rotated_limit(),
{
    let c: i128 = cosine_of(degrees) as i128;
    let s: i128 = sine_of(degrees) as i128;
    proof {
        lemma_product_within(c as int, x as int, 0x4000_0000, 5_315_006_084_643_900_960);
        lemma_product_within(s as int, y as int, 0x4000_0000, 5_315_006_084_643_900_960);
        lemma_product_within(c as int, y as int, 0x4000_0000, 5_315_006_084_643_900_960);
        lemma_product_within(s as int, x as int, 0x4000_0000, 5_315_006_084_643_900_960);
    }
    (c * x + s * y, c * y - s * x)
}

fn equilateral_rounded_test(x: i128, y: i128, s: i128) -> (b: bool)
    requires
        -rotated_limit() <= x <= rotated_limit(),
        -rotated_limit() <= y <= rotated_limit(),
        0 <= s <= length_limit(),
    ensures
        b == in_equilateral_rounded(x as int, y as int, s as int),
{
    let unit: i128 = 1_073_741_824;
    let root: i128 = 1_859_775_393;
    let square: i128 = unit * unit;
    proof {
        lemma_product_within(s as int, square as int, 1_407_288_983_879_700_000, 0x1000_0000_0000_0000);
        lemma_product_within(
            root as int,
            y as int,
            0x8000_0000,
            11_413_888_655_793_281_214_531_502_080,
        );
        lemma_product_within(
            3 * unit as int,
            x as int,
            0xc000_0000,
            11_413_888_655_793_281_214_531_502_080,
        );
        assert(s * ANGLE_UNIT * ANGLE_UNIT == s * square) by (nonlinear_arith)
            requires
                square == ANGLE_UNIT * ANGLE_UNIT,
        ;
    }
    let reach: i128 = s * square;
    let rise: i128 = root * y;
    let run: i128 = 3 * unit * x;
    proof {
        assert(reach == s * ANGLE_UNIT * ANGLE_UNIT);
        assert(rise == ROOT_THREE * y);
        assert(2 * ROOT_THREE * y == 2 * rise) by (nonlinear_arith)
            requires
                rise == ROOT_THREE * y,
        ;
        assert(run == 3 * ANGLE_UNIT * x);
    }
    2 * rise >= -reach && rise <= reach - run && rise <= reach + run
}

fn right_isosceles_test(x: i128, y: i128, l: i128) -> (b: bool)
    requires
        -rotated_limit() <= x <= rotated_limit(),
        -rotated_limit() <= y <= rotated_limit(),
        0 <= l <= rotated_limit(),
    ensures
        b == in_right_isosceles(x as int, y as int, l as int),
{
    3 * x >= -l && 3 * y >= -l && 3 * (x + y) <= l
}

/// The quarter turns in `degrees`, where it is a whole number of them.
pub fn quarter_turns_of(degrees: i32) -> (turns: Option<u8>)
    ensures
        turns is Some <==> whole_quarter_turns(degrees as int),
        turns is Some ==> turns.unwrap() == quarter_turns(degrees as int),
{
    // 2_147_483_880 is the least multiple of 360 that lifts every `i32` above zero.
    let lifted: i64 = degrees as i64 + 2_147_483_880;
    assert(lifted % 360 == (degrees as int) % 360);
    assert(lifted % 90 == (degrees as int) % 90);
    if lifted % 90 != 0 {
        None
    } else {
        let turns: i64 = (lifted % 360) / 90;
        Some(turns as u8)
    }
}

fn turn_back(x: i128, y: i128, turns: u8) -> (p: (i128, i128))
    requires
        -coordinate_limit() <= x <= coordinate_limit(),
        -coordinate_limit() <= y <= coordinate_limit(),
    ensures
        (p.0 as int, p.1 as int) == turned_back(x as int, y as int, turns as int),
        -coordinate_limit() <= p.0 <= coordinate_limit(),
        -coordinate_limit() <= p.1 <= coordinate_limit(),
{
    if turns == 0 {
        (x, y)
    } else if turns == 1 {
        (y, -x)
    } else if turns == 2 {
        (-x, -y)
    } else {
        (-y, x)
    }
}

/// Whether the rasterizer can draw `shape`.
pub fn is_supported(shape: &HoleShape) -> (b: bool)
    ensures
        b == shape_supported(*shape),
{
    match shape {
        HoleShape::Circle { .. } => true,
        HoleShape::Square { .. } => false,
        HoleShape::Rectangle { .. } => false,
        HoleShape::EquilateralTriangle { .. } => true,
        HoleShape::RightAngledIsosceles { .. } => true,
    }
}

/// Whether `atom` covers the centre of pixel `(i, j)`.
pub fn covers(atom: &AtomInCell, a: u32, n: usize, i: usize, j: usize) -> (b: bool)
    requires
        1 <= n <= MAX_GRID_SIZE,
        i < n,
        j < n,
    ensures
        b == atom_covers(*atom, a as int, n as int, i as int, j as int),
{
    let x = offset_of(a, i, n, atom.center.0);
    let y = offset_of(a, j, n, atom.center.1);
    match atom.shape {
        HoleShape::Circle { radius } => {
            let r = length_of(radius, n);
            circle_test(x, y, r)
        },
        HoleShape::Square { .. } => false,
        HoleShape::Rectangle { .. } => false,
        HoleShape::EquilateralTriangle { side, rotation_degrees } => {
            let s = length_of(side, n);
            match quarter_turns_of(rotation_degrees) {
                Some(turns) => {
                    let p = turn_back(x, y, turns);
                    equilateral_test(p.0, p.1, s)
                },
                None => {
                    let p = rotate_back(x, y, rotation_degrees);
                    equilateral_rounded_test(p.0, p.1, s)
                },
            }
        },
        HoleShape::RightAngledIsosceles { leg, rotation_degrees } => {
            let p = rotate_back(x, y, rotation_degrees);
            let l = length_of(leg, n);
            proof {
                lemma_product_within(l as int, ANGLE_UNIT as int, 1_407_288_983_879_700_000, 0x4000_0000);
            }
            right_isosceles_test(p.0, p.1, l * 1_073_741_824)
        },
    }
}

/// Whether the rasterizer can draw every shape of `atoms`.
pub open spec fn all_supported(atoms: Seq<AtomInCell>) -> bool {
    forall|k: int| 0 <= k < atoms.len() ==> shape_supported((#[trigger] atoms[k]).shape)
}

/// The grid of side `n` that `atoms` give over `background`: row `i`, column `j` holds
/// `pixel_value` at `(i, j)`.
pub open spec fn rasterized(atoms: Seq<AtomInCell>, a: int, background: int, n: int) -> Seq<
    Seq<int>,
> {
    Seq::new(
        n as nat,
        |i: int| Seq::new(n as nat, |j: int| pixel_value(atoms, a, background, n, i, j)),
    )
}

/// A sample is the background or the constant of one of the atoms.
pub proof fn lemma_pixel_value_source(
    atoms: Seq<AtomInCell>,
    a: int,
    background: int,
    n: int,
    i: int,
    j: int,
)
    ensures
        pixel_value(atoms, a, background, n, i, j) == background || exists|k: int|
            0 <= k < atoms.len() && atom_covers(atoms[k], a, n, i, j) && pixel_value(
                atoms,
                a,
                background,
                n,
                i,
                j,
            ) == #[trigger] atoms[k].material.epsilon_matrix.m11,
    decreases atoms.len(),
{
    if atoms.len() > 0 && !atom_covers(atoms.last(), a, n, i, j) {
        lemma_pixel_value_source(atoms.drop_last(), a, background, n, i, j);
        let v = pixel_value(atoms, a, background, n, i, j);
        if v != background {
            let k = choose|k: int|
                0 <= k < atoms.drop_last().len() && atom_covers(atoms.drop_last()[k], a, n, i, j)
                    && v == #[trigger] atoms.drop_last()[k].material.epsilon_matrix.m11;
            assert(atoms[k] == atoms.drop_last()[k]);
        }
    } else if atoms.len() > 0 {
        assert(atoms[atoms.len() - 1] == atoms.last());
    }
}

/// Where no atom covers the pixel, the sample is the background.
pub proof fn lemma_uncovered_pixel_is_background(
    atoms: Seq<AtomInCell>,
    a: int,
    background: int,
    n: int,
    i: int,
    j: int,
)
    requires
        forall|k: int| 0 <= k < atoms.len() ==> !atom_covers(#[trigger] atoms[k], a, n, i, j),
    ensures
        pixel_value(atoms, a, background, n, i, j) == background,
    decreases atoms.len(),
{
    if atoms.len() > 0 {
        let rest = atoms.drop_last();
        assert forall|k: int| 0 <= k < rest.len() implies !atom_covers(
            #[trigger] rest[k],
            a,
            n,
            i,
            j,
        ) by {
            assert(rest[k] == atoms[k]);
        }
        lemma_uncovered_pixel_is_background(rest, a, background, n, i, j);
    }
}

/// Later atoms overwrite earlier ones: where atom `k` covers the pixel and none after
/// it does, the sample is the constant of atom `k`, whatever the atoms before it are.
pub proof fn lemma_last_cover_wins(
    atoms: Seq<AtomInCell>,
    a: int,
    background: int,
    n: int,
    i: int,
    j: int,
    k: int,
)
    requires
        0 <= k < atoms.len(),
        atom_covers(atoms[k], a, n, i, j),
        forall|m: int| k < m < atoms.len() ==> !atom_covers(#[trigger] atoms[m], a, n, i, j),
    ensures
        pixel_value(atoms, a, background, n, i, j) == atoms[k].material.epsilon_matrix.m11,
    decreases atoms.len(),
{
    if k < atoms.len() - 1 {
        let rest = atoms.drop_last();
        assert(rest[k] == atoms[k]);
        assert forall|m: int| k < m < rest.len() implies !atom_covers(
            #[trigger] rest[m],
            a,
            n,
            i,
            j,
        ) by {
            assert(rest[m] == atoms[m]);
        }
        lemma_last_cover_wins(rest, a, background, n, i, j, k);
    }
}

/// An `n` by `n` grid of dielectric constants over the unit cell.
pub struct DielectricGrid {
    cells: IntArray,
    size: usize,
}

impl DielectricGrid {
    /// The samples, row by row.
    pub closed spec fn view(&self) -> Seq<Seq<int>> {
        Seq::new(
            self.size as nat,
            |i: int| Seq::new(self.size as nat, |j: int| array_rows(self.cells)[i][j] as int),
        )
    }

    /// The side of the grid.
    pub closed spec fn side(&self) -> int {
        self.size as int
    }

    /// Whether the samples are stored as a square of the grid's side.
    pub closed spec fn stored(&self) -> bool {
        is_square(array_rows(self.cells), self.size as int)
    }

    /// A grid is square, of a side from 1 to [`MAX_GRID_SIZE`], and no sample is
    /// negative or above `u32::MAX`.
    pub open spec fn wf(&self) -> bool {
        &&& self.stored()
        &&& 1 <= self.side() <= MAX_GRID_SIZE
        &&& self@.len() == self.side()
        &&& forall|i: int| 0 <= i < self.side() ==> (#[trigger] self@[i]).len() == self.side()
        &&& forall|i: int, j: int|
            0 <= i < self.side() && 0 <= j < self.side() ==> 0 <= (#[trigger] self@[i][j])
                <= u32::MAX
    }

    /// The grid that holds `cells`.
    pub(crate) fn from_cells(cells: IntArray, size: usize) -> (grid: DielectricGrid)
        requires
            is_square(array_rows(cells), size as int),
        ensures
            grid.stored(),
            grid.side() == size,
            grid@.len() == size,
            forall|i: int| 0 <= i < size ==> (#[trigger] grid@[i]).len() == size,
            forall|i: int, j: int|
                0 <= i < size && 0 <= j < size ==> (#[trigger] grid@[i][j]) == array_rows(
                    cells,
                )[i][j],
    {
        DielectricGrid { cells, size }
    }

    /// The side of the grid.
    pub fn size(&self) -> (n: usize)
        ensures
            n == self.side(),
    {
        self.size
    }

    /// The sample at row `i`, column `j`.
    pub fn sample(&self, i: usize, j: usize) -> (value: i64)
        requires
            self.wf(),
            i < self.side(),
            j < self.side(),
        ensures
            value == self@[i as int][j as int],
    {
        array_get(&self.cells, i, j)
    }
}


} // verus!
