use vstd::prelude::*;
use crate::engine::{engine_outcome, made_through, outcome};
use crate::fourier::{field_rows, grid_sum, rows_of, table_for, zero_mean, Coefficient, FourierTable};
use crate::raster::{all_supported, shape_supported, EngineError};
use crate::geometry::{AtomInCell, HoleShape};
use crate::angles::{cosine, sine, ANGLE_UNIT, ROOT_THREE};
use crate::raster::{
    atom_covers, coordinate_scale, in_circle, in_equilateral, in_equilateral_rounded,
    in_right_isosceles, pixel_value, quarter_turns, rasterized, rotated_back, scaled_offset,
    shape_contains, sqrt3_times_at_most, turned_back, whole_quarter_turns,
};

verus! {

/// Whether `big` is `shape` with every length multiplied by `k` and the rotation kept.
pub open spec fn is_scaled_shape(shape: HoleShape, big: HoleShape, k: int) -> bool {
    match shape {
        HoleShape::Circle { radius } => big matches HoleShape::Circle { radius: r } && r == k
            * radius,
        HoleShape::Square { side } => big matches HoleShape::Square { side: s } && s == k * side,
        HoleShape::Rectangle { width, height } => big matches HoleShape::Rectangle {
            width: w,
            height: h,
        } && w == k * width && h == k * height,
        HoleShape::EquilateralTriangle { side, rotation_degrees } => big matches HoleShape::EquilateralTriangle {
            side: s,
            rotation_degrees: d,
        } && s == k * side && d == rotation_degrees,
        HoleShape::RightAngledIsosceles { leg, rotation_degrees } => big matches HoleShape::RightAngledIsosceles {
            leg: l,
            rotation_degrees: d,
        } && l == k * leg && d == rotation_degrees,
    }
}

/// Whether `big` holds the atoms of `atoms`, each with the same fractional centre and
/// material and with its shape scaled by `k`.
pub open spec fn is_scaled_base(atoms: Seq<AtomInCell>, big: Seq<AtomInCell>, k: int) -> bool {
    &&& big.len() == atoms.len()
    &&& forall|m: int|
        0 <= m < atoms.len() ==> {
            &&& (#[trigger] big[m]).center == atoms[m].center
            &&& big[m].material == atoms[m].material
            &&& is_scaled_shape(atoms[m].shape, big[m].shape, k)
        }
}

proof fn lemma_order_scales(k: int, p: int, q: int)
    requires
        k > 0,
    ensures
        (k * p <= k * q) == (p <= q),
        (k * p >= 0) == (p >= 0),
        (k * p <= 0) == (p <= 0),
{
    assert((k * p <= k * q) == (p <= q)) by (nonlinear_arith)
        requires
            k > 0,
    ;
    assert((k * p >= 0) == (p >= 0)) by (nonlinear_arith)
        requires
            k > 0,
    ;
    assert((k * p <= 0) == (p <= 0)) by (nonlinear_arith)
        requires
            k > 0,
    ;
}

proof fn lemma_square_scales(k: int, x: int)
    ensures
        (k * x) * (k * x) == (k * k) * (x * x),
{
    assert((k * x) * (k * x) == (k * k) * (x * x)) by (nonlinear_arith);
}

proof fn lemma_circle_scales(k: int, x: int, y: int, r: int)
    requires
        k > 0,
    ensures
        in_circle(k * x, k * y, k * r) == in_circle(x, y, r),
{
    lemma_square_scales(k, x);
    lemma_square_scales(k, y);
    lemma_square_scales(k, r);
    let kk = k * k;
    assert(kk > 0) by (nonlinear_arith)
        requires
            k > 0,
            kk == k * k,
    ;
    assert(kk * (x * x) + kk * (y * y) == kk * (x * x + y * y)) by (nonlinear_arith);
    lemma_order_scales(kk, x * x + y * y, r * r);
}

proof fn lemma_sqrt3_scales(k: int, p: int, q: int)
    requires
        k > 0,
    ensures
        sqrt3_times_at_most(k * p, k * q) == sqrt3_times_at_most(p, q),
{
    lemma_square_scales(k, p);
    lemma_square_scales(k, q);
    let kk = k * k;
    assert(kk > 0) by (nonlinear_arith)
        requires
            k > 0,
            kk == k * k,
    ;
    assert(3 * (k * p) * (k * p) == kk * (3 * p * p)) by (nonlinear_arith)
        requires
            kk == k * k,
    ;
    lemma_order_scales(kk, 3 * p * p, q * q);
    lemma_order_scales(kk, q * q, 3 * p * p);
    lemma_order_scales(k, p, q);
    lemma_order_scales(k, q, p);
}

proof fn lemma_equilateral_scales(k: int, x: int, y: int, s: int)
    requires
        k > 0,
    ensures
        in_equilateral(k * x, k * y, k * s) == in_equilateral(x, y, s),
{
    assert(-2 * (k * y) == k * (-2 * y)) by (nonlinear_arith);
    assert(k * s - 3 * (k * x) == k * (s - 3 * x)) by (nonlinear_arith);
    assert(k * s + 3 * (k * x) == k * (s + 3 * x)) by (nonlinear_arith);
    lemma_sqrt3_scales(k, -2 * y, s);
    lemma_sqrt3_scales(k, y, s - 3 * x);
    lemma_sqrt3_scales(k, y, s + 3 * x);
}

proof fn lemma_right_isosceles_scales(k: int, x: int, y: int, l: int)
    requires
        k > 0,
    ensures
        in_right_isosceles(k * x, k * y, k * l) == in_right_isosceles(x, y, l),
{
    assert(3 * (k * x) == k * (3 * x)) by (nonlinear_arith);
    assert(3 * (k * y) == k * (3 * y)) by (nonlinear_arith);
    assert(3 * (k * x + k * y) == k * (3 * (x + y))) by (nonlinear_arith);
    assert(-(k * l) == k * (-l)) by (nonlinear_arith);
    lemma_order_scales(k, -l, 3 * x);
    lemma_order_scales(k, -l, 3 * y);
    lemma_order_scales(k, 3 * (x + y), l);
}

proof fn lemma_turn_scales(k: int, x: int, y: int, turns: int)
    ensures
        turned_back(k * x, k * y, turns) == (
            k * turned_back(x, y, turns).0,
            k * turned_back(x, y, turns).1,
        ),
{
    assert(-(k * x) == k * (-x)) by (nonlinear_arith);
    assert(-(k * y) == k * (-y)) by (nonlinear_arith);
}

proof fn lemma_rotation_scales(k: int, x: int, y: int, degrees: int)
    ensures
        rotated_back(k * x, k * y, degrees) == (
            k * rotated_back(x, y, degrees).0,
            k * rotated_back(x, y, degrees).1,
        ),
{
    let c = cosine(degrees);
    let s = sine(degrees);
    assert(c * (k * x) + s * (k * y) == k * (c * x + s * y)) by (nonlinear_arith);
    assert(c * (k * y) - s * (k * x) == k * (c * y - s * x)) by (nonlinear_arith);
}

proof fn lemma_equilateral_rounded_scales(k: int, x: int, y: int, s: int)
    requires
        k > 0,
    ensures
        in_equilateral_rounded(k * x, k * y, k * s) == in_equilateral_rounded(x, y, s),
{
    let u = ANGLE_UNIT as int;
    let r = ROOT_THREE as int;
    assert(2 * r * (k * y) == k * (2 * r * y)) by (nonlinear_arith);
    assert(r * (k * y) == k * (r * y)) by (nonlinear_arith);
    assert(-((k * s) * u * u) == k * (-(s * u * u))) by (nonlinear_arith);
    assert((k * s) * u * u - 3 * u * (k * x) == k * (s * u * u - 3 * u * x)) by (nonlinear_arith);
    assert((k * s) * u * u + 3 * u * (k * x) == k * (s * u * u + 3 * u * x)) by (nonlinear_arith);
    lemma_order_scales(k, -(s * u * u), 2 * r * y);
    lemma_order_scales(k, r * y, s * u * u - 3 * u * x);
    lemma_order_scales(k, r * y, s * u * u + 3 * u * x);
}

/// A shape scaled by `k` contains the point scaled by `k` exactly when the shape
/// contains the point.
pub proof fn lemma_shape_scales(shape: HoleShape, big: HoleShape, k: int, x: int, y: int, scale: int)
    requires
        k > 0,
        is_scaled_shape(shape, big, k),
    ensures
        shape_contains(big, k * x, k * y, scale) == shape_contains(shape, x, y, scale),
{
    match shape {
        HoleShape::Circle { radius } => {
            assert((k * radius) * scale == k * (radius * scale)) by (nonlinear_arith);
            lemma_circle_scales(k, x, y, radius * scale);
        },
        HoleShape::Square { .. } => {},
        HoleShape::Rectangle { .. } => {},
        HoleShape::EquilateralTriangle { side, rotation_degrees } => {
            assert((k * side) * scale == k * (side * scale)) by (nonlinear_arith);
            if whole_quarter_turns(rotation_degrees as int) {
                let turns = quarter_turns(rotation_degrees as int);
                lemma_turn_scales(k, x, y, turns);
                let p = turned_back(x, y, turns);
                lemma_equilateral_scales(k, p.0, p.1, side * scale);
            } else {
                lemma_rotation_scales(k, x, y, rotation_degrees as int);
                let p = rotated_back(x, y, rotation_degrees as int);
                lemma_equilateral_rounded_scales(k, p.0, p.1, side * scale);
            }
        },
        HoleShape::RightAngledIsosceles { leg, rotation_degrees } => {
            lemma_rotation_scales(k, x, y, rotation_degrees as int);
            let p = rotated_back(x, y, rotation_degrees as int);
            assert((k * leg) * scale * ANGLE_UNIT == k * (leg * scale * ANGLE_UNIT))
                by (nonlinear_arith);
            lemma_right_isosceles_scales(k, p.0, p.1, leg * scale * ANGLE_UNIT);
        },
    }
}

/// At a whole number of quarter turns the table turns a point exactly: the
/// right-angled triangle then holds the points that the exact quarter turn gives it.
pub proof fn lemma_right_isosceles_exact_at_quarter_turns(
    leg: u32,
    rotation_degrees: i32,
    x: int,
    y: int,
    scale: int,
)
    requires
        whole_quarter_turns(rotation_degrees as int),
    ensures
        shape_contains(HoleShape::RightAngledIsosceles { leg, rotation_degrees }, x, y, scale) == {
            let p = turned_back(x, y, quarter_turns(rotation_degrees as int));
            in_right_isosceles(p.0, p.1, leg * scale)
        },
{
    let d = rotation_degrees as int;
    let u = ANGLE_UNIT as int;
    let p = turned_back(x, y, quarter_turns(d));
    assert(d % 360 == 0 || d % 360 == 90 || d % 360 == 180 || d % 360 == 270);
    assert((d + 90) % 360 == (d % 360 + 90) % 360);
    assert(rotated_back(x, y, d) == (u * p.0, u * p.1)) by {
        if d % 360 == 0 {
            assert(sine(d) == 0 && cosine(d) == u);
        } else if d % 360 == 90 {
            assert(sine(d) == u && cosine(d) == 0);
        } else if d % 360 == 180 {
            assert(sine(d) == 0 && cosine(d) == -u);
        } else {
            assert(sine(d) == -u && cosine(d) == 0);
        }
        let s = sine(d);
        let c = cosine(d);
        assert(c == 0 ==> c * x == 0 && c * y == 0) by (nonlinear_arith);
        assert(s == 0 ==> s * x == 0 && s * y == 0) by (nonlinear_arith);
        assert(c == -u ==> c * x == u * (-x) && c * y == u * (-y)) by (nonlinear_arith);
        assert(s == -u ==> s * x == u * (-x) && s * y == u * (-y) && -(s * x) == u * x)
            by (nonlinear_arith);
        assert(s == u ==> -(s * x) == u * (-x)) by (nonlinear_arith);
    }
    assert(leg * scale * ANGLE_UNIT == u * (leg * scale)) by (nonlinear_arith)
        requires
            u == ANGLE_UNIT,
    ;
    lemma_right_isosceles_scales(u, p.0, p.1, leg * scale);
}

proof fn lemma_pixel_scales(
    atoms: Seq<AtomInCell>,
    big: Seq<AtomInCell>,
    a: int,
    k: int,
    background: int,
    n: int,
    i: int,
    j: int,
)
    requires
        k > 0,
        is_scaled_base(atoms, big, k),
    ensures
        pixel_value(big, k * a, background, n, i, j) == pixel_value(atoms, a, background, n, i, j),
    decreases atoms.len(),
{
    if atoms.len() > 0 {
        let atom = atoms.last();
        let other = big.last();
        let x = scaled_offset(a, i, n, atom.center.0 as int);
        let y = scaled_offset(a, j, n, atom.center.1 as int);
        assert(scaled_offset(k * a, i, n, atom.center.0 as int) == k * x) by (nonlinear_arith)
            requires
                x == scaled_offset(a, i, n, atom.center.0 as int),
        ;
        assert(scaled_offset(k * a, j, n, atom.center.1 as int) == k * y) by (nonlinear_arith)
            requires
                y == scaled_offset(a, j, n, atom.center.1 as int),
        ;
        lemma_shape_scales(atom.shape, other.shape, k, x, y, coordinate_scale(n));
        assert(atom_covers(other, k * a, n, i, j) == atom_covers(atom, a, n, i, j));
        assert(is_scaled_base(atoms.drop_last(), big.drop_last(), k));
        lemma_pixel_scales(atoms.drop_last(), big.drop_last(), a, k, background, n, i, j);
    }
}

/// Scale invariance: multiplying the lattice constant and every length of every shape
/// by the same `k > 0`, with fractional centres and materials kept, gives the same
/// grid, hence the same zero-mean field to transform and, from the same transform,
/// the same coefficient table.
pub proof fn lemma_scale_invariance(
    atoms: Seq<AtomInCell>,
    big: Seq<AtomInCell>,
    a: int,
    k: int,
    background: int,
    n: int,
    raw: Seq<Seq<Coefficient>>,
)
    requires
        k > 0,
        is_scaled_base(atoms, big, k),
    ensures
        rasterized(big, k * a, background, n) == rasterized(atoms, a, background, n),
        zero_mean(rasterized(big, k * a, background, n), n) == zero_mean(
            rasterized(atoms, a, background, n),
            n,
        ),
        table_for(n, grid_sum(rasterized(big, k * a, background, n)), n, raw) == table_for(
            n,
            grid_sum(rasterized(atoms, a, background, n)),
            n,
            raw,
        ),
{
    assert forall|i: int, j: int|
        pixel_value(big, k * a, background, n, i, j) == pixel_value(
            atoms,
            a,
            background,
            n,
            i,
            j,
        ) by {
        lemma_pixel_scales(atoms, big, a, k, background, n, i, j);
    }
    assert(rasterized(big, k * a, background, n) =~~= rasterized(atoms, a, background, n));
}

/// Scale invariance between two scalings: a base and a lattice constant scaled by
/// `p`, and the same scaled by `q`, give one grid. Their lengths stand in the ratio
/// `p / q`, which need not be whole.
pub proof fn lemma_scale_invariance_between(
    atoms: Seq<AtomInCell>,
    first: Seq<AtomInCell>,
    second: Seq<AtomInCell>,
    a: int,
    p: int,
    q: int,
    background: int,
    n: int,
)
    requires
        p > 0,
        q > 0,
        is_scaled_base(atoms, first, p),
        is_scaled_base(atoms, second, q),
    ensures
        rasterized(first, p * a, background, n) == rasterized(second, q * a, background, n),
{
    lemma_scale_invariance(atoms, first, a, p, background, n, Seq::empty());
    lemma_scale_invariance(atoms, second, a, q, background, n, Seq::empty());
}

/// Whether `transform` answers one field with one spectrum: whatever it may return
/// for two fields of the same rows has the same rows.
pub open spec fn single_valued<F: Fn(&Vec<Vec<i64>>) -> Vec<Vec<Coefficient>>>(transform: F) -> bool {
    forall|f1: Vec<Vec<i64>>, f2: Vec<Vec<i64>>, s1: Vec<Vec<Coefficient>>, s2: Vec<Vec<Coefficient>>|
        field_rows(f1) == field_rows(f2) && #[trigger] transform.ensures((&f1,), s1)
            && #[trigger] transform.ensures((&f2,), s2) ==> rows_of(s1) == rows_of(s2)
}

/// Scale invariance of the whole engine: with a transform that answers one field with
/// one spectrum, the engine returns for a base and a lattice constant, both scaled by
/// `k > 0`, what it returns for them unscaled: the same table entry for entry, or the
/// same error.
pub proof fn lemma_engine_scale_invariance<F: Fn(&Vec<Vec<i64>>) -> Vec<Vec<Coefficient>>>(
    transform: F,
    atoms: Seq<AtomInCell>,
    big: Seq<AtomInCell>,
    a: int,
    k: int,
    background: int,
    n: int,
    res: Result<FourierTable, EngineError>,
    res_big: Result<FourierTable, EngineError>,
)
    requires
        k > 0,
        is_scaled_base(atoms, big, k),
        single_valued(transform),
        engine_outcome(transform, atoms, a, background, n, res),
        engine_outcome(transform, big, k * a, background, n, res_big),
    ensures
        outcome(res_big) == outcome(res),
{
    assert((k * a == 0) == (a == 0)) by (nonlinear_arith)
        requires
            k > 0,
    ;
    assert(all_supported(big) == all_supported(atoms)) by {
        assert forall|m: int| 0 <= m < atoms.len() implies shape_supported(big[m].shape)
            == shape_supported(atoms[m].shape) by {
            assert(is_scaled_shape(atoms[m].shape, big[m].shape, k));
        }
        if all_supported(atoms) {
            assert forall|m: int| 0 <= m < big.len() implies shape_supported(
                (#[trigger] big[m]).shape,
            ) by {
                assert(shape_supported(atoms[m].shape));
            }
        }
        if all_supported(big) {
            assert forall|m: int| 0 <= m < atoms.len() implies shape_supported(
                (#[trigger] atoms[m]).shape,
            ) by {
                assert(shape_supported(big[m].shape));
            }
        }
    }
    if n != 0 && a != 0 && all_supported(atoms) {
        let grid = rasterized(atoms, a, background, n);
        let grid_big = rasterized(big, k * a, background, n);
        lemma_scale_invariance(atoms, big, a, k, background, n, Seq::empty());
        assert(grid_big == grid);
        let (f1, s1) = choose|f1: Vec<Vec<i64>>, s1: Vec<Vec<Coefficient>>|
            made_through(transform, grid, f1, s1, res);
        let (f2, s2) = choose|f2: Vec<Vec<i64>>, s2: Vec<Vec<Coefficient>>|
            made_through(transform, grid_big, f2, s2, res_big);
        assert(field_rows(f1) == field_rows(f2));
        assert(transform.ensures((&f1,), s1));
        assert(transform.ensures((&f2,), s2));
        assert(rows_of(s1) == rows_of(s2));
    }
}

} // verus!
