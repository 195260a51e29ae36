use vstd::prelude::*;
use crate::fourier::{centered, is_square_table, Coefficient};
use crate::geometry::{AtomInCell, FRACTION_UNIT};
use crate::raster::{atom_covers, in_circle, pixel_value, scaled_offset};

verus! {

/// Whether every atom is a circle with its centre on the diagonal `s = t`.
pub open spec fn circles_on_the_diagonal(atoms: Seq<AtomInCell>) -> bool {
    forall|k: int|
        0 <= k < atoms.len() ==> (#[trigger] atoms[k]).shape is Circle && atoms[k].center.0
            == atoms[k].center.1
}

/// Whether `moved` holds the atoms of `atoms`, each with the same shape and material
/// and with its centre moved by `shift` counts along x.
pub open spec fn is_moved_along_x(atoms: Seq<AtomInCell>, moved: Seq<AtomInCell>, shift: int) -> bool {
    &&& moved.len() == atoms.len()
    &&& forall|k: int|
        0 <= k < atoms.len() ==> {
            &&& (#[trigger] moved[k]).shape == atoms[k].shape
            &&& moved[k].material == atoms[k].material
            &&& moved[k].center.0 == atoms[k].center.0 + shift
            &&& moved[k].center.1 == atoms[k].center.1
        }
}

/// Symmetry about the diagonal: circles with their centres on the diagonal give a
/// grid that is its own transpose.
pub proof fn lemma_diagonal_circles_give_symmetric_grid(
    atoms: Seq<AtomInCell>,
    a: int,
    background: int,
    n: int,
    i: int,
    j: int,
)
    requires
        circles_on_the_diagonal(atoms),
    ensures
        pixel_value(atoms, a, background, n, i, j) == pixel_value(atoms, a, background, n, j, i),
    decreases atoms.len(),
{
    if atoms.len() > 0 {
        let atom = atoms.last();
        assert(atom == atoms[atoms.len() - 1]);
        let x = scaled_offset(a, i, n, atom.center.0 as int);
        let y = scaled_offset(a, j, n, atom.center.0 as int);
        assert(forall|r: int| in_circle(x, y, r) == in_circle(y, x, r));
        assert(atom_covers(atom, a, n, i, j) == atom_covers(atom, a, n, j, i));
        let rest = atoms.drop_last();
        assert forall|k: int| 0 <= k < rest.len() implies (#[trigger] rest[k]).shape is Circle
            && rest[k].center.0 == rest[k].center.1 by {
            assert(rest[k] == atoms[k]);
        }
        lemma_diagonal_circles_give_symmetric_grid(rest, a, background, n, i, j);
    }
}

/// Translation: moving every centre along x by `shift` counts that make `rows` whole
/// pixels, `n * shift == rows * FRACTION_UNIT`, moves the picture by `rows` rows: the
/// moved base has at pixel `(i + rows, j)` what the base has at `(i, j)`.
pub proof fn lemma_moving_centres_moves_the_grid(
    atoms: Seq<AtomInCell>,
    moved: Seq<AtomInCell>,
    shift: int,
    rows: int,
    a: int,
    background: int,
    n: int,
    i: int,
    j: int,
)
    requires
        is_moved_along_x(atoms, moved, shift),
        n * shift == rows * FRACTION_UNIT,
    ensures
        pixel_value(moved, a, background, n, i + rows, j) == pixel_value(
            atoms,
            a,
            background,
            n,
            i,
            j,
        ),
    decreases atoms.len(),
{
    if atoms.len() > 0 {
        let atom = atoms.last();
        let other = moved.last();
        assert(atom == atoms[atoms.len() - 1]);
        assert(other == moved[atoms.len() - 1]);
        let s = atom.center.0 as int;
        assert((2 * (i + rows) - (n - 1)) * FRACTION_UNIT - 2 * n * (s + shift) == (2 * i - (n
            - 1)) * FRACTION_UNIT - 2 * n * s) by (nonlinear_arith)
            requires
                n * shift == rows * FRACTION_UNIT,
        ;
        assert(scaled_offset(a, i + rows, n, other.center.0 as int) == scaled_offset(a, i, n, s));
        assert(atom_covers(other, a, n, i + rows, j) == atom_covers(atom, a, n, i, j));
        let rest = atoms.drop_last();
        let moved_rest = moved.drop_last();
        assert forall|k: int| 0 <= k < rest.len() implies {
            &&& (#[trigger] moved_rest[k]).shape == rest[k].shape
            &&& moved_rest[k].material == rest[k].material
            &&& moved_rest[k].center.0 == rest[k].center.0 + shift
            &&& moved_rest[k].center.1 == rest[k].center.1
        } by {
            assert(rest[k] == atoms[k]);
            assert(moved_rest[k] == moved[k]);
        }
        lemma_moving_centres_moves_the_grid(rest, moved_rest, shift, rows, a, background, n, i, j);
    }
}

/// Centring keeps symmetry: where the raw transform is its own transpose, so is the
/// centred table. With a grid that is its own transpose, and a transform that answers
/// such a field with such a spectrum, the coefficient of order `(m, k)` is that of
/// order `(k, m)`.
pub proof fn lemma_centring_keeps_symmetry(
    raw: Seq<Seq<Coefficient>>,
    total: int,
    n: int,
    r: int,
    c: int,
)
    requires
        is_square_table(raw, n),
        forall|i: int, j: int| 0 <= i < n && 0 <= j < n ==> #[trigger] raw[i][j] == raw[j][i],
        0 <= r < n,
        0 <= c < n,
    ensures
        centered(raw, total, n)[r][c] == centered(raw, total, n)[c][r],
{
}

} // verus!
