use vstd::prelude::*;
use crate::fourier::{
    calculate_all_xi, field_rows, grid_sum, rows_of, table_for, zero_mean, Coefficient, FourierTable,
};
use crate::geometry::{AtomInCell, UnitCellBase};
use crate::raster::{
    all_supported, covers, is_supported, lemma_pixel_value_source, pixel_value, rasterized,
    shape_supported, DielectricGrid, EngineError, MAX_GRID_SIZE,
};
use crate::store::{array_filled, array_rows, array_set, is_square};

verus! {

/// What a fallible step returned, with a table taken by its entries.
pub open spec fn outcome(res: Result<FourierTable, EngineError>) -> Result<
    Seq<Seq<Coefficient>>,
    EngineError,
> {
    match res {
        Ok(table) => Ok(table@),
        Err(e) => Err(e),
    }
}

/// Whether `res` is the table of the square grid `grid`, made from what `transform`
/// returned for its zero-mean field: `field` holds that field, `transform` called on
/// it may return `spectrum`, and `res` is what `table_for` says for `spectrum`.
pub open spec fn made_through<F: Fn(&Vec<Vec<i64>>) -> Vec<Vec<Coefficient>>>(
    transform: F,
    grid: Seq<Seq<int>>,
    field: Vec<Vec<i64>>,
    spectrum: Vec<Vec<Coefficient>>,
    res: Result<FourierTable, EngineError>,
) -> bool {
    &&& field_rows(field) == zero_mean(grid, grid.len() as int)
    &&& transform.ensures((&field,), spectrum)
    &&& outcome(res) == table_for(
        grid.len() as int,
        grid_sum(grid),
        grid.len() as int,
        rows_of(spectrum),
    )
}

/// What the engine's table function may return for the atoms `atoms` on a grid of side
/// `n`: the rasterizer's error where it has one, and otherwise a table made through
/// `transform` from the grid of `atoms`.
pub open spec fn engine_outcome<F: Fn(&Vec<Vec<i64>>) -> Vec<Vec<Coefficient>>>(
    transform: F,
    atoms: Seq<AtomInCell>,
    a: int,
    background: int,
    n: int,
    res: Result<FourierTable, EngineError>,
) -> bool {
    if n == 0 || a == 0 {
        res == Err::<FourierTable, EngineError>(EngineError::InvalidGeometry)
    } else if !all_supported(atoms) {
        res == Err::<FourierTable, EngineError>(EngineError::UnsupportedShape)
    } else {
        exists|field: Vec<Vec<i64>>, spectrum: Vec<Vec<Coefficient>>|
            made_through(transform, rasterized(atoms, a, background, n), field, spectrum, res)
    }
}

/// The Fourier coefficients of a unit cell's base.
pub trait UnitCellFourier {
    /// The placed shapes, in the order in which they are drawn.
    spec fn placed(&self) -> Seq<AtomInCell>;

    /// Samples the unit cell on a `grid_size` by `grid_size` grid.
    ///
    /// Every pixel starts as `epsilon_background`; each atom, in order, then overwrites
    /// the pixels whose centre it covers with its own in-plane dielectric constant, so
    /// that a pixel ends with the constant of the last atom that covers it. A grid side
    /// or a lattice constant of zero is `InvalidGeometry`; otherwise a shape that
    /// `shape_supported` refuses is `UnsupportedShape`.
    ///
    /// The grid side may be any up to [`MAX_GRID_SIZE`]: a larger grid of eight-byte
    /// samples cannot be allocated on every target, and up to it the membership
    /// tests fit 128 bits.
    fn generate_grid(&self, lattice_constant: u32, epsilon_background: u32, grid_size: usize) -> (res:
        Result<DielectricGrid, EngineError>)
        requires
            grid_size <= MAX_GRID_SIZE,
        ensures
            res is Ok <==> (grid_size > 0 && lattice_constant > 0 && all_supported(self.placed())),
            res == Err::<DielectricGrid, EngineError>(EngineError::InvalidGeometry) <==> (grid_size
                == 0 || lattice_constant == 0),
            res == Err::<DielectricGrid, EngineError>(EngineError::UnsupportedShape) <==> (
            grid_size > 0 && lattice_constant > 0 && !all_supported(self.placed())),
            res is Ok ==> res.unwrap().wf() && res.unwrap().side() == grid_size
                && res.unwrap()@ == rasterized(
                self.placed(),
                lattice_constant as int,
                epsilon_background as int,
                grid_size as int,
            ),
    ;

    /// The coefficient table of the unit cell: the grid of `generate_grid`, its
    /// zero-mean field handed to `transform`, and what came back made into the table
    /// by [`calculate_all_xi`](crate::fourier::calculate_all_xi).
    ///
    /// `transform` is the two-dimensional discrete transform with the positive
    /// exponent, divided by the number of pixels and rounded to whole parts. Whatever
    /// it returns, the entry of order (0, 0) is the exact sum of the grid's samples
    /// with no imaginary part; a result of the wrong shape is `InvalidGeometry`.
    fn calculate_all_xi<F: Fn(&Vec<Vec<i64>>) -> Vec<Vec<Coefficient>>>(
        &self,
        lattice_constant: u32,
        epsilon_background: u32,
        grid_size: usize,
        transform: F,
    ) -> (res: Result<FourierTable, EngineError>)
        requires
            grid_size <= MAX_GRID_SIZE,
            forall|field: &Vec<Vec<i64>>| transform.requires((field,)),
        ensures
            engine_outcome(
                transform,
                self.placed(),
                lattice_constant as int,
                epsilon_background as int,
                grid_size as int,
                res,
            ),
            res is Ok ==> res.unwrap().wf() && res.unwrap().side() == grid_size
                && res.unwrap().denominator() == grid_size * grid_size
                && res.unwrap()@[grid_size as int / 2][grid_size as int / 2].im == 0
                && res.unwrap()@[grid_size as int / 2][grid_size as int / 2].re == grid_sum(
                rasterized(
                    self.placed(),
                    lattice_constant as int,
                    epsilon_background as int,
                    grid_size as int,
                ),
            ),
    {
        let grid = match self.generate_grid(lattice_constant, epsilon_background, grid_size) {
            Ok(grid) => grid,
            Err(e) => {
                return Err(e);
            },
        };
        let field = grid.zero_mean_field();
        let spectrum = transform(&field);
        let res = calculate_all_xi(&grid, grid_size, &spectrum);
        proof {
            assert(made_through(transform, grid@, field, spectrum, res));
        }
        res
    }
}

/// The dielectric constant at pixel `(i, j)`.
fn value_at(base: &UnitCellBase, a: u32, background: u32, n: usize, i: usize, j: usize) -> (value: i64)
    requires
        1 <= n <= MAX_GRID_SIZE,
        i < n,
        j < n,
        all_supported(base.atoms@),
    ensures
        value == pixel_value(base.atoms@, a as int, background as int, n as int, i as int, j as int),
        0 <= value <= u32::MAX,
{
    let mut value: i64 = background as i64;
    let mut k: usize = 0;
    while k < base.atoms.len()
        invariant
            1 <= n <= MAX_GRID_SIZE,
            i < n,
            j < n,
            all_supported(base.atoms@),
            k <= base.atoms@.len(),
            0 <= value <= u32::MAX,
            value == pixel_value(
                base.atoms@.take(k as int),
                a as int,
                background as int,
                n as int,
                i as int,
                j as int,
            ),
        decreases base.atoms@.len() - k,
    {
        let atom = &base.atoms[k];
        if covers(atom, a, n, i, j) {
            value = atom.material.in_plane_eps() as i64;
        }
        proof {
            let next = base.atoms@.take(k + 1);
            assert(next.last() == base.atoms@[k as int]);
            assert(next.drop_last() =~= base.atoms@.take(k as int));
        }
        k += 1;
    }
    proof {
        assert(base.atoms@.take(k as int) =~= base.atoms@);
    }
    value
}

impl UnitCellFourier for UnitCellBase {
    open spec fn placed(&self) -> Seq<AtomInCell> {
        self.atoms@
    }

    fn generate_grid(&self, lattice_constant: u32, epsilon_background: u32, grid_size: usize) -> (res:
        Result<DielectricGrid, EngineError>) {
        if grid_size == 0 || lattice_constant == 0 {
            return Err(EngineError::InvalidGeometry);
        }
        let mut k: usize = 0;
        while k < self.atoms.len()
            invariant
                grid_size > 0,
                lattice_constant > 0,
                k <= self.atoms@.len(),
                forall|m: int| 0 <= m < k ==> shape_supported((#[trigger] self.atoms@[m]).shape),
            decreases self.atoms@.len() - k,
        {
            if !is_supported(&self.atoms[k].shape) {
                assert(!shape_supported(self.atoms@[k as int].shape));
                return Err(EngineError::UnsupportedShape);
            }
            k += 1;
        }
        let n = grid_size;
        assert(n * n * 8 <= isize::MAX) by (nonlinear_arith)
            requires
                n <= 16383,
                isize::MAX >= 0x7fff_ffff,
        ;
        let mut cells = array_filled(n, n, epsilon_background as i64);
        let ghost target = rasterized(
            self.atoms@,
            lattice_constant as int,
            epsilon_background as int,
            n as int,
        );
        let mut i: usize = 0;
        while i < n
            invariant
                1 <= n <= MAX_GRID_SIZE,
                all_supported(self.atoms@),
                i <= n,
                is_square(array_rows(cells), n as int),
                target == rasterized(
                    self.atoms@,
                    lattice_constant as int,
                    epsilon_background as int,
                    n as int,
                ),
                forall|r: int, c: int|
                    0 <= r < i && 0 <= c < n ==> (#[trigger] array_rows(cells)[r][c]) == target[r][c],
            decreases n - i,
        {
            let mut j: usize = 0;
            while j < n
                invariant
                    1 <= n <= MAX_GRID_SIZE,
                    all_supported(self.atoms@),
                    i < n,
                    j <= n,
                    is_square(array_rows(cells), n as int),
                    target == rasterized(
                        self.atoms@,
                        lattice_constant as int,
                        epsilon_background as int,
                        n as int,
                    ),
                    forall|r: int, c: int|
                    0 <= r < i && 0 <= c < n ==> (#[trigger] array_rows(cells)[r][c]) == target[r][c],
                    forall|c: int|
                        0 <= c < j ==> (#[trigger] array_rows(cells)[i as int][c])
                            == target[i as int][c],
                decreases n - j,
            {
                let value = value_at(self, lattice_constant, epsilon_background, n, i, j);
                array_set(&mut cells, i, j, value);
                j += 1;
            }
            i += 1;
        }
        proof {
            assert forall|r: int, c: int| 0 <= r < n && 0 <= c < n implies 0 <= (
            #[trigger] target[r][c]) <= u32::MAX by {
                lemma_pixel_value_source(
                    self.atoms@,
                    lattice_constant as int,
                    epsilon_background as int,
                    n as int,
                    r,
                    c,
                );
            }
        }
        let grid = DielectricGrid::from_cells(cells, n);
        proof {
            assert(grid@ =~~= target);
        }
        Ok(grid)
    }
}

} // verus!
